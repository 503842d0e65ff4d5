//! Checksums of file content and expansion of paths.

use vstd::prelude::*;
use vstd::slice::slice_subrange;

verus! {

/// The state of a CRC-32 checksum that stood at `crc` and then took in
/// `bytes`, as `crc32fast` computes it. A fresh checksum stands at 0.
pub uninterp spec fn crc32_update(crc: u32, bytes: Seq<u8>) -> u32;

/// The CRC-32 checksum of a sequence of bytes.
pub open spec fn crc32_of(bytes: Seq<u8>) -> u32 {
    crc32_update(0, bytes)
}

/// Resumes a checksum at the state `crc` with
/// `crc32fast::Hasher::new_with_initial`, lets it take in `chunk` with
/// `Hasher::update` and returns the state that `Hasher::finalize` hands
/// out. The hasher goes through the bytes one after the other and keeps
/// nothing but its state, so taking in `chunk` after other bytes is taking
/// in those bytes followed by `chunk`.
#[verifier::external_body]
fn update_crc(crc: u32, chunk: &[u8]) -> (next: u32)
    ensures
        next == crc32_update(crc, chunk@),
        forall|start: u32, before: Seq<u8>|
            crc == #[trigger] crc32_update(start, before) ==> next == crc32_update(
                start,
                before + chunk@,
            ),
{
    let mut hasher = crc32fast::Hasher::new_with_initial(crc);
    hasher.update(chunk);
    hasher.finalize()
}

/// The text holds nothing to expand: no `$` anywhere and no `~` at its
/// start.
pub open spec fn is_plain_path(text: Seq<char>) -> bool {
    &&& forall|i: int| 0 <= i < text.len() ==> text[i] != '$'
    &&& text.len() == 0 || text[0] != '~'
}

/// Expands a leading `~` and the environment variables in a path with
/// `shellexpand::full`; where a variable cannot be looked up, the path
/// comes back as it was. What an expansion gives depends on the
/// environment of the process, so nothing is claimed of it; a text that
/// holds nothing to expand comes back as it was, whatever the environment.
#[verifier::external_body]
pub fn env_expand(path: &str) -> (expanded: String)
    ensures
        is_plain_path(path@) ==> expanded@ == path@,
{
    shellexpand::full(path).unwrap_or(std::borrow::Cow::Borrowed(path)).to_string()
}

/// How many bytes `crc32` hands to the running checksum at a time.
pub const BUFFER_SIZE: usize = 4096;

/// A checksum in progress, for content that arrives piece by piece.
pub struct Checksum {
    state: u32,
    input: Ghost<Seq<u8>>,
}

impl View for Checksum {
    type V = Seq<u8>;

    /// The bytes taken in so far.
    closed spec fn view(&self) -> Seq<u8> {
        self.input@
    }
}

impl Checksum {
    /// The state is that of a fresh checksum that took in the bytes.
    #[verifier::type_invariant]
    spec fn well_formed(self) -> bool {
        self.state == crc32_of(self.input@)
    }

    pub fn new() -> (checksum: Checksum)
        ensures
            checksum@ == Seq::<u8>::empty(),
    {
        let nothing: [u8; 0] = [];
        let state = update_crc(0, nothing.as_slice());
        assert(nothing@ =~= Seq::<u8>::empty());
        Checksum { state, input: Ghost(Seq::empty()) }
    }

    /// Takes in the next piece of the content.
    pub fn update(&mut self, chunk: &[u8])
        ensures
            final(self)@ == old(self)@ + chunk@,
    {
        proof {
            use_type_invariant(&*self);
        }
        let state = update_crc(self.state, chunk);
        let ghost input = self.input@ + chunk@;
        *self = Checksum { state, input: Ghost(input) };
    }

    /// The checksum of everything taken in.
    pub fn finalize(self) -> (crc: u32)
        ensures
            crc == crc32_of(self@),
    {
        proof {
            use_type_invariant(&self);
        }
        self.state
    }
}

/// Computes the checksum of a file's content, a buffer at a time.
pub fn crc32(data: &[u8]) -> (crc: u32)
    ensures
        crc == crc32_of(data@),
{
    let mut checksum = Checksum::new();
    let mut done: usize = 0;
    assert(data@.take(0) =~= Seq::<u8>::empty());
    while done < data.len()
        invariant
            done <= data.len(),
            checksum@ == data@.take(done as int),
        decreases data.len() - done,
    {
        let left = data.len() - done;
        let end = if left < BUFFER_SIZE {
            data.len()
        } else {
            done + BUFFER_SIZE
        };
        let chunk = slice_subrange(data, done, end);
        checksum.update(chunk);
        assert(data@.take(done as int) + chunk@ =~= data@.take(end as int));
        done = end;
    }
    assert(data@.take(done as int) =~= data@);
    checksum.finalize()
}

/// The checksum of content that arrived in the pieces `chunks`: that of
/// the pieces put end to end.
pub open spec fn chunked_checksum(chunks: Seq<Seq<u8>>) -> u32 {
    crc32_of(chunks.flatten())
}

/// Computes the checksum of content that is held in pieces.
pub fn crc32_chunks(chunks: &Vec<Vec<u8>>) -> (crc: u32)
    ensures
        crc == chunked_checksum(chunks.deep_view()),
{
    let mut checksum = Checksum::new();
    let ghost all = chunks.deep_view();
    let mut i: usize = 0;
    assert(all.take(0) =~= Seq::<Seq<u8>>::empty());
    while i < chunks.len()
        invariant
            i <= chunks@.len(),
            all == chunks.deep_view(),
            checksum@ == all.take(i as int).flatten(),
        decreases chunks.len() - i,
    {
        checksum.update(chunks[i].as_slice());
        proof {
            assert(all.take(i + 1) =~= all.take(i as int).push(all[i as int]));
            all.take(i as int).lemma_flatten_push(all[i as int]);
            assert(chunks@[i as int].deep_view() =~= chunks@[i as int]@);
        }
        i = i + 1;
    }
    assert(all.take(i as int) =~= all);
    checksum.finalize()
}

/// The checksum depends on the content alone: however the same bytes are
/// cut into pieces, and wherever they come from, the checksum is the same,
/// and it is the checksum of the content taken whole.
pub proof fn lemma_checksum_of_content(first: Seq<Seq<u8>>, second: Seq<Seq<u8>>)
    requires
        first.flatten() == second.flatten(),
    ensures
        chunked_checksum(first) == chunked_checksum(second),
        chunked_checksum(first) == crc32_of(first.flatten()),
{
}

} // verus!
