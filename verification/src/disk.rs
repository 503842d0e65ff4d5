//! What is known of the disk: the paths that were found on it.
//!
//! The library never touches the disk. Whoever calls it looks the paths up
//! and hands over a snapshot; every decision that depends on a file being
//! there is taken against that snapshot.

use vstd::prelude::*;
use crate::text::str_eq;

verus! {

/// The paths that exist, as far as the caller has found out.
#[derive(Clone, Debug)]
pub struct DiskSnapshot {
    present: Vec<String>,
}

impl View for DiskSnapshot {
    type V = Set<Seq<char>>;

    /// The set of paths that exist.
    closed spec fn view(&self) -> Set<Seq<char>> {
        Set::new(
            |path: Seq<char>|
                exists|i: int| 0 <= i < self.present@.len() && (#[trigger] self.present@[i])@ == path,
        )
    }
}

/// Some string of `paths` holds the text `path`.
pub open spec fn lists_path(paths: Seq<String>, path: Seq<char>) -> bool {
    exists|i: int| 0 <= i < paths.len() && (#[trigger] paths[i])@ == path
}

impl DiskSnapshot {
    /// A disk on which nothing was found.
    pub fn new() -> (disk: DiskSnapshot)
        ensures
            disk@ == Set::<Seq<char>>::empty(),
    {
        let disk = DiskSnapshot { present: Vec::new() };
        assert(disk@ =~= Set::<Seq<char>>::empty());
        disk
    }

    /// A disk on which exactly the given paths were found.
    pub fn from_paths(paths: Vec<String>) -> (disk: DiskSnapshot)
        ensures
            forall|path: Seq<char>| disk@.contains(path) <==> lists_path(paths@, path),
    {
        DiskSnapshot { present: paths }
    }

    /// Notes that `path` exists.
    pub fn record(&mut self, path: &str)
        ensures
            final(self)@ == old(self)@.insert(path@),
    {
        let owned = path.to_owned();
        let ghost before = self.present@;
        self.present.push(owned);
        proof {
            let after = self.present@;
            assert forall|p: Seq<char>| final(self)@.contains(p) <==> old(self)@.insert(
                path@,
            ).contains(p) by {
                if old(self)@.contains(p) {
                    let i = choose|i: int| 0 <= i < before.len() && (#[trigger] before[i])@ == p;
                    assert(after[i]@ == p);
                }
                if p == path@ {
                    assert(after[before.len() as int]@ == p);
                }
                if final(self)@.contains(p) {
                    let i = choose|i: int| 0 <= i < after.len() && (#[trigger] after[i])@ == p;
                    if i < before.len() {
                        assert(before[i]@ == p);
                    }
                }
            }
            assert(final(self)@ =~= old(self)@.insert(path@));
        }
    }

    /// Tells whether `path` exists.
    pub fn contains(&self, path: &str) -> (found: bool)
        ensures
            found == self@.contains(path@),
    {
        let mut i: usize = 0;
        while i < self.present.len()
            invariant
                i <= self.present@.len(),
                forall|j: int| 0 <= j < i ==> (#[trigger] self.present@[j])@ != path@,
            decreases self.present.len() - i,
        {
            if str_eq(self.present[i].as_str(), path) {
                return true;
            }
            i = i + 1;
        }
        false
    }
}

} // verus!
