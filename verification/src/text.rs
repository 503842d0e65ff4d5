//! Comparing and composing the strings that the launcher handles: names are
//! ordered by their UTF-8 bytes, paths are joined with a slash.

use vstd::prelude::*;
use vstd::string::StringExecFns;
use vstd::string::StrSliceExecFns;
use vstd::string::StringSliceAdditionalSpecFns;
use vstd::utf8::encode_utf8_decode_utf8;

verus! {

/// The two sequences agree on their first `k` items.
pub open spec fn common_prefix(a: Seq<u8>, b: Seq<u8>, k: int) -> bool {
    &&& 0 <= k <= a.len()
    &&& k <= b.len()
    &&& forall|j: int| 0 <= j < k ==> a[j] == b[j]
}

/// After `k` common items, `a` ends or holds the smaller item.
pub open spec fn less_at(a: Seq<u8>, b: Seq<u8>, k: int) -> bool {
    &&& common_prefix(a, b, k)
    &&& k < b.len()
    &&& k < a.len() ==> a[k] < b[k]
}

/// `a` comes strictly before `b` in dictionary order.
pub open spec fn lex_lt(a: Seq<u8>, b: Seq<u8>) -> bool {
    exists|k: int| less_at(a, b, k)
}

/// An upper-case ASCII letter becomes its lower-case form; any other byte
/// stays.
pub open spec fn fold_byte(b: u8) -> u8 {
    if 0x41 <= b <= 0x5a {
        (b + 0x20) as u8
    } else {
        b
    }
}

/// The bytes with every ASCII letter in lower case.
pub open spec fn fold_case(s: Seq<u8>) -> Seq<u8> {
    Seq::new(s.len(), |i: int| fold_byte(s[i]))
}

/// The bytes by which a name is ordered: its UTF-8 encoding, with ASCII
/// letters in lower case where case is to be ignored.
pub open spec fn sort_key(s: Seq<char>, ignore_case: bool) -> Seq<u8> {
    if ignore_case {
        fold_case(vstd::utf8::encode_utf8(s))
    } else {
        vstd::utf8::encode_utf8(s)
    }
}

/// Nothing comes before itself.
pub proof fn lemma_lex_irreflexive(a: Seq<u8>)
    ensures
        !lex_lt(a, a),
{
}

/// Of two sequences at most one comes before the other.
pub proof fn lemma_lex_asymmetric(a: Seq<u8>, b: Seq<u8>)
    requires
        lex_lt(a, b),
    ensures
        !lex_lt(b, a),
{
    let k = choose|k: int| less_at(a, b, k);
    if lex_lt(b, a) {
        let m = choose|m: int| less_at(b, a, m);
        if m < k {
            assert(a[m] == b[m]);
        } else if k < m {
            assert(b[k] == a[k]);
        }
    }
}

/// Dictionary order is transitive.
pub proof fn lemma_lex_transitive(a: Seq<u8>, b: Seq<u8>, c: Seq<u8>)
    requires
        lex_lt(a, b),
        lex_lt(b, c),
    ensures
        lex_lt(a, c),
{
    let k = choose|k: int| less_at(a, b, k);
    let m = choose|m: int| less_at(b, c, m);
    let n = if k <= m {
        k
    } else {
        m
    };
    assert forall|j: int| 0 <= j < n implies a[j] == c[j] by {
        assert(a[j] == b[j]);
        assert(b[j] == c[j]);
    }
    if k < m {
        assert(b[k] == c[k]);
    } else if m < k {
        assert(a[m] == b[m]);
    }
    assert(less_at(a, c, n));
}

/// Two different sequences are ordered one way or the other.
pub proof fn lemma_lex_total(a: Seq<u8>, b: Seq<u8>)
    ensures
        a == b || lex_lt(a, b) || lex_lt(b, a),
{
    lemma_lex_total_from(a, b, 0);
}

proof fn lemma_lex_total_from(a: Seq<u8>, b: Seq<u8>, k: int)
    requires
        common_prefix(a, b, k),
    ensures
        a == b || lex_lt(a, b) || lex_lt(b, a),
    decreases a.len() - k,
{
    if k == a.len() {
        if k == b.len() {
            assert(a =~= b);
        } else {
            assert(less_at(a, b, k));
        }
    } else if k == b.len() {
        assert(less_at(b, a, k));
    } else if a[k] < b[k] {
        assert(less_at(a, b, k));
    } else if b[k] < a[k] {
        assert(less_at(b, a, k));
    } else {
        lemma_lex_total_from(a, b, k + 1);
    }
}

/// Strings with the same UTF-8 encoding are the same string.
pub proof fn lemma_same_bytes_same_text(a: Seq<char>, b: Seq<char>)
    requires
        vstd::utf8::encode_utf8(a) == vstd::utf8::encode_utf8(b),
    ensures
        a == b,
{
    encode_utf8_decode_utf8(a);
    encode_utf8_decode_utf8(b);
}

/// A byte as it counts in a comparison: folded where case is to be
/// ignored.
pub open spec fn keyed_byte(b: u8, ignore_case: bool) -> u8 {
    if ignore_case {
        fold_byte(b)
    } else {
        b
    }
}

fn fold(b: u8, ignore_case: bool) -> (r: u8)
    ensures
        r == keyed_byte(b, ignore_case),
{
    if ignore_case && 0x41 <= b && b <= 0x5a {
        b + 0x20
    } else {
        b
    }
}

/// The bytes of `s`, each folded where case is to be ignored.
pub open spec fn keyed(s: Seq<u8>, ignore_case: bool) -> Seq<u8> {
    if ignore_case {
        fold_case(s)
    } else {
        s
    }
}

/// Tells whether `a` comes strictly before `b` in dictionary order of their
/// bytes, ASCII letters compared without case where `ignore_case` is set.
pub fn bytes_before(a: &[u8], b: &[u8], ignore_case: bool) -> (r: bool)
    ensures
        r == lex_lt(keyed(a@, ignore_case), keyed(b@, ignore_case)),
{
    let ghost ka = keyed(a@, ignore_case);
    let ghost kb = keyed(b@, ignore_case);
    let mut i: usize = 0;
    while i < a.len() && i < b.len()
        invariant
            ka == keyed(a@, ignore_case),
            kb == keyed(b@, ignore_case),
            ka.len() == a@.len(),
            kb.len() == b@.len(),
            common_prefix(ka, kb, i as int),
        decreases a.len() - i,
    {
        let x = fold(a[i], ignore_case);
        let y = fold(b[i], ignore_case);
        assert(x == ka[i as int] && y == kb[i as int]);
        if x != y {
            if x < y {
                assert(less_at(ka, kb, i as int));
            } else {
                assert forall|k: int| !less_at(ka, kb, k) by {
                    if less_at(ka, kb, k) {
                        if k > i {
                            assert(ka[i as int] == kb[i as int]);
                        }
                    }
                }
            }
            return x < y;
        }
        i = i + 1;
    }
    if a.len() < b.len() {
        assert(less_at(ka, kb, i as int));
        true
    } else {
        assert forall|k: int| !less_at(ka, kb, k) by {
            if less_at(ka, kb, k) {
                assert(k < i);
            }
        }
        false
    }
}

/// Tells whether the name `a` comes strictly before the name `b`.
pub fn name_before(a: &str, b: &str, ignore_case: bool) -> (r: bool)
    ensures
        r == lex_lt(sort_key(a@, ignore_case), sort_key(b@, ignore_case)),
{
    bytes_before(a.as_bytes(), b.as_bytes(), ignore_case)
}

/// Tells whether two strings hold the same text.
pub fn str_eq(a: &str, b: &str) -> (r: bool)
    ensures
        r == (a@ == b@),
{
    let x = a.as_bytes();
    let y = b.as_bytes();
    if x.len() != y.len() {
        return false;
    }
    let mut i: usize = 0;
    while i < x.len()
        invariant
            x@ == a.spec_bytes(),
            y@ == b.spec_bytes(),
            x@.len() == y@.len(),
            i <= x@.len(),
            forall|j: int| 0 <= j < i ==> x@[j] == y@[j],
        decreases x.len() - i,
    {
        if x[i] != y[i] {
            return false;
        }
        i = i + 1;
    }
    proof {
        assert(x@ =~= y@);
        lemma_same_bytes_same_text(a@, b@);
    }
    true
}

/// The path of the relative name `name` below `root`: the two joined by
/// one slash, which `root` may already end with; `name` alone where `root`
/// is empty.
pub open spec fn joined(root: Seq<char>, name: Seq<char>) -> Seq<char> {
    if root.len() == 0 || root.last() == '/' {
        root + name
    } else {
        root + seq!['/'] + name
    }
}

/// Joins a relative file name to the folder that holds it.
pub fn join_path(root: &str, name: &str) -> (path: String)
    ensures
        path@ == joined(root@, name@),
{
    let n = root.unicode_len();
    let mut path = String::from_str(root);
    if n > 0 && root.get_char(n - 1) != '/' {
        proof {
            reveal_strlit("/");
            assert("/"@ =~= seq!['/']);
        }
        path.append("/");
    }
    path.append(name);
    path
}

/// The names come in strictly ascending order of their UTF-8 bytes.
pub open spec fn ascending(names: Seq<Seq<char>>) -> bool {
    forall|i: int, j: int|
        0 <= i < j < names.len() ==> lex_lt(
            sort_key(#[trigger] names[i], false),
            sort_key(#[trigger] names[j], false),
        )
}

/// Puts `name` at its place in an ascending list, unless the list has it.
pub fn insert_name(names: &mut Vec<String>, name: &str)
    requires
        ascending(old(names).deep_view()),
    ensures
        ascending(final(names).deep_view()),
        forall|n: Seq<char>|
            final(names).deep_view().contains(n) <==> (old(names).deep_view().contains(n) || n
                == name@),
{
    let ghost before = names.deep_view();
    let ghost key = sort_key(name@, false);
    let mut p: usize = 0;
    while p < names.len() && name_before(names[p].as_str(), name, false)
        invariant
            p <= names@.len(),
            before == names.deep_view(),
            key == sort_key(name@, false),
            forall|j: int| 0 <= j < p ==> lex_lt(sort_key(#[trigger] before[j], false), key),
        decreases names.len() - p,
    {
        p = p + 1;
    }
    if p < names.len() && str_eq(names[p].as_str(), name) {
        assert(before[p as int] == name@);
        assert(before.contains(name@));
        return;
    }
    names.insert(p, name.to_owned());
    proof {
        let after = names.deep_view();
        assert(after =~= before.insert(p as int, name@));
        assert forall|i: int, j: int| 0 <= i < j < after.len() implies lex_lt(
            sort_key(#[trigger] after[i], false),
            sort_key(#[trigger] after[j], false),
        ) by {
            if j == p {
                assert(after[i] == before[i]);
            } else if i == p {
                let at = before[p as int];
                assert(at != name@);
                if sort_key(at, false) == key {
                    lemma_same_bytes_same_text(at, name@);
                }
                lemma_lex_total(sort_key(at, false), key);
                assert(lex_lt(key, sort_key(at, false)));
                assert(after[j] == before[j - 1]);
                if j - 1 > p {
                    lemma_lex_transitive(key, sort_key(at, false), sort_key(before[j - 1], false));
                }
            } else {
                let i0 = if i < p {
                    i
                } else {
                    i - 1
                };
                let j0 = if j < p {
                    j
                } else {
                    j - 1
                };
                assert(after[i] == before[i0]);
                assert(after[j] == before[j0]);
            }
        }
        assert forall|n: Seq<char>| after.contains(n) <==> (before.contains(n) || n
            == name@) by {
            if before.contains(n) {
                let k = choose|k: int| 0 <= k < before.len() && before[k] == n;
                let k1 = if k < p {
                    k
                } else {
                    k + 1
                };
                assert(after[k1] == n);
            }
            if n == name@ {
                assert(after[p as int] == n);
            }
            if after.contains(n) {
                let k = choose|k: int| 0 <= k < after.len() && after[k] == n;
                if k < p {
                    assert(before[k] == n);
                } else if k > p {
                    assert(before[k - 1] == n);
                }
            }
        }
    }
}

/// Two ascending lists that hold the same names are the same list.
pub proof fn lemma_same_names_same_list(first: Seq<Seq<char>>, second: Seq<Seq<char>>)
    requires
        ascending(first),
        ascending(second),
        forall|name: Seq<char>| first.contains(name) <==> second.contains(name),
    ensures
        first == second,
    decreases first.len(),
{
    if first.len() == 0 {
        if second.len() > 0 {
            assert(second.contains(second[0]));
        }
        assert(first =~= second);
    } else {
        assert(first.contains(first[0]));
        let j = choose|j: int| 0 <= j < second.len() && second[j] == first[0];
        assert(second.contains(second[0]));
        let i = choose|i: int| 0 <= i < first.len() && first[i] == second[0];
        let a = sort_key(first[0], false);
        let b = sort_key(second[0], false);
        if first[0] != second[0] {
            assert(lex_lt(sort_key(second[0], false), sort_key(second[j], false)));
            assert(lex_lt(sort_key(first[0], false), sort_key(first[i], false)));
            lemma_lex_asymmetric(a, b);
        }
        let head = first[0];
        let first_rest = first.drop_first();
        let second_rest = second.drop_first();
        lemma_lex_irreflexive(a);
        assert forall|name: Seq<char>| first_rest.contains(name) <==> second_rest.contains(
            name,
        ) by {
            if first_rest.contains(name) {
                let k = choose|k: int| 0 <= k < first_rest.len() && first_rest[k] == name;
                assert(first[k + 1] == name);
                assert(lex_lt(sort_key(first[0], false), sort_key(first[k + 1], false)));
                assert(first.contains(name));
                let m = choose|m: int| 0 <= m < second.len() && second[m] == name;
                assert(second_rest[m - 1] == name);
            }
            if second_rest.contains(name) {
                let k = choose|k: int| 0 <= k < second_rest.len() && second_rest[k] == name;
                assert(second[k + 1] == name);
                assert(lex_lt(sort_key(second[0], false), sort_key(second[k + 1], false)));
                assert(second.contains(name));
                let m = choose|m: int| 0 <= m < first.len() && first[m] == name;
                assert(first_rest[m - 1] == name);
            }
        }
        assert(ascending(first_rest)) by {
            assert forall|a: int, b: int| 0 <= a < b < first_rest.len() implies lex_lt(
                sort_key(#[trigger] first_rest[a], false),
                sort_key(#[trigger] first_rest[b], false),
            ) by {
                assert(lex_lt(sort_key(first[a + 1], false), sort_key(first[b + 1], false)));
            }
        }
        assert(ascending(second_rest)) by {
            assert forall|a: int, b: int| 0 <= a < b < second_rest.len() implies lex_lt(
                sort_key(#[trigger] second_rest[a], false),
                sort_key(#[trigger] second_rest[b], false),
            ) by {
                assert(lex_lt(sort_key(second[a + 1], false), sort_key(second[b + 1], false)));
            }
        }
        lemma_same_names_same_list(first_rest, second_rest);
        assert(first =~= seq![head] + first_rest);
        assert(second =~= seq![head] + second_rest);
    }
}

/// The names in one line, a comma and a space between each two.
pub open spec fn comma_list(names: Seq<Seq<char>>) -> Seq<char>
    decreases names.len(),
{
    if names.len() == 0 {
        Seq::empty()
    } else if names.len() == 1 {
        names[0]
    } else {
        comma_list(names.drop_last()) + ", "@ + names.last()
    }
}

/// Writes the names in one line, a comma and a space between each two.
pub fn join_names(names: &Vec<String>) -> (line: String)
    ensures
        line@ == comma_list(names.deep_view()),
{
    let mut line = String::new();
    let ghost all = names.deep_view();
    let mut i: usize = 0;
    assert(all.take(0) =~= Seq::<Seq<char>>::empty());
    while i < names.len()
        invariant
            i <= names@.len(),
            all == names.deep_view(),
            line@ == comma_list(all.take(i as int)),
        decreases names.len() - i,
    {
        proof {
            assert(all.take(i + 1).drop_last() =~= all.take(i as int));
            assert(all.take(i + 1).last() == names@[i as int]@);
        }
        if i > 0 {
            line.append(", ");
        } else {
            assert(line@ + names@[i as int]@ =~= names@[i as int]@);
        }
        line.append(names[i].as_str());
        i = i + 1;
    }
    assert(all.take(i as int) =~= all);
    line
}

} // verus!
