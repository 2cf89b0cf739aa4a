//! Sequences of records that are found again by a string key, with at most
//! one record per key. The stores of the library (activity results, runs,
//! signals, registered names) are kept this way.
use vstd::prelude::*;

verus! {

/// A record that carries its own key.
pub trait Keyed {
    /// The key, as characters.
    spec fn key_of(&self) -> Seq<char>;

    /// The key.
    fn key(&self) -> (k: &str)
        ensures
            k@ == self.key_of(),
    ;
}

/// No two records share a key.
pub open spec fn unique_keys<V: Keyed>(s: Seq<V>) -> bool {
    forall|i: int, j: int|
        0 <= i < s.len() && 0 <= j < s.len() && i != j ==> #[trigger] s[i].key_of()
            != #[trigger] s[j].key_of()
}

/// Some record has key `k`.
pub open spec fn has_key<V: Keyed>(s: Seq<V>, k: Seq<char>) -> bool {
    exists|i: int| 0 <= i < s.len() && #[trigger] s[i].key_of() == k
}

/// Position `i` holds the first record with key `k`.
pub open spec fn first_with_key<V: Keyed>(s: Seq<V>, k: Seq<char>, i: int) -> bool {
    0 <= i < s.len() && s[i].key_of() == k && forall|j: int| 0 <= j < i ==> #[trigger] s[j].key_of() != k
}

/// The position of the first record with key `k` (meaningful when
/// `has_key`).
pub open spec fn key_index<V: Keyed>(s: Seq<V>, k: Seq<char>) -> int {
    choose|i: int| #[trigger] first_with_key(s, k, i)
}

/// Only one position holds the first record with a key.
pub proof fn lemma_first_unique<V: Keyed>(s: Seq<V>, k: Seq<char>, a: int, b: int)
    requires
        first_with_key(s, k, a),
        first_with_key(s, k, b),
    ensures
        a == b,
{
    if a < b {
        assert(s[a].key_of() != k);
    } else if b < a {
        assert(s[b].key_of() != k);
    }
}

/// A record with key `k` at position `i` means a first one exists at or
/// before `i`.
proof fn lemma_first_exists<V: Keyed>(s: Seq<V>, k: Seq<char>, i: int)
    requires
        0 <= i < s.len(),
        s[i].key_of() == k,
    ensures
        exists|f: int| #[trigger] first_with_key(s, k, f),
    decreases i,
{
    if exists|j: int| 0 <= j < i && #[trigger] s[j].key_of() == k {
        let j = choose|j: int| 0 <= j < i && #[trigger] s[j].key_of() == k;
        lemma_first_exists(s, k, j);
    } else {
        assert(first_with_key(s, k, i));
    }
}

/// When a record has key `k`, [`key_index`] is the position of the first.
pub proof fn lemma_key_index<V: Keyed>(s: Seq<V>, k: Seq<char>)
    requires
        has_key(s, k),
    ensures
        first_with_key(s, k, key_index(s, k)),
{
    let i = choose|i: int| 0 <= i < s.len() && #[trigger] s[i].key_of() == k;
    lemma_first_exists(s, k, i);
}

/// The record with key `k`, if any.
pub open spec fn lookup<V: Keyed>(s: Seq<V>, k: Seq<char>) -> Option<V> {
    if has_key(s, k) {
        Some(s[key_index(s, k)])
    } else {
        None
    }
}

/// `s` with `x` in place of the record that has its key, or with `x` added
/// at the end when no record has it.
pub open spec fn upsert<V: Keyed>(s: Seq<V>, x: V) -> Seq<V> {
    if has_key(s, x.key_of()) {
        s.update(key_index(s, x.key_of()), x)
    } else {
        s.push(x)
    }
}

/// With unique keys, the record at a position is the one `lookup` finds.
pub proof fn lemma_lookup_at<V: Keyed>(s: Seq<V>, i: int)
    requires
        unique_keys(s),
        0 <= i < s.len(),
    ensures
        has_key(s, s[i].key_of()),
        key_index(s, s[i].key_of()) == i,
        lookup(s, s[i].key_of()) == Some(s[i]),
{
    let k = s[i].key_of();
    assert(has_key(s, k));
    assert(first_with_key(s, k, i));
    lemma_key_index(s, k);
    lemma_first_unique(s, k, i, key_index(s, k));
}

/// Upserting keeps keys unique.
pub proof fn lemma_upsert_unique<V: Keyed>(s: Seq<V>, x: V)
    requires
        unique_keys(s),
    ensures
        unique_keys(upsert(s, x)),
{
    let t = upsert(s, x);
    if has_key(s, x.key_of()) {
        lemma_key_index(s, x.key_of());
        let k = key_index(s, x.key_of());
        assert forall|i: int, j: int|
            0 <= i < t.len() && 0 <= j < t.len() && i != j implies #[trigger] t[i].key_of()
            != #[trigger] t[j].key_of() by {
            if i != k && j != k {
                assert(t[i] == s[i] && t[j] == s[j]);
            } else if i == k {
                assert(t[j] == s[j]);
            } else {
                assert(t[i] == s[i]);
            }
        }
    } else {
        assert forall|i: int, j: int|
            0 <= i < t.len() && 0 <= j < t.len() && i != j implies #[trigger] t[i].key_of()
            != #[trigger] t[j].key_of() by {
            if i < s.len() && j < s.len() {
                assert(t[i] == s[i] && t[j] == s[j]);
            } else if i < s.len() {
                assert(t[i] == s[i]);
            } else {
                assert(t[j] == s[j]);
            }
        }
    }
}

/// After an upsert, the upserted record is found under its key.
pub proof fn lemma_upsert_lookup_same<V: Keyed>(s: Seq<V>, x: V)
    ensures
        lookup(upsert(s, x), x.key_of()) == Some(x),
{
    let k = x.key_of();
    let t = upsert(s, x);
    let p = if has_key(s, k) {
        lemma_key_index(s, k);
        key_index(s, k)
    } else {
        s.len() as int
    };
    assert forall|j: int| 0 <= j < p implies #[trigger] t[j].key_of() != k by {
        assert(t[j] == s[j]);
    }
    assert(first_with_key(t, k, p));
    assert(has_key(t, k));
    lemma_key_index(t, k);
    lemma_first_unique(t, k, p, key_index(t, k));
}

/// An upsert leaves the records under every other key as they were.
pub proof fn lemma_upsert_lookup_other<V: Keyed>(s: Seq<V>, x: V, k: Seq<char>)
    requires
        k != x.key_of(),
    ensures
        lookup(upsert(s, x), k) == lookup(s, k),
{
    let t = upsert(s, x);
    if has_key(s, x.key_of()) {
        lemma_key_index(s, x.key_of());
    }
    assert forall|j: int| 0 <= j < t.len() && #[trigger] t[j].key_of() == k implies j < s.len() && t[j]
        == s[j] by {}
    assert forall|j: int| 0 <= j < s.len() && #[trigger] s[j].key_of() == k implies t[j] == s[j] by {}
    if has_key(s, k) {
        lemma_key_index(s, k);
        let i = key_index(s, k);
        assert(t[i] == s[i]);
        assert forall|j: int| 0 <= j < i implies #[trigger] t[j].key_of() != k by {
            if t[j].key_of() == k {
                assert(s[j].key_of() == k);
            }
        }
        assert(first_with_key(t, k, i));
        assert(has_key(t, k));
        lemma_key_index(t, k);
        lemma_first_unique(t, k, i, key_index(t, k));
    } else {
        if has_key(t, k) {
            let i = choose|i: int| 0 <= i < t.len() && #[trigger] t[i].key_of() == k;
            assert(s[i].key_of() == k);
        }
    }
}

/// The position of the record with key `k` in `v`, if any.
pub fn find_key<V: Keyed>(v: &Vec<V>, k: &str) -> (r: Option<usize>)
    ensures
        r matches Some(i) ==> i < v.len() && v@[i as int].key_of() == k@ && i == key_index(v@, k@),
        r is None ==> !has_key(v@, k@),
        r is Some <==> has_key(v@, k@),
{
    let mut i: usize = 0;
    while i < v.len()
        invariant
            i <= v.len(),
            forall|j: int| 0 <= j < i ==> #[trigger] v@[j].key_of() != k@,
        decreases v.len() - i,
    {
        if str_eq(v[i].key(), k) {
            proof {
                assert(first_with_key(v@, k@, i as int));
                assert(has_key(v@, k@));
                lemma_key_index(v@, k@);
                lemma_first_unique(v@, k@, i as int, key_index(v@, k@));
            }
            return Some(i);
        }
        i = i + 1;
    }
    None
}

/// Upserts `x` into `v`.
pub fn upsert_vec<V: Keyed>(v: &mut Vec<V>, x: V)
    ensures
        final(v)@ == upsert(old(v)@, x),
        unique_keys(old(v)@) ==> unique_keys(final(v)@),
{
    proof {
        if unique_keys(old(v)@) {
            lemma_upsert_unique(old(v)@, x);
        }
    }
    match find_key(v, x.key()) {
        Some(i) => {
            v.set(i, x);
        },
        None => {
            v.push(x);
        },
    }
}

/// Compares two strings by their characters.
pub fn str_eq(a: &str, b: &str) -> (r: bool)
    ensures
        r == (a@ == b@),
{
    let n = a.unicode_len();
    if n != b.unicode_len() {
        return false;
    }
    let mut i: usize = 0;
    while i < n
        invariant
            n == a@.len() == b@.len(),
            i <= n,
            forall|j: int| 0 <= j < i ==> a@[j] == b@[j],
        decreases n - i,
    {
        if a.get_char(i) != b.get_char(i) {
            return false;
        }
        i = i + 1;
    }
    assert(a@ =~= b@);
    true
}

} // verus!
