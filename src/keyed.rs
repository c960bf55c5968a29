//! Sequences of `(key, value)` entries, looked up by key.
//!
//! Maps of the data model are kept as vectors of entries. Lookups take the
//! first entry with a key; a sorted vector (keys strictly increasing) has at
//! most one entry per key and a deterministic order of iteration.

use vstd::prelude::*;
use crate::text::{views, compare_text, lemma_text_lt_irreflexive, lemma_text_lt_transitive, text_lt};

verus! {

/// Entry `i` holds key `k`, and no earlier entry does.
pub open spec fn first_key_at<V>(s: Seq<(String, V)>, k: Seq<char>, i: int) -> bool {
    &&& 0 <= i < s.len()
    &&& s[i].0@ == k
    &&& forall|j: int| 0 <= j < i ==> s[j].0@ != k
}

/// Some entry holds key `k`.
pub open spec fn has_key<V>(s: Seq<(String, V)>, k: Seq<char>) -> bool {
    exists|i: int| 0 <= i < s.len() && s[i].0@ == k
}

/// The keys of the entries, in order.
pub open spec fn keys_of<V>(s: Seq<(String, V)>) -> Seq<Seq<char>> {
    s.map_values(|e: (String, V)| e.0@)
}

/// Keys strictly increase along the sequence.
pub open spec fn keys_sorted<V>(s: Seq<(String, V)>) -> bool {
    forall|i: int, j: int| 0 <= i < j < s.len() ==> text_lt(s[i].0@, s[j].0@)
}

/// In a sorted sequence, an entry that holds a key is the only one holding it.
pub proof fn lemma_sorted_key_unique<V>(s: Seq<(String, V)>, i: int, j: int)
    requires
        keys_sorted(s),
        0 <= i < s.len(),
        0 <= j < s.len(),
        s[i].0@ == s[j].0@,
    ensures
        i == j,
{
    if i < j {
        lemma_text_lt_irreflexive(s[i].0@);
    } else if j < i {
        lemma_text_lt_irreflexive(s[i].0@);
    }
}

/// Position of the first entry with key `k`.
pub fn find_key<V>(v: &Vec<(String, V)>, k: &str) -> (r: Option<usize>)
    ensures
        match r {
            Some(i) => first_key_at(v@, k@, i as int),
            None => !has_key(v@, k@),
        },
{
    let key = k.to_owned();
    let mut i: usize = 0;
    while i < v.len()
        invariant
            i <= v.len(),
            key@ == k@,
            forall|j: int| 0 <= j < i ==> v@[j].0@ != k@,
        decreases v.len() - i,
    {
        if v[i].0 == key {
            return Some(i);
        }
        i = i + 1;
    }
    None
}

/// Where key `k` belongs in a sorted sequence: `(i, true)` when entry `i`
/// holds it, `(i, false)` when inserting it at `i` keeps the keys sorted.
pub fn sorted_position<V>(v: &Vec<(String, V)>, k: &str) -> (r: (usize, bool))
    requires
        keys_sorted(v@),
    ensures
        r.0 <= v.len(),
        r.1 ==> r.0 < v.len() && v@[r.0 as int].0@ == k@,
        !r.1 ==> forall|j: int| 0 <= j < r.0 ==> text_lt(#[trigger] v@[j].0@, k@),
        !r.1 ==> forall|j: int| r.0 <= j < v.len() ==> text_lt(k@, #[trigger] v@[j].0@),
{
    let mut i: usize = 0;
    while i < v.len()
        invariant
            i <= v.len(),
            keys_sorted(v@),
            forall|j: int| 0 <= j < i ==> text_lt(#[trigger] v@[j].0@, k@),
        decreases v.len() - i,
    {
        let c = compare_text(v[i].0.as_str(), k);
        if c == 0 {
            return (i, true);
        }
        if c == 1 {
            assert forall|j: int| i <= j < v.len() implies text_lt(k@, #[trigger] v@[j].0@) by {
                if j > i {
                    lemma_text_lt_transitive(k@, v@[i as int].0@, v@[j].0@);
                }
            }
            return (i, false);
        }
        i = i + 1;
    }
    (i, false)
}

/// Sets the value of key `k`: replaces the entry that holds it, or inserts a
/// new entry where the keys stay sorted.
pub fn upsert_sorted<V>(v: &mut Vec<(String, V)>, k: String, val: V)
    requires
        keys_sorted(old(v)@),
    ensures
        upserted(old(v)@, k, val, final(v)@),
{
    let ghost old_v = v@;
    let ghost kk = k;
    let ghost vv = val;
    let (i, found) = sorted_position(v, k.as_str());
    if found {
        proof {
            assert forall|j: int| 0 <= j < i implies old_v[j].0@ != k@ by {
                if old_v[j].0@ == k@ {
                    lemma_sorted_key_unique(old_v, j, i as int);
                }
            }
            assert(first_key_at(old_v, k@, i as int));
        }
        v.set(i, (k, val));
        proof {
            assert forall|j: int| 0 <= j < v@.len() && v@[j].0@ == k@ implies v@[j] == (k, val) by {
                if j != i {
                    lemma_sorted_key_unique(old_v, j, i as int);
                }
            }
            assert forall|q: Seq<char>| q != k@ implies (has_key(v@, q) <==> has_key(old_v, q)) by {
                if has_key(old_v, q) {
                    let j = choose|j: int| 0 <= j < old_v.len() && old_v[j].0@ == q;
                    assert(v@[j].0@ == q);
                }
                if has_key(v@, q) {
                    let j = choose|j: int| 0 <= j < v@.len() && v@[j].0@ == q;
                    assert(old_v[j].0@ == q);
                }
            }
            assert(v@[i as int].0@ == k@);
            assert(upserted(old_v, kk, vv, v@));
        }
    } else {
        proof {
            assert(!has_key(old_v, k@)) by {
                if has_key(old_v, k@) {
                    let j = choose|j: int| 0 <= j < old_v.len() && old_v[j].0@ == k@;
                    lemma_text_lt_irreflexive(k@);
                }
            }
        }
        v.insert(i, (k, val));
        proof {
            assert forall|a: int, b: int| 0 <= a < b < v@.len() implies text_lt(
                v@[a].0@,
                v@[b].0@,
            ) by {
                if b < i {
                } else if a < i && b == i {
                } else if a < i && b > i {
                    lemma_text_lt_transitive(v@[a].0@, k@, v@[b].0@);
                } else if a == i {
                } else {
                    assert(v@[a] == old_v[a - 1]);
                    assert(v@[b] == old_v[b - 1]);
                }
            }
            assert forall|j: int| 0 <= j < v@.len() && v@[j].0@ == k@ implies v@[j] == (k, val) by {
                if j != i {
                    if j < i {
                        assert(v@[j] == old_v[j]);
                    } else {
                        assert(v@[j] == old_v[j - 1]);
                    }
                }
            }
            assert forall|q: Seq<char>| q != k@ implies (has_key(v@, q) <==> has_key(old_v, q)) by {
                if has_key(old_v, q) {
                    let j = choose|j: int| 0 <= j < old_v.len() && old_v[j].0@ == q;
                    if j < i {
                        assert(v@[j] == old_v[j]);
                    } else {
                        assert(v@[j + 1] == old_v[j]);
                    }
                }
                if has_key(v@, q) {
                    let j = choose|j: int| 0 <= j < v@.len() && v@[j].0@ == q;
                    if j < i {
                        assert(old_v[j] == v@[j]);
                    } else {
                        assert(old_v[j - 1] == v@[j]);
                    }
                }
            }
            assert(v@[i as int].0@ == k@);
            assert(upserted(old_v, kk, vv, v@));
        }
    }
}

/// The position of the first entry with key `k` (meaningful when some entry has it).
pub open spec fn index_of_key<V>(s: Seq<(String, V)>, k: Seq<char>) -> int {
    choose|i: int| first_key_at(s, k, i)
}

/// The first entry with a key is at one position only.
pub proof fn lemma_index_of_key<V>(s: Seq<(String, V)>, k: Seq<char>, i: int)
    requires
        first_key_at(s, k, i),
    ensures
        index_of_key(s, k) == i,
        has_key(s, k),
{
    let j = index_of_key(s, k);
    assert(first_key_at(s, k, j));
}

/// What `upsert_sorted` makes of `old` for key `k` and value `val`.
pub open spec fn upserted<V>(old: Seq<(String, V)>, k: String, val: V, new: Seq<(String, V)>) -> bool {
    &&& keys_sorted(new)
    &&& has_key(old, k@) ==> exists|i: int| first_key_at(old, k@, i) && new == old.update(i, (k, val))
    &&& !has_key(old, k@) ==> exists|i: int| 0 <= i <= old.len() && new == old.insert(i, (k, val))
    &&& has_key(new, k@)
    &&& forall|j: int| 0 <= j < new.len() && new[j].0@ == k@ ==> new[j] == (k, val)
    &&& forall|q: Seq<char>| q != k@ ==> (has_key(new, q) <==> has_key(old, q))
}

/// Removing an entry keeps the keys sorted.
pub proof fn lemma_remove_sorted<V>(s: Seq<(String, V)>, k: int)
    requires
        keys_sorted(s),
        0 <= k < s.len(),
    ensures
        keys_sorted(s.remove(k)),
{
    let t = s.remove(k);
    assert forall|a: int, b: int| 0 <= a < b < t.len() implies text_lt(t[a].0@, t[b].0@) by {
        let a0 = if a < k {
            a
        } else {
            a + 1
        };
        let b0 = if b < k {
            b
        } else {
            b + 1
        };
        assert(t[a] == s[a0]);
        assert(t[b] == s[b0]);
    }
}

/// The keys of the entries, as strings.
pub fn key_list<V>(v: &Vec<(String, V)>) -> (r: Vec<String>)
    ensures
        views(r@) == keys_of(v@),
{
    let mut r: Vec<String> = Vec::new();
    let mut i: usize = 0;
    while i < v.len()
        invariant
            i <= v.len(),
            r@.len() == i,
            views(r@) == keys_of(v@.subrange(0, i as int)),
        decreases v.len() - i,
    {
        let k = v[i].0.clone();
        assert(k == v@[i as int].0);
        let ghost before = r@;
        r.push(k);
        assert(r@ == before.push(k));
        assert(views(r@) =~= keys_of(v@.subrange(0, i + 1))) by {
            assert(views(before) =~= keys_of(v@.subrange(0, i as int)));
            assert forall|j: int| 0 <= j < r@.len() implies views(r@)[j] == keys_of(v@.subrange(0, i + 1))[j] by {
                assert(views(r@)[j] == r@[j]@);
                assert(keys_of(v@.subrange(0, i + 1))[j] == v@.subrange(0, i + 1)[j].0@);
                if j < i {
                    assert(views(before)[j] == keys_of(v@.subrange(0, i as int))[j]);
                    assert(views(before)[j] == before[j]@);
                    assert(keys_of(v@.subrange(0, i as int))[j] == v@.subrange(0, i as int)[j].0@);
                }
            }
        }
        i = i + 1;
    }
    assert(v@.subrange(0, i as int) =~= v@);
    r
}

/// No two entries share a key.
pub open spec fn keys_unique<V>(s: Seq<(String, V)>) -> bool {
    forall|i: int, j: int| 0 <= i < j < s.len() ==> s[i].0@ != s[j].0@
}

/// Whether no two entries share a key.
pub fn check_keys_unique<V>(v: &Vec<(String, V)>) -> (r: bool)
    ensures
        r == keys_unique(v@),
{
    let mut j: usize = 0;
    while j < v.len()
        invariant
            j <= v.len(),
            forall|a: int, b: int| 0 <= a < b < j ==> v@[a].0@ != v@[b].0@,
        decreases v.len() - j,
    {
        let mut i: usize = 0;
        while i < j
            invariant
                i <= j < v.len(),
                forall|a: int, b: int| 0 <= a < b < j ==> v@[a].0@ != v@[b].0@,
                forall|a: int| 0 <= a < i ==> v@[a].0@ != v@[j as int].0@,
            decreases j - i,
        {
            if v[i].0 == v[j].0 {
                return false;
            }
            i = i + 1;
        }
        j = j + 1;
    }
    true
}

} // verus!
