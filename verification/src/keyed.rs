//! Sequences of records looked up by a string key: first-match lookup,
//! sorted insertion position, and the lemmas that tie scanning loops to
//! them.
use vstd::prelude::*;

use crate::text::{lemma_seq_lt_irreflexive, lemma_seq_lt_total,
    lemma_seq_lt_transitive, seq_lt};

verus! {

/// Index of the first element whose key is `k`, or `-1`.
pub open spec fn index_of<T>(s: Seq<T>, key: spec_fn(T) -> Seq<char>, k: Seq<char>) -> int
    decreases s.len(),
{
    if s.len() == 0 {
        -1
    } else if key(s[0]) == k {
        0
    } else {
        let r = index_of(s.drop_first(), key, k);
        if r < 0 {
            -1
        } else {
            r + 1
        }
    }
}

/// Index of the first element whose key is greater than `k` (or the
/// length): where an element with key `k` goes to keep the order.
pub open spec fn insert_pos<T>(s: Seq<T>, key: spec_fn(T) -> Seq<char>, k: Seq<char>) -> int
    decreases s.len(),
{
    if s.len() == 0 {
        0
    } else if seq_lt(k, key(s[0])) {
        0
    } else {
        insert_pos(s.drop_first(), key, k) + 1
    }
}

/// Keys strictly increase along the sequence.
pub open spec fn sorted_by<T>(s: Seq<T>, key: spec_fn(T) -> Seq<char>) -> bool {
    forall|i: int, j: int| 0 <= i < j < s.len() ==> seq_lt(key(#[trigger] s[i]), key(#[trigger] s[j]))
}

pub proof fn lemma_index_of_range<T>(s: Seq<T>, key: spec_fn(T) -> Seq<char>, k: Seq<char>)
    ensures
        -1 <= index_of(s, key, k) < s.len(),
        index_of(s, key, k) >= 0 ==> key(s[index_of(s, key, k)]) == k,
        index_of(s, key, k) < 0 ==> forall|j: int| 0 <= j < s.len() ==> key(#[trigger] s[j]) != k,
        index_of(s, key, k) >= 0 ==> forall|j: int|
            0 <= j < index_of(s, key, k) ==> key(#[trigger] s[j]) != k,
    decreases s.len(),
{
    if s.len() > 0 && key(s[0]) != k {
        lemma_index_of_range(s.drop_first(), key, k);
        let t = s.drop_first();
        assert forall|j: int| 1 <= j < s.len() implies s[j] == t[j - 1] by {}
        if index_of(t, key, k) < 0 {
            assert forall|j: int| 0 <= j < s.len() implies key(#[trigger] s[j]) != k by {
                if j > 0 {
                    assert(s[j] == t[j - 1]);
                }
            }
        } else {
            assert forall|j: int| 0 <= j < index_of(s, key, k) implies key(#[trigger] s[j]) != k by {
                if j > 0 {
                    assert(s[j] == t[j - 1]);
                }
            }
        }
    }
}

/// A scan that found no key `k` among the first `i` elements and then
/// either stopped at `i` on a match, or ran off the end, computed
/// `index_of`.
pub proof fn lemma_index_of_scan<T>(s: Seq<T>, key: spec_fn(T) -> Seq<char>, k: Seq<char>, i: int)
    requires
        0 <= i <= s.len(),
        forall|j: int| 0 <= j < i ==> key(#[trigger] s[j]) != k,
        i < s.len() ==> key(s[i]) == k,
    ensures
        index_of(s, key, k) == (if i < s.len() {
            i
        } else {
            -1
        }),
    decreases i,
{
    if i > 0 {
        let t = s.drop_first();
        assert forall|j: int| 0 <= j < i - 1 implies key(#[trigger] t[j]) != k by {
            assert(t[j] == s[j + 1]);
        }
        lemma_index_of_scan(t, key, k, i - 1);
        assert(key(s[0]) != k);
    }
}

/// A scan that found no key greater than `k` among the first `i`
/// elements and then stopped at the first greater one (or the end)
/// computed `insert_pos`.
pub proof fn lemma_insert_pos_scan<T>(s: Seq<T>, key: spec_fn(T) -> Seq<char>, k: Seq<char>, i: int)
    requires
        0 <= i <= s.len(),
        forall|j: int| 0 <= j < i ==> !seq_lt(k, key(#[trigger] s[j])),
        i < s.len() ==> seq_lt(k, key(s[i])),
    ensures
        insert_pos(s, key, k) == i,
    decreases i,
{
    if i > 0 {
        let t = s.drop_first();
        assert forall|j: int| 0 <= j < i - 1 implies !seq_lt(k, key(#[trigger] t[j])) by {
            assert(t[j] == s[j + 1]);
        }
        lemma_insert_pos_scan(t, key, k, i - 1);
        assert(!seq_lt(k, key(s[0])));
    }
}

/// Two sequences with the same keys position by position agree on
/// `index_of`.
pub proof fn lemma_index_of_same_keys<T>(
    s1: Seq<T>,
    s2: Seq<T>,
    key: spec_fn(T) -> Seq<char>,
    k: Seq<char>,
)
    requires
        s1.len() == s2.len(),
        forall|i: int| 0 <= i < s1.len() ==> key(#[trigger] s1[i]) == key(s2[i]),
    ensures
        index_of(s1, key, k) == index_of(s2, key, k),
{
    lemma_index_of_range(s1, key, k);
    let i = index_of(s1, key, k);
    if i >= 0 {
        assert forall|j: int| 0 <= j < i implies key(#[trigger] s2[j]) != k by {
            assert(key(s1[j]) == key(s2[j]));
        }
        lemma_index_of_scan(s2, key, k, i);
    } else {
        assert forall|j: int| 0 <= j < s2.len() implies key(#[trigger] s2[j]) != k by {
            assert(key(s1[j]) == key(s2[j]));
        }
        lemma_index_of_scan(s2, key, k, s2.len() as int);
    }
}

/// Appending an element leaves earlier matches in place, and finds the
/// new element when nothing before it matched.
pub proof fn lemma_index_of_push<T>(s: Seq<T>, key: spec_fn(T) -> Seq<char>, x: T, k: Seq<char>)
    ensures
        index_of(s, key, k) >= 0 ==> index_of(s.push(x), key, k) == index_of(s, key, k),
        index_of(s, key, k) < 0 ==> index_of(s.push(x), key, k) == (if key(x) == k {
            s.len() as int
        } else {
            -1
        }),
{
    lemma_index_of_range(s, key, k);
    let t = s.push(x);
    let i = index_of(s, key, k);
    if i >= 0 {
        assert forall|j: int| 0 <= j < i implies key(#[trigger] t[j]) != k by {
            assert(t[j] == s[j]);
        }
        lemma_index_of_scan(t, key, k, i);
    } else {
        assert forall|j: int| 0 <= j < s.len() implies key(#[trigger] t[j]) != k by {
            assert(t[j] == s[j]);
        }
        if key(x) == k {
            lemma_index_of_scan(t, key, k, s.len() as int);
        } else {
            lemma_index_of_scan(t, key, k, t.len() as int);
        }
    }
}

/// In a sorted sequence, the element at any position is the one
/// `index_of` finds for its key.
pub proof fn lemma_sorted_index_of<T>(s: Seq<T>, key: spec_fn(T) -> Seq<char>, i: int)
    requires
        sorted_by(s, key),
        0 <= i < s.len(),
    ensures
        index_of(s, key, key(s[i])) == i,
{
    assert forall|j: int| 0 <= j < i implies key(#[trigger] s[j]) != key(s[i]) by {
        lemma_seq_lt_irreflexive(key(s[i]));
    }
    lemma_index_of_scan(s, key, key(s[i]), i);
}

/// Inserting at the sorted position an element whose key is absent
/// keeps the sequence sorted.
pub proof fn lemma_sorted_insert<T>(s: Seq<T>, key: spec_fn(T) -> Seq<char>, x: T)
    requires
        sorted_by(s, key),
        index_of(s, key, key(x)) < 0,
    ensures
        0 <= insert_pos(s, key, key(x)) <= s.len(),
        sorted_by(s.insert(insert_pos(s, key, key(x)), x), key),
{
    let k = key(x);
    lemma_insert_pos_range(s, key, k);
    lemma_index_of_range(s, key, k);
    let p = insert_pos(s, key, k);
    let t = s.insert(p, x);
    assert forall|j: int| 0 <= j < p implies seq_lt(key(#[trigger] s[j]), k) by {
        lemma_seq_lt_total(key(s[j]), k);
    }
    assert forall|i: int, j: int| 0 <= i < j < t.len() implies seq_lt(
        key(#[trigger] t[i]),
        key(#[trigger] t[j]),
    ) by {
        if j < p {
            assert(t[i] == s[i] && t[j] == s[j]);
        } else if j == p {
            assert(t[i] == s[i]);
        } else if i == p {
            assert(t[j] == s[j - 1]);
            if j - 1 > p {
                assert(seq_lt(key(s[p]), key(s[j - 1])));
                lemma_seq_lt_transitive(k, key(s[p]), key(s[j - 1]));
            }
        } else if i < p {
            assert(t[i] == s[i] && t[j] == s[j - 1]);
            if j - 1 == p {
            } else {
            }
        } else {
            assert(t[i] == s[i - 1] && t[j] == s[j - 1]);
        }
    }
}

pub proof fn lemma_insert_pos_range<T>(s: Seq<T>, key: spec_fn(T) -> Seq<char>, k: Seq<char>)
    ensures
        0 <= insert_pos(s, key, k) <= s.len(),
        forall|j: int| 0 <= j < insert_pos(s, key, k) ==> !seq_lt(k, key(#[trigger] s[j])),
        insert_pos(s, key, k) < s.len() ==> seq_lt(k, key(s[insert_pos(s, key, k)])),
    decreases s.len(),
{
    if s.len() > 0 && !seq_lt(k, key(s[0])) {
        let t = s.drop_first();
        lemma_insert_pos_range(t, key, k);
        assert forall|j: int| 0 <= j < insert_pos(s, key, k) implies !seq_lt(
            k,
            key(#[trigger] s[j]),
        ) by {
            if j > 0 {
                assert(s[j] == t[j - 1]);
            }
        }
    }
}

/// Removing an element keeps a sorted sequence sorted.
pub proof fn lemma_sorted_remove<T>(s: Seq<T>, key: spec_fn(T) -> Seq<char>, i: int)
    requires
        sorted_by(s, key),
        0 <= i < s.len(),
    ensures
        sorted_by(s.remove(i), key),
{
    let t = s.remove(i);
    assert forall|a: int, b: int| 0 <= a < b < t.len() implies seq_lt(
        key(#[trigger] t[a]),
        key(#[trigger] t[b]),
    ) by {
        let a2 = if a < i {
            a
        } else {
            a + 1
        };
        let b2 = if b < i {
            b
        } else {
            b + 1
        };
        assert(t[a] == s[a2] && t[b] == s[b2]);
    }
}

/// Replacing an element by one with the same key keeps a sorted
/// sequence sorted.
pub proof fn lemma_sorted_update<T>(s: Seq<T>, key: spec_fn(T) -> Seq<char>, i: int, x: T)
    requires
        sorted_by(s, key),
        0 <= i < s.len(),
        key(x) == key(s[i]),
    ensures
        sorted_by(s.update(i, x), key),
{
    let t = s.update(i, x);
    assert forall|a: int, b: int| 0 <= a < b < t.len() implies seq_lt(
        key(#[trigger] t[a]),
        key(#[trigger] t[b]),
    ) by {
        assert(key(t[a]) == key(s[a]) && key(t[b]) == key(s[b]));
    }
}

/// Keys of a sorted sequence are pairwise distinct.
pub proof fn lemma_sorted_distinct<T>(s: Seq<T>, key: spec_fn(T) -> Seq<char>, i: int, j: int)
    requires
        sorted_by(s, key),
        0 <= i < s.len(),
        0 <= j < s.len(),
        i != j,
    ensures
        key(s[i]) != key(s[j]),
{
    if i < j {
        lemma_seq_lt_irreflexive(key(s[i]));
    } else {
        lemma_seq_lt_irreflexive(key(s[j]));
    }
}

/// Index of the first element satisfying `p`, or `-1`.
pub open spec fn first_index<T>(s: Seq<T>, p: spec_fn(T) -> bool) -> int
    decreases s.len(),
{
    if s.len() == 0 {
        -1
    } else if p(s[0]) {
        0
    } else {
        let r = first_index(s.drop_first(), p);
        if r < 0 {
            -1
        } else {
            r + 1
        }
    }
}

/// A scan that found no element satisfying `p` among the first `i` and
/// then stopped at `i` on one that does, or ran off the end, computed
/// `first_index`.
pub proof fn lemma_first_index_scan<T>(s: Seq<T>, p: spec_fn(T) -> bool, i: int)
    requires
        0 <= i <= s.len(),
        forall|j: int| 0 <= j < i ==> !p(#[trigger] s[j]),
        i < s.len() ==> p(s[i]),
    ensures
        first_index(s, p) == (if i < s.len() {
            i
        } else {
            -1
        }),
    decreases i,
{
    if i > 0 {
        let t = s.drop_first();
        assert forall|j: int| 0 <= j < i - 1 implies !p(#[trigger] t[j]) by {
            assert(t[j] == s[j + 1]);
        }
        lemma_first_index_scan(t, p, i - 1);
        assert(!p(s[0]));
    }
}

pub proof fn lemma_first_index_range<T>(s: Seq<T>, p: spec_fn(T) -> bool)
    ensures
        -1 <= first_index(s, p) < s.len(),
        first_index(s, p) >= 0 ==> p(s[first_index(s, p)]),
        first_index(s, p) < 0 ==> forall|j: int| 0 <= j < s.len() ==> !p(#[trigger] s[j]),
        forall|j: int| 0 <= j < first_index(s, p) ==> !p(#[trigger] s[j]),
    decreases s.len(),
{
    if s.len() > 0 && !p(s[0]) {
        let t = s.drop_first();
        lemma_first_index_range(t, p);
        assert forall|j: int| 1 <= j < s.len() implies s[j] == t[j - 1] by {}
        if first_index(t, p) < 0 {
            assert forall|j: int| 0 <= j < s.len() implies !p(#[trigger] s[j]) by {
                if j > 0 {
                    assert(s[j] == t[j - 1]);
                }
            }
        } else {
            assert forall|j: int| 0 <= j < first_index(s, p) implies !p(#[trigger] s[j]) by {
                if j > 0 {
                    assert(s[j] == t[j - 1]);
                }
            }
        }
    }
}

} // verus!
