//! Association lists: the mathematical model of the registry's keyed
//! structures. An insert overwrites the value of an existing key in place
//! and appends a new key at the end, which mirrors map insertion while
//! keeping a deterministic order.

use vstd::prelude::*;

verus! {

/// Whether some entry of `m` carries the key `k`.
pub open spec fn has_key<K, V>(m: Seq<(K, V)>, k: K) -> bool {
    exists|i: int| 0 <= i < m.len() && (#[trigger] m[i]).0 == k
}

/// Index of the first entry carrying `k`, or `-1` when none does.
pub open spec fn first_key_index<K, V>(m: Seq<(K, V)>, k: K) -> int
    decreases m.len(),
{
    if m.len() == 0 {
        -1
    } else if m[0].0 == k {
        0
    } else {
        let rest = first_key_index(m.skip(1), k);
        if rest < 0 {
            -1
        } else {
            1 + rest
        }
    }
}

/// The value of the first entry carrying `k`, if any.
pub open spec fn lookup<K, V>(m: Seq<(K, V)>, k: K) -> Option<V> {
    let i = first_key_index(m, k);
    if i < 0 {
        None
    } else {
        Some(m[i].1)
    }
}

/// Insert with overwrite: replace the value of the first entry carrying
/// `k`, or append a fresh entry when no entry carries it.
pub open spec fn assoc_set<K, V>(m: Seq<(K, V)>, k: K, v: V) -> Seq<(K, V)> {
    let i = first_key_index(m, k);
    if i < 0 {
        m.push((k, v))
    } else {
        m.update(i, (k, v))
    }
}

/// `first_key_index` finds the first entry carrying `k` exactly when one
/// exists.
pub proof fn lemma_first_key_index<K, V>(m: Seq<(K, V)>, k: K)
    ensures
        first_key_index(m, k) >= 0 ==> 0 <= first_key_index(m, k) < m.len()
            && m[first_key_index(m, k)].0 == k
            && (forall|j: int| 0 <= j < first_key_index(m, k) ==> (#[trigger] m[j]).0 != k),
        first_key_index(m, k) < 0 ==> first_key_index(m, k) == -1
            && (forall|j: int| 0 <= j < m.len() ==> (#[trigger] m[j]).0 != k),
    decreases m.len(),
{
    if m.len() != 0 && m[0].0 != k {
        let rest = m.skip(1);
        lemma_first_key_index(rest, k);
        assert forall|j: int| 0 <= j < rest.len() implies rest[j] == m[j + 1] by {}
        let r = first_key_index(rest, k);
        if r >= 0 {
            assert(rest[r] == m[r + 1]);
            assert forall|j: int| 0 <= j < 1 + r implies (#[trigger] m[j]).0 != k by {
                if j > 0 {
                    assert(rest[j - 1] == m[j]);
                }
            }
        } else {
            assert forall|j: int| 0 <= j < m.len() implies (#[trigger] m[j]).0 != k by {
                if j > 0 {
                    assert(rest[j - 1] == m[j]);
                }
            }
        }
    }
}

/// The index found by a front-to-back scan is `first_key_index`.
pub proof fn lemma_first_key_index_unique<K, V>(m: Seq<(K, V)>, k: K, i: int)
    requires
        0 <= i < m.len(),
        m[i].0 == k,
        forall|j: int| 0 <= j < i ==> (#[trigger] m[j]).0 != k,
    ensures
        first_key_index(m, k) == i,
{
    lemma_first_key_index(m, k);
}

/// A key is in the map after `assoc_set` exactly when it was there before
/// or is the key just set.
pub proof fn lemma_assoc_set_has_key<K, V>(m: Seq<(K, V)>, k: K, v: V, k2: K)
    ensures
        has_key(assoc_set(m, k, v), k2) <==> (has_key(m, k2) || k2 == k),
{
    lemma_first_key_index(m, k);
    let m2 = assoc_set(m, k, v);
    let i = first_key_index(m, k);
    if i < 0 {
        assert(m2[m.len() as int].0 == k);
        assert forall|j: int| 0 <= j < m.len() implies m2[j] == m[j] by {}
    } else {
        assert(m2[i].0 == k);
        assert forall|j: int| 0 <= j < m.len() && j != i implies m2[j] == m[j] by {}
        assert(m[i].0 == k);
    }
}

} // verus!
