//! Bounded slot sequences whose occupied entries come before the first
//! empty one, and the scan that finds how many are occupied.
use crate::profile::{Weapon, EMPTY_SLOT};
use vstd::prelude::*;

verus! {

/// The weapon types of a weapon slot sequence.
pub open spec fn weapon_classes(ws: Seq<Weapon>) -> Seq<i32> {
    Seq::new(ws.len(), |i: int| ws[i].classification)
}

/// `n` is the number of occupied slots before the first empty one.
pub open spec fn is_active_count(s: Seq<i32>, n: int) -> bool {
    &&& 0 <= n <= s.len()
    &&& forall|i: int| 0 <= i < n ==> s[i] != EMPTY_SLOT
    &&& n < s.len() ==> s[n] == EMPTY_SLOT
}

/// No occupied slot follows an empty one.
pub open spec fn prefix_active(s: Seq<i32>) -> bool {
    forall|i: int, j: int|
        0 <= i <= j < s.len() && #[trigger] s[i] == EMPTY_SLOT ==> #[trigger] s[j] == EMPTY_SLOT
}

/// A sequence has exactly one active count.
pub proof fn lemma_active_count_unique(s: Seq<i32>, n: int, m: int)
    requires
        is_active_count(s, n),
        is_active_count(s, m),
    ensures
        n == m,
{
    if n < m {
        assert(s[n] != EMPTY_SLOT);
    } else if m < n {
        assert(s[m] != EMPTY_SLOT);
    }
}

/// Counts the occupied items before the first empty one.
pub fn count_active_items(slots: &Vec<i32>) -> (n: usize)
    ensures
        is_active_count(slots@, n as int),
{
    let mut n: usize = 0;
    while n < slots.len() && slots[n] != EMPTY_SLOT
        invariant
            n <= slots@.len(),
            forall|i: int| 0 <= i < n ==> slots@[i] != EMPTY_SLOT,
        decreases slots@.len() - n,
    {
        n = n + 1;
    }
    n
}

/// Counts the occupied weapon slots before the first empty one.
pub fn count_active_weapons(slots: &Vec<Weapon>) -> (n: usize)
    ensures
        is_active_count(weapon_classes(slots@), n as int),
{
    let mut n: usize = 0;
    while n < slots.len() && slots[n].classification != EMPTY_SLOT
        invariant
            n <= slots@.len(),
            forall|i: int| 0 <= i < n ==> slots@[i].classification != EMPTY_SLOT,
        decreases slots@.len() - n,
    {
        n = n + 1;
    }
    n
}

/// Filling the first empty slot of a gap-free sequence extends the active
/// run by one and leaves no gap.
pub proof fn lemma_fill_next(s: Seq<i32>, n: int, x: i32)
    requires
        is_active_count(s, n),
        prefix_active(s),
        n < s.len(),
        x != EMPTY_SLOT,
    ensures
        is_active_count(s.update(n, x), n + 1),
        prefix_active(s.update(n, x)),
{
    let t = s.update(n, x);
    if n + 1 < s.len() {
        assert(s[n] == EMPTY_SLOT);
        assert(t[n + 1] == s[n + 1]);
    }
    assert forall|i: int, j: int|
        0 <= i <= j < t.len() && #[trigger] t[i] == EMPTY_SLOT implies #[trigger] t[j]
        == EMPTY_SLOT by {
        if i < n {
            assert(s[i] != EMPTY_SLOT);
        } else if i > n {
            assert(s[i] == EMPTY_SLOT);
            assert(s[j] == EMPTY_SLOT);
        }
    }
}

/// Emptying the last active slot shortens the active run by one; a
/// gap-free sequence stays gap-free.
pub proof fn lemma_empty_last(s: Seq<i32>, n: int)
    requires
        is_active_count(s, n),
        n > 0,
    ensures
        is_active_count(s.update(n - 1, EMPTY_SLOT), n - 1),
        prefix_active(s) ==> prefix_active(s.update(n - 1, EMPTY_SLOT)),
{
    let t = s.update(n - 1, EMPTY_SLOT);
    if prefix_active(s) {
        assert forall|i: int, j: int|
            0 <= i <= j < t.len() && #[trigger] t[i] == EMPTY_SLOT implies #[trigger] t[j]
            == EMPTY_SLOT by {
            if j != n - 1 {
                if i < n - 1 {
                    assert(s[i] != EMPTY_SLOT);
                } else {
                    assert(s[n] == EMPTY_SLOT);
                    assert(s[j] == EMPTY_SLOT);
                }
            }
        }
    }
}

/// Replacing an active slot by an occupied one keeps the active run and
/// any absence of gaps.
pub proof fn lemma_replace_active(s: Seq<i32>, n: int, i: int, x: i32)
    requires
        is_active_count(s, n),
        0 <= i < n,
        x != EMPTY_SLOT,
    ensures
        is_active_count(s.update(i, x), n),
        prefix_active(s) ==> prefix_active(s.update(i, x)),
{
    let t = s.update(i, x);
    if prefix_active(s) {
        assert forall|a: int, b: int|
            0 <= a <= b < t.len() && #[trigger] t[a] == EMPTY_SLOT implies #[trigger] t[b]
            == EMPTY_SLOT by {
            assert(s[a] == EMPTY_SLOT);
            assert(s[b] == EMPTY_SLOT);
        }
    }
}

/// A sequence of empty slots has no active slot and no gap.
pub proof fn lemma_all_empty(s: Seq<i32>)
    requires
        forall|i: int| 0 <= i < s.len() ==> s[i] == EMPTY_SLOT,
    ensures
        is_active_count(s, 0),
        prefix_active(s),
{
}

pub proof fn lemma_weapon_classes_update(ws: Seq<Weapon>, i: int, w: Weapon)
    requires
        0 <= i < ws.len(),
    ensures
        weapon_classes(ws.update(i, w)) == weapon_classes(ws).update(i, w.classification),
{
    assert(weapon_classes(ws.update(i, w)) =~= weapon_classes(ws).update(i, w.classification));
}

} // verus!
