//! Ranked lists: the first so many items of a pool in some order.

use crate::double::Double;
use crate::text::{text_less, text_lt};
use vstd::prelude::*;

verus! {

/// Whether `list` holds the first `limit` items of a pool, or all of them if
/// there are fewer: each item once, none standing behind one that it precedes,
/// and none left out that precedes one in the list. Items of which neither
/// precedes the other may stand in either order.
pub open spec fn is_top<T>(
    list: Seq<T>,
    pool: spec_fn(T) -> bool,
    precedes: spec_fn(T, T) -> bool,
    limit: nat,
) -> bool {
    &&& list.len() <= limit
    &&& list.no_duplicates()
    &&& forall|i: int| 0 <= i < list.len() ==> pool(#[trigger] list[i])
    &&& forall|i: int, j: int|
        0 <= i < j < list.len() ==> !precedes(#[trigger] list[j], #[trigger] list[i])
    &&& forall|x: T| #[trigger] pool(x) && !list.contains(x) ==> list.len() == limit
    &&& forall|x: T, i: int|
        #![trigger pool(x), list[i]]
        pool(x) && !list.contains(x) && 0 <= i < list.len() ==> !precedes(x, list[i])
}

/// The number of entries a list is asked for, brought into the allowed range.
pub open spec fn clamped(limit: u32) -> u32 {
    if limit < 1 {
        1
    } else if limit > 100 {
        100
    } else {
        limit
    }
}

/// Bring the number of entries a list is asked for into the allowed range.
pub fn clamp_limit(limit: u32) -> (r: u32)
    ensures
        r == clamped(limit),
{
    if limit < 1 {
        1
    } else if limit > 100 {
        100
    } else {
        limit
    }
}

/// A key by which items are ranked, highest first.
pub trait RankKey: Sized {
    /// Whether this key stands strictly ahead of the other.
    spec fn ahead(&self, other: &Self) -> bool;

    /// No two keys are each ahead of the other.
    proof fn ahead_asymmetric(&self, other: &Self)
        requires
            self.ahead(other),
        ensures
            !other.ahead(self),
    ;

    /// If one key is ahead of another, every third one is behind the first or
    /// ahead of the second.
    proof fn ahead_between(&self, middle: &Self, other: &Self)
        requires
            self.ahead(other),
        ensures
            self.ahead(middle) || middle.ahead(other),
    ;

    /// Whether this key stands strictly ahead of the other.
    fn is_ahead(&self, other: &Self) -> (r: bool)
        ensures
            r == self.ahead(other),
    ;
}

/// The larger number is ahead.
impl RankKey for Double {
    open spec fn ahead(&self, other: &Self) -> bool {
        self.place() > other.place()
    }

    proof fn ahead_asymmetric(&self, other: &Self) {
    }

    proof fn ahead_between(&self, middle: &Self, other: &Self) {
    }

    fn is_ahead(&self, other: &Self) -> (r: bool) {
        self.to_place() > other.to_place()
    }
}

/// The larger text is ahead; of two time stamps in one format, the later one.
impl RankKey for String {
    open spec fn ahead(&self, other: &Self) -> bool {
        text_lt(other@, self@)
    }

    proof fn ahead_asymmetric(&self, other: &Self) {
        crate::text::text_lt_asymmetric(other@, self@);
    }

    proof fn ahead_between(&self, middle: &Self, other: &Self) {
        crate::text::text_lt_between(other@, middle@, self@);
    }

    fn is_ahead(&self, other: &Self) -> (r: bool) {
        text_less(other.as_str(), self.as_str())
    }
}

/// Whether no key stands behind one that it is ahead of.
pub open spec fn is_ranked<K: RankKey>(order: Seq<usize>, keys: Seq<K>) -> bool {
    forall|i: int, j: int|
        0 <= i < j < order.len() ==> !keys[(#[trigger] order[j]) as int].ahead(
            &keys[(#[trigger] order[i]) as int],
        )
}

/// Whether the positions are those of the highest of the first `n` keys, highest
/// first: `limit` of them, or all if there are fewer.
pub open spec fn are_highest<K: RankKey>(
    picks: Seq<usize>,
    keys: Seq<K>,
    n: nat,
    limit: nat,
) -> bool {
    &&& picks.len() == (if n < limit {
        n
    } else {
        limit
    })
    &&& picks.no_duplicates()
    &&& forall|i: int| 0 <= i < picks.len() ==> #[trigger] picks[i] < n
    &&& is_ranked(picks, keys)
    &&& forall|x: usize, i: int|
        x < n && !#[trigger] picks.contains(x) && 0 <= i < picks.len() ==> !keys[x as int].ahead(
            &keys[(#[trigger] picks[i]) as int],
        )
}

/// The positions of the highest keys, highest first, and no more than `limit`.
pub fn top<K: RankKey>(keys: &Vec<K>, limit: u32) -> (picks: Vec<usize>)
    ensures
        are_highest(picks@, keys@, keys@.len(), limit as nat),
{
    let size: usize = limit as usize;
    let mut picks: Vec<usize> = Vec::new();
    let mut n: usize = 0;
    while n < keys.len()
        invariant
            n <= keys.len(),
            size == limit,
            are_highest(picks@, keys@, n as nat, size as nat),
        decreases keys.len() - n,
    {
        let mut at: usize = picks.len();
        while at > 0 && keys[n].is_ahead(&keys[picks[at - 1]])
            invariant
                n < keys.len(),
                at <= picks.len(),
                are_highest(picks@, keys@, n as nat, size as nat),
                forall|i: int| at <= i < picks.len() ==> keys@[n as int].ahead(&keys@[(#[trigger] picks@[i]) as int]),
            decreases at,
        {
            at = at - 1;
        }
        let ghost before = picks@;
        if at < size {
            picks.insert(at, n);
            if picks.len() > size {
                picks.truncate(size);
            }
            proof {
                taken_in(before, picks@, keys@, n, at as int, size as nat);
            }
        } else {
            proof {
                left_out(before, keys@, n, size as nat);
            }
        }
        n = n + 1;
    }
    picks
}

/// The items at the positions of the highest keys are the top of the pool that
/// the items make up.
pub proof fn picks_are_top<T, K: RankKey>(
    items: Seq<T>,
    keys: Seq<K>,
    picks: Seq<usize>,
    list: Seq<T>,
    pool: spec_fn(T) -> bool,
    precedes: spec_fn(T, T) -> bool,
    limit: nat,
)
    requires
        items.len() == keys.len(),
        items.no_duplicates(),
        items.len() <= usize::MAX,
        forall|i: int| 0 <= i < items.len() ==> pool(#[trigger] items[i]),
        forall|x: T| #[trigger] pool(x) ==> items.contains(x),
        forall|i: int, j: int|
            0 <= i < items.len() && 0 <= j < items.len() ==> precedes(#[trigger] items[i], #[trigger] items[j])
                == keys[i].ahead(&keys[j]),
        are_highest(picks, keys, keys.len(), limit),
        list.len() == picks.len(),
        forall|i: int| 0 <= i < list.len() ==> #[trigger] list[i] == items[picks[i] as int],
    ensures
        is_top(list, pool, precedes, limit),
{
    assert forall|i: int, j: int| 0 <= i < list.len() && 0 <= j < list.len() && i != j implies list[i] != list[j] by {
        assert(picks[i] != picks[j]);
    }
    assert forall|x: T| #[trigger] pool(x) && !list.contains(x) implies list.len() == limit by {
        let p = choose|p: int| 0 <= p < items.len() && items[p] == x;
        assert(items[p] == x);
        if picks.contains(p as usize) {
            let i = choose|i: int| 0 <= i < picks.len() && picks[i] == p as usize;
            assert(list[i] == x);
        }
        if keys.len() < limit {
            every_position_picked(picks, keys.len(), p);
        }
    }
    assert forall|x: T, i: int|
        #![trigger pool(x), list[i]]
        pool(x) && !list.contains(x) && 0 <= i < list.len() implies !precedes(x, list[i]) by {
        let p = choose|p: int| 0 <= p < items.len() && items[p] == x;
        assert(items[p] == x);
        if picks.contains(p as usize) {
            let k = choose|k: int| 0 <= k < picks.len() && picks[k] == p as usize;
            assert(list[k] == x);
        }
        assert(precedes(items[p], items[picks[i] as int]) == keys[p].ahead(&keys[picks[i] as int]));
    }
    assert forall|i: int, j: int| 0 <= i < j < list.len() implies !precedes(#[trigger] list[j], #[trigger] list[i]) by {
        assert(precedes(items[picks[j] as int], items[picks[i] as int]) == keys[picks[j] as int].ahead(&keys[picks[i] as int]));
    }
}

/// Two descriptions of one pool and one order have the same top.
pub proof fn top_agrees<T>(
    list: Seq<T>,
    pool: spec_fn(T) -> bool,
    precedes: spec_fn(T, T) -> bool,
    other_pool: spec_fn(T) -> bool,
    other_precedes: spec_fn(T, T) -> bool,
    limit: nat,
)
    requires
        is_top(list, pool, precedes, limit),
        forall|x: T| #[trigger] pool(x) == other_pool(x),
        forall|x: T, y: T|
            #![trigger precedes(x, y)]
            #![trigger other_precedes(x, y)]
            pool(x) && pool(y) ==> precedes(x, y) == other_precedes(x, y),
    ensures
        is_top(list, other_pool, other_precedes, limit),
{
    assert forall|x: T| #[trigger] other_pool(x) && !list.contains(x) implies list.len() == limit by {
        assert(pool(x));
    }
    assert forall|x: T, i: int|
        #![trigger other_pool(x), list[i]]
        other_pool(x) && !list.contains(x) && 0 <= i < list.len() implies !other_precedes(x, list[i]) by {
        assert(pool(x));
        assert(pool(list[i]));
    }
    assert forall|i: int| 0 <= i < list.len() implies other_pool(#[trigger] list[i]) by {
        assert(pool(list[i]));
    }
    assert forall|i: int, j: int| 0 <= i < j < list.len() implies !other_precedes(#[trigger] list[j], #[trigger] list[i]) by {
        assert(pool(list[i]) && pool(list[j]));
        assert(!precedes(list[j], list[i]));
    }
}

/// As many different positions as there are, are all of them.
proof fn every_position_picked(picks: Seq<usize>, n: nat, p: int)
    requires
        picks.len() == n,
        picks.no_duplicates(),
        forall|i: int| 0 <= i < picks.len() ==> #[trigger] picks[i] < n,
        0 <= p < n,
        n <= usize::MAX,
    ensures
        picks.contains(p as usize),
{
    let all = vstd::set_lib::set_int_range(0, n as int);
    vstd::set_lib::lemma_int_range(0, n as int);
    let chosen = picks.map_values(|x: usize| x as int);
    assert(chosen.no_duplicates());
    chosen.unique_seq_to_set();
    assert(chosen.to_set().subset_of(all));
    vstd::set_lib::lemma_subset_equality(chosen.to_set(), all);
    assert(all.contains(p));
    assert(chosen.to_set().contains(p));
    let i = choose|i: int| 0 <= i < chosen.len() && chosen[i] == p;
    assert(picks[i] == p as usize);
}

/// The next key takes its place before the lower ones, and the lowest one makes
/// room if there are too many.
proof fn taken_in<K: RankKey>(
    before: Seq<usize>,
    after: Seq<usize>,
    keys: Seq<K>,
    n: usize,
    at: int,
    limit: nat,
)
    requires
        n < keys.len(),
        are_highest(before, keys, n as nat, limit),
        0 <= at <= before.len(),
        at < limit,
        forall|i: int| at <= i < before.len() ==> keys[n as int].ahead(&keys[(#[trigger] before[i]) as int]),
        at > 0 ==> !keys[n as int].ahead(&keys[before[at - 1] as int]),
        after == (if before.len() + 1 > limit {
            before.insert(at, n).take(limit as int)
        } else {
            before.insert(at, n)
        }),
    ensures
        are_highest(after, keys, (n + 1) as nat, limit),
{
    let whole = before.insert(at, n);
    let k = n as int;
    assert(whole[at] == n);
    assert forall|i: int, j: int| 0 <= i < j < whole.len() implies !keys[(#[trigger] whole[j]) as int].ahead(
        &keys[(#[trigger] whole[i]) as int],
    ) by {
        if i == at {
            keys[k].ahead_asymmetric(&keys[before[j - 1] as int]);
        } else if j == at {
            if keys[k].ahead(&keys[before[i] as int]) {
                keys[k].ahead_between(&keys[before[at - 1] as int], &keys[before[i] as int]);
                if i == at - 1 {
                    keys[before[i] as int].ahead_asymmetric(&keys[before[i] as int]);
                }
            }
        } else {
            let i0 = if i < at { i } else { i - 1 };
            let j0 = if j < at { j } else { j - 1 };
            assert(before[i0] == whole[i] && before[j0] == whole[j]);
        }
    }
    assert forall|i: int| 0 <= i < whole.len() implies #[trigger] whole[i] < n + 1 by {
        if i != at {
            let i0 = if i < at { i } else { i - 1 };
            assert(whole[i] == before[i0]);
        }
    }
    assert(forall|i: int| 0 <= i < after.len() ==> after[i] == whole[i]);
    assert forall|x: usize, i: int|
        x < n + 1 && !#[trigger] after.contains(x) && 0 <= i < after.len() implies !keys[x as int].ahead(
        &keys[(#[trigger] after[i]) as int],
    ) by {
        if whole.contains(x) {
            let j = choose|j: int| 0 <= j < whole.len() && whole[j] == x;
            if j < after.len() {
                assert(after[j] == x);
            }
            assert(!keys[whole[j] as int].ahead(&keys[whole[i] as int]));
        } else {
            if x == n {
                assert(whole[at] == x);
            }
            assert(x < n);
            if before.contains(x) {
                let j = choose|j: int| 0 <= j < before.len() && before[j] == x;
                assert(whole[if j < at { j } else { j + 1 }] == x);
            }
            if i == at {
                if before.len() < limit {
                    every_position_picked(before, n as nat, x as int);
                }
                let last = before[before.len() - 1];
                assert(keys[k].ahead(&keys[last as int]));
                keys[k].ahead_asymmetric(&keys[last as int]);
                if keys[x as int].ahead(&keys[k]) {
                    keys[x as int].ahead_between(&keys[last as int], &keys[k]);
                }
            } else {
                let i0 = if i < at { i } else { i - 1 };
                assert(before[i0] == after[i]);
            }
        }
    }
}

/// A key that is ahead of none of the highest ones stays out, if there are enough
/// of them.
proof fn left_out<K: RankKey>(picks: Seq<usize>, keys: Seq<K>, n: usize, limit: nat)
    requires
        n < keys.len(),
        are_highest(picks, keys, n as nat, limit),
        picks.len() == limit,
        limit > 0 ==> !keys[n as int].ahead(&keys[picks[limit - 1] as int]),
    ensures
        are_highest(picks, keys, (n + 1) as nat, limit),
{
    assert forall|x: usize, i: int|
        x < n + 1 && !#[trigger] picks.contains(x) && 0 <= i < picks.len() implies !keys[x as int].ahead(
        &keys[(#[trigger] picks[i]) as int],
    ) by {
        if x == n && keys[n as int].ahead(&keys[picks[i] as int]) {
            let last = picks[limit - 1];
            keys[n as int].ahead_between(&keys[last as int], &keys[picks[i] as int]);
        }
    }
}

} // verus!
