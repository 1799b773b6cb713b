//! Lists.

use crate::order::{clamped, is_top};
use vstd::prelude::*;

verus! {

/// A list never asks for fewer than 1 or more than 100 entries, and a number in
/// that range is taken as it is.
pub proof fn limit_in_range(limit: u32)
    ensures
        1 <= clamped(limit) <= 100,
        1 <= limit <= 100 ==> clamped(limit) == limit,
{
}

/// If of any two items of a pool one precedes the other, there is only one top
/// list.
pub proof fn top_is_determined<T>(
    a: Seq<T>,
    b: Seq<T>,
    pool: spec_fn(T) -> bool,
    precedes: spec_fn(T, T) -> bool,
    limit: nat,
)
    requires
        is_top(a, pool, precedes, limit),
        is_top(b, pool, precedes, limit),
        forall|x: T, y: T|
            #![trigger pool(x), pool(y)]
            pool(x) && pool(y) && x != y ==> precedes(x, y) || precedes(y, x),
    ensures
        a == b,
{
    assert forall|k: int| 0 <= k < a.len() && k < b.len() implies a[k] == b[k] by {
        same_item(a, b, pool, precedes, limit, k);
    }
    no_shorter(a, b, pool, precedes, limit);
    no_shorter(b, a, pool, precedes, limit);
    assert(a =~= b);
}

proof fn same_item<T>(
    a: Seq<T>,
    b: Seq<T>,
    pool: spec_fn(T) -> bool,
    precedes: spec_fn(T, T) -> bool,
    limit: nat,
    k: int,
)
    requires
        is_top(a, pool, precedes, limit),
        is_top(b, pool, precedes, limit),
        forall|x: T, y: T|
            #![trigger pool(x), pool(y)]
            pool(x) && pool(y) && x != y ==> precedes(x, y) || precedes(y, x),
        0 <= k < a.len(),
        k < b.len(),
    ensures
        a[k] == b[k],
    decreases k,
{
    assert forall|j: int| 0 <= j < k implies a[j] == b[j] by {
        same_item(a, b, pool, precedes, limit, j);
    }
    assert(pool(a[k]) && pool(b[k]));
    if a[k] != b[k] {
        not_ahead(a, b, pool, precedes, limit, k);
        not_ahead(b, a, pool, precedes, limit, k);
    }
}

/// The next item of one list does not precede that of the other, as long as the
/// lists agree before it.
proof fn not_ahead<T>(
    a: Seq<T>,
    b: Seq<T>,
    pool: spec_fn(T) -> bool,
    precedes: spec_fn(T, T) -> bool,
    limit: nat,
    k: int,
)
    requires
        is_top(a, pool, precedes, limit),
        is_top(b, pool, precedes, limit),
        0 <= k < a.len(),
        k < b.len(),
        forall|j: int| 0 <= j < k ==> a[j] == b[j],
        a[k] != b[k],
    ensures
        !precedes(b[k], a[k]),
{
    assert(pool(b[k]));
    if a.contains(b[k]) {
        let j = choose|j: int| 0 <= j < a.len() && a[j] == b[k];
        if j < k {
            assert(b[j] == b[k]);
        } else {
            assert(!precedes(a[j], a[k]));
        }
    }
}

/// A list that another one begins with is as long as that one.
proof fn no_shorter<T>(
    a: Seq<T>,
    b: Seq<T>,
    pool: spec_fn(T) -> bool,
    precedes: spec_fn(T, T) -> bool,
    limit: nat,
)
    requires
        is_top(a, pool, precedes, limit),
        is_top(b, pool, precedes, limit),
        forall|k: int| 0 <= k < a.len() && k < b.len() ==> a[k] == b[k],
    ensures
        a.len() >= b.len(),
{
    if a.len() < b.len() {
        let next = b[a.len() as int];
        assert(pool(next));
        assert(a.contains(next));
        let j = choose|j: int| 0 <= j < a.len() && a[j] == next;
        assert(b[j] == next);
    }
}

} // verus!
