//! How much storage a buffer reserves, and how that amount grows.
//!
//! A buffer's capacity changes only when a byte is inserted into a full
//! buffer. It then doubles, so that a run of insertions pays for a new
//! reservation only once in a while.

use vstd::prelude::*;

verus! {

/// The capacity that a buffer made empty reserves.
pub const DEFAULT_BUFFER_CAPACITY: usize = 10;

/// The capacity that a full buffer of capacity `cap` grows to: twice `cap`,
/// but no less than the default capacity and no more than `usize::MAX`.
pub open spec fn grown_capacity(cap: nat) -> nat {
    if 2 * cap < DEFAULT_BUFFER_CAPACITY {
        DEFAULT_BUFFER_CAPACITY as nat
    } else if 2 * cap <= usize::MAX {
        2 * cap
    } else {
        usize::MAX as nat
    }
}

/// The capacity after one byte is inserted into a buffer that holds `len`
/// bytes and has capacity `cap`.
pub open spec fn capacity_after_insert(cap: nat, len: nat) -> nat {
    if len < cap {
        cap
    } else {
        grown_capacity(cap)
    }
}

/// The capacity after `n` bytes are inserted, one after the other, into a
/// buffer that holds `len` bytes and has capacity `cap`.
pub open spec fn capacity_after_inserts(cap: nat, len: nat, n: nat) -> nat
    decreases n,
{
    if n == 0 {
        cap
    } else {
        capacity_after_inserts(capacity_after_insert(cap, len), len + 1, (n - 1) as nat)
    }
}

/// Computes the capacity that a full buffer of capacity `cap` grows to.
pub fn grow(cap: usize) -> (grown: usize)
    ensures
        grown == grown_capacity(cap as nat),
{
    if cap < DEFAULT_BUFFER_CAPACITY / 2 {
        DEFAULT_BUFFER_CAPACITY
    } else if cap <= usize::MAX / 2 {
        2 * cap
    } else {
        usize::MAX
    }
}

/// Growing always makes room: the grown capacity is larger than the old
/// one, unless the old one is already the largest there is.
pub proof fn lemma_growth_makes_room(cap: nat)
    requires
        cap < usize::MAX,
    ensures
        cap < grown_capacity(cap) <= usize::MAX,
{
}

/// Insertions never shrink the capacity, and the capacity always covers
/// what the buffer holds: once more bytes are held than the capacity at the
/// start, the capacity has grown.
pub proof fn lemma_capacity_covers_inserts(cap: nat, len: nat, n: nat)
    requires
        len <= cap,
        len + n <= usize::MAX,
    ensures
        cap <= capacity_after_inserts(cap, len, n),
        len + n <= capacity_after_inserts(cap, len, n),
    decreases n,
{
    if n > 0 {
        lemma_capacity_covers_inserts(capacity_after_insert(cap, len), len + 1, (n - 1) as nat);
    }
}

/// While there is room the capacity stays as it is: insertions that fit
/// cause no growth.
pub proof fn lemma_no_growth_while_room(cap: nat, len: nat, n: nat)
    requires
        len + n <= cap,
    ensures
        capacity_after_inserts(cap, len, n) == cap,
    decreases n,
{
    if n > 0 {
        lemma_no_growth_while_room(cap, len + 1, (n - 1) as nat);
    }
}

/// Growth is paid for only once in a while: after a full buffer of
/// capacity `cap` has grown on one insertion, the next `cap - 1` insertions
/// cause no further growth.
pub proof fn lemma_growth_is_amortized(cap: nat, n: nat)
    requires
        0 < cap,
        2 * cap <= usize::MAX,
        n <= cap - 1,
    ensures
        capacity_after_inserts(cap, cap, 1 + n) == grown_capacity(cap),
        grown_capacity(cap) >= 2 * cap,
{
    lemma_no_growth_while_room(grown_capacity(cap), cap + 1, n);
    assert(capacity_after_inserts(cap, cap, 1 + n) == capacity_after_inserts(
        capacity_after_insert(cap, cap),
        cap + 1,
        n,
    ));
}

} // verus!
