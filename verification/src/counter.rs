//! Counters that wrap around at the end of their range.

use vstd::prelude::*;

verus! {

/// `n` and `k` added, wrapping at 2^64.
pub open spec fn wrapped_sum(n: u64, k: u64) -> u64 {
    ((n + k) % 0x1_0000_0000_0000_0000) as u64
}

/// Adds `k` to a counter.
pub fn bump_by(n: u64, k: u64) -> (r: u64)
    ensures
        r == wrapped_sum(n, k),
{
    n.wrapping_add(k)
}

/// `n` less `k`, wrapping at 2^64.
pub open spec fn wrapped_difference(n: u64, k: u64) -> u64 {
    ((n - k) % 0x1_0000_0000_0000_0000) as u64
}

/// Takes `k` back from a counter.
pub fn unbump_by(n: u64, k: u64) -> (r: u64)
    ensures
        r == wrapped_difference(n, k),
{
    n.wrapping_sub(k)
}

/// What was added to a counter and taken back leaves no trace.
pub proof fn law_bump_undone(n: u64, k: u64)
    ensures
        wrapped_difference(wrapped_sum(n, k), k) == n,
{
}

/// Adds one to a counter.
pub fn bump(n: u64) -> (r: u64)
    ensures
        r == wrapped_sum(n, 1),
{
    n.wrapping_add(1)
}

/// `n` and one, wrapping at the end of the range.
pub open spec fn raised(n: i64) -> i64 {
    if n == i64::MAX {
        i64::MIN
    } else {
        (n + 1) as i64
    }
}

/// `n` less one, wrapping at the end of the range.
pub open spec fn lowered(n: i64) -> i64 {
    if n == i64::MIN {
        i64::MAX
    } else {
        (n - 1) as i64
    }
}

/// Executable form of [`raised`].
pub fn raise(n: i64) -> (r: i64)
    ensures
        r == raised(n),
{
    if n == i64::MAX {
        i64::MIN
    } else {
        n + 1
    }
}

/// Executable form of [`lowered`].
pub fn lower(n: i64) -> (r: i64)
    ensures
        r == lowered(n),
{
    if n == i64::MIN {
        i64::MAX
    } else {
        n - 1
    }
}

/// `a` less `b`, and nothing where that is negative.
pub open spec fn less(a: u64, b: u64) -> u64 {
    if a >= b {
        (a - b) as u64
    } else {
        0
    }
}

/// Executable form of [`less`].
pub fn take_away(a: u64, b: u64) -> (r: u64)
    ensures
        r == less(a, b),
{
    if a >= b {
        a - b
    } else {
        0
    }
}

/// What is taken away and what is left make up the whole; nothing is left of less.
pub proof fn law_taken_away(a: u64, b: u64)
    ensures
        a >= b ==> less(a, b) + b == a,
        a < b ==> less(a, b) == 0,
{
}

} // verus!
