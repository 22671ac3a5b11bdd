//! Cursor arithmetic: wrapping counters and their slots in a power-of-two store.

use vstd::arithmetic::div_mod::*;
use vstd::arithmetic::power2::*;
use vstd::bits::*;
use vstd::prelude::*;

verus! {

/// A capacity is usable when it is a power of two.
pub open spec fn power_of_two(n: usize) -> bool {
    exists|k: nat| n == pow2(k)
}

/// The number of distinct values a cursor takes before it wraps.
pub open spec fn cursor_range() -> int {
    usize::MAX + 1
}

/// The slot that a count of bytes maps to in a store of `n` slots.
pub open spec fn slot(count: int, n: usize) -> int {
    count % (n as int)
}

/// How far `write` is ahead of `read`, counted around the wrap.
pub open spec fn span(write: usize, read: usize) -> int {
    if write >= read {
        write - read
    } else {
        write - read + cursor_range()
    }
}

/// The cursor after one more byte.
pub open spec fn advance(cursor: usize) -> usize {
    if cursor == usize::MAX {
        0
    } else {
        (cursor + 1) as usize
    }
}

/// A power-of-two capacity has an exponent below the cursor's width.
pub proof fn lemma_capacity_exponent(n: usize) -> (k: nat)
    requires
        power_of_two(n),
    ensures
        n == pow2(k),
        k < usize::BITS,
        pow2(usize::BITS as nat) == cursor_range(),
{
    let k = choose|k: nat| n == pow2(k);
    lemma2_to64();
    lemma2_to64_rest();
    if k > usize::BITS {
        lemma_pow2_strictly_increases(usize::BITS as nat, k);
    }
    k
}

/// Between two neighbouring powers of two there is no power of two.
pub proof fn lemma_no_power_between(n: usize, k: nat)
    requires
        pow2(k) < n < pow2(k + 1),
    ensures
        !power_of_two(n),
{
    assert forall|j: nat| n != pow2(j) by {
        if j < k {
            lemma_pow2_strictly_increases(j, k);
        } else if j > k + 1 {
            lemma_pow2_strictly_increases(k + 1, j);
        }
    }
}

/// Whether `n` can be a capacity: whether it is a power of two.
pub fn is_power_of_two(n: usize) -> (ok: bool)
    ensures
        ok == power_of_two(n),
{
    if n == 0 {
        assert forall|j: nat| n != pow2(j) by {
            lemma_pow2_pos(j);
        }
        return false;
    }
    let mut p: usize = 1;
    let ghost mut k: nat = 0;
    proof {
        lemma2_to64();
    }
    while p < n && p <= usize::MAX / 2
        invariant
            p == pow2(k),
            1 <= p,
            k > 0 ==> pow2((k - 1) as nat) < n,
            1 <= n,
        decreases usize::MAX - p,
    {
        proof {
            lemma_pow2_unfold(k + 1);
        }
        p = p * 2;
        proof {
            k = k + 1;
        }
    }
    proof {
        if p > n {
            lemma_no_power_between(n, (k - 1) as nat);
        } else if p < n {
            lemma_pow2_unfold(k + 1);
            lemma_no_power_between(n, k);
        }
    }
    p == n
}

/// Masking a cursor with `n - 1` picks its slot.
pub proof fn lemma_mask_is_slot(cursor: usize, n: usize)
    requires
        power_of_two(n),
    ensures
        n >= 1,
        (cursor & ((n - 1) as usize)) == slot(cursor as int, n),
        0 <= slot(cursor as int, n) < n,
{
    let k = lemma_capacity_exponent(n);
    lemma_pow2_pos(k);
    lemma_usize_low_bits_mask_is_mod(cursor, k);
}

/// The cursor's range is a whole number of capacities.
pub proof fn lemma_range_multiple(n: usize)
    requires
        power_of_two(n),
    ensures
        n >= 1,
        cursor_range() % (n as int) == 0,
{
    let k = lemma_capacity_exponent(n);
    let rest = (usize::BITS - k) as nat;
    lemma_pow2_pos(k);
    lemma_pow2_adds(rest, k);
    lemma_mod_multiples_basic(pow2(rest) as int, n as int);
}

/// A count and the same count one wrap further share a slot.
pub proof fn lemma_slot_wraps(count: int, n: usize)
    requires
        power_of_two(n),
    ensures
        slot(count + cursor_range(), n) == slot(count, n),
        slot(count - cursor_range(), n) == slot(count, n),
{
    lemma_range_multiple(n);
    let m = n as int;
    let q = cursor_range() / m;
    lemma_fundamental_div_mod(cursor_range(), m);
    lemma_mod_multiples_vanish(q, count, m);
    lemma_mod_multiples_vanish(-q, count, m);
    assert(m * (-q) == -(m * q)) by (nonlinear_arith);
}

/// Counts less than a capacity apart have different slots.
pub proof fn lemma_slots_distinct(a: int, b: int, n: usize)
    requires
        0 < b - a < n,
    ensures
        slot(a, n) != slot(b, n),
{
    lemma_mod_equivalence(b, a, n as int);
    lemma_small_mod((b - a) as nat, n as nat);
}

} // verus!
