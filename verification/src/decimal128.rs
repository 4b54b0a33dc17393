//! Pseudo-random decimals of a chosen bit width, as input for measurements of
//! bit-packing.

use vstd::prelude::*;

verus! {

/// The next state of the generator (xorshift with shifts 13, 7 and 17).
pub open spec fn next_state(state: u64) -> u64 {
    let a = state ^ (state << 13u64);
    let b = a ^ (a >> 7u64);
    b ^ (b << 17u64)
}

/// The state after `n` steps.
pub open spec fn state_after(state: u64, n: nat) -> u64
    decreases n,
{
    if n == 0 {
        state
    } else {
        next_state(state_after(state, (n - 1) as nat))
    }
}

/// The value that two consecutive states, `lo` and then `hi`, give at bit width
/// `target_bw`.
pub open spec fn value_of(lo: u64, hi: u64, target_bw: u32) -> i128 {
    if target_bw == 128 {
        (-1 - lo) as i128
    } else {
        let raw = ((hi as u128) << 64u128) | (lo as u128);
        let high_bit = 1u128 << ((target_bw - 1) as u32);
        (raw & (((1u128 << target_bw) - 1) as u128) | high_bit) as i128
    }
}

/// The state that the lower half of the `i`-th value is read from.
pub open spec fn low_state(seed: u64, i: int) -> u64 {
    state_after(seed | 1, (2 * i + 1) as nat)
}

/// The state that the upper half of the `i`-th value is read from.
pub open spec fn high_state(seed: u64, i: int) -> u64 {
    state_after(seed | 1, (2 * i + 2) as nat)
}

/// The `i`-th value of the sequence that starts from `seed`.
pub open spec fn value_at(seed: u64, i: int, target_bw: u32) -> i128 {
    let start = seed | 1;
    value_of(
        state_after(start, (2 * i + 1) as nat),
        state_after(start, (2 * i + 2) as nat),
        target_bw,
    )
}

fn step(state: u64) -> (r: u64)
    ensures
        r == next_state(state),
{
    let a: u64 = state ^ (state << 13u64);
    let b: u64 = a ^ (a >> 7u64);
    b ^ (b << 17u64)
}

fn value_from(lo: u64, hi: u64, target_bw: u32) -> (r: i128)
    requires
        1 <= target_bw <= 128,
    ensures
        r == value_of(lo, hi, target_bw),
{
    if target_bw == 128 {
        -1i128 - (lo as i128)
    } else {
        let raw: u128 = ((hi as u128) << 64u128) | (lo as u128);
        let one: u128 = 1u128 << target_bw;
        assert(1u128 << target_bw >= 1) by (bit_vector)
            requires
                target_bw < 128,
        ;
        let mask: u128 = one - 1;
        let high_bit: u128 = 1u128 << (target_bw - 1);
        ((raw & mask) | high_bit) as i128
    }
}

/// `num_rows` values of bit width `target_bw`: at widths below 128, positive numbers
/// whose highest bit is the one at that width; at 128, negative numbers no less than
/// `-(2^64)`.
pub fn generate_decimal128_values(num_rows: usize, target_bw: u32, seed: u64) -> (r: Vec<i128>)
    requires
        1 <= target_bw <= 128,
    ensures
        r@ == Seq::new(num_rows as nat, |i: int| value_at(seed, i, target_bw)),
{
    let mut state: u64 = seed | 1;
    let ghost start = state;
    let mut values: Vec<i128> = Vec::new();
    let mut i: usize = 0;
    while i < num_rows
        invariant
            1 <= target_bw <= 128,
            i <= num_rows,
            start == seed | 1,
            state == state_after(start, (2 * i) as nat),
            values@ =~= Seq::new(i as nat, |j: int| value_at(seed, j, target_bw)),
        decreases num_rows - i,
    {
        let lo: u64 = step(state);
        let hi: u64 = step(lo);
        assert(lo == state_after(start, (2 * i + 1) as nat));
        assert(hi == state_after(start, (2 * i + 2) as nat));
        state = hi;
        values.push(value_from(lo, hi, target_bw));
        i = i + 1;
    }
    values
}

/// Every value has the bit width that was asked for.
pub proof fn lemma_bit_width(seed: u64, i: int, target_bw: u32)
    requires
        1 <= target_bw <= 128,
    ensures
        target_bw == 128 ==> -0x1_0000_0000_0000_0000 <= value_at(seed, i, target_bw) <= -1,
        target_bw < 128 ==> (1u128 << ((target_bw - 1) as u32)) <= value_at(seed, i, target_bw),
        target_bw < 128 ==> value_at(seed, i, target_bw) < (1u128 << target_bw),
{
    let start = seed | 1;
    let lo = state_after(start, (2 * i + 1) as nat);
    let hi = state_after(start, (2 * i + 2) as nat);
    if target_bw < 128 {
        let raw = ((hi as u128) << 64u128) | (lo as u128);
        assert(1u128 << target_bw >= 1) by (bit_vector)
            requires
                target_bw < 128,
        ;
        let below = (target_bw - 1) as u32;
        let mask = ((1u128 << target_bw) - 1) as u128;
        assert((raw & mask | (1u128 << below)) >= (1u128 << below)) by (bit_vector);
        assert((raw & mask | (1u128 << below)) < (1u128 << target_bw)) by (bit_vector)
            requires
                1 <= target_bw < 128,
                below == target_bw - 1,
                mask == (1u128 << target_bw) - 1,
        ;
        assert(1u128 << target_bw <= 0x8000_0000_0000_0000_0000_0000_0000_0000) by (bit_vector)
            requires
                target_bw < 128,
        ;
    }
}

/// One step of the generator combines the state with itself shifted left by 13 bits,
/// then right by 7, then left by 17.
pub proof fn lemma_step_shifts(state: u64, a: u64, b: u64)
    requires
        a == state ^ (state << 13u64),
        b == a ^ (a >> 7u64),
    ensures
        next_state(state) == b ^ (b << 17u64),
{
}

/// The generator starts from the seed once and carries on from row to row: every row
/// is read from the two states that follow those of the row before.
pub proof fn lemma_states_carry_on(seed: u64, i: int)
    requires
        0 <= i,
    ensures
        low_state(seed, 0) == next_state(seed | 1),
        high_state(seed, i) == next_state(low_state(seed, i)),
        low_state(seed, i + 1) == next_state(high_state(seed, i)),
{
    reveal_with_fuel(state_after, 2);
}

/// At 128 bits, a row is the bitwise complement of its lower state. Below, it is made
/// of the lowest bits of its two states, with the highest one set.
pub proof fn lemma_rows_are_read_from_states(seed: u64, i: int, target_bw: u32)
    requires
        0 <= i,
        1 <= target_bw <= 128,
    ensures
        target_bw == 128 ==> value_at(seed, i, target_bw) == -1 - low_state(seed, i),
        target_bw < 128 ==> value_at(seed, i, target_bw) == ((((high_state(seed, i) as u128)
            << 64u128) | (low_state(seed, i) as u128)) & (((1u128 << target_bw) - 1) as u128) | (
        1u128 << ((target_bw - 1) as u32))) as i128,
{
}

/// At 128 bits, each row fixes the next one: it takes two steps from the one to the
/// other.
pub proof fn lemma_consecutive_rows(seed: u64, i: int, lo: u64, next_lo: u64)
    requires
        0 <= i,
        value_at(seed, i, 128) == -1 - lo,
        next_lo == next_state(next_state(lo)),
    ensures
        value_at(seed, i + 1, 128) == -1 - next_lo,
{
    lemma_states_carry_on(seed, i);
}

proof fn lemma_shifted_left_13_injective(a: u64, b: u64)
    by (bit_vector)
    requires
        a ^ (a << 13u64) == b ^ (b << 13u64),
    ensures
        a == b,
{
}

proof fn lemma_shifted_right_7_injective(a: u64, b: u64)
    by (bit_vector)
    requires
        a ^ (a >> 7u64) == b ^ (b >> 7u64),
    ensures
        a == b,
{
}

proof fn lemma_shifted_left_17_injective(a: u64, b: u64)
    by (bit_vector)
    requires
        a ^ (a << 17u64) == b ^ (b << 17u64),
    ensures
        a == b,
{
}

/// Different states have different successors, so the states of two sequences that
/// differ once differ ever after.
pub proof fn lemma_steps_do_not_join(a: u64, b: u64)
    requires
        next_state(a) == next_state(b),
    ensures
        a == b,
{
    let first_a = a ^ (a << 13u64);
    let first_b = b ^ (b << 13u64);
    lemma_shifted_left_17_injective(first_a ^ (first_a >> 7u64), first_b ^ (first_b >> 7u64));
    lemma_shifted_right_7_injective(first_a, first_b);
    lemma_shifted_left_13_injective(a, b);
}

} // verus!
