//! The deterministic generator every schedule of the exercise draws from.

use vstd::prelude::*;

verus! {

/// The increment SplitMix64 adds to its state on each draw.
pub const SPLITMIX_INCREMENT: u64 = 0x9E37_79B9_7F4A_7C15;

/// The finalizer of SplitMix64: the value drawn from the advanced state.
pub open spec fn splitmix_mix(state: u64) -> u64 {
    let first: u64 = (state ^ (state >> 30)).wrapping_mul(0xBF58_476D_1CE4_E5B9);
    let second: u64 = (first ^ (first >> 27)).wrapping_mul(0x94D0_49BB_1331_11EB);
    second ^ (second >> 31)
}

/// The state after one draw.
pub open spec fn splitmix_next(state: u64) -> u64 {
    state.wrapping_add(SPLITMIX_INCREMENT)
}

/// Advances `state` by one step of SplitMix64 and returns the value drawn.
pub fn splitmix64(state: &mut u64) -> (value: u64)
    ensures
        *final(state) == splitmix_next(*old(state)),
        value == splitmix_mix(splitmix_next(*old(state))),
{
    *state = state.wrapping_add(SPLITMIX_INCREMENT);
    let mut value: u64 = *state;
    value = (value ^ (value >> 30)).wrapping_mul(0xBF58_476D_1CE4_E5B9);
    value = (value ^ (value >> 27)).wrapping_mul(0x94D0_49BB_1331_11EB);
    value ^ (value >> 31)
}

// ----- what a draw keeps -----

/// The state that a value was drawn from.
pub open spec fn unmixed(value: u64) -> u64 {
    let second: u64 = value ^ (value >> 31) ^ (value >> 62);
    let mixed: u64 = second.wrapping_mul(0x3196_42B2_D24D_8EC3);
    let first: u64 = mixed ^ (mixed >> 27) ^ (mixed >> 54);
    let folded: u64 = first.wrapping_mul(0x96DE_1B17_3F11_9089);
    folded ^ (folded >> 30) ^ (folded >> 60)
}

proof fn lemma_undone(number: u64, factor: u64, inverse: u64)
    requires
        (factor as int * inverse as int) % 0x1_0000_0000_0000_0000 == 1,
    ensures
        number.wrapping_mul(factor).wrapping_mul(inverse) == number,
{
    let size: int = 0x1_0000_0000_0000_0000;
    let a = number as int;
    let f = factor as int;
    let i = inverse as int;
    vstd::arithmetic::div_mod::lemma_mul_mod_noop_left(a * f, i, size);
    let turns = (f * i) / size;
    assert(a * f * i == a * (f * i)) by (nonlinear_arith);
    assert(f * i == turns * size + 1);
    assert(a * (turns * size + 1) == size * (a * turns) + a) by (nonlinear_arith);
    vstd::arithmetic::div_mod::lemma_mod_multiples_vanish(a * turns, a, size);
    vstd::arithmetic::div_mod::lemma_small_mod(number as nat, size as nat);
}

/// Every value leads back to the state that it was drawn from, so that no two states draw the same value.
pub proof fn draws_lead_back_to_their_state(state: u64)
    ensures
        unmixed(splitmix_mix(state)) == state,
{
    let start: u64 = state ^ (state >> 30);
    let first: u64 = start.wrapping_mul(0xBF58_476D_1CE4_E5B9);
    let middle: u64 = first ^ (first >> 27);
    let second: u64 = middle.wrapping_mul(0x94D0_49BB_1331_11EB);
    let value: u64 = second ^ (second >> 31);
    assert(value ^ (value >> 31) ^ (value >> 62) == second) by (bit_vector)
        requires
            value == second ^ (second >> 31),
    ;
    lemma_undone(middle, 0x94D0_49BB_1331_11EB, 0x3196_42B2_D24D_8EC3);
    assert(middle ^ (middle >> 27) ^ (middle >> 54) == first) by (bit_vector)
        requires
            middle == first ^ (first >> 27),
    ;
    lemma_undone(start, 0xBF58_476D_1CE4_E5B9, 0x96DE_1B17_3F11_9089);
    assert(start ^ (start >> 30) ^ (start >> 60) == state) by (bit_vector)
        requires
            start == state ^ (state >> 30),
    ;
}

/// A draw moves the state on by the same odd number, whatever the state: it never stands still.
pub proof fn a_draw_moves_the_state_on(state: u64)
    ensures
        splitmix_next(state) as int == (state + 0x9E37_79B9_7F4A_7C15) % 0x1_0000_0000_0000_0000,
        splitmix_next(state) != state,
{
}

} // verus!
