//! Seeded pseudo-random samples, drawn from the `randomize` crate.
//!
//! The generator is the 32-bit permuted congruential generator of that
//! crate. Its whole state is a pair of 64-bit words, so the library keeps
//! the pair itself and hands it to the crate for every draw.

use vstd::prelude::*;

verus! {

/// The multiplier of the 64-bit linear congruential step.
pub const PCG_MULTIPLIER: u64 = 6364136223846793005;

/// The bit pattern of the single-precision number nearest to nine tenths.
/// A sample is alive when it lies strictly above it, which leaves about one
/// cell in ten alive.
pub const ALIVE_THRESHOLD_BITS: u32 = 0x3f66_6666;

/// The generator's state after one draw: a linear congruential step
/// modulo 2^64.
pub open spec fn pcg32_next_state(state: u64, inc: u64) -> u64 {
    vstd::wrapping::u64_specs::wrapping_add(
        vstd::wrapping::u64_specs::wrapping_mul(state, PCG_MULTIPLIER),
        inc,
    )
}

/// `word` rotated right by `amount` bits.
pub open spec fn rotate_right(word: u32, amount: u32) -> u32 {
    let r: u32 = amount % 32;
    if r == 0 {
        word
    } else {
        (word >> r) | (word << ((32 - r) as u32))
    }
}

/// The word that a draw returns from `state`: an xorshift of the high bits,
/// rotated by the top five bits.
pub open spec fn pcg32_output(state: u64) -> u32 {
    rotate_right((((state >> 18) ^ state) >> 27) as u32, (state >> 59) as u32)
}

/// The generator's state after `draws` draws.
pub open spec fn pcg32_state_after(state: u64, inc: u64, draws: nat) -> u64
    decreases draws,
{
    if draws == 0 {
        state
    } else {
        pcg32_next_state(pcg32_state_after(state, inc, (draws - 1) as nat), inc)
    }
}

/// The word returned by draw number `index` (counted from zero) of a
/// generator seeded with exactly `state` and `inc`.
pub open spec fn pcg32_word(state: u64, inc: u64, index: nat) -> u32 {
    pcg32_output(pcg32_state_after(state, inc, index))
}

/// The bit pattern of the single-precision number in `[0, 1)` that
/// `randomize::f32_half_open_right` makes of `word`.
pub uninterp spec fn unit_interval_bits(word: u32) -> u32;

/// Whether a sample from `[0, 1)`, given by its bit pattern, marks a live
/// cell. Non-negative single-precision numbers are ordered as their bit
/// patterns are, so this is the comparison of the sample with nine tenths.
pub open spec fn sample_is_alive(bits: u32) -> bool {
    bits > ALIVE_THRESHOLD_BITS
}

/// Whether the cell filled by draw number `index` starts alive.
pub open spec fn seeded_alive(seed: (u64, u64), index: nat) -> bool {
    sample_is_alive(unit_interval_bits(pcg32_word(seed.0, seed.1, index)))
}

/// One draw of `randomize::PCG32::next_u32` from a generator that holds
/// exactly `state` and `inc`. Returns the word drawn and the state the
/// generator is left in; the stream `inc` never changes.
///
/// Trusted, not proved: the contract restates the two formulas the crate
/// draws by, `xsh_rr_64_32` of the state before the draw for the word and
/// `pcg_core_state64` for the state after it.
#[verifier::external_body]
pub(crate) fn pcg32_step(state: u64, inc: u64) -> (drawn: (u32, u64))
    ensures
        drawn.0 == pcg32_output(state),
        drawn.1 == pcg32_next_state(state, inc),
{
    let mut generator = randomize::PCG32::from((state, inc));
    let word: u32 = generator.next_u32();
    (word, generator.state)
}

/// `randomize::f32_half_open_right` applied to `word`, returned as the bit
/// pattern of the single-precision number it gives.
///
/// Trusted, not proved: the contract only gives that result a name. It
/// depends on `word` alone.
#[verifier::external_body]
pub(crate) fn half_open_right_bits(word: u32) -> (bits: u32)
    ensures
        bits == unit_interval_bits(word),
{
    randomize::f32_half_open_right(word).to_bits()
}

/// Whether a sample with the given bit pattern marks a live cell.
pub fn is_alive_sample(bits: u32) -> (alive: bool)
    ensures
        alive == sample_is_alive(bits),
{
    bits > ALIVE_THRESHOLD_BITS
}

} // verus!
