//! The decision logic of the random-number helpers.
//!
//! Drawing raw words is the platform's job; everything that can be
//! computed from a draw is here, on explicitly passed state: the
//! xorshift step of the fast generator, its reseed schedule, and the
//! mapping of raw draws onto an inclusive integer range with rejection
//! sampling.

use vstd::prelude::*;

verus! {

/// One xorshift step over a 32-bit state.
pub open spec fn xorshift32_spec(state: u32) -> u32 {
    let a = state ^ (state << 13);
    let b = a ^ (a >> 17);
    b ^ (b << 5)
}

/// Advances the fast generator's state by one xorshift step.
pub fn xorshift32(state: u32) -> (r: u32)
    ensures
        r == xorshift32_spec(state),
{
    let a = state ^ (state << 13);
    let b = a ^ (a >> 17);
    b ^ (b << 5)
}

/// Whether the fast generator reseeds from the platform before this
/// step: on every state whose low byte is zero, so once in 256 steps.
pub fn needs_reseed(state: u32) -> (r: bool)
    ensures
        r == (state & 0xFF == 0),
{
    state & 0xFF == 0
}

/// Whether drawing for the range `[min, max]` takes a full 64-bit draw:
/// only where the range spans more than 2^32 values.
pub fn randint_uses_wide_draw(min: u64, max: u64) -> (r: bool)
    requires
        min <= max,
        !(min == 0 && max == u64::MAX),
    ensures
        r == (max - min + 1 > 0x1_0000_0000),
{
    max - min + 1 > 0x1_0000_0000
}

/// Maps one raw draw onto the inclusive range `[min, max]`, or rejects
/// it.  A range spanning a power of two takes the draw's low bits and
/// never rejects; any other range accepts draws below the largest
/// multiple of its span, so that the result is unbiased, and maps them
/// by remainder.  Ranges of at most 2^32 values expect a 32-bit draw.
pub fn randint_step(min: u64, max: u64, draw: u64) -> (r: Option<u64>)
    requires
        min <= max,
        !(min == 0 && max == u64::MAX),
        max - min + 1 <= 0x1_0000_0000 ==> draw < 0x1_0000_0000,
    ensures
        ({
            let range = (max - min + 1) as u64;
            let mask = (max - min) as u64;
            &&& (min == max ==> r == Some(min))
            &&& (min != max && range & mask == 0 ==> r == Some((min + (draw & mask)) as u64))
            &&& (min != max && range & mask != 0 && range <= 0x1_0000_0000 ==> ({
                let threshold = ((0x1_0000_0000u64 / range) * range) as u64;
                if draw < threshold {
                    r == Some((min + draw % range) as u64)
                } else {
                    r is None
                }
            }))
            &&& (min != max && range & mask != 0 && range > 0x1_0000_0000 ==> ({
                let threshold = ((u64::MAX / range) * range) as u64;
                if draw < threshold {
                    r == Some((min + draw % range) as u64)
                } else {
                    r is None
                }
            }))
        }),
        r is Some ==> min <= r->0 <= max,
{
    if min == max {
        return Some(min);
    }
    let range = max - min + 1;
    let mask = range - 1;
    proof {
        assert(draw & mask <= mask) by (bit_vector);
        vstd::arithmetic::div_mod::lemma_mod_bound(draw as int, range as int);
    }
    if range & mask == 0 {
        return Some(min + (draw & mask));
    }
    if range <= 0x1_0000_0000 {
        proof {
            vstd::arithmetic::div_mod::lemma_fundamental_div_mod(0x1_0000_0000, range as int);
            vstd::arithmetic::div_mod::lemma_mod_bound(0x1_0000_0000, range as int);
        }
        let threshold = (0x1_0000_0000u64 / range) * range;
        if draw < threshold {
            return Some(min + draw % range);
        }
        return None;
    }
    proof {
        vstd::arithmetic::div_mod::lemma_fundamental_div_mod(u64::MAX as int, range as int);
        vstd::arithmetic::div_mod::lemma_mod_bound(u64::MAX as int, range as int);
    }
    let threshold = (u64::MAX / range) * range;
    if draw < threshold {
        return Some(min + draw % range);
    }
    None
}

} // verus!
