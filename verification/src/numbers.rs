//! Exact integer arithmetic of the effect model: every formula is the floor
//! of a rational number, cut off at the bounds of the type that holds it.

use vstd::prelude::*;

verus! {

/// `x` cut off at the bounds of `u32`.
pub open spec fn clamp_u32(x: int) -> u32 {
    if x < 0 {
        0
    } else if x > u32::MAX {
        u32::MAX
    } else {
        x as u32
    }
}

/// `x` cut off at the bounds of `i32`.
pub open spec fn clamp_i32(x: int) -> i32 {
    if x < i32::MIN {
        i32::MIN
    } else if x > i32::MAX {
        i32::MAX
    } else {
        x as i32
    }
}

/// What one percent of efficiency is worth: the floor of
/// `(stat / 10 / (divider / 100) + offset) * (modifier / 100)`.
/// With a divider of zero the quotient has no bound: the result is the
/// largest `u32`, or zero where the stat or the modifier is zero.
pub open spec fn base_value(stat: u32, divider: u32, modifier: u32, offset: u32) -> u32 {
    if divider == 0 {
        if stat > 0 && modifier > 0 {
            u32::MAX
        } else {
            0
        }
    } else {
        clamp_u32(((10 * stat + offset * divider) * modifier) / (100 * divider))
    }
}

/// The absolute gain of an action: the floor of `percent * base / 100`.
pub open spec fn gain(percent: u32, base: u32) -> u32 {
    clamp_u32((percent * base) / 100)
}

/// Computes `base_value`.
pub fn compute_base_value(stat: u32, divider: u32, modifier: u32, offset: u32) -> (r: u32)
    ensures
        r == base_value(stat, divider, modifier, offset),
{
    if divider == 0 {
        if stat > 0 && modifier > 0 {
            u32::MAX
        } else {
            0
        }
    } else {
        assert((offset as u128) * (divider as u128) <= 0xffff_ffff_0000_0000) by (nonlinear_arith)
            requires
                offset <= 0xffff_ffff,
                divider <= 0xffff_ffff,
        ;
        let numerator: u128 = 10 * (stat as u128) + (offset as u128) * (divider as u128);
        assert(numerator * (modifier as u128) <= 0x1_0000_0000_0000_0000_0000_0000_0000) by (nonlinear_arith)
            requires
                numerator <= 0x1_0000_0000_0000_0000_0000,
                modifier <= 0xffff_ffff,
        ;
        let scaled: u128 = numerator * (modifier as u128);
        let quotient: u128 = scaled / (100 * (divider as u128));
        if quotient > u32::MAX as u128 {
            u32::MAX
        } else {
            quotient as u32
        }
    }
}

/// Computes `gain`.
pub fn compute_gain(percent: u32, base: u32) -> (r: u32)
    ensures
        r == gain(percent, base),
{
    assert((percent as u64) * (base as u64) <= 0xffff_ffff_0000_0000) by (nonlinear_arith)
        requires
            percent <= 0xffff_ffff,
            base <= 0xffff_ffff,
    ;
    let product: u64 = (percent as u64) * (base as u64);
    let quotient: u64 = product / 100;
    if quotient > u32::MAX as u64 {
        u32::MAX
    } else {
        quotient as u32
    }
}

} // verus!
