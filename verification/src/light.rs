//! Flat shading: a colour scaled by the intensity of the light on a face.

use vstd::prelude::*;
use crate::color::Color;
use crate::fixed::{lemma_mul_bound, FIXED_ONE};

verus! {

/// The intensity `factor`, in fixed point, held between zero and one.
pub open spec fn clamp_unit(factor: int) -> int {
    if factor < 0 {
        0
    } else if factor > FIXED_ONE {
        FIXED_ONE as int
    } else {
        factor
    }
}

/// A channel scaled by an intensity, rounded down.
pub open spec fn scale_channel(channel: u8, factor: int) -> int {
    channel * clamp_unit(factor) / (FIXED_ONE as int)
}

/// Scales one channel by an intensity between zero and one.
fn scaled(channel: u8, unit_factor: i32) -> (c: u8)
    requires
        0 <= unit_factor <= FIXED_ONE,
    ensures
        c == channel * unit_factor / (FIXED_ONE as int),
{
    proof {
        lemma_mul_bound(channel as int, unit_factor as int, 255, FIXED_ONE as int);
        assert(channel * unit_factor / (FIXED_ONE as int) <= channel) by (nonlinear_arith)
            requires
                0 <= unit_factor <= FIXED_ONE,
                FIXED_ONE == 0x1_0000,
                0 <= channel,
        ;
        assert(0 <= channel * unit_factor) by (nonlinear_arith)
            requires
                0 <= unit_factor,
                0 <= channel,
        ;
    }
    ((channel as i32 * unit_factor) / FIXED_ONE) as u8
}

/// The colour of a face under light of the given intensity, in fixed
/// point: red, green and blue are scaled by the intensity, which is first
/// held between zero and one; alpha stays as it is.
pub fn light_apply_intensity(base_color: &Color, percentage_factor: i32) -> (shaded: Color)
    ensures
        shaded.r == scale_channel(base_color.r, percentage_factor as int),
        shaded.g == scale_channel(base_color.g, percentage_factor as int),
        shaded.b == scale_channel(base_color.b, percentage_factor as int),
        shaded.a == base_color.a,
{
    let factor: i32 = if percentage_factor < 0 {
        0
    } else if percentage_factor > FIXED_ONE {
        FIXED_ONE
    } else {
        percentage_factor
    };
    let r = scaled(base_color.r, factor);
    let g = scaled(base_color.g, factor);
    let b = scaled(base_color.b, factor);
    Color::rgba(r, g, b, base_color.a)
}

} // verus!
