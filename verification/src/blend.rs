//! The arithmetic of blending one pixel over another.
//!
//! A channel is a fraction of 255. With `first` the channel below, `second`
//! the channel above and `a` the alpha of the pixel above times the opacity
//! of its layer, the blended channel is
//! `first * (1 - a) + f(first, second) * a`, where `f` is what the blend
//! mode makes of the two channels. The result is rounded to the nearest
//! whole number of 255ths. All of this is done in whole numbers, so nothing
//! is lost on the way: over the denominator 255 * 255 the exact value never
//! lies half way between two results.

use vstd::prelude::*;
use crate::binary::blend_mode::BlendMode;
use crate::binary::scalars::Color;

verus! {

/// The square of 255: the denominator of a product of two channels.
pub const UNIT: u32 = 65025;

/// What the blend mode makes of the channel below and the channel above,
/// as a number of 65025ths. A mode without a formula gives the channel
/// below.
pub open spec fn blend_function(first: int, second: int, mode: BlendMode) -> int {
    match mode {
        BlendMode::Normal => second * 255,
        BlendMode::Multiply => first * second,
        BlendMode::Screen => 65025 - (255 - first) * (255 - second),
        BlendMode::Darken => if first < second {
            first * 255
        } else {
            second * 255
        },
        BlendMode::Lighten => if first > second {
            first * 255
        } else {
            second * 255
        },
        BlendMode::Addition => if first + second > 255 {
            65025
        } else {
            (first + second) * 255
        },
        BlendMode::Subtract => if first > second {
            (first - second) * 255
        } else {
            0
        },
        BlendMode::Difference => if first > second {
            (first - second) * 255
        } else {
            (second - first) * 255
        },
        BlendMode::Overlay => if first <= 127 {
            2 * first * second
        } else {
            65025 - 2 * (255 - first) * (255 - second)
        },
        _ => first * 255,
    }
}

/// The blended channel as a number of 65025ths of 255ths, before rounding.
pub open spec fn blend_numerator(first: int, second: int, alpha: int, mode: BlendMode) -> int {
    first * 255 * (255 - alpha) + blend_function(first, second, mode) * alpha
}

/// The channel `second` blended over the channel `first` at the alpha
/// `alpha`, rounded to the nearest whole number.
pub open spec fn spec_blend_channel(first: u8, second: u8, alpha: u8, mode: BlendMode) -> u8 {
    ((2 * blend_numerator(first as int, second as int, alpha as int, mode) + 65025) / 130050) as u8
}

/// The alpha at which a pixel is blended: its own alpha times the opacity
/// of its layer, as a fraction of 255, rounded down.
pub open spec fn spec_total_alpha(alpha: u8, opacity: u8) -> u8 {
    (alpha as int * opacity as int / 255) as u8
}

/// The pixel `above` of a layer with the given opacity and blend mode,
/// blended over the pixel `below`. The alpha channel is blended like the
/// color channels.
pub open spec fn blend_pixel(below: Color, above: Color, opacity: u8, mode: BlendMode) -> Color {
    let alpha = spec_total_alpha(above.alpha, opacity);
    Color {
        red: spec_blend_channel(below.red, above.red, alpha, mode),
        green: spec_blend_channel(below.green, above.green, alpha, mode),
        blue: spec_blend_channel(below.blue, above.blue, alpha, mode),
        alpha: spec_blend_channel(below.alpha, above.alpha, alpha, mode),
    }
}

/// What a blend mode makes of two channels is a fraction between 0 and 1.
pub proof fn lemma_blend_function_bounds(first: int, second: int, mode: BlendMode)
    requires
        0 <= first <= 255,
        0 <= second <= 255,
    ensures
        0 <= blend_function(first, second, mode) <= 65025,
{
    assert(0 <= first * second <= 65025) by (nonlinear_arith)
        requires
            0 <= first <= 255,
            0 <= second <= 255,
    ;
    assert(0 <= (255 - first) * (255 - second) <= 65025) by (nonlinear_arith)
        requires
            0 <= first <= 255,
            0 <= second <= 255,
    ;
    assert(first <= 127 ==> 2 * first * second <= 64770) by (nonlinear_arith)
        requires
            0 <= first <= 255,
            0 <= second <= 255,
    ;
    assert(first >= 128 ==> 2 * (255 - first) * (255 - second) <= 64770) by (nonlinear_arith)
        requires
            0 <= first <= 255,
            0 <= second <= 255,
    ;
}

/// The blended channel before rounding is a fraction between 0 and 1.
pub proof fn lemma_blend_numerator_bounds(first: int, second: int, alpha: int, mode: BlendMode)
    requires
        0 <= first <= 255,
        0 <= second <= 255,
        0 <= alpha <= 255,
    ensures
        0 <= blend_numerator(first, second, alpha, mode) <= 16581375,
        0 <= first * 255 * (255 - alpha) <= 16581375,
        0 <= blend_function(first, second, mode) * alpha <= 16581375,
{
    lemma_blend_function_bounds(first, second, mode);
    let f = blend_function(first, second, mode);
    assert(0 <= f * alpha <= 65025 * alpha) by (nonlinear_arith)
        requires
            0 <= f <= 65025,
            0 <= alpha <= 255,
    ;
    assert(0 <= first * 255 * (255 - alpha) <= 65025 * (255 - alpha)) by (nonlinear_arith)
        requires
            0 <= first <= 255,
            0 <= alpha <= 255,
    ;
}

/// What the blend mode makes of the channel below and the channel above,
/// as a number of 65025ths.
fn blend_function_of(first: u8, second: u8, mode: BlendMode) -> (value: u32)
    ensures
        value == blend_function(first as int, second as int, mode),
        value <= 65025,
{
    proof {
        lemma_blend_function_bounds(first as int, second as int, mode);
    }
    let f: u32 = first as u32;
    let s: u32 = second as u32;
    assert(f * s <= 65025 && (255 - f) * (255 - s) <= 65025) by (nonlinear_arith)
        requires
            f <= 255,
            s <= 255,
    ;
    match mode {
        BlendMode::Normal => s * 255,
        BlendMode::Multiply => f * s,
        BlendMode::Screen => UNIT - (255 - f) * (255 - s),
        BlendMode::Darken => if f < s {
            f * 255
        } else {
            s * 255
        },
        BlendMode::Lighten => if f > s {
            f * 255
        } else {
            s * 255
        },
        BlendMode::Addition => if f + s > 255 {
            UNIT
        } else {
            (f + s) * 255
        },
        BlendMode::Subtract => if f > s {
            (f - s) * 255
        } else {
            0
        },
        BlendMode::Difference => if f > s {
            (f - s) * 255
        } else {
            (s - f) * 255
        },
        BlendMode::Overlay => if f <= 127 {
            2 * f * s
        } else {
            UNIT - 2 * (255 - f) * (255 - s)
        },
        _ => f * 255,
    }
}

/// Blends the channel `second` over the channel `first` at the alpha
/// `alpha`.
pub fn blend_channel(first: u8, second: u8, alpha: u8, blend_mode: BlendMode) -> (blended: u8)
    ensures
        blended == spec_blend_channel(first, second, alpha, blend_mode),
{
    proof {
        lemma_blend_numerator_bounds(first as int, second as int, alpha as int, blend_mode);
    }
    let result = blend_function_of(first, second, blend_mode);
    let below: u32 = first as u32 * 255 * (255 - alpha as u32);
    let above: u32 = result * alpha as u32;
    let numerator: u32 = below + above;
    ((2 * numerator + UNIT) / (2 * UNIT)) as u8
}

/// The alpha at which a pixel is blended.
pub fn total_alpha(alpha: u8, opacity: u8) -> (total: u8)
    ensures
        total == spec_total_alpha(alpha, opacity),
{
    assert(alpha as int * opacity as int <= 65025) by (nonlinear_arith)
        requires
            alpha <= 255,
            opacity <= 255,
    ;
    ((alpha as u16 * opacity as u16) / 255) as u8
}

/// Blends the pixel `above` of a layer with the given opacity and blend
/// mode over the pixel `below`.
pub fn blend_pixels(below: Color, above: Color, opacity: u8, mode: BlendMode) -> (blended: Color)
    ensures
        blended == blend_pixel(below, above, opacity, mode),
{
    let alpha = total_alpha(above.alpha, opacity);
    Color {
        red: blend_channel(below.red, above.red, alpha, mode),
        green: blend_channel(below.green, above.green, alpha, mode),
        blue: blend_channel(below.blue, above.blue, alpha, mode),
        alpha: blend_channel(below.alpha, above.alpha, alpha, mode),
    }
}

/// In normal mode at full alpha the blended channel is the channel above,
/// whatever lies below.
pub proof fn lemma_normal_at_full_alpha(first: u8, second: u8)
    ensures
        spec_blend_channel(first, second, 255, BlendMode::Normal) == second,
{
    assert(blend_numerator(first as int, second as int, 255, BlendMode::Normal) == second * 65025)
        by (nonlinear_arith);
    assert((2 * (second * 65025) + 65025) / 130050 == second as int) by (nonlinear_arith)
        requires
            0 <= second <= 255,
    ;
}

/// A fully opaque pixel of a layer at full opacity in normal mode replaces
/// the pixel below it.
pub proof fn lemma_opaque_normal_pixel_replaces(below: Color, above: Color)
    requires
        above.alpha == 255,
    ensures
        blend_pixel(below, above, 255, BlendMode::Normal) == above,
{
    assert(spec_total_alpha(255, 255) == 255);
    lemma_normal_at_full_alpha(below.red, above.red);
    lemma_normal_at_full_alpha(below.green, above.green);
    lemma_normal_at_full_alpha(below.blue, above.blue);
    lemma_normal_at_full_alpha(below.alpha, above.alpha);
}

/// At alpha zero the blended channel is the channel below, in every mode.
pub proof fn lemma_blend_at_zero_alpha(first: u8, second: u8, mode: BlendMode)
    ensures
        spec_blend_channel(first, second, 0, mode) == first,
{
    assert(blend_numerator(first as int, second as int, 0, mode) == first * 65025)
        by (nonlinear_arith);
    assert((2 * (first * 65025) + 65025) / 130050 == first as int) by (nonlinear_arith)
        requires
            0 <= first <= 255,
    ;
}

} // verus!
