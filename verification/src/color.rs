//! The single color-adjustment primitive of the pipeline, the grayscale
//! conversion primitive, and the perceptual-luma ordering key.
//!
//! A color is an RGB triple of three independent 8-bit channels. Alpha is
//! tracked separately at the palette level.

use vstd::prelude::*;

verus! {

/// The truncated integer average of the three channels.
pub open spec fn avg3(r: u8, g: u8, b: u8) -> int {
    (r + g + b) / 3
}

/// One channel of the brightness/saturation transform, evaluated exactly:
/// `clamp((ch - avg) * (sat / 100) + avg + br, 0, 255)`, with the final
/// fraction truncated toward zero. `num` is that expression scaled by 100.
pub open spec fn adjust_channel(ch: u8, avg: int, br: int, sat: int) -> int {
    let num = (ch - avg) * sat + (avg + br) * 100;
    if num <= 0 {
        0
    } else if num >= 25500 {
        255
    } else {
        num / 100
    }
}

/// The brightness/saturation transform applied to each channel identically,
/// relative to the triple's own truncated average.
pub open spec fn adjust_color_spec(c: (u8, u8, u8), br: int, sat: int) -> (u8, u8, u8) {
    let avg = avg3(c.0, c.1, c.2);
    (
        adjust_channel(c.0, avg, br, sat) as u8,
        adjust_channel(c.1, avg, br, sat) as u8,
        adjust_channel(c.2, avg, br, sat) as u8,
    )
}

/// The clamp keeps every adjusted channel within the 8-bit range, whatever
/// brightness and saturation are asked for.
pub proof fn lemma_adjust_channel_in_range(ch: u8, avg: int, br: int, sat: int)
    ensures
        0 <= adjust_channel(ch, avg, br, sat) <= 255,
{
    let num = (ch - avg) * sat + (avg + br) * 100;
    if 0 < num < 25500 {
        assert(0 <= num / 100 <= 255) by (nonlinear_arith)
            requires
                0 < num < 25500,
        ;
    }
}

fn adjust_channel_exec(ch: u8, avg: u16, br: i16, sat: i16) -> (res: u8)
    requires
        avg <= 255,
    ensures
        res == adjust_channel(ch, avg as int, br as int, sat as int) as u8,
{
    let diff: i32 = ch as i32 - avg as i32;
    proof {
        assert(diff * (sat as i32) <= 255 * 32768 && diff * (sat as i32) >= -255 * 32768)
            by (nonlinear_arith)
            requires
                -255 <= diff <= 255,
                -32768 <= sat <= 32767,
        ;
    }
    let num: i32 = diff * sat as i32 + (avg as i32 + br as i32) * 100;
    if num <= 0 {
        0
    } else if num >= 25500 {
        255
    } else {
        (num / 100) as u8
    }
}

/// The brightness/saturation transform with offsets wide enough for the
/// grading the slot mapper applies on top of the caller-supplied values.
pub fn adjust_rgb_wide(r: u8, g: u8, b: u8, brightness: i16, saturation: i16) -> (res: (
    u8,
    u8,
    u8,
))
    ensures
        res == adjust_color_spec((r, g, b), brightness as int, saturation as int),
{
    let avg: u16 = (r as u16 + g as u16 + b as u16) / 3;
    (
        adjust_channel_exec(r, avg, brightness, saturation),
        adjust_channel_exec(g, avg, brightness, saturation),
        adjust_channel_exec(b, avg, brightness, saturation),
    )
}

/// Adjusts a color by a flat additive brightness offset and a saturation
/// multiplier given in percent, clamping every channel into the 8-bit range.
pub fn adjust_rgb(r: u8, g: u8, b: u8, brightness: i8, saturation: i8) -> (res: (u8, u8, u8))
    ensures
        res == adjust_color_spec((r, g, b), brightness as int, saturation as int),
{
    adjust_rgb_wide(r, g, b, brightness as i16, saturation as i16)
}

/// The grayscale conversion `round(0.3 r + 0.59 g + 0.11 b)`, evaluated
/// exactly with the half rounded up.
pub open spec fn gray_of(r: u8, g: u8, b: u8) -> int {
    (30 * r + 59 * g + 11 * b + 50) / 100
}

/// The grayscale override primitive: the luma-weighted gray of the triple,
/// saturating-added with `v`, replaces all three channels.
pub open spec fn to_gray_spec(r: u8, g: u8, b: u8, v: u8) -> (u8, u8, u8) {
    let gs = if gray_of(r, g, b) + v >= 255 {
        255
    } else {
        gray_of(r, g, b) + v
    };
    (gs as u8, gs as u8, gs as u8)
}

/// The gray value never leaves the 8-bit range before the saturating add.
pub proof fn lemma_gray_in_range(r: u8, g: u8, b: u8)
    ensures
        0 <= gray_of(r, g, b) <= 255,
{
}

/// Converts a color to the achromatic triple `(g, g, g)` of its weighted
/// gray, brightened by `v` with saturation at 255.
pub fn to_gray(r: u8, g: u8, b: u8, v: u8) -> (res: (u8, u8, u8))
    ensures
        res == to_gray_spec(r, g, b, v),
{
    let sum: u32 = 30 * r as u32 + 59 * g as u32 + 11 * b as u32 + 50;
    let gray0: u32 = sum / 100;
    let gs: u8 = if gray0 + v as u32 >= 255 {
        255
    } else {
        (gray0 + v as u32) as u8
    };
    (gs, gs, gs)
}

/// The perceptual luma ordering key, scaled by 1000:
/// `1000 * (0.299 r + 0.587 g + 0.114 b)`.
pub open spec fn luma(c: (u8, u8, u8)) -> int {
    299 * c.0 + 587 * c.1 + 114 * c.2
}

/// The luma key of a color, for ordering the working set light-to-dark.
pub fn luma_value(c: (u8, u8, u8)) -> (res: u32)
    ensures
        res == luma(c),
{
    299 * c.0 as u32 + 587 * c.1 as u32 + 114 * c.2 as u32
}

} // verus!
