//! The color sequence of the bars: a golden-ratio walk through the hues.
//!
//! A hue is a fraction of a full turn, held as a whole number of
//! `1 / HUE_ONE` parts. Saturation and value are held in thousandths.

use vstd::prelude::*;

verus! {

/// The number of hue parts in a full turn.
pub const HUE_ONE: u64 = 10_000_000_000;

/// The golden-ratio conjugate, 0.6180339887, in hue parts: the step from
/// one bar's hue to the next.
pub const GOLDEN_STEP: u64 = 6_180_339_887;

/// The number of parts in which saturation and value are measured.
pub const LEVEL_ONE: u32 = 1000;

/// The saturation of every bar color: one half.
pub const BAR_SATURATION: u32 = 500;

/// The value of every bar color: 0.95.
pub const BAR_VALUE: u32 = 950;

/// A color by its red, green and blue channels. A channel is a fraction
/// multiplied by 256 and cut off, so it lies between 0 and 256.
#[derive(Clone, Copy, Debug, PartialEq, Eq, Structural)]
pub struct Rgb {
    pub red: u16,
    pub green: u16,
    pub blue: u16,
}

/// The hue `steps` golden-ratio steps after `seed`, within one turn.
pub open spec fn hue_after(seed: u64, steps: nat) -> int {
    (seed + steps * GOLDEN_STEP) % (HUE_ONE as int)
}

/// The sector of the color wheel, from 0 to 5, in which `hue` lies.
pub open spec fn hue_sector(hue: int) -> int {
    ((hue % (HUE_ONE as int)) * 6) / (HUE_ONE as int)
}

/// How far `hue` lies into its sector, in hue parts of the sector's width.
pub open spec fn hue_offset(hue: int) -> int {
    ((hue % (HUE_ONE as int)) * 6) % (HUE_ONE as int)
}

/// The channel of full value: `value * 256`, cut off.
pub open spec fn channel_full(value: int) -> int {
    value * 256 / (LEVEL_ONE as int)
}

/// The channel of least value: `value * (1 - saturation) * 256`, cut off.
pub open spec fn channel_low(saturation: int, value: int) -> int {
    value * (LEVEL_ONE - saturation) * 256 / (LEVEL_ONE * LEVEL_ONE)
}

/// The channel that falls across a sector:
/// `value * (1 - offset * saturation) * 256`, cut off.
pub open spec fn channel_falling(offset: int, saturation: int, value: int) -> int {
    value * (HUE_ONE * LEVEL_ONE - offset * saturation) * 256 / (HUE_ONE * LEVEL_ONE * LEVEL_ONE)
}

/// The channel that rises across a sector:
/// `value * (1 - (1 - offset) * saturation) * 256`, cut off.
pub open spec fn channel_rising(offset: int, saturation: int, value: int) -> int {
    value * (HUE_ONE * LEVEL_ONE - (HUE_ONE - offset) * saturation) * 256 / (HUE_ONE * LEVEL_ONE
        * LEVEL_ONE)
}

/// The color of a hue, a saturation and a value: in each sector of the
/// color wheel one channel is full, one is low, and one falls or rises.
pub open spec fn hsv_to_rgb_spec(hue: int, saturation: int, value: int) -> Rgb {
    let offset = hue_offset(hue);
    let full = channel_full(value) as u16;
    let low = channel_low(saturation, value) as u16;
    let falling = channel_falling(offset, saturation, value) as u16;
    let rising = channel_rising(offset, saturation, value) as u16;
    let sector = hue_sector(hue);
    if sector == 0 {
        Rgb { red: full, green: rising, blue: low }
    } else if sector == 1 {
        Rgb { red: falling, green: full, blue: low }
    } else if sector == 2 {
        Rgb { red: low, green: full, blue: rising }
    } else if sector == 3 {
        Rgb { red: low, green: falling, blue: full }
    } else if sector == 4 {
        Rgb { red: rising, green: low, blue: full }
    } else {
        Rgb { red: full, green: low, blue: falling }
    }
}

/// The colors of the first `count` bars of a chart whose palette starts at
/// `seed`: the hue advances by one golden-ratio step before each bar.
pub open spec fn next_colors_spec(seed: u64, count: nat) -> Seq<Rgb> {
    Seq::new(
        count,
        |k: int|
            hsv_to_rgb_spec(
                hue_after(seed, (k + 1) as nat),
                BAR_SATURATION as int,
                BAR_VALUE as int,
            ),
    )
}

/// No channel of a color exceeds 256, and none exceeds the channel of full
/// value, which stays below 256 as long as the value is below one.
pub proof fn lemma_channel_bounds(hue: int, saturation: int, value: int)
    requires
        0 <= saturation <= LEVEL_ONE,
        0 <= value <= LEVEL_ONE,
    ensures
        0 <= channel_full(value) <= 256,
        value < LEVEL_ONE ==> channel_full(value) <= 255,
        0 <= channel_low(saturation, value) <= channel_full(value),
        0 <= channel_falling(hue_offset(hue), saturation, value) <= channel_full(value),
        0 <= channel_rising(hue_offset(hue), saturation, value) <= channel_full(value),
{
    let offset = hue_offset(hue);
    let one = HUE_ONE as int;
    assert(0 <= offset < one);
    let a = 1000 - saturation;
    let b = one * 1000 - offset * saturation;
    let c = one * 1000 - (one - offset) * saturation;
    assert(0 <= b <= one * 1000 && 0 <= c <= one * 1000) by (nonlinear_arith)
        requires
            0 <= offset < one,
            0 <= saturation <= 1000,
            b == one * 1000 - offset * saturation,
            c == one * 1000 - (one - offset) * saturation,
    ;
    lemma_scaled_channel(value, a, 1000);
    lemma_scaled_channel(value, b, one * 1000);
    lemma_scaled_channel(value, c, one * 1000);
    assert(value * 256 / 1000 <= 256);
    assert(one * 1000 * 1000 == HUE_ONE * LEVEL_ONE * LEVEL_ONE);
}

/// A value scaled by a fraction of at most one gives a channel that is at
/// most the channel of the value itself.
proof fn lemma_scaled_channel(value: int, part: int, whole: int)
    requires
        0 <= value,
        0 <= part <= whole,
        whole > 0,
    ensures
        0 <= value * part * 256 / (whole * 1000) <= value * 256 / 1000,
{
    assert(0 <= value * part * 256 / (whole * 1000) <= value * 256 / 1000) by (nonlinear_arith)
        requires
            0 <= value,
            0 <= part <= whole,
            whole > 0,
    ;
}

/// Converts a hue, a saturation and a value to red, green and blue.
///
/// The hue is taken within one turn. Saturation and value are thousandths
/// and must not exceed one thousand.
pub fn hsv_to_rgb(hue: u64, saturation: u32, value: u32) -> (color: Rgb)
    requires
        saturation <= LEVEL_ONE,
        value <= LEVEL_ONE,
    ensures
        color == hsv_to_rgb_spec(hue as int, saturation as int, value as int),
{
    proof {
        lemma_channel_bounds(hue as int, saturation as int, value as int);
    }
    let turn: u64 = (hue % HUE_ONE) * 6;
    let sector: u64 = turn / HUE_ONE;
    let offset: u64 = turn % HUE_ONE;
    let s: u64 = saturation as u64;
    let v: u64 = value as u64;
    let whole: u64 = HUE_ONE * 1000;
    assert(offset * s <= whole && (HUE_ONE - offset) * s <= whole) by (nonlinear_arith)
        requires
            0 <= offset < HUE_ONE,
            0 <= s <= 1000,
            whole == HUE_ONE * 1000,
    ;
    let fall_part: u64 = whole - offset * s;
    let rise_part: u64 = whole - (HUE_ONE - offset) * s;
    assert(v * fall_part <= 1000 * whole && v * rise_part <= 1000 * whole) by (nonlinear_arith)
        requires
            0 <= v <= 1000,
            0 <= fall_part <= whole,
            0 <= rise_part <= whole,
    ;
    let full: u16 = (v * 256 / 1000) as u16;
    let low: u16 = (v * (1000 - s) * 256 / 1_000_000) as u16;
    let falling: u16 = (v * fall_part * 256 / (whole * 1000)) as u16;
    let rising: u16 = (v * rise_part * 256 / (whole * 1000)) as u16;
    if sector == 0 {
        Rgb { red: full, green: rising, blue: low }
    } else if sector == 1 {
        Rgb { red: falling, green: full, blue: low }
    } else if sector == 2 {
        Rgb { red: low, green: full, blue: rising }
    } else if sector == 3 {
        Rgb { red: low, green: falling, blue: full }
    } else if sector == 4 {
        Rgb { red: rising, green: low, blue: full }
    } else {
        Rgb { red: full, green: low, blue: falling }
    }
}

/// Walks the hues from `seed` by golden-ratio steps and gives the color of
/// each of `count` bars in turn.
pub fn color_walk(seed: u64, count: usize) -> (colors: Vec<Rgb>)
    ensures
        colors@ == next_colors_spec(seed, count as nat),
{
    let mut colors: Vec<Rgb> = Vec::new();
    let mut hue: u64 = seed % HUE_ONE;
    let mut k: usize = 0;
    while k < count
        invariant
            k <= count,
            hue == hue_after(seed, k as nat),
            colors@ == next_colors_spec(seed, k as nat),
        decreases count - k,
    {
        proof {
            lemma_hue_step(seed, k as nat);
        }
        hue = (hue + GOLDEN_STEP) % HUE_ONE;
        colors.push(hsv_to_rgb(hue, BAR_SATURATION, BAR_VALUE));
        k += 1;
        assert(colors@ =~= next_colors_spec(seed, k as nat));
    }
    colors
}

/// The colors of `count` bars, from a palette that starts at hue `seed`.
///
/// The sequence depends on the seed and the count alone.
pub fn next_colors(seed: u64, count: u32) -> (colors: Vec<Rgb>)
    ensures
        colors@ == next_colors_spec(seed, count as nat),
{
    color_walk(seed, count as usize)
}

/// One more golden-ratio step from the hue after `steps` steps gives the
/// hue after `steps + 1` steps.
pub proof fn lemma_hue_step(seed: u64, steps: nat)
    ensures
        hue_after(seed, steps + 1) == (hue_after(seed, steps) + GOLDEN_STEP) % (HUE_ONE as int),
        0 <= hue_after(seed, steps) < HUE_ONE,
{
    let x = seed + steps * GOLDEN_STEP;
    assert(seed + (steps + 1) * GOLDEN_STEP == x + GOLDEN_STEP) by (nonlinear_arith)
        requires
            x == seed + steps * GOLDEN_STEP,
    ;
    vstd::arithmetic::div_mod::lemma_add_mod_noop(x, GOLDEN_STEP as int, HUE_ONE as int);
    vstd::arithmetic::div_mod::lemma_small_mod(GOLDEN_STEP as nat, HUE_ONE as nat);
}

} // verus!
