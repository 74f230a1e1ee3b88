//! RGB colors with 8-bit channels and their linear arithmetic.

use vstd::prelude::*;
use crate::fixed::{clamp_unit, unit_clamp, UNIT};

verus! {

/// An RGB color, one byte per channel.
#[derive(Clone, Copy, Debug, PartialEq, Eq, Structural)]
pub struct Color {
    pub r: u8,
    pub g: u8,
    pub b: u8,
}

/// The channel that stands for a fixed-point intensity: the intensity limited
/// to the unit interval, times 255, rounded down.
pub open spec fn channel_of(v: int) -> int {
    unit_clamp(v) * 255 / (UNIT as int)
}

/// The channel a fraction `t` of the way from `a` to `b`, with `t` limited to
/// the unit interval, rounded down.
pub open spec fn mix(a: int, b: int, t: int) -> int {
    (a * (UNIT - unit_clamp(t)) + b * unit_clamp(t)) / (UNIT as int)
}

/// The channel `c` times the fixed-point `factor`, rounded down and limited
/// to a byte. A negative factor gives `0`.
pub open spec fn scaled(c: int, factor: int) -> int {
    if factor <= 0 {
        0
    } else if c * factor / (UNIT as int) > 255 {
        255
    } else {
        c * factor / (UNIT as int)
    }
}

/// The sum of two channels, limited to a byte.
pub open spec fn sum(a: int, b: int) -> int {
    if a + b > 255 {
        255
    } else {
        a + b
    }
}

fn channel(v: i32) -> (c: u8)
    ensures
        c == channel_of(v as int),
{
    let t: i32 = clamp_unit(v as i64);
    (t * 255 / UNIT) as u8
}

fn mix_channel(a: u8, b: u8, t: i32) -> (c: u8)
    ensures
        c == mix(a as int, b as int, t as int),
{
    let tc: i32 = clamp_unit(t as i64);
    assert(a * (UNIT - tc) + b * tc <= 255 * UNIT) by (nonlinear_arith)
        requires
            0 <= a <= 255,
            0 <= b <= 255,
            0 <= tc <= UNIT,
    ;
    assert(0 <= a * (UNIT - tc) && 0 <= b * tc) by (nonlinear_arith)
        requires
            0 <= a <= 255,
            0 <= b <= 255,
            0 <= tc <= UNIT,
    ;
    let n: i32 = a as i32 * (UNIT - tc) + b as i32 * tc;
    (n / UNIT) as u8
}

fn scale_channel(c: u8, factor: i32) -> (s: u8)
    ensures
        s == scaled(c as int, factor as int),
{
    if factor <= 0 {
        0
    } else {
        assert(0 <= c * factor <= 255 * 0x7FFF_FFFF) by (nonlinear_arith)
            requires
                0 <= c <= 255,
                0 < factor <= 0x7FFF_FFFF,
        ;
        let q: i64 = c as i64 * factor as i64 / UNIT as i64;
        if q > 255 {
            255
        } else {
            q as u8
        }
    }
}

fn add_channel(a: u8, b: u8) -> (s: u8)
    ensures
        s == sum(a as int, b as int),
{
    let t: u16 = a as u16 + b as u16;
    if t > 255 {
        255
    } else {
        t as u8
    }
}

impl Color {
    /// The color with the given channels.
    pub fn new(r: u8, g: u8, b: u8) -> (c: Color)
        ensures
            c == (Color { r, g, b }),
    {
        Color { r, g, b }
    }

    /// Black.
    pub fn black() -> (c: Color)
        ensures
            c == (Color { r: 0, g: 0, b: 0 }),
    {
        Color { r: 0, g: 0, b: 0 }
    }

    /// The packed word `0xRRGGBB` as a number.
    pub open spec fn packed(self) -> int {
        self.r as int * 65536 + self.g as int * 256 + self.b as int
    }

    /// The color whose channels are three fixed-point intensities.
    pub open spec fn of_fixed(r: int, g: int, b: int) -> Color {
        Color { r: channel_of(r) as u8, g: channel_of(g) as u8, b: channel_of(b) as u8 }
    }

    /// The blend a fraction `t` of the way from `self` to `other`.
    pub open spec fn mixed(self, other: Color, t: int) -> Color {
        Color {
            r: mix(self.r as int, other.r as int, t) as u8,
            g: mix(self.g as int, other.g as int, t) as u8,
            b: mix(self.b as int, other.b as int, t) as u8,
        }
    }

    /// `self` with every channel multiplied by `factor`.
    pub open spec fn times(self, factor: int) -> Color {
        Color {
            r: scaled(self.r as int, factor) as u8,
            g: scaled(self.g as int, factor) as u8,
            b: scaled(self.b as int, factor) as u8,
        }
    }

    /// The channel-wise saturating sum of two colors.
    pub open spec fn plus(self, other: Color) -> Color {
        Color {
            r: sum(self.r as int, other.r as int) as u8,
            g: sum(self.g as int, other.g as int) as u8,
            b: sum(self.b as int, other.b as int) as u8,
        }
    }

    /// Unpacks `0xRRGGBB`; bits above the low 24 are ignored.
    pub fn from_hex(hex: u32) -> (c: Color)
        ensures
            c.r == (hex / 65536) % 256,
            c.g == (hex / 256) % 256,
            c.b == hex % 256,
    {
        Color {
            r: ((hex / 65536) % 256) as u8,
            g: ((hex / 256) % 256) as u8,
            b: (hex % 256) as u8,
        }
    }

    /// Packs the color as `0xRRGGBB`.
    pub fn to_hex(&self) -> (hex: u32)
        ensures
            hex == self.packed(),
            hex < 0x100_0000,
    {
        self.r as u32 * 65536 + self.g as u32 * 256 + self.b as u32
    }

    /// Builds a color from fixed-point intensities, each limited to the unit
    /// interval.
    pub fn from_fixed(r: i32, g: i32, b: i32) -> (c: Color)
        ensures
            c == Color::of_fixed(r as int, g as int, b as int),
    {
        Color { r: channel(r), g: channel(g), b: channel(b) }
    }

    /// Linear interpolation toward `other` by the fixed-point fraction `t`,
    /// which is limited to the unit interval.
    pub fn lerp(&self, other: &Color, t: i32) -> (c: Color)
        ensures
            c == self.mixed(*other, t as int),
    {
        Color {
            r: mix_channel(self.r, other.r, t),
            g: mix_channel(self.g, other.g, t),
            b: mix_channel(self.b, other.b, t),
        }
    }

    /// Multiplies every channel by the fixed-point `factor`, saturating.
    pub fn scale(&self, factor: i32) -> (c: Color)
        ensures
            c == self.times(factor as int),
    {
        Color {
            r: scale_channel(self.r, factor),
            g: scale_channel(self.g, factor),
            b: scale_channel(self.b, factor),
        }
    }

    /// Additive blend: the channel-wise sum, saturating at white.
    pub fn blend_add(&self, other: &Color) -> (c: Color)
        ensures
            c == self.plus(*other),
    {
        Color {
            r: add_channel(self.r, other.r),
            g: add_channel(self.g, other.g),
            b: add_channel(self.b, other.b),
        }
    }
}

/// Packing a color and unpacking the word gives the color back.
pub proof fn lemma_hex_round_trip(c: Color)
    ensures
        (c.packed() / 65536) % 256 == c.r,
        (c.packed() / 256) % 256 == c.g,
        c.packed() % 256 == c.b,
{
}

proof fn lemma_mix_endpoints(a: int, b: int)
    requires
        0 <= a <= 255,
        0 <= b <= 255,
    ensures
        mix(a, b, 0) == a,
        mix(a, b, UNIT as int) == b,
{
    assert(unit_clamp(0) == 0);
    assert(unit_clamp(UNIT as int) == UNIT);
    assert(a * (UNIT - 0) + b * 0 == a * 10_000);
    assert(a * (UNIT - UNIT) + b * UNIT == b * 10_000);
}

/// Interpolation by `0` gives the first color and by `UNIT` the second.
pub proof fn lemma_lerp_endpoints(a: Color, b: Color)
    ensures
        a.mixed(b, 0) == a,
        a.mixed(b, UNIT as int) == b,
{
    lemma_mix_endpoints(a.r as int, b.r as int);
    lemma_mix_endpoints(a.g as int, b.g as int);
    lemma_mix_endpoints(a.b as int, b.b as int);
}

} // verus!
