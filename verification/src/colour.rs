//! Colour types: four- and three-channel colours with exact `u32` packing.

use vstd::prelude::*;

verus! {

/// An RGBA colour, one byte per channel.
#[derive(Clone, Copy, Debug, PartialEq, Eq, Structural)]
pub struct Rgba {
    pub r: u8,
    pub g: u8,
    pub b: u8,
    pub a: u8,
}

/// The packed form of four channel bytes: red in the most significant byte,
/// alpha in the least significant one.
pub open spec fn packed(r: u8, g: u8, b: u8, a: u8) -> int {
    r * 0x1000000 + g * 0x10000 + b * 0x100 + a
}

impl Rgba {
    /// Packs the four channels into one `u32`, red first.
    pub fn as_u32(self) -> (out: u32)
        ensures
            out == packed(self.r, self.g, self.b, self.a),
    {
        let out = (self.r as u32) << 24 | (self.g as u32) << 16 | (self.b as u32) << 8
            | self.a as u32;
        proof {
            let (r, g, b, a) = (self.r, self.g, self.b, self.a);
            assert((r as u32) << 24 | (g as u32) << 16 | (b as u32) << 8 | (a as u32)
                == r * 0x1000000 + g * 0x10000 + b * 0x100 + a) by (bit_vector);
        }
        out
    }

    /// An opaque colour: alpha is 255.
    pub fn from_rgb(r: u8, g: u8, b: u8) -> (out: Self)
        ensures
            out == (Rgba { r, g, b, a: 255u8 }),
    {
        Rgba { r, g, b, a: 255 }
    }

    pub fn from_rgba(r: u8, g: u8, b: u8, a: u8) -> (out: Self)
        ensures
            out == (Rgba { r, g, b, a }),
    {
        Rgba { r, g, b, a }
    }

    /// Unpacks a `u32`, the inverse of `as_u32`.
    pub fn from_u32(colour: u32) -> (out: Self)
        ensures
            colour == packed(out.r, out.g, out.b, out.a),
    {
        let out = Rgba {
            r: ((colour >> 24) & 0xFF) as u8,
            g: ((colour >> 16) & 0xFF) as u8,
            b: ((colour >> 8) & 0xFF) as u8,
            a: (colour & 0xFF) as u8,
        };
        proof {
            let c = colour;
            assert(c == (((c >> 24) & 0xFF) as u8) * 0x1000000 + (((c >> 16) & 0xFF) as u8)
                * 0x10000 + (((c >> 8) & 0xFF) as u8) * 0x100 + ((c & 0xFF) as u8)) by (bit_vector);
        }
        out
    }
}

/// Packing then unpacking returns the same colour: the packed form
/// determines the channels.
pub proof fn lemma_packed_injective(c1: Rgba, c2: Rgba)
    requires
        packed(c1.r, c1.g, c1.b, c1.a) == packed(c2.r, c2.g, c2.b, c2.a),
    ensures
        c1 == c2,
{
    let x = c1.r;
    let y = c1.g;
    let z = c1.b;
    let w = c1.a;
    let x2 = c2.r;
    let y2 = c2.g;
    let z2 = c2.b;
    let w2 = c2.a;
    assert(x * 0x1000000 + y * 0x10000 + z * 0x100 + w == x2 * 0x1000000 + y2 * 0x10000 + z2
        * 0x100 + w2 ==> x == x2 && y == y2 && z == z2 && w == w2) by (bit_vector);
}

/// A four-channel colour under its older name; kept alongside `Rgba` as the
/// renderer-facing format.
#[derive(Clone, Copy, Debug, PartialEq, Eq, Structural)]
pub struct RGBA {
    pub r: u8,
    pub g: u8,
    pub b: u8,
    pub a: u8,
}

impl RGBA {
    pub fn as_u32(&self) -> (out: u32)
        ensures
            out == packed(self.r, self.g, self.b, self.a),
    {
        Rgba { r: self.r, g: self.g, b: self.b, a: self.a }.as_u32()
    }

    pub fn from_rgb(r: u8, g: u8, b: u8) -> (out: RGBA)
        ensures
            out == (RGBA { r, g, b, a: 255u8 }),
    {
        RGBA { r, g, b, a: 255 }
    }

    pub fn from_rgba(r: u8, g: u8, b: u8, a: u8) -> (out: RGBA)
        ensures
            out == (RGBA { r, g, b, a }),
    {
        RGBA { r, g, b, a }
    }

    pub fn from_u32(colour: u32) -> (out: RGBA)
        ensures
            colour == packed(out.r, out.g, out.b, out.a),
    {
        let c = Rgba::from_u32(colour);
        RGBA { r: c.r, g: c.g, b: c.b, a: c.a }
    }
}

/// A colour without an alpha channel; packing fills the low byte with 255.
#[derive(Clone, Copy, Debug, PartialEq, Eq, Structural)]
pub struct RGB {
    pub r: u8,
    pub g: u8,
    pub b: u8,
}

impl RGB {
    pub fn as_u32(&self) -> (out: u32)
        ensures
            out == packed(self.r, self.g, self.b, 255u8),
    {
        Rgba { r: self.r, g: self.g, b: self.b, a: 255 }.as_u32()
    }

    pub fn from_rgb(r: u8, g: u8, b: u8) -> (out: RGB)
        ensures
            out == (RGB { r, g, b }),
    {
        RGB { r, g, b }
    }

    /// The alpha channel is dropped.
    pub fn from_rgba(r: u8, g: u8, b: u8, a: u8) -> (out: RGB)
        ensures
            out == (RGB { r, g, b }),
    {
        RGB { r, g, b }
    }

    pub fn from_u32(colour: u32) -> (out: RGB)
        ensures
            exists|a: u8| colour == packed(out.r, out.g, out.b, a),
    {
        let c = Rgba::from_u32(colour);
        let out = RGB { r: c.r, g: c.g, b: c.b };
        proof {
            assert(colour == packed(out.r, out.g, out.b, c.a));
        }
        out
    }
}

/// The colours the engines draw with.
pub fn green() -> (out: Rgba)
    ensures
        out == spec_green(),
{
    Rgba { r: 40, g: 255, b: 40, a: 255 }
}

pub fn white() -> (out: Rgba)
    ensures
        out == spec_white(),
{
    Rgba { r: 255, g: 255, b: 255, a: 255 }
}

/// The background gray the buffers clear to.
pub fn gray() -> (out: Rgba)
    ensures
        out == spec_gray(),
{
    Rgba { r: 44, g: 44, b: 44, a: 255 }
}

pub fn light_gray() -> (out: Rgba)
    ensures
        out == spec_light_gray(),
{
    Rgba { r: 65, g: 65, b: 65, a: 255 }
}

pub fn red() -> (out: Rgba)
    ensures
        out == spec_red(),
{
    Rgba { r: 255, g: 40, b: 40, a: 255 }
}

/// The palette as specification values, for contracts that name colours.
pub open spec fn spec_green() -> Rgba {
    Rgba { r: 40u8, g: 255u8, b: 40u8, a: 255u8 }
}

pub open spec fn spec_white() -> Rgba {
    Rgba { r: 255u8, g: 255u8, b: 255u8, a: 255u8 }
}

pub open spec fn spec_gray() -> Rgba {
    Rgba { r: 44u8, g: 44u8, b: 44u8, a: 255u8 }
}

pub open spec fn spec_light_gray() -> Rgba {
    Rgba { r: 65u8, g: 65u8, b: 65u8, a: 255u8 }
}

pub open spec fn spec_red() -> Rgba {
    Rgba { r: 255u8, g: 40u8, b: 40u8, a: 255u8 }
}

} // verus!
