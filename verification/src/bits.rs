//! Vectors and colors of `f32` values, held as their bit patterns.
//!
//! The library computes nothing on these values; it stores and moves them.
use vstd::prelude::*;

verus! {

/// The bits of the `f32` value `0.0`.
pub const ZERO_BITS: u32 = 0;

/// The bits of the `f32` value `0.5`.
pub const HALF_BITS: u32 = 0x3f00_0000;

/// The bits of the `f32` value `1.0`.
pub const ONE_F32_BITS: u32 = 0x3f80_0000;

/// A 2D vector of two `f32` values, held as their bits.
#[derive(Clone, Copy, Debug, PartialEq, Eq, Structural)]
pub struct Vec2Bits {
    /// The bits of the x coordinate.
    pub x_bits: u32,
    /// The bits of the y coordinate.
    pub y_bits: u32,
}

impl Vec2Bits {
    /// The vector with both coordinates given by their bits.
    pub fn new(x_bits: u32, y_bits: u32) -> (v: Vec2Bits)
        ensures
            v == (Vec2Bits { x_bits, y_bits }),
    {
        Vec2Bits { x_bits, y_bits }
    }

    /// The zero vector.
    pub fn zero() -> (v: Vec2Bits)
        ensures
            v == (Vec2Bits { x_bits: ZERO_BITS, y_bits: ZERO_BITS }),
    {
        Vec2Bits { x_bits: ZERO_BITS, y_bits: ZERO_BITS }
    }

    /// The vector `(1, 1)`.
    pub fn one() -> (v: Vec2Bits)
        ensures
            v == (Vec2Bits { x_bits: ONE_F32_BITS, y_bits: ONE_F32_BITS }),
    {
        Vec2Bits { x_bits: ONE_F32_BITS, y_bits: ONE_F32_BITS }
    }
}

/// An RGBA color of four `f32` channels, held as their bits.
#[derive(Clone, Copy, Debug, PartialEq, Eq, Structural)]
pub struct ColorBits {
    /// The bits of the red channel.
    pub r_bits: u32,
    /// The bits of the green channel.
    pub g_bits: u32,
    /// The bits of the blue channel.
    pub b_bits: u32,
    /// The bits of the alpha channel.
    pub a_bits: u32,
}

impl ColorBits {
    /// The color with the four channels given by their bits.
    pub fn rgba(r_bits: u32, g_bits: u32, b_bits: u32, a_bits: u32) -> (c: ColorBits)
        ensures
            c == (ColorBits { r_bits, g_bits, b_bits, a_bits }),
    {
        ColorBits { r_bits, g_bits, b_bits, a_bits }
    }

    /// Opaque white: every channel `1.0`.
    pub fn white() -> (c: ColorBits)
        ensures
            c == white(),
    {
        ColorBits {
            r_bits: ONE_F32_BITS,
            g_bits: ONE_F32_BITS,
            b_bits: ONE_F32_BITS,
            a_bits: ONE_F32_BITS,
        }
    }
}

/// Opaque white: every channel `1.0`.
pub open spec fn white() -> ColorBits {
    ColorBits { r_bits: ONE_F32_BITS, g_bits: ONE_F32_BITS, b_bits: ONE_F32_BITS, a_bits: ONE_F32_BITS }
}

} // verus!
