//! Packed-value codecs: the compact rotation and position encodings used by
//! the animation streams, unpacked into their integer components.
//!
//! Each encoding stores quantized components plus reconstruction metadata
//! (which axis is implicit, the sign of the implicit component). The numeric
//! reconstruction itself — dequantizing to reals and completing the unit
//! quaternion by a square root — is floating-point work for the consumer;
//! this module proves the bit-level unpacking exact.

use vstd::prelude::*;

use crate::bytes::le16;
use crate::bytes::read_u16;
use crate::bytes::read_u8;

verus! {

/// A 48-bit packed quaternion: three 15-bit quantized components `a`, `b`,
/// `c` (dequantized by the consumer as `(raw - 16384) / 23168`), a 2-bit
/// index naming the axis that is reconstructed from the other three, and the
/// sign of that reconstructed component.
#[derive(Debug, Clone, Copy, PartialEq, Eq, Structural)]
pub struct Quat48 {
    pub a: u16,
    pub b: u16,
    pub c: u16,
    pub missing_index: u8,
    pub missing_negative: bool,
}

/// A 64-bit packed quaternion: three 21-bit quantized components
/// (dequantized as `(raw - 1048576) / 1048576.5`), with the w component
/// reconstructed and its sign stored in the top bit.
#[derive(Debug, Clone, Copy, PartialEq, Eq, Structural)]
pub struct Quat64 {
    pub x: u32,
    pub y: u32,
    pub z: u32,
    pub w_negative: bool,
}

/// A 3x16-bit packed quaternion: x and y quantized as `(raw - 32768) /
/// 32768`, z as 15 bits at `(raw - 16384) / 16384`, and the sign of the
/// reconstructed w component in the top bit of z's word.
#[derive(Debug, Clone, Copy, PartialEq, Eq, Structural)]
pub struct Quat16 {
    pub x: u16,
    pub y: u16,
    pub z: u16,
    pub w_negative: bool,
}

/// A 16-bit half-precision-like float, split into its fields. The consumer
/// reconstructs the value with the format's own conventions: an
/// all-ones exponent yields a fixed saturation magnitude (65504) when the
/// mantissa is zero and the value 0.0 otherwise, and subnormals decode as
/// `mantissa / 1024 / 16384` with the stored sign.
#[derive(Debug, Clone, Copy, PartialEq, Eq, Structural)]
pub struct Half {
    pub negative: bool,
    pub exponent: u8,
    pub mantissa: u16,
}

/// Three half-precision components of a packed position.
#[derive(Debug, Clone, Copy, PartialEq, Eq, Structural)]
pub struct HalfPos {
    pub x: Half,
    pub y: Half,
    pub z: Half,
}

pub open spec fn spec_half(h: int) -> Half {
    Half { negative: h >= 0x8000, exponent: ((h / 0x400) % 0x20) as u8, mantissa: (h % 0x400) as u16 }
}

pub open spec fn spec_quat48(s: Seq<u8>, i: int) -> Quat48 {
    Quat48 {
        a: (s[i] + 0x100 * (s[i + 1] % 0x80)) as u16,
        b: (s[i + 2] + 0x100 * (s[i + 3] % 0x80)) as u16,
        c: (s[i + 4] + 0x100 * (s[i + 5] % 0x80)) as u16,
        missing_index: (2 * (s[i + 1] / 0x80) + s[i + 3] / 0x80) as u8,
        missing_negative: s[i + 5] >= 0x80,
    }
}

pub open spec fn spec_quat64(s: Seq<u8>, i: int) -> Quat64 {
    Quat64 {
        x: (s[i] + 0x100 * s[i + 1] + 0x10000 * (s[i + 2] % 0x20)) as u32,
        y: (s[i + 2] / 0x20 + 8 * s[i + 3] + 0x800 * s[i + 4] + 0x80000 * (s[i + 5] % 4)) as u32,
        z: (s[i + 5] / 4 + 0x40 * s[i + 6] + 0x4000 * (s[i + 7] % 0x80)) as u32,
        w_negative: s[i + 7] >= 0x80,
    }
}

pub open spec fn spec_quat16(s: Seq<u8>, i: int) -> Quat16 {
    Quat16 {
        x: le16(s, i) as u16,
        y: le16(s, i + 2) as u16,
        z: (le16(s, i + 4) % 0x8000) as u16,
        w_negative: le16(s, i + 4) >= 0x8000,
    }
}

pub open spec fn spec_half_pos(s: Seq<u8>, i: int) -> HalfPos {
    HalfPos {
        x: spec_half(le16(s, i)),
        y: spec_half(le16(s, i + 2)),
        z: spec_half(le16(s, i + 4)),
    }
}

pub fn half_decode(h: u16) -> (r: Half)
    ensures
        r == spec_half(h as int),
{
    Half { negative: h >= 0x8000, exponent: ((h / 0x400) % 0x20) as u8, mantissa: h % 0x400 }
}

pub fn quat48_decode(b: &Vec<u8>, i: usize) -> (r: Quat48)
    requires
        i + 6 <= b.len(),
    ensures
        r == spec_quat48(b@, i as int),
{
    let b0 = read_u8(b, i);
    let b1 = read_u8(b, i + 1);
    let b2 = read_u8(b, i + 2);
    let b3 = read_u8(b, i + 3);
    let b4 = read_u8(b, i + 4);
    let b5 = read_u8(b, i + 5);
    Quat48 {
        a: b0 as u16 + 0x100 * (b1 % 0x80) as u16,
        b: b2 as u16 + 0x100 * (b3 % 0x80) as u16,
        c: b4 as u16 + 0x100 * (b5 % 0x80) as u16,
        missing_index: 2 * (b1 / 0x80) + b3 / 0x80,
        missing_negative: b5 >= 0x80,
    }
}

pub fn quat64_decode(b: &Vec<u8>, i: usize) -> (r: Quat64)
    requires
        i + 8 <= b.len(),
    ensures
        r == spec_quat64(b@, i as int),
{
    let b0 = read_u8(b, i);
    let b1 = read_u8(b, i + 1);
    let b2 = read_u8(b, i + 2);
    let b3 = read_u8(b, i + 3);
    let b4 = read_u8(b, i + 4);
    let b5 = read_u8(b, i + 5);
    let b6 = read_u8(b, i + 6);
    let b7 = read_u8(b, i + 7);
    Quat64 {
        x: b0 as u32 + 0x100 * b1 as u32 + 0x10000 * (b2 % 0x20) as u32,
        y: (b2 / 0x20) as u32 + 8 * b3 as u32 + 0x800 * b4 as u32 + 0x80000 * (b5 % 4) as u32,
        z: (b5 / 4) as u32 + 0x40 * b6 as u32 + 0x4000 * (b7 % 0x80) as u32,
        w_negative: b7 >= 0x80,
    }
}

pub fn quat16_decode(b: &Vec<u8>, i: usize) -> (r: Quat16)
    requires
        i + 6 <= b.len(),
    ensures
        r == spec_quat16(b@, i as int),
{
    let w0 = read_u16(b, i);
    let w1 = read_u16(b, i + 2);
    let w2 = read_u16(b, i + 4);
    Quat16 { x: w0, y: w1, z: w2 % 0x8000, w_negative: w2 >= 0x8000 }
}

pub fn half_pos_decode(b: &Vec<u8>, i: usize) -> (r: HalfPos)
    requires
        i + 6 <= b.len(),
    ensures
        r == spec_half_pos(b@, i as int),
{
    HalfPos {
        x: half_decode(read_u16(b, i)),
        y: half_decode(read_u16(b, i + 2)),
        z: half_decode(read_u16(b, i + 4)),
    }
}

} // verus!
