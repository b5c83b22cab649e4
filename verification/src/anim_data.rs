//! Decoded per-bone animation data: the terminal artifact of the animation
//! decoders.
//!
//! Samples are carried in their unpacked integer form (see `codec`); delta
//! curves carry raw 16-bit deltas together with the owning bone's per-axis
//! quantization scale and rest-pose value as single-precision bit patterns.
//! The numeric consumer dequantizes each delta as `delta * scale + base` and,
//! for root bones, composes every rotation sample with the fixed coordinate
//! correction and swaps the position axes.

use vstd::prelude::*;

use crate::codec::HalfPos;
use crate::codec::Quat16;
use crate::codec::Quat48;
use crate::codec::Quat64;
use crate::entities::RawVec3;

verus! {

/// A packed constant or per-frame rotation sample, tagged by its encoding.
#[derive(Debug, Clone, Copy, PartialEq, Eq, Structural)]
pub enum PackedQuat {
    P48(Quat48),
    P64(Quat64),
    P16(Quat16),
}

/// A per-frame position sample of the frame-bitflag decoder: either three
/// packed half-precision components or three full single-precision
/// components (raw bits).
#[derive(Debug, Clone, Copy, PartialEq, Eq, Structural)]
pub enum PosSample {
    Packed(HalfPos),
    Full(RawVec3),
}

/// One frame of a run-length delta curve: the raw per-axis deltas.
#[derive(Debug, Clone, Copy, PartialEq, Eq, Structural)]
pub struct DeltaFrame {
    pub x: i16,
    pub y: i16,
    pub z: i16,
}

/// A run-length-compressed per-frame curve, dequantized by the consumer as
/// `delta * scale + base` per axis.
#[derive(Debug, Clone, PartialEq)]
pub struct DeltaCurve {
    pub frames: Vec<DeltaFrame>,
    pub scale: RawVec3,
    pub base: RawVec3,
}

/// Rotation animation data of a bone.
#[derive(Debug, Clone, PartialEq)]
pub enum AnimationRotationData {
    /// The rotation stays constant during the animation.
    Constant(PackedQuat),
    /// One packed rotation sample per frame.
    Animated(Vec<PackedQuat>),
    /// One Euler-angle delta triple per frame, as a run-length curve.
    AnimatedEuler(DeltaCurve),
    /// The animation has no rotation data for the bone.
    Absent,
}

/// Position animation data of a bone.
#[derive(Debug, Clone, PartialEq)]
pub enum AnimationPositionData {
    /// The position stays constant during the animation.
    Constant(HalfPos),
    /// One position sample per frame.
    Animated(Vec<PosSample>),
    /// One position delta triple per frame, as a run-length curve.
    AnimatedDelta(DeltaCurve),
    /// The animation has no position data for the bone.
    Absent,
}

/// Rotation and position animation data of one bone. `root` marks exactly
/// the bones with no parent: the consumer applies the coordinate-system
/// correction to their samples, once, and to no other bone's.
#[derive(Debug, Clone, PartialEq)]
pub struct BoneAnimationData {
    pub rotation: AnimationRotationData,
    pub position: AnimationPositionData,
    pub root: bool,
}

/// Two rotation curves hold the same decoded data, comparing per-frame
/// sample sequences by content.
pub open spec fn rot_data_eq(a: AnimationRotationData, b: AnimationRotationData) -> bool {
    match (a, b) {
        (AnimationRotationData::Constant(x), AnimationRotationData::Constant(y)) => x == y,
        (AnimationRotationData::Animated(u), AnimationRotationData::Animated(v)) => u@ == v@,
        (
            AnimationRotationData::AnimatedEuler(c),
            AnimationRotationData::AnimatedEuler(d),
        ) => c.frames@ == d.frames@ && c.scale == d.scale && c.base == d.base,
        (AnimationRotationData::Absent, AnimationRotationData::Absent) => true,
        _ => false,
    }
}

/// Two position curves hold the same decoded data.
pub open spec fn pos_data_eq(a: AnimationPositionData, b: AnimationPositionData) -> bool {
    match (a, b) {
        (AnimationPositionData::Constant(x), AnimationPositionData::Constant(y)) => x == y,
        (AnimationPositionData::Animated(u), AnimationPositionData::Animated(v)) => u@ == v@,
        (
            AnimationPositionData::AnimatedDelta(c),
            AnimationPositionData::AnimatedDelta(d),
        ) => c.frames@ == d.frames@ && c.scale == d.scale && c.base == d.base,
        (AnimationPositionData::Absent, AnimationPositionData::Absent) => true,
        _ => false,
    }
}

/// Two decoded bones hold the same data.
pub open spec fn bone_data_eq(a: BoneAnimationData, b: BoneAnimationData) -> bool {
    rot_data_eq(a.rotation, b.rotation) && pos_data_eq(a.position, b.position) && a.root == b.root
}

} // verus!
