//! Run-length delta curves of the legacy animation decoder.
//!
//! A curve is a sequence of `(total, valid)` run headers, each followed by
//! `valid` explicit 16-bit deltas: the run spans `total` frames, of which
//! the first `valid` take the explicit deltas in turn and the rest repeat
//! the last explicit delta. A header with `total == 0` ends the curve.

use vstd::prelude::*;

use crate::anim_data::AnimationPositionData;
use crate::anim_data::AnimationRotationData;
use crate::anim_data::DeltaCurve;
use crate::anim_data::DeltaFrame;
use crate::anim_data::PackedQuat;
use crate::bytes::buf_wf;
use crate::bytes::read_i16;
use crate::bytes::sle16;
use crate::error::Error;
use crate::error::Result;
use crate::error::corrupted;
use crate::entities::corrupted_spec;

verus! {

/// One 16-bit element of a run-length curve: a run header (`valid` in the
/// low byte, `total` in the high byte) or an explicit delta value.
#[derive(Debug, Clone, Copy, PartialEq, Eq, Structural)]
pub struct AnimationValue {
    pub raw: i16,
}

/// The unsigned 16-bit reading of a signed 16-bit value.
pub open spec fn as_unsigned16(v: int) -> int {
    if v >= 0 {
        v
    } else {
        v + 0x10000
    }
}

/// The `valid` field of a run header: its low byte.
pub open spec fn spec_av_valid(v: i16) -> int {
    as_unsigned16(v as int) % 0x100
}

/// The `total` field of a run header: its high byte.
pub open spec fn spec_av_total(v: i16) -> int {
    as_unsigned16(v as int) / 0x100
}

impl AnimationValue {
    /// Reads one element out of two little-endian bytes.
    pub fn from_bytes(b0: u8, b1: u8) -> (r: AnimationValue)
        ensures
            r.raw as int == crate::bytes::as_signed16(b0 + 0x100 * b1),
    {
        let v: i32 = b0 as i32 + 0x100 * (b1 as i32);
        if v >= 0x8000 {
            AnimationValue { raw: (v - 0x10000) as i16 }
        } else {
            AnimationValue { raw: v as i16 }
        }
    }

    /// The number of explicit deltas following this header.
    pub fn valid(&self) -> (r: u8)
        ensures
            r as int == spec_av_valid(self.raw),
    {
        let u: i32 = if self.raw < 0 {
            self.raw as i32 + 0x10000
        } else {
            self.raw as i32
        };
        (u % 0x100) as u8
    }

    /// The number of frames this run spans.
    pub fn total(&self) -> (r: u8)
        ensures
            r as int == spec_av_total(self.raw),
    {
        let u: i32 = if self.raw < 0 {
            self.raw as i32 + 0x10000
        } else {
            self.raw as i32
        };
        (u / 0x100) as u8
    }
}

/// The curve element stored at `pos`.
pub open spec fn spec_value_at(b: Seq<u8>, pos: int) -> AnimationValue {
    AnimationValue { raw: sle16(b, pos) as i16 }
}

/// Reads one curve element, failing when fewer than two bytes remain.
pub fn read_animation_value(b: &Vec<u8>, pos: usize) -> (r: Result<AnimationValue>)
    ensures
        pos + 2 <= b@.len() ==> r == Ok::<AnimationValue, Error>(spec_value_at(b@, pos as int)),
        pos + 2 > b@.len() ==> r == Err::<AnimationValue, Error>(
            corrupted_spec("animation values out of bounds"),
        ),
{
    let n: usize = b.len();
    if pos > n || n - pos < 2 {
        return Err(corrupted("animation values out of bounds"));
    }
    Ok(AnimationValue { raw: read_i16(b, pos) })
}

/// The elements of the curve stored at `pos`, read until the runs cover
/// `remaining` frames or a zero-`total` header ends the curve; `None` when
/// the stored curve runs past the end of the buffer.
pub open spec fn spec_read_values(b: Seq<u8>, pos: int, remaining: int) -> Option<
    Seq<AnimationValue>,
>
    decreases remaining,
{
    if remaining <= 0 {
        Some(Seq::empty())
    } else if pos < 0 || pos + 2 > b.len() {
        None
    } else {
        let v = spec_value_at(b, pos);
        let valid = spec_av_valid(v.raw);
        let total = spec_av_total(v.raw);
        if total == 0 {
            Some(Seq::empty())
        } else if pos + 2 + 2 * valid > b.len() {
            None
        } else {
            let explicit = Seq::new(valid as nat, |t: int| spec_value_at(b, pos + 2 + 2 * t));
            let rest = spec_read_values(
                b,
                pos + 2 + 2 * valid,
                if remaining - total >= 0 {
                    remaining - total
                } else {
                    0
                },
            );
            match rest {
                Some(tail) => Some(seq![v] + explicit + tail),
                Option::None => Option::None,
            }
        }
    }
}

/// Reads a whole run-length curve starting at `pos`, covering `frame_count`
/// frames. The frame-count bound is a machine limit; stored frame counts
/// are 32-bit.
pub fn read_animation_values(b: &Vec<u8>, pos: usize, frame_count: usize) -> (r: Result<
    Vec<AnimationValue>,
>)
    requires
        frame_count <= 0x7fff_ffff,
    ensures
        match r {
            Ok(vals) => spec_read_values(b@, pos as int, frame_count as int) == Some(vals@),
            Err(e) => spec_read_values(b@, pos as int, frame_count as int) is None && e
                == corrupted_spec("animation values out of bounds"),
        },
{
    let n: usize = b.len();
    let mut out: Vec<AnimationValue> = Vec::new();
    let mut p: usize = pos;
    let mut total: usize = 0;
    loop
        invariant
            n == b@.len(),
            frame_count <= 0x7fff_ffff,
            total <= frame_count + 0xff,
            (match spec_read_values(b@, p as int, frame_count - total) {
                Some(rest) => spec_read_values(b@, pos as int, frame_count as int) == Some(
                    out@ + rest,
                ),
                Option::None => spec_read_values(b@, pos as int, frame_count as int) is None,
            }),
        ensures
            spec_read_values(b@, pos as int, frame_count as int) == Some(out@),
        decreases frame_count + 255 - total,
    {
        let ghost rem_in: int = frame_count - total;
        if total >= frame_count {
            proof {
                assert(spec_read_values(b@, p as int, rem_in) == Some(
                    Seq::<AnimationValue>::empty(),
                ));
                assert(out@ + Seq::<AnimationValue>::empty() =~= out@);
            }
            break;
        }
        let v = match read_animation_value(b, p) {
            Ok(v) => v,
            Err(e) => {
                proof {
                    assert(spec_read_values(b@, p as int, rem_in) is None);
                }
                return Err(e);
            },
        };
        if v.total() == 0 {
            proof {
                assert(spec_read_values(b@, p as int, rem_in) == Some(
                    Seq::<AnimationValue>::empty(),
                ));
                assert(out@ + Seq::<AnimationValue>::empty() =~= out@);
            }
            break;
        }
        let ghost out_old = out@;
        total = total + v.total() as usize;
        out.push(v);
        let valid: usize = v.valid() as usize;
        let ghost explicit = Seq::new(valid as nat, |t: int| spec_value_at(b@, p + 2 + 2 * t));
        let ghost out_before = out@;
        let mut q: usize = p + 2;
        let mut t: usize = 0;
        while t < valid
            invariant
                n == b@.len(),
                t <= valid,
                p + 2 <= b@.len(),
                v == spec_value_at(b@, p as int),
                valid == spec_av_valid(v.raw),
                spec_av_total(v.raw) != 0,
                rem_in > 0,
                q == p + 2 + 2 * t,
                q <= b@.len(),
                out@ == out_before + explicit.take(t as int),
                explicit == Seq::new(valid as nat, |u: int| spec_value_at(b@, p + 2 + 2 * u)),
                (spec_read_values(b@, p as int, rem_in) is None ==> spec_read_values(
                    b@,
                    pos as int,
                    frame_count as int,
                ) is None),
            decreases valid - t,
        {
            let ev = match read_animation_value(b, q) {
                Ok(ev) => ev,
                Err(e) => {
                    proof {
                        reveal_with_fuel(spec_read_values, 2);
                        assert(p + 2 + 2 * t + 2 > b@.len());
                        assert(2 * t + 2 <= 2 * valid) by {
                            assert(t + 1 <= valid);
                        }
                        assert(p + 2 + 2 * spec_av_valid(v.raw) > b@.len());
                        assert(spec_read_values(b@, p as int, rem_in) is None);
                    }
                    return Err(e);
                },
            };
            proof {
                assert(explicit.take(t + 1) =~= explicit.take(t as int).push(ev));
            }
            out.push(ev);
            t = t + 1;
            q = q + 2;
        }
        proof {
            assert(explicit.take(valid as int) =~= explicit);
            assert(out@ =~= out_before + explicit);
            let clamped: int = if rem_in - spec_av_total(v.raw) >= 0 {
                rem_in - spec_av_total(v.raw)
            } else {
                0
            };
            let after: int = frame_count - total;
            match spec_read_values(b@, q as int, clamped) {
                Some(rest_new) => {
                    assert(spec_read_values(b@, p as int, rem_in) == Some(
                        seq![v] + explicit + rest_new,
                    ));
                    assert(out_old + (seq![v] + explicit + rest_new) =~= out@ + rest_new);
                    if after != clamped {
                        assert(after <= 0 && clamped == 0);
                        assert(spec_read_values(b@, q as int, after) == Some(
                            Seq::<AnimationValue>::empty(),
                        ));
                        assert(spec_read_values(b@, q as int, clamped) == Some(
                            Seq::<AnimationValue>::empty(),
                        ));
                    }
                },
                Option::None => {
                    assert(spec_read_values(b@, p as int, rem_in) is None);
                    if after != clamped {
                        assert(after <= 0 && clamped == 0);
                        assert(spec_read_values(b@, q as int, clamped) is Some);
                    }
                },
            }
        }
        p = q;
    }
    Ok(out)
}

/// The delta for frame `k` of a curve: walk the run headers from element
/// `i`, subtracting each run's `total` and skipping its `valid` explicit
/// values, until the run covering `k`; take its `k`-th explicit value if
/// `k < valid`, else its last explicit value, or 0 for a run with no
/// explicit values; 0 when no run covers `k`.
pub open spec fn spec_extract(vals: Seq<AnimationValue>, i: int, k: int) -> int
    decreases k,
{
    if k < 0 || i < 0 || i >= vals.len() {
        0
    } else {
        let v = vals[i];
        let valid = spec_av_valid(v.raw);
        let total = spec_av_total(v.raw);
        if total > k {
            if valid > k {
                if i + k + 1 < vals.len() {
                    vals[i + k + 1].raw as int
                } else {
                    0
                }
            } else if valid == 0 {
                0
            } else {
                if i + valid < vals.len() {
                    vals[i + valid].raw as int
                } else {
                    0
                }
            }
        } else if total == 0 {
            0
        } else {
            spec_extract(vals, i + valid + 1, k - total)
        }
    }
}

/// Fetches the raw delta for frame `frame` from a run-length curve. The
/// caller scales it by the bone's per-axis quantization scale and offsets
/// it by the bone's rest pose.
pub fn extract_animation_value(frame: usize, values: &Vec<AnimationValue>) -> (r: i16)
    ensures
        r as int == spec_extract(values@, 0, frame as int),
{
    let mut k: usize = frame;
    let mut i: usize = 0;
    loop
        invariant
            spec_extract(values@, 0, frame as int) == spec_extract(values@, i as int, k as int),
            i <= values@.len(),
        decreases k,
    {
        if i >= values.len() {
            return 0;
        }
        let v = values[i];
        let total: usize = v.total() as usize;
        let valid: usize = v.valid() as usize;
        if total > k {
            if valid > k {
                if values.len() - i > k + 1 {
                    return values[i + k + 1].raw;
                }
                return 0;
            }
            if valid == 0 {
                return 0;
            }
            if values.len() - i > valid {
                return values[i + valid].raw;
            }
            return 0;
        }
        if total == 0 {
            return 0;
        }
        let ghost old_i: int = i as int;
        let ghost old_k: int = k as int;
        k = k - total;
        if values.len() - i <= valid {
            proof {
                assert(spec_extract(values@, old_i, old_k) == spec_extract(
                    values@,
                    old_i + valid + 1,
                    old_k - total,
                ));
                assert(spec_extract(values@, old_i + valid + 1, old_k - total) == 0);
                assert(spec_extract(values@, values@.len() as int, old_k - total) == 0);
            }
            i = values.len();
        } else {
            proof {
                assert(spec_extract(values@, old_i, old_k) == spec_extract(
                    values@,
                    old_i + valid + 1,
                    old_k - total,
                ));
            }
            i = i + valid + 1;
        }
    }
}

/// Flag bits of a legacy animation block: which fields physically follow
/// the block header.
pub const ANIM_RAWPOS: u8 = 0x01;

pub const ANIM_RAWROT: u8 = 0x02;

pub const ANIM_ANIMPOS: u8 = 0x04;

pub const ANIM_ANIMROT: u8 = 0x08;

pub const ANIM_RAWROT2: u8 = 0x20;

/// A flag bit is set.
pub open spec fn has_flag(flags: u8, mask: u8) -> bool {
    flags & mask != 0
}

/// Tests one flag bit.
pub fn flag_set(flags: u8, mask: u8) -> (r: bool)
    ensures
        r == has_flag(flags, mask),
{
    flags & mask != 0
}

/// Bytes of constant fields following a block header, in their fixed order:
/// a 64-bit packed quaternion, a 3x16-bit packed quaternion, a 3x16-bit
/// packed position.
pub open spec fn rle_const_size(flags: u8) -> int {
    (if has_flag(flags, ANIM_RAWROT2) {
        8int
    } else {
        0int
    }) + (if has_flag(flags, ANIM_RAWROT) {
        6int
    } else {
        0int
    }) + (if has_flag(flags, ANIM_RAWPOS) {
        6int
    } else {
        0int
    })
}

/// Position of the per-frame rotation offset table: right after the
/// constant fields.
pub open spec fn rle_rot_table(p: int, flags: u8) -> int {
    p + 4 + rle_const_size(flags)
}

/// Position of the per-frame position offset table: after the rotation
/// offset table when one is present.
pub open spec fn rle_pos_table(p: int, flags: u8) -> int {
    rle_rot_table(p, flags) + (if has_flag(flags, ANIM_ANIMROT) {
        6int
    } else {
        0int
    })
}

/// The constant fields fit in the buffer.
pub open spec fn rle_consts_fit(b: Seq<u8>, p: int, flags: u8) -> bool {
    rle_const_size(flags) == 0 || p + 4 + rle_const_size(flags) <= b.len()
}

/// The constant rotation selected by the flag byte, in the format's fixed
/// precedence: the 3x16-bit form supersedes the 64-bit form.
pub open spec fn spec_rle_const_rot(b: Seq<u8>, p: int, flags: u8) -> AnimationRotationData {
    if has_flag(flags, ANIM_RAWROT) {
        AnimationRotationData::Constant(
            PackedQuat::P16(
                crate::codec::spec_quat16(
                    b,
                    p + 4 + (if has_flag(flags, ANIM_RAWROT2) {
                        8int
                    } else {
                        0int
                    }),
                ),
            ),
        )
    } else if has_flag(flags, ANIM_RAWROT2) {
        AnimationRotationData::Constant(PackedQuat::P64(crate::codec::spec_quat64(b, p + 4)))
    } else {
        AnimationRotationData::Absent
    }
}

/// The constant position selected by the flag byte.
pub open spec fn spec_rle_const_pos(b: Seq<u8>, p: int, flags: u8) -> AnimationPositionData {
    if has_flag(flags, ANIM_RAWPOS) {
        AnimationPositionData::Constant(
            crate::codec::spec_half_pos(
                b,
                p + 4 + (if has_flag(flags, ANIM_RAWROT2) {
                    8int
                } else {
                    0int
                }) + (if has_flag(flags, ANIM_RAWROT) {
                    6int
                } else {
                    0int
                }),
            ),
        )
    } else {
        AnimationPositionData::Absent
    }
}

/// The elements of one axis curve of an offset table at `table`: an axis
/// whose stored offset is not positive has no curve (every delta is 0).
pub open spec fn spec_axis_values(b: Seq<u8>, table: int, axis: int, fc: int) -> Option<
    Seq<AnimationValue>,
> {
    let off = sle16(b, table + 2 * axis);
    if off <= 0 {
        Some(Seq::empty())
    } else if table + off > b.len() {
        Option::None
    } else {
        spec_read_values(b, table + off, fc)
    }
}

/// The raw delta of one axis at one frame.
pub open spec fn spec_axis_delta(b: Seq<u8>, table: int, axis: int, fc: int, fr: int) -> int {
    match spec_axis_values(b, table, axis, fc) {
        Some(vals) => spec_extract(vals, 0, fr),
        Option::None => 0,
    }
}

/// All three axis curves of an offset table resolve.
pub open spec fn axes_fit(b: Seq<u8>, table: int, fc: int) -> bool {
    &&& table + 6 <= b.len()
    &&& spec_axis_values(b, table, 0, fc) is Some
    &&& spec_axis_values(b, table, 1, fc) is Some
    &&& spec_axis_values(b, table, 2, fc) is Some
}

/// Everything the flag byte announces for this block fits in the buffer.
pub open spec fn rle_data_fit(b: Seq<u8>, p: int, flags: u8, fc: int) -> bool {
    &&& rle_consts_fit(b, p, flags)
    &&& (has_flag(flags, ANIM_ANIMROT) ==> axes_fit(b, rle_rot_table(p, flags), fc))
    &&& (has_flag(flags, ANIM_ANIMPOS) ==> axes_fit(b, rle_pos_table(p, flags), fc))
}

/// The decoded rotation of a block: per-frame Euler deltas supersede the
/// constant forms.
pub open spec fn rle_rot_matches(
    rot: AnimationRotationData,
    b: Seq<u8>,
    p: int,
    flags: u8,
    fc: int,
    bone: crate::entities::BoneRec,
) -> bool {
    if has_flag(flags, ANIM_ANIMROT) {
        &&& rot matches AnimationRotationData::AnimatedEuler(c)
        &&& c.scale == bone.rotation_scale
        &&& c.base == bone.rotation
        &&& c.frames@.len() == fc
        &&& forall|fr: int|
            0 <= fr < fc ==> {
                let d = #[trigger] c.frames@[fr];
                &&& d.x as int == spec_axis_delta(b, rle_rot_table(p, flags), 0, fc, fr)
                &&& d.y as int == spec_axis_delta(b, rle_rot_table(p, flags), 1, fc, fr)
                &&& d.z as int == spec_axis_delta(b, rle_rot_table(p, flags), 2, fc, fr)
            }
    } else {
        rot == spec_rle_const_rot(b, p, flags)
    }
}

/// The decoded position of a block.
pub open spec fn rle_pos_matches(
    pos: AnimationPositionData,
    b: Seq<u8>,
    p: int,
    flags: u8,
    fc: int,
    bone: crate::entities::BoneRec,
) -> bool {
    if has_flag(flags, ANIM_ANIMPOS) {
        &&& pos matches AnimationPositionData::AnimatedDelta(c)
        &&& c.scale == bone.position_scale
        &&& c.base == bone.position
        &&& c.frames@.len() == fc
        &&& forall|fr: int|
            0 <= fr < fc ==> {
                let d = #[trigger] c.frames@[fr];
                &&& d.x as int == spec_axis_delta(b, rle_pos_table(p, flags), 0, fc, fr)
                &&& d.y as int == spec_axis_delta(b, rle_pos_table(p, flags), 1, fc, fr)
                &&& d.z as int == spec_axis_delta(b, rle_pos_table(p, flags), 2, fc, fr)
            }
    } else {
        pos == spec_rle_const_pos(b, p, flags)
    }
}

/// Reads the three axis curves of an offset table.
fn read_axes(b: &Vec<u8>, table: usize, fc: usize, oob_x: &'static str, oob_y: &'static str, oob_z: &'static str) -> (r: Result<
    (Vec<AnimationValue>, Vec<AnimationValue>, Vec<AnimationValue>),
>)
    requires
        buf_wf(b@),
        table + 6 <= b@.len(),
        fc <= 0x7fff_ffff,
    ensures
        match r {
            Ok((xv, yv, zv)) => {
                &&& axes_fit(b@, table as int, fc as int)
                &&& spec_axis_values(b@, table as int, 0, fc as int) == Some(xv@)
                &&& spec_axis_values(b@, table as int, 1, fc as int) == Some(yv@)
                &&& spec_axis_values(b@, table as int, 2, fc as int) == Some(zv@)
            },
            Err(e) => {
                &&& !axes_fit(b@, table as int, fc as int)
                &&& (e == corrupted_spec(oob_x) || e == corrupted_spec(oob_y) || e
                    == corrupted_spec(oob_z) || e == corrupted_spec(
                    "animation values out of bounds",
                ))
            },
        },
{
    let n: usize = b.len();
    let ox = read_i16(b, table);
    let oy = read_i16(b, table + 2);
    let oz = read_i16(b, table + 4);
    let xv: Vec<AnimationValue> = if ox > 0 {
        if ox as usize > n - table {
            return Err(corrupted(oob_x));
        }
        match read_animation_values(b, table + ox as usize, fc) {
            Ok(v) => v,
            Err(e) => {
                return Err(e);
            },
        }
    } else {
        Vec::new()
    };
    let yv: Vec<AnimationValue> = if oy > 0 {
        if oy as usize > n - table {
            return Err(corrupted(oob_y));
        }
        match read_animation_values(b, table + oy as usize, fc) {
            Ok(v) => v,
            Err(e) => {
                return Err(e);
            },
        }
    } else {
        Vec::new()
    };
    let zv: Vec<AnimationValue> = if oz > 0 {
        if oz as usize > n - table {
            return Err(corrupted(oob_z));
        }
        match read_animation_values(b, table + oz as usize, fc) {
            Ok(v) => v,
            Err(e) => {
                return Err(e);
            },
        }
    } else {
        Vec::new()
    };
    Ok((xv, yv, zv))
}

/// Builds the per-frame delta triples of a curve from its three axis
/// curves.
fn build_delta_frames(
    fc: usize,
    xv: &Vec<AnimationValue>,
    yv: &Vec<AnimationValue>,
    zv: &Vec<AnimationValue>,
) -> (r: Vec<DeltaFrame>)
    ensures
        r@.len() == fc,
        forall|fr: int|
            0 <= fr < fc ==> {
                let d = #[trigger] r@[fr];
                &&& d.x as int == spec_extract(xv@, 0, fr)
                &&& d.y as int == spec_extract(yv@, 0, fr)
                &&& d.z as int == spec_extract(zv@, 0, fr)
            },
{
    let mut frames: Vec<DeltaFrame> = Vec::new();
    let mut fr: usize = 0;
    while fr < fc
        invariant
            fr <= fc,
            frames@.len() == fr,
            forall|k: int|
                0 <= k < fr ==> {
                    let d = #[trigger] frames@[k];
                    &&& d.x as int == spec_extract(xv@, 0, k)
                    &&& d.y as int == spec_extract(yv@, 0, k)
                    &&& d.z as int == spec_extract(zv@, 0, k)
                },
        decreases fc - fr,
    {
        let d = DeltaFrame {
            x: extract_animation_value(fr, xv),
            y: extract_animation_value(fr, yv),
            z: extract_animation_value(fr, zv),
        };
        frames.push(d);
        fr = fr + 1;
    }
    frames
}

/// Decodes the constant fields of a legacy animation block.
fn rle_consts(b: &Vec<u8>, block_pos: usize, flags: u8) -> (r: Result<
    (AnimationRotationData, AnimationPositionData, usize),
>)
    requires
        buf_wf(b@),
        block_pos + 4 <= b@.len(),
    ensures
        match r {
            Ok((rot, pos, nc)) => {
                &&& rle_consts_fit(b@, block_pos as int, flags)
                &&& rot == spec_rle_const_rot(b@, block_pos as int, flags)
                &&& pos == spec_rle_const_pos(b@, block_pos as int, flags)
                &&& nc == block_pos + 4 + rle_const_size(flags)
                &&& nc <= b@.len()
            },
            Err(e) => {
                &&& !rle_consts_fit(b@, block_pos as int, flags)
                &&& e == corrupted_spec("animation constants out of bounds")
            },
        },
{
    let n: usize = b.len();
    let mut rot: AnimationRotationData = AnimationRotationData::Absent;
    let mut pos: AnimationPositionData = AnimationPositionData::Absent;
    let mut cursor: usize = block_pos + 4;
    if flag_set(flags, ANIM_RAWROT2) {
        if n - cursor < 8 {
            return Err(corrupted("animation constants out of bounds"));
        }
        rot = AnimationRotationData::Constant(
            PackedQuat::P64(crate::codec::quat64_decode(b, cursor)),
        );
        cursor = cursor + 8;
    }
    if flag_set(flags, ANIM_RAWROT) {
        if n - cursor < 6 {
            return Err(corrupted("animation constants out of bounds"));
        }
        rot = AnimationRotationData::Constant(
            PackedQuat::P16(crate::codec::quat16_decode(b, cursor)),
        );
        cursor = cursor + 6;
    }
    if flag_set(flags, ANIM_RAWPOS) {
        if n - cursor < 6 {
            return Err(corrupted("animation constants out of bounds"));
        }
        pos = AnimationPositionData::Constant(crate::codec::half_pos_decode(b, cursor));
        cursor = cursor + 6;
    }
    Ok((rot, pos, cursor))
}

/// Decodes the data of one legacy animation block: constant fields first,
/// then per-frame run-length curves, which supersede them. The result is
/// not yet marked for root correction; the caller decides that from the
/// bone's parent index.
#[verifier::rlimit(100)]
#[verifier::spinoff_prover]
pub fn animation_data(
    b: &Vec<u8>,
    block_pos: usize,
    flags: u8,
    frame_count: usize,
    bone: &crate::entities::BoneRec,
) -> (r: Result<(AnimationRotationData, AnimationPositionData)>)
    requires
        buf_wf(b@),
        block_pos + 4 <= b@.len(),
        frame_count <= 0x7fff_ffff,
    ensures
        match r {
            Ok((rot, pos)) => {
                &&& rle_data_fit(b@, block_pos as int, flags, frame_count as int)
                &&& rle_rot_matches(rot, b@, block_pos as int, flags, frame_count as int, *bone)
                &&& rle_pos_matches(pos, b@, block_pos as int, flags, frame_count as int, *bone)
            },
            Err(e) => {
                &&& !rle_data_fit(b@, block_pos as int, flags, frame_count as int)
                &&& (e == corrupted_spec("animation constants out of bounds") || e
                    == corrupted_spec("animation offsets out of bounds") || e == corrupted_spec(
                    "animation rotation x values out of bounds",
                ) || e == corrupted_spec("animation rotation y values out of bounds") || e
                    == corrupted_spec("animation rotation z values out of bounds") || e
                    == corrupted_spec("animation position x values out of bounds") || e
                    == corrupted_spec("animation position y values out of bounds") || e
                    == corrupted_spec("animation position z values out of bounds") || e
                    == corrupted_spec("animation values out of bounds"))
            },
        },
{
    let n: usize = b.len();
    let (mut rot, mut pos, mut cursor) = match rle_consts(b, block_pos, flags) {
        Ok(t) => t,
        Err(e) => {
            return Err(e);
        },
    };
    if flag_set(flags, ANIM_ANIMROT) {
        if n - cursor < 6 {
            return Err(corrupted("animation offsets out of bounds"));
        }
        let (xv, yv, zv) = match read_axes(
            b,
            cursor,
            frame_count,
            "animation rotation x values out of bounds",
            "animation rotation y values out of bounds",
            "animation rotation z values out of bounds",
        ) {
            Ok(t) => t,
            Err(e) => {
                return Err(e);
            },
        };
        let frames = build_delta_frames(frame_count, &xv, &yv, &zv);
        rot = AnimationRotationData::AnimatedEuler(
            DeltaCurve { frames, scale: bone.rotation_scale, base: bone.rotation },
        );
        cursor = cursor + 6;
    }
    if flag_set(flags, ANIM_ANIMPOS) {
        if n - cursor < 6 {
            return Err(corrupted("animation offsets out of bounds"));
        }
        let (xv, yv, zv) = match read_axes(
            b,
            cursor,
            frame_count,
            "animation position x values out of bounds",
            "animation position y values out of bounds",
            "animation position z values out of bounds",
        ) {
            Ok(t) => t,
            Err(e) => {
                return Err(e);
            },
        };
        let frames = build_delta_frames(frame_count, &xv, &yv, &zv);
        pos = AnimationPositionData::AnimatedDelta(
            DeltaCurve { frames, scale: bone.position_scale, base: bone.position },
        );
    }
    Ok((rot, pos))
}

/// The rotation contract of a block pins the decoded data: any two results
/// that satisfy it hold the same samples.
pub proof fn lemma_rle_rot_matches_unique(
    r1: AnimationRotationData,
    r2: AnimationRotationData,
    b: Seq<u8>,
    p: int,
    flags: u8,
    fc: int,
    bone: crate::entities::BoneRec,
)
    requires
        rle_rot_matches(r1, b, p, flags, fc, bone),
        rle_rot_matches(r2, b, p, flags, fc, bone),
    ensures
        crate::anim_data::rot_data_eq(r1, r2),
{
    if has_flag(flags, ANIM_ANIMROT) {
        match (r1, r2) {
            (
                AnimationRotationData::AnimatedEuler(c1),
                AnimationRotationData::AnimatedEuler(c2),
            ) => {
                assert forall|fr: int| 0 <= fr < fc implies c1.frames@[fr] == c2.frames@[fr] by {
                    assert(c1.frames@[fr].x as int == spec_axis_delta(
                        b,
                        rle_rot_table(p, flags),
                        0,
                        fc,
                        fr,
                    ));
                    assert(c2.frames@[fr].x as int == spec_axis_delta(
                        b,
                        rle_rot_table(p, flags),
                        0,
                        fc,
                        fr,
                    ));
                }
                assert(c1.frames@ =~= c2.frames@);
            },
            _ => {
                assert(false);
            },
        }
    }
}

/// The position contract of a block pins the decoded data.
pub proof fn lemma_rle_pos_matches_unique(
    r1: AnimationPositionData,
    r2: AnimationPositionData,
    b: Seq<u8>,
    p: int,
    flags: u8,
    fc: int,
    bone: crate::entities::BoneRec,
)
    requires
        rle_pos_matches(r1, b, p, flags, fc, bone),
        rle_pos_matches(r2, b, p, flags, fc, bone),
    ensures
        crate::anim_data::pos_data_eq(r1, r2),
{
    if has_flag(flags, ANIM_ANIMPOS) {
        match (r1, r2) {
            (
                AnimationPositionData::AnimatedDelta(c1),
                AnimationPositionData::AnimatedDelta(c2),
            ) => {
                assert forall|fr: int| 0 <= fr < fc implies c1.frames@[fr] == c2.frames@[fr] by {
                    assert(c1.frames@[fr].x as int == spec_axis_delta(
                        b,
                        rle_pos_table(p, flags),
                        0,
                        fc,
                        fr,
                    ));
                    assert(c2.frames@[fr].x as int == spec_axis_delta(
                        b,
                        rle_pos_table(p, flags),
                        0,
                        fc,
                        fr,
                    ));
                }
                assert(c1.frames@ =~= c2.frames@);
            },
            _ => {
                assert(false);
            },
        }
    }
}

} // verus!
