//! Per-frame bitflag animation decoder: each bone has one flag byte
//! selecting which constant and per-frame fields are physically present.
//! Per-frame values are interleaved by frame — all bones' fields for frame
//! 0, then all bones' fields for frame 1, and so on.

use vstd::prelude::*;

use crate::anim_data::AnimationPositionData;
use crate::anim_data::AnimationRotationData;
use crate::anim_data::BoneAnimationData;
use crate::anim_data::PackedQuat;
use crate::anim_data::PosSample;
use crate::bytes::buf_wf;
use crate::bytes::sle32;
use crate::codec::half_pos_decode;
use crate::codec::quat16_decode;
use crate::codec::quat48_decode;
use crate::codec::spec_half_pos;
use crate::codec::spec_quat16;
use crate::codec::spec_quat48;
use crate::entities::read_raw_vec3;
use crate::entities::spec_raw_vec3;
use crate::error::Result;
use crate::error::corrupted;
use crate::entities::corrupted_spec;
use crate::rle::has_flag;
use crate::rle::flag_set;

verus! {

/// Size in bytes of the on-disk frame-animation header.
pub const FRAME_ANIM_SIZE: usize = 24;

/// Flag bits of a bone's frame-animation flag byte.
pub const FB_RAWPOS: u8 = 0x01;

pub const FB_RAWROT: u8 = 0x02;

pub const FB_ANIMPOS: u8 = 0x04;

pub const FB_ANIMROT: u8 = 0x08;

pub const FB_FULLANIMPOS: u8 = 0x10;

pub const FB_CONST_ROT2: u8 = 0x40;

pub const FB_ANIM_ROT2: u8 = 0x80;

/// Bytes of constant fields for one bone, in their fixed order: a 48-bit
/// packed quaternion, a 3x16-bit packed quaternion, a 3x16-bit packed
/// position.
pub open spec fn fb_const_size(f: u8) -> int {
    (if has_flag(f, FB_CONST_ROT2) {
        6int
    } else {
        0int
    }) + (if has_flag(f, FB_RAWROT) {
        6int
    } else {
        0int
    }) + (if has_flag(f, FB_RAWPOS) {
        6int
    } else {
        0int
    })
}

/// Bytes of per-frame fields for one bone, in their fixed order: a 48-bit
/// packed rotation, a 3x16-bit packed rotation, a 3x16-bit packed position,
/// a 3x32-bit full position.
pub open spec fn fb_frame_size(f: u8) -> int {
    (if has_flag(f, FB_ANIM_ROT2) {
        6int
    } else {
        0int
    }) + (if has_flag(f, FB_ANIMROT) {
        6int
    } else {
        0int
    }) + (if has_flag(f, FB_ANIMPOS) {
        6int
    } else {
        0int
    }) + (if has_flag(f, FB_FULLANIMPOS) {
        12int
    } else {
        0int
    })
}

/// Total constant bytes of the bones before `i`.
pub open spec fn fb_const_prefix(fl: Seq<u8>, i: int) -> int
    decreases i,
{
    if i <= 0 {
        0
    } else {
        fb_const_prefix(fl, i - 1) + fb_const_size(fl[i - 1])
    }
}

/// Total per-frame bytes of the bones before `i`.
pub open spec fn fb_frame_prefix(fl: Seq<u8>, i: int) -> int
    decreases i,
{
    if i <= 0 {
        0
    } else {
        fb_frame_prefix(fl, i - 1) + fb_frame_size(fl[i - 1])
    }
}

/// Bytes of one whole frame across all bones.
pub open spec fn fb_stride(fl: Seq<u8>) -> int {
    fb_frame_prefix(fl, fl.len() as int)
}

pub proof fn lemma_const_prefix_nonneg(fl: Seq<u8>, i: int)
    ensures
        0 <= fb_const_prefix(fl, i),
    decreases i,
{
    if i > 0 {
        lemma_const_prefix_nonneg(fl, i - 1);
    }
}

pub proof fn lemma_const_prefix_bounds(fl: Seq<u8>, i: int, j: int)
    requires
        0 <= i <= j <= fl.len(),
    ensures
        fb_const_prefix(fl, i) <= fb_const_prefix(fl, j),
        0 <= fb_const_prefix(fl, i),
        fb_const_prefix(fl, j) - fb_const_prefix(fl, i) <= 18 * (j - i),
    decreases j - i,
{
    lemma_const_prefix_nonneg(fl, i);
    if i < j {
        lemma_const_prefix_bounds(fl, i, j - 1);
    }
}

pub proof fn lemma_frame_prefix_nonneg(fl: Seq<u8>, i: int)
    ensures
        0 <= fb_frame_prefix(fl, i),
    decreases i,
{
    if i > 0 {
        lemma_frame_prefix_nonneg(fl, i - 1);
    }
}

pub proof fn lemma_frame_prefix_bounds(fl: Seq<u8>, i: int, j: int)
    requires
        0 <= i <= j <= fl.len(),
    ensures
        fb_frame_prefix(fl, i) <= fb_frame_prefix(fl, j),
        0 <= fb_frame_prefix(fl, i),
        fb_frame_prefix(fl, j) - fb_frame_prefix(fl, i) <= 30 * (j - i),
    decreases j - i,
{
    lemma_frame_prefix_nonneg(fl, i);
    if i < j {
        lemma_frame_prefix_bounds(fl, i, j - 1);
    }
}

/// Position of bone `i`'s 48-bit constant rotation.
pub open spec fn cq48_pos(c0: int, fl: Seq<u8>, i: int) -> int {
    c0 + fb_const_prefix(fl, i)
}

/// Position of bone `i`'s 3x16-bit constant rotation.
pub open spec fn cq16_pos(c0: int, fl: Seq<u8>, i: int) -> int {
    cq48_pos(c0, fl, i) + (if has_flag(fl[i], FB_CONST_ROT2) {
        6int
    } else {
        0int
    })
}

/// Position of bone `i`'s constant position.
pub open spec fn cpos_pos(c0: int, fl: Seq<u8>, i: int) -> int {
    cq16_pos(c0, fl, i) + (if has_flag(fl[i], FB_RAWROT) {
        6int
    } else {
        0int
    })
}

/// Position of bone `i`'s 48-bit rotation sample in frame `fr`.
pub open spec fn fq48_pos(f0: int, fl: Seq<u8>, i: int, fr: int) -> int {
    f0 + fr * fb_stride(fl) + fb_frame_prefix(fl, i)
}

/// Position of bone `i`'s 3x16-bit rotation sample in frame `fr`.
pub open spec fn fq16_pos(f0: int, fl: Seq<u8>, i: int, fr: int) -> int {
    fq48_pos(f0, fl, i, fr) + (if has_flag(fl[i], FB_ANIM_ROT2) {
        6int
    } else {
        0int
    })
}

/// Position of bone `i`'s packed position sample in frame `fr`.
pub open spec fn fposh_pos(f0: int, fl: Seq<u8>, i: int, fr: int) -> int {
    fq16_pos(f0, fl, i, fr) + (if has_flag(fl[i], FB_ANIMROT) {
        6int
    } else {
        0int
    })
}

/// Position of bone `i`'s full position sample in frame `fr`.
pub open spec fn fposf_pos(f0: int, fl: Seq<u8>, i: int, fr: int) -> int {
    fposh_pos(f0, fl, i, fr) + (if has_flag(fl[i], FB_ANIMPOS) {
        6int
    } else {
        0int
    })
}

/// The constant stream fits: it starts inside the buffer, ends inside it,
/// and every 16-bit field in it is 2-byte aligned.
pub open spec fn fb_consts_fit(b: Seq<u8>, c0: int, fl: Seq<u8>) -> bool {
    &&& 0 <= c0 <= b.len()
    &&& c0 + fb_const_prefix(fl, fl.len() as int) <= b.len()
    &&& forall|i: int|
        0 <= i < fl.len() ==> ((has_flag(#[trigger] fl[i], FB_RAWROT) ==> cq16_pos(c0, fl, i) % 2
            == 0) && (has_flag(fl[i], FB_RAWPOS) ==> cpos_pos(c0, fl, i) % 2 == 0))
}

/// The per-frame stream fits: it starts and ends inside the buffer and
/// every 16-bit field is 2-byte aligned and every 32-bit field 4-byte
/// aligned, for every frame.
pub open spec fn fb_frames_fit(b: Seq<u8>, f0: int, fl: Seq<u8>, n: int) -> bool {
    &&& 0 <= f0 <= b.len()
    &&& f0 + n * fb_stride(fl) <= b.len()
    &&& forall|i: int, fr: int|
        #![trigger fq48_pos(f0, fl, i, fr)]
        0 <= i < fl.len() && 0 <= fr < n ==> ((has_flag(fl[i], FB_ANIMROT) ==> fq16_pos(
            f0,
            fl,
            i,
            fr,
        ) % 2 == 0) && (has_flag(fl[i], FB_ANIMPOS) ==> fposh_pos(f0, fl, i, fr) % 2 == 0) && (
        has_flag(fl[i], FB_FULLANIMPOS) ==> fposf_pos(f0, fl, i, fr) % 4 == 0))
}

/// How many rotation samples each frame contributes for a bone.
pub open spec fn rot_per_frame(f: u8) -> int {
    (if has_flag(f, FB_ANIM_ROT2) {
        1int
    } else {
        0int
    }) + (if has_flag(f, FB_ANIMROT) {
        1int
    } else {
        0int
    })
}

/// How many position samples each frame contributes for a bone.
pub open spec fn pos_per_frame(f: u8) -> int {
    (if has_flag(f, FB_ANIMPOS) {
        1int
    } else {
        0int
    }) + (if has_flag(f, FB_FULLANIMPOS) {
        1int
    } else {
        0int
    })
}

/// The decoded rotation of bone `i`: per-frame samples when the bone has
/// any and the section stores a frame stream, else the constant selected in
/// the fixed precedence, else nothing.
pub open spec fn fb_rot_matches(
    rot: AnimationRotationData,
    b: Seq<u8>,
    c_off: int,
    f_off: int,
    c0: int,
    f0: int,
    fl: Seq<u8>,
    i: int,
    n: int,
) -> bool {
    let f = fl[i];
    if f_off != 0 && rot_per_frame(f) > 0 {
        &&& rot matches AnimationRotationData::Animated(v)
        &&& v@.len() == n * rot_per_frame(f)
        &&& forall|fr: int|
            0 <= fr < n ==> ((has_flag(f, FB_ANIM_ROT2) ==> #[trigger] v@[fr * rot_per_frame(f)]
                == PackedQuat::P48(spec_quat48(b, fq48_pos(f0, fl, i, fr)))) && (has_flag(
                f,
                FB_ANIMROT,
            ) ==> v@[fr * rot_per_frame(f) + rot_per_frame(f) - 1] == PackedQuat::P16(
                spec_quat16(b, fq16_pos(f0, fl, i, fr)),
            )))
    } else if c_off != 0 && has_flag(f, FB_RAWROT) {
        rot == AnimationRotationData::Constant(PackedQuat::P16(spec_quat16(b, cq16_pos(c0, fl, i))))
    } else if c_off != 0 && has_flag(f, FB_CONST_ROT2) {
        rot == AnimationRotationData::Constant(PackedQuat::P48(spec_quat48(b, cq48_pos(c0, fl, i))))
    } else {
        rot == AnimationRotationData::Absent
    }
}

/// The decoded position of bone `i`.
pub open spec fn fb_pos_matches(
    pos: AnimationPositionData,
    b: Seq<u8>,
    c_off: int,
    f_off: int,
    c0: int,
    f0: int,
    fl: Seq<u8>,
    i: int,
    n: int,
) -> bool {
    let f = fl[i];
    if f_off != 0 && pos_per_frame(f) > 0 {
        &&& pos matches AnimationPositionData::Animated(v)
        &&& v@.len() == n * pos_per_frame(f)
        &&& forall|fr: int|
            0 <= fr < n ==> ((has_flag(f, FB_ANIMPOS) ==> #[trigger] v@[fr * pos_per_frame(f)]
                == PosSample::Packed(spec_half_pos(b, fposh_pos(f0, fl, i, fr)))) && (has_flag(
                f,
                FB_FULLANIMPOS,
            ) ==> v@[fr * pos_per_frame(f) + pos_per_frame(f) - 1] == PosSample::Full(
                spec_raw_vec3(b, fposf_pos(f0, fl, i, fr)),
            )))
    } else if c_off != 0 && has_flag(f, FB_RAWPOS) {
        pos == AnimationPositionData::Constant(spec_half_pos(b, cpos_pos(c0, fl, i)))
    } else {
        pos == AnimationPositionData::Absent
    }
}

/// A frame-animation section resolved at its absolute position: the header
/// record plus the counts that govern decoding.
#[derive(Debug, Clone, Copy)]
pub struct FrameAnimationRef<'a> {
    pub offset: usize,
    pub constants_offset: i32,
    pub frame_offset: i32,
    pub bone_count: usize,
    pub frame_count: usize,
    pub last_section: bool,
    pub bytes: &'a Vec<u8>,
}

impl<'a> FrameAnimationRef<'a> {
    pub open spec fn wf(&self) -> bool {
        &&& buf_wf(self.bytes@)
        &&& self.offset + FRAME_ANIM_SIZE <= self.bytes@.len()
        &&& self.offset % 4 == 0
        &&& self.constants_offset == sle32(self.bytes@, self.offset as int)
        &&& self.frame_offset == sle32(self.bytes@, self.offset + 4)
        &&& self.bone_count <= self.bytes@.len()
        &&& self.frame_count <= 0x7fff_ffff
    }

    /// The per-bone flag bytes, stored right after the header.
    pub fn bone_flags(&self) -> (r: Result<Vec<u8>>)
        requires
            self.wf(),
        ensures
            ({
                let start = self.offset + FRAME_ANIM_SIZE;
                match r {
                    Ok(fl) => start + self.bone_count <= self.bytes@.len() && fl@
                        == self.bytes@.subrange(start as int, start + self.bone_count),
                    Err(e) => start + self.bone_count > self.bytes@.len() && e == corrupted_spec(
                        "frame animation bone flags out of bounds",
                    ),
                }
            }),
    {
        let b = self.bytes;
        let n: usize = b.len();
        let start: usize = self.offset + FRAME_ANIM_SIZE;
        if self.bone_count > n - start {
            return Err(corrupted("frame animation bone flags out of bounds"));
        }
        let mut fl: Vec<u8> = Vec::new();
        let mut i: usize = 0;
        while i < self.bone_count
            invariant
                i <= self.bone_count,
                buf_wf(b@),
                start + self.bone_count <= b@.len(),
                fl@ == b@.subrange(start as int, start + i),
            decreases self.bone_count - i,
        {
            fl.push(b[start + i]);
            proof {
                assert(fl@ =~= b@.subrange(start as int, start + i + 1));
            }
            i = i + 1;
        }
        Ok(fl)
    }
}

/// Decodes the constant fields of one bone at `cursor`, returning the new
/// cursor. A constant is reported as its packed sample; the 3x16-bit
/// rotation supersedes the 48-bit one.
fn decode_bone_consts(b: &Vec<u8>, cursor: usize, f: u8) -> (r: Result<
    (Option<PackedQuat>, Option<crate::codec::HalfPos>, usize),
>)
    requires
        buf_wf(b@),
        cursor <= b@.len(),
    ensures
        ({
            let q48p = cursor as int;
            let q16p = cursor + (if has_flag(f, FB_CONST_ROT2) { 6int } else { 0int });
            let hp = q16p + (if has_flag(f, FB_RAWROT) { 6int } else { 0int });
            match r {
                Ok((rot, pos, nc)) => {
                    &&& nc == cursor + fb_const_size(f)
                    &&& nc <= b@.len()
                    &&& (has_flag(f, FB_RAWROT) ==> q16p % 2 == 0)
                    &&& (has_flag(f, FB_RAWPOS) ==> hp % 2 == 0)
                    &&& rot == (if has_flag(f, FB_RAWROT) {
                        Option::Some(PackedQuat::P16(spec_quat16(b@, q16p)))
                    } else if has_flag(f, FB_CONST_ROT2) {
                        Option::Some(PackedQuat::P48(spec_quat48(b@, q48p)))
                    } else {
                        Option::<PackedQuat>::None
                    })
                    &&& pos == (if has_flag(f, FB_RAWPOS) {
                        Option::Some(spec_half_pos(b@, hp))
                    } else {
                        Option::<crate::codec::HalfPos>::None
                    })
                },
                Err(e) => {
                    &&& (cursor + fb_const_size(f) > b@.len() || (has_flag(f, FB_RAWROT) && q16p % 2
                        != 0) || (has_flag(f, FB_RAWPOS) && hp % 2 != 0))
                    &&& (e == corrupted_spec("frame animation bone constants out of bounds") || e
                        == corrupted_spec(
                        "frame animation bone constants out of bounds or misaligned",
                    ))
                },
            }
        }),
{
    let n: usize = b.len();
    let mut rot: Option<PackedQuat> = Option::None;
    let mut pos: Option<crate::codec::HalfPos> = Option::None;
    let mut c: usize = cursor;
    if flag_set(f, FB_CONST_ROT2) {
        if n - c < 6 {
            return Err(corrupted("frame animation bone constants out of bounds"));
        }
        rot = Option::Some(PackedQuat::P48(quat48_decode(b, c)));
        c = c + 6;
    }
    if flag_set(f, FB_RAWROT) {
        if n - c < 6 || c % 2 != 0 {
            return Err(corrupted("frame animation bone constants out of bounds or misaligned"));
        }
        rot = Option::Some(PackedQuat::P16(quat16_decode(b, c)));
        c = c + 6;
    }
    if flag_set(f, FB_RAWPOS) {
        if n - c < 6 || c % 2 != 0 {
            return Err(corrupted("frame animation bone constants out of bounds or misaligned"));
        }
        pos = Option::Some(half_pos_decode(b, c));
        c = c + 6;
    }
    Ok((rot, pos, c))
}

/// Decodes the per-frame samples of one bone: `n_frames` frames read at
/// this bone's stations inside each frame-major block.
#[verifier::rlimit(100)]
fn decode_bone_frames(
    b: &Vec<u8>,
    f0: usize,
    fl: Ghost<Seq<u8>>,
    i: Ghost<int>,
    stride: u64,
    prefix: u64,
    f: u8,
    n_frames: usize,
) -> (r: Result<(Vec<PackedQuat>, Vec<PosSample>)>)
    requires
        buf_wf(b@),
        f0 + n_frames * stride <= b@.len(),
        n_frames <= 0x8000_0000,
        0 <= i@ < fl@.len(),
        f == fl@[i@],
        stride == fb_stride(fl@),
        prefix == fb_frame_prefix(fl@, i@),
        prefix + fb_frame_size(f) <= stride,
    ensures
        ({
            match r {
                Ok((rv, pv)) => {
                    &&& forall|fr: int|
                        #![trigger fq48_pos(f0 as int, fl@, i@, fr)]
                        0 <= fr < n_frames ==> ((has_flag(f, FB_ANIMROT) ==> fq16_pos(
                            f0 as int,
                            fl@,
                            i@,
                            fr,
                        ) % 2 == 0) && (has_flag(f, FB_ANIMPOS) ==> fposh_pos(
                            f0 as int,
                            fl@,
                            i@,
                            fr,
                        ) % 2 == 0) && (has_flag(f, FB_FULLANIMPOS) ==> fposf_pos(
                            f0 as int,
                            fl@,
                            i@,
                            fr,
                        ) % 4 == 0))
                    &&& rv@.len() == n_frames * rot_per_frame(f)
                    &&& pv@.len() == n_frames * pos_per_frame(f)
                    &&& forall|fr: int|
                        0 <= fr < n_frames ==> ((has_flag(f, FB_ANIM_ROT2) ==> #[trigger] rv@[fr
                            * rot_per_frame(f)] == PackedQuat::P48(
                            spec_quat48(b@, fq48_pos(f0 as int, fl@, i@, fr)),
                        )) && (has_flag(f, FB_ANIMROT) ==> rv@[fr * rot_per_frame(f) + rot_per_frame(
                            f,
                        ) - 1] == PackedQuat::P16(
                            spec_quat16(b@, fq16_pos(f0 as int, fl@, i@, fr)),
                        )))
                    &&& forall|fr: int|
                        0 <= fr < n_frames ==> ((has_flag(f, FB_ANIMPOS) ==> #[trigger] pv@[fr
                            * pos_per_frame(f)] == PosSample::Packed(
                            spec_half_pos(b@, fposh_pos(f0 as int, fl@, i@, fr)),
                        )) && (has_flag(f, FB_FULLANIMPOS) ==> pv@[fr * pos_per_frame(f)
                            + pos_per_frame(f) - 1] == PosSample::Full(
                            spec_raw_vec3(b@, fposf_pos(f0 as int, fl@, i@, fr)),
                        )))
                },
                Err(e) => {
                    &&& !(forall|fr: int|
                        #![trigger fq48_pos(f0 as int, fl@, i@, fr)]
                        0 <= fr < n_frames ==> ((has_flag(f, FB_ANIMROT) ==> fq16_pos(
                            f0 as int,
                            fl@,
                            i@,
                            fr,
                        ) % 2 == 0) && (has_flag(f, FB_ANIMPOS) ==> fposh_pos(f0 as int, fl@, i@, fr)
                            % 2 == 0) && (has_flag(f, FB_FULLANIMPOS) ==> fposf_pos(
                            f0 as int,
                            fl@,
                            i@,
                            fr,
                        ) % 4 == 0)))
                    &&& e == corrupted_spec("frame animation bone frames out of bounds or misaligned")
                },
            }
        }),
{
    let mut rv: Vec<PackedQuat> = Vec::new();
    let mut pv: Vec<PosSample> = Vec::new();
    let ghost rcnt: int = rot_per_frame(f);
    let ghost pcnt: int = pos_per_frame(f);
    let mut fr: usize = 0;
    while fr < n_frames
        invariant
            buf_wf(b@),
            fr <= n_frames,
            f0 + n_frames * stride <= b@.len(),
            n_frames <= 0x8000_0000,
            0 <= i@ < fl@.len(),
            f == fl@[i@],
            stride == fb_stride(fl@),
            prefix == fb_frame_prefix(fl@, i@),
            prefix + fb_frame_size(f) <= stride,
            rcnt == rot_per_frame(f),
            pcnt == pos_per_frame(f),
            rv@.len() == fr * rcnt,
            pv@.len() == fr * pcnt,
            forall|k: int|
                #![trigger fq48_pos(f0 as int, fl@, i@, k)]
                0 <= k < fr ==> ((has_flag(f, FB_ANIMROT) ==> fq16_pos(f0 as int, fl@, i@, k) % 2
                    == 0) && (has_flag(f, FB_ANIMPOS) ==> fposh_pos(f0 as int, fl@, i@, k) % 2
                    == 0) && (has_flag(f, FB_FULLANIMPOS) ==> fposf_pos(f0 as int, fl@, i@, k) % 4
                    == 0)),
            forall|k: int|
                0 <= k < fr ==> ((has_flag(f, FB_ANIM_ROT2) ==> #[trigger] rv@[k * rcnt]
                    == PackedQuat::P48(spec_quat48(b@, fq48_pos(f0 as int, fl@, i@, k)))) && (
                has_flag(f, FB_ANIMROT) ==> rv@[k * rcnt + rcnt - 1] == PackedQuat::P16(
                    spec_quat16(b@, fq16_pos(f0 as int, fl@, i@, k)),
                ))),
            forall|k: int|
                0 <= k < fr ==> ((has_flag(f, FB_ANIMPOS) ==> #[trigger] pv@[k * pcnt]
                    == PosSample::Packed(spec_half_pos(b@, fposh_pos(f0 as int, fl@, i@, k)))) && (
                has_flag(f, FB_FULLANIMPOS) ==> pv@[k * pcnt + pcnt - 1] == PosSample::Full(
                    spec_raw_vec3(b@, fposf_pos(f0 as int, fl@, i@, k)),
                ))),
        decreases n_frames - fr,
    {
        proof {
            crate::bytes::lemma_mul_mono(fr as int + 1, n_frames as int, stride as int);
            assert(fr * stride + stride == (fr + 1) * stride) by (nonlinear_arith);
        }
        let base_u: u64 = f0 as u64 + (fr as u64) * stride + prefix;
        proof {
            assert(base_u + fb_frame_size(f) <= b@.len());
            assert(fq48_pos(f0 as int, fl@, i@, fr as int) == base_u);
        }
        let base: usize = base_u as usize;
        let ghost len_r0 = rv@.len();
        let ghost len_p0 = pv@.len();
        let mut c: usize = base;
        if flag_set(f, FB_ANIM_ROT2) {
            rv.push(PackedQuat::P48(quat48_decode(b, c)));
            c = c + 6;
        }
        if flag_set(f, FB_ANIMROT) {
            if c % 2 != 0 {
                proof {
                    assert(fq16_pos(f0 as int, fl@, i@, fr as int) % 2 != 0);
                }
                return Err(corrupted("frame animation bone frames out of bounds or misaligned"));
            }
            rv.push(PackedQuat::P16(quat16_decode(b, c)));
            c = c + 6;
        }
        if flag_set(f, FB_ANIMPOS) {
            if c % 2 != 0 {
                proof {
                    assert(fposh_pos(f0 as int, fl@, i@, fr as int) % 2 != 0);
                }
                return Err(corrupted("frame animation bone frames out of bounds or misaligned"));
            }
            pv.push(PosSample::Packed(half_pos_decode(b, c)));
            c = c + 6;
        }
        if flag_set(f, FB_FULLANIMPOS) {
            if c % 4 != 0 {
                proof {
                    assert(fposf_pos(f0 as int, fl@, i@, fr as int) % 4 != 0);
                }
                return Err(corrupted("frame animation bone frames out of bounds or misaligned"));
            }
            pv.push(PosSample::Full(read_raw_vec3(b, c)));
            c = c + 12;
        }
        proof {
            assert((fr + 1) * rcnt == fr * rcnt + rcnt) by (nonlinear_arith);
            assert((fr + 1) * pcnt == fr * pcnt + pcnt) by (nonlinear_arith);
            assert(rv@.len() == len_r0 + rcnt);
            assert(pv@.len() == len_p0 + pcnt);
            if has_flag(f, FB_ANIM_ROT2) {
                assert(rv@[fr as int * rcnt] == PackedQuat::P48(
                    spec_quat48(b@, fq48_pos(f0 as int, fl@, i@, fr as int)),
                ));
            }
            if has_flag(f, FB_ANIMROT) {
                assert(rv@[fr as int * rcnt + rcnt - 1] == PackedQuat::P16(
                    spec_quat16(b@, fq16_pos(f0 as int, fl@, i@, fr as int)),
                ));
            }
            if has_flag(f, FB_ANIMPOS) {
                assert(pv@[fr as int * pcnt] == PosSample::Packed(
                    spec_half_pos(b@, fposh_pos(f0 as int, fl@, i@, fr as int)),
                ));
            }
            if has_flag(f, FB_FULLANIMPOS) {
                assert(pv@[fr as int * pcnt + pcnt - 1] == PosSample::Full(
                    spec_raw_vec3(b@, fposf_pos(f0 as int, fl@, i@, fr as int)),
                ));
            }
            assert(forall|k: int|
                0 <= k < fr ==> #[trigger] (k * rcnt) + 0 == k * rcnt && k * rcnt + rcnt <= len_r0)
                by {
                assert forall|k: int| 0 <= k < fr implies #[trigger] (k * rcnt) + 0 == k * rcnt && k
                    * rcnt + rcnt <= len_r0 by {
                    crate::bytes::lemma_mul_mono(k + 1, fr as int, rcnt);
                }
            }
            assert(forall|k: int|
                0 <= k < fr ==> #[trigger] (k * pcnt) + 0 == k * pcnt && k * pcnt + pcnt <= len_p0)
                by {
                assert forall|k: int| 0 <= k < fr implies #[trigger] (k * pcnt) + 0 == k * pcnt && k
                    * pcnt + pcnt <= len_p0 by {
                    crate::bytes::lemma_mul_mono(k + 1, fr as int, pcnt);
                }
            }
        }
        fr = fr + 1;
    }
    Ok((rv, pv))
}

/// The constant rotation sample of bone `i` in the constant stream, when
/// the bone stores one.
pub open spec fn fb_const_rot_opt(b: Seq<u8>, c0: int, fl: Seq<u8>, i: int) -> Option<PackedQuat> {
    if has_flag(fl[i], FB_RAWROT) {
        Option::Some(PackedQuat::P16(spec_quat16(b, cq16_pos(c0, fl, i))))
    } else if has_flag(fl[i], FB_CONST_ROT2) {
        Option::Some(PackedQuat::P48(spec_quat48(b, cq48_pos(c0, fl, i))))
    } else {
        Option::None
    }
}

/// The constant position sample of bone `i` in the constant stream, when
/// the bone stores one.
pub open spec fn fb_const_pos_opt(b: Seq<u8>, c0: int, fl: Seq<u8>, i: int) -> Option<
    crate::codec::HalfPos,
> {
    if has_flag(fl[i], FB_RAWPOS) {
        Option::Some(spec_half_pos(b, cpos_pos(c0, fl, i)))
    } else {
        Option::None
    }
}

/// Decodes the constant stream: each bone's constant fields in bone order.
#[verifier::rlimit(100)]
fn decode_constants(b: &Vec<u8>, c0: usize, fl: &Vec<u8>) -> (r: Result<
    Vec<(Option<PackedQuat>, Option<crate::codec::HalfPos>)>,
>)
    requires
        buf_wf(b@),
        c0 <= b@.len(),
    ensures
        match r {
            Ok(v) => {
                &&& fb_consts_fit(b@, c0 as int, fl@)
                &&& v@.len() == fl@.len()
                &&& forall|i: int|
                    0 <= i < fl@.len() ==> (#[trigger] v@[i]).0 == fb_const_rot_opt(
                        b@,
                        c0 as int,
                        fl@,
                        i,
                    ) && v@[i].1 == fb_const_pos_opt(b@, c0 as int, fl@, i)
            },
            Err(e) => {
                &&& !fb_consts_fit(b@, c0 as int, fl@)
                &&& (e == corrupted_spec("frame animation bone constants out of bounds") || e
                    == corrupted_spec(
                    "frame animation bone constants out of bounds or misaligned",
                ))
            },
        },
{
    let mut out: Vec<(Option<PackedQuat>, Option<crate::codec::HalfPos>)> = Vec::new();
    let mut cursor: usize = c0;
    let mut i: usize = 0;
    let count: usize = fl.len();
    while i < count
        invariant
            buf_wf(b@),
            count == fl@.len(),
            i <= count,
            out@.len() == i,
            cursor == c0 + fb_const_prefix(fl@, i as int),
            cursor <= b@.len(),
            forall|j: int|
                0 <= j < i ==> ((has_flag(#[trigger] fl@[j], FB_RAWROT) ==> cq16_pos(
                    c0 as int,
                    fl@,
                    j,
                ) % 2 == 0) && (has_flag(fl@[j], FB_RAWPOS) ==> cpos_pos(c0 as int, fl@, j) % 2
                    == 0)),
            forall|j: int|
                0 <= j < i ==> (#[trigger] out@[j]).0 == fb_const_rot_opt(b@, c0 as int, fl@, j)
                    && out@[j].1 == fb_const_pos_opt(b@, c0 as int, fl@, j),
        decreases count - i,
    {
        let f = fl[i];
        match decode_bone_consts(b, cursor, f) {
            Ok((rot, pos, nc)) => {
                proof {
                    assert(fb_const_prefix(fl@, i + 1) == fb_const_prefix(fl@, i as int)
                        + fb_const_size(fl@[i as int]));
                }
                out.push((rot, pos));
                cursor = nc;
            },
            Err(e) => {
                proof {
                    assert(fb_const_prefix(fl@, i + 1) == fb_const_prefix(fl@, i as int)
                        + fb_const_size(fl@[i as int]));
                    lemma_const_prefix_bounds(fl@, i + 1, fl@.len() as int);
                }
                return Err(e);
            },
        }
        i = i + 1;
    }
    proof {
        lemma_const_prefix_bounds(fl@, 0, fl@.len() as int);
    }
    Ok(out)
}

/// The constant rotation of bone `i` as decoded data: nothing when the
/// section stores no constant stream.
pub open spec fn fb_const_rot_data(
    b: Seq<u8>,
    c_off: int,
    c0: int,
    fl: Seq<u8>,
    i: int,
) -> AnimationRotationData {
    if c_off != 0 {
        match fb_const_rot_opt(b, c0, fl, i) {
            Option::Some(q) => AnimationRotationData::Constant(q),
            Option::None => AnimationRotationData::Absent,
        }
    } else {
        AnimationRotationData::Absent
    }
}

/// The constant position of bone `i` as decoded data.
pub open spec fn fb_const_pos_data(
    b: Seq<u8>,
    c_off: int,
    c0: int,
    fl: Seq<u8>,
    i: int,
) -> AnimationPositionData {
    if c_off != 0 {
        match fb_const_pos_opt(b, c0, fl, i) {
            Option::Some(p) => AnimationPositionData::Constant(p),
            Option::None => AnimationPositionData::Absent,
        }
    } else {
        AnimationPositionData::Absent
    }
}

/// The per-frame bytes of one bone.
fn frame_size_of(f: u8) -> (r: u64)
    ensures
        r == fb_frame_size(f),
{
    let mut sz: u64 = 0;
    if flag_set(f, FB_ANIM_ROT2) {
        sz = sz + 6;
    }
    if flag_set(f, FB_ANIMROT) {
        sz = sz + 6;
    }
    if flag_set(f, FB_ANIMPOS) {
        sz = sz + 6;
    }
    if flag_set(f, FB_FULLANIMPOS) {
        sz = sz + 12;
    }
    sz
}

/// Converts a decoded constant pair into bone animation data.
fn const_only_data(c: (Option<PackedQuat>, Option<crate::codec::HalfPos>)) -> (r: BoneAnimationData)
    ensures
        r.rotation == (match c.0 {
            Option::Some(q) => AnimationRotationData::Constant(q),
            Option::None => AnimationRotationData::Absent,
        }),
        r.position == (match c.1 {
            Option::Some(p) => AnimationPositionData::Constant(p),
            Option::None => AnimationPositionData::Absent,
        }),
        !r.root,
{
    let rotation = match c.0 {
        Option::Some(q) => AnimationRotationData::Constant(q),
        Option::None => AnimationRotationData::Absent,
    };
    let position = match c.1 {
        Option::Some(p) => AnimationPositionData::Constant(p),
        Option::None => AnimationPositionData::Absent,
    };
    BoneAnimationData { rotation, position, root: false }
}

impl<'a> FrameAnimationRef<'a> {
    /// Everything this section's layout announces fits in the buffer.
    pub open spec fn spec_fits(&self) -> bool {
        let b = self.bytes@;
        let start = self.offset + FRAME_ANIM_SIZE;
        let fl = b.subrange(start as int, start + self.bone_count);
        let n = self.spec_sample_frames();
        &&& start + self.bone_count <= b.len()
        &&& (self.constants_offset != 0 ==> 0 <= self.offset + self.constants_offset
            <= b.len() && fb_consts_fit(b, self.offset + self.constants_offset, fl))
        &&& (self.frame_offset != 0 ==> 0 <= self.offset + self.frame_offset <= b.len()
            && fb_frames_fit(b, self.offset + self.frame_offset, fl, n))
    }

    /// How many per-frame samples are stored: the section's frame count,
    /// plus one interpolation anchor frame unless this is the final
    /// section.
    pub open spec fn spec_sample_frames(&self) -> int {
        self.frame_count + (if self.last_section {
            0int
        } else {
            1int
        })
    }

    /// Decodes every bone's animation data: constant fields first, then the
    /// frame-major per-frame stream, which supersedes them. Succeeds
    /// exactly when the announced layout fits the buffer; the result is not
    /// yet marked for root correction.
    #[verifier::rlimit(100)]
    pub fn animation_data(&self) -> (r: Result<Vec<BoneAnimationData>>)
        requires
            self.wf(),
        ensures
            ({
                let b = self.bytes@;
                let start = self.offset + FRAME_ANIM_SIZE;
                let fl = b.subrange(start as int, start + self.bone_count);
                let c0 = self.offset + self.constants_offset;
                let f0 = self.offset + self.frame_offset;
                let n = self.spec_sample_frames();
                match r {
                    Ok(data) => {
                        &&& self.spec_fits()
                        &&& data@.len() == self.bone_count
                        &&& forall|i: int|
                            0 <= i < self.bone_count ==> fb_rot_matches(
                                (#[trigger] data@[i]).rotation,
                                b,
                                self.constants_offset as int,
                                self.frame_offset as int,
                                c0,
                                f0,
                                fl,
                                i,
                                n,
                            ) && fb_pos_matches(
                                data@[i].position,
                                b,
                                self.constants_offset as int,
                                self.frame_offset as int,
                                c0,
                                f0,
                                fl,
                                i,
                                n,
                            ) && !data@[i].root
                    },
                    Err(e) => {
                        &&& !self.spec_fits()
                        &&& (e == corrupted_spec("frame animation bone flags out of bounds") || e
                            == corrupted_spec("frame animation bone constants out of bounds") || e
                            == corrupted_spec(
                            "frame animation bone constants out of bounds or misaligned",
                        ) || e == corrupted_spec("frame animation bone frames out of bounds") || e
                            == corrupted_spec(
                            "frame animation bone frames out of bounds or misaligned",
                        ))
                    },
                }
            }),
    {
        let b = self.bytes;
        let n_len: usize = b.len();
        let fl = match self.bone_flags() {
            Ok(fl) => fl,
            Err(e) => {
                return Err(e);
            },
        };
        let ghost flv = fl@;
        let ghost c_off: int = self.constants_offset as int;
        let ghost c0g: int = self.offset + self.constants_offset;
        let consts: Vec<(Option<PackedQuat>, Option<crate::codec::HalfPos>)> = if self
            .constants_offset != 0 {
            let c0i: i64 = self.offset as i64 + self.constants_offset as i64;
            if c0i < 0 || c0i > n_len as i64 {
                return Err(corrupted("frame animation bone constants out of bounds"));
            }
            match decode_constants(b, c0i as usize, &fl) {
                Ok(v) => v,
                Err(e) => {
                    return Err(e);
                },
            }
        } else {
            let mut v: Vec<(Option<PackedQuat>, Option<crate::codec::HalfPos>)> = Vec::new();
            let mut i: usize = 0;
            while i < self.bone_count
                invariant
                    i <= self.bone_count,
                    v@.len() == i,
                    forall|j: int|
                        0 <= j < i ==> (#[trigger] v@[j]).0 is None && v@[j].1 is None,
                decreases self.bone_count - i,
            {
                v.push((Option::None, Option::None));
                i = i + 1;
            }
            v
        };
        if self.frame_offset == 0 {
            let mut data: Vec<BoneAnimationData> = Vec::new();
            let mut i: usize = 0;
            while i < self.bone_count
                invariant
                    i <= self.bone_count,
                    consts@.len() == self.bone_count,
                    data@.len() == i,
                    forall|j: int|
                        0 <= j < i ==> (#[trigger] data@[j]).rotation == (match consts@[j].0 {
                            Option::Some(q) => AnimationRotationData::Constant(q),
                            Option::None => AnimationRotationData::Absent,
                        }) && data@[j].position == (match consts@[j].1 {
                            Option::Some(p) => AnimationPositionData::Constant(p),
                            Option::None => AnimationPositionData::Absent,
                        }) && !data@[j].root,
                decreases self.bone_count - i,
            {
                data.push(const_only_data(consts[i]));
                i = i + 1;
            }
            return Ok(data);
        }
        let f0i: i64 = self.offset as i64 + self.frame_offset as i64;
        if f0i < 0 || f0i > n_len as i64 {
            return Err(corrupted("frame animation bone frames out of bounds"));
        }
        let f0: usize = f0i as usize;
        let n_frames: usize = if self.last_section {
            self.frame_count
        } else {
            self.frame_count + 1
        };
        let mut stride_u: u64 = 0;
        let mut i: usize = 0;
        while i < fl.len()
            invariant
                i <= fl@.len(),
                fl@.len() <= b@.len(),
                buf_wf(b@),
                stride_u == fb_frame_prefix(fl@, i as int),
                stride_u <= 30 * i,
            decreases fl@.len() - i,
        {
            proof {
                assert(fb_frame_prefix(fl@, i + 1) == fb_frame_prefix(fl@, i as int)
                    + fb_frame_size(fl@[i as int]));
            }
            let f = fl[i];
            stride_u = stride_u + frame_size_of(f);
            i = i + 1;
        }
        proof {
            assert((n_frames as int) * (stride_u as int) < 0x1_0000_0000_0000_0000_0000_0000)
                by (nonlinear_arith)
                requires
                    n_frames <= 0x8000_0000 && stride_u <= 0xffff_ffff_ffff_ffff,
            ;
        }
        let total: u128 = (n_frames as u128) * (stride_u as u128);
        if total > (n_len - f0) as u128 {
            return Err(corrupted("frame animation bone frames out of bounds"));
        }
        let mut data: Vec<BoneAnimationData> = Vec::new();
        let mut prefix_u: u64 = 0;
        let mut i: usize = 0;
        let ghost nn = n_frames as int;
        while i < fl.len()
            invariant
                buf_wf(b@),
                b == self.bytes,
                flv == fl@,
                self.offset + FRAME_ANIM_SIZE + self.bone_count <= b@.len(),
                flv == b@.subrange(
                    self.offset + FRAME_ANIM_SIZE,
                    self.offset + FRAME_ANIM_SIZE + self.bone_count,
                ),
                flv.len() == self.bone_count,
                self.frame_offset != 0,
                0 <= f0 <= b@.len(),
                nn == n_frames as int,
                nn == self.spec_sample_frames(),
                c_off == self.constants_offset as int,
                c0g == self.offset + self.constants_offset,
                f0 == self.offset + self.frame_offset,
                consts@.len() == fl@.len(),
                fl@.len() <= b@.len(),
                i <= fl@.len(),
                data@.len() == i,
                n_frames <= 0x8000_0000,
                f0 + n_frames * fb_stride(flv) <= b@.len(),
                stride_u == fb_stride(flv),
                prefix_u == fb_frame_prefix(flv, i as int),
                forall|j: int|
                    0 <= j < fl@.len() ==> (#[trigger] consts@[j]).0 == (if c_off != 0 {
                        fb_const_rot_opt(b@, c0g, flv, j)
                    } else {
                        Option::<PackedQuat>::None
                    }) && consts@[j].1 == (if c_off != 0 {
                        fb_const_pos_opt(b@, c0g, flv, j)
                    } else {
                        Option::<crate::codec::HalfPos>::None
                    }),
                forall|j: int|
                    #![trigger data@[j]]
                    0 <= j < i ==> ({
                        let f = flv[j];
                        &&& (rot_per_frame(f) > 0 ==> (data@[j].rotation matches
                            AnimationRotationData::Animated(v) && v@.len() == nn * rot_per_frame(f)
                            && (forall|fr: int|
                            0 <= fr < nn ==> ((has_flag(f, FB_ANIM_ROT2) ==> #[trigger] v@[fr
                                * rot_per_frame(f)] == PackedQuat::P48(
                                spec_quat48(b@, fq48_pos(f0 as int, flv, j, fr)),
                            )) && (has_flag(f, FB_ANIMROT) ==> v@[fr * rot_per_frame(f)
                                + rot_per_frame(f) - 1] == PackedQuat::P16(
                                spec_quat16(b@, fq16_pos(f0 as int, flv, j, fr)),
                            ))))))
                        &&& (rot_per_frame(f) == 0 ==> data@[j].rotation == fb_const_rot_data(
                            b@,
                            c_off,
                            c0g,
                            flv,
                            j,
                        ))
                        &&& (pos_per_frame(f) > 0 ==> (data@[j].position matches
                            AnimationPositionData::Animated(v) && v@.len() == nn * pos_per_frame(f)
                            && (forall|fr: int|
                            0 <= fr < nn ==> ((has_flag(f, FB_ANIMPOS) ==> #[trigger] v@[fr
                                * pos_per_frame(f)] == PosSample::Packed(
                                spec_half_pos(b@, fposh_pos(f0 as int, flv, j, fr)),
                            )) && (has_flag(f, FB_FULLANIMPOS) ==> v@[fr * pos_per_frame(f)
                                + pos_per_frame(f) - 1] == PosSample::Full(
                                spec_raw_vec3(b@, fposf_pos(f0 as int, flv, j, fr)),
                            ))))))
                        &&& (pos_per_frame(f) == 0 ==> data@[j].position == fb_const_pos_data(
                            b@,
                            c_off,
                            c0g,
                            flv,
                            j,
                        ))
                        &&& !data@[j].root
                    }),
                forall|j: int|
                    #![trigger flv[j]]
                    0 <= j < i ==> (forall|fr: int|
                        #![trigger fq48_pos(f0 as int, flv, j, fr)]
                        0 <= fr < nn ==> ((has_flag(flv[j], FB_ANIMROT) ==> fq16_pos(
                            f0 as int,
                            flv,
                            j,
                            fr,
                        ) % 2 == 0) && (has_flag(flv[j], FB_ANIMPOS) ==> fposh_pos(
                            f0 as int,
                            flv,
                            j,
                            fr,
                        ) % 2 == 0) && (has_flag(flv[j], FB_FULLANIMPOS) ==> fposf_pos(
                            f0 as int,
                            flv,
                            j,
                            fr,
                        ) % 4 == 0))),
            decreases fl@.len() - i,
        {
            proof {
                assert(fb_frame_prefix(flv, i + 1) == fb_frame_prefix(flv, i as int)
                    + fb_frame_size(flv[i as int]));
                lemma_frame_prefix_bounds(flv, i + 1, flv.len() as int);
                lemma_frame_prefix_bounds(flv, 0, i + 1);
            }
            let f = fl[i];
            let (rv, pv) = match decode_bone_frames(
                b,
                f0,
                Ghost(flv),
                Ghost(i as int),
                stride_u,
                prefix_u,
                f,
                n_frames,
            ) {
                Ok(t) => t,
                Err(e) => {
                    return Err(e);
                },
            };
            let has_rot = flag_set(f, FB_ANIM_ROT2) || flag_set(f, FB_ANIMROT);
            let has_pos = flag_set(f, FB_ANIMPOS) || flag_set(f, FB_FULLANIMPOS);
            let cpair = consts[i];
            let rot: AnimationRotationData = if has_rot {
                AnimationRotationData::Animated(rv)
            } else {
                match cpair.0 {
                    Option::Some(q) => AnimationRotationData::Constant(q),
                    Option::None => AnimationRotationData::Absent,
                }
            };
            let pos: AnimationPositionData = if has_pos {
                AnimationPositionData::Animated(pv)
            } else {
                match cpair.1 {
                    Option::Some(p) => AnimationPositionData::Constant(p),
                    Option::None => AnimationPositionData::Absent,
                }
            };
            data.push(BoneAnimationData { rotation: rot, position: pos, root: false });
            prefix_u = prefix_u + frame_size_of(f);
            i = i + 1;
        }
        Ok(data)
    }
}

/// The rotation contract of a frame-decoded bone pins the decoded data:
/// every sample index is fixed by one of the per-frame clauses, so any two
/// results that satisfy it hold the same samples.
pub proof fn lemma_fb_rot_matches_unique(
    r1: AnimationRotationData,
    r2: AnimationRotationData,
    b: Seq<u8>,
    c_off: int,
    f_off: int,
    c0: int,
    f0: int,
    fl: Seq<u8>,
    i: int,
    n: int,
)
    requires
        fb_rot_matches(r1, b, c_off, f_off, c0, f0, fl, i, n),
        fb_rot_matches(r2, b, c_off, f_off, c0, f0, fl, i, n),
    ensures
        crate::anim_data::rot_data_eq(r1, r2),
{
    let f = fl[i];
    if f_off != 0 && rot_per_frame(f) > 0 {
        match (r1, r2) {
            (AnimationRotationData::Animated(v1), AnimationRotationData::Animated(v2)) => {
                let rcnt = rot_per_frame(f);
                assert forall|idx: int| 0 <= idx < v1@.len() implies v1@[idx] == v2@[idx] by {
                    if rcnt == 1 {
                        let fr = idx;
                        assert(n * rcnt == n) by (nonlinear_arith)
                            requires
                                rcnt == 1,
                        ;
                        assert(fr * rcnt == fr) by (nonlinear_arith)
                            requires
                                rcnt == 1,
                        ;
                        let t1 = v1@[fr * rot_per_frame(f)];
                        let t2 = v2@[fr * rot_per_frame(f)];
                        if has_flag(f, FB_ANIM_ROT2) {
                            assert(v1@[fr * rot_per_frame(f)] == PackedQuat::P48(
                                spec_quat48(b, fq48_pos(f0, fl, i, fr)),
                            ));
                            assert(v2@[fr * rot_per_frame(f)] == PackedQuat::P48(
                                spec_quat48(b, fq48_pos(f0, fl, i, fr)),
                            ));
                        } else {
                            assert(v1@[fr * rot_per_frame(f) + rot_per_frame(f) - 1]
                                == PackedQuat::P16(spec_quat16(b, fq16_pos(f0, fl, i, fr))));
                            assert(v2@[fr * rot_per_frame(f) + rot_per_frame(f) - 1]
                                == PackedQuat::P16(spec_quat16(b, fq16_pos(f0, fl, i, fr))));
                        }
                    } else {
                        assert(rcnt == 2);
                        assert(n * rcnt == 2 * n) by (nonlinear_arith)
                            requires
                                rcnt == 2,
                        ;
                        vstd::arithmetic::div_mod::lemma_fundamental_div_mod(idx, 2);
                        if idx % 2 == 0 {
                            let fr = idx / 2;
                            assert(fr * rcnt == idx) by (nonlinear_arith)
                                requires
                                    rcnt == 2 && idx == 2 * fr,
                            ;
                            assert(v1@[fr * rot_per_frame(f)] == PackedQuat::P48(
                                spec_quat48(b, fq48_pos(f0, fl, i, fr)),
                            ));
                            assert(v2@[fr * rot_per_frame(f)] == PackedQuat::P48(
                                spec_quat48(b, fq48_pos(f0, fl, i, fr)),
                            ));
                        } else {
                            let fr = idx / 2;
                            assert(fr * rcnt + rcnt - 1 == idx) by (nonlinear_arith)
                                requires
                                    rcnt == 2 && idx == 2 * fr + 1,
                            ;
                            let t1 = v1@[fr * rot_per_frame(f)];
                            let t2 = v2@[fr * rot_per_frame(f)];
                            assert(v1@[fr * rot_per_frame(f) + rot_per_frame(f) - 1]
                                == PackedQuat::P16(spec_quat16(b, fq16_pos(f0, fl, i, fr))));
                            assert(v2@[fr * rot_per_frame(f) + rot_per_frame(f) - 1]
                                == PackedQuat::P16(spec_quat16(b, fq16_pos(f0, fl, i, fr))));
                        }
                    }
                }
                assert(v1@ =~= v2@);
            },
            _ => {
                assert(false);
            },
        }
    }
}

/// The position contract of a frame-decoded bone pins the decoded data.
pub proof fn lemma_fb_pos_matches_unique(
    r1: AnimationPositionData,
    r2: AnimationPositionData,
    b: Seq<u8>,
    c_off: int,
    f_off: int,
    c0: int,
    f0: int,
    fl: Seq<u8>,
    i: int,
    n: int,
)
    requires
        fb_pos_matches(r1, b, c_off, f_off, c0, f0, fl, i, n),
        fb_pos_matches(r2, b, c_off, f_off, c0, f0, fl, i, n),
    ensures
        crate::anim_data::pos_data_eq(r1, r2),
{
    let f = fl[i];
    if f_off != 0 && pos_per_frame(f) > 0 {
        match (r1, r2) {
            (AnimationPositionData::Animated(v1), AnimationPositionData::Animated(v2)) => {
                let pcnt = pos_per_frame(f);
                assert forall|idx: int| 0 <= idx < v1@.len() implies v1@[idx] == v2@[idx] by {
                    if pcnt == 1 {
                        let fr = idx;
                        assert(n * pcnt == n) by (nonlinear_arith)
                            requires
                                pcnt == 1,
                        ;
                        assert(fr * pcnt == fr) by (nonlinear_arith)
                            requires
                                pcnt == 1,
                        ;
                        let t1 = v1@[fr * pos_per_frame(f)];
                        let t2 = v2@[fr * pos_per_frame(f)];
                        if has_flag(f, FB_ANIMPOS) {
                            assert(v1@[fr * pos_per_frame(f)] == PosSample::Packed(
                                spec_half_pos(b, fposh_pos(f0, fl, i, fr)),
                            ));
                            assert(v2@[fr * pos_per_frame(f)] == PosSample::Packed(
                                spec_half_pos(b, fposh_pos(f0, fl, i, fr)),
                            ));
                        } else {
                            assert(v1@[fr * pos_per_frame(f) + pos_per_frame(f) - 1]
                                == PosSample::Full(spec_raw_vec3(b, fposf_pos(f0, fl, i, fr))));
                            assert(v2@[fr * pos_per_frame(f) + pos_per_frame(f) - 1]
                                == PosSample::Full(spec_raw_vec3(b, fposf_pos(f0, fl, i, fr))));
                        }
                    } else {
                        assert(pcnt == 2);
                        assert(n * pcnt == 2 * n) by (nonlinear_arith)
                            requires
                                pcnt == 2,
                        ;
                        vstd::arithmetic::div_mod::lemma_fundamental_div_mod(idx, 2);
                        if idx % 2 == 0 {
                            let fr = idx / 2;
                            assert(fr * pcnt == idx) by (nonlinear_arith)
                                requires
                                    pcnt == 2 && idx == 2 * fr,
                            ;
                            assert(v1@[fr * pos_per_frame(f)] == PosSample::Packed(
                                spec_half_pos(b, fposh_pos(f0, fl, i, fr)),
                            ));
                            assert(v2@[fr * pos_per_frame(f)] == PosSample::Packed(
                                spec_half_pos(b, fposh_pos(f0, fl, i, fr)),
                            ));
                        } else {
                            let fr = idx / 2;
                            assert(fr * pcnt + pcnt - 1 == idx) by (nonlinear_arith)
                                requires
                                    pcnt == 2 && idx == 2 * fr + 1,
                            ;
                            let t1 = v1@[fr * pos_per_frame(f)];
                            let t2 = v2@[fr * pos_per_frame(f)];
                            assert(v1@[fr * pos_per_frame(f) + pos_per_frame(f) - 1]
                                == PosSample::Full(spec_raw_vec3(b, fposf_pos(f0, fl, i, fr))));
                            assert(v2@[fr * pos_per_frame(f) + pos_per_frame(f) - 1]
                                == PosSample::Full(spec_raw_vec3(b, fposf_pos(f0, fl, i, fr))));
                        }
                    }
                }
                assert(v1@ =~= v2@);
            },
            _ => {
                assert(false);
            },
        }
    }
}

} // verus!
