//! Animation descriptors, section resolution, and the decode dispatch: for
//! each animation, whether its frames are one contiguous block or split
//! into sections, and which of the two curve decoders applies.

use vstd::prelude::*;

use crate::anim_data::BoneAnimationData;
use crate::bytes::aligned;
use crate::bytes::array_fits;
use crate::bytes::buf_wf;
use crate::bytes::le32;
use crate::bytes::lemma_mul_mono;
use crate::bytes::range_ok;
use crate::bytes::read_i16;
use crate::bytes::read_i32;
use crate::bytes::read_string_at;
use crate::bytes::read_u32;
use crate::bytes::read_u8;
use crate::bytes::sle16;
use crate::bytes::sle32;
use crate::bytes::spec_string_result;
use crate::bytes::string_result_matches;
use crate::entities::BONE_SIZE;
use crate::entities::RawVec3;
use crate::entities::corrupted_spec;
use crate::entities::read_bone;
use crate::entities::read_raw_vec3;
use crate::entities::spec_bone;
use crate::entities::spec_raw_vec3;
use crate::error::Error;
use crate::error::FileType;
use crate::error::Result;
use crate::error::corrupted;
use crate::mdl::HeaderRef;

verus! {

/// Size in bytes of an on-disk animation descriptor record.
pub const ANIM_DESC_SIZE: usize = 100;

/// Size in bytes of an on-disk movement record.
pub const MOVEMENT_SIZE: usize = 44;

/// Size in bytes of an on-disk animation section record.
pub const ANIM_SECTION_SIZE: usize = 8;

/// The `FRAMEANIM` bit of the animation descriptor flag bitset: the
/// per-frame bitflag decoder applies instead of the legacy decoder.
pub const ANIM_FLAG_FRAMEANIM: i32 = 0x0040;

/// The mask of defined animation descriptor flag bits.
pub const ANIM_FLAGS_MASK: i32 = 0x1ffff;

/// The fields of an on-disk animation descriptor that the decoder reads.
#[derive(Debug, Clone, Copy, PartialEq, Eq, Structural)]
pub struct AnimDescRec {
    pub name_offset: i32,
    pub fps_bits: u32,
    pub flags: i32,
    pub frame_count: i32,
    pub movement_count: i32,
    pub movement_offset: i32,
    pub anim_block: i32,
    pub anim_offset: i32,
    pub section_offset: i32,
    pub section_frame_count: i32,
}

pub open spec fn spec_anim_desc(b: Seq<u8>, p: int) -> AnimDescRec {
    AnimDescRec {
        name_offset: sle32(b, p + 4) as i32,
        fps_bits: le32(b, p + 8) as u32,
        flags: sle32(b, p + 12) as i32,
        frame_count: sle32(b, p + 16) as i32,
        movement_count: sle32(b, p + 20) as i32,
        movement_offset: sle32(b, p + 24) as i32,
        anim_block: sle32(b, p + 52) as i32,
        anim_offset: sle32(b, p + 56) as i32,
        section_offset: sle32(b, p + 80) as i32,
        section_frame_count: sle32(b, p + 84) as i32,
    }
}

pub fn read_anim_desc(b: &Vec<u8>, p: usize) -> (r: AnimDescRec)
    requires
        p + ANIM_DESC_SIZE <= b.len(),
    ensures
        r == spec_anim_desc(b@, p as int),
{
    AnimDescRec {
        name_offset: read_i32(b, p + 4),
        fps_bits: read_u32(b, p + 8),
        flags: read_i32(b, p + 12),
        frame_count: read_i32(b, p + 16),
        movement_count: read_i32(b, p + 20),
        movement_offset: read_i32(b, p + 24),
        anim_block: read_i32(b, p + 52),
        anim_offset: read_i32(b, p + 56),
        section_offset: read_i32(b, p + 80),
        section_frame_count: read_i32(b, p + 84),
    }
}

/// The fields of an on-disk root-motion movement record.
#[derive(Debug, Clone, Copy, PartialEq, Eq, Structural)]
pub struct MovementRec {
    pub end_frame_index: i32,
    pub motion_flags: i32,
    pub v0_bits: u32,
    pub v1_bits: u32,
    pub angle_bits: u32,
    pub vector: RawVec3,
    pub position: RawVec3,
}

pub open spec fn spec_movement(b: Seq<u8>, p: int) -> MovementRec {
    MovementRec {
        end_frame_index: sle32(b, p) as i32,
        motion_flags: sle32(b, p + 4) as i32,
        v0_bits: le32(b, p + 8) as u32,
        v1_bits: le32(b, p + 12) as u32,
        angle_bits: le32(b, p + 16) as u32,
        vector: spec_raw_vec3(b, p + 20),
        position: spec_raw_vec3(b, p + 32),
    }
}

pub fn read_movement(b: &Vec<u8>, p: usize) -> (r: MovementRec)
    requires
        p + MOVEMENT_SIZE <= b.len(),
    ensures
        r == spec_movement(b@, p as int),
{
    MovementRec {
        end_frame_index: read_i32(b, p),
        motion_flags: read_i32(b, p + 4),
        v0_bits: read_u32(b, p + 8),
        v1_bits: read_u32(b, p + 12),
        angle_bits: read_u32(b, p + 16),
        vector: read_raw_vec3(b, p + 20),
        position: read_raw_vec3(b, p + 32),
    }
}

/// A root-motion movement resolved at its absolute position.
#[derive(Debug, Clone, Copy)]
pub struct MovementRef<'a> {
    pub movement: MovementRec,
    pub offset: usize,
    pub bytes: &'a Vec<u8>,
}

/// The flag bitset of an animation descriptor, truncated to the defined
/// bits.
#[derive(Debug, Clone, Copy, PartialEq, Eq, Structural)]
pub struct AnimationDescFlags {
    pub bits: i32,
}

impl AnimationDescFlags {
    /// All bits of `mask` are set.
    pub fn contains(&self, mask: i32) -> (r: bool)
        ensures
            r == (self.bits & mask == mask),
    {
        self.bits & mask == mask
    }
}

/// An animation descriptor resolved at its absolute position, together with
/// the bones table its curves dequantize against.
#[derive(Debug, Clone, Copy)]
pub struct AnimationDescRef<'a> {
    pub desc: AnimDescRec,
    pub offset: usize,
    pub bones_pos: usize,
    pub bone_count: usize,
    pub bytes: &'a Vec<u8>,
}

/// The bones table of the descriptor resolves.
pub open spec fn bones_table_wf(b: Seq<u8>, bones_pos: int, bone_count: int) -> bool {
    &&& 0 <= bones_pos
    &&& 0 <= bone_count
    &&& bones_pos + bone_count * BONE_SIZE <= b.len()
    &&& aligned(bones_pos, 4)
}

impl<'a> AnimationDescRef<'a> {
    pub open spec fn wf(&self) -> bool {
        &&& buf_wf(self.bytes@)
        &&& self.offset + ANIM_DESC_SIZE <= self.bytes@.len()
        &&& self.desc == spec_anim_desc(self.bytes@, self.offset as int)
        &&& bones_table_wf(self.bytes@, self.bones_pos as int, self.bone_count as int)
    }

    /// The animation's name, resolved relative to its record's position.
    pub fn name(&self) -> (r: Result<String>)
        requires
            self.wf(),
        ensures
            string_result_matches(
                r,
                spec_string_result(
                    self.bytes@,
                    self.offset + self.desc.name_offset,
                    self.bytes@.len() as int,
                    "animation name out of bounds",
                    "eof reading animation name",
                    "animation name is not valid utf8",
                ),
            ),
    {
        read_string_at(
            self.bytes,
            self.offset as i64 + self.desc.name_offset as i64,
            "animation name out of bounds",
            "eof reading animation name",
            "animation name is not valid utf8",
        )
    }

    /// The flag bitset, truncated to the defined bits.
    pub fn flags(&self) -> (r: AnimationDescFlags)
        ensures
            r.bits == self.desc.flags & ANIM_FLAGS_MASK,
    {
        AnimationDescFlags { bits: self.desc.flags & ANIM_FLAGS_MASK }
    }

    /// The root-motion movement table, found `movement_offset` bytes after
    /// the descriptor.
    pub fn iter_movements(&self) -> (r: Result<Vec<MovementRef<'a>>>)
        requires
            self.wf(),
        ensures
            ({
                let pos = self.offset + self.desc.movement_offset;
                let count = self.desc.movement_count as int;
                match r {
                    Ok(movements) => {
                        &&& count >= 0
                        &&& 0 <= pos
                        &&& range_ok(self.bytes@.len() as int, pos, count * MOVEMENT_SIZE)
                        &&& aligned(pos, 4)
                        &&& movements@.len() == count
                        &&& forall|k: int|
                            0 <= k < count ==> (#[trigger] movements@[k]) == (MovementRef {
                                movement: spec_movement(self.bytes@, pos + k * MOVEMENT_SIZE),
                                offset: (pos + k * MOVEMENT_SIZE) as usize,
                                bytes: self.bytes,
                            })
                    },
                    Err(e) => {
                        &&& if count < 0 {
                            e == corrupted_spec("animation movements count is negative")
                        } else {
                            e == corrupted_spec("animation movements out of bounds or misaligned")
                        }
                        &&& (count < 0 || !(0 <= pos && range_ok(
                            self.bytes@.len() as int,
                            pos,
                            count * MOVEMENT_SIZE,
                        ) && aligned(pos, 4)))
                    },
                }
            }),
    {
        let b = self.bytes;
        if self.desc.movement_count < 0 {
            return Err(corrupted("animation movements count is negative"));
        }
        let pos_i: i64 = self.offset as i64 + self.desc.movement_offset as i64;
        if !array_fits(b, pos_i, self.desc.movement_count as i64, MOVEMENT_SIZE as u64, 4) {
            return Err(corrupted("animation movements out of bounds or misaligned"));
        }
        let pos: usize = pos_i as usize;
        let count: usize = self.desc.movement_count as usize;
        let mut out: Vec<MovementRef<'a>> = Vec::new();
        let mut i: usize = 0;
        while i < count
            invariant
                0 <= i <= count,
                out@.len() == i,
                pos + count * MOVEMENT_SIZE <= b@.len(),
                buf_wf(b@),
                forall|k: int|
                    0 <= k < i ==> (#[trigger] out@[k]) == (MovementRef {
                        movement: spec_movement(b@, pos + k * MOVEMENT_SIZE),
                        offset: (pos + k * MOVEMENT_SIZE) as usize,
                        bytes: b,
                    }),
            decreases count - i,
        {
            proof {
                lemma_mul_mono(i as int, i as int + 1, MOVEMENT_SIZE as int);
                lemma_mul_mono(i as int + 1, count as int, MOVEMENT_SIZE as int);
            }
            let off_i: usize = pos + i * MOVEMENT_SIZE;
            let m = read_movement(b, off_i);
            out.push(MovementRef { movement: m, offset: off_i, bytes: b });
            i = i + 1;
        }
        Ok(out)
    }
}

impl<'a> HeaderRef<'a> {
    /// The animation descriptor table: `local_anim_count` records at the
    /// absolute offset `local_anim_offset`, each coupled with the bones
    /// table.
    pub fn iter_animation_descs(&self) -> (r: Result<Vec<AnimationDescRef<'a>>>)
        requires
            self.wf(),
        ensures
            ({
                let b = self.bytes@;
                let pos = self.h1.local_anim_offset as int;
                let count = self.h1.local_anim_count as int;
                match r {
                    Ok(descs) => {
                        &&& anim_descs_fit(b, self.h1)
                        &&& crate::mdl::bones_fit(b, self.h1)
                        &&& descs@.len() == count
                        &&& forall|k: int|
                            0 <= k < count ==> (#[trigger] descs@[k]) == (AnimationDescRef {
                                desc: spec_anim_desc(b, pos + k * ANIM_DESC_SIZE),
                                offset: (pos + k * ANIM_DESC_SIZE) as usize,
                                bones_pos: self.h1.bone_offset as usize,
                                bone_count: self.h1.bone_count as usize,
                                bytes: self.bytes,
                            })
                        &&& forall|k: int| 0 <= k < count ==> (#[trigger] descs@[k]).wf()
                    },
                    Err(e) => {
                        &&& !(anim_descs_fit(b, self.h1) && crate::mdl::bones_fit(b, self.h1))
                        &&& (e == corrupted_spec("local animation offset is negative") || e
                            == corrupted_spec("local animation count is negative") || e
                            == corrupted_spec("local animations out of bounds or misaligned") || e
                            == corrupted_spec("bone offset is negative") || e == corrupted_spec(
                            "bone count is negative",
                        ) || e == corrupted_spec("bones out of bounds or misaligned"))
                    },
                }
            }),
    {
        let b = self.bytes;
        if self.h1.local_anim_offset < 0 {
            return Err(corrupted("local animation offset is negative"));
        }
        if self.h1.local_anim_count < 0 {
            return Err(corrupted("local animation count is negative"));
        }
        if !array_fits(
            b,
            self.h1.local_anim_offset as i64,
            self.h1.local_anim_count as i64,
            ANIM_DESC_SIZE as u64,
            4,
        ) {
            return Err(corrupted("local animations out of bounds or misaligned"));
        }
        if self.h1.bone_offset < 0 {
            return Err(corrupted("bone offset is negative"));
        }
        if self.h1.bone_count < 0 {
            return Err(corrupted("bone count is negative"));
        }
        if !array_fits(b, self.h1.bone_offset as i64, self.h1.bone_count as i64, BONE_SIZE as u64, 4)
        {
            return Err(corrupted("bones out of bounds or misaligned"));
        }
        let pos: usize = self.h1.local_anim_offset as usize;
        let count: usize = self.h1.local_anim_count as usize;
        let bones_pos: usize = self.h1.bone_offset as usize;
        let bone_count: usize = self.h1.bone_count as usize;
        let mut out: Vec<AnimationDescRef<'a>> = Vec::new();
        let mut i: usize = 0;
        while i < count
            invariant
                0 <= i <= count,
                out@.len() == i,
                pos + count * ANIM_DESC_SIZE <= b@.len(),
                buf_wf(b@),
                forall|k: int|
                    0 <= k < i ==> (#[trigger] out@[k]) == (AnimationDescRef {
                        desc: spec_anim_desc(b@, pos + k * ANIM_DESC_SIZE),
                        offset: (pos + k * ANIM_DESC_SIZE) as usize,
                        bones_pos: bones_pos,
                        bone_count: bone_count,
                        bytes: b,
                    }),
            decreases count - i,
        {
            proof {
                lemma_mul_mono(i as int, i as int + 1, ANIM_DESC_SIZE as int);
                lemma_mul_mono(i as int + 1, count as int, ANIM_DESC_SIZE as int);
            }
            let off_i: usize = pos + i * ANIM_DESC_SIZE;
            let d = read_anim_desc(b, off_i);
            out.push(
                AnimationDescRef {
                    desc: d,
                    offset: off_i,
                    bones_pos: bones_pos,
                    bone_count: bone_count,
                    bytes: b,
                },
            );
            i = i + 1;
        }
        proof {
            assert forall|k: int| 0 <= k < count implies (#[trigger] out@[k]).wf() by {
                lemma_mul_mono(0, k, ANIM_DESC_SIZE as int);
                lemma_mul_mono(k, k + 1, ANIM_DESC_SIZE as int);
                lemma_mul_mono(k + 1, count as int, ANIM_DESC_SIZE as int);
            }
        }
        Ok(out)
    }
}

/// The animation descriptor table resolves.
pub open spec fn anim_descs_fit(b: Seq<u8>, h1: crate::mdl::Header1) -> bool {
    &&& h1.local_anim_offset >= 0
    &&& h1.local_anim_count >= 0
    &&& range_ok(b.len() as int, h1.local_anim_offset as int, h1.local_anim_count * ANIM_DESC_SIZE)
    &&& aligned(h1.local_anim_offset as int, 4)
}

/// Truncating division, as the reference tool computes the section count.
pub open spec fn trunc_div(a: int, d: int) -> int {
    if a >= 0 {
        a / d
    } else {
        -((-a) / d)
    }
}

/// The expected number of section records: `frame_count /
/// section_frame_count + 2`. The two-tail convention below matches the
/// reference tool's behavior and is preserved bit-for-bit.
pub open spec fn spec_section_count(fc: int, sfc: int) -> int {
    trunc_div(fc, sfc) + 2
}

/// Frames covered by section `i`: exactly `section_frame_count` for all but
/// the last two sections, which share the remainder.
pub open spec fn spec_section_frames(fc: int, sfc: int, cnt: int, i: int) -> int {
    if i < cnt - 2 {
        sfc
    } else {
        fc - (cnt - 2) * sfc
    }
}

/// Section `i` counts as a final section.
pub open spec fn spec_section_last(fc: int, sfc: int, cnt: int, i: int) -> bool {
    i >= cnt - 2 || fc == (i + 1) * sfc
}

/// The descriptor declares a section table.
pub open spec fn spec_sectioned(desc: AnimDescRec) -> bool {
    desc.section_offset != 0 && desc.section_frame_count >= 0
}

/// An animation section resolved to an absolute block position, the frames
/// it covers, and whether it uses external chunk storage.
#[derive(Debug, Clone, Copy)]
pub struct AnimationSectionRef<'a> {
    pub anim_offset: i64,
    pub anim_block: i32,
    pub frame_count: usize,
    pub last_section: bool,
    pub bones_pos: usize,
    pub bone_count: usize,
    pub bytes: &'a Vec<u8>,
}

impl<'a> AnimationSectionRef<'a> {
    pub open spec fn wf(&self) -> bool {
        &&& buf_wf(self.bytes@)
        &&& bones_table_wf(self.bytes@, self.bones_pos as int, self.bone_count as int)
        &&& self.frame_count <= 0x7fff_ffff
        &&& -0x1_0000_0000_0000 < self.anim_offset < 0x1_0000_0000_0000
    }
}

impl<'a> AnimationDescRef<'a> {
    /// The sections of this animation as the whole-descriptor trivial
    /// section: `None` when the descriptor uses external chunk storage.
    pub fn animation_section(&self) -> (r: Result<Option<AnimationSectionRef<'a>>>)
        requires
            self.wf(),
        ensures
            match r {
                Ok(opt) => match opt {
                    Option::Some(s) => {
                        &&& self.desc.anim_block == 0
                        &&& self.desc.frame_count >= 0
                        &&& s == (AnimationSectionRef {
                            anim_offset: (self.offset + self.desc.anim_offset) as i64,
                            anim_block: 0,
                            frame_count: self.desc.frame_count as usize,
                            last_section: true,
                            bones_pos: self.bones_pos,
                            bone_count: self.bone_count,
                            bytes: self.bytes,
                        })
                        &&& s.wf()
                    },
                    Option::None => self.desc.anim_block != 0,
                },
                Err(e) => self.desc.anim_block == 0 && self.desc.frame_count < 0 && e
                    == corrupted_spec("animation frame count is negative"),
            },
    {
        if self.desc.anim_block != 0 {
            return Ok(Option::None);
        }
        if self.desc.frame_count < 0 {
            return Err(corrupted("animation frame count is negative"));
        }
        let anim_offset: i64 = self.offset as i64 + self.desc.anim_offset as i64;
        Ok(
            Option::Some(
                AnimationSectionRef {
                    anim_offset,
                    anim_block: 0,
                    frame_count: self.desc.frame_count as usize,
                    last_section: true,
                    bones_pos: self.bones_pos,
                    bone_count: self.bone_count,
                    bytes: self.bytes,
                },
            ),
        )
    }

    /// The full resolved section table: every in-file section, in order.
    /// `i`-th resolved entry of the declared table.
    pub open spec fn spec_section_at(self, spos: int, base: int, cnt: int, i: int) -> AnimationSectionRef<'a> {
        let b = self.bytes@;
        let fc = self.desc.frame_count as int;
        let sfc = self.desc.section_frame_count as int;
        AnimationSectionRef {
            anim_offset: (base + sle32(b, spos + 8 * i + 4)) as i64,
            anim_block: sle32(b, spos + 8 * i) as i32,
            frame_count: spec_section_frames(fc, sfc, cnt, i) as usize,
            last_section: spec_section_last(fc, sfc, cnt, i),
            bones_pos: self.bones_pos,
            bone_count: self.bone_count,
            bytes: self.bytes,
        }
    }

    /// Resolves the declared section table and keeps the in-file sections
    /// (those without external chunk storage); `None` when the descriptor
    /// declares no splitting. The per-section frame counts follow the
    /// two-tail convention of the reference tool.
    #[verifier::rlimit(100)]
    pub fn iter_animation_sections(&self) -> (r: Result<Option<Vec<AnimationSectionRef<'a>>>>)
        requires
            self.wf(),
        ensures
            ({
                let b = self.bytes@;
                let fc = self.desc.frame_count as int;
                let sfc = self.desc.section_frame_count as int;
                let cnt = spec_section_count(fc, sfc);
                let spos = self.offset + self.desc.section_offset;
                match r {
                    Ok(opt) => match opt {
                        Option::None => !spec_sectioned(self.desc),
                        Option::Some(v) => {
                            &&& spec_sectioned(self.desc)
                            &&& sfc > 0
                            &&& cnt >= 0
                            &&& 0 <= spos
                            &&& range_ok(b.len() as int, spos, cnt * ANIM_SECTION_SIZE)
                            &&& aligned(spos, 4)
                            &&& fc >= 0
                            &&& (forall|k: int| 0 <= k < v@.len() ==> (#[trigger] v@[k]).wf())
                            &&& ({
                                let base = self.offset + self.desc.anim_offset - (if cnt > 0 {
                                    sle32(b, spos + 4)
                                } else {
                                    0
                                });
                                let full = Seq::new(
                                    cnt as nat,
                                    |i: int| self.spec_section_at(spos, base, cnt, i),
                                );
                                v@ == full.filter(|s: AnimationSectionRef<'a>| s.anim_block == 0)
                            })
                        },
                    },
                    Err(e) => {
                        &&& spec_sectioned(self.desc)
                        &&& if sfc == 0 {
                            e == corrupted_spec("animation section frame count is zero")
                        } else if cnt < 0 {
                            e == corrupted_spec("calculated animation section count is negative")
                        } else if !(0 <= spos && range_ok(b.len() as int, spos, cnt
                            * ANIM_SECTION_SIZE) && aligned(spos, 4)) {
                            e == corrupted_spec("animation sections out of bounds or misaligned")
                        } else {
                            fc < 0 && e == corrupted_spec("animation frame count is negative")
                        }
                    },
                }
            }),
    {
        let b = self.bytes;
        if self.desc.section_offset == 0 || self.desc.section_frame_count < 0 {
            return Ok(Option::None);
        }
        if self.desc.section_frame_count == 0 {
            return Err(corrupted("animation section frame count is zero"));
        }
        let sfc64: u64 = self.desc.section_frame_count as u64;
        let fc_i: i64 = self.desc.frame_count as i64;
        let q: i64 = if fc_i >= 0 {
            ((fc_i as u64) / sfc64) as i64
        } else {
            -((((-fc_i) as u64) / sfc64) as i64)
        };
        proof {
            assert(q == trunc_div(self.desc.frame_count as int, self.desc.section_frame_count as int));
        }
        let cnt_i: i64 = q + 2;
        if cnt_i < 0 {
            return Err(corrupted("calculated animation section count is negative"));
        }
        let spos_i: i64 = self.offset as i64 + self.desc.section_offset as i64;
        if !array_fits(b, spos_i, cnt_i, ANIM_SECTION_SIZE as u64, 4) {
            return Err(corrupted("animation sections out of bounds or misaligned"));
        }
        if self.desc.frame_count < 0 {
            return Err(corrupted("animation frame count is negative"));
        }
        let spos: usize = spos_i as usize;
        let cnt: usize = cnt_i as usize;
        let fc: usize = self.desc.frame_count as usize;
        let sfc: usize = self.desc.section_frame_count as usize;
        let first: i64 = if cnt > 0 {
            proof {
                lemma_mul_mono(1, cnt_i as int, ANIM_SECTION_SIZE as int);
            }
            read_i32(b, spos + 4) as i64
        } else {
            0
        };
        let base: i64 = self.offset as i64 + self.desc.anim_offset as i64 - first;
        let ghost full = Seq::new(
            cnt as nat,
            |i: int| self.spec_section_at(spos as int, base as int, cnt as int, i),
        );
        proof {
            vstd::arithmetic::div_mod::lemma_fundamental_div_mod(fc as int, sfc as int);
            assert((cnt - 2) as int == fc as int / sfc as int);
            assert((cnt - 2) * sfc == sfc * (cnt - 2)) by (nonlinear_arith);
            assert(fc - (cnt - 2) * sfc >= 0);
        }
        let mut out: Vec<AnimationSectionRef<'a>> = Vec::new();
        let mut i: usize = 0;
        while i < cnt
            invariant
                buf_wf(b@),
                b == self.bytes,
                i <= cnt,
                cnt >= 2,
                cnt <= 0x8000_0001,
                spos + cnt * ANIM_SECTION_SIZE <= b@.len(),
                fc == self.desc.frame_count as int,
                sfc == self.desc.section_frame_count as int,
                fc - (cnt - 2) * sfc >= 0,
                sfc <= 0x7fff_ffff,
                fc <= 0x7fff_ffff,
                -0x8001_0000_0000 < base < 0x8001_0000_0000,
                bones_table_wf(b@, self.bones_pos as int, self.bone_count as int),
                full == Seq::new(
                    cnt as nat,
                    |k: int| self.spec_section_at(spos as int, base as int, cnt as int, k),
                ),
                out@ == full.take(i as int).filter(
                    |s: AnimationSectionRef<'a>| s.anim_block == 0,
                ),
                forall|k: int| 0 <= k < out@.len() ==> (#[trigger] out@[k]).wf(),
            decreases cnt - i,
        {
            proof {
                lemma_mul_mono(i as int, i as int + 1, ANIM_SECTION_SIZE as int);
                lemma_mul_mono(i as int + 1, cnt as int, ANIM_SECTION_SIZE as int);
            }
            let rec_pos: usize = spos + i * ANIM_SECTION_SIZE;
            let blk = read_i32(b, rec_pos);
            let sec_anim_offset = read_i32(b, rec_pos + 4);
            let frames: usize = if i + 2 < cnt {
                sfc
            } else {
                fc - (cnt - 2) * sfc
            };
            proof {
                assert(((i + 1) as int) * (sfc as int) <= 0x1_0000_0000 * 0x7fff_ffff)
                    by (nonlinear_arith)
                    requires
                        i + 1 <= 0x1_0000_0000 && sfc <= 0x7fff_ffff && 0 <= i && 0 <= sfc,
                ;
            }
            let last: bool = i + 2 >= cnt || (fc as u64) == ((i + 1) as u64) * (sfc as u64);
            let sec = AnimationSectionRef {
                anim_offset: base + sec_anim_offset as i64,
                anim_block: blk,
                frame_count: frames,
                last_section: last,
                bones_pos: self.bones_pos,
                bone_count: self.bone_count,
                bytes: b,
            };
            proof {
                assert(sec == self.spec_section_at(spos as int, base as int, cnt as int, i as int));
                assert(full[i as int] == sec);
                reveal(Seq::filter);
                assert(full.take(i + 1).drop_last() =~= full.take(i as int));
                assert(full.take(i + 1).last() == full[i as int]);
            }
            if blk == 0 {
                proof {
                    assert(sec.wf());
                }
                out.push(sec);
            }
            proof {
                assert(out@ == full.take(i + 1).filter(
                    |s: AnimationSectionRef<'a>| s.anim_block == 0,
                ));
            }
            i = i + 1;
        }
        proof {
            assert(full.take(cnt as int) =~= full);
        }
        Ok(Option::Some(out))
    }
}

/// The linked list of legacy animation blocks starting at `p`: each entry
/// is the block's position, owning bone, and flag byte. The list ends at a
/// bone index of 255 or one beyond the bone table (yielding nothing), or at
/// a zero forward offset (after yielding that block); a negative forward
/// offset, or a header that does not fit, is an error.
pub open spec fn spec_blocks(b: Seq<u8>, p: int, nbones: int) -> core::result::Result<
    Seq<(int, u8, u8)>,
    Error,
>
    decreases b.len() + 0x8000 - p,
{
    if p < 0 || p % 2 != 0 || p + 4 > b.len() {
        Err(corrupted_spec("animation section animation out of bounds or misaligned"))
    } else {
        let bone = b[p];
        if bone == 255 || bone >= nbones {
            Ok(Seq::empty())
        } else {
            let nxt = sle16(b, p + 2);
            if nxt < 0 {
                Err(corrupted_spec("animation section animation next offset is negative"))
            } else if nxt == 0 {
                Ok(seq![(p, bone, b[p + 1])])
            } else {
                match spec_blocks(b, p + nxt, nbones) {
                    Ok(rest) => Ok(seq![(p, bone, b[p + 1])] + rest),
                    Err(e) => Err(e),
                }
            }
        }
    }
}

/// The last block of the list that a bone owns: a later block for the same
/// bone supersedes an earlier one.
pub open spec fn spec_last_block(blocks: Seq<(int, u8, u8)>, bone: int) -> Option<(int, u8, u8)>
    decreases blocks.len(),
{
    if blocks.len() == 0 {
        Option::None
    } else if blocks.last().1 == bone {
        Option::Some(blocks.last())
    } else {
        spec_last_block(blocks.drop_last(), bone)
    }
}

/// Every block of the legacy list resolves and its announced data fits.
pub open spec fn rle_section_ok(b: Seq<u8>, p: int, bone_count: int, fc: int) -> bool {
    &&& spec_blocks(b, p, bone_count) is Ok
    &&& forall|k: int|
        0 <= k < spec_blocks(b, p, bone_count).unwrap().len() ==> crate::rle::rle_data_fit(
            b,
            (#[trigger] spec_blocks(b, p, bone_count).unwrap()[k]).0,
            spec_blocks(b, p, bone_count).unwrap()[k].2,
            fc,
        )
}

/// The decoded legacy-section data: for each bone, the decode of its last
/// block, marked for root correction exactly when the bone has no parent.
pub open spec fn rle_section_matches(
    d: Seq<Option<BoneAnimationData>>,
    b: Seq<u8>,
    p: int,
    bones_pos: int,
    bone_count: int,
    fc: int,
) -> bool {
    &&& d.len() == bone_count
    &&& spec_blocks(b, p, bone_count) matches Ok(blocks) && (forall|i: int|
        0 <= i < bone_count ==> (match spec_last_block(blocks, i) {
            Option::None => (#[trigger] d[i]) is None,
            Option::Some(blk) => d[i] matches Some(dd) && crate::rle::rle_rot_matches(
                dd.rotation,
                b,
                blk.0,
                blk.2,
                fc,
                spec_bone(b, bones_pos + i * BONE_SIZE),
            ) && crate::rle::rle_pos_matches(
                dd.position,
                b,
                blk.0,
                blk.2,
                fc,
                spec_bone(b, bones_pos + i * BONE_SIZE),
            ) && dd.root == (spec_bone(b, bones_pos + i * BONE_SIZE).parent_bone_index < 0),
        }))
}

/// The frame-animation header of a section resolves and everything it
/// announces fits.
pub open spec fn frame_section_ok(b: Seq<u8>, p: int, bone_count: int, n: int) -> bool {
    let start = p + crate::frame_anim::FRAME_ANIM_SIZE;
    let fl = b.subrange(start, start + bone_count);
    let c_off = sle32(b, p);
    let f_off = sle32(b, p + 4);
    &&& 0 <= p
    &&& aligned(p, 4)
    &&& p + crate::frame_anim::FRAME_ANIM_SIZE <= b.len()
    &&& start + bone_count <= b.len()
    &&& (c_off != 0 ==> 0 <= p + c_off <= b.len() && crate::frame_anim::fb_consts_fit(
        b,
        p + c_off,
        fl,
    ))
    &&& (f_off != 0 ==> 0 <= p + f_off <= b.len() && crate::frame_anim::fb_frames_fit(
        b,
        p + f_off,
        fl,
        n,
    ))
}

/// The decoded frame-section data: every bone present, decoded by the
/// per-frame bitflag scheme, marked for root correction exactly when the
/// bone has no parent.
pub open spec fn frame_section_matches(
    d: Seq<Option<BoneAnimationData>>,
    b: Seq<u8>,
    p: int,
    bones_pos: int,
    bone_count: int,
    n: int,
) -> bool {
    let start = p + crate::frame_anim::FRAME_ANIM_SIZE;
    let fl = b.subrange(start, start + bone_count);
    let c_off = sle32(b, p);
    let f_off = sle32(b, p + 4);
    &&& d.len() == bone_count
    &&& forall|i: int|
        0 <= i < bone_count ==> ((#[trigger] d[i]) matches Some(dd)
            && crate::frame_anim::fb_rot_matches(
            dd.rotation,
            b,
            c_off,
            f_off,
            p + c_off,
            p + f_off,
            fl,
            i,
            n,
        ) && crate::frame_anim::fb_pos_matches(
            dd.position,
            b,
            c_off,
            f_off,
            p + c_off,
            p + f_off,
            fl,
            i,
            n,
        ) && dd.root == (spec_bone(b, bones_pos + i * BONE_SIZE).parent_bone_index < 0))
}

/// Decodes a legacy run-length section: walks the block list, decodes each
/// block, and keeps the last block per bone.
#[verifier::rlimit(100)]
fn rle_section_data(
    b: &Vec<u8>,
    p0: i64,
    fc: usize,
    bones_pos: usize,
    bone_count: usize,
) -> (r: Result<Vec<Option<BoneAnimationData>>>)
    requires
        buf_wf(b@),
        bones_table_wf(b@, bones_pos as int, bone_count as int),
        fc <= 0x7fff_ffff,
        -0x1_0000_0000_0000 < p0 < 0x1_0000_0000_0000,
    ensures
        match r {
            Ok(d) => rle_section_ok(b@, p0 as int, bone_count as int, fc as int)
                && rle_section_matches(
                d@,
                b@,
                p0 as int,
                bones_pos as int,
                bone_count as int,
                fc as int,
            ),
            Err(e) => !rle_section_ok(b@, p0 as int, bone_count as int, fc as int) && (e
                == corrupted_spec("animation section animation out of bounds or misaligned") || e
                == corrupted_spec("animation section animation next offset is negative") || e
                == corrupted_spec("animation constants out of bounds") || e == corrupted_spec(
                "animation offsets out of bounds",
            ) || e == corrupted_spec("animation rotation x values out of bounds") || e
                == corrupted_spec("animation rotation y values out of bounds") || e
                == corrupted_spec("animation rotation z values out of bounds") || e
                == corrupted_spec("animation position x values out of bounds") || e
                == corrupted_spec("animation position y values out of bounds") || e
                == corrupted_spec("animation position z values out of bounds") || e
                == corrupted_spec("animation values out of bounds")),
        },
{
    let n: usize = b.len();
    let mut data: Vec<Option<BoneAnimationData>> = Vec::new();
    let mut j: usize = 0;
    while j < bone_count
        invariant
            j <= bone_count,
            data@.len() == j,
            forall|k: int| 0 <= k < j ==> (#[trigger] data@[k]) is None,
        decreases bone_count - j,
    {
        data.push(Option::None);
        j = j + 1;
    }
    let mut pos: i64 = p0;
    let ghost mut prefix: Seq<(int, u8, u8)> = Seq::empty();
    loop
        invariant_except_break
            (match spec_blocks(b@, pos as int, bone_count as int) {
                Ok(rest) => spec_blocks(b@, p0 as int, bone_count as int) == Ok::<
                    Seq<(int, u8, u8)>,
                    Error,
                >(prefix + rest),
                Err(e) => spec_blocks(b@, p0 as int, bone_count as int) == Err::<
                    Seq<(int, u8, u8)>,
                    Error,
                >(e),
            }),
        invariant
            buf_wf(b@),
            n == b@.len(),
            bones_table_wf(b@, bones_pos as int, bone_count as int),
            fc <= 0x7fff_ffff,
            -0x1_0000_0000_0000 < pos < 0x1_0000_0000_0000 + 0x8000,
            data@.len() == bone_count,
            forall|k: int|
                0 <= k < prefix.len() ==> crate::rle::rle_data_fit(
                    b@,
                    (#[trigger] prefix[k]).0,
                    prefix[k].2,
                    fc as int,
                ),
            forall|i: int|
                0 <= i < bone_count ==> (match spec_last_block(prefix, i) {
                    Option::None => (#[trigger] data@[i]) is None,
                    Option::Some(blk) => data@[i] matches Some(dd) && crate::rle::rle_rot_matches(
                        dd.rotation,
                        b@,
                        blk.0,
                        blk.2,
                        fc as int,
                        spec_bone(b@, bones_pos + i * BONE_SIZE),
                    ) && crate::rle::rle_pos_matches(
                        dd.position,
                        b@,
                        blk.0,
                        blk.2,
                        fc as int,
                        spec_bone(b@, bones_pos + i * BONE_SIZE),
                    ) && dd.root == (spec_bone(b@, bones_pos + i * BONE_SIZE).parent_bone_index
                        < 0),
                }),
        ensures
            spec_blocks(b@, p0 as int, bone_count as int) == Ok::<Seq<(int, u8, u8)>, Error>(
                prefix,
            ),
            data@.len() == bone_count,
            forall|k: int|
                0 <= k < prefix.len() ==> crate::rle::rle_data_fit(
                    b@,
                    (#[trigger] prefix[k]).0,
                    prefix[k].2,
                    fc as int,
                ),
            forall|i: int|
                0 <= i < bone_count ==> (match spec_last_block(prefix, i) {
                    Option::None => (#[trigger] data@[i]) is None,
                    Option::Some(blk) => data@[i] matches Some(dd) && crate::rle::rle_rot_matches(
                        dd.rotation,
                        b@,
                        blk.0,
                        blk.2,
                        fc as int,
                        spec_bone(b@, bones_pos + i * BONE_SIZE),
                    ) && crate::rle::rle_pos_matches(
                        dd.position,
                        b@,
                        blk.0,
                        blk.2,
                        fc as int,
                        spec_bone(b@, bones_pos + i * BONE_SIZE),
                    ) && dd.root == (spec_bone(b@, bones_pos + i * BONE_SIZE).parent_bone_index
                        < 0),
                }),
        decreases n + 0x8000 - pos,
    {
        if pos < 0 || pos % 2 != 0 || pos + 4 > n as i64 {
            return Err(corrupted("animation section animation out of bounds or misaligned"));
        }
        let pu: usize = pos as usize;
        let bone = read_u8(b, pu);
        let flags = read_u8(b, pu + 1);
        if bone == 255 || bone as usize >= bone_count {
            proof {
                assert(spec_blocks(b@, pos as int, bone_count as int) == Ok::<
                    Seq<(int, u8, u8)>,
                    Error,
                >(Seq::empty()));
                assert(prefix + Seq::<(int, u8, u8)>::empty() =~= prefix);
            }
            break;
        }
        proof {
            lemma_mul_mono(bone as int + 1, bone_count as int, BONE_SIZE as int);
            lemma_mul_mono(bone as int, bone as int + 1, BONE_SIZE as int);
        }
        let bone_rec = read_bone(b, bones_pos + (bone as usize) * BONE_SIZE);
        let ghost cur: (int, u8, u8) = (pos as int, bone, flags);
        let decoded = match crate::rle::animation_data(b, pu, flags, fc, &bone_rec) {
            Ok(t) => t,
            Err(e) => {
                proof {
                    if spec_blocks(b@, pos as int, bone_count as int) is Ok {
                        let rest = spec_blocks(b@, pos as int, bone_count as int).unwrap();
                        assert(rest.len() > 0 && rest[0] == cur);
                        let all = spec_blocks(b@, p0 as int, bone_count as int).unwrap();
                        assert(all == prefix + rest);
                        assert(all[prefix.len() as int] == cur);
                    }
                }
                return Err(e);
            },
        };
        let (rot, posd) = decoded;
        let root = bone_rec.parent_bone_index < 0;
        let ghost data_old = data@;
        data[bone as usize] = Option::Some(
            BoneAnimationData { rotation: rot, position: posd, root },
        );
        let nxt = read_i16(b, pu + 2);
        if nxt < 0 {
            return Err(corrupted("animation section animation next offset is negative"));
        }
        proof {
            assert(prefix.push(cur).drop_last() =~= prefix);
            assert forall|i: int| 0 <= i < bone_count implies (match spec_last_block(
                prefix.push(cur),
                i,
            ) {
                Option::None => (#[trigger] data@[i]) is None,
                Option::Some(blk) => data@[i] matches Some(dd) && crate::rle::rle_rot_matches(
                    dd.rotation,
                    b@,
                    blk.0,
                    blk.2,
                    fc as int,
                    spec_bone(b@, bones_pos + i * BONE_SIZE),
                ) && crate::rle::rle_pos_matches(
                    dd.position,
                    b@,
                    blk.0,
                    blk.2,
                    fc as int,
                    spec_bone(b@, bones_pos + i * BONE_SIZE),
                ) && dd.root == (spec_bone(b@, bones_pos + i * BONE_SIZE).parent_bone_index < 0),
            }) by {
                if i == bone as int {
                    assert(spec_last_block(prefix.push(cur), i) == Option::Some(cur));
                } else {
                    assert(spec_last_block(prefix.push(cur), i) == spec_last_block(prefix, i));
                    assert(data@[i] == data_old[i]);
                }
            }
            prefix = prefix.push(cur);
            assert(prefix =~= prefix.drop_last() + seq![cur]);
            assert(seq![cur] + Seq::<(int, u8, u8)>::empty() =~= seq![cur]);
        }
        if nxt == 0 {
            proof {
                assert(spec_blocks(b@, pos as int, bone_count as int) == Ok::<
                    Seq<(int, u8, u8)>,
                    Error,
                >(seq![cur]));
                assert(prefix.drop_last() + seq![cur] =~= prefix);
            }
            break;
        }
        proof {
            match spec_blocks(b@, pos + nxt, bone_count as int) {
                Ok(rest2) => {
                    assert(spec_blocks(b@, pos as int, bone_count as int) == Ok::<
                        Seq<(int, u8, u8)>,
                        Error,
                    >(seq![cur] + rest2));
                    assert(prefix.drop_last() + (seq![cur] + rest2) =~= prefix + rest2);
                },
                Err(e2) => {
                    assert(spec_blocks(b@, pos as int, bone_count as int) == Err::<
                        Seq<(int, u8, u8)>,
                        Error,
                    >(e2));
                },
            }
        }
        pos = pos + nxt as i64;
    }
    Ok(data)
}

/// Root-correction law for the legacy decoder: a decoded bone is marked
/// for the coordinate correction exactly when its bone record has a
/// negative parent index — each root bone's curve once, and never a bone
/// with a non-negative parent index.
pub proof fn lemma_rle_root_marking(
    d: Seq<Option<BoneAnimationData>>,
    b: Seq<u8>,
    p: int,
    bones_pos: int,
    bone_count: int,
    fc: int,
    i: int,
)
    requires
        rle_section_matches(d, b, p, bones_pos, bone_count, fc),
        0 <= i < bone_count,
        d[i] is Some,
    ensures
        d[i].unwrap().root == (spec_bone(b, bones_pos + i * BONE_SIZE).parent_bone_index < 0),
{
}

/// Root-correction law for the per-frame bitflag decoder: every decoded
/// bone is marked for the coordinate correction exactly when its bone
/// record has a negative parent index.
pub proof fn lemma_frame_root_marking(
    d: Seq<Option<BoneAnimationData>>,
    b: Seq<u8>,
    p: int,
    bones_pos: int,
    bone_count: int,
    n: int,
    i: int,
)
    requires
        frame_section_matches(d, b, p, bones_pos, bone_count, n),
        0 <= i < bone_count,
    ensures
        d[i] is Some,
        d[i].unwrap().root == (spec_bone(b, bones_pos + i * BONE_SIZE).parent_bone_index < 0),
{
}

/// Determinism law for the legacy decoder: the decode contract pins every
/// sample, so any two results of decoding the same section of the same
/// buffer hold the same data, bone for bone. Together with
/// `AnimationDescRef::data`'s contract this makes the animation decode a
/// function of the immutable buffer alone.
pub proof fn lemma_rle_section_deterministic(
    d1: Seq<Option<BoneAnimationData>>,
    d2: Seq<Option<BoneAnimationData>>,
    b: Seq<u8>,
    p: int,
    bones_pos: int,
    bone_count: int,
    fc: int,
)
    requires
        rle_section_matches(d1, b, p, bones_pos, bone_count, fc),
        rle_section_matches(d2, b, p, bones_pos, bone_count, fc),
    ensures
        d1.len() == d2.len(),
        forall|i: int|
            0 <= i < bone_count ==> (((#[trigger] d1[i]) is Some <==> d2[i] is Some) && (d1[i]
                is Some ==> crate::anim_data::bone_data_eq(d1[i].unwrap(), d2[i].unwrap()))),
{
    assert forall|i: int|
        0 <= i < bone_count implies (((#[trigger] d1[i]) is Some <==> d2[i] is Some) && (d1[i]
        is Some ==> crate::anim_data::bone_data_eq(d1[i].unwrap(), d2[i].unwrap()))) by {
        let blocks = spec_blocks(b, p, bone_count).unwrap();
        match spec_last_block(blocks, i) {
            Option::None => {},
            Option::Some(blk) => {
                crate::rle::lemma_rle_rot_matches_unique(
                    d1[i].unwrap().rotation,
                    d2[i].unwrap().rotation,
                    b,
                    blk.0,
                    blk.2,
                    fc,
                    spec_bone(b, bones_pos + i * BONE_SIZE),
                );
                crate::rle::lemma_rle_pos_matches_unique(
                    d1[i].unwrap().position,
                    d2[i].unwrap().position,
                    b,
                    blk.0,
                    blk.2,
                    fc,
                    spec_bone(b, bones_pos + i * BONE_SIZE),
                );
            },
        }
    }
}

/// Determinism law for the per-frame bitflag decoder: any two results of
/// decoding the same section of the same buffer hold the same data, bone
/// for bone.
pub proof fn lemma_frame_section_deterministic(
    d1: Seq<Option<BoneAnimationData>>,
    d2: Seq<Option<BoneAnimationData>>,
    b: Seq<u8>,
    p: int,
    bones_pos: int,
    bone_count: int,
    n: int,
)
    requires
        frame_section_matches(d1, b, p, bones_pos, bone_count, n),
        frame_section_matches(d2, b, p, bones_pos, bone_count, n),
    ensures
        d1.len() == d2.len(),
        forall|i: int|
            0 <= i < bone_count ==> ((#[trigger] d1[i]) is Some && d2[i] is Some
                && crate::anim_data::bone_data_eq(d1[i].unwrap(), d2[i].unwrap())),
{
    assert forall|i: int|
        0 <= i < bone_count implies ((#[trigger] d1[i]) is Some && d2[i] is Some
        && crate::anim_data::bone_data_eq(d1[i].unwrap(), d2[i].unwrap())) by {
        let start = p + crate::frame_anim::FRAME_ANIM_SIZE;
        let fl = b.subrange(start, start + bone_count);
        let c_off = sle32(b, p);
        let f_off = sle32(b, p + 4);
        crate::frame_anim::lemma_fb_rot_matches_unique(
            d1[i].unwrap().rotation,
            d2[i].unwrap().rotation,
            b,
            c_off,
            f_off,
            p + c_off,
            p + f_off,
            fl,
            i,
            n,
        );
        crate::frame_anim::lemma_fb_pos_matches_unique(
            d1[i].unwrap().position,
            d2[i].unwrap().position,
            b,
            c_off,
            f_off,
            p + c_off,
            p + f_off,
            fl,
            i,
            n,
        );
    }
}

/// The descriptor selects the per-frame bitflag decoder.
pub open spec fn spec_frameanim(flags: i32) -> bool {
    flags & ANIM_FLAGS_MASK & ANIM_FLAG_FRAMEANIM == ANIM_FLAG_FRAMEANIM
}

/// Decodes a frame-animation section and marks each bone's data for root
/// correction exactly when the bone has no parent.
#[verifier::rlimit(100)]
fn frame_section_data(
    fa: crate::frame_anim::FrameAnimationRef<'_>,
    bones_pos: usize,
) -> (r: Result<Vec<Option<BoneAnimationData>>>)
    requires
        fa.wf(),
        bones_table_wf(fa.bytes@, bones_pos as int, fa.bone_count as int),
    ensures
        ({
            let b = fa.bytes@;
            let p = fa.offset as int;
            let n = fa.spec_sample_frames();
            match r {
                Ok(d) => fa.spec_fits() && frame_section_matches(
                    d@,
                    b,
                    p,
                    bones_pos as int,
                    fa.bone_count as int,
                    n,
                ),
                Err(e) => !fa.spec_fits() && (e == corrupted_spec(
                    "frame animation bone flags out of bounds",
                ) || e == corrupted_spec("frame animation bone constants out of bounds") || e
                    == corrupted_spec(
                    "frame animation bone constants out of bounds or misaligned",
                ) || e == corrupted_spec("frame animation bone frames out of bounds") || e
                    == corrupted_spec("frame animation bone frames out of bounds or misaligned")),
            }
        }),
{
    let b = fa.bytes;
    let mut raw = match fa.animation_data() {
        Ok(v) => v,
        Err(e) => {
            return Err(e);
        },
    };
    let ghost orig = raw@;
    let mut out: Vec<Option<BoneAnimationData>> = Vec::new();
    let mut idx: usize = 0;
    while raw.len() > 0
        invariant
            buf_wf(b@),
            b == fa.bytes,
            bones_table_wf(b@, bones_pos as int, fa.bone_count as int),
            orig.len() == fa.bone_count,
            idx + raw@.len() == fa.bone_count,
            out@.len() == idx,
            raw@ == orig.subrange(idx as int, fa.bone_count as int),
            forall|j: int|
                0 <= j < idx ==> ((#[trigger] out@[j]) matches Some(dd) && dd.rotation
                    == orig[j].rotation && dd.position == orig[j].position && dd.root == (spec_bone(
                    b@,
                    bones_pos + j * BONE_SIZE,
                ).parent_bone_index < 0)),
        decreases raw@.len(),
    {
        let d0 = raw.remove(0);
        proof {
            lemma_mul_mono(idx as int, idx as int + 1, BONE_SIZE as int);
            lemma_mul_mono(idx as int + 1, fa.bone_count as int, BONE_SIZE as int);
            assert(orig.subrange(idx as int, fa.bone_count as int)[0] == orig[idx as int]);
            assert(orig.subrange(idx as int, fa.bone_count as int).subrange(
                1,
                orig.subrange(idx as int, fa.bone_count as int).len() as int,
            ) =~= orig.subrange(idx + 1, fa.bone_count as int));
        }
        let bone_rec = read_bone(b, bones_pos + idx * BONE_SIZE);
        let root = bone_rec.parent_bone_index < 0;
        out.push(
            Option::Some(
                BoneAnimationData { rotation: d0.rotation, position: d0.position, root },
            ),
        );
        idx = idx + 1;
    }
    Ok(out)
}

impl<'a> AnimationSectionRef<'a> {
    /// Decodes this section with the decoder the caller's descriptor
    /// selects: the per-frame bitflag scheme when `frame_animation`, the
    /// legacy run-length scheme otherwise. Each decoded bone is marked for
    /// root correction exactly when it has no parent.
    #[verifier::rlimit(100)]
    pub fn data(&self, frame_animation: bool) -> (r: Result<Vec<Option<BoneAnimationData>>>)
        requires
            self.wf(),
        ensures
            ({
                let b = self.bytes@;
                let p = self.anim_offset as int;
                let n = self.frame_count + (if self.last_section {
                    0int
                } else {
                    1int
                });
                if frame_animation {
                    match r {
                        Ok(d) => frame_section_ok(b, p, self.bone_count as int, n)
                            && frame_section_matches(
                            d@,
                            b,
                            p,
                            self.bones_pos as int,
                            self.bone_count as int,
                            n,
                        ),
                        Err(e) => !frame_section_ok(b, p, self.bone_count as int, n) && (e
                            == corrupted_spec(
                            "animation section frame animation out of bounds or misaligned",
                        ) || e == corrupted_spec("frame animation bone flags out of bounds") || e
                            == corrupted_spec("frame animation bone constants out of bounds") || e
                            == corrupted_spec(
                            "frame animation bone constants out of bounds or misaligned",
                        ) || e == corrupted_spec("frame animation bone frames out of bounds") || e
                            == corrupted_spec(
                            "frame animation bone frames out of bounds or misaligned",
                        )),
                    }
                } else {
                    match r {
                        Ok(d) => rle_section_ok(b, p, self.bone_count as int, self.frame_count as int)
                            && rle_section_matches(
                            d@,
                            b,
                            p,
                            self.bones_pos as int,
                            self.bone_count as int,
                            self.frame_count as int,
                        ),
                        Err(e) => !rle_section_ok(
                            b,
                            p,
                            self.bone_count as int,
                            self.frame_count as int,
                        ) && (e == corrupted_spec(
                            "animation section animation out of bounds or misaligned",
                        ) || e == corrupted_spec(
                            "animation section animation next offset is negative",
                        ) || e == corrupted_spec("animation constants out of bounds") || e
                            == corrupted_spec("animation offsets out of bounds") || e
                            == corrupted_spec("animation rotation x values out of bounds") || e
                            == corrupted_spec("animation rotation y values out of bounds") || e
                            == corrupted_spec("animation rotation z values out of bounds") || e
                            == corrupted_spec("animation position x values out of bounds") || e
                            == corrupted_spec("animation position y values out of bounds") || e
                            == corrupted_spec("animation position z values out of bounds") || e
                            == corrupted_spec("animation values out of bounds")),
                    }
                }
            }),
    {
        let b = self.bytes;
        let n_len: usize = b.len();
        if frame_animation {
            if self.anim_offset < 0 || self.anim_offset % 4 != 0 || self.anim_offset + 24
                > n_len as i64 {
                return Err(
                    corrupted("animation section frame animation out of bounds or misaligned"),
                );
            }
            let p: usize = self.anim_offset as usize;
            proof {
                lemma_mul_mono(1, BONE_SIZE as int, self.bone_count as int);
                assert(BONE_SIZE * self.bone_count == self.bone_count * BONE_SIZE)
                    by (nonlinear_arith);
            }
            let fa = crate::frame_anim::FrameAnimationRef {
                offset: p,
                constants_offset: read_i32(b, p),
                frame_offset: read_i32(b, p + 4),
                bone_count: self.bone_count,
                frame_count: self.frame_count,
                last_section: self.last_section,
                bytes: b,
            };
            frame_section_data(fa, self.bones_pos)
        } else {
            rle_section_data(b, self.anim_offset, self.frame_count, self.bones_pos, self.bone_count)
        }
    }
}

impl<'a> AnimationDescRef<'a> {
    /// Decodes this animation's per-bone curves. Multi-section animations
    /// with in-file storage are an explicitly unsupported feature; an
    /// animation whose block lives in external chunk storage decodes to
    /// `None`.
    #[verifier::rlimit(100)]
    pub fn data(&self) -> (r: Result<Option<Vec<Option<BoneAnimationData>>>>)
        requires
            self.wf(),
        ensures
            ({
                let b = self.bytes@;
                let fc = self.desc.frame_count as int;
                let sfc = self.desc.section_frame_count as int;
                let cnt = spec_section_count(fc, sfc);
                let spos = self.offset + self.desc.section_offset;
                let p = self.offset + self.desc.anim_offset;
                let fa = spec_frameanim(self.desc.flags);
                match r {
                    Ok(opt) => {
                        &&& !spec_sectioned(self.desc)
                        &&& match opt {
                            Option::None => self.desc.anim_block != 0,
                            Option::Some(d) => {
                                &&& self.desc.anim_block == 0
                                &&& fc >= 0
                                &&& if fa {
                                    frame_section_ok(b, p, self.bone_count as int, fc)
                                        && frame_section_matches(
                                        d@,
                                        b,
                                        p,
                                        self.bones_pos as int,
                                        self.bone_count as int,
                                        fc,
                                    )
                                } else {
                                    rle_section_ok(b, p, self.bone_count as int, fc)
                                        && rle_section_matches(
                                        d@,
                                        b,
                                        p,
                                        self.bones_pos as int,
                                        self.bone_count as int,
                                        fc,
                                    )
                                }
                            },
                        }
                    },
                    Err(e) => if spec_sectioned(self.desc) {
                        if sfc == 0 {
                            e == corrupted_spec("animation section frame count is zero")
                        } else if cnt < 0 {
                            e == corrupted_spec("calculated animation section count is negative")
                        } else if !(0 <= spos && range_ok(b.len() as int, spos, cnt
                            * ANIM_SECTION_SIZE) && aligned(spos, 4)) {
                            e == corrupted_spec("animation sections out of bounds or misaligned")
                        } else if fc < 0 {
                            e == corrupted_spec("animation frame count is negative")
                        } else {
                            e == (Error::Unsupported {
                                ty: FileType::Mdl,
                                feature: "animation sections",
                            })
                        }
                    } else if self.desc.anim_block != 0 {
                        false
                    } else if fc < 0 {
                        e == corrupted_spec("animation frame count is negative")
                    } else if fa {
                        !frame_section_ok(b, p, self.bone_count as int, fc)
                    } else {
                        !rle_section_ok(b, p, self.bone_count as int, fc)
                    },
                }
            }),
    {
        let frame_animation = self.flags().contains(ANIM_FLAG_FRAMEANIM);
        match self.iter_animation_sections() {
            Err(e) => Err(e),
            Ok(Option::Some(_)) => Err(
                Error::Unsupported { ty: FileType::Mdl, feature: "animation sections" },
            ),
            Ok(Option::None) => {
                match self.animation_section() {
                    Err(e) => Err(e),
                    Ok(Option::None) => Ok(Option::None),
                    Ok(Option::Some(section)) => {
                        match section.data(frame_animation) {
                            Ok(d) => Ok(Option::Some(d)),
                            Err(e) => Err(e),
                        }
                    },
                }
            },
        }
    }
}

} // verus!
