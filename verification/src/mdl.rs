//! The model buffer and its table-of-contents model: signature and version
//! checks, the two fixed-layout header records, and resolution of every
//! sub-table the decoder reads.

use vstd::prelude::*;

use crate::bytes::aligned;
use crate::bytes::array_fits;
use crate::bytes::buf_wf;
use crate::bytes::lemma_mul_mono;
use crate::bytes::range_ok;
use crate::bytes::read_i32;
use crate::bytes::read_string_at;
use crate::bytes::read_string_range;
use crate::bytes::read_u8;
use crate::bytes::sle32;
use crate::bytes::spec_string_result;
use crate::bytes::string_result_matches;
use crate::entities::BODY_PART_SIZE;
use crate::entities::BONE_SIZE;
use crate::entities::BodyPartRef;
use crate::entities::BoneRef;
use crate::entities::TEXTURE_SIZE;
use crate::entities::TextureRef;
use crate::entities::corrupted_spec;
use crate::entities::read_body_part;
use crate::entities::read_bone;
use crate::entities::read_texture;
use crate::entities::spec_body_part;
use crate::entities::spec_bone;
use crate::entities::spec_texture;
use crate::error::Error;
use crate::error::FileType;
use crate::error::Result;
use crate::error::corrupted;

verus! {

/// Size in bytes of the primary header record.
pub const HEADER1_SIZE: usize = 400;

/// Size in bytes of the extension header record.
pub const HEADER2_SIZE: usize = 32;

/// The `STATIC_PROP` bit of the header flag bitset.
pub const FLAG_STATIC_PROP: i32 = 1 << 4;

/// The mask of defined header flag bits.
pub const HEADER_FLAGS_MASK: i32 = 0x7ffff;

/// The fields of the primary header that the decoder reads: the checksum,
/// the flag bitset, and a `(count, offset)` pair for each sub-table.
#[derive(Debug, Clone, Copy, PartialEq, Eq, Structural)]
pub struct Header1 {
    pub version: i32,
    pub checksum: i32,
    pub flags: i32,
    pub bone_count: i32,
    pub bone_offset: i32,
    pub local_anim_count: i32,
    pub local_anim_offset: i32,
    pub texture_count: i32,
    pub texture_offset: i32,
    pub texture_dir_count: i32,
    pub texture_dir_offset: i32,
    pub body_part_count: i32,
    pub body_part_offset: i32,
    pub header_2_offset: i32,
}

/// The fields of the extension header that the decoder reads. When present
/// and nonzero, its name offset supersedes the primary header's fixed-size
/// embedded name.
#[derive(Debug, Clone, Copy, PartialEq, Eq, Structural)]
pub struct Header2 {
    pub name_offset: i32,
}

pub open spec fn spec_header1(b: Seq<u8>) -> Header1 {
    Header1 {
        version: sle32(b, 4) as i32,
        checksum: sle32(b, 8) as i32,
        flags: sle32(b, 152) as i32,
        bone_count: sle32(b, 156) as i32,
        bone_offset: sle32(b, 160) as i32,
        local_anim_count: sle32(b, 180) as i32,
        local_anim_offset: sle32(b, 184) as i32,
        texture_count: sle32(b, 204) as i32,
        texture_offset: sle32(b, 208) as i32,
        texture_dir_count: sle32(b, 212) as i32,
        texture_dir_offset: sle32(b, 216) as i32,
        body_part_count: sle32(b, 232) as i32,
        body_part_offset: sle32(b, 236) as i32,
        header_2_offset: sle32(b, 392) as i32,
    }
}

pub open spec fn spec_header2(b: Seq<u8>, p: int) -> Header2 {
    Header2 { name_offset: sle32(b, p + 20) as i32 }
}

pub fn read_header1(b: &Vec<u8>) -> (r: Header1)
    requires
        HEADER1_SIZE <= b.len(),
    ensures
        r == spec_header1(b@),
{
    Header1 {
        version: read_i32(b, 4),
        checksum: read_i32(b, 8),
        flags: read_i32(b, 152),
        bone_count: read_i32(b, 156),
        bone_offset: read_i32(b, 160),
        local_anim_count: read_i32(b, 180),
        local_anim_offset: read_i32(b, 184),
        texture_count: read_i32(b, 204),
        texture_offset: read_i32(b, 208),
        texture_dir_count: read_i32(b, 212),
        texture_dir_offset: read_i32(b, 216),
        body_part_count: read_i32(b, 232),
        body_part_offset: read_i32(b, 236),
        header_2_offset: read_i32(b, 392),
    }
}

pub fn read_header2(b: &Vec<u8>, p: usize) -> (r: Header2)
    requires
        p + HEADER2_SIZE <= b.len(),
    ensures
        r == spec_header2(b@, p as int),
{
    Header2 { name_offset: read_i32(b, p + 20) }
}

/// The flag bitset of the primary header, truncated to the defined bits.
#[derive(Debug, Clone, Copy, PartialEq, Eq, Structural)]
pub struct HeaderFlags {
    pub bits: i32,
}

impl HeaderFlags {
    /// All bits of `mask` are set.
    pub fn contains(&self, mask: i32) -> (r: bool)
        ensures
            r == (self.bits & mask == mask),
    {
        self.bits & mask == mask
    }
}

/// An in-memory model buffer.
#[derive(Debug, Clone)]
pub struct Mdl {
    pub bytes: Vec<u8>,
}

impl Mdl {
    pub open spec fn wf(&self) -> bool {
        buf_wf(self.bytes@)
    }

    /// Wraps a loaded buffer. The length bound is a machine limit: every
    /// position then fits signed 64-bit offset arithmetic.
    pub fn new(bytes: Vec<u8>) -> (r: Mdl)
        requires
            bytes@.len() <= crate::bytes::MAX_BUFFER,
        ensures
            r.bytes == bytes,
            r.wf(),
    {
        proof {
            vstd::std_specs::vec::axiom_spec_len(&bytes);
        }
        Mdl { bytes }
    }

    /// The first four bytes equal the fixed magic `IDST`.
    pub open spec fn spec_signature_ok(b: Seq<u8>) -> bool {
        b.len() >= 4 && b[0] == 0x49u8 && b[1] == 0x44u8 && b[2] == 0x53u8 && b[3] == 0x54u8
    }

    /// Succeeds exactly when the buffer starts with the four-byte magic;
    /// otherwise fails echoing the bytes actually found.
    pub fn check_signature(&self) -> (r: Result<()>)
        ensures
            r is Ok <==> Self::spec_signature_ok(self.bytes@),
            self.bytes@.len() < 4 ==> r == Err::<(), Error>(corrupted_spec("eof reading signature")),
            self.bytes@.len() >= 4 && !Self::spec_signature_ok(self.bytes@) ==> (match r {
                Err(e) => e matches Error::InvalidSignature { ty: FileType::Mdl, signature }
                    && signature@ == self.bytes@.subrange(0, 4),
                Ok(_) => false,
            }),
    {
        let b = &self.bytes;
        if b.len() < 4 {
            return Err(corrupted("eof reading signature"));
        }
        let s0 = read_u8(b, 0);
        let s1 = read_u8(b, 1);
        let s2 = read_u8(b, 2);
        let s3 = read_u8(b, 3);
        if s0 == 0x49 && s1 == 0x44 && s2 == 0x53 && s3 == 0x54 {
            Ok(())
        } else {
            let mut signature: Vec<u8> = Vec::new();
            signature.push(s0);
            signature.push(s1);
            signature.push(s2);
            signature.push(s3);
            proof {
                assert(signature@ =~= self.bytes@.subrange(0, 4));
            }
            Err(Error::InvalidSignature { ty: FileType::Mdl, signature })
        }
    }

    /// The stored format revision.
    pub fn version(&self) -> (r: Result<i32>)
        ensures
            self.bytes@.len() < 8 ==> r == Err::<i32, Error>(corrupted_spec("eof reading version")),
            self.bytes@.len() >= 8 ==> r == Ok::<i32, Error>((sle32(self.bytes@, 4) as i32)),
    {
        let b = &self.bytes;
        if b.len() < 8 {
            return Err(corrupted("eof reading version"));
        }
        Ok(read_i32(b, 4))
    }

    /// A revision the decoder handles.
    pub open spec fn spec_version_supported(v: int) -> bool {
        44 <= v <= 49
    }

    /// Succeeds exactly on the fixed allow-list of known revisions,
    /// otherwise fails carrying the stored revision.
    pub fn check_version(&self) -> (r: Result<i32>)
        ensures
            self.bytes@.len() < 8 ==> r == Err::<i32, Error>(corrupted_spec("eof reading version")),
            self.bytes@.len() >= 8 ==> {
                let v = sle32(self.bytes@, 4);
                if Self::spec_version_supported(v) {
                    r == Ok::<i32, Error>((v as i32))
                } else {
                    r == Err::<i32, Error>(
                        Error::UnsupportedVersion { ty: FileType::Mdl, version: v as i32 },
                    )
                }
            },
    {
        let version = match self.version() {
            Ok(v) => v,
            Err(e) => {
                return Err(e);
            },
        };
        if 44 <= version && version <= 49 {
            Ok(version)
        } else {
            Err(Error::UnsupportedVersion { ty: FileType::Mdl, version })
        }
    }

    /// Resolves the primary header, and the extension header when the
    /// primary header points at one.
    pub fn header(&self) -> (r: Result<HeaderRef>)
        requires
            self.wf(),
        ensures
            ({
                let b = self.bytes@;
                let h2off = sle32(b, 392);
                match r {
                    Ok(h) => {
                        &&& b.len() >= HEADER1_SIZE
                        &&& h.wf()
                        &&& h.h1 == spec_header1(b)
                        &&& h.bytes == &self.bytes
                        &&& (h.h2 is Some <==> h2off > 0)
                    },
                    Err(e) => if b.len() < HEADER1_SIZE {
                        e == corrupted_spec("eof reading header")
                    } else {
                        h2off > 0 && !(h2off + HEADER2_SIZE <= b.len() && aligned(h2off, 4))
                            && e == corrupted_spec("header 2 out of bounds or misaligned")
                    },
                }
            }),
    {
        let b = &self.bytes;
        if b.len() < HEADER1_SIZE {
            return Err(corrupted("eof reading header"));
        }
        let h1 = read_header1(b);
        let h2 = if h1.header_2_offset > 0 {
            if !array_fits(b, h1.header_2_offset as i64, 1, HEADER2_SIZE as u64, 4) {
                return Err(corrupted("header 2 out of bounds or misaligned"));
            }
            Option::Some(read_header2(b, h1.header_2_offset as usize))
        } else {
            Option::None
        };
        Ok(HeaderRef { h1, h2, bytes: b })
    }
}

/// The resolved table-of-contents: both header records plus the buffer they
/// index into.
#[derive(Debug, Clone, Copy)]
pub struct HeaderRef<'a> {
    pub h1: Header1,
    pub h2: Option<Header2>,
    pub bytes: &'a Vec<u8>,
}

impl<'a> HeaderRef<'a> {
    pub open spec fn wf(&self) -> bool {
        &&& buf_wf(self.bytes@)
        &&& self.bytes@.len() >= HEADER1_SIZE
        &&& self.h1 == spec_header1(self.bytes@)
        &&& match self.h2 {
            Option::Some(h2) => {
                &&& self.h1.header_2_offset > 0
                &&& self.h1.header_2_offset + HEADER2_SIZE <= self.bytes@.len()
                &&& aligned(self.h1.header_2_offset as int, 4)
                &&& h2 == spec_header2(self.bytes@, self.h1.header_2_offset as int)
            },
            Option::None => self.h1.header_2_offset <= 0,
        }
    }

    /// The model's checksum, which companion files must match.
    pub fn checksum(&self) -> (r: i32)
        ensures
            r == self.h1.checksum,
    {
        self.h1.checksum
    }

    /// The flag bitset, truncated to the defined bits.
    pub fn flags(&self) -> (r: HeaderFlags)
        ensures
            r.bits == self.h1.flags & HEADER_FLAGS_MASK,
    {
        HeaderFlags { bits: self.h1.flags & HEADER_FLAGS_MASK }
    }

    /// The model's name: the extension header's name when present and
    /// nonzero, else the primary header's fixed 64-byte embedded name.
    pub fn name(&self) -> (r: Result<String>)
        requires
            self.wf(),
        ensures
            ({
                let b = self.bytes@;
                match self.h2 {
                    Option::Some(h2) => if h2.name_offset > 0 {
                        string_result_matches(
                            r,
                            spec_string_result(
                                b,
                                self.h1.header_2_offset + HEADER2_SIZE + h2.name_offset,
                                b.len() as int,
                                "header 2 name offset out of bounds",
                                "eof reading header 2 name",
                                "header 2 name is not valid utf8",
                            ),
                        )
                    } else {
                        string_result_matches(r, spec_embedded_name_result(b))
                    },
                    Option::None => string_result_matches(r, spec_embedded_name_result(b)),
                }
            }),
    {
        if let Option::Some(h2) = self.h2 {
            if h2.name_offset > 0 {
                let pos: i64 = self.h1.header_2_offset as i64 + HEADER2_SIZE as i64
                    + h2.name_offset as i64;
                return read_string_at(
                    self.bytes,
                    pos,
                    "header 2 name offset out of bounds",
                    "eof reading header 2 name",
                    "header 2 name is not valid utf8",
                );
            }
        }
        read_string_range(
            self.bytes,
            12,
            76,
            "header name out of bounds",
            "header name is not nul terminated",
            "header name is not valid utf8",
        )
    }

    /// The bones table: `bone_count` records at the absolute offset
    /// `bone_offset`.
    pub fn iter_bones(&self) -> (r: Result<Vec<BoneRef<'a>>>)
        requires
            self.wf(),
        ensures
            ({
                let b = self.bytes@;
                let pos = self.h1.bone_offset as int;
                let count = self.h1.bone_count as int;
                match r {
                    Ok(bones) => {
                        &&& bones_fit(b, self.h1)
                        &&& bones@.len() == count
                        &&& forall|k: int|
                            0 <= k < count ==> (#[trigger] bones@[k]) == (BoneRef {
                                bone: spec_bone(b, pos + k * BONE_SIZE),
                                offset: (pos + k * BONE_SIZE) as usize,
                                bytes: self.bytes,
                            })
                        &&& forall|k: int| 0 <= k < count ==> (#[trigger] bones@[k]).wf()
                    },
                    Err(e) => {
                        &&& !bones_fit(b, self.h1)
                        &&& if self.h1.bone_offset < 0 {
                            e == corrupted_spec("bone offset is negative")
                        } else if self.h1.bone_count < 0 {
                            e == corrupted_spec("bone count is negative")
                        } else {
                            e == corrupted_spec("bones out of bounds or misaligned")
                        }
                    },
                }
            }),
    {
        let b = self.bytes;
        if self.h1.bone_offset < 0 {
            return Err(corrupted("bone offset is negative"));
        }
        if self.h1.bone_count < 0 {
            return Err(corrupted("bone count is negative"));
        }
        if !array_fits(b, self.h1.bone_offset as i64, self.h1.bone_count as i64, BONE_SIZE as u64, 4)
        {
            return Err(corrupted("bones out of bounds or misaligned"));
        }
        let pos: usize = self.h1.bone_offset as usize;
        let count: usize = self.h1.bone_count as usize;
        let mut out: Vec<BoneRef<'a>> = Vec::new();
        let mut i: usize = 0;
        while i < count
            invariant
                0 <= i <= count,
                out@.len() == i,
                pos + count * BONE_SIZE <= b@.len(),
                buf_wf(b@),
                forall|k: int|
                    0 <= k < i ==> (#[trigger] out@[k]) == (BoneRef {
                        bone: spec_bone(b@, pos + k * BONE_SIZE),
                        offset: (pos + k * BONE_SIZE) as usize,
                        bytes: b,
                    }),
            decreases count - i,
        {
            proof {
                lemma_mul_mono(i as int, i as int + 1, BONE_SIZE as int);
                lemma_mul_mono(i as int + 1, count as int, BONE_SIZE as int);
            }
            let off_i: usize = pos + i * BONE_SIZE;
            let rec = read_bone(b, off_i);
            out.push(BoneRef { bone: rec, offset: off_i, bytes: b });
            i = i + 1;
        }
        proof {
            assert forall|k: int| 0 <= k < count implies (#[trigger] out@[k]).wf() by {
                lemma_mul_mono(0, k, BONE_SIZE as int);
                lemma_mul_mono(k, k + 1, BONE_SIZE as int);
                lemma_mul_mono(k + 1, count as int, BONE_SIZE as int);
            }
        }
        Ok(out)
    }

    /// The texture (material) table: `texture_count` records at the
    /// absolute offset `texture_offset`.
    pub fn iter_textures(&self) -> (r: Result<Vec<TextureRef<'a>>>)
        requires
            self.wf(),
        ensures
            ({
                let b = self.bytes@;
                let pos = self.h1.texture_offset as int;
                let count = self.h1.texture_count as int;
                match r {
                    Ok(textures) => {
                        &&& textures_fit(b, self.h1)
                        &&& textures@.len() == count
                        &&& forall|k: int|
                            0 <= k < count ==> (#[trigger] textures@[k]) == (TextureRef {
                                texture: spec_texture(b, pos + k * TEXTURE_SIZE),
                                offset: (pos + k * TEXTURE_SIZE) as usize,
                                bytes: self.bytes,
                            })
                        &&& forall|k: int| 0 <= k < count ==> (#[trigger] textures@[k]).wf()
                    },
                    Err(e) => {
                        &&& !textures_fit(b, self.h1)
                        &&& if self.h1.texture_offset < 0 {
                            e == corrupted_spec("texture offset is negative")
                        } else if self.h1.texture_count < 0 {
                            e == corrupted_spec("texture count is negative")
                        } else {
                            e == corrupted_spec("textures out of bounds or misaligned")
                        }
                    },
                }
            }),
    {
        let b = self.bytes;
        if self.h1.texture_offset < 0 {
            return Err(corrupted("texture offset is negative"));
        }
        if self.h1.texture_count < 0 {
            return Err(corrupted("texture count is negative"));
        }
        if !array_fits(
            b,
            self.h1.texture_offset as i64,
            self.h1.texture_count as i64,
            TEXTURE_SIZE as u64,
            4,
        ) {
            return Err(corrupted("textures out of bounds or misaligned"));
        }
        let pos: usize = self.h1.texture_offset as usize;
        let count: usize = self.h1.texture_count as usize;
        let mut out: Vec<TextureRef<'a>> = Vec::new();
        let mut i: usize = 0;
        while i < count
            invariant
                0 <= i <= count,
                out@.len() == i,
                pos + count * TEXTURE_SIZE <= b@.len(),
                buf_wf(b@),
                forall|k: int|
                    0 <= k < i ==> (#[trigger] out@[k]) == (TextureRef {
                        texture: spec_texture(b@, pos + k * TEXTURE_SIZE),
                        offset: (pos + k * TEXTURE_SIZE) as usize,
                        bytes: b,
                    }),
            decreases count - i,
        {
            proof {
                lemma_mul_mono(i as int, i as int + 1, TEXTURE_SIZE as int);
                lemma_mul_mono(i as int + 1, count as int, TEXTURE_SIZE as int);
            }
            let off_i: usize = pos + i * TEXTURE_SIZE;
            let rec = read_texture(b, off_i);
            out.push(TextureRef { texture: rec, offset: off_i, bytes: b });
            i = i + 1;
        }
        proof {
            assert forall|k: int| 0 <= k < count implies (#[trigger] out@[k]).wf() by {
                lemma_mul_mono(0, k, TEXTURE_SIZE as int);
                lemma_mul_mono(k, k + 1, TEXTURE_SIZE as int);
                lemma_mul_mono(k + 1, count as int, TEXTURE_SIZE as int);
            }
        }
        Ok(out)
    }

    /// The material search-directory list, in stored order; an entry whose
    /// offset is zero is the empty string, meaning "no prefix".
    pub fn texture_paths(&self) -> (r: Result<Vec<String>>)
        requires
            self.wf(),
        ensures
            ({
                let b = self.bytes@;
                let pos = self.h1.texture_dir_offset as int;
                let count = self.h1.texture_dir_count as int;
                match r {
                    Ok(paths) => {
                        &&& texture_dirs_fit(b, self.h1)
                        &&& paths@.len() == count
                        &&& forall|k: int|
                            0 <= k < count ==> spec_texture_path(b, pos, k) == Ok::<
                                Seq<char>,
                                Error,
                            >((#[trigger] paths@[k])@)
                    },
                    Err(e) => if self.h1.texture_dir_offset < 0 {
                        e == corrupted_spec("texture paths offset is negative")
                    } else if self.h1.texture_dir_count < 0 {
                        e == corrupted_spec("texture paths count is negative")
                    } else if !texture_dirs_fit(b, self.h1) {
                        e == corrupted_spec("texture paths out of bounds or misaligned")
                    } else {
                        exists|k: int|
                            0 <= k < count && spec_texture_path(b, pos, k) == Err::<Seq<char>, Error>(e)
                                && (forall|j: int| 0 <= j < k ==> spec_texture_path(b, pos, j) is Ok)
                    },
                }
            }),
    {
        let b = self.bytes;
        if self.h1.texture_dir_offset < 0 {
            return Err(corrupted("texture paths offset is negative"));
        }
        if self.h1.texture_dir_count < 0 {
            return Err(corrupted("texture paths count is negative"));
        }
        if !array_fits(
            b,
            self.h1.texture_dir_offset as i64,
            self.h1.texture_dir_count as i64,
            4,
            4,
        ) {
            return Err(corrupted("texture paths out of bounds or misaligned"));
        }
        let pos: usize = self.h1.texture_dir_offset as usize;
        let count: usize = self.h1.texture_dir_count as usize;
        let mut out: Vec<String> = Vec::new();
        let mut i: usize = 0;
        while i < count
            invariant
                0 <= i <= count,
                out@.len() == i,
                b == self.bytes,
                pos == self.h1.texture_dir_offset,
                count == self.h1.texture_dir_count,
                texture_dirs_fit(b@, self.h1),
                pos + count * 4 <= b@.len(),
                buf_wf(b@),
                forall|k: int|
                    0 <= k < i ==> (#[trigger] spec_texture_path(b@, pos as int, k)) == Ok::<
                        Seq<char>,
                        Error,
                    >(out@[k]@),
            decreases count - i,
        {
            proof {
                lemma_mul_mono(i as int + 1, count as int, 4);
            }
            match read_texture_path(b, pos, i) {
                Ok(s) => {
                    out.push(s);
                },
                Err(e) => {
                    proof {
                        assert(0 <= i < count && spec_texture_path(
                            self.bytes@,
                            self.h1.texture_dir_offset as int,
                            i as int,
                        ) == Err::<Seq<char>, Error>(e) && (forall|j: int|
                            0 <= j < i ==> (#[trigger] spec_texture_path(
                                self.bytes@,
                                self.h1.texture_dir_offset as int,
                                j,
                            )) is Ok));
                    }
                    return Err(e);
                },
            }
            i = i + 1;
        }
        Ok(out)
    }

    /// The body-part table: `body_part_count` records at the absolute
    /// offset `body_part_offset`.
    pub fn iter_body_parts(&self) -> (r: Result<Vec<BodyPartRef<'a>>>)
        requires
            self.wf(),
        ensures
            ({
                let b = self.bytes@;
                let pos = self.h1.body_part_offset as int;
                let count = self.h1.body_part_count as int;
                match r {
                    Ok(parts) => {
                        &&& body_parts_fit(b, self.h1)
                        &&& parts@.len() == count
                        &&& forall|k: int|
                            0 <= k < count ==> (#[trigger] parts@[k]) == (BodyPartRef {
                                body_part: spec_body_part(b, pos + k * BODY_PART_SIZE),
                                offset: (pos + k * BODY_PART_SIZE) as usize,
                                bytes: self.bytes,
                            })
                        &&& forall|k: int| 0 <= k < count ==> (#[trigger] parts@[k]).wf()
                    },
                    Err(e) => {
                        &&& !body_parts_fit(b, self.h1)
                        &&& if self.h1.body_part_offset < 0 {
                            e == corrupted_spec("body part offset is negative")
                        } else if self.h1.body_part_count < 0 {
                            e == corrupted_spec("body part count is negative")
                        } else {
                            e == corrupted_spec("body parts out of bounds or misaligned")
                        }
                    },
                }
            }),
    {
        let b = self.bytes;
        if self.h1.body_part_offset < 0 {
            return Err(corrupted("body part offset is negative"));
        }
        if self.h1.body_part_count < 0 {
            return Err(corrupted("body part count is negative"));
        }
        if !array_fits(
            b,
            self.h1.body_part_offset as i64,
            self.h1.body_part_count as i64,
            BODY_PART_SIZE as u64,
            4,
        ) {
            return Err(corrupted("body parts out of bounds or misaligned"));
        }
        let pos: usize = self.h1.body_part_offset as usize;
        let count: usize = self.h1.body_part_count as usize;
        let mut out: Vec<BodyPartRef<'a>> = Vec::new();
        let mut i: usize = 0;
        while i < count
            invariant
                0 <= i <= count,
                out@.len() == i,
                pos + count * BODY_PART_SIZE <= b@.len(),
                buf_wf(b@),
                forall|k: int|
                    0 <= k < i ==> (#[trigger] out@[k]) == (BodyPartRef {
                        body_part: spec_body_part(b@, pos + k * BODY_PART_SIZE),
                        offset: (pos + k * BODY_PART_SIZE) as usize,
                        bytes: b,
                    }),
            decreases count - i,
        {
            proof {
                lemma_mul_mono(i as int, i as int + 1, BODY_PART_SIZE as int);
                lemma_mul_mono(i as int + 1, count as int, BODY_PART_SIZE as int);
            }
            let off_i: usize = pos + i * BODY_PART_SIZE;
            let rec = read_body_part(b, off_i);
            out.push(BodyPartRef { body_part: rec, offset: off_i, bytes: b });
            i = i + 1;
        }
        proof {
            assert forall|k: int| 0 <= k < count implies (#[trigger] out@[k]).wf() by {
                lemma_mul_mono(0, k, BODY_PART_SIZE as int);
                lemma_mul_mono(k, k + 1, BODY_PART_SIZE as int);
                lemma_mul_mono(k + 1, count as int, BODY_PART_SIZE as int);
            }
        }
        Ok(out)
    }
}

/// Reads the `i`-th texture search-directory entry.
fn read_texture_path(b: &Vec<u8>, pos: usize, i: usize) -> (r: Result<String>)
    requires
        buf_wf(b@),
        pos + i * 4 + 4 <= b@.len(),
    ensures
        match r {
            Ok(s) => spec_texture_path(b@, pos as int, i as int) == Ok::<Seq<char>, Error>(s@),
            Err(e) => spec_texture_path(b@, pos as int, i as int) == Err::<Seq<char>, Error>(e),
        },
{
    let path_offset = read_i32(b, pos + i * 4);
    if path_offset < 0 {
        return Err(corrupted("a texture path offset is negative"));
    }
    if path_offset == 0 {
        return Ok(String::new());
    }
    read_string_at(
        b,
        path_offset as i64,
        "a texture path is out of bounds",
        "eof reading a texture path",
        "a texture path is not valid utf8",
    )
}

/// The bones table resolves: nonnegative offset and count, in bounds,
/// 4-byte aligned.
pub open spec fn bones_fit(b: Seq<u8>, h1: Header1) -> bool {
    &&& h1.bone_offset >= 0
    &&& h1.bone_count >= 0
    &&& range_ok(b.len() as int, h1.bone_offset as int, h1.bone_count * BONE_SIZE)
    &&& aligned(h1.bone_offset as int, 4)
}

/// The texture table resolves.
pub open spec fn textures_fit(b: Seq<u8>, h1: Header1) -> bool {
    &&& h1.texture_offset >= 0
    &&& h1.texture_count >= 0
    &&& range_ok(b.len() as int, h1.texture_offset as int, h1.texture_count * TEXTURE_SIZE)
    &&& aligned(h1.texture_offset as int, 4)
}

/// The texture search-directory offset table resolves.
pub open spec fn texture_dirs_fit(b: Seq<u8>, h1: Header1) -> bool {
    &&& h1.texture_dir_offset >= 0
    &&& h1.texture_dir_count >= 0
    &&& range_ok(b.len() as int, h1.texture_dir_offset as int, h1.texture_dir_count * 4)
    &&& aligned(h1.texture_dir_offset as int, 4)
}

/// The body-part table resolves.
pub open spec fn body_parts_fit(b: Seq<u8>, h1: Header1) -> bool {
    &&& h1.body_part_offset >= 0
    &&& h1.body_part_count >= 0
    &&& range_ok(b.len() as int, h1.body_part_offset as int, h1.body_part_count * BODY_PART_SIZE)
    &&& aligned(h1.body_part_offset as int, 4)
}

/// What decoding the `k`-th texture search directory yields: the empty
/// string for a zero offset, the NUL-terminated text at the offset
/// otherwise, or the corruption error describing the violation.
pub open spec fn spec_texture_path(b: Seq<u8>, pos: int, k: int) -> core::result::Result<
    Seq<char>,
    Error,
> {
    let o = sle32(b, pos + 4 * k);
    if o < 0 {
        Err(corrupted_spec("a texture path offset is negative"))
    } else if o == 0 {
        Ok(Seq::empty())
    } else {
        spec_string_result(
            b,
            o,
            b.len() as int,
            "a texture path is out of bounds",
            "eof reading a texture path",
            "a texture path is not valid utf8",
        )
    }
}

/// What decoding the primary header's fixed 64-byte embedded name yields.
pub open spec fn spec_embedded_name_result(b: Seq<u8>) -> core::result::Result<Seq<char>, Error> {
    spec_string_result(
        b,
        12,
        76,
        "header name out of bounds",
        "header name is not nul terminated",
        "header name is not valid utf8",
    )
}


} // verus!
