//! Entity views: bones, materials (textures), body parts, models and meshes.
//!
//! Each view carries the absolute byte position its record was resolved
//! from; every offset field inside a record is relative to that position,
//! never to the file start. Floating-point fields of the on-disk records are
//! carried as raw IEEE-754 single-precision bit patterns, which the numeric
//! consumer interprets.

use vstd::prelude::*;

use crate::bytes::aligned;
use crate::bytes::buf_wf;
use crate::bytes::array_fits;
use crate::bytes::le32;
use crate::bytes::lemma_mul_mono;
use crate::bytes::range_ok;
use crate::bytes::read_i32;
use crate::bytes::read_string_at;
use crate::bytes::read_string_range;
use crate::bytes::read_u32;
use crate::bytes::sle32;
use crate::bytes::spec_string_result;
use crate::bytes::string_result_matches;
use crate::error::Error;
use crate::error::Result;
use crate::error::corrupted;

verus! {

/// Size in bytes of an on-disk bone record.
pub const BONE_SIZE: usize = 216;

/// Size in bytes of an on-disk texture record.
pub const TEXTURE_SIZE: usize = 64;

/// Size in bytes of an on-disk body-part record.
pub const BODY_PART_SIZE: usize = 16;

/// Size in bytes of an on-disk model record.
pub const MODEL_SIZE: usize = 148;

/// Size in bytes of an on-disk mesh record.
pub const MESH_SIZE: usize = 116;

/// Raw bit patterns of three single-precision floats.
#[derive(Debug, Clone, Copy, PartialEq, Eq, Structural)]
pub struct RawVec3 {
    pub x: u32,
    pub y: u32,
    pub z: u32,
}

/// Raw bit patterns of a four-component single-precision quaternion.
#[derive(Debug, Clone, Copy, PartialEq, Eq, Structural)]
pub struct RawQuat {
    pub x: u32,
    pub y: u32,
    pub z: u32,
    pub w: u32,
}

pub open spec fn spec_raw_vec3(b: Seq<u8>, p: int) -> RawVec3 {
    RawVec3 { x: le32(b, p) as u32, y: le32(b, p + 4) as u32, z: le32(b, p + 8) as u32 }
}

pub open spec fn spec_raw_quat(b: Seq<u8>, p: int) -> RawQuat {
    RawQuat {
        x: le32(b, p) as u32,
        y: le32(b, p + 4) as u32,
        z: le32(b, p + 8) as u32,
        w: le32(b, p + 12) as u32,
    }
}

pub fn read_raw_vec3(b: &Vec<u8>, p: usize) -> (r: RawVec3)
    requires
        p + 12 <= b.len(),
    ensures
        r == spec_raw_vec3(b@, p as int),
{
    RawVec3 { x: read_u32(b, p), y: read_u32(b, p + 4), z: read_u32(b, p + 8) }
}

pub fn read_raw_quat(b: &Vec<u8>, p: usize) -> (r: RawQuat)
    requires
        p + 16 <= b.len(),
    ensures
        r == spec_raw_quat(b@, p as int),
{
    RawQuat {
        x: read_u32(b, p),
        y: read_u32(b, p + 4),
        z: read_u32(b, p + 8),
        w: read_u32(b, p + 12),
    }
}

/// The fields of an on-disk bone record that the decoder reads. The
/// per-axis scale fields dequantize animation deltas; the rest-pose fields
/// are the offsets added to dequantized deltas.
#[derive(Debug, Clone, Copy, PartialEq, Eq, Structural)]
pub struct BoneRec {
    pub name_offset: i32,
    pub parent_bone_index: i32,
    pub position: RawVec3,
    pub quat: RawQuat,
    pub rotation: RawVec3,
    pub position_scale: RawVec3,
    pub rotation_scale: RawVec3,
    pub flags: i32,
    pub surface_prop_name_offset: i32,
}

pub open spec fn spec_bone(b: Seq<u8>, p: int) -> BoneRec {
    BoneRec {
        name_offset: sle32(b, p) as i32,
        parent_bone_index: sle32(b, p + 4) as i32,
        position: spec_raw_vec3(b, p + 32),
        quat: spec_raw_quat(b, p + 44),
        rotation: spec_raw_vec3(b, p + 60),
        position_scale: spec_raw_vec3(b, p + 72),
        rotation_scale: spec_raw_vec3(b, p + 84),
        flags: sle32(b, p + 160) as i32,
        surface_prop_name_offset: sle32(b, p + 176) as i32,
    }
}

pub fn read_bone(b: &Vec<u8>, p: usize) -> (r: BoneRec)
    requires
        p + BONE_SIZE <= b.len(),
    ensures
        r == spec_bone(b@, p as int),
{
    BoneRec {
        name_offset: read_i32(b, p),
        parent_bone_index: read_i32(b, p + 4),
        position: read_raw_vec3(b, p + 32),
        quat: read_raw_quat(b, p + 44),
        rotation: read_raw_vec3(b, p + 60),
        position_scale: read_raw_vec3(b, p + 72),
        rotation_scale: read_raw_vec3(b, p + 84),
        flags: read_i32(b, p + 160),
        surface_prop_name_offset: read_i32(b, p + 176),
    }
}

/// A bone resolved at its absolute position in the buffer.
#[derive(Debug, Clone, Copy)]
pub struct BoneRef<'a> {
    pub bone: BoneRec,
    pub offset: usize,
    pub bytes: &'a Vec<u8>,
}

impl<'a> BoneRef<'a> {
    pub open spec fn wf(&self) -> bool {
        buf_wf(self.bytes@) && self.offset + BONE_SIZE <= self.bytes@.len()
            && self.bone == spec_bone(self.bytes@, self.offset as int)
    }

    /// The bone's name, resolved relative to the bone record's position.
    pub fn name(&self) -> (r: Result<String>)
        requires
            self.wf(),
        ensures
            string_result_matches(
                r,
                spec_string_result(
                    self.bytes@,
                    self.offset + self.bone.name_offset,
                    self.bytes@.len() as int,
                    "bone name out of bounds",
                    "eof reading bone name",
                    "bone name is not valid utf8",
                ),
            ),
    {
        read_string_at(
            self.bytes,
            self.offset as i64 + self.bone.name_offset as i64,
            "bone name out of bounds",
            "eof reading bone name",
            "bone name is not valid utf8",
        )
    }

    /// The bone's optional surface-material name; an offset of zero means
    /// none is stored.
    pub fn surface_prop(&self) -> (r: Result<Option<String>>)
        requires
            self.wf(),
        ensures
            self.bone.surface_prop_name_offset == 0 ==> r == Ok::<Option<String>, Error>(
                Option::None,
            ),
            self.bone.surface_prop_name_offset != 0 ==> match (
                r,
                spec_string_result(
                    self.bytes@,
                    self.offset + self.bone.surface_prop_name_offset,
                    self.bytes@.len() as int,
                    "bone surface prop out of bounds",
                    "eof reading bone surface prop",
                    "bone surface prop is not valid utf8",
                ),
            ) {
                (Ok(o), Ok(cs)) => o is Some && o.unwrap()@ == cs,
                (Err(e), Err(e2)) => e == e2,
                _ => false,
            },
    {
        if self.bone.surface_prop_name_offset == 0 {
            return Ok(Option::None);
        }
        match read_string_at(
            self.bytes,
            self.offset as i64 + self.bone.surface_prop_name_offset as i64,
            "bone surface prop out of bounds",
            "eof reading bone surface prop",
            "bone surface prop is not valid utf8",
        ) {
            Ok(s) => Ok(Option::Some(s)),
            Err(e) => Err(e),
        }
    }
}

/// The fields of an on-disk texture record that the decoder reads.
#[derive(Debug, Clone, Copy, PartialEq, Eq, Structural)]
pub struct TextureRec {
    pub name_offset: i32,
    pub flags: i32,
}

pub open spec fn spec_texture(b: Seq<u8>, p: int) -> TextureRec {
    TextureRec { name_offset: sle32(b, p) as i32, flags: sle32(b, p + 4) as i32 }
}

pub fn read_texture(b: &Vec<u8>, p: usize) -> (r: TextureRec)
    requires
        p + TEXTURE_SIZE <= b.len(),
    ensures
        r == spec_texture(b@, p as int),
{
    TextureRec { name_offset: read_i32(b, p), flags: read_i32(b, p + 4) }
}

/// A texture (material) entry resolved at its absolute position.
#[derive(Debug, Clone, Copy)]
pub struct TextureRef<'a> {
    pub texture: TextureRec,
    pub offset: usize,
    pub bytes: &'a Vec<u8>,
}

impl<'a> TextureRef<'a> {
    pub open spec fn wf(&self) -> bool {
        buf_wf(self.bytes@) && self.offset + TEXTURE_SIZE <= self.bytes@.len()
            && self.texture == spec_texture(self.bytes@, self.offset as int)
    }

    /// The material's name, resolved relative to the texture record's
    /// position.
    pub fn name(&self) -> (r: Result<String>)
        requires
            self.wf(),
        ensures
            string_result_matches(
                r,
                spec_string_result(
                    self.bytes@,
                    self.offset + self.texture.name_offset,
                    self.bytes@.len() as int,
                    "texture name out of bounds",
                    "eof reading texture name",
                    "texture name is not valid utf8",
                ),
            ),
    {
        read_string_at(
            self.bytes,
            self.offset as i64 + self.texture.name_offset as i64,
            "texture name out of bounds",
            "eof reading texture name",
            "texture name is not valid utf8",
        )
    }
}

/// The fields of an on-disk body-part record.
#[derive(Debug, Clone, Copy, PartialEq, Eq, Structural)]
pub struct BodyPartRec {
    pub name_offset: i32,
    pub model_count: i32,
    pub base: i32,
    pub model_offset: i32,
}

pub open spec fn spec_body_part(b: Seq<u8>, p: int) -> BodyPartRec {
    BodyPartRec {
        name_offset: sle32(b, p) as i32,
        model_count: sle32(b, p + 4) as i32,
        base: sle32(b, p + 8) as i32,
        model_offset: sle32(b, p + 12) as i32,
    }
}

pub fn read_body_part(b: &Vec<u8>, p: usize) -> (r: BodyPartRec)
    requires
        p + BODY_PART_SIZE <= b.len(),
    ensures
        r == spec_body_part(b@, p as int),
{
    BodyPartRec {
        name_offset: read_i32(b, p),
        model_count: read_i32(b, p + 4),
        base: read_i32(b, p + 8),
        model_offset: read_i32(b, p + 12),
    }
}

/// The fields of an on-disk model record that the decoder reads; the vertex
/// offset and count slice the companion vertex buffer.
#[derive(Debug, Clone, Copy, PartialEq, Eq, Structural)]
pub struct ModelRec {
    pub mesh_count: i32,
    pub mesh_offset: i32,
    pub vertex_count: i32,
    pub vertex_offset: i32,
}

pub open spec fn spec_model(b: Seq<u8>, p: int) -> ModelRec {
    ModelRec {
        mesh_count: sle32(b, p + 72) as i32,
        mesh_offset: sle32(b, p + 76) as i32,
        vertex_count: sle32(b, p + 80) as i32,
        vertex_offset: sle32(b, p + 84) as i32,
    }
}

pub fn read_model(b: &Vec<u8>, p: usize) -> (r: ModelRec)
    requires
        p + MODEL_SIZE <= b.len(),
    ensures
        r == spec_model(b@, p as int),
{
    ModelRec {
        mesh_count: read_i32(b, p + 72),
        mesh_offset: read_i32(b, p + 76),
        vertex_count: read_i32(b, p + 80),
        vertex_offset: read_i32(b, p + 84),
    }
}

/// The fields of an on-disk mesh record that the decoder reads.
#[derive(Debug, Clone, PartialEq)]
pub struct MeshRec {
    pub material_index: i32,
    pub vertex_count: i32,
    pub vertex_index_start: i32,
    pub lod_vertex_counts: Vec<i32>,
}

/// `m` holds exactly the mesh record stored at `p`, including the eight
/// per-level-of-detail vertex counts.
pub open spec fn mesh_matches(m: MeshRec, b: Seq<u8>, p: int) -> bool {
    &&& m.material_index == sle32(b, p)
    &&& m.vertex_count == sle32(b, p + 8)
    &&& m.vertex_index_start == sle32(b, p + 12)
    &&& m.lod_vertex_counts@.len() == 8
    &&& forall|t: int| 0 <= t < 8 ==> m.lod_vertex_counts@[t] == sle32(b, p + 52 + 4 * t)
}

pub fn read_mesh(b: &Vec<u8>, p: usize) -> (r: MeshRec)
    requires
        p + MESH_SIZE <= b.len(),
    ensures
        mesh_matches(r, b@, p as int),
{
    let mut lods: Vec<i32> = Vec::new();
    let mut t: usize = 0;
    while t < 8
        invariant
            t <= 8,
            p + MESH_SIZE <= b.len(),
            lods@.len() == t,
            forall|k: int| 0 <= k < t ==> lods@[k] == sle32(b@, p + 52 + 4 * k),
        decreases 8 - t,
    {
        lods.push(read_i32(b, p + 52 + 4 * t));
        t = t + 1;
    }
    MeshRec {
        material_index: read_i32(b, p),
        vertex_count: read_i32(b, p + 8),
        vertex_index_start: read_i32(b, p + 12),
        lod_vertex_counts: lods,
    }
}

/// A body part resolved at its absolute position.
#[derive(Debug, Clone, Copy)]
pub struct BodyPartRef<'a> {
    pub body_part: BodyPartRec,
    pub offset: usize,
    pub bytes: &'a Vec<u8>,
}

/// A model resolved at its absolute position.
#[derive(Debug, Clone, Copy)]
pub struct ModelRef<'a> {
    pub model: ModelRec,
    pub offset: usize,
    pub bytes: &'a Vec<u8>,
}

impl<'a> BodyPartRef<'a> {
    pub open spec fn wf(&self) -> bool {
        buf_wf(self.bytes@) && self.offset + BODY_PART_SIZE <= self.bytes@.len()
            && self.body_part == spec_body_part(self.bytes@, self.offset as int)
    }

    /// The body part's name, resolved relative to its record's position.
    pub fn name(&self) -> (r: Result<String>)
        requires
            self.wf(),
        ensures
            string_result_matches(
                r,
                spec_string_result(
                    self.bytes@,
                    self.offset + self.body_part.name_offset,
                    self.bytes@.len() as int,
                    "body part name offset out of bounds",
                    "eof reading body part name",
                    "body part name is not valid utf8",
                ),
            ),
    {
        read_string_at(
            self.bytes,
            self.offset as i64 + self.body_part.name_offset as i64,
            "body part name offset out of bounds",
            "eof reading body part name",
            "body part name is not valid utf8",
        )
    }

    /// The models of this body part, found `model_offset` bytes after the
    /// body-part record.
    pub fn iter_models(&self) -> (r: Result<Vec<ModelRef<'a>>>)
        requires
            self.wf(),
        ensures
            ({
                let pos = self.offset + self.body_part.model_offset;
                let count = self.body_part.model_count as int;
                match r {
                    Ok(models) => {
                        &&& count >= 0
                        &&& 0 <= pos
                        &&& range_ok(self.bytes@.len() as int, pos, count * MODEL_SIZE)
                        &&& aligned(pos, 4)
                        &&& models@.len() == count
                        &&& forall|k: int|
                            0 <= k < count ==> (#[trigger] models@[k]) == (ModelRef {
                                model: spec_model(self.bytes@, pos + k * MODEL_SIZE),
                                offset: (pos + k * MODEL_SIZE) as usize,
                                bytes: self.bytes,
                            })
                        &&& forall|k: int| 0 <= k < count ==> (#[trigger] models@[k]).wf()
                    },
                    Err(e) => {
                        &&& if count < 0 {
                            e == corrupted_spec("body part models count is negative")
                        } else {
                            e == corrupted_spec("body part models out of bounds or misaligned")
                        }
                        &&& (count < 0 || !(0 <= pos && range_ok(
                            self.bytes@.len() as int,
                            pos,
                            count * MODEL_SIZE,
                        ) && aligned(pos, 4)))
                    },
                }
            }),
    {
        let b = self.bytes;
        if self.body_part.model_count < 0 {
            return Err(corrupted("body part models count is negative"));
        }
        let pos_i: i64 = self.offset as i64 + self.body_part.model_offset as i64;
        let count_i: i64 = self.body_part.model_count as i64;
        if !array_fits(b, pos_i, count_i, MODEL_SIZE as u64, 4) {
            return Err(corrupted("body part models out of bounds or misaligned"));
        }
        let pos: usize = pos_i as usize;
        let count: usize = self.body_part.model_count as usize;
        let mut out: Vec<ModelRef<'a>> = Vec::new();
        let mut i: usize = 0;
        while i < count
            invariant
                0 <= i <= count,
                out@.len() == i,
                pos + count * MODEL_SIZE <= b@.len(),
                buf_wf(b@),
                forall|k: int|
                    0 <= k < i ==> (#[trigger] out@[k]) == (ModelRef {
                        model: spec_model(b@, pos + k * MODEL_SIZE),
                        offset: (pos + k * MODEL_SIZE) as usize,
                        bytes: b,
                    }),
            decreases count - i,
        {
            proof {
                lemma_mul_mono(i as int, i as int + 1, MODEL_SIZE as int);
                lemma_mul_mono(i as int + 1, count as int, MODEL_SIZE as int);
            }
            let off_i: usize = pos + i * MODEL_SIZE;
            let m = read_model(b, off_i);
            out.push(ModelRef { model: m, offset: off_i, bytes: b });
            i = i + 1;
        }
        proof {
            assert forall|k: int| 0 <= k < count implies (#[trigger] out@[k]).wf() by {
                lemma_mul_mono(0, k, MODEL_SIZE as int);
                lemma_mul_mono(k, k + 1, MODEL_SIZE as int);
                lemma_mul_mono(k + 1, count as int, MODEL_SIZE as int);
            }
        }
        Ok(out)
    }
}

impl<'a> ModelRef<'a> {
    pub open spec fn wf(&self) -> bool {
        buf_wf(self.bytes@) && self.offset + MODEL_SIZE <= self.bytes@.len()
            && self.model == spec_model(self.bytes@, self.offset as int)
    }

    /// The model's name, stored as a NUL-terminated prefix of the 64-byte
    /// field at the start of the record.
    pub fn name(&self) -> (r: Result<String>)
        requires
            self.wf(),
        ensures
            string_result_matches(
                r,
                spec_string_result(
                    self.bytes@,
                    self.offset as int,
                    self.offset + 64,
                    "model name out of bounds",
                    "model name is not nul terminated",
                    "model name is not valid utf8",
                ),
            ),
    {
        read_string_range(
            self.bytes,
            self.offset as i64,
            self.offset + 64,
            "model name out of bounds",
            "model name is not nul terminated",
            "model name is not valid utf8",
        )
    }

    /// The meshes of this model, found `mesh_offset` bytes after the model
    /// record.
    pub fn iter_meshes(&self) -> (r: Result<Vec<MeshRec>>)
        requires
            self.wf(),
        ensures
            ({
                let pos = self.offset + self.model.mesh_offset;
                let count = self.model.mesh_count as int;
                match r {
                    Ok(meshes) => {
                        &&& count >= 0
                        &&& 0 <= pos
                        &&& range_ok(self.bytes@.len() as int, pos, count * MESH_SIZE)
                        &&& aligned(pos, 4)
                        &&& meshes@.len() == count
                        &&& forall|k: int|
                            0 <= k < count ==> mesh_matches(
                                #[trigger] meshes@[k],
                                self.bytes@,
                                pos + k * MESH_SIZE,
                            )
                    },
                    Err(e) => {
                        &&& if count < 0 {
                            e == corrupted_spec("model meshes count is negative")
                        } else {
                            e == corrupted_spec("model meshes out of bounds or misaligned")
                        }
                        &&& (count < 0 || !(0 <= pos && range_ok(
                            self.bytes@.len() as int,
                            pos,
                            count * MESH_SIZE,
                        ) && aligned(pos, 4)))
                    },
                }
            }),
    {
        let b = self.bytes;
        if self.model.mesh_count < 0 {
            return Err(corrupted("model meshes count is negative"));
        }
        let pos_i: i64 = self.offset as i64 + self.model.mesh_offset as i64;
        let count_i: i64 = self.model.mesh_count as i64;
        if !array_fits(b, pos_i, count_i, MESH_SIZE as u64, 4) {
            return Err(corrupted("model meshes out of bounds or misaligned"));
        }
        let pos: usize = pos_i as usize;
        let count: usize = self.model.mesh_count as usize;
        let mut out: Vec<MeshRec> = Vec::new();
        let mut i: usize = 0;
        while i < count
            invariant
                0 <= i <= count,
                out@.len() == i,
                pos + count * MESH_SIZE <= b@.len(),
                buf_wf(b@),
                forall|k: int|
                    0 <= k < i ==> mesh_matches(#[trigger] out@[k], b@, pos + k * MESH_SIZE),
            decreases count - i,
        {
            proof {
                lemma_mul_mono(i as int, i as int + 1, MESH_SIZE as int);
                lemma_mul_mono(i as int + 1, count as int, MESH_SIZE as int);
            }
            let off_i: usize = pos + i * MESH_SIZE;
            let m = read_mesh(b, off_i);
            out.push(m);
            i = i + 1;
        }
        Ok(out)
    }
}

/// The spec-level value of a model-format corruption error.
pub open spec fn corrupted_spec(error: &'static str) -> Error {
    Error::Corrupted { ty: crate::error::FileType::Mdl, error }
}

} // verus!
