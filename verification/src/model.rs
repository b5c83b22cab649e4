//! The cross-format model: the decoded buffer plus the checksums that the
//! companion vertex-data and optimized-mesh collaborators report. Those
//! formats are external; only their interface — checksum agreement — is
//! checked here.

use vstd::prelude::*;
use vstd::string::StringExecFns;

use crate::bytes::buf_wf;
use crate::bytes::sle32;
use crate::bytes::spec_string_result;
use crate::bytes::string_result_matches;
use crate::entities::corrupted_spec;
use crate::error::Error;
use crate::error::FileType;
use crate::error::Result;
use crate::mdl::FLAG_STATIC_PROP;
use crate::mdl::HEADER1_SIZE;
use crate::mdl::HEADER2_SIZE;
use crate::mdl::HEADER_FLAGS_MASK;
use crate::mdl::HeaderRef;
use crate::mdl::Mdl;
use crate::mdl::spec_header1;
use crate::mdl::spec_texture_path;

verus! {

/// A model buffer together with the checksums its companion files report.
#[derive(Debug)]
pub struct Model {
    pub mdl: Mdl,
    pub vvd_checksum: i32,
    pub vtx_checksum: i32,
}

/// A model whose signature, version and cross-format checksums have been
/// checked.
#[derive(Debug, Clone, Copy)]
pub struct Verified<'a> {
    pub header: HeaderRef<'a>,
}

impl Model {
    pub open spec fn wf(&self) -> bool {
        self.mdl.wf()
    }

    /// Pairs a model buffer with its collaborators' checksums.
    pub fn new(mdl: Mdl, vvd_checksum: i32, vtx_checksum: i32) -> (r: Model)
        ensures
            r.mdl == mdl,
            r.vvd_checksum == vvd_checksum,
            r.vtx_checksum == vtx_checksum,
    {
        Model { mdl, vvd_checksum, vtx_checksum }
    }

    /// Checks the signature, the version allow-list, the header layout, and
    /// that both companion checksums equal the model's checksum, in that
    /// order; succeeds exactly when all of them hold.
    pub fn verify(&self) -> (r: Result<Verified<'_>>)
        requires
            self.wf(),
        ensures
            ({
                let b = self.mdl.bytes@;
                let h2off = sle32(b, 392);
                match r {
                    Ok(v) => {
                        &&& Mdl::spec_signature_ok(b)
                        &&& b.len() >= 8 && Mdl::spec_version_supported(sle32(b, 4))
                        &&& b.len() >= HEADER1_SIZE
                        &&& v.header.wf()
                        &&& v.header.h1 == spec_header1(b)
                        &&& v.header.bytes == &self.mdl.bytes
                        &&& self.vvd_checksum == spec_header1(b).checksum
                        &&& self.vtx_checksum == spec_header1(b).checksum
                    },
                    Err(e) => if b.len() < 4 {
                        e == corrupted_spec("eof reading signature")
                    } else if !Mdl::spec_signature_ok(b) {
                        e matches Error::InvalidSignature { ty: FileType::Mdl, signature }
                            && signature@ == b.subrange(0, 4)
                    } else if b.len() < 8 {
                        e == corrupted_spec("eof reading version")
                    } else if !Mdl::spec_version_supported(sle32(b, 4)) {
                        e == (Error::UnsupportedVersion {
                            ty: FileType::Mdl,
                            version: sle32(b, 4) as i32,
                        })
                    } else if b.len() < HEADER1_SIZE {
                        e == corrupted_spec("eof reading header")
                    } else if h2off > 0 && !(h2off + HEADER2_SIZE <= b.len()
                        && crate::bytes::aligned(h2off, 4)) {
                        e == corrupted_spec("header 2 out of bounds or misaligned")
                    } else if self.vvd_checksum != spec_header1(b).checksum {
                        e == Error::ChecksumMismatch(FileType::Vvd)
                    } else {
                        self.vtx_checksum != spec_header1(b).checksum && e
                            == Error::ChecksumMismatch(FileType::Vtx)
                    },
                }
            }),
    {
        match self.mdl.check_signature() {
            Ok(_) => (),
            Err(e) => {
                return Err(e);
            },
        }
        match self.mdl.check_version() {
            Ok(_) => (),
            Err(e) => {
                return Err(e);
            },
        }
        let header = match self.mdl.header() {
            Ok(h) => h,
            Err(e) => {
                return Err(e);
            },
        };
        if self.vvd_checksum != header.checksum() {
            return Err(Error::ChecksumMismatch(FileType::Vvd));
        }
        if self.vtx_checksum != header.checksum() {
            return Err(Error::ChecksumMismatch(FileType::Vtx));
        }
        Ok(Verified { header })
    }
}

/// The candidate material file path for one texture name under one search
/// directory: `materials/<dir>/<name>.vmt`, with no directory segment for
/// the empty directory.
pub open spec fn spec_candidate(dir: Seq<char>, name: Seq<char>) -> Seq<char> {
    if dir.len() == 0 {
        "materials/"@ + name + ".vmt"@
    } else {
        "materials/"@ + dir + "/"@ + name + ".vmt"@
    }
}

/// Builds one candidate path.
fn build_candidate(dir: &String, name: &String) -> (r: String)
    ensures
        r@ == spec_candidate(dir@, name@),
{
    let mut s: String = "materials/".to_owned();
    if !dir.as_str().is_empty() {
        s.append(dir.as_str());
        s.append("/");
    }
    s.append(name.as_str());
    s.append(".vmt");
    s
}

/// Decodes every texture's name, in table order, failing on the first
/// texture whose name does not decode.
fn read_texture_names(
    b: &Vec<u8>,
    h1: Ghost<crate::mdl::Header1>,
    textures: &Vec<crate::entities::TextureRef<'_>>,
) -> (r: Result<Vec<String>>)
    requires
        buf_wf(b@),
        textures@.len() == h1@.texture_count,
        crate::mdl::textures_fit(b@, h1@),
        forall|t: int|
            0 <= t < h1@.texture_count ==> (#[trigger] textures@[t]) == (crate::entities::TextureRef {
                texture: crate::entities::spec_texture(
                    b@,
                    h1@.texture_offset + t * crate::entities::TEXTURE_SIZE,
                ),
                offset: (h1@.texture_offset + t * crate::entities::TEXTURE_SIZE) as usize,
                bytes: b,
            }),
    ensures
        match r {
            Ok(names) => {
                &&& names@.len() == h1@.texture_count
                &&& forall|t: int|
                    0 <= t < h1@.texture_count ==> spec_texture_name_res(b@, h1@, t) == Ok::<
                        Seq<char>,
                        Error,
                    >((#[trigger] names@[t])@)
            },
            Err(e) => exists|k: int|
                0 <= k < h1@.texture_count && (#[trigger] spec_texture_name_res(b@, h1@, k))
                    == Err::<Seq<char>, Error>(e) && (forall|t: int|
                    0 <= t < k ==> spec_texture_name_res(b@, h1@, t) is Ok),
        },
{
    let mut names: Vec<String> = Vec::new();
    let mut k: usize = 0;
    while k < textures.len()
        invariant
            buf_wf(b@),
            textures@.len() == h1@.texture_count,
            crate::mdl::textures_fit(b@, h1@),
            forall|t: int|
                0 <= t < h1@.texture_count ==> (#[trigger] textures@[t]) == (crate::entities::TextureRef {
                    texture: crate::entities::spec_texture(
                        b@,
                        h1@.texture_offset + t * crate::entities::TEXTURE_SIZE,
                    ),
                    offset: (h1@.texture_offset + t * crate::entities::TEXTURE_SIZE) as usize,
                    bytes: b,
                }),
            k <= textures@.len(),
            names@.len() == k,
            forall|t: int|
                0 <= t < k ==> spec_texture_name_res(b@, h1@, t) == Ok::<Seq<char>, Error>((
                #[trigger] names@[t])@),
        decreases textures@.len() - k,
    {
        proof {
            crate::bytes::lemma_mul_mono(k as int, k as int + 1, crate::entities::TEXTURE_SIZE as int);
            crate::bytes::lemma_mul_mono(
                k as int + 1,
                h1@.texture_count as int,
                crate::entities::TEXTURE_SIZE as int,
            );
        }
        let tex = textures[k];
        match tex.name() {
            Ok(n) => {
                proof {
                    assert(spec_texture_name_res(b@, h1@, k as int) == Ok::<Seq<char>, Error>(n@));
                }
                names.push(n);
            },
            Err(e) => {
                proof {
                    assert(spec_texture_name_res(b@, h1@, k as int) == Err::<Seq<char>, Error>(e));
                    assert forall|t: int|
                        0 <= t < k implies (#[trigger] spec_texture_name_res(b@, h1@, t)) is Ok by {
                        assert(spec_texture_name_res(b@, h1@, t) == Ok::<Seq<char>, Error>(
                            names@[t]@,
                        ));
                    }
                    assert(0 <= k < h1@.texture_count && spec_texture_name_res(b@, h1@, k as int)
                        == Err::<Seq<char>, Error>(e) && (forall|t: int|
                        0 <= t < k ==> spec_texture_name_res(b@, h1@, t) is Ok));
                }
                return Err(e);
            },
        }
        k = k + 1;
    }
    Ok(names)
}

impl<'a> Verified<'a> {
    /// The model carries the static-prop flag.
    pub fn is_static_prop(&self) -> (r: bool)
        ensures
            r == (self.header.h1.flags & HEADER_FLAGS_MASK & FLAG_STATIC_PROP == FLAG_STATIC_PROP),
    {
        self.header.flags().contains(FLAG_STATIC_PROP)
    }

    /// The model's name.
    pub fn name(&self) -> (r: Result<String>)
        requires
            self.header.wf(),
        ensures
            ({
                let b = self.header.bytes@;
                match self.header.h2 {
                    Option::Some(h2) => if h2.name_offset > 0 {
                        string_result_matches(
                            r,
                            spec_string_result(
                                b,
                                self.header.h1.header_2_offset + HEADER2_SIZE + h2.name_offset,
                                b.len() as int,
                                "header 2 name offset out of bounds",
                                "eof reading header 2 name",
                                "header 2 name is not valid utf8",
                            ),
                        )
                    } else {
                        string_result_matches(r, crate::mdl::spec_embedded_name_result(b))
                    },
                    Option::None => string_result_matches(
                        r,
                        crate::mdl::spec_embedded_name_result(b),
                    ),
                }
            }),
    {
        self.header.name()
    }

    /// For every material, the ordered candidate file paths under the
    /// model's search directories; the collaborator that owns the
    /// filesystem probes them in order.
    pub fn materials(&self) -> (r: Result<Vec<Vec<String>>>)
        requires
            self.header.wf(),
        ensures
            ({
                let b = self.header.bytes@;
                let h1 = self.header.h1;
                match r {
                    Ok(cands) => {
                        &&& crate::mdl::texture_dirs_fit(b, h1)
                        &&& crate::mdl::textures_fit(b, h1)
                        &&& cands@.len() == h1.texture_count
                        &&& forall|k: int|
                            0 <= k < h1.texture_count ==> (#[trigger] cands@[k])@.len()
                                == h1.texture_dir_count
                        &&& forall|k: int, j: int|
                            0 <= k < h1.texture_count && 0 <= j < h1.texture_dir_count ==> (
                            spec_texture_name_res(b, h1, k) is Ok && spec_texture_path(
                                b,
                                h1.texture_dir_offset as int,
                                j,
                            ) is Ok && (#[trigger] cands@[k]@[j])@ == spec_candidate(
                                spec_texture_path(b, h1.texture_dir_offset as int, j).unwrap(),
                                spec_texture_name_res(b, h1, k).unwrap(),
                            ))
                    },
                    Err(e) => {
                        let dpos = h1.texture_dir_offset as int;
                        if h1.texture_dir_offset < 0 {
                            e == corrupted_spec("texture paths offset is negative")
                        } else if h1.texture_dir_count < 0 {
                            e == corrupted_spec("texture paths count is negative")
                        } else if !crate::mdl::texture_dirs_fit(b, h1) {
                            e == corrupted_spec("texture paths out of bounds or misaligned")
                        } else if exists|j: int|
                            0 <= j < h1.texture_dir_count && (#[trigger] spec_texture_path(
                                b,
                                dpos,
                                j,
                            )) is Err {
                            exists|j: int|
                                0 <= j < h1.texture_dir_count && (#[trigger] spec_texture_path(
                                    b,
                                    dpos,
                                    j,
                                )) == Err::<Seq<char>, Error>(e) && (forall|i: int|
                                    0 <= i < j ==> spec_texture_path(b, dpos, i) is Ok)
                        } else if h1.texture_offset < 0 {
                            e == corrupted_spec("texture offset is negative")
                        } else if h1.texture_count < 0 {
                            e == corrupted_spec("texture count is negative")
                        } else if !crate::mdl::textures_fit(b, h1) {
                            e == corrupted_spec("textures out of bounds or misaligned")
                        } else {
                            exists|k: int|
                                0 <= k < h1.texture_count && (#[trigger] spec_texture_name_res(
                                    b,
                                    h1,
                                    k,
                                )) == Err::<Seq<char>, Error>(e) && (forall|t: int|
                                    0 <= t < k ==> spec_texture_name_res(b, h1, t) is Ok)
                        }
                    },
                }
            }),
    {
        let hdr = self.header;
        let paths = match hdr.texture_paths() {
            Ok(p) => p,
            Err(e) => {
                return Err(e);
            },
        };
        let textures = match hdr.iter_textures() {
            Ok(t) => t,
            Err(e) => {
                proof {
                    let dpos = hdr.h1.texture_dir_offset as int;
                    assert forall|j: int|
                        0 <= j < hdr.h1.texture_dir_count implies (#[trigger] spec_texture_path(
                        hdr.bytes@,
                        dpos,
                        j,
                    )) is Ok by {
                        assert(spec_texture_path(hdr.bytes@, dpos, j) == Ok::<Seq<char>, Error>(
                            paths@[j]@,
                        ));
                    }
                }
                return Err(e);
            },
        };
        let ghost b = self.header.bytes@;
        let ghost h1 = self.header.h1;
        let names = match read_texture_names(hdr.bytes, Ghost(hdr.h1), &textures) {
            Ok(n) => n,
            Err(e) => {
                proof {
                    let dpos = h1.texture_dir_offset as int;
                    assert forall|j: int|
                        0 <= j < h1.texture_dir_count implies (#[trigger] spec_texture_path(
                        b,
                        dpos,
                        j,
                    )) is Ok by {
                        assert(spec_texture_path(b, dpos, j) == Ok::<Seq<char>, Error>(
                            paths@[j]@,
                        ));
                    }
                }
                return Err(e);
            },
        };
        let mut cands: Vec<Vec<String>> = Vec::new();
        let mut k: usize = 0;
        while k < names.len()
            invariant
                b == hdr.bytes@,
                h1 == hdr.h1,
                crate::mdl::texture_dirs_fit(b, h1),
                crate::mdl::textures_fit(b, h1),
                names@.len() == h1.texture_count,
                paths@.len() == h1.texture_dir_count,
                forall|j: int|
                    0 <= j < h1.texture_dir_count ==> spec_texture_path(
                        b,
                        h1.texture_dir_offset as int,
                        j,
                    ) == Ok::<Seq<char>, Error>((#[trigger] paths@[j])@),
                forall|t: int|
                    0 <= t < h1.texture_count ==> spec_texture_name_res(b, h1, t) == Ok::<
                        Seq<char>,
                        Error,
                    >((#[trigger] names@[t])@),
                k <= names@.len(),
                cands@.len() == k,
                forall|t: int|
                    0 <= t < k ==> (#[trigger] cands@[t])@.len() == h1.texture_dir_count,
                forall|t: int, j: int|
                    0 <= t < k && 0 <= j < h1.texture_dir_count ==> (#[trigger] cands@[t]@[j])@
                        == spec_candidate(paths@[j]@, names@[t]@),
            decreases names@.len() - k,
        {
            let name = &names[k];
            let mut row: Vec<String> = Vec::new();
            let mut j: usize = 0;
            while j < paths.len()
                invariant
                    j <= paths@.len(),
                    row@.len() == j,
                    name == &names[k as int],
                    k < names@.len(),
                    forall|t: int|
                        0 <= t < j ==> (#[trigger] row@[t])@ == spec_candidate(
                            paths@[t]@,
                            names@[k as int]@,
                        ),
                decreases paths@.len() - j,
            {
                let c = build_candidate(&paths[j], name);
                row.push(c);
                j = j + 1;
            }
            cands.push(row);
            k = k + 1;
        }
        proof {
            assert forall|k2: int, j: int|
                0 <= k2 < h1.texture_count && 0 <= j < h1.texture_dir_count implies (
            spec_texture_name_res(b, h1, k2) is Ok && spec_texture_path(
                b,
                h1.texture_dir_offset as int,
                j,
            ) is Ok && (#[trigger] cands@[k2]@[j])@ == spec_candidate(
                spec_texture_path(b, h1.texture_dir_offset as int, j).unwrap(),
                spec_texture_name_res(b, h1, k2).unwrap(),
            )) by {
                assert(spec_texture_path(b, h1.texture_dir_offset as int, j) == Ok::<
                    Seq<char>,
                    Error,
                >(paths@[j]@));
                assert(spec_texture_name_res(b, h1, k2) == Ok::<Seq<char>, Error>(names@[k2]@));
                assert(cands@[k2]@[j]@ == spec_candidate(paths@[j]@, names@[k2]@));
            }
        }
        proof {
            assert forall|k2: int| 0 <= k2 < h1.texture_count implies (#[trigger] spec_texture_name_res(
                b,
                h1,
                k2,
            )) is Ok by {
                assert(spec_texture_name_res(b, h1, k2) == Ok::<Seq<char>, Error>(names@[k2]@));
            }
            assert forall|j: int| 0 <= j < h1.texture_dir_count implies (#[trigger] spec_texture_path(
                b,
                h1.texture_dir_offset as int,
                j,
            )) is Ok by {
                assert(spec_texture_path(b, h1.texture_dir_offset as int, j) == Ok::<
                    Seq<char>,
                    Error,
                >(paths@[j]@));
            }
        }
        Ok(cands)
    }
}

/// What decoding the name of the `k`-th texture yields.
pub open spec fn spec_texture_name_res(b: Seq<u8>, h1: crate::mdl::Header1, k: int) -> core::result::Result<
    Seq<char>,
    Error,
> {
    spec_string_result(
        b,
        h1.texture_offset + k * crate::entities::TEXTURE_SIZE + sle32(
            b,
            h1.texture_offset + k * crate::entities::TEXTURE_SIZE,
        ),
        b.len() as int,
        "texture name out of bounds",
        "eof reading texture name",
        "texture name is not valid utf8",
    )
}

} // verus!
