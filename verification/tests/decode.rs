//! End-to-end decoding tests over a synthetic model buffer: entity tables,
//! both animation decode dispatch paths, root marking, the unsupported
//! multi-section configuration, cross-format checks, and clean failure on
//! truncated input.

use plumber_mdl::anim_data::{AnimationPositionData, AnimationRotationData, PackedQuat, PosSample};
use plumber_mdl::error::{Error, FileType};
use plumber_mdl::mdl::{Mdl, FLAG_STATIC_PROP};
use plumber_mdl::model::Model;

fn put_i32(b: &mut Vec<u8>, at: usize, v: i32) {
    let x = v.to_le_bytes();
    b[at] = x[0];
    b[at + 1] = x[1];
    b[at + 2] = x[2];
    b[at + 3] = x[3];
}

fn put_u16(b: &mut Vec<u8>, at: usize, v: u16) {
    let x = v.to_le_bytes();
    b[at] = x[0];
    b[at + 1] = x[1];
}

fn put_i16(b: &mut Vec<u8>, at: usize, v: i16) {
    let x = v.to_le_bytes();
    b[at] = x[0];
    b[at + 1] = x[1];
}

fn put_str(b: &mut Vec<u8>, at: usize, s: &str) {
    let bytes = s.as_bytes();
    for (i, &c) in bytes.iter().enumerate() {
        b[at + i] = c;
    }
    b[at + bytes.len()] = 0;
}

/// Builds a known-good model buffer: two bones (one root), one texture, two
/// search directories, one body part with one model and one mesh, and three
/// animations — a legacy run-length one, a sectioned one (unsupported), and
/// a frame-bitflag one.
fn build_model() -> Vec<u8> {
    let mut b = vec![0u8; 1644];
    // primary header
    b[0] = 0x49; // I
    b[1] = 0x44; // D
    b[2] = 0x53; // S
    b[3] = 0x54; // T
    put_i32(&mut b, 4, 48); // version
    put_i32(&mut b, 8, 0x1234); // checksum
    put_str(&mut b, 12, "testmodel"); // embedded name
    put_i32(&mut b, 152, 0x10); // flags: STATIC_PROP
    put_i32(&mut b, 156, 2); // bone count
    put_i32(&mut b, 160, 400); // bone offset
    put_i32(&mut b, 180, 3); // animation count
    put_i32(&mut b, 184, 1192); // animation offset
    put_i32(&mut b, 204, 1); // texture count
    put_i32(&mut b, 208, 832); // texture offset
    put_i32(&mut b, 212, 2); // texture dir count
    put_i32(&mut b, 216, 896); // texture dir offset
    put_i32(&mut b, 232, 1); // body part count
    put_i32(&mut b, 236, 912); // body part offset
    put_i32(&mut b, 392, 0); // no extension header

    // bones at 400 and 616 (216 bytes each)
    let one = f32::to_bits(1.0) as i32;
    put_i32(&mut b, 400, 1204); // bone 0 name offset (relative to 400)
    put_i32(&mut b, 404, -1); // bone 0: root
    put_i32(&mut b, 400 + 176, 1221); // bone 0 surface material -> "d"
    for axis in 0..3 {
        put_i32(&mut b, 400 + 72 + 4 * axis, one); // position scale 1.0
        put_i32(&mut b, 400 + 84 + 4 * axis, one); // rotation scale 1.0
    }
    put_i32(&mut b, 616, 993); // bone 1 name offset (relative to 616)
    put_i32(&mut b, 616 + 4, 0); // bone 1: child of bone 0
    for axis in 0..3 {
        put_i32(&mut b, 616 + 72 + 4 * axis, one);
        put_i32(&mut b, 616 + 84 + 4 * axis, one);
    }

    // texture at 832
    put_i32(&mut b, 832, 783); // name offset relative to 832

    // texture search directories at 896: "" and "d"
    put_i32(&mut b, 896, 0);
    put_i32(&mut b, 900, 1621);

    // body part at 912
    put_i32(&mut b, 912, 711); // name offset relative to 912
    put_i32(&mut b, 916, 1); // model count
    put_i32(&mut b, 924, 16); // model offset relative to 912 -> 928

    // model at 928
    put_str(&mut b, 928, "m"); // embedded model name
    put_i32(&mut b, 928 + 72, 1); // mesh count
    put_i32(&mut b, 928 + 76, 148); // mesh offset relative to 928 -> 1076
    put_i32(&mut b, 928 + 80, 10); // vertex count
    put_i32(&mut b, 928 + 84, 0); // vertex offset

    // mesh at 1076
    put_i32(&mut b, 1076, 0); // material index
    put_i32(&mut b, 1076 + 8, 10); // vertex count
    put_i32(&mut b, 1076 + 12, 0); // vertex index start
    put_i32(&mut b, 1076 + 52, 10); // LOD 0 vertex count

    // animation 0 at 1192: legacy run-length, one block chain
    put_i32(&mut b, 1192 + 4, 436); // name offset -> "idle"
    put_i32(&mut b, 1192 + 12, 0x0001); // flags: LOOPING only
    put_i32(&mut b, 1192 + 16, 3); // frame count
    put_i32(&mut b, 1192 + 56, 300); // anim offset -> 1492

    // animation 1 at 1292: sectioned (unsupported feature)
    put_i32(&mut b, 1292 + 4, 341); // name offset -> "walk"
    put_i32(&mut b, 1292 + 16, 3); // frame count
    put_i32(&mut b, 1292 + 80, 272); // section offset -> 1564
    put_i32(&mut b, 1292 + 84, 1); // section frame count

    // animation 2 at 1392: frame-bitflag
    put_i32(&mut b, 1392 + 4, 246); // name offset -> "shoot"
    put_i32(&mut b, 1392 + 12, 0x0040); // flags: FRAMEANIM
    put_i32(&mut b, 1392 + 16, 2); // frame count
    put_i32(&mut b, 1392 + 56, 128); // anim offset -> 1520

    // legacy block chain at 1492: bone 0 (constant rotation and position)
    b[1492] = 0; // bone index
    b[1493] = 0x03; // RAWROT | RAWPOS
    put_i16(&mut b, 1494, 16); // next block 16 bytes ahead
    put_u16(&mut b, 1496, 0x8000); // quat x raw (0.0)
    put_u16(&mut b, 1498, 0x8000); // quat y raw (0.0)
    put_u16(&mut b, 1500, 0x4000); // quat z raw (0.0), w positive
    put_u16(&mut b, 1502, 0x3C00); // pos x = 1.0
    put_u16(&mut b, 1504, 0x0000); // pos y = 0.0
    put_u16(&mut b, 1506, 0x3C00); // pos z = 1.0
    // second block at 1508: bone 1 (constant position), ends the chain
    b[1508] = 1;
    b[1509] = 0x01; // RAWPOS
    put_i16(&mut b, 1510, 0); // zero forward offset: last block
    put_u16(&mut b, 1512, 0x4000); // pos x = 2.0
    put_u16(&mut b, 1514, 0x3C00); // pos y = 1.0
    put_u16(&mut b, 1516, 0x0000); // pos z = 0.0

    // frame animation section at 1520
    put_i32(&mut b, 1520, 26); // constants offset -> 1546
    put_i32(&mut b, 1524, 32); // frame offset -> 1552
    b[1544] = 0x01; // bone 0: constant position
    b[1545] = 0x04; // bone 1: per-frame position
    put_u16(&mut b, 1546, 0x3C00); // bone 0 const pos x = 1.0
    put_u16(&mut b, 1548, 0x0000);
    put_u16(&mut b, 1550, 0x0000);
    put_u16(&mut b, 1552, 0x3C00); // frame 0, bone 1 pos x = 1.0
    put_u16(&mut b, 1554, 0x0000);
    put_u16(&mut b, 1556, 0x0000);
    put_u16(&mut b, 1558, 0x4000); // frame 1, bone 1 pos x = 2.0
    put_u16(&mut b, 1560, 0x0000);
    put_u16(&mut b, 1562, 0x0000);

    // section table for animation 1 at 1564: five in-file sections
    for s in 0..5 {
        put_i32(&mut b, 1564 + 8 * s, 0); // anim block: in-file
        put_i32(&mut b, 1564 + 8 * s + 4, 0);
    }

    // names
    put_str(&mut b, 1604, "root");
    put_str(&mut b, 1609, "child");
    put_str(&mut b, 1615, "tex0");
    put_str(&mut b, 1621, "d");
    put_str(&mut b, 1623, "body");
    put_str(&mut b, 1628, "idle");
    put_str(&mut b, 1633, "walk");
    put_str(&mut b, 1638, "shoot");
    b
}

#[test]
fn signature_and_version_of_built_model() {
    let mdl = Mdl::new(build_model());
    assert!(mdl.check_signature().is_ok());
    assert_eq!(mdl.version().unwrap(), 48);
    assert_eq!(mdl.check_version().unwrap(), 48);
}

#[test]
fn header_name_and_flags() {
    let mdl = Mdl::new(build_model());
    let header = mdl.header().unwrap();
    assert_eq!(header.checksum(), 0x1234);
    assert_eq!(header.name().unwrap(), "testmodel");
    assert!(header.flags().contains(FLAG_STATIC_PROP));
}

#[test]
fn bones_and_textures_and_paths() {
    let mdl = Mdl::new(build_model());
    let header = mdl.header().unwrap();
    let bones = header.iter_bones().unwrap();
    assert_eq!(bones.len(), 2);
    assert_eq!(bones[0].name().unwrap(), "root");
    assert_eq!(bones[1].name().unwrap(), "child");
    assert_eq!(bones[0].bone.parent_bone_index, -1);
    assert_eq!(bones[1].bone.parent_bone_index, 0);
    assert_eq!(bones[0].surface_prop().unwrap(), Some("d".to_string()));
    assert_eq!(bones[1].surface_prop().unwrap(), None);
    let textures = header.iter_textures().unwrap();
    assert_eq!(textures.len(), 1);
    assert_eq!(textures[0].name().unwrap(), "tex0");
    let paths = header.texture_paths().unwrap();
    assert_eq!(paths, vec!["".to_string(), "d".to_string()]);
}

#[test]
fn body_parts_models_meshes() {
    let mdl = Mdl::new(build_model());
    let header = mdl.header().unwrap();
    let parts = header.iter_body_parts().unwrap();
    assert_eq!(parts.len(), 1);
    assert_eq!(parts[0].name().unwrap(), "body");
    let models = parts[0].iter_models().unwrap();
    assert_eq!(models.len(), 1);
    assert_eq!(models[0].name().unwrap(), "m");
    assert_eq!(models[0].model.vertex_count, 10);
    let meshes = models[0].iter_meshes().unwrap();
    assert_eq!(meshes.len(), 1);
    assert_eq!(meshes[0].vertex_count, 10);
    assert_eq!(meshes[0].lod_vertex_counts[0], 10);
}

#[test]
fn rle_animation_decodes_with_root_marking() {
    let mdl = Mdl::new(build_model());
    let header = mdl.header().unwrap();
    let anims = header.iter_animation_descs().unwrap();
    assert_eq!(anims.len(), 3);
    assert_eq!(anims[0].name().unwrap(), "idle");
    assert!(anims[0].iter_movements().unwrap().is_empty());
    let data = anims[0].data().unwrap().unwrap();
    assert_eq!(data.len(), 2);
    let d0 = data[0].as_ref().unwrap();
    let d1 = data[1].as_ref().unwrap();
    // root correction marking: exactly the bone with a negative parent
    assert!(d0.root);
    assert!(!d1.root);
    match &d0.rotation {
        AnimationRotationData::Constant(_) => {}
        other => panic!("expected constant rotation, got {:?}", other),
    }
    match &d0.position {
        AnimationPositionData::Constant(p) => {
            // half 0x3C00 has exponent 15, mantissa 0 (the value 1.0)
            assert!(!p.x.negative);
            assert_eq!(p.x.exponent, 15);
            assert_eq!(p.x.mantissa, 0);
            assert_eq!(p.y.exponent, 0);
        }
        other => panic!("expected constant position, got {:?}", other),
    }
    match &d1.rotation {
        AnimationRotationData::Absent => {}
        other => panic!("expected no rotation, got {:?}", other),
    }
}

#[test]
fn frame_animation_decodes() {
    let mdl = Mdl::new(build_model());
    let header = mdl.header().unwrap();
    let anims = header.iter_animation_descs().unwrap();
    assert_eq!(anims[2].name().unwrap(), "shoot");
    let data = anims[2].data().unwrap().unwrap();
    assert_eq!(data.len(), 2);
    let d0 = data[0].as_ref().unwrap();
    let d1 = data[1].as_ref().unwrap();
    assert!(d0.root);
    assert!(!d1.root);
    match &d0.position {
        AnimationPositionData::Constant(p) => {
            assert_eq!(p.x.exponent, 15); // 1.0
        }
        other => panic!("expected constant position, got {:?}", other),
    }
    match &d1.position {
        AnimationPositionData::Animated(samples) => {
            assert_eq!(samples.len(), 2);
            match &samples[0] {
                PosSample::Packed(h) => assert_eq!(h.x.exponent, 15), // 1.0
                other => panic!("expected packed sample, got {:?}", other),
            }
            match &samples[1] {
                PosSample::Packed(h) => assert_eq!(h.x.exponent, 16), // 2.0
                other => panic!("expected packed sample, got {:?}", other),
            }
        }
        other => panic!("expected animated position, got {:?}", other),
    }
}

#[test]
fn sectioned_animation_is_unsupported_but_others_decode() {
    let mdl = Mdl::new(build_model());
    let header = mdl.header().unwrap();
    let anims = header.iter_animation_descs().unwrap();
    // the sectioned animation fails with the unsupported-feature error
    match anims[1].data() {
        Err(Error::Unsupported { ty: FileType::Mdl, feature }) => {
            assert_eq!(feature, "animation sections");
        }
        other => panic!("expected unsupported feature, got {:?}", other),
    }
    // its section table still resolves, with the two-tail frame counts
    let sections = anims[1].iter_animation_sections().unwrap().unwrap();
    assert_eq!(sections.len(), 5);
    assert_eq!(sections[0].frame_count, 1);
    assert_eq!(sections[3].frame_count, 0); // 3 - (5-2)*1
    assert!(!sections[0].last_section);
    assert!(sections[2].last_section); // 3 == (2+1)*1
    assert!(sections[4].last_section);
    // the other animations are unaffected
    assert!(anims[0].data().is_ok());
    assert!(anims[2].data().is_ok());
}

#[test]
fn decoding_is_deterministic() {
    let mdl = Mdl::new(build_model());
    let header = mdl.header().unwrap();
    let anims = header.iter_animation_descs().unwrap();
    let first = anims[0].data().unwrap();
    let second = anims[0].data().unwrap();
    assert_eq!(first, second);
    let mdl2 = Mdl::new(build_model());
    let header2 = mdl2.header().unwrap();
    let anims2 = header2.iter_animation_descs().unwrap();
    assert_eq!(anims2[0].data().unwrap(), first);
}

#[test]
fn verify_checks_checksums() {
    let mdl = Mdl::new(build_model());
    let model = Model::new(mdl, 0x1234, 0x1234);
    let verified = model.verify().unwrap();
    assert!(verified.is_static_prop());
    assert_eq!(verified.name().unwrap(), "testmodel");

    let model_bad_vvd = Model::new(Mdl::new(build_model()), 1, 0x1234);
    match model_bad_vvd.verify() {
        Err(Error::ChecksumMismatch(FileType::Vvd)) => {}
        other => panic!("expected vvd mismatch, got {:?}", other),
    }
    let model_bad_vtx = Model::new(Mdl::new(build_model()), 0x1234, 1);
    match model_bad_vtx.verify() {
        Err(Error::ChecksumMismatch(FileType::Vtx)) => {}
        other => panic!("expected vtx mismatch, got {:?}", other),
    }
}

#[test]
fn material_candidates_follow_search_order() {
    let mdl = Mdl::new(build_model());
    let model = Model::new(mdl, 0x1234, 0x1234);
    let verified = model.verify().unwrap();
    let cands = verified.materials().unwrap();
    assert_eq!(cands.len(), 1);
    assert_eq!(
        cands[0],
        vec!["materials/tex0.vmt".to_string(), "materials/d/tex0.vmt".to_string()]
    );
}

#[test]
fn truncations_fail_cleanly() {
    let full = build_model();
    // every truncation either decodes or reports an error; nothing panics
    // and nothing reads outside the buffer
    for cut in 0..full.len() {
        let mdl = Mdl::new(full[..cut].to_vec());
        let _ = mdl.check_signature();
        let _ = mdl.check_version();
        if let Ok(header) = mdl.header() {
            let _ = header.name();
            if let Ok(bones) = header.iter_bones() {
                for bone in &bones {
                    let _ = bone.name();
                    let _ = bone.surface_prop();
                }
            }
            if let Ok(textures) = header.iter_textures() {
                for t in &textures {
                    let _ = t.name();
                }
            }
            let _ = header.texture_paths();
            if let Ok(parts) = header.iter_body_parts() {
                for p in &parts {
                    let _ = p.name();
                    if let Ok(models) = p.iter_models() {
                        for m in &models {
                            let _ = m.name();
                            let _ = m.iter_meshes();
                        }
                    }
                }
            }
            if let Ok(anims) = header.iter_animation_descs() {
                for a in &anims {
                    let _ = a.name();
                    let _ = a.iter_movements();
                    let _ = a.data();
                }
            }
        }
    }
}

#[test]
fn corrupted_bone_table_is_rejected() {
    let mut b = build_model();
    put_i32(&mut b, 160, -4); // negative bone offset
    let mdl = Mdl::new(b);
    let header_err = mdl.header().unwrap().iter_bones();
    match header_err {
        Err(Error::Corrupted { ty: FileType::Mdl, error }) => {
            assert_eq!(error, "bone offset is negative");
        }
        other => panic!("expected corruption, got {:?}", other),
    }

    let mut b2 = build_model();
    put_i32(&mut b2, 156, 1000000); // bone table larger than the buffer
    let mdl2 = Mdl::new(b2);
    match mdl2.header().unwrap().iter_bones() {
        Err(Error::Corrupted { ty: FileType::Mdl, error }) => {
            assert_eq!(error, "bones out of bounds or misaligned");
        }
        other => panic!("expected corruption, got {:?}", other),
    }

    let mut b3 = build_model();
    put_i32(&mut b3, 160, 402); // misaligned bone table
    let mdl3 = Mdl::new(b3);
    match mdl3.header().unwrap().iter_bones() {
        Err(Error::Corrupted { ty: FileType::Mdl, error }) => {
            assert_eq!(error, "bones out of bounds or misaligned");
        }
        other => panic!("expected corruption, got {:?}", other),
    }
}

#[test]
fn invalid_name_bytes_are_rejected() {
    let mut b = build_model();
    // overwrite the bone 0 name with invalid text and no terminator issues
    b[1604] = 0xff;
    b[1605] = 0xfe;
    b[1606] = 0;
    let mdl = Mdl::new(b);
    let bones = mdl.header().unwrap().iter_bones().unwrap();
    match bones[0].name() {
        Err(Error::Corrupted { ty: FileType::Mdl, error }) => {
            assert_eq!(error, "bone name is not valid utf8");
        }
        other => panic!("expected utf8 corruption, got {:?}", other),
    }
}

#[test]
fn extension_header_name_supersedes_embedded_name() {
    let mut b = build_model();
    let h2 = b.len(); // 1644, 4-byte aligned
    b.resize(h2 + 32 + 20, 0);
    put_i32(&mut b, 392, h2 as i32); // extension header offset
    put_i32(&mut b, h2 + 20, 8); // extension name offset
    put_str(&mut b, h2 + 32 + 8, "long name");
    let mdl = Mdl::new(b);
    let header = mdl.header().unwrap();
    assert_eq!(header.name().unwrap(), "long name");

    // a zero extension name offset falls back to the embedded name
    let mut b2 = build_model();
    let h2b = b2.len();
    b2.resize(h2b + 32, 0);
    put_i32(&mut b2, 392, h2b as i32);
    let mdl2 = Mdl::new(b2);
    assert_eq!(mdl2.header().unwrap().name().unwrap(), "testmodel");
}

#[test]
fn rle_per_frame_curve_applies_run_length_rules() {
    let mut b = build_model();
    // rebuild the second block of the legacy chain as a per-frame Euler
    // rotation: an offset table whose x axis points at a run-length curve
    b[1509] = 0x08; // ANIMROT
    put_i16(&mut b, 1512, 152); // x curve at 1512 + 152 = 1664
    put_i16(&mut b, 1514, 0); // no y curve
    put_i16(&mut b, 1516, 0); // no z curve
    b.resize(1672, 0);
    // curve: (total=3, valid=2, values=[5, 9])
    put_u16(&mut b, 1664, 0x0302);
    put_i16(&mut b, 1666, 5);
    put_i16(&mut b, 1668, 9);
    let mdl = Mdl::new(b);
    let header = mdl.header().unwrap();
    let anims = header.iter_animation_descs().unwrap();
    let data = anims[0].data().unwrap().unwrap();
    let d1 = data[1].as_ref().unwrap();
    match &d1.rotation {
        AnimationRotationData::AnimatedEuler(curve) => {
            assert_eq!(curve.frames.len(), 3);
            assert_eq!(curve.frames[0].x, 5);
            assert_eq!(curve.frames[1].x, 9);
            assert_eq!(curve.frames[2].x, 9); // hold last explicit delta
            assert_eq!(curve.frames[0].y, 0); // axis without a curve
            assert_eq!(curve.frames[0].z, 0);
            // the owning bone's quantization scale and rest pose ride along
            assert_eq!(curve.scale.x, f32::to_bits(1.0));
            assert_eq!(curve.base.x, 0);
        }
        other => panic!("expected euler curve, got {:?}", other),
    }
}

#[test]
fn movement_table_resolves() {
    let mut b = build_model();
    put_i32(&mut b, 1192 + 20, 1); // one movement
    put_i32(&mut b, 1192 + 24, 472); // at 1192 + 472 = 1664
    b.resize(1664 + 44, 0);
    put_i32(&mut b, 1664, 10); // end frame index
    put_i32(&mut b, 1664 + 4, 3); // motion flags
    put_i32(&mut b, 1664 + 20, f32::to_bits(1.0) as i32); // vector x
    let mdl = Mdl::new(b);
    let header = mdl.header().unwrap();
    let anims = header.iter_animation_descs().unwrap();
    let movements = anims[0].iter_movements().unwrap();
    assert_eq!(movements.len(), 1);
    assert_eq!(movements[0].movement.end_frame_index, 10);
    assert_eq!(movements[0].movement.motion_flags, 3);
    assert_eq!(movements[0].movement.vector.x, f32::to_bits(1.0));
}

#[test]
fn external_chunk_animation_yields_no_data() {
    let mut b = build_model();
    put_i32(&mut b, 1192 + 52, 7); // animation 0 uses external chunk storage
    let mdl = Mdl::new(b);
    let header = mdl.header().unwrap();
    let anims = header.iter_animation_descs().unwrap();
    assert_eq!(anims[0].data().unwrap(), None);
}

#[test]
fn negative_frame_count_is_rejected() {
    let mut b = build_model();
    put_i32(&mut b, 1192 + 16, -3);
    let mdl = Mdl::new(b);
    let header = mdl.header().unwrap();
    let anims = header.iter_animation_descs().unwrap();
    match anims[0].data() {
        Err(Error::Corrupted { ty: FileType::Mdl, error }) => {
            assert_eq!(error, "animation frame count is negative");
        }
        other => panic!("expected corruption, got {:?}", other),
    }
}

#[test]
fn block_list_terminates_on_sentinel_and_out_of_range_bones() {
    // a bone index of 255 ends the list before yielding anything
    let mut b = build_model();
    b[1492] = 255;
    let mdl = Mdl::new(b);
    let data = mdl.header().unwrap().iter_animation_descs().unwrap()[0]
        .data()
        .unwrap()
        .unwrap();
    assert!(data.iter().all(|d| d.is_none()));

    // an out-of-range bone index ends the list the same way
    let mut b2 = build_model();
    b2[1492] = 2;
    let mdl2 = Mdl::new(b2);
    let data2 = mdl2.header().unwrap().iter_animation_descs().unwrap()[0]
        .data()
        .unwrap()
        .unwrap();
    assert!(data2.iter().all(|d| d.is_none()));
}

#[test]
fn misaligned_block_chain_is_rejected() {
    let mut b = build_model();
    put_i32(&mut b, 1192 + 56, 301); // odd block position
    let mdl = Mdl::new(b);
    let anims = mdl.header().unwrap().iter_animation_descs().unwrap();
    match anims[0].data() {
        Err(Error::Corrupted { ty: FileType::Mdl, error }) => {
            assert_eq!(error, "animation section animation out of bounds or misaligned");
        }
        other => panic!("expected corruption, got {:?}", other),
    }
}

#[test]
fn negative_forward_offset_is_rejected() {
    let mut b = build_model();
    put_i16(&mut b, 1494, -2);
    let mdl = Mdl::new(b);
    let anims = mdl.header().unwrap().iter_animation_descs().unwrap();
    match anims[0].data() {
        Err(Error::Corrupted { ty: FileType::Mdl, error }) => {
            assert_eq!(error, "animation section animation next offset is negative");
        }
        other => panic!("expected corruption, got {:?}", other),
    }
}

#[test]
fn rle_64_bit_constant_rotation_decodes() {
    let mut b = build_model();
    b[1493] = 0x21; // RAWROT2 | RAWPOS
    let mdl = Mdl::new(b);
    let anims = mdl.header().unwrap().iter_animation_descs().unwrap();
    let data = anims[0].data().unwrap().unwrap();
    let d0 = data[0].as_ref().unwrap();
    match &d0.rotation {
        AnimationRotationData::Constant(PackedQuat::P64(_)) => {}
        other => panic!("expected 64-bit constant, got {:?}", other),
    }
}

#[test]
fn frame_48_bit_paths_decode() {
    let mut b = build_model();
    b[1544] = 0x40; // bone 0: 48-bit constant rotation
    b[1545] = 0x80; // bone 1: 48-bit per-frame rotation
    let mdl = Mdl::new(b);
    let anims = mdl.header().unwrap().iter_animation_descs().unwrap();
    let data = anims[2].data().unwrap().unwrap();
    let d0 = data[0].as_ref().unwrap();
    let d1 = data[1].as_ref().unwrap();
    match &d0.rotation {
        AnimationRotationData::Constant(PackedQuat::P48(_)) => {}
        other => panic!("expected 48-bit constant, got {:?}", other),
    }
    assert_eq!(d0.position, AnimationPositionData::Absent);
    match &d1.rotation {
        AnimationRotationData::Animated(samples) => {
            assert_eq!(samples.len(), 2);
            assert!(matches!(samples[0], PackedQuat::P48(_)));
        }
        other => panic!("expected animated 48-bit rotation, got {:?}", other),
    }
}

#[test]
fn misaligned_frame_constants_are_rejected() {
    let mut b = build_model();
    put_i32(&mut b, 1520, 27); // odd constants offset
    let mdl = Mdl::new(b);
    let anims = mdl.header().unwrap().iter_animation_descs().unwrap();
    match anims[2].data() {
        Err(Error::Corrupted { ty: FileType::Mdl, error }) => {
            assert_eq!(error, "frame animation bone constants out of bounds or misaligned");
        }
        other => panic!("expected corruption, got {:?}", other),
    }
}

#[test]
fn io_error_carries_path() {
    let e = Error::from_io("models/a.mdl".to_string(), "NotFound".to_string());
    match e {
        Error::Io { path, kind } => {
            assert_eq!(path, "models/a.mdl");
            assert_eq!(kind, "NotFound");
        }
        other => panic!("expected io error, got {:?}", other),
    }
}
