//! Signature and version checks on minimal buffers: the magic is accepted
//! exactly, wrong magics are echoed back, and the version allow-list is
//! enforced.

use plumber_mdl::error::{Error, FileType};
use plumber_mdl::mdl::Mdl;

fn with_version(version: i32) -> Vec<u8> {
    let mut b = vec![0u8; 8];
    b[0] = 0x49;
    b[1] = 0x44;
    b[2] = 0x53;
    b[3] = 0x54;
    let v = version.to_le_bytes();
    b[4] = v[0];
    b[5] = v[1];
    b[6] = v[2];
    b[7] = v[3];
    b
}

#[test]
fn good_signature_is_accepted() {
    let mdl = Mdl::new(with_version(44));
    assert!(mdl.check_signature().is_ok());
}

#[test]
fn wrong_signature_echoes_bytes() {
    let mut bytes = with_version(44);
    bytes[0] = 0x49;
    bytes[1] = 0x44;
    bytes[2] = 0x53;
    bytes[3] = 0x51; // Q instead of T
    let mdl = Mdl::new(bytes);
    match mdl.check_signature() {
        Err(Error::InvalidSignature { ty: FileType::Mdl, signature }) => {
            assert_eq!(signature, vec![0x49, 0x44, 0x53, 0x51]);
        }
        other => panic!("expected invalid signature, got {:?}", other),
    }
}

#[test]
fn short_buffer_is_corrupted() {
    let mdl = Mdl::new(vec![0x49, 0x44, 0x53]);
    match mdl.check_signature() {
        Err(Error::Corrupted { ty: FileType::Mdl, error }) => {
            assert_eq!(error, "eof reading signature");
        }
        other => panic!("expected corruption, got {:?}", other),
    }
    match mdl.check_version() {
        Err(Error::Corrupted { ty: FileType::Mdl, error }) => {
            assert_eq!(error, "eof reading version");
        }
        other => panic!("expected corruption, got {:?}", other),
    }
}

#[test]
fn signature_differs_only_in_first_four_bytes() {
    // every single-byte change of the magic is rejected; anything after the
    // first four bytes does not affect the signature check
    for i in 0..4 {
        let mut bytes = with_version(44);
        bytes[i] ^= 0xff;
        assert!(Mdl::new(bytes).check_signature().is_err());
    }
    let mut bytes = with_version(44);
    bytes[7] ^= 0xff;
    assert!(Mdl::new(bytes).check_signature().is_ok());
}

#[test]
fn version_allow_list() {
    for v in [44, 45, 46, 47, 48, 49] {
        let mdl = Mdl::new(with_version(v));
        assert_eq!(mdl.check_version().unwrap(), v);
    }
    for v in [0, 10, 43, 50, -1, i32::MAX, i32::MIN] {
        let mdl = Mdl::new(with_version(v));
        match mdl.check_version() {
            Err(Error::UnsupportedVersion { ty: FileType::Mdl, version }) => {
                assert_eq!(version, v);
            }
            other => panic!("expected unsupported version, got {:?}", other),
        }
    }
}

#[test]
fn version_reads_little_endian() {
    let mut b = vec![0u8; 8];
    b[4] = 0x2c; // 44
    let mdl = Mdl::new(b);
    assert_eq!(mdl.version().unwrap(), 44);
}
