//! Run-length curve tests: the header fields, the stream reader, and the
//! per-frame delta fetch with its hold-last and empty-run rules.

use plumber_mdl::rle::{extract_animation_value, read_animation_values, AnimationValue};

fn header(total: u8, valid: u8) -> AnimationValue {
    AnimationValue::from_bytes(valid, total)
}

fn value(v: i16) -> AnimationValue {
    AnimationValue { raw: v }
}

#[test]
fn header_fields_split_the_raw_value() {
    let h = header(3, 2);
    assert_eq!(h.total(), 3);
    assert_eq!(h.valid(), 2);
    assert_eq!(h.raw, 0x0302);
    let n = AnimationValue { raw: -1 };
    assert_eq!(n.total(), 0xff);
    assert_eq!(n.valid(), 0xff);
}

#[test]
fn fetch_walks_runs_and_holds_last_value() {
    // curve: (total=3, valid=2, values=[5, 9]), (total=2, valid=0)
    let curve = vec![header(3, 2), value(5), value(9), header(2, 0)];
    assert_eq!(extract_animation_value(0, &curve), 5);
    assert_eq!(extract_animation_value(1, &curve), 9);
    assert_eq!(extract_animation_value(2, &curve), 9); // hold last
    assert_eq!(extract_animation_value(3, &curve), 0); // run holds nothing explicit
    assert_eq!(extract_animation_value(4, &curve), 0);
    assert_eq!(extract_animation_value(5, &curve), 0); // past the curve
}

#[test]
fn fetch_of_empty_curve_is_zero() {
    let curve: Vec<AnimationValue> = Vec::new();
    assert_eq!(extract_animation_value(0, &curve), 0);
    assert_eq!(extract_animation_value(7, &curve), 0);
}

#[test]
fn fetch_with_negative_deltas() {
    let curve = vec![header(2, 2), value(-300), value(17)];
    assert_eq!(extract_animation_value(0, &curve), -300);
    assert_eq!(extract_animation_value(1, &curve), 17);
}

#[test]
fn reader_collects_runs_until_frames_covered() {
    // stream: header(total=3, valid=2), 5, 9, header(total=2, valid=0)
    let mut b: Vec<u8> = Vec::new();
    for w in [0x0302u16, 5, 9, 0x0200] {
        b.push((w & 0xff) as u8);
        b.push((w >> 8) as u8);
    }
    let vals = read_animation_values(&b, 0, 5).unwrap();
    assert_eq!(vals.len(), 4);
    assert_eq!(vals[0].raw, 0x0302);
    assert_eq!(vals[1].raw, 5);
    assert_eq!(vals[2].raw, 9);
    assert_eq!(vals[3].raw, 0x0200);
    assert_eq!(extract_animation_value(0, &vals), 5);
    assert_eq!(extract_animation_value(2, &vals), 9);
    assert_eq!(extract_animation_value(4, &vals), 0);
}

#[test]
fn reader_stops_at_zero_total() {
    let mut b: Vec<u8> = Vec::new();
    for w in [0x0000u16, 1234] {
        b.push((w & 0xff) as u8);
        b.push((w >> 8) as u8);
    }
    let vals = read_animation_values(&b, 0, 10).unwrap();
    assert!(vals.is_empty());
}

#[test]
fn reader_rejects_truncated_stream() {
    // header announces two explicit values but only one fits
    let mut b: Vec<u8> = Vec::new();
    for w in [0x0302u16, 5] {
        b.push((w & 0xff) as u8);
        b.push((w >> 8) as u8);
    }
    assert!(read_animation_values(&b, 0, 5).is_err());
    // zero frames requested: nothing is read at all
    assert!(read_animation_values(&b, 0, 0).unwrap().is_empty());
}
