//! Quaternion codec round-trips: encoding unit quaternions through each of
//! the 48-bit, 64-bit and 3x16-bit packed schemes and decoding them back
//! must reproduce each component within the scheme's quantization
//! tolerance, with the reconstructed quaternion unit-norm within floating
//! tolerance. Also the half-precision decode conventions, including the
//! saturation and zero-for-NaN rules.

use plumber_mdl::codec::{half_decode, quat16_decode, quat48_decode, quat64_decode, Half};

fn sample_quats() -> Vec<[f64; 4]> {
    let mut qs: Vec<[f64; 4]> = vec![
        [0.0, 0.0, 0.0, 1.0],
        [1.0, 0.0, 0.0, 0.0],
        [0.0, 1.0, 0.0, 0.0],
        [0.5, 0.5, 0.5, 0.5],
        [0.5, -0.5, 0.5, -0.5],
        [0.3, 0.1, -0.2, 0.0],
        [-0.1, 0.7, 0.2, -0.3],
        [0.25, -0.33, 0.41, 0.52],
    ];
    for q in &mut qs {
        let n = (q[0] * q[0] + q[1] * q[1] + q[2] * q[2] + q[3] * q[3]).sqrt();
        for c in q.iter_mut() {
            *c /= n;
        }
    }
    qs
}

fn largest_index(q: &[f64; 4]) -> usize {
    let mut best = 0;
    for i in 1..4 {
        if q[i].abs() > q[best].abs() {
            best = i;
        }
    }
    best
}

/// The three stored components for a dropped axis, in the order the format
/// reconstructs them.
fn stored_components(q: &[f64; 4], missing: usize) -> [f64; 3] {
    match missing {
        1 => [q[1], q[2], q[3]], // y, z, w
        2 => [q[2], q[3], q[0]], // z, w, x
        3 => [q[3], q[0], q[1]], // w, x, y
        _ => [q[0], q[1], q[2]], // x, y, z
    }
}

fn assemble(missing: usize, a: f64, b: f64, c: f64, m: f64) -> [f64; 4] {
    match missing {
        1 => [m, a, b, c],
        2 => [c, m, a, b],
        3 => [b, c, m, a],
        _ => [a, b, c, m],
    }
}

fn check_quat(expected: &[f64; 4], got: &[f64; 4], tol: f64) {
    for i in 0..4 {
        assert!(
            (expected[i] - got[i]).abs() < tol,
            "component {} differs: {} vs {} (tol {})",
            i,
            expected[i],
            got[i],
            tol
        );
    }
    let n = (got[0] * got[0] + got[1] * got[1] + got[2] * got[2] + got[3] * got[3]).sqrt();
    assert!((n - 1.0).abs() < 1e-2, "not unit norm: {}", n);
}

#[test]
fn quat48_round_trip() {
    for q in sample_quats() {
        let largest = largest_index(&q);
        // the stored 2-bit index names the reconstructed axis: 1 for x, 2
        // for y, 3 for z, 0 for w
        let missing = [1usize, 2, 3, 0][largest];
        let neg = q[largest] < 0.0;
        let [a, b, c] = stored_components(&q, missing);
        let ar = (a * 23168.0 + 16384.0).round() as u16;
        let br = (b * 23168.0 + 16384.0).round() as u16;
        let cr = (c * 23168.0 + 16384.0).round() as u16;
        let mut bytes = vec![0u8; 6];
        bytes[0] = (ar & 0xff) as u8;
        bytes[1] = (ar >> 8) as u8 | (((missing as u8) >> 1) << 7);
        bytes[2] = (br & 0xff) as u8;
        bytes[3] = (br >> 8) as u8 | (((missing as u8) & 1) << 7);
        bytes[4] = (cr & 0xff) as u8;
        bytes[5] = (cr >> 8) as u8 | if neg { 0x80 } else { 0 };
        let d = quat48_decode(&bytes, 0);
        assert_eq!(d.missing_index as usize, missing);
        assert_eq!(d.missing_negative, neg);
        let af = (d.a as f64 - 16384.0) / 23168.0;
        let bf = (d.b as f64 - 16384.0) / 23168.0;
        let cf = (d.c as f64 - 16384.0) / 23168.0;
        let sq = 1.0 - af * af - bf * bf - cf * cf;
        let m = sq.max(0.0).sqrt() * if d.missing_negative { -1.0 } else { 1.0 };
        let got = assemble(missing, af, bf, cf, m);
        check_quat(&q, &got, 1e-2);
    }
}

#[test]
fn quat64_round_trip() {
    for q in sample_quats() {
        // this scheme always reconstructs w
        let neg = q[3] < 0.0;
        let enc = |v: f64| -> u32 {
            let r = (v * 1048576.5 + 1048576.0).round();
            r.clamp(0.0, 2097151.0) as u32
        };
        let (x, y, z) = (enc(q[0]), enc(q[1]), enc(q[2]));
        let mut bytes = vec![0u8; 8];
        bytes[0] = (x & 0xff) as u8;
        bytes[1] = ((x >> 8) & 0xff) as u8;
        bytes[2] = ((x >> 16) & 0x1f) as u8 | (((y & 0x7) as u8) << 5);
        bytes[3] = ((y >> 3) & 0xff) as u8;
        bytes[4] = ((y >> 11) & 0xff) as u8;
        bytes[5] = ((y >> 19) & 0x3) as u8 | (((z & 0x3f) as u8) << 2);
        bytes[6] = ((z >> 6) & 0xff) as u8;
        bytes[7] = ((z >> 14) & 0x7f) as u8 | if neg { 0x80 } else { 0 };
        let d = quat64_decode(&bytes, 0);
        let xf = (d.x as f64 - 1048576.0) / 1048576.5;
        let yf = (d.y as f64 - 1048576.0) / 1048576.5;
        let zf = (d.z as f64 - 1048576.0) / 1048576.5;
        let sq = 1.0 - xf * xf - yf * yf - zf * zf;
        let w = sq.max(0.0).sqrt() * if d.w_negative { -1.0 } else { 1.0 };
        check_quat(&q, &[xf, yf, zf, w], 1e-2);
    }
}

#[test]
fn quat16_round_trip() {
    for q in sample_quats() {
        // this scheme also reconstructs w; z is stored with 15 bits
        let neg = q[3] < 0.0;
        let xr = ((q[0] * 32768.0 + 32768.0).round()).clamp(0.0, 65535.0) as u16;
        let yr = ((q[1] * 32768.0 + 32768.0).round()).clamp(0.0, 65535.0) as u16;
        let zr = ((q[2] * 16384.0 + 16384.0).round()).clamp(0.0, 32767.0) as u16;
        let zw = zr | if neg { 0x8000 } else { 0 };
        let mut bytes = vec![0u8; 6];
        for (i, w) in [xr, yr, zw].iter().enumerate() {
            bytes[2 * i] = (w & 0xff) as u8;
            bytes[2 * i + 1] = (w >> 8) as u8;
        }
        let d = quat16_decode(&bytes, 0);
        assert_eq!(d.w_negative, neg);
        let xf = (d.x as f64 - 32768.0) / 32768.0;
        let yf = (d.y as f64 - 32768.0) / 32768.0;
        let zf = (d.z as f64 - 16384.0) / 16384.0;
        let sq = 1.0 - xf * xf - yf * yf - zf * zf;
        let w = sq.max(0.0).sqrt() * if d.w_negative { -1.0 } else { 1.0 };
        check_quat(&q, &[xf, yf, zf, w], 1e-2);
    }
}

/// The numeric half-precision reconstruction, with the format's own
/// conventions: saturation instead of infinity, 0.0 for NaN-like values,
/// and `mantissa / 1024 / 16384` for subnormals.
fn half_value(h: Half) -> f64 {
    let sign = if h.negative { -1.0 } else { 1.0 };
    if h.exponent == 31 {
        if h.mantissa == 0 {
            return 65504.0 * sign;
        }
        return 0.0;
    }
    if h.exponent == 0 && h.mantissa != 0 {
        return sign * (h.mantissa as f64 / 1024.0) / 16384.0;
    }
    if h.exponent == 0 {
        return sign * 0.0;
    }
    sign * (1.0 + h.mantissa as f64 / 1024.0) * 2f64.powi(h.exponent as i32 - 15)
}

#[test]
fn half_decode_field_split() {
    let h = half_decode(0x3C00);
    assert!(!h.negative);
    assert_eq!(h.exponent, 15);
    assert_eq!(h.mantissa, 0);
    let h = half_decode(0xBC00);
    assert!(h.negative);
    assert_eq!(h.exponent, 15);
    let h = half_decode(0x7C01);
    assert_eq!(h.exponent, 31);
    assert_eq!(h.mantissa, 1);
}

#[test]
fn half_values_follow_the_format_conventions() {
    assert_eq!(half_value(half_decode(0x3C00)), 1.0);
    assert_eq!(half_value(half_decode(0x4000)), 2.0);
    assert_eq!(half_value(half_decode(0xC000)), -2.0);
    assert_eq!(half_value(half_decode(0x3800)), 0.5);
    assert_eq!(half_value(half_decode(0x0000)), 0.0);
    // all-ones exponent with zero mantissa saturates instead of infinity
    assert_eq!(half_value(half_decode(0x7C00)), 65504.0);
    assert_eq!(half_value(half_decode(0xFC00)), -65504.0);
    // all-ones exponent with nonzero mantissa decodes to 0.0, not NaN
    assert_eq!(half_value(half_decode(0x7C01)), 0.0);
    assert_eq!(half_value(half_decode(0x7FFF)), 0.0);
    // subnormals
    let tiny = half_value(half_decode(0x0001));
    assert!((tiny - 1.0 / 1024.0 / 16384.0).abs() < 1e-12);
    let h = half_value(half_decode(0x83FF));
    assert!((h + 1023.0 / 1024.0 / 16384.0).abs() < 1e-12);
}
