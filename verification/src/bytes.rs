//! Bounded view layer: every read out of the backing buffer goes through the
//! bounds- and alignment-checked helpers in this module, never through raw
//! indexing in the higher layers.
//!
//! All multi-byte fields of the format are little-endian; the spec functions
//! here give their mathematical value, and the exec readers are proved to
//! return exactly that value.

use vstd::prelude::*;

use crate::error::Error;
use crate::error::FileType;
use crate::error::Result;

verus! {

/// The little-endian value of two bytes at `i`.
pub open spec fn le16(b: Seq<u8>, i: int) -> int {
    b[i] + 0x100 * b[i + 1]
}

/// The little-endian value of four bytes at `i`.
pub open spec fn le32(b: Seq<u8>, i: int) -> int {
    b[i] + 0x100 * b[i + 1] + 0x10000 * b[i + 2] + 0x1000000 * b[i + 3]
}

/// Two's-complement reading of a 16-bit value.
pub open spec fn as_signed16(v: int) -> int {
    if v < 0x8000 {
        v
    } else {
        v - 0x10000
    }
}

/// Two's-complement reading of a 32-bit value.
pub open spec fn as_signed32(v: int) -> int {
    if v < 0x8000_0000 {
        v
    } else {
        v - 0x1_0000_0000
    }
}

/// The signed little-endian value of two bytes at `i`.
pub open spec fn sle16(b: Seq<u8>, i: int) -> int {
    as_signed16(le16(b, i))
}

/// The signed little-endian value of four bytes at `i`.
pub open spec fn sle32(b: Seq<u8>, i: int) -> int {
    as_signed32(le32(b, i))
}

/// A byte range `[offset, offset + size)` lies fully inside a buffer of
/// length `len`.
pub open spec fn range_ok(len: int, offset: int, size: int) -> bool {
    0 <= offset && 0 <= size && offset + size <= len
}

/// The largest buffer length the decoder admits; positions and relative
/// offsets then always fit signed 64-bit arithmetic.
pub const MAX_BUFFER: u64 = 0x7fff_ffff_ffff;

/// A buffer the decoder can address: its length fits both the machine's
/// `usize` and the decoder's signed 64-bit offset arithmetic.
pub open spec fn buf_wf(b: Seq<u8>) -> bool {
    b.len() <= MAX_BUFFER && b.len() <= usize::MAX
}

/// An offset satisfies a record shape's alignment requirement.
pub open spec fn aligned(offset: int, align: int) -> bool {
    offset % align == 0
}

pub fn read_u8(b: &Vec<u8>, i: usize) -> (r: u8)
    requires
        i < b.len(),
    ensures
        r == b@[i as int],
{
    b[i]
}

pub fn read_u16(b: &Vec<u8>, i: usize) -> (r: u16)
    requires
        i + 2 <= b.len(),
    ensures
        r as int == le16(b@, i as int),
{
    b[i] as u16 + 0x100 * (b[i + 1] as u16)
}

pub fn read_u32(b: &Vec<u8>, i: usize) -> (r: u32)
    requires
        i + 4 <= b.len(),
    ensures
        r as int == le32(b@, i as int),
{
    b[i] as u32 + 0x100 * (b[i + 1] as u32) + 0x10000 * (b[i + 2] as u32) + 0x1000000 * (b[i
        + 3] as u32)
}

pub fn read_i16(b: &Vec<u8>, i: usize) -> (r: i16)
    requires
        i + 2 <= b.len(),
    ensures
        r as int == sle16(b@, i as int),
{
    let v: i32 = read_u16(b, i) as i32;
    if v >= 0x8000 {
        (v - 0x10000) as i16
    } else {
        v as i16
    }
}

pub fn read_i32(b: &Vec<u8>, i: usize) -> (r: i32)
    requires
        i + 4 <= b.len(),
    ensures
        r as int == sle32(b@, i as int),
{
    let v: i64 = read_u32(b, i) as i64;
    if v >= 0x8000_0000 {
        (v - 0x1_0000_0000) as i32
    } else {
        v as i32
    }
}

/// Checks that `count` records of `size` bytes starting at absolute position
/// `pos` lie inside the buffer and that `pos` meets the shape's alignment.
/// Negative positions or counts (decoded from signed fields) fail the same
/// way; nothing is ever read outside the buffer.
pub fn array_fits(b: &Vec<u8>, pos: i64, count: i64, size: u64, align: u64) -> (r: bool)
    requires
        1 <= size <= 0x10000,
        1 <= align <= 16,
        buf_wf(b@),
    ensures
        r == (0 <= pos && 0 <= count && range_ok(b@.len() as int, pos as int, count * size)
            && aligned(pos as int, align as int)),
{
    if pos < 0 || count < 0 {
        return false;
    }
    if count > 0x7fff_ffff_ffff || pos > 0x7fff_ffff_ffff {
        // larger than any buffer this layer admits
        proof {
            assert(count * size >= count && count * size >= 0) by (nonlinear_arith)
                requires
                    size >= 1 && count >= 0,
            ;
        }
        return false;
    }
    proof {
        assert(0 <= count * size <= 0x7fff_ffff_ffff * 0x10000) by (nonlinear_arith)
            requires
                0 <= count <= 0x7fff_ffff_ffff && 1 <= size <= 0x10000,
        ;
    }
    let total: i64 = count * (size as i64);
    let n: usize = b.len();
    pos <= n as i64 && total <= n as i64 - pos && pos % (align as i64) == 0
}

/// The longest prefix of `b` from `start` that stops before a NUL byte found
/// before `end`, or `None` if no NUL occurs in `[start, end)`: the format
/// stores names as NUL-terminated prefixes.
pub open spec fn spec_nul_prefix(b: Seq<u8>, start: int, end: int) -> Option<Seq<u8>> {
    if exists|j: int| start <= j < end && b[j] == 0 {
        let stop = choose|j: int|
            start <= j < end && b[j] == 0 && (forall|k: int| start <= k < j ==> b[k] != 0);
        Some(b.subrange(start, stop))
    } else {
        None
    }
}

/// Finds the NUL terminator in `[start, end)` and returns the prefix before it.
pub fn nul_prefix(b: &Vec<u8>, start: usize, end: usize) -> (r: Option<Vec<u8>>)
    requires
        start <= end <= b.len(),
    ensures
        match r {
            Some(p) => spec_nul_prefix(b@, start as int, end as int) == Some(p@),
            None => spec_nul_prefix(b@, start as int, end as int) is None,
        },
{
    let mut j: usize = start;
    loop
        invariant
            start <= j <= end <= b@.len(),
            forall|k: int| start <= k < j ==> b@[k] != 0,
        ensures
            start <= j < end,
            b@[j as int] == 0,
            forall|k: int| start <= k < j ==> b@[k] != 0,
        decreases end - j,
    {
        if j == end {
            assert(spec_nul_prefix(b@, start as int, end as int) is None);
            return None;
        }
        if b[j] == 0 {
            break;
        }
        j = j + 1;
    }
    let mut out: Vec<u8> = Vec::new();
    let mut k: usize = start;
    while k < j
        invariant
            start <= k <= j < b@.len(),
            b@[j as int] == 0,
            forall|t: int| start <= t < j ==> b@[t] != 0,
            out@ == b@.subrange(start as int, k as int),
        decreases j - k,
    {
        out.push(b[k]);
        assert(out@ =~= b@.subrange(start as int, k as int + 1));
        k = k + 1;
    }
    proof {
        let stop = choose|jj: int|
            start <= jj < end && b@[jj] == 0 && (forall|kk: int|
                start <= kk < jj ==> b@[kk] != 0);
        assert(stop == j as int) by {
            if stop < j {
                assert(b@[stop] != 0);
            }
            if j < stop {
                assert(b@[j as int] != 0);
            }
        }
    }
    Some(out)
}

/// What decoding the NUL-terminated text at `pos` yields: the decoded
/// characters, or the corruption error describing the first violation —
/// position outside `[0, end]`, no terminator before `end`, or bytes that
/// are not valid text. The three descriptions are supplied by the caller,
/// naming the field being read.
#[verifier::opaque]
pub open spec fn spec_string_result(
    b: Seq<u8>,
    pos: int,
    end: int,
    oob: &'static str,
    eof: &'static str,
    bad: &'static str,
) -> core::result::Result<Seq<char>, Error> {
    if !(0 <= pos <= end) {
        Err(Error::Corrupted { ty: FileType::Mdl, error: oob })
    } else {
        match spec_nul_prefix(b, pos, end) {
            Option::None => Err(Error::Corrupted { ty: FileType::Mdl, error: eof }),
            Option::Some(p) => if vstd::utf8::valid_utf8(p) {
                Ok(vstd::utf8::decode_utf8(p))
            } else {
                Err(Error::Corrupted { ty: FileType::Mdl, error: bad })
            },
        }
    }
}

/// A `Result<String>` agrees with a spec-level string-decoding result.
pub open spec fn string_result_matches(
    r: Result<String>,
    s: core::result::Result<Seq<char>, Error>,
) -> bool {
    match (r, s) {
        (Ok(out), Ok(cs)) => out@ == cs,
        (Err(e), Err(e2)) => e == e2,
        _ => false,
    }
}

/// Reads the NUL-terminated text starting at `pos`, stopping the terminator
/// search at `end`; fails with the caller's description of the field when
/// the position is out of bounds, unterminated, or not valid text.
pub fn read_string_range(
    b: &Vec<u8>,
    pos: i64,
    end: usize,
    oob: &'static str,
    eof: &'static str,
    bad: &'static str,
) -> (r: Result<String>)
    requires
        end <= b.len(),
        buf_wf(b@),
    ensures
        string_result_matches(r, spec_string_result(b@, pos as int, end as int, oob, eof, bad)),
{
    proof {
        reveal(spec_string_result);
    }
    if pos < 0 || pos > end as i64 {
        return Err(Error::Corrupted { ty: FileType::Mdl, error: oob });
    }
    match nul_prefix(b, pos as usize, end) {
        Option::None => Err(Error::Corrupted { ty: FileType::Mdl, error: eof }),
        Option::Some(p) => match utf8_to_string(p) {
            Option::None => Err(Error::Corrupted { ty: FileType::Mdl, error: bad }),
            Option::Some(s) => Ok(s),
        },
    }
}

/// Reads the NUL-terminated text starting at `pos`, searching up to the end
/// of the buffer, as most name fields of the format are stored.
pub fn read_string_at(
    b: &Vec<u8>,
    pos: i64,
    oob: &'static str,
    eof: &'static str,
    bad: &'static str,
) -> (r: Result<String>)
    requires
        buf_wf(b@),
    ensures
        string_result_matches(
            r,
            spec_string_result(b@, pos as int, b@.len() as int, oob, eof, bad),
        ),
{
    let end: usize = b.len();
    read_string_range(b, pos, end, oob, eof, bad)
}

/// Bounded-view law: a byte range that runs past the end of the buffer is
/// never granted, whatever offset and shape produced it.
pub proof fn lemma_out_of_range_refused(len: int, offset: int, size: int)
    requires
        offset + size > len,
    ensures
        !range_ok(len, offset, size),
{
}

/// Multiplication keeps order on the left factor.
pub proof fn lemma_mul_mono(a: int, b: int, c: int)
    by (nonlinear_arith)
    requires
        a <= b,
        0 <= c,
    ensures
        a * c <= b * c,
{
}

/// Relies on `String::from_utf8`: it succeeds exactly on valid UTF-8 and
/// returns the string whose characters decode those bytes.
#[verifier::external_body]
pub fn utf8_to_string(bytes: Vec<u8>) -> (r: Option<String>)
    ensures
        r is Some <==> vstd::utf8::valid_utf8(bytes@),
        r is Some ==> r.unwrap()@ == vstd::utf8::decode_utf8(bytes@),
{
    match String::from_utf8(bytes) {
        Ok(s) => Some(s),
        Err(_) => None,
    }
}

} // verus!
