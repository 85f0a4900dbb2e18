//! Fixed-width little-endian primitives.
//!
//! Every multi-byte integer in the format is little-endian. Each reader
//! consumes a fixed number of bytes at a given offset and returns the value
//! together with the next offset; each writer appends the encoding to an
//! output buffer. The spec-level `dec_*` functions are total descriptions
//! of the readers, including exactly when `TruncatedInput` is reported.

use vstd::prelude::*;
use vstd::bytes::*;
use vstd::slice::{slice_index_get, slice_subrange};

use crate::error::CodecError;

verus! {

/// Relates a spec-level decode result (offset as `int`) to an executable
/// decode result (offset as `usize`).
pub open spec fn res_matches<T>(d: Result<(T, int), CodecError>, r: Result<(T, usize), CodecError>) -> bool {
    match d {
        Ok((dv, dn)) => r matches Ok((rv, rn)) && rv == dv && rn as int == dn,
        Err(e) => r matches Err(e2) && e2 == e,
    }
}

pub open spec fn dec_u8(b: Seq<u8>, pos: int) -> Result<(u8, int), CodecError>
    recommends
        0 <= pos,
{
    if pos + 1 <= b.len() {
        Ok((b[pos], pos + 1))
    } else {
        Err(CodecError::TruncatedInput)
    }
}

pub open spec fn dec_u16(b: Seq<u8>, pos: int) -> Result<(u16, int), CodecError>
    recommends
        0 <= pos,
{
    if pos + 2 <= b.len() {
        Ok((spec_u16_from_le_bytes(b.subrange(pos, pos + 2)), pos + 2))
    } else {
        Err(CodecError::TruncatedInput)
    }
}

/// The unsigned 32-bit value with the same little-endian byte pattern as `x`.
pub open spec fn u32_of_i32(x: i32) -> u32 {
    (if x >= 0 {
        x as int
    } else {
        x as int + 0x1_0000_0000
    }) as u32
}

/// Inverse of `u32_of_i32`.
pub open spec fn i32_of_u32(u: u32) -> i32 {
    (if u < 0x8000_0000 {
        u as int
    } else {
        u as int - 0x1_0000_0000
    }) as i32
}

pub proof fn lemma_i32_u32_round(x: i32, u: u32)
    ensures
        i32_of_u32(u32_of_i32(x)) == x,
        u32_of_i32(i32_of_u32(u)) == u,
{
}

pub open spec fn enc_i32(x: i32) -> Seq<u8> {
    spec_u32_to_le_bytes(u32_of_i32(x))
}

pub open spec fn dec_i32(b: Seq<u8>, pos: int) -> Result<(i32, int), CodecError>
    recommends
        0 <= pos,
{
    if pos + 4 <= b.len() {
        Ok((i32_of_u32(spec_u32_from_le_bytes(b.subrange(pos, pos + 4))), pos + 4))
    } else {
        Err(CodecError::TruncatedInput)
    }
}

/// Canonical encoding of a boolean; decoding accepts any nonzero byte as true.
pub open spec fn bool_byte(v: bool) -> u8 {
    if v {
        1
    } else {
        0
    }
}

pub open spec fn dec_bool(b: Seq<u8>, pos: int) -> Result<(bool, int), CodecError>
    recommends
        0 <= pos,
{
    if pos + 1 <= b.len() {
        Ok((b[pos] != 0, pos + 1))
    } else {
        Err(CodecError::TruncatedInput)
    }
}

pub fn read_u8(data: &[u8], pos: usize) -> (r: Result<(u8, usize), CodecError>)
    ensures
        res_matches(dec_u8(data@, pos as int), r),
{
    if pos < data.len() {
        Ok((*slice_index_get(data, pos), pos + 1))
    } else {
        Err(CodecError::TruncatedInput)
    }
}

pub fn read_u16_le(data: &[u8], pos: usize) -> (r: Result<(u16, usize), CodecError>)
    ensures
        res_matches(dec_u16(data@, pos as int), r),
{
    if data.len() >= 2 && pos <= data.len() - 2 {
        let s = slice_subrange(data, pos, pos + 2);
        Ok((u16_from_le_bytes(s), pos + 2))
    } else {
        Err(CodecError::TruncatedInput)
    }
}

pub fn read_i32_le(data: &[u8], pos: usize) -> (r: Result<(i32, usize), CodecError>)
    ensures
        res_matches(dec_i32(data@, pos as int), r),
{
    if data.len() >= 4 && pos <= data.len() - 4 {
        let s = slice_subrange(data, pos, pos + 4);
        let u = u32_from_le_bytes(s);
        let wide: i64 = u as i64;
        let signed: i64 = if wide >= 0x8000_0000 {
            wide - 0x1_0000_0000
        } else {
            wide
        };
        Ok((signed as i32, pos + 4))
    } else {
        Err(CodecError::TruncatedInput)
    }
}

pub fn read_bool(data: &[u8], pos: usize) -> (r: Result<(bool, usize), CodecError>)
    ensures
        res_matches(dec_bool(data@, pos as int), r),
{
    if pos < data.len() {
        Ok((*slice_index_get(data, pos) != 0, pos + 1))
    } else {
        Err(CodecError::TruncatedInput)
    }
}

pub fn write_u8(out: &mut Vec<u8>, v: u8)
    ensures
        final(out)@ == old(out)@ + seq![v],
{
    out.push(v);
    assert(out@ =~= old(out)@ + seq![v]);
}

pub fn write_u16_le(out: &mut Vec<u8>, v: u16)
    ensures
        final(out)@ == old(out)@ + spec_u16_to_le_bytes(v),
{
    let bytes = u16_to_le_bytes(v);
    out.extend_from_slice(bytes.as_slice());
}

pub fn write_i32_le(out: &mut Vec<u8>, v: i32)
    ensures
        final(out)@ == old(out)@ + enc_i32(v),
{
    let wide: i64 = v as i64;
    let unsigned_wide: i64 = if wide < 0 {
        wide + 0x1_0000_0000
    } else {
        wide
    };
    let u = unsigned_wide as u32;
    assert(u == u32_of_i32(v));
    let bytes = u32_to_le_bytes(u);
    out.extend_from_slice(bytes.as_slice());
}

pub fn write_bool(out: &mut Vec<u8>, v: bool)
    ensures
        final(out)@ == old(out)@ + seq![bool_byte(v)],
{
    let byte: u8 = if v {
        1
    } else {
        0
    };
    out.push(byte);
    assert(out@ =~= old(out)@ + seq![bool_byte(v)]);
}

} // verus!
