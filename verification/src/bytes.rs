//! Little-endian field readers over raw engine buffers.
use crate::error::ParseError;
use vstd::prelude::*;

verus! {

/// The little-endian `u16` stored at `s[i..i + 2]`.
pub open spec fn le_u16(s: Seq<u8>, i: int) -> u16 {
    (s[i] + 256 * s[i + 1]) as u16
}

/// The little-endian `u32` stored at `s[i..i + 4]`.
pub open spec fn le_u32(s: Seq<u8>, i: int) -> u32 {
    (s[i] + 256 * s[i + 1] + 65536 * s[i + 2] + 16777216 * s[i + 3]) as u32
}

/// The little-endian `u64` stored at `s[i..i + 8]`.
pub open spec fn le_u64(s: Seq<u8>, i: int) -> u64 {
    (s[i] + 256 * s[i + 1] + 65536 * s[i + 2] + 16777216 * s[i + 3] + 4294967296 * s[i + 4]
        + 1099511627776 * s[i + 5] + 281474976710656 * s[i + 6] + 72057594037927936 * s[i + 7])
        as u64
}

/// Whether `n` bytes starting at `at` lie inside a buffer of length `len`.
pub open spec fn fits(len: int, at: int, n: int) -> bool {
    0 <= at && at + n <= len
}

/// Decodes the little-endian `u16` at `bytes[at..at + 2]`.
pub fn get_u16_le(bytes: &[u8], at: usize) -> (v: u16)
    requires
        fits(bytes@.len() as int, at as int, 2),
    ensures
        v == le_u16(bytes@, at as int),
{
    bytes[at] as u16 + 256 * (bytes[at + 1] as u16)
}

/// Decodes the little-endian `u32` at `bytes[at..at + 4]`.
pub fn get_u32_le(bytes: &[u8], at: usize) -> (v: u32)
    requires
        fits(bytes@.len() as int, at as int, 4),
    ensures
        v == le_u32(bytes@, at as int),
{
    bytes[at] as u32 + 256 * (bytes[at + 1] as u32) + 65536 * (bytes[at + 2] as u32) + 16777216
        * (bytes[at + 3] as u32)
}

/// Decodes the little-endian `u64` at `bytes[at..at + 8]`.
pub fn get_u64_le(bytes: &[u8], at: usize) -> (v: u64)
    requires
        fits(bytes@.len() as int, at as int, 8),
    ensures
        v == le_u64(bytes@, at as int),
{
    bytes[at] as u64 + 256 * (bytes[at + 1] as u64) + 65536 * (bytes[at + 2] as u64) + 16777216
        * (bytes[at + 3] as u64) + 4294967296 * (bytes[at + 4] as u64) + 1099511627776 * (bytes[at
        + 5] as u64) + 281474976710656 * (bytes[at + 6] as u64) + 72057594037927936 * (bytes[at
        + 7] as u64)
}

/// What reading a `u8` at cursor `c` of `s` yields.
pub open spec fn spec_read_u8(s: Seq<u8>, c: int) -> Result<u8, ParseError> {
    if fits(s.len() as int, c, 1) {
        Ok(s[c])
    } else {
        Err(ParseError::Missing { offset: c as usize })
    }
}

/// What reading a little-endian `u32` at cursor `c` of `s` yields.
pub open spec fn spec_read_u32(s: Seq<u8>, c: int) -> Result<u32, ParseError> {
    if fits(s.len() as int, c, 4) {
        Ok(le_u32(s, c))
    } else {
        Err(ParseError::Missing { offset: c as usize })
    }
}

/// What reading a little-endian `u64` at cursor `c` of `s` yields.
pub open spec fn spec_read_u64(s: Seq<u8>, c: int) -> Result<u64, ParseError> {
    if fits(s.len() as int, c, 8) {
        Ok(le_u64(s, c))
    } else {
        Err(ParseError::Missing { offset: c as usize })
    }
}

/// Reads the byte under the cursor and moves the cursor past it.
/// A cursor at or past the end is reported as a missing field and left where it is.
pub fn read_u8(raw_bytes: &[u8], cursor: &mut usize) -> (res: Result<u8, ParseError>)
    ensures
        res == spec_read_u8(raw_bytes@, *old(cursor) as int),
        res is Ok ==> *final(cursor) == *old(cursor) + 1,
        res is Err ==> *final(cursor) == *old(cursor),
{
    if *cursor < raw_bytes.len() {
        let value = raw_bytes[*cursor];
        *cursor = *cursor + 1;
        Ok(value)
    } else {
        Err(ParseError::Missing { offset: *cursor })
    }
}

/// Reads the little-endian `u32` under the cursor and moves the cursor past it.
/// Fewer than four remaining bytes are reported as a missing field, the cursor unchanged.
pub fn read_u32(raw_bytes: &[u8], cursor: &mut usize) -> (res: Result<u32, ParseError>)
    ensures
        res == spec_read_u32(raw_bytes@, *old(cursor) as int),
        res is Ok ==> *final(cursor) == *old(cursor) + 4,
        res is Err ==> *final(cursor) == *old(cursor),
{
    if *cursor <= raw_bytes.len() && raw_bytes.len() - *cursor >= 4 {
        let value = get_u32_le(raw_bytes, *cursor);
        *cursor = *cursor + 4;
        Ok(value)
    } else {
        Err(ParseError::Missing { offset: *cursor })
    }
}

/// Reads the little-endian `u64` under the cursor and moves the cursor past it.
/// Fewer than eight remaining bytes are reported as a missing field, the cursor unchanged.
pub fn read_u64(raw_bytes: &[u8], cursor: &mut usize) -> (res: Result<u64, ParseError>)
    ensures
        res == spec_read_u64(raw_bytes@, *old(cursor) as int),
        res is Ok ==> *final(cursor) == *old(cursor) + 8,
        res is Err ==> *final(cursor) == *old(cursor),
{
    if *cursor <= raw_bytes.len() && raw_bytes.len() - *cursor >= 8 {
        let value = get_u64_le(raw_bytes, *cursor);
        *cursor = *cursor + 8;
        Ok(value)
    } else {
        Err(ParseError::Missing { offset: *cursor })
    }
}

} // verus!
