//! The framing of record batches, as far as it must be known before a
//! buffer is handed to the decoder.
//!
//! A buffer holds batches one after another. Each starts with a base offset
//! of eight bytes and a length of four, both big-endian; the length counts
//! the bytes that follow it. The byte at place 16 is the format version. A
//! batch of version 2 stores the offset and the timestamp of each record as
//! a 32-bit difference from a base in its header. The sums are taken in
//! `i64`, so a base close to the limits of `i64` could make them overflow.
//! This module finds such batches.
use vstd::prelude::*;

verus! {

/// Where the length of a batch stands, counted from its start.
pub const LENGTH_AT: usize = 8;

/// Where the bytes that the length counts begin.
pub const BODY_AT: usize = 12;

/// Where the format version of a batch stands.
pub const VERSION_AT: usize = 16;

/// Where the first timestamp of a version 2 batch stands.
pub const FIRST_TIMESTAMP_AT: usize = 27;

/// How many bytes the header of a version 2 batch takes after the length.
pub const HEADER_LEN: u32 = 49;

/// The four bytes from `at` on, read as a big-endian unsigned number.
pub open spec fn be_u32(bytes: Seq<u8>, at: int) -> int {
    bytes[at] * 0x100_0000 + bytes[at + 1] * 0x1_0000 + bytes[at + 2] * 0x100 + bytes[at + 3]
}

/// The eight bytes from `at` on, read as a big-endian unsigned number.
pub open spec fn be_u64(bytes: Seq<u8>, at: int) -> int {
    be_u32(bytes, at) * 0x1_0000_0000 + be_u32(bytes, at + 4)
}

/// The eight bytes from `at` on, read as a big-endian number in two's
/// complement.
pub open spec fn be_i64(bytes: Seq<u8>, at: int) -> int {
    let unsigned = be_u64(bytes, at);
    if unsigned < 0x8000_0000_0000_0000 {
        unsigned
    } else {
        unsigned - 0x1_0000_0000_0000_0000
    }
}

/// Any 32-bit difference can be added to `base` within `i64`.
pub open spec fn is_safe_base(base: int) -> bool {
    i64::MIN - i32::MIN <= base <= i64::MAX - i32::MAX
}

/// No batch of version 2 that the decoder can reach from `start` has a base
/// offset or a first timestamp to which a 32-bit difference cannot be added
/// within `i64`. The walk ends where the decoder ends with an error: at a
/// buffer too short to tell the version, a negative length, a batch that is
/// longer than what is left, an unknown version, or a header that is cut
/// short.
pub open spec fn deltas_in_range(bytes: Seq<u8>, start: int) -> bool
    decreases bytes.len() - start,
{
    if start < 0 || bytes.len() - start <= VERSION_AT {
        true
    } else {
        let length = be_u32(bytes, start + LENGTH_AT);
        let version = bytes[start + VERSION_AT];
        if length >= 0x8000_0000 || start + BODY_AT + length > bytes.len() || version > 2 {
            true
        } else if version == 2 && length < HEADER_LEN {
            true
        } else if version == 2 && !(is_safe_base(be_i64(bytes, start)) && is_safe_base(
            be_i64(bytes, start + FIRST_TIMESTAMP_AT),
        )) {
            false
        } else {
            deltas_in_range(bytes, start + BODY_AT + length)
        }
    }
}

/// Reads four bytes as a big-endian unsigned number.
pub fn read_u32(bytes: &[u8], at: usize) -> (out: u32)
    requires
        at + 4 <= bytes@.len(),
    ensures
        out == be_u32(bytes@, at as int),
{
    bytes[at] as u32 * 0x100_0000 + bytes[at + 1] as u32 * 0x1_0000 + bytes[at + 2] as u32 * 0x100
        + bytes[at + 3] as u32
}

/// Reads eight bytes as a big-endian unsigned number.
pub fn read_u64(bytes: &[u8], at: usize) -> (out: u64)
    requires
        at + 8 <= bytes@.len(),
    ensures
        out == be_u64(bytes@, at as int),
{
    let len: usize = bytes.len();
    assert(at + 8 <= len);
    let high: u32 = read_u32(bytes, at);
    let low: u32 = read_u32(bytes, at + 4);
    high as u64 * 0x1_0000_0000 + low as u64
}

/// Whether the eight bytes from `at` on, read as a signed number, leave
/// room for any 32-bit difference.
pub fn has_safe_base(bytes: &[u8], at: usize) -> (out: bool)
    requires
        at + 8 <= bytes@.len(),
    ensures
        out == is_safe_base(be_i64(bytes@, at as int)),
{
    let unsigned: u64 = read_u64(bytes, at);
    unsigned <= 0x7fff_ffff_8000_0000 || unsigned >= 0x8000_0000_8000_0000
}

/// Whether the differences of every version 2 batch in the buffer can be
/// added to their bases within `i64`.
pub fn deltas_stay_in_range(bytes: &[u8]) -> (out: bool)
    ensures
        out == deltas_in_range(bytes@, 0),
{
    let len: usize = bytes.len();
    let mut start: usize = 0;
    loop
        invariant
            start <= len,
            len == bytes@.len(),
            deltas_in_range(bytes@, 0) == deltas_in_range(bytes@, start as int),
        decreases len - start,
    {
        if len - start <= VERSION_AT {
            return true;
        }
        let length: u32 = read_u32(bytes, start + LENGTH_AT);
        let version: u8 = bytes[start + VERSION_AT];
        if length >= 0x8000_0000 || length as usize > len - start - BODY_AT || version > 2 {
            return true;
        }
        if version == 2 {
            if length < HEADER_LEN {
                return true;
            }
            if !(has_safe_base(bytes, start) && has_safe_base(bytes, start + FIRST_TIMESTAMP_AT)) {
                return false;
            }
        }
        start = start + BODY_AT + length as usize;
    }
}

} // verus!
