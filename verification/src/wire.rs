//! Little-endian fields at byte offsets of a datagram or memory image.

use byteorder::{ByteOrder, LittleEndian};
use vstd::prelude::*;
use vstd::slice::slice_subrange;
use crate::ieee::{f32_to_milli, milli_from_f32_bits};

verus! {

/// The unsigned number that the first two bytes of `s` hold, low byte first.
pub open spec fn le_u16(s: Seq<u8>) -> u16 {
    (s[0] as int + s[1] as int * 0x100) as u16
}

/// The unsigned number that the first four bytes of `s` hold, low byte first.
pub open spec fn le_u32(s: Seq<u8>) -> u32 {
    (s[0] as int + s[1] as int * 0x100 + s[2] as int * 0x1_0000 + s[3] as int * 0x100_0000) as u32
}

/// The unsigned number that the first eight bytes of `s` hold, low byte first.
pub open spec fn le_u64(s: Seq<u8>) -> u64 {
    (le_u32(s) as int + le_u32(s.skip(4)) as int * 0x1_0000_0000) as u64
}

/// The two's-complement reading of the first four bytes of `s`.
pub open spec fn le_i32(s: Seq<u8>) -> i32 {
    if le_u32(s) >= 0x8000_0000 {
        (le_u32(s) as int - 0x1_0000_0000) as i32
    } else {
        le_u32(s) as i32
    }
}

/// The two's-complement reading of one byte.
pub open spec fn as_i8(b: u8) -> i8 {
    if b >= 0x80 {
        (b as int - 0x100) as i8
    } else {
        b as i8
    }
}

/// `len` bytes of `s` starting at `off`.
pub open spec fn field(s: Seq<u8>, off: int, len: int) -> Seq<u8> {
    s.subrange(off, off + len)
}

/// The single-precision float at `off`, in thousandths.
pub open spec fn le_f32_milli(s: Seq<u8>, off: int) -> i32 {
    f32_to_milli(le_u32(field(s, off, 4)))
}

/// `byteorder::LittleEndian::read_u16`: the first two bytes of `buf` as a
/// little-endian number. It panics on fewer than two bytes, which the
/// precondition rules out.
#[verifier::external_body]
fn read_u16_le(buf: &[u8]) -> (r: u16)
    requires
        buf@.len() >= 2,
    ensures
        r == le_u16(buf@),
{
    LittleEndian::read_u16(buf)
}

/// `byteorder::LittleEndian::read_u32`: the first four bytes of `buf` as a
/// little-endian number. It panics on fewer than four bytes, which the
/// precondition rules out.
#[verifier::external_body]
fn read_u32_le(buf: &[u8]) -> (r: u32)
    requires
        buf@.len() >= 4,
    ensures
        r == le_u32(buf@),
{
    LittleEndian::read_u32(buf)
}

/// `byteorder::LittleEndian::read_u64`: the first eight bytes of `buf` as a
/// little-endian number. It panics on fewer than eight bytes, which the
/// precondition rules out.
#[verifier::external_body]
fn read_u64_le(buf: &[u8]) -> (r: u64)
    requires
        buf@.len() >= 8,
    ensures
        r == le_u64(buf@),
{
    LittleEndian::read_u64(buf)
}

/// `byteorder::LittleEndian::read_i32`: the first four bytes of `buf` as a
/// little-endian two's-complement number. It panics on fewer than four bytes,
/// which the precondition rules out.
#[verifier::external_body]
fn read_i32_le(buf: &[u8]) -> (r: i32)
    requires
        buf@.len() >= 4,
    ensures
        r == le_i32(buf@),
{
    LittleEndian::read_i32(buf)
}

/// The byte at `off`.
pub fn u8_at(buf: &[u8], off: usize) -> (r: u8)
    requires
        off < buf@.len(),
    ensures
        r == buf@[off as int],
{
    buf[off]
}

/// The byte at `off` as a signed number.
pub fn i8_at(buf: &[u8], off: usize) -> (r: i8)
    requires
        off < buf@.len(),
    ensures
        r == as_i8(buf@[off as int]),
{
    let b: u8 = buf[off];
    if b >= 0x80 {
        (b as i16 - 0x100) as i8
    } else {
        b as i8
    }
}

/// The little-endian `u16` at `off`.
pub fn u16_at(buf: &[u8], off: usize) -> (r: u16)
    requires
        off + 2 <= buf@.len(),
    ensures
        r == le_u16(field(buf@, off as int, 2)),
{
    let len: usize = buf.len();
    assert(off + 2 <= len);
    read_u16_le(slice_subrange(buf, off, off + 2))
}

/// The little-endian `u32` at `off`.
pub fn u32_at(buf: &[u8], off: usize) -> (r: u32)
    requires
        off + 4 <= buf@.len(),
    ensures
        r == le_u32(field(buf@, off as int, 4)),
{
    let len: usize = buf.len();
    assert(off + 4 <= len);
    read_u32_le(slice_subrange(buf, off, off + 4))
}

/// The little-endian `u64` at `off`.
pub fn u64_at(buf: &[u8], off: usize) -> (r: u64)
    requires
        off + 8 <= buf@.len(),
    ensures
        r == le_u64(field(buf@, off as int, 8)),
{
    let len: usize = buf.len();
    assert(off + 8 <= len);
    read_u64_le(slice_subrange(buf, off, off + 8))
}

/// The little-endian `i32` at `off`.
pub fn i32_at(buf: &[u8], off: usize) -> (r: i32)
    requires
        off + 4 <= buf@.len(),
    ensures
        r == le_i32(field(buf@, off as int, 4)),
{
    let len: usize = buf.len();
    assert(off + 4 <= len);
    read_i32_le(slice_subrange(buf, off, off + 4))
}

/// The little-endian single-precision float at `off`, in thousandths.
pub fn f32_milli_at(buf: &[u8], off: usize) -> (r: i32)
    requires
        off + 4 <= buf@.len(),
    ensures
        r == le_f32_milli(buf@, off as int),
{
    milli_from_f32_bits(u32_at(buf, off))
}

} // verus!
