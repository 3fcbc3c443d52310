//! Little-endian integers on the wire.
//!
//! Integers are written byte by byte here; they are read by the `byteorder`
//! crate, whose functions enter through the two wrappers at the end.

use byteorder::{ByteOrder, LittleEndian};
use vstd::prelude::*;
use vstd::slice::slice_subrange;

verus! {

/// The 16-bit integer that two bytes spell, lowest byte first.
pub open spec fn le_u16(b: Seq<u8>) -> int {
    b[0] as int + 0x100 * (b[1] as int)
}

/// The 32-bit integer that four bytes spell, lowest byte first.
pub open spec fn le_u32(b: Seq<u8>) -> int {
    b[0] as int + 0x100 * (b[1] as int) + 0x1_0000 * (b[2] as int) + 0x100_0000 * (b[3] as int)
}

/// The 64-bit integer that eight bytes spell, lowest byte first.
pub open spec fn le_u64(b: Seq<u8>) -> int {
    le_u32(b.subrange(0, 4)) + 0x1_0000_0000 * le_u32(b.subrange(4, 8))
}

/// The two bytes that spell `x`, lowest first.
pub open spec fn le_bytes_u16(x: u16) -> Seq<u8> {
    seq![(x % 0x100) as u8, (x / 0x100) as u8]
}

/// The four bytes that spell `x`, lowest first.
pub open spec fn le_bytes_u32(x: u32) -> Seq<u8> {
    seq![
        (x % 0x100) as u8,
        ((x / 0x100) % 0x100) as u8,
        ((x / 0x1_0000) % 0x100) as u8,
        (x / 0x100_0000) as u8,
    ]
}

/// The eight bytes that spell `x`, lowest first.
pub open spec fn le_bytes_u64(x: u64) -> Seq<u8> {
    le_bytes_u32((x % 0x1_0000_0000) as u32) + le_bytes_u32((x / 0x1_0000_0000) as u32)
}

/// Reading what was written gives the integer back.
pub proof fn lemma_le_u16_round_trip(x: u16)
    ensures
        le_bytes_u16(x).len() == 2,
        le_u16(le_bytes_u16(x)) == x,
{
}

/// Reading what was written gives the integer back.
pub proof fn lemma_le_u32_round_trip(x: u32)
    ensures
        le_bytes_u32(x).len() == 4,
        le_u32(le_bytes_u32(x)) == x,
{
}

/// Reading what was written gives the integer back.
pub proof fn lemma_le_u64_round_trip(x: u64)
    ensures
        le_bytes_u64(x).len() == 8,
        le_u64(le_bytes_u64(x)) == x,
{
    let lo = (x % 0x1_0000_0000) as u32;
    let hi = (x / 0x1_0000_0000) as u32;
    lemma_le_u32_round_trip(lo);
    lemma_le_u32_round_trip(hi);
    assert(le_bytes_u64(x).subrange(0, 4) =~= le_bytes_u32(lo));
    assert(le_bytes_u64(x).subrange(4, 8) =~= le_bytes_u32(hi));
}

/// Appends the two bytes of `x` to `out`.
pub fn put_le_u16(out: &mut Vec<u8>, x: u16)
    ensures
        final(out)@ == old(out)@ + le_bytes_u16(x),
{
    out.push((x % 0x100) as u8);
    out.push((x / 0x100) as u8);
    proof {
        assert(out@ =~= old(out)@ + le_bytes_u16(x));
    }
}

/// Appends the four bytes of `x` to `out`.
pub fn put_le_u32(out: &mut Vec<u8>, x: u32)
    ensures
        final(out)@ == old(out)@ + le_bytes_u32(x),
{
    out.push((x % 0x100) as u8);
    out.push(((x / 0x100) % 0x100) as u8);
    out.push(((x / 0x1_0000) % 0x100) as u8);
    out.push((x / 0x100_0000) as u8);
    proof {
        assert(out@ =~= old(out)@ + le_bytes_u32(x));
    }
}

/// Appends the eight bytes of `x` to `out`.
pub fn put_le_u64(out: &mut Vec<u8>, x: u64)
    ensures
        final(out)@ == old(out)@ + le_bytes_u64(x),
{
    put_le_u32(out, (x % 0x1_0000_0000) as u32);
    put_le_u32(out, (x / 0x1_0000_0000) as u32);
    proof {
        assert(out@ =~= old(out)@ + le_bytes_u64(x));
    }
}

/// The integer that the first eight bytes of `buf` spell, lowest byte first.
pub fn read_le_u64(buf: &[u8]) -> (x: u64)
    requires
        buf@.len() >= 8,
    ensures
        x == le_u64(buf@),
{
    let low: u32 = read_le_u32(slice_subrange(buf, 0, 4));
    let high: u32 = read_le_u32(slice_subrange(buf, 4, 8));
    (high as u64) * 0x1_0000_0000 + (low as u64)
}

/// `byteorder::LittleEndian::read_u16`: the integer that the first two bytes
/// of `buf` spell, lowest byte first. It panics on a shorter buffer, which
/// the precondition rules out.
#[verifier::external_body]
pub(crate) fn read_le_u16(buf: &[u8]) -> (x: u16)
    requires
        buf@.len() >= 2,
    ensures
        x == le_u16(buf@),
{
    LittleEndian::read_u16(buf)
}

/// `byteorder::LittleEndian::read_u32`: the integer that the first four bytes
/// of `buf` spell, lowest byte first. It panics on a shorter buffer, which
/// the precondition rules out.
#[verifier::external_body]
pub(crate) fn read_le_u32(buf: &[u8]) -> (x: u32)
    requires
        buf@.len() >= 4,
    ensures
        x == le_u32(buf@),
{
    LittleEndian::read_u32(buf)
}

} // verus!
