//! Fixed-width integers in a byte stream, in either byte order.

use byteorder::BigEndian;
use byteorder::ByteOrder;
use byteorder::LittleEndian;
use vstd::prelude::*;
use vstd::slice::slice_subrange;

verus! {

/// The 16-bit value stored at `pos` in `b`.
pub open spec fn u16_at(b: Seq<u8>, pos: int, big_endian: bool) -> u16 {
    if big_endian {
        (256 * (b[pos] as int) + (b[pos + 1] as int)) as u16
    } else {
        ((b[pos] as int) + 256 * (b[pos + 1] as int)) as u16
    }
}

/// The 32-bit value stored at `pos` in `b`.
pub open spec fn u32_at(b: Seq<u8>, pos: int, big_endian: bool) -> u32 {
    if big_endian {
        (16777216 * (b[pos] as int) + 65536 * (b[pos + 1] as int) + 256 * (b[pos + 2] as int) + (
        b[pos + 3] as int)) as u32
    } else {
        ((b[pos] as int) + 256 * (b[pos + 1] as int) + 65536 * (b[pos + 2] as int) + 16777216 * (
        b[pos + 3] as int)) as u32
    }
}

/// The 64-bit value stored at `pos` in `b`.
pub open spec fn u64_at(b: Seq<u8>, pos: int, big_endian: bool) -> u64 {
    if big_endian {
        (4294967296 * (u32_at(b, pos, true) as int) + (u32_at(b, pos + 4, true) as int)) as u64
    } else {
        ((u32_at(b, pos, false) as int) + 4294967296 * (u32_at(b, pos + 4, false) as int)) as u64
    }
}

/// The two bytes that store `n`.
pub open spec fn u16_bytes(n: u16, big_endian: bool) -> Seq<u8> {
    if big_endian {
        seq![(n / 256) as u8, (n % 256) as u8]
    } else {
        seq![(n % 256) as u8, (n / 256) as u8]
    }
}

/// The four bytes that store `n`.
pub open spec fn u32_bytes(n: u32, big_endian: bool) -> Seq<u8> {
    if big_endian {
        seq![
            (n / 16777216) as u8,
            ((n / 65536) % 256) as u8,
            ((n / 256) % 256) as u8,
            (n % 256) as u8,
        ]
    } else {
        seq![
            (n % 256) as u8,
            ((n / 256) % 256) as u8,
            ((n / 65536) % 256) as u8,
            (n / 16777216) as u8,
        ]
    }
}

/// The eight bytes that store `n`.
pub open spec fn u64_bytes(n: u64, big_endian: bool) -> Seq<u8> {
    if big_endian {
        u32_bytes((n / 4294967296) as u32, true) + u32_bytes((n % 4294967296) as u32, true)
    } else {
        u32_bytes((n % 4294967296) as u32, false) + u32_bytes((n / 4294967296) as u32, false)
    }
}

/// The signed reading of a 16-bit pattern (two's complement).
pub open spec fn i16_of(u: u16) -> i16 {
    if u < 0x8000 {
        u as i16
    } else {
        (u - 0x1_0000) as i16
    }
}

/// The 16-bit pattern of a signed value (two's complement).
pub open spec fn u16_of(v: i16) -> u16 {
    if v >= 0 {
        v as u16
    } else {
        (v + 0x1_0000) as u16
    }
}

/// The signed reading of a 32-bit pattern (two's complement).
pub open spec fn i32_of(u: u32) -> i32 {
    if u < 0x8000_0000 {
        u as i32
    } else {
        (u - 0x1_0000_0000) as i32
    }
}

/// The 32-bit pattern of a signed value (two's complement).
pub open spec fn u32_of(v: i32) -> u32 {
    if v >= 0 {
        v as u32
    } else {
        (v + 0x1_0000_0000) as u32
    }
}

/// The signed reading of a 64-bit pattern (two's complement).
pub open spec fn i64_of(u: u64) -> i64 {
    if u < 0x8000_0000_0000_0000 {
        u as i64
    } else {
        (u - 0x1_0000_0000_0000_0000) as i64
    }
}

/// The 64-bit pattern of a signed value (two's complement).
pub open spec fn u64_of(v: i64) -> u64 {
    if v >= 0 {
        v as u64
    } else {
        (v + 0x1_0000_0000_0000_0000) as u64
    }
}

/// `byteorder::LittleEndian::read_u16`: the value of the first two bytes of
/// `buf`, least significant byte first. It panics on a shorter buffer.
#[verifier::external_body]
fn le_read_u16(buf: &[u8]) -> (r: u16)
    requires
        buf@.len() >= 2,
    ensures
        r == u16_at(buf@, 0, false),
{
    LittleEndian::read_u16(buf)
}

/// `byteorder::BigEndian::read_u16`: the value of the first two bytes of
/// `buf`, most significant byte first. It panics on a shorter buffer.
#[verifier::external_body]
fn be_read_u16(buf: &[u8]) -> (r: u16)
    requires
        buf@.len() >= 2,
    ensures
        r == u16_at(buf@, 0, true),
{
    BigEndian::read_u16(buf)
}

/// `byteorder::LittleEndian::read_u32`: the value of the first four bytes of
/// `buf`, least significant byte first. It panics on a shorter buffer.
#[verifier::external_body]
fn le_read_u32(buf: &[u8]) -> (r: u32)
    requires
        buf@.len() >= 4,
    ensures
        r == u32_at(buf@, 0, false),
{
    LittleEndian::read_u32(buf)
}

/// `byteorder::BigEndian::read_u32`: the value of the first four bytes of
/// `buf`, most significant byte first. It panics on a shorter buffer.
#[verifier::external_body]
fn be_read_u32(buf: &[u8]) -> (r: u32)
    requires
        buf@.len() >= 4,
    ensures
        r == u32_at(buf@, 0, true),
{
    BigEndian::read_u32(buf)
}

/// `byteorder::LittleEndian::read_u64`: the value of the first eight bytes
/// of `buf`, least significant byte first. It panics on a shorter buffer.
#[verifier::external_body]
fn le_read_u64(buf: &[u8]) -> (r: u64)
    requires
        buf@.len() >= 8,
    ensures
        r == u64_at(buf@, 0, false),
{
    LittleEndian::read_u64(buf)
}

/// `byteorder::BigEndian::read_u64`: the value of the first eight bytes of
/// `buf`, most significant byte first. It panics on a shorter buffer.
#[verifier::external_body]
fn be_read_u64(buf: &[u8]) -> (r: u64)
    requires
        buf@.len() >= 8,
    ensures
        r == u64_at(buf@, 0, true),
{
    BigEndian::read_u64(buf)
}

/// `byteorder::LittleEndian::write_u16` on a buffer of two bytes: the bytes
/// of `n`, least significant first.
#[verifier::external_body]
fn le_write_u16(n: u16) -> (r: [u8; 2])
    ensures
        r@ == u16_bytes(n, false),
{
    let mut buf = [0u8; 2];
    LittleEndian::write_u16(&mut buf, n);
    buf
}

/// `byteorder::BigEndian::write_u16` on a buffer of two bytes: the bytes of
/// `n`, most significant first.
#[verifier::external_body]
fn be_write_u16(n: u16) -> (r: [u8; 2])
    ensures
        r@ == u16_bytes(n, true),
{
    let mut buf = [0u8; 2];
    BigEndian::write_u16(&mut buf, n);
    buf
}

/// `byteorder::LittleEndian::write_u32` on a buffer of four bytes: the bytes
/// of `n`, least significant first.
#[verifier::external_body]
fn le_write_u32(n: u32) -> (r: [u8; 4])
    ensures
        r@ == u32_bytes(n, false),
{
    let mut buf = [0u8; 4];
    LittleEndian::write_u32(&mut buf, n);
    buf
}

/// `byteorder::BigEndian::write_u32` on a buffer of four bytes: the bytes of
/// `n`, most significant first.
#[verifier::external_body]
fn be_write_u32(n: u32) -> (r: [u8; 4])
    ensures
        r@ == u32_bytes(n, true),
{
    let mut buf = [0u8; 4];
    BigEndian::write_u32(&mut buf, n);
    buf
}

/// `byteorder::LittleEndian::write_u64` on a buffer of eight bytes: the
/// bytes of `n`, least significant first.
#[verifier::external_body]
fn le_write_u64(n: u64) -> (r: [u8; 8])
    ensures
        r@ == u64_bytes(n, false),
{
    let mut buf = [0u8; 8];
    LittleEndian::write_u64(&mut buf, n);
    buf
}

/// `byteorder::BigEndian::write_u64` on a buffer of eight bytes: the bytes
/// of `n`, most significant first.
#[verifier::external_body]
fn be_write_u64(n: u64) -> (r: [u8; 8])
    ensures
        r@ == u64_bytes(n, true),
{
    let mut buf = [0u8; 8];
    BigEndian::write_u64(&mut buf, n);
    buf
}

/// Reads the 16-bit value at `pos`.
pub fn read_u16(bytes: &[u8], pos: usize, big_endian: bool) -> (r: u16)
    requires
        pos + 2 <= bytes@.len(),
    ensures
        r == u16_at(bytes@, pos as int, big_endian),
{
    let total = bytes.len();
    assert(pos + 2 <= total);
    let part = slice_subrange(bytes, pos, pos + 2);
    if big_endian {
        be_read_u16(part)
    } else {
        le_read_u16(part)
    }
}

/// Reads the 32-bit value at `pos`.
pub fn read_u32(bytes: &[u8], pos: usize, big_endian: bool) -> (r: u32)
    requires
        pos + 4 <= bytes@.len(),
    ensures
        r == u32_at(bytes@, pos as int, big_endian),
{
    let total = bytes.len();
    assert(pos + 4 <= total);
    let part = slice_subrange(bytes, pos, pos + 4);
    if big_endian {
        be_read_u32(part)
    } else {
        le_read_u32(part)
    }
}

/// Reads the 64-bit value at `pos`.
pub fn read_u64(bytes: &[u8], pos: usize, big_endian: bool) -> (r: u64)
    requires
        pos + 8 <= bytes@.len(),
    ensures
        r == u64_at(bytes@, pos as int, big_endian),
{
    let total = bytes.len();
    assert(pos + 8 <= total);
    let part = slice_subrange(bytes, pos, pos + 8);
    if big_endian {
        be_read_u64(part)
    } else {
        le_read_u64(part)
    }
}

/// Appends the two bytes of `n` to `out`.
pub fn push_u16(out: &mut Vec<u8>, n: u16, big_endian: bool)
    ensures
        final(out)@ == old(out)@ + u16_bytes(n, big_endian),
{
    let buf = if big_endian {
        be_write_u16(n)
    } else {
        le_write_u16(n)
    };
    out.push(buf[0]);
    out.push(buf[1]);
}

/// Appends the four bytes of `n` to `out`.
pub fn push_u32(out: &mut Vec<u8>, n: u32, big_endian: bool)
    ensures
        final(out)@ == old(out)@ + u32_bytes(n, big_endian),
{
    let buf = if big_endian {
        be_write_u32(n)
    } else {
        le_write_u32(n)
    };
    out.push(buf[0]);
    out.push(buf[1]);
    out.push(buf[2]);
    out.push(buf[3]);
}

/// Appends the eight bytes of `n` to `out`.
pub fn push_u64(out: &mut Vec<u8>, n: u64, big_endian: bool)
    ensures
        final(out)@ == old(out)@ + u64_bytes(n, big_endian),
{
    let buf = if big_endian {
        be_write_u64(n)
    } else {
        le_write_u64(n)
    };
    let mut i: usize = 0;
    while i < 8
        invariant
            i <= 8,
            buf@.len() == 8,
            out@ == old(out)@ + buf@.subrange(0, i as int),
        decreases 8 - i,
    {
        out.push(buf[i]);
        i += 1;
    }
}

/// The signed value with the bit pattern `u`.
pub fn i16_from_bits(u: u16) -> (r: i16)
    ensures
        r == i16_of(u),
{
    if u < 0x8000 {
        u as i16
    } else {
        (u as i32 - 0x1_0000) as i16
    }
}

/// The bit pattern of `v`.
pub fn i16_to_bits(v: i16) -> (r: u16)
    ensures
        r == u16_of(v),
{
    if v >= 0 {
        v as u16
    } else {
        (v as i32 + 0x1_0000) as u16
    }
}

/// The signed value with the bit pattern `u`.
pub fn i32_from_bits(u: u32) -> (r: i32)
    ensures
        r == i32_of(u),
{
    if u < 0x8000_0000 {
        u as i32
    } else {
        (u as i64 - 0x1_0000_0000) as i32
    }
}

/// The bit pattern of `v`.
pub fn i32_to_bits(v: i32) -> (r: u32)
    ensures
        r == u32_of(v),
{
    if v >= 0 {
        v as u32
    } else {
        (v as i64 + 0x1_0000_0000) as u32
    }
}

/// The signed value with the bit pattern `u`.
pub fn i64_from_bits(u: u64) -> (r: i64)
    ensures
        r == i64_of(u),
{
    if u < 0x8000_0000_0000_0000 {
        u as i64
    } else {
        (u as i128 - 0x1_0000_0000_0000_0000) as i64
    }
}

/// The bit pattern of `v`.
pub fn i64_to_bits(v: i64) -> (r: u64)
    ensures
        r == u64_of(v),
{
    if v >= 0 {
        v as u64
    } else {
        (v as i128 + 0x1_0000_0000_0000_0000) as u64
    }
}

/// Reading back what was written gives the value that was written.
pub proof fn lemma_u16_round_trip(b: Seq<u8>, pos: int, n: u16, big_endian: bool)
    requires
        0 <= pos,
        pos + 2 <= b.len(),
        b.subrange(pos, pos + 2) == u16_bytes(n, big_endian),
    ensures
        u16_at(b, pos, big_endian) == n,
{
}

/// Reading back what was written gives the value that was written.
pub proof fn lemma_u32_round_trip(b: Seq<u8>, pos: int, n: u32, big_endian: bool)
    requires
        0 <= pos,
        pos + 4 <= b.len(),
        b.subrange(pos, pos + 4) == u32_bytes(n, big_endian),
    ensures
        u32_at(b, pos, big_endian) == n,
{
}

/// Reading back what was written gives the value that was written.
pub proof fn lemma_u64_round_trip(b: Seq<u8>, pos: int, n: u64, big_endian: bool)
    requires
        0 <= pos,
        pos + 8 <= b.len(),
        b.subrange(pos, pos + 8) == u64_bytes(n, big_endian),
    ensures
        u64_at(b, pos, big_endian) == n,
{
    let s = b.subrange(pos, pos + 8);
    let hi = (n / 4294967296) as u32;
    let lo = (n % 4294967296) as u32;
    if big_endian {
        assert(b.subrange(pos, pos + 4) == u32_bytes(hi, true));
        assert(b.subrange(pos + 4, pos + 8) == u32_bytes(lo, true)) by {
            assert(b.subrange(pos + 4, pos + 8) =~= s.subrange(4, 8));
        }
        lemma_u32_round_trip(b, pos, hi, true);
        lemma_u32_round_trip(b, pos + 4, lo, true);
    } else {
        assert(b.subrange(pos, pos + 4) == u32_bytes(lo, false));
        assert(b.subrange(pos + 4, pos + 8) == u32_bytes(hi, false)) by {
            assert(b.subrange(pos + 4, pos + 8) =~= s.subrange(4, 8));
        }
        lemma_u32_round_trip(b, pos, lo, false);
        lemma_u32_round_trip(b, pos + 4, hi, false);
    }
}

/// A signed value is the signed reading of its own bit pattern.
pub proof fn lemma_signed_round_trip(a: i16, b: i32, c: i64)
    ensures
        i16_of(u16_of(a)) == a,
        i32_of(u32_of(b)) == b,
        i64_of(u64_of(c)) == c,
{
}

} // verus!
