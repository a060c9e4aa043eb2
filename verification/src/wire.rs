//! Big-endian layouts of the integers that travel on both links, and the
//! calls into `byteorder_async` that produce them.

use crate::packet_reader::PacketError;
use byteorder_async::{BigEndian, WriteBytesExt};
use vstd::prelude::*;

verus! {

/// The two bytes of `n`, most significant first.
pub open spec fn u16_bytes(n: u16) -> Seq<u8> {
    seq![(n / 0x100) as u8, (n % 0x100) as u8]
}

/// The four bytes of `n`, most significant first.
pub open spec fn u32_bytes(n: u32) -> Seq<u8> {
    seq![
        (n / 0x100_0000) as u8,
        (n / 0x1_0000 % 0x100) as u8,
        (n / 0x100 % 0x100) as u8,
        (n % 0x100) as u8,
    ]
}

/// The byte that stands for `n` in two's complement.
pub open spec fn i8_byte(n: i8) -> u8 {
    if n >= 0 {
        n as u8
    } else {
        (n + 0x100) as u8
    }
}

/// The 16-bit pattern that stands for `n` in two's complement.
pub open spec fn i16_bits(n: i16) -> u16 {
    if n >= 0 {
        n as u16
    } else {
        (n + 0x1_0000) as u16
    }
}

/// The two bytes of `n` in two's complement, most significant first.
pub open spec fn i16_bytes(n: i16) -> Seq<u8> {
    u16_bytes(i16_bits(n))
}

/// The number that the first two bytes of `s` spell, most significant first.
pub open spec fn be16(s: Seq<u8>) -> u16
    recommends
        s.len() >= 2,
{
    (s[0] * 0x100 + s[1]) as u16
}

/// The number that the first four bytes of `s` spell, most significant first.
pub open spec fn be32(s: Seq<u8>) -> u32
    recommends
        s.len() >= 4,
{
    (s[0] * 0x100_0000 + s[1] * 0x1_0000 + s[2] * 0x100 + s[3]) as u32
}

/// The signed number that the byte `b` stands for in two's complement.
pub open spec fn signed8(b: u8) -> i8 {
    if b < 0x80 {
        b as i8
    } else {
        (b - 0x100) as i8
    }
}

/// The signed number that the 16-bit pattern `n` stands for in two's complement.
pub open spec fn signed16(n: u16) -> i16 {
    if n < 0x8000 {
        n as i16
    } else {
        (n - 0x1_0000) as i16
    }
}

/// Reading back the two bytes of a number gives the number, whatever follows.
pub proof fn lemma_u16_round_trip(n: u16, tail: Seq<u8>)
    ensures
        be16(u16_bytes(n) + tail) == n,
        (u16_bytes(n) + tail).skip(2) == tail,
        u16_bytes(n).len() == 2,
{
    assert((u16_bytes(n) + tail).skip(2) =~= tail);
}

/// Reading back the four bytes of a number gives the number, whatever follows.
pub proof fn lemma_u32_round_trip(n: u32, tail: Seq<u8>)
    ensures
        be32(u32_bytes(n) + tail) == n,
        (u32_bytes(n) + tail).skip(4) == tail,
        u32_bytes(n).len() == 4,
{
    assert((u32_bytes(n) + tail).skip(4) =~= tail);
}

/// Two's complement loses nothing: a signed number is found again from its bits.
pub proof fn lemma_signed_round_trip(a: i8, b: i16)
    ensures
        signed8(i8_byte(a)) == a,
        signed16(i16_bits(b)) == b,
        be16(i16_bytes(b)) == i16_bits(b),
{
    lemma_u16_round_trip(i16_bits(b), Seq::empty());
    assert(i16_bytes(b) + Seq::<u8>::empty() =~= i16_bytes(b));
}

/// The number that four bytes spell.
pub fn u32_from_be(bytes: &[u8; 4]) -> (n: u32)
    ensures
        n == be32(bytes@),
{
    let b0: u32 = bytes[0] as u32;
    let b1: u32 = bytes[1] as u32;
    let b2: u32 = bytes[2] as u32;
    let b3: u32 = bytes[3] as u32;
    b0 * 0x100_0000 + b1 * 0x1_0000 + b2 * 0x100 + b3
}

/// The number that two bytes spell.
pub fn u16_from_be(bytes: &[u8; 2]) -> (n: u16)
    ensures
        n == be16(bytes@),
{
    let b0: u16 = bytes[0] as u16;
    let b1: u16 = bytes[1] as u16;
    b0 * 0x100 + b1
}

/// The signed number that a byte stands for.
pub fn i8_from_byte(b: u8) -> (n: i8)
    ensures
        n == signed8(b),
{
    if b < 0x80 {
        b as i8
    } else {
        let wide: i16 = b as i16 - 0x100;
        wide as i8
    }
}

/// The signed number that a 16-bit pattern stands for.
pub fn i16_from_bits(bits: u16) -> (n: i16)
    ensures
        n == signed16(bits),
{
    if bits < 0x8000 {
        bits as i16
    } else {
        let wide: i32 = bits as i32 - 0x1_0000;
        wide as i16
    }
}

/// `WriteBytesExt::write_u8` of `byteorder_async`, on a vector: the byte is
/// appended. Writing to a vector does not fail.
#[verifier::external_body]
pub(crate) fn put_u8(out: &mut Vec<u8>, n: u8) -> (r: Result<(), PacketError>)
    ensures
        r is Ok,
        final(out)@ == old(out)@ + seq![n],
{
    match out.write_u8(n) {
        Ok(()) => Ok(()),
        Err(_) => Err(PacketError::IoError),
    }
}

/// `WriteBytesExt::write_i8` of `byteorder_async`, on a vector: the byte that
/// stands for `n` in two's complement is appended. Writing to a vector does
/// not fail.
#[verifier::external_body]
pub(crate) fn put_i8(out: &mut Vec<u8>, n: i8) -> (r: Result<(), PacketError>)
    ensures
        r is Ok,
        final(out)@ == old(out)@ + seq![i8_byte(n)],
{
    match out.write_i8(n) {
        Ok(()) => Ok(()),
        Err(_) => Err(PacketError::IoError),
    }
}

/// `WriteBytesExt::write_u16` of `byteorder_async` in big-endian order, on a
/// vector: the two bytes of `n` are appended, most significant first. Writing
/// to a vector does not fail.
#[verifier::external_body]
pub(crate) fn put_u16(out: &mut Vec<u8>, n: u16) -> (r: Result<(), PacketError>)
    ensures
        r is Ok,
        final(out)@ == old(out)@ + u16_bytes(n),
{
    match out.write_u16::<BigEndian>(n) {
        Ok(()) => Ok(()),
        Err(_) => Err(PacketError::IoError),
    }
}

/// `WriteBytesExt::write_i16` of `byteorder_async` in big-endian order, on a
/// vector: the two bytes of `n` in two's complement are appended, most
/// significant first. Writing to a vector does not fail.
#[verifier::external_body]
pub(crate) fn put_i16(out: &mut Vec<u8>, n: i16) -> (r: Result<(), PacketError>)
    ensures
        r is Ok,
        final(out)@ == old(out)@ + i16_bytes(n),
{
    match out.write_i16::<BigEndian>(n) {
        Ok(()) => Ok(()),
        Err(_) => Err(PacketError::IoError),
    }
}

/// `WriteBytesExt::write_u32` of `byteorder_async` in big-endian order, on a
/// vector: the four bytes of `n` are appended, most significant first. Writing
/// to a vector does not fail.
#[verifier::external_body]
pub(crate) fn put_u32(out: &mut Vec<u8>, n: u32) -> (r: Result<(), PacketError>)
    ensures
        r is Ok,
        final(out)@ == old(out)@ + u32_bytes(n),
{
    match out.write_u32::<BigEndian>(n) {
        Ok(()) => Ok(()),
        Err(_) => Err(PacketError::IoError),
    }
}

} // verus!
