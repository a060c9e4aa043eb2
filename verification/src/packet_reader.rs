//! Framed reading and writing over an ordered byte transport.
//!
//! A transport is modelled by the bytes that wait to be read and the bytes
//! written so far. Reading fails only where the transport ends before the
//! bytes asked for; a failed read leaves nothing unread behind it, unless
//! said otherwise. Writing appends and does not fail.

use crate::wire::{
    be16, be32, i16_from_bits, i8_from_byte, put_u16, put_u32, signed16, signed8, u16_bytes,
    u16_from_be, u32_bytes, u32_from_be,
};
use vstd::prelude::*;
use vstd::string::StringSliceAdditionalSpecFns;

verus! {

/// Why a read or a write on the upstream transport failed.
#[derive(Debug, Clone, Copy, PartialEq, Eq, Structural)]
pub enum PacketError {
    /// The transport ended before the bytes asked for had arrived.
    IoError,
    /// The bytes read differ from the literal that was expected.
    FormatError,
    /// A length prefix announces more bytes than the transport holds.
    InsufficientDataError,
    /// A frame announces fewer bytes than a tag takes.
    PacketTooSmall,
}

impl PacketError {
    /// What the failure is, in words.
    pub open spec fn text(self) -> Seq<char> {
        match self {
            PacketError::IoError => "io error"@,
            PacketError::FormatError => "did not match format"@,
            PacketError::InsufficientDataError => "not enough data"@,
            PacketError::PacketTooSmall => "Packet too small"@,
        }
    }

    /// What the failure is, in words.
    pub fn message(&self) -> (words: String)
        ensures
            words@ == self.text(),
    {
        match self {
            PacketError::IoError => "io error".to_owned(),
            PacketError::FormatError => "did not match format".to_owned(),
            PacketError::InsufficientDataError => "not enough data".to_owned(),
            PacketError::PacketTooSmall => "Packet too small".to_owned(),
        }
    }
}

/// What a duplex byte transport looks like from this end: the bytes that
/// have arrived and were not read yet, and the bytes written so far.
#[verifier::ext_equal]
pub struct StreamView {
    pub incoming: Seq<u8>,
    pub outgoing: Seq<u8>,
}

impl StreamView {
    /// The transport after `n` of its unread bytes were taken.
    pub open spec fn advance(self, n: int) -> StreamView {
        StreamView { incoming: self.incoming.skip(n), outgoing: self.outgoing }
    }

    /// The transport after all its unread bytes were taken.
    pub open spec fn drained(self) -> StreamView {
        StreamView { incoming: Seq::empty(), outgoing: self.outgoing }
    }

    /// The transport after `bytes` were written to it.
    pub open spec fn sent(self, bytes: Seq<u8>) -> StreamView {
        StreamView { incoming: self.incoming, outgoing: self.outgoing + bytes }
    }
}

/// The reading half of a transport. Only `next_byte` is the transport's own;
/// every other operation is built on it.
pub trait PacketReader: View<V = StreamView> {
    /// Takes the next unread byte, if there is one.
    fn next_byte(&mut self) -> (r: Option<u8>)
        ensures
            old(self)@.incoming.len() > 0 ==> r == Some(old(self)@.incoming[0]) && final(self)@
                == old(self)@.advance(1),
            old(self)@.incoming.len() == 0 ==> r is None && final(self)@ == old(self)@,
    ;

    /// Reads one byte.
    fn read_u8(&mut self) -> (r: Result<u8, PacketError>)
        ensures
            old(self)@.incoming.len() >= 1 ==> r == Ok::<u8, PacketError>(old(self)@.incoming[0])
                && final(self)@ == old(self)@.advance(1),
            old(self)@.incoming.len() < 1 ==> r == Err::<u8, PacketError>(PacketError::IoError)
                && final(self)@ == old(self)@.drained(),
    {
        match self.next_byte() {
            Some(b) => Ok(b),
            None => Err(PacketError::IoError),
        }
    }

    /// Reads one byte as a signed number.
    fn read_i8(&mut self) -> (r: Result<i8, PacketError>)
        ensures
            old(self)@.incoming.len() >= 1 ==> r == Ok::<i8, PacketError>(
                signed8(old(self)@.incoming[0]),
            ) && final(self)@ == old(self)@.advance(1),
            old(self)@.incoming.len() < 1 ==> r == Err::<i8, PacketError>(PacketError::IoError)
                && final(self)@ == old(self)@.drained(),
    {
        let b: u8 = self.read_u8()?;
        Ok(i8_from_byte(b))
    }

    /// Reads a big-endian 16-bit number.
    fn read_u16(&mut self) -> (r: Result<u16, PacketError>)
        ensures
            old(self)@.incoming.len() >= 2 ==> r == Ok::<u16, PacketError>(
                be16(old(self)@.incoming),
            ) && final(self)@ == old(self)@.advance(2),
            old(self)@.incoming.len() < 2 ==> r == Err::<u16, PacketError>(PacketError::IoError)
                && final(self)@ == old(self)@.drained(),
    {
        let bytes: [u8; 2] = self.read_bytes_fixed::<2>()?;
        Ok(u16_from_be(&bytes))
    }

    /// Reads a big-endian 16-bit number in two's complement.
    fn read_i16(&mut self) -> (r: Result<i16, PacketError>)
        ensures
            old(self)@.incoming.len() >= 2 ==> r == Ok::<i16, PacketError>(
                signed16(be16(old(self)@.incoming)),
            ) && final(self)@ == old(self)@.advance(2),
            old(self)@.incoming.len() < 2 ==> r == Err::<i16, PacketError>(PacketError::IoError)
                && final(self)@ == old(self)@.drained(),
    {
        let bits: u16 = self.read_u16()?;
        Ok(i16_from_bits(bits))
    }

    /// Reads a big-endian 32-bit number.
    fn read_u32(&mut self) -> (r: Result<u32, PacketError>)
        ensures
            old(self)@.incoming.len() >= 4 ==> r == Ok::<u32, PacketError>(
                be32(old(self)@.incoming),
            ) && final(self)@ == old(self)@.advance(4),
            old(self)@.incoming.len() < 4 ==> r == Err::<u32, PacketError>(PacketError::IoError)
                && final(self)@ == old(self)@.drained(),
    {
        let bytes: [u8; 4] = self.read_bytes_fixed::<4>()?;
        Ok(u32_from_be(&bytes))
    }

    /// Reads the length that opens a frame: the count of the bytes that follow it.
    fn read_packet_size(&mut self) -> (r: Result<u32, PacketError>)
        ensures
            old(self)@.incoming.len() >= 4 ==> r == Ok::<u32, PacketError>(
                be32(old(self)@.incoming),
            ) && final(self)@ == old(self)@.advance(4),
            old(self)@.incoming.len() < 4 ==> r == Err::<u32, PacketError>(PacketError::IoError)
                && final(self)@ == old(self)@.drained(),
    {
        self.read_u32()
    }

    /// Reads exactly `N` bytes.
    fn read_bytes_fixed<const N: usize>(&mut self) -> (r: Result<[u8; N], PacketError>)
        ensures
            old(self)@.incoming.len() >= N ==> r is Ok && r->Ok_0@ == old(self)@.incoming.take(
                N as int,
            ) && final(self)@ == old(self)@.advance(N as int),
            old(self)@.incoming.len() < N ==> r == Err::<[u8; N], PacketError>(
                PacketError::IoError,
            ) && final(self)@ == old(self)@.drained(),
    {
        let mut res: [u8; N] = [0u8; N];
        let mut i: usize = 0;
        while i < N
            invariant
                i <= N,
                old(self)@.incoming.len() >= i,
                self@ == old(self)@.advance(i as int),
                forall|j: int| 0 <= j < i ==> res@[j] == old(self)@.incoming[j],
            decreases N - i,
        {
            match self.next_byte() {
                Some(b) => {
                    res[i] = b;
                },
                None => {
                    return Err(PacketError::IoError);
                },
            }
            i = i + 1;
        }
        assert(res@ =~= old(self)@.incoming.take(N as int));
        Ok(res)
    }

    /// Reads a big-endian 32-bit length and then exactly that many bytes.
    fn read_bytes(&mut self) -> (r: Result<Vec<u8>, PacketError>)
        ensures
            old(self)@.incoming.len() < 4 ==> r == Err::<Vec<u8>, PacketError>(
                PacketError::IoError,
            ) && final(self)@ == old(self)@.drained(),
            old(self)@.incoming.len() >= 4 && old(self)@.incoming.len() - 4 < be32(
                old(self)@.incoming,
            ) ==> r == Err::<Vec<u8>, PacketError>(PacketError::InsufficientDataError)
                && final(self)@ == old(self)@.drained(),
            old(self)@.incoming.len() >= 4 && old(self)@.incoming.len() - 4 >= be32(
                old(self)@.incoming,
            ) ==> r is Ok && r->Ok_0@ == old(self)@.incoming.subrange(
                4,
                4 + be32(old(self)@.incoming),
            ) && final(self)@ == old(self)@.advance(4 + be32(old(self)@.incoming)),
    {
        let mut buf: Vec<u8> = Vec::new();
        let len: u32 = self.read_u32()?;
        let mut i: u32 = 0;
        while i < len
            invariant
                i <= len,
                old(self)@.incoming.len() >= 4 + i,
                len == be32(old(self)@.incoming),
                self@ == old(self)@.advance(4 + i),
                buf@ == old(self)@.incoming.subrange(4, 4 + i),
            decreases len - i,
        {
            match self.next_byte() {
                Some(b) => {
                    buf.push(b);
                },
                None => {
                    return Err(PacketError::InsufficientDataError);
                },
            }
            i = i + 1;
        }
        Ok(buf)
    }

    /// Reads as many bytes as `lit` is long, fewer where the transport ends
    /// before, and compares them with `lit`.
    fn read_str_lit(&mut self, lit: &str) -> (r: Result<(), PacketError>)
        ensures
            old(self)@.incoming.len() >= lit.spec_bytes().len() ==> final(self)@ == old(
                self,
            )@.advance(lit.spec_bytes().len() as int),
            old(self)@.incoming.len() < lit.spec_bytes().len() ==> final(self)@ == old(
                self,
            )@.drained(),
            old(self)@.incoming.len() >= lit.spec_bytes().len() && old(self)@.incoming.take(
                lit.spec_bytes().len() as int,
            ) == lit.spec_bytes() ==> r is Ok,
            !(old(self)@.incoming.len() >= lit.spec_bytes().len() && old(self)@.incoming.take(
                lit.spec_bytes().len() as int,
            ) == lit.spec_bytes()) ==> r == Err::<(), PacketError>(PacketError::FormatError),
    {
        let want: &[u8] = lit.as_bytes();
        let mut buf: Vec<u8> = Vec::new();
        let mut i: usize = 0;
        while i < want.len()
            invariant
                i <= want@.len(),
                want@ == lit.spec_bytes(),
                old(self)@.incoming.len() >= i,
                self@ == old(self)@.advance(i as int),
                buf@ == old(self)@.incoming.take(i as int),
            decreases want@.len() - i,
        {
            match self.next_byte() {
                Some(b) => {
                    buf.push(b);
                },
                None => {
                    return Err(PacketError::FormatError);
                },
            }
            i = i + 1;
        }
        let mut j: usize = 0;
        while j < want.len()
            invariant
                j <= want@.len(),
                want@ == lit.spec_bytes(),
                old(self)@.incoming.len() >= want@.len(),
                self@ == old(self)@.advance(want@.len() as int),
                buf@ == old(self)@.incoming.take(want@.len() as int),
                forall|k: int| 0 <= k < j ==> buf@[k] == want@[k],
            decreases want@.len() - j,
        {
            if buf[j] != want[j] {
                return Err(PacketError::FormatError);
            }
            j = j + 1;
        }
        assert(buf@ =~= want@);
        Ok(())
    }
}

/// The writing half of a transport. Only `write` is the transport's own;
/// every other operation is built on it.
pub trait PacketWriter: View<V = StreamView> {
    /// Writes all of `data`.
    fn write(&mut self, data: &[u8]) -> (r: Result<(), PacketError>)
        ensures
            r is Ok,
            final(self)@ == old(self)@.sent(data@),
    ;

    /// Writes a big-endian 16-bit number.
    fn write_u16(&mut self, data: u16) -> (r: Result<(), PacketError>)
        ensures
            r is Ok,
            final(self)@ == old(self)@.sent(u16_bytes(data)),
    {
        let mut buf: Vec<u8> = Vec::new();
        put_u16(&mut buf, data)?;
        self.write(buf.as_slice())
    }

    /// Writes a big-endian 32-bit number.
    fn write_u32(&mut self, data: u32) -> (r: Result<(), PacketError>)
        ensures
            r is Ok,
            final(self)@ == old(self)@.sent(u32_bytes(data)),
    {
        let mut buf: Vec<u8> = Vec::new();
        put_u32(&mut buf, data)?;
        self.write(buf.as_slice())
    }

    /// Writes the length of `data` in bytes as a big-endian 32-bit number,
    /// and then the bytes themselves.
    fn write_str(&mut self, data: &str) -> (r: Result<(), PacketError>)
        requires
            data.spec_bytes().len() <= u32::MAX,
        ensures
            r is Ok,
            final(self)@ == old(self)@.sent(
                u32_bytes(data.spec_bytes().len() as u32) + data.spec_bytes(),
            ),
    {
        self.write_u32(data.len() as u32)?;
        self.write(data.as_bytes())
    }
}

} // verus!
