//! Reading and writing whole messages on a transport.

use crate::packet::{
    decode, decode_clipboard, decode_options, fixed, options, tag_text, viewed,
    Packet, PacketView, CALV, CCLP, CIAK, CINN, COUT, CROP, DCLP, DKDN, DKUP, DMDN, DMMV, DMUP,
    DMWM, DSOP, EUNK, QINF,
};
use crate::packet_reader::{PacketError, PacketReader, PacketWriter, StreamView};
use crate::wire::{be32, u32_from_be};
use std::collections::HashMap;
use vstd::prelude::*;

verus! {

broadcast use vstd::std_specs::hash::group_hash_axioms;

/// A transport on which whole messages are read and written.
pub struct PacketStream<S: PacketReader + PacketWriter> {
    stream: S,
}

impl<S: PacketReader + PacketWriter> View for PacketStream<S> {
    type V = StreamView;

    closed spec fn view(&self) -> StreamView {
        self.stream@
    }
}

impl<S: PacketReader + PacketWriter> PacketStream<S> {
    /// Messages on `stream`.
    pub fn new(stream: S) -> (packets: Self)
        ensures
            packets@ == stream@,
    {
        PacketStream { stream }
    }

    /// Gives the transport back.
    pub fn into_inner(self) -> (stream: S)
        ensures
            stream@ == self@,
    {
        self.stream
    }

    /// The transport underneath.
    pub fn get_ref(&self) -> (stream: &S)
        ensures
            stream@ == self@,
    {
        &self.stream
    }

    /// Skips `count` unread bytes, or all of them where fewer are left.
    fn skip(&mut self, count: u32)
        ensures
            old(self)@.incoming.len() >= count ==> final(self)@ == old(self)@.advance(count as int),
            old(self)@.incoming.len() < count ==> final(self)@ == old(self)@.drained(),
    {
        let mut done: u32 = 0;
        while done < count
            invariant
                done <= count,
                old(self)@.incoming.len() >= done,
                self@ == old(self)@.advance(done as int),
            decreases count - done,
        {
            match self.stream.next_byte() {
                Some(_) => {},
                None => {
                    return ;
                },
            }
            done = done + 1;
        }
    }

    /// Reads the payload of `DSOP`: a count of items, then half as many pairs
    /// of a four-byte name and a 32-bit value.
    fn read_options(&mut self) -> (r: Result<Packet, PacketError>)
        ensures
            viewed(r) == decode_options(old(self)@.incoming).result,
            final(self)@.incoming == decode_options(old(self)@.incoming).rest,
            final(self)@.outgoing == old(self)@.outgoing,
    {
        let num_items: u32 = self.stream.read_u32()?;
        let num_opts: u32 = num_items / 2;
        let mut opts: HashMap<u32, u32> = HashMap::new();
        let ghost pairs = old(self)@.incoming.skip(4);
        let mut i: u32 = 0;
        while i < num_opts
            invariant
                i <= num_opts,
                old(self)@.incoming.len() >= 4,
                num_opts == be32(old(self)@.incoming) / 2,
                pairs == old(self)@.incoming.skip(4),
                pairs.len() >= 8 * i,
                self@.incoming == pairs.skip(8 * i),
                self@.outgoing == old(self)@.outgoing,
                opts@ == options(pairs, i as nat),
            decreases num_opts - i,
        {
            let opt: [u8; 4] = self.stream.read_bytes_fixed::<4>()?;
            let val: u32 = self.stream.read_u32()?;
            proof {
                assert(opt@ =~= pairs.skip(8 * i).take(4));
                assert(be32(opt@) == be32(pairs.skip(8 * i)));
                assert(pairs.skip(8 * i).skip(4) =~= pairs.skip(8 * i + 4));
                assert(pairs.skip(8 * i).skip(4).skip(4) =~= pairs.skip(8 * (i + 1)));
            }
            opts.insert(u32_from_be(&opt), val);
            i = i + 1;
        }
        Ok(Packet::SetDeviceOptions(opts))
    }

    /// Reads the payload of `DCLP`: owner, sequence number, mark, and a block
    /// of bytes behind its own length.
    fn read_clipboard(&mut self) -> (r: Result<Packet, PacketError>)
        ensures
            viewed(r) == decode_clipboard(old(self)@.incoming).result,
            final(self)@.incoming == decode_clipboard(old(self)@.incoming).rest,
            final(self)@.outgoing == old(self)@.outgoing,
    {
        let ghost payload = old(self)@.incoming;
        let id: u8 = self.stream.read_u8()?;
        let seq_num: u32 = self.stream.read_u32()?;
        let mark: u8 = self.stream.read_u8()?;
        proof {
            if payload.len() >= 6 {
                assert(payload.skip(1).skip(4) =~= payload.skip(5));
                assert(payload.skip(5).skip(1) =~= payload.skip(6));
            }
        }
        let data: Vec<u8> = self.stream.read_bytes()?;
        proof {
            let block = payload.skip(6);
            assert(block.skip(4 + be32(block)) =~= self@.incoming);
        }
        Ok(Packet::SetClipboard { id, seq_num, mark, data })
    }

    /// Skips the payload of a frame of declared length `size` whose tag has
    /// no layout here, byte by byte, and gives the message that holds the
    /// tag's text.
    pub fn skip_unknown(&mut self, size: u32, code: String) -> (r: Result<Packet, PacketError>)
        requires
            size >= 4,
        ensures
            viewed(r) == fixed(old(self)@.incoming, size - 4, PacketView::Unknown(code@)).result,
            final(self)@.incoming == fixed(
                old(self)@.incoming,
                size - 4,
                PacketView::Unknown(code@),
            ).rest,
            final(self)@.outgoing == old(self)@.outgoing,
    {
        let mut s: u32 = size - 4;
        while s > 0
            invariant
                size >= 4,
                s <= size - 4,
                old(self)@.incoming.len() >= size - 4 - s,
                self@ == old(self)@.advance(size - 4 - s),
            decreases s,
        {
            let _skipped: u8 = self.stream.read_u8()?;
            s = s - 1;
        }
        Ok(Packet::Unknown(code))
    }

    /// Reads one message.
    ///
    /// The outcome and the bytes left unread are those of `decode` on the
    /// bytes that were unread before; nothing is written.
    pub fn read(&mut self) -> (r: Result<Packet, PacketError>)
        ensures
            viewed(r) == decode(old(self)@.incoming).result,
            final(self)@.incoming == decode(old(self)@.incoming).rest,
            final(self)@.outgoing == old(self)@.outgoing,
    {
        let ghost input = old(self)@.incoming;
        let size: u32 = self.stream.read_packet_size()?;
        if size < 4 {
            self.skip(size);
            return Err(PacketError::PacketTooSmall);
        }
        let code: [u8; 4] = self.stream.read_bytes_fixed::<4>()?;
        let tag: u32 = u32_from_be(&code);
        let ghost payload = input.skip(8);
        proof {
            assert(code@ =~= input.subrange(4, 8));
            assert(input.skip(4).skip(4) =~= payload);
            assert(self@.incoming == payload);
            assert(payload.skip(0) =~= payload);
        }
        if tag == QINF {
            Ok(Packet::QueryInfo)
        } else if tag == CIAK {
            Ok(Packet::InfoAck)
        } else if tag == CALV {
            Ok(Packet::KeepAlive)
        } else if tag == CROP {
            Ok(Packet::ResetOptions)
        } else if tag == DSOP {
            self.read_options()
        } else if tag == EUNK {
            Ok(Packet::ErrorUnknownDevice)
        } else if tag == DMMV {
            let x: u16 = self.stream.read_u16()?;
            let y: u16 = self.stream.read_u16()?;
            proof {
                assert(payload.skip(2).skip(2) =~= payload.skip(4));
            }
            Ok(Packet::MouseMoveAbs { x, y })
        } else if tag == CINN {
            let x: u16 = self.stream.read_u16()?;
            let y: u16 = self.stream.read_u16()?;
            let seq_num: u32 = self.stream.read_u32()?;
            let mask: u16 = self.stream.read_u16()?;
            proof {
                assert(payload.skip(2).skip(2) =~= payload.skip(4));
                assert(payload.skip(4).skip(4) =~= payload.skip(8));
                assert(payload.skip(8).skip(2) =~= payload.skip(10));
            }
            Ok(Packet::CursorEnter { x, y, seq_num, mask })
        } else if tag == COUT {
            Ok(Packet::CursorLeave)
        } else if tag == CCLP {
            let id: u8 = self.stream.read_u8()?;
            let seq_num: u32 = self.stream.read_u32()?;
            proof {
                assert(payload.skip(1).skip(4) =~= payload.skip(5));
            }
            Ok(Packet::GrabClipboard { id, seq_num })
        } else if tag == DCLP {
            self.read_clipboard()
        } else if tag == DMUP {
            let id: i8 = self.stream.read_i8()?;
            Ok(Packet::MouseUp { id })
        } else if tag == DMDN {
            let id: i8 = self.stream.read_i8()?;
            Ok(Packet::MouseDown { id })
        } else if tag == DKUP {
            let id: u16 = self.stream.read_u16()?;
            let mask: u16 = self.stream.read_u16()?;
            let button: u16 = self.stream.read_u16()?;
            proof {
                assert(payload.skip(2).skip(2) =~= payload.skip(4));
                assert(payload.skip(4).skip(2) =~= payload.skip(6));
            }
            Ok(Packet::KeyUp { id, mask, button })
        } else if tag == DKDN {
            let id: u16 = self.stream.read_u16()?;
            let mask: u16 = self.stream.read_u16()?;
            let button: u16 = self.stream.read_u16()?;
            proof {
                assert(payload.skip(2).skip(2) =~= payload.skip(4));
                assert(payload.skip(4).skip(2) =~= payload.skip(6));
            }
            Ok(Packet::KeyDown { id, mask, button })
        } else if tag == DMWM {
            let x_delta: i16 = self.stream.read_i16()?;
            let y_delta: i16 = self.stream.read_i16()?;
            proof {
                assert(payload.skip(2).skip(2) =~= payload.skip(4));
            }
            Ok(Packet::MouseWheel { x_delta, y_delta })
        } else {
            let text: String = tag_text(&code);
            self.skip_unknown(size, text)
        }
    }

    /// Writes one message.
    pub fn write(&mut self, packet: Packet) -> (r: Result<(), PacketError>)
        requires
            packet@.outbound(),
        ensures
            r is Ok,
            final(self)@ == old(self)@.sent(packet@.wire_form()),
    {
        packet.write_wire(&mut self.stream)?;
        Ok(())
    }
}

} // verus!
