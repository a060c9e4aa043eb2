//! A transport held in memory: what the peer sent is given when it is made,
//! and what is written to it is kept for the caller to collect.

use crate::packet_reader::{PacketError, PacketReader, PacketWriter, StreamView};
use vstd::prelude::*;

verus! {

/// An in-memory duplex transport.
pub struct ByteStream {
    incoming: Vec<u8>,
    cursor: usize,
    outgoing: Vec<u8>,
}

impl View for ByteStream {
    type V = StreamView;

    closed spec fn view(&self) -> StreamView {
        StreamView {
            incoming: if self.cursor <= self.incoming.len() {
                self.incoming@.skip(self.cursor as int)
            } else {
                Seq::empty()
            },
            outgoing: self.outgoing@,
        }
    }
}

impl ByteStream {
    /// A transport on which `incoming` waits to be read and nothing was written.
    pub fn new(incoming: Vec<u8>) -> (stream: ByteStream)
        ensures
            stream@.incoming == incoming@,
            stream@.outgoing == Seq::<u8>::empty(),
    {
        ByteStream { incoming, cursor: 0, outgoing: Vec::new() }
    }

    /// How many bytes wait to be read.
    pub fn unread(&self) -> (n: usize)
        ensures
            n == self@.incoming.len(),
    {
        if self.cursor <= self.incoming.len() {
            self.incoming.len() - self.cursor
        } else {
            0
        }
    }

    /// The bytes written so far.
    pub fn written(&self) -> (bytes: &Vec<u8>)
        ensures
            bytes@ == self@.outgoing,
    {
        &self.outgoing
    }

    /// Gives up the transport for the bytes written to it.
    pub fn into_written(self) -> (bytes: Vec<u8>)
        ensures
            bytes@ == self@.outgoing,
    {
        self.outgoing
    }
}

impl PacketReader for ByteStream {
    fn next_byte(&mut self) -> (r: Option<u8>) {
        if self.cursor < self.incoming.len() {
            let b: u8 = self.incoming[self.cursor];
            self.cursor = self.cursor + 1;
            Some(b)
        } else {
            None
        }
    }
}

impl PacketWriter for ByteStream {
    fn write(&mut self, data: &[u8]) -> (r: Result<(), PacketError>) {
        self.outgoing.extend_from_slice(data);
        Ok(())
    }
}

} // verus!
