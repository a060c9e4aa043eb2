//! A bridge from the Barrier input-sharing protocol to a serial
//! input-injection device: framed byte readers and writers, the packet
//! codec, the downstream command encoder, and the session engine.

pub mod byte_stream;
pub mod client;
pub mod command;
pub mod laws;
pub mod packet;
pub mod packet_reader;
pub mod packet_stream;
pub mod wire;

pub use byte_stream::ByteStream;
pub use client::{ConnectionError, Reaction, SynergyClient};
pub use command::DownstreamCommand;
pub use packet::{Packet, PacketView};
pub use packet_stream::PacketStream;
pub use packet_reader::{PacketError, PacketReader, PacketWriter, StreamView};
