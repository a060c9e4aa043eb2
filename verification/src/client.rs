//! The session: the greeting that opens it, and the reaction to each
//! message that follows until a read fails.

use crate::command::{scale, scaled, DownstreamCommand};
use crate::laws::{lemma_decode_stays_in_bounds, lemma_serve_ends, lemma_serve_unfolds};
use crate::packet::{decode, viewed, Packet, PacketView};
use crate::packet_reader::{PacketError, PacketReader, PacketWriter, StreamView};
use crate::packet_stream::PacketStream;
use crate::wire::{be16, u16_bytes, u32_bytes};
use vstd::prelude::*;
use vstd::string::StringSliceAdditionalSpecFns;

verus! {

/// Why a session could not be opened.
#[derive(Debug, Clone, Copy, PartialEq, Eq, Structural)]
pub enum ConnectionError {
    /// The transport gave out under a plain read.
    TcpError,
    /// The server's greeting is not the one expected.
    ProtocolError(PacketError),
}

impl ConnectionError {
    /// What the failure is, in words.
    pub open spec fn text(self) -> Seq<char> {
        match self {
            ConnectionError::TcpError => "tcp connection failed"@,
            ConnectionError::ProtocolError(_) => "invalid data received"@,
        }
    }

    /// What the failure is, in words.
    pub fn message(&self) -> (words: String)
        ensures
            words@ == self.text(),
    {
        match self {
            ConnectionError::TcpError => "tcp connection failed".to_owned(),
            ConnectionError::ProtocolError(_) => "invalid data received".to_owned(),
        }
    }
}

impl From<PacketError> for ConnectionError {
    fn from(e: PacketError) -> (r: ConnectionError) {
        ConnectionError::ProtocolError(e)
    }
}

impl vstd::std_specs::convert::FromSpecImpl<PacketError> for ConnectionError {
    open spec fn obeys_from_spec() -> bool {
        true
    }

    open spec fn from_spec(e: PacketError) -> ConnectionError {
        ConnectionError::ProtocolError(e)
    }
}

/// The major version of the protocol that this end speaks.
pub const PROTOCOL_MAJOR: u16 = 1;

/// The minor version of the protocol that this end speaks.
pub const PROTOCOL_MINOR: u16 = 6;

/// What one received message calls for: at most one reply upstream or one
/// command downstream.
#[derive(Debug)]
pub enum Reaction {
    /// A message goes back to the server.
    Reply(Packet),
    /// A command goes to the device.
    Command(DownstreamCommand),
    /// Nothing is sent.
    Ignore,
}

/// The reaction that a message calls for on a screen of the given width and
/// height.
pub open spec fn reaction(packet: PacketView, screen_size: (u16, u16)) -> Reaction {
    match packet {
        PacketView::QueryInfo => Reaction::Reply(
            Packet::DeviceInfo {
                x: 0,
                y: 0,
                w: screen_size.0,
                h: screen_size.1,
                dummy: 0,
                mx: 0,
                my: 0,
            },
        ),
        PacketView::KeepAlive => Reaction::Reply(Packet::KeepAlive),
        PacketView::MouseMoveAbs { x, y } => Reaction::Command(
            DownstreamCommand::MouseMove {
                x: scaled(x, screen_size.0),
                y: scaled(y, screen_size.1),
            },
        ),
        PacketView::KeyUp { id, mask, button } => Reaction::Command(
            DownstreamCommand::KeyUp { id, mask, button },
        ),
        PacketView::KeyDown { id, mask, button } => Reaction::Command(
            DownstreamCommand::KeyDown { id, mask, button },
        ),
        PacketView::MouseDown { id } => Reaction::Command(DownstreamCommand::MouseDown { id }),
        PacketView::MouseUp { id } => Reaction::Command(DownstreamCommand::MouseUp { id }),
        PacketView::MouseWheel { x_delta, y_delta } => Reaction::Command(
            DownstreamCommand::MouseWheel { x_delta, y_delta },
        ),
        PacketView::CursorEnter { .. } => Reaction::Command(DownstreamCommand::CursorEnter),
        PacketView::CursorLeave => Reaction::Command(DownstreamCommand::CursorLeave),
        _ => Reaction::Ignore,
    }
}

impl Reaction {
    /// The bytes that the reaction sends upstream.
    pub open spec fn reply_bytes(self) -> Seq<u8> {
        match self {
            Reaction::Reply(packet) => packet@.wire_form(),
            _ => Seq::empty(),
        }
    }

    /// The bytes that the reaction sends downstream.
    pub open spec fn command_bytes(self) -> Seq<u8> {
        match self {
            Reaction::Command(command) => command.wire_form(),
            _ => Seq::empty(),
        }
    }
}

/// Decides what a received message calls for.
pub fn react(packet: &Packet, screen_size: (u16, u16)) -> (r: Reaction)
    requires
        screen_size.0 > 0,
        screen_size.1 > 0,
    ensures
        r == reaction(packet@, screen_size),
{
    match packet {
        Packet::QueryInfo => Reaction::Reply(
            Packet::DeviceInfo {
                x: 0,
                y: 0,
                w: screen_size.0,
                h: screen_size.1,
                dummy: 0,
                mx: 0,
                my: 0,
            },
        ),
        Packet::KeepAlive => Reaction::Reply(Packet::KeepAlive),
        Packet::MouseMoveAbs { x, y } => {
            let abs_x: u16 = scale(*x, screen_size.0);
            let abs_y: u16 = scale(*y, screen_size.1);
            Reaction::Command(DownstreamCommand::MouseMove { x: abs_x, y: abs_y })
        },
        Packet::KeyUp { id, mask, button } => Reaction::Command(
            DownstreamCommand::KeyUp { id: *id, mask: *mask, button: *button },
        ),
        Packet::KeyDown { id, mask, button } => Reaction::Command(
            DownstreamCommand::KeyDown { id: *id, mask: *mask, button: *button },
        ),
        Packet::MouseDown { id } => Reaction::Command(DownstreamCommand::MouseDown { id: *id }),
        Packet::MouseUp { id } => Reaction::Command(DownstreamCommand::MouseUp { id: *id }),
        Packet::MouseWheel { x_delta, y_delta } => Reaction::Command(
            DownstreamCommand::MouseWheel { x_delta: *x_delta, y_delta: *y_delta },
        ),
        Packet::InfoAck => Reaction::Ignore,
        Packet::ResetOptions => Reaction::Ignore,
        Packet::SetDeviceOptions(_) => Reaction::Ignore,
        Packet::CursorEnter { .. } => Reaction::Command(DownstreamCommand::CursorEnter),
        Packet::CursorLeave => Reaction::Command(DownstreamCommand::CursorLeave),
        Packet::GrabClipboard { .. } => Reaction::Ignore,
        Packet::SetClipboard { .. } => Reaction::Ignore,
        Packet::DeviceInfo { .. } | Packet::ErrorUnknownDevice | Packet::ClientNoOp => {
            Reaction::Ignore
        },
        Packet::Unknown(_) => Reaction::Ignore,
    }
}

/// What a run of the session over some input sends, and what it leaves
/// unread.
pub struct Transcript {
    /// The bytes sent upstream, in order.
    pub replies: Seq<u8>,
    /// The bytes sent downstream, in order.
    pub commands: Seq<u8>,
    /// The bytes left unread when the first read failed.
    pub rest: Seq<u8>,
}

/// The session over `input`: messages are read one after the other and each
/// is reacted to, until a read fails.
#[verifier::opaque]
pub open spec fn serve(input: Seq<u8>, screen_size: (u16, u16)) -> Transcript
    decreases input.len(),
{
    let first = decode(input);
    if first.result is Ok && first.rest.len() < input.len() {
        let step = reaction(first.result->Ok_0, screen_size);
        let later = serve(first.rest, screen_size);
        Transcript {
            replies: step.reply_bytes() + later.replies,
            commands: step.command_bytes() + later.commands,
            rest: later.rest,
        }
    } else {
        Transcript { replies: Seq::empty(), commands: Seq::empty(), rest: first.rest }
    }
}

/// The word that opens the greeting of either side: `Barrier`.
pub open spec fn magic() -> Seq<u8> {
    seq![0x42, 0x61, 0x72, 0x72, 0x69, 0x65, 0x72]
}

/// What reading the server's greeting off a byte sequence gives: the
/// server's version or the failure, and the bytes left unread.
pub struct Hello {
    pub result: Result<(u16, u16), ConnectionError>,
    pub rest: Seq<u8>,
}

/// The server's greeting: a frame length, which is not looked at, the
/// magic word, and the major and minor version, which are not judged.
pub open spec fn parse_hello(input: Seq<u8>) -> Hello {
    if input.len() < 4 {
        Hello {
            result: Err(ConnectionError::ProtocolError(PacketError::IoError)),
            rest: Seq::empty(),
        }
    } else if input.len() < 11 {
        Hello {
            result: Err(ConnectionError::ProtocolError(PacketError::FormatError)),
            rest: Seq::empty(),
        }
    } else if input.subrange(4, 11) != magic() {
        Hello {
            result: Err(ConnectionError::ProtocolError(PacketError::FormatError)),
            rest: input.skip(11),
        }
    } else if input.len() < 15 {
        Hello { result: Err(ConnectionError::TcpError), rest: Seq::empty() }
    } else {
        Hello { result: Ok((be16(input.skip(11)), be16(input.skip(13)))), rest: input.skip(15) }
    }
}

/// This end's greeting for a device of the given name: the length of what
/// follows, the magic word, the version, and the name behind its own length.
pub open spec fn greeting(name: Seq<u8>) -> Seq<u8> {
    u32_bytes((7 + 2 + 2 + 4 + name.len()) as u32) + magic() + u16_bytes(PROTOCOL_MAJOR)
        + u16_bytes(PROTOCOL_MINOR) + u32_bytes(name.len() as u32) + name
}

/// The magic word is the text `Barrier` in bytes.
pub proof fn lemma_magic_text()
    ensures
        "Barrier".spec_bytes() == magic(),
{
    reveal_strlit("Barrier");
    assert(vstd::string::is_ascii("Barrier"));
    vstd::string::is_ascii_spec_bytes("Barrier");
    assert("Barrier".spec_bytes() =~= magic());
}

/// Exchanges greetings: reads the server's, which must open with the magic
/// word, and answers with this end's. Gives the server's version.
pub fn handshake<S: PacketReader + PacketWriter>(stream: &mut S, device_name: &str) -> (r: Result<
    (u16, u16),
    ConnectionError,
>)
    requires
        device_name.spec_bytes().len() + 15 <= u32::MAX,
    ensures
        r == parse_hello(old(stream)@.incoming).result,
        final(stream)@.incoming == parse_hello(old(stream)@.incoming).rest,
        r is Ok ==> final(stream)@.outgoing == old(stream)@.outgoing + greeting(
            device_name.spec_bytes(),
        ),
        r is Err ==> final(stream)@.outgoing == old(stream)@.outgoing,
{
    let ghost input = old(stream)@.incoming;
    proof {
        lemma_magic_text();
    }
    let _size: u32 = match stream.read_packet_size() {
        Ok(size) => size,
        Err(e) => {
            return Err(ConnectionError::from(e));
        },
    };
    match stream.read_str_lit("Barrier") {
        Ok(()) => {},
        Err(e) => {
            proof {
                if input.len() >= 11 {
                    assert(input.skip(4).take(7) =~= input.subrange(4, 11));
                    assert(input.skip(4).skip(7) =~= input.skip(11));
                }
            }
            return Err(ConnectionError::from(e));
        },
    }
    proof {
        assert(input.skip(4).take(7) =~= input.subrange(4, 11));
        assert(input.skip(4).skip(7) =~= input.skip(11));
    }
    let major: u16 = match stream.read_u16() {
        Ok(major) => major,
        Err(_) => {
            return Err(ConnectionError::TcpError);
        },
    };
    let minor: u16 = match stream.read_u16() {
        Ok(minor) => minor,
        Err(_) => {
            return Err(ConnectionError::TcpError);
        },
    };
    proof {
        assert(input.skip(11).skip(2) =~= input.skip(13));
        assert(input.skip(13).skip(2) =~= input.skip(15));
    }
    match greet(stream, device_name) {
        Ok(()) => Ok((major, minor)),
        Err(e) => Err(ConnectionError::from(e)),
    }
}

/// Writes this end's greeting for a device of the given name.
pub fn greet<S: PacketWriter>(stream: &mut S, device_name: &str) -> (r: Result<(), PacketError>)
    requires
        device_name.spec_bytes().len() + 15 <= u32::MAX,
    ensures
        r is Ok,
        final(stream)@ == old(stream)@.sent(greeting(device_name.spec_bytes())),
{
    proof {
        lemma_magic_text();
    }
    let name_len: u32 = device_name.len() as u32;
    stream.write_u32(7 + 2 + 2 + 4 + name_len)?;
    stream.write("Barrier".as_bytes())?;
    stream.write_u16(PROTOCOL_MAJOR)?;
    stream.write_u16(PROTOCOL_MINOR)?;
    stream.write_str(device_name)?;
    Ok(())
}

/// Reads one message off `packet_stream` and reacts to it: a reply goes
/// back on the same transport, a command is appended to `port`. Gives the
/// message. Where the read fails nothing is sent.
pub fn step<S: PacketReader + PacketWriter>(
    packet_stream: &mut PacketStream<S>,
    port: &mut Vec<u8>,
    screen_size: (u16, u16),
) -> (r: Result<Packet, PacketError>)
    requires
        screen_size.0 > 0,
        screen_size.1 > 0,
    ensures
        viewed(r) == decode(old(packet_stream)@.incoming).result,
        final(packet_stream)@.incoming == decode(old(packet_stream)@.incoming).rest,
        r matches Ok(packet) ==> final(packet_stream)@.outgoing == old(packet_stream)@.outgoing
            + reaction(packet@, screen_size).reply_bytes(),
        r matches Ok(packet) ==> final(port)@ == old(port)@ + reaction(
            packet@,
            screen_size,
        ).command_bytes(),
        r is Err ==> final(packet_stream)@.outgoing == old(packet_stream)@.outgoing,
        r is Err ==> final(port)@ == old(port)@,
{
    let packet: Packet = packet_stream.read()?;
    match react(&packet, screen_size) {
        Reaction::Reply(reply) => {
            packet_stream.write(reply)?;
            assert(port@ + Seq::<u8>::empty() =~= port@);
        },
        Reaction::Command(command) => {
            command.write_wire(port)?;
            assert(packet_stream@.outgoing + Seq::<u8>::empty() =~= packet_stream@.outgoing);
        },
        Reaction::Ignore => {
            assert(port@ + Seq::<u8>::empty() =~= port@);
            assert(packet_stream@.outgoing + Seq::<u8>::empty() =~= packet_stream@.outgoing);
        },
    }
    Ok(packet)
}

/// Reads messages off `packet_stream` and reacts to each, replies going
/// back on the same transport and commands to `port`, until a read fails.
pub fn run<S: PacketReader + PacketWriter>(
    packet_stream: &mut PacketStream<S>,
    port: &mut Vec<u8>,
    screen_size: (u16, u16),
)
    requires
        screen_size.0 > 0,
        screen_size.1 > 0,
    ensures
        final(packet_stream)@.outgoing == old(packet_stream)@.outgoing + serve(
            old(packet_stream)@.incoming,
            screen_size,
        ).replies,
        final(packet_stream)@.incoming == serve(old(packet_stream)@.incoming, screen_size).rest,
        final(port)@ == old(port)@ + serve(old(packet_stream)@.incoming, screen_size).commands,
{
    let ghost total = serve(old(packet_stream)@.incoming, screen_size);
    loop
        invariant
            screen_size.0 > 0,
            screen_size.1 > 0,
            total == serve(old(packet_stream)@.incoming, screen_size),
            old(packet_stream)@.outgoing + total.replies == packet_stream@.outgoing + serve(
                packet_stream@.incoming,
                screen_size,
            ).replies,
            old(port)@ + total.commands == port@ + serve(
                packet_stream@.incoming,
                screen_size,
            ).commands,
            total.rest == serve(packet_stream@.incoming, screen_size).rest,
        decreases packet_stream@.incoming.len(),
    {
        let ghost before = packet_stream@;
        let ghost sent = port@;
        match step(packet_stream, port, screen_size) {
            Ok(packet) => {
                proof {
                    lemma_decode_stays_in_bounds(before.incoming);
                    lemma_serve_unfolds(before.incoming, screen_size);
                    let now = reaction(packet@, screen_size);
                    let later = serve(packet_stream@.incoming, screen_size);
                    assert((before.outgoing + now.reply_bytes()) + later.replies
                        =~= before.outgoing + (now.reply_bytes() + later.replies));
                    assert((sent + now.command_bytes()) + later.commands =~= sent + (
                    now.command_bytes() + later.commands));
                }
            },
            Err(_) => {
                proof {
                    lemma_serve_ends(before.incoming, screen_size);
                    assert(packet_stream@.outgoing + Seq::<u8>::empty()
                        =~= packet_stream@.outgoing);
                    assert(port@ + Seq::<u8>::empty() =~= port@);
                }
                return ;
            },
        }
    }
}

/// A session that has run its course on a transport.
pub struct SynergyClient<S: PacketReader + PacketWriter> {
    _packet_stream: PacketStream<S>,
}

impl<S: PacketReader + PacketWriter> View for SynergyClient<S> {
    type V = StreamView;

    closed spec fn view(&self) -> StreamView {
        self._packet_stream@
    }
}

impl<S: PacketReader + PacketWriter> SynergyClient<S> {
    /// Runs a whole session on `stream`: greetings are exchanged, and then
    /// each message is reacted to until a read fails. Commands for the
    /// device are appended to `port`.
    ///
    /// The session fails only where the server's greeting does; nothing has
    /// been sent then.
    pub fn connect(stream: S, port: &mut Vec<u8>, device_name: &str, screen_size: (u16, u16)) -> (r:
        Result<Self, ConnectionError>)
        requires
            screen_size.0 > 0,
            screen_size.1 > 0,
            device_name.spec_bytes().len() + 15 <= u32::MAX,
        ensures
            match parse_hello(stream@.incoming).result {
                Ok(_) => {
                    &&& r is Ok
                    &&& r->Ok_0@.outgoing == stream@.outgoing + greeting(device_name.spec_bytes())
                        + serve(parse_hello(stream@.incoming).rest, screen_size).replies
                    &&& r->Ok_0@.incoming == serve(
                        parse_hello(stream@.incoming).rest,
                        screen_size,
                    ).rest
                    &&& final(port)@ == old(port)@ + serve(
                        parse_hello(stream@.incoming).rest,
                        screen_size,
                    ).commands
                },
                Err(e) => {
                    &&& r is Err
                    &&& r->Err_0 == e
                    &&& final(port)@ == old(port)@
                },
            },
    {
        let mut stream = stream;
        match handshake(&mut stream, device_name) {
            Ok(_) => {},
            Err(e) => {
                return Err(e);
            },
        }
        let mut packet_stream = PacketStream::new(stream);
        run(&mut packet_stream, port, screen_size);
        Ok(Self { _packet_stream: packet_stream })
    }

    /// Gives up the session for its transport.
    pub fn into_inner(self) -> (packet_stream: PacketStream<S>)
        ensures
            packet_stream@ == self@,
    {
        self._packet_stream
    }
}

} // verus!
