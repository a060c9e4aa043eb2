//! The messages of the upstream protocol and their layout on the wire.
//!
//! A frame is a big-endian 32-bit length, which counts the bytes that follow
//! it, then a four-byte tag, then the fields that the tag calls for.

use crate::packet_reader::{PacketError, PacketWriter};
use crate::wire::{be16, be32, signed16, signed8, u16_bytes, u32_bytes};
use std::collections::HashMap;
use vstd::prelude::*;
use vstd::utf8::{decode_utf8, valid_utf8};

verus! {

/// The tag `QINF`: the server asks for the screen's size.
pub const QINF: u32 = 0x5149_4E46;

/// The tag `DINF`: the screen's size, sent in answer.
pub const DINF: u32 = 0x4449_4E46;

/// The tag `CIAK`: the server has taken note of the size.
pub const CIAK: u32 = 0x4349_414B;

/// The tag `CALV`: keep-alive.
pub const CALV: u32 = 0x4341_4C56;

/// The tag `CROP`: options go back to their defaults.
pub const CROP: u32 = 0x4352_4F50;

/// The tag `CNOP`: nothing.
pub const CNOP: u32 = 0x434E_4F50;

/// The tag `DSOP`: options are set.
pub const DSOP: u32 = 0x4453_4F50;

/// The tag `EUNK`: the server does not know this screen.
pub const EUNK: u32 = 0x4555_4E4B;

/// The tag `DMMV`: the pointer moves to a position.
pub const DMMV: u32 = 0x444D_4D56;

/// The tag `CINN`: the pointer enters this screen.
pub const CINN: u32 = 0x4349_4E4E;

/// The tag `COUT`: the pointer leaves this screen.
pub const COUT: u32 = 0x434F_5554;

/// The tag `CCLP`: a clipboard is grabbed.
pub const CCLP: u32 = 0x4343_4C50;

/// The tag `DCLP`: a clipboard's content.
pub const DCLP: u32 = 0x4443_4C50;

/// The tag `DMUP`: a mouse button goes up.
pub const DMUP: u32 = 0x444D_5550;

/// The tag `DMDN`: a mouse button goes down.
pub const DMDN: u32 = 0x444D_444E;

/// The tag `DKUP`: a key goes up.
pub const DKUP: u32 = 0x444B_5550;

/// The tag `DKDN`: a key goes down.
pub const DKDN: u32 = 0x444B_444E;

/// The tag `DMWM`: the wheel turns.
pub const DMWM: u32 = 0x444D_574D;

/// One message of the upstream protocol.
#[derive(Debug)]
#[allow(inconsistent_fields)]
pub enum Packet {
    QueryInfo,
    DeviceInfo {
        x: u16,
        y: u16,
        w: u16,
        h: u16,
        dummy: u16,
        /// Horizontal position of the mouse on the secondary screen.
        mx: u16,
        /// Vertical position of the mouse on the secondary screen.
        my: u16,
    },
    InfoAck,
    KeepAlive,
    ResetOptions,
    ClientNoOp,
    /// Values by option name; a name is its four bytes read as a big-endian number.
    SetDeviceOptions(HashMap<u32, u32>),
    ErrorUnknownDevice,
    GrabClipboard { id: u8, seq_num: u32 },
    SetClipboard { id: u8, seq_num: u32, mark: u8, data: Vec<u8> },
    CursorEnter { x: u16, y: u16, seq_num: u32, mask: u16 },
    MouseUp { id: i8 },
    MouseDown { id: i8 },
    KeyUp { id: u16, mask: u16, button: u16 },
    KeyDown { id: u16, mask: u16, button: u16 },
    MouseWheel { x_delta: i16, y_delta: i16 },
    CursorLeave,
    MouseMoveAbs { x: u16, y: u16 },
    /// A frame with a tag that has no layout here; it holds the tag as text.
    Unknown(String),
}

/// A message as a mathematical value.
#[allow(inconsistent_fields)]
pub enum PacketView {
    QueryInfo,
    DeviceInfo { x: u16, y: u16, w: u16, h: u16, dummy: u16, mx: u16, my: u16 },
    InfoAck,
    KeepAlive,
    ResetOptions,
    ClientNoOp,
    SetDeviceOptions(Map<u32, u32>),
    ErrorUnknownDevice,
    GrabClipboard { id: u8, seq_num: u32 },
    SetClipboard { id: u8, seq_num: u32, mark: u8, data: Seq<u8> },
    CursorEnter { x: u16, y: u16, seq_num: u32, mask: u16 },
    MouseUp { id: i8 },
    MouseDown { id: i8 },
    KeyUp { id: u16, mask: u16, button: u16 },
    KeyDown { id: u16, mask: u16, button: u16 },
    MouseWheel { x_delta: i16, y_delta: i16 },
    CursorLeave,
    MouseMoveAbs { x: u16, y: u16 },
    Unknown(Seq<char>),
}

impl View for Packet {
    type V = PacketView;

    open spec fn view(&self) -> PacketView {
        match *self {
            Packet::QueryInfo => PacketView::QueryInfo,
            Packet::DeviceInfo { x, y, w, h, dummy, mx, my } => PacketView::DeviceInfo {
                x,
                y,
                w,
                h,
                dummy,
                mx,
                my,
            },
            Packet::InfoAck => PacketView::InfoAck,
            Packet::KeepAlive => PacketView::KeepAlive,
            Packet::ResetOptions => PacketView::ResetOptions,
            Packet::ClientNoOp => PacketView::ClientNoOp,
            Packet::SetDeviceOptions(opts) => PacketView::SetDeviceOptions(opts@),
            Packet::ErrorUnknownDevice => PacketView::ErrorUnknownDevice,
            Packet::GrabClipboard { id, seq_num } => PacketView::GrabClipboard { id, seq_num },
            Packet::SetClipboard { id, seq_num, mark, data } => PacketView::SetClipboard {
                id,
                seq_num,
                mark,
                data: data@,
            },
            Packet::CursorEnter { x, y, seq_num, mask } => PacketView::CursorEnter {
                x,
                y,
                seq_num,
                mask,
            },
            Packet::MouseUp { id } => PacketView::MouseUp { id },
            Packet::MouseDown { id } => PacketView::MouseDown { id },
            Packet::KeyUp { id, mask, button } => PacketView::KeyUp { id, mask, button },
            Packet::KeyDown { id, mask, button } => PacketView::KeyDown { id, mask, button },
            Packet::MouseWheel { x_delta, y_delta } => PacketView::MouseWheel { x_delta, y_delta },
            Packet::CursorLeave => PacketView::CursorLeave,
            Packet::MouseMoveAbs { x, y } => PacketView::MouseMoveAbs { x, y },
            Packet::Unknown(tag) => PacketView::Unknown(tag@),
        }
    }
}

/// The outcome of a read as a mathematical value.
pub open spec fn viewed(r: Result<Packet, PacketError>) -> Result<PacketView, PacketError> {
    match r {
        Ok(packet) => Ok(packet@),
        Err(e) => Err(e),
    }
}

/// The text that `String::from_utf8_lossy` makes of bytes that are not UTF-8.
pub uninterp spec fn lossy_text(bytes: Seq<u8>) -> Seq<char>;

/// A tag as text: the text that its bytes spell in UTF-8, and where they
/// spell none, the text with replacement characters that
/// `String::from_utf8_lossy` makes of them.
pub open spec fn text_of(code: Seq<u8>) -> Seq<char> {
    if valid_utf8(code) {
        decode_utf8(code)
    } else {
        lossy_text(code)
    }
}

/// `String::from_utf8_lossy` on the four bytes of a tag. Bytes that are
/// UTF-8 come back as the text they spell; of other bytes the contract only
/// names the result.
#[verifier::external_body]
pub(crate) fn tag_text(code: &[u8; 4]) -> (text: String)
    ensures
        valid_utf8(code@) ==> text@ == decode_utf8(code@),
        !valid_utf8(code@) ==> text@ == lossy_text(code@),
{
    String::from_utf8_lossy(code).into_owned()
}

/// A frame: the length of what follows as a big-endian 32-bit number, the
/// tag, and the payload.
pub open spec fn frame(tag: u32, payload: Seq<u8>) -> Seq<u8>
    recommends
        4 + payload.len() <= u32::MAX,
{
    u32_bytes((4 + payload.len()) as u32) + u32_bytes(tag) + payload
}

impl PacketView {
    /// Whether this end ever sends the message.
    pub open spec fn outbound(self) -> bool {
        ||| self is QueryInfo
        ||| self is DeviceInfo
        ||| self is ClientNoOp
        ||| self is InfoAck
        ||| self is KeepAlive
        ||| self is ErrorUnknownDevice
        ||| self is MouseMoveAbs
    }

    /// The frame of an outbound message. The spare field of `DeviceInfo`
    /// always goes out as zero.
    pub open spec fn wire_form(self) -> Seq<u8>
        recommends
            self.outbound(),
    {
        match self {
            PacketView::QueryInfo => frame(QINF, Seq::empty()),
            PacketView::DeviceInfo { x, y, w, h, dummy, mx, my } => frame(
                DINF,
                u16_bytes(x) + u16_bytes(y) + u16_bytes(w) + u16_bytes(h) + u16_bytes(0)
                    + u16_bytes(mx) + u16_bytes(my),
            ),
            PacketView::ClientNoOp => frame(CNOP, Seq::empty()),
            PacketView::InfoAck => frame(CIAK, Seq::empty()),
            PacketView::KeepAlive => frame(CALV, Seq::empty()),
            PacketView::ErrorUnknownDevice => frame(EUNK, Seq::empty()),
            PacketView::MouseMoveAbs { x, y } => frame(DMMV, u16_bytes(x) + u16_bytes(y)),
            _ => Seq::empty(),
        }
    }
}

/// What reading one frame off a byte sequence gives: the message or the
/// failure, and the bytes left unread.
pub struct Decoded {
    pub result: Result<PacketView, PacketError>,
    pub rest: Seq<u8>,
}

/// The transport ended inside the frame.
pub open spec fn cut_short() -> Decoded {
    Decoded { result: Err(PacketError::IoError), rest: Seq::empty() }
}

/// A payload of `n` bytes that spells `packet`.
pub open spec fn fixed(payload: Seq<u8>, n: int, packet: PacketView) -> Decoded {
    if payload.len() < n {
        cut_short()
    } else {
        Decoded { result: Ok(packet), rest: payload.skip(n) }
    }
}

/// The name in the pair of index `i`: its four bytes as a big-endian number.
pub open spec fn pair_name(pairs: Seq<u8>, i: int) -> u32 {
    be32(pairs.skip(8 * i))
}

/// The value in the pair of index `i`.
pub open spec fn pair_value(pairs: Seq<u8>, i: int) -> u32 {
    be32(pairs.skip(8 * i + 4))
}

/// The options that the first `n` pairs of `pairs` set: each pair is a
/// four-byte name and a big-endian 32-bit value, and a later pair overrides
/// an earlier one of the same name.
pub open spec fn options(pairs: Seq<u8>, n: nat) -> Map<u32, u32>
    decreases n,
{
    if n == 0 {
        Map::empty()
    } else {
        options(pairs, (n - 1) as nat).insert(pair_name(pairs, n - 1), pair_value(pairs, n - 1))
    }
}

/// The payload of `DSOP`: a count of items, then half as many pairs.
pub open spec fn decode_options(payload: Seq<u8>) -> Decoded {
    if payload.len() < 4 {
        cut_short()
    } else {
        let n = be32(payload) / 2;
        let pairs = payload.skip(4);
        if pairs.len() < 8 * n {
            cut_short()
        } else {
            Decoded {
                result: Ok(PacketView::SetDeviceOptions(options(pairs, n as nat))),
                rest: pairs.skip(8 * n),
            }
        }
    }
}

/// The payload of `DCLP`: owner, sequence number, mark, then a block of
/// bytes behind its own 32-bit length.
pub open spec fn decode_clipboard(payload: Seq<u8>) -> Decoded {
    if payload.len() < 10 {
        cut_short()
    } else {
        let block = payload.skip(6);
        if block.len() - 4 < be32(block) {
            Decoded { result: Err(PacketError::InsufficientDataError), rest: Seq::empty() }
        } else {
            Decoded {
                result: Ok(
                    PacketView::SetClipboard {
                        id: payload[0],
                        seq_num: be32(payload.skip(1)),
                        mark: payload[5],
                        data: block.subrange(4, 4 + be32(block)),
                    },
                ),
                rest: block.skip(4 + be32(block)),
            }
        }
    }
}

/// Whether a tag has a layout of its own when read.
pub open spec fn known_tag(tag: u32) -> bool {
    ||| tag == QINF
    ||| tag == CIAK
    ||| tag == CALV
    ||| tag == CROP
    ||| tag == DSOP
    ||| tag == EUNK
    ||| tag == DMMV
    ||| tag == CINN
    ||| tag == COUT
    ||| tag == CCLP
    ||| tag == DCLP
    ||| tag == DMUP
    ||| tag == DMDN
    ||| tag == DKUP
    ||| tag == DKDN
    ||| tag == DMWM
}

/// The message that a frame of declared length `size` with the tag bytes
/// `code` holds, where `payload` is what follows the tag.
pub open spec fn decode_payload(size: u32, code: Seq<u8>, payload: Seq<u8>) -> Decoded {
    let tag = be32(code);
    if tag == QINF {
        fixed(payload, 0, PacketView::QueryInfo)
    } else if tag == CIAK {
        fixed(payload, 0, PacketView::InfoAck)
    } else if tag == CALV {
        fixed(payload, 0, PacketView::KeepAlive)
    } else if tag == CROP {
        fixed(payload, 0, PacketView::ResetOptions)
    } else if tag == DSOP {
        decode_options(payload)
    } else if tag == EUNK {
        fixed(payload, 0, PacketView::ErrorUnknownDevice)
    } else if tag == DMMV {
        fixed(payload, 4, PacketView::MouseMoveAbs { x: be16(payload), y: be16(payload.skip(2)) })
    } else if tag == CINN {
        fixed(
            payload,
            10,
            PacketView::CursorEnter {
                x: be16(payload),
                y: be16(payload.skip(2)),
                seq_num: be32(payload.skip(4)),
                mask: be16(payload.skip(8)),
            },
        )
    } else if tag == COUT {
        fixed(payload, 0, PacketView::CursorLeave)
    } else if tag == CCLP {
        fixed(
            payload,
            5,
            PacketView::GrabClipboard { id: payload[0], seq_num: be32(payload.skip(1)) },
        )
    } else if tag == DCLP {
        decode_clipboard(payload)
    } else if tag == DMUP {
        fixed(payload, 1, PacketView::MouseUp { id: signed8(payload[0]) })
    } else if tag == DMDN {
        fixed(payload, 1, PacketView::MouseDown { id: signed8(payload[0]) })
    } else if tag == DKUP {
        fixed(
            payload,
            6,
            PacketView::KeyUp {
                id: be16(payload),
                mask: be16(payload.skip(2)),
                button: be16(payload.skip(4)),
            },
        )
    } else if tag == DKDN {
        fixed(
            payload,
            6,
            PacketView::KeyDown {
                id: be16(payload),
                mask: be16(payload.skip(2)),
                button: be16(payload.skip(4)),
            },
        )
    } else if tag == DMWM {
        fixed(
            payload,
            4,
            PacketView::MouseWheel {
                x_delta: signed16(be16(payload)),
                y_delta: signed16(be16(payload.skip(2))),
            },
        )
    } else {
        fixed(payload, size - 4, PacketView::Unknown(text_of(code)))
    }
}

/// What reading one frame off `input` gives.
///
/// A declared length under four cannot hold a tag: that many bytes are
/// skipped, fewer where the input ends before, and the frame is refused.
/// A frame with a tag that has no layout here is skipped whole.
pub open spec fn decode(input: Seq<u8>) -> Decoded {
    if input.len() < 4 {
        cut_short()
    } else if be32(input) < 4 {
        Decoded {
            result: Err(PacketError::PacketTooSmall),
            rest: if input.len() - 4 < be32(input) {
                Seq::empty()
            } else {
                input.skip(4 + be32(input))
            },
        }
    } else if input.len() < 8 {
        cut_short()
    } else {
        decode_payload(be32(input), input.subrange(4, 8), input.skip(8))
    }
}

impl Packet {
    /// Whether this end ever sends the message.
    pub fn is_outbound(&self) -> (b: bool)
        ensures
            b == self@.outbound(),
    {
        match self {
            Packet::QueryInfo => true,
            Packet::DeviceInfo { .. } => true,
            Packet::ClientNoOp => true,
            Packet::InfoAck => true,
            Packet::KeepAlive => true,
            Packet::ErrorUnknownDevice => true,
            Packet::MouseMoveAbs { .. } => true,
            _ => false,
        }
    }

    /// Writes the message's frame to `out`.
    pub fn write_wire<W: PacketWriter>(self, out: &mut W) -> (r: Result<(), PacketError>)
        requires
            self@.outbound(),
        ensures
            r is Ok,
            final(out)@ == old(out)@.sent(self@.wire_form()),
    {
        match self {
            Packet::QueryInfo => {
                out.write_u32(4)?;
                out.write_u32(QINF)?;
                Ok(())
            },
            Packet::DeviceInfo { x, y, w, h, dummy: _dummy, mx, my } => {
                out.write_u32(2 * 7 + 4)?;
                out.write_u32(DINF)?;
                out.write_u16(x)?;
                out.write_u16(y)?;
                out.write_u16(w)?;
                out.write_u16(h)?;
                out.write_u16(0)?;
                out.write_u16(mx)?;
                out.write_u16(my)?;
                Ok(())
            },
            Packet::ClientNoOp => {
                out.write_u32(4)?;
                out.write_u32(CNOP)?;
                Ok(())
            },
            Packet::InfoAck => {
                out.write_u32(4)?;
                out.write_u32(CIAK)?;
                Ok(())
            },
            Packet::KeepAlive => {
                out.write_u32(4)?;
                out.write_u32(CALV)?;
                Ok(())
            },
            Packet::ErrorUnknownDevice => {
                out.write_u32(4)?;
                out.write_u32(EUNK)?;
                Ok(())
            },
            Packet::MouseMoveAbs { x, y } => {
                out.write_u32(4 + 2 + 2)?;
                out.write_u32(DMMV)?;
                out.write_u16(x)?;
                out.write_u16(y)?;
                Ok(())
            },
            _ => Ok(()),
        }
    }
}

} // verus!
