//! The commands of the downstream device: one opcode byte, then fixed
//! fields, big-endian, with no length in front.

use crate::packet_reader::PacketError;
use crate::wire::{i16_bytes, i8_byte, put_i16, put_i8, put_u16, put_u8, u16_bytes};
use vstd::prelude::*;

verus! {

/// The largest coordinate that the device takes: its range is 15 bits wide.
pub const DEVICE_RANGE: u16 = 0x7fff;

/// One command for the input-injection device.
#[derive(Debug, Clone, Copy, PartialEq, Eq, Structural)]
#[allow(inconsistent_fields)]
pub enum DownstreamCommand {
    /// The pointer moves to a position in the device's own range.
    MouseMove { x: u16, y: u16 },
    MouseDown { id: i8 },
    MouseUp { id: i8 },
    KeyDown { id: u16, mask: u16, button: u16 },
    KeyUp { id: u16, mask: u16, button: u16 },
    MouseWheel { x_delta: i16, y_delta: i16 },
    CursorEnter,
    CursorLeave,
}

impl DownstreamCommand {
    /// The byte that opens the command.
    pub open spec fn opcode(self) -> u8 {
        match self {
            DownstreamCommand::MouseMove { .. } => 0,
            DownstreamCommand::MouseDown { .. } => 1,
            DownstreamCommand::MouseUp { .. } => 2,
            DownstreamCommand::KeyDown { .. } => 3,
            DownstreamCommand::KeyUp { .. } => 4,
            DownstreamCommand::MouseWheel { .. } => 5,
            DownstreamCommand::CursorEnter => 6,
            DownstreamCommand::CursorLeave => 7,
        }
    }

    /// The bytes that follow the opcode.
    pub open spec fn fields(self) -> Seq<u8> {
        match self {
            DownstreamCommand::MouseMove { x, y } => u16_bytes(x) + u16_bytes(y),
            DownstreamCommand::MouseDown { id } => seq![i8_byte(id)],
            DownstreamCommand::MouseUp { id } => seq![i8_byte(id)],
            DownstreamCommand::KeyDown { id, mask, button } => u16_bytes(id) + u16_bytes(mask)
                + u16_bytes(button),
            DownstreamCommand::KeyUp { id, mask, button } => u16_bytes(id) + u16_bytes(mask)
                + u16_bytes(button),
            DownstreamCommand::MouseWheel { x_delta, y_delta } => i16_bytes(x_delta) + i16_bytes(
                y_delta,
            ),
            DownstreamCommand::CursorEnter => Seq::empty(),
            DownstreamCommand::CursorLeave => Seq::empty(),
        }
    }

    /// The command as it goes over the serial link.
    pub open spec fn wire_form(self) -> Seq<u8> {
        seq![self.opcode()] + self.fields()
    }

    /// Appends the command to `port` as it goes over the serial link.
    pub fn write_wire(&self, port: &mut Vec<u8>) -> (r: Result<(), PacketError>)
        ensures
            r is Ok,
            final(port)@ == old(port)@ + self.wire_form(),
    {
        match *self {
            DownstreamCommand::MouseMove { x, y } => {
                put_u8(port, 0)?;
                put_u16(port, x)?;
                put_u16(port, y)?;
            },
            DownstreamCommand::MouseDown { id } => {
                put_u8(port, 1)?;
                put_i8(port, id)?;
            },
            DownstreamCommand::MouseUp { id } => {
                put_u8(port, 2)?;
                put_i8(port, id)?;
            },
            DownstreamCommand::KeyDown { id, mask, button } => {
                put_u8(port, 3)?;
                put_u16(port, id)?;
                put_u16(port, mask)?;
                put_u16(port, button)?;
            },
            DownstreamCommand::KeyUp { id, mask, button } => {
                put_u8(port, 4)?;
                put_u16(port, id)?;
                put_u16(port, mask)?;
                put_u16(port, button)?;
            },
            DownstreamCommand::MouseWheel { x_delta, y_delta } => {
                put_u8(port, 5)?;
                put_i16(port, x_delta)?;
                put_i16(port, y_delta)?;
            },
            DownstreamCommand::CursorEnter => {
                put_u8(port, 6)?;
            },
            DownstreamCommand::CursorLeave => {
                put_u8(port, 7)?;
            },
        }
        assert(port@ =~= old(port)@ + self.wire_form());
        Ok(())
    }
}

/// How many bytes follow an opcode.
pub open spec fn field_width(opcode: u8) -> nat {
    if opcode == 0 {
        4
    } else if opcode == 1 || opcode == 2 {
        1
    } else if opcode == 3 || opcode == 4 {
        6
    } else if opcode == 5 {
        4
    } else {
        0
    }
}

/// The link has a fixed format: a command opens with its opcode, and the
/// opcode alone says how many bytes follow.
pub proof fn lemma_fixed_format(command: DownstreamCommand)
    ensures
        command.opcode() <= 7,
        command.wire_form()[0] == command.opcode(),
        command.wire_form().len() == 1 + field_width(command.opcode()),
{
}

/// A screen coordinate brought into the device's range: `coord` times
/// `DEVICE_RANGE` over `dimension`, rounded up, and held at the largest
/// 16-bit number where it would pass it.
pub open spec fn scaled(coord: u16, dimension: u16) -> u16
    recommends
        dimension > 0,
{
    let exact = (coord * DEVICE_RANGE + dimension - 1) / (dimension as int);
    if exact > u16::MAX {
        u16::MAX
    } else {
        exact as u16
    }
}

/// Brings a screen coordinate into the device's range.
pub fn scale(coord: u16, dimension: u16) -> (r: u16)
    requires
        dimension > 0,
    ensures
        r == scaled(coord, dimension),
{
    assert(coord * DEVICE_RANGE <= 0xffff * 0x7fff) by (nonlinear_arith)
        requires
            coord <= 0xffff,
            DEVICE_RANGE == 0x7fff,
    ;
    let product: u32 = coord as u32 * DEVICE_RANGE as u32;
    let exact: u32 = (product + (dimension as u32 - 1)) / dimension as u32;
    if exact > u16::MAX as u32 {
        u16::MAX
    } else {
        exact as u16
    }
}

/// Rounding up: where the scaled coordinate is not held at the top, it is the
/// least number that, times the dimension, reaches `coord` times
/// `DEVICE_RANGE`. The origin stays the origin, the far edge lands on
/// `DEVICE_RANGE`, and no position on the screen lands beyond it.
pub proof fn lemma_scaled_rounds_up(coord: u16, dimension: u16)
    requires
        dimension > 0,
    ensures
        scaled(coord, dimension) < u16::MAX ==> scaled(coord, dimension) * dimension >= coord
            * DEVICE_RANGE,
        scaled(coord, dimension) < u16::MAX ==> (scaled(coord, dimension) - 1) * dimension
            < coord * DEVICE_RANGE,
        scaled(0, dimension) == 0,
        scaled(dimension, dimension) == DEVICE_RANGE,
        coord <= dimension ==> scaled(coord, dimension) <= DEVICE_RANGE,
{
    let d = dimension as int;
    let top = coord * DEVICE_RANGE + d - 1;
    let exact = top / d;
    assert(top == d * exact + top % d && 0 <= top % d < d) by (nonlinear_arith)
        requires
            d > 0,
            exact == top / d,
    ;
    assert(exact * d == d * exact) by (nonlinear_arith);
    assert((exact - 1) * d == exact * d - d) by (nonlinear_arith);
    assert((d - 1) / d == 0) by (nonlinear_arith)
        requires
            d > 0,
    ;
    assert((d * 0x7fff + d - 1) / d == 0x7fff) by (nonlinear_arith)
        requires
            d > 0,
    ;
    if coord <= dimension {
        assert(top / d <= 0x7fff) by (nonlinear_arith)
            requires
                d > 0,
                top <= d * 0x7fff + d - 1,
        ;
    }
}

} // verus!
