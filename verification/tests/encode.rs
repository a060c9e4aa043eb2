use std::collections::HashMap;
use synergy_parser::{ByteStream, Packet, PacketStream, PacketWriter};

fn encoded(packet: Packet) -> Vec<u8> {
    let mut out = ByteStream::new(Vec::new());
    assert!(packet.is_outbound());
    assert_eq!(packet.write_wire(&mut out), Ok(()));
    out.into_written()
}

fn decoded(bytes: Vec<u8>) -> Packet {
    let mut p = PacketStream::new(ByteStream::new(bytes));
    let packet = p.read().unwrap();
    assert_eq!(p.get_ref().unread(), 0);
    packet
}

#[test]
fn query_info_frame() {
    assert_eq!(encoded(Packet::QueryInfo), b"\x00\x00\x00\x04QINF".to_vec());
}

#[test]
fn client_no_op_frame() {
    assert_eq!(encoded(Packet::ClientNoOp), b"\x00\x00\x00\x04CNOP".to_vec());
}

#[test]
fn info_ack_frame() {
    assert_eq!(encoded(Packet::InfoAck), b"\x00\x00\x00\x04CIAK".to_vec());
}

#[test]
fn keep_alive_frame() {
    assert_eq!(encoded(Packet::KeepAlive), b"\x00\x00\x00\x04CALV".to_vec());
}

#[test]
fn error_unknown_device_frame() {
    assert_eq!(encoded(Packet::ErrorUnknownDevice), b"\x00\x00\x00\x04EUNK".to_vec());
}

#[test]
fn mouse_move_frame() {
    assert_eq!(
        encoded(Packet::MouseMoveAbs { x: 2560, y: 1600 }),
        b"\x00\x00\x00\x08DMMV\x0a\x00\x06\x40".to_vec()
    );
}

#[test]
fn device_info_frame() {
    let packet = Packet::DeviceInfo { x: 1, y: 2, w: 2560, h: 1600, dummy: 0, mx: 3, my: 4 };
    assert_eq!(
        encoded(packet),
        b"\x00\x00\x00\x12DINF\x00\x01\x00\x02\x0a\x00\x06\x40\x00\x00\x00\x03\x00\x04".to_vec()
    );
}

#[test]
fn the_spare_field_of_device_info_goes_out_as_zero() {
    let packet = Packet::DeviceInfo { x: 0, y: 0, w: 1, h: 1, dummy: 0xbeef, mx: 0, my: 0 };
    assert_eq!(
        encoded(packet),
        b"\x00\x00\x00\x12DINF\x00\x00\x00\x00\x00\x01\x00\x01\x00\x00\x00\x00\x00\x00".to_vec()
    );
}

#[test]
fn the_length_counts_what_follows_it() {
    let all = vec![
        Packet::QueryInfo,
        Packet::ClientNoOp,
        Packet::InfoAck,
        Packet::KeepAlive,
        Packet::ErrorUnknownDevice,
        Packet::MouseMoveAbs { x: 9, y: 8 },
        Packet::DeviceInfo { x: 0, y: 0, w: 7, h: 6, dummy: 0, mx: 0, my: 0 },
    ];
    for packet in all {
        let bytes = encoded(packet);
        let declared = u32::from_be_bytes([bytes[0], bytes[1], bytes[2], bytes[3]]) as usize;
        assert_eq!(declared, bytes.len() - 4);
    }
}

#[test]
fn messages_without_fields_come_back() {
    assert!(matches!(decoded(encoded(Packet::QueryInfo)), Packet::QueryInfo));
    assert!(matches!(decoded(encoded(Packet::InfoAck)), Packet::InfoAck));
    assert!(matches!(decoded(encoded(Packet::KeepAlive)), Packet::KeepAlive));
    assert!(matches!(decoded(encoded(Packet::ErrorUnknownDevice)), Packet::ErrorUnknownDevice));
}

#[test]
fn mouse_move_comes_back() {
    for (x, y) in [(0u16, 0u16), (1, 2), (2560, 1600), (0xffff, 0x8000), (255, 256)] {
        match decoded(encoded(Packet::MouseMoveAbs { x, y })) {
            Packet::MouseMoveAbs { x: bx, y: by } => assert_eq!((bx, by), (x, y)),
            other => panic!("{:?}", other),
        }
    }
}

#[test]
fn device_info_comes_back_as_unknown() {
    let packet = Packet::DeviceInfo { x: 0, y: 0, w: 2560, h: 1600, dummy: 0, mx: 0, my: 0 };
    match decoded(encoded(packet)) {
        Packet::Unknown(tag) => assert_eq!(tag, "DINF"),
        other => panic!("{:?}", other),
    }
}

#[test]
fn client_no_op_comes_back_as_unknown() {
    match decoded(encoded(Packet::ClientNoOp)) {
        Packet::Unknown(tag) => assert_eq!(tag, "CNOP"),
        other => panic!("{:?}", other),
    }
}

#[test]
fn only_seven_messages_are_outbound() {
    let inbound = vec![
        Packet::ResetOptions,
        Packet::SetDeviceOptions(HashMap::new()),
        Packet::GrabClipboard { id: 0, seq_num: 0 },
        Packet::SetClipboard { id: 0, seq_num: 0, mark: 0, data: vec![] },
        Packet::CursorEnter { x: 0, y: 0, seq_num: 0, mask: 0 },
        Packet::MouseUp { id: 0 },
        Packet::MouseDown { id: 0 },
        Packet::KeyUp { id: 0, mask: 0, button: 0 },
        Packet::KeyDown { id: 0, mask: 0, button: 0 },
        Packet::MouseWheel { x_delta: 0, y_delta: 0 },
        Packet::CursorLeave,
        Packet::Unknown(String::new()),
    ];
    for packet in inbound {
        assert!(!packet.is_outbound());
    }
    let outbound = vec![
        Packet::QueryInfo,
        Packet::DeviceInfo { x: 0, y: 0, w: 0, h: 0, dummy: 0, mx: 0, my: 0 },
        Packet::ClientNoOp,
        Packet::InfoAck,
        Packet::KeepAlive,
        Packet::ErrorUnknownDevice,
        Packet::MouseMoveAbs { x: 0, y: 0 },
    ];
    for packet in outbound {
        assert!(packet.is_outbound());
    }
}

#[test]
fn a_stream_writes_frames_one_after_the_other() {
    let mut p = PacketStream::new(ByteStream::new(vec![1, 2, 3]));
    assert_eq!(p.write(Packet::KeepAlive), Ok(()));
    assert_eq!(p.write(Packet::MouseMoveAbs { x: 1, y: 2 }), Ok(()));
    assert_eq!(p.get_ref().unread(), 3);
    assert_eq!(
        p.into_inner().into_written(),
        b"\x00\x00\x00\x04CALV\x00\x00\x00\x08DMMV\x00\x01\x00\x02".to_vec()
    );
}

#[test]
fn write_wire_appends_to_what_was_written() {
    let mut out = ByteStream::new(Vec::new());
    out.write(&[0xaa]).unwrap();
    Packet::InfoAck.write_wire(&mut out).unwrap();
    assert_eq!(out.into_written(), b"\xaa\x00\x00\x00\x04CIAK".to_vec());
}
