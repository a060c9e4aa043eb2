use synergy_parser::{ByteStream, PacketError, PacketReader, PacketWriter};

fn stream(bytes: &[u8]) -> ByteStream {
    ByteStream::new(bytes.to_vec())
}

#[test]
fn next_byte_walks_the_input() {
    let mut s = stream(&[7, 8]);
    assert_eq!(s.unread(), 2);
    assert_eq!(s.next_byte(), Some(7));
    assert_eq!(s.next_byte(), Some(8));
    assert_eq!(s.next_byte(), None);
    assert_eq!(s.next_byte(), None);
    assert_eq!(s.unread(), 0);
}

#[test]
fn read_u8_and_i8() {
    let mut s = stream(&[0xff, 0xff, 0x7f, 0x80]);
    assert_eq!(s.read_u8(), Ok(255));
    assert_eq!(s.read_i8(), Ok(-1));
    assert_eq!(s.read_i8(), Ok(127));
    assert_eq!(s.read_i8(), Ok(-128));
    assert_eq!(s.read_u8(), Err(PacketError::IoError));
    assert_eq!(s.read_i8(), Err(PacketError::IoError));
}

#[test]
fn read_u16_is_big_endian() {
    let mut s = stream(&[0x02, 0x05, 0x03, 0x00, 0xff]);
    assert_eq!(s.read_u16(), Ok(517));
    assert_eq!(s.read_u16(), Ok(768));
    assert_eq!(s.unread(), 1);
    assert_eq!(s.read_u16(), Err(PacketError::IoError));
    assert_eq!(s.unread(), 0);
}

#[test]
fn read_i16_is_twos_complement() {
    let mut s = stream(&[0x00, 0xc1, 0xff, 0x7c, 0x80, 0x00, 0x7f, 0xff]);
    assert_eq!(s.read_i16(), Ok(193));
    assert_eq!(s.read_i16(), Ok(-132));
    assert_eq!(s.read_i16(), Ok(i16::MIN));
    assert_eq!(s.read_i16(), Ok(i16::MAX));
    assert_eq!(s.read_i16(), Err(PacketError::IoError));
}

#[test]
fn read_u32_is_big_endian() {
    let mut s = stream(&[0x00, 0x00, 0x01, 0x0b, 0x47, 0xd9, 0x3d, 0x66, 0xff, 0xff, 0xff, 0xff]);
    assert_eq!(s.read_u32(), Ok(267));
    assert_eq!(s.read_u32(), Ok(1205419366));
    assert_eq!(s.read_u32(), Ok(u32::MAX));
    assert_eq!(s.read_u32(), Err(PacketError::IoError));
}

#[test]
fn a_failed_read_leaves_nothing_unread() {
    let mut s = stream(&[1, 2, 3]);
    assert_eq!(s.read_u32(), Err(PacketError::IoError));
    assert_eq!(s.unread(), 0);
    assert_eq!(s.read_u8(), Err(PacketError::IoError));
}

#[test]
fn read_packet_size_reads_four_bytes() {
    let mut s = stream(&[0, 0, 0, 18, 9]);
    assert_eq!(s.read_packet_size(), Ok(18));
    assert_eq!(s.unread(), 1);
    assert_eq!(s.read_packet_size(), Err(PacketError::IoError));
}

#[test]
fn read_bytes_fixed_takes_exactly_n() {
    let mut s = stream(b"DSOPxy");
    let tag: [u8; 4] = s.read_bytes_fixed().unwrap();
    assert_eq!(&tag, b"DSOP");
    assert_eq!(s.unread(), 2);
    let none: [u8; 0] = s.read_bytes_fixed().unwrap();
    assert_eq!(none.len(), 0);
    assert_eq!(s.unread(), 2);
    let short: Result<[u8; 3], PacketError> = s.read_bytes_fixed();
    assert_eq!(short, Err(PacketError::IoError));
    assert_eq!(s.unread(), 0);
}

#[test]
fn read_bytes_reads_a_length_and_a_block() {
    let mut s = stream(&[0, 0, 0, 3, 10, 20, 30, 40]);
    assert_eq!(s.read_bytes(), Ok(vec![10, 20, 30]));
    assert_eq!(s.unread(), 1);
}

#[test]
fn read_bytes_of_length_zero() {
    let mut s = stream(&[0, 0, 0, 0, 5]);
    assert_eq!(s.read_bytes(), Ok(vec![]));
    assert_eq!(s.unread(), 1);
}

#[test]
fn read_bytes_fails_when_the_block_is_short() {
    let mut s = stream(&[0, 0, 0, 3, 10, 20]);
    assert_eq!(s.read_bytes(), Err(PacketError::InsufficientDataError));
    assert_eq!(s.unread(), 0);
}

#[test]
fn read_bytes_fails_when_the_length_is_short() {
    let mut s = stream(&[0, 0, 0]);
    assert_eq!(s.read_bytes(), Err(PacketError::IoError));
    assert_eq!(s.unread(), 0);
}

#[test]
fn read_bytes_with_a_huge_length() {
    let mut s = stream(&[0xff, 0xff, 0xff, 0xff, 1, 2, 3]);
    assert_eq!(s.read_bytes(), Err(PacketError::InsufficientDataError));
}

#[test]
fn read_str_lit_accepts_the_literal() {
    let mut s = stream(b"Barrier\x00\x01");
    assert_eq!(s.read_str_lit("Barrier"), Ok(()));
    assert_eq!(s.unread(), 2);
}

#[test]
fn read_str_lit_refuses_other_bytes() {
    let mut s = stream(b"Barrirr\x00\x01");
    assert_eq!(s.read_str_lit("Barrier"), Err(PacketError::FormatError));
    assert_eq!(s.unread(), 2);
}

#[test]
fn read_str_lit_refuses_a_short_input() {
    let mut s = stream(b"Barr");
    assert_eq!(s.read_str_lit("Barrier"), Err(PacketError::FormatError));
    assert_eq!(s.unread(), 0);
}

#[test]
fn read_str_lit_of_the_empty_literal() {
    let mut s = stream(b"x");
    assert_eq!(s.read_str_lit(""), Ok(()));
    assert_eq!(s.unread(), 1);
}

#[test]
fn read_str_lit_compares_bytes_of_text_beyond_ascii() {
    let mut s = stream("h\u{e9}llo!".as_bytes());
    assert_eq!(s.read_str_lit("h\u{e9}llo"), Ok(()));
    assert_eq!(s.unread(), 1);
}

#[test]
fn write_appends_the_bytes() {
    let mut s = stream(&[1]);
    assert_eq!(s.write(b"DINF"), Ok(()));
    assert_eq!(s.write(&[]), Ok(()));
    assert_eq!(s.write(&[9]), Ok(()));
    assert_eq!(s.written().as_slice(), b"DINF\x09");
    assert_eq!(s.unread(), 1);
}

#[test]
fn write_u16_is_big_endian() {
    let mut s = stream(&[]);
    assert_eq!(s.write_u16(517), Ok(()));
    assert_eq!(s.write_u16(768), Ok(()));
    assert_eq!(s.write_u16(0xffff), Ok(()));
    assert_eq!(s.written().as_slice(), &[0x02, 0x05, 0x03, 0x00, 0xff, 0xff]);
}

#[test]
fn write_u32_is_big_endian() {
    let mut s = stream(&[]);
    assert_eq!(s.write_u32(267), Ok(()));
    assert_eq!(s.write_u32(1205419366), Ok(()));
    assert_eq!(s.written().as_slice(), &[0x00, 0x00, 0x01, 0x0b, 0x47, 0xd9, 0x3d, 0x66]);
}

#[test]
fn write_str_puts_the_length_in_front() {
    let mut s = stream(&[]);
    assert_eq!(s.write_str("QINF"), Ok(()));
    assert_eq!(s.write_str(""), Ok(()));
    assert_eq!(s.write_str("\u{e9}"), Ok(()));
    assert_eq!(
        s.into_written(),
        vec![0, 0, 0, 4, b'Q', b'I', b'N', b'F', 0, 0, 0, 0, 0, 0, 0, 2, 0xc3, 0xa9]
    );
}

#[test]
fn what_was_written_reads_back() {
    let mut out = stream(&[]);
    out.write_u32(0xdead_beef).unwrap();
    out.write_u16(0xcafe).unwrap();
    let mut back = ByteStream::new(out.into_written());
    assert_eq!(back.read_u32(), Ok(0xdead_beef));
    assert_eq!(back.read_u16(), Ok(0xcafe));
    assert_eq!(back.unread(), 0);
}

#[test]
fn packet_error_messages() {
    assert_eq!(PacketError::IoError.message(), "io error");
    assert_eq!(PacketError::FormatError.message(), "did not match format");
    assert_eq!(PacketError::InsufficientDataError.message(), "not enough data");
    assert_eq!(PacketError::PacketTooSmall.message(), "Packet too small");
}
