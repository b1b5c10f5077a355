use citp::citp::Header as CitpHeader;
use citp::codec::{
    read_cstring, read_u16_le, read_u32_le, size_of_cstring, write_cstring, write_u16_le,
    write_u32_le, Error,
};
use citp::pinf::{
    decode_message, decode_packet, encode_packet, encode_peer_location, encode_peer_name, Header,
    Message, PLoc, PNam, Payload, MULTICAST_ADDR, MULTICAST_PORT, OLD_BROADCAST_PORT,
    OLD_MULTICAST_ADDR, PINF, PLOC, PNAM,
};

const PLOC_PACKET: [u8; 96] = [
    0x43, 0x49, 0x54, 0x50, 0x01, 0x00, 0x00, 0x00, 0x60, 0x00, 0x00, 0x00, 0x01, 0x00, 0x00,
    0x00, 0x50, 0x49, 0x4e, 0x46, 0x50, 0x4c, 0x6f, 0x63, 0x4a, 0xfa, 0x56, 0x69, 0x73, 0x75,
    0x61, 0x6c, 0x69, 0x7a, 0x65, 0x72, 0x00, 0x43, 0x61, 0x70, 0x74, 0x75, 0x72, 0x65, 0x20,
    0x40, 0x20, 0x48, 0x75, 0x67, 0x6f, 0x73, 0x2d, 0x4d, 0x61, 0x63, 0x42, 0x6f, 0x6f, 0x6b,
    0x2d, 0x50, 0x72, 0x6f, 0x2e, 0x6c, 0x6f, 0x63, 0x61, 0x6c, 0x20, 0x28, 0x31, 0x39, 0x32,
    0x2e, 0x31, 0x36, 0x38, 0x2e, 0x31, 0x36, 0x38, 0x2e, 0x38, 0x30, 0x29, 0x00, 0x52, 0x75,
    0x6e, 0x6e, 0x69, 0x6e, 0x67, 0x00,
];

const PEER_NAME: &[u8] = b"Capture @ Hugos-MacBook-Pro.local (192.168.168.80)";

#[test]
fn test_ploc_message_read_bytes() {
    let buffer = PLOC_PACKET.to_vec();

    let citp_header = Message::read_from_bytes(buffer.as_slice());

    assert!(citp_header.is_ok());
    assert_eq!(
        citp_header.unwrap().pinf_header.content_type.to_le_bytes(),
        *b"PLoc"
    );
}

#[test]
fn ploc_packet_decodes_to_its_fields_and_encodes_back() {
    let m = Message::read_from_bytes(&PLOC_PACKET).unwrap();
    assert_eq!(m.pinf_header.citp_header.version_major, 1);
    assert_eq!(m.pinf_header.citp_header.version_minor, 0);
    assert_eq!(m.pinf_header.citp_header.message_size, 96);
    assert_eq!(m.pinf_header.citp_header.content_type, PINF);
    assert_eq!(m.pinf_header.content_type, PLOC);
    let expected = PLoc {
        listening_tcp_port: 0xfa4a,
        kind: b"Visualizer".to_vec(),
        name: PEER_NAME.to_vec(),
        state: b"Running".to_vec(),
    };
    assert_eq!(m.message, Payload::PLoc(expected.clone()));

    let bytes = encode_peer_location(
        expected.listening_tcp_port,
        expected.kind,
        expected.name,
        expected.state,
    )
    .unwrap();
    assert_eq!(bytes, PLOC_PACKET.to_vec());

    let mut again = Vec::new();
    m.write_to_bytes(&mut again).unwrap();
    assert_eq!(again, PLOC_PACKET.to_vec());
}

#[test]
fn peer_name_round_trip() {
    let bytes = encode_peer_name(b"Console A".to_vec()).unwrap();
    assert_eq!(&bytes[..4], b"CITP");
    assert_eq!(&bytes[16..24], b"PINFPNam");
    assert_eq!(&bytes[24..], b"Console A\0");
    let p = decode_packet(&bytes).unwrap();
    assert_eq!(p, Payload::PNam(PNam { name: b"Console A".to_vec() }));
}

#[test]
fn peer_name_round_trip_empty() {
    let bytes = encode_peer_name(Vec::new()).unwrap();
    assert_eq!(bytes.len(), 25);
    assert_eq!(decode_packet(&bytes).unwrap(), Payload::PNam(PNam { name: Vec::new() }));
}

#[test]
fn peer_location_round_trip() {
    let v = PLoc {
        listening_tcp_port: 0,
        kind: b"MediaServer".to_vec(),
        name: Vec::new(),
        state: b"Idle".to_vec(),
    };
    let bytes = encode_packet(Payload::PLoc(v.clone())).unwrap();
    assert_eq!(decode_packet(&bytes).unwrap(), Payload::PLoc(v));
}

#[test]
fn size_bytes_is_encoded_length() {
    let n = PNam { name: b"abc".to_vec() };
    let mut out = Vec::new();
    n.write_to_bytes(&mut out).unwrap();
    assert_eq!(n.size_bytes(), 4);
    assert_eq!(out.len(), n.size_bytes());

    let l = PLoc {
        listening_tcp_port: 4810,
        kind: b"LightingConsole".to_vec(),
        name: b"Desk".to_vec(),
        state: Vec::new(),
    };
    let mut out = Vec::new();
    l.write_to_bytes(&mut out).unwrap();
    assert_eq!(l.size_bytes(), 2 + 16 + 5 + 1);
    assert_eq!(out.len(), l.size_bytes());
}

#[test]
fn total_size_field_is_packet_length() {
    let bytes = encode_peer_location(1, b"Visualiser".to_vec(), b"n".to_vec(), b"s".to_vec())
        .unwrap();
    assert_eq!(bytes.len(), 24 + 2 + 11 + 2 + 2);
    let declared = u32::from_le_bytes([bytes[8], bytes[9], bytes[10], bytes[11]]);
    assert_eq!(declared as usize, bytes.len());
}

#[test]
fn bad_magic_is_refused() {
    let mut buf = PLOC_PACKET.to_vec();
    buf[0] = b'X';
    assert_eq!(decode_packet(&buf), Err(Error::BadMagic));
    assert_eq!(decode_packet(b"CITQ"), Err(Error::BadMagic));
}

#[test]
fn short_buffer_is_unexpected_eof() {
    assert_eq!(decode_packet(b""), Err(Error::UnexpectedEof));
    assert_eq!(decode_packet(b"CIT"), Err(Error::UnexpectedEof));
    assert_eq!(decode_packet(&PLOC_PACKET[..10]), Err(Error::UnexpectedEof));
    assert_eq!(decode_packet(&PLOC_PACKET[..22]), Err(Error::UnexpectedEof));
}

#[test]
fn unknown_message_tag_is_refused() {
    let mut buf = PLOC_PACKET.to_vec();
    buf[20..24].copy_from_slice(b"PXyz");
    let tag = u32::from_le_bytes(*b"PXyz");
    assert_eq!(decode_packet(&buf), Err(Error::UnknownMessageTag(tag)));
    assert_eq!(
        decode_message(tag, &buf, 24).err(),
        Some(Error::UnknownMessageTag(tag))
    );
}

#[test]
fn wrong_layer_is_refused() {
    let mut buf = PLOC_PACKET.to_vec();
    buf[16..20].copy_from_slice(b"MSEX");
    assert_eq!(decode_packet(&buf), Err(Error::WrongLayer));
}

#[test]
fn truncated_mid_string_is_unterminated() {
    assert_eq!(decode_packet(&PLOC_PACKET[..30]), Err(Error::UnterminatedString));
    assert_eq!(decode_packet(&PLOC_PACKET[..95]), Err(Error::UnterminatedString));
    let name = encode_peer_name(b"Peer".to_vec()).unwrap();
    assert_eq!(decode_packet(&name[..24]), Err(Error::UnterminatedString));
}

#[test]
fn truncated_mid_integer_is_unexpected_eof() {
    assert_eq!(decode_packet(&PLOC_PACKET[..25]), Err(Error::UnexpectedEof));
    assert_eq!(decode_packet(&PLOC_PACKET[..24]), Err(Error::UnexpectedEof));
}

#[test]
fn declared_size_must_match_buffer() {
    let mut longer = PLOC_PACKET.to_vec();
    longer.push(0);
    assert_eq!(decode_packet(&longer), Err(Error::SizeMismatch));
    let mut wrong = PLOC_PACKET.to_vec();
    wrong[8] = 0x61;
    assert_eq!(decode_packet(&wrong), Err(Error::SizeMismatch));
}

#[test]
fn embedded_zero_byte_is_refused() {
    assert_eq!(encode_peer_name(b"a\0b".to_vec()), Err(Error::InteriorNul));
    assert_eq!(
        encode_peer_location(0, b"k".to_vec(), b"n".to_vec(), b"\0".to_vec()),
        Err(Error::InteriorNul)
    );
    let mut out = vec![7u8];
    assert_eq!(write_cstring(&mut out, b"x\0"), Err(Error::InteriorNul));
    assert_eq!(out, vec![7u8]);
}

#[test]
fn little_endian_integers() {
    let mut out = Vec::new();
    write_u16_le(&mut out, 0xfa4a);
    write_u32_le(&mut out, 0x1234_5678);
    assert_eq!(out, vec![0x4a, 0xfa, 0x78, 0x56, 0x34, 0x12]);
    assert_eq!(read_u16_le(&out, 0), Ok((0xfa4a, 2)));
    assert_eq!(read_u32_le(&out, 2), Ok((0x1234_5678, 6)));
    assert_eq!(read_u32_le(&out, 3), Err(Error::UnexpectedEof));
    assert_eq!(read_u16_le(&out, 5), Err(Error::UnexpectedEof));
}

#[test]
fn null_terminated_strings() {
    let mut out = Vec::new();
    write_cstring(&mut out, b"Idle").unwrap();
    assert_eq!(out, b"Idle\0".to_vec());
    assert_eq!(size_of_cstring(b"Idle"), 5);
    assert_eq!(size_of_cstring(b""), 1);
    assert_eq!(read_cstring(&out, 0), Ok((b"Idle".to_vec(), 5)));
    assert_eq!(read_cstring(&out, 2), Ok((b"le".to_vec(), 5)));
    assert_eq!(read_cstring(b"abc", 0), Err(Error::UnterminatedString));
}

#[test]
fn headers_read_back() {
    let h = Header { citp_header: CitpHeader::new(30, PINF), content_type: PNAM };
    let mut out = Vec::new();
    h.write_to_bytes(&mut out);
    assert_eq!(out.len(), 24);
    assert_eq!(Header::read_from_bytes(&out, 0), Ok((h, 24)));
    assert_eq!(CitpHeader::read_from_bytes(&out, 0), Ok((h.citp_header, 20)));
}

#[test]
fn message_new_fills_header() {
    let m = Message::new(Payload::PNam(PNam { name: b"ab".to_vec() })).unwrap();
    assert_eq!(m.pinf_header.citp_header.message_size, 27);
    assert_eq!(m.pinf_header.citp_header.message_part_count, 1);
    assert_eq!(m.pinf_header.content_type, PNAM);
    assert_eq!(m.message.content_type(), PNAM);
    assert_eq!(m.message.packet_size(), Some(27));
    let (p, end) = PNam::read_from_bytes(b"xy\0z", 0).unwrap();
    assert_eq!((p.name, end), (b"xy".to_vec(), 3));
    let (l, end) = PLoc::read_from_bytes(&PLOC_PACKET, 24).unwrap();
    assert_eq!(end, 96);
    assert_eq!(l.state, b"Running".to_vec());
}

#[test]
fn codes_and_network_constants() {
    assert_eq!(PINF.to_le_bytes(), *b"PINF");
    assert_eq!(PNAM.to_le_bytes(), *b"PNam");
    assert_eq!(PLOC.to_le_bytes(), *b"PLoc");
    assert_eq!(OLD_BROADCAST_PORT, 4810);
    assert_eq!(MULTICAST_PORT, 4809);
    assert_eq!(OLD_MULTICAST_ADDR, [224, 0, 0, 180]);
    assert_eq!(MULTICAST_ADDR, [239, 224, 0, 180]);
}
