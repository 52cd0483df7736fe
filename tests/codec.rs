use simple_tcp::packet::{Data, PacketType, TcpPacket, PROTOCOL_VERSION};
use simple_tcp::packet_handling::{decode_frame, deserialize_packet_bytes, serialize_packet_bytes};
use simple_tcp::Error;

fn hi_data() -> Data {
    Data::new(Some("hi"), "a", "b")
}

#[test]
fn test_server() {
    assert_eq!(1, 1)
}

#[test]
fn data_new_keeps_fields() {
    let d = Data::new(None, "src", "dst");
    assert_eq!(d.content, None);
    assert_eq!(d.source_addr, "src");
    assert_eq!(d.target_addr, "dst");
}

#[test]
fn data_packet_length_is_encoded_payload_size() {
    let p = TcpPacket::with_data(PROTOCOL_VERSION, Some(hi_data())).unwrap();
    // content: tag 1 + 8 + 2, source: 8 + 1, destination: 8 + 1
    assert_eq!(p.length, 29);
    assert_eq!(hi_data().encode().len(), 29);
    assert_eq!(p.packet_type, PacketType::Data);
    let frame = serialize_packet_bytes(&p);
    assert_eq!(frame.len(), 11 + 1 + 29);
    assert_eq!(frame[10], 29);
    let back = deserialize_packet_bytes(&frame).unwrap();
    assert_eq!(back, p);
    assert_eq!(back.data, Some(hi_data()));
}

#[test]
fn frame_layout_matches_bincode_of_the_same_fields() {
    let p = TcpPacket::with_data(PROTOCOL_VERSION, Some(hi_data())).unwrap();
    let frame = serialize_packet_bytes(&p);
    let fields = (1u8, 1u8, 0u32, 0u32, 29u8, Some((Some("hi"), "a", "b")));
    assert_eq!(frame, bincode::serialize(&fields).unwrap());

    let syn = TcpPacket::syn_ack_packet(0x01020304, 7);
    let fields = (1u8, 5u8, 0x01020304u32, 7u32, 0u8, None::<(Option<&str>, &str, &str)>);
    assert_eq!(serialize_packet_bytes(&syn), bincode::serialize(&fields).unwrap());
}

#[test]
fn round_trip_of_every_packet_kind() {
    let packets = vec![
        TcpPacket::echo_packet(PROTOCOL_VERSION),
        TcpPacket::disconnect_packet(),
        TcpPacket::syn_packet(u32::MAX),
        TcpPacket::syn_ack_packet(12345, 0),
        TcpPacket::ack_packet(1, 2),
        TcpPacket::default(),
        TcpPacket::with_data(PROTOCOL_VERSION, Some(Data::new(None, "", "z"))).unwrap(),
        TcpPacket::with_data(PROTOCOL_VERSION, Some(Data::new(Some("héllo ✓"), "x:1", "y:2")))
            .unwrap(),
    ];
    for p in packets {
        let frame = serialize_packet_bytes(&p);
        assert_eq!(deserialize_packet_bytes(&frame), Ok(p));
    }
}

#[test]
fn echo_frame_bytes() {
    let frame = serialize_packet_bytes(&TcpPacket::echo_packet(1));
    assert_eq!(frame, vec![1, 0, 0, 0, 0, 0, 0, 0, 0, 0, 0, 0]);
}

#[test]
fn seq_and_ack_are_little_endian() {
    let frame = serialize_packet_bytes(&TcpPacket::ack_packet(0x0A0B0C0D, 0x01020304));
    assert_eq!(&frame[2..6], &[0x0D, 0x0C, 0x0B, 0x0A]);
    assert_eq!(&frame[6..10], &[0x04, 0x03, 0x02, 0x01]);
}

#[test]
fn length_mismatch_is_rejected() {
    let p = TcpPacket::with_data(PROTOCOL_VERSION, Some(hi_data())).unwrap();
    let mut frame = serialize_packet_bytes(&p);
    frame[10] = 28;
    assert_eq!(deserialize_packet_bytes(&frame), Err(Error::MalformedPacket));
    let mut echo = serialize_packet_bytes(&TcpPacket::echo_packet(1));
    echo[10] = 1;
    assert_eq!(deserialize_packet_bytes(&echo), Err(Error::MalformedPacket));
}

#[test]
fn other_version_is_rejected() {
    let frame = serialize_packet_bytes(&TcpPacket::echo_packet(2));
    assert_eq!(deserialize_packet_bytes(&frame), Err(Error::MalformedPacket));
    let mut frame = serialize_packet_bytes(&TcpPacket::echo_packet(1));
    frame[0] = 0;
    assert_eq!(deserialize_packet_bytes(&frame), Err(Error::MalformedPacket));
}

#[test]
fn truncated_and_garbage_input_is_rejected() {
    let p = TcpPacket::with_data(PROTOCOL_VERSION, Some(hi_data())).unwrap();
    let frame = serialize_packet_bytes(&p);
    for cut in 0..frame.len() {
        assert_eq!(deserialize_packet_bytes(&frame[..cut]), Err(Error::MalformedPacket));
    }
    assert_eq!(deserialize_packet_bytes(&[0xff; 64]), Err(Error::MalformedPacket));
    assert_eq!(deserialize_packet_bytes(&[]), Err(Error::MalformedPacket));
}

#[test]
fn trailing_bytes_are_rejected() {
    let mut frame = serialize_packet_bytes(&TcpPacket::echo_packet(1));
    frame.push(0);
    assert_eq!(deserialize_packet_bytes(&frame), Err(Error::MalformedPacket));
}

#[test]
fn unknown_type_and_bad_tags_are_rejected() {
    let mut frame = serialize_packet_bytes(&TcpPacket::echo_packet(1));
    frame[1] = 8;
    assert_eq!(deserialize_packet_bytes(&frame), Err(Error::MalformedPacket));
    let mut frame = serialize_packet_bytes(&TcpPacket::echo_packet(1));
    frame[11] = 2;
    assert_eq!(deserialize_packet_bytes(&frame), Err(Error::MalformedPacket));
    let p = TcpPacket::with_data(PROTOCOL_VERSION, Some(hi_data())).unwrap();
    let mut frame = serialize_packet_bytes(&p);
    frame[12] = 7;
    assert_eq!(deserialize_packet_bytes(&frame), Err(Error::MalformedPacket));
}

#[test]
fn invalid_utf8_is_rejected() {
    let p = TcpPacket::with_data(PROTOCOL_VERSION, Some(hi_data())).unwrap();
    let mut frame = serialize_packet_bytes(&p);
    // the two bytes of "hi" follow the payload tag, the content tag and its length
    assert_eq!(&frame[21..23], b"hi");
    frame[21] = 0xC3;
    frame[22] = 0x28;
    assert_eq!(deserialize_packet_bytes(&frame), Err(Error::MalformedPacket));
}

#[test]
fn data_packet_needs_a_payload() {
    assert_eq!(TcpPacket::with_data(1, None), Err(Error::MissingPayload));
}

#[test]
fn oversized_payload_is_refused() {
    let big = "x".repeat(300);
    let r = TcpPacket::with_data(1, Some(Data::new(Some(&big), "a", "b")));
    assert_eq!(r, Err(Error::SerializationError));
    // 1 + 8 + 220 + 9 + 9 = 247 fits; 1 + 8 + 229 + 9 + 9 = 256 does not
    let fits = "y".repeat(220);
    let p = TcpPacket::with_data(1, Some(Data::new(Some(&fits), "a", "b"))).unwrap();
    assert_eq!(p.length, 247);
    let over = "y".repeat(229);
    let r = TcpPacket::with_data(1, Some(Data::new(Some(&over), "a", "b")));
    assert_eq!(r, Err(Error::SerializationError));
    let edge = "y".repeat(228);
    let p = TcpPacket::with_data(1, Some(Data::new(Some(&edge), "a", "b"))).unwrap();
    assert_eq!(p.length, 255);
    let frame = serialize_packet_bytes(&p);
    assert_eq!(deserialize_packet_bytes(&frame), Ok(p));
}

#[test]
fn default_and_type_codes() {
    let d = TcpPacket::default();
    assert_eq!(d.version, 1);
    assert_eq!(d.packet_type, PacketType::Dummy);
    assert_eq!(d.length, 0);
    assert_eq!(d.data, None);
    for c in 0u8..8 {
        assert_eq!(PacketType::from_code(c).unwrap().code(), c);
    }
    assert_eq!(PacketType::from_code(8), None);
}

#[test]
fn decode_frame_reads_the_front_frame_only() {
    let p = TcpPacket::with_data(PROTOCOL_VERSION, Some(hi_data())).unwrap();
    let mut buf = serialize_packet_bytes(&p);
    let n = buf.len();
    buf.extend_from_slice(&[0u8; 1024]);
    assert_eq!(decode_frame(&buf), Ok((p, n)));
    assert_eq!(deserialize_packet_bytes(&buf), Err(Error::MalformedPacket));
    assert_eq!(decode_frame(&buf[..n - 1]), Err(Error::MalformedPacket));
    let mut bad = serialize_packet_bytes(&TcpPacket::echo_packet(3));
    bad.extend_from_slice(&[0u8; 16]);
    assert_eq!(decode_frame(&bad), Err(Error::MalformedPacket));
}
