use mqtt_engine::codec::Codec;
use mqtt_engine::codec::Connect;
use mqtt_engine::codec::ConnectAck;
use mqtt_engine::codec::ConnectAckReason;
use mqtt_engine::codec::Packet;
use mqtt_engine::codec::Publish;
use mqtt_engine::error::DecodeError;
use mqtt_engine::error::EncodeError;

fn round_trip(codec: &Codec, packet: Packet) {
    let mut buf: Vec<u8> = Vec::new();
    codec.encode(&packet, &mut buf).expect("encode");
    let decoded = codec.decode(&buf).expect("decode");
    let (got, consumed) = decoded.expect("complete frame");
    assert_eq!(got, packet);
    assert_eq!(consumed, buf.len());
}

#[test]
fn round_trip_connect() {
    let codec = Codec::new(4);
    round_trip(
        &codec,
        Packet::Connect(Connect {
            protocol_level: 4,
            clean_session: true,
            keep_alive: 30,
            client_id: String::from("dev-1"),
        }),
    );
}

#[test]
fn round_trip_connect_ack() {
    let codec = Codec::new(5);
    round_trip(
        &codec,
        Packet::ConnectAck(ConnectAck {
            session_present: true,
            reason_code: ConnectAckReason::Success,
            topic_alias_max: 10,
            session_expiry_interval_secs: Some(45),
        }),
    );
}

#[test]
fn round_trip_publish_all_qos() {
    let codec = Codec::new(5);
    for qos in 0u8..3u8 {
        round_trip(
            &codec,
            Packet::Publish(Publish {
                qos,
                topic: String::from("metrics/temp"),
                topic_alias: None,
                packet_id: if qos > 0 { 7 } else { 0 },
                payload: vec![1, 2, 3, 255],
            }),
        );
    }
}

#[test]
fn round_trip_publish_with_alias() {
    let codec = Codec::new(5);
    round_trip(
        &codec,
        Packet::Publish(Publish {
            qos: 1,
            topic: String::from("metrics/temp"),
            topic_alias: Some(3),
            packet_id: 9,
            payload: Vec::new(),
        }),
    );
}

#[test]
fn round_trip_remaining_kinds() {
    let codec = Codec::new(5);
    round_trip(&codec, Packet::PublishAck { packet_id: 7 });
    round_trip(&codec, Packet::PublishReceived { packet_id: 8 });
    round_trip(&codec, Packet::PublishRelease { packet_id: 9 });
    round_trip(&codec, Packet::PublishComplete { packet_id: 10 });
    round_trip(
        &codec,
        Packet::Subscribe { packet_id: 2, topic_filter: String::from("a/+/b"), qos: 1 },
    );
    round_trip(&codec, Packet::SubscribeAck { packet_id: 2, return_code: 1 });
    round_trip(
        &codec,
        Packet::Unsubscribe { packet_id: 3, topic_filter: String::from("a/+/b") },
    );
    round_trip(&codec, Packet::UnsubscribeAck { packet_id: 3 });
    round_trip(&codec, Packet::PingRequest);
    round_trip(&codec, Packet::PingResponse);
    round_trip(&codec, Packet::Disconnect);
    round_trip(&codec, Packet::Auth { reason_code: 24 });
}

#[test]
fn round_trip_large_payload_uses_multibyte_varint() {
    let codec = Codec::new(4);
    round_trip(
        &codec,
        Packet::Publish(Publish {
            qos: 0,
            topic: String::from("bulk"),
            topic_alias: None,
            packet_id: 0,
            payload: vec![42u8; 70000],
        }),
    );
}

#[test]
fn every_strict_prefix_is_incomplete() {
    let codec = Codec::new(4);
    let packet = Packet::Connect(Connect {
        protocol_level: 4,
        clean_session: false,
        keep_alive: 60,
        client_id: String::from("prefix-client"),
    });
    let mut buf: Vec<u8> = Vec::new();
    codec.encode(&packet, &mut buf).expect("encode");
    for n in 0..buf.len() {
        let r = codec.decode(&buf[..n]).expect("a prefix is never an error");
        assert!(r.is_none(), "prefix of {} bytes must be incomplete", n);
    }
    assert!(codec.decode(&buf).expect("full frame").is_some());
}

#[test]
fn exact_bytes_ping_and_ack() {
    let codec = Codec::new(4);
    let mut buf: Vec<u8> = Vec::new();
    codec.encode(&Packet::PingRequest, &mut buf).expect("encode");
    assert_eq!(buf, vec![0xC0, 0x00]);
    buf.clear();
    codec.encode(&Packet::PublishAck { packet_id: 7 }, &mut buf).expect("encode");
    assert_eq!(buf, vec![0x40, 0x02, 0x00, 0x07]);
}

#[test]
fn decode_rejects_unsupported_packet_type() {
    let codec = Codec::new(4);
    assert_eq!(codec.decode(&[0x00, 0x00]), Err(DecodeError::UnsupportedPacketType));
    // AUTH is a packet of the newer protocol level only.
    assert_eq!(codec.decode(&[0xF0, 0x01, 0x00]), Err(DecodeError::UnsupportedPacketType));
    assert!(Codec::new(5).decode(&[0xF0, 0x01, 0x00]).is_ok());
}

#[test]
fn decode_rejects_bad_protocol_name_and_level() {
    let codec = Codec::new(4);
    // CONNECT with a wrong protocol name.
    let bad_name = [
        0x10, 12, 0x00, 0x04, b'M', b'Q', b'X', b'X', 4, 2, 0x00, 30, 0x00, 0x00,
    ];
    assert_eq!(codec.decode(&bad_name), Err(DecodeError::InvalidProtocol));
    // CONNECT with protocol level 3.
    let bad_level = [
        0x10, 12, 0x00, 0x04, b'M', b'Q', b'T', b'T', 3, 2, 0x00, 30, 0x00, 0x00,
    ];
    assert_eq!(codec.decode(&bad_level), Err(DecodeError::UnsupportedProtocolLevel));
}

#[test]
fn decode_rejects_reserved_flags() {
    let codec = Codec::new(4);
    // CONNECT flags byte with the reserved bit set.
    let connect_reserved = [
        0x10, 12, 0x00, 0x04, b'M', b'Q', b'T', b'T', 4, 3, 0x00, 30, 0x00, 0x00,
    ];
    assert_eq!(codec.decode(&connect_reserved), Err(DecodeError::ConnectReservedFlagSet));
    // CONNACK flags byte with a reserved bit set.
    let connack_reserved = [0x20, 5, 0x02, 0x00, 0x00, 0x00, 0x00];
    assert_eq!(codec.decode(&connack_reserved), Err(DecodeError::ConnAckReservedFlagSet));
}

#[test]
fn decode_rejects_empty_client_id_without_clean_session() {
    let codec = Codec::new(4);
    let frame = [
        0x10, 12, 0x00, 0x04, b'M', b'Q', b'T', b'T', 4, 0, 0x00, 30, 0x00, 0x00,
    ];
    assert_eq!(codec.decode(&frame), Err(DecodeError::InvalidClientId));
}

#[test]
fn decode_rejects_overlong_varint() {
    let codec = Codec::new(4);
    let frame = [0x40, 0x80, 0x80, 0x80, 0x80];
    assert_eq!(codec.decode(&frame), Err(DecodeError::InvalidLength));
}

#[test]
fn decode_rejects_zero_identifier_in_ack() {
    let codec = Codec::new(4);
    assert_eq!(codec.decode(&[0x40, 0x02, 0x00, 0x00]), Err(DecodeError::PacketIdRequired));
    assert_eq!(codec.decode(&[0xB0, 0x02, 0x00, 0x00]), Err(DecodeError::PacketIdRequired));
}

#[test]
fn decode_enforces_maximum_frame_size() {
    let mut codec = Codec::new(4);
    codec.set_max_size(1);
    assert_eq!(codec.decode(&[0x40, 0x02, 0x00, 0x07]), Err(DecodeError::MaxSizeExceeded));
}

#[test]
fn decode_rejects_invalid_utf8_topic() {
    let codec = Codec::new(4);
    // PUBLISH, remaining length 4: topic of length 2 holding invalid UTF-8.
    let frame = [0x30, 0x05, 0x00, 0x02, 0xFF, 0xFE, 0x00];
    match codec.decode(&frame) {
        Err(DecodeError::Utf8Error(_)) => {}
        other => panic!("expected a UTF-8 error, got {:?}", other),
    }
}

#[test]
fn encode_error_cases() {
    let v3 = Codec::new(4);
    let v5 = Codec::new(5);
    let mut buf: Vec<u8> = Vec::new();
    // A packet that needs an identifier but carries zero.
    let r = v3.encode(
        &Packet::Publish(Publish {
            qos: 1,
            topic: String::from("t"),
            topic_alias: None,
            packet_id: 0,
            payload: Vec::new(),
        }),
        &mut buf,
    );
    assert_eq!(r, Err(EncodeError::PacketIdRequired));
    // AUTH under the older protocol level.
    assert_eq!(v3.encode(&Packet::Auth { reason_code: 0 }, &mut buf), Err(EncodeError::UnsupportedVersion));
    // A topic alias under the older protocol level.
    let aliased = Packet::Publish(Publish {
        qos: 0,
        topic: String::from("t"),
        topic_alias: Some(1),
        packet_id: 0,
        payload: Vec::new(),
    });
    assert_eq!(v3.encode(&aliased, &mut buf), Err(EncodeError::UnsupportedVersion));
    assert!(v5.encode(&aliased, &mut buf).is_ok());
    buf.clear();
    // A subscription with an impossible quality of service.
    let r = v3.encode(
        &Packet::Subscribe { packet_id: 1, topic_filter: String::from("t"), qos: 3 },
        &mut buf,
    );
    assert_eq!(r, Err(EncodeError::MalformedPacket));
    // A topic longer than its length prefix allows.
    let long_topic: String = "x".repeat(70000);
    let r = v3.encode(
        &Packet::Publish(Publish {
            qos: 0,
            topic: long_topic,
            topic_alias: None,
            packet_id: 0,
            payload: Vec::new(),
        }),
        &mut buf,
    );
    assert_eq!(r, Err(EncodeError::InvalidLength));
    assert!(buf.is_empty(), "a failed encode leaves the buffer unchanged");
}
