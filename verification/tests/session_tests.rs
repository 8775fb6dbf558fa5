use mqtt_engine::alias::TopicAliasRegistry;
use mqtt_engine::codec::Codec;
use mqtt_engine::codec::Connect as ConnectPacket;
use mqtt_engine::codec::ConnectAckReason;
use mqtt_engine::codec::Packet;
use mqtt_engine::codec::Publish;
use mqtt_engine::error::ProtocolError;
use mqtt_engine::handshake::on_first_frame;
use mqtt_engine::handshake::check_handshake_deadline;
use mqtt_engine::handshake::HandshakeOutcome;
use mqtt_engine::inflight::InFlightTable;
use mqtt_engine::session::SessionAction;
use mqtt_engine::session::SessionState;
use mqtt_engine::sink::MqttSink;

#[test]
fn consecutive_allocations_are_distinct() {
    let mut table = InFlightTable::new(15);
    let a = table.allocate(4).expect("first allocation");
    let b = table.allocate(4).expect("second allocation");
    assert_ne!(a, b);
    assert_ne!(a, 0);
    assert_ne!(b, 0);
}

#[test]
fn reserve_duplicate_fails() {
    let mut table = InFlightTable::new(15);
    table.reserve(5).expect("first reservation");
    assert!(matches!(table.reserve(5), Err(ProtocolError::DuplicatedPacketId)));
    table.release_inbound(5);
    table.reserve(5).expect("after release the identifier is free again");
}

#[test]
fn reserve_zero_rejected_before_lookup() {
    let mut table = InFlightTable::new(15);
    assert!(matches!(table.reserve(0), Err(ProtocolError::PacketIdRequired)));
    assert!(matches!(table.complete(0, 4), Err(ProtocolError::PacketIdRequired)));
}

#[test]
fn allocation_respects_capacity() {
    let mut table = InFlightTable::new(2);
    table.allocate(4).expect("one");
    table.allocate(4).expect("two");
    assert!(matches!(table.allocate(4), Err(ProtocolError::PublishReadyError)));
}

#[test]
fn ack_with_zero_identifier_is_rejected_before_lookup() {
    let mut session = SessionState::new(30, 15, 5, 0);
    let r = session.handle_packet(&Packet::PublishAck { packet_id: 0 }, 1);
    assert!(matches!(r, Err(ProtocolError::PacketIdRequired)));
}

#[test]
fn matching_puback_resolves_and_frees_the_identifier() {
    let mut session = SessionState::new(30, 1, 5, 0);
    let id = session.allocate(4).expect("allocate");
    assert!(session.is_pending(id));
    let r = session.handle_packet(&Packet::PublishAck { packet_id: id }, 1).expect("ack");
    assert!(matches!(r, SessionAction::CompleteSend(got) if got == id));
    assert!(!session.is_pending(id));
    // With capacity one, immediate reuse must hand out the same value.
    let again = session.allocate(4).expect("reuse");
    assert_eq!(again, id);
}

#[test]
fn puback_for_unknown_identifier_is_a_protocol_error() {
    let mut session = SessionState::new(30, 15, 5, 0);
    let id = session.allocate(4).expect("allocate");
    let other = if id == 9 { 8 } else { 9 };
    let r = session.handle_packet(&Packet::PublishAck { packet_id: other }, 1);
    assert!(matches!(r, Err(ProtocolError::PacketIdMismatch)));
    // The session is torn down; the still-pending waiter is drained.
    let drained = session.terminate();
    assert_eq!(drained, vec![id]);
    assert!(!session.alive());
}

#[test]
fn qos2_receive_advances_to_await_complete() {
    let mut session = SessionState::new(30, 15, 5, 0);
    let id = session.allocate(5).expect("allocate for a qos-2 publish");
    let r = session.handle_packet(&Packet::PublishReceived { packet_id: id }, 1).expect("pubrec");
    assert!(matches!(r, SessionAction::Reply(Packet::PublishRelease { packet_id }) if packet_id == id));
    assert!(session.is_pending(id), "the identifier now awaits the final acknowledgement");
    let r = session.handle_packet(&Packet::PublishComplete { packet_id: id }, 2).expect("pubcomp");
    assert!(matches!(r, SessionAction::CompleteSend(got) if got == id));
    assert!(!session.is_pending(id));
}

#[test]
fn ping_request_gets_immediate_response() {
    let mut session = SessionState::new(30, 15, 5, 0);
    let r = session.handle_packet(&Packet::PingRequest, 1).expect("ping");
    assert!(matches!(r, SessionAction::Reply(Packet::PingResponse)));
}

#[test]
fn peer_disconnect_is_clean() {
    let mut session = SessionState::new(30, 15, 5, 0);
    let r = session.handle_packet(&Packet::Disconnect, 1).expect("disconnect");
    assert!(matches!(r, SessionAction::PeerDisconnected));
    assert!(!session.alive());
}

#[test]
fn keep_alive_fires_only_after_the_interval() {
    let mut session = SessionState::new(10, 15, 5, 0);
    assert!(session.poll_keep_alive(5).is_ok());
    assert!(session.poll_keep_alive(10).is_ok());
    assert!(matches!(session.poll_keep_alive(11), Err(ProtocolError::KeepAliveTimeout)));
    // Traffic before the deadline pushes it forward.
    session.handle_packet(&Packet::PingRequest, 7).expect("traffic");
    assert!(session.poll_keep_alive(16).is_ok());
    assert!(session.poll_keep_alive(17).is_ok());
    assert!(matches!(session.poll_keep_alive(18), Err(ProtocolError::KeepAliveTimeout)));
}

#[test]
fn outbound_traffic_also_resets_the_deadline() {
    let mut session = SessionState::new(10, 15, 5, 0);
    session.note_traffic(9);
    assert!(session.poll_keep_alive(19).is_ok());
    assert!(matches!(session.poll_keep_alive(20), Err(ProtocolError::KeepAliveTimeout)));
}

#[test]
fn teardown_drains_every_pending_waiter() {
    let mut session = SessionState::new(30, 15, 5, 0);
    let a = session.allocate(4).expect("a");
    let b = session.allocate(9).expect("b");
    let drained = session.terminate();
    assert_eq!(drained.len(), 2);
    assert!(drained.contains(&a));
    assert!(drained.contains(&b));
    assert_eq!(session.pending_len(), 0);
    assert!(!session.alive());
}

#[test]
fn alias_bounds_are_enforced() {
    let mut registry = TopicAliasRegistry::new(5);
    assert!(matches!(registry.register(0, String::from("a")), Err(ProtocolError::MaxTopicAlias)));
    assert!(matches!(registry.register(6, String::from("a")), Err(ProtocolError::MaxTopicAlias)));
    registry.register(3, String::from("alpha")).expect("in bounds");
    assert_eq!(registry.resolve(3).expect("registered"), "alpha");
    assert!(matches!(registry.resolve(2), Err(ProtocolError::UnknownTopicAlias)));
    // Last writer wins on re-registration.
    registry.register(3, String::from("beta")).expect("overwrite");
    assert_eq!(registry.resolve(3).expect("registered"), "beta");
}

#[test]
fn publish_with_alias_registers_then_resolves() {
    let mut session = SessionState::new(30, 15, 5, 0);
    let register = Packet::Publish(Publish {
        qos: 0,
        topic: String::from("metrics/temp"),
        topic_alias: Some(3),
        packet_id: 0,
        payload: vec![1],
    });
    let r = session.handle_packet(&register, 1).expect("register");
    match r {
        SessionAction::Deliver { packet: Packet::Publish(d), reply: None } => {
            assert_eq!(d.topic, "metrics/temp");
            assert_eq!(d.topic_alias, None);
        }
        other => panic!("unexpected action {:?}", other_debug(&other)),
    }
    let by_alias = Packet::Publish(Publish {
        qos: 0,
        topic: String::new(),
        topic_alias: Some(3),
        packet_id: 0,
        payload: vec![2],
    });
    let r = session.handle_packet(&by_alias, 2).expect("resolve");
    match r {
        SessionAction::Deliver { packet: Packet::Publish(d), reply: None } => {
            assert_eq!(d.topic, "metrics/temp");
        }
        other => panic!("unexpected action {:?}", other_debug(&other)),
    }
    // An alias never registered is a protocol violation.
    let unknown = Packet::Publish(Publish {
        qos: 0,
        topic: String::new(),
        topic_alias: Some(4),
        packet_id: 0,
        payload: Vec::new(),
    });
    assert!(matches!(session.handle_packet(&unknown, 3), Err(ProtocolError::UnknownTopicAlias)));
    // An alias above the negotiated maximum is rejected on registration.
    let too_big = Packet::Publish(Publish {
        qos: 0,
        topic: String::from("t"),
        topic_alias: Some(9),
        packet_id: 0,
        payload: Vec::new(),
    });
    assert!(matches!(session.handle_packet(&too_big, 4), Err(ProtocolError::MaxTopicAlias)));
}

fn other_debug(a: &SessionAction) -> &'static str {
    match a {
        SessionAction::Reply(_) => "Reply",
        SessionAction::Deliver { .. } => "Deliver",
        SessionAction::CompleteSend(_) => "CompleteSend",
        SessionAction::PeerDisconnected => "PeerDisconnected",
        SessionAction::Idle => "Idle",
    }
}

#[test]
fn qos1_publish_is_delivered_with_immediate_ack() {
    let mut session = SessionState::new(30, 15, 5, 0);
    let publish = Packet::Publish(Publish {
        qos: 1,
        topic: String::from("t"),
        topic_alias: None,
        packet_id: 12,
        payload: vec![9],
    });
    let r = session.handle_packet(&publish, 1).expect("qos-1 publish");
    match r {
        SessionAction::Deliver { packet: Packet::Publish(_), reply } => {
            assert_eq!(reply, Some(Packet::PublishAck { packet_id: 12 }));
        }
        _ => panic!("expected delivery"),
    }
}

#[test]
fn qos2_publish_reserves_and_duplicate_is_rejected() {
    let mut session = SessionState::new(30, 15, 5, 0);
    let publish = Packet::Publish(Publish {
        qos: 2,
        topic: String::from("t"),
        topic_alias: None,
        packet_id: 12,
        payload: Vec::new(),
    });
    let r = session.handle_packet(&publish, 1).expect("qos-2 publish");
    match r {
        SessionAction::Deliver { reply, .. } => {
            assert_eq!(reply, Some(Packet::PublishReceived { packet_id: 12 }));
        }
        _ => panic!("expected delivery"),
    }
    assert!(matches!(
        session.handle_packet(&publish, 2),
        Err(ProtocolError::DuplicatedPacketId)
    ));
    // The release frees the reservation and is answered.
    let r = session
        .handle_packet(&Packet::PublishRelease { packet_id: 12 }, 3)
        .expect("release");
    assert!(matches!(r, SessionAction::Reply(Packet::PublishComplete { packet_id: 12 })));
    session.handle_packet(&publish, 4).expect("reusable after release");
}

#[test]
fn unsupported_level_rejected_before_the_decision_collaborator() {
    let codec = Codec::new(4);
    let bad_level = [
        0x10, 12, 0x00, 0x04, b'M', b'Q', b'T', b'T', 3, 2, 0x00, 30, 0x00, 0x00,
    ];
    let decoded = codec.decode(&bad_level);
    let outcome = on_first_frame(decoded, MqttSink::new(), 5, 15);
    match outcome {
        HandshakeOutcome::Reject { reason, error } => {
            assert_eq!(reason, Some(ConnectAckReason::UnacceptableProtocolVersion));
            assert!(matches!(error, ProtocolError::Decode(_)));
        }
        _ => panic!("an unsupported protocol level must reject the handshake"),
    }
}

#[test]
fn handshake_timeout_is_its_own_error() {
    assert!(check_handshake_deadline(0, 10, 10).is_ok());
    assert!(matches!(
        check_handshake_deadline(0, 10, 11),
        Err(ProtocolError::HandshakeTimeout)
    ));
}

#[test]
fn ack_keep_alive_updates_packet_and_timer_together() {
    let connect = ConnectPacket {
        protocol_level: 5,
        clean_session: true,
        keep_alive: 30,
        client_id: String::from("c-1"),
    };
    let codec = Codec::new(5);
    let mut buf: Vec<u8> = Vec::new();
    codec.encode(&Packet::Connect(connect), &mut buf).expect("encode");
    let outcome = on_first_frame(codec.decode(&buf), MqttSink::new(), 5, 15);
    let conn = match outcome {
        HandshakeOutcome::Offer(conn) => conn,
        _ => panic!("a well-formed CONNECT is offered to the decision"),
    };
    assert_eq!(conn.packet().keep_alive, 30);
    let ack = conn.ack(String::from("session-data")).keep_alive(45);
    assert_eq!(ack.packet().session_expiry_interval_secs, Some(45));
    assert_eq!(ack.live_keep_alive(), 45);
    // The live timer fires only after 45 seconds of silence, not the
    // previous default.
    let (session_data, _sink, packet, inflight, keep_alive) = ack.into_parts();
    assert_eq!(session_data.as_deref(), Some("session-data"));
    assert_eq!(packet.reason_code, ConnectAckReason::Success);
    assert_eq!(packet.topic_alias_max, 5);
    let session = SessionState::new(keep_alive, 15, packet.topic_alias_max, 0);
    let _ = inflight;
    assert!(session.poll_keep_alive(45).is_ok());
    assert!(matches!(session.poll_keep_alive(46), Err(ProtocolError::KeepAliveTimeout)));
}

#[test]
fn failed_handshake_carries_reason_and_no_session() {
    let connect = ConnectPacket {
        protocol_level: 5,
        clean_session: true,
        keep_alive: 30,
        client_id: String::from("c-2"),
    };
    let conn = mqtt_engine::connect::Connect::new(connect, MqttSink::new(), 7, 15, 30);
    let ack = conn.failed::<()>(ConnectAckReason::NotAuthorized);
    assert_eq!(ack.packet().reason_code, ConnectAckReason::NotAuthorized);
    assert_eq!(ack.packet().topic_alias_max, 7);
    let (session_data, _sink, _packet, _inflight, _ka) = ack.into_parts();
    assert!(session_data.is_none());
}

#[test]
fn sink_preserves_submission_order_and_close_rejects() {
    let mut sink = MqttSink::new();
    sink.send(Packet::PingRequest).expect("first");
    sink.send(Packet::PublishAck { packet_id: 1 }).expect("second");
    let drained = sink.drain();
    assert_eq!(drained, vec![Packet::PingRequest, Packet::PublishAck { packet_id: 1 }]);
    sink.close();
    assert!(matches!(sink.send(Packet::PingRequest), Err(ProtocolError::Disconnected)));
}

#[test]
fn with_adjusts_the_acknowledgement_packet() {
    let connect = ConnectPacket {
        protocol_level: 4,
        clean_session: true,
        keep_alive: 30,
        client_id: String::from("c-3"),
    };
    let conn = mqtt_engine::connect::Connect::new(connect, MqttSink::new(), 5, 15, 30);
    let ack = conn.ack::<u8>(1).with(|mut p: mqtt_engine::codec::ConnectAck| {
        p.session_present = true;
        p
    });
    assert!(ack.packet().session_present);
    assert_eq!(ack.packet().reason_code, ConnectAckReason::Success);
}

#[test]
fn packet_mut_allows_handshake_time_adjustment() {
    let connect = ConnectPacket {
        protocol_level: 4,
        clean_session: true,
        keep_alive: 30,
        client_id: String::from("c-4"),
    };
    let mut conn = mqtt_engine::connect::Connect::new(connect, MqttSink::new(), 5, 15, 30);
    conn.packet_mut().keep_alive = 99;
    assert_eq!(conn.packet().keep_alive, 99);
}

#[test]
fn subscribe_and_unsubscribe_are_delivered_to_the_handler() {
    let mut session = SessionState::new(30, 15, 5, 0);
    let sub = Packet::Subscribe { packet_id: 4, topic_filter: String::from("a/#"), qos: 1 };
    let r = session.handle_packet(&sub, 1).expect("subscribe");
    assert!(matches!(r, SessionAction::Deliver { reply: None, .. }));
    let unsub = Packet::Unsubscribe { packet_id: 5, topic_filter: String::from("a/#") };
    let r = session.handle_packet(&unsub, 2).expect("unsubscribe");
    assert!(matches!(r, SessionAction::Deliver { reply: None, .. }));
    // A zero identifier is rejected before anything else.
    let bad = Packet::Subscribe { packet_id: 0, topic_filter: String::from("a"), qos: 0 };
    assert!(matches!(session.handle_packet(&bad, 3), Err(ProtocolError::PacketIdRequired)));
}

#[test]
fn connect_after_handshake_is_unexpected() {
    let mut session = SessionState::new(30, 15, 5, 0);
    let connect = Packet::Connect(ConnectPacket {
        protocol_level: 4,
        clean_session: true,
        keep_alive: 30,
        client_id: String::from("late"),
    });
    assert!(matches!(
        session.handle_packet(&connect, 1),
        Err(ProtocolError::Unexpected(1, _))
    ));
}

#[test]
fn outbound_alias_substitution_requires_prior_registration() {
    let mut session = SessionState::new(30, 15, 5, 0);
    // Substitution without a prior registration must fail before
    // anything reaches the wire.
    let by_alias = Publish {
        qos: 0,
        topic: String::new(),
        topic_alias: Some(2),
        packet_id: 0,
        payload: vec![1],
    };
    assert!(matches!(
        session.prepare_outbound(by_alias.clone()),
        Err(ProtocolError::UnknownTopicAlias)
    ));
    // A full packet registers the alias for this connection.
    let full = Publish {
        qos: 0,
        topic: String::from("metrics/temp"),
        topic_alias: Some(2),
        packet_id: 0,
        payload: vec![1],
    };
    session.prepare_outbound(full).expect("registers the alias");
    session.prepare_outbound(by_alias).expect("substitution after registration");
    // An alias above the negotiated maximum never registers.
    let too_big = Publish {
        qos: 0,
        topic: String::from("t"),
        topic_alias: Some(11),
        packet_id: 0,
        payload: Vec::new(),
    };
    assert!(matches!(
        session.prepare_outbound(too_big),
        Err(ProtocolError::MaxTopicAlias)
    ));
}
