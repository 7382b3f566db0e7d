use rdma_handshake::codec::{encode, ControlMessage, Family, MrMetadata, QpMetadata};
use rdma_handshake::sender::{
    Action, ConnectedQp, Event, HandshakeError, Phase, ResolvedPort, Sender,
};

fn expect_send(a: Action) -> Vec<u8> {
    match a {
        Action::Send(b) => b,
        other => panic!("expected a write action, got {:?}", other),
    }
}

fn expect_receive(a: Action) {
    match a {
        Action::Receive => {}
        other => panic!("expected a read action, got {:?}", other),
    }
}

#[test]
fn full_session_one_queue_pair_v4() {
    let mut s = Sender::new(1, Family::V4, 0x1000, 11, 22);
    assert_eq!(s.requested_qps(), 1);
    assert!(s.well_formed());

    let a = s.connect(Event::Start);
    assert_eq!(
        expect_send(a),
        encode(&ControlMessage::RegisterMemory(MrMetadata {
            address: 0x1000,
            rkey: 22,
            length: 0,
        })),
    );
    expect_receive(s.connect(Event::Sent));

    let peer_reg = encode(&ControlMessage::RegisterMemory(MrMetadata {
        address: 0xbeef,
        rkey: 77,
        length: 0,
    }));
    let a = s.connect(Event::Received(peer_reg));
    match a {
        Action::Resolve { index: 0, family: Family::V4 } => {}
        other => panic!("expected a resolve action for index 0, got {:?}", other),
    }
    assert_eq!(s.receiver_metadata_address, 0xbeef);
    assert_eq!(s.receiver_metadata_rkey, 77);

    let port = ResolvedPort { gidx: 2, port: 1, subnet_id: 0xfe80, interface_id: 0x1234 };
    let a = s.connect(Event::Resolution(Some(port)));
    match a {
        Action::CreateQp { gidx: 2, port: 1 } => {}
        other => panic!("expected a queue-pair creation, got {:?}", other),
    }

    let a = s.connect(Event::QpReady);
    assert_eq!(
        expect_send(a),
        encode(&ControlMessage::InitQueuePair(0, Family::V4)),
    );
    expect_receive(s.connect(Event::Sent));

    let remote = QpMetadata { subnet_id: 9, interface_id: 8, qpn: 5, psn: 6 };
    let a = s.connect(Event::Received(encode(&ControlMessage::ConnectQueuePair(remote))));
    match a {
        Action::ConnectQp(r) => assert_eq!(r, remote),
        other => panic!("expected a local connect, got {:?}", other),
    }

    let a = s.connect(Event::QpConnected { qpn: 100, psn: 200 });
    assert_eq!(
        expect_send(a),
        encode(&ControlMessage::ConnectQueuePair(QpMetadata {
            subnet_id: 0xfe80,
            interface_id: 0x1234,
            qpn: 100,
            psn: 200,
        })),
    );

    let a = s.connect(Event::Sent);
    assert_eq!(expect_send(a), encode(&ControlMessage::Stop));

    let a = s.connect(Event::Sent);
    match a {
        Action::PostRecv { slot: 0, addr: 0x1000, length: 20, lkey: 11 } => {}
        other => panic!("expected the barrier's receive, got {:?}", other),
    }

    let a = s.connect(Event::Completed);
    match a {
        Action::Done => {}
        other => panic!("expected completion, got {:?}", other),
    }
    assert_eq!(s.phase(), Phase::Ready);
    assert_eq!(s.connected_qps(), 1);
    assert_eq!(s.qp_list, vec![ConnectedQp { index: 0, qpn: 100, psn: 200 }]);
}

#[test]
fn unresolvable_index_is_skipped_stop_still_sent_once() {
    let mut s = Sender::new(2, Family::V6, 0x2000, 5, 6);

    expect_send(s.connect(Event::Start));
    expect_receive(s.connect(Event::Sent));
    let a = s.connect(Event::Received(encode(&ControlMessage::RegisterMemory(MrMetadata {
        address: 1,
        rkey: 2,
        length: 0,
    }))));
    match a {
        Action::Resolve { index: 0, family: Family::V6 } => {}
        other => panic!("expected a resolve action for index 0, got {:?}", other),
    }

    // Index 0 resolves and is negotiated in full.
    let port = ResolvedPort { gidx: 0, port: 1, subnet_id: 10, interface_id: 20 };
    s.connect(Event::Resolution(Some(port)));
    let a = s.connect(Event::QpReady);
    assert_eq!(
        expect_send(a),
        encode(&ControlMessage::InitQueuePair(0, Family::V6)),
    );
    expect_receive(s.connect(Event::Sent));
    let remote = QpMetadata { subnet_id: 1, interface_id: 2, qpn: 3, psn: 4 };
    s.connect(Event::Received(encode(&ControlMessage::ConnectQueuePair(remote))));
    expect_send(s.connect(Event::QpConnected { qpn: 50, psn: 60 }));
    let a = s.connect(Event::Sent);
    match a {
        Action::Resolve { index: 1, family: Family::V6 } => {}
        other => panic!("expected a resolve action for index 1, got {:?}", other),
    }

    // Index 1 is unresolvable: no message for it, straight to the stop.
    let a = s.connect(Event::Resolution(None));
    assert_eq!(expect_send(a), encode(&ControlMessage::Stop));

    let a = s.connect(Event::Sent);
    match a {
        Action::PostRecv { slot: 0, .. } => {}
        other => panic!("expected the barrier's receive, got {:?}", other),
    }
    let a = s.connect(Event::Completed);
    match a {
        Action::Done => {}
        other => panic!("expected completion, got {:?}", other),
    }

    assert_eq!(s.requested_qps(), 2);
    assert_eq!(s.connected_qps(), 1);
    assert_eq!(s.qp_list, vec![ConnectedQp { index: 0, qpn: 50, psn: 60 }]);
}

#[test]
fn zero_queue_pairs_still_exchanges_metadata_and_stops() {
    let mut s = Sender::new(0, Family::V4, 0, 0, 0);
    expect_send(s.connect(Event::Start));
    expect_receive(s.connect(Event::Sent));
    let a = s.connect(Event::Received(encode(&ControlMessage::RegisterMemory(MrMetadata {
        address: 3,
        rkey: 4,
        length: 0,
    }))));
    assert_eq!(expect_send(a), encode(&ControlMessage::Stop));
    let a = s.connect(Event::Sent);
    match a {
        Action::Done => {}
        other => panic!("expected completion, got {:?}", other),
    }
    assert_eq!(s.phase(), Phase::Ready);
    assert_eq!(s.connected_qps(), 0);
}

#[test]
fn undecodable_message_aborts_without_further_sends() {
    let mut s = Sender::new(1, Family::V4, 0, 0, 0);
    expect_send(s.connect(Event::Start));
    expect_receive(s.connect(Event::Sent));

    // Truncated bytes: the decode fails and the session aborts.
    let a = s.connect(Event::Received(vec![0, 0, 0]));
    match a {
        Action::Fail(HandshakeError::ProtocolViolation) => {}
        other => panic!("expected a protocol violation, got {:?}", other),
    }
    assert_eq!(s.phase(), Phase::Failed(HandshakeError::ProtocolViolation));

    // Whatever happens next, the aborted session never writes again.
    for _ in 0..3 {
        let a = s.connect(Event::Sent);
        match a {
            Action::Fail(HandshakeError::ProtocolViolation) => {}
            other => panic!("expected the abort to stick, got {:?}", other),
        }
    }
    assert_eq!(s.phase(), Phase::Failed(HandshakeError::ProtocolViolation));
}

#[test]
fn unexpected_variant_aborts() {
    let mut s = Sender::new(1, Family::V4, 0, 0, 0);
    expect_send(s.connect(Event::Start));
    expect_receive(s.connect(Event::Sent));
    // A Stop where RegisterMemory is owed is a protocol violation.
    let a = s.connect(Event::Received(encode(&ControlMessage::Stop)));
    match a {
        Action::Fail(HandshakeError::ProtocolViolation) => {}
        other => panic!("expected a protocol violation, got {:?}", other),
    }
}

#[test]
fn outside_failure_aborts_with_its_error() {
    let mut s = Sender::new(1, Family::V4, 0, 0, 0);
    expect_send(s.connect(Event::Start));
    let a = s.connect(Event::Failed(HandshakeError::ConnectionError));
    match a {
        Action::Fail(HandshakeError::ConnectionError) => {}
        other => panic!("expected the connection error back, got {:?}", other),
    }
    assert_eq!(s.phase(), Phase::Failed(HandshakeError::ConnectionError));
}

#[test]
fn resource_failure_aborts_with_resource_error() {
    let mut s = Sender::new(1, Family::V4, 0, 0, 0);
    expect_send(s.connect(Event::Start));
    expect_receive(s.connect(Event::Sent));
    s.connect(Event::Received(encode(&ControlMessage::RegisterMemory(MrMetadata {
        address: 1,
        rkey: 2,
        length: 0,
    }))));
    s.connect(Event::Resolution(Some(ResolvedPort {
        gidx: 0,
        port: 1,
        subnet_id: 0,
        interface_id: 0,
    })));
    // Queue-pair creation fails in the provider.
    let a = s.connect(Event::Failed(HandshakeError::ResourceError));
    match a {
        Action::Fail(HandshakeError::ResourceError) => {}
        other => panic!("expected the resource error back, got {:?}", other),
    }
    assert_eq!(s.phase(), Phase::Failed(HandshakeError::ResourceError));
}

#[test]
fn metadata_setters_and_getters() {
    let mut s = Sender::new(4, Family::V6, 0xabc, 7, 8);
    assert_eq!(s.metadata_addr(), 0xabc);
    assert_eq!(s.metadata_lkey(), 7);
    assert_eq!(s.metadata(), MrMetadata { address: 0, rkey: 0, length: 0 });
    s.set_metadata_address(0x42);
    s.set_metadata_rkey(9);
    s.set_metadata_length(64);
    assert_eq!(s.metadata(), MrMetadata { address: 0x42, rkey: 9, length: 64 });
    // The registered region's own identity is unchanged by the setters.
    assert_eq!(s.metadata_addr(), 0xabc);
    assert_eq!(s.metadata_lkey(), 7);
}
