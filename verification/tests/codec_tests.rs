use rdma_handshake::codec::{
    decode, encode, message_len_for_tag, ControlMessage, DecodeError, Family, MrMetadata,
    QpMetadata,
};

fn roundtrip(m: ControlMessage) {
    let bytes = encode(&m);
    assert_eq!(decode(bytes.as_slice()), Ok(m));
}

#[test]
fn roundtrip_register_memory() {
    roundtrip(ControlMessage::RegisterMemory(MrMetadata {
        address: 0x1122_3344_5566_7788,
        rkey: 0x99aa_bbcc,
        length: 4096,
    }));
}

#[test]
fn roundtrip_register_memory_boundaries() {
    roundtrip(ControlMessage::RegisterMemory(MrMetadata {
        address: 0,
        rkey: 0,
        length: 0,
    }));
    roundtrip(ControlMessage::RegisterMemory(MrMetadata {
        address: u64::MAX,
        rkey: u32::MAX,
        length: u64::MAX,
    }));
}

#[test]
fn roundtrip_init_queue_pair() {
    roundtrip(ControlMessage::InitQueuePair(0, Family::V4));
    roundtrip(ControlMessage::InitQueuePair(7, Family::V6));
    roundtrip(ControlMessage::InitQueuePair(u32::MAX, Family::V4));
}

#[test]
fn roundtrip_connect_queue_pair() {
    roundtrip(ControlMessage::ConnectQueuePair(QpMetadata {
        subnet_id: 0xfe80_0000_0000_0000,
        interface_id: 0x0123_4567_89ab_cdef,
        qpn: 42,
        psn: 7,
    }));
    roundtrip(ControlMessage::ConnectQueuePair(QpMetadata {
        subnet_id: u64::MAX,
        interface_id: 0,
        qpn: u32::MAX,
        psn: 0,
    }));
}

#[test]
fn roundtrip_stop() {
    roundtrip(ControlMessage::Stop);
}

#[test]
fn wire_layout_is_little_endian_tagged() {
    assert_eq!(encode(&ControlMessage::Stop), vec![3, 0, 0, 0]);
    assert_eq!(
        encode(&ControlMessage::InitQueuePair(1, Family::V6)),
        vec![1, 0, 0, 0, 1, 0, 0, 0, 1, 0, 0, 0],
    );
    let reg = encode(&ControlMessage::RegisterMemory(MrMetadata {
        address: 0x0102_0304_0506_0708,
        rkey: 0x0a0b_0c0d,
        length: 2,
    }));
    assert_eq!(
        reg,
        vec![
            0, 0, 0, 0, // discriminant
            8, 7, 6, 5, 4, 3, 2, 1, // address, little endian
            0x0d, 0x0c, 0x0b, 0x0a, // rkey
            2, 0, 0, 0, 0, 0, 0, 0, // length
        ],
    );
}

#[test]
fn decode_truncated_is_rejected() {
    assert_eq!(decode(&[]), Err(DecodeError::Truncated));
    assert_eq!(decode(&[0, 0, 0]), Err(DecodeError::Truncated));
    // A register message cut short of its payload.
    assert_eq!(decode(&[0, 0, 0, 0, 1, 2, 3]), Err(DecodeError::Truncated));
    let mut init = encode(&ControlMessage::InitQueuePair(3, Family::V4));
    init.pop();
    assert_eq!(decode(init.as_slice()), Err(DecodeError::Truncated));
}

#[test]
fn decode_unknown_discriminant_is_rejected() {
    assert_eq!(decode(&[4, 0, 0, 0]), Err(DecodeError::UnknownDiscriminant));
    assert_eq!(
        decode(&[0xff, 0xff, 0xff, 0xff]),
        Err(DecodeError::UnknownDiscriminant)
    );
    // A family code naming no address family.
    assert_eq!(
        decode(&[1, 0, 0, 0, 0, 0, 0, 0, 2, 0, 0, 0]),
        Err(DecodeError::UnknownDiscriminant)
    );
}

#[test]
fn decode_oversized_is_rejected() {
    // A fixed receive buffer hands back more bytes than one message holds.
    let mut padded = encode(&ControlMessage::Stop);
    padded.resize(1024, 0);
    assert_eq!(decode(padded.as_slice()), Err(DecodeError::TrailingBytes));
    let mut reg = encode(&ControlMessage::RegisterMemory(MrMetadata {
        address: 1,
        rkey: 2,
        length: 3,
    }));
    reg.push(0);
    assert_eq!(decode(reg.as_slice()), Err(DecodeError::TrailingBytes));
}

#[test]
fn message_len_matches_encodings() {
    assert_eq!(message_len_for_tag(0), Some(24));
    assert_eq!(message_len_for_tag(1), Some(12));
    assert_eq!(message_len_for_tag(2), Some(28));
    assert_eq!(message_len_for_tag(3), Some(4));
    assert_eq!(message_len_for_tag(4), None);
    let m = ControlMessage::ConnectQueuePair(QpMetadata {
        subnet_id: 1,
        interface_id: 2,
        qpn: 3,
        psn: 4,
    });
    assert_eq!(encode(&m).len(), 28);
}
