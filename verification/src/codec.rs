//! Wire codec for the control messages exchanged over the out-of-band
//! connection: a fixed-width little-endian discriminant followed by the
//! variant's fields, each a fixed-width little-endian integer.

use vstd::bytes::*;
use vstd::prelude::*;
use vstd::slice::slice_subrange;

verus! {

/// Address family selecting which class of GID entries is eligible when a
/// queue-pair index is resolved to a local RDMA port identity.
#[derive(Clone, Copy, PartialEq, Eq, Structural, Debug)]
pub enum Family {
    V4,
    V6,
}

impl Family {
    /// Wire code of the family: 0 for V4, 1 for V6.
    pub open spec fn code(self) -> u32 {
        match self {
            Family::V4 => 0,
            Family::V6 => 1,
        }
    }

    pub fn as_code(self) -> (r: u32)
        ensures
            r == self.code(),
    {
        match self {
            Family::V4 => 0,
            Family::V6 => 1,
        }
    }
}

/// Describes a remotely accessible memory region: its base address, the
/// remote access key, and its length. Exchanged exactly once per session,
/// once in each direction.
#[derive(Clone, Copy, PartialEq, Eq, Structural, Debug)]
pub struct MrMetadata {
    pub address: u64,
    pub rkey: u32,
    pub length: u64,
}

/// Number of payload bytes a `MrMetadata` occupies on the wire, and the
/// length of the receive buffer posted for the readiness barrier.
pub const MR_METADATA_SIZE: u64 = 20;

impl Default for MrMetadata {
    fn default() -> (r: Self)
        ensures
            r.address == 0,
            r.rkey == 0,
            r.length == 0,
    {
        MrMetadata { address: 0, rkey: 0, length: 0 }
    }
}

/// The identity one peer needs in order to connect its local queue pair to
/// the other peer's: the GID-derived subnet and interface identifiers, the
/// queue-pair number, and the initial packet sequence number.
#[derive(Clone, Copy, PartialEq, Eq, Structural, Debug)]
pub struct QpMetadata {
    pub subnet_id: u64,
    pub interface_id: u64,
    pub qpn: u32,
    pub psn: u32,
}

/// The tagged union of control messages.
#[derive(Clone, Copy, PartialEq, Eq, Structural, Debug)]
pub enum ControlMessage {
    RegisterMemory(MrMetadata),
    InitQueuePair(u32, Family),
    ConnectQueuePair(QpMetadata),
    Stop,
}

/// Why a byte sequence failed to decode.
#[derive(Clone, Copy, PartialEq, Eq, Structural, Debug)]
pub enum DecodeError {
    /// Fewer bytes than the discriminant plus the variant's payload requires.
    Truncated,
    /// A discriminant (outer, or the address-family code) that names no variant.
    UnknownDiscriminant,
    /// More bytes than the identified variant's encoding occupies.
    TrailingBytes,
}

/// The wire discriminant of each variant.
pub open spec fn discriminant_of(m: ControlMessage) -> u32 {
    match m {
        ControlMessage::RegisterMemory(_) => 0,
        ControlMessage::InitQueuePair(_, _) => 1,
        ControlMessage::ConnectQueuePair(_) => 2,
        ControlMessage::Stop => 3,
    }
}

/// Total encoded length of a message with the given discriminant, or `None`
/// if the discriminant names no variant.
pub open spec fn spec_message_len(tag: u32) -> Option<int> {
    if tag == 0 {
        Some(24 as int)
    } else if tag == 1 {
        Some(12 as int)
    } else if tag == 2 {
        Some(28 as int)
    } else if tag == 3 {
        Some(4 as int)
    } else {
        None
    }
}

/// The encoding: the discriminant as a little-endian `u32`, then the
/// variant's fields in declared order, each little-endian and fixed-width.
pub open spec fn spec_encode(m: ControlMessage) -> Seq<u8> {
    match m {
        ControlMessage::RegisterMemory(md) => spec_u32_to_le_bytes(0) + spec_u64_to_le_bytes(
            md.address,
        ) + spec_u32_to_le_bytes(md.rkey) + spec_u64_to_le_bytes(md.length),
        ControlMessage::InitQueuePair(index, family) => spec_u32_to_le_bytes(1)
            + spec_u32_to_le_bytes(index) + spec_u32_to_le_bytes(family.code()),
        ControlMessage::ConnectQueuePair(qp) => spec_u32_to_le_bytes(2) + spec_u64_to_le_bytes(
            qp.subnet_id,
        ) + spec_u64_to_le_bytes(qp.interface_id) + spec_u32_to_le_bytes(qp.qpn)
            + spec_u32_to_le_bytes(qp.psn),
        ControlMessage::Stop => spec_u32_to_le_bytes(3),
    }
}

/// The decoding, defined for every byte sequence: the unique message whose
/// encoding is exactly the input, or the error classifying why there is none.
pub open spec fn spec_decode(b: Seq<u8>) -> Result<ControlMessage, DecodeError> {
    if b.len() < 4 {
        Err(DecodeError::Truncated)
    } else {
        let tag = spec_u32_from_le_bytes(b.subrange(0, 4));
        match spec_message_len(tag) {
            None => Err(DecodeError::UnknownDiscriminant),
            Some(l) => if b.len() < l {
                Err(DecodeError::Truncated)
            } else if b.len() > l {
                Err(DecodeError::TrailingBytes)
            } else if tag == 0 {
                Ok(
                    ControlMessage::RegisterMemory(
                        MrMetadata {
                            address: spec_u64_from_le_bytes(b.subrange(4, 12)),
                            rkey: spec_u32_from_le_bytes(b.subrange(12, 16)),
                            length: spec_u64_from_le_bytes(b.subrange(16, 24)),
                        },
                    ),
                )
            } else if tag == 1 {
                let index = spec_u32_from_le_bytes(b.subrange(4, 8));
                let fam = spec_u32_from_le_bytes(b.subrange(8, 12));
                if fam == 0 {
                    Ok(ControlMessage::InitQueuePair(index, Family::V4))
                } else if fam == 1 {
                    Ok(ControlMessage::InitQueuePair(index, Family::V6))
                } else {
                    Err(DecodeError::UnknownDiscriminant)
                }
            } else if tag == 2 {
                Ok(
                    ControlMessage::ConnectQueuePair(
                        QpMetadata {
                            subnet_id: spec_u64_from_le_bytes(b.subrange(4, 12)),
                            interface_id: spec_u64_from_le_bytes(b.subrange(12, 20)),
                            qpn: spec_u32_from_le_bytes(b.subrange(20, 24)),
                            psn: spec_u32_from_le_bytes(b.subrange(24, 28)),
                        },
                    ),
                )
            } else {
                Ok(ControlMessage::Stop)
            },
        }
    }
}

/// Encodes a control message into its wire form.
pub fn encode(m: &ControlMessage) -> (r: Vec<u8>)
    ensures
        r@ == spec_encode(*m),
{
    match m {
        ControlMessage::RegisterMemory(md) => {
            let mut v = u32_to_le_bytes(0);
            let mut f = u64_to_le_bytes(md.address);
            v.append(&mut f);
            let mut f = u32_to_le_bytes(md.rkey);
            v.append(&mut f);
            let mut f = u64_to_le_bytes(md.length);
            v.append(&mut f);
            assert(v@ =~= spec_encode(*m));
            v
        },
        ControlMessage::InitQueuePair(index, family) => {
            let mut v = u32_to_le_bytes(1);
            let mut f = u32_to_le_bytes(*index);
            v.append(&mut f);
            let mut f = u32_to_le_bytes(family.as_code());
            v.append(&mut f);
            assert(v@ =~= spec_encode(*m));
            v
        },
        ControlMessage::ConnectQueuePair(qp) => {
            let mut v = u32_to_le_bytes(2);
            let mut f = u64_to_le_bytes(qp.subnet_id);
            v.append(&mut f);
            let mut f = u64_to_le_bytes(qp.interface_id);
            v.append(&mut f);
            let mut f = u32_to_le_bytes(qp.qpn);
            v.append(&mut f);
            let mut f = u32_to_le_bytes(qp.psn);
            v.append(&mut f);
            assert(v@ =~= spec_encode(*m));
            v
        },
        ControlMessage::Stop => {
            let v = u32_to_le_bytes(3);
            assert(v@ =~= spec_encode(*m));
            v
        },
    }
}

/// Total encoded length for a wire discriminant, for framing a read: `None`
/// when the discriminant names no variant.
pub fn message_len_for_tag(tag: u32) -> (r: Option<usize>)
    ensures
        match r {
            Some(l) => spec_message_len(tag) == Some(l as int),
            None => spec_message_len(tag) is None,
        },
{
    if tag == 0 {
        Some(24)
    } else if tag == 1 {
        Some(12)
    } else if tag == 2 {
        Some(28)
    } else if tag == 3 {
        Some(4)
    } else {
        None
    }
}

/// Decodes a wire message. Succeeds exactly on byte sequences that are the
/// encoding of some message; anything truncated, unknown, or carrying
/// trailing bytes is rejected with the corresponding error.
pub fn decode(b: &[u8]) -> (r: Result<ControlMessage, DecodeError>)
    ensures
        r == spec_decode(b@),
{
    if b.len() < 4 {
        return Err(DecodeError::Truncated);
    }
    let tag = u32_from_le_bytes(slice_subrange(b, 0, 4));
    let len = match message_len_for_tag(tag) {
        Some(l) => l,
        None => {
            return Err(DecodeError::UnknownDiscriminant);
        },
    };
    if b.len() < len {
        return Err(DecodeError::Truncated);
    }
    if b.len() > len {
        return Err(DecodeError::TrailingBytes);
    }
    if tag == 0 {
        Ok(
            ControlMessage::RegisterMemory(
                MrMetadata {
                    address: u64_from_le_bytes(slice_subrange(b, 4, 12)),
                    rkey: u32_from_le_bytes(slice_subrange(b, 12, 16)),
                    length: u64_from_le_bytes(slice_subrange(b, 16, 24)),
                },
            ),
        )
    } else if tag == 1 {
        let index = u32_from_le_bytes(slice_subrange(b, 4, 8));
        let fam = u32_from_le_bytes(slice_subrange(b, 8, 12));
        if fam == 0 {
            Ok(ControlMessage::InitQueuePair(index, Family::V4))
        } else if fam == 1 {
            Ok(ControlMessage::InitQueuePair(index, Family::V6))
        } else {
            Err(DecodeError::UnknownDiscriminant)
        }
    } else if tag == 2 {
        Ok(
            ControlMessage::ConnectQueuePair(
                QpMetadata {
                    subnet_id: u64_from_le_bytes(slice_subrange(b, 4, 12)),
                    interface_id: u64_from_le_bytes(slice_subrange(b, 12, 20)),
                    qpn: u32_from_le_bytes(slice_subrange(b, 20, 24)),
                    psn: u32_from_le_bytes(slice_subrange(b, 24, 28)),
                },
            ),
        )
    } else {
        Ok(ControlMessage::Stop)
    }
}

/// The encoded length of each variant, as `spec_message_len` gives it for
/// the variant's discriminant.
pub proof fn lemma_encode_len(m: ControlMessage)
    ensures
        spec_message_len(discriminant_of(m)) == Some(spec_encode(m).len() as int),
        4 <= spec_encode(m).len() <= 28,
{
    lemma_auto_spec_u32_to_from_le_bytes();
    lemma_auto_spec_u64_to_from_le_bytes();
}

/// Round trip: decoding the encoding of any constructible message yields
/// that message back, unchanged.
pub proof fn lemma_encode_decode(m: ControlMessage)
    ensures
        spec_decode(spec_encode(m)) == Ok::<ControlMessage, DecodeError>(m),
{
    lemma_auto_spec_u32_to_from_le_bytes();
    lemma_auto_spec_u64_to_from_le_bytes();
    let b = spec_encode(m);
    match m {
        ControlMessage::RegisterMemory(md) => {
            assert(b.subrange(0, 4) =~= spec_u32_to_le_bytes(0));
            assert(b.subrange(4, 12) =~= spec_u64_to_le_bytes(md.address));
            assert(b.subrange(12, 16) =~= spec_u32_to_le_bytes(md.rkey));
            assert(b.subrange(16, 24) =~= spec_u64_to_le_bytes(md.length));
        },
        ControlMessage::InitQueuePair(index, family) => {
            assert(b.subrange(0, 4) =~= spec_u32_to_le_bytes(1));
            assert(b.subrange(4, 8) =~= spec_u32_to_le_bytes(index));
            assert(b.subrange(8, 12) =~= spec_u32_to_le_bytes(family.code()));
        },
        ControlMessage::ConnectQueuePair(qp) => {
            assert(b.subrange(0, 4) =~= spec_u32_to_le_bytes(2));
            assert(b.subrange(4, 12) =~= spec_u64_to_le_bytes(qp.subnet_id));
            assert(b.subrange(12, 20) =~= spec_u64_to_le_bytes(qp.interface_id));
            assert(b.subrange(20, 24) =~= spec_u32_to_le_bytes(qp.qpn));
            assert(b.subrange(24, 28) =~= spec_u32_to_le_bytes(qp.psn));
        },
        ControlMessage::Stop => {
            assert(b.subrange(0, 4) =~= spec_u32_to_le_bytes(3));
        },
    }
}

/// Soundness of decoding: a successfully decoded message re-encodes to
/// exactly the input bytes, so `Ok` is returned only for genuine encodings.
pub proof fn lemma_decode_encode(b: Seq<u8>, m: ControlMessage)
    requires
        spec_decode(b) == Ok::<ControlMessage, DecodeError>(m),
    ensures
        spec_encode(m) == b,
{
    lemma_auto_spec_u32_to_from_le_bytes();
    lemma_auto_spec_u64_to_from_le_bytes();
    let tag = spec_u32_from_le_bytes(b.subrange(0, 4));
    assert(b.subrange(0, 4).len() == 4);
    if tag == 0 {
        assert(spec_encode(m) =~= b);
    } else if tag == 1 {
        assert(spec_encode(m) =~= b);
    } else if tag == 2 {
        assert(spec_encode(m) =~= b);
    } else {
        assert(tag == 3);
        assert(spec_encode(m) =~= b);
    }
}

/// Injectivity of the encoding: distinct messages have distinct encodings.
pub proof fn lemma_encode_injective(m1: ControlMessage, m2: ControlMessage)
    ensures
        spec_encode(m1) == spec_encode(m2) ==> m1 == m2,
{
    if spec_encode(m1) == spec_encode(m2) {
        lemma_encode_decode(m1);
        lemma_encode_decode(m2);
    }
}

} // verus!
