//! Initiator-side handshake state machine. The `Sender` owns the session
//! state and advances one transition per call to `connect`: the caller
//! performs the returned action (a control-connection write or read, a
//! resolver lookup, a verbs operation) and hands the outcome back as the
//! next event. Every transition is fixed by `step_of`, so the whole
//! message sequence of a session is determined by the outside outcomes.

use crate::codec::{
    decode, encode, spec_decode, spec_encode, ControlMessage, Family, MrMetadata, QpMetadata,
    MR_METADATA_SIZE,
};
use vstd::prelude::*;

verus! {

/// Why a handshake was aborted.
#[derive(Clone, Copy, PartialEq, Eq, Structural, Debug)]
pub enum HandshakeError {
    /// The control connection could not be opened, read, or written.
    ConnectionError,
    /// A received message was malformed or not the one the current state expects.
    ProtocolViolation,
    /// A resource-provider operation failed.
    ResourceError,
}

/// The local RDMA port identity a queue-pair index resolves to under an
/// address family: the GID table index, the port number, and the
/// GID-derived subnet and interface identifiers.
#[derive(Clone, Copy, PartialEq, Eq, Structural, Debug)]
pub struct ResolvedPort {
    pub gidx: u32,
    pub port: u32,
    pub subnet_id: u64,
    pub interface_id: u64,
}

/// One fully negotiated queue pair: the index it was requested under and
/// the local queue-pair number and initial packet sequence number.
#[derive(Clone, Copy, PartialEq, Eq, Structural, Debug)]
pub struct ConnectedQp {
    pub index: u32,
    pub qpn: u32,
    pub psn: u32,
}

/// The outcome of the caller's latest outside operation, fed back into the
/// state machine.
#[derive(Debug)]
pub enum Event {
    /// The control connection to the responder is open.
    Start,
    /// The previously requested write completed.
    Sent,
    /// One framed message was read from the control connection.
    Received(Vec<u8>),
    /// The resolver's answer for the requested index, or `None` if the
    /// index is unresolvable under the session's address family.
    Resolution(Option<ResolvedPort>),
    /// The requested local queue pair was created and initialized.
    QpReady,
    /// The local queue pair finished connecting; its number and initial
    /// packet sequence number.
    QpConnected { qpn: u32, psn: u32 },
    /// A receive completion event was observed for the queue pair the
    /// barrier is currently waiting on.
    Completed,
    /// The requested operation failed.
    Failed(HandshakeError),
}

/// Spec-level image of an `Event`.
pub enum EventV {
    Start,
    Sent,
    Received(Seq<u8>),
    Resolution(Option<ResolvedPort>),
    QpReady,
    QpConnected { qpn: u32, psn: u32 },
    Completed,
    Failed(HandshakeError),
}

impl View for Event {
    type V = EventV;

    open spec fn view(&self) -> EventV {
        match self {
            Event::Start => EventV::Start,
            Event::Sent => EventV::Sent,
            Event::Received(b) => EventV::Received(b@),
            Event::Resolution(r) => EventV::Resolution(*r),
            Event::QpReady => EventV::QpReady,
            Event::QpConnected { qpn, psn } => EventV::QpConnected { qpn: *qpn, psn: *psn },
            Event::Completed => EventV::Completed,
            Event::Failed(e) => EventV::Failed(*e),
        }
    }
}

/// What the caller must do next.
#[derive(Debug)]
pub enum Action {
    /// Write these bytes to the control connection, then report `Sent`.
    Send(Vec<u8>),
    /// Read one framed message, then report `Received`.
    Receive,
    /// Resolve this index under this family, then report `Resolution`.
    Resolve { index: u32, family: Family },
    /// Create and initialize a local queue pair bound to this GID table
    /// index and port, then report `QpReady`.
    CreateQp { gidx: u32, port: u32 },
    /// Connect the current local queue pair to this remote identity, then
    /// report `QpConnected` with the local number and sequence number.
    ConnectQp(QpMetadata),
    /// Post one receive work request for the queue pair at `slot` in the
    /// session's list, with this scatter-gather element, block until its
    /// completion event, then report `Completed`.
    PostRecv { slot: usize, addr: u64, length: u32, lkey: u32 },
    /// The handshake is complete; no further event is expected.
    Done,
    /// The handshake is aborted with this error; no further event is expected.
    Fail(HandshakeError),
}

/// Spec-level image of an `Action`.
pub enum ActionV {
    Send(Seq<u8>),
    Receive,
    Resolve { index: u32, family: Family },
    CreateQp { gidx: u32, port: u32 },
    ConnectQp(QpMetadata),
    PostRecv { slot: usize, addr: u64, length: u32, lkey: u32 },
    Done,
    Fail(HandshakeError),
}

impl View for Action {
    type V = ActionV;

    open spec fn view(&self) -> ActionV {
        match self {
            Action::Send(b) => ActionV::Send(b@),
            Action::Receive => ActionV::Receive,
            Action::Resolve { index, family } => ActionV::Resolve {
                index: *index,
                family: *family,
            },
            Action::CreateQp { gidx, port } => ActionV::CreateQp { gidx: *gidx, port: *port },
            Action::ConnectQp(qp) => ActionV::ConnectQp(*qp),
            Action::PostRecv { slot, addr, length, lkey } => ActionV::PostRecv {
                slot: *slot,
                addr: *addr,
                length: *length,
                lkey: *lkey,
            },
            Action::Done => ActionV::Done,
            Action::Fail(e) => ActionV::Fail(*e),
        }
    }
}

/// Where the handshake stands. Loop phases carry the index being
/// negotiated and, while one is in flight, its resolved port identity.
#[derive(Clone, Copy, PartialEq, Eq, Structural, Debug)]
pub enum Phase {
    /// Nothing has happened yet.
    Idle,
    /// The local memory-region metadata has been handed out for writing.
    SentRegister,
    /// Waiting for the responder's memory-region metadata.
    AwaitRegister,
    /// Waiting for the resolver's answer for `index`.
    AwaitResolve { index: u32 },
    /// Waiting for the local queue pair of `index` to be created.
    AwaitQpReady { index: u32, port: ResolvedPort },
    /// The init message for `index` has been handed out for writing.
    SentInit { index: u32, port: ResolvedPort },
    /// Waiting for the responder's queue-pair identity for `index`.
    AwaitRemoteQp { index: u32, port: ResolvedPort },
    /// Waiting for the local queue pair of `index` to finish connecting.
    AwaitLocalQp { index: u32, port: ResolvedPort },
    /// The local queue-pair identity for `index` has been handed out.
    SentLocalQp { index: u32 },
    /// The termination signal has been handed out for writing.
    SentStop,
    /// Waiting for the completion event of the queue pair at `next`.
    Barrier { next: usize },
    /// The handshake finished successfully.
    Ready,
    /// The handshake was aborted.
    Failed(HandshakeError),
}

/// Spec-level image of a `Sender`.
#[verifier::ext_equal]
pub struct SenderV {
    pub num_qps: u32,
    pub family: Family,
    pub sender_metadata: MrMetadata,
    pub metadata_mr_addr: u64,
    pub metadata_mr_lkey: u32,
    pub metadata_mr_rkey: u32,
    pub receiver_metadata_address: u64,
    pub receiver_metadata_rkey: u32,
    pub qp_list: Seq<ConnectedQp>,
    pub phase: Phase,
}

impl SenderV {
    /// Indices carried by loop phases stay below the requested count, and
    /// the barrier cursor stays inside the connected list.
    pub open spec fn wf(self) -> bool {
        match self.phase {
            Phase::AwaitResolve { index } => index < self.num_qps,
            Phase::AwaitQpReady { index, .. } => index < self.num_qps,
            Phase::SentInit { index, .. } => index < self.num_qps,
            Phase::AwaitRemoteQp { index, .. } => index < self.num_qps,
            Phase::AwaitLocalQp { index, .. } => index < self.num_qps,
            Phase::SentLocalQp { index } => index < self.num_qps,
            Phase::Barrier { next } => next < self.qp_list.len(),
            _ => true,
        }
    }
}

/// The message announcing the session's own registered memory region. Its
/// length is the accepted placeholder value zero: the true length is
/// established out of band.
pub open spec fn register_message(m: SenderV) -> ControlMessage {
    ControlMessage::RegisterMemory(
        MrMetadata { address: m.metadata_mr_addr, rkey: m.metadata_mr_rkey, length: 0 },
    )
}

/// Abort: record the error and tell the caller.
pub open spec fn spec_fail(m: SenderV, err: HandshakeError) -> (SenderV, ActionV) {
    (SenderV { phase: Phase::Failed(err), ..m }, ActionV::Fail(err))
}

/// Leave index `index` behind: move to the next index if one remains,
/// otherwise hand out the termination signal.
pub open spec fn spec_advance(m: SenderV, index: u32) -> (SenderV, ActionV) {
    if index + 1 < m.num_qps {
        (
            SenderV { phase: Phase::AwaitResolve { index: (index + 1) as u32 }, ..m },
            ActionV::Resolve { index: (index + 1) as u32, family: m.family },
        )
    } else {
        (
            SenderV { phase: Phase::SentStop, ..m },
            ActionV::Send(spec_encode(ControlMessage::Stop)),
        )
    }
}

/// The barrier's receive work request: one scatter-gather element pointing
/// at the session's local metadata buffer.
pub open spec fn post_recv_action(m: SenderV, slot: usize) -> ActionV {
    ActionV::PostRecv {
        slot,
        addr: m.metadata_mr_addr,
        length: MR_METADATA_SIZE as u32,
        lkey: m.metadata_mr_lkey,
    }
}

/// The transition function: from a session state and the latest outside
/// outcome to the next state and the next action. `Ready` and `Failed`
/// absorb every further event; an outside failure aborts from any other
/// state; a received message that is undecodable or out of place is a
/// protocol violation; every other mismatched event is one as well.
pub open spec fn step_of(m: SenderV, e: EventV) -> (SenderV, ActionV) {
    match m.phase {
        Phase::Ready => (m, ActionV::Done),
        Phase::Failed(err) => (m, ActionV::Fail(err)),
        _ => match e {
            EventV::Failed(err) => spec_fail(m, err),
            _ => match (m.phase, e) {
                (Phase::Idle, EventV::Start) => (
                    SenderV { phase: Phase::SentRegister, ..m },
                    ActionV::Send(spec_encode(register_message(m))),
                ),
                (Phase::SentRegister, EventV::Sent) => (
                    SenderV { phase: Phase::AwaitRegister, ..m },
                    ActionV::Receive,
                ),
                (Phase::AwaitRegister, EventV::Received(b)) => match spec_decode(b) {
                    Ok(ControlMessage::RegisterMemory(md)) => {
                        let m2 = SenderV {
                            receiver_metadata_address: md.address,
                            receiver_metadata_rkey: md.rkey,
                            ..m
                        };
                        if m.num_qps == 0 {
                            (
                                SenderV { phase: Phase::SentStop, ..m2 },
                                ActionV::Send(spec_encode(ControlMessage::Stop)),
                            )
                        } else {
                            (
                                SenderV { phase: Phase::AwaitResolve { index: 0 }, ..m2 },
                                ActionV::Resolve { index: 0, family: m.family },
                            )
                        }
                    },
                    _ => spec_fail(m, HandshakeError::ProtocolViolation),
                },
                (Phase::AwaitResolve { index }, EventV::Resolution(r)) => match r {
                    Some(port) => (
                        SenderV { phase: Phase::AwaitQpReady { index, port }, ..m },
                        ActionV::CreateQp { gidx: port.gidx, port: port.port },
                    ),
                    None => spec_advance(m, index),
                },
                (Phase::AwaitQpReady { index, port }, EventV::QpReady) => (
                    SenderV { phase: Phase::SentInit { index, port }, ..m },
                    ActionV::Send(spec_encode(ControlMessage::InitQueuePair(index, m.family))),
                ),
                (Phase::SentInit { index, port }, EventV::Sent) => (
                    SenderV { phase: Phase::AwaitRemoteQp { index, port }, ..m },
                    ActionV::Receive,
                ),
                (Phase::AwaitRemoteQp { index, port }, EventV::Received(b)) => match spec_decode(
                    b,
                ) {
                    Ok(ControlMessage::ConnectQueuePair(remote)) => (
                        SenderV { phase: Phase::AwaitLocalQp { index, port }, ..m },
                        ActionV::ConnectQp(remote),
                    ),
                    _ => spec_fail(m, HandshakeError::ProtocolViolation),
                },
                (Phase::AwaitLocalQp { index, port }, EventV::QpConnected { qpn, psn }) => (
                    SenderV {
                        qp_list: m.qp_list.push(ConnectedQp { index, qpn, psn }),
                        phase: Phase::SentLocalQp { index },
                        ..m
                    },
                    ActionV::Send(
                        spec_encode(
                            ControlMessage::ConnectQueuePair(
                                QpMetadata {
                                    subnet_id: port.subnet_id,
                                    interface_id: port.interface_id,
                                    qpn,
                                    psn,
                                },
                            ),
                        ),
                    ),
                ),
                (Phase::SentLocalQp { index }, EventV::Sent) => spec_advance(m, index),
                (Phase::SentStop, EventV::Sent) => if m.qp_list.len() == 0 {
                    (SenderV { phase: Phase::Ready, ..m }, ActionV::Done)
                } else {
                    (SenderV { phase: Phase::Barrier { next: 0 }, ..m }, post_recv_action(m, 0))
                },
                (Phase::Barrier { next }, EventV::Completed) => if next + 1 < m.qp_list.len() {
                    (
                        SenderV { phase: Phase::Barrier { next: (next + 1) as usize }, ..m },
                        post_recv_action(m, (next + 1) as usize),
                    )
                } else {
                    (SenderV { phase: Phase::Ready, ..m }, ActionV::Done)
                },
                _ => spec_fail(m, HandshakeError::ProtocolViolation),
            },
        },
    }
}

/// The initiating peer's session: the handshake's working state and, once
/// negotiated, the ordered list of connected queue pairs.
pub struct Sender {
    num_qps: u32,
    family: Family,
    sender_metadata: MrMetadata,
    metadata_mr_addr: u64,
    metadata_mr_lkey: u32,
    metadata_mr_rkey: u32,
    /// Address of the responder's registered region, from its RegisterMemory.
    pub receiver_metadata_address: u64,
    /// Remote key of the responder's registered region, from its RegisterMemory.
    pub receiver_metadata_rkey: u32,
    /// Connected queue pairs, in the order they were negotiated.
    pub qp_list: Vec<ConnectedQp>,
    phase: Phase,
}

impl View for Sender {
    type V = SenderV;

    closed spec fn view(&self) -> SenderV {
        SenderV {
            num_qps: self.num_qps,
            family: self.family,
            sender_metadata: self.sender_metadata,
            metadata_mr_addr: self.metadata_mr_addr,
            metadata_mr_lkey: self.metadata_mr_lkey,
            metadata_mr_rkey: self.metadata_mr_rkey,
            receiver_metadata_address: self.receiver_metadata_address,
            receiver_metadata_rkey: self.receiver_metadata_rkey,
            qp_list: self.qp_list@,
            phase: self.phase,
        }
    }
}

impl Sender {
    /// A fresh session for `num_qps` queue pairs under `family`. The caller
    /// has already registered the local metadata memory region and passes
    /// its address, local key, and remote key.
    pub fn new(
        num_qps: u32,
        family: Family,
        metadata_mr_addr: u64,
        metadata_mr_lkey: u32,
        metadata_mr_rkey: u32,
    ) -> (s: Sender)
        ensures
            s@.num_qps == num_qps,
            s@.family == family,
            s@.sender_metadata == (MrMetadata { address: 0, rkey: 0, length: 0 }),
            s@.metadata_mr_addr == metadata_mr_addr,
            s@.metadata_mr_lkey == metadata_mr_lkey,
            s@.metadata_mr_rkey == metadata_mr_rkey,
            s@.receiver_metadata_address == 0,
            s@.receiver_metadata_rkey == 0,
            s@.qp_list == Seq::<ConnectedQp>::empty(),
            s@.phase == Phase::Idle,
            s@.wf(),
    {
        Sender {
            num_qps,
            family,
            sender_metadata: MrMetadata::default(),
            metadata_mr_addr,
            metadata_mr_lkey,
            metadata_mr_rkey,
            receiver_metadata_address: 0,
            receiver_metadata_rkey: 0,
            qp_list: Vec::new(),
            phase: Phase::Idle,
        }
    }

    pub fn set_metadata_address(&mut self, addr: u64)
        ensures
            final(self)@ == (SenderV {
                sender_metadata: MrMetadata { address: addr, ..old(self)@.sender_metadata },
                ..old(self)@
            }),
    {
        self.sender_metadata.address = addr;
    }

    pub fn set_metadata_rkey(&mut self, rkey: u32)
        ensures
            final(self)@ == (SenderV {
                sender_metadata: MrMetadata { rkey, ..old(self)@.sender_metadata },
                ..old(self)@
            }),
    {
        self.sender_metadata.rkey = rkey;
    }

    pub fn set_metadata_length(&mut self, length: u64)
        ensures
            final(self)@ == (SenderV {
                sender_metadata: MrMetadata { length, ..old(self)@.sender_metadata },
                ..old(self)@
            }),
    {
        self.sender_metadata.length = length;
    }

    /// Address of the local metadata memory region.
    pub fn metadata_addr(&self) -> (r: u64)
        ensures
            r == self@.metadata_mr_addr,
    {
        self.metadata_mr_addr
    }

    /// Local key of the local metadata memory region.
    pub fn metadata_lkey(&self) -> (r: u32)
        ensures
            r == self@.metadata_mr_lkey,
    {
        self.metadata_mr_lkey
    }

    /// The local metadata values set so far.
    pub fn metadata(&self) -> (r: MrMetadata)
        ensures
            r == self@.sender_metadata,
    {
        self.sender_metadata
    }

    /// How many queue pairs the session was asked for.
    pub fn requested_qps(&self) -> (n: u32)
        ensures
            n == self@.num_qps,
    {
        self.num_qps
    }

    /// How many queue pairs were actually connected; less than the
    /// requested count when indices were unresolvable and skipped.
    pub fn connected_qps(&self) -> (n: usize)
        ensures
            n == self@.qp_list.len(),
    {
        self.qp_list.len()
    }

    /// Where the handshake stands.
    pub fn phase(&self) -> (p: Phase)
        ensures
            p == self@.phase,
    {
        self.phase
    }

    /// Runtime image of the state invariant, for callers outside verified
    /// code to check before driving the machine.
    pub fn well_formed(&self) -> (b: bool)
        ensures
            b == self@.wf(),
    {
        match self.phase {
            Phase::AwaitResolve { index } => index < self.num_qps,
            Phase::AwaitQpReady { index, .. } => index < self.num_qps,
            Phase::SentInit { index, .. } => index < self.num_qps,
            Phase::AwaitRemoteQp { index, .. } => index < self.num_qps,
            Phase::AwaitLocalQp { index, .. } => index < self.num_qps,
            Phase::SentLocalQp { index } => index < self.num_qps,
            Phase::Barrier { next } => next < self.qp_list.len(),
            _ => true,
        }
    }

    /// Leave `index` behind: request resolution of the next index, or hand
    /// out the termination signal after the last one.
    fn advance(&mut self, index: u32) -> (a: Action)
        requires
            index < old(self)@.num_qps,
        ensures
            final(self)@ == spec_advance(old(self)@, index).0,
            a@ == spec_advance(old(self)@, index).1,
    {
        if index + 1 < self.num_qps {
            self.phase = Phase::AwaitResolve { index: index + 1 };
            Action::Resolve { index: index + 1, family: self.family }
        } else {
            self.phase = Phase::SentStop;
            Action::Send(encode(&ControlMessage::Stop))
        }
    }

    /// The barrier's receive work request for the queue pair at `slot`.
    fn post_recv(&self, slot: usize) -> (a: Action)
        ensures
            a@ == post_recv_action(self@, slot),
    {
        Action::PostRecv {
            slot,
            addr: self.metadata_mr_addr,
            length: MR_METADATA_SIZE as u32,
            lkey: self.metadata_mr_lkey,
        }
    }

    /// Advances the handshake by one transition, exactly as `step_of`
    /// prescribes: consumes the outcome of the caller's latest outside
    /// operation and returns the next action to perform. Driving it from
    /// `Start` until `Done` or `Fail` performs the whole session:
    /// metadata exchange, the per-index negotiation loop in strictly
    /// increasing index order with unresolvable indices skipped, the
    /// termination signal, and the in-order readiness barrier.
    pub fn connect(&mut self, event: Event) -> (a: Action)
        requires
            old(self)@.wf(),
        ensures
            final(self)@ == step_of(old(self)@, event@).0,
            a@ == step_of(old(self)@, event@).1,
            final(self)@.wf(),
    {
        match self.phase {
            Phase::Ready => Action::Done,
            Phase::Failed(err) => Action::Fail(err),
            _ => {
                if let Event::Failed(err) = event {
                    self.phase = Phase::Failed(err);
                    return Action::Fail(err);
                }
                match (self.phase, event) {
                    (Phase::Idle, Event::Start) => {
                        let msg = ControlMessage::RegisterMemory(
                            MrMetadata {
                                address: self.metadata_mr_addr,
                                rkey: self.metadata_mr_rkey,
                                length: 0,
                            },
                        );
                        self.phase = Phase::SentRegister;
                        Action::Send(encode(&msg))
                    },
                    (Phase::SentRegister, Event::Sent) => {
                        self.phase = Phase::AwaitRegister;
                        Action::Receive
                    },
                    (Phase::AwaitRegister, Event::Received(b)) => {
                        match decode(b.as_slice()) {
                            Ok(ControlMessage::RegisterMemory(md)) => {
                                self.receiver_metadata_address = md.address;
                                self.receiver_metadata_rkey = md.rkey;
                                if self.num_qps == 0 {
                                    self.phase = Phase::SentStop;
                                    Action::Send(encode(&ControlMessage::Stop))
                                } else {
                                    self.phase = Phase::AwaitResolve { index: 0 };
                                    Action::Resolve { index: 0, family: self.family }
                                }
                            },
                            _ => {
                                self.phase = Phase::Failed(HandshakeError::ProtocolViolation);
                                Action::Fail(HandshakeError::ProtocolViolation)
                            },
                        }
                    },
                    (Phase::AwaitResolve { index }, Event::Resolution(r)) => {
                        match r {
                            Some(port) => {
                                self.phase = Phase::AwaitQpReady { index, port };
                                Action::CreateQp { gidx: port.gidx, port: port.port }
                            },
                            None => self.advance(index),
                        }
                    },
                    (Phase::AwaitQpReady { index, port }, Event::QpReady) => {
                        self.phase = Phase::SentInit { index, port };
                        Action::Send(encode(&ControlMessage::InitQueuePair(index, self.family)))
                    },
                    (Phase::SentInit { index, port }, Event::Sent) => {
                        self.phase = Phase::AwaitRemoteQp { index, port };
                        Action::Receive
                    },
                    (Phase::AwaitRemoteQp { index, port }, Event::Received(b)) => {
                        match decode(b.as_slice()) {
                            Ok(ControlMessage::ConnectQueuePair(remote)) => {
                                self.phase = Phase::AwaitLocalQp { index, port };
                                Action::ConnectQp(remote)
                            },
                            _ => {
                                self.phase = Phase::Failed(HandshakeError::ProtocolViolation);
                                Action::Fail(HandshakeError::ProtocolViolation)
                            },
                        }
                    },
                    (Phase::AwaitLocalQp { index, port }, Event::QpConnected { qpn, psn }) => {
                        self.qp_list.push(ConnectedQp { index, qpn, psn });
                        self.phase = Phase::SentLocalQp { index };
                        Action::Send(
                            encode(
                                &ControlMessage::ConnectQueuePair(
                                    QpMetadata {
                                        subnet_id: port.subnet_id,
                                        interface_id: port.interface_id,
                                        qpn,
                                        psn,
                                    },
                                ),
                            ),
                        )
                    },
                    (Phase::SentLocalQp { index }, Event::Sent) => self.advance(index),
                    (Phase::SentStop, Event::Sent) => {
                        if self.qp_list.len() == 0 {
                            self.phase = Phase::Ready;
                            Action::Done
                        } else {
                            self.phase = Phase::Barrier { next: 0 };
                            self.post_recv(0)
                        }
                    },
                    (Phase::Barrier { next }, Event::Completed) => {
                        let len = self.qp_list.len();
                        proof {
                            assert(next < len);
                        }
                        if next + 1 < len {
                            self.phase = Phase::Barrier { next: next + 1 };
                            self.post_recv(next + 1)
                        } else {
                            self.phase = Phase::Ready;
                            Action::Done
                        }
                    },
                    _ => {
                        self.phase = Phase::Failed(HandshakeError::ProtocolViolation);
                        Action::Fail(HandshakeError::ProtocolViolation)
                    },
                }
            },
        }
    }
}

} // verus!
