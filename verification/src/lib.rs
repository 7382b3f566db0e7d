//! Initiator-side bootstrap of an RDMA data path over an out-of-band control
//! connection: a fixed-width tagged wire codec for the control messages, and
//! the handshake state machine that sequences the metadata exchange, the
//! per-queue-pair negotiation loop, the termination signal, and the final
//! readiness barrier. All I/O and native verbs calls are performed by the
//! caller, which drives the state machine one event at a time.

pub mod codec;
pub mod sender;
pub mod target;
pub mod trace;
