//! Laws of whole handshake runs. A run folds `step_of` over a sequence of
//! outside outcomes; the lemmas here pin down the exact message sequence a
//! session writes, which queue pairs it ends up with and in what order,
//! that the termination signal comes only after the last index, and that
//! an aborted session writes nothing further.

use crate::codec::{
    lemma_encode_decode, lemma_encode_injective, spec_decode, spec_encode, ControlMessage, Family,
    MrMetadata, QpMetadata,
};
use crate::sender::{
    post_recv_action, register_message, spec_advance, spec_fail, step_of, ActionV, ConnectedQp,
    EventV, HandshakeError, Phase, ResolvedPort, SenderV,
};
use vstd::prelude::*;

verus! {

/// The state after consuming `es` from `m`, one transition per event.
pub open spec fn run_state(m: SenderV, es: Seq<EventV>) -> SenderV
    decreases es.len(),
{
    if es.len() == 0 {
        m
    } else {
        run_state(step_of(m, es[0]).0, es.drop_first())
    }
}

/// The actions emitted while consuming `es` from `m`, in order.
pub open spec fn run_actions(m: SenderV, es: Seq<EventV>) -> Seq<ActionV>
    decreases es.len(),
{
    if es.len() == 0 {
        Seq::empty()
    } else {
        seq![step_of(m, es[0]).1] + run_actions(step_of(m, es[0]).0, es.drop_first())
    }
}

/// The control-connection writes among `acts`: their payloads, in order.
pub open spec fn sends_of(acts: Seq<ActionV>) -> Seq<Seq<u8>>
    decreases acts.len(),
{
    if acts.len() == 0 {
        Seq::empty()
    } else {
        (match acts[0] {
            ActionV::Send(b) => seq![b],
            _ => Seq::empty(),
        }) + sends_of(acts.drop_first())
    }
}

/// Runs decompose over concatenation of event sequences.
pub proof fn lemma_run_append(m: SenderV, a: Seq<EventV>, b: Seq<EventV>)
    ensures
        run_state(m, a + b) == run_state(run_state(m, a), b),
        run_actions(m, a + b) == run_actions(m, a) + run_actions(run_state(m, a), b),
    decreases a.len(),
{
    if a.len() == 0 {
        assert(a + b =~= b);
        assert(run_actions(m, a) + run_actions(run_state(m, a), b) =~= run_actions(m, b));
    } else {
        let m1 = step_of(m, a[0]).0;
        assert((a + b)[0] == a[0]);
        assert((a + b).drop_first() =~= a.drop_first() + b);
        lemma_run_append(m1, a.drop_first(), b);
        assert(run_actions(m, a + b) =~= run_actions(m, a) + run_actions(run_state(m, a), b));
    }
}

/// Send payloads decompose over concatenation of action sequences.
pub proof fn lemma_sends_append(a: Seq<ActionV>, b: Seq<ActionV>)
    ensures
        sends_of(a + b) == sends_of(a) + sends_of(b),
    decreases a.len(),
{
    if a.len() == 0 {
        assert(a + b =~= b);
        assert(sends_of(a) + sends_of(b) =~= sends_of(b));
    } else {
        assert((a + b)[0] == a[0]);
        assert((a + b).drop_first() =~= a.drop_first() + b);
        lemma_sends_append(a.drop_first(), b);
        assert(sends_of(a + b) =~= sends_of(a) + sends_of(b));
    }
}

/// A received message that does not decode, or decodes to a variant the
/// current state does not expect, aborts with a protocol violation.
pub proof fn lemma_bad_message_aborts(m: SenderV, b: Seq<u8>)
    requires
        m.phase is AwaitRegister || m.phase is AwaitRemoteQp,
        spec_decode(b) is Err,
    ensures
        step_of(m, EventV::Received(b)) == spec_fail(m, HandshakeError::ProtocolViolation),
{
}

/// An aborted session is absorbing: its state never changes again and in
/// particular no further message is ever handed out for writing.
pub proof fn lemma_failed_is_absorbing(m: SenderV, es: Seq<EventV>)
    requires
        m.phase is Failed,
    ensures
        run_state(m, es) == m,
        sends_of(run_actions(m, es)) == Seq::<Seq<u8>>::empty(),
    decreases es.len(),
{
    if es.len() > 0 {
        assert(step_of(m, es[0]).0 == m);
        lemma_failed_is_absorbing(m, es.drop_first());
        let acts = run_actions(m, es);
        assert(acts.drop_first() =~= run_actions(m, es.drop_first()));
        assert(sends_of(acts) =~= Seq::<Seq<u8>>::empty());
    }
}

/// What the outside world answers while one index is negotiated: the
/// resolver's verdict and, if the index resolves, the responder's
/// queue-pair identity and the local queue pair's numbers.
#[derive(Clone, Copy, Debug)]
pub struct IndexOutcome {
    /// The resolver's answer for the index.
    pub resolution: Option<ResolvedPort>,
    /// The responder's queue-pair identity, received while negotiating.
    pub remote: QpMetadata,
    /// The local queue pair's number once connected.
    pub qpn: u32,
    /// Its initial packet sequence number.
    pub psn: u32,
}

/// The initiator's half of the queue-pair identity built from the resolved
/// port and the connected local queue pair.
pub open spec fn local_half(port: ResolvedPort, o: IndexOutcome) -> QpMetadata {
    QpMetadata {
        subnet_id: port.subnet_id,
        interface_id: port.interface_id,
        qpn: o.qpn,
        psn: o.psn,
    }
}

/// The events one index contributes to a run: a lone negative resolution,
/// or the full exchange for a resolvable index.
pub open spec fn index_events(o: IndexOutcome) -> Seq<EventV> {
    match o.resolution {
        None => seq![EventV::Resolution(None)],
        Some(_) => seq![
            EventV::Resolution(o.resolution),
            EventV::QpReady,
            EventV::Sent,
            EventV::Received(spec_encode(ControlMessage::ConnectQueuePair(o.remote))),
            EventV::QpConnected { qpn: o.qpn, psn: o.psn },
            EventV::Sent,
        ],
    }
}

/// The messages one index contributes to the wire: none when skipped, the
/// init message and the initiator's identity when negotiated.
pub open spec fn index_sends(i: u32, f: Family, o: IndexOutcome) -> Seq<Seq<u8>> {
    match o.resolution {
        None => Seq::empty(),
        Some(port) => seq![
            spec_encode(ControlMessage::InitQueuePair(i, f)),
            spec_encode(ControlMessage::ConnectQueuePair(local_half(port, o))),
        ],
    }
}

/// The queue pairs one index contributes to the session's list.
pub open spec fn index_qps(i: u32, o: IndexOutcome) -> Seq<ConnectedQp> {
    match o.resolution {
        None => Seq::empty(),
        Some(_) => seq![ConnectedQp { index: i, qpn: o.qpn, psn: o.psn }],
    }
}

/// The events of the negotiation loop from index `i` to the end.
pub open spec fn loop_events(outcomes: Seq<IndexOutcome>, i: int) -> Seq<EventV>
    decreases outcomes.len() - i,
{
    if i < 0 || i >= outcomes.len() {
        Seq::empty()
    } else {
        index_events(outcomes[i]) + loop_events(outcomes, i + 1)
    }
}

/// The messages of the negotiation loop from index `i` to the end, in
/// strictly increasing index order.
pub open spec fn loop_sends(outcomes: Seq<IndexOutcome>, i: int, f: Family) -> Seq<Seq<u8>>
    decreases outcomes.len() - i,
{
    if i < 0 || i >= outcomes.len() {
        Seq::empty()
    } else {
        index_sends(i as u32, f, outcomes[i]) + loop_sends(outcomes, i + 1, f)
    }
}

/// The queue pairs the loop connects from index `i` on, in index order.
pub open spec fn loop_qps(outcomes: Seq<IndexOutcome>, i: int) -> Seq<ConnectedQp>
    decreases outcomes.len() - i,
{
    if i < 0 || i >= outcomes.len() {
        Seq::empty()
    } else {
        index_qps(i as u32, outcomes[i]) + loop_qps(outcomes, i + 1)
    }
}

/// How many of the indices from `i` on resolve.
pub open spec fn resolved_count(outcomes: Seq<IndexOutcome>, i: int) -> nat
    decreases outcomes.len() - i,
{
    if i < 0 || i >= outcomes.len() {
        0
    } else {
        (if outcomes[i].resolution is Some {
            1nat
        } else {
            0nat
        }) + resolved_count(outcomes, i + 1)
    }
}

/// Consuming the events of one resolvable index performs its full exchange:
/// the queue pair is appended, exactly its two messages go out (plus the
/// termination signal if it was the last index), and the machine moves on.
proof fn lemma_index_resolved(m: SenderV, i: u32, o: IndexOutcome)
    requires
        m.phase == (Phase::AwaitResolve { index: i }),
        i < m.num_qps,
        o.resolution is Some,
    ensures
        ({
            let fin = run_state(m, index_events(o));
            let acts = run_actions(m, index_events(o));
            let stepped = SenderV {
                qp_list: m.qp_list.push(ConnectedQp { index: i, qpn: o.qpn, psn: o.psn }),
                ..m
            };
            &&& fin == spec_advance(stepped, i).0
            &&& sends_of(acts) == index_sends(i, m.family, o) + (if i + 1 < m.num_qps {
                Seq::<Seq<u8>>::empty()
            } else {
                seq![spec_encode(ControlMessage::Stop)]
            })
        }),
{
    lemma_encode_decode(ControlMessage::ConnectQueuePair(o.remote));
    let es = index_events(o);
    let port = o.resolution->0;
    reveal_with_fuel(run_state, 8);
    reveal_with_fuel(run_actions, 8);
    reveal_with_fuel(sends_of, 8);
    let stepped = SenderV {
        qp_list: m.qp_list.push(ConnectedQp { index: i, qpn: o.qpn, psn: o.psn }),
        ..m
    };
    let m1 = SenderV { phase: Phase::AwaitQpReady { index: i, port }, ..m };
    let m2 = SenderV { phase: Phase::SentInit { index: i, port }, ..m };
    let m3 = SenderV { phase: Phase::AwaitRemoteQp { index: i, port }, ..m };
    let m4 = SenderV { phase: Phase::AwaitLocalQp { index: i, port }, ..m };
    let m5 = SenderV { phase: Phase::SentLocalQp { index: i }, ..stepped };
    assert(step_of(m, es[0]).0 == m1);
    assert(step_of(m1, es[1]).0 == m2);
    assert(step_of(m2, es[2]).0 == m3);
    assert(step_of(m3, es[3]).0 == m4);
    assert(step_of(m4, es[4]).0 =~= m5);
    assert(step_of(m5, es[5]).0 =~= spec_advance(stepped, i).0);
    assert(es.drop_first() =~= es.subrange(1, 6));
    assert(run_state(m, es) =~= spec_advance(stepped, i).0);
    let acts = run_actions(m, es);
    assert(acts.len() == 6);
    assert(acts[0] == step_of(m, es[0]).1);
    assert(acts[1] == step_of(m1, es[1]).1);
    assert(acts[2] == step_of(m2, es[2]).1);
    assert(acts[3] == step_of(m3, es[3]).1);
    assert(acts[4] == step_of(m4, es[4]).1);
    assert(acts[5] == step_of(m5, es[5]).1);
    assert(acts[1] == ActionV::Send(spec_encode(ControlMessage::InitQueuePair(i, m.family))));
    assert(acts[4] == ActionV::Send(
        spec_encode(ControlMessage::ConnectQueuePair(local_half(port, o))),
    ));
    if i + 1 < m.num_qps {
        assert(sends_of(acts) =~= index_sends(i, m.family, o));
    } else {
        assert(acts[5] == ActionV::Send(spec_encode(ControlMessage::Stop)));
        assert(sends_of(acts) =~= index_sends(i, m.family, o) + seq![
            spec_encode(ControlMessage::Stop),
        ]);
    }
}

/// Consuming the lone event of an unresolvable index sends nothing for it
/// (bar the termination signal if it was the last index), creates no queue
/// pair, and moves on.
proof fn lemma_index_skipped(m: SenderV, i: u32, o: IndexOutcome)
    requires
        m.phase == (Phase::AwaitResolve { index: i }),
        i < m.num_qps,
        o.resolution is None,
    ensures
        ({
            let fin = run_state(m, index_events(o));
            &&& fin == spec_advance(m, i).0
            &&& sends_of(run_actions(m, index_events(o))) == (if i + 1 < m.num_qps {
                Seq::<Seq<u8>>::empty()
            } else {
                seq![spec_encode(ControlMessage::Stop)]
            })
        }),
{
    let es = index_events(o);
    reveal_with_fuel(run_state, 3);
    reveal_with_fuel(run_actions, 3);
    reveal_with_fuel(sends_of, 3);
    assert(run_state(m, es) == spec_advance(m, i).0);
    let acts = run_actions(m, es);
    assert(acts.len() == 1);
    assert(acts[0] == spec_advance(m, i).1);
    if i + 1 < m.num_qps {
        assert(sends_of(acts) =~= Seq::<Seq<u8>>::empty());
    } else {
        assert(sends_of(acts) =~= seq![spec_encode(ControlMessage::Stop)]);
    }
}

/// The negotiation loop from index `i`: every remaining resolvable index is
/// negotiated in increasing order and appended in that order, unresolvable
/// indices contribute nothing, and the termination signal goes out last.
pub proof fn lemma_loop(m: SenderV, outcomes: Seq<IndexOutcome>, i: int)
    requires
        outcomes.len() == m.num_qps,
        0 <= i < m.num_qps,
        m.phase == (Phase::AwaitResolve { index: i as u32 }),
    ensures
        ({
            let fin = run_state(m, loop_events(outcomes, i));
            &&& fin == (SenderV {
                phase: Phase::SentStop,
                qp_list: m.qp_list + loop_qps(outcomes, i),
                ..m
            })
            &&& sends_of(run_actions(m, loop_events(outcomes, i))) == loop_sends(
                outcomes,
                i,
                m.family,
            ) + seq![spec_encode(ControlMessage::Stop)]
        }),
    decreases m.num_qps - i,
{
    let o = outcomes[i];
    let es_i = index_events(o);
    let rest = loop_events(outcomes, i + 1);
    let es = loop_events(outcomes, i);
    assert(es == es_i + rest);
    lemma_run_append(m, es_i, rest);
    let m_mid = run_state(m, es_i);
    let acts_i = run_actions(m, es_i);
    let acts_rest = run_actions(m_mid, rest);
    lemma_sends_append(acts_i, acts_rest);
    let stop = seq![spec_encode(ControlMessage::Stop)];
    if o.resolution is Some {
        lemma_index_resolved(m, i as u32, o);
    } else {
        lemma_index_skipped(m, i as u32, o);
    }
    if i + 1 < m.num_qps {
        lemma_loop(m_mid, outcomes, i + 1);
        assert(m.qp_list + loop_qps(outcomes, i) =~= m_mid.qp_list + loop_qps(outcomes, i + 1));
        assert(run_state(m, es) =~= (SenderV {
            phase: Phase::SentStop,
            qp_list: m.qp_list + loop_qps(outcomes, i),
            ..m
        }));
        assert(sends_of(acts_i) =~= index_sends(i as u32, m.family, o));
        assert(index_sends(i as u32, m.family, o) + (loop_sends(outcomes, i + 1, m.family) + stop)
            =~= loop_sends(outcomes, i, m.family) + stop);
    } else {
        assert(rest =~= Seq::<EventV>::empty());
        assert(run_actions(m_mid, rest) =~= Seq::<ActionV>::empty());
        assert(run_state(m, es) == m_mid);
        assert(loop_qps(outcomes, i + 1) =~= Seq::<ConnectedQp>::empty());
        assert(loop_sends(outcomes, i + 1, m.family) =~= Seq::<Seq<u8>>::empty());
        assert(run_state(m, es) =~= (SenderV {
            phase: Phase::SentStop,
            qp_list: m.qp_list + loop_qps(outcomes, i),
            ..m
        }));
        assert(index_sends(i as u32, m.family, o) + stop =~= loop_sends(outcomes, i, m.family)
            + stop);
        assert(sends_of(run_actions(m, es)) =~= loop_sends(outcomes, i, m.family) + stop);
    }
}

/// `n` completion events, one per connected queue pair.
pub open spec fn completed_events(n: nat) -> Seq<EventV> {
    Seq::new(n, |j: int| EventV::Completed)
}

/// A send list with no element is the empty one.
proof fn lemma_no_sends(s: Seq<Seq<u8>>)
    requires
        s.len() == 0,
    ensures
        s == Seq::<Seq<u8>>::empty(),
{
    assert(s =~= Seq::<Seq<u8>>::empty());
}

/// The readiness barrier: one completion event per remaining queue pair,
/// awaited strictly in connection order, sends nothing, and ends `Ready`.
pub proof fn lemma_barrier(m: SenderV, k: usize)
    requires
        m.phase == (Phase::Barrier { next: k }),
        k < m.qp_list.len(),
        m.qp_list.len() <= usize::MAX,
    ensures
        ({
            let es = completed_events((m.qp_list.len() - k) as nat);
            &&& run_state(m, es) == (SenderV { phase: Phase::Ready, ..m })
            &&& sends_of(run_actions(m, es)) == Seq::<Seq<u8>>::empty()
        }),
    decreases m.qp_list.len() - k,
{
    let es = completed_events((m.qp_list.len() - k) as nat);
    assert(es[0] == EventV::Completed);
    let m1 = step_of(m, EventV::Completed).0;
    assert(es.drop_first() =~= completed_events((m.qp_list.len() - (k + 1)) as nat));
    if k + 1 < m.qp_list.len() {
        assert(m1 == (SenderV { phase: Phase::Barrier { next: (k + 1) as usize }, ..m }));
        lemma_barrier(m1, (k + 1) as usize);
        assert(run_state(m, es) == (SenderV { phase: Phase::Ready, ..m }));
        let acts = run_actions(m, es);
        assert(acts.drop_first() =~= run_actions(m1, es.drop_first()));
        assert(acts[0] == post_recv_action(m, (k + 1) as usize));
        assert(run_actions(m1, es.drop_first()) == run_actions(
            m1,
            completed_events((m1.qp_list.len() - (k + 1)) as nat),
        ));
        assert(sends_of(acts.drop_first()) == Seq::<Seq<u8>>::empty());
        reveal_with_fuel(sends_of, 2);
        assert(acts.len() > 0);
        assert(sends_of(acts) == (match acts[0] {
            ActionV::Send(b) => seq![b],
            _ => Seq::<Seq<u8>>::empty(),
        }) + sends_of(acts.drop_first()));
        assert(sends_of(acts).len() == 0);
        lemma_no_sends(sends_of(acts));
    } else {
        assert(m1 == (SenderV { phase: Phase::Ready, ..m }));
        assert(es.len() == 1);
        assert(run_state(m1, es.drop_first()) == m1);
        let acts = run_actions(m, es);
        assert(acts.drop_first() =~= run_actions(m1, es.drop_first()));
        assert(sends_of(acts.drop_first()).len() == 0);
        reveal_with_fuel(sends_of, 2);
        assert(sends_of(acts) == (match acts[0] {
            ActionV::Send(b) => seq![b],
            _ => Seq::<Seq<u8>>::empty(),
        }) + sends_of(acts.drop_first()));
        assert(sends_of(acts).len() == 0);
        lemma_no_sends(sends_of(acts));
    }
}

/// The connected list never outgrows the indices the loop visits.
pub proof fn lemma_loop_qps_len(outcomes: Seq<IndexOutcome>, i: int)
    requires
        0 <= i,
    ensures
        loop_qps(outcomes, i).len() <= outcomes.len() - i || loop_qps(outcomes, i).len() == 0,
    decreases outcomes.len() - i,
{
    if i < outcomes.len() {
        lemma_loop_qps_len(outcomes, i + 1);
    }
}

/// The events of one whole successful session: open, exchange metadata,
/// run the negotiation loop, acknowledge the termination write, then one
/// completion per connected queue pair.
pub open spec fn handshake_events(remote_meta: MrMetadata, outcomes: Seq<IndexOutcome>) -> Seq<
    EventV,
> {
    seq![
        EventV::Start,
        EventV::Sent,
        EventV::Received(spec_encode(ControlMessage::RegisterMemory(remote_meta))),
    ] + loop_events(outcomes, 0) + seq![EventV::Sent] + completed_events(
        loop_qps(outcomes, 0).len(),
    )
}

/// Everything such a session writes, in order: its own memory-region
/// metadata first, the per-index exchanges in strictly increasing index
/// order, and the termination signal last.
pub open spec fn handshake_sends(m: SenderV, outcomes: Seq<IndexOutcome>) -> Seq<Seq<u8>> {
    seq![spec_encode(register_message(m))] + loop_sends(outcomes, 0, m.family) + seq![
        spec_encode(ControlMessage::Stop),
    ]
}

/// The whole-session theorem: a fresh session driven by these outside
/// outcomes writes exactly `handshake_sends` — its own metadata first, the
/// resolvable indices' exchanges in increasing order, the termination
/// signal last and only once — stores the responder's metadata literally,
/// connects exactly the resolvable indices in order, and ends `Ready`.
#[verifier::rlimit(100)]
#[verifier::spinoff_prover]
pub proof fn lemma_handshake_trace(
    m: SenderV,
    remote_meta: MrMetadata,
    outcomes: Seq<IndexOutcome>,
)
    requires
        m.phase == Phase::Idle,
        m.qp_list == Seq::<ConnectedQp>::empty(),
        outcomes.len() == m.num_qps,
    ensures
        ({
            let fin = run_state(m, handshake_events(remote_meta, outcomes));
            &&& fin.phase == Phase::Ready
            &&& fin.qp_list == loop_qps(outcomes, 0)
            &&& fin.receiver_metadata_address == remote_meta.address
            &&& fin.receiver_metadata_rkey == remote_meta.rkey
            &&& fin.num_qps == m.num_qps
            &&& fin.family == m.family
            &&& sends_of(run_actions(m, handshake_events(remote_meta, outcomes)))
                == handshake_sends(m, outcomes)
        }),
{
    lemma_encode_decode(ControlMessage::RegisterMemory(remote_meta));
    let pre = seq![
        EventV::Start,
        EventV::Sent,
        EventV::Received(spec_encode(ControlMessage::RegisterMemory(remote_meta))),
    ];
    let le = loop_events(outcomes, 0);
    let post = seq![EventV::Sent];
    let bar = completed_events(loop_qps(outcomes, 0).len());
    let es = handshake_events(remote_meta, outcomes);
    assert(es == pre + le + post + bar);
    reveal_with_fuel(run_state, 5);
    reveal_with_fuel(run_actions, 5);
    reveal_with_fuel(sends_of, 5);
    let m1 = SenderV { phase: Phase::SentRegister, ..m };
    let m2 = SenderV { phase: Phase::AwaitRegister, ..m };
    let m3e = SenderV {
        receiver_metadata_address: remote_meta.address,
        receiver_metadata_rkey: remote_meta.rkey,
        ..m
    };
    assert(step_of(m, pre[0]).0 == m1);
    assert(step_of(m1, pre[1]).0 == m2);
    assert(pre.drop_first() =~= pre.subrange(1, 3));
    let m3 = run_state(m, pre);
    let acts_pre = run_actions(m, pre);
    assert(acts_pre.len() == 3);
    assert(acts_pre[0] == ActionV::Send(spec_encode(register_message(m))));
    let stop = seq![spec_encode(ControlMessage::Stop)];
    lemma_run_append(m, pre + le + post, bar);
    lemma_run_append(m, pre + le, post);
    lemma_run_append(m, pre, le);
    assert((pre + le) + post + bar == es);
    lemma_loop_qps_len(outcomes, 0);
    if m.num_qps == 0 {
        assert(m3 == (SenderV { phase: Phase::SentStop, ..m3e }));
        assert(acts_pre[2] == ActionV::Send(spec_encode(ControlMessage::Stop)));
        assert(le =~= Seq::<EventV>::empty());
        assert(loop_qps(outcomes, 0) =~= Seq::<ConnectedQp>::empty());
        assert(loop_sends(outcomes, 0, m.family) =~= Seq::<Seq<u8>>::empty());
        let m4 = run_state(m3, post);
        assert(m4 == (SenderV { phase: Phase::Ready, ..m3e }));
        assert(bar =~= Seq::<EventV>::empty());
        let fin = run_state(m, es);
        assert(fin == m4);
        let acts = run_actions(m, es);
        assert(run_actions(m3, le) =~= Seq::<ActionV>::empty());
        lemma_sends_append(acts_pre, run_actions(m3, post + bar));
        lemma_run_append(m3, post, bar);
        lemma_sends_append(run_actions(m3, post), run_actions(m4, bar));
        assert(run_actions(m4, bar) =~= Seq::<ActionV>::empty());
        assert(acts =~= acts_pre + run_actions(m3, post + bar));
        assert(sends_of(acts_pre) =~= seq![
            spec_encode(register_message(m)),
            spec_encode(ControlMessage::Stop),
        ]);
        assert(sends_of(run_actions(m3, post)) =~= Seq::<Seq<u8>>::empty());
        assert(sends_of(run_actions(m, es)) =~= handshake_sends(m, outcomes));
    } else {
        assert(m3 == (SenderV { phase: Phase::AwaitResolve { index: 0 }, ..m3e }));
        assert(sends_of(acts_pre) =~= seq![spec_encode(register_message(m))]);
        lemma_loop(m3, outcomes, 0);
        let m4 = run_state(m3, le);
        assert(m4.qp_list =~= loop_qps(outcomes, 0));
        assert(m4 == (SenderV { phase: Phase::SentStop, qp_list: loop_qps(outcomes, 0), ..m3e }));
        let m5 = run_state(m4, post);
        let fin = run_state(m, es);
        lemma_run_append(m4, post, bar);
        assert(run_state(m, (pre + le) + post) == m5);
        if loop_qps(outcomes, 0).len() == 0 {
            assert(m5 == (SenderV { phase: Phase::Ready, ..m4 }));
            assert(bar =~= Seq::<EventV>::empty());
            assert(fin == m5);
        } else {
            assert(m5 == (SenderV { phase: Phase::Barrier { next: 0 }, ..m4 }));
            assert(m5.qp_list.len() <= m.num_qps <= u32::MAX <= usize::MAX);
            lemma_barrier(m5, 0);
            assert(completed_events((m5.qp_list.len() - 0) as nat) =~= bar);
            assert(fin == (SenderV { phase: Phase::Ready, ..m5 }));
        }
        assert(fin.phase == Phase::Ready);
        assert(fin.qp_list == loop_qps(outcomes, 0));
        let acts_le = run_actions(m3, le);
        let acts_post = run_actions(m4, post);
        let acts_bar = run_actions(m5, bar);
        assert(run_actions(m, es) =~= acts_pre + acts_le + acts_post + acts_bar);
        lemma_sends_append(acts_pre + acts_le + acts_post, acts_bar);
        lemma_sends_append(acts_pre + acts_le, acts_post);
        lemma_sends_append(acts_pre, acts_le);
        assert(sends_of(acts_post) =~= Seq::<Seq<u8>>::empty());
        if loop_qps(outcomes, 0).len() == 0 {
            assert(acts_bar =~= Seq::<ActionV>::empty());
            assert(sends_of(acts_bar) =~= Seq::<Seq<u8>>::empty());
        } else {
            assert(sends_of(acts_bar) == Seq::<Seq<u8>>::empty());
        }
        assert(sends_of(run_actions(m, es)) =~= handshake_sends(m, outcomes));
    }
}

/// Queue pairs the loop yields come only from resolvable indices at or
/// beyond the loop's start, carry those indices' numbers, and appear in
/// strictly increasing index order; there is exactly one per resolvable
/// index.
pub proof fn lemma_loop_qps_shape(outcomes: Seq<IndexOutcome>, i: int)
    requires
        0 <= i,
        outcomes.len() <= u32::MAX,
    ensures
        loop_qps(outcomes, i).len() == resolved_count(outcomes, i),
        forall|j: int|
            0 <= j < loop_qps(outcomes, i).len() ==> {
                let q = #[trigger] loop_qps(outcomes, i)[j];
                &&& i <= q.index < outcomes.len()
                &&& outcomes[q.index as int].resolution is Some
                &&& q.qpn == outcomes[q.index as int].qpn
                &&& q.psn == outcomes[q.index as int].psn
            },
        forall|j1: int, j2: int|
            0 <= j1 < j2 < loop_qps(outcomes, i).len() ==> #[trigger] loop_qps(outcomes, i)[j1].index
                < #[trigger] loop_qps(outcomes, i)[j2].index,
    decreases outcomes.len() - i,
{
    if i < outcomes.len() {
        lemma_loop_qps_shape(outcomes, i + 1);
        let s = loop_qps(outcomes, i);
        let rest = loop_qps(outcomes, i + 1);
        if outcomes[i].resolution is Some {
            assert(s == index_qps(i as u32, outcomes[i]) + rest);
            assert(s[0] == ConnectedQp {
                index: i as u32,
                qpn: outcomes[i].qpn,
                psn: outcomes[i].psn,
            });
            assert(forall|j: int| 1 <= j < s.len() ==> #[trigger] s[j] == rest[j - 1]);
        } else {
            assert(s =~= rest);
            assert(forall|j: int| 0 <= j < s.len() ==> #[trigger] s[j] == rest[j]);
        }
    }
}

/// With every index from `i` on resolvable, the loop connects exactly one
/// queue pair per index, in index order, with that index's numbers.
pub proof fn lemma_all_resolved_qps(outcomes: Seq<IndexOutcome>, i: int)
    requires
        0 <= i <= outcomes.len(),
        outcomes.len() <= u32::MAX,
        forall|j: int| i <= j < outcomes.len() ==> (#[trigger] outcomes[j].resolution) is Some,
    ensures
        loop_qps(outcomes, i) == Seq::new(
            (outcomes.len() - i) as nat,
            |j: int|
                ConnectedQp {
                    index: (i + j) as u32,
                    qpn: outcomes[i + j].qpn,
                    psn: outcomes[i + j].psn,
                },
        ),
    decreases outcomes.len() - i,
{
    let expect = Seq::new(
        (outcomes.len() - i) as nat,
        |j: int|
            ConnectedQp {
                index: (i + j) as u32,
                qpn: outcomes[i + j].qpn,
                psn: outcomes[i + j].psn,
            },
    );
    if i == outcomes.len() {
        assert(loop_qps(outcomes, i) =~= expect);
    } else {
        lemma_all_resolved_qps(outcomes, i + 1);
        let s = loop_qps(outcomes, i);
        let rest = loop_qps(outcomes, i + 1);
        assert(s == index_qps(i as u32, outcomes[i]) + rest);
        assert forall|j: int| 0 <= j < s.len() implies s[j] == expect[j] by {
            if j > 0 {
                assert(s[j] == rest[j - 1]);
            }
        }
        assert(s =~= expect);
    }
}

/// With exactly one unresolvable index, the loop connects exactly one
/// queue pair fewer than it visits indices.
pub proof fn lemma_skip_count(outcomes: Seq<IndexOutcome>, i: int, k: int)
    requires
        0 <= i <= outcomes.len(),
        0 <= k < outcomes.len(),
        outcomes[k].resolution is None,
        forall|j: int|
            0 <= j < outcomes.len() && j != k ==> (#[trigger] outcomes[j].resolution) is Some,
    ensures
        resolved_count(outcomes, i) == if i <= k {
            outcomes.len() - i - 1
        } else {
            outcomes.len() - i
        },
    decreases outcomes.len() - i,
{
    if i < outcomes.len() {
        lemma_skip_count(outcomes, i + 1, k);
    }
}

/// No init message naming an unresolvable index is ever among the loop's
/// sends, whatever family it would claim. (The identity messages name no
/// index at all, so the connected list's indices — see
/// `lemma_loop_qps_shape` — are the only other place an index appears.)
pub proof fn lemma_no_init_for_unresolved(
    outcomes: Seq<IndexOutcome>,
    i: int,
    f: Family,
    k: u32,
    fam: Family,
)
    requires
        0 <= i,
        outcomes.len() <= u32::MAX,
        k < outcomes.len(),
        outcomes[k as int].resolution is None,
    ensures
        forall|j: int|
            0 <= j < loop_sends(outcomes, i, f).len() ==> #[trigger] loop_sends(outcomes, i, f)[j]
                != spec_encode(ControlMessage::InitQueuePair(k, fam)),
    decreases outcomes.len() - i,
{
    if 0 <= i < outcomes.len() {
        lemma_no_init_for_unresolved(outcomes, i + 1, f, k, fam);
        let s = loop_sends(outcomes, i, f);
        let rest = loop_sends(outcomes, i + 1, f);
        if outcomes[i].resolution is Some {
            let port = outcomes[i].resolution->0;
            lemma_encode_injective(
                ControlMessage::InitQueuePair(i as u32, f),
                ControlMessage::InitQueuePair(k, fam),
            );
            lemma_encode_injective(
                ControlMessage::ConnectQueuePair(local_half(port, outcomes[i])),
                ControlMessage::InitQueuePair(k, fam),
            );
            assert forall|j: int|
                0 <= j < s.len() implies #[trigger] s[j] != spec_encode(
                ControlMessage::InitQueuePair(k, fam),
            ) by {
                if j >= 2 {
                    assert(s[j] == rest[j - 2]);
                }
            }
        } else {
            assert(s =~= rest);
            assert(forall|j: int| 0 <= j < s.len() ==> #[trigger] s[j] == rest[j]);
        }
    }
}

/// Full negotiation: with every index resolvable, a fresh session writes
/// exactly its RegisterMemory, then for each index in increasing order
/// that index's InitQueuePair and ConnectQueuePair, then one Stop; and it
/// ends `Ready` with exactly one queue pair per requested index, in index
/// order, carrying that index's numbers.
pub proof fn lemma_full_negotiation(
    m: SenderV,
    remote_meta: MrMetadata,
    outcomes: Seq<IndexOutcome>,
)
    requires
        m.phase == Phase::Idle,
        m.qp_list == Seq::<ConnectedQp>::empty(),
        outcomes.len() == m.num_qps,
        forall|j: int| 0 <= j < outcomes.len() ==> (#[trigger] outcomes[j].resolution) is Some,
    ensures
        ({
            let fin = run_state(m, handshake_events(remote_meta, outcomes));
            &&& fin.phase == Phase::Ready
            &&& fin.qp_list == Seq::new(
                outcomes.len(),
                |j: int|
                    ConnectedQp {
                        index: j as u32,
                        qpn: outcomes[j].qpn,
                        psn: outcomes[j].psn,
                    },
            )
            &&& sends_of(run_actions(m, handshake_events(remote_meta, outcomes)))
                == handshake_sends(m, outcomes)
        }),
{
    lemma_handshake_trace(m, remote_meta, outcomes);
    lemma_all_resolved_qps(outcomes, 0);
    assert(Seq::new(
        (outcomes.len() - 0) as nat,
        |j: int|
            ConnectedQp {
                index: (0 + j) as u32,
                qpn: outcomes[0 + j].qpn,
                psn: outcomes[0 + j].psn,
            },
    ) =~= Seq::new(
        outcomes.len(),
        |j: int| ConnectedQp { index: j as u32, qpn: outcomes[j].qpn, psn: outcomes[j].psn },
    ));
}

/// Partial negotiation: with exactly one index unresolvable, the session
/// still writes its metadata first and one Stop last, no init message
/// naming the skipped index ever goes out, no queue pair carries it, and
/// exactly one queue pair fewer than requested comes back, indices still
/// strictly increasing.
pub proof fn lemma_partial_negotiation(
    m: SenderV,
    remote_meta: MrMetadata,
    outcomes: Seq<IndexOutcome>,
    k: u32,
)
    requires
        m.phase == Phase::Idle,
        m.qp_list == Seq::<ConnectedQp>::empty(),
        outcomes.len() == m.num_qps,
        k < outcomes.len(),
        outcomes[k as int].resolution is None,
        forall|j: int|
            0 <= j < outcomes.len() && j != k ==> (#[trigger] outcomes[j].resolution) is Some,
    ensures
        ({
            let fin = run_state(m, handshake_events(remote_meta, outcomes));
            &&& fin.phase == Phase::Ready
            &&& fin.qp_list.len() == outcomes.len() - 1
            &&& forall|j: int| 0 <= j < fin.qp_list.len() ==> #[trigger] fin.qp_list[j].index != k
            &&& forall|j1: int, j2: int|
                0 <= j1 < j2 < fin.qp_list.len() ==> #[trigger] fin.qp_list[j1].index
                    < #[trigger] fin.qp_list[j2].index
            &&& sends_of(run_actions(m, handshake_events(remote_meta, outcomes)))
                == handshake_sends(m, outcomes)
            &&& forall|j: int, fam: Family|
                #![trigger loop_sends(outcomes, 0, m.family)[j], spec_encode(ControlMessage::InitQueuePair(k, fam))]
                0 <= j < loop_sends(outcomes, 0, m.family).len() ==> loop_sends(
                    outcomes,
                    0,
                    m.family,
                )[j] != spec_encode(ControlMessage::InitQueuePair(k, fam))
        }),
{
    lemma_handshake_trace(m, remote_meta, outcomes);
    lemma_loop_qps_shape(outcomes, 0);
    lemma_skip_count(outcomes, 0, k as int);
    let fin = run_state(m, handshake_events(remote_meta, outcomes));
    assert forall|j: int| 0 <= j < fin.qp_list.len() implies #[trigger] fin.qp_list[j].index
        != k by {
        assert(outcomes[fin.qp_list[j].index as int].resolution is Some);
    }
    assert forall|j: int, fam: Family|
        #![trigger loop_sends(outcomes, 0, m.family)[j], spec_encode(ControlMessage::InitQueuePair(k, fam))]
        0 <= j < loop_sends(outcomes, 0, m.family).len() implies loop_sends(outcomes, 0, m.family)[j]
        != spec_encode(ControlMessage::InitQueuePair(k, fam)) by {
        lemma_no_init_for_unresolved(outcomes, 0, m.family, k, fam);
    }
}

/// The termination signal is handed out for writing only by the transition
/// that completes or skips the final index — never while an earlier
/// index's exchange is outstanding — or right after the metadata exchange
/// when no queue pairs were requested at all.
pub proof fn lemma_stop_only_at_end(m: SenderV, e: EventV)
    ensures
        step_of(m, e).1 == ActionV::Send(spec_encode(ControlMessage::Stop)) ==> {
            ||| (m.phase matches Phase::SentLocalQp { index } && index + 1 >= m.num_qps)
            ||| (m.phase matches Phase::AwaitResolve { index } && index + 1 >= m.num_qps && e
                == EventV::Resolution(None::<ResolvedPort>))
            ||| (m.phase is AwaitRegister && m.num_qps == 0)
        },
{
    lemma_encode_injective(register_message(m), ControlMessage::Stop);
    match m.phase {
        Phase::AwaitQpReady { index, .. } => {
            lemma_encode_injective(
                ControlMessage::InitQueuePair(index, m.family),
                ControlMessage::Stop,
            );
        },
        Phase::AwaitLocalQp { index, port } => {
            match e {
                EventV::QpConnected { qpn, psn } => {
                    lemma_encode_injective(
                        ControlMessage::ConnectQueuePair(
                            QpMetadata {
                                subnet_id: port.subnet_id,
                                interface_id: port.interface_id,
                                qpn,
                                psn,
                            },
                        ),
                        ControlMessage::Stop,
                    );
                },
                _ => {},
            }
        },
        _ => {},
    }
}

/// The responder's metadata is stored literally: after consuming the first
/// received RegisterMemory message, the session's remote address and key
/// are exactly that message's decoded fields, unmodified.
pub proof fn lemma_remote_metadata_stored(m: SenderV, md: MrMetadata)
    requires
        m.phase == Phase::AwaitRegister,
    ensures
        ({
            let m2 = step_of(
                m,
                EventV::Received(spec_encode(ControlMessage::RegisterMemory(md))),
            ).0;
            &&& m2.receiver_metadata_address == md.address
            &&& m2.receiver_metadata_rkey == md.rkey
        }),
{
    lemma_encode_decode(ControlMessage::RegisterMemory(md));
}

} // verus!
