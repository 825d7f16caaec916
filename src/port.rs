//! The port's decisions: one step of its loop, from the event that woke it
//! to the action it takes.
//!
//! The loop waits on four sources: the socket, data the host wrote to the
//! bulk OUT endpoint, polls of the bulk IN endpoint, and frames to transmit.
//! Polls wait in a FIFO; each frame to transmit answers the oldest poll, and
//! the transmit source is only waited on while a poll is queued.
use crate::adapter::{BulkPacket, BulkTransferToken, STATUS_SUCCESS};
use crate::error::Error;
use std::collections::VecDeque;
use vstd::prelude::*;

verus! {

/// What woke the port's loop.
#[derive(Debug)]
pub enum PortEvent {
    /// The wire-protocol engine read and dispatched what the socket held.
    SocketDone,
    /// The socket or the wire-protocol engine failed (`Io` or
    /// `ProtocolParse`).
    SocketFailed(Error),
    /// Data the host wrote to the bulk OUT endpoint.
    RedirOut(Vec<u8>),
    /// A poll of the bulk IN endpoint.
    RedirIn(BulkTransferToken),
    /// A whole encoded frame to transmit.
    Outbound(Vec<u8>),
    /// The transport handle's transmit channel has closed.
    OutboundClosed,
}

/// What the port does in response.
#[derive(Debug)]
pub enum PortAction {
    Nothing,
    /// Pass received bytes on to the transport handle.
    Forward(Vec<u8>),
    /// Complete the bulk IN transfer `id` with header `packet` and `data`.
    SendBulk { id: u64, packet: BulkPacket, data: Vec<u8> },
    /// Stop the loop with this error.
    Fail(Error),
}

/// The model of an event: byte buffers as sequences.
pub enum PortInput {
    SocketDone,
    SocketFailed(Error),
    RedirOut(Seq<u8>),
    RedirIn(BulkTransferToken),
    Outbound(Seq<u8>),
    OutboundClosed,
}

/// The model of an action.
pub enum PortOutput {
    Nothing,
    Forward(Seq<u8>),
    SendBulk(u64, BulkPacket, Seq<u8>),
    Fail(Error),
}

/// The model of the port: the queued polls, oldest first, and whether the
/// loop has stopped.
pub struct PortModel {
    pub tokens: Seq<BulkTransferToken>,
    pub stopped: bool,
}

impl View for PortEvent {
    type V = PortInput;

    open spec fn view(&self) -> PortInput {
        match self {
            PortEvent::SocketDone => PortInput::SocketDone,
            PortEvent::SocketFailed(e) => PortInput::SocketFailed(*e),
            PortEvent::RedirOut(d) => PortInput::RedirOut(d@),
            PortEvent::RedirIn(t) => PortInput::RedirIn(*t),
            PortEvent::Outbound(f) => PortInput::Outbound(f@),
            PortEvent::OutboundClosed => PortInput::OutboundClosed,
        }
    }
}

impl View for PortAction {
    type V = PortOutput;

    open spec fn view(&self) -> PortOutput {
        match self {
            PortAction::Nothing => PortOutput::Nothing,
            PortAction::Forward(d) => PortOutput::Forward(d@),
            PortAction::SendBulk { id, packet, data } => PortOutput::SendBulk(*id, *packet, data@),
            PortAction::Fail(e) => PortOutput::Fail(*e),
        }
    }
}

/// The header of a polled IN transfer, completed with success and the
/// length of the data that answers it.
pub open spec fn stamped(p: BulkPacket, len: nat) -> BulkPacket {
    BulkPacket { status: STATUS_SUCCESS, length: len as u16, ..p }
}

/// The port before any event.
pub open spec fn initial_model() -> PortModel {
    PortModel { tokens: Seq::empty(), stopped: false }
}

/// One step of the loop. Once stopped, nothing is done. A socket or
/// protocol failure, or a closed transmit channel, stops the loop. Bytes
/// from the OUT endpoint are forwarded unchanged. A poll joins the tail of
/// the FIFO. A frame to transmit completes the poll at the head of the FIFO;
/// with no poll queued it matches nothing.
pub open spec fn port_step(s: PortModel, e: PortInput) -> (PortModel, PortOutput) {
    if s.stopped {
        (s, PortOutput::Nothing)
    } else {
        match e {
            PortInput::SocketDone => (s, PortOutput::Nothing),
            PortInput::SocketFailed(err) => (
                PortModel { stopped: true, ..s },
                PortOutput::Fail(err),
            ),
            PortInput::RedirOut(d) => (s, PortOutput::Forward(d)),
            PortInput::RedirIn(t) => (PortModel { tokens: s.tokens.push(t), ..s }, PortOutput::Nothing),
            PortInput::Outbound(f) => if s.tokens.len() > 0 {
                (
                    PortModel { tokens: s.tokens.drop_first(), ..s },
                    PortOutput::SendBulk(s.tokens[0].id, stamped(s.tokens[0].packet, f.len()), f),
                )
            } else {
                (s, PortOutput::Nothing)
            },
            PortInput::OutboundClosed => (
                PortModel { stopped: true, ..s },
                PortOutput::Fail(Error::TxFailure),
            ),
        }
    }
}

/// The state and the actions after a sequence of events.
pub open spec fn run(s: PortModel, evs: Seq<PortInput>) -> (PortModel, Seq<PortOutput>)
    decreases evs.len(),
{
    if evs.len() == 0 {
        (s, Seq::empty())
    } else {
        let (s1, outs) = run(s, evs.drop_last());
        let (s2, o) = port_step(s1, evs.last());
        (s2, outs.push(o))
    }
}

/// The events that queue each of `ts`, in order.
pub open spec fn polls(ts: Seq<BulkTransferToken>) -> Seq<PortInput> {
    ts.map_values(|t: BulkTransferToken| PortInput::RedirIn(t))
}

/// The events that transmit each of `frames`, in order.
pub open spec fn transmits(frames: Seq<Seq<u8>>) -> Seq<PortInput> {
    frames.map_values(|f: Seq<u8>| PortInput::Outbound(f))
}

/// The completion of poll `t` with frame `f`.
pub open spec fn completion(t: BulkTransferToken, f: Seq<u8>) -> PortOutput {
    PortOutput::SendBulk(t.id, stamped(t.packet, f.len()), f)
}

/// How many of `evs` are polls.
pub open spec fn count_polls(evs: Seq<PortInput>) -> nat
    decreases evs.len(),
{
    if evs.len() == 0 {
        0
    } else {
        count_polls(evs.drop_last()) + if evs.last() is RedirIn { 1nat } else { 0nat }
    }
}

/// How many of `outs` complete a poll.
pub open spec fn count_matches(outs: Seq<PortOutput>) -> nat
    decreases outs.len(),
{
    if outs.len() == 0 {
        0
    } else {
        count_matches(outs.drop_last()) + if outs.last() is SendBulk { 1nat } else { 0nat }
    }
}

/// The port's state: the FIFO of polls of the bulk IN endpoint, and
/// whether its loop has stopped.
pub struct PortState {
    queue: VecDeque<BulkTransferToken>,
    stopped: bool,
}

impl View for PortState {
    type V = PortModel;

    closed spec fn view(&self) -> PortModel {
        PortModel { tokens: self.queue@, stopped: self.stopped }
    }
}

impl PortState {
    pub fn new() -> (r: PortState)
        ensures
            r@ == initial_model(),
    {
        PortState { queue: VecDeque::new(), stopped: false }
    }

    /// Whether the loop may wait for a frame to transmit: exactly when a
    /// poll is queued.
    pub fn tx_pollable(&self) -> (r: bool)
        ensures
            r == (self@.tokens.len() > 0),
    {
        self.queue.len() > 0
    }

    /// Whether the loop has stopped.
    pub fn is_stopped(&self) -> (r: bool)
        ensures
            r == self@.stopped,
    {
        self.stopped
    }

    /// Takes one event and returns the action for it, as `port_step` says.
    /// A frame to transmit is only taken while a poll is queued.
    pub fn step(&mut self, ev: PortEvent) -> (r: PortAction)
        requires
            ev is Outbound ==> old(self)@.tokens.len() > 0 || old(self)@.stopped,
        ensures
            (final(self)@, r@) == port_step(old(self)@, ev@),
    {
        if self.stopped {
            return PortAction::Nothing;
        }
        match ev {
            PortEvent::SocketDone => PortAction::Nothing,
            PortEvent::SocketFailed(e) => {
                self.stopped = true;
                PortAction::Fail(e)
            },
            PortEvent::RedirOut(d) => PortAction::Forward(d),
            PortEvent::RedirIn(t) => {
                self.queue.push_back(t);
                PortAction::Nothing
            },
            PortEvent::Outbound(f) => {
                let head = self.queue.pop_front();
                match head {
                    Some(t) => {
                        let mut packet = t.packet;
                        packet.status = STATUS_SUCCESS;
                        packet.length = f.len() as u16;
                        proof {
                            assert(self.queue@ =~= old(self)@.tokens.drop_first());
                        }
                        PortAction::SendBulk { id: t.id, packet, data: f }
                    },
                    None => PortAction::Nothing,
                }
            },
            PortEvent::OutboundClosed => {
                self.stopped = true;
                PortAction::Fail(Error::TxFailure)
            },
        }
    }
}

/// Running `a` then `b` is running `a ‖ b`.
pub proof fn lemma_run_append(s: PortModel, a: Seq<PortInput>, b: Seq<PortInput>)
    ensures
        ({
            let (s1, o1) = run(s, a);
            let (s2, o2) = run(s1, b);
            run(s, a + b) == (s2, o1 + o2)
        }),
    decreases b.len(),
{
    if b.len() == 0 {
        assert(a + b =~= a);
        let (s1, o1) = run(s, a);
        assert(o1 + Seq::<PortOutput>::empty() =~= o1);
    } else {
        lemma_run_append(s, a, b.drop_last());
        assert((a + b).drop_last() =~= a + b.drop_last());
        assert((a + b).last() == b.last());
        let (s1, o1) = run(s, a);
        let (s2, o2) = run(s1, b.drop_last());
        let (s3, o) = port_step(s2, b.last());
        assert(o1 + o2.push(o) =~= (o1 + o2).push(o));
    }
}

/// Queuing polls on a running port appends them to the FIFO, in order,
/// and does nothing else.
pub proof fn lemma_polls_enqueue(s: PortModel, ts: Seq<BulkTransferToken>)
    requires
        !s.stopped,
    ensures
        run(s, polls(ts)) == (
            PortModel { tokens: s.tokens + ts, stopped: false },
            Seq::new(ts.len(), |i: int| PortOutput::Nothing),
        ),
    decreases ts.len(),
{
    if ts.len() == 0 {
        assert(polls(ts) =~= Seq::<PortInput>::empty());
        assert(s.tokens + ts =~= s.tokens);
        assert(Seq::new(ts.len(), |i: int| PortOutput::Nothing) =~= Seq::<PortOutput>::empty());
    } else {
        lemma_polls_enqueue(s, ts.drop_last());
        assert(polls(ts).drop_last() =~= polls(ts.drop_last()));
        assert((s.tokens + ts.drop_last()).push(ts.last()) =~= s.tokens + ts);
        assert(Seq::new((ts.len() - 1) as nat, |i: int| PortOutput::Nothing).push(PortOutput::Nothing)
            =~= Seq::new(ts.len(), |i: int| PortOutput::Nothing));
    }
}

/// Transmitting frames on a running port with at least as many polls
/// queued completes the oldest polls, one frame each, in order.
pub proof fn lemma_transmits_match(ts: Seq<BulkTransferToken>, frames: Seq<Seq<u8>>)
    requires
        frames.len() <= ts.len(),
    ensures
        run(PortModel { tokens: ts, stopped: false }, transmits(frames)) == (
            PortModel { tokens: ts.skip(frames.len() as int), stopped: false },
            Seq::new(frames.len(), |i: int| completion(ts[i], frames[i])),
        ),
    decreases frames.len(),
{
    let s = PortModel { tokens: ts, stopped: false };
    if frames.len() == 0 {
        assert(transmits(frames) =~= Seq::<PortInput>::empty());
        assert(ts.skip(0) =~= ts);
        assert(Seq::new(frames.len(), |i: int| completion(ts[i], frames[i])) =~= Seq::<PortOutput>::empty());
    } else {
        let k = frames.len() - 1;
        let fr = frames.drop_last();
        lemma_transmits_match(ts, fr);
        assert(transmits(frames).drop_last() =~= transmits(fr));
        assert(ts.skip(k as int).drop_first() =~= ts.skip(frames.len() as int));
        assert(ts.skip(k as int)[0] == ts[k as int]);
        assert(Seq::new(fr.len(), |i: int| completion(ts[i], fr[i])).push(completion(ts[k as int], frames[k as int]))
            =~= Seq::new(frames.len(), |i: int| completion(ts[i], frames[i])));
    }
}

/// FIFO matching: after N polls and then N frames to transmit, the i-th
/// frame completes the i-th poll, for every N; no poll is left queued.
pub proof fn lemma_fifo_matching(ts: Seq<BulkTransferToken>, frames: Seq<Seq<u8>>)
    requires
        ts.len() == frames.len(),
    ensures
        ({
            let (s, outs) = run(initial_model(), polls(ts) + transmits(frames));
            &&& outs.len() == 2 * ts.len()
            &&& forall|i: int| 0 <= i < ts.len() ==> #[trigger] outs[ts.len() + i] == completion(ts[i], frames[i])
            &&& s.tokens.len() == 0
        }),
{
    lemma_run_append(initial_model(), polls(ts), transmits(frames));
    lemma_polls_enqueue(initial_model(), ts);
    assert(initial_model().tokens + ts =~= ts);
    lemma_transmits_match(ts, frames);
}

/// No premature match: along any sequence of events from the initial
/// state, the polls completed never outnumber the polls queued.
pub proof fn lemma_matches_bounded_by_polls(evs: Seq<PortInput>)
    ensures
        count_matches(run(initial_model(), evs).1) <= count_polls(evs),
{
    lemma_matches_plus_queued(evs);
}

proof fn lemma_matches_plus_queued(evs: Seq<PortInput>)
    ensures
        ({
            let (s, outs) = run(initial_model(), evs);
            &&& count_matches(outs) + s.tokens.len() <= count_polls(evs)
            &&& outs.len() == evs.len()
        }),
    decreases evs.len(),
{
    if evs.len() > 0 {
        lemma_matches_plus_queued(evs.drop_last());
        let (s1, o1) = run(initial_model(), evs.drop_last());
        let (s2, o) = port_step(s1, evs.last());
        assert(o1.push(o).drop_last() =~= o1);
    }
}

/// Once the loop has stopped, no event has any effect.
pub proof fn lemma_stopped_is_final(s: PortModel, evs: Seq<PortInput>)
    requires
        s.stopped,
    ensures
        run(s, evs) == (s, Seq::new(evs.len(), |i: int| PortOutput::Nothing)),
    decreases evs.len(),
{
    if evs.len() == 0 {
        assert(Seq::new(evs.len(), |i: int| PortOutput::Nothing) =~= Seq::<PortOutput>::empty());
    } else {
        lemma_stopped_is_final(s, evs.drop_last());
        assert(Seq::new((evs.len() - 1) as nat, |i: int| PortOutput::Nothing).push(PortOutput::Nothing)
            =~= Seq::new(evs.len(), |i: int| PortOutput::Nothing));
    }
}

/// A socket failure ends the loop: the failure is reported, every later
/// event is ignored, and the queue of polls is left as it was.
pub proof fn lemma_socket_failure_ends_loop(s: PortModel, err: Error, evs: Seq<PortInput>)
    requires
        !s.stopped,
    ensures
        ({
            let (s2, outs) = run(s, seq![PortInput::SocketFailed(err)] + evs);
            &&& outs == seq![PortOutput::Fail(err)] + Seq::new(evs.len(), |i: int| PortOutput::Nothing)
            &&& s2.stopped
            &&& s2.tokens == s.tokens
        }),
{
    let first = seq![PortInput::SocketFailed(err)];
    lemma_run_append(s, first, evs);
    assert(first.drop_last() =~= Seq::<PortInput>::empty());
    let stopped = PortModel { stopped: true, ..s };
    assert(run(s, first) == (stopped, seq![PortOutput::Fail(err)])) by {
        assert(run(s, first.drop_last()) == (s, Seq::<PortOutput>::empty()));
        assert(first.last() == PortInput::SocketFailed(err));
        assert(Seq::<PortOutput>::empty().push(PortOutput::Fail(err)) =~= seq![PortOutput::Fail(err)]);
    }
    lemma_stopped_is_final(stopped, evs);
}

} // verus!
