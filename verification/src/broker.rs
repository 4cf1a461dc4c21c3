//! The broker: the decisions behind one bus subscriber task.
//!
//! A broker runs one subscriber per mailbox address. Each iteration
//! of a subscriber loop gates on the mailbox depth, polls the
//! control channel, then polls the bus; everything it decides —
//! what a control message means, what becomes of a received frame,
//! how the idle backoff grows — is a function here, with a
//! contract. The surrounding task only performs the waiting, the
//! channel reads and the enqueue that the returned action names.
use vstd::prelude::*;

use crate::actor::{
    ActorMsg, ActorMsgView, ActorRequest, ActorSend, ActorSubscribe, HollywoodMsg, MsgView,
};
use crate::codec::{decode_msg, spec_decode};
use crate::system::{SystemComponent, SystemMsg};

verus! {

/// The tunable delays of a broker subscriber loop.
pub struct BrokerTuning {
    /// How much one idle bus poll adds to the backoff, in
    /// milliseconds.
    pub backoff_step_millis: u64,
    /// The cap on the idle backoff, in milliseconds.
    pub backoff_max_millis: u64,
    /// How long to pause when the mailbox is at capacity, in
    /// milliseconds.
    pub gate_pause_millis: u64,
}

impl Default for BrokerTuning {
    /// Ten milliseconds more idle backoff per empty poll, capped at
    /// one second; a tenth of a second pause on a full mailbox.
    fn default() -> (r: BrokerTuning)
        ensures
            r.backoff_step_millis == 10,
            r.backoff_max_millis == 1000,
            r.gate_pause_millis == 100,
    {
        BrokerTuning { backoff_step_millis: 10, backoff_max_millis: 1000, gate_pause_millis: 100 }
    }
}

/// True when a subscriber must pause before reading more from the
/// bus: a maximum mailbox size is configured and the mailbox
/// already holds at least that many items.
pub open spec fn spec_mailbox_gate(max_size: Option<u32>, depth: nat) -> bool {
    match max_size {
        Some(k) => depth >= k,
        None => false,
    }
}

/// Decides whether a subscriber must pause before its next bus
/// read, from the configured maximum and the current mailbox
/// depth.
pub fn mailbox_gate(max_size: Option<u32>, depth: usize) -> (r: bool)
    ensures
        r == spec_mailbox_gate(max_size, depth as nat),
{
    match max_size {
        Some(k) => depth >= k as usize,
        None => false,
    }
}

/// The backpressure bound: under a configured maximum `k`, a
/// subscriber proceeds to its next bus read only while the mailbox
/// holds fewer than `k` items — so it only ever enqueues onto a
/// mailbox that was below its maximum when it last read the bus.
pub proof fn lemma_backpressure_bound(k: u32, depth: nat)
    ensures
        !spec_mailbox_gate(Some(k), depth) <==> depth < k,
{
}

/// The idle backoff after one more empty bus poll: grown by one
/// step, capped at the maximum.
pub open spec fn spec_next_backoff(cur: u64, step: u64, max: u64) -> u64 {
    if cur + step >= max {
        max
    } else {
        (cur + step) as u64
    }
}

/// The mailbox item a wire envelope becomes, given the reply
/// subject the transport delivered beside it. A request without a
/// reply subject is demoted to a send; a publish becomes a
/// subscribe item; a response does not belong on an inbound
/// subject and becomes nothing.
pub open spec fn spec_envelope_to_item(m: MsgView, reply: Option<Seq<char>>) -> Option<
    ActorMsgView,
> {
    match m {
        MsgView::Request { id, msg, msg_version } => match reply {
            Some(reply_id) => Some(ActorMsgView::Request { id, msg_version, msg, reply_id }),
            None => Some(ActorMsgView::Send { id, msg_version, msg }),
        },
        MsgView::Send { id, msg, msg_version } => Some(ActorMsgView::Send { id, msg_version, msg }),
        MsgView::Publish { id, msg, msg_version } => Some(
            ActorMsgView::Subscribe { id, msg_version, msg },
        ),
        MsgView::Response { .. } => None,
    }
}

/// An envelope read from the bus with no reply subject never
/// becomes a request item: a request envelope is demoted to a send
/// item, and a send envelope stays one.
pub proof fn lemma_no_reply_no_request(m: MsgView)
    requires
        m is Request || m is Send,
    ensures
        spec_envelope_to_item(m, None) matches Some(item) && item is Send,
{
}

/// Turns a wire envelope into the mailbox item to enqueue, given
/// the reply subject delivered beside it.
pub fn envelope_to_item(m: HollywoodMsg, reply: Option<String>) -> (r: Option<ActorMsg>)
    ensures
        match r {
            Some(item) => spec_envelope_to_item(
                m@,
                match reply {
                    Some(ref s) => Some(s@),
                    None => None,
                },
            ) == Some(item@),
            None => spec_envelope_to_item(
                m@,
                match reply {
                    Some(ref s) => Some(s@),
                    None => None,
                },
            ) is None,
        },
{
    match m {
        HollywoodMsg::Request(req) => match reply {
            Some(reply_id) => Some(
                ActorMsg::Request(
                    ActorRequest {
                        id: req.id,
                        msg_version: req.msg_version,
                        msg: req.msg,
                        reply_id,
                    },
                ),
            ),
            None => Some(
                ActorMsg::Send(
                    ActorSend { id: req.id, msg_version: req.msg_version, msg: req.msg },
                ),
            ),
        },
        HollywoodMsg::Send(send) => Some(
            ActorMsg::Send(ActorSend { id: send.id, msg_version: send.msg_version, msg: send.msg }),
        ),
        HollywoodMsg::Publish(publish) => Some(
            ActorMsg::Subscribe(
                ActorSubscribe {
                    id: publish.id,
                    msg_version: publish.msg_version,
                    msg: publish.msg,
                },
            ),
        ),
        HollywoodMsg::Response(_) => None,
    }
}

/// The state one subscriber loop carries between iterations.
pub struct BrokerState {
    /// The current idle backoff in milliseconds.
    pub backoff_millis: u64,
    /// False once the subscriber has been told to stop.
    pub running: bool,
}

impl BrokerState {
    /// A fresh subscriber: no backoff, running.
    pub fn new() -> (r: BrokerState)
        ensures
            r.backoff_millis == 0,
            r.running,
    {
        BrokerState { backoff_millis: 0, running: true }
    }
}

/// What one iteration of a subscriber loop observed: a control
/// message, a bus frame with its optional reply subject, or
/// nothing.
pub enum BrokerObservation {
    Control(SystemMsg),
    Bus(Vec<u8>, Option<String>),
    Idle,
}

/// Mathematical model of an observation.
#[verifier::ext_equal]
pub enum BrokerObservationView {
    Control(SystemMsg),
    Bus(Seq<u8>, Option<Seq<char>>),
    Idle,
}

impl View for BrokerObservation {
    type V = BrokerObservationView;

    open spec fn view(&self) -> BrokerObservationView {
        match self {
            BrokerObservation::Control(m) => BrokerObservationView::Control(*m),
            BrokerObservation::Bus(data, reply) => BrokerObservationView::Bus(
                data@,
                match reply {
                    Some(s) => Some(s@),
                    None => None,
                },
            ),
            BrokerObservation::Idle => BrokerObservationView::Idle,
        }
    }
}

/// What the surrounding task must do after one step: answer a
/// health probe, enqueue a mailbox item, drop a bad frame, stop
/// the loop, or sleep out the idle backoff.
pub enum BrokerAction {
    /// Send this heartbeat on the health probe's reply channel.
    SendHeartbeat(SystemMsg),
    /// Put this item on the agent's mailbox channel.
    Enqueue(ActorMsg),
    /// The frame did not decode: log it and go on.
    DropMalformed,
    /// A response envelope arrived on an inbound subject: log the
    /// protocol violation and go on.
    DropProtocol,
    /// Stop reading this subject for good.
    Stop,
    /// Sleep this many milliseconds before the next poll.
    Sleep(u64),
    /// Nothing to do.
    Ignore,
}

/// One step of a subscriber loop: from the loop state and what was
/// observed, the next state and the action to perform.
pub fn broker_step(
    state: &mut BrokerState,
    obs: BrokerObservation,
    tuning: &BrokerTuning,
    now_millis: u128,
) -> (r: BrokerAction)
    ensures
        match obs@ {
            BrokerObservationView::Control(m) => *final(state) == BrokerState {
                running: m != SystemMsg::Shutdown && old(state).running,
                ..*old(state)
            } && match m {
                SystemMsg::Health => r matches BrokerAction::SendHeartbeat(h) && h
                    == SystemMsg::Heartbeat(SystemComponent::Broker, now_millis),
                SystemMsg::Shutdown => r is Stop,
                SystemMsg::Heartbeat(..) => r is Ignore,
            },
            BrokerObservationView::Bus(data, reply) => final(state).backoff_millis == 0
                && final(state).running == old(state).running && match spec_decode(data) {
                None => r is DropMalformed,
                Some(mv) => match spec_envelope_to_item(mv, reply) {
                    Some(item) => r matches BrokerAction::Enqueue(it) && it@ == item,
                    None => r is DropProtocol,
                },
            },
            BrokerObservationView::Idle => {
                let next = spec_next_backoff(
                    old(state).backoff_millis,
                    tuning.backoff_step_millis,
                    tuning.backoff_max_millis,
                );
                &&& final(state).backoff_millis == next
                &&& final(state).running == old(state).running
                &&& r matches BrokerAction::Sleep(ms) && ms == next
            },
        },
{
    match obs {
        BrokerObservation::Control(m) => match m {
            SystemMsg::Health => BrokerAction::SendHeartbeat(
                SystemMsg::Heartbeat(SystemComponent::Broker, now_millis),
            ),
            SystemMsg::Shutdown => {
                state.running = false;
                BrokerAction::Stop
            },
            SystemMsg::Heartbeat(_, _) => BrokerAction::Ignore,
        },
        BrokerObservation::Bus(data, reply) => {
            state.backoff_millis = 0;
            match decode_msg(data.as_slice()) {
                None => BrokerAction::DropMalformed,
                Some(m) => match envelope_to_item(m, reply) {
                    Some(item) => BrokerAction::Enqueue(item),
                    None => BrokerAction::DropProtocol,
                },
            }
        },
        BrokerObservation::Idle => {
            let next = if state.backoff_millis >= tuning.backoff_max_millis
                || tuning.backoff_max_millis - state.backoff_millis <= tuning.backoff_step_millis {
                tuning.backoff_max_millis
            } else {
                state.backoff_millis + tuning.backoff_step_millis
            };
            state.backoff_millis = next;
            BrokerAction::Sleep(next)
        },
    }
}

} // verus!

verus! {

/// One event in the life of the mailbox channel: a subscriber
/// passes the backpressure check (observing the depth below the
/// maximum) and begins a bus receive, a subscriber enqueues the
/// item of a receive it began earlier, or the agent dequeues one
/// item.
pub enum MailboxEvent {
    BeginReceive,
    Enqueue,
    Dequeue,
}

/// The modeled state of the mailbox channel: its depth, and how
/// many bus receives are in flight — begun behind an open
/// backpressure check and not yet enqueued.
pub struct MailboxModel {
    pub depth: nat,
    pub in_flight: nat,
}

/// How one event changes the modeled mailbox.
pub open spec fn mailbox_event_step(m: MailboxModel, e: MailboxEvent) -> MailboxModel {
    match e {
        MailboxEvent::BeginReceive => MailboxModel {
            depth: m.depth,
            in_flight: m.in_flight + 1,
        },
        MailboxEvent::Enqueue => MailboxModel {
            depth: m.depth + 1,
            in_flight: (m.in_flight - 1) as nat,
        },
        MailboxEvent::Dequeue => MailboxModel { depth: (m.depth - 1) as nat, in_flight: m.in_flight },
    }
}

/// True when an event respects the loop protocol under maximum
/// `k` and `n` subscriber tasks: a receive begins only while the
/// depth is below `k` (the backpressure check) and while fewer
/// than `n` receives are in flight (each task holds at most one);
/// an enqueue resolves an in-flight receive; a dequeue takes from
/// a non-empty channel.
pub open spec fn mailbox_event_allowed(m: MailboxModel, e: MailboxEvent, k: nat, n: nat) -> bool {
    match e {
        MailboxEvent::BeginReceive => !spec_mailbox_gate(Some(k as u32), m.depth) && k
            <= u32::MAX && m.in_flight < n,
        MailboxEvent::Enqueue => m.in_flight >= 1,
        MailboxEvent::Dequeue => m.depth >= 1,
    }
}

/// The modeled mailbox after a whole trace of events.
pub open spec fn mailbox_run(m: MailboxModel, trace: Seq<MailboxEvent>) -> MailboxModel
    decreases trace.len(),
{
    if trace.len() == 0 {
        m
    } else {
        mailbox_run(mailbox_event_step(m, trace[0]), trace.drop_first())
    }
}

/// True when every event of a trace is allowed in the state it
/// meets.
pub open spec fn mailbox_trace_allowed(
    m: MailboxModel,
    trace: Seq<MailboxEvent>,
    k: nat,
    n: nat,
) -> bool
    decreases trace.len(),
{
    if trace.len() == 0 {
        true
    } else {
        mailbox_event_allowed(m, trace[0], k, n) && mailbox_trace_allowed(
            mailbox_event_step(m, trace[0]),
            trace.drop_first(),
            k,
            n,
        )
    }
}

/// The inductive bound behind the backpressure design: the depth
/// and the in-flight receives together never pass `k - 1 + n`.
pub open spec fn mailbox_bounded(m: MailboxModel, k: nat, n: nat) -> bool {
    m.depth + m.in_flight <= k - 1 + n && m.in_flight <= n
}

/// One allowed event preserves the bound.
proof fn lemma_mailbox_step_bounded(m: MailboxModel, e: MailboxEvent, k: nat, n: nat)
    requires
        k >= 1,
        mailbox_bounded(m, k, n),
        mailbox_event_allowed(m, e, k, n),
    ensures
        mailbox_bounded(mailbox_event_step(m, e), k, n),
{
}

/// The mailbox depth is bounded by the configured maximum plus
/// the number of subscriber tasks, over every trace of events the
/// loops can produce: with maximum `k` and `n` subscriber tasks —
/// so at most `n` bus receives in flight at once — any allowed
/// trace leaves the depth at most `k - 1 + n`.
pub proof fn lemma_mailbox_depth_bound(
    m: MailboxModel,
    trace: Seq<MailboxEvent>,
    k: nat,
    n: nat,
)
    requires
        k >= 1,
        mailbox_bounded(m, k, n),
        mailbox_trace_allowed(m, trace, k, n),
    ensures
        mailbox_bounded(mailbox_run(m, trace), k, n),
        mailbox_run(m, trace).depth <= k - 1 + n,
    decreases trace.len(),
{
    if trace.len() > 0 {
        lemma_mailbox_step_bounded(m, trace[0], k, n);
        lemma_mailbox_depth_bound(mailbox_event_step(m, trace[0]), trace.drop_first(), k, n);
    }
}

} // verus!
