//! The agent: the decisions behind the mailbox loop that drives
//! one actor instance.
//!
//! The agent owns the actor and serializes every handler
//! invocation. Everything it decides is a function here: which
//! handler a mailbox item selects (`plan_item`), what reply a
//! finished request handler owes (`response_for`), what a control
//! message means (`agent_control_step`), and when the loop may
//! exit (`agent_should_exit`). The surrounding task reads the
//! channels, runs the user's handler and publishes the reply
//! frames these functions hand it.
use vstd::prelude::*;

use crate::actor::{
    response_well_formed, ActorMsg, ActorMsgView, DispatchType, HollywoodMsg, HollywoodResponse,
    KindView, MsgView,
};
use crate::dispatch::{versions_unique, DispatchTable};
use crate::system::{SystemComponent, SystemMsg};

verus! {

/// What a handler invocation came back with: the dispatched
/// handler's reply version and bytes, or its error, as the
/// dispatcher hands them to the agent.
pub enum HandlerOutcome {
    Success { msg_version: Option<String>, msg: Option<Vec<u8>> },
    Failure { message: String },
}

/// Mathematical model of a handler outcome.
#[verifier::ext_equal]
pub enum HandlerOutcomeView {
    Success { msg_version: Option<Seq<char>>, msg: Option<Seq<u8>> },
    Failure { message: Seq<char> },
}

impl View for HandlerOutcome {
    type V = HandlerOutcomeView;

    open spec fn view(&self) -> HandlerOutcomeView {
        match self {
            HandlerOutcome::Success { msg_version, msg } => HandlerOutcomeView::Success {
                msg_version: match msg_version {
                    Some(v) => Some(v@),
                    None => None,
                },
                msg: match msg {
                    Some(m) => Some(m@),
                    None => None,
                },
            },
            HandlerOutcome::Failure { message } => HandlerOutcomeView::Failure { message: message@ },
        }
    }
}

/// The response envelope a request item's outcome turns into: on
/// success, the reply bytes under the reply's version (or the
/// `unknown_version` marker when the dispatcher named none); on
/// error, no body and the stringified reason.
pub open spec fn spec_response_for(id: Seq<char>, outcome: HandlerOutcomeView) -> MsgView {
    match outcome {
        HandlerOutcomeView::Success { msg_version, msg } => MsgView::Response {
            error: None,
            id: id,
            msg: msg,
            msg_version: match msg_version {
                Some(v) => v,
                None => "unknown_version"@,
            },
        },
        HandlerOutcomeView::Failure { message } => MsgView::Response {
            error: Some(message),
            id: id,
            msg: None,
            msg_version: ""@,
        },
    }
}

/// Builds the reply envelope owed after a handler ran: a response
/// for a request item, nothing for a send or subscribe item,
/// whose errors are only logged.
pub fn response_for(id: String, dispatch_type: &DispatchType, outcome: HandlerOutcome) -> (r:
    Option<HollywoodMsg>)
    ensures
        match dispatch_type {
            DispatchType::Request => r matches Some(m) && m@ == spec_response_for(id@, outcome@),
            _ => r is None,
        },
{
    match dispatch_type {
        DispatchType::Request => {
            let resp = match outcome {
                HandlerOutcome::Success { msg_version, msg } => {
                    let version = match msg_version {
                        Some(v) => v,
                        None => {
                            let mut u = String::new();
                            u.append("unknown_version");
                            u
                        },
                    };
                    HollywoodResponse { error: None, id, msg, msg_version: version }
                },
                HandlerOutcome::Failure { message } => HollywoodResponse {
                    error: Some(message),
                    id,
                    msg: None,
                    msg_version: String::new(),
                },
            };
            proof {
                reveal_strlit("");
                reveal_strlit("unknown_version");
                assert(Seq::<char>::empty() + "unknown_version"@ =~= "unknown_version"@);
                assert(Seq::<char>::empty() =~= ""@);
            }
            Some(HollywoodMsg::Response(resp))
        },
        _ => None,
    }
}

/// The error response sent back when a request names a message
/// version the actor does not declare.
pub open spec fn spec_unknown_version_response(id: Seq<char>) -> MsgView {
    MsgView::Response {
        error: Some("unsupported message version"@),
        id: id,
        msg: None,
        msg_version: ""@,
    }
}

/// Builds the error response for a request whose message version
/// the actor does not declare.
pub fn unknown_version_response(id: String) -> (r: HollywoodMsg)
    ensures
        r@ == spec_unknown_version_response(id@),
{
    let mut e = String::new();
    e.append("unsupported message version");
    proof {
        reveal_strlit("");
        reveal_strlit("unsupported message version");
        assert(Seq::<char>::empty() + "unsupported message version"@ =~= "unsupported message version"@);
        assert(Seq::<char>::empty() =~= ""@);
    }
    HollywoodMsg::Response(
        HollywoodResponse { error: Some(e), id, msg: None, msg_version: String::new() },
    )
}

/// The index of the entry carrying a message version, where the
/// table declares it.
pub open spec fn spec_version_entry(entries: Seq<KindView>, version: Seq<char>) -> Option<int> {
    if exists|i: int| 0 <= i < entries.len() && entries[i].version == version {
        Some(choose|i: int| 0 <= i < entries.len() && entries[i].version == version)
    } else {
        None
    }
}

/// What the agent does with one mailbox item.
pub enum ItemPlan {
    /// Run the handler of this kind from the table entry at this
    /// index, on this item.
    Invoke { entry: usize, kind: DispatchType, item: ActorMsg },
    /// The item is a request the actor cannot dispatch: publish
    /// this response on its reply subject.
    ReplyError { reply_id: String, response: HollywoodMsg },
    /// The item cannot be dispatched and owes no reply: log and
    /// drop it.
    Drop,
    /// Health probes are answered on the control path, not the
    /// mailbox.
    Ignore,
    /// Stop taking new work once the mailbox has drained.
    SetShutdown,
}

/// Mathematical model of an item plan.
#[verifier::ext_equal]
pub enum ItemPlanView {
    Invoke { entry: int, kind: DispatchType, item: ActorMsgView },
    ReplyError { reply_id: Seq<char>, response: MsgView },
    Drop,
    Ignore,
    SetShutdown,
}

impl View for ItemPlan {
    type V = ItemPlanView;

    open spec fn view(&self) -> ItemPlanView {
        match self {
            ItemPlan::Invoke { entry, kind, item } => ItemPlanView::Invoke {
                entry: *entry as int,
                kind: *kind,
                item: item@,
            },
            ItemPlan::ReplyError { reply_id, response } => ItemPlanView::ReplyError {
                reply_id: reply_id@,
                response: response@,
            },
            ItemPlan::Drop => ItemPlanView::Drop,
            ItemPlan::Ignore => ItemPlanView::Ignore,
            ItemPlan::SetShutdown => ItemPlanView::SetShutdown,
        }
    }
}

/// The plan for one mailbox item: exactly one handler, chosen by
/// the item's tag, where the table declares the item's version;
/// an error reply for an undispatchable request; a drop for an
/// undispatchable send or subscribe.
pub open spec fn spec_plan_item(entries: Seq<KindView>, item: ActorMsgView) -> ItemPlanView {
    match item {
        ActorMsgView::Request { id, msg_version, msg, reply_id } => match spec_version_entry(
            entries,
            msg_version,
        ) {
            Some(i) => ItemPlanView::Invoke { entry: i, kind: DispatchType::Request, item },
            None => ItemPlanView::ReplyError {
                reply_id,
                response: spec_unknown_version_response(id),
            },
        },
        ActorMsgView::Send { id, msg_version, msg } => match spec_version_entry(
            entries,
            msg_version,
        ) {
            Some(i) => ItemPlanView::Invoke { entry: i, kind: DispatchType::Send, item },
            None => ItemPlanView::Drop,
        },
        ActorMsgView::Subscribe { id, msg_version, msg } => match spec_version_entry(
            entries,
            msg_version,
        ) {
            Some(i) => ItemPlanView::Invoke { entry: i, kind: DispatchType::Subscribe, item },
            None => ItemPlanView::Drop,
        },
        ActorMsgView::Health => ItemPlanView::Ignore,
        ActorMsgView::Shutdown => ItemPlanView::SetShutdown,
    }
}

/// Decides what to do with one mailbox item: which handler to run,
/// or what to do instead when the actor does not declare the
/// item's message version.
pub fn plan_item(table: &DispatchTable, item: ActorMsg) -> (r: ItemPlan)
    requires
        table.wf(),
    ensures
        r@ == spec_plan_item(table@, item@),
{
    match item {
        ActorMsg::Request(req) => match table.find_version(&req.msg_version) {
            Some(i) => {
                proof {
                    lemma_version_entry_unique(table@, req.msg_version@, i as int);
                }
                ItemPlan::Invoke {
                    entry: i,
                    kind: DispatchType::Request,
                    item: ActorMsg::Request(req),
                }
            },
            None => ItemPlan::ReplyError {
                reply_id: req.reply_id,
                response: unknown_version_response(req.id),
            },
        },
        ActorMsg::Send(send) => match table.find_version(&send.msg_version) {
            Some(i) => {
                proof {
                    lemma_version_entry_unique(table@, send.msg_version@, i as int);
                }
                ItemPlan::Invoke { entry: i, kind: DispatchType::Send, item: ActorMsg::Send(send) }
            },
            None => ItemPlan::Drop,
        },
        ActorMsg::Subscribe(sub) => match table.find_version(&sub.msg_version) {
            Some(i) => {
                proof {
                    lemma_version_entry_unique(table@, sub.msg_version@, i as int);
                }
                ItemPlan::Invoke {
                    entry: i,
                    kind: DispatchType::Subscribe,
                    item: ActorMsg::Subscribe(sub),
                }
            },
            None => ItemPlan::Drop,
        },
        ActorMsg::Health => ItemPlan::Ignore,
        ActorMsg::Shutdown => ItemPlan::SetShutdown,
    }
}

/// In a table with unique versions, any entry carrying a version
/// is the entry the version maps to.
proof fn lemma_version_entry_unique(entries: Seq<KindView>, version: Seq<char>, i: int)
    requires
        versions_unique(entries),
        0 <= i < entries.len(),
        entries[i].version == version,
    ensures
        spec_version_entry(entries, version) == Some(i),
{
    let j = choose|j: int| 0 <= j < entries.len() && entries[j].version == version;
    if i != j {
        assert(entries[i].version != entries[j].version);
    }
}

/// Exactly one handler is selected per mailbox item, and the kind
/// of handler is determined by the item's tag: a request item only
/// ever reaches the request handler, a send item the send handler,
/// a subscribe item the subscribe handler — and an item whose
/// version is not declared reaches no handler at all.
pub proof fn lemma_one_handler_per_item(entries: Seq<KindView>, item: ActorMsgView)
    ensures
        match item {
            ActorMsgView::Request { .. } => (spec_plan_item(entries, item) matches
                ItemPlanView::Invoke { kind, item: it, .. } && kind == DispatchType::Request && it
                == item) || spec_plan_item(entries, item) is ReplyError,
            ActorMsgView::Send { .. } => (spec_plan_item(entries, item) matches
                ItemPlanView::Invoke { kind, item: it, .. } && kind == DispatchType::Send && it
                == item) || spec_plan_item(entries, item) is Drop,
            ActorMsgView::Subscribe { .. } => (spec_plan_item(entries, item) matches
                ItemPlanView::Invoke { kind, item: it, .. } && kind == DispatchType::Subscribe
                && it == item) || spec_plan_item(entries, item) is Drop,
            ActorMsgView::Health => spec_plan_item(entries, item) is Ignore,
            ActorMsgView::Shutdown => spec_plan_item(entries, item) is SetShutdown,
        },
{
}

/// Every request item is owed exactly one response. Whatever the
/// table holds, the plan for a request either invokes the request
/// handler — whose outcome becomes one response by
/// `spec_response_for` — or already carries the one error
/// response, addressed to the item's reply subject.
pub proof fn lemma_request_one_response(entries: Seq<KindView>, item: ActorMsgView)
    requires
        item is Request,
    ensures
        match spec_plan_item(entries, item) {
            ItemPlanView::Invoke { kind, item: it, .. } => kind == DispatchType::Request && it
                == item,
            ItemPlanView::ReplyError { reply_id, response } => reply_id == item->Request_reply_id
                && (response matches MsgView::Response { error, id, msg, .. } && id
                == item->Request_id && response_well_formed(error, msg)),
            _ => false,
        },
{
    reveal_strlit("unsupported message version");
}

/// The response published for a finished request handler carries
/// the request's id and is well formed — it has a body and no
/// error, or an error and no body — for every outcome except a
/// success that names no reply body. (A handler that succeeds
/// without a reply is answered with an empty success: no body and
/// no error.)
pub proof fn lemma_response_well_formed(id: Seq<char>, outcome: HandlerOutcomeView)
    requires
        !(outcome matches HandlerOutcomeView::Success { msg: None, .. }),
    ensures
        spec_response_for(id, outcome) matches MsgView::Response { error, id: rid, msg, .. }
            && rid == id && response_well_formed(error, msg),
{
}

/// What the agent does with one control message: answer a health
/// probe with its own heartbeat, set the shutdown flag, or
/// nothing. Returns the new shutdown flag and the reply owed on
/// the probe's channel.
pub fn agent_control_step(shutdown: bool, m: SystemMsg, now_millis: u128) -> (r: (
    bool,
    Option<SystemMsg>,
))
    ensures
        match m {
            SystemMsg::Health => r == (
                shutdown,
                Some(SystemMsg::Heartbeat(SystemComponent::Agent, now_millis)),
            ),
            SystemMsg::Shutdown => r == (true, None::<SystemMsg>),
            SystemMsg::Heartbeat(..) => r == (shutdown, None::<SystemMsg>),
        },
{
    match m {
        SystemMsg::Health => (
            shutdown,
            Some(SystemMsg::Heartbeat(SystemComponent::Agent, now_millis)),
        ),
        SystemMsg::Shutdown => (true, None),
        SystemMsg::Heartbeat(_, _) => (shutdown, None),
    }
}

/// The agent loop exits exactly when shutdown has been requested
/// and the mailbox has drained: in-flight work finishes, new work
/// is no longer taken.
pub fn agent_should_exit(shutdown: bool, mailbox_empty: bool) -> (r: bool)
    ensures
        r == (shutdown && mailbox_empty),
{
    shutdown && mailbox_empty
}

} // verus!

verus! {

/// One edge of a handler invocation, as the agent loop produces
/// them: an invocation begins, or the running invocation returns.
pub enum HandlerEvent {
    Begin,
    End,
}

/// The number of handler invocations open after a trace of
/// events.
pub open spec fn open_invocations(trace: Seq<HandlerEvent>) -> int
    decreases trace.len(),
{
    if trace.len() == 0 {
        0
    } else {
        open_invocations(trace.drop_last()) + match trace.last() {
            HandlerEvent::Begin => 1int,
            HandlerEvent::End => -1int,
        }
    }
}

/// True for the traces the agent loop can produce: it begins an
/// invocation only while none is open — the dispatch of one item
/// returns before the next item is planned — and an invocation
/// ends only while one is open.
pub open spec fn serial_trace(trace: Seq<HandlerEvent>) -> bool
    decreases trace.len(),
{
    if trace.len() == 0 {
        true
    } else {
        serial_trace(trace.drop_last()) && match trace.last() {
            HandlerEvent::Begin => open_invocations(trace.drop_last()) == 0,
            HandlerEvent::End => open_invocations(trace.drop_last()) == 1,
        }
    }
}

/// Handler invocations on one actor never overlap: over every
/// trace the agent loop can produce, the number of simultaneously
/// open handler invocations is at most one.
pub proof fn lemma_no_overlapping_invocations(trace: Seq<HandlerEvent>)
    requires
        serial_trace(trace),
    ensures
        0 <= open_invocations(trace) <= 1,
    decreases trace.len(),
{
    if trace.len() > 0 {
        lemma_no_overlapping_invocations(trace.drop_last());
    }
}

} // verus!
