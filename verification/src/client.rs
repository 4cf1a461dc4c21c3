//! The client side: building outbound envelopes, reading the
//! response that comes back on a request inbox, and the typed
//! mailbox binding that checks a message kind against the target
//! actor's declared dispatch table before anything is sent.
//!
//! The bus connection itself lives outside the library; callers
//! hand these functions plain values and carry the frames to the
//! bus themselves.
use vstd::prelude::*;

use crate::actor::{ActorKind, HollywoodMsg, HollywoodPublish, HollywoodRequest, HollywoodSend,
    MessageKind, MsgView, SubscribeType, spec_queue_address};
use crate::common::new_id_as_string;
use crate::dispatch::DispatchTable;
use crate::errors::HollywoodError;

verus! {

/// Wraps payload bytes as a request envelope under a fresh id.
pub fn new_request(msg: Vec<u8>, msg_version: String) -> (r: HollywoodMsg)
    ensures
        r@ matches MsgView::Request { id, msg: m, msg_version: v } && m == msg@ && v
            == msg_version@ && id.len() == 36,
{
    HollywoodMsg::Request(HollywoodRequest { id: new_id_as_string(), msg, msg_version })
}

/// Wraps payload bytes as a send envelope under a fresh id.
pub fn new_send(msg: Vec<u8>, msg_version: String) -> (r: HollywoodMsg)
    ensures
        r@ matches MsgView::Send { id, msg: m, msg_version: v } && m == msg@ && v == msg_version@
            && id.len() == 36,
{
    HollywoodMsg::Send(HollywoodSend { id: new_id_as_string(), msg, msg_version })
}

/// Wraps payload bytes as a publish envelope under a fresh id.
pub fn new_publish(msg: Vec<u8>, msg_version: String) -> (r: HollywoodMsg)
    ensures
        r@ matches MsgView::Publish { id, msg: m, msg_version: v } && m == msg@ && v
            == msg_version@ && id.len() == 36,
{
    HollywoodMsg::Publish(HollywoodPublish { id: new_id_as_string(), msg, msg_version })
}

/// Reads the envelope that arrived on a request inbox: the reply
/// body and its version on a response with a body; the carried
/// error on a response with only an error; an empty-response error
/// on a response with neither; a protocol error on any other
/// variant.
pub fn handle_response(m: HollywoodMsg) -> (r: Result<(String, Vec<u8>), HollywoodError>)
    ensures
        match m@ {
            MsgView::Response { error, id, msg, msg_version } => match msg {
                Some(body) => r matches Ok((v, b)) && v@ == msg_version && b@ == body,
                None => match error {
                    Some(e) => r matches Err(HollywoodError::ResponseError { id: i, message: mm })
                        && i@ == id && mm@ == e,
                    None => r matches Err(e) && e is EmptyResponse,
                },
            },
            _ => r matches Err(e) && e is UnexpectedVariant,
        },
{
    match m {
        HollywoodMsg::Response(resp) => match resp.msg {
            Some(body) => Ok((resp.msg_version, body)),
            None => match resp.error {
                Some(e) => Err(HollywoodError::ResponseError { id: resp.id, message: e }),
                None => Err(HollywoodError::EmptyResponse),
            },
        },
        _ => Err(HollywoodError::UnexpectedVariant),
    }
}

/// A typed mailbox binding: one actor kind, one message kind, and
/// the subject every call through this binding goes to. Opened
/// only after the message kind is checked against the actor's
/// declared dispatch table.
pub struct Mailbox {
    pub system_name: String,
    pub actor_name: String,
    pub actor_version: String,
    pub msg_name: String,
    pub msg_version: String,
    pub mailbox_name: String,
}

impl Mailbox {
    /// Opens a binding of a message kind to an actor kind. In
    /// queue mode the message kind must appear in the actor's
    /// dispatch table — an unsupported kind is a construction
    /// error — and the binding's subject is the derived queue
    /// address. In publish mode the binding's subject is the
    /// actor's declared subject, as it stands.
    pub fn new(
        system_name: String,
        actor: &ActorKind,
        msg: &MessageKind,
        subscribe_type: &SubscribeType,
        table: &DispatchTable,
    ) -> (r: Result<Mailbox, HollywoodError>)
        ensures
            match subscribe_type@ {
                crate::actor::SubscribeTypeView::Queue => {
                    if exists|i: int|
                        0 <= i < table@.len() && table@[i].name == msg.name@ && table@[i].version
                            == msg.version@ {
                        r matches Ok(mb) && mb.system_name@ == system_name@ && mb.actor_name@
                            == actor.name@ && mb.actor_version@ == actor.version@ && mb.msg_name@
                            == msg.name@ && mb.msg_version@ == msg.version@ && mb.mailbox_name@
                            == spec_queue_address(
                            system_name@,
                            actor.name@,
                            actor.version@,
                            msg.name@,
                            msg.version@,
                        )
                    } else {
                        r matches Err(e) && e is UnsupportedMessage
                    }
                },
                crate::actor::SubscribeTypeView::Publish { subject } => r matches Ok(mb)
                    && mb.system_name@ == system_name@ && mb.actor_name@ == actor.name@
                    && mb.actor_version@ == actor.version@ && mb.msg_name@ == msg.name@
                    && mb.msg_version@ == msg.version@ && mb.mailbox_name@ == subject,
            },
    {
        let mailbox_name = match subscribe_type {
            SubscribeType::Queue => {
                if !table.supports(&msg.name, &msg.version) {
                    return Err(
                        HollywoodError::UnsupportedMessage {
                            actor: actor.name_version(),
                            message: msg.dispatch_type(),
                        },
                    );
                }
                crate::actor::queue_address(&system_name, actor, msg)
            },
            SubscribeType::Publish { subject } => subject.clone(),
        };
        Ok(
            Mailbox {
                system_name,
                actor_name: actor.name.clone(),
                actor_version: actor.version.clone(),
                msg_name: msg.name.clone(),
                msg_version: msg.version.clone(),
                mailbox_name,
            },
        )
    }

    /// Checks a message kind against the binding: a safety net
    /// against generic misuse. The call is allowed exactly when
    /// both the name and the version match the binding.
    pub fn check_type(&self, msg_name: &String, msg_version: &String) -> (r: Result<
        (),
        HollywoodError,
    >)
        ensures
            if self.msg_name@ == msg_name@ && self.msg_version@ == msg_version@ {
                r is Ok
            } else {
                r matches Err(HollywoodError::InvalidMessageType { expected_name, expected_version })
                    && expected_name@ == self.msg_name@ && expected_version@ == self.msg_version@
            },
    {
        if self.msg_name.eq(msg_name) && self.msg_version.eq(msg_version) {
            Ok(())
        } else {
            Err(
                HollywoodError::InvalidMessageType {
                    expected_name: self.msg_name.clone(),
                    expected_version: self.msg_version.clone(),
                },
            )
        }
    }
}

} // verus!
