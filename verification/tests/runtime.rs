use hollywood::actor::{ActorKind, ActorMsg, ActorRequest, DispatchType, HollywoodMsg,
    HollywoodPublish, HollywoodRequest, HollywoodSend, MessageKind};
use hollywood::agent::{
    agent_control_step, agent_should_exit, plan_item, response_for, HandlerOutcome, ItemPlan,
};
use hollywood::broker::{
    broker_step, envelope_to_item, mailbox_gate, BrokerAction, BrokerObservation, BrokerState,
    BrokerTuning,
};
use hollywood::client::handle_response;
use hollywood::codec::{decode_msg, encode_msg};
use hollywood::dispatch::DispatchTable;
use hollywood::system::{SystemComponent, SystemMsg};

// The broker under test reads frames and moves them to the actor
// mailbox; its decisions are pure functions, driven here directly.
#[test]
fn it_works() {
    let result = 2 + 2;
    assert_eq!(result, 4);
}

fn table_v1(name: &str) -> DispatchTable {
    let mut t = DispatchTable::new();
    assert!(t.register(MessageKind::new(name.to_string(), "v1.0".to_string())));
    t
}

#[test]
fn envelope_with_reply_becomes_request_item() {
    let m = HollywoodMsg::Request(HollywoodRequest {
        id: "r1".to_string(),
        msg: vec![1],
        msg_version: "v1.0".to_string(),
    });
    match envelope_to_item(m, Some("inbox-7".to_string())) {
        Some(ActorMsg::Request(req)) => {
            assert_eq!(req.id, "r1");
            assert_eq!(req.msg, vec![1]);
            assert_eq!(req.msg_version, "v1.0");
            assert_eq!(req.reply_id, "inbox-7");
        }
        _ => panic!("expected a request item"),
    }
}

#[test]
fn envelope_without_reply_is_demoted_to_send() {
    let m = HollywoodMsg::Request(HollywoodRequest {
        id: "r1".to_string(),
        msg: vec![1],
        msg_version: "v1.0".to_string(),
    });
    match envelope_to_item(m, None) {
        Some(ActorMsg::Send(send)) => {
            assert_eq!(send.id, "r1");
            assert_eq!(send.msg, vec![1]);
            assert_eq!(send.msg_version, "v1.0");
        }
        _ => panic!("a request without a reply subject must become a send item"),
    }
}

#[test]
fn send_and_publish_envelopes_map_by_tag() {
    let send = HollywoodMsg::Send(HollywoodSend {
        id: "s".to_string(),
        msg: vec![2],
        msg_version: "v1.0".to_string(),
    });
    assert!(matches!(envelope_to_item(send, None), Some(ActorMsg::Send(_))));
    let publish = HollywoodMsg::Publish(HollywoodPublish {
        id: "p".to_string(),
        msg: vec![3],
        msg_version: "v1.0".to_string(),
    });
    assert!(matches!(envelope_to_item(publish, None), Some(ActorMsg::Subscribe(_))));
}

#[test]
fn response_envelope_is_dropped_inbound() {
    let m = HollywoodMsg::Response(hollywood::actor::HollywoodResponse {
        error: None,
        id: "r".to_string(),
        msg: Some(vec![]),
        msg_version: "v1.0".to_string(),
    });
    assert!(envelope_to_item(m, Some("inbox".to_string())).is_none());
}

#[test]
fn gate_opens_below_the_maximum() {
    assert!(!mailbox_gate(None, 1_000_000));
    assert!(!mailbox_gate(Some(5), 4));
    assert!(mailbox_gate(Some(5), 5));
    assert!(mailbox_gate(Some(5), 6));
    assert!(mailbox_gate(Some(0), 0));
}

#[test]
fn idle_backoff_grows_by_steps_and_caps() {
    let tuning = BrokerTuning::default();
    let mut state = BrokerState::new();
    let mut expected: u64 = 0;
    for _ in 0..150 {
        let action = broker_step(&mut state, BrokerObservation::Idle, &tuning, 0);
        expected = std::cmp::min(expected + 10, 1000);
        match action {
            BrokerAction::Sleep(ms) => assert_eq!(ms, expected),
            _ => panic!("an idle poll must end in a sleep"),
        }
        assert_eq!(state.backoff_millis, expected);
    }
    assert_eq!(state.backoff_millis, 1000);
}

#[test]
fn received_frame_resets_backoff_and_enqueues() {
    let tuning = BrokerTuning::default();
    let mut state = BrokerState::new();
    for _ in 0..3 {
        broker_step(&mut state, BrokerObservation::Idle, &tuning, 0);
    }
    assert_eq!(state.backoff_millis, 30);
    let frame = encode_msg(&HollywoodMsg::Send(HollywoodSend {
        id: "s1".to_string(),
        msg: vec![9],
        msg_version: "v1.0".to_string(),
    }));
    let action = broker_step(&mut state, BrokerObservation::Bus(frame, None), &tuning, 0);
    assert_eq!(state.backoff_millis, 0);
    match action {
        BrokerAction::Enqueue(ActorMsg::Send(send)) => assert_eq!(send.id, "s1"),
        _ => panic!("a decoded send frame must be enqueued"),
    }
}

#[test]
fn malformed_and_protocol_frames_are_dropped() {
    let tuning = BrokerTuning::default();
    let mut state = BrokerState::new();
    let action = broker_step(
        &mut state,
        BrokerObservation::Bus(b"garbage".to_vec(), None),
        &tuning,
        0,
    );
    assert!(matches!(action, BrokerAction::DropMalformed));
    let frame = encode_msg(&HollywoodMsg::Response(hollywood::actor::HollywoodResponse {
        error: None,
        id: "r".to_string(),
        msg: Some(vec![]),
        msg_version: "v1.0".to_string(),
    }));
    let action = broker_step(&mut state, BrokerObservation::Bus(frame, None), &tuning, 0);
    assert!(matches!(action, BrokerAction::DropProtocol));
}

#[test]
fn broker_control_messages() {
    let tuning = BrokerTuning::default();
    let mut state = BrokerState::new();
    let action = broker_step(
        &mut state,
        BrokerObservation::Control(SystemMsg::Health),
        &tuning,
        777,
    );
    match action {
        BrokerAction::SendHeartbeat(h) => {
            assert_eq!(h, SystemMsg::Heartbeat(SystemComponent::Broker, 777))
        }
        _ => panic!("a health probe must be answered with a heartbeat"),
    }
    assert!(state.running);
    let action = broker_step(
        &mut state,
        BrokerObservation::Control(SystemMsg::Shutdown),
        &tuning,
        0,
    );
    assert!(matches!(action, BrokerAction::Stop));
    assert!(!state.running);
}

#[test]
fn plan_selects_handler_by_tag() {
    let t = table_v1("XMsg");
    let req = ActorMsg::Request(ActorRequest {
        id: "r".to_string(),
        msg_version: "v1.0".to_string(),
        msg: vec![],
        reply_id: "inbox".to_string(),
    });
    match plan_item(&t, req) {
        ItemPlan::Invoke { entry, kind, item } => {
            assert_eq!(entry, 0);
            assert!(matches!(kind, DispatchType::Request));
            assert!(matches!(item, ActorMsg::Request(_)));
        }
        _ => panic!("a declared request version must be invoked"),
    }
    let sub = ActorMsg::Subscribe(hollywood::actor::ActorSubscribe {
        id: "p".to_string(),
        msg_version: "v1.0".to_string(),
        msg: vec![],
    });
    match plan_item(&t, sub) {
        ItemPlan::Invoke { kind, .. } => assert!(matches!(kind, DispatchType::Subscribe)),
        _ => panic!("a declared subscribe version must be invoked"),
    }
}

#[test]
fn unknown_version_request_gets_error_reply() {
    let t = table_v1("XMsg");
    let req = ActorMsg::Request(ActorRequest {
        id: "r".to_string(),
        msg_version: "v9.9".to_string(),
        msg: vec![],
        reply_id: "inbox-3".to_string(),
    });
    match plan_item(&t, req) {
        ItemPlan::ReplyError { reply_id, response } => {
            assert_eq!(reply_id, "inbox-3");
            match response {
                HollywoodMsg::Response(r) => {
                    assert_eq!(r.id, "r");
                    assert_eq!(r.msg, None);
                    assert_eq!(r.error.as_deref(), Some("unsupported message version"));
                }
                _ => panic!("the reply must be a response envelope"),
            }
        }
        _ => panic!("an unknown version on a request owes an error reply"),
    }
    let send = ActorMsg::Send(hollywood::actor::ActorSend {
        id: "s".to_string(),
        msg_version: "v9.9".to_string(),
        msg: vec![],
    });
    assert!(matches!(plan_item(&t, send), ItemPlan::Drop));
}

#[test]
fn mailbox_control_items() {
    let t = table_v1("XMsg");
    assert!(matches!(plan_item(&t, ActorMsg::Health), ItemPlan::Ignore));
    assert!(matches!(plan_item(&t, ActorMsg::Shutdown), ItemPlan::SetShutdown));
}

#[test]
fn request_outcomes_become_responses() {
    // success with a body
    let r = response_for(
        "r1".to_string(),
        &DispatchType::Request,
        HandlerOutcome::Success {
            msg_version: Some("v1.0".to_string()),
            msg: Some(vec![4, 5]),
        },
    );
    match r {
        Some(HollywoodMsg::Response(resp)) => {
            assert_eq!(resp.id, "r1");
            assert_eq!(resp.msg, Some(vec![4, 5]));
            assert_eq!(resp.msg_version, "v1.0");
            assert_eq!(resp.error, None);
        }
        _ => panic!("a request outcome must become a response"),
    }
    // handler error: expect msg=None, error carried verbatim
    let r = response_for(
        "r2".to_string(),
        &DispatchType::Request,
        HandlerOutcome::Failure { message: "boom".to_string() },
    );
    match r {
        Some(HollywoodMsg::Response(resp)) => {
            assert_eq!(resp.id, "r2");
            assert_eq!(resp.msg, None);
            assert_eq!(resp.error.as_deref(), Some("boom"));
        }
        _ => panic!("a failed request must still get its one response"),
    }
    // success with no body and no version: the empty ok
    let r = response_for(
        "r3".to_string(),
        &DispatchType::Request,
        HandlerOutcome::Success { msg_version: None, msg: None },
    );
    match r {
        Some(HollywoodMsg::Response(resp)) => {
            assert_eq!(resp.msg, None);
            assert_eq!(resp.error, None);
            assert_eq!(resp.msg_version, "unknown_version");
        }
        _ => panic!("an empty success must still get its one response"),
    }
    // send and subscribe outcomes never publish a reply
    let r = response_for(
        "s1".to_string(),
        &DispatchType::Send,
        HandlerOutcome::Failure { message: "boom".to_string() },
    );
    assert!(r.is_none());
    let r = response_for(
        "p1".to_string(),
        &DispatchType::Subscribe,
        HandlerOutcome::Success { msg_version: None, msg: None },
    );
    assert!(r.is_none());
}

#[test]
fn agent_control_and_exit() {
    assert_eq!(
        agent_control_step(false, SystemMsg::Health, 42),
        (false, Some(SystemMsg::Heartbeat(SystemComponent::Agent, 42)))
    );
    assert_eq!(agent_control_step(false, SystemMsg::Shutdown, 0), (true, None));
    assert_eq!(
        agent_control_step(true, SystemMsg::Heartbeat(SystemComponent::Broker, 1), 0),
        (true, None)
    );
    assert!(!agent_should_exit(false, true));
    assert!(!agent_should_exit(true, false));
    assert!(agent_should_exit(true, true));
}

// Hello round-trip, at the value level: the wire frames, the
// broker mapping, the agent plan and the reply cross one process
// boundary after another and come back exact.
#[test]
fn hello_roundtrip_through_the_pipeline() {
    let hello = b"Hello".to_vec();
    let ack = b"HelloAck".to_vec();

    // client side: a request frame for XMsg/v1.0
    let frame = encode_msg(&HollywoodMsg::Request(HollywoodRequest {
        id: "r1".to_string(),
        msg: hello.clone(),
        msg_version: "v1.0".to_string(),
    }));

    // broker side: decode, then map with the inbox reply subject
    let envelope = decode_msg(&frame).expect("the frame is canonical");
    let item = envelope_to_item(envelope, Some("_INBOX.r1".to_string())).unwrap();

    // agent side: plan, run the handler, format the reply
    let table = table_v1("XMsg");
    let reply = match plan_item(&table, item) {
        ItemPlan::Invoke { kind, item: ActorMsg::Request(req), .. } => {
            assert!(matches!(kind, DispatchType::Request));
            assert_eq!(req.msg, hello);
            response_for(
                req.id,
                &DispatchType::Request,
                HandlerOutcome::Success {
                    msg_version: Some("v1.0".to_string()),
                    msg: Some(ack.clone()),
                },
            )
            .unwrap()
        }
        _ => panic!("the hello request must reach the request handler"),
    };
    let reply_frame = encode_msg(&reply);

    // client side again: decode the inbox frame and surface the body
    let back = decode_msg(&reply_frame).expect("the reply frame is canonical");
    let (version, body) = handle_response(back).expect("the reply carries a body");
    assert_eq!(version, "v1.0");
    assert_eq!(body, ack);
}

// Publish fan-out, at the value level: both subscribers decode the
// same frame into the same subscribe item, once each.
#[test]
fn publish_fans_out_to_both_subscribers() {
    let event = b"Event".to_vec();
    let frame = encode_msg(&HollywoodMsg::Publish(HollywoodPublish {
        id: "p1".to_string(),
        msg: event.clone(),
        msg_version: "v1.0".to_string(),
    }));
    let mut deliveries = Vec::new();
    for actor in ["Z", "ZZ"] {
        let envelope = decode_msg(&frame).expect("the frame is canonical");
        let item = envelope_to_item(envelope, None).unwrap();
        let table = table_v1("ZMsg");
        match plan_item(&table, item) {
            ItemPlan::Invoke { kind, item: ActorMsg::Subscribe(sub), .. } => {
                assert!(matches!(kind, DispatchType::Subscribe));
                assert_eq!(sub.msg, event);
                deliveries.push(actor);
            }
            _ => panic!("each subscriber must reach its subscribe handler"),
        }
    }
    assert_eq!(deliveries, vec!["Z", "ZZ"]);
}

// Backpressure: a producer that pauses whenever the mailbox is at
// capacity, beside a consumer that drains one item per cycle,
// keeps the depth at or below the maximum, and all messages arrive.
#[test]
fn backpressure_caps_the_mailbox_depth() {
    let max: u32 = 5;
    let mut mailbox: Vec<u32> = Vec::new();
    let mut sent: u32 = 0;
    let mut handled: u32 = 0;
    let mut peak: usize = 0;
    while handled < 50 {
        if sent < 50 && !mailbox_gate(Some(max), mailbox.len()) {
            mailbox.push(sent);
            sent += 1;
        } else if !mailbox.is_empty() {
            assert_eq!(mailbox.remove(0), handled);
            handled += 1;
        }
        peak = std::cmp::max(peak, mailbox.len());
        assert!(mailbox.len() <= max as usize);
    }
    assert_eq!(peak, 5);
    assert_eq!(handled, 50);
}

#[test]
fn version_tag_value() {
    assert_eq!(hollywood::actor::VERSION_V1_0, "v1.0");
}

#[test]
fn actor_kind_formats() {
    let a = ActorKind::new("X".to_string(), "v1.0".to_string());
    assert_eq!(a.name_version(), "X/v1.0");
    let m = MessageKind::new("XMsg".to_string(), "v1.0".to_string());
    assert_eq!(m.dispatch_type(), "XMsg/v1.0");
}
