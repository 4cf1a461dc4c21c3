use hollywood::actor::{ActorKind, HollywoodMsg, HollywoodRequest, MessageKind, RunOpts,
    SubscribeType};
use hollywood::client::{handle_response, new_publish, new_request, new_send, Mailbox};
use hollywood::config::{parse_env_pair, system_has_uri, validate_actors_dev,
    validate_actors_test, Actor, ActorDev, ActorTest, Config, ConfigProblem, System};
use hollywood::dispatch::DispatchTable;
use hollywood::env::{format_hollywood_system, format_hollywood_system_nats_uri};
use hollywood::errors::HollywoodError;
use hollywood::common::{epoch_as_millis, epoch_as_secs};
use hollywood::{mailbox_name, actor::queue_address};

fn table_with(name: &str, version: &str) -> DispatchTable {
    let mut t = DispatchTable::new();
    assert!(t.register(MessageKind::new(name.to_string(), version.to_string())));
    t
}

#[test]
fn mailbox_name_formats() {
    assert_eq!(
        mailbox_name(&"demo".to_string(), &"X/v1.0::XMsg/v1.0".to_string()),
        "hollywood://demo@X/v1.0::XMsg/v1.0"
    );
}

#[test]
fn queue_address_formats() {
    let addr = queue_address(
        &"demo".to_string(),
        &ActorKind::new("X".to_string(), "v1.0".to_string()),
        &MessageKind::new("XMsg".to_string(), "v1.0".to_string()),
    );
    assert_eq!(addr, "hollywood://demo@X/v1.0::XMsg/v1.0");
}

#[test]
fn queue_addresses_differ_per_component() {
    let addr = |s: &str, a: &str, av: &str, m: &str, mv: &str| {
        queue_address(
            &s.to_string(),
            &ActorKind::new(a.to_string(), av.to_string()),
            &MessageKind::new(m.to_string(), mv.to_string()),
        )
    };
    let base = addr("demo", "X", "v1.0", "XMsg", "v1.0");
    assert_ne!(base, addr("prod", "X", "v1.0", "XMsg", "v1.0"));
    assert_ne!(base, addr("demo", "Y", "v1.0", "XMsg", "v1.0"));
    assert_ne!(base, addr("demo", "X", "v2.0", "XMsg", "v1.0"));
    assert_ne!(base, addr("demo", "X", "v1.0", "YMsg", "v1.0"));
    assert_ne!(base, addr("demo", "X", "v1.0", "XMsg", "v2.0"));
}

#[test]
fn dispatch_table_registers_and_looks_up() {
    let mut t = DispatchTable::new();
    assert_eq!(t.len(), 0);
    assert!(t.register(MessageKind::new("XMsg".to_string(), "v1.0".to_string())));
    assert!(t.register(MessageKind::new("XMsgNext".to_string(), "v2.0".to_string())));
    // a second entry under an already-registered version is refused
    assert!(!t.register(MessageKind::new("Other".to_string(), "v1.0".to_string())));
    assert_eq!(t.len(), 2);
    assert_eq!(t.find_version(&"v1.0".to_string()), Some(0));
    assert_eq!(t.find_version(&"v2.0".to_string()), Some(1));
    assert_eq!(t.find_version(&"v9.0".to_string()), None);
    assert!(t.supports(&"XMsg".to_string(), &"v1.0".to_string()));
    assert!(!t.supports(&"XMsg".to_string(), &"v2.0".to_string()));
    assert_eq!(t.dispatch_types(), vec!["XMsg/v1.0", "XMsgNext/v2.0"]);
}

#[test]
fn mailbox_addresses_per_mode() {
    let t = {
        let mut t = table_with("XMsg", "v1.0");
        assert!(t.register(MessageKind::new("XMsg".to_string(), "v2.0".to_string())));
        t
    };
    let actor = ActorKind::new("X".to_string(), "v1.0".to_string());
    let queued = t.mailbox_addresses(&"demo".to_string(), &actor, &SubscribeType::Queue);
    assert_eq!(
        queued,
        vec![
            "hollywood://demo@X/v1.0::XMsg/v1.0".to_string(),
            "hollywood://demo@X/v1.0::XMsg/v2.0".to_string(),
        ]
    );
    let published = t.mailbox_addresses(
        &"demo".to_string(),
        &actor,
        &SubscribeType::Publish { subject: "subject-one".to_string() },
    );
    assert_eq!(published, vec!["subject-one".to_string()]);
}

#[test]
fn new_frames_carry_fresh_ids() {
    let a = new_request(vec![1], "v1.0".to_string());
    let b = new_request(vec![1], "v1.0".to_string());
    match (&a, &b) {
        (HollywoodMsg::Request(ra), HollywoodMsg::Request(rb)) => {
            assert_eq!(ra.id.len(), 36);
            assert_eq!(rb.id.len(), 36);
            assert_ne!(ra.id, rb.id);
            assert_eq!(ra.msg, vec![1]);
            assert_eq!(ra.msg_version, "v1.0");
        }
        _ => panic!("new_request must build a request envelope"),
    }
    assert!(matches!(new_send(vec![], "v1.0".to_string()), HollywoodMsg::Send(_)));
    assert!(matches!(new_publish(vec![], "v1.0".to_string()), HollywoodMsg::Publish(_)));
}

#[test]
fn response_surface_to_the_caller() {
    let ok = HollywoodMsg::Response(hollywood::actor::HollywoodResponse {
        error: None,
        id: "r1".to_string(),
        msg: Some(vec![8]),
        msg_version: "v1.0".to_string(),
    });
    assert_eq!(handle_response(ok).unwrap(), ("v1.0".to_string(), vec![8]));

    let failed = HollywoodMsg::Response(hollywood::actor::HollywoodResponse {
        error: Some("boom".to_string()),
        id: "r2".to_string(),
        msg: None,
        msg_version: String::new(),
    });
    match handle_response(failed) {
        Err(HollywoodError::ResponseError { id, message }) => {
            assert_eq!(id, "r2");
            assert_eq!(message, "boom");
        }
        _ => panic!("a response with an error must surface it"),
    }

    let empty = HollywoodMsg::Response(hollywood::actor::HollywoodResponse {
        error: None,
        id: "r3".to_string(),
        msg: None,
        msg_version: String::new(),
    });
    assert!(matches!(handle_response(empty), Err(HollywoodError::EmptyResponse)));

    let stray = HollywoodMsg::Request(HollywoodRequest {
        id: "r4".to_string(),
        msg: vec![],
        msg_version: "v1.0".to_string(),
    });
    assert!(matches!(handle_response(stray), Err(HollywoodError::UnexpectedVariant)));
}

#[test]
fn mailbox_binding_validates_the_message_kind() {
    let t = table_with("XMsg", "v1.0");
    let actor = ActorKind::new("X".to_string(), "v1.0".to_string());
    let msg = MessageKind::new("XMsg".to_string(), "v1.0".to_string());
    let mb = Mailbox::new("demo".to_string(), &actor, &msg, &SubscribeType::Queue, &t).unwrap();
    assert_eq!(mb.mailbox_name, "hollywood://demo@X/v1.0::XMsg/v1.0");
    assert!(mb.check_type(&"XMsg".to_string(), &"v1.0".to_string()).is_ok());
    match mb.check_type(&"YMsg".to_string(), &"v1.0".to_string()) {
        Err(HollywoodError::InvalidMessageType { expected_name, expected_version }) => {
            assert_eq!(expected_name, "XMsg");
            assert_eq!(expected_version, "v1.0");
        }
        _ => panic!("a foreign message kind must be refused at call time"),
    }

    let other = MessageKind::new("YMsg".to_string(), "v1.0".to_string());
    match Mailbox::new("demo".to_string(), &actor, &other, &SubscribeType::Queue, &t) {
        Err(HollywoodError::UnsupportedMessage { actor, message }) => {
            assert_eq!(actor, "X/v1.0");
            assert_eq!(message, "YMsg/v1.0");
        }
        _ => panic!("an undeclared message kind must be refused at construction"),
    }

    let publish = SubscribeType::Publish { subject: "subject-one".to_string() };
    let mb = Mailbox::new("demo".to_string(), &actor, &other, &publish, &t).unwrap();
    assert_eq!(mb.mailbox_name, "subject-one");
}

#[test]
fn run_opts_carry_their_fields() {
    let opts = RunOpts::new("demo".to_string(), 7u32, "nats://127.0.0.1".to_string());
    assert_eq!(opts.system_name, "demo");
    assert_eq!(opts.actor, 7);
    assert_eq!(opts.actor_mailbox_max_size, None);
    assert_eq!(opts.nats_uri, "nats://127.0.0.1");
    let opts = opts.with_actor_mailbox_max_size(Some(5));
    assert_eq!(opts.actor_mailbox_max_size, Some(5));
}

#[test]
fn env_variable_names() {
    assert_eq!(format_hollywood_system(), "HOLLYWOOD_SYSTEM");
    assert_eq!(
        format_hollywood_system_nats_uri("demo".to_string()),
        "HOLLYWOOD_SYSTEM_DEMO_NATS_URI"
    );
    assert_eq!(
        format_hollywood_system_nats_uri("Sys-One".to_string()),
        "HOLLYWOOD_SYSTEM_SYS-ONE_NATS_URI"
    );
}

#[test]
fn clock_reads_the_epoch() {
    let millis = epoch_as_millis();
    let secs = epoch_as_secs();
    // both readings come after 2020-01-01
    assert!(millis > 1_577_836_800_000);
    assert!(secs > 1_577_836_800);
}

fn dev_actor(name: &str, path: &str, bin: &str) -> Actor {
    Actor {
        name: name.to_string(),
        dev: Some(ActorDev {
            path: path.to_string(),
            bin: bin.to_string(),
            env: vec!["ENV1=env1".to_string()],
            watch: vec!["dep1".to_string()],
        }),
        test: None,
    }
}

#[test]
fn dev_descriptors_are_validated() {
    let good = vec![dev_actor("A", "examples/a", "a"), dev_actor("B", "examples/b", "b")];
    assert!(validate_actors_dev(&good).is_ok());

    let missing = vec![Actor { name: "A".to_string(), dev: None, test: None }];
    assert!(matches!(validate_actors_dev(&missing), Err(ConfigProblem::MissingDev)));

    let empty_path = vec![dev_actor("A", "", "a")];
    assert!(matches!(validate_actors_dev(&empty_path), Err(ConfigProblem::EmptyDevPath)));

    let empty_bin = vec![dev_actor("A", "examples/a", "")];
    assert!(matches!(validate_actors_dev(&empty_bin), Err(ConfigProblem::EmptyDevBin)));
}

#[test]
fn test_descriptors_are_validated() {
    let good = vec![Actor {
        name: "A".to_string(),
        dev: None,
        test: Some(ActorTest { bin: "a".to_string(), env: vec![] }),
    }];
    assert!(validate_actors_test(&good).is_ok());

    let missing = vec![Actor { name: "A".to_string(), dev: None, test: None }];
    assert!(matches!(validate_actors_test(&missing), Err(ConfigProblem::MissingTest)));

    let empty_bin = vec![Actor {
        name: "A".to_string(),
        dev: None,
        test: Some(ActorTest { bin: String::new(), env: vec![] }),
    }];
    assert!(matches!(validate_actors_test(&empty_bin), Err(ConfigProblem::EmptyTestBin)));
}

#[test]
fn systems_are_found_by_name() {
    let cfg = Config {
        system: vec![
            System { name: "system1".to_string(), nats_uri: "nats://system1".to_string() },
            System { name: "system2".to_string(), nats_uri: "nats://system2".to_string() },
        ],
        actor: vec![],
    };
    assert_eq!(cfg.find_system(&"system1".to_string()), Some(0));
    assert_eq!(cfg.find_system(&"system2".to_string()), Some(1));
    assert_eq!(cfg.find_system(&"system3".to_string()), None);
}

#[test]
fn env_entries_split_on_the_first_equals() {
    assert_eq!(
        parse_env_pair(&"ENV1=env1".to_string()),
        Some(("ENV1".to_string(), "env1".to_string()))
    );
    // only the part up to a second `=` counts as the value
    assert_eq!(
        parse_env_pair(&"A=B=C".to_string()),
        Some(("A".to_string(), "B".to_string()))
    );
    assert_eq!(
        parse_env_pair(&"=x".to_string()),
        Some((String::new(), "x".to_string()))
    );
    assert_eq!(
        parse_env_pair(&"TRAILING=".to_string()),
        Some(("TRAILING".to_string(), String::new()))
    );
    assert_eq!(parse_env_pair(&"novalue".to_string()), None);
    assert_eq!(parse_env_pair(&String::new()), None);
}

#[test]
fn systems_need_a_bus_uri() {
    assert!(system_has_uri(&System {
        name: "s".to_string(),
        nats_uri: "nats://127.0.0.1".to_string(),
    }));
    assert!(!system_has_uri(&System { name: "s".to_string(), nats_uri: String::new() }));
}
