use hollywood::actor::{
    HollywoodMsg, HollywoodPublish, HollywoodRequest, HollywoodResponse, HollywoodSend,
};
use hollywood::codec::{decode_msg, encode_msg};

fn request(id: &str, msg: Vec<u8>, ver: &str) -> HollywoodMsg {
    HollywoodMsg::Request(HollywoodRequest {
        id: id.to_string(),
        msg,
        msg_version: ver.to_string(),
    })
}

fn assert_roundtrip(m: &HollywoodMsg) {
    let bytes = encode_msg(m);
    let back = decode_msg(&bytes).expect("canonical frame must decode");
    match (m, &back) {
        (HollywoodMsg::Request(a), HollywoodMsg::Request(b)) => {
            assert_eq!(a.id, b.id);
            assert_eq!(a.msg, b.msg);
            assert_eq!(a.msg_version, b.msg_version);
        }
        (HollywoodMsg::Response(a), HollywoodMsg::Response(b)) => {
            assert_eq!(a.error, b.error);
            assert_eq!(a.id, b.id);
            assert_eq!(a.msg, b.msg);
            assert_eq!(a.msg_version, b.msg_version);
        }
        (HollywoodMsg::Send(a), HollywoodMsg::Send(b)) => {
            assert_eq!(a.id, b.id);
            assert_eq!(a.msg, b.msg);
            assert_eq!(a.msg_version, b.msg_version);
        }
        (HollywoodMsg::Publish(a), HollywoodMsg::Publish(b)) => {
            assert_eq!(a.id, b.id);
            assert_eq!(a.msg, b.msg);
            assert_eq!(a.msg_version, b.msg_version);
        }
        _ => panic!("variant changed across the round trip"),
    }
}

#[test]
fn encode_request_exact_bytes() {
    let m = request("r1", vec![1, 2, 3], "v1.0");
    let bytes = encode_msg(&m);
    assert_eq!(
        String::from_utf8(bytes).unwrap(),
        r#"{"type":"Request","id":"r1","msg":[1,2,3],"msg_version":"v1.0"}"#
    );
}

#[test]
fn encode_response_exact_bytes() {
    let m = HollywoodMsg::Response(HollywoodResponse {
        error: None,
        id: "r1".to_string(),
        msg: Some(vec![0, 255]),
        msg_version: "v1.0".to_string(),
    });
    let bytes = encode_msg(&m);
    assert_eq!(
        String::from_utf8(bytes).unwrap(),
        r#"{"type":"Response","error":null,"id":"r1","msg":[0,255],"msg_version":"v1.0"}"#
    );
}

#[test]
fn encode_error_response_exact_bytes() {
    let m = HollywoodMsg::Response(HollywoodResponse {
        error: Some("boom".to_string()),
        id: "r9".to_string(),
        msg: None,
        msg_version: String::new(),
    });
    let bytes = encode_msg(&m);
    assert_eq!(
        String::from_utf8(bytes).unwrap(),
        r#"{"type":"Response","error":"boom","id":"r9","msg":null,"msg_version":""}"#
    );
}

#[test]
fn roundtrip_all_variants() {
    assert_roundtrip(&request("a-b-c", vec![], "v1.0"));
    assert_roundtrip(&HollywoodMsg::Send(HollywoodSend {
        id: "s1".to_string(),
        msg: vec![0, 1, 9, 10, 99, 100, 254, 255],
        msg_version: "v2.3".to_string(),
    }));
    assert_roundtrip(&HollywoodMsg::Publish(HollywoodPublish {
        id: "p1".to_string(),
        msg: vec![42],
        msg_version: "v1.0".to_string(),
    }));
    assert_roundtrip(&HollywoodMsg::Response(HollywoodResponse {
        error: None,
        id: "r1".to_string(),
        msg: Some(vec![7, 8]),
        msg_version: "v1.0".to_string(),
    }));
    assert_roundtrip(&HollywoodMsg::Response(HollywoodResponse {
        error: Some("no luck".to_string()),
        id: "r2".to_string(),
        msg: None,
        msg_version: String::new(),
    }));
}

#[test]
fn roundtrip_escaped_strings() {
    assert_roundtrip(&request("quote\" back\\slash", vec![1], "v\n1.0"));
    assert_roundtrip(&request("\u{1}\u{2}\u{1f}", vec![], "v1.0"));
    assert_roundtrip(&HollywoodMsg::Response(HollywoodResponse {
        error: Some("line1\nline2\ttabbed \"quoted\"".to_string()),
        id: "r3".to_string(),
        msg: None,
        msg_version: "v1.0".to_string(),
    }));
}

#[test]
fn roundtrip_non_ascii_strings() {
    assert_roundtrip(&request("naïve-識別子-🎬", vec![3], "v1.0"));
}

#[test]
fn escapes_on_the_wire() {
    let m = request("a\"b", vec![], "v1.0");
    let bytes = encode_msg(&m);
    assert_eq!(
        String::from_utf8(bytes).unwrap(),
        "{\"type\":\"Request\",\"id\":\"a\\\"b\",\"msg\":[],\"msg_version\":\"v1.0\"}"
    );
    let m = request("\u{1f}", vec![], "v1.0");
    let bytes = encode_msg(&m);
    assert_eq!(
        String::from_utf8(bytes).unwrap(),
        "{\"type\":\"Request\",\"id\":\"\\u001f\",\"msg\":[],\"msg_version\":\"v1.0\"}"
    );
}

#[test]
fn decode_rejects_unknown_tag() {
    let bytes = br#"{"type":"Bogus","id":"x","msg":[],"msg_version":"v1.0"}"#;
    assert!(decode_msg(bytes).is_none());
}

#[test]
fn decode_rejects_malformed_frames() {
    assert!(decode_msg(b"").is_none());
    assert!(decode_msg(b"not json at all").is_none());
    assert!(decode_msg(br#"{"type":"Request","id":"x"}"#).is_none());
    assert!(decode_msg(br#"{"type":"Request","id":"x","msg":[1,],"msg_version":"v"}"#).is_none());
    assert!(decode_msg(br#"{"type":"Request","id":"x","msg":[256],"msg_version":"v"}"#).is_none());
    assert!(decode_msg(br#"{"type":"Request","id":"x","msg":[01],"msg_version":"v"}"#).is_none());
    // trailing garbage after the closing brace
    assert!(decode_msg(br#"{"type":"Request","id":"x","msg":[],"msg_version":"v"}!"#).is_none());
}

#[test]
fn decode_rejects_invalid_utf8_in_strings() {
    // a lone continuation byte inside the id string
    let mut bytes = Vec::new();
    bytes.extend_from_slice(br#"{"type":"Request","id":""#);
    bytes.push(0xff);
    bytes.extend_from_slice(br#"","msg":[],"msg_version":"v1.0"}"#);
    assert!(decode_msg(&bytes).is_none());
}

#[test]
fn decode_accepts_canonical_response_with_null_fields() {
    let bytes = br#"{"type":"Response","error":null,"id":"i","msg":null,"msg_version":"v"}"#;
    match decode_msg(bytes) {
        Some(HollywoodMsg::Response(r)) => {
            assert_eq!(r.error, None);
            assert_eq!(r.id, "i");
            assert_eq!(r.msg, None);
            assert_eq!(r.msg_version, "v");
        }
        _ => panic!("expected a response envelope"),
    }
}

#[test]
fn from_bytes_mirrors_decode() {
    let m = request("r1", vec![5], "v1.0");
    let bytes = m.into_bytes();
    assert!(HollywoodMsg::from_bytes(&bytes).is_some());
}

#[test]
fn reencode_restores_the_frame() {
    let frames: [&[u8]; 4] = [
        br#"{"type":"Request","id":"r1","msg":[1,2,3],"msg_version":"v1.0"}"#,
        br#"{"type":"Response","error":null,"id":"i","msg":null,"msg_version":"v"}"#,
        br#"{"type":"Send","id":"\u0001\"x\\","msg":[],"msg_version":"v1.0"}"#,
        br#"{"type":"Publish","id":"p","msg":[0,9,10,99,100,255],"msg_version":"v2"}"#,
    ];
    for frame in frames {
        let m = decode_msg(frame).expect("the frame is canonical");
        assert_eq!(encode_msg(&m), frame.to_vec());
    }
}
