use distributed_systems::broadcast;
use distributed_systems::echo;
use distributed_systems::echo::EchoNode;
use distributed_systems::protocol::Body;
use distributed_systems::protocol::Init;
use distributed_systems::protocol::Message;
use distributed_systems::protocol::Node;

#[test]
fn string_escaping_matches_json() {
    let mut node = EchoNode::new(
        Init { node_id: "n1".to_string(), node_ids: vec!["n1".to_string()] },
        1,
    );
    let tricky = "a\"b\\c\nd\r\te\u{0001}f".to_string();
    let out = node.step(Message {
        src: "c1".to_string(),
        dest: "n1".to_string(),
        body: Body { msg_id: Some(2), in_reply_to: None, kind: echo::Payload::Echo { echo: tricky.clone() } },
    });
    let line = out[0].to_json_line();
    assert_eq!(
        line,
        "{\"src\":\"n1\",\"dest\":\"c1\",\"body\":{\"type\":\"echo_ok\",\"msg_id\":1,\"in_reply_to\":2,\"echo\":\"a\\\"b\\\\c\\nd\\r\\te\\u0001f\"}}"
    );
    let parsed: serde_json::Value = serde_json::from_str(&line).unwrap();
    assert_eq!(parsed["body"]["echo"].as_str(), Some(tricky.as_str()));
    assert_eq!(parsed["body"]["msg_id"].as_u64(), Some(1));
    assert_eq!(parsed["body"]["in_reply_to"].as_u64(), Some(2));
    assert_eq!(parsed["src"].as_str(), Some("n1"));
    assert_eq!(parsed["dest"].as_str(), Some("c1"));
}

#[test]
fn non_ascii_characters_pass_through() {
    let mut node = EchoNode::new(
        Init { node_id: "n1".to_string(), node_ids: vec!["n1".to_string()] },
        1,
    );
    let text = "héllo wörld ✓".to_string();
    let out = node.step(Message {
        src: "c1".to_string(),
        dest: "n1".to_string(),
        body: Body { msg_id: Some(2), in_reply_to: None, kind: echo::Payload::Echo { echo: text.clone() } },
    });
    let parsed: serde_json::Value = serde_json::from_str(&out[0].to_json_line()).unwrap();
    assert_eq!(parsed["body"]["echo"].as_str(), Some(text.as_str()));
}

#[test]
fn topology_request_renders_as_a_json_object() {
    let request = Message {
        src: "c1".to_string(),
        dest: "n1".to_string(),
        body: Body {
            msg_id: Some(7),
            in_reply_to: None,
            kind: broadcast::Payload::Topology {
                topology: vec![
                    ("n1".to_string(), vec!["n2".to_string(), "n3".to_string()]),
                    ("n2".to_string(), vec![]),
                ],
            },
        },
    };
    assert_eq!(
        request.to_json_line(),
        "{\"src\":\"c1\",\"dest\":\"n1\",\"body\":{\"type\":\"topology\",\"msg_id\":7,\"topology\":{\"n1\":[\"n2\",\"n3\"],\"n2\":[]}}}"
    );
}

#[test]
fn an_empty_topology_renders_as_an_empty_object() {
    let request = Message {
        src: "c1".to_string(),
        dest: "n1".to_string(),
        body: Body {
            msg_id: None,
            in_reply_to: None,
            kind: broadcast::Payload::Topology { topology: vec![] },
        },
    };
    assert_eq!(
        request.to_json_line(),
        "{\"src\":\"c1\",\"dest\":\"n1\",\"body\":{\"type\":\"topology\",\"topology\":{}}}"
    );
}

#[test]
fn broadcast_request_renders_its_value() {
    let request = Message {
        src: "c1".to_string(),
        dest: "n1".to_string(),
        body: Body {
            msg_id: Some(0),
            in_reply_to: None,
            kind: broadcast::Payload::Broadcast { message: 5 },
        },
    };
    assert_eq!(
        request.to_json_line(),
        "{\"src\":\"c1\",\"dest\":\"n1\",\"body\":{\"type\":\"broadcast\",\"msg_id\":0,\"message\":5}}"
    );
}
