use distributed_systems::broadcast;
use distributed_systems::broadcast::BroadcastNode;
use distributed_systems::echo;
use distributed_systems::echo::EchoNode;
use distributed_systems::generate;
use distributed_systems::generate::GenerateNode;
use distributed_systems::protocol::Body;
use distributed_systems::protocol::Init;
use distributed_systems::protocol::Message;
use distributed_systems::protocol::Node;

fn test_init() -> Init {
    Init { node_id: "n1".to_string(), node_ids: vec!["n1".to_string()] }
}

fn envelope<P>(msg_id: Option<usize>, kind: P) -> Message<P> {
    Message {
        src: "c1".to_string(),
        dest: "n1".to_string(),
        body: Body { msg_id, in_reply_to: None, kind },
    }
}

#[test]
fn echo_replies_with_the_same_string() {
    let mut node = EchoNode::new(test_init(), 1);
    let out = node.step(envelope(Some(2), echo::Payload::Echo { echo: "hello".to_string() }));
    assert_eq!(out.len(), 1);
    assert_eq!(
        out[0].to_json_line(),
        "{\"src\":\"n1\",\"dest\":\"c1\",\"body\":{\"type\":\"echo_ok\",\"msg_id\":1,\"in_reply_to\":2,\"echo\":\"hello\"}}"
    );
    assert_eq!(node.next_msg_id, 2);
}

#[test]
fn echo_of_the_empty_string_is_empty() {
    let mut node = EchoNode::new(test_init(), 1);
    let out = node.step(envelope(Some(2), echo::Payload::Echo { echo: String::new() }));
    assert_eq!(
        out[0].to_json_line(),
        "{\"src\":\"n1\",\"dest\":\"c1\",\"body\":{\"type\":\"echo_ok\",\"msg_id\":1,\"in_reply_to\":2,\"echo\":\"\"}}"
    );
}

#[test]
fn echo_ok_is_terminal_but_still_consumes_an_id() {
    let mut node = EchoNode::new(test_init(), 1);
    let out = node.step(envelope(Some(2), echo::Payload::EchoOk { echo: "x".to_string() }));
    assert!(out.is_empty());
    assert_eq!(node.next_msg_id, 2);
}

#[test]
fn echo_reply_to_a_request_without_msg_id_omits_in_reply_to() {
    let mut node = EchoNode::new(test_init(), 1);
    let out = node.step(envelope(None, echo::Payload::Echo { echo: "hi".to_string() }));
    let line = out[0].to_json_line();
    assert!(!line.contains("in_reply_to"));
    assert_eq!(
        line,
        "{\"src\":\"n1\",\"dest\":\"c1\",\"body\":{\"type\":\"echo_ok\",\"msg_id\":1,\"echo\":\"hi\"}}"
    );
}

#[test]
fn generate_hands_out_consecutive_distinct_ids() {
    let mut node = GenerateNode::new("n1".to_string(), 1);
    let first = node.step(envelope(Some(2), generate::Payload::Generate));
    let second = node.step(envelope(Some(3), generate::Payload::Generate));
    assert_eq!(
        first[0].to_json_line(),
        "{\"src\":\"n1\",\"dest\":\"c1\",\"body\":{\"type\":\"generate_ok\",\"msg_id\":1,\"in_reply_to\":2,\"id\":\"n1-1\"}}"
    );
    assert_eq!(
        second[0].to_json_line(),
        "{\"src\":\"n1\",\"dest\":\"c1\",\"body\":{\"type\":\"generate_ok\",\"msg_id\":2,\"in_reply_to\":3,\"id\":\"n1-2\"}}"
    );
}

#[test]
fn generate_ok_is_terminal_and_keeps_the_counter() {
    let mut node = GenerateNode::new("n1".to_string(), 7);
    let out = node.step(envelope(Some(2), generate::Payload::GenerateOk {
        guid: "n9-4".to_string(),
    }));
    assert!(out.is_empty());
    assert_eq!(node.id, 7);
}

#[test]
fn broadcast_deduplicates_and_read_returns_the_store() {
    let mut node = BroadcastNode::new(test_init(), 1);
    let b1 = node.step(envelope(Some(2), broadcast::Payload::Broadcast { message: 5 }));
    let b2 = node.step(envelope(Some(3), broadcast::Payload::Broadcast { message: 5 }));
    let read = node.step(envelope(Some(4), broadcast::Payload::Read));
    assert_eq!(
        b1[0].to_json_line(),
        "{\"src\":\"n1\",\"dest\":\"c1\",\"body\":{\"type\":\"broadcast_ok\",\"msg_id\":1,\"in_reply_to\":2}}"
    );
    assert_eq!(
        b2[0].to_json_line(),
        "{\"src\":\"n1\",\"dest\":\"c1\",\"body\":{\"type\":\"broadcast_ok\",\"msg_id\":2,\"in_reply_to\":3}}"
    );
    assert_eq!(
        read[0].to_json_line(),
        "{\"src\":\"n1\",\"dest\":\"c1\",\"body\":{\"type\":\"read_ok\",\"msg_id\":3,\"in_reply_to\":4,\"messages\":[5]}}"
    );
}

#[test]
fn broadcast_keeps_first_arrival_order() {
    let mut node = BroadcastNode::new(test_init(), 1);
    node.step(envelope(Some(2), broadcast::Payload::Broadcast { message: 9 }));
    node.step(envelope(Some(3), broadcast::Payload::Broadcast { message: 4 }));
    node.step(envelope(Some(4), broadcast::Payload::Broadcast { message: 9 }));
    let read = node.step(envelope(Some(5), broadcast::Payload::Read));
    assert_eq!(
        read[0].to_json_line(),
        "{\"src\":\"n1\",\"dest\":\"c1\",\"body\":{\"type\":\"read_ok\",\"msg_id\":4,\"in_reply_to\":5,\"messages\":[9,4]}}"
    );
}

#[test]
fn read_of_an_empty_store_is_an_empty_array() {
    let mut node = BroadcastNode::new(test_init(), 1);
    let read = node.step(envelope(Some(2), broadcast::Payload::Read));
    assert_eq!(
        read[0].to_json_line(),
        "{\"src\":\"n1\",\"dest\":\"c1\",\"body\":{\"type\":\"read_ok\",\"msg_id\":1,\"in_reply_to\":2,\"messages\":[]}}"
    );
}

#[test]
fn topology_is_stored_exactly_and_replaced_wholesale() {
    let mut node = BroadcastNode::new(test_init(), 1);
    let t1 = vec![("n1".to_string(), vec!["n2".to_string()])];
    let t2 = vec![
        ("n1".to_string(), vec!["n3".to_string()]),
        ("n3".to_string(), vec![]),
    ];
    let ok1 = node.step(envelope(Some(2), broadcast::Payload::Topology { topology: t1.clone() }));
    assert_eq!(node.topology, t1);
    assert_eq!(
        ok1[0].to_json_line(),
        "{\"src\":\"n1\",\"dest\":\"c1\",\"body\":{\"type\":\"topology_ok\",\"msg_id\":1,\"in_reply_to\":2}}"
    );
    node.step(envelope(Some(3), broadcast::Payload::Topology { topology: t2.clone() }));
    assert_eq!(node.topology, t2);
}

#[test]
fn reply_msg_ids_increase_across_a_mixed_run() {
    let mut node = BroadcastNode::new(test_init(), 1);
    let mut assigned: Vec<u64> = Vec::new();
    let inputs = vec![
        broadcast::Payload::Broadcast { message: 7 },
        broadcast::Payload::Read,
        broadcast::Payload::Topology { topology: vec![] },
        broadcast::Payload::BroadcastOk,
        broadcast::Payload::Read,
    ];
    for (i, kind) in inputs.into_iter().enumerate() {
        for reply in node.step(envelope(Some(10 + i), kind)) {
            let parsed: serde_json::Value =
                serde_json::from_str(&reply.to_json_line()).unwrap();
            assigned.push(parsed["body"]["msg_id"].as_u64().unwrap());
        }
    }
    assert_eq!(assigned, vec![1, 2, 3, 5]);
}

#[test]
fn broadcast_stores_the_largest_value() {
    let mut node = BroadcastNode::new(test_init(), 1);
    node.step(envelope(Some(2), broadcast::Payload::Broadcast { message: usize::MAX }));
    let read = node.step(envelope(Some(3), broadcast::Payload::Read));
    assert_eq!(
        read[0].to_json_line(),
        "{\"src\":\"n1\",\"dest\":\"c1\",\"body\":{\"type\":\"read_ok\",\"msg_id\":2,\"in_reply_to\":3,\"messages\":[18446744073709551615]}}"
    );
}
