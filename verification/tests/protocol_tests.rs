use distributed_systems::protocol::handshake_reply;
use distributed_systems::protocol::Body;
use distributed_systems::protocol::HandshakeError;
use distributed_systems::protocol::Init;
use distributed_systems::protocol::InitPayload;
use distributed_systems::protocol::Message;

fn init_request(msg_id: Option<usize>) -> Message<InitPayload> {
    Message {
        src: "c1".to_string(),
        dest: "n1".to_string(),
        body: Body {
            msg_id,
            in_reply_to: None,
            kind: InitPayload::Init(Init {
                node_id: "n1".to_string(),
                node_ids: vec!["n1".to_string()],
            }),
        },
    }
}

#[test]
fn handshake_writes_the_init_ok_line() {
    let (init, reply) = handshake_reply(init_request(Some(1))).unwrap();
    assert_eq!(init.node_id, "n1");
    assert_eq!(init.node_ids, vec!["n1".to_string()]);
    assert_eq!(
        reply.to_json_line(),
        "{\"src\":\"n1\",\"dest\":\"c1\",\"body\":{\"type\":\"init_ok\",\"msg_id\":0,\"in_reply_to\":1}}"
    );
}

#[test]
fn handshake_without_msg_id_omits_in_reply_to() {
    let (_, reply) = handshake_reply(init_request(None)).unwrap();
    let line = reply.to_json_line();
    assert!(!line.contains("in_reply_to"));
    assert_eq!(
        line,
        "{\"src\":\"n1\",\"dest\":\"c1\",\"body\":{\"type\":\"init_ok\",\"msg_id\":0}}"
    );
}

#[test]
fn handshake_rejects_a_non_init_first_message() {
    let bad = Message {
        src: "c1".to_string(),
        dest: "n1".to_string(),
        body: Body { msg_id: Some(1), in_reply_to: None, kind: InitPayload::InitOk },
    };
    match handshake_reply(bad) {
        Ok(_) => panic!("a non-init first message must be rejected"),
        Err(HandshakeError::NotInit) => {},
    }
}

#[test]
fn into_response_swaps_endpoints_and_advances_the_counter() {
    let request: Message<InitPayload> = Message {
        src: "c9".to_string(),
        dest: "n4".to_string(),
        body: Body { msg_id: Some(9), in_reply_to: None, kind: InitPayload::InitOk },
    };
    let mut counter: usize = 5;
    let reply = request.into_response(&mut counter, "n4");
    assert_eq!(counter, 6);
    assert_eq!(reply.src, "n4");
    assert_eq!(reply.dest, "c9");
    assert_eq!(reply.body.msg_id, Some(5));
    assert_eq!(reply.body.in_reply_to, Some(9));
}

#[test]
fn into_response_unnumbered_assigns_no_msg_id() {
    let request: Message<InitPayload> = Message {
        src: "c9".to_string(),
        dest: "n4".to_string(),
        body: Body { msg_id: None, in_reply_to: None, kind: InitPayload::InitOk },
    };
    let reply = request.into_response_unnumbered("n4");
    assert_eq!(reply.body.msg_id, None);
    assert_eq!(reply.body.in_reply_to, None);
    assert_eq!(reply.src, "n4");
    assert_eq!(reply.dest, "c9");
}

#[test]
fn init_request_renders_with_the_node_ids_array() {
    let request = Message {
        src: "c1".to_string(),
        dest: "n1".to_string(),
        body: Body {
            msg_id: Some(1),
            in_reply_to: None,
            kind: InitPayload::Init(Init {
                node_id: "n1".to_string(),
                node_ids: vec!["n1".to_string(), "n2".to_string()],
            }),
        },
    };
    assert_eq!(
        request.to_json_line(),
        "{\"src\":\"c1\",\"dest\":\"n1\",\"body\":{\"type\":\"init\",\"msg_id\":1,\"node_id\":\"n1\",\"node_ids\":[\"n1\",\"n2\"]}}"
    );
}
