//! The echo handler: every `Echo` request is answered by exactly one
//! `EchoOk` reply carrying the same string.

use vstd::prelude::*;

use crate::codec::JsonPayload;
use crate::json::json_string;
use crate::json::push_json_string;
use crate::json::push_str_chars;
use crate::protocol::Body;
use crate::protocol::Init;
use crate::protocol::Message;
use crate::protocol::MessageView;
use crate::protocol::Node;
use crate::protocol::response_view;
use crate::runs::counter_disciplined;
use crate::runs::lemma_monotonic_ids;
use crate::runs::reply_ids;
use crate::runs::run_replies;
use crate::runs::strictly_increasing;

verus! {

/// The echo handler's closed payload vocabulary.
pub enum Payload {
    Echo { echo: String },
    EchoOk { echo: String },
}

/// The mathematical model of the echo vocabulary.
pub enum PayloadView {
    Echo { echo: Seq<char> },
    EchoOk { echo: Seq<char> },
}

impl View for Payload {
    type V = PayloadView;

    open spec fn view(&self) -> PayloadView {
        match self {
            Payload::Echo { echo } => PayloadView::Echo { echo: echo@ },
            Payload::EchoOk { echo } => PayloadView::EchoOk { echo: echo@ },
        }
    }
}

impl JsonPayload for Payload {
    open spec fn tag_v(v: PayloadView) -> Seq<char> {
        match v {
            PayloadView::Echo { .. } => ("echo")@,
            PayloadView::EchoOk { .. } => ("echo_ok")@,
        }
    }

    open spec fn fields_v(v: PayloadView) -> Seq<char> {
        match v {
            PayloadView::Echo { echo } => (",\"echo\":")@ + json_string(echo),
            PayloadView::EchoOk { echo } => (",\"echo\":")@ + json_string(echo),
        }
    }

    fn push_tag(&self, out: &mut Vec<char>) {
        match self {
            Payload::Echo { .. } => push_str_chars(out, "echo"),
            Payload::EchoOk { .. } => push_str_chars(out, "echo_ok"),
        }
    }

    fn push_fields(&self, out: &mut Vec<char>) {
        match self {
            Payload::Echo { echo } => {
                push_str_chars(out, ",\"echo\":");
                push_json_string(out, echo.as_str());
            },
            Payload::EchoOk { echo } => {
                push_str_chars(out, ",\"echo\":");
                push_json_string(out, echo.as_str());
            },
        }
    }
}

/// The echo handler's private state: its assigned identity and the
/// outbound `msg_id` counter.
pub struct EchoNode {
    pub node_id: String,
    pub next_msg_id: usize,
}

/// The mathematical model of an `EchoNode`.
pub struct EchoNodeView {
    pub node_id: Seq<char>,
    pub next_msg_id: usize,
}

impl View for EchoNode {
    type V = EchoNodeView;

    open spec fn view(&self) -> EchoNodeView {
        EchoNodeView { node_id: self.node_id@, next_msg_id: self.next_msg_id }
    }
}

impl EchoNode {
    /// A fresh echo handler, owning the identity assigned by the
    /// handshake and starting its counter at `next_msg_id`.
    pub fn new(init: Init, next_msg_id: usize) -> (n: Self)
        ensures
            n@.node_id == init@.node_id,
            n@.next_msg_id == next_msg_id,
    {
        EchoNode { node_id: init.node_id, next_msg_id }
    }
}

impl Node<Payload> for EchoNode {
    open spec fn counter_of(v: EchoNodeView) -> usize {
        v.next_msg_id
    }

    open spec fn next_state(v: EchoNodeView, input: MessageView<PayloadView>) -> EchoNodeView {
        EchoNodeView { node_id: v.node_id, next_msg_id: (v.next_msg_id + 1) as usize }
    }

    open spec fn replies(v: EchoNodeView, input: MessageView<PayloadView>) -> Seq<
        MessageView<PayloadView>,
    > {
        match input.body.kind {
            PayloadView::Echo { echo } => seq![
                response_view(
                    input,
                    Some(v.next_msg_id),
                    v.node_id,
                    PayloadView::EchoOk { echo },
                ),
            ],
            PayloadView::EchoOk { .. } => Seq::empty(),
        }
    }

    fn step(&mut self, input: Message<Payload>) -> (out: Vec<Message<Payload>>) {
        let response = input.into_response(&mut self.next_msg_id, self.node_id.as_str());
        let Message { src, dest, body } = response;
        let Body { msg_id, in_reply_to, kind } = body;
        match kind {
            Payload::Echo { echo } => {
                let reply = Message {
                    src,
                    dest,
                    body: Body { msg_id, in_reply_to, kind: Payload::EchoOk { echo } },
                };
                let mut out: Vec<Message<Payload>> = Vec::new();
                out.push(reply);
                proof {
                    assert(out@.map_values(|m: Message<Payload>| m@) =~= Self::replies(
                        old(self)@,
                        input@,
                    ));
                }
                out
            },
            Payload::EchoOk { .. } => {
                let out: Vec<Message<Payload>> = Vec::new();
                proof {
                    assert(out@.map_values(|m: Message<Payload>| m@) =~= Self::replies(
                        old(self)@,
                        input@,
                    ));
                }
                out
            },
        }
    }
}

/// Echo identity: for every string `s`, an `Echo` request carrying `s`
/// yields exactly one reply, an `EchoOk` carrying `s` unchanged.
pub proof fn lemma_echo_identity(v: EchoNodeView, input: MessageView<PayloadView>, s: Seq<char>)
    requires
        input.body.kind == (PayloadView::Echo { echo: s }),
    ensures
        <EchoNode as Node<Payload>>::replies(v, input).len() == 1,
        <EchoNode as Node<Payload>>::replies(v, input)[0].body.kind == (PayloadView::EchoOk {
            echo: s,
        }),
{
}

/// The echo handler keeps the counter discipline: its counter advances by
/// exactly one per message, and the one identifier it may assign is the
/// counter's value before the step.
pub proof fn lemma_echo_disciplined()
    ensures
        counter_disciplined::<Payload, EchoNode>(),
{
    assert forall|v: EchoNodeView, m: MessageView<PayloadView>|
        <EchoNode as Node<Payload>>::counter_of(v) < usize::MAX implies {
        let c0 = <EchoNode as Node<Payload>>::counter_of(v);
        let c1 = <EchoNode as Node<Payload>>::counter_of(
            <EchoNode as Node<Payload>>::next_state(v, m),
        );
        let ids = reply_ids(#[trigger] <EchoNode as Node<Payload>>::replies(v, m));
        c0 <= c1 <= c0 + 1 && strictly_increasing(ids) && (forall|i: int|
            0 <= i < ids.len() ==> c0 <= #[trigger] ids[i] < c1)
    } by {
        let rs = <EchoNode as Node<Payload>>::replies(v, m);
        let ids = reply_ids(rs);
        match m.body.kind {
            PayloadView::Echo { echo } => {
                assert(rs.len() == 1);
                assert(rs[0].body.msg_id == Some(v.next_msg_id));
                assert(rs.drop_first() =~= Seq::<MessageView<PayloadView>>::empty());
                assert(reply_ids(rs.drop_first()) =~= Seq::<usize>::empty());
                assert(ids =~= seq![v.next_msg_id] + Seq::<usize>::empty());
                assert(ids =~= seq![v.next_msg_id]);
            },
            PayloadView::EchoOk { .. } => {
                assert(ids =~= Seq::<usize>::empty());
            },
        }
    }
}

/// Monotonic ids: across any sequence of requests that the echo
/// handler's counter can accommodate, the assigned reply `msg_id` values
/// are strictly increasing and never repeat.
pub proof fn lemma_echo_monotonic_ids(v: EchoNodeView, inputs: Seq<MessageView<PayloadView>>)
    requires
        v.next_msg_id + inputs.len() <= usize::MAX,
    ensures
        strictly_increasing(reply_ids(run_replies::<Payload, EchoNode>(v, inputs))),
{
    lemma_echo_disciplined();
    lemma_monotonic_ids::<Payload, EchoNode>(v, inputs);
}

/// Correlation, omission included: every reply of the echo handler
/// carries `in_reply_to` equal to the request's `msg_id`; in particular a
/// reply to a request without a `msg_id` carries no `in_reply_to`.
pub proof fn lemma_echo_correlation(v: EchoNodeView, input: MessageView<PayloadView>)
    ensures
        forall|i: int|
            0 <= i < <EchoNode as Node<Payload>>::replies(v, input).len()
                ==> (#[trigger] <EchoNode as Node<Payload>>::replies(v, input)[i]).body.in_reply_to
                == input.body.msg_id,
        input.body.msg_id is None ==> forall|i: int|
            0 <= i < <EchoNode as Node<Payload>>::replies(v, input).len()
                ==> (#[trigger] <EchoNode as Node<Payload>>::replies(v, input)[i]).body.in_reply_to
                is None,
{
}

} // verus!
