//! The unique-id handler: every `Generate` request is answered by one
//! `GenerateOk` carrying an identifier derived from the node's identity
//! and its counter, so that no two identifiers from one node ever repeat.

use vstd::prelude::*;

use crate::codec::JsonPayload;
use crate::json::chars_to_string;
use crate::json::dec_rep;
use crate::json::json_string;
use crate::json::push_dec;
use crate::json::push_json_string;
use crate::json::push_str_chars;
use crate::protocol::Body;
use crate::protocol::Message;
use crate::protocol::MessageView;
use crate::protocol::Node;
use crate::protocol::response_view;
use crate::runs::counter_disciplined;
use crate::runs::lemma_monotonic_ids;
use crate::runs::reply_ids;
use crate::runs::run_replies;
use crate::runs::strictly_increasing;

verus! {

/// The unique-id handler's closed payload vocabulary.  On the wire the
/// identifier field of `GenerateOk` is called `id`.
pub enum Payload {
    Generate,
    GenerateOk { guid: String },
}

/// The mathematical model of the unique-id vocabulary.
pub enum PayloadView {
    Generate,
    GenerateOk { guid: Seq<char> },
}

impl View for Payload {
    type V = PayloadView;

    open spec fn view(&self) -> PayloadView {
        match self {
            Payload::Generate => PayloadView::Generate,
            Payload::GenerateOk { guid } => PayloadView::GenerateOk { guid: guid@ },
        }
    }
}

impl JsonPayload for Payload {
    open spec fn tag_v(v: PayloadView) -> Seq<char> {
        match v {
            PayloadView::Generate => ("generate")@,
            PayloadView::GenerateOk { .. } => ("generate_ok")@,
        }
    }

    open spec fn fields_v(v: PayloadView) -> Seq<char> {
        match v {
            PayloadView::Generate => Seq::<char>::empty(),
            PayloadView::GenerateOk { guid } => (",\"id\":")@ + json_string(guid),
        }
    }

    fn push_tag(&self, out: &mut Vec<char>) {
        match self {
            Payload::Generate => push_str_chars(out, "generate"),
            Payload::GenerateOk { .. } => push_str_chars(out, "generate_ok"),
        }
    }

    fn push_fields(&self, out: &mut Vec<char>) {
        match self {
            Payload::Generate => {},
            Payload::GenerateOk { guid } => {
                push_str_chars(out, ",\"id\":");
                push_json_string(out, guid.as_str());
            },
        }
    }
}

/// The identifier handed out for counter value `n` by the node whose
/// identity is `node`: the identity, a dash, and the counter in decimal.
pub open spec fn guid_of(node: Seq<char>, n: usize) -> Seq<char> {
    node + seq!['-'] + dec_rep(n as nat)
}

/// The unique-id handler's private state: its assigned identity and the
/// counter that numbers both the replies and the identifiers.
pub struct GenerateNode {
    pub src: String,
    pub id: usize,
}

/// The mathematical model of a `GenerateNode`.
pub struct GenerateNodeView {
    pub src: Seq<char>,
    pub id: usize,
}

impl View for GenerateNode {
    type V = GenerateNodeView;

    open spec fn view(&self) -> GenerateNodeView {
        GenerateNodeView { src: self.src@, id: self.id }
    }
}

impl GenerateNode {
    /// A fresh unique-id handler with identity `src`, starting its
    /// counter at `id`.
    pub fn new(src: String, id: usize) -> (n: Self)
        ensures
            n@.src == src@,
            n@.id == id,
    {
        GenerateNode { src, id }
    }
}

impl Node<Payload> for GenerateNode {
    open spec fn counter_of(v: GenerateNodeView) -> usize {
        v.id
    }

    open spec fn next_state(v: GenerateNodeView, input: MessageView<PayloadView>) -> GenerateNodeView {
        match input.body.kind {
            PayloadView::Generate => GenerateNodeView { src: v.src, id: (v.id + 1) as usize },
            PayloadView::GenerateOk { .. } => v,
        }
    }

    open spec fn replies(v: GenerateNodeView, input: MessageView<PayloadView>) -> Seq<
        MessageView<PayloadView>,
    > {
        match input.body.kind {
            PayloadView::Generate => seq![
                response_view(
                    input,
                    Some(v.id),
                    v.src,
                    PayloadView::GenerateOk { guid: guid_of(v.src, v.id) },
                ),
            ],
            PayloadView::GenerateOk { .. } => Seq::empty(),
        }
    }

    fn step(&mut self, input: Message<Payload>) -> (out: Vec<Message<Payload>>) {
        let Message { src: in_src, dest: _, body } = input;
        let Body { msg_id, in_reply_to: _, kind } = body;
        match kind {
            Payload::Generate => {
                let mut g: Vec<char> = Vec::new();
                push_str_chars(&mut g, self.src.as_str());
                g.push('-');
                push_dec(&mut g, self.id);
                let guid = chars_to_string(&g);
                let reply = Message {
                    src: self.src.clone(),
                    dest: in_src,
                    body: Body {
                        msg_id: Some(self.id),
                        in_reply_to: msg_id,
                        kind: Payload::GenerateOk { guid },
                    },
                };
                self.id = self.id + 1;
                let mut out: Vec<Message<Payload>> = Vec::new();
                out.push(reply);
                proof {
                    assert(guid@ =~= guid_of(old(self)@.src, old(self)@.id));
                    assert(out@.map_values(|m: Message<Payload>| m@) =~= Self::replies(
                        old(self)@,
                        input@,
                    ));
                }
                out
            },
            Payload::GenerateOk { .. } => {
                let out: Vec<Message<Payload>> = Vec::new();
                proof {
                    assert(out@.map_values(|m: Message<Payload>| m@) =~= Self::replies(
                        old(self)@,
                        input@,
                    ));
                }
                out
            },
        }
    }
}

/// Correlation, omission included: every reply of the unique-id handler
/// carries `in_reply_to` equal to the request's `msg_id`; in particular a
/// reply to a request without a `msg_id` carries no `in_reply_to`.
pub proof fn lemma_generate_correlation(v: GenerateNodeView, input: MessageView<PayloadView>)
    ensures
        forall|i: int|
            0 <= i < <GenerateNode as Node<Payload>>::replies(v, input).len()
                ==> (#[trigger] <GenerateNode as Node<Payload>>::replies(v, input)[i]).body.in_reply_to
                == input.body.msg_id,
        input.body.msg_id is None ==> forall|i: int|
            0 <= i < <GenerateNode as Node<Payload>>::replies(v, input).len()
                ==> (#[trigger] <GenerateNode as Node<Payload>>::replies(v, input)[i]).body.in_reply_to
                is None,
{
}

/// A run never writes more replies than it read requests.
pub proof fn lemma_generate_run_len(v: GenerateNodeView, inputs: Seq<MessageView<PayloadView>>)
    ensures
        run_replies::<Payload, GenerateNode>(v, inputs).len() <= inputs.len(),
    decreases inputs.len(),
{
    if inputs.len() > 0 {
        lemma_generate_run_len(
            <GenerateNode as Node<Payload>>::next_state(v, inputs[0]),
            inputs.drop_first(),
        );
    }
}

/// Generator determinism: in any run whose length the counter can
/// accommodate, the reply at position `j` (0-indexed; position `n - 1`
/// for the `n`-th `Generate` request) is a `GenerateOk` whose identifier
/// is derived from the node's identity and `j` alone, and it is sent from
/// that identity.
pub proof fn lemma_generate_determinism(
    v: GenerateNodeView,
    inputs: Seq<MessageView<PayloadView>>,
    j: int,
)
    requires
        v.id + inputs.len() <= usize::MAX,
        0 <= j < run_replies::<Payload, GenerateNode>(v, inputs).len(),
    ensures
        run_replies::<Payload, GenerateNode>(v, inputs)[j].body.kind == (PayloadView::GenerateOk {
            guid: guid_of(v.src, (v.id + j) as usize),
        }),
        run_replies::<Payload, GenerateNode>(v, inputs)[j].src == v.src,
    decreases inputs.len(),
{
    lemma_generate_run_len(v, inputs);
    let m = inputs[0];
    let v1 = <GenerateNode as Node<Payload>>::next_state(v, m);
    let rest = inputs.drop_first();
    let head = <GenerateNode as Node<Payload>>::replies(v, m);
    let tail = run_replies::<Payload, GenerateNode>(v1, rest);
    match m.body.kind {
        PayloadView::Generate => {
            assert(head.len() == 1);
            if j == 0 {
                assert(run_replies::<Payload, GenerateNode>(v, inputs)[0] == head[0]);
                assert((v.id + 0) as usize == v.id);
            } else {
                lemma_generate_determinism(v1, rest, j - 1);
                assert(run_replies::<Payload, GenerateNode>(v, inputs)[j] == tail[j - 1]);
                assert(v1.id == v.id + 1);
                assert((v1.id + (j - 1)) as usize == (v.id + j) as usize);
            }
        },
        PayloadView::GenerateOk { .. } => {
            assert(head.len() == 0);
            lemma_generate_determinism(v1, rest, j);
            assert(run_replies::<Payload, GenerateNode>(v, inputs)[j] == tail[j]);
        },
    }
}

/// No two identifiers handed out in one run are ever equal: the replies
/// at two different positions carry different payloads, because their
/// identifiers differ.
pub proof fn lemma_generate_ids_distinct(
    v: GenerateNodeView,
    inputs: Seq<MessageView<PayloadView>>,
    j: int,
    k: int,
)
    requires
        v.id + inputs.len() <= usize::MAX,
        0 <= j < k < run_replies::<Payload, GenerateNode>(v, inputs).len(),
    ensures
        run_replies::<Payload, GenerateNode>(v, inputs)[j].body.kind != run_replies::<
            Payload,
            GenerateNode,
        >(v, inputs)[k].body.kind,
{
    lemma_generate_run_len(v, inputs);
    lemma_generate_determinism(v, inputs, j);
    lemma_generate_determinism(v, inputs, k);
    let nj = (v.id + j) as usize;
    let nk = (v.id + k) as usize;
    let p = v.src + seq!['-'];
    let dj = dec_rep(nj as nat);
    let dk = dec_rep(nk as nat);
    if guid_of(v.src, nj) == guid_of(v.src, nk) {
        assert(guid_of(v.src, nj) == p + dj);
        assert(guid_of(v.src, nk) == p + dk);
        assert(p + dj == p + dk);
        assert((p + dj).len() == p.len() + dj.len());
        assert((p + dk).len() == p.len() + dk.len());
        assert(dj.len() == dk.len());
        assert(dj =~= (p + dj).subrange(p.len() as int, (p + dj).len() as int));
        assert(dk =~= (p + dk).subrange(p.len() as int, (p + dk).len() as int));
        assert(dj == dk);
        crate::json::lemma_dec_rep_injective(nj as nat, nk as nat);
        assert(false);
    }
}

/// The unique-id handler keeps the counter discipline: answering a
/// `Generate` consumes exactly the counter's value, and any other message
/// leaves the counter alone.
pub proof fn lemma_generate_disciplined()
    ensures
        counter_disciplined::<Payload, GenerateNode>(),
{
    assert forall|v: GenerateNodeView, m: MessageView<PayloadView>|
        <GenerateNode as Node<Payload>>::counter_of(v) < usize::MAX implies {
        let c0 = <GenerateNode as Node<Payload>>::counter_of(v);
        let c1 = <GenerateNode as Node<Payload>>::counter_of(
            <GenerateNode as Node<Payload>>::next_state(v, m),
        );
        let ids = reply_ids(#[trigger] <GenerateNode as Node<Payload>>::replies(v, m));
        c0 <= c1 <= c0 + 1 && strictly_increasing(ids) && (forall|i: int|
            0 <= i < ids.len() ==> c0 <= #[trigger] ids[i] < c1)
    } by {
        let rs = <GenerateNode as Node<Payload>>::replies(v, m);
        let ids = reply_ids(rs);
        match m.body.kind {
            PayloadView::Generate => {
                assert(rs.len() == 1);
                assert(rs[0].body.msg_id == Some(v.id));
                assert(rs.drop_first() =~= Seq::<MessageView<PayloadView>>::empty());
                assert(reply_ids(rs.drop_first()) =~= Seq::<usize>::empty());
                assert(ids =~= seq![v.id] + Seq::<usize>::empty());
                assert(ids =~= seq![v.id]);
            },
            PayloadView::GenerateOk { .. } => {
                assert(ids =~= Seq::<usize>::empty());
            },
        }
    }
}

/// Monotonic ids: across any sequence of requests that the unique-id
/// handler's counter can accommodate, the assigned reply `msg_id` values
/// are strictly increasing and never repeat.
pub proof fn lemma_generate_monotonic_ids(
    v: GenerateNodeView,
    inputs: Seq<MessageView<PayloadView>>,
)
    requires
        v.id + inputs.len() <= usize::MAX,
    ensures
        strictly_increasing(reply_ids(run_replies::<Payload, GenerateNode>(v, inputs))),
{
    lemma_generate_disciplined();
    lemma_monotonic_ids::<Payload, GenerateNode>(v, inputs);
}

} // verus!
