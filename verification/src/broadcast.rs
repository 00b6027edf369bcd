//! The local broadcast store: `Broadcast` records a value, `Read` hands
//! the recorded values back, and `Topology` stores the neighbour map.
//!
//! The store deduplicates: a value broadcast twice is recorded once, and
//! `Read` returns the distinct values in first-arrival order.  The
//! topology map is stored verbatim and is informational only: values are
//! never forwarded to the neighbours it names.

use vstd::prelude::*;

use crate::codec::JsonPayload;
use crate::json::json_string;
use crate::json::json_string_array;
use crate::json::json_usize_array;
use crate::json::push_dec;
use crate::json::push_json_string;
use crate::json::push_str_chars;
use crate::json::push_string_array;
use crate::json::push_usize_array;
use crate::protocol::Body;
use crate::protocol::Init;
use crate::protocol::Message;
use crate::protocol::MessageView;
use crate::protocol::Node;
use crate::protocol::response_view;
use crate::runs::counter_disciplined;
use crate::runs::lemma_monotonic_ids;
use crate::runs::reply_ids;
use crate::runs::run_replies;
use crate::runs::strictly_increasing;

verus! {

/// The model of a neighbour map: the key-value pairs in the order they
/// appeared on the wire.
pub type TopologyView = Seq<(Seq<char>, Seq<Seq<char>>)>;

/// The mathematical model of a stored neighbour map.
pub open spec fn topology_view(t: Seq<(String, Vec<String>)>) -> TopologyView {
    t.map_values(|p: (String, Vec<String>)| (p.0@, p.1.deep_view()))
}

/// The broadcast handler's closed payload vocabulary.
pub enum Payload {
    Broadcast { message: usize },
    BroadcastOk,
    Topology { topology: Vec<(String, Vec<String>)> },
    TopologyOk,
    Read,
    ReadOk { messages: Vec<usize> },
}

/// The mathematical model of the broadcast vocabulary.
pub enum PayloadView {
    Broadcast { message: usize },
    BroadcastOk,
    Topology { topology: TopologyView },
    TopologyOk,
    Read,
    ReadOk { messages: Seq<usize> },
}

impl View for Payload {
    type V = PayloadView;

    open spec fn view(&self) -> PayloadView {
        match self {
            Payload::Broadcast { message } => PayloadView::Broadcast { message: *message },
            Payload::BroadcastOk => PayloadView::BroadcastOk,
            Payload::Topology { topology } => PayloadView::Topology {
                topology: topology_view(topology@),
            },
            Payload::TopologyOk => PayloadView::TopologyOk,
            Payload::Read => PayloadView::Read,
            Payload::ReadOk { messages } => PayloadView::ReadOk { messages: messages@ },
        }
    }
}

/// The members of a JSON object rendering of a neighbour map, separated
/// by commas.
pub open spec fn topology_entries(t: TopologyView) -> Seq<char>
    decreases t.len(),
{
    if t.len() == 0 {
        Seq::empty()
    } else if t.len() == 1 {
        json_string(t[0].0) + seq![':'] + json_string_array(t[0].1)
    } else {
        json_string(t[0].0) + seq![':'] + json_string_array(t[0].1) + seq![',']
            + topology_entries(t.drop_first())
    }
}

/// A complete JSON object rendering of a neighbour map.
pub open spec fn json_topology(t: TopologyView) -> Seq<char> {
    seq!['{'] + topology_entries(t) + seq!['}']
}

fn push_topology_entries(out: &mut Vec<char>, t: &Vec<(String, Vec<String>)>, i: usize)
    requires
        i <= t@.len(),
    ensures
        final(out)@ == old(out)@ + topology_entries(
            topology_view(t@).subrange(i as int, t@.len() as int),
        ),
    decreases t@.len() - i,
{
    if i < t.len() {
        let entry = &t[i];
        push_json_string(out, entry.0.as_str());
        out.push(':');
        push_string_array(out, &entry.1);
        if i + 1 < t.len() {
            out.push(',');
        }
        push_topology_entries(out, t, i + 1);
        proof {
            let tv = topology_view(t@);
            let rest = tv.subrange(i as int, tv.len() as int);
            assert(rest[0] == tv[i as int]);
            assert(tv[i as int].0 == t@[i as int].0@);
            assert(tv[i as int].1 == t@[i as int].1.deep_view());
            assert(rest.drop_first() =~= tv.subrange(i + 1, tv.len() as int));
            assert(final(out)@ =~= old(out)@ + topology_entries(rest));
        }
    } else {
        proof {
            let tv = topology_view(t@);
            assert(tv.subrange(i as int, tv.len() as int) =~= Seq::<
                (Seq<char>, Seq<Seq<char>>),
            >::empty());
        }
    }
}

/// Appends the complete JSON object for the neighbour map `t` to `out`.
pub fn push_topology(out: &mut Vec<char>, t: &Vec<(String, Vec<String>)>)
    ensures
        final(out)@ == old(out)@ + json_topology(topology_view(t@)),
{
    out.push('{');
    push_topology_entries(out, t, 0);
    out.push('}');
    proof {
        let tv = topology_view(t@);
        assert(tv.subrange(0, tv.len() as int) =~= tv);
        assert(final(out)@ =~= old(out)@ + json_topology(tv));
    }
}

impl JsonPayload for Payload {
    open spec fn tag_v(v: PayloadView) -> Seq<char> {
        match v {
            PayloadView::Broadcast { .. } => ("broadcast")@,
            PayloadView::BroadcastOk => ("broadcast_ok")@,
            PayloadView::Topology { .. } => ("topology")@,
            PayloadView::TopologyOk => ("topology_ok")@,
            PayloadView::Read => ("read")@,
            PayloadView::ReadOk { .. } => ("read_ok")@,
        }
    }

    open spec fn fields_v(v: PayloadView) -> Seq<char> {
        match v {
            PayloadView::Broadcast { message } => (",\"message\":")@ + crate::json::dec_rep(
                message as nat,
            ),
            PayloadView::Topology { topology } => (",\"topology\":")@ + json_topology(topology),
            PayloadView::ReadOk { messages } => (",\"messages\":")@ + json_usize_array(messages),
            PayloadView::BroadcastOk => Seq::<char>::empty(),
            PayloadView::TopologyOk => Seq::<char>::empty(),
            PayloadView::Read => Seq::<char>::empty(),
        }
    }

    fn push_tag(&self, out: &mut Vec<char>) {
        match self {
            Payload::Broadcast { .. } => push_str_chars(out, "broadcast"),
            Payload::BroadcastOk => push_str_chars(out, "broadcast_ok"),
            Payload::Topology { .. } => push_str_chars(out, "topology"),
            Payload::TopologyOk => push_str_chars(out, "topology_ok"),
            Payload::Read => push_str_chars(out, "read"),
            Payload::ReadOk { .. } => push_str_chars(out, "read_ok"),
        }
    }

    fn push_fields(&self, out: &mut Vec<char>) {
        match self {
            Payload::Broadcast { message } => {
                push_str_chars(out, ",\"message\":");
                push_dec(out, *message);
            },
            Payload::Topology { topology } => {
                push_str_chars(out, ",\"topology\":");
                push_topology(out, topology);
            },
            Payload::ReadOk { messages } => {
                push_str_chars(out, ",\"messages\":");
                push_usize_array(out, messages);
            },
            Payload::BroadcastOk => {},
            Payload::TopologyOk => {},
            Payload::Read => {},
        }
    }
}

/// The broadcast handler's private state: its identity, the outbound
/// `msg_id` counter, the distinct values received so far in first-arrival
/// order, and the last neighbour map received.
pub struct BroadcastNode {
    pub node_id: String,
    pub next_msg_id: usize,
    pub messages: Vec<usize>,
    pub topology: Vec<(String, Vec<String>)>,
}

/// The mathematical model of a `BroadcastNode`.
pub struct BroadcastNodeView {
    pub node_id: Seq<char>,
    pub next_msg_id: usize,
    pub messages: Seq<usize>,
    pub topology: TopologyView,
}

impl View for BroadcastNode {
    type V = BroadcastNodeView;

    open spec fn view(&self) -> BroadcastNodeView {
        BroadcastNodeView {
            node_id: self.node_id@,
            next_msg_id: self.next_msg_id,
            messages: self.messages@,
            topology: topology_view(self.topology@),
        }
    }
}

/// The store's invariant: no value is recorded twice.
pub open spec fn messages_unique(s: Seq<usize>) -> bool {
    forall|i: int, j: int| 0 <= i < j < s.len() ==> s[i] != s[j]
}

impl BroadcastNode {
    /// A fresh broadcast handler, owning the identity assigned by the
    /// handshake, starting its counter at `next_msg_id`, with no recorded
    /// value and an empty neighbour map.
    pub fn new(init: Init, next_msg_id: usize) -> (n: Self)
        ensures
            n@.node_id == init@.node_id,
            n@.next_msg_id == next_msg_id,
            n@.messages == Seq::<usize>::empty(),
            n@.topology == Seq::<(Seq<char>, Seq<Seq<char>>)>::empty(),
            messages_unique(n@.messages),
    {
        let n = BroadcastNode {
            node_id: init.node_id,
            next_msg_id,
            messages: Vec::new(),
            topology: Vec::new(),
        };
        proof {
            assert(n@.topology =~= Seq::<(Seq<char>, Seq<Seq<char>>)>::empty());
        }
        n
    }
}

fn contains_usize(v: &Vec<usize>, x: usize) -> (r: bool)
    ensures
        r == v@.contains(x),
{
    let mut i: usize = 0;
    while i < v.len()
        invariant
            i <= v@.len(),
            forall|k: int| 0 <= k < i ==> v@[k] != x,
        decreases v@.len() - i,
    {
        if v[i] == x {
            assert(v@.contains(x));
            return true;
        }
        i = i + 1;
    }
    proof {
        assert(!v@.contains(x));
    }
    false
}

impl Node<Payload> for BroadcastNode {
    open spec fn counter_of(v: BroadcastNodeView) -> usize {
        v.next_msg_id
    }

    open spec fn next_state(v: BroadcastNodeView, input: MessageView<PayloadView>) -> BroadcastNodeView {
        let advanced = BroadcastNodeView {
            node_id: v.node_id,
            next_msg_id: (v.next_msg_id + 1) as usize,
            messages: v.messages,
            topology: v.topology,
        };
        match input.body.kind {
            PayloadView::Broadcast { message } => BroadcastNodeView {
                messages: if v.messages.contains(message) {
                    v.messages
                } else {
                    v.messages.push(message)
                },
                ..advanced
            },
            PayloadView::Topology { topology } => BroadcastNodeView { topology, ..advanced },
            PayloadView::BroadcastOk => advanced,
            PayloadView::TopologyOk => advanced,
            PayloadView::Read => advanced,
            PayloadView::ReadOk { .. } => advanced,
        }
    }

    open spec fn replies(v: BroadcastNodeView, input: MessageView<PayloadView>) -> Seq<
        MessageView<PayloadView>,
    > {
        match input.body.kind {
            PayloadView::Broadcast { .. } => seq![
                response_view(input, Some(v.next_msg_id), v.node_id, PayloadView::BroadcastOk),
            ],
            PayloadView::Topology { .. } => seq![
                response_view(input, Some(v.next_msg_id), v.node_id, PayloadView::TopologyOk),
            ],
            PayloadView::Read => seq![
                response_view(
                    input,
                    Some(v.next_msg_id),
                    v.node_id,
                    PayloadView::ReadOk { messages: v.messages },
                ),
            ],
            PayloadView::BroadcastOk => Seq::empty(),
            PayloadView::TopologyOk => Seq::empty(),
            PayloadView::ReadOk { .. } => Seq::empty(),
        }
    }

    fn step(&mut self, input: Message<Payload>) -> (out: Vec<Message<Payload>>) {
        let response = input.into_response(&mut self.next_msg_id, self.node_id.as_str());
        let Message { src, dest, body } = response;
        let Body { msg_id, in_reply_to, kind } = body;
        match kind {
            Payload::Broadcast { message } => {
                if !contains_usize(&self.messages, message) {
                    self.messages.push(message);
                }
                let reply = Message {
                    src,
                    dest,
                    body: Body { msg_id, in_reply_to, kind: Payload::BroadcastOk },
                };
                let mut out: Vec<Message<Payload>> = Vec::new();
                out.push(reply);
                proof {
                    assert(out@.map_values(|m: Message<Payload>| m@) =~= Self::replies(
                        old(self)@,
                        input@,
                    ));
                }
                out
            },
            Payload::Read => {
                let stored = self.messages.clone();
                proof {
                    assert(stored@ =~= self.messages@);
                }
                let reply = Message {
                    src,
                    dest,
                    body: Body {
                        msg_id,
                        in_reply_to,
                        kind: Payload::ReadOk { messages: stored },
                    },
                };
                let mut out: Vec<Message<Payload>> = Vec::new();
                out.push(reply);
                proof {
                    assert(out@.map_values(|m: Message<Payload>| m@) =~= Self::replies(
                        old(self)@,
                        input@,
                    ));
                }
                out
            },
            Payload::Topology { topology } => {
                self.topology = topology;
                let reply = Message {
                    src,
                    dest,
                    body: Body { msg_id, in_reply_to, kind: Payload::TopologyOk },
                };
                let mut out: Vec<Message<Payload>> = Vec::new();
                out.push(reply);
                proof {
                    assert(out@.map_values(|m: Message<Payload>| m@) =~= Self::replies(
                        old(self)@,
                        input@,
                    ));
                }
                out
            },
            Payload::BroadcastOk => {
                let out: Vec<Message<Payload>> = Vec::new();
                proof {
                    assert(out@.map_values(|m: Message<Payload>| m@) =~= Self::replies(
                        old(self)@,
                        input@,
                    ));
                }
                out
            },
            Payload::TopologyOk => {
                let out: Vec<Message<Payload>> = Vec::new();
                proof {
                    assert(out@.map_values(|m: Message<Payload>| m@) =~= Self::replies(
                        old(self)@,
                        input@,
                    ));
                }
                out
            },
            Payload::ReadOk { .. } => {
                let out: Vec<Message<Payload>> = Vec::new();
                proof {
                    assert(out@.map_values(|m: Message<Payload>| m@) =~= Self::replies(
                        old(self)@,
                        input@,
                    ));
                }
                out
            },
        }
    }
}

/// Topology idempotence: after `Topology { t }` the stored map is exactly
/// `t`, nothing added and nothing dropped, and a later `Topology { t2 }`
/// fully replaces it.
pub proof fn lemma_topology_idempotence(
    v: BroadcastNodeView,
    m1: MessageView<PayloadView>,
    m2: MessageView<PayloadView>,
    t1: TopologyView,
    t2: TopologyView,
)
    requires
        m1.body.kind == (PayloadView::Topology { topology: t1 }),
        m2.body.kind == (PayloadView::Topology { topology: t2 }),
    ensures
        <BroadcastNode as Node<Payload>>::next_state(v, m1).topology == t1,
        <BroadcastNode as Node<Payload>>::next_state(
            <BroadcastNode as Node<Payload>>::next_state(v, m1),
            m2,
        ).topology == t2,
{
}

/// Correlation, omission included: every reply of the broadcast handler
/// carries `in_reply_to` equal to the request's `msg_id`; in particular a
/// reply to a request without a `msg_id` carries no `in_reply_to`.
pub proof fn lemma_broadcast_correlation(v: BroadcastNodeView, input: MessageView<PayloadView>)
    ensures
        forall|i: int|
            0 <= i < <BroadcastNode as Node<Payload>>::replies(v, input).len()
                ==> (#[trigger] <BroadcastNode as Node<Payload>>::replies(v, input)[i]).body.in_reply_to
                == input.body.msg_id,
        input.body.msg_id is None ==> forall|i: int|
            0 <= i < <BroadcastNode as Node<Payload>>::replies(v, input).len()
                ==> (#[trigger] <BroadcastNode as Node<Payload>>::replies(v, input)[i]).body.in_reply_to
                is None,
{
}

/// The broadcast handler keeps the counter discipline: its counter
/// advances by exactly one per message, and the one identifier it may
/// assign is the counter's value before the step.
pub proof fn lemma_broadcast_disciplined()
    ensures
        counter_disciplined::<Payload, BroadcastNode>(),
{
    assert forall|v: BroadcastNodeView, m: MessageView<PayloadView>|
        <BroadcastNode as Node<Payload>>::counter_of(v) < usize::MAX implies {
        let c0 = <BroadcastNode as Node<Payload>>::counter_of(v);
        let c1 = <BroadcastNode as Node<Payload>>::counter_of(
            <BroadcastNode as Node<Payload>>::next_state(v, m),
        );
        let ids = reply_ids(#[trigger] <BroadcastNode as Node<Payload>>::replies(v, m));
        c0 <= c1 <= c0 + 1 && strictly_increasing(ids) && (forall|i: int|
            0 <= i < ids.len() ==> c0 <= #[trigger] ids[i] < c1)
    } by {
        let rs = <BroadcastNode as Node<Payload>>::replies(v, m);
        let ids = reply_ids(rs);
        match m.body.kind {
            PayloadView::Broadcast { .. } => {
                assert(rs.len() == 1);
                assert(rs[0].body.msg_id == Some(v.next_msg_id));
                assert(rs.drop_first() =~= Seq::<MessageView<PayloadView>>::empty());
                assert(reply_ids(rs.drop_first()) =~= Seq::<usize>::empty());
                assert(ids =~= seq![v.next_msg_id] + Seq::<usize>::empty());
                assert(ids =~= seq![v.next_msg_id]);
            },
            PayloadView::Topology { .. } => {
                assert(rs.len() == 1);
                assert(rs[0].body.msg_id == Some(v.next_msg_id));
                assert(rs.drop_first() =~= Seq::<MessageView<PayloadView>>::empty());
                assert(reply_ids(rs.drop_first()) =~= Seq::<usize>::empty());
                assert(ids =~= seq![v.next_msg_id] + Seq::<usize>::empty());
                assert(ids =~= seq![v.next_msg_id]);
            },
            PayloadView::Read => {
                assert(rs.len() == 1);
                assert(rs[0].body.msg_id == Some(v.next_msg_id));
                assert(rs.drop_first() =~= Seq::<MessageView<PayloadView>>::empty());
                assert(reply_ids(rs.drop_first()) =~= Seq::<usize>::empty());
                assert(ids =~= seq![v.next_msg_id] + Seq::<usize>::empty());
                assert(ids =~= seq![v.next_msg_id]);
            },
            PayloadView::BroadcastOk => {
                assert(ids =~= Seq::<usize>::empty());
            },
            PayloadView::TopologyOk => {
                assert(ids =~= Seq::<usize>::empty());
            },
            PayloadView::ReadOk { .. } => {
                assert(ids =~= Seq::<usize>::empty());
            },
        }
    }
}

/// Monotonic ids: across any sequence of requests that the broadcast
/// handler's counter can accommodate, the assigned reply `msg_id` values
/// are strictly increasing and never repeat.
pub proof fn lemma_broadcast_monotonic_ids(
    v: BroadcastNodeView,
    inputs: Seq<MessageView<PayloadView>>,
)
    requires
        v.next_msg_id + inputs.len() <= usize::MAX,
    ensures
        strictly_increasing(reply_ids(run_replies::<Payload, BroadcastNode>(v, inputs))),
{
    lemma_broadcast_disciplined();
    lemma_monotonic_ids::<Payload, BroadcastNode>(v, inputs);
}

/// The store's deduplication is an invariant: a step never records a
/// value that is already recorded, so the stored values stay distinct.
pub proof fn lemma_step_keeps_messages_unique(
    v: BroadcastNodeView,
    input: MessageView<PayloadView>,
)
    requires
        messages_unique(v.messages),
    ensures
        messages_unique(<BroadcastNode as Node<Payload>>::next_state(v, input).messages),
{
    let after = <BroadcastNode as Node<Payload>>::next_state(v, input).messages;
    match input.body.kind {
        PayloadView::Broadcast { message } => {
            if !v.messages.contains(message) {
                assert forall|i: int, j: int| 0 <= i < j < after.len() implies after[i]
                    != after[j] by {
                    if j == after.len() - 1 {
                        assert(v.messages[i] == after[i]);
                    }
                }
            }
        },
        _ => {},
    }
}

} // verus!
