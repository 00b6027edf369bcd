//! The message envelope, the correlation discipline that turns an inbound
//! request into an outbound reply, and the identity handshake.

use vstd::prelude::*;

verus! {

/// The mathematical model of a `Body`: identifiers as plain values and the
/// payload as its own model.
pub struct BodyView<V> {
    pub msg_id: Option<usize>,
    pub in_reply_to: Option<usize>,
    pub kind: V,
}

/// The mathematical model of a `Message`: the two endpoints as character
/// sequences and the body as its model.
pub struct MessageView<V> {
    pub src: Seq<char>,
    pub dest: Seq<char>,
    pub body: BodyView<V>,
}

/// The mathematical model of an `Init` payload.
pub struct InitView {
    pub node_id: Seq<char>,
    pub node_ids: Seq<Seq<char>>,
}

/// The mathematical model of an `InitPayload`.
pub enum InitPayloadView {
    Init(InitView),
    InitOk,
}

/// The wire-level envelope: a message travels from `src` to `dest` and
/// carries a `Body`.
pub struct Message<P> {
    pub src: String,
    pub dest: String,
    pub body: Body<P>,
}

/// The body of a message: the sender-assigned sequence number of this
/// message (if any), the sequence number of the message it answers (if
/// any), and the handler-specific payload.
pub struct Body<P> {
    pub msg_id: Option<usize>,
    pub in_reply_to: Option<usize>,
    pub kind: P,
}

/// The payload of the handshake's first message: the identity assigned to
/// this node and the identities of every node in the cluster.
pub struct Init {
    pub node_id: String,
    pub node_ids: Vec<String>,
}

/// The closed payload vocabulary of the handshake.
pub enum InitPayload {
    Init(Init),
    InitOk,
}

impl<P: View> View for Body<P> {
    type V = BodyView<P::V>;

    open spec fn view(&self) -> BodyView<P::V> {
        BodyView { msg_id: self.msg_id, in_reply_to: self.in_reply_to, kind: self.kind@ }
    }
}

impl<P: View> View for Message<P> {
    type V = MessageView<P::V>;

    open spec fn view(&self) -> MessageView<P::V> {
        MessageView { src: self.src@, dest: self.dest@, body: self.body@ }
    }
}

impl View for Init {
    type V = InitView;

    open spec fn view(&self) -> InitView {
        InitView { node_id: self.node_id@, node_ids: self.node_ids.deep_view() }
    }
}

impl View for InitPayload {
    type V = InitPayloadView;

    open spec fn view(&self) -> InitPayloadView {
        match self {
            InitPayload::Init(init) => InitPayloadView::Init(init@),
            InitPayload::InitOk => InitPayloadView::InitOk,
        }
    }
}

/// The model of the reply that `into_response` derives from `request`,
/// with `msg_id` assigned from the supplied counter value.
pub open spec fn response_view<V>(
    request: MessageView<V>,
    msg_id: Option<usize>,
    node_id: Seq<char>,
    kind: V,
) -> MessageView<V> {
    MessageView {
        src: node_id,
        dest: request.src,
        body: BodyView { msg_id, in_reply_to: request.body.msg_id, kind },
    }
}

/// The single operation every handler implements, together with the
/// mathematical model of the handler: `next_state` and `replies` say, over
/// views, what one step does to the handler's state and which replies it
/// produces, and `counter_of` reads the handler's outbound-id counter.
pub trait Node<P: View>: Sized + View {
    /// The outbound `msg_id` counter in the model `v`.
    spec fn counter_of(v: Self::V) -> usize;

    /// The handler's state after processing `input` in state `v`.
    spec fn next_state(v: Self::V, input: MessageView<P::V>) -> Self::V;

    /// The replies the handler writes on processing `input` in state `v`,
    /// in order.
    spec fn replies(v: Self::V, input: MessageView<P::V>) -> Seq<MessageView<P::V>>;

    /// Processes one inbound message: mutates the node's private state and
    /// returns the replies to write, exactly as the model says.
    fn step(&mut self, input: Message<P>) -> (out: Vec<Message<P>>)
        requires
            Self::counter_of(old(self)@) < usize::MAX,
        ensures
            final(self)@ == Self::next_state(old(self)@, input@),
            out@.map_values(|m: Message<P>| m@) == Self::replies(old(self)@, input@),
    ;
}

/// The error of the one-shot handshake: the first decoded message did not
/// carry the `Init` payload, a fatal protocol violation.
#[derive(Debug)]
pub enum HandshakeError {
    NotInit,
}

/// Answers the handshake's first message.  When the payload is the `Init`
/// variant, returns the assigned identity together with the single reply
/// to write: `InitOk`, with `msg_id` zero and `in_reply_to` equal to the
/// request's `msg_id`, sent from the requested destination back to the
/// requester.  Any other payload is a protocol violation and yields
/// `HandshakeError`.
pub fn handshake_reply(input: Message<InitPayload>) -> (r: Result<
    (Init, Message<InitPayload>),
    HandshakeError,
>)
    ensures
        r is Ok <==> input@.body.kind is Init,
        (match r {
            Result::Ok((init, reply)) => init@ == input@.body.kind->Init_0 && reply@
                == response_view(input@, Some(0), input@.dest, InitPayloadView::InitOk),
            Result::Err(e) => e == HandshakeError::NotInit,
        }),
{
    let Message { src, dest, body } = input;
    let Body { msg_id, in_reply_to: _, kind } = body;
    match kind {
        InitPayload::Init(init) => {
            let reply = Message {
                src: dest,
                dest: src,
                body: Body { msg_id: Some(0), in_reply_to: msg_id, kind: InitPayload::InitOk },
            };
            Result::Ok((init, reply))
        },
        InitPayload::InitOk => Result::Err(HandshakeError::NotInit),
    }
}

/// Handshake correlation: for any `init` request whose `msg_id` is `k`,
/// the handshake's single reply is `init_ok`, carries `msg_id` zero, and
/// its `in_reply_to` is exactly `k`.
pub proof fn lemma_handshake_correlation(input: MessageView<InitPayloadView>, k: usize)
    requires
        input.body.kind is Init,
        input.body.msg_id == Some(k),
    ensures
        (response_view(input, Some(0), input.dest, InitPayloadView::InitOk).body.kind
            is InitOk),
        response_view(input, Some(0), input.dest, InitPayloadView::InitOk).body.msg_id
            == Some(0usize),
        response_view(input, Some(0), input.dest, InitPayloadView::InitOk).body.in_reply_to
            == Some(k),
{
}

impl<P> Message<P> {
    /// Derives a reply from a request: the node (identified by `node_id`)
    /// becomes the new source, the request's source becomes the
    /// destination, `in_reply_to` is set to the request's `msg_id`
    /// (including "absent" when the request carried none), the counter's
    /// value becomes the reply's `msg_id`, and the counter advances by
    /// one.  The payload starts as a copy of the request's payload; the
    /// handler overwrites it before the envelope is written out.
    pub fn into_response(self, next_msg_id: &mut usize, node_id: &str) -> (r: Self)
        requires
            *old(next_msg_id) < usize::MAX,
        ensures
            r.src@ == node_id@,
            r.dest == self.src,
            r.body.in_reply_to == self.body.msg_id,
            r.body.kind == self.body.kind,
            r.body.msg_id == Some(*old(next_msg_id)),
            *final(next_msg_id) == *old(next_msg_id) + 1,
    {
        let temp = *next_msg_id;
        *next_msg_id = *next_msg_id + 1;
        Message {
            src: node_id.to_owned(),
            dest: self.src,
            body: Body { msg_id: Some(temp), in_reply_to: self.body.msg_id, kind: self.body.kind },
        }
    }

    /// Derives a fire-and-forget reply: as `into_response`, but no counter
    /// is supplied, so the reply carries no `msg_id` at all.
    pub fn into_response_unnumbered(self, node_id: &str) -> (r: Self)
        ensures
            r.src@ == node_id@,
            r.dest == self.src,
            r.body.in_reply_to == self.body.msg_id,
            r.body.kind == self.body.kind,
            r.body.msg_id is None,
    {
        Message {
            src: node_id.to_owned(),
            dest: self.src,
            body: Body { msg_id: None, in_reply_to: self.body.msg_id, kind: self.body.kind },
        }
    }
}

} // verus!
