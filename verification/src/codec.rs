//! Rendering of a whole envelope as one JSON line.  The payload vocabulary
//! of each handler says how its own tag and fields appear; the envelope
//! around them is rendered here, in one canonical shape: `src`, `dest`,
//! then the body with its `type` tag first, the correlation identifiers
//! next, and the payload's fields last.  Absent identifiers are omitted
//! entirely.

use vstd::prelude::*;

use crate::json::dec_rep;
use crate::json::json_string;
use crate::json::json_string_array;
use crate::json::chars_to_string;
use crate::json::push_dec;
use crate::json::push_json_string;
use crate::json::push_str_chars;
use crate::json::push_string_array;
use crate::protocol::Body;
use crate::protocol::BodyView;
use crate::protocol::InitPayload;
use crate::protocol::InitPayloadView;
use crate::protocol::Message;
use crate::protocol::MessageView;

verus! {

/// A payload vocabulary that can be rendered to JSON: a tag for the
/// body's `type` field, and the remaining fields of the variant, each
/// rendered with its leading comma (empty for a variant with no fields).
pub trait JsonPayload: View + Sized {
    /// The value of the body's `type` field for the payload `v`.
    spec fn tag_v(v: Self::V) -> Seq<char>;

    /// The payload's own fields, each with its leading comma.
    spec fn fields_v(v: Self::V) -> Seq<char>;

    /// Appends the value of the `type` field to `out`.
    fn push_tag(&self, out: &mut Vec<char>)
        ensures
            final(out)@ == old(out)@ + Self::tag_v(self@),
    ;

    /// Appends the payload's own fields to `out`.
    fn push_fields(&self, out: &mut Vec<char>)
        ensures
            final(out)@ == old(out)@ + Self::fields_v(self@),
    ;
}

/// The rendering of one optional correlation identifier: nothing when it
/// is absent, the named field when it is present.
pub open spec fn json_opt_id(name: Seq<char>, id: Option<usize>) -> Seq<char> {
    match id {
        Some(n) => seq![','] + seq!['"'] + name + seq!['"'] + seq![':'] + dec_rep(n as nat),
        None => Seq::<char>::empty(),
    }
}

/// The rendering of a message body with the given tag and fields.
pub open spec fn json_body_view<V>(b: BodyView<V>, tag: Seq<char>, fields: Seq<char>) -> Seq<
    char,
> {
    ("{\"type\":\"")@ + tag + ("\"")@ + json_opt_id(("msg_id")@, b.msg_id) + json_opt_id(
        ("in_reply_to")@,
        b.in_reply_to,
    ) + fields + ("}")@
}

/// The rendering of a whole envelope as one JSON object.
pub open spec fn json_message_view<P: JsonPayload>(m: MessageView<P::V>) -> Seq<char> {
    ("{\"src\":")@ + json_string(m.src) + (",\"dest\":")@ + json_string(m.dest) + (",\"body\":")@
        + json_body_view(m.body, P::tag_v(m.body.kind), P::fields_v(m.body.kind)) + ("}")@
}

impl<P: JsonPayload> Message<P> {
    /// Renders this message as the one line that is written to the output
    /// stream (without the trailing newline).
    pub fn to_json_line(&self) -> (r: String)
        ensures
            r@ == json_message_view::<P>(self@),
    {
        let mut out: Vec<char> = Vec::new();
        push_str_chars(&mut out, "{\"src\":");
        push_json_string(&mut out, self.src.as_str());
        push_str_chars(&mut out, ",\"dest\":");
        push_json_string(&mut out, self.dest.as_str());
        push_str_chars(&mut out, ",\"body\":");
        push_str_chars(&mut out, "{\"type\":\"");
        self.body.kind.push_tag(&mut out);
        push_str_chars(&mut out, "\"");
        match &self.body.msg_id {
            Some(n) => {
                push_str_chars(&mut out, ",");
                push_str_chars(&mut out, "\"");
                push_str_chars(&mut out, "msg_id");
                push_str_chars(&mut out, "\"");
                push_str_chars(&mut out, ":");
                push_dec(&mut out, *n);
            },
            None => {},
        }
        match &self.body.in_reply_to {
            Some(n) => {
                push_str_chars(&mut out, ",");
                push_str_chars(&mut out, "\"");
                push_str_chars(&mut out, "in_reply_to");
                push_str_chars(&mut out, "\"");
                push_str_chars(&mut out, ":");
                push_dec(&mut out, *n);
            },
            None => {},
        }
        self.body.kind.push_fields(&mut out);
        push_str_chars(&mut out, "}");
        push_str_chars(&mut out, "}");
        proof {
            reveal_strlit(",");
            reveal_strlit("\"");
            reveal_strlit(":");
            assert(out@ =~= json_message_view::<P>(self@));
        }
        chars_to_string(&out)
    }
}

impl JsonPayload for InitPayload {
    open spec fn tag_v(v: InitPayloadView) -> Seq<char> {
        match v {
            InitPayloadView::Init(_) => ("init")@,
            InitPayloadView::InitOk => ("init_ok")@,
        }
    }

    open spec fn fields_v(v: InitPayloadView) -> Seq<char> {
        match v {
            InitPayloadView::Init(init) => (",\"node_id\":")@ + json_string(init.node_id) + (
            ",\"node_ids\":")@ + json_string_array(init.node_ids),
            InitPayloadView::InitOk => Seq::<char>::empty(),
        }
    }

    fn push_tag(&self, out: &mut Vec<char>) {
        match self {
            InitPayload::Init(_) => push_str_chars(out, "init"),
            InitPayload::InitOk => push_str_chars(out, "init_ok"),
        }
    }

    fn push_fields(&self, out: &mut Vec<char>) {
        match self {
            InitPayload::Init(init) => {
                push_str_chars(out, ",\"node_id\":");
                push_json_string(out, init.node_id.as_str());
                push_str_chars(out, ",\"node_ids\":");
                push_string_array(out, &init.node_ids);
                assert(final(out)@ =~= old(out)@ + Self::fields_v(self@));
            },
            InitPayload::InitOk => {
                assert(final(out)@ =~= old(out)@ + Self::fields_v(self@));
            },
        }
    }
}

} // verus!
