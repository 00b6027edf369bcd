//! Runs of a handler over a whole sequence of inbound messages, processed
//! strictly in order, and the law that assigned reply identifiers grow
//! strictly and never repeat across a run.

use vstd::prelude::*;

use crate::protocol::MessageView;
use crate::protocol::Node;

verus! {

/// Every reply written while processing `inputs` in order from `v`, in
/// the order written.
pub open spec fn run_replies<P: View, N: Node<P>>(
    v: <N as View>::V,
    inputs: Seq<MessageView<<P as View>::V>>,
) -> Seq<MessageView<<P as View>::V>>
    decreases inputs.len(),
{
    if inputs.len() == 0 {
        Seq::empty()
    } else {
        N::replies(v, inputs[0]) + run_replies::<P, N>(N::next_state(v, inputs[0]), inputs.drop_first())
    }
}

/// The assigned `msg_id` values of a sequence of replies, in order,
/// absences skipped.
pub open spec fn reply_ids<V>(s: Seq<MessageView<V>>) -> Seq<usize>
    decreases s.len(),
{
    if s.len() == 0 {
        Seq::empty()
    } else {
        match s[0].body.msg_id {
            Some(n) => seq![n] + reply_ids(s.drop_first()),
            None => reply_ids(s.drop_first()),
        }
    }
}

/// Each member is strictly larger than every earlier one.
pub open spec fn strictly_increasing(s: Seq<usize>) -> bool {
    forall|i: int, j: int| 0 <= i < j < s.len() ==> s[i] < s[j]
}

/// The counter discipline every handler keeps, as long as its counter has
/// room: one step never moves the counter back, advances it by at most
/// one, and assigns `msg_id` values, in increasing order, only from the
/// interval the step consumed — so an identifier, once assigned, is never
/// assigned again.
pub open spec fn counter_disciplined<P: View, N: Node<P>>() -> bool {
    forall|v: <N as View>::V, m: MessageView<<P as View>::V>|
        N::counter_of(v) < usize::MAX ==> {
            let c0 = N::counter_of(v);
            let c1 = N::counter_of(N::next_state(v, m));
            let ids = reply_ids(#[trigger] N::replies(v, m));
            c0 <= c1 <= c0 + 1 && strictly_increasing(ids) && (forall|i: int|
                0 <= i < ids.len() ==> c0 <= #[trigger] ids[i] < c1)
        }
}

proof fn lemma_reply_ids_add<V>(a: Seq<MessageView<V>>, b: Seq<MessageView<V>>)
    ensures
        reply_ids(a + b) == reply_ids(a) + reply_ids(b),
    decreases a.len(),
{
    if a.len() == 0 {
        assert(a + b =~= b);
        assert(reply_ids(a) + reply_ids(b) =~= reply_ids(b));
    } else {
        assert((a + b).drop_first() =~= a.drop_first() + b);
        lemma_reply_ids_add(a.drop_first(), b);
        assert((a + b)[0] == a[0]);
        match a[0].body.msg_id {
            Some(n) => {
                assert(reply_ids(a + b) =~= reply_ids(a) + reply_ids(b));
            },
            None => {
                assert(reply_ids(a + b) =~= reply_ids(a) + reply_ids(b));
            },
        }
    }
}

/// Monotonic ids: across any sequence of requests, processed in order by
/// a handler that keeps the counter discipline and whose counter has room
/// for every message, the assigned reply `msg_id` values are strictly
/// increasing — so no identifier ever repeats within a run — and none
/// falls below the starting counter.
pub proof fn lemma_monotonic_ids<P: View, N: Node<P>>(
    v: <N as View>::V,
    inputs: Seq<MessageView<<P as View>::V>>,
)
    requires
        counter_disciplined::<P, N>(),
        N::counter_of(v) + inputs.len() <= usize::MAX,
    ensures
        strictly_increasing(reply_ids(run_replies::<P, N>(v, inputs))),
        forall|i: int|
            0 <= i < reply_ids(run_replies::<P, N>(v, inputs)).len() ==> N::counter_of(v)
                <= #[trigger] reply_ids(run_replies::<P, N>(v, inputs))[i],
    decreases inputs.len(),
{
    if inputs.len() == 0 {
    } else {
        let m = inputs[0];
        let v1 = N::next_state(v, m);
        let rest = inputs.drop_first();
        let head = N::replies(v, m);
        let tail = run_replies::<P, N>(v1, rest);
        let c0 = N::counter_of(v);
        let c1 = N::counter_of(v1);
        assert(c0 < usize::MAX);
        assert(c0 <= c1 <= c0 + 1 && strictly_increasing(reply_ids(head)) && (forall|i: int|
            0 <= i < reply_ids(head).len() ==> c0 <= #[trigger] reply_ids(head)[i] < c1));
        lemma_monotonic_ids::<P, N>(v1, rest);
        lemma_reply_ids_add(head, tail);
        let hids = reply_ids(head);
        let tids = reply_ids(tail);
        let all = reply_ids(run_replies::<P, N>(v, inputs));
        assert(run_replies::<P, N>(v, inputs) == head + tail);
        assert(all == hids + tids);
        assert forall|i: int, j: int| 0 <= i < j < all.len() implies all[i] < all[j] by {
            if j < hids.len() {
                assert(all[i] == hids[i] && all[j] == hids[j]);
            } else if i >= hids.len() {
                assert(all[i] == tids[i - hids.len()] && all[j] == tids[j - hids.len()]);
            } else {
                assert(all[i] == hids[i]);
                assert(all[j] == tids[j - hids.len()]);
                assert(hids[i] < c1);
                assert(c1 <= tids[j - hids.len()]);
            }
        }
        assert forall|i: int| 0 <= i < all.len() implies c0 <= all[i] by {
            if i < hids.len() {
                assert(all[i] == hids[i]);
            } else {
                assert(all[i] == tids[i - hids.len()]);
                assert(c1 <= tids[i - hids.len()]);
            }
        }
    }
}

} // verus!
