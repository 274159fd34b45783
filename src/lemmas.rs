//! Facts about the protocol that hold over several messages or of every
//! registry.
use vstd::prelude::*;
use crate::node::{reply, step};
use crate::registry::swept;
use crate::types::{ActionView, Client, Endpoint, THRESHOLD};

verus! {

/// The registry after each of `events` (an action, its sender and the time
/// it was received) was taken in, in order.
pub open spec fn run(
    m: Map<Seq<char>, Client>,
    self_id: Seq<char>,
    events: Seq<(ActionView, Endpoint, i64)>,
) -> Map<Seq<char>, Client>
    decreases events.len(),
{
    if events.len() == 0 {
        m
    } else {
        let e = events.last();
        step(run(m, self_id, events.drop_last()), self_id, e.0, e.1, e.2)
    }
}

/// Taking in `Join(id)` twice from a peer not yet known leaves one record
/// for it, with the address of the first message and the time of the
/// second; other records are untouched.
pub proof fn lemma_join_twice(
    m: Map<Seq<char>, Client>,
    self_id: Seq<char>,
    id: Seq<char>,
    first: Endpoint,
    second: Endpoint,
    t1: i64,
    t2: i64,
)
    requires
        id != self_id,
        !m.contains_key(id),
        t1 <= t2,
    ensures
        ({
            let once = step(m, self_id, ActionView::Join(id), first, t1);
            let twice = step(once, self_id, ActionView::Join(id), second, t2);
            &&& twice.dom() == m.dom().insert(id)
            &&& twice[id] == Client { address: first, last_seen: t2 }
            &&& forall|k: Seq<char>| k != id && m.contains_key(k) ==> twice[k] == m[k]
        }),
{
    let once = step(m, self_id, ActionView::Join(id), first, t1);
    let twice = step(once, self_id, ActionView::Join(id), second, t2);
    assert(twice.dom() =~= m.dom().insert(id));
}

/// A node's own `Join` or `Check`, come back to it, changes no record and
/// is not answered.
pub proof fn lemma_own_message_ignored(
    m: Map<Seq<char>, Client>,
    self_id: Seq<char>,
    action: ActionView,
    sender: Endpoint,
    now: i64,
)
    requires
        action.id() == self_id,
    ensures
        step(m, self_id, action, sender, now) == m,
        reply(m, self_id, action, sender) is None,
{
}

/// A peer last seen one second more than the threshold ago is evicted by a
/// sweep; one last seen one second less than the threshold ago stays, with
/// its record unchanged.
pub proof fn lemma_eviction_boundary(m: Map<Seq<char>, Client>, id: Seq<char>, now: i64)
    requires
        m.contains_key(id),
    ensures
        m[id].last_seen == now - THRESHOLD - 1 ==> !swept(m, now).contains_key(id),
        m[id].last_seen == now - THRESHOLD + 1 ==> swept(m, now).contains_key(id) && swept(
            m,
            now,
        )[id] == m[id],
{
}

/// `Join`s and `Check`s from one peer, taken in in any order, leave one
/// record for it whose last-seen time is the latest of their times,
/// provided the peer's earlier record, if any, is not later still.
pub proof fn lemma_converges_to_latest(
    m: Map<Seq<char>, Client>,
    self_id: Seq<char>,
    id: Seq<char>,
    events: Seq<(ActionView, Endpoint, i64)>,
)
    requires
        id != self_id,
        events.len() > 0,
        forall|i: int| 0 <= i < events.len() ==> (#[trigger] events[i]).0.id() == id,
        m.contains_key(id) ==> exists|i: int|
            0 <= i < events.len() && m[id].last_seen <= (#[trigger] events[i]).2,
    ensures
        run(m, self_id, events).dom() == m.dom().insert(id),
        forall|i: int|
            0 <= i < events.len() ==> run(m, self_id, events)[id].last_seen >= (
            #[trigger] events[i]).2,
        exists|i: int|
            0 <= i < events.len() && run(m, self_id, events)[id].last_seen == (
            #[trigger] events[i]).2,
    decreases events.len(),
{
    let r = run(m, self_id, events);
    let e = events.last();
    let rest = events.drop_last();
    let prev = run(m, self_id, rest);
    if events.len() == 1 {
        assert(rest.len() == 0);
        assert(r.dom() =~= m.dom().insert(id));
        assert(events[0] == e);
    } else {
        let later = m.contains_key(id) && m[id].last_seen > e.2;
        if later {
            let i = choose|i: int| 0 <= i < events.len() && m[id].last_seen <= (#[trigger] events[i]).2;
            assert(rest[i] == events[i]);
        }
        assert forall|i: int| 0 <= i < rest.len() implies (#[trigger] rest[i]).0.id() == id by {
            assert(rest[i] == events[i]);
        }
        if m.contains_key(id) && !later {
            // the earlier record is bounded by the last event, which the
            // rest need not bound: compare against the rest only when they do
            if exists|i: int| 0 <= i < rest.len() && m[id].last_seen <= (#[trigger] rest[i]).2 {
                lemma_converges_to_latest(m, self_id, id, rest);
            } else {
                lemma_prefix_bounded_by_record(m, self_id, id, rest);
            }
        } else {
            lemma_converges_to_latest(m, self_id, id, rest);
        }
        assert(r.dom() =~= m.dom().insert(id));
        assert forall|i: int| 0 <= i < events.len() implies r[id].last_seen >= (
        #[trigger] events[i]).2 by {
            if i < rest.len() {
                assert(rest[i] == events[i]);
            }
        }
        if r[id].last_seen != e.2 {
            let i = choose|i: int| 0 <= i < rest.len() && prev[id].last_seen == (#[trigger] rest[i]).2;
            assert(rest[i] == events[i]);
        }
    }
}

/// Events from one peer, none later than its existing record, leave that
/// record's time unchanged.
proof fn lemma_prefix_bounded_by_record(
    m: Map<Seq<char>, Client>,
    self_id: Seq<char>,
    id: Seq<char>,
    events: Seq<(ActionView, Endpoint, i64)>,
)
    requires
        id != self_id,
        m.contains_key(id),
        forall|i: int| 0 <= i < events.len() ==> (#[trigger] events[i]).0.id() == id,
        forall|i: int| 0 <= i < events.len() ==> m[id].last_seen > (#[trigger] events[i]).2,
    ensures
        run(m, self_id, events).dom() == m.dom(),
        run(m, self_id, events)[id].last_seen == m[id].last_seen,
    decreases events.len(),
{
    if events.len() > 0 {
        let rest = events.drop_last();
        assert forall|i: int| 0 <= i < rest.len() implies (#[trigger] rest[i]).0.id() == id
            && m[id].last_seen > rest[i].2 by {
            assert(rest[i] == events[i]);
        }
        lemma_prefix_bounded_by_record(m, self_id, id, rest);
        assert(run(m, self_id, events).dom() =~= m.dom());
    }
}

/// A `Join` from a peer not known before is answered with exactly one
/// `Join` of this node, sent to that peer alone; a `Join` from a known peer
/// is not answered.
pub proof fn lemma_reply_on_discovery(
    m: Map<Seq<char>, Client>,
    self_id: Seq<char>,
    id: Seq<char>,
    sender: Endpoint,
    now: i64,
)
    requires
        id != self_id,
        !m.contains_key(id),
    ensures
        reply(m, self_id, ActionView::Join(id), sender) == Some(
            (ActionView::Join(self_id), Some(sender)),
        ),
        reply(step(m, self_id, ActionView::Join(id), sender, now), self_id, ActionView::Join(id), sender)
            is None,
{
}

} // verus!
