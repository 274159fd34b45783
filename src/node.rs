//! The protocol's decisions for one node: what a received message does to
//! the registry and whether it is answered, and what a heartbeat does.
use vstd::prelude::*;
use crate::registry::{Registry, expired, lists, swept, upserted};
use crate::types::{Action, ActionView, Client, Endpoint, Message, Outbound};

verus! {

/// The registry after `action` was received from `sender` at `now` by the
/// node `self_id`. A node's own messages, which come back to it by
/// broadcast, change nothing.
pub open spec fn step(
    m: Map<Seq<char>, Client>,
    self_id: Seq<char>,
    action: ActionView,
    sender: Endpoint,
    now: i64,
) -> Map<Seq<char>, Client> {
    if action.id() == self_id {
        m
    } else {
        upserted(m, action.id(), sender, now)
    }
}

/// The answer owed to `action` from `sender`: a peer that joins and was not
/// known before the message is told, by a message to it alone, that this
/// node is there too.
pub open spec fn reply(
    m: Map<Seq<char>, Client>,
    self_id: Seq<char>,
    action: ActionView,
    sender: Endpoint,
) -> Option<(ActionView, Option<Endpoint>)> {
    match action {
        ActionView::Join(id) => if id != self_id && !m.contains_key(id) {
            Some((ActionView::Join(self_id), Some(sender)))
        } else {
            None
        },
        ActionView::Check(_) => None,
    }
}

/// Whether `r` is the answer that `reply` describes.
pub open spec fn is_reply(r: Option<Outbound>, expected: Option<(ActionView, Option<Endpoint>)>) -> bool {
    match r {
        Some(o) => expected == Some(o@),
        None => expected is None,
    }
}

/// Relies on chrono's `Utc::now` and `DateTime::timestamp`: the current
/// time in whole seconds since the Unix epoch. Nothing is known of its
/// value.
#[verifier::external_body]
fn now_secs() -> (r: i64) {
    chrono::Utc::now().timestamp()
}

/// A node's own id and the peers it knows of.
pub struct Node {
    pub id: String,
    pub clients: Registry,
}

impl Node {
    pub open spec fn wf(&self) -> bool {
        self.clients.wf()
    }

    /// A node that knows of no peer yet.
    pub fn new(id: String) -> (r: Node)
        ensures
            r.wf(),
            r.id == id,
            r.clients@ == Map::<Seq<char>, Client>::empty(),
    {
        Node { id, clients: Registry::new() }
    }

    /// The message by which this node announces itself to everyone.
    pub fn send_join(&self) -> (r: Outbound)
        ensures
            r@ == (ActionView::Join(self.id@), None::<Endpoint>),
    {
        Outbound { message: Message { action: Action::Join(self.id.clone()) }, destination: None }
    }

    /// Takes in `msg`, received from `sender` at time `now`, and returns the
    /// answer to send, if any.
    ///
    /// Whether the peer was known is decided before the registry is updated,
    /// so that a peer seen for the first time is answered at once and need
    /// not wait for the next heartbeat.
    pub fn handle_action(&mut self, msg: Message, sender: Endpoint, now: i64) -> (r: Option<Outbound>)
        requires
            old(self).wf(),
        ensures
            final(self).wf(),
            final(self).id == old(self).id,
            final(self).clients@ == step(old(self).clients@, old(self).id@, msg@, sender, now),
            is_reply(r, reply(old(self).clients@, old(self).id@, msg@, sender)),
    {
        match msg.action {
            Action::Join(id) => {
                if id != self.id {
                    let known = self.clients.contains(&id);
                    self.clients.upsert(id, sender, now);
                    if !known {
                        let message = Message { action: Action::Join(self.id.clone()) };
                        return Some(Outbound { message, destination: Some(sender) });
                    }
                }
                None
            },
            Action::Check(id) => {
                if id != self.id {
                    self.clients.upsert(id, sender, now);
                }
                None
            },
        }
    }

    /// `handle_action` at the current time.
    pub fn handle_action_now(&mut self, msg: Message, sender: Endpoint) -> (r: Option<Outbound>)
        requires
            old(self).wf(),
        ensures
            final(self).wf(),
            final(self).id == old(self).id,
            exists|now: i64|
                final(self).clients@ == step(old(self).clients@, old(self).id@, msg@, sender, now),
            is_reply(r, reply(old(self).clients@, old(self).id@, msg@, sender)),
    {
        let now = now_secs();
        self.handle_action(msg, sender, now)
    }

    /// One heartbeat at time `now`: the liveness message to broadcast, and
    /// the ids of the peers evicted for silence.
    pub fn heartbeat_tick(&mut self, now: i64) -> (r: (Outbound, Vec<String>))
        requires
            old(self).wf(),
        ensures
            final(self).wf(),
            final(self).id == old(self).id,
            r.0@ == (ActionView::Check(old(self).id@), None::<Endpoint>),
            final(self).clients@ == swept(old(self).clients@, now),
            forall|k: Seq<char>|
                #[trigger] lists(r.1@, k) <==> (old(self).clients@.contains_key(k) && expired(
                    old(self).clients@[k],
                    now,
                )),
    {
        let message = Message { action: Action::Check(self.id.clone()) };
        let removed = self.clients.sweep(now);
        (Outbound { message, destination: None }, removed)
    }

    /// `heartbeat_tick` at the current time.
    pub fn heartbeat_now(&mut self) -> (r: (Outbound, Vec<String>))
        requires
            old(self).wf(),
        ensures
            final(self).wf(),
            final(self).id == old(self).id,
            r.0@ == (ActionView::Check(old(self).id@), None::<Endpoint>),
            exists|now: i64|
                final(self).clients@ == swept(old(self).clients@, now) && forall|k: Seq<char>|
                    #[trigger] lists(r.1@, k) <==> (old(self).clients@.contains_key(k) && expired(
                        old(self).clients@[k],
                        now,
                    )),
    {
        let now = now_secs();
        self.heartbeat_tick(now)
    }
}

} // verus!
