//! The protocol's values: endpoints, messages and the records kept of peers.
use vstd::prelude::*;

verus! {

/// Seconds between two heartbeats of a node.
pub const HEARTBEAT: u64 = 2;

/// Longest silence, in seconds, that a peer may keep before it is evicted.
pub const THRESHOLD: i64 = 5;

/// Size of the buffer that one datagram is received into.
pub const BUFFER_SIZE: usize = 1024;

/// Capacity of each queue between the tasks of a node.
pub const MAX_CONNECTIONS: usize = 100;

/// The port that every node sends its broadcasts to.
pub const DISCOVERY_PORT: u16 = 65056;

/// 255.255.255.255 as a 32-bit address.
pub const BROADCAST_IP: u32 = 0xffff_ffff;

/// An IP address, held as its bits.
#[derive(Clone, Copy, Debug, PartialEq, Eq, Structural)]
pub enum IpAddress {
    V4(u32),
    V6(u128),
}

/// A network endpoint: an address and a port.
#[derive(Clone, Copy, Debug, PartialEq, Eq, Structural)]
pub struct Endpoint {
    pub ip: IpAddress,
    pub port: u16,
}

/// What a peer is known by: when it was last heard from, and where.
#[derive(Clone, Copy, Debug, PartialEq, Eq, Structural)]
pub struct Client {
    pub address: Endpoint,
    /// Seconds since the Unix epoch.
    pub last_seen: i64,
}

/// The load that this node reports of itself. It is not sent to peers: the
/// protocol's two messages carry an id alone.
#[derive(Clone, Copy, Debug, PartialEq, Eq, Structural)]
pub struct ClientState {
    pub memory: usize,
    pub tasks: usize,
}

/// The two things a node can say: that it joins, or that it is still alive.
#[derive(Debug)]
pub enum Action {
    Join(String),
    Check(String),
}

/// An `Action` with its peer id as a sequence of characters.
pub enum ActionView {
    Join(Seq<char>),
    Check(Seq<char>),
}

impl ActionView {
    /// The peer id that the action carries.
    pub open spec fn id(self) -> Seq<char> {
        match self {
            ActionView::Join(id) => id,
            ActionView::Check(id) => id,
        }
    }
}

impl View for Action {
    type V = ActionView;

    open spec fn view(&self) -> ActionView {
        match self {
            Action::Join(id) => ActionView::Join(id@),
            Action::Check(id) => ActionView::Check(id@),
        }
    }
}

/// One datagram of the protocol.
#[derive(Debug)]
pub struct Message {
    pub action: Action,
}

impl View for Message {
    type V = ActionView;

    open spec fn view(&self) -> ActionView {
        self.action@
    }
}

/// A message to send, and where to; `None` means broadcast.
#[derive(Debug)]
pub struct Outbound {
    pub message: Message,
    pub destination: Option<Endpoint>,
}

impl View for Outbound {
    type V = (ActionView, Option<Endpoint>);

    open spec fn view(&self) -> (ActionView, Option<Endpoint>) {
        (self.message@, self.destination)
    }
}

/// The endpoint that broadcasts go to: every host of the segment, on the
/// discovery port.
pub open spec fn broadcast_endpoint() -> Endpoint {
    Endpoint { ip: IpAddress::V4(BROADCAST_IP), port: DISCOVERY_PORT }
}

/// Where an outgoing message goes: its own destination, or else the
/// broadcast endpoint.
pub fn resolve_destination(destination: Option<Endpoint>) -> (r: Endpoint)
    ensures
        r == match destination {
            Some(d) => d,
            None => broadcast_endpoint(),
        },
{
    match destination {
        Some(d) => d,
        None => Endpoint { ip: IpAddress::V4(BROADCAST_IP), port: DISCOVERY_PORT },
    }
}

} // verus!
