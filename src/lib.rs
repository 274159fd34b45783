//! Peer discovery and failure detection for a pool of nodes that announce
//! themselves over UDP broadcast.
//!
//! The library holds the protocol's state and decisions: the registry of
//! peers, the transition taken on each received message, the heartbeat
//! sweep and the choice of destination for outgoing messages. Sockets,
//! timers, channels and the wire encoding are driven from outside.

pub mod types;

pub use types::{Action, ActionView, Client, ClientState, Endpoint, IpAddress, Message, Outbound};

pub mod registry;
pub use registry::Registry;
pub mod node;
pub use node::Node;
pub mod lemmas;
pub mod server;
pub use server::Server;
pub mod builder;
pub use builder::{Addr, Count, Escalon, EscalonBuilder, Id, NoAddr, NoCount, NoId, NoPort, Port};
