//! A builder that takes a node's id, address, port and load function one
//! at a time; `build` is offered only once all four are set.
use vstd::prelude::*;
use crate::node::Node;
use crate::types::{Client, ClientState, IpAddress};

verus! {

/// No id set yet.
pub struct NoId;

/// The node's id.
pub struct Id(pub String);

/// No address set yet.
pub struct NoAddr;

/// The address to bind to.
pub struct Addr(pub IpAddress);

/// No port set yet.
pub struct NoPort;

/// The port to bind to.
pub struct Port(pub u16);

/// No load function set yet.
pub struct NoCount;

/// The function that reports how many tasks this node is running.
pub struct Count<F>(pub F);

/// A node in the making; each type parameter says whether its field is set.
pub struct EscalonBuilder<I, A, P, C> {
    pub id: I,
    pub addr: A,
    pub port: P,
    pub count: C,
}

/// A node with its bind address and port, its load function and the load
/// it reported when it was built.
pub struct Escalon<F> {
    pub node: Node,
    pub addr: IpAddress,
    pub port: u16,
    pub count: F,
    pub own_state: ClientState,
}

impl EscalonBuilder<NoId, NoAddr, NoPort, NoCount> {
    /// A builder with nothing set.
    pub fn new() -> (r: EscalonBuilder<NoId, NoAddr, NoPort, NoCount>)
        ensures
            r == (EscalonBuilder { id: NoId, addr: NoAddr, port: NoPort, count: NoCount }),
    {
        EscalonBuilder { id: NoId, addr: NoAddr, port: NoPort, count: NoCount }
    }
}

impl<F: Fn() -> usize> EscalonBuilder<Id, Addr, Port, Count<F>> {
    /// The node, knowing of no peer yet, with the load its function reports
    /// now.
    pub fn build(self) -> (r: Escalon<F>)
        requires
            self.count.0.requires(()),
        ensures
            r.node.id == self.id.0,
            r.node.wf(),
            r.node.clients@ == Map::<Seq<char>, Client>::empty(),
            r.addr == self.addr.0,
            r.port == self.port.0,
            r.count == self.count.0,
            r.own_state.memory == 0,
            self.count.0.ensures((), r.own_state.tasks),
    {
        let tasks = (self.count.0)();
        let own_state = ClientState { memory: 0, tasks };
        Escalon {
            node: Node::new(self.id.0),
            addr: self.addr.0,
            port: self.port.0,
            count: self.count.0,
            own_state,
        }
    }
}

impl<I, A, P, C> EscalonBuilder<I, A, P, C> {
    /// Sets the node's id.
    pub fn set_id(self, id: String) -> (r: EscalonBuilder<Id, A, P, C>)
        ensures
            r == (EscalonBuilder { id: Id(id), addr: self.addr, port: self.port, count: self.count }),
    {
        EscalonBuilder { id: Id(id), addr: self.addr, port: self.port, count: self.count }
    }

    /// Sets the address to bind to.
    pub fn set_addr(self, addr: IpAddress) -> (r: EscalonBuilder<I, Addr, P, C>)
        ensures
            r == (EscalonBuilder { id: self.id, addr: Addr(addr), port: self.port, count: self.count }),
    {
        EscalonBuilder { id: self.id, addr: Addr(addr), port: self.port, count: self.count }
    }

    /// Sets the port to bind to.
    pub fn set_port(self, port: u16) -> (r: EscalonBuilder<I, A, Port, C>)
        ensures
            r == (EscalonBuilder { id: self.id, addr: self.addr, port: Port(port), count: self.count }),
    {
        EscalonBuilder { id: self.id, addr: self.addr, port: Port(port), count: self.count }
    }

    /// Sets the function that reports the node's load.
    pub fn set_count<F: Fn() -> usize>(self, count: F) -> (r: EscalonBuilder<I, A, P, Count<F>>)
        ensures
            r == (EscalonBuilder { id: self.id, addr: self.addr, port: self.port, count: Count(count) }),
    {
        EscalonBuilder { id: self.id, addr: self.addr, port: self.port, count: Count(count) }
    }
}

} // verus!
