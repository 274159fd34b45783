//! A node configured by address and port given as text.
use vstd::prelude::*;
use crate::node::Node;
use crate::types::Client;

verus! {

/// A node together with the address and port it is to be bound to.
pub struct Server {
    pub addr: String,
    pub port: String,
    pub node: Node,
}

impl Server {
    /// A server for the node `id`, to be bound to `addr`:`port`, that knows
    /// of no peer yet.
    pub fn new(addr: String, port: String, id: String) -> (r: Server)
        ensures
            r.addr == addr,
            r.port == port,
            r.node.id == id,
            r.node.wf(),
            r.node.clients@ == Map::<Seq<char>, Client>::empty(),
    {
        Server { addr, port, node: Node::new(id) }
    }
}

} // verus!
