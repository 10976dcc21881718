//! A broadcast node that replicates an append-only set of values to its
//! neighbours by periodic anti-entropy gossip, together with the message
//! envelope it speaks and the two stateless nodes (echo, unique ids) that
//! share that envelope.

pub mod protocol;
pub mod store;
pub mod index;
pub mod node;
pub mod laws;
pub mod simple;

