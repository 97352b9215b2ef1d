//! A Bitcoin peer-to-peer node: the wire codec of the network protocol and the
//! decision logic of the node's actors, with their contracts.
pub mod codec;
pub mod actor;
pub mod exercises;
