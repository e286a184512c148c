//! A gossiping peer-to-peer overlay node: wire framing, peer sessions and the
//! registry of live peers, with machine-checked contracts.

pub mod addr;
pub mod buffer;
pub mod codec;
pub mod connection;
pub mod listener;
pub mod message;
pub mod peer;
pub mod runner;
pub mod wire;
