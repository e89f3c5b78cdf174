//! A real-time message relay: the connection registry, the requests that
//! reach it, and the decisions of each connection's inbound and outbound side.
//!
//! Everything here is synchronous and works on plain values. The tasks,
//! mailboxes and sockets that carry the values live with the caller.

pub mod channel;
pub mod envelope;
pub mod identity;
pub mod server;
pub mod state;
