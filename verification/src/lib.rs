//! The logic of a line echo server: every line that a client sends, newline
//! included, goes back to that client, in the order in which the lines came.
//!
//! The library holds what such a server decides and remembers: the buffer
//! state machine of a connection ([`state`]), the connection itself
//! ([`connection`]), the registry that stores the connections under small
//! reusable handles ([`registry`], over the slab in [`slots`]), and the
//! server that dispatches readiness events ([`server`]). It opens no socket
//! and runs no event loop. The caller does, in three steps for each event:
//!
//! 1. it asks [`server::Pong::ready`] which I/O the event calls for;
//! 2. it attempts that I/O on the socket, without blocking;
//! 3. it hands the outcome to [`server::Pong::accept`], [`server::Pong::read`]
//!    or [`server::Pong::write`], and does with the event loop what the
//!    returned [`server::Action`] says.
//!
//! [`session`] states what follows for the peer of a connection, whatever
//! the order and size of the reads and writes: it gets back exactly the
//! complete lines that it sent.

pub mod line;
pub mod state;
pub mod connection;
pub mod slots;
pub mod registry;
pub mod server;
pub mod session;
