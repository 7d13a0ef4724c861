//! A minimal key-value store core with a client-side request multiplexer.
//!
//! The server side keeps one shared table of string keys and byte-sequence
//! values; each connection handler reads commands, applies them to the table,
//! and answers with a response. The client side lets many independent callers
//! funnel commands through one bounded FIFO mailbox, drained by a single
//! manager that executes them in enqueue order and routes each result back
//! through a single-use reply channel.
//!
//! Transport framing, parsing and the network itself are external
//! collaborators; this crate holds the state and the decision logic.

pub mod client;
pub mod command;
pub mod mailbox;
pub mod responder;
pub mod server;
pub mod table;
