//! Session dispatch and streaming backend for a chat client.
//!
//! A registry of named conversational sessions, each driven by its own
//! worker, a single command-routing step that multiplexes client requests
//! onto the correct worker, and an outbound relay protocol that merges the
//! workers' streamed token output into one tagged message stream for the
//! consumer.
//!
//! Everything here is a pure state machine: the functions take the current
//! state and one command or event and return the next state together with
//! the actions (messages to emit, mailbox sends, workers to start) that the
//! surrounding runtime must perform.

pub mod protocol;
pub mod dispatch;
pub mod frontend;
pub mod registry;
pub mod state;
pub mod worker;
