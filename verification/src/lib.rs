//! A small dialogue state machine for a conversational agent.
//!
//! The library keeps one piece of state per conversation, parses inbound
//! message text into numbers or commands, routes each message through an
//! ordered rule table to exactly one handler, and persists the state in a
//! byte-serialized key-value store.  Every operation carries a contract that
//! pins the reply text and the store contents for every input.

pub mod codec;
pub mod commands;
pub mod dialogue;
pub mod numbers;
pub mod router;
pub mod state;
pub mod store;

pub use state::Command;
pub use state::ParseError;
pub use state::State;
pub use state::StoreError;
