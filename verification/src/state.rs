//! The dialogue state, the command vocabulary, and the error types.

use vstd::prelude::*;

verus! {

/// Where a conversation currently stands: either nothing has been remembered
/// yet, or one number has been.
#[derive(Clone, Copy, Debug, PartialEq, Eq, Structural)]
pub enum State {
    Start,
    GotNumber(i32),
}

impl Default for State {
    /// A conversation with no recorded state is at `Start`.
    fn default() -> (s: State)
        ensures
            s == State::Start,
    {
        State::Start
    }
}

/// The commands a user may send while a number is remembered.
#[derive(Clone, Copy, Debug, PartialEq, Eq, Structural)]
pub enum Command {
    /// Report the remembered number.
    Get,
    /// Forget the remembered number.
    Reset,
    /// Report the listing derived from the remembered number.
    List,
}

/// Why a piece of message text is not a command.
#[derive(Clone, Copy, Debug, PartialEq, Eq, Structural)]
pub enum ParseError {
    /// The text does not match any documented command trigger.
    NotACommand,
}

/// A failure of the state store.  The in-memory store never fails, but the
/// store contract is stated over `Result` so that a durable implementation
/// can surface its I/O and serialization failures through the same interface.
#[derive(Clone, Copy, Debug, PartialEq, Eq, Structural)]
pub enum StoreError {
    /// The backing storage could not be read or written.
    Io,
    /// A stored record could not be decoded as a `State`.
    Corrupt,
}

} // verus!
