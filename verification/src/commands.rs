//! Parsing message text into the command vocabulary.
//!
//! Each command has one canonical trigger: its lowercase name behind the
//! platform's `/` command marker.  Parsing is total and never ambiguous:
//! text equal to a trigger is that command, all other text is
//! `ParseError::NotACommand`.

use vstd::prelude::*;
use vstd::string::StrSliceExecFns;

use crate::state::Command;
use crate::state::ParseError;

verus! {

/// The command a piece of text denotes, if any: triggers are matched whole,
/// case-sensitively, in the documented vocabulary.
pub open spec fn spec_parse_command(s: Seq<char>) -> Result<Command, ParseError> {
    if s == "/get"@ {
        Ok(Command::Get)
    } else if s == "/reset"@ {
        Ok(Command::Reset)
    } else if s == "/list"@ {
        Ok(Command::List)
    } else {
        Err(ParseError::NotACommand)
    }
}

/// Character-for-character equality of two string slices.
pub fn str_eq(a: &str, b: &str) -> (r: bool)
    ensures
        r == (a@ == b@),
{
    let n = a.unicode_len();
    if n != b.unicode_len() {
        return false;
    }
    let mut i: usize = 0;
    while i < n
        invariant
            n == a@.len(),
            n == b@.len(),
            i <= n,
            forall|j: int| 0 <= j < i ==> a@[j] == b@[j],
        decreases n - i,
    {
        if a.get_char(i) != b.get_char(i) {
            return false;
        }
        i = i + 1;
    }
    proof {
        assert(a@ =~= b@);
    }
    true
}

/// Parse message text against the command vocabulary.
pub fn parse_command(text: &str) -> (r: Result<Command, ParseError>)
    ensures
        r == spec_parse_command(text@),
{
    if str_eq(text, "/get") {
        Ok(Command::Get)
    } else if str_eq(text, "/reset") {
        Ok(Command::Reset)
    } else if str_eq(text, "/list") {
        Ok(Command::List)
    } else {
        Err(ParseError::NotACommand)
    }
}

/// The command metadata surface: every `(trigger, description)` pair of the
/// vocabulary, in declaration order, each trigger parsing back to its own
/// command.
pub fn command_descriptions() -> (r: Vec<(&'static str, &'static str)>)
    ensures
        r@.len() == 3,
        r@[0].0@ == "/get"@ && r@[0].1@ == "get your number."@,
        r@[1].0@ == "/reset"@ && r@[1].1@ == "reset your number."@,
        r@[2].0@ == "/list"@ && r@[2].1@ == "list of events."@,
        spec_parse_command(r@[0].0@) == Ok::<Command, ParseError>(Command::Get),
        spec_parse_command(r@[1].0@) == Ok::<Command, ParseError>(Command::Reset),
        spec_parse_command(r@[2].0@) == Ok::<Command, ParseError>(Command::List),
{
    proof {
        reveal_strlit("/get");
        reveal_strlit("/reset");
        reveal_strlit("/list");
    }
    let mut v: Vec<(&'static str, &'static str)> = Vec::new();
    v.push(("/get", "get your number."));
    v.push(("/reset", "reset your number."));
    v.push(("/list", "list of events."));
    v
}

} // verus!
