//! The state machine router.
//!
//! The dispatch core is data, not branching logic: an ordered table of
//! `(state pattern, text gate) -> handler` rules, evaluated top to bottom
//! against the conversation's current state, so that new states or commands
//! append rules instead of restructuring the existing ones.  Exactly one
//! handler runs per inbound message; the catch-all invalid-input handler
//! closes the table for the `GotNumber` state.

use vstd::prelude::*;
use vstd::string::StringExecFns;

use crate::commands::parse_command;
use crate::commands::spec_parse_command;
use crate::dialogue::spec_current;
use crate::dialogue::DialogueHandle;
use crate::numbers::i32_to_string;
use crate::numbers::parse_i32;
use crate::numbers::spec_i32_chars;
use crate::numbers::spec_parse_i32;
use crate::state::Command;
use crate::state::State;
use crate::state::StoreError;
use crate::store::StateStore;

verus! {

/// What a handler asks to happen to the conversation's stored state.
#[derive(Clone, Copy, Debug, PartialEq, Eq, Structural)]
pub enum StateEffect {
    /// Leave the stored record as it is.
    Keep,
    /// Replace the stored record with this state.
    Put(State),
    /// Remove the stored record, returning the conversation to `Start`.
    Clear,
}

/// One processed message: the reply to send back and the effect on the
/// conversation's stored state.
pub struct Outcome {
    pub reply: String,
    pub effect: StateEffect,
}

/// A pattern over the current dialogue state.
#[derive(Clone, Copy, Debug, PartialEq, Eq, Structural)]
pub enum StatePattern {
    AtStart,
    AtGotNumber,
}

/// A gate over the message text.
#[derive(Clone, Copy, Debug, PartialEq, Eq, Structural)]
pub enum TextGate {
    /// Any text passes.
    AnyText,
    /// Only text that parses as a command passes.
    IsCommand,
}

/// The handlers a rule can select.
#[derive(Clone, Copy, Debug, PartialEq, Eq, Structural)]
pub enum HandlerId {
    /// Free text while at `Start`.
    OnStart,
    /// A command while a number is remembered.
    OnCommand,
    /// Anything else while a number is remembered.
    OnInvalid,
}

/// One row of the dispatch table.
#[derive(Clone, Copy, Debug, PartialEq, Eq, Structural)]
pub struct Rule {
    pub state_pattern: StatePattern,
    pub text_gate: TextGate,
    pub handler: HandlerId,
}

/// Whether a state matches a pattern.
pub open spec fn spec_state_matches(p: StatePattern, s: State) -> bool {
    match p {
        StatePattern::AtStart => s is Start,
        StatePattern::AtGotNumber => s is GotNumber,
    }
}

/// Whether message text passes a gate.
pub open spec fn spec_gate_passes(g: TextGate, text: Seq<char>) -> bool {
    match g {
        TextGate::AnyText => true,
        TextGate::IsCommand => spec_parse_command(text) is Ok,
    }
}

/// The dispatch table of this state machine, in priority order.
pub open spec fn spec_rule_table() -> Seq<Rule> {
    seq![
        Rule { state_pattern: StatePattern::AtStart, text_gate: TextGate::AnyText, handler: HandlerId::OnStart },
        Rule {
            state_pattern: StatePattern::AtGotNumber,
            text_gate: TextGate::IsCommand,
            handler: HandlerId::OnCommand,
        },
        Rule {
            state_pattern: StatePattern::AtGotNumber,
            text_gate: TextGate::AnyText,
            handler: HandlerId::OnInvalid,
        },
    ]
}

/// Build the dispatch table.
pub fn rule_table() -> (r: Vec<Rule>)
    ensures
        r@ == spec_rule_table(),
{
    let mut v: Vec<Rule> = Vec::new();
    v.push(
        Rule { state_pattern: StatePattern::AtStart, text_gate: TextGate::AnyText, handler: HandlerId::OnStart },
    );
    v.push(
        Rule {
            state_pattern: StatePattern::AtGotNumber,
            text_gate: TextGate::IsCommand,
            handler: HandlerId::OnCommand,
        },
    );
    v.push(
        Rule {
            state_pattern: StatePattern::AtGotNumber,
            text_gate: TextGate::AnyText,
            handler: HandlerId::OnInvalid,
        },
    );
    proof {
        assert(v@ =~= spec_rule_table());
    }
    v
}

/// The handler the first matching rule selects, if any rule matches.
pub open spec fn spec_select(rules: Seq<Rule>, s: State, text: Seq<char>) -> Option<HandlerId>
    decreases rules.len(),
{
    if rules.len() == 0 {
        None
    } else if spec_state_matches(rules[0].state_pattern, s) && spec_gate_passes(
        rules[0].text_gate,
        text,
    ) {
        Some(rules[0].handler)
    } else {
        spec_select(rules.skip(1), s, text)
    }
}

/// Walk a rule table in order and return the first matching rule's handler.
pub fn select_handler(rules: &Vec<Rule>, s: &State, text: &str) -> (r: Option<HandlerId>)
    ensures
        r == spec_select(rules@, *s, text@),
{
    proof {
        assert(rules@.skip(0) =~= rules@);
    }
    let mut i: usize = 0;
    while i < rules.len()
        invariant
            i <= rules@.len(),
            spec_select(rules@, *s, text@) == spec_select(rules@.skip(i as int), *s, text@),
        decreases rules@.len() - i,
    {
        let rule = rules[i];
        let state_ok = match rule.state_pattern {
            StatePattern::AtStart => matches!(s, State::Start),
            StatePattern::AtGotNumber => matches!(s, State::GotNumber(_)),
        };
        let gate_ok = state_ok && match rule.text_gate {
            TextGate::AnyText => true,
            TextGate::IsCommand => parse_command(text).is_ok(),
        };
        proof {
            assert(rules@.skip(i as int)[0] == rules@[i as int]);
        }
        if state_ok && gate_ok {
            return Some(rule.handler);
        }
        proof {
            assert(rules@.skip(i as int).skip(1) =~= rules@.skip(i + 1));
        }
        i = i + 1;
    }
    proof {
        assert(rules@.skip(i as int).len() == 0);
    }
    None
}

/// The handler the canonical table owes each `(state, text)` pair.
pub open spec fn spec_handler_for(s: State, text: Seq<char>) -> HandlerId {
    match s {
        State::Start => HandlerId::OnStart,
        State::GotNumber(_) => if spec_parse_command(text) is Ok {
            HandlerId::OnCommand
        } else {
            HandlerId::OnInvalid
        },
    }
}

/// Exactly one handler runs per message: on every state and every text the
/// canonical table selects precisely the handler it owes, never none.
pub proof fn lemma_table_total(s: State, text: Seq<char>)
    ensures
        spec_select(spec_rule_table(), s, text) == Some(spec_handler_for(s, text)),
{
    reveal_with_fuel(spec_select, 5);
    let rules = spec_rule_table();
    assert(rules.skip(1) =~= seq![rules[1], rules[2]]);
    assert(rules.skip(1).skip(1) =~= seq![rules[2]]);
    assert(seq![rules[2]].skip(1) =~= Seq::<Rule>::empty());
}

/// The reply the `Start` handler owes for each message text.
pub open spec fn spec_start_reply(text: Seq<char>) -> Seq<char> {
    match spec_parse_i32(text) {
        Some(n) => "Remembered number "@ + spec_i32_chars(n as int) + ". Now use /get or /reset."@,
        None => "Please, send me a number."@,
    }
}

/// The reply the command handler owes while `n` is remembered.
pub open spec fn spec_command_reply(n: i32, c: Command) -> Seq<char> {
    match c {
        Command::Get => "Here is your number: "@ + spec_i32_chars(n as int) + "."@,
        Command::Reset => "Number resetted."@,
        Command::List => "List of events: "@ + spec_i32_chars(n as int) + "."@,
    }
}

/// The reply of the invalid-input handler: it prompts with the set of valid
/// commands.
pub open spec fn spec_invalid_reply() -> Seq<char> {
    "Please, send /list, /get or /reset."@
}

/// The reply the whole machine owes for a message, as a function of the
/// current state and the text.
pub open spec fn spec_reply(s: State, text: Seq<char>) -> Seq<char> {
    match s {
        State::Start => spec_start_reply(text),
        State::GotNumber(n) => match spec_parse_command(text) {
            Ok(c) => spec_command_reply(n, c),
            Err(_) => spec_invalid_reply(),
        },
    }
}

/// The effect on the stored state the machine owes for a message: a number
/// at `Start` is recorded, `/reset` clears the record, everything else
/// leaves the record alone.
pub open spec fn spec_effect(s: State, text: Seq<char>) -> StateEffect {
    match s {
        State::Start => match spec_parse_i32(text) {
            Some(n) => StateEffect::Put(State::GotNumber(n)),
            None => StateEffect::Keep,
        },
        State::GotNumber(_) => match spec_parse_command(text) {
            Ok(Command::Reset) => StateEffect::Clear,
            _ => StateEffect::Keep,
        },
    }
}

/// The state the conversation is in after a message.
pub open spec fn spec_next_state(s: State, text: Seq<char>) -> State {
    match spec_effect(s, text) {
        StateEffect::Keep => s,
        StateEffect::Put(next) => next,
        StateEffect::Clear => State::Start,
    }
}

/// Free text while at `Start`: accept a number, or prompt for one.
pub fn handle_start(text: &str) -> (r: Outcome)
    ensures
        r.reply@ == spec_start_reply(text@),
        r.effect == spec_effect(State::Start, text@),
{
    match parse_i32(text) {
        Some(n) => {
            let mut reply = String::new();
            reply.append("Remembered number ");
            let rendered = i32_to_string(n);
            reply.append(rendered.as_str());
            reply.append(". Now use /get or /reset.");
            proof {
                assert(reply@ =~= spec_start_reply(text@));
            }
            Outcome { reply, effect: StateEffect::Put(State::GotNumber(n)) }
        },
        None => {
            let mut reply = String::new();
            reply.append("Please, send me a number.");
            proof {
                assert(reply@ =~= spec_start_reply(text@));
            }
            Outcome { reply, effect: StateEffect::Keep }
        },
    }
}

/// A command while `n` is remembered: report it, reset it, or list for it.
pub fn handle_got_number(n: i32, cmd: Command) -> (r: Outcome)
    ensures
        r.reply@ == spec_command_reply(n, cmd),
        r.effect == (if cmd is Reset {
            StateEffect::Clear
        } else {
            StateEffect::Keep
        }),
{
    match cmd {
        Command::Get => {
            let mut reply = String::new();
            reply.append("Here is your number: ");
            let rendered = i32_to_string(n);
            reply.append(rendered.as_str());
            reply.append(".");
            proof {
                assert(reply@ =~= spec_command_reply(n, cmd));
            }
            Outcome { reply, effect: StateEffect::Keep }
        },
        Command::Reset => {
            let mut reply = String::new();
            reply.append("Number resetted.");
            proof {
                assert(reply@ =~= spec_command_reply(n, cmd));
            }
            Outcome { reply, effect: StateEffect::Clear }
        },
        Command::List => {
            let mut reply = String::new();
            reply.append("List of events: ");
            let rendered = i32_to_string(n);
            reply.append(rendered.as_str());
            reply.append(".");
            proof {
                assert(reply@ =~= spec_command_reply(n, cmd));
            }
            Outcome { reply, effect: StateEffect::Keep }
        },
    }
}

/// Anything else while a number is remembered: prompt with the commands.
pub fn handle_invalid() -> (r: Outcome)
    ensures
        r.reply@ == spec_invalid_reply(),
        r.effect == StateEffect::Keep,
{
    let mut reply = String::new();
    reply.append("Please, send /list, /get or /reset.");
    proof {
        assert(reply@ =~= spec_invalid_reply());
    }
    Outcome { reply, effect: StateEffect::Keep }
}

/// Route one message through the dispatch table and run the one selected
/// handler: the pure core of the state machine, from current state and
/// message text to reply and state effect.
pub fn dispatch(s: &State, text: &str) -> (r: Outcome)
    ensures
        r.reply@ == spec_reply(*s, text@),
        r.effect == spec_effect(*s, text@),
{
    let rules = rule_table();
    let selected = select_handler(&rules, s, text);
    proof {
        lemma_table_total(*s, text@);
    }
    match selected {
        Some(HandlerId::OnStart) => handle_start(text),
        Some(HandlerId::OnCommand) => {
            match (parse_command(text), s) {
                (Ok(cmd), State::GotNumber(n)) => handle_got_number(*n, cmd),
                _ => {
                    proof {
                        assert(false);
                    }
                    handle_invalid()
                },
            }
        },
        _ => handle_invalid(),
    }
}

/// The store contents after one message has been processed for one
/// conversation.
pub open spec fn spec_store_after(m: Map<i64, State>, id: i64, text: Seq<char>) -> Map<
    i64,
    State,
> {
    match spec_effect(spec_current(m, id), text) {
        StateEffect::Keep => m,
        StateEffect::Put(next) => m.insert(id, next),
        StateEffect::Clear => m.remove(id),
    }
}

/// The committed store tracks the machine: after a message, the
/// conversation reads exactly the state machine's next state.
pub proof fn lemma_store_tracks_machine(m: Map<i64, State>, id: i64, text: Seq<char>)
    ensures
        spec_current(spec_store_after(m, id, text), id) == spec_next_state(
            spec_current(m, id),
            text,
        ),
{
}

/// Per-conversation isolation holds of whole messages too: processing a
/// message for one conversation never changes what another reads.
pub proof fn lemma_message_isolation(m: Map<i64, State>, id: i64, b: i64, text: Seq<char>)
    requires
        b != id,
    ensures
        spec_current(spec_store_after(m, id, text), b) == spec_current(m, b),
{
}

/// Process one inbound message end to end: resolve the conversation's
/// current state through a fresh dialogue handle, route it to the one
/// applicable handler, commit the handler's state effect to the store, and
/// only then hand back the reply (state-commit-then-reply ordering).  A
/// store failure would abort the message with no partial transition; the
/// in-memory store never fails, so `Ok` is owed on every input.
pub fn handle_message(store: &mut StateStore, chat_id: i64, text: &str) -> (r: Result<
    String,
    StoreError,
>)
    requires
        old(store).wf(),
    ensures
        r is Ok,
        final(store).wf(),
        r->Ok_0@ == spec_reply(spec_current(old(store)@, chat_id), text@),
        final(store)@ == spec_store_after(old(store)@, chat_id, text@),
{
    let handle = DialogueHandle::new(chat_id);
    let current = handle.current(store);
    let outcome = dispatch(&current, text);
    match outcome.effect {
        StateEffect::Keep => {},
        StateEffect::Put(next) => {
            if let Err(e) = handle.update(store, next) {
                return Err(e);
            }
        },
        StateEffect::Clear => {
            if let Err(e) = handle.reset(store) {
                return Err(e);
            }
        },
    }
    Ok(outcome.reply)
}

} // verus!
