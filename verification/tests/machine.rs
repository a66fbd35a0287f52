use dialogue_bot::commands::command_descriptions;
use dialogue_bot::commands::parse_command;
use dialogue_bot::dialogue::DialogueHandle;
use dialogue_bot::router::dispatch;
use dialogue_bot::router::handle_message;
use dialogue_bot::router::rule_table;
use dialogue_bot::router::select_handler;
use dialogue_bot::router::HandlerId;
use dialogue_bot::router::StateEffect;
use dialogue_bot::store::StateStore;
use dialogue_bot::Command;
use dialogue_bot::ParseError;
use dialogue_bot::State;

#[test]
fn fresh_conversation_number_is_remembered() {
    let mut store = StateStore::new();
    let reply = handle_message(&mut store, 1, "42").unwrap();
    assert_eq!(reply, "Remembered number 42. Now use /get or /reset.");
    assert_eq!(store.get(1), Some(State::GotNumber(42)));
}

#[test]
fn fresh_conversation_free_text_prompts_for_number() {
    let mut store = StateStore::new();
    let reply = handle_message(&mut store, 1, "hello").unwrap();
    assert_eq!(reply, "Please, send me a number.");
    assert_eq!(store.get(1), None);
}

#[test]
fn get_reports_the_number_without_state_change() {
    let mut store = StateStore::new();
    store.set(1, State::GotNumber(7)).unwrap();
    let reply = handle_message(&mut store, 1, "/get").unwrap();
    assert_eq!(reply, "Here is your number: 7.");
    assert_eq!(store.get(1), Some(State::GotNumber(7)));
}

#[test]
fn reset_clears_the_number() {
    let mut store = StateStore::new();
    store.set(1, State::GotNumber(7)).unwrap();
    let reply = handle_message(&mut store, 1, "/reset").unwrap();
    assert_eq!(reply, "Number resetted.");
    assert_eq!(store.get(1), None);
    let handle = DialogueHandle::new(1);
    assert_eq!(handle.current(&store), State::Start);
}

#[test]
fn invalid_input_lists_the_commands() {
    let mut store = StateStore::new();
    store.set(1, State::GotNumber(7)).unwrap();
    let reply = handle_message(&mut store, 1, "banana").unwrap();
    assert_eq!(reply, "Please, send /list, /get or /reset.");
    assert_eq!(store.get(1), Some(State::GotNumber(7)));
}

#[test]
fn list_reports_the_listing_for_the_number() {
    let mut store = StateStore::new();
    store.set(1, State::GotNumber(7)).unwrap();
    let reply = handle_message(&mut store, 1, "/list").unwrap();
    assert_eq!(reply, "List of events: 7.");
    assert_eq!(store.get(1), Some(State::GotNumber(7)));
}

#[test]
fn number_while_remembered_is_invalid_input() {
    let mut store = StateStore::new();
    store.set(1, State::GotNumber(7)).unwrap();
    let reply = handle_message(&mut store, 1, "42").unwrap();
    assert_eq!(reply, "Please, send /list, /get or /reset.");
    assert_eq!(store.get(1), Some(State::GotNumber(7)));
}

#[test]
fn negative_number_is_remembered() {
    let mut store = StateStore::new();
    let reply = handle_message(&mut store, 5, "-17").unwrap();
    assert_eq!(reply, "Remembered number -17. Now use /get or /reset.");
    assert_eq!(store.get(5), Some(State::GotNumber(-17)));
}

#[test]
fn command_text_at_start_is_not_a_number() {
    let mut store = StateStore::new();
    let reply = handle_message(&mut store, 1, "/get").unwrap();
    assert_eq!(reply, "Please, send me a number.");
    assert_eq!(store.get(1), None);
}

#[test]
fn dispatch_is_pure_and_names_the_effect() {
    let out = dispatch(&State::Start, "8");
    assert_eq!(out.reply, "Remembered number 8. Now use /get or /reset.");
    assert_eq!(out.effect, StateEffect::Put(State::GotNumber(8)));

    let out = dispatch(&State::GotNumber(3), "/reset");
    assert_eq!(out.reply, "Number resetted.");
    assert_eq!(out.effect, StateEffect::Clear);

    let out = dispatch(&State::GotNumber(3), "/get");
    assert_eq!(out.effect, StateEffect::Keep);
}

#[test]
fn rule_table_selects_exactly_one_handler() {
    let rules = rule_table();
    assert_eq!(select_handler(&rules, &State::Start, "anything"), Some(HandlerId::OnStart));
    assert_eq!(select_handler(&rules, &State::Start, "/get"), Some(HandlerId::OnStart));
    assert_eq!(select_handler(&rules, &State::GotNumber(1), "/get"), Some(HandlerId::OnCommand));
    assert_eq!(select_handler(&rules, &State::GotNumber(1), "nope"), Some(HandlerId::OnInvalid));
}

#[test]
fn parse_command_recognizes_only_the_triggers() {
    assert_eq!(parse_command("/get"), Ok(Command::Get));
    assert_eq!(parse_command("/reset"), Ok(Command::Reset));
    assert_eq!(parse_command("/list"), Ok(Command::List));
    assert_eq!(parse_command("/GET"), Err(ParseError::NotACommand));
    assert_eq!(parse_command("get"), Err(ParseError::NotACommand));
    assert_eq!(parse_command("/get "), Err(ParseError::NotACommand));
    assert_eq!(parse_command(""), Err(ParseError::NotACommand));
    assert_eq!(parse_command("/gettysburg"), Err(ParseError::NotACommand));
}

#[test]
fn command_metadata_lists_every_trigger() {
    let meta = command_descriptions();
    assert_eq!(meta.len(), 3);
    assert_eq!(meta[0], ("/get", "get your number."));
    assert_eq!(meta[1], ("/reset", "reset your number."));
    assert_eq!(meta[2], ("/list", "list of events."));
}

#[test]
fn default_state_is_start() {
    assert_eq!(State::default(), State::Start);
}
