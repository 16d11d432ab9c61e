use ratamud::input::{CommandResult, InputHandler, InputStep, SaveOutcome};

fn ready(step: Option<InputStep>) -> CommandResult {
    match step {
        Some(InputStep::Ready(c)) => c,
        other => panic!("expected a command, got {:?}", other),
    }
}

#[test]
fn new_handler_is_empty() {
    let h = InputHandler::new();
    assert_eq!(h.get_input(), "");
    assert_eq!(h.history_count(), 0);
    assert_eq!(h.max_history, 100);
    assert!(h.last_command.is_none());
}

#[test]
fn directions_are_moves() {
    let mut h = InputHandler::new();
    assert!(matches!(ready(h.process_command_string("up".to_string())), CommandResult::Move(0, -1)));
    assert!(matches!(ready(h.process_command_string("right".to_string())), CommandResult::Move(1, 0)));
    assert_eq!(h.history_count(), 2);
    assert_eq!(h.last_command.as_deref(), Some("right"));
}

#[test]
fn errors_are_not_recorded() {
    let mut h = InputHandler::new();
    assert!(matches!(ready(h.process_command_string("dance".to_string())), CommandResult::Error(_)));
    assert_eq!(h.history_count(), 0);
    assert!(h.last_command.is_none());
}

#[test]
fn repeat_runs_the_previous_command() {
    let mut h = InputHandler::new();
    ready(h.process_command_string("look".to_string()));
    assert!(matches!(ready(h.process_command_string("re".to_string())), CommandResult::Look(None)));
    assert_eq!(h.history_count(), 1);
    assert_eq!(h.last_command.as_deref(), Some("look"));
}

#[test]
fn recent_commands_newest_first() {
    let mut h = InputHandler::new();
    ready(h.process_command_string("look".to_string()));
    ready(h.process_command_string("npcs".to_string()));
    ready(h.process_command_string("help".to_string()));
    assert_eq!(h.get_recent_commands(2), vec!["help".to_string(), "npcs".to_string()]);
    assert_eq!(h.get_recent_commands(10).len(), 3);
    assert_eq!(h.get_history().front().map(|s| s.as_str()), Some("look"));
}

#[test]
fn history_drops_the_oldest_when_full() {
    let mut h = InputHandler::new();
    h.max_history = 2;
    ready(h.process_command_string("look".to_string()));
    ready(h.process_command_string("npcs".to_string()));
    ready(h.process_command_string("help".to_string()));
    assert_eq!(h.history_count(), 2);
    assert_eq!(h.get_recent_commands(2), vec!["help".to_string(), "npcs".to_string()]);
}

#[test]
fn save_asks_for_the_write_and_reports_it() {
    let mut h = InputHandler::new();
    h.buffer = vec!["a".to_string(), "b".to_string()];
    match h.process_command_string("save out.txt".to_string()) {
        Some(InputStep::Save(f)) => assert_eq!(f, "out.txt"),
        other => panic!("{:?}", other),
    }
    assert_eq!(h.save_content(), "a\nb");
    match h.complete_save("save out.txt".to_string(), "out.txt", SaveOutcome::Saved) {
        CommandResult::Output(m) => assert_eq!(m, "Saved 2 lines to out.txt"),
        other => panic!("{:?}", other),
    }
    assert_eq!(h.history_count(), 1);
    match h.complete_save("save x".to_string(), "x", SaveOutcome::WriteFailed("disk full".to_string())) {
        CommandResult::Error(e) => assert_eq!(e, "Write error: disk full"),
        other => panic!("{:?}", other),
    }
    match h.complete_save("save x".to_string(), "x", SaveOutcome::CreateFailed("denied".to_string())) {
        CommandResult::Error(e) => assert_eq!(e, "File error: denied"),
        other => panic!("{:?}", other),
    }
    assert_eq!(h.history_count(), 1);
}

#[test]
fn save_without_a_name_uses_the_default() {
    let mut h = InputHandler::new();
    match h.process_command_string("save".to_string()) {
        Some(InputStep::Save(f)) => assert_eq!(f, "save.txt"),
        other => panic!("{:?}", other),
    }
}

#[test]
fn clear_input_empties_the_line() {
    let mut h = InputHandler::new();
    h.input = "hel".to_string();
    assert_eq!(h.get_input(), "hel");
    h.clear_input();
    assert_eq!(h.get_input(), "");
}

#[test]
fn talk_without_a_topic_chats() {
    let mut h = InputHandler::new();
    match ready(h.process_command_string("talk bob".to_string())) {
        CommandResult::Talk(n, t) => {
            assert_eq!(n, "bob");
            assert_eq!(t, "閒聊");
        },
        other => panic!("{:?}", other),
    }
}

#[test]
fn eagerness_is_capped_at_one_hundred() {
    let mut h = InputHandler::new();
    match ready(h.process_command_string("setea bob 250".to_string())) {
        CommandResult::SetEagerness(n, v) => {
            assert_eq!(n, "bob");
            assert_eq!(v, 100);
        },
        other => panic!("{:?}", other),
    }
}
