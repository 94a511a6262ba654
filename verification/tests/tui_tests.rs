use agent_host::tui::{Key, TuiAction, TuiState};

#[test]
fn new_session_greets() {
    let s = TuiState::new();
    assert_eq!(s.output_text(), "Agent TUI ready. Type your message and press Enter.\n");
    assert_eq!(s.input_text(), "");
    assert!(!s.is_processing());
    assert_eq!(s.input_title(), "Input (Enter to send, Esc to quit)");
}

#[test]
fn typing_and_submitting() {
    let mut s = TuiState::new();
    for c in "ls".chars() {
        assert!(matches!(s.handle_key(Key::Char(c)), TuiAction::Idle));
    }
    s.handle_key(Key::Char('x'));
    s.handle_key(Key::Backspace);
    assert_eq!(s.input_text(), "ls");
    match s.handle_key(Key::Enter) {
        TuiAction::RunAgent(t) => assert_eq!(t, "ls"),
        _ => panic!("no task"),
    }
    assert_eq!(s.input_text(), "");
    assert!(s.is_processing());
    assert_eq!(s.input_title(), "Agent is thinking...");
    // keys are ignored while the agent works
    assert!(matches!(s.handle_key(Key::Esc), TuiAction::Idle));
    s.finish_task(Ok("done".to_string()));
    assert!(!s.is_processing());
    assert!(s.output_text().ends_with("\n> ls\n(Agent processing...)\ndone\n"));
    s.handle_key(Key::Char('y'));
    s.handle_key(Key::Enter);
    s.finish_task(Err("boom".to_string()));
    assert!(s.output_text().ends_with("(Error: boom)\n"));
}

#[test]
fn empty_enter_and_escape() {
    let mut s = TuiState::new();
    assert!(matches!(s.handle_key(Key::Enter), TuiAction::Idle));
    assert!(matches!(s.handle_key(Key::Backspace), TuiAction::Idle));
    assert!(matches!(s.handle_key(Key::Other), TuiAction::Idle));
    assert!(matches!(s.handle_key(Key::Esc), TuiAction::Quit));
}

fn enter_line(s: &mut TuiState, line: &str) -> TuiAction {
    for c in line.chars() {
        s.handle_key(Key::Char(c));
    }
    s.handle_key(Key::Enter)
}

#[test]
fn slash_commands_are_not_tasks() {
    let mut s = TuiState::new();
    assert!(matches!(enter_line(&mut s, "/clear"), TuiAction::Idle));
    assert_eq!(s.output_text(), "");
    assert_eq!(s.input_text(), "");
    assert!(!s.is_processing());
    assert!(matches!(enter_line(&mut s, "/help"), TuiAction::Idle));
    assert_eq!(
        s.output_text(),
        "Commands: /help, /clear, /echo TEXT, /save, /history, /load N, /quit\n"
    );
    enter_line(&mut s, "/clear");
    assert!(matches!(enter_line(&mut s, "/echo hello there"), TuiAction::Idle));
    assert_eq!(s.output_text(), "hello there\n");
    assert!(matches!(enter_line(&mut s, "/save"), TuiAction::SaveSession));
    assert!(matches!(enter_line(&mut s, "/history"), TuiAction::ShowHistory));
    assert!(matches!(enter_line(&mut s, "/load 2"), TuiAction::LoadSession(2)));
    assert!(matches!(enter_line(&mut s, "/load x"), TuiAction::Idle));
    assert!(s.output_text().ends_with("Usage: /load N\n"));
    assert!(matches!(enter_line(&mut s, "/frobnicate now"), TuiAction::Idle));
    assert!(s.output_text().ends_with("Unknown command: /frobnicate (type /help)\n"));
    assert!(matches!(enter_line(&mut s, "/quit"), TuiAction::Quit));
    assert!(!s.is_processing());
}

#[test]
fn notes_are_appended() {
    let mut s = TuiState::new();
    enter_line(&mut s, "/clear");
    s.append_note("Saved session x");
    assert_eq!(s.output_text(), "Saved session x\n");
}
