use agent_host::host::{parse_run_mode, table_is_array, RunMode};

fn args(v: &[&str]) -> Vec<String> {
    v.iter().map(|s| s.to_string()).collect()
}

#[test]
fn modes() {
    assert!(matches!(parse_run_mode(&args(&["agent"])), RunMode::Cli));
    assert!(matches!(parse_run_mode(&args(&["agent", "run"])), RunMode::Cli));
    assert!(matches!(parse_run_mode(&args(&["agent", "tui"])), RunMode::Tui { demo: false }));
    assert!(matches!(parse_run_mode(&args(&["agent", "tui", "--demo"])), RunMode::Tui { demo: true }));
    assert!(matches!(parse_run_mode(&args(&["agent", "tui", "-d"])), RunMode::Tui { demo: true }));
    match parse_run_mode(&args(&["agent", "tui", "list files"])) {
        RunMode::TuiTask(t) => assert_eq!(t, "list files"),
        _ => panic!(),
    }
}

#[test]
fn lua_tables() {
    assert!(!table_is_array(&vec![]));
    assert!(table_is_array(&vec![true, true]));
    assert!(!table_is_array(&vec![true, false]));
}
