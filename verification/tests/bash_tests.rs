use agent_host::bash::{check_command, shell_output, BashError};

#[test]
fn dangerous_commands_are_blocked() {
    match check_command("sudo apt install x") {
        Err(BashError::Blocked { pattern }) => assert_eq!(pattern, "sudo "),
        Ok(()) => panic!("not blocked"),
    }
    match check_command("RM -RF / --no-preserve-root") {
        Err(e) => assert_eq!(e.message(), "Dangerous command blocked: matched 'rm -rf /'"),
        Ok(()) => panic!("not blocked"),
    }
    assert!(check_command("echo hi > /dev/null").is_err());
    assert!(check_command(":(){ :|:& };:").is_err());
}

#[test]
fn ordinary_commands_pass() {
    assert!(check_command("ls -la").is_ok());
    assert!(check_command("cargo build").is_ok());
    assert!(check_command("").is_ok());
}

#[test]
fn output_is_joined() {
    assert_eq!(shell_output("out\n", "err\n"), "out\nerr\n");
}

#[test]
fn blank_output_is_reported() {
    assert_eq!(shell_output("", ""), "(no output)");
    assert_eq!(shell_output("  \n", "\t"), "(no output)");
}

#[test]
fn long_output_is_truncated() {
    let big = "x".repeat(60000);
    let r = shell_output(&big, "");
    assert_eq!(r.len(), 50000 + "... (truncated)".len());
    assert!(r.ends_with("... (truncated)"));
    let exact = "y".repeat(50000);
    assert_eq!(shell_output(&exact, ""), exact);
}
