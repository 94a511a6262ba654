use agent_host::compile::parse_diagnostics;

const SAMPLE: &str = "   Compiling demo v0.1.0 (/tmp/demo)
warning: unused variable: `x`
 --> src/main.rs:2:9
  |
2 |     let x = 5;
  |         ^ help: if this is intentional, prefix it with an underscore: `_x`
  |
  = note: `#[warn(unused_variables)]` on by default

error[E0308]: mismatched types
 --> src/main.rs:3:18
  |
3 |     let y: u32 = \"a\";
  |            ---   ^^^ expected `u32`, found `&str`
  |            |
  |            expected due to this

error: aborting due to 1 previous error
";

#[test]
fn errors_and_warnings_are_separated() {
    let d = parse_diagnostics(SAMPLE).unwrap();
    assert_eq!(d.warnings.len(), 1);
    assert_eq!(d.errors.len(), 2);
    let w = &d.warnings[0];
    assert_eq!(w.level, "warning");
    assert_eq!(w.message, "unused variable: `x`");
    assert_eq!(w.code, None);
    assert_eq!(w.file, "src/main.rs");
    assert_eq!(w.line, 2);
    assert_eq!(w.column, 9);
    let e = &d.errors[0];
    assert_eq!(e.code.as_deref(), Some("E0308"));
    assert_eq!(e.message, "mismatched types");
    assert_eq!(e.line, 3);
    assert_eq!(e.column, 18);
    let last = &d.errors[1];
    assert_eq!(last.message, "aborting due to 1 previous error");
    assert_eq!(last.file, "");
    assert_eq!(last.line, 0);
    assert_eq!(last.snippet, None);
}

#[test]
fn snippets_are_collected() {
    let d = parse_diagnostics(SAMPLE).unwrap();
    let w = &d.warnings[0];
    let snip = w.snippet.as_deref().unwrap();
    assert!(snip.starts_with("  |\n2 |     let x = 5;"));
    // "  = note" (two spaces) is not a snippet line; " = " needs exactly one
    assert!(!snip.contains("= note"));
    assert!(snip.ends_with("prefix it with an underscore: `_x`\n  |"));
    let e = &d.errors[0];
    assert!(e.snippet.as_deref().unwrap().contains("expected due to this"));
}

#[test]
fn notes_and_help_are_dropped() {
    let d = parse_diagnostics("note: something\nhelp: try this\n").unwrap();
    assert!(d.errors.is_empty());
    assert!(d.warnings.is_empty());
}

#[test]
fn empty_output_has_no_diagnostics() {
    let d = parse_diagnostics("").unwrap();
    assert!(d.errors.is_empty() && d.warnings.is_empty());
}

#[test]
fn location_without_entry_is_ignored() {
    let d = parse_diagnostics("  --> src/lib.rs:1:1\nerror: boom\n").unwrap();
    assert_eq!(d.errors.len(), 1);
    assert_eq!(d.errors[0].file, "");
}
