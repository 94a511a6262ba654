use agent_host::fs::{confine_to_workspace, reject_parent_refs, truncate_lines, write_reply, FsError};

#[test]
fn parent_references_are_refused() {
    assert!(matches!(reject_parent_refs("../etc/passwd"), Err(FsError::ParentReference)));
    assert!(matches!(reject_parent_refs("a/..b"), Err(FsError::ParentReference)));
    assert!(reject_parent_refs("src/main.rs").is_ok());
    assert_eq!(
        FsError::ParentReference.message(),
        "Access denied: path contains '..'"
    );
}

#[test]
fn paths_must_stay_in_workspace() {
    assert!(confine_to_workspace("/work/src/a.rs", "/work").is_ok());
    assert!(confine_to_workspace("/work", "/work").is_ok());
    assert!(matches!(confine_to_workspace("/workshop/a", "/work"), Err(FsError::EscapesWorkspace)));
    assert!(confine_to_workspace("/etc/passwd", "/work").is_err());
    assert_eq!(
        FsError::EscapesWorkspace.message(),
        "Access denied: path escapes workspace"
    );
}

#[test]
fn content_is_limited_by_lines() {
    let content = "a\nb\nc\nd\n";
    assert_eq!(truncate_lines(content, Some(2)), "a\nb\n... (2 more lines)");
    assert_eq!(truncate_lines(content, Some(4)), content);
    assert_eq!(truncate_lines(content, None), content);
    assert_eq!(truncate_lines(content, Some(0)), "\n... (4 more lines)");
    assert_eq!(truncate_lines("x\r\ny\r\nz", Some(1)), "x\n... (2 more lines)");
}

#[test]
fn write_is_reported() {
    assert_eq!(write_reply(12, "/w/a.txt"), "Wrote 12 bytes to /w/a.txt");
}
