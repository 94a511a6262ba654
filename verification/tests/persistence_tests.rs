use agent_host::persistence::{
    civil_from_days, format_timestamp, is_leap, iso_now, message_rows, new_session_row,
    OutgoingMessage,
};

#[test]
fn epoch_is_formatted() {
    assert_eq!(format_timestamp(0), "1970-01-01 00:00:00");
    assert_eq!(format_timestamp(86399), "1970-01-01 23:59:59");
}

#[test]
fn leap_days_are_formatted() {
    assert_eq!(format_timestamp(951782400), "2000-02-29 00:00:00");
    assert_eq!(format_timestamp(1709210096), "2024-02-29 12:34:56");
}

#[test]
fn century_and_far_years() {
    assert_eq!(format_timestamp(4102444800), "2100-01-01 00:00:00");
    assert_eq!(format_timestamp(253402300799), "9999-12-31 23:59:59");
    assert_eq!(format_timestamp(253402300800), "10000-01-01 00:00:00");
}

#[test]
fn civil_dates() {
    assert_eq!(civil_from_days(0), (1970, 1, 1));
    assert_eq!(civil_from_days(59), (1970, 3, 1));
    assert_eq!(civil_from_days(365), (1971, 1, 1));
    assert_eq!(civil_from_days(11016), (2000, 2, 29));
}

#[test]
fn leap_years() {
    assert!(is_leap(2000));
    assert!(is_leap(2024));
    assert!(!is_leap(1900));
    assert!(!is_leap(2023));
    assert!(is_leap(-4));
}

#[test]
fn now_has_timestamp_shape() {
    let s = iso_now();
    assert_eq!(s.len(), 19);
    assert_eq!(&s[4..5], "-");
    assert_eq!(&s[10..11], " ");
}

#[test]
fn rows_number_steps_and_default_role() {
    let msgs = vec![
        OutgoingMessage { role: Some("user".to_string()), content: "\"hi\"".to_string() },
        OutgoingMessage { role: None, content: "[1,2]".to_string() },
    ];
    let rows = message_rows(&msgs);
    assert_eq!(rows.len(), 2);
    assert_eq!(rows[0].role, "user");
    assert_eq!(rows[0].content, "\"hi\"");
    assert_eq!(rows[0].step, 1);
    assert_eq!(rows[1].role, "unknown");
    assert_eq!(rows[1].content, "[1,2]");
    assert_eq!(rows[1].step, 2);
}

#[test]
fn new_session_rows_have_fresh_ids() {
    let a = new_session_row("first task", "/work".to_string());
    let b = new_session_row("second task", "/work".to_string());
    assert_eq!(a.id.len(), 36);
    for (i, c) in a.id.chars().enumerate() {
        if [8, 13, 18, 23].contains(&i) {
            assert_eq!(c, '-');
        } else {
            assert!(c.is_ascii_digit() || ('a'..='f').contains(&c), "{:?}", a.id);
        }
    }
    assert_eq!(a.id.chars().nth(14), Some('4'));
    assert!(matches!(a.id.chars().nth(19), Some('8' | '9' | 'a' | 'b')));
    assert_ne!(a.id, b.id);
    assert_eq!(a.title, "first task");
    assert_eq!(a.workspace, "/work");
    assert_eq!(a.created_at, a.updated_at);
    assert_eq!(a.created_at.len(), 19);
}
