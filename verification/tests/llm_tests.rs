use agent_host::llm::{messages_url, ChatEvent, ChatRetry, ChatStep};

fn resp(status: u16, text: &str, body: &str) -> ChatEvent {
    ChatEvent::Response { status, status_text: text.to_string(), body: body.to_string() }
}

#[test]
fn endpoint_is_appended() {
    assert_eq!(messages_url("https://api.deepseek.com/anthropic"), "https://api.deepseek.com/anthropic/v1/messages");
}

#[test]
fn success_returns_body() {
    let mut r = ChatRetry::new(3);
    match r.on_event(resp(200, "200 OK", "{}")) {
        ChatStep::Done(b) => assert_eq!(b, "{}"),
        _ => panic!(),
    }
}

#[test]
fn other_errors_fail_at_once() {
    let mut r = ChatRetry::new(3);
    match r.on_event(resp(401, "401 Unauthorized", "bad key")) {
        ChatStep::Fail(m) => assert_eq!(m, "API error (HTTP 401 Unauthorized): bad key"),
        _ => panic!(),
    }
}

#[test]
fn rate_limits_back_off_then_give_up() {
    let mut r = ChatRetry::new(3);
    let mut waits = Vec::new();
    while r.has_attempt_left() {
        match r.on_event(resp(429, "429 Too Many Requests", "slow down")) {
            ChatStep::Continue { wait_secs } => waits.push(wait_secs),
            _ => panic!(),
        }
    }
    assert_eq!(waits, vec![Some(2), Some(4), Some(8)]);
    assert_eq!(
        r.exhausted_message(),
        "LLM call failed after 3 retries: HTTP 429 Too Many Requests: slow down"
    );
}

#[test]
fn transport_errors_retry_without_final_wait() {
    let mut r = ChatRetry::new(3);
    let mut waits = Vec::new();
    while r.has_attempt_left() {
        match r.on_event(ChatEvent::Transport { message: "timeout".to_string() }) {
            ChatStep::Continue { wait_secs } => waits.push(wait_secs),
            _ => panic!(),
        }
    }
    assert_eq!(waits, vec![Some(2), Some(4), None]);
    assert_eq!(r.exhausted_message(), "LLM call failed after 3 retries: timeout");
}

#[test]
fn three_attempts_at_most() {
    assert_eq!(agent_host::llm::MAX_RETRIES, 3);
}
