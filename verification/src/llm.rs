//! Decisions of a chat request to the Messages API: the endpoint, and what
//! to do after each attempt (answer, fail, or wait and try again).
//!
//! A successful status answers with the body. A rate-limited answer (429)
//! and a transport error are retried after an exponential backoff of 2, 4,
//! 8, ... seconds, as long as attempts are left; any other status fails at
//! once. When no attempt is left the request fails with the last error.
use crate::text::{chars_of, decimal_string, push_str, string_of};
use vstd::arithmetic::power2::{
    lemma2_to64, lemma2_to64_rest, lemma_pow2_strictly_increases, lemma_pow2_unfold, pow2,
};
use vstd::prelude::*;

verus! {

/// Attempts a chat request may make.
pub const MAX_RETRIES: u32 = 3;

/// The endpoint for chat requests: `<base_url>/v1/messages`.
pub fn messages_url(base_url: &str) -> (url: String)
    ensures
        url@ == base_url@ + "/v1/messages"@,
{
    let mut v = chars_of(base_url);
    push_str(&mut v, "/v1/messages");
    string_of(&v)
}

/// What an attempt came back with.
pub enum ChatEvent {
    /// An HTTP answer: the numeric status, its display text (such as
    /// `429 Too Many Requests`) and the body.
    Response { status: u16, status_text: String, body: String },
    /// The request did not get an answer; the error's text.
    Transport { message: String },
}

/// What to do next.
pub enum ChatStep {
    /// The answer's body.
    Done(String),
    /// Give up with this error text.
    Fail(String),
    /// Wait this many seconds (if any), then go on.
    Continue { wait_secs: Option<u64> },
}

/// Backoff before the attempt after attempt `attempt` (counted from 0).
pub open spec fn backoff_secs(attempt: nat) -> nat {
    pow2(attempt + 1)
}

/// Mathematical value of the retry state.
pub struct RetryView {
    pub attempt: nat,
    pub max_retries: nat,
    pub last_error: Seq<char>,
}

/// Mathematical value of a step.
pub enum StepView {
    Done(Seq<char>),
    Fail(Seq<char>),
    Continue { wait_secs: Option<u64> },
}

pub open spec fn event_is_success(status: u16) -> bool {
    200 <= status <= 299
}

/// The retry state and the next step after an event.
pub open spec fn chat_step(
    v: RetryView,
    status: Option<(u16, Seq<char>, Seq<char>)>,
    transport_error: Seq<char>,
) -> (RetryView, StepView) {
    let next = RetryView { attempt: v.attempt + 1, ..v };
    match status {
        Some((code, text, body)) => if event_is_success(code) {
            (next, StepView::Done(body))
        } else if code == 429 {
            (
                RetryView { last_error: "HTTP "@ + text + ": "@ + body, ..next },
                StepView::Continue { wait_secs: Some(backoff_secs(v.attempt) as u64) },
            )
        } else {
            (next, StepView::Fail("API error (HTTP "@ + text + "): "@ + body))
        },
        None => (
            RetryView { last_error: transport_error, ..next },
            StepView::Continue {
                wait_secs: if v.attempt + 1 < v.max_retries {
                    Some(backoff_secs(v.attempt) as u64)
                } else {
                    None
                },
            },
        ),
    }
}

/// Retry state of one chat request.
pub struct ChatRetry {
    attempt: u32,
    max_retries: u32,
    last_error: String,
}

impl View for ChatRetry {
    type V = RetryView;

    closed spec fn view(&self) -> RetryView {
        RetryView {
            attempt: self.attempt as nat,
            max_retries: self.max_retries as nat,
            last_error: self.last_error@,
        }
    }
}

pub open spec fn event_parts(ev: ChatEvent) -> (Option<(u16, Seq<char>, Seq<char>)>, Seq<char>) {
    match ev {
        ChatEvent::Response { status, status_text, body } => (
            Some((status, status_text@, body@)),
            Seq::empty(),
        ),
        ChatEvent::Transport { message } => (None, message@),
    }
}

pub open spec fn step_view(s: ChatStep) -> StepView {
    match s {
        ChatStep::Done(b) => StepView::Done(b@),
        ChatStep::Fail(m) => StepView::Fail(m@),
        ChatStep::Continue { wait_secs } => StepView::Continue { wait_secs },
    }
}

fn backoff(attempt: u32) -> (secs: u64)
    requires
        attempt < 63,
    ensures
        secs == backoff_secs(attempt as nat),
{
    let mut secs: u64 = 2;
    let mut i: u32 = 0;
    proof {
        lemma2_to64();
        lemma2_to64_rest();
    }
    while i < attempt
        invariant
            i <= attempt < 63,
            secs == pow2((i + 1) as nat),
            pow2(63) == 0x8000000000000000,
        decreases attempt - i,
    {
        proof {
            lemma_pow2_unfold((i + 2) as nat);
            if i + 2 < 63 {
                lemma_pow2_strictly_increases((i + 2) as nat, 63);
            }
        }
        secs = secs * 2;
        i = i + 1;
    }
    secs
}

impl ChatRetry {
    /// A request that may be attempted `max_retries` times (at most 63, so
    /// that every backoff fits in 64 bits).
    pub fn new(max_retries: u32) -> (r: Self)
        requires
            max_retries <= 63,
        ensures
            r@ == (RetryView { attempt: 0, max_retries: max_retries as nat, last_error: Seq::empty() }),
    {
        ChatRetry { attempt: 0, max_retries, last_error: String::new() }
    }

    /// Whether another attempt may be made.
    pub fn has_attempt_left(&self) -> (b: bool)
        ensures
            b == (self@.attempt < self@.max_retries),
    {
        self.attempt < self.max_retries
    }

    /// Decides what follows an attempt's outcome.
    pub fn on_event(&mut self, ev: ChatEvent) -> (s: ChatStep)
        requires
            old(self)@.attempt < old(self)@.max_retries <= 63,
        ensures
            (final(self)@, step_view(s)) == chat_step(
                old(self)@,
                event_parts(ev).0,
                event_parts(ev).1,
            ),
    {
        let attempt = self.attempt;
        self.attempt = self.attempt + 1;
        match ev {
            ChatEvent::Response { status, status_text, body } => {
                if 200 <= status && status <= 299 {
                    ChatStep::Done(body)
                } else if status == 429 {
                    let mut e = chars_of("HTTP ");
                    push_str(&mut e, status_text.as_str());
                    push_str(&mut e, ": ");
                    push_str(&mut e, body.as_str());
                    self.last_error = string_of(&e);
                    ChatStep::Continue { wait_secs: Some(backoff(attempt)) }
                } else {
                    let mut m = chars_of("API error (HTTP ");
                    push_str(&mut m, status_text.as_str());
                    push_str(&mut m, "): ");
                    push_str(&mut m, body.as_str());
                    ChatStep::Fail(string_of(&m))
                }
            },
            ChatEvent::Transport { message } => {
                self.last_error = message;
                if attempt + 1 < self.max_retries {
                    ChatStep::Continue { wait_secs: Some(backoff(attempt)) }
                } else {
                    ChatStep::Continue { wait_secs: None }
                }
            },
        }
    }

    /// The error once every attempt is used up.
    pub fn exhausted_message(&self) -> (m: String)
        ensures
            m@ == "LLM call failed after "@ + crate::text::dec_spec(self@.max_retries)
                + " retries: "@ + self@.last_error,
    {
        let mut v = chars_of("LLM call failed after ");
        let n = decimal_string(self.max_retries as u64);
        push_str(&mut v, n.as_str());
        push_str(&mut v, " retries: ");
        push_str(&mut v, self.last_error.as_str());
        string_of(&v)
    }
}

/// Retry law: a request makes at most `max_retries` attempts, each attempt
/// that neither answers nor fails outright moves one step closer to the end,
/// and every backoff is twice the one before.
pub proof fn lemma_attempts_bounded(
    v: RetryView,
    status: Option<(u16, Seq<char>, Seq<char>)>,
    transport_error: Seq<char>,
)
    requires
        v.attempt < v.max_retries,
    ensures
        chat_step(v, status, transport_error).0.attempt == v.attempt + 1,
        chat_step(v, status, transport_error).0.max_retries == v.max_retries,
        backoff_secs(v.attempt + 1) == 2 * backoff_secs(v.attempt),
{
    lemma_pow2_unfold(v.attempt + 2);
}

} // verus!
