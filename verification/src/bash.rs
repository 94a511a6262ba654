//! Guarding and reporting shell commands.
//!
//! A command is refused when its lower-cased text contains one of a fixed
//! list of dangerous patterns. (The list only stops the most obvious cases:
//! spaces, quoting or encoding get around it.) The reply of a command is its
//! standard output followed by its standard error, cut after 50000 bytes.
use crate::text::{
    before_byte, byte_prefix, bytes_below, bytes_len, chars_of, contains, contains_spec, is_blank,
    is_boundary, lowercase_spec, push_all, push_str, slice, string_of, to_lowercase, trim_spec,
};
use vstd::prelude::*;

verus! {

/// The refused patterns, in the order they are tried.
pub open spec fn blocked_patterns_spec() -> Seq<Seq<char>> {
    seq![
        "rm -rf /"@,
        "rm -rf /*"@,
        "sudo "@,
        "shutdown"@,
        "reboot"@,
        "mkfs"@,
        "dd if="@,
        "> /dev/"@,
        ":(){ :|:& };:"@,
        "chmod 777"@,
    ]
}

/// Pattern `i` of the refused list.
fn blocked_pattern(i: usize) -> (p: &'static str)
    requires
        i < 10,
    ensures
        p@ == blocked_patterns_spec()[i as int],
{
    if i == 0 {
        "rm -rf /"
    } else if i == 1 {
        "rm -rf /*"
    } else if i == 2 {
        "sudo "
    } else if i == 3 {
        "shutdown"
    } else if i == 4 {
        "reboot"
    } else if i == 5 {
        "mkfs"
    } else if i == 6 {
        "dd if="
    } else if i == 7 {
        "> /dev/"
    } else if i == 8 {
        ":(){ :|:& };:"
    } else {
        "chmod 777"
    }
}

/// Why a command was refused.
pub enum BashError {
    /// The command matched this refused pattern.
    Blocked { pattern: String },
}

impl BashError {
    /// The error text.
    pub fn message(&self) -> (s: String)
        ensures
            s@ == match self {
                BashError::Blocked { pattern } => "Dangerous command blocked: matched '"@
                    + pattern@ + "'"@,
            },
    {
        match self {
            BashError::Blocked { pattern } => {
                let mut v = chars_of("Dangerous command blocked: matched '");
                push_str(&mut v, pattern.as_str());
                push_str(&mut v, "'");
                string_of(&v)
            },
        }
    }
}

/// The first refused pattern that occurs in the (already lower-cased) text.
pub fn find_blocked(lower: &str) -> (r: Option<String>)
    ensures
        match r {
            None => forall|j: int|
                0 <= j < 10 ==> !contains_spec(lower@, #[trigger] blocked_patterns_spec()[j]),
            Some(p) => exists|j: int|
                0 <= j < 10 && p@ == blocked_patterns_spec()[j] && contains_spec(
                    lower@,
                    blocked_patterns_spec()[j],
                ) && forall|k: int|
                    0 <= k < j ==> !contains_spec(lower@, #[trigger] blocked_patterns_spec()[k]),
        },
{
    let text = chars_of(lower);
    let mut i: usize = 0;
    while i < 10
        invariant
            i <= 10,
            text@ == lower@,
            forall|k: int|
                0 <= k < i ==> !contains_spec(lower@, #[trigger] blocked_patterns_spec()[k]),
        decreases 10 - i,
    {
        let p = blocked_pattern(i);
        let pv = chars_of(p);
        if contains(&text, &pv) {
            return Some(string_of(&pv));
        }
        i = i + 1;
    }
    None
}

/// Refuses a command whose lower-cased text contains a refused pattern,
/// naming the first such pattern in the list.
pub fn check_command(command: &str) -> (r: Result<(), BashError>)
    ensures
        match r {
            Ok(()) => forall|j: int|
                0 <= j < 10 ==> !contains_spec(
                    lowercase_spec(command@),
                    #[trigger] blocked_patterns_spec()[j],
                ),
            Err(BashError::Blocked { pattern }) => exists|j: int|
                0 <= j < 10 && pattern@ == blocked_patterns_spec()[j] && contains_spec(
                    lowercase_spec(command@),
                    blocked_patterns_spec()[j],
                ) && forall|k: int|
                    0 <= k < j ==> !contains_spec(
                        lowercase_spec(command@),
                        #[trigger] blocked_patterns_spec()[k],
                    ),
        },
{
    let lower = to_lowercase(command);
    match find_blocked(lower.as_str()) {
        Some(pattern) => Err(BashError::Blocked { pattern }),
        None => Ok(()),
    }
}

/// Most bytes of output that a reply shows.
pub const OUTPUT_LIMIT: usize = 50000;

/// The reply for a command's output: standard output then standard error;
/// beyond 50000 bytes cut there and marked `... (truncated)`; `(no output)`
/// when nothing but whitespace remains.
pub open spec fn shell_reply(stdout: Seq<char>, stderr: Seq<char>) -> Seq<char> {
    let combined = stdout + stderr;
    let shown = if bytes_len(combined) > OUTPUT_LIMIT {
        before_byte(combined, OUTPUT_LIMIT as nat) + "... (truncated)"@
    } else {
        combined
    };
    if trim_spec(shown).len() == 0 {
        "(no output)"@
    } else {
        shown
    }
}

/// The reply for a command's output. Output longer than the limit must be
/// cut at a character boundary (slicing a `str` elsewhere would panic).
pub fn shell_output(stdout: &str, stderr: &str) -> (r: String)
    requires
        bytes_len(stdout@ + stderr@) > OUTPUT_LIMIT ==> is_boundary(
            stdout@ + stderr@,
            OUTPUT_LIMIT as nat,
        ),
    ensures
        r@ == shell_reply(stdout@, stderr@),
{
    let mut combined = chars_of(stdout);
    push_str(&mut combined, stderr);
    let shown = if !bytes_below(&combined, OUTPUT_LIMIT + 1) {
        let (k, _n) = byte_prefix(&combined, OUTPUT_LIMIT);
        proof {
            crate::text::lemma_chars_within_le(combined@, OUTPUT_LIMIT as nat);
        }
        let mut s = slice(&combined, 0, k);
        push_str(&mut s, "... (truncated)");
        assert(s@ =~= before_byte(combined@, OUTPUT_LIMIT as nat) + "... (truncated)"@);
        s
    } else {
        combined
    };
    if is_blank(&shown) {
        string_of(&chars_of("(no output)"))
    } else {
        string_of(&shown)
    }
}

} // verus!
