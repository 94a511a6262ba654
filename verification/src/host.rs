//! Decisions of the host program: which mode a command line asks for, the
//! crash-detection settings of the command-line mode, and how a Lua table is
//! read back as JSON (an array when every key is an integer).
use crate::text::{chars_eq, chars_of, starts_with, starts_with_spec};
use vstd::prelude::*;

verus! {

/// The task of the command-line mode.
pub const CLI_TASK: &'static str = "List the files in the current directory, then read Cargo.toml and summarize what dependencies this project uses.";

/// Runs the crash detector keeps in the command-line mode.
pub const CRASH_WINDOW: usize = 5;

/// Failure rate (numerator, denominator) that advises a rollback: 60%.
pub const CRASH_RATE_NUM: usize = 3;

pub const CRASH_RATE_DEN: usize = 5;

/// Failure streak that advises a rollback.
pub const CRASH_MAX_CONSECUTIVE: usize = 3;

/// Steps the agent may take on a task that comes with a history.
pub const AGENT_MAX_STEPS: usize = 15;

/// What the command line asks for.
pub enum RunMode {
    /// Run the fixed task once and report.
    Cli,
    /// The interactive terminal session (`demo` when `--demo` or `-d` is given).
    Tui { demo: bool },
    /// A single task for the terminal mode: it runs once and its reply is shown.
    TuiTask(String),
}

pub enum ModeView {
    Cli,
    Tui { demo: bool },
    TuiTask(Seq<char>),
}

pub open spec fn mode_view(m: RunMode) -> ModeView {
    match m {
        RunMode::Cli => ModeView::Cli,
        RunMode::Tui { demo } => ModeView::Tui { demo },
        RunMode::TuiTask(t) => ModeView::TuiTask(t@),
    }
}

/// `tui` as the first argument selects the terminal mode; a second argument
/// that does not start with `-` is a task to run once; `--demo` or `-d`
/// anywhere turns on the demo. Anything else is the command-line mode.
pub open spec fn run_mode_spec(args: Seq<Seq<char>>) -> ModeView {
    if args.len() > 1 && args[1] == "tui"@ {
        if args.len() > 2 && !starts_with_spec(args[2], "-"@) {
            ModeView::TuiTask(args[2])
        } else {
            ModeView::Tui {
                demo: exists|i: int|
                    0 <= i < args.len() && (args[i] == "--demo"@ || args[i] == "-d"@),
            }
        }
    } else {
        ModeView::Cli
    }
}

/// The mode the command-line arguments (program name first) ask for.
pub fn parse_run_mode(args: &Vec<String>) -> (m: RunMode)
    ensures
        mode_view(m) == run_mode_spec(crate::text::views(args@)),
{
    let ghost a = crate::text::views(args@);
    if args.len() > 1 {
        let first = chars_of(args[1].as_str());
        let tui = chars_of("tui");
        if chars_eq(&first, &tui) {
            if args.len() > 2 {
                let second = chars_of(args[2].as_str());
                let dash = chars_of("-");
                if !starts_with(&second, &dash) {
                    return RunMode::TuiTask(args[2].clone());
                }
            }
            let long = chars_of("--demo");
            let short = chars_of("-d");
            let mut demo = false;
            let mut i: usize = 0;
            while i < args.len()
                invariant
                    i <= args.len(),
                    a == crate::text::views(args@),
                    long@ == "--demo"@,
                    short@ == "-d"@,
                    demo == exists|j: int| 0 <= j < i && (a[j] == "--demo"@ || a[j] == "-d"@),
                decreases args.len() - i,
            {
                let x = chars_of(args[i].as_str());
                assert(a[i as int] == x@);
                if chars_eq(&x, &long) || chars_eq(&x, &short) {
                    demo = true;
                }
                i = i + 1;
            }
            return RunMode::Tui { demo };
        }
    }
    RunMode::Cli
}

/// A Lua table reads back as a JSON array when it has keys and every key is
/// an integer; otherwise as an object.
pub fn table_is_array(key_is_integer: &Vec<bool>) -> (b: bool)
    ensures
        b == (key_is_integer.len() > 0 && forall|i: int|
            0 <= i < key_is_integer.len() ==> #[trigger] key_is_integer@[i]),
{
    if key_is_integer.len() == 0 {
        return false;
    }
    let mut i: usize = 0;
    while i < key_is_integer.len()
        invariant
            i <= key_is_integer.len(),
            forall|j: int| 0 <= j < i ==> #[trigger] key_is_integer@[j],
        decreases key_is_integer.len() - i,
    {
        if !key_is_integer[i] {
            return false;
        }
        i = i + 1;
    }
    true
}

} // verus!
