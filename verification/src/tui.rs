//! The interactive terminal session as a state machine: the input line, the
//! output transcript, and whether the agent is working on a task. Keys move
//! it from state to state and ask for actions (quit, run a task, save or
//! load a conversation).
//!
//! A line that starts with `/` is a command, handled without the agent:
//! `/help`, `/clear`, `/echo TEXT`, `/save`, `/history`, `/load N` and
//! `/quit`.
use crate::text::{
    chars_eq, chars_of, copy_chars, parse_usize, parse_usize_spec, push_all, push_str, slice, string_of,
};
use vstd::prelude::*;

verus! {

/// A key the terminal reported.
pub enum Key {
    Esc,
    Enter,
    Backspace,
    Char(char),
    Other,
}

/// What the terminal loop must do after a key.
pub enum TuiAction {
    /// Leave the interactive session.
    Quit,
    /// Send the task to the agent, then report with `finish_task`.
    RunAgent(String),
    /// Save the conversation so far (`/save`), then report with `append_note`.
    SaveSession,
    /// List the saved conversations (`/history`), then report with
    /// `append_note`.
    ShowHistory,
    /// Load the `n`-th listed conversation, counted from 1 (`/load n`), then
    /// report with `append_note`.
    LoadSession(usize),
    /// Nothing beyond redrawing.
    Idle,
}

/// Mathematical value of the session's state.
pub struct TuiView {
    pub input: Seq<char>,
    pub output: Seq<char>,
    pub processing: bool,
}

/// Mathematical value of an action.
pub enum ActionView {
    Quit,
    RunAgent(Seq<char>),
    SaveSession,
    ShowHistory,
    LoadSession(usize),
    Idle,
}

pub open spec fn action_view(a: TuiAction) -> ActionView {
    match a {
        TuiAction::Quit => ActionView::Quit,
        TuiAction::RunAgent(t) => ActionView::RunAgent(t@),
        TuiAction::SaveSession => ActionView::SaveSession,
        TuiAction::ShowHistory => ActionView::ShowHistory,
        TuiAction::LoadSession(n) => ActionView::LoadSession(n),
        TuiAction::Idle => ActionView::Idle,
    }
}

/// A command line, as the session reads it.
pub enum Command {
    Help,
    Clear,
    Echo(Seq<char>),
    Save,
    History,
    Load(usize),
    /// `/load` without a number it can read.
    BadLoad,
    Quit,
    /// Any other word after `/`; the word, `/` included.
    Unknown(Seq<char>),
}

/// Index of the first space in `s` at or after `i`, or the length of `s`.
pub open spec fn first_space_from(s: Seq<char>, i: int) -> int
    decreases s.len() - i,
{
    if i < 0 || i >= s.len() {
        s.len() as int
    } else if s[i] == ' ' {
        i
    } else {
        first_space_from(s, i + 1)
    }
}

/// The command that a line starting with `/` stands for: the word after
/// `/` up to the first space names it, and the rest after that space is its
/// argument.
pub open spec fn command_spec(line: Seq<char>) -> Command {
    let k = first_space_from(line, 1);
    let name = line.subrange(1, k);
    let arg = if k < line.len() {
        line.subrange(k + 1, line.len() as int)
    } else {
        Seq::empty()
    };
    if name == "help"@ {
        Command::Help
    } else if name == "clear"@ {
        Command::Clear
    } else if name == "echo"@ {
        Command::Echo(arg)
    } else if name == "save"@ {
        Command::Save
    } else if name == "history"@ {
        Command::History
    } else if name == "load"@ {
        match parse_usize_spec(arg) {
            Some(n) => Command::Load(n),
            None => Command::BadLoad,
        }
    } else if name == "quit"@ {
        Command::Quit
    } else {
        Command::Unknown(line.subrange(0, k))
    }
}

/// The list of commands that `/help` shows.
pub open spec fn help_text() -> Seq<char> {
    "Commands: /help, /clear, /echo TEXT, /save, /history, /load N, /quit\n"@
}

/// The state after a command (the input line already cleared), and the
/// action it asks for. No command runs a task.
pub open spec fn command_step(v: TuiView, c: Command) -> (TuiView, ActionView) {
    match c {
        Command::Help => (TuiView { output: v.output + help_text(), ..v }, ActionView::Idle),
        Command::Clear => (TuiView { output: Seq::empty(), ..v }, ActionView::Idle),
        Command::Echo(t) => (TuiView { output: v.output + t + "\n"@, ..v }, ActionView::Idle),
        Command::Save => (v, ActionView::SaveSession),
        Command::History => (v, ActionView::ShowHistory),
        Command::Load(n) => (v, ActionView::LoadSession(n)),
        Command::BadLoad => (
            TuiView { output: v.output + "Usage: /load N\n"@, ..v },
            ActionView::Idle,
        ),
        Command::Quit => (v, ActionView::Quit),
        Command::Unknown(w) => (
            TuiView { output: v.output + "Unknown command: "@ + w + " (type /help)\n"@, ..v },
            ActionView::Idle,
        ),
    }
}

/// The transcript text that greets the user.
pub open spec fn greeting() -> Seq<char> {
    "Agent TUI ready. Type your message and press Enter.\n"@
}

/// The state after `key`, and the action it asks for. Keys are ignored while
/// the agent works on a task.
pub open spec fn key_step(v: TuiView, key: Key) -> (TuiView, ActionView) {
    if v.processing {
        (v, ActionView::Idle)
    } else {
        match key {
            Key::Esc => (v, ActionView::Quit),
            Key::Enter => if v.input.len() == 0 {
                (v, ActionView::Idle)
            } else if v.input[0] == '/' {
                command_step(TuiView { input: Seq::empty(), ..v }, command_spec(v.input))
            } else {
                (
                    TuiView {
                        input: Seq::empty(),
                        output: v.output + "\n> "@ + v.input + "\n"@ + "(Agent processing...)\n"@,
                        processing: true,
                    },
                    ActionView::RunAgent(v.input),
                )
            },
            Key::Backspace => (
                TuiView {
                    input: if v.input.len() > 0 {
                        v.input.drop_last()
                    } else {
                        v.input
                    },
                    ..v
                },
                ActionView::Idle,
            ),
            Key::Char(c) => (TuiView { input: v.input.push(c), ..v }, ActionView::Idle),
            Key::Other => (v, ActionView::Idle),
        }
    }
}

/// The state once the agent has answered (or failed on) the task.
pub open spec fn finish_step(v: TuiView, result: Result<Seq<char>, Seq<char>>) -> TuiView {
    TuiView {
        output: match result {
            Ok(r) => v.output + r + "\n"@,
            Err(e) => v.output + "(Error: "@ + e + ")\n"@,
        },
        processing: false,
        ..v
    }
}

/// Index of the first space in `line` at or after `i`, or its length.
fn first_space(line: &Vec<char>, i: usize) -> (k: usize)
    requires
        i <= line.len(),
    ensures
        i <= k <= line.len(),
        k == first_space_from(line@, i as int),
{
    let mut j = i;
    while j < line.len()
        invariant
            i <= j <= line.len(),
            first_space_from(line@, i as int) == first_space_from(line@, j as int),
        decreases line.len() - j,
    {
        if line[j] == ' ' {
            return j;
        }
        j = j + 1;
    }
    j
}

/// The interactive session's state.
pub struct TuiState {
    input: Vec<char>,
    output: Vec<char>,
    processing: bool,
}

impl View for TuiState {
    type V = TuiView;

    closed spec fn view(&self) -> TuiView {
        TuiView { input: self.input@, output: self.output@, processing: self.processing }
    }
}

impl TuiState {
    /// A session with an empty input line and the greeting in the transcript.
    pub fn new() -> (s: Self)
        ensures
            s@ == (TuiView { input: Seq::empty(), output: greeting(), processing: false }),
    {
        TuiState {
            input: Vec::new(),
            output: chars_of("Agent TUI ready. Type your message and press Enter.\n"),
            processing: false,
        }
    }

    /// Handles one key.
    pub fn handle_key(&mut self, key: Key) -> (a: TuiAction)
        ensures
            (final(self)@, action_view(a)) == key_step(old(self)@, key),
    {
        if self.processing {
            return TuiAction::Idle;
        }
        match key {
            Key::Esc => TuiAction::Quit,
            Key::Enter => {
                if self.input.len() == 0 {
                    TuiAction::Idle
                } else if self.input[0] == '/' {
                    let line = copy_chars(&self.input);
                    self.input = Vec::new();
                    self.apply_command(&line)
                } else {
                    let task = string_of(&self.input);
                    push_str(&mut self.output, "\n> ");
                    push_all(&mut self.output, &self.input);
                    push_str(&mut self.output, "\n");
                    push_str(&mut self.output, "(Agent processing...)\n");
                    self.input = Vec::new();
                    self.processing = true;
                    TuiAction::RunAgent(task)
                }
            },
            Key::Backspace => {
                if self.input.len() > 0 {
                    self.input.pop();
                }
                TuiAction::Idle
            },
            Key::Char(c) => {
                self.input.push(c);
                TuiAction::Idle
            },
            Key::Other => TuiAction::Idle,
        }
    }

    /// Carries out the command on `line` (a line starting with `/`).
    fn apply_command(&mut self, line: &Vec<char>) -> (a: TuiAction)
        requires
            line.len() > 0,
        ensures
            (final(self)@, action_view(a)) == command_step(old(self)@, command_spec(line@)),
    {
        let k = first_space(line, 1);
        let name = slice(line, 1, k);
        let arg = if k < line.len() {
            slice(line, k + 1, line.len())
        } else {
            Vec::new()
        };
        assert(arg@ == (if k < line.len() {
            line@.subrange(k + 1, line.len() as int)
        } else {
            Seq::<char>::empty()
        }));
        if chars_eq(&name, &chars_of("help")) {
            push_str(&mut self.output, "Commands: /help, /clear, /echo TEXT, /save, /history, /load N, /quit\n");
            TuiAction::Idle
        } else if chars_eq(&name, &chars_of("clear")) {
            self.output = Vec::new();
            TuiAction::Idle
        } else if chars_eq(&name, &chars_of("echo")) {
            push_all(&mut self.output, &arg);
            push_str(&mut self.output, "\n");
            TuiAction::Idle
        } else if chars_eq(&name, &chars_of("save")) {
            TuiAction::SaveSession
        } else if chars_eq(&name, &chars_of("history")) {
            TuiAction::ShowHistory
        } else if chars_eq(&name, &chars_of("load")) {
            match parse_usize(&arg) {
                Some(n) => TuiAction::LoadSession(n),
                None => {
                    push_str(&mut self.output, "Usage: /load N\n");
                    TuiAction::Idle
                },
            }
        } else if chars_eq(&name, &chars_of("quit")) {
            TuiAction::Quit
        } else {
            let w = slice(line, 0, k);
            push_str(&mut self.output, "Unknown command: ");
            push_all(&mut self.output, &w);
            push_str(&mut self.output, " (type /help)\n");
            TuiAction::Idle
        }
    }

    /// Appends a line of text (a command's report) to the transcript.
    pub fn append_note(&mut self, note: &str)
        ensures
            final(self)@ == (TuiView { output: old(self)@.output + note@ + "\n"@, ..old(self)@ }),
    {
        push_str(&mut self.output, note);
        push_str(&mut self.output, "\n");
    }

    /// Appends the agent's answer (or the error) to the transcript and
    /// accepts keys again.
    pub fn finish_task(&mut self, result: Result<String, String>)
        ensures
            final(self)@ == finish_step(
                old(self)@,
                match result {
                    Ok(r) => Ok(r@),
                    Err(e) => Err(e@),
                },
            ),
    {
        match result {
            Ok(r) => {
                push_str(&mut self.output, r.as_str());
                push_str(&mut self.output, "\n");
            },
            Err(e) => {
                push_str(&mut self.output, "(Error: ");
                push_str(&mut self.output, e.as_str());
                push_str(&mut self.output, ")\n");
            },
        }
        self.processing = false;
    }

    /// The input line.
    pub fn input_text(&self) -> (s: String)
        ensures
            s@ == self@.input,
    {
        string_of(&self.input)
    }

    /// The transcript.
    pub fn output_text(&self) -> (s: String)
        ensures
            s@ == self@.output,
    {
        string_of(&self.output)
    }

    /// Whether the agent is working on a task.
    pub fn is_processing(&self) -> (b: bool)
        ensures
            b == self@.processing,
    {
        self.processing
    }

    /// Title of the input box.
    pub fn input_title(&self) -> (s: String)
        ensures
            s@ == if self@.processing {
                "Agent is thinking..."@
            } else {
                "Input (Enter to send, Esc to quit)"@
            },
    {
        if self.processing {
            string_of(&chars_of("Agent is thinking..."))
        } else {
            string_of(&chars_of("Input (Enter to send, Esc to quit)"))
        }
    }
}

/// Editing law: typing a character and erasing it leaves the session as it
/// was, whenever keys are accepted.
pub proof fn lemma_type_then_erase(v: TuiView, c: char)
    requires
        !v.processing,
    ensures
        key_step(key_step(v, Key::Char(c)).0, Key::Backspace).0 == v,
{
    assert(v.input.push(c).drop_last() =~= v.input);
}

/// Submission law: Enter on a non-empty line that is not a command (does not
/// start with `/`) hands that line to the agent,
/// clears the input and blocks further keys until the task is finished;
/// finishing then accepts keys again with the answer in the transcript.
pub proof fn lemma_submit_then_finish(v: TuiView, answer: Seq<char>)
    requires
        !v.processing,
        v.input.len() > 0,
        v.input[0] != '/',
    ensures
        key_step(v, Key::Enter).1 == ActionView::RunAgent(v.input),
        key_step(v, Key::Enter).0.input.len() == 0,
        key_step(v, Key::Enter).0.processing,
        forall|k: Key| #[trigger] key_step(key_step(v, Key::Enter).0, k).0 == key_step(v, Key::Enter).0,
        !finish_step(key_step(v, Key::Enter).0, Ok(answer)).processing,
        finish_step(key_step(v, Key::Enter).0, Ok(answer)).output == v.output + "\n> "@ + v.input
            + "\n"@ + "(Agent processing...)\n"@ + answer + "\n"@,
{
}

/// Command law: a line starting with `/` never reaches the agent. Enter on
/// it clears the input, starts no task and leaves keys accepted; `/clear`
/// empties the transcript.
pub proof fn lemma_commands_never_run(v: TuiView)
    requires
        !v.processing,
        v.input.len() > 0,
        v.input[0] == '/',
    ensures
        !(key_step(v, Key::Enter).1 is RunAgent),
        key_step(v, Key::Enter).0.input.len() == 0,
        !key_step(v, Key::Enter).0.processing,
        command_spec(v.input) is Clear ==> key_step(v, Key::Enter).0.output.len() == 0,
{
}

} // verus!

