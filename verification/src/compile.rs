//! Structured diagnostics from the text that `cargo build` / `cargo check`
//! print on standard error.
//!
//! A header line (`error[E0308]: mismatched types`) opens an entry, a
//! location line (`  --> src/main.rs:3:5`) fills in its file, line and
//! column, and code-snippet lines (numbered lines, `|` lines, ` = ` notes)
//! are collected as the entry's snippet. Errors and warnings are kept;
//! notes and help entries are dropped.
use crate::pattern::{
    capture_groups, opt_views, regex_capture_groups, regex_new_result, Pattern,
};
use crate::text::{
    chars_eq, chars_of, contains_char, has_char, is_ascii_digit, is_blank, join_chars, join_spec,
    lines_spec, parse_usize, parse_usize_spec, split_lines, starts_with, starts_with_spec, string_of,
    trim_chars, trim_end_chars, trim_end_spec, trim_spec, vviews,
};
use vstd::prelude::*;

verus! {

/// Header line: level, optional error code, message.
pub const HEADER_PATTERN: &'static str = r"^(error|warning|note|help)(\[(?P<code>E\d+)\])?:\s*(?P<message>.+)$";

/// Location line: file, line, column.
pub const LOCATION_PATTERN: &'static str = r"^\s+-->\s+(?P<file>.+?):(?P<line>\d+):(?P<column>\d+)$";

/// Mathematical value of a diagnostic.
pub struct DiagView {
    pub level: Seq<char>,
    pub code: Option<Seq<char>>,
    pub message: Seq<char>,
    pub file: Seq<char>,
    pub line: usize,
    pub column: usize,
    pub snippet: Option<Seq<char>>,
}

/// One compiler diagnostic.
pub struct Diagnostic {
    pub level: String,
    pub code: Option<String>,
    pub message: String,
    pub file: String,
    pub line: usize,
    pub column: usize,
    pub snippet: Option<String>,
}

pub open spec fn opt_view(o: Option<String>) -> Option<Seq<char>> {
    match o {
        Some(s) => Some(s@),
        None => None,
    }
}

impl View for Diagnostic {
    type V = DiagView;

    open spec fn view(&self) -> DiagView {
        DiagView {
            level: self.level@,
            code: opt_view(self.code),
            message: self.message@,
            file: self.file@,
            line: self.line,
            column: self.column,
            snippet: opt_view(self.snippet),
        }
    }
}

/// The errors and the warnings, each in the order they were printed.
pub struct DiagResult {
    pub errors: Vec<Diagnostic>,
    pub warnings: Vec<Diagnostic>,
}

pub open spec fn dviews(v: Seq<Diagnostic>) -> Seq<DiagView> {
    v.map_values(|d: Diagnostic| d@)
}

/// The parser's state between two lines.
pub struct ParseState {
    pub errors: Seq<DiagView>,
    pub warnings: Seq<DiagView>,
    pub entry: Option<DiagView>,
    pub snippet: Seq<Seq<char>>,
    pub has_loc: bool,
}

/// Level, code and message of a header line.
pub open spec fn header_of(line: Seq<char>) -> Option<(Seq<char>, Option<Seq<char>>, Seq<char>)> {
    match regex_capture_groups(HEADER_PATTERN@, line) {
        Some(g) => if g.len() > 4 && g[1] is Some && g[4] is Some {
            Some((g[1]->0, g[3], g[4]->0))
        } else {
            None
        },
        None => None,
    }
}

/// File, line text and column text of a location line.
pub open spec fn location_of(line: Seq<char>) -> Option<(Seq<char>, Seq<char>, Seq<char>)> {
    match regex_capture_groups(LOCATION_PATTERN@, line) {
        Some(g) => if g.len() > 3 && g[1] is Some && g[2] is Some && g[3] is Some {
            Some((g[1]->0, g[2]->0, g[3]->0))
        } else {
            None
        },
        None => None,
    }
}

/// A number as `str::parse::<usize>` reads it, 0 when it cannot.
pub open spec fn number_or_zero(s: Seq<char>) -> usize {
    match parse_usize_spec(s) {
        Some(n) => n,
        None => 0,
    }
}

/// Numbered lines, `|` lines and ` = ` lines belong to a snippet.
pub open spec fn is_snippet_line(line: Seq<char>) -> bool {
    let t = trim_spec(line);
    ||| (t.len() > 0 && is_ascii_digit(t[0]))
    ||| has_char(line, '|')
    ||| starts_with_spec(line, " = "@)
}

/// An entry as it is kept: with its snippet (joined by line feeds, trailing
/// whitespace removed) when the joined snippet is not empty.
pub open spec fn with_snippet(e: DiagView, snippet: Seq<Seq<char>>) -> DiagView {
    let joined = join_spec(snippet, seq!['\n']);
    if joined.len() > 0 {
        DiagView { snippet: Some(trim_end_spec(joined)), ..e }
    } else {
        e
    }
}

/// Errors and warnings once the entry `e` is closed.
pub open spec fn flush_spec(
    errors: Seq<DiagView>,
    warnings: Seq<DiagView>,
    e: DiagView,
    snippet: Seq<Seq<char>>,
) -> (Seq<DiagView>, Seq<DiagView>) {
    if e.level == "error"@ {
        (errors.push(with_snippet(e, snippet)), warnings)
    } else if e.level == "warning"@ {
        (errors, warnings.push(with_snippet(e, snippet)))
    } else {
        (errors, warnings)
    }
}

/// A new entry from a header.
pub open spec fn fresh_entry(h: (Seq<char>, Option<Seq<char>>, Seq<char>)) -> DiagView {
    DiagView {
        level: h.0,
        code: h.1,
        message: h.2,
        file: Seq::empty(),
        line: 0,
        column: 0,
        snippet: None,
    }
}

/// What a line is, as the two patterns see it.
pub enum LineKind {
    Header((Seq<char>, Option<Seq<char>>, Seq<char>)),
    Location((Seq<char>, Seq<char>, Seq<char>)),
    Plain,
}

/// A header line if the header pattern matches it, else a location line if
/// the location pattern does, else a plain line.
pub open spec fn classify(line: Seq<char>) -> LineKind {
    match header_of(line) {
        Some(h) => LineKind::Header(h),
        None => match location_of(line) {
            Some(l) => LineKind::Location(l),
            None => LineKind::Plain,
        },
    }
}

/// The parser's state after one more line of the given kind: a header
/// closes the open entry (if any) and opens a new one; a location fills in
/// the open entry; a snippet line (or, after a location, a blank line) is
/// added to the snippet; other lines are ignored.
pub open spec fn step_with(st: ParseState, line: Seq<char>, k: LineKind) -> ParseState {
    match k {
        LineKind::Header(h) => match st.entry {
            Some(e) => {
                let f = flush_spec(st.errors, st.warnings, e, st.snippet);
                ParseState {
                    errors: f.0,
                    warnings: f.1,
                    entry: Some(fresh_entry(h)),
                    snippet: Seq::empty(),
                    has_loc: false,
                }
            },
            None => ParseState { entry: Some(fresh_entry(h)), ..st },
        },
        LineKind::Location(l) => match st.entry {
            Some(e) => ParseState {
                entry: Some(
                    DiagView {
                        file: l.0,
                        line: number_or_zero(l.1),
                        column: number_or_zero(l.2),
                        ..e
                    },
                ),
                has_loc: true,
                ..st
            },
            None => st,
        },
        LineKind::Plain => if is_snippet_line(line) {
            ParseState { snippet: st.snippet.push(trim_end_spec(line)), ..st }
        } else if trim_spec(line).len() == 0 && st.has_loc {
            ParseState { snippet: st.snippet.push(Seq::empty()), ..st }
        } else {
            st
        },
    }
}

/// The parser's state after one more line.
pub open spec fn diag_step(st: ParseState, line: Seq<char>) -> ParseState {
    step_with(st, line, classify(line))
}

/// Errors and warnings once the last entry is closed.
pub open spec fn finish_spec(st: ParseState) -> (Seq<DiagView>, Seq<DiagView>) {
    match st.entry {
        Some(e) => flush_spec(st.errors, st.warnings, e, st.snippet),
        None => (st.errors, st.warnings),
    }
}

pub open spec fn initial_state() -> ParseState {
    ParseState {
        errors: Seq::empty(),
        warnings: Seq::empty(),
        entry: None,
        snippet: Seq::empty(),
        has_loc: false,
    }
}

/// The parser's state after all of `lines`.
pub open spec fn diag_fold(lines: Seq<Seq<char>>) -> ParseState
    decreases lines.len(),
{
    if lines.len() == 0 {
        initial_state()
    } else {
        diag_step(diag_fold(lines.drop_last()), lines.last())
    }
}

/// Errors and warnings of `stderr`.
pub open spec fn diagnostics_spec(stderr: Seq<char>) -> (Seq<DiagView>, Seq<DiagView>) {
    finish_spec(diag_fold(lines_spec(stderr)))
}

fn clone_opt(o: &Option<String>) -> (r: Option<String>)
    ensures
        opt_view(r) == opt_view(*o),
{
    match o {
        Some(s) => Some(s.clone()),
        None => None,
    }
}

/// Closes `e` into `errors` or `warnings`.
fn flush_entry(
    errors: &mut Vec<Diagnostic>,
    warnings: &mut Vec<Diagnostic>,
    e: Diagnostic,
    snippet: &Vec<Vec<char>>,
)
    ensures
        (dviews(final(errors)@), dviews(final(warnings)@)) == flush_spec(
            dviews(old(errors)@),
            dviews(old(warnings)@),
            e@,
            vviews(snippet@),
        ),
{
    let joined = join_chars(snippet, '\n');
    let mut e = e;
    let ghost e0 = e@;
    if joined.len() > 0 {
        let t = trim_end_chars(&joined);
        e.snippet = Some(string_of(&t));
    }
    assert(e@ == with_snippet(e0, vviews(snippet@)));
    let lv = chars_of(e.level.as_str());
    let error_word = chars_of("error");
    let warning_word = chars_of("warning");
    if chars_eq(&lv, &error_word) {
        let ghost before = errors@;
        errors.push(e);
        assert(dviews(errors@) =~= dviews(before).push(with_snippet(e0, vviews(snippet@))));
    } else if chars_eq(&lv, &warning_word) {
        let ghost before = warnings@;
        warnings.push(e);
        assert(dviews(warnings@) =~= dviews(before).push(with_snippet(e0, vviews(snippet@))));
    }
}

/// What a line is, with the texts the patterns captured.
pub enum LineMatch {
    /// Level, optional error code, message.
    Header { level: String, code: Option<String>, message: String },
    /// File, line number text, column number text.
    Location { file: String, line: String, column: String },
    Plain,
}

pub open spec fn match_view(m: LineMatch) -> LineKind {
    match m {
        LineMatch::Header { level, code, message } => LineKind::Header(
            (level@, opt_view(code), message@),
        ),
        LineMatch::Location { file, line, column } => LineKind::Location(
            (file@, line@, column@),
        ),
        LineMatch::Plain => LineKind::Plain,
    }
}

/// Classifies `line` with the two compiled patterns.
fn classify_line(header: &Pattern, location: &Pattern, line: &str) -> (m: LineMatch)
    requires
        header@ == HEADER_PATTERN@,
        location@ == LOCATION_PATTERN@,
    ensures
        match_view(m) == classify(line@),
{
    if let Some(g) = capture_groups(header, line) {
        if g.len() > 4 && g[1].is_some() && g[4].is_some() {
            let level = clone_opt(&g[1]);
            let message = clone_opt(&g[4]);
            let code = clone_opt(&g[3]);
            if let (Some(level), Some(message)) = (level, message) {
                assert(level@ == opt_views(g@)[1]->0);
                assert(message@ == opt_views(g@)[4]->0);
                assert(opt_view(code) == opt_views(g@)[3]);
                return LineMatch::Header { level, code, message };
            }
        } else {
            proof {
                if g.len() > 4 {
                    assert(opt_views(g@)[1] is Some ==> g@[1] is Some);
                    assert(opt_views(g@)[4] is Some ==> g@[4] is Some);
                }
            }
        }
    }
    if let Some(g) = capture_groups(location, line) {
        if g.len() > 3 && g[1].is_some() && g[2].is_some() && g[3].is_some() {
            let file = clone_opt(&g[1]);
            let ln = clone_opt(&g[2]);
            let col = clone_opt(&g[3]);
            if let (Some(file), Some(ln), Some(col)) = (file, ln, col) {
                assert(file@ == opt_views(g@)[1]->0);
                assert(ln@ == opt_views(g@)[2]->0);
                assert(col@ == opt_views(g@)[3]->0);
                return LineMatch::Location { file, line: ln, column: col };
            }
        } else {
            proof {
                if g.len() > 3 {
                    assert(opt_views(g@)[1] is Some ==> g@[1] is Some);
                    assert(opt_views(g@)[2] is Some ==> g@[2] is Some);
                    assert(opt_views(g@)[3] is Some ==> g@[3] is Some);
                }
            }
        }
    }
    LineMatch::Plain
}

/// Whether `line` belongs to a snippet.
fn snippet_line(line: &Vec<char>) -> (b: bool)
    ensures
        b == is_snippet_line(line@),
{
    let t = trim_chars(line);
    let starts_digit = t.len() > 0 && '0' <= t[0] && t[0] <= '9';
    let eq_prefix = chars_of(" = ");
    starts_digit || contains_char(line, '|') || starts_with(line, &eq_prefix)
}

fn number_of(text: &str) -> (n: usize)
    ensures
        n == number_or_zero(text@),
{
    let v = chars_of(text);
    match parse_usize(&v) {
        Some(n) => n,
        None => 0,
    }
}

/// The diagnostics parser, fed one classified line at a time.
pub struct DiagParser {
    errors: Vec<Diagnostic>,
    warnings: Vec<Diagnostic>,
    entry: Option<Diagnostic>,
    snippet: Vec<Vec<char>>,
    has_loc: bool,
}

impl View for DiagParser {
    type V = ParseState;

    closed spec fn view(&self) -> ParseState {
        ParseState {
            errors: dviews(self.errors@),
            warnings: dviews(self.warnings@),
            entry: match self.entry {
                Some(d) => Some(d@),
                None => None::<DiagView>,
            },
            snippet: vviews(self.snippet@),
            has_loc: self.has_loc,
        }
    }
}

impl DiagParser {
    pub fn new() -> (p: Self)
        ensures
            p@ == initial_state(),
    {
        let p = DiagParser {
            errors: Vec::new(),
            warnings: Vec::new(),
            entry: None,
            snippet: Vec::new(),
            has_loc: false,
        };
        assert(p@.errors =~= Seq::<DiagView>::empty());
        assert(p@.warnings =~= Seq::<DiagView>::empty());
        assert(p@.snippet =~= Seq::<Seq<char>>::empty());
        p
    }

    /// Takes in one line, classified.
    pub fn feed(&mut self, line: &str, m: LineMatch)
        ensures
            final(self)@ == step_with(old(self)@, line@, match_view(m)),
    {
        match m {
            LineMatch::Header { level, code, message } => {
                let fresh = Diagnostic {
                    level,
                    code,
                    message,
                    file: String::new(),
                    line: 0,
                    column: 0,
                    snippet: None,
                };
                assert(fresh.file@ =~= Seq::<char>::empty());
                let open = self.entry.take();
                match open {
                    Some(e) => {
                        flush_entry(&mut self.errors, &mut self.warnings, e, &self.snippet);
                        self.snippet = Vec::new();
                        self.has_loc = false;
                        assert(vviews(self.snippet@) =~= Seq::<Seq<char>>::empty());
                    },
                    None => {},
                }
                self.entry = Some(fresh);
            },
            LineMatch::Location { file, line: ln, column } => {
                let l = number_of(ln.as_str());
                let c = number_of(column.as_str());
                let open = self.entry.take();
                match open {
                    Some(mut e) => {
                        e.file = file;
                        e.line = l;
                        e.column = c;
                        self.entry = Some(e);
                        self.has_loc = true;
                    },
                    None => {},
                }
            },
            LineMatch::Plain => {
                let chars = chars_of(line);
                if snippet_line(&chars) {
                    let t = trim_end_chars(&chars);
                    let ghost before = self.snippet@;
                    self.snippet.push(t);
                    assert(vviews(self.snippet@) =~= vviews(before).push(trim_end_spec(line@)));
                } else if is_blank(&chars) && self.has_loc {
                    let ghost before = self.snippet@;
                    self.snippet.push(Vec::new());
                    assert(vviews(self.snippet@) =~= vviews(before).push(Seq::<char>::empty()));
                }
            },
        }
    }

    /// Closes the last entry and gives the errors and the warnings.
    pub fn finish(self) -> (r: DiagResult)
        ensures
            (dviews(r.errors@), dviews(r.warnings@)) == finish_spec(self@),
    {
        let DiagParser { mut errors, mut warnings, entry, snippet, has_loc: _ } = self;
        match entry {
            Some(e) => {
                flush_entry(&mut errors, &mut warnings, e, &snippet);
            },
            None => {},
        }
        DiagResult { errors, warnings }
    }
}

/// Errors and warnings of `stderr`, for the two compiled patterns.
fn parse_with(header: &Pattern, location: &Pattern, stderr: &str) -> (r: DiagResult)
    requires
        header@ == HEADER_PATTERN@,
        location@ == LOCATION_PATTERN@,
    ensures
        (dviews(r.errors@), dviews(r.warnings@)) == diagnostics_spec(stderr@),
{
    let text = chars_of(stderr);
    let lines = split_lines(&text);
    let ghost ls = vviews(lines@);
    let mut parser = DiagParser::new();
    let mut i: usize = 0;
    assert(ls.take(0) =~= Seq::<Seq<char>>::empty());
    while i < lines.len()
        invariant
            i <= lines.len(),
            ls == vviews(lines@),
            ls == lines_spec(stderr@),
            header@ == HEADER_PATTERN@,
            location@ == LOCATION_PATTERN@,
            parser@ == diag_fold(ls.take(i as int)),
        decreases lines.len() - i,
    {
        let line = string_of(&lines[i]);
        proof {
            assert(ls.take(i + 1).drop_last() =~= ls.take(i as int));
            assert(ls.take(i + 1).last() == line@);
        }
        let m = classify_line(header, location, line.as_str());
        parser.feed(line.as_str(), m);
        i = i + 1;
    }
    assert(ls.take(i as int) =~= ls);
    parser.finish()
}

/// Errors and warnings that `cargo` printed on standard error, or `None` when
/// one of the two fixed patterns does not compile.
pub fn parse_diagnostics(stderr: &str) -> (r: Option<DiagResult>)
    ensures
        r is None <==> (regex_new_result(HEADER_PATTERN@) is Some || regex_new_result(
            LOCATION_PATTERN@,
        ) is Some),
        r matches Some(d) ==> (dviews(d.errors@), dviews(d.warnings@)) == diagnostics_spec(
            stderr@,
        ),
{
    let header = match Pattern::new(HEADER_PATTERN) {
        Ok(p) => p,
        Err(_) => {
            return None;
        },
    };
    let location = match Pattern::new(LOCATION_PATTERN) {
        Ok(p) => p,
        Err(_) => {
            return None;
        },
    };
    Some(parse_with(&header, &location, stderr))
}

/// Every kept error has level `error`, every kept warning level `warning`.
pub open spec fn levels_sorted(errors: Seq<DiagView>, warnings: Seq<DiagView>) -> bool {
    &&& forall|i: int| 0 <= i < errors.len() ==> #[trigger] errors[i].level == "error"@
    &&& forall|i: int| 0 <= i < warnings.len() ==> #[trigger] warnings[i].level == "warning"@
}

proof fn lemma_flush_levels(
    errors: Seq<DiagView>,
    warnings: Seq<DiagView>,
    e: DiagView,
    snippet: Seq<Seq<char>>,
)
    requires
        levels_sorted(errors, warnings),
    ensures
        levels_sorted(
            flush_spec(errors, warnings, e, snippet).0,
            flush_spec(errors, warnings, e, snippet).1,
        ),
{
    let f = flush_spec(errors, warnings, e, snippet);
    if e.level == "error"@ {
        assert forall|i: int| 0 <= i < f.0.len() implies #[trigger] f.0[i].level == "error"@ by {
            if i < errors.len() {
                assert(f.0[i] == errors[i]);
            }
        }
    } else if e.level == "warning"@ {
        assert forall|i: int| 0 <= i < f.1.len() implies #[trigger] f.1[i].level == "warning"@ by {
            if i < warnings.len() {
                assert(f.1[i] == warnings[i]);
            }
        }
    }
}

proof fn lemma_fold_levels(lines: Seq<Seq<char>>)
    ensures
        levels_sorted(diag_fold(lines).errors, diag_fold(lines).warnings),
    decreases lines.len(),
{
    if lines.len() > 0 {
        lemma_fold_levels(lines.drop_last());
        let st = diag_fold(lines.drop_last());
        if classify(lines.last()) is Header {
            if st.entry is Some {
                lemma_flush_levels(st.errors, st.warnings, st.entry->0, st.snippet);
            }
        }
    }
}

/// Classification law: whatever `cargo` printed, the errors reported are
/// exactly entries of level `error` and the warnings entries of level
/// `warning`; notes and help never appear in either list.
pub proof fn lemma_diagnostic_levels(stderr: Seq<char>)
    ensures
        levels_sorted(diagnostics_spec(stderr).0, diagnostics_spec(stderr).1),
{
    let st = diag_fold(lines_spec(stderr));
    lemma_fold_levels(lines_spec(stderr));
    assert(diagnostics_spec(stderr) == finish_spec(st));
    if st.entry is Some {
        lemma_flush_levels(st.errors, st.warnings, st.entry->0, st.snippet);
    }
}

/// Entry law: every header line, of any level (`error`, `warning`, `note`
/// or `help`), closes the open entry and opens a fresh one with the header's
/// level, code and message and no location. The closed entry is added to
/// the errors if its level is `error`, to the warnings if it is `warning`,
/// and dropped otherwise, keeping its level, code, message and location. A
/// location line that follows gives the fresh entry its file, line and
/// column, so an entry's location is that of the first location line after
/// its own header; a line that is neither changes no entry.
pub proof fn lemma_header_closes_entry(st: ParseState, line: Seq<char>, next: Seq<char>)
    requires
        header_of(line) is Some,
    ensures
        ({
            let h = header_of(line)->0;
            let n = diag_step(st, line);
            &&& n.entry == Some(
                DiagView {
                    level: h.0,
                    code: h.1,
                    message: h.2,
                    file: Seq::empty(),
                    line: 0,
                    column: 0,
                    snippet: None,
                },
            )
            &&& !n.has_loc || st.entry is None
            &&& st.entry is Some ==> n.snippet.len() == 0
            &&& st.entry is None ==> n.errors == st.errors && n.warnings == st.warnings
            &&& st.entry matches Some(e) ==> if e.level == "error"@ {
                &&& n.warnings == st.warnings
                &&& n.errors.len() == st.errors.len() + 1
                &&& n.errors.drop_last() == st.errors
                &&& n.errors.last().level == e.level
                &&& n.errors.last().code == e.code
                &&& n.errors.last().message == e.message
                &&& n.errors.last().file == e.file
                &&& n.errors.last().line == e.line
                &&& n.errors.last().column == e.column
            } else if e.level == "warning"@ {
                &&& n.errors == st.errors
                &&& n.warnings.len() == st.warnings.len() + 1
                &&& n.warnings.drop_last() == st.warnings
                &&& n.warnings.last().level == e.level
                &&& n.warnings.last().code == e.code
                &&& n.warnings.last().message == e.message
                &&& n.warnings.last().file == e.file
                &&& n.warnings.last().line == e.line
                &&& n.warnings.last().column == e.column
            } else {
                n.errors == st.errors && n.warnings == st.warnings
            }
            &&& (header_of(next) is None && location_of(next) is Some) ==> {
                let l = location_of(next)->0;
                &&& diag_step(n, next).entry == Some(
                    DiagView {
                        level: h.0,
                        code: h.1,
                        message: h.2,
                        file: l.0,
                        line: match parse_usize_spec(l.1) {
                            Some(k) => k,
                            None => 0,
                        },
                        column: match parse_usize_spec(l.2) {
                            Some(k) => k,
                            None => 0,
                        },
                        snippet: None,
                    },
                )
                &&& diag_step(n, next).errors == n.errors
                &&& diag_step(n, next).warnings == n.warnings
            }
            &&& (header_of(next) is None && location_of(next) is None) ==> {
                &&& diag_step(n, next).entry == n.entry
                &&& diag_step(n, next).errors == n.errors
                &&& diag_step(n, next).warnings == n.warnings
            }
        }),
{
    let n = diag_step(st, line);
    if let Some(e) = st.entry {
        let f = flush_spec(st.errors, st.warnings, e, st.snippet);
        if e.level == "error"@ {
            assert(f.0.drop_last() =~= st.errors);
        } else if e.level == "warning"@ {
            assert(f.1.drop_last() =~= st.warnings);
        }
    }
}

/// Line law for the lines that are neither headers nor locations: they never
/// change the open entry or the lists. A numbered line (digits first, after
/// leading blanks), a line containing `|` or a line starting with ` = ` is
/// added to the snippet, trailing whitespace removed; a blank line is added
/// as an empty snippet line once the entry has a location; any other line is
/// ignored. A location line fills in the open entry's file, line and column
/// (and nothing else), and is ignored when no entry is open.
pub proof fn lemma_body_lines(st: ParseState, line: Seq<char>)
    requires
        header_of(line) is None,
    ensures
        ({
            let n = diag_step(st, line);
            let t = trim_spec(line);
            let snippet_like = (t.len() > 0 && '0' <= t[0] && t[0] <= '9') || (exists|k: int|
                0 <= k < line.len() && line[k] == '|') || (line.len() >= 3 && line[0] == ' '
                && line[1] == '=' && line[2] == ' ');
            &&& n.errors == st.errors
            &&& n.warnings == st.warnings
            &&& location_of(line) is None ==> {
                &&& n.entry == st.entry
                &&& n.has_loc == st.has_loc
                &&& n.snippet == if snippet_like {
                    st.snippet.push(trim_end_spec(line))
                } else if t.len() == 0 && st.has_loc {
                    st.snippet.push(Seq::empty())
                } else {
                    st.snippet
                }
            }
            &&& location_of(line) matches Some(l) ==> {
                &&& n.snippet == st.snippet
                &&& match st.entry {
                    Some(e) => n.has_loc && n.entry == Some(
                        DiagView {
                            file: l.0,
                            line: match parse_usize_spec(l.1) {
                                Some(k) => k,
                                None => 0,
                            },
                            column: match parse_usize_spec(l.2) {
                                Some(k) => k,
                                None => 0,
                            },
                            ..e
                        },
                    ),
                    None => n == st,
                }
            }
        }),
{
    reveal_strlit(" = ");
    if line.len() >= 3 {
        assert(line.take(3)[0] == line[0] && line.take(3)[1] == line[1] && line.take(3)[2]
            == line[2]);
        if line[0] == ' ' && line[1] == '=' && line[2] == ' ' {
            assert(line.take(3) =~= " = "@);
        }
    }
}

/// Closing law: at the end of the text the open entry is closed as a header
/// would close it: an error joins the errors and a warning the warnings,
/// with its snippet lines joined by line feeds (trailing whitespace
/// removed) when they are not all empty; other entries are dropped.
pub proof fn lemma_finish_closes_entry(st: ParseState)
    ensures
        ({
            let f = finish_spec(st);
            let joined = join_spec(st.snippet, seq!['\n']);
            match st.entry {
                None => f == (st.errors, st.warnings),
                Some(e) => {
                    let kept = DiagView {
                        snippet: if joined.len() > 0 {
                            Some(trim_end_spec(joined))
                        } else {
                            e.snippet
                        },
                        ..e
                    };
                    if e.level == "error"@ {
                        f == (st.errors.push(kept), st.warnings)
                    } else if e.level == "warning"@ {
                        f == (st.errors, st.warnings.push(kept))
                    } else {
                        f == (st.errors, st.warnings)
                    }
                },
            }
        }),
{
}

} // verus!
