//! Structured view of `git status --porcelain` output, with the inserted
//! and deleted line counts of `git diff --numstat`.
//!
//! Each status line reads `XY path`: two status columns (index and work
//! tree), a space, then the path. Lines shorter than three bytes are
//! skipped. Each numstat line reads `insertions<TAB>deletions<TAB>path`
//! (`-` for the counts of a binary file); a file that no numstat line names
//! has no counted lines.
use crate::text::{
    before_byte, byte_prefix, bytes_below, bytes_len, chars_eq, chars_within, chars_of, from_byte, is_boundary,
    lines_spec, parse_usize, parse_usize_spec, slice, split_lines, split_on, split_spec, string_of,
    trim_chars, trim_spec, vviews,
};
use vstd::prelude::*;

verus! {

/// Mathematical value of one changed file.
pub struct ChangeView {
    pub file: Seq<char>,
    pub status: Seq<char>,
    pub staged: bool,
    pub insertions: usize,
    pub deletions: usize,
}

/// One changed file: its path, a status code (`M`, `A`, `D`, `R`, `??` for
/// untracked, `?` otherwise), whether the index column is set, and the
/// numbers of inserted and deleted lines.
pub struct FileChange {
    pub file: String,
    pub status: String,
    pub staged: bool,
    pub insertions: usize,
    pub deletions: usize,
}

impl View for FileChange {
    type V = ChangeView;

    open spec fn view(&self) -> ChangeView {
        ChangeView {
            file: self.file@,
            status: self.status@,
            staged: self.staged,
            insertions: self.insertions,
            deletions: self.deletions,
        }
    }
}

/// A count as written by `--numstat`; 0 for `-` (a binary file) or any
/// other text that is not a number.
pub open spec fn count_of(s: Seq<char>) -> usize {
    match parse_usize_spec(s) {
        Some(n) => n,
        None => 0,
    }
}

/// Path, insertions and deletions of a numstat line; `None` unless the line
/// has exactly three tab-separated fields.
pub open spec fn numstat_entry(line: Seq<char>) -> Option<(Seq<char>, usize, usize)> {
    let p = split_spec(line, '\t');
    if p.len() == 3 {
        Some((p[2], count_of(p[0]), count_of(p[1])))
    } else {
        None
    }
}

/// Insertions and deletions of `file`: those of the first numstat line that
/// names it, `(0, 0)` when none does.
pub open spec fn counts_for(numstat: Seq<Seq<char>>, file: Seq<char>) -> (usize, usize)
    decreases numstat.len(),
{
    if numstat.len() == 0 {
        (0, 0)
    } else {
        match numstat_entry(numstat[0]) {
            Some(e) => if e.0 == file {
                (e.1, e.2)
            } else {
                counts_for(numstat.drop_first(), file)
            },
            None => counts_for(numstat.drop_first(), file),
        }
    }
}

pub open spec fn cviews(v: Seq<FileChange>) -> Seq<ChangeView> {
    v.map_values(|c: FileChange| c@)
}

/// Status code from the two status columns: `??` for untracked files;
/// otherwise the work-tree column if set, else the index column, as one of
/// `M`, `A`, `D`, `R`, or `?`.
pub open spec fn status_code(xy: Seq<char>) -> Seq<char> {
    if xy.len() > 0 && xy[0] == '?' {
        "??"@
    } else {
        let x = if xy.len() > 0 {
            xy[0]
        } else {
            ' '
        };
        let y = if xy.len() > 1 {
            xy[1]
        } else {
            ' '
        };
        let s = if y != ' ' {
            y
        } else {
            x
        };
        if s == 'M' {
            "M"@
        } else if s == 'A' {
            "A"@
        } else if s == 'D' {
            "D"@
        } else if s == 'R' {
            "R"@
        } else {
            "?"@
        }
    }
}

/// The change a status line describes: the first two bytes are the status
/// columns, the path (trimmed) starts at byte 3; the line counts come from
/// the numstat lines.
pub open spec fn change_of(line: Seq<char>, numstat: Seq<Seq<char>>) -> Option<ChangeView> {
    if bytes_len(line) < 3 {
        None
    } else {
        let xy = before_byte(line, 2);
        let file = trim_spec(from_byte(line, 3));
        Some(
            ChangeView {
                file,
                status: status_code(xy),
                staged: !(xy.len() > 0 && xy[0] == ' '),
                insertions: counts_for(numstat, file).0,
                deletions: counts_for(numstat, file).1,
            },
        )
    }
}

/// The changes described by `lines`, in order.
pub open spec fn changes_spec(lines: Seq<Seq<char>>, numstat: Seq<Seq<char>>) -> Seq<ChangeView>
    decreases lines.len(),
{
    if lines.len() == 0 {
        Seq::empty()
    } else {
        let prev = changes_spec(lines.drop_last(), numstat);
        match change_of(lines.last(), numstat) {
            Some(c) => prev.push(c),
            None => prev,
        }
    }
}

/// Every status line of three bytes or more can be cut after its second and
/// third byte (slicing a `str` elsewhere would panic).
pub open spec fn porcelain_sliceable(out: Seq<char>) -> bool {
    forall|i: int|
        0 <= i < lines_spec(out).len() && bytes_len(#[trigger] lines_spec(out)[i]) >= 3 ==> {
            &&& is_boundary(lines_spec(out)[i], 2)
            &&& is_boundary(lines_spec(out)[i], 3)
        }
}

fn status_of(xy: &Vec<char>) -> (r: String)
    ensures
        r@ == status_code(xy@),
{
    if xy.len() > 0 && xy[0] == '?' {
        return string_of(&chars_of("??"));
    }
    let x = if xy.len() > 0 {
        xy[0]
    } else {
        ' '
    };
    let y = if xy.len() > 1 {
        xy[1]
    } else {
        ' '
    };
    let s = if y != ' ' {
        y
    } else {
        x
    };
    let code = if s == 'M' {
        "M"
    } else if s == 'A' {
        "A"
    } else if s == 'D' {
        "D"
    } else if s == 'R' {
        "R"
    } else {
        "?"
    };
    string_of(&chars_of(code))
}

/// Insertions and deletions of `file` among the numstat lines.
fn line_counts(numstat: &Vec<Vec<char>>, file: &Vec<char>) -> (r: (usize, usize))
    ensures
        r == counts_for(vviews(numstat@), file@),
{
    let ghost ns = vviews(numstat@);
    let mut i: usize = 0;
    assert(ns.skip(0) =~= ns);
    while i < numstat.len()
        invariant
            i <= numstat.len(),
            ns == vviews(numstat@),
            counts_for(ns, file@) == counts_for(ns.skip(i as int), file@),
        decreases numstat.len() - i,
    {
        let ghost rest = ns.skip(i as int);
        assert(rest[0] == numstat@[i as int]@);
        assert(rest.drop_first() =~= ns.skip(i + 1));
        let parts = split_on(&numstat[i], '\t');
        if parts.len() == 3 && chars_eq(&parts[2], file) {
            let ins = match parse_usize(&parts[0]) {
                Some(n) => n,
                None => 0,
            };
            let del = match parse_usize(&parts[1]) {
                Some(n) => n,
                None => 0,
            };
            assert(parts@[0]@ == vviews(parts@)[0]);
            assert(parts@[1]@ == vviews(parts@)[1]);
            assert(parts@[2]@ == vviews(parts@)[2]);
            return (ins, del);
        }
        proof {
            if parts.len() == 3 {
                assert(parts@[2]@ == vviews(parts@)[2]);
            }
        }
        i = i + 1;
    }
    assert(ns.skip(i as int) =~= Seq::<Seq<char>>::empty());
    (0, 0)
}

/// The changed files listed by `git status --porcelain` (`out`), with the
/// line counts listed by `git diff --numstat` (`numstat`).
pub fn parse_porcelain(out: &str, numstat: &str) -> (r: Vec<FileChange>)
    requires
        porcelain_sliceable(out@),
    ensures
        cviews(r@) == changes_spec(lines_spec(out@), lines_spec(numstat@)),
{
    let text = chars_of(out);
    let lines = split_lines(&text);
    let ntext = chars_of(numstat);
    let nlines = split_lines(&ntext);
    let ghost ns = vviews(nlines@);
    let ghost ls = vviews(lines@);
    let mut changes: Vec<FileChange> = Vec::new();
    let mut i: usize = 0;
    assert(ls.take(0) =~= Seq::<Seq<char>>::empty());
    assert(cviews(changes@) =~= Seq::<ChangeView>::empty());
    while i < lines.len()
        invariant
            i <= lines.len(),
            ls == vviews(lines@),
            ls == lines_spec(out@),
            porcelain_sliceable(out@),
            ns == vviews(nlines@),
            ns == lines_spec(numstat@),
            cviews(changes@) == changes_spec(ls.take(i as int), ns),
        decreases lines.len() - i,
    {
        let line = &lines[i];
        proof {
            assert(ls.take(i + 1).drop_last() =~= ls.take(i as int));
            assert(ls.take(i + 1).last() == line@);
            assert(ls[i as int] == line@);
        }
        if !bytes_below(line, 3) {
            proof {
                assert(is_boundary(ls[i as int], 2));
                assert(is_boundary(ls[i as int], 3));
            }
            let (k2, _a2) = byte_prefix(line, 2);
            let (k3, _a3) = byte_prefix(line, 3);
            proof {
                crate::text::lemma_chars_within_le(line@, 2);
                crate::text::lemma_chars_within_le(line@, 3);
            }
            let xy = slice(line, 0, k2);
            let rest = slice(line, k3, line.len());
            let file = trim_chars(&rest);
            let staged = !(xy.len() > 0 && xy[0] == ' ');
            let status = status_of(&xy);
            let (insertions, deletions) = line_counts(&nlines, &file);
            let c = FileChange { file: string_of(&file), status, staged, insertions, deletions };
            proof {
                assert(xy@ =~= before_byte(line@, 2));
                assert(rest@ =~= from_byte(line@, 3));
            }
            let ghost before = changes@;
            changes.push(c);
            assert(cviews(changes@) =~= cviews(before).push(c@));
        }
        i = i + 1;
    }
    assert(ls.take(i as int) =~= ls);
    changes
}

/// Status law: untracked entries (`?` in the index column) are `??`; for any
/// other entry the work-tree column decides whenever it is set, whatever the
/// index column holds, and the index column only when the work-tree column
/// is blank. A column letter `M`, `A`, `D` or `R` is reported as itself and
/// any other as `?`.
pub proof fn lemma_status_columns(x: char, y: char)
    ensures
        status_code(seq!['?', y]) == "??"@,
        x != '?' && y != ' ' ==> status_code(seq![x, y]) == status_code(seq![' ', y]),
        x != '?' ==> status_code(seq![x, ' ']) == status_code(seq![' ', x]),
        y != '?' ==> status_code(seq![' ', y]) == if y == 'M' {
            "M"@
        } else if y == 'A' {
            "A"@
        } else if y == 'D' {
            "D"@
        } else if y == 'R' {
            "R"@
        } else {
            "?"@
        },
{
}

/// Line law: a status line whose first three characters are ASCII (as git
/// writes the two columns and the space) describes the file named by the
/// rest of the line, trimmed; it is staged exactly when the index column is
/// not blank, its status comes from its two columns, and its line counts are
/// those the numstat lines give for that file.
pub proof fn lemma_status_line(line: Seq<char>, numstat: Seq<Seq<char>>)
    requires
        line.len() >= 3,
        (line[0] as u32) < 0x80,
        (line[1] as u32) < 0x80,
        (line[2] as u32) < 0x80,
    ensures
        change_of(line, numstat) == Some(
            ChangeView {
                file: trim_spec(line.skip(3)),
                status: status_code(seq![line[0], line[1]]),
                staged: line[0] != ' ',
                insertions: counts_for(numstat, trim_spec(line.skip(3))).0,
                deletions: counts_for(numstat, trim_spec(line.skip(3))).1,
            },
        ),
{
    let d1 = line.drop_first();
    let d2 = d1.drop_first();
    let d3 = d2.drop_first();
    assert(d1[0] == line[1]);
    assert(d2[0] == line[2]);
    assert(chars_within(d2, 0) == 0);
    assert(chars_within(d1, 1) == 1);
    assert(chars_within(line, 2) == 2);
    assert(chars_within(d3, 0) == 0);
    assert(chars_within(d2, 1) == 1);
    assert(chars_within(d1, 2) == 2);
    assert(chars_within(line, 3) == 3);
    assert(bytes_len(d1) >= 2) by {
        assert(bytes_len(d2) >= 1);
    }
    assert(bytes_len(line) >= 3);
    assert(line.take(2) =~= seq![line[0], line[1]]);
}

} // verus!
