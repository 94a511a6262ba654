//! Searching the workspace: which directory entries are visited, which file
//! names a glob list admits, regular-expression hits with context lines, and
//! fuzzy path matching.
use crate::pattern::{find_start, regex_find_start, Pattern};
use crate::text::{
    chars_eq, chars_of, contains, contains_spec, ends_with, ends_with_spec, lines_spec,
    split_lines, split_on, split_spec, starts_with, starts_with_spec, string_of, strings_of,
    to_lowercase, lowercase_spec, trim_chars, trim_spec, views, vviews,
};
use vstd::prelude::*;

verus! {

/// Hidden entries, `target` and `node_modules` are not visited.
pub open spec fn skipped_spec(name: Seq<char>) -> bool {
    ||| (name.len() > 0 && name[0] == '.')
    ||| name == "target"@
    ||| name == "node_modules"@
}

/// Whether a directory entry is left out of a search.
pub fn is_skipped_entry(name: &str) -> (b: bool)
    ensures
        b == skipped_spec(name@),
{
    let n = chars_of(name);
    let target = chars_of("target");
    let modules = chars_of("node_modules");
    (n.len() > 0 && n[0] == '.') || chars_eq(&n, &target) || chars_eq(&n, &modules)
}

/// A glob `*.ext` admits names ending in `.ext`; any other glob admits names
/// that contain it.
pub open spec fn glob_matches(name: Seq<char>, g: Seq<char>) -> bool {
    if starts_with_spec(g, "*."@) {
        ends_with_spec(name, g.drop_first())
    } else {
        contains_spec(name, g)
    }
}

/// Some glob of the list admits `name`.
pub open spec fn matches_any_spec(name: Seq<char>, globs: Seq<Seq<char>>) -> bool {
    exists|i: int| 0 <= i < globs.len() && glob_matches(name, #[trigger] globs[i])
}

pub open spec fn str_views(v: Seq<&str>) -> Seq<Seq<char>> {
    v.map_values(|s: &str| s@)
}

/// Whether some glob of `globs` admits the file name `name`.
pub fn matches_any(name: &str, globs: &[&str]) -> (b: bool)
    ensures
        b == matches_any_spec(name@, str_views(globs@)),
{
    let n = chars_of(name);
    let star = chars_of("*.");
    let mut i: usize = 0;
    while i < globs.len()
        invariant
            i <= globs.len(),
            n@ == name@,
            star@ == "*."@,
            forall|j: int| 0 <= j < i ==> !glob_matches(name@, #[trigger] str_views(globs@)[j]),
        decreases globs.len() - i,
    {
        let g = chars_of(globs[i]);
        assert(str_views(globs@)[i as int] == g@);
        proof {
            reveal_strlit("*.");
        }
        let hit = if starts_with(&g, &star) {
            let rest = crate::text::slice(&g, 1, g.len());
            assert(rest@ =~= g@.drop_first());
            ends_with(&n, &rest)
        } else {
            contains(&n, &g)
        };
        if hit {
            return true;
        }
        i = i + 1;
    }
    false
}

/// The non-empty trimmed pieces of a list.
pub open spec fn nonempty_trimmed(pieces: Seq<Seq<char>>) -> Seq<Seq<char>>
    decreases pieces.len(),
{
    if pieces.len() == 0 {
        Seq::empty()
    } else {
        let prev = nonempty_trimmed(pieces.drop_last());
        let t = trim_spec(pieces.last());
        if t.len() > 0 {
            prev.push(t)
        } else {
            prev
        }
    }
}

/// The items of a comma-separated list, trimmed, empty items left out.
pub fn split_list(s: &str) -> (r: Vec<String>)
    ensures
        views(r@) == nonempty_trimmed(split_spec(s@, ',')),
{
    let text = chars_of(s);
    let pieces = split_on(&text, ',');
    let ghost ps = vviews(pieces@);
    let mut r: Vec<String> = Vec::new();
    let mut i: usize = 0;
    assert(ps.take(0) =~= Seq::<Seq<char>>::empty());
    assert(views(r@) =~= Seq::<Seq<char>>::empty());
    while i < pieces.len()
        invariant
            i <= pieces.len(),
            ps == vviews(pieces@),
            views(r@) == nonempty_trimmed(ps.take(i as int)),
        decreases pieces.len() - i,
    {
        let t = trim_chars(&pieces[i]);
        proof {
            assert(ps.take(i + 1).drop_last() =~= ps.take(i as int));
            assert(ps.take(i + 1).last() == pieces@[i as int]@);
        }
        if t.len() > 0 {
            let ghost before = r@;
            r.push(string_of(&t));
            assert(views(r@) =~= views(before).push(t@));
        }
        i = i + 1;
    }
    assert(ps.take(i as int) =~= ps);
    r
}

/// An empty extension list admits every file; otherwise the extension must
/// be one of the list.
pub fn extension_allowed(exts: &Vec<String>, ext: &str) -> (b: bool)
    ensures
        b == (exts.len() == 0 || exists|i: int| 0 <= i < exts.len() && exts@[i]@ == ext@),
{
    if exts.len() == 0 {
        return true;
    }
    let e = chars_of(ext);
    let mut i: usize = 0;
    while i < exts.len()
        invariant
            i <= exts.len(),
            e@ == ext@,
            forall|j: int| 0 <= j < i ==> exts@[j]@ != ext@,
        decreases exts.len() - i,
    {
        let x = chars_of(exts[i].as_str());
        if chars_eq(&x, &e) {
            return true;
        }
        i = i + 1;
    }
    false
}

/// Context size and result limit of a search: each at least 1.
pub fn search_limits(context_lines: usize, max_results: usize) -> (r: (usize, usize))
    ensures
        r.0 == if context_lines < 1 {
            1
        } else {
            context_lines
        },
        r.1 == if max_results < 1 {
            1
        } else {
            max_results
        },
{
    let ctx = if context_lines < 1 {
        1
    } else {
        context_lines
    };
    let max = if max_results < 1 {
        1
    } else {
        max_results
    };
    (ctx, max)
}

/// Mathematical value of a search hit.
pub struct HitView {
    pub file: Seq<char>,
    pub line: int,
    pub column: int,
    pub text: Seq<char>,
    pub before: Seq<Seq<char>>,
    pub after: Seq<Seq<char>>,
}

/// A line that matched: file (relative to the search root), line and column
/// (both from 1; the column counts bytes), the line, and up to `ctx` lines
/// before and after it.
pub struct GrepHit {
    pub file: String,
    pub line: usize,
    pub column: usize,
    pub text: String,
    pub before: Vec<String>,
    pub after: Vec<String>,
}

impl View for GrepHit {
    type V = HitView;

    open spec fn view(&self) -> HitView {
        HitView {
            file: self.file@,
            line: self.line as int,
            column: self.column as int,
            text: self.text@,
            before: views(self.before@),
            after: views(self.after@),
        }
    }
}

pub open spec fn hviews(v: Seq<GrepHit>) -> Seq<HitView> {
    v.map_values(|h: GrepHit| h@)
}

/// The hit for line `i` of `lines`, matching at byte `start`.
pub open spec fn hit_at(
    rel: Seq<char>,
    lines: Seq<Seq<char>>,
    i: int,
    start: int,
    ctx: int,
) -> HitView {
    let from = if i >= ctx {
        i - ctx
    } else {
        0
    };
    let to = if i + ctx + 1 <= lines.len() {
        i + ctx + 1
    } else {
        lines.len() as int
    };
    HitView {
        file: rel,
        line: i + 1,
        column: start + 1,
        text: lines[i],
        before: lines.subrange(from, i),
        after: lines.subrange(i + 1, to),
    }
}

/// The hits of lines `i..` while `budget` hits may still be reported, where
/// `starts[j]` is where the pattern matches line `j`, if it does.
pub open spec fn hits_over(
    rel: Seq<char>,
    lines: Seq<Seq<char>>,
    starts: Seq<Option<usize>>,
    ctx: int,
    i: int,
    budget: nat,
) -> Seq<HitView>
    decreases lines.len() - i,
{
    if i < 0 || i >= lines.len() || budget == 0 {
        Seq::empty()
    } else {
        match starts[i] {
            Some(s) => seq![hit_at(rel, lines, i, s as int, ctx)] + hits_over(
                rel,
                lines,
                starts,
                ctx,
                i + 1,
                (budget - 1) as nat,
            ),
            None => hits_over(rel, lines, starts, ctx, i + 1, budget),
        }
    }
}

/// Where the regex compiled from `pattern` first matches each line.
pub open spec fn find_starts(pattern: Seq<char>, lines: Seq<Seq<char>>) -> Seq<Option<usize>> {
    lines.map_values(|l: Seq<char>| regex_find_start(pattern, l))
}

proof fn lemma_hits_len(
    rel: Seq<char>,
    lines: Seq<Seq<char>>,
    starts: Seq<Option<usize>>,
    ctx: int,
    i: int,
    budget: nat,
)
    ensures
        hits_over(rel, lines, starts, ctx, i, budget).len() <= budget,
    decreases lines.len() - i,
{
    if !(i < 0 || i >= lines.len() || budget == 0) {
        match starts[i] {
            Some(s) => lemma_hits_len(rel, lines, starts, ctx, i + 1, (budget - 1) as nat),
            None => lemma_hits_len(rel, lines, starts, ctx, i + 1, budget),
        }
    }
}

/// Hits still allowed when `total` hits of at most `max` are counted.
pub open spec fn budget_left(total: usize, max: usize) -> nat {
    if total < max {
        (max - total) as nat
    } else {
        0
    }
}

/// Appends the hits of file `rel` to `results` while fewer than `max` hits
/// have been counted in `total`; `starts[j]` is the byte offset where the
/// pattern matches line `j`, if it does.
pub fn collect_hits(
    rel: &str,
    lines: &Vec<String>,
    starts: &Vec<Option<usize>>,
    ctx: usize,
    max: usize,
    results: &mut Vec<GrepHit>,
    total: &mut usize,
)
    requires
        starts.len() == lines.len(),
        forall|j: int| 0 <= j < starts.len() ==> (#[trigger] starts@[j] matches Some(s) ==> s
            < usize::MAX),
    ensures
        ({
            let hits = hits_over(
                rel@,
                views(lines@),
                starts@,
                ctx as int,
                0,
                budget_left(*old(total), max),
            );
            &&& hviews(final(results)@) == hviews(old(results)@) + hits
            &&& *final(total) == *old(total) + hits.len()
        }),
        *old(total) <= max ==> *final(total) <= max,
{
    let ghost ls = views(lines@);
    let ghost budget0 = budget_left(*total, max);
    let ghost start_results = hviews(results@);
    let ghost start_total = *total as nat;
    let ghost all = hits_over(rel@, ls, starts@, ctx as int, 0, budget0);
    let mut i: usize = 0;
    proof {
        lemma_hits_len(rel@, ls, starts@, ctx as int, 0, budget0);
        assert(hviews(results@) =~= start_results + all.take(0));
    }
    while i < lines.len()
        invariant
            i <= lines.len(),
            starts.len() == lines.len(),
            forall|j: int| 0 <= j < starts.len() ==> (#[trigger] starts@[j] matches Some(s) ==> s
                < usize::MAX),
            ls == views(lines@),
            all == hits_over(rel@, ls, starts@, ctx as int, 0, budget0),
            all.len() <= budget0,
            budget0 == budget_left(start_total as usize, max),
            start_total <= *total,
            (*total - start_total) as nat <= all.len(),
            hviews(results@) == start_results + all.take((*total - start_total) as int),
            all.skip((*total - start_total) as int) == hits_over(
                rel@,
                ls,
                starts@,
                ctx as int,
                i as int,
                budget_left(*total, max),
            ),
        ensures
            i >= lines.len() || *total >= max,
            start_total <= *total,
            (*total - start_total) as nat <= all.len(),
            hviews(results@) == start_results + all.take((*total - start_total) as int),
            all.skip((*total - start_total) as int) == hits_over(
                rel@,
                ls,
                starts@,
                ctx as int,
                i as int,
                budget_left(*total, max),
            ),
        decreases lines.len() - i,
    {
        if *total >= max {
            break;
        }
        let ghost got = (*total - start_total) as nat;
        let ghost left = budget_left(*total, max);
        match starts[i] {
            Some(s) => {
                let from = if i >= ctx {
                    i - ctx
                } else {
                    0
                };
                let to = if ctx < lines.len() - i {
                    i + ctx + 1
                } else {
                    lines.len()
                };
                let hit = GrepHit {
                    file: string_of(&chars_of(rel)),
                    line: i + 1,
                    column: s + 1,
                    text: lines[i].clone(),
                    before: clone_strings(lines, from, i),
                    after: clone_strings(lines, i + 1, to),
                };
                proof {
                    let h = hit_at(rel@, ls, i as int, s as int, ctx as int);
                    assert(hit@ == h);
                    assert(all.skip(got as int) == seq![h] + hits_over(
                        rel@,
                        ls,
                        starts@,
                        ctx as int,
                        i + 1,
                        (left - 1) as nat,
                    ));
                    assert(all.skip(got as int)[0] == h);
                    assert(all[got as int] == h);
                    assert(all.skip((got + 1) as int) =~= all.skip(got as int).drop_first());
                }
                let ghost before = results@;
                results.push(hit);
                *total = *total + 1;
                proof {
                    assert(hviews(results@) =~= hviews(before).push(hit@));
                    assert(all.take((got + 1) as int) =~= all.take(got as int).push(
                        all[got as int],
                    ));
                }
            },
            None => {},
        }
        i = i + 1;
    }
    proof {
        let got = (*total - start_total) as nat;
        assert(all.skip(got as int).len() == 0);
        assert(all.take(got as int) =~= all);
    }
}

/// Copies of `v[a..b]`.
fn clone_strings(v: &Vec<String>, a: usize, b: usize) -> (r: Vec<String>)
    requires
        a <= b <= v.len(),
    ensures
        views(r@) == views(v@).subrange(a as int, b as int),
{
    let mut r: Vec<String> = Vec::new();
    let mut i = a;
    while i < b
        invariant
            a <= i <= b <= v.len(),
            views(r@) == views(v@).subrange(a as int, i as int),
        decreases b - i,
    {
        let ghost before = r@;
        r.push(v[i].clone());
        assert(views(r@) =~= views(before).push(v@[i as int]@));
        i = i + 1;
        assert(views(r@) =~= views(v@).subrange(a as int, i as int));
    }
    r
}

/// Appends the hits of `content` (file `rel`) for the pattern `re` to
/// `results` while fewer than `max` hits have been counted in `total`.
pub fn grep_file(
    rel: &str,
    content: &str,
    re: &Pattern,
    ctx: usize,
    max: usize,
    results: &mut Vec<GrepHit>,
    total: &mut usize,
)
    ensures
        ({
            let ls = lines_spec(content@);
            let hits = hits_over(
                rel@,
                ls,
                find_starts(re@, ls),
                ctx as int,
                0,
                budget_left(*old(total), max),
            );
            &&& hviews(final(results)@) == hviews(old(results)@) + hits
            &&& *final(total) == *old(total) + hits.len()
        }),
        *old(total) <= max ==> *final(total) <= max,
{
    let text = chars_of(content);
    let chars_lines = split_lines(&text);
    let lines = strings_of(&chars_lines, 0, chars_lines.len());
    assert(vviews(chars_lines@).subrange(0, chars_lines.len() as int) =~= vviews(chars_lines@));
    let mut starts: Vec<Option<usize>> = Vec::new();
    let mut i: usize = 0;
    while i < lines.len()
        invariant
            i <= lines.len(),
            starts.len() == i,
            forall|j: int| 0 <= j < i ==> #[trigger] starts@[j] == regex_find_start(re@, lines@[j]@),
            forall|j: int| 0 <= j < i ==> (#[trigger] starts@[j] matches Some(s) ==> s < usize::MAX),
        decreases lines.len() - i,
    {
        starts.push(find_start(re, lines[i].as_str()));
        i = i + 1;
    }
    assert(starts@ =~= find_starts(re@, views(lines@)));
    collect_hits(rel, &lines, &starts, ctx, max, results, total);
}

/// How a query matches a path.
pub enum FuzzyMatch {
    /// The query occurs in the path.
    Substring,
    /// This many characters of the query match the path position by position
    /// (the first run of equal positions).
    Positional(usize),
    /// Neither.
    NoMatch,
}

/// Length of the first run of positions where query and target agree,
/// scanning from position `i` with `m` agreeing positions counted so far.
pub open spec fn run_from(q: Seq<char>, t: Seq<char>, i: int, m: nat) -> nat
    decreases t.len() - i,
{
    if i < 0 || i >= t.len() || i >= q.len() {
        m
    } else if q[i] == t[i] {
        run_from(q, t, i + 1, m + 1)
    } else if m > 0 {
        m
    } else {
        run_from(q, t, i + 1, 0)
    }
}

pub open spec fn fuzzy_spec(q: Seq<char>, t: Seq<char>) -> FuzzyMatch {
    if contains_spec(t, q) {
        FuzzyMatch::Substring
    } else if run_from(q, t, 0, 0) > 0 {
        FuzzyMatch::Positional(run_from(q, t, 0, 0) as usize)
    } else {
        FuzzyMatch::NoMatch
    }
}

/// How `query` matches `target` (both already lower-cased).
pub fn fuzzy_match(query: &str, target: &str) -> (r: FuzzyMatch)
    ensures
        r == fuzzy_spec(query@, target@),
{
    let q = chars_of(query);
    let t = chars_of(target);
    if contains(&t, &q) {
        return FuzzyMatch::Substring;
    }
    let mut m: usize = 0;
    let mut i: usize = 0;
    while i < t.len() && i < q.len()
        invariant
            i <= t.len(),
            m <= i,
            q@ == query@,
            t@ == target@,
            run_from(q@, t@, 0, 0) == run_from(q@, t@, i as int, m as nat),
        ensures
            run_from(q@, t@, 0, 0) == m as nat,
        decreases t.len() - i,
    {
        if q[i] == t[i] {
            m = m + 1;
        } else if m > 0 {
            break;
        }
        i = i + 1;
    }
    if m > 0 {
        FuzzyMatch::Positional(m)
    } else {
        FuzzyMatch::NoMatch
    }
}

/// How `query` matches each of `paths`, both lower-cased first.
pub fn fuzzy_matches(query: &str, paths: &Vec<String>) -> (r: Vec<FuzzyMatch>)
    ensures
        r.len() == paths.len(),
        forall|i: int|
            0 <= i < paths.len() ==> #[trigger] r@[i] == fuzzy_spec(
                lowercase_spec(query@),
                lowercase_spec(paths@[i]@),
            ),
{
    let q = to_lowercase(query);
    let mut r: Vec<FuzzyMatch> = Vec::new();
    let mut i: usize = 0;
    while i < paths.len()
        invariant
            i <= paths.len(),
            r.len() == i,
            q@ == lowercase_spec(query@),
            forall|j: int|
                0 <= j < i ==> #[trigger] r@[j] == fuzzy_spec(
                    lowercase_spec(query@),
                    lowercase_spec(paths@[j]@),
                ),
        decreases paths.len() - i,
    {
        let p = to_lowercase(paths[i].as_str());
        r.push(fuzzy_match(q.as_str(), p.as_str()));
        i = i + 1;
    }
    r
}

/// How strongly a match ranks: a substring match above every positional
/// match, positional matches by the number of matched characters. No match
/// (and an empty positional match) has rank 0 and is not listed.
pub open spec fn match_rank(m: FuzzyMatch) -> int {
    match m {
        FuzzyMatch::Substring => usize::MAX + 1,
        FuzzyMatch::Positional(k) => k as int,
        FuzzyMatch::NoMatch => 0,
    }
}

/// Whether path `i` is listed before path `j`: the higher rank first, and
/// in the order of the paths among equal ranks.
pub open spec fn listed_before(ms: Seq<FuzzyMatch>, i: int, j: int) -> bool {
    ||| match_rank(ms[i]) > match_rank(ms[j])
    ||| (match_rank(ms[i]) == match_rank(ms[j]) && i < j)
}

/// Whether path `i` matches at all.
pub open spec fn is_hit(ms: Seq<FuzzyMatch>, i: int) -> bool {
    0 <= i < ms.len() && match_rank(ms[i]) > 0
}

/// Whether index `i` occurs in `r`.
pub open spec fn listed(r: Seq<usize>, i: int) -> bool {
    exists|k: int| 0 <= k < r.len() && r[k] == i
}

fn rank_value(m: &FuzzyMatch) -> (r: u128)
    ensures
        r == match_rank(*m),
{
    match m {
        FuzzyMatch::Substring => usize::MAX as u128 + 1,
        FuzzyMatch::Positional(k) => *k as u128,
        FuzzyMatch::NoMatch => 0,
    }
}

fn is_listed_before(ms: &Vec<FuzzyMatch>, i: usize, j: usize) -> (b: bool)
    requires
        i < ms.len(),
        j < ms.len(),
    ensures
        b == listed_before(ms@, i as int, j as int),
{
    let ri = rank_value(&ms[i]);
    let rj = rank_value(&ms[j]);
    ri > rj || (ri == rj && i < j)
}

/// The paths to list, by index into `ms`: every path that matches, best
/// first (substring matches, then longer positional matches; among equal
/// ranks in the given order), cut after `max` of them.
pub fn rank_matches(ms: &Vec<FuzzyMatch>, max: usize) -> (r: Vec<usize>)
    ensures
        r.len() <= max,
        forall|k: int| 0 <= k < r.len() ==> is_hit(ms@, #[trigger] r@[k] as int),
        forall|k: int, l: int|
            0 <= k < l < r.len() ==> listed_before(ms@, #[trigger] r@[k] as int, #[trigger] r@[l] as int),
        forall|i: int|
            #![trigger is_hit(ms@, i)]
            is_hit(ms@, i) && !listed(r@, i) ==> r.len() == max && forall|k: int|
                0 <= k < r.len() ==> listed_before(ms@, #[trigger] r@[k] as int, i),
{
    let n = ms.len();
    let mut r: Vec<usize> = Vec::new();
    while r.len() < max
        invariant
            n == ms.len(),
            r.len() <= max,
            forall|k: int| 0 <= k < r.len() ==> is_hit(ms@, #[trigger] r@[k] as int),
            forall|k: int, l: int|
                0 <= k < l < r.len() ==> listed_before(ms@, #[trigger] r@[k] as int, #[trigger] r@[l] as int),
            forall|i: int|
                #![trigger is_hit(ms@, i)]
                is_hit(ms@, i) && !listed(r@, i) ==> forall|k: int|
                    0 <= k < r.len() ==> listed_before(ms@, #[trigger] r@[k] as int, i),
        ensures
            r.len() == max || forall|i: int| #![trigger is_hit(ms@, i)] is_hit(ms@, i) ==> listed(r@, i),
        decreases max - r.len(),
    {
        let ghost last: int = if r.len() == 0 { -1 } else { r@[r.len() - 1] as int };
        assert(r.len() > 0 ==> is_hit(ms@, r@[r.len() - 1] as int));
        let mut best: Option<usize> = None;
        let mut i: usize = 0;
        while i < n
            invariant
                i <= n,
                n == ms.len(),
                r.len() == 0 ==> last == -1,
                r.len() > 0 ==> last == r@[r.len() - 1] as int,
                r.len() > 0 ==> last < n,
                match best {
                    Some(b) => b < i && is_hit(ms@, b as int) && (r.len() == 0 || listed_before(
                        ms@,
                        last,
                        b as int,
                    )) && forall|j: int|
                        #![trigger is_hit(ms@, j)]
                        0 <= j < i && j != b && is_hit(ms@, j) && (r.len() == 0 || listed_before(
                            ms@,
                            last,
                            j,
                        )) ==> listed_before(ms@, b as int, j),
                    None => forall|j: int|
                        #![trigger is_hit(ms@, j)]
                        0 <= j < i && is_hit(ms@, j) ==> r.len() > 0 && !listed_before(
                            ms@,
                            last,
                            j,
                        ),
                },
            decreases n - i,
        {
            if rank_value(&ms[i]) > 0 {
                let after = r.len() == 0 || is_listed_before(ms, r[r.len() - 1], i);
                if after {
                    match best {
                        None => {
                            best = Some(i);
                        },
                        Some(b) => {
                            if is_listed_before(ms, i, b) {
                                best = Some(i);
                            }
                        },
                    }
                }
            }
            i = i + 1;
        }
        match best {
            None => {
                assert forall|j: int| #![trigger is_hit(ms@, j)] is_hit(ms@, j) implies listed(
                    r@,
                    j,
                ) by {
                    if !listed(r@, j) {
                        assert(listed_before(ms@, r@[r.len() - 1] as int, j));
                    }
                }
                break;
            },
            Some(b) => {
                let ghost old_r = r@;
                assert(!listed(old_r, b as int)) by {
                    if listed(old_r, b as int) {
                        let k = choose|k: int| 0 <= k < old_r.len() && old_r[k] == b;
                        if k < old_r.len() - 1 {
                            assert(listed_before(ms@, old_r[k] as int, old_r[old_r.len() - 1] as int));
                        }
                    }
                }
                r.push(b);
                assert forall|j: int|
                    #![trigger is_hit(ms@, j)]
                    is_hit(ms@, j) && !listed(r@, j) implies forall|k: int|
                        0 <= k < r.len() ==> listed_before(ms@, #[trigger] r@[k] as int, j) by {
                    assert(r@[r.len() - 1] == b);
                    if listed(old_r, j) {
                        let k = choose|k: int| 0 <= k < old_r.len() && old_r[k] == j;
                        assert(r@[k] == j);
                    }
                    assert forall|k: int| 0 <= k < r.len() implies listed_before(
                        ms@,
                        #[trigger] r@[k] as int,
                        j,
                    ) by {
                        if k < old_r.len() {
                            assert(r@[k] == old_r[k]);
                        }
                    }
                }
            },
        }
    }
    r
}

/// Number of lines from `i` on where the pattern matches.
pub open spec fn matching_lines(starts: Seq<Option<usize>>, i: int) -> nat
    decreases starts.len() - i,
{
    if i < 0 || i >= starts.len() {
        0
    } else {
        (if starts[i] is Some {
            1nat
        } else {
            0nat
        }) + matching_lines(starts, i + 1)
    }
}

/// What a reported hit is: the line `j` it names (counted from 1) is a line
/// at or after `i` where the pattern matched, at the reported column
/// (counted from 1); it carries that line, exactly the `min(j, ctx)` lines
/// just before it and exactly the `min(ctx, lines after j)` lines just after.
pub open spec fn is_context_hit(
    rel: Seq<char>,
    lines: Seq<Seq<char>>,
    starts: Seq<Option<usize>>,
    ctx: int,
    i: int,
    h: HitView,
) -> bool {
    let j = h.line - 1;
    &&& i <= j < lines.len()
    &&& starts[j] is Some
    &&& h.column == starts[j]->0 + 1
    &&& h.file == rel
    &&& h.text == lines[j]
    &&& h.before.len() == (if j < ctx {
        j
    } else {
        ctx
    })
    &&& h.before == lines.subrange(j - h.before.len(), j)
    &&& h.after.len() == (if lines.len() - 1 - j < ctx {
        lines.len() - 1 - j
    } else {
        ctx
    })
    &&& h.after == lines.subrange(j + 1, j + 1 + h.after.len())
}

/// Search law: the hits of lines `i..` are, in increasing line order, as
/// many matching lines as the budget allows (all of them when it suffices),
/// and each carries exactly `ctx` lines of context on each side where the
/// file has them, never more.
pub proof fn lemma_hits_report_context(
    rel: Seq<char>,
    lines: Seq<Seq<char>>,
    starts: Seq<Option<usize>>,
    ctx: int,
    i: int,
    budget: nat,
)
    requires
        0 <= i,
        0 <= ctx,
        starts.len() == lines.len(),
    ensures
        ({
            let hs = hits_over(rel, lines, starts, ctx, i, budget);
            &&& hs.len() == if budget < matching_lines(starts, i) {
                budget
            } else {
                matching_lines(starts, i)
            }
            &&& forall|k: int|
                0 <= k < hs.len() ==> is_context_hit(rel, lines, starts, ctx, i, #[trigger] hs[k])
            &&& forall|k: int, l: int|
                0 <= k < l < hs.len() ==> #[trigger] hs[k].line < #[trigger] hs[l].line
        }),
    decreases lines.len() - i,
{
    let hs = hits_over(rel, lines, starts, ctx, i, budget);
    if i >= lines.len() || budget == 0 {
    } else {
        match starts[i] {
            Some(s) => {
                let rest = hits_over(rel, lines, starts, ctx, i + 1, (budget - 1) as nat);
                lemma_hits_report_context(rel, lines, starts, ctx, i + 1, (budget - 1) as nat);
                let h0 = hit_at(rel, lines, i, s as int, ctx);
                assert(hs == seq![h0] + rest);
                assert(is_context_hit(rel, lines, starts, ctx, i, h0));
                assert forall|k: int|
                    0 <= k < hs.len() implies is_context_hit(
                    rel,
                    lines,
                    starts,
                    ctx,
                    i,
                    #[trigger] hs[k],
                ) by {
                    if k > 0 {
                        assert(hs[k] == rest[k - 1]);
                        assert(is_context_hit(rel, lines, starts, ctx, i + 1, rest[k - 1]));
                    }
                }
                assert forall|k: int, l: int|
                    0 <= k < l < hs.len() implies #[trigger] hs[k].line < #[trigger] hs[l].line by {
                    assert(hs[l] == rest[l - 1]);
                    assert(is_context_hit(rel, lines, starts, ctx, i + 1, rest[l - 1]));
                    if k > 0 {
                        assert(hs[k] == rest[k - 1]);
                    }
                }
            },
            None => {
                lemma_hits_report_context(rel, lines, starts, ctx, i + 1, budget);
                let rest = hits_over(rel, lines, starts, ctx, i + 1, budget);
                assert(hs == rest);
                assert forall|k: int|
                    0 <= k < hs.len() implies is_context_hit(
                    rel,
                    lines,
                    starts,
                    ctx,
                    i,
                    #[trigger] hs[k],
                ) by {
                    assert(is_context_hit(rel, lines, starts, ctx, i + 1, rest[k]));
                }
            },
        }
    }
}

} // verus!
