//! Text primitives over character sequences, with their meaning stated as
//! spec functions: whitespace trimming, line splitting, prefix/suffix and
//! substring tests, decimal formatting and parsing, UTF-8 byte lengths.
use vstd::prelude::*;

verus! {

// ----------------------------------------------------------------------
// Specifications
// ----------------------------------------------------------------------
/// Unicode `White_Space`, the set that `char::is_whitespace` tests.
pub open spec fn is_ws(c: char) -> bool {
    let u = c as u32;
    ||| (0x9 <= u && u <= 0xd)
    ||| u == 0x20
    ||| u == 0x85
    ||| u == 0xa0
    ||| u == 0x1680
    ||| (0x2000 <= u && u <= 0x200a)
    ||| u == 0x2028
    ||| u == 0x2029
    ||| u == 0x202f
    ||| u == 0x205f
    ||| u == 0x3000
}

/// `s` without its leading whitespace.
pub open spec fn trim_start_spec(s: Seq<char>) -> Seq<char>
    decreases s.len(),
{
    if s.len() > 0 && is_ws(s[0]) {
        trim_start_spec(s.drop_first())
    } else {
        s
    }
}

/// `s` without its trailing whitespace.
pub open spec fn trim_end_spec(s: Seq<char>) -> Seq<char>
    decreases s.len(),
{
    if s.len() > 0 && is_ws(s.last()) {
        trim_end_spec(s.drop_last())
    } else {
        s
    }
}

/// `s` without leading and trailing whitespace.
pub open spec fn trim_spec(s: Seq<char>) -> Seq<char> {
    trim_end_spec(trim_start_spec(s))
}

/// The pieces of `s` between occurrences of `sep` (always at least one).
pub open spec fn split_spec(s: Seq<char>, sep: char) -> Seq<Seq<char>>
    decreases s.len(),
{
    if s.len() == 0 {
        seq![Seq::<char>::empty()]
    } else {
        let p = split_spec(s.drop_last(), sep);
        if s.last() == sep {
            p.push(Seq::<char>::empty())
        } else {
            p.update(p.len() - 1, p.last().push(s.last()))
        }
    }
}

/// A line that ended with a line feed loses a carriage return before it.
pub open spec fn strip_cr(l: Seq<char>) -> Seq<char> {
    if l.len() > 0 && l.last() == '\r' {
        l.drop_last()
    } else {
        l
    }
}

/// The lines of `s`: split at `\n`, a `\r` before each `\n` removed, and no
/// empty line after a final line feed.
pub open spec fn lines_spec(s: Seq<char>) -> Seq<Seq<char>> {
    let p = split_spec(s, '\n');
    let done = p.drop_last().map_values(|l: Seq<char>| strip_cr(l));
    if p.last().len() == 0 {
        done
    } else {
        done.push(p.last())
    }
}

/// `s` begins with `p`.
pub open spec fn starts_with_spec(s: Seq<char>, p: Seq<char>) -> bool {
    p.len() <= s.len() && s.take(p.len() as int) == p
}

/// `s` ends with `p`.
pub open spec fn ends_with_spec(s: Seq<char>, p: Seq<char>) -> bool {
    p.len() <= s.len() && s.skip(s.len() - p.len()) == p
}

/// `p` occurs in `s` at position `i`.
pub open spec fn occurs_at(s: Seq<char>, p: Seq<char>, i: int) -> bool {
    0 <= i && i + p.len() <= s.len() && s.subrange(i, i + p.len()) == p
}

/// `p` occurs somewhere in `s`.
pub open spec fn contains_spec(s: Seq<char>, p: Seq<char>) -> bool {
    exists|i: int| occurs_at(s, p, i)
}

/// `c` occurs in `s`.
pub open spec fn has_char(s: Seq<char>, c: char) -> bool {
    exists|i: int| 0 <= i < s.len() && s[i] == c
}

/// The ASCII digit for `d < 10`.
pub open spec fn digit_char(d: nat) -> char {
    if d == 0 {
        '0'
    } else if d == 1 {
        '1'
    } else if d == 2 {
        '2'
    } else if d == 3 {
        '3'
    } else if d == 4 {
        '4'
    } else if d == 5 {
        '5'
    } else if d == 6 {
        '6'
    } else if d == 7 {
        '7'
    } else if d == 8 {
        '8'
    } else {
        '9'
    }
}

/// Decimal representation of `n`, without leading zeros.
pub open spec fn dec_spec(n: nat) -> Seq<char>
    decreases n,
{
    if n < 10 {
        seq![digit_char(n)]
    } else {
        dec_spec(n / 10).push(digit_char(n % 10))
    }
}

/// `k` copies of `c`.
pub open spec fn repeat_char(c: char, k: nat) -> Seq<char> {
    Seq::new(k, |i: int| c)
}

/// Decimal representation of `n`, left-padded with zeros to `width`.
pub open spec fn padded_dec_spec(n: nat, width: nat) -> Seq<char> {
    let d = dec_spec(n);
    if d.len() >= width {
        d
    } else {
        repeat_char('0', (width - d.len()) as nat) + d
    }
}

/// `c` is an ASCII decimal digit.
pub open spec fn is_ascii_digit(c: char) -> bool {
    '0' <= c && c <= '9'
}

/// Value of a sequence of ASCII digits.
pub open spec fn digits_value(s: Seq<char>) -> nat
    decreases s.len(),
{
    if s.len() == 0 {
        0
    } else {
        digits_value(s.drop_last()) * 10 + ((s.last() as u32) - ('0' as u32)) as nat
    }
}

/// `s` without one leading `+`.
pub open spec fn unsigned_part(s: Seq<char>) -> Seq<char> {
    if s.len() > 0 && s[0] == '+' {
        s.drop_first()
    } else {
        s
    }
}

/// Every character of `t` is an ASCII digit.
pub open spec fn all_ascii_digits(t: Seq<char>) -> bool {
    forall|i: int| 0 <= i < t.len() ==> is_ascii_digit(#[trigger] t[i])
}

/// What `str::parse::<usize>` gives: an optional `+` followed by at least one
/// ASCII digit, with a value that fits in `usize`.
pub open spec fn parse_usize_spec(s: Seq<char>) -> Option<usize> {
    let t = unsigned_part(s);
    if t.len() > 0 && all_ascii_digits(t) && digits_value(t) <= usize::MAX {
        Some(digits_value(t) as usize)
    } else {
        None
    }
}

/// Number of bytes of `c` in UTF-8.
pub open spec fn char_bytes(c: char) -> nat {
    let u = c as u32;
    if u < 0x80 {
        1
    } else if u < 0x800 {
        2
    } else if u < 0x10000 {
        3
    } else {
        4
    }
}

/// Number of bytes of `s` in UTF-8.
pub open spec fn bytes_len(s: Seq<char>) -> nat
    decreases s.len(),
{
    if s.len() == 0 {
        0
    } else {
        char_bytes(s[0]) + bytes_len(s.drop_first())
    }
}

/// The number of leading characters of `s` that fit in `n` bytes.
pub open spec fn chars_within(s: Seq<char>, n: nat) -> nat
    decreases s.len(),
{
    if s.len() == 0 || char_bytes(s[0]) > n {
        0
    } else {
        1 + chars_within(s.drop_first(), (n - char_bytes(s[0])) as nat)
    }
}

/// Byte offset `n` of `s` falls between two characters (a `char` boundary).
pub open spec fn is_boundary(s: Seq<char>, n: nat) -> bool {
    bytes_len(s.take(chars_within(s, n) as int)) == n
}

/// The characters of `s` before byte offset `n`.
pub open spec fn before_byte(s: Seq<char>, n: nat) -> Seq<char> {
    s.take(chars_within(s, n) as int)
}

/// The characters of `s` from byte offset `n` on.
pub open spec fn from_byte(s: Seq<char>, n: nat) -> Seq<char> {
    s.skip(chars_within(s, n) as int)
}

/// The views of a sequence of strings.
pub open spec fn views(v: Seq<String>) -> Seq<Seq<char>> {
    v.map_values(|s: String| s@)
}

/// `parts` joined with `sep` between consecutive parts.
pub open spec fn join_spec(parts: Seq<Seq<char>>, sep: Seq<char>) -> Seq<char>
    decreases parts.len(),
{
    if parts.len() == 0 {
        Seq::empty()
    } else if parts.len() == 1 {
        parts[0]
    } else {
        join_spec(parts.drop_last(), sep) + sep + parts.last()
    }
}

// ----------------------------------------------------------------------
// Conversions between strings and character vectors
// ----------------------------------------------------------------------
/// The characters of `s`.
pub fn chars_of(s: &str) -> (v: Vec<char>)
    ensures
        v@ == s@,
{
    broadcast use vstd::string::group_string_axioms;

    let mut v: Vec<char> = Vec::new();
    for c in it: s.chars()
        invariant
            v@ == it.seq().take(it.index() as int),
    {
        v.push(c);
    }
    v
}

/// What `str::to_lowercase` gives: the Unicode lower-case mapping of the
/// text (context-dependent for a final sigma), which this library does not
/// spell out.
pub uninterp spec fn lowercase_spec(s: Seq<char>) -> Seq<char>;

/// Calls `str::to_lowercase`; the contract claims that the result is
/// `lowercase_spec(s@)`, and nothing more.
#[verifier::external_body]
pub(crate) fn to_lowercase(s: &str) -> (r: String)
    ensures
        r@ == lowercase_spec(s@),
{
    s.to_lowercase()
}

/// The string made of the characters of `v`: calls `String::from_iter`
/// (`FromIterator<&char>`), which std documents as collecting the characters
/// in order; the contract claims exactly that.
#[verifier::external_body]
pub(crate) fn string_of(v: &Vec<char>) -> (s: String)
    ensures
        s@ == v@,
{
    String::from_iter(v.iter())
}

// ----------------------------------------------------------------------
// Executable operations
// ----------------------------------------------------------------------
/// `char::is_whitespace`.
pub fn is_whitespace(c: char) -> (b: bool)
    ensures
        b == is_ws(c),
{
    let u = c as u32;
    (0x9 <= u && u <= 0xd) || u == 0x20 || u == 0x85 || u == 0xa0 || u == 0x1680 || (0x2000
        <= u && u <= 0x200a) || u == 0x2028 || u == 0x2029 || u == 0x202f || u == 0x205f || u
        == 0x3000
}

/// Copy of `s[a..b]`.
pub fn slice(s: &Vec<char>, a: usize, b: usize) -> (r: Vec<char>)
    requires
        a <= b <= s.len(),
    ensures
        r@ == s@.subrange(a as int, b as int),
{
    let mut r: Vec<char> = Vec::new();
    let mut i = a;
    while i < b
        invariant
            a <= i <= b <= s.len(),
            r@ == s@.subrange(a as int, i as int),
        decreases b - i,
    {
        r.push(s[i]);
        i = i + 1;
        assert(r@ =~= s@.subrange(a as int, i as int));
    }
    r
}

/// Copy of `s`.
pub fn copy_chars(s: &Vec<char>) -> (r: Vec<char>)
    ensures
        r@ == s@,
{
    let r = slice(s, 0, s.len());
    assert(s@.subrange(0, s@.len() as int) =~= s@);
    r
}

/// Appends the characters of `t` to `out`.
pub fn push_all(out: &mut Vec<char>, t: &Vec<char>)
    ensures
        final(out)@ == old(out)@ + t@,
{
    let ghost start = out@;
    let mut i: usize = 0;
    while i < t.len()
        invariant
            i <= t.len(),
            out@ == start + t@.take(i as int),
        decreases t.len() - i,
    {
        out.push(t[i]);
        i = i + 1;
        assert(out@ =~= start + t@.take(i as int));
    }
    assert(t@.take(i as int) =~= t@);
}

/// Appends the characters of a string to `out`.
pub fn push_str(out: &mut Vec<char>, t: &str)
    ensures
        final(out)@ == old(out)@ + t@,
{
    let v = chars_of(t);
    push_all(out, &v);
}

/// Whether the two sequences are equal.
pub fn chars_eq(a: &Vec<char>, b: &Vec<char>) -> (r: bool)
    ensures
        r == (a@ == b@),
{
    if a.len() != b.len() {
        return false;
    }
    let mut i: usize = 0;
    while i < a.len()
        invariant
            a.len() == b.len(),
            i <= a.len(),
            forall|j: int| 0 <= j < i ==> a@[j] == b@[j],
        decreases a.len() - i,
    {
        if a[i] != b[i] {
            return false;
        }
        i = i + 1;
    }
    assert(a@ =~= b@);
    true
}

proof fn lemma_trim_start_skip(s: Seq<char>, i: int)
    requires
        0 <= i < s.len(),
        is_ws(s[i]),
    ensures
        trim_start_spec(s.skip(i)) == trim_start_spec(s.skip(i + 1)),
{
    assert(s.skip(i).drop_first() =~= s.skip(i + 1));
}

/// Index of the first non-whitespace character (or the length).
pub fn trim_start_index(s: &Vec<char>) -> (i: usize)
    ensures
        i <= s.len(),
        s@.skip(i as int) == trim_start_spec(s@),
{
    let mut i: usize = 0;
    assert(s@.skip(0) =~= s@);
    while i < s.len() && is_whitespace(s[i])
        invariant
            i <= s.len(),
            trim_start_spec(s@) == trim_start_spec(s@.skip(i as int)),
        decreases s.len() - i,
    {
        proof {
            lemma_trim_start_skip(s@, i as int);
        }
        i = i + 1;
    }
    i
}

/// Index just past the last non-whitespace character of `s[lo..hi]`
/// (or `lo` when there is none).
pub fn trim_end_index(s: &Vec<char>, lo: usize, hi: usize) -> (j: usize)
    requires
        lo <= hi <= s.len(),
    ensures
        lo <= j <= hi,
        s@.subrange(lo as int, j as int) == trim_end_spec(s@.subrange(lo as int, hi as int)),
{
    let mut j = hi;
    while j > lo && is_whitespace(s[j - 1])
        invariant
            lo <= j <= hi <= s.len(),
            trim_end_spec(s@.subrange(lo as int, hi as int)) == trim_end_spec(
                s@.subrange(lo as int, j as int),
            ),
        decreases j,
    {
        assert(s@.subrange(lo as int, j as int).drop_last() =~= s@.subrange(
            lo as int,
            j - 1,
        ));
        j = j - 1;
    }
    j
}

/// Bounds of `s` with leading and trailing whitespace removed.
pub fn trim_bounds(s: &Vec<char>) -> (r: (usize, usize))
    ensures
        r.0 <= r.1 <= s.len(),
        s@.subrange(r.0 as int, r.1 as int) == trim_spec(s@),
{
    let i = trim_start_index(s);
    let j = trim_end_index(s, i, s.len());
    assert(s@.subrange(i as int, s.len() as int) =~= s@.skip(i as int));
    (i, j)
}

/// Leading and trailing whitespace removed.
pub fn trim_chars(s: &Vec<char>) -> (r: Vec<char>)
    ensures
        r@ == trim_spec(s@),
{
    let (i, j) = trim_bounds(s);
    slice(s, i, j)
}

/// Trailing whitespace removed.
pub fn trim_end_chars(s: &Vec<char>) -> (r: Vec<char>)
    ensures
        r@ == trim_end_spec(s@),
{
    let j = trim_end_index(s, 0, s.len());
    assert(s@.subrange(0, s.len() as int) =~= s@);
    slice(s, 0, j)
}

/// Whether `s` is empty once whitespace is trimmed, i.e. all whitespace.
pub fn is_blank(s: &Vec<char>) -> (b: bool)
    ensures
        b == (trim_spec(s@).len() == 0),
{
    let (i, j) = trim_bounds(s);
    i == j
}

/// The views of a sequence of character vectors.
pub open spec fn vviews(v: Seq<Vec<char>>) -> Seq<Seq<char>> {
    v.map_values(|l: Vec<char>| l@)
}

/// The lines of `s`, as `str::lines` yields them.
pub fn split_lines(s: &Vec<char>) -> (r: Vec<Vec<char>>)
    ensures
        vviews(r@) == lines_spec(s@),
{
    let mut done: Vec<Vec<char>> = Vec::new();
    let mut cur: Vec<char> = Vec::new();
    let mut i: usize = 0;
    proof {
        assert(s@.take(0) =~= Seq::<char>::empty());
        assert(vviews(done@) =~= split_spec(s@.take(0), '\n').drop_last().map_values(
            |l: Seq<char>| strip_cr(l),
        ));
    }
    while i < s.len()
        invariant
            i <= s.len(),
            split_spec(s@.take(i as int), '\n').len() >= 1,
            vviews(done@) == split_spec(s@.take(i as int), '\n').drop_last().map_values(
                |l: Seq<char>| strip_cr(l),
            ),
            cur@ == split_spec(s@.take(i as int), '\n').last(),
        decreases s.len() - i,
    {
        let ghost p = split_spec(s@.take(i as int), '\n');
        let c = s[i];
        assert(s@.take(i + 1).drop_last() =~= s@.take(i as int));
        assert(s@.take(i + 1).last() == c);
        if c == '\n' {
            let mut line = cur;
            if line.len() > 0 && line[line.len() - 1] == '\r' {
                line.pop();
            }
            assert(line@ == strip_cr(p.last()));
            let ghost old_done = done@;
            done.push(line);
            cur = Vec::new();
            proof {
                let p2 = split_spec(s@.take(i + 1), '\n');
                assert(p2 == p.push(Seq::<char>::empty()));
                assert(p2.drop_last() =~= p);
                assert(p =~= p.drop_last().push(p.last()));
                assert(vviews(done@) =~= vviews(old_done).push(line@));
                assert(p.map_values(|l: Seq<char>| strip_cr(l)) =~= p.drop_last().map_values(
                    |l: Seq<char>| strip_cr(l),
                ).push(strip_cr(p.last())));
                assert(vviews(done@) =~= p2.drop_last().map_values(|l: Seq<char>| strip_cr(l)));
                assert(cur@ =~= p2.last());
            }
        } else {
            cur.push(c);
            proof {
                let p2 = split_spec(s@.take(i + 1), '\n');
                assert(p2 == p.update(p.len() - 1, p.last().push(c)));
                assert(p2.drop_last() =~= p.drop_last());
                assert(cur@ =~= p2.last());
            }
        }
        i = i + 1;
    }
    assert(s@.take(i as int) =~= s@);
    if cur.len() > 0 {
        let ghost old_done = done@;
        let ghost cur_v = cur@;
        done.push(cur);
        proof {
            assert(vviews(done@) =~= vviews(old_done).push(cur_v));
            let p = split_spec(s@, '\n');
            assert(vviews(done@) =~= p.drop_last().map_values(|l: Seq<char>| strip_cr(l)).push(
                p.last(),
            ));
        }
    }
    done
}

/// Whether `s` begins with `p`.
pub fn starts_with(s: &Vec<char>, p: &Vec<char>) -> (b: bool)
    ensures
        b == starts_with_spec(s@, p@),
{
    if p.len() > s.len() {
        return false;
    }
    let mut i: usize = 0;
    while i < p.len()
        invariant
            p.len() <= s.len(),
            i <= p.len(),
            forall|j: int| 0 <= j < i ==> s@[j] == p@[j],
        decreases p.len() - i,
    {
        if s[i] != p[i] {
            assert(s@.take(p.len() as int)[i as int] != p@[i as int]);
            return false;
        }
        i = i + 1;
    }
    assert(s@.take(p.len() as int) =~= p@);
    true
}

/// Whether `p` occurs in `s` at position `k`.
pub fn occurs_at_exec(s: &Vec<char>, p: &Vec<char>, k: usize) -> (b: bool)
    ensures
        b == occurs_at(s@, p@, k as int),
{
    if k > s.len() || p.len() > s.len() - k {
        return false;
    }
    let mut i: usize = 0;
    while i < p.len()
        invariant
            k + p.len() <= s.len(),
            i <= p.len(),
            forall|j: int| 0 <= j < i ==> s@[k + j] == p@[j],
        decreases p.len() - i,
    {
        if s[k + i] != p[i] {
            assert(s@.subrange(k as int, k + p.len())[i as int] != p@[i as int]);
            return false;
        }
        i = i + 1;
    }
    assert(s@.subrange(k as int, k + p.len()) =~= p@);
    true
}

/// Whether `s` ends with `p`.
pub fn ends_with(s: &Vec<char>, p: &Vec<char>) -> (b: bool)
    ensures
        b == ends_with_spec(s@, p@),
{
    if p.len() > s.len() {
        return false;
    }
    let b = occurs_at_exec(s, p, s.len() - p.len());
    assert(s@.subrange(s.len() - p.len(), s.len() as int) =~= s@.skip(s.len() - p.len()));
    b
}

/// Whether `p` occurs somewhere in `s`.
pub fn contains(s: &Vec<char>, p: &Vec<char>) -> (b: bool)
    ensures
        b == contains_spec(s@, p@),
{
    if p.len() > s.len() {
        assert forall|i: int| !occurs_at(s@, p@, i) by {}
        return false;
    }
    let last = s.len() - p.len();
    let mut k: usize = 0;
    loop
        invariant
            p.len() <= s.len(),
            last == s.len() - p.len(),
            k <= last,
            forall|i: int| 0 <= i < k ==> !occurs_at(s@, p@, i),
        ensures
            forall|i: int| 0 <= i <= last ==> !occurs_at(s@, p@, i),
        decreases last - k,
    {
        if occurs_at_exec(s, p, k) {
            return true;
        }
        if k == last {
            break;
        }
        k = k + 1;
    }
    assert forall|i: int| !occurs_at(s@, p@, i) by {
        if 0 <= i <= last {
        }
    }
    false
}

/// Whether the character `c` occurs in `s`.
pub fn contains_char(s: &Vec<char>, c: char) -> (b: bool)
    ensures
        b == has_char(s@, c),
{
    let mut i: usize = 0;
    while i < s.len()
        invariant
            i <= s.len(),
            forall|j: int| 0 <= j < i ==> s@[j] != c,
        decreases s.len() - i,
    {
        if s[i] == c {
            return true;
        }
        i = i + 1;
    }
    false
}

/// The ASCII digit for `d < 10`.
pub fn digit(d: u64) -> (c: char)
    requires
        d < 10,
    ensures
        c == digit_char(d as nat),
{
    if d == 0 {
        '0'
    } else if d == 1 {
        '1'
    } else if d == 2 {
        '2'
    } else if d == 3 {
        '3'
    } else if d == 4 {
        '4'
    } else if d == 5 {
        '5'
    } else if d == 6 {
        '6'
    } else if d == 7 {
        '7'
    } else if d == 8 {
        '8'
    } else {
        '9'
    }
}

/// Appends the decimal representation of `n`.
pub fn push_decimal(out: &mut Vec<char>, n: u64)
    ensures
        final(out)@ == old(out)@ + dec_spec(n as nat),
    decreases n,
{
    if n >= 10 {
        push_decimal(out, n / 10);
    }
    out.push(digit(n % 10));
    proof {
        if n >= 10 {
            assert(old(out)@ + dec_spec(n as nat) =~= old(out)@ + dec_spec((n / 10) as nat)
                + seq![digit_char((n % 10) as nat)]);
        } else {
            assert(dec_spec(n as nat) == seq![digit_char(n as nat)]);
        }
    }
}

/// Appends the decimal representation of `n`, zero-padded to `width`.
pub fn push_padded(out: &mut Vec<char>, n: u64, width: usize)
    ensures
        final(out)@ == old(out)@ + padded_dec_spec(n as nat, width as nat),
{
    let mut digits: Vec<char> = Vec::new();
    push_decimal(&mut digits, n);
    assert(digits@ =~= dec_spec(n as nat));
    let ghost start = out@;
    if digits.len() < width {
        let mut k: usize = 0;
        while k < width - digits.len()
            invariant
                digits.len() < width,
                k <= width - digits.len(),
                out@ == start + repeat_char('0', k as nat),
            decreases width - digits.len() - k,
        {
            out.push('0');
            k = k + 1;
            assert(out@ =~= start + repeat_char('0', k as nat));
        }
    }
    let ghost mid = out@;
    push_all(out, &digits);
    assert(out@ =~= start + padded_dec_spec(n as nat, width as nat));
}

/// The decimal representation of `n`.
pub fn decimal_string(n: u64) -> (s: String)
    ensures
        s@ == dec_spec(n as nat),
{
    let mut v: Vec<char> = Vec::new();
    push_decimal(&mut v, n);
    assert(v@ =~= dec_spec(n as nat));
    string_of(&v)
}

/// `str::parse::<usize>`.
pub fn parse_usize(s: &Vec<char>) -> (r: Option<usize>)
    ensures
        r == parse_usize_spec(s@),
{
    let start: usize = if s.len() > 0 && s[0] == '+' {
        1
    } else {
        0
    };
    let ghost t = unsigned_part(s@);
    assert(t =~= s@.skip(start as int));
    if start >= s.len() {
        return None;
    }
    let mut value: usize = 0;
    let mut i: usize = start;
    while i < s.len()
        invariant
            start <= i <= s.len(),
            t == s@.skip(start as int),
            t == unsigned_part(s@),
            forall|j: int| start <= j < i ==> is_ascii_digit(#[trigger] s@[j]),
            value as nat == digits_value(s@.subrange(start as int, i as int)),
        decreases s.len() - i,
    {
        let c = s[i];
        if !('0' <= c && c <= '9') {
            assert(!is_ascii_digit(t[i - start]));
            assert(!all_ascii_digits(t));
            return None;
        }
        let d = (c as u32 - '0' as u32) as usize;
        assert(s@.subrange(start as int, i + 1).drop_last() =~= s@.subrange(
            start as int,
            i as int,
        ));
        proof {
            let w = s@.subrange(start as int, i + 1);
            assert(w.last() == c);
            assert(digits_value(w) == digits_value(w.drop_last()) * 10 + ((c as u32) - ('0' as u32)) as nat);
            assert(t.take((i - start + 1) as int) =~= w);
        }
        if value > (usize::MAX - d) / 10 {
            proof {
                lemma_digits_monotone(t, (i - start + 1) as int);
                assert(digits_value(t.take((i - start + 1) as int)) > usize::MAX) by (
                nonlinear_arith)
                    requires
                        digits_value(t.take((i - start + 1) as int)) == value * 10 + d,
                        value > (usize::MAX - d) / 10,
                        d < 10,
                ;
                assert(t.take((i - start + 1) as int) =~= s@.subrange(start as int, i + 1));
            }
            return None;
        }
        value = value * 10 + d;
        i = i + 1;
    }
    assert(s@.subrange(start as int, i as int) =~= t);
    assert forall|k: int| 0 <= k < t.len() implies is_ascii_digit(#[trigger] t[k]) by {
        assert(t[k] == s@[start + k]);
    }
    Some(value)
}

proof fn lemma_digits_monotone(t: Seq<char>, k: int)
    requires
        0 <= k <= t.len(),
    ensures
        digits_value(t.take(k)) <= digits_value(t),
    decreases t.len(),
{
    if k < t.len() {
        assert(t.drop_last().take(k) =~= t.take(k));
        lemma_digits_monotone(t.drop_last(), k);
        assert(digits_value(t) == digits_value(t.drop_last()) * 10 + ((t.last() as u32) - (
        '0' as u32)) as nat);
        assert(digits_value(t.drop_last()) <= digits_value(t.drop_last()) * 10) by (
        nonlinear_arith);
    } else {
        assert(t.take(k) =~= t);
    }
}

/// Number of bytes of `c` in UTF-8.
pub fn char_len_utf8(c: char) -> (n: usize)
    ensures
        n == char_bytes(c),
{
    let u = c as u32;
    if u < 0x80 {
        1
    } else if u < 0x800 {
        2
    } else if u < 0x10000 {
        3
    } else {
        4
    }
}

pub proof fn lemma_bytes_push(s: Seq<char>, c: char)
    ensures
        bytes_len(s.push(c)) == bytes_len(s) + char_bytes(c),
    decreases s.len(),
{
    if s.len() == 0 {
        assert(s.push(c).drop_first() =~= Seq::<char>::empty());
        assert(s.push(c)[0] == c);
        assert(bytes_len(s.push(c).drop_first()) == 0);
    } else {
        assert(s.push(c).drop_first() =~= s.drop_first().push(c));
        assert(s.push(c)[0] == s[0]);
        lemma_bytes_push(s.drop_first(), c);
    }
}

pub proof fn lemma_chars_within_le(s: Seq<char>, n: nat)
    ensures
        chars_within(s, n) <= s.len(),
    decreases s.len(),
{
    if !(s.len() == 0 || char_bytes(s[0]) > n) {
        lemma_chars_within_le(s.drop_first(), (n - char_bytes(s[0])) as nat);
    }
}

/// The number of leading characters of `s` that fit in `n` bytes, and their
/// byte count.
pub fn byte_prefix(s: &Vec<char>, n: usize) -> (r: (usize, usize))
    ensures
        r.0 == chars_within(s@, n as nat),
        r.1 == bytes_len(s@.take(r.0 as int)),
        r.1 <= n,
{
    let mut k: usize = 0;
    let mut acc: usize = 0;
    assert(s@.take(0) =~= Seq::<char>::empty());
    assert(s@.skip(0) =~= s@);
    while k < s.len() && char_len_utf8(s[k]) <= n - acc
        invariant
            k <= s.len(),
            acc <= n,
            acc == bytes_len(s@.take(k as int)),
            chars_within(s@, n as nat) == k + chars_within(s@.skip(k as int), (n - acc) as nat),
        decreases s.len() - k,
    {
        let c = s[k];
        proof {
            assert(s@.skip(k as int)[0] == c);
            assert(s@.skip(k as int).drop_first() =~= s@.skip(k + 1));
            assert(s@.take(k + 1) =~= s@.take(k as int).push(c));
            lemma_bytes_push(s@.take(k as int), c);
        }
        acc = acc + char_len_utf8(c);
        k = k + 1;
    }
    proof {
        if k < s.len() {
            assert(s@.skip(k as int)[0] == s@[k as int]);
        } else {
            assert(s@.skip(k as int) =~= Seq::<char>::empty());
        }
    }
    (k, acc)
}

/// `parts` joined with the single character `sep`.
pub fn join_chars(parts: &Vec<Vec<char>>, sep: char) -> (r: Vec<char>)
    ensures
        r@ == join_spec(vviews(parts@), seq![sep]),
{
    let mut r: Vec<char> = Vec::new();
    let mut i: usize = 0;
    while i < parts.len()
        invariant
            i <= parts.len(),
            r@ == join_spec(vviews(parts@.take(i as int)), seq![sep]),
        decreases parts.len() - i,
    {
        let ghost before = r@;
        if i > 0 {
            r.push(sep);
        }
        push_all(&mut r, &parts[i]);
        proof {
            let vs = vviews(parts@.take(i + 1));
            assert(vs.drop_last() =~= vviews(parts@.take(i as int)));
            assert(vs.last() == parts@[i as int]@);
            if i > 0 {
                assert(r@ =~= before + seq![sep] + parts@[i as int]@);
            } else {
                assert(vs.len() == 1);
                assert(r@ =~= vs[0]);
            }
        }
        i = i + 1;
    }
    assert(parts@.take(i as int) =~= parts@);
    r
}

pub proof fn lemma_bytes_split(s: Seq<char>, k: int)
    requires
        0 <= k <= s.len(),
    ensures
        bytes_len(s) == bytes_len(s.take(k)) + bytes_len(s.skip(k)),
    decreases k,
{
    if k == 0 {
        assert(s.take(0) =~= Seq::<char>::empty());
        assert(s.skip(0) =~= s);
    } else {
        let s1 = s.drop_first();
        lemma_bytes_split(s1, k - 1);
        assert(s1.skip(k - 1) =~= s.skip(k));
        assert(s.take(k).drop_first() =~= s1.take(k - 1));
        assert(s.take(k)[0] == s[0]);
    }
}

/// Whether `s` takes fewer than `n` bytes in UTF-8.
pub fn bytes_below(s: &Vec<char>, n: usize) -> (b: bool)
    ensures
        b == (bytes_len(s@) < n),
{
    let (k, acc) = byte_prefix(s, n);
    proof {
        lemma_chars_within_le(s@, n as nat);
        lemma_bytes_split(s@, k as int);
        if k < s.len() {
            lemma_chars_within_stop(s@, n as nat, k as int);
            assert(s@.skip(k as int)[0] == s@[k as int]);
            assert(bytes_len(s@.skip(k as int)) >= char_bytes(s@[k as int]));
        } else {
            assert(s@.skip(k as int) =~= Seq::<char>::empty());
        }
    }
    k == s.len() && acc < n
}

/// Where `chars_within` stops short of the end, the next character does not
/// fit in what is left of the budget.
pub proof fn lemma_chars_within_stop(s: Seq<char>, n: nat, k: int)
    requires
        k == chars_within(s, n),
        k < s.len(),
    ensures
        bytes_len(s.take(k)) + char_bytes(s[k]) > n,
    decreases s.len(),
{
    if char_bytes(s[0]) > n {
        assert(s.take(0) =~= Seq::<char>::empty());
    } else {
        let s1 = s.drop_first();
        lemma_chars_within_stop(s1, (n - char_bytes(s[0])) as nat, k - 1);
        assert(s.take(k).drop_first() =~= s1.take(k - 1));
        assert(s.take(k)[0] == s[0]);
        assert(s1[k - 1] == s[k]);
    }
}

/// The pieces of `s` between occurrences of `sep`, as `str::split` gives.
pub fn split_on(s: &Vec<char>, sep: char) -> (r: Vec<Vec<char>>)
    ensures
        vviews(r@) == split_spec(s@, sep),
{
    let mut done: Vec<Vec<char>> = Vec::new();
    let mut cur: Vec<char> = Vec::new();
    let mut i: usize = 0;
    proof {
        assert(s@.take(0) =~= Seq::<char>::empty());
        assert(vviews(done@) =~= split_spec(s@.take(0), sep).drop_last());
    }
    while i < s.len()
        invariant
            i <= s.len(),
            split_spec(s@.take(i as int), sep).len() >= 1,
            vviews(done@) == split_spec(s@.take(i as int), sep).drop_last(),
            cur@ == split_spec(s@.take(i as int), sep).last(),
        decreases s.len() - i,
    {
        let ghost p = split_spec(s@.take(i as int), sep);
        let c = s[i];
        assert(s@.take(i + 1).drop_last() =~= s@.take(i as int));
        assert(s@.take(i + 1).last() == c);
        if c == sep {
            let ghost old_done = done@;
            let piece = cur;
            let ghost pv = piece@;
            done.push(piece);
            cur = Vec::new();
            proof {
                let p2 = split_spec(s@.take(i + 1), sep);
                assert(p2 == p.push(Seq::<char>::empty()));
                assert(p2.drop_last() =~= p);
                assert(p =~= p.drop_last().push(p.last()));
                assert(vviews(done@) =~= vviews(old_done).push(pv));
                assert(cur@ =~= p2.last());
            }
        } else {
            cur.push(c);
            proof {
                let p2 = split_spec(s@.take(i + 1), sep);
                assert(p2 == p.update(p.len() - 1, p.last().push(c)));
                assert(p2.drop_last() =~= p.drop_last());
                assert(cur@ =~= p2.last());
            }
        }
        i = i + 1;
    }
    assert(s@.take(i as int) =~= s@);
    let ghost old_done = done@;
    let ghost cv = cur@;
    done.push(cur);
    proof {
        let p = split_spec(s@, sep);
        assert(vviews(done@) =~= vviews(old_done).push(cv));
        assert(p =~= p.drop_last().push(p.last()));
    }
    done
}

/// Strings with the characters of `v[a..b]`.
pub fn strings_of(v: &Vec<Vec<char>>, a: usize, b: usize) -> (r: Vec<String>)
    requires
        a <= b <= v.len(),
    ensures
        views(r@) == vviews(v@).subrange(a as int, b as int),
{
    let mut r: Vec<String> = Vec::new();
    let mut i = a;
    while i < b
        invariant
            a <= i <= b <= v.len(),
            views(r@) == vviews(v@).subrange(a as int, i as int),
        decreases b - i,
    {
        let ghost before = r@;
        r.push(string_of(&v[i]));
        assert(views(r@) =~= views(before).push(v@[i as int]@));
        i = i + 1;
        assert(views(r@) =~= vviews(v@).subrange(a as int, i as int));
    }
    r
}

} // verus!
