//! Timestamps and message rows for the session store.
//!
//! Timestamps are UTC, written `YYYY-MM-DD HH:MM:SS`; the date is the civil
//! (proleptic Gregorian) date of the day count since 1970-01-01.
use crate::text::{chars_of, padded_dec_spec, push_padded, push_str, string_of};
use vstd::prelude::*;

verus! {

/// Gregorian leap year.
pub open spec fn is_leap_spec(y: int) -> bool {
    (y % 4 == 0 && y % 100 != 0) || y % 400 == 0
}

pub open spec fn year_len(y: int) -> int {
    if is_leap_spec(y) {
        366
    } else {
        365
    }
}

/// Days in month `m` (1 to 12) of year `y`.
pub open spec fn month_len(y: int, m: int) -> int {
    if m == 2 {
        if is_leap_spec(y) {
            29
        } else {
            28
        }
    } else if m == 4 || m == 6 || m == 9 || m == 11 {
        30
    } else {
        31
    }
}

/// Days of year `y` before the first of month `m`.
pub open spec fn days_before_month(y: int, m: int) -> int
    decreases m,
{
    if m <= 1 {
        0
    } else {
        days_before_month(y, m - 1) + month_len(y, m - 1)
    }
}

/// Days from 1970-01-01 to the first of January of year `y`.
pub open spec fn days_before_year(y: int) -> int
    decreases y - 1970,
{
    if y <= 1970 {
        0
    } else {
        days_before_year(y - 1) + year_len(y - 1)
    }
}

/// `y-m-d` is the civil date `days` days after 1970-01-01.
pub open spec fn is_civil_date(days: int, y: int, m: int, d: int) -> bool {
    &&& y >= 1970
    &&& 1 <= m <= 12
    &&& 1 <= d <= month_len(y, m)
    &&& days == days_before_year(y) + days_before_month(y, m) + d - 1
}

/// The civil date `days` days after 1970-01-01.
pub open spec fn civil_date(days: int) -> (int, int, int) {
    choose|t: (int, int, int)| is_civil_date(days, t.0, t.1, t.2)
}

/// `secs` seconds after 1970-01-01 00:00:00 UTC, as `YYYY-MM-DD HH:MM:SS`.
pub open spec fn timestamp_spec(secs: nat) -> Seq<char> {
    let date = civil_date((secs / 86400) as int);
    let t = secs % 86400;
    padded_dec_spec(date.0 as nat, 4) + "-"@ + padded_dec_spec(date.1 as nat, 2) + "-"@
        + padded_dec_spec(date.2 as nat, 2) + " "@ + padded_dec_spec(t / 3600, 2) + ":"@
        + padded_dec_spec((t % 3600) / 60, 2) + ":"@ + padded_dec_spec(t % 60, 2)
}

/// Whether `y` is a Gregorian leap year.
pub fn is_leap(y: i64) -> (b: bool)
    ensures
        b == is_leap_spec(y as int),
{
    (y % 4 == 0 && y % 100 != 0) || y % 400 == 0
}

proof fn lemma_year_months(y: int)
    ensures
        days_before_month(y, 13) == year_len(y),
        forall|m: int| 1 <= m <= 12 ==> #[trigger] month_len(y, m) >= 28,
{
    reveal_with_fuel(days_before_month, 13);
}

proof fn lemma_days_before_month_mono(y: int, a: int, b: int)
    requires
        1 <= a <= b,
    ensures
        days_before_month(y, a) + (b - a) * 28 <= days_before_month(y, b),
    decreases b - a,
{
    if a < b {
        lemma_days_before_month_mono(y, a, b - 1);
        assert(month_len(y, b - 1) >= 28);
    }
}

proof fn lemma_days_before_year_mono(a: int, b: int)
    requires
        1970 <= a <= b,
    ensures
        days_before_year(a) + (b - a) * 365 <= days_before_year(b),
    decreases b - a,
{
    if a < b {
        lemma_days_before_year_mono(a, b - 1);
    }
}

/// The civil date of a day count is unique.
pub proof fn lemma_civil_date_unique(days: int, y1: int, m1: int, d1: int, y2: int, m2: int, d2: int)
    requires
        is_civil_date(days, y1, m1, d1),
        is_civil_date(days, y2, m2, d2),
    ensures
        y1 == y2 && m1 == m2 && d1 == d2,
{
    lemma_within_year(y1, m1, d1);
    lemma_within_year(y2, m2, d2);
    lemma_days_before_month_mono(y1, 1, m1);
    lemma_days_before_month_mono(y2, 1, m2);
    if y1 < y2 {
        assert(days_before_year(y1 + 1) == days_before_year(y1) + year_len(y1));
        lemma_days_before_year_mono(y1 + 1, y2);
    }
    if y2 < y1 {
        assert(days_before_year(y2 + 1) == days_before_year(y2) + year_len(y2));
        lemma_days_before_year_mono(y2 + 1, y1);
    }
    assert(y1 == y2);
    if m1 < m2 {
        lemma_days_before_month_mono(y1, m1 + 1, m2);
    }
    if m2 < m1 {
        lemma_days_before_month_mono(y1, m2 + 1, m1);
    }
    assert(m1 == m2);
}

proof fn lemma_within_year(y: int, m: int, d: int)
    requires
        1 <= m <= 12,
        1 <= d <= month_len(y, m),
    ensures
        days_before_month(y, m) + d - 1 < year_len(y),
{
    lemma_year_months(y);
    lemma_days_before_month_mono(y, m + 1, 13);
}

/// The civil date (year, month, day) `days` days after 1970-01-01.
pub fn civil_from_days(days: u64) -> (r: (i64, i64, i64))
    requires
        days <= u64::MAX / 86400,
    ensures
        is_civil_date(days as int, r.0 as int, r.1 as int, r.2 as int),
        civil_date(days as int) == (r.0 as int, r.1 as int, r.2 as int),
{
    let mut y: i64 = 1970;
    let mut rem: i64 = days as i64;
    loop
        invariant
            y >= 1970,
            rem >= 0,
            days as int == days_before_year(y as int) + rem,
            days <= u64::MAX / 86400,
        ensures
            y >= 1970,
            0 <= rem < year_len(y as int),
            days as int == days_before_year(y as int) + rem,
        decreases rem,
    {
        let dy: i64 = if is_leap(y) {
            366
        } else {
            365
        };
        if rem < dy {
            break ;
        }
        proof {
            lemma_days_before_year_mono(1970, y as int);
            assert((y - 1970) * 365 <= days);
        }
        rem = rem - dy;
        y = y + 1;
    }
    let mut m: i64 = 1;
    proof {
        lemma_year_months(y as int);
    }
    loop
        invariant
            1 <= m <= 12,
            rem >= 0,
            days as int == days_before_year(y as int) + days_before_month(y as int, m as int)
                + rem,
            days_before_month(y as int, m as int) + rem < year_len(y as int),
            days_before_month(y as int, 13) == year_len(y as int),
        ensures
            1 <= m <= 12,
            0 <= rem < month_len(y as int, m as int),
            days as int == days_before_year(y as int) + days_before_month(y as int, m as int)
                + rem,
        decreases 12 - m,
    {
        let leap = is_leap(y);
        let ml: i64 = if m == 2 {
            if leap {
                29
            } else {
                28
            }
        } else if m == 4 || m == 6 || m == 9 || m == 11 {
            30
        } else {
            31
        };
        assert(ml == month_len(y as int, m as int));
        if rem < ml {
            break ;
        }
        proof {
            if m == 12 {
                assert(days_before_month(y as int, 13) == days_before_month(y as int, 12)
                    + month_len(y as int, 12));
            }
        }
        rem = rem - ml;
        m = m + 1;
    }
    let d = rem + 1;
    proof {
        let t = (y as int, m as int, d as int);
        assert(is_civil_date(days as int, t.0, t.1, t.2));
        let c = civil_date(days as int);
        lemma_civil_date_unique(days as int, c.0, c.1, c.2, t.0, t.1, t.2);
    }
    (y, m, d)
}

/// `secs` seconds after the epoch as `YYYY-MM-DD HH:MM:SS` (UTC).
pub fn format_timestamp(secs: u64) -> (s: String)
    ensures
        s@ == timestamp_spec(secs as nat),
{
    let days = secs / 86400;
    let t = secs % 86400;
    let (y, m, d) = civil_from_days(days);
    let mut out: Vec<char> = Vec::new();
    push_padded(&mut out, y as u64, 4);
    push_str(&mut out, "-");
    push_padded(&mut out, m as u64, 2);
    push_str(&mut out, "-");
    push_padded(&mut out, d as u64, 2);
    push_str(&mut out, " ");
    push_padded(&mut out, t / 3600, 2);
    push_str(&mut out, ":");
    push_padded(&mut out, (t % 3600) / 60, 2);
    push_str(&mut out, ":");
    push_padded(&mut out, t % 60, 2);
    proof {
        assert(out@ =~= timestamp_spec(secs as nat));
    }
    string_of(&out)
}

/// Seconds since 1970-01-01 00:00:00 UTC, by `SystemTime::now()`
/// (`duration_since(UNIX_EPOCH)`, 0 for a clock set before the epoch,
/// whole seconds). Nothing is claimed of the value: it is the clock's.
#[verifier::external_body]
fn unix_seconds() -> u64 {
    std::time::SystemTime::now().duration_since(std::time::UNIX_EPOCH).unwrap_or_default().as_secs()
}

/// The current time as `YYYY-MM-DD HH:MM:SS` (UTC).
pub fn iso_now() -> (s: String)
    ensures
        exists|secs: nat| s@ == timestamp_spec(secs),
{
    let secs = unix_seconds();
    format_timestamp(secs)
}

/// Mathematical value of a stored message row.
pub struct RowView {
    pub role: Seq<char>,
    pub content: Seq<char>,
    pub step: i32,
}

/// One message row: role, JSON text of the content, and position (from 1).
pub struct MessageRow {
    pub role: String,
    pub content: String,
    pub step: i32,
}

impl View for MessageRow {
    type V = RowView;

    open spec fn view(&self) -> RowView {
        RowView { role: self.role@, content: self.content@, step: self.step }
    }
}

/// A message to store: its role, if it has a textual one, and the JSON text
/// of its content.
pub struct OutgoingMessage {
    pub role: Option<String>,
    pub content: String,
}

/// The row for message `i` of a conversation: the role, or `unknown`, the
/// content, and step `i + 1`.
pub open spec fn row_of(m: OutgoingMessage, i: int) -> RowView {
    RowView {
        role: match m.role {
            Some(r) => r@,
            None => "unknown"@,
        },
        content: m.content@,
        step: (i + 1) as i32,
    }
}

/// The rows that store `messages`, in order, numbered from 1.
pub fn message_rows(messages: &Vec<OutgoingMessage>) -> (rows: Vec<MessageRow>)
    requires
        messages.len() < i32::MAX,
    ensures
        rows.len() == messages.len(),
        forall|i: int| 0 <= i < rows.len() ==> #[trigger] rows@[i]@ == row_of(messages@[i], i),
{
    let mut rows: Vec<MessageRow> = Vec::new();
    let mut i: usize = 0;
    while i < messages.len()
        invariant
            i <= messages.len() < i32::MAX,
            rows.len() == i,
            forall|j: int| 0 <= j < i ==> #[trigger] rows@[j]@ == row_of(messages@[j], j),
        decreases messages.len() - i,
    {
        let m = &messages[i];
        let role = match &m.role {
            Some(r) => r.clone(),
            None => string_of(&chars_of("unknown")),
        };
        let step: i32 = (i as i32) + 1;
        rows.push(MessageRow { role, content: m.content.clone(), step });
        i = i + 1;
    }
    rows
}

/// A lower-case hexadecimal digit.
pub open spec fn is_lower_hex(c: char) -> bool {
    ('0' <= c && c <= '9') || ('a' <= c && c <= 'f')
}

/// The text of a random (version 4) UUID in hyphenated lower-case form:
/// 36 characters, hyphens at positions 8, 13, 18 and 23, lower-case hex
/// digits elsewhere, the version digit `4` at position 14 and one of
/// `8`, `9`, `a`, `b` (the variant) at position 19.
pub open spec fn is_uuid_v4_text(s: Seq<char>) -> bool {
    &&& s.len() == 36
    &&& forall|i: int|
        0 <= i < 36 ==> if i == 8 || i == 13 || i == 18 || i == 23 {
            #[trigger] s[i] == '-'
        } else {
            is_lower_hex(s[i])
        }
    &&& s[14] == '4'
    &&& (s[19] == '8' || s[19] == '9' || s[19] == 'a' || s[19] == 'b')
}

/// A fresh session id: `uuid::Uuid::new_v4()` written by `to_string`. The
/// contract claims the shape of the text (the hyphenated lower-case form of
/// a version 4 UUID); the other digits are random and nothing is claimed of
/// them.
#[verifier::external_body]
pub(crate) fn new_session_id() -> (id: String)
    ensures
        is_uuid_v4_text(id@),
{
    uuid::Uuid::new_v4().to_string()
}

/// A new row of the sessions table.
pub struct SessionRow {
    pub id: String,
    pub title: String,
    pub workspace: String,
    pub created_at: String,
    pub updated_at: String,
}

/// The row for a new session titled `title` in `workspace`: a fresh id, and
/// the current time as both creation and update time.
pub fn new_session_row(title: &str, workspace: String) -> (r: SessionRow)
    ensures
        is_uuid_v4_text(r.id@),
        r.title@ == title@,
        r.workspace@ == workspace@,
        r.created_at@ == r.updated_at@,
        exists|secs: nat| r.created_at@ == timestamp_spec(secs),
{
    let id = new_session_id();
    let now = iso_now();
    SessionRow {
        id,
        title: string_of(&chars_of(title)),
        workspace,
        created_at: now.clone(),
        updated_at: now,
    }
}

/// Calendar law: the months have their Gregorian lengths (30 days for
/// April, June, September and November, 28 or in leap years 29 for
/// February, 31 for the others), the days before each month follow the
/// Gregorian table, a year has 365 or 366 days, and leap years are those
/// divisible by 4 but not by 100, or by 400.
pub proof fn lemma_gregorian_calendar(y: int, m: int)
    requires
        1 <= m <= 12,
    ensures
        ({
            let leap = (y % 4 == 0 && y % 100 != 0) || y % 400 == 0;
            &&& is_leap_spec(y) == leap
            &&& month_len(y, m) == if m == 2 {
                if leap {
                    29int
                } else {
                    28int
                }
            } else {
                30 + (m + m / 8) % 2
            }
            &&& days_before_month(y, m) == seq![0int, 31, 59, 90, 120, 151, 181, 212, 243, 273, 304, 334][m
                - 1] + if m > 2 && leap {
                1int
            } else {
                0int
            }
            &&& days_before_month(y, 13) == if leap {
                366int
            } else {
                365int
            }
            &&& year_len(y) == days_before_month(y, 13)
        }),
{
    reveal_with_fuel(days_before_month, 13);
    assert(m == 1 || m == 2 || m == 3 || m == 4 || m == 5 || m == 6 || m == 7 || m == 8 || m == 9
        || m == 10 || m == 11 || m == 12);
}

/// Year law: each year after 1970 starts 365 days (366 after a leap year)
/// after the one before.
pub proof fn lemma_year_starts(y: int)
    requires
        y >= 1970,
    ensures
        days_before_year(y + 1) == days_before_year(y) + if (y % 4 == 0 && y % 100 != 0) || y % 400
            == 0 {
            366int
        } else {
            365int
        },
        days_before_year(1970) == 0,
{
}

} // verus!
