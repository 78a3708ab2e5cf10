//! Stored timestamps and how they are shown. A timestamp is stored as UTC
//! text in one of five accepted forms; it is shown in the machine's local
//! time zone, or, where it cannot be read, as cleaned-up text.
use chrono::Datelike;
use chrono::TimeZone;
use vstd::prelude::*;

use crate::text::{chars_of, new_string, push_char, string_from_chars, take_n, trim, trimmed};

verus! {

/// Seconds since the Unix epoch of an RFC 3339 timestamp, as
/// `chrono::DateTime::parse_from_rfc3339` reads it.
pub uninterp spec fn rfc3339_seconds(raw: Seq<char>) -> Option<int>;

/// Seconds since the Unix epoch of `raw` read with the `strftime` pattern
/// `fmt` as a UTC wall-clock time, as `chrono::NaiveDateTime::parse_from_str`
/// reads it.
pub uninterp spec fn naive_seconds(raw: Seq<char>, fmt: Seq<char>) -> Option<int>;

/// `chrono::DateTime::parse_from_rfc3339`, converted to a Unix timestamp.
#[verifier::external_body]
fn parse_rfc3339(raw: &str) -> (r: Option<i64>)
    ensures
        match r {
            Some(t) => rfc3339_seconds(raw@) == Some(t as int),
            None => rfc3339_seconds(raw@) is None,
        },
{
    chrono::DateTime::parse_from_rfc3339(raw).ok().map(|dt| dt.timestamp())
}

/// `chrono::NaiveDateTime::parse_from_str`, the result read as UTC and
/// converted to a Unix timestamp.
#[verifier::external_body]
fn parse_naive(raw: &str, fmt: &str) -> (r: Option<i64>)
    ensures
        match r {
            Some(t) => naive_seconds(raw@, fmt@) == Some(t as int),
            None => naive_seconds(raw@, fmt@) is None,
        },
{
    chrono::NaiveDateTime::parse_from_str(raw, fmt).ok().map(|n| n.and_utc().timestamp())
}

/// A pattern whose every `%` is followed by one of `Y m d H M S`: chrono
/// formats it without failing (an invalid pattern makes `to_string` panic),
/// and its text holds no time zone, no timestamp and no fraction of a
/// second.
pub open spec fn plain_from(f: Seq<char>, i: int) -> bool
    decreases f.len() - i,
{
    if i < 0 || i >= f.len() {
        true
    } else if f[i] == '%' {
        if i + 1 < f.len() {
            let c = f[i + 1];
            (c == 'Y' || c == 'm' || c == 'd' || c == 'H' || c == 'M' || c == 'S') && plain_from(f, i + 2)
        } else {
            false
        }
    } else {
        plain_from(f, i + 1)
    }
}

pub open spec fn plain_fmt(f: Seq<char>) -> bool {
    plain_from(f, 0)
}

/// Timestamps well inside the range `chrono` can hold (some 250 000 years
/// either side of 1970).
pub open spec fn in_time_range(ts: int) -> bool {
    -8_000_000_000_000 < ts < 8_000_000_000_000
}

/// `s` is the text of the instant `ts` as a clock in some time zone shows
/// it with the plain pattern `fmt`: the UTC text of `ts` moved by the zone's
/// offset, which is less than a day.
pub open spec fn local_text(ts: int, fmt: Seq<char>, s: Seq<char>) -> bool {
    exists|off: int| -86400 < off < 86400 && #[trigger] utc_text(ts + off, fmt) == Some(s)
}

/// A Unix timestamp formatted with the `strftime` pattern `fmt` in the
/// machine's local time zone (`chrono::Local`). The zone's offset is not
/// known here; what holds for every zone (offsets are under a day, and a
/// plain pattern shows the wall-clock time) is stated. `None` only where
/// the timestamp is outside chrono's range.
#[verifier::external_body]
fn local_format(ts: i64, fmt: &str) -> (r: Option<String>)
    requires
        plain_fmt(fmt@),
    ensures
        in_time_range(ts as int) ==> r is Some,
        in_time_range(ts as int) ==> match r {
            Some(s) => local_text(ts as int, fmt@, s@),
            None => false,
        },
{
    chrono::DateTime::from_timestamp(ts, 0).map(
        |dt| dt.with_timezone(&chrono::Local).format(fmt).to_string(),
    )
}

/// The local calendar date (year, month, day) of a Unix timestamp in the
/// machine's time zone; it depends on the zone, and is there for any
/// timestamp in range.
#[verifier::external_body]
fn local_date(ts: i64) -> (r: Option<(i32, u32, u32)>)
    ensures
        in_time_range(ts as int) ==> r is Some,
{
    chrono::DateTime::from_timestamp(ts, 0).map(
        |dt| {
            let d = dt.with_timezone(&chrono::Local).date_naive();
            (d.year(), d.month(), d.day())
        },
    )
}

/// Today's local calendar date (year, month, day) from the clock
/// (`chrono::Local::now`); nothing is stated of it.
#[verifier::external_body]
fn local_today() -> (i32, u32, u32) {
    let d = chrono::Local::now().date_naive();
    (d.year(), d.month(), d.day())
}

/// `s.trim_end_matches(c)`.
pub open spec fn trim_end_char(s: Seq<char>, c: char) -> Seq<char>
    decreases s.len(),
{
    if s.len() > 0 && s.last() == c {
        trim_end_char(s.drop_last(), c)
    } else {
        s
    }
}

/// The accepted stored forms, tried in this order after an RFC 3339 read.
pub open spec fn stored_fmt(i: int) -> Seq<char> {
    if i == 0 {
        "%Y-%m-%dT%H:%M:%S"@
    } else if i == 1 {
        "%Y-%m-%dT%H:%M"@
    } else if i == 2 {
        "%Y-%m-%d %H:%M:%S"@
    } else {
        "%Y-%m-%d %H:%M"@
    }
}

/// The instant a stored timestamp denotes.
pub open spec fn stored_utc_seconds(raw: Seq<char>) -> Option<int> {
    match rfc3339_seconds(raw) {
        Some(t) => Some(t),
        None => {
            let t = trim_end_char(raw, 'Z');
            if naive_seconds(t, stored_fmt(0)) is Some {
                naive_seconds(t, stored_fmt(0))
            } else if naive_seconds(t, stored_fmt(1)) is Some {
                naive_seconds(t, stored_fmt(1))
            } else if naive_seconds(t, stored_fmt(2)) is Some {
                naive_seconds(t, stored_fmt(2))
            } else {
                naive_seconds(t, stored_fmt(3))
            }
        },
    }
}

pub fn trim_end_char_vec(v: &Vec<char>, c: char) -> (r: Vec<char>)
    ensures
        r@ == trim_end_char(v@, c),
{
    let mut j: usize = v.len();
    assert(v@.take(v@.len() as int) =~= v@);
    while j > 0 && v[j - 1] == c
        invariant
            j <= v.len(),
            trim_end_char(v@, c) == trim_end_char(v@.take(j as int), c),
        decreases j,
    {
        assert(v@.take(j as int).drop_last() =~= v@.take(j - 1));
        j = j - 1;
    }
    let mut r: Vec<char> = Vec::new();
    let mut i: usize = 0;
    while i < j
        invariant
            i <= j <= v.len(),
            r@ == v@.take(i as int),
        decreases j - i,
    {
        r.push(v[i]);
        i = i + 1;
        assert(r@ =~= v@.take(i as int));
    }
    r
}

/// Reads a stored timestamp in any of the accepted forms.
pub fn parse_stored_utc(raw: &str) -> (r: Option<i64>)
    ensures
        match r {
            Some(t) => stored_utc_seconds(raw@) == Some(t as int),
            None => stored_utc_seconds(raw@) is None,
        },
{
    if let Some(t) = parse_rfc3339(raw) {
        return Some(t);
    }
    let v = chars_of(raw);
    let t = string_from_chars(&trim_end_char_vec(&v, 'Z'));
    if let Some(x) = parse_naive(t.as_str(), "%Y-%m-%dT%H:%M:%S") {
        return Some(x);
    }
    if let Some(x) = parse_naive(t.as_str(), "%Y-%m-%dT%H:%M") {
        return Some(x);
    }
    if let Some(x) = parse_naive(t.as_str(), "%Y-%m-%d %H:%M:%S") {
        return Some(x);
    }
    parse_naive(t.as_str(), "%Y-%m-%d %H:%M")
}

pub open spec fn replace_t(s: Seq<char>) -> Seq<char> {
    s.map_values(|c: char| if c == 'T' { ' ' } else { c })
}

/// How an unreadable timestamp is shown: trailing `Z`s removed, `T` read as
/// a space, at most 16 characters.
pub open spec fn display_fallback(raw: Seq<char>) -> Seq<char> {
    take_n(replace_t(trim_end_char(raw, 'Z')), 16)
}

fn fallback_text(raw: &Vec<char>) -> (r: String)
    ensures
        r@ == display_fallback(raw@),
{
    let t = trim_end_char_vec(raw, 'Z');
    let mut out = new_string();
    let mut i: usize = 0;
    let n: usize = if t.len() < 16 {
        t.len()
    } else {
        16
    };
    while i < n
        invariant
            n <= t.len(),
            n == take_n(replace_t(t@), 16).len(),
            0 <= i <= n,
            out@ == replace_t(t@).take(i as int),
        decreases n - i,
    {
        let c = t[i];
        push_char(&mut out, if c == 'T' { ' ' } else { c });
        i = i + 1;
        assert(out@ =~= replace_t(t@).take(i as int));
    }
    assert(out@ =~= take_n(replace_t(t@), 16));
    out
}

/// What `format_local` states of its text for `stored`: empty when it is
/// blank; the fallback text when it cannot be read; where it reads as an
/// instant in range, that instant as a clock shows it (`%Y-%m-%d %H:%M`).
pub open spec fn local_display(stored: Seq<char>, shown: Seq<char>) -> bool {
    &&& trim(stored).len() == 0 ==> shown == Seq::<char>::empty()
    &&& trim(stored).len() > 0 && stored_utc_seconds(trim(stored)) is None ==> shown
        == display_fallback(trim(stored))
    &&& trim(stored).len() > 0 ==> match stored_utc_seconds(trim(stored)) {
        Some(ts) => in_time_range(ts) ==> local_text(ts, "%Y-%m-%d %H:%M"@, shown),
        None => true,
    }
}

/// A stored timestamp for display: empty when blank; the local time when it
/// can be read; otherwise the fallback text. Where it is read, the text
/// depends on the machine's time zone and only the other two cases are
/// stated.
pub fn format_local(stored: &str) -> (r: String)
    ensures
        local_display(stored@, r@),
{
    let raw = trimmed(stored);
    if raw.len() == 0 {
        return new_string();
    }
    let raw_s = string_from_chars(&raw);
    proof {
        lemma_plain_formats();
    }
    match parse_stored_utc(raw_s.as_str()) {
        Some(ts) => match local_format(ts, "%Y-%m-%d %H:%M") {
            Some(s) => s,
            None => fallback_text(&raw),
        },
        None => fallback_text(&raw),
    }
}


pub open spec fn is_leap(y: int) -> bool {
    (y % 4 == 0 && y % 100 != 0) || y % 400 == 0
}

pub open spec fn days_in_month(y: int, m: int) -> int {
    if m == 2 {
        if is_leap(y) {
            29
        } else {
            28
        }
    } else if m == 4 || m == 6 || m == 9 || m == 11 {
        30
    } else {
        31
    }
}

/// The calendar day before a (proleptic Gregorian) date.
pub open spec fn previous_day(d: (int, int, int)) -> (int, int, int) {
    let (y, m, day) = d;
    if day > 1 {
        (y, m, day - 1)
    } else if m > 1 {
        (y, m - 1, days_in_month(y, m - 1))
    } else {
        (y - 1, 12, 31)
    }
}

/// The lengths of the twelve months of year `y`, January first: February
/// has 29 days in a year divisible by 4 but not by 100, or by 400.
pub open spec fn calendar_month_lengths(y: int) -> Seq<int> {
    let feb = if (y % 4 == 0 && y % 100 != 0) || y % 400 == 0 { 29int } else { 28int };
    seq![31int, feb, 31int, 30int, 31int, 30int, 31int, 31int, 30int, 31int, 30int, 31int]
}

/// A real calendar date: a month from 1 to 12 and a day within its length.
pub open spec fn calendar_date(d: (int, int, int)) -> bool {
    1 <= d.1 <= 12 && 1 <= d.2 <= calendar_month_lengths(d.0)[d.1 - 1]
}

/// The calendar day after a date.
pub open spec fn calendar_next_day(d: (int, int, int)) -> (int, int, int) {
    if d.2 < calendar_month_lengths(d.0)[d.1 - 1] {
        (d.0, d.1, d.2 + 1)
    } else if d.1 < 12 {
        (d.0, d.1 + 1, 1)
    } else {
        (d.0 + 1, 1, 1)
    }
}

/// The day before a date is its calendar predecessor: a real date whose
/// next day is the date itself.
pub proof fn law_previous_day_is_predecessor(d: (int, int, int))
    requires
        calendar_date(d),
    ensures
        calendar_date(previous_day(d)),
        calendar_next_day(previous_day(d)) == d,
{
    let (y, m, day) = d;
    let cur = calendar_month_lengths(y);
    let prev = calendar_month_lengths(y - 1);
    assert(cur[0] == 31 && cur[2] == 31 && cur[3] == 30 && cur[4] == 31 && cur[5] == 30);
    assert(cur[6] == 31 && cur[7] == 31 && cur[8] == 30 && cur[9] == 31 && cur[10] == 30);
    assert(cur[11] == 31 && prev[11] == 31);
    assert(cur[1] == if is_leap(y) { 29int } else { 28int });
}

/// The first of a month from February on is preceded by the last day of the
/// month before: the 1st of May, July, October and December by the 30th of
/// April, June, September and November.
pub proof fn law_previous_day_month_start(y: int, m: int)
    requires
        2 <= m <= 12,
    ensures
        previous_day((y, m, 1)) == (y, m - 1, calendar_month_lengths(y)[m - 2]),
{
    let cur = calendar_month_lengths(y);
    assert(cur[0] == 31 && cur[2] == 31 && cur[3] == 30 && cur[4] == 31 && cur[5] == 30);
    assert(cur[6] == 31 && cur[7] == 31 && cur[8] == 30 && cur[9] == 31 && cur[10] == 30);
    assert(cur[1] == if is_leap(y) { 29int } else { 28int });
}

#[verifier::spinoff_prover]
#[verifier::rlimit(40)]
fn previous_day_exec(y: i32, m: u32, d: u32) -> (r: (i32, u32, u32))
    requires
        y > i32::MIN,
        1 <= m <= 12,
    ensures
        (r.0 as int, r.1 as int, r.2 as int) == previous_day((y as int, m as int, d as int)),
{
    if d > 1 {
        (y, m, d - 1)
    } else if m > 1 {
        let pm = m - 1;
        let leap = (y % 4 == 0 && y % 100 != 0) || y % 400 == 0;
        let days: u32 = if pm == 2 {
            if leap {
                29
            } else {
                28
            }
        } else if pm == 4 || pm == 6 || pm == 9 || pm == 11 {
            30
        } else {
            31
        };
        (y, pm, days)
    } else {
        (y - 1, 12, 31)
    }
}

/// How the catalog shows a change: `今天 HH:MM` today, `昨天 HH:MM`
/// yesterday, month and day with the time this year, the full date and time
/// otherwise. `hm`, `md_hm` and `full` are the local time in those three
/// forms.
pub open spec fn kb_time_label_of(
    date: (int, int, int),
    today: (int, int, int),
    hm: Seq<char>,
    md_hm: Seq<char>,
    full: Seq<char>,
) -> Seq<char> {
    if date == today {
        "今天 "@ + hm
    } else if date == previous_day(today) {
        "昨天 "@ + hm
    } else if date.0 == today.0 {
        md_hm
    } else {
        full
    }
}

pub fn kb_time_label(
    date: (i32, u32, u32),
    today: (i32, u32, u32),
    hm: &str,
    md_hm: &str,
    full: &str,
) -> (r: String)
    requires
        today.0 > i32::MIN,
        1 <= today.1 <= 12,
    ensures
        r@ == kb_time_label_of(
            (date.0 as int, date.1 as int, date.2 as int),
            (today.0 as int, today.1 as int, today.2 as int),
            hm@,
            md_hm@,
            full@,
        ),
{
    let yesterday = previous_day_exec(today.0, today.1, today.2);
    if date.0 == today.0 && date.1 == today.1 && date.2 == today.2 {
        let mut s = crate::text::string_of("今天 ");
        crate::text::push_str(&mut s, hm);
        s
    } else if date.0 == yesterday.0 && date.1 == yesterday.1 && date.2 == yesterday.2 {
        let mut s = crate::text::string_of("昨天 ");
        crate::text::push_str(&mut s, hm);
        s
    } else if date.0 == today.0 {
        crate::text::string_of(md_hm)
    } else {
        crate::text::string_of(full)
    }
}

/// The label of an instant `ts` in one of the catalog's four forms, from
/// its local time as a clock shows it: `今天 HH:MM`, `昨天 HH:MM`,
/// `MM-DD HH:MM` or `YYYY-MM-DD HH:MM`.
pub open spec fn kb_label_form(ts: int, label: Seq<char>) -> bool {
    exists|hm: Seq<char>, md: Seq<char>, full: Seq<char>|
        #![trigger local_text(ts, "%H:%M"@, hm), local_text(ts, "%m-%d %H:%M"@, md), local_text(ts, "%Y-%m-%d %H:%M"@, full)]
        local_text(ts, "%H:%M"@, hm) && local_text(ts, "%m-%d %H:%M"@, md) && local_text(
            ts,
            "%Y-%m-%d %H:%M"@,
            full,
        ) && (label == "今天 "@ + hm || label == "昨天 "@ + hm || label == md || label == full)
}

/// What is known of the label `format_kb_time` gives `iso`: the fallback
/// text where the timestamp cannot be read; one of the four forms of its
/// local time where it reads as an instant in range (which form depends on
/// the clock).
pub open spec fn kb_time_shown(iso: Seq<char>, label: Seq<char>) -> bool {
    &&& stored_utc_seconds(iso) is None && trim(iso).len() > 0 && stored_utc_seconds(trim(iso))
        is None ==> label == display_fallback(trim(iso))
    &&& match stored_utc_seconds(iso) {
        Some(ts) => in_time_range(ts) ==> kb_label_form(ts, label),
        None => true,
    }
}

/// A node's last change as the catalog shows it (see `kb_time_label`), or
/// as `format_local` shows it where it cannot be read. The result depends
/// on the clock and the machine's time zone; only the unreadable case is
/// stated.
pub fn format_kb_time(iso: &str) -> (r: String)
    ensures
        kb_time_shown(iso@, r@),
{
    proof {
        lemma_plain_formats();
    }
    match parse_stored_utc(iso) {
        None => format_local(iso),
        Some(ts) => {
            let date = local_date(ts);
            let hm = local_format(ts, "%H:%M");
            let md = local_format(ts, "%m-%d %H:%M");
            let full = local_format(ts, "%Y-%m-%d %H:%M");
            let today = local_today();
            match (date, hm, md, full) {
                (Some(date), Some(hm), Some(md), Some(full)) => {
                    let r = if today.0 > i32::MIN && 1 <= today.1 && today.1 <= 12 {
                        kb_time_label(date, today, hm.as_str(), md.as_str(), full.as_str())
                    } else {
                        string_from_chars(&chars_of(full.as_str()))
                    };
                    proof {
                        if in_time_range(ts as int) {
                            assert(local_text(ts as int, "%H:%M"@, hm@));
                            assert(local_text(ts as int, "%m-%d %H:%M"@, md@));
                            assert(local_text(ts as int, "%Y-%m-%d %H:%M"@, full@));
                        }
                    }
                    r
                },
                _ => format_local(iso),
            }
        },
    }
}


// ---------------------------------------------------------------------------
// The publication-time input of the editors
// ---------------------------------------------------------------------------

/// The form of a local time in a `datetime-local` input.
pub const LOCAL_FMT: &'static str = "%Y-%m-%dT%H:%M";

/// The form a UTC time is stored in.
pub const UTC_FMT: &'static str = "%Y-%m-%dT%H:%M:%SZ";

/// The current time formatted with `fmt` in the machine's local time zone
/// (`chrono::Local::now`). It depends on the clock; with a plain pattern it
/// is the text of some instant.
#[verifier::external_body]
fn local_now_text(fmt: &str) -> (r: String)
    requires
        plain_fmt(fmt@),
    ensures
        exists|t: int| #[trigger] utc_text(t, fmt@) == Some(r@),
{
    chrono::Local::now().format(fmt).to_string()
}

/// The current UTC time formatted with `fmt` (`chrono::Utc::now`). It
/// depends on the clock; with a plain pattern it is the text of some
/// instant.
#[verifier::external_body]
fn utc_now_text(fmt: &str) -> (r: String)
    requires
        plain_fmt(fmt@),
    ensures
        exists|t: int| #[trigger] utc_text(t, fmt@) == Some(r@),
{
    chrono::Utc::now().format(fmt).to_string()
}

/// The UTC instant of a wall-clock time (given as seconds since the epoch
/// read as UTC) in the machine's local time zone, where that time exists
/// once there (`chrono::Local::from_local_datetime(..).single()`). It
/// depends on the time zone; the zone's offset is under a day.
#[verifier::external_body]
fn local_wall_to_utc(wall: i64) -> (r: Option<i64>)
    ensures
        r matches Some(u) ==> wall - 86400 < u < wall + 86400,
{
    let naive = chrono::DateTime::from_timestamp(wall, 0)?.naive_utc();
    chrono::Local.from_local_datetime(&naive).single().map(|dt| dt.timestamp())
}

/// The text `chrono` writes for a Unix timestamp with the pattern `fmt`,
/// in UTC; none outside chrono's range.
pub uninterp spec fn utc_text(ts: int, fmt: Seq<char>) -> Option<Seq<char>>;

/// `chrono::DateTime::<Utc>::from_timestamp(ts, 0)` formatted with `fmt`.
#[verifier::external_body]
fn format_utc(ts: i64, fmt: &str) -> (r: Option<String>)
    requires
        plain_fmt(fmt@),
    ensures
        match r {
            Some(t) => utc_text(ts as int, fmt@) == Some(t@),
            None => utc_text(ts as int, fmt@) is None,
        },
{
    chrono::DateTime::from_timestamp(ts, 0).map(|dt| dt.format(fmt).to_string())
}

/// The current time as it is stored: UTC, `%Y-%m-%dT%H:%M:%SZ`. It depends
/// on the clock; it is the stored text of some instant.
pub fn now_stored() -> (r: String)
    ensures
        exists|t: int| #[trigger] utc_text(t, UTC_FMT@) == Some(r@),
{
    proof {
        lemma_plain_formats();
    }
    utc_now_text(UTC_FMT)
}

/// Now, in the form a `datetime-local` input shows. It depends on the clock
/// and the time zone; it is the input text of some instant.
pub fn now_local_input() -> (r: String)
    ensures
        exists|t: int| #[trigger] utc_text(t, LOCAL_FMT@) == Some(r@),
{
    proof {
        lemma_plain_formats();
    }
    local_now_text(LOCAL_FMT)
}

/// A stored time that reads as an instant beyond `in_time_range`.
pub open spec fn far_stored(stored: Option<&str>) -> bool {
    match stored {
        Some(raw) => trim(raw@).len() > 0 && match stored_utc_seconds(trim(raw@)) {
            Some(ts) => !in_time_range(ts),
            None => false,
        },
        None => false,
    }
}

/// A stored time in the form a `datetime-local` input shows, in local
/// time; now where there is none or it cannot be read. The text depends on
/// the clock and the time zone: it is the input text of some instant
/// (unless the stored time reads as one far outside `in_time_range`), and
/// where the stored time reads as an instant in range, the input text of
/// that instant as a clock shows it.
pub fn to_local_input(stored: Option<&str>) -> (r: String)
    ensures
        !far_stored(stored) ==> exists|t: int| #[trigger] utc_text(t, LOCAL_FMT@) == Some(r@),
        match stored {
            Some(raw) => trim(raw@).len() > 0 ==> match stored_utc_seconds(trim(raw@)) {
                Some(ts) => in_time_range(ts) ==> local_text(ts, LOCAL_FMT@, r@),
                None => true,
            },
            None => true,
        },
{
    proof {
        lemma_plain_formats();
    }
    match stored {
        None => now_local_input(),
        Some(raw) => {
            let t = crate::text::trim_string(raw);
            if chars_of(t.as_str()).len() == 0 {
                return now_local_input();
            }
            match parse_stored_utc(t.as_str()) {
                Some(ts) => match local_format(ts, LOCAL_FMT) {
                    Some(s) => {
                        proof {
                            if in_time_range(ts as int) {
                                let off = choose|off: int|
                                    -86400 < off < 86400 && #[trigger] utc_text(ts + off, LOCAL_FMT@)
                                        == Some(s@);
                                assert(utc_text(ts + off, LOCAL_FMT@) == Some(s@));
                            }
                        }
                        s
                    },
                    None => now_local_input(),
                },
                None => now_local_input(),
            }
        },
    }
}

/// The wall-clock time an editor typed, in either accepted input form.
pub open spec fn typed_wall_time(raw: Seq<char>) -> Option<int> {
    let s = trim(raw);
    if naive_seconds(s, "%Y-%m-%dT%H:%M"@) is Some {
        naive_seconds(s, "%Y-%m-%dT%H:%M"@)
    } else {
        naive_seconds(s, "%Y-%m-%dT%H:%M:%S"@)
    }
}

proof fn lemma_plain_formats()
    ensures
        plain_fmt(LOCAL_FMT@),
        plain_fmt(UTC_FMT@),
        plain_fmt("%Y-%m-%d %H:%M"@),
        plain_fmt("%H:%M"@),
        plain_fmt("%m-%d %H:%M"@),
{
    reveal_strlit("%H:%M");
    reveal_strlit("%m-%d %H:%M");
    reveal_strlit("%Y-%m-%dT%H:%M");
    reveal_strlit("%Y-%m-%dT%H:%M:%SZ");
    reveal_strlit("%Y-%m-%d %H:%M");
    reveal_with_fuel(plain_from, 20);
}

/// The UTC text of the local time an editor typed. None where the input
/// is blank or in neither accepted form; where it reads, the stored text of
/// the instant the typed wall-clock time denotes in the machine's time zone
/// (within a day of it, the zone's offset), or none where that time does
/// not exist once there.
pub fn parse_local_input(raw: &str) -> (r: Option<String>)
    ensures
        trim(raw@).len() == 0 ==> r is None,
        trim(raw@).len() > 0 && typed_wall_time(raw@) is None ==> r is None,
        match r {
            Some(s) => match typed_wall_time(raw@) {
                Some(w) => exists|u: int|
                    w - 86400 < u < w + 86400 && #[trigger] utc_text(u, UTC_FMT@) == Some(s@),
                None => false,
            },
            None => true,
        },
{
    let s = crate::text::trim_string(raw);
    if chars_of(s.as_str()).len() == 0 {
        return None;
    }
    let wall = match parse_naive(s.as_str(), "%Y-%m-%dT%H:%M") {
        Some(w) => w,
        None => match parse_naive(s.as_str(), "%Y-%m-%dT%H:%M:%S") {
            Some(w) => w,
            None => {
                return None;
            },
        },
    };
    assert(typed_wall_time(raw@) == Some(wall as int));
    proof {
        lemma_plain_formats();
    }
    match local_wall_to_utc(wall) {
        Some(utc) => {
            let r = format_utc(utc, UTC_FMT);
            proof {
                if r is Some {
                    assert(utc_text(utc as int, UTC_FMT@) == Some(r->0@));
                }
            }
            r
        },
        None => None,
    }
}

/// The publication time to store for what an editor typed: its UTC text
/// (`parse_local_input`), or now where it cannot be read. Either way it is
/// the stored text of some instant; which one depends on the clock and the
/// time zone.
pub fn resolve_published_input(raw: &str) -> (r: String)
    ensures
        exists|t: int| #[trigger] utc_text(t, UTC_FMT@) == Some(r@),
{
    proof {
        lemma_plain_formats();
    }
    match parse_local_input(raw) {
        Some(s) => {
            proof {
                let w = typed_wall_time(raw@)->0;
                let u = choose|u: int| w - 86400 < u < w + 86400 && #[trigger] utc_text(u, UTC_FMT@) == Some(s@);
                assert(utc_text(u, UTC_FMT@) == Some(s@));
            }
            s
        },
        None => utc_now_text(UTC_FMT),
    }
}

/// Whether the typed input is shown back as typed: it is not blank, has a
/// `T` or at least 16 bytes, and reads in one of the two input forms.
pub open spec fn keeps_typed_input(raw: Seq<char>) -> bool {
    let t = trim(raw);
    &&& t.len() > 0
    &&& (t.contains('T') || crate::text::utf8_len(t) >= 16)
    &&& typed_wall_time(raw) is Some
}

/// What the publication-time input shows after a failed save: the first
/// 16 characters of what was typed where `keeps_typed_input` holds, else
/// the stored time in input form (`to_local_input`, which depends on the
/// time zone).
pub fn form_local_or(stored_utc: &str, raw_input: &str) -> (r: String)
    ensures
        keeps_typed_input(raw_input@) ==> r@ == take_n(trim(raw_input@), 16),
        !keeps_typed_input(raw_input@) ==> {
            &&& !far_stored(Some(stored_utc)) ==> exists|t: int| #[trigger] utc_text(t, LOCAL_FMT@) == Some(r@)
            &&& trim(stored_utc@).len() > 0 ==> match stored_utc_seconds(trim(stored_utc@)) {
                Some(ts) => in_time_range(ts) ==> local_text(ts, LOCAL_FMT@, r@),
                None => true,
            }
        },
{
    let t = trimmed(raw_input);
    let ts = string_from_chars(&t);
    if t.len() > 0 && (crate::text::contains_char(&t, 'T') || crate::text::utf8_len_of(&t) >= 16) {
        let ok = parse_naive(ts.as_str(), "%Y-%m-%dT%H:%M").is_some() || parse_naive(
            ts.as_str(),
            "%Y-%m-%dT%H:%M:%S",
        ).is_some();
        if ok {
            let c = crate::text::take_vec(&t, 16);
            return string_from_chars(&c);
        }
    }
    to_local_input(Some(stored_utc))
}

} // verus!
