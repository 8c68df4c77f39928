//! Date rewriter: a registered phrase (きょう, あした, いま, …) becomes
//! date/time candidates rendered from the phrase's format strings.
//!
//! A phrase carries a day offset from today and any number of formats.
//! Formats are plain text with `{TOKEN}` / `{TOKEN:style}` placeholders
//! (`{YEAR}/{MONTH}/{DATE}` → `2026/09/06`); `{{}` is a literal `{`.
//! Numeric tokens are zero-padded by default, `:bare` drops the padding
//! (`9月`), `:kanji` renders kanji numerals (`九月`, `二〇二六`). A format
//! naming an unknown token or style, left unclosed, or needing an era
//! before the table starts is skipped. Each candidate is described as
//! `日付`, `時刻` or `日時` by the tokens it uses.
//!
//! Calendar arithmetic (shifting by days, the day of the week) and the
//! clock come from `chrono`.

use chrono::{Datelike, Timelike};
use vstd::prelude::*;

use crate::rewriter::number::{
    append, ascii_digits, lemma_decimal_digits, radix_digits, radix_exec, spec_to_kanji, std_digit,
    to_kanji,
};
use crate::rewriter::kanji_numeral::{
    kanji_value, lemma_decimal_reads_back, lemma_kanji_denotes_value, numeral_digit,
};
use crate::rewriter::number::dec_value;
use crate::rewriter::{opt_view, outs_view, OutView, RewriteOutput, Rewriter};
use crate::text::{chars_of, same_text, string_of};

verus! {

/// A civil date and time of day, to the minute.
#[derive(Debug, Clone, Copy, PartialEq, Eq, Structural)]
pub struct Moment {
    pub year: i32,
    pub month: u32,
    pub day: u32,
    pub hour: u32,
    pub minute: u32,
}

/// Month, day, hour and minute within their calendar ranges.
pub open spec fn in_field_ranges(m: Moment) -> bool {
    1 <= m.month <= 12 && 1 <= m.day <= 31 && m.hour < 24 && m.minute < 60
}

/// A leap year of the proleptic Gregorian calendar.
pub open spec fn is_leap_year(y: int) -> bool {
    (y % 4 == 0 && y % 100 != 0) || y % 400 == 0
}

/// The number of days in month `m` (1–12) of year `y`.
pub open spec fn days_in_month(y: int, m: int) -> int {
    if m == 2 {
        if is_leap_year(y) {
            29
        } else {
            28
        }
    } else if m == 4 || m == 6 || m == 9 || m == 11 {
        30
    } else {
        31
    }
}

/// A real date (the day exists in its month) at a time of day.
pub open spec fn is_real_moment(m: Moment) -> bool {
    in_field_ranges(m) && m.day <= days_in_month(m.year as int, m.month as int)
}

/// A real date and time within the years the calendar arithmetic covers
/// (−262143 to 262142).
pub open spec fn valid_moment(m: Moment) -> bool {
    is_real_moment(m) && -262143 <= m.year <= 262142
}

/// The moment `days` days after `at` on the proleptic Gregorian calendar;
/// `None` when `at` is not a valid date and time or the result is out of
/// range.
pub uninterp spec fn shifted(at: Moment, days: i64) -> Option<Moment>;

/// The day of the week of a date, counted from Monday as 0; `None` for an
/// invalid date.
pub uninterp spec fn weekday_of(year: i32, month: u32, day: u32) -> Option<u32>;

/// `chrono::NaiveDateTime::checked_add_signed`: `at` plus `days` days,
/// with the moment converted to chrono's date-time (`from_ymd_opt`,
/// `and_hms_opt`), the day count to a `TimeDelta` (`try_days`), and the
/// result back to its fields. The contract names the result, states that
/// the result is a real date and time of day, and that a shift by no days
/// gives a valid moment back unchanged (`from_ymd_opt` accepts exactly the
/// real dates of chrono's year range, and adding zero days takes the
/// same-year path of `add_days`).
#[verifier::external_body]
fn shift_days(at: Moment, days: i64) -> (r: Option<Moment>)
    ensures
        r == shifted(at, days),
        r matches Some(m) ==> is_real_moment(m),
        days == 0 && valid_moment(at) ==> r == Some(at),
{
    let t = chrono::NaiveDate::from_ymd_opt(at.year, at.month, at.day)?.and_hms_opt(
        at.hour,
        at.minute,
        0,
    )?;
    let s = t.checked_add_signed(chrono::TimeDelta::try_days(days)?)?;
    Some(Moment { year: s.year(), month: s.month(), day: s.day(), hour: s.hour(), minute: s.minute() })
}

/// `chrono`: the weekday of a date, `Weekday::num_days_from_monday`.
#[verifier::external_body]
fn weekday_index(year: i32, month: u32, day: u32) -> (r: Option<u32>)
    ensures
        r == weekday_of(year, month, day),
        r matches Some(w) ==> w < 7,
{
    Some(chrono::NaiveDate::from_ymd_opt(year, month, day)?.weekday().num_days_from_monday())
}

/// `chrono::Local::now()`: the current local date and time. The contract
/// claims only that it is a real date and time of day (month 1–12, a day
/// of that month, hour 0–23, minute 0–59); which moment it is depends on
/// the clock and is not claimed.
#[verifier::external_body]
fn local_now() -> (r: Moment)
    ensures
        is_real_moment(r),
{
    let t = chrono::Local::now().naive_local();
    Moment { year: t.year(), month: t.month(), day: t.day(), hour: t.hour(), minute: t.minute() }
}

// ---------- configuration ----------

/// One phrase: a day offset from today, and optionally its own formats
/// (`None` takes the shared list; an empty list disables the phrase).
pub struct DatePhrase {
    /// Days added to today; negative for the past.
    pub offset_days: i64,
    pub formats: Option<Vec<String>>,
}

/// The date rewriter's configuration: the shared formats, and the phrases
/// by reading (each reading listed once).
pub struct DateConfig {
    /// Formats for every phrase that brings none of its own.
    pub formats: Vec<String>,
    /// Phrases keyed by reading.
    pub phrase: Vec<(String, DatePhrase)>,
}

/// A phrase as plain values.
pub type PhraseView = (i64, Option<Seq<Seq<char>>>);

/// Optional formats as plain values.
pub open spec fn formats_view(f: Option<Vec<String>>) -> Option<Seq<Seq<char>>> {
    match f {
        Some(v) => Some(crate::text::strs(v@)),
        None => None,
    }
}

/// The phrases as plain values.
pub open spec fn phrases_view(v: Seq<(String, DatePhrase)>) -> Seq<(Seq<char>, PhraseView)> {
    v.map_values(|p: (String, DatePhrase)| (p.0@, (p.1.offset_days, formats_view(p.1.formats))))
}

// ---------- rendering ----------

/// `n` in decimal.
pub open spec fn dec(n: nat) -> Seq<char> {
    radix_digits(n, 10)
}

/// `s` zero-padded on the left to at least `w` characters.
pub open spec fn pad(s: Seq<char>, w: nat) -> Seq<char> {
    if s.len() < w {
        Seq::new((w - s.len()) as nat, |i: int| '0') + s
    } else {
        s
    }
}

/// Each ASCII digit as its kanji (`2026` → `二〇二六`).
pub open spec fn kanji_digits(s: Seq<char>) -> Seq<char> {
    s.map_values(|c: char| std_digit((c as int) - 48))
}

/// Whether `(y, m, d)` is on or after `(y2, m2, d2)`.
pub open spec fn on_or_after(y: int, m: int, d: int, y2: int, m2: int, d2: int) -> bool {
    y > y2 || (y == y2 && (m > m2 || (m == m2 && d >= d2)))
}

/// The era of a date and its year within the era; `None` before 明治.
pub open spec fn era(y: int, m: int, d: int) -> Option<(Seq<char>, int)> {
    if on_or_after(y, m, d, 2019, 5, 1) {
        Some(("令和"@, y - 2019 + 1))
    } else if on_or_after(y, m, d, 1989, 1, 8) {
        Some(("平成"@, y - 1989 + 1))
    } else if on_or_after(y, m, d, 1926, 12, 25) {
        Some(("昭和"@, y - 1926 + 1))
    } else if on_or_after(y, m, d, 1912, 7, 30) {
        Some(("大正"@, y - 1912 + 1))
    } else if on_or_after(y, m, d, 1868, 10, 23) {
        Some(("明治"@, y - 1868 + 1))
    } else {
        None
    }
}

/// The weekday names from Monday.
pub open spec fn weekday_name(w: int) -> Seq<char> {
    if w == 0 {
        "月"@
    } else if w == 1 {
        "火"@
    } else if w == 2 {
        "水"@
    } else if w == 3 {
        "木"@
    } else if w == 4 {
        "金"@
    } else if w == 5 {
        "土"@
    } else {
        "日"@
    }
}

/// A two-digit field in its three styles: padded, bare, kanji.
pub open spec fn field(n: nat, style: Option<Seq<char>>) -> Option<Seq<char>> {
    match style {
        None => Some(pad(dec(n), 2)),
        Some(s) => if s == "bare"@ {
            Some(dec(n))
        } else if s == "kanji"@ {
            spec_to_kanji(dec(n), false)
        } else {
            None
        },
    }
}

/// One placeholder rendered; `None` makes the whole format unrenderable.
pub open spec fn render_token(
    token: Seq<char>,
    style: Option<Seq<char>>,
    at: Moment,
    wd: Option<u32>,
) -> Option<Seq<char>> {
    let y = at.year as int;
    if token == "YEAR"@ {
        if y < 0 {
            None
        } else if style is None {
            Some(pad(dec(y as nat), 4))
        } else if style == Some("kanji"@) {
            Some(kanji_digits(pad(dec(y as nat), 4)))
        } else {
            None
        }
    } else if token == "MONTH"@ {
        field(at.month as nat, style)
    } else if token == "DATE"@ {
        field(at.day as nat, style)
    } else if token == "HOUR"@ {
        field(at.hour as nat, style)
    } else if token == "MINUTE"@ {
        field(at.minute as nat, style)
    } else if token == "HOUR12"@ {
        if style is None {
            Some(dec((at.hour % 12) as nat))
        } else if style == Some("kanji"@) {
            spec_to_kanji(dec((at.hour % 12) as nat), false)
        } else {
            None
        }
    } else if token == "AMPM"@ {
        if style is None {
            Some(if at.hour < 12 { "午前"@ } else { "午後"@ })
        } else {
            None
        }
    } else if token == "ERA"@ {
        match era(y, at.month as int, at.day as int) {
            Some(e) => if style is None { Some(e.0) } else { None },
            None => None,
        }
    } else if token == "ERA_YEAR"@ {
        match era(y, at.month as int, at.day as int) {
            Some(e) => if style is None {
                Some(dec(e.1 as nat))
            } else if style == Some("kanji"@) {
                if e.1 == 1 {
                    Some("元"@)
                } else {
                    spec_to_kanji(dec(e.1 as nat), false)
                }
            } else {
                None
            },
            None => None,
        }
    } else if token == "WEEKDAY"@ {
        match wd {
            Some(w) => if style is None { Some(weekday_name(w as int)) } else { None },
            None => None,
        }
    } else {
        None
    }
}

/// Whether a token is about the date (else about the time of day).
pub open spec fn is_date_token(t: Seq<char>) -> bool {
    t == "YEAR"@ || t == "MONTH"@ || t == "DATE"@ || t == "ERA"@ || t == "ERA_YEAR"@ || t
        == "WEEKDAY"@
}

/// The first `c` at or after `i`, or -1.
pub open spec fn find_char(s: Seq<char>, c: char, i: int) -> int
    decreases s.len() - i,
{
    if i < 0 || i >= s.len() {
        -1
    } else if s[i] == c {
        i
    } else {
        find_char(s, c, i + 1)
    }
}

/// `find_char` finds the first `c` at or after `i`.
pub proof fn lemma_find_char(s: Seq<char>, c: char, i: int)
    ensures
        find_char(s, c, i) == -1 || (i <= find_char(s, c, i) < s.len() && s[find_char(s, c, i)]
            == c),
        0 <= i ==> forall|k: int| i <= k < (if find_char(s, c, i) == -1 { s.len() as int } else {
            find_char(s, c, i) }) ==> s[k] != c,
    decreases s.len() - i,
{
    if 0 <= i < s.len() && s[i] != c {
        lemma_find_char(s, c, i + 1);
    }
}

/// A placeholder split at its first `:` into token and style.
pub open spec fn split_style(spec: Seq<char>) -> (Seq<char>, Option<Seq<char>>) {
    let k = find_char(spec, ':', 0);
    if k < 0 {
        (spec, None)
    } else {
        (spec.take(k), Some(spec.skip(k + 1)))
    }
}

/// The walk over a format from position `i`: text so far, whether a date
/// token and a time token were seen.
pub open spec fn scan(
    fmt: Seq<char>,
    i: int,
    at: Moment,
    wd: Option<u32>,
    out: Seq<char>,
    has_date: bool,
    has_time: bool,
) -> Option<(Seq<char>, bool, bool)>
    decreases fmt.len() - i,
{
    if i < 0 || i >= fmt.len() {
        Some((out, has_date, has_time))
    } else if fmt[i] != '{' {
        scan(fmt, i + 1, at, wd, out.push(fmt[i]), has_date, has_time)
    } else {
        let j = find_char(fmt, '}', i + 1);
        proof {
            lemma_find_char(fmt, '}', i + 1);
        }
        if j <= i {
            None
        } else {
            let spec = fmt.subrange(i + 1, j);
            if spec == seq!['{'] {
                scan(fmt, j + 1, at, wd, out.push('{'), has_date, has_time)
            } else {
                let (token, style) = split_style(spec);
                match render_token(token, style, at, wd) {
                    None => None,
                    Some(piece) => scan(
                        fmt,
                        j + 1,
                        at,
                        wd,
                        out + piece,
                        has_date || is_date_token(token),
                        has_time || !is_date_token(token),
                    ),
                }
            }
        }
    }
}

/// One format rendered into a candidate; `None` skips the format.
pub open spec fn render(fmt: Seq<char>, at: Moment, wd: Option<u32>) -> Option<OutView> {
    match scan(fmt, 0, at, wd, Seq::empty(), false, false) {
        None => None,
        Some((text, has_date, has_time)) => Some(
            (
                text,
                Some(
                    if has_time && !has_date {
                        "時刻"@
                    } else if has_time {
                        "日時"@
                    } else {
                        "日付"@
                    },
                ),
            ),
        ),
    }
}

/// Every format that renders, in order.
pub open spec fn render_all(fmts: Seq<Seq<char>>, at: Moment, wd: Option<u32>) -> Seq<OutView>
    decreases fmts.len(),
{
    if fmts.len() == 0 {
        Seq::empty()
    } else {
        let r = render_all(fmts.drop_last(), at, wd);
        match render(fmts.last(), at, wd) {
            Some(o) => r.push(o),
            None => r,
        }
    }
}

/// The phrase registered for a reading, the first listed.
pub open spec fn phrase_of(ps: Seq<(Seq<char>, PhraseView)>, reading: Seq<char>) -> Option<PhraseView>
    decreases ps.len(),
{
    if ps.len() == 0 {
        None
    } else if ps[0].0 == reading {
        Some(ps[0].1)
    } else {
        phrase_of(ps.skip(1), reading)
    }
}

/// The candidates for `reading` as of `now`.
pub open spec fn spec_candidates(
    shared: Seq<Seq<char>>,
    ps: Seq<(Seq<char>, PhraseView)>,
    reading: Seq<char>,
    now: Moment,
) -> Seq<OutView> {
    match phrase_of(ps, reading) {
        None => Seq::empty(),
        Some(p) => match shifted(now, p.0) {
            None => Seq::empty(),
            Some(at) => render_all(
                match p.1 {
                    Some(f) => f,
                    None => shared,
                },
                at,
                weekday_of(at.year, at.month, at.day),
            ),
        },
    }
}

/// The days of the week, Monday first.
pub open spec fn week_days() -> Seq<char> {
    seq!['月', '火', '水', '木', '金', '土', '日']
}

/// `{WEEKDAY}` renders the day `w` days after Monday as the `w`-th of
/// 月火水木金土日 (and cannot render without a weekday); a `{WEEKDAY}`
/// format is a date.
pub proof fn lemma_weekday_token(at: Moment, w: u32, style: Option<Seq<char>>)
    ensures
        w < 7 ==> render_token("WEEKDAY"@, None, at, Some(w)) == Some(seq![week_days()[w as int]]),
        render_token("WEEKDAY"@, style, at, None) is None,
        is_date_token("WEEKDAY"@),
        w < 7 ==> render("{WEEKDAY}"@, at, Some(w)) == Some((seq![week_days()[w as int]], Some("日付"@))),
{
    reveal_strlit("WEEKDAY");
    reveal_strlit("{WEEKDAY}");
    reveal_strlit("YEAR");
    reveal_strlit("MONTH");
    reveal_strlit("DATE");
    reveal_strlit("HOUR");
    reveal_strlit("MINUTE");
    reveal_strlit("HOUR12");
    reveal_strlit("AMPM");
    reveal_strlit("ERA");
    reveal_strlit("ERA_YEAR");
    reveal_strlit("月");
    reveal_strlit("火");
    reveal_strlit("水");
    reveal_strlit("木");
    reveal_strlit("金");
    reveal_strlit("土");
    reveal_strlit("日");
    let f = "{WEEKDAY}"@;
    assert(f.len() == 9);
    lemma_find_char(f, '}', 1);
    assert(find_char(f, '}', 1) == 8) by {
        reveal_with_fuel(find_char, 9);
    }
    assert(f.subrange(1, 8) =~= "WEEKDAY"@);
    assert(find_char("WEEKDAY"@, ':', 0) == -1) by {
        reveal_with_fuel(find_char, 9);
    }
    assert(split_style("WEEKDAY"@) == ("WEEKDAY"@, None::<Seq<char>>));
    if w < 7 {
        let piece = seq![week_days()[w as int]];
        assert(f[0] == '{');
        assert(f.subrange(1, 8) != seq!['{']);
        assert(scan(f, 9, at, Some(w), Seq::<char>::empty() + piece, true, false) == Some(
            (Seq::<char>::empty() + piece, true, false),
        ));
        assert(Seq::<char>::empty() + piece =~= piece);
        let spec = f.subrange(1, 8);
        assert(spec == "WEEKDAY"@);
        assert(split_style(spec) == ("WEEKDAY"@, None::<Seq<char>>));
        assert(render_token("WEEKDAY"@, None, at, Some(w)) == Some(piece));
        assert(is_date_token("WEEKDAY"@));
        assert(!(0int < 0 || 0int >= f.len()));
        assert(scan(f, 0, at, Some(w), Seq::empty(), false, false) == scan(
            f,
            9,
            at,
            Some(w),
            Seq::<char>::empty() + piece,
            true,
            false,
        ));
        assert(scan(f, 0, at, Some(w), Seq::empty(), false, false) == Some((piece, true, false)));
    }
}

/// The number a string of kanji digits denotes read digit by digit
/// (`二〇二六` is 2026).
pub open spec fn kanji_digits_value(s: Seq<char>) -> int
    decreases s.len(),
{
    if s.len() == 0 {
        0
    } else {
        kanji_digits_value(s.drop_last()) * 10 + numeral_digit(s.last())
    }
}

proof fn lemma_kanji_digits_value(s: Seq<char>)
    requires
        crate::rewriter::number::ascii_digits(s),
    ensures
        kanji_digits_value(kanji_digits(s)) == dec_value(s),
    decreases s.len(),
{
    if s.len() > 0 {
        let init = s.drop_last();
        assert(crate::rewriter::number::ascii_digits(init)) by {
            assert forall|i: int| 0 <= i < init.len() implies '0' <= #[trigger] init[i] && init[i]
                <= '9' by {
                assert(init[i] == s[i]);
            }
        }
        lemma_kanji_digits_value(init);
        assert(kanji_digits(s).drop_last() =~= kanji_digits(init));
        assert(s.last() == s[s.len() - 1]);
        assert(kanji_digits(s).last() == std_digit((s.last() as int) - 48));
    }
}

/// A number field (month, day, hour, minute) renders its value so that
/// it reads back as that value: zero-padded to two digits by default, bare
/// with `:bare`, and as a kanji numeral with `:kanji`.
pub proof fn lemma_field_reads_back(n: nat, style: Option<Seq<char>>)
    ensures
        style is None ==> field(n, style) is Some && dec_value(field(n, style)->0) == n && field(
            n,
            style,
        )->0.len() >= 2,
        style == Some("bare"@) ==> field(n, style) is Some && dec_value(field(n, style)->0) == n,
        style == Some("kanji"@) && field(n, style) is Some ==> kanji_value(field(n, style)->0)
            == n,
{
    reveal_strlit("bare");
    reveal_strlit("kanji");
    lemma_decimal_reads_back(n, dec(n), 0);
    lemma_decimal_reads_back(n, pad(dec(n), 2), 2);
    assert("kanji"@ != "bare"@) by {
        assert("kanji"@.len() != "bare"@.len());
    }
    if style == Some("bare"@) {
        assert(field(n, style) == Some(dec(n)));
    }
    if style == Some("kanji"@) && field(n, style) is Some {
        assert(field(n, style) == spec_to_kanji(dec(n), false));
        assert(crate::rewriter::number::ascii_digits(dec(n)));
        lemma_kanji_denotes_value(dec(n), false);
    }
    if style is None {
        assert(pad(dec(n), 2).len() >= 2);
    }
}

/// `{YEAR}` renders a year of the common era as its four-or-more-digit
/// decimal, and `{YEAR:kanji}` as the same digits in kanji, each standing
/// for its digit (`二〇二六`).
pub proof fn lemma_year_reads_back(at: Moment, wd: Option<u32>)
    requires
        at.year >= 0,
    ensures
        render_token("YEAR"@, None, at, wd) is Some,
        dec_value(render_token("YEAR"@, None, at, wd)->0) == at.year,
        render_token("YEAR"@, None, at, wd)->0.len() >= 4,
        render_token("YEAR"@, Some("kanji"@), at, wd) is Some,
        kanji_digits_value(render_token("YEAR"@, Some("kanji"@), at, wd)->0) == at.year,
{
    reveal_strlit("YEAR");
    reveal_strlit("kanji");
    let y = at.year as nat;
    lemma_decimal_reads_back(y, pad(dec(y), 4), 4);
    lemma_kanji_digits_value(pad(dec(y), 4));
}

// ---------- exec ----------

fn eq_lit(v: &Vec<char>, lit: &str) -> (r: bool)
    ensures
        r == (v@ == lit@),
{
    same_text(string_of(v).as_str(), lit)
}

fn lit(s: &str) -> (r: Vec<char>)
    ensures
        r@ == s@,
{
    chars_of(s)
}

fn dec_exec(n: u32) -> (r: Vec<char>)
    ensures
        r@ == dec(n as nat),
        ascii_digits(r@),
{
    proof {
        lemma_decimal_digits(n as nat);
    }
    radix_exec(n as u64, 10)
}

fn pad_exec(v: Vec<char>, w: usize) -> (r: Vec<char>)
    ensures
        r@ == pad(v@, w as nat),
{
    if v.len() >= w {
        return v;
    }
    let mut out: Vec<char> = Vec::new();
    let n = w - v.len();
    let mut i: usize = 0;
    while i < n
        invariant
            i <= n,
            out@ =~= Seq::new(i as nat, |k: int| '0'),
        decreases n - i,
    {
        out.push('0');
        i += 1;
        assert(out@ =~= Seq::new(i as nat, |k: int| '0'));
    }
    append(&mut out, &v);
    out
}

fn kanji_digits_exec(v: &Vec<char>) -> (r: Vec<char>)
    ensures
        r@ == kanji_digits(v@),
{
    let mut out: Vec<char> = Vec::new();
    let mut i: usize = 0;
    while i < v.len()
        invariant
            i <= v.len(),
            out@.len() == i,
            forall|j: int| 0 <= j < i ==> out@[j] == std_digit((v@[j] as int) - 48),
        decreases v.len() - i,
    {
        let c = v[i];
        let k = if c == '1' {
            '一'
        } else if c == '2' {
            '二'
        } else if c == '3' {
            '三'
        } else if c == '4' {
            '四'
        } else if c == '5' {
            '五'
        } else if c == '6' {
            '六'
        } else if c == '7' {
            '七'
        } else if c == '8' {
            '八'
        } else if c == '9' {
            '九'
        } else {
            '〇'
        };
        out.push(k);
        i += 1;
    }
    assert(out@ =~= kanji_digits(v@));
    out
}

fn on_or_after_exec(y: i32, m: u32, d: u32, y2: i32, m2: u32, d2: u32) -> (r: bool)
    ensures
        r == on_or_after(y as int, m as int, d as int, y2 as int, m2 as int, d2 as int),
{
    y > y2 || (y == y2 && (m > m2 || (m == m2 && d >= d2)))
}

fn era_exec(y: i32, m: u32, d: u32) -> (r: Option<(Vec<char>, i32)>)
    ensures
        match r {
            Some(e) => era(y as int, m as int, d as int) == Some((e.0@, e.1 as int)),
            None => era(y as int, m as int, d as int) is None,
        },
{
    if on_or_after_exec(y, m, d, 2019, 5, 1) {
        Some((lit("令和"), y - 2019 + 1))
    } else if on_or_after_exec(y, m, d, 1989, 1, 8) {
        Some((lit("平成"), y - 1989 + 1))
    } else if on_or_after_exec(y, m, d, 1926, 12, 25) {
        Some((lit("昭和"), y - 1926 + 1))
    } else if on_or_after_exec(y, m, d, 1912, 7, 30) {
        Some((lit("大正"), y - 1912 + 1))
    } else if on_or_after_exec(y, m, d, 1868, 10, 23) {
        Some((lit("明治"), y - 1868 + 1))
    } else {
        None
    }
}

fn kanji_number(n: u32) -> (r: Option<Vec<char>>)
    ensures
        match r {
            Some(v) => spec_to_kanji(dec(n as nat), false) == Some(v@),
            None => spec_to_kanji(dec(n as nat), false) is None,
        },
{
    let d = dec_exec(n);
    to_kanji(&d, false)
}

fn field_exec(n: u32, style: &Option<Vec<char>>) -> (r: Option<Vec<char>>)
    ensures
        match r {
            Some(v) => field(n as nat, opt_chars(*style)) == Some(v@),
            None => field(n as nat, opt_chars(*style)) is None,
        },
{
    match style {
        None => Some(pad_exec(dec_exec(n), 2)),
        Some(st) => {
            if eq_lit(st, "bare") {
                Some(dec_exec(n))
            } else if eq_lit(st, "kanji") {
                kanji_number(n)
            } else {
                None
            }
        },
    }
}

/// An optional character vector as plain values.
pub open spec fn opt_chars(o: Option<Vec<char>>) -> Option<Seq<char>> {
    match o {
        Some(v) => Some(v@),
        None => None,
    }
}

fn weekday_name_exec(w: u32) -> (r: Vec<char>)
    ensures
        r@ == weekday_name(w as int),
{
    if w == 0 {
        lit("月")
    } else if w == 1 {
        lit("火")
    } else if w == 2 {
        lit("水")
    } else if w == 3 {
        lit("木")
    } else if w == 4 {
        lit("金")
    } else if w == 5 {
        lit("土")
    } else {
        lit("日")
    }
}

fn render_token_exec(token: &Vec<char>, style: &Option<Vec<char>>, at: Moment, wd: Option<u32>) -> (r: Option<Vec<char>>)
    ensures
        match r {
            Some(v) => render_token(token@, opt_chars(*style), at, wd) == Some(v@),
            None => render_token(token@, opt_chars(*style), at, wd) is None,
        },
{
    let no_style = style.is_none();
    let kanji_style = match style {
        Some(st) => eq_lit(st, "kanji"),
        None => false,
    };
    proof {
        if kanji_style {
            assert(opt_chars(*style) == Some("kanji"@));
        }
        if !kanji_style && !no_style {
            assert(opt_chars(*style) != Some("kanji"@));
        }
    }
    if eq_lit(token, "YEAR") {
        if at.year < 0 {
            None
        } else if no_style {
            Some(pad_exec(dec_exec(at.year as u32), 4))
        } else if kanji_style {
            Some(kanji_digits_exec(&pad_exec(dec_exec(at.year as u32), 4)))
        } else {
            None
        }
    } else if eq_lit(token, "MONTH") {
        field_exec(at.month, style)
    } else if eq_lit(token, "DATE") {
        field_exec(at.day, style)
    } else if eq_lit(token, "HOUR") {
        field_exec(at.hour, style)
    } else if eq_lit(token, "MINUTE") {
        field_exec(at.minute, style)
    } else if eq_lit(token, "HOUR12") {
        if no_style {
            Some(dec_exec(at.hour % 12))
        } else if kanji_style {
            kanji_number(at.hour % 12)
        } else {
            None
        }
    } else if eq_lit(token, "AMPM") {
        if no_style {
            Some(if at.hour < 12 { lit("午前") } else { lit("午後") })
        } else {
            None
        }
    } else if eq_lit(token, "ERA") {
        match era_exec(at.year, at.month, at.day) {
            Some(e) => if no_style { Some(e.0) } else { None },
            None => None,
        }
    } else if eq_lit(token, "ERA_YEAR") {
        match era_exec(at.year, at.month, at.day) {
            Some(e) => {
                if no_style {
                    Some(dec_exec(e.1 as u32))
                } else if kanji_style {
                    if e.1 == 1 {
                        Some(lit("元"))
                    } else {
                        kanji_number(e.1 as u32)
                    }
                } else {
                    None
                }
            },
            None => None,
        }
    } else if eq_lit(token, "WEEKDAY") {
        match wd {
            Some(w) => if no_style { Some(weekday_name_exec(w)) } else { None },
            None => None,
        }
    } else {
        None
    }
}

fn find_char_exec(v: &Vec<char>, c: char, from: usize) -> (r: Option<usize>)
    ensures
        match r {
            Some(j) => find_char(v@, c, from as int) == j as int && from <= j < v.len(),
            None => find_char(v@, c, from as int) == -1,
        },
{
    proof {
        lemma_find_char(v@, c, from as int);
    }
    let mut j = from;
    while j < v.len()
        invariant
            from <= j,
            find_char(v@, c, from as int) == find_char(v@, c, j as int),
        decreases v.len() - j,
    {
        if v[j] == c {
            return Some(j);
        }
        j += 1;
    }
    None
}

fn copy_range(v: &Vec<char>, from: usize, to: usize) -> (r: Vec<char>)
    requires
        from <= to <= v.len(),
    ensures
        r@ == v@.subrange(from as int, to as int),
{
    let mut out: Vec<char> = Vec::new();
    let mut i = from;
    while i < to
        invariant
            from <= i <= to <= v.len(),
            out@ == v@.subrange(from as int, i as int),
        decreases to - i,
    {
        out.push(v[i]);
        i += 1;
        assert(out@ =~= v@.subrange(from as int, i as int));
    }
    out
}

fn split_style_exec(spec: &Vec<char>) -> (r: (Vec<char>, Option<Vec<char>>))
    ensures
        (r.0@, opt_chars(r.1)) == split_style(spec@),
{
    match find_char_exec(spec, ':', 0) {
        None => (copy_range(spec, 0, spec.len()), None),
        Some(k) => {
            let t = copy_range(spec, 0, k);
            let st = copy_range(spec, k + 1, spec.len());
            assert(t@ =~= spec@.take(k as int));
            assert(st@ =~= spec@.skip(k + 1));
            (t, Some(st))
        },
    }
}

fn is_date_token_exec(t: &Vec<char>) -> (r: bool)
    ensures
        r == is_date_token(t@),
{
    eq_lit(t, "YEAR") || eq_lit(t, "MONTH") || eq_lit(t, "DATE") || eq_lit(t, "ERA") || eq_lit(
        t,
        "ERA_YEAR",
    ) || eq_lit(t, "WEEKDAY")
}

fn render_exec(format: &str, at: Moment, wd: Option<u32>) -> (r: Option<RewriteOutput>)
    ensures
        match r {
            Some(o) => render(format@, at, wd) == Some(crate::rewriter::out_view(o)),
            None => render(format@, at, wd) is None,
        },
{
    let fmt = chars_of(format);
    let mut out: Vec<char> = Vec::new();
    let mut has_date = false;
    let mut has_time = false;
    let mut i: usize = 0;
    while i < fmt.len()
        invariant
            fmt@ == format@,
            i <= fmt.len(),
            scan(fmt@, 0, at, wd, Seq::empty(), false, false) == scan(
                fmt@,
                i as int,
                at,
                wd,
                out@,
                has_date,
                has_time,
            ),
        decreases fmt.len() - i,
    {
        let c = fmt[i];
        if c != '{' {
            out.push(c);
            i += 1;
        } else {
            match find_char_exec(&fmt, '}', i + 1) {
                None => {
                    return None;
                },
                Some(j) => {
                    let spec = copy_range(&fmt, i + 1, j);
                    if spec.len() == 1 && spec[0] == '{' {
                        assert(spec@ =~= seq!['{']);
                        out.push('{');
                    } else {
                        assert(spec@ != seq!['{']);
                        let (token, style) = split_style_exec(&spec);
                        match render_token_exec(&token, &style, at, wd) {
                            None => {
                                return None;
                            },
                            Some(piece) => {
                                let d = is_date_token_exec(&token);
                                append(&mut out, &piece);
                                has_date = has_date || d;
                                has_time = has_time || !d;
                            },
                        }
                    }
                    i = j + 1;
                },
            }
        }
    }
    let desc = if has_time && !has_date {
        "時刻".to_owned()
    } else if has_time {
        "日時".to_owned()
    } else {
        "日付".to_owned()
    };
    Some((string_of(&out), Some(desc)))
}

fn find_phrase(ps: &Vec<(String, DatePhrase)>, reading: &str) -> (r: Option<usize>)
    ensures
        match r {
            Some(i) => i < ps.len() && phrase_of(phrases_view(ps@), reading@) == Some(
                phrases_view(ps@)[i as int].1,
            ),
            None => phrase_of(phrases_view(ps@), reading@) is None,
        },
{
    let ghost pv = phrases_view(ps@);
    let mut k: usize = 0;
    assert(pv.skip(0) =~= pv);
    while k < ps.len()
        invariant
            k <= ps.len(),
            pv == phrases_view(ps@),
            phrase_of(pv, reading@) == phrase_of(pv.skip(k as int), reading@),
        decreases ps.len() - k,
    {
        assert(pv.skip(k as int)[0] == pv[k as int]);
        assert(pv.skip(k as int).skip(1) =~= pv.skip(k + 1));
        if same_text(ps[k].0.as_str(), reading) {
            return Some(k);
        }
        k += 1;
    }
    None
}

/// Rewriter that turns registered phrases into date and time candidates.
pub struct DateRewriter {
    config: DateConfig,
}

impl DateRewriter {
    /// The shared formats.
    pub closed spec fn shared_formats(&self) -> Seq<Seq<char>> {
        crate::text::strs(self.config.formats@)
    }

    /// The phrases by reading.
    pub closed spec fn phrases(&self) -> Seq<(Seq<char>, PhraseView)> {
        phrases_view(self.config.phrase@)
    }

    pub fn new(config: DateConfig) -> (r: Self)
        ensures
            r.shared_formats() == crate::text::strs(config.formats@),
            r.phrases() == phrases_view(config.phrase@),
    {
        DateRewriter { config }
    }

    /// Candidates for `reading` as of `now`. A phrase for today (no day
    /// offset) renders `now` itself when it is a valid moment.
    pub fn candidates_at(&self, reading: &str, now: Moment) -> (r: Vec<RewriteOutput>)
        ensures
            outs_view(r@) == spec_candidates(self.shared_formats(), self.phrases(), reading@, now),
            valid_moment(now) && phrase_of(self.phrases(), reading@) is Some && (phrase_of(
                self.phrases(),
                reading@,
            )->0).0 == 0 ==> outs_view(r@) == render_all(
                phrase_formats(phrase_of(self.phrases(), reading@)->0, self.shared_formats()),
                now,
                weekday_of(now.year, now.month, now.day),
            ),
    {
        let mut out: Vec<RewriteOutput> = Vec::new();
        assert(outs_view(out@) =~= Seq::<OutView>::empty());
        let ps = &self.config.phrase;
        let ghost pv = phrases_view(ps@);
        let idx = match find_phrase(ps, reading) {
            None => {
                return out;
            },
            Some(idx) => idx,
        };
        assert(phrase_of(pv, reading@) == Some(pv[idx as int].1));
        let phrase = &ps[idx].1;
        let at = match shift_days(now, phrase.offset_days) {
            None => {
                return out;
            },
            Some(at) => at,
        };
        let wd = weekday_index(at.year, at.month, at.day);
        let fmts = match &phrase.formats {
            Some(f) => f,
            None => &self.config.formats,
        };
        render_date_candidates(fmts, at, wd)
    }
}

/// The formats a phrase renders: its own, or else the shared ones.
pub open spec fn phrase_formats(p: PhraseView, shared: Seq<Seq<char>>) -> Seq<Seq<char>> {
    match p.1 {
        Some(f) => f,
        None => shared,
    }
}

/// Every format of `formats` that renders at `at` (weekday `wd`, Monday
/// as 0), in order; a format that does not render is skipped.
pub fn render_date_candidates(formats: &Vec<String>, at: Moment, wd: Option<u32>) -> (r: Vec<
    RewriteOutput,
>)
    ensures
        outs_view(r@) == render_all(crate::text::strs(formats@), at, wd),
{
    let mut out: Vec<RewriteOutput> = Vec::new();
    assert(outs_view(out@) =~= Seq::<OutView>::empty());
    let ghost fv = crate::text::strs(formats@);
    let mut i: usize = 0;
    assert(fv.take(0) =~= Seq::<Seq<char>>::empty());
    while i < formats.len()
        invariant
            i <= formats.len(),
            fv == crate::text::strs(formats@),
            outs_view(out@) == render_all(fv.take(i as int), at, wd),
        decreases formats.len() - i,
    {
        assert(fv.take(i + 1).drop_last() =~= fv.take(i as int));
        assert(fv.take(i + 1).last() == formats@[i as int]@);
        match render_exec(formats[i].as_str(), at, wd) {
            Some(o) => {
                let ghost before = out@;
                out.push(o);
                assert(outs_view(out@) =~= outs_view(before).push(crate::rewriter::out_view(o)));
            },
            None => {},
        }
        i += 1;
    }
    assert(fv.take(formats.len() as int) =~= fv);
    out
}

impl Rewriter for DateRewriter {
    fn name(&self) -> (r: &'static str)
        ensures
            r@ == "date"@,
    {
        "date"
    }

    /// Candidates as of the local clock.
    fn rewrite(&self, candidate: &str) -> (r: Vec<RewriteOutput>)
        ensures
            exists|now: Moment|
                is_real_moment(now) && outs_view(r@) == spec_candidates(
                    self.shared_formats(),
                    self.phrases(),
                    candidate@,
                    now,
                ),
    {
        let now = local_now();
        self.candidates_at(candidate, now)
    }
}

} // verus!
