use karukan::rewriter::date::{render_date_candidates, DateConfig, DatePhrase, DateRewriter, Moment};

fn texts(out: &[(String, Option<String>)]) -> Vec<String> {
    out.iter().map(|(t, _)| t.clone()).collect()
}

fn desc(out: &[(String, Option<String>)], text: &str) -> Option<String> {
    out.iter().find(|(t, _)| t == text).and_then(|(_, d)| d.clone())
}

fn at(y: i32, m: u32, d: u32, h: u32, min: u32) -> Moment {
    Moment { year: y, month: m, day: d, hour: h, minute: min }
}

fn rewriter(reading: &str, offset_days: i64, formats: &[&str]) -> DateRewriter {
    let phrase = vec![(
        reading.to_string(),
        DatePhrase {
            offset_days,
            formats: Some(formats.iter().map(|f| f.to_string()).collect()),
        },
    )];
    DateRewriter::new(DateConfig {
        formats: Vec::new(),
        phrase,
    })
}

#[test]
fn padded_bare_and_kanji_styles() {
    let r = rewriter(
        "きょう",
        0,
        &[
            "{YEAR}/{MONTH}/{DATE}",
            "{YEAR}年{MONTH:bare}月{DATE:bare}日",
            "{YEAR:kanji}年{MONTH:kanji}月{DATE:kanji}日",
        ],
    );
    let out = r.candidates_at("きょう", at(2026, 9, 6, 15, 30));
    assert_eq!(
        texts(&out),
        vec!["2026/09/06", "2026年9月6日", "二〇二六年九月六日"]
    );
}

#[test]
fn kanji_uses_positional_reading_for_small_numbers() {
    let r = rewriter("きょう", 0, &["{MONTH:kanji}月{DATE:kanji}日"]);
    let out = r.candidates_at("きょう", at(2026, 12, 16, 0, 0));
    assert_eq!(texts(&out), vec!["十二月十六日"]);
}

#[test]
fn era_and_boundary() {
    let r = rewriter(
        "きょう",
        0,
        &["{ERA}{ERA_YEAR}年", "{ERA}{ERA_YEAR:kanji}年"],
    );
    let out = r.candidates_at("きょう", at(2026, 9, 6, 0, 0));
    assert_eq!(texts(&out), vec!["令和8年", "令和八年"]);
    // 令和 starts 2019-05-01; the day before is 平成31, the first year is 元.
    let out = r.candidates_at("きょう", at(2019, 4, 30, 0, 0));
    assert_eq!(texts(&out), vec!["平成31年", "平成三十一年"]);
    let out = r.candidates_at("きょう", at(2019, 5, 1, 0, 0));
    assert_eq!(texts(&out), vec!["令和1年", "令和元年"]);
}

#[test]
fn era_before_meiji_skips_format() {
    let r = rewriter("きょう", 0, &["{ERA}{ERA_YEAR}年", "{YEAR}年"]);
    let out = r.candidates_at("きょう", at(1868, 10, 22, 0, 0));
    assert_eq!(texts(&out), vec!["1868年"]);
}

#[test]
fn weekday() {
    let r = rewriter("きょう", 0, &["{WEEKDAY}曜日"]);
    // 2026-09-06 is a Sunday.
    let out = r.candidates_at("きょう", at(2026, 9, 6, 0, 0));
    assert_eq!(texts(&out), vec!["日曜日"]);
}

#[test]
fn time_tokens() {
    let r = rewriter(
        "いま",
        0,
        &[
            "{HOUR}:{MINUTE}",
            "{HOUR:bare}時{MINUTE:bare}分",
            "{AMPM}{HOUR12}時{MINUTE:bare}分",
        ],
    );
    let out = r.candidates_at("いま", at(2026, 9, 6, 5, 8));
    assert_eq!(texts(&out), vec!["05:08", "5時8分", "午前5時8分"]);
    // Midnight is 午前0時, noon is 午後0時.
    let out = r.candidates_at("いま", at(2026, 9, 6, 0, 5));
    assert_eq!(texts(&out)[2], "午前0時5分");
    let out = r.candidates_at("いま", at(2026, 9, 6, 12, 30));
    assert_eq!(texts(&out)[2], "午後0時30分");
}

#[test]
fn offset_crosses_month_and_year() {
    let r = rewriter("あした", 1, &["{YEAR}/{MONTH}/{DATE}"]);
    let out = r.candidates_at("あした", at(2026, 12, 31, 0, 0));
    assert_eq!(texts(&out), vec!["2027/01/01"]);
    let r = rewriter("きのう", -1, &["{YEAR}/{MONTH}/{DATE}"]);
    let out = r.candidates_at("きのう", at(2026, 1, 1, 0, 0));
    assert_eq!(texts(&out), vec!["2025/12/31"]);
}

#[test]
fn literal_brace_and_plain_text() {
    let r = rewriter("きょう", 0, &["{{}{YEAR}}"]);
    let out = r.candidates_at("きょう", at(2026, 9, 6, 0, 0));
    assert_eq!(texts(&out), vec!["{2026}"]);
}

#[test]
fn broken_formats_are_skipped() {
    let r = rewriter(
        "きょう",
        0,
        &["{FOO}", "{YEAR:bare}", "{YEAR", "{YEAR}/{MONTH}/{DATE}"],
    );
    let out = r.candidates_at("きょう", at(2026, 9, 6, 0, 0));
    assert_eq!(texts(&out), vec!["2026/09/06"]);
}

#[test]
fn descriptions_derive_from_tokens() {
    let r = rewriter(
        "にちじ",
        0,
        &[
            "{YEAR}/{MONTH}/{DATE}",
            "{HOUR}:{MINUTE}",
            "{YEAR}/{MONTH}/{DATE} {HOUR}:{MINUTE}",
        ],
    );
    let out = r.candidates_at("にちじ", at(2026, 9, 6, 15, 30));
    assert_eq!(desc(&out, "2026/09/06"), Some("日付".to_string()));
    assert_eq!(desc(&out, "15:30"), Some("時刻".to_string()));
    assert_eq!(desc(&out, "2026/09/06 15:30"), Some("日時".to_string()));
}

#[test]
fn unregistered_reading_and_empty_formats() {
    let r = rewriter("きょう", 0, &["{YEAR}"]);
    assert!(r.candidates_at("あした", at(2026, 9, 6, 0, 0)).is_empty());
    let r = rewriter("きょう", 0, &[]);
    assert!(r.candidates_at("きょう", at(2026, 9, 6, 0, 0)).is_empty());
}

#[test]
fn phrase_without_formats_uses_the_shared_list() {
    let phrase = vec![(
        "あした".to_string(),
        DatePhrase {
            offset_days: 1,
            formats: None,
        },
    )];
    let r = DateRewriter::new(DateConfig {
        formats: vec!["{YEAR}/{MONTH}/{DATE}".to_string()],
        phrase,
    });
    let out = r.candidates_at("あした", at(2026, 9, 5, 0, 0));
    assert_eq!(texts(&out), vec!["2026/09/06"]);
    // An explicit empty list disables the phrase instead of falling back.
    let phrase = vec![(
        "あした".to_string(),
        DatePhrase {
            offset_days: 1,
            formats: Some(Vec::new()),
        },
    )];
    let r = DateRewriter::new(DateConfig {
        formats: vec!["{YEAR}".to_string()],
        phrase,
    });
    assert!(r.candidates_at("あした", at(2026, 9, 5, 0, 0)).is_empty());
}

#[test]
fn absurd_offset_is_dropped() {
    let r = rewriter("きょう", i64::MAX, &["{YEAR}"]);
    assert!(r.candidates_at("きょう", at(2026, 9, 6, 0, 0)).is_empty());
}

#[test]
fn bc_year_skips_year_formats() {
    // A negative offset_days can land in a proleptic BC year; the year
    // formats are skipped (kanji digits would panic on the sign) while
    // year-free formats still render.
    let r = rewriter(
        "きょう",
        0,
        &["{YEAR}/{MONTH}/{DATE}", "{YEAR:kanji}年", "{MONTH:bare}月"],
    );
    let out = r.candidates_at("きょう", at(-1, 1, 2, 0, 0));
    assert_eq!(texts(&out), vec!["1月"]);
}

#[test]
fn renders_formats_on_a_given_date() {
    let formats = vec![
        "{YEAR}-{MONTH}-{DATE} ({WEEKDAY})".to_string(),
        "{NOPE}".to_string(),
        "{HOUR}:{MINUTE}".to_string(),
    ];
    let out = render_date_candidates(&formats, at(2024, 2, 29, 9, 5), Some(3));
    assert_eq!(texts(&out), vec!["2024-02-29 (木)", "09:05"]);
    assert_eq!(desc(&out, "09:05").as_deref(), Some("時刻"));
    // The weekday token needs a weekday.
    let out = render_date_candidates(&formats, at(2024, 2, 29, 9, 5), None);
    assert_eq!(texts(&out), vec!["09:05"]);
}

#[test]
fn today_renders_the_moment_itself() {
    let r = rewriter("きょう", 0, &["{YEAR}/{MONTH}/{DATE} {HOUR}:{MINUTE}"]);
    let now = at(2024, 2, 29, 23, 59);
    assert_eq!(
        r.candidates_at("きょう", now),
        render_date_candidates(&vec!["{YEAR}/{MONTH}/{DATE} {HOUR}:{MINUTE}".to_string()], now, Some(3))
    );
    assert_eq!(texts(&r.candidates_at("きょう", now)), vec!["2024/02/29 23:59"]);
}
