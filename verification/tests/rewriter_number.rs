use karukan::rewriter::number::NumberRewriter;
use karukan::rewriter::Rewriter;

fn texts(out: &[(String, Option<String>)]) -> Vec<String> {
    out.iter().map(|(t, _)| t.clone()).collect()
}

fn desc(out: &[(String, Option<String>)], text: &str) -> Option<String> {
    out.iter().find(|(t, _)| t == text).and_then(|(_, d)| d.clone())
}

#[test]
fn empty_or_non_digit_returns_empty() {
    let r = NumberRewriter::new();
    assert!(r.rewrite("").is_empty());
    assert!(r.rewrite("abc").is_empty());
    assert!(r.rewrite("あ").is_empty());
    assert!(r.rewrite("1a").is_empty());
    assert!(r.rewrite("1.5").is_empty()); // decimals not supported
}

#[test]
fn width_pair() {
    let r = NumberRewriter::new();
    assert!(texts(&r.rewrite("123")).contains(&"１２３".to_string()));
    assert!(texts(&r.rewrite("１２３")).contains(&"123".to_string()));
}

#[test]
fn kanji_basic() {
    let r = NumberRewriter::new();
    // standard kanji 〇 vs daiji 零 for all-zero input
    let t = texts(&r.rewrite("0"));
    assert!(t.contains(&"〇".to_string()));
    assert!(t.contains(&"零".to_string()));
    assert!(texts(&r.rewrite("1")).contains(&"一".to_string()));
    // leading `一` suppressed before 十百千
    assert!(texts(&r.rewrite("10")).contains(&"十".to_string()));
    assert!(texts(&r.rewrite("11")).contains(&"十一".to_string()));
    assert!(texts(&r.rewrite("100")).contains(&"百".to_string()));
}

#[test]
fn kanji_big_ranks() {
    let r = NumberRewriter::new();
    assert!(texts(&r.rewrite("10000")).contains(&"一万".to_string()));
    assert!(texts(&r.rewrite("1234")).contains(&"千二百三十四".to_string()));
    assert!(
        texts(&r.rewrite("12345678")).contains(&"千二百三十四万五千六百七十八".to_string())
    );
    // inner zero ranks are skipped (no `〇万` for 10001)
    assert!(texts(&r.rewrite("10001")).contains(&"一万一".to_string()));
}

#[test]
fn zero_glyph_per_style() {
    let out = NumberRewriter::new().rewrite("0");
    assert_eq!(desc(&out, "〇"), Some("漢数字".to_string()));
    assert_eq!(desc(&out, "零"), Some("大字".to_string()));
    for input in ["00", "000", "0000"] {
        let t = texts(&NumberRewriter::new().rewrite(input));
        assert!(t.contains(&"〇".to_string()));
        assert!(t.contains(&"零".to_string()));
    }
}

#[test]
fn old_kanji_keeps_leading_one() {
    let r = NumberRewriter::new();
    assert!(texts(&r.rewrite("10")).contains(&"壱拾".to_string()));
    assert!(texts(&r.rewrite("100")).contains(&"壱百".to_string()));
    assert!(texts(&r.rewrite("1000")).contains(&"壱阡".to_string()));
    assert!(texts(&r.rewrite("10000")).contains(&"壱萬".to_string()));
}

#[test]
fn roman_only_for_1_through_12() {
    let r = NumberRewriter::new();
    assert!(texts(&r.rewrite("1")).contains(&"Ⅰ".to_string()));
    assert!(texts(&r.rewrite("1")).contains(&"ⅰ".to_string()));
    assert!(texts(&r.rewrite("12")).contains(&"Ⅻ".to_string()));
    let t = texts(&r.rewrite("13"));
    assert!(!t.iter().any(|s| s == "Ⅻ" || s == "ⅻ"));
}

#[test]
fn circled_for_0_through_50() {
    let r = NumberRewriter::new();
    assert!(texts(&r.rewrite("0")).contains(&"⓪".to_string()));
    assert!(texts(&r.rewrite("1")).contains(&"①".to_string()));
    assert!(texts(&r.rewrite("20")).contains(&"⑳".to_string()));
    assert!(texts(&r.rewrite("50")).contains(&"㊿".to_string()));
    assert!(!texts(&r.rewrite("51")).iter().any(|s| s == "㊿"));
}

#[test]
fn radix() {
    let r = NumberRewriter::new();
    let t = texts(&r.rewrite("1234"));
    assert!(t.contains(&"0x4d2".to_string()));
    assert!(t.contains(&"02322".to_string()));
    assert!(t.contains(&"0b10011010010".to_string()));
}

#[test]
fn descriptions_match_mozc() {
    let r = NumberRewriter::new();
    let out = r.rewrite("1234");
    assert_eq!(desc(&out, "千二百三十四"), Some("漢数字".to_string()));
    assert_eq!(desc(&out, "壱阡弐百参拾四"), Some("大字".to_string()));
    assert_eq!(desc(&out, "0x4d2"), Some("16進数".to_string()));
    assert_eq!(desc(&out, "02322"), Some("8進数".to_string()));
    assert_eq!(desc(&out, "0b10011010010"), Some("2進数".to_string()));

    let out = r.rewrite("12");
    assert_eq!(desc(&out, "Ⅻ"), Some("ローマ数字(大文字)".to_string()));
    assert_eq!(desc(&out, "ⅻ"), Some("ローマ数字(小文字)".to_string()));
    assert_eq!(desc(&out, "⑫"), Some("丸数字".to_string()));
}

#[test]
fn number_does_not_emit_self() {
    let r = NumberRewriter::new();
    for input in ["1", "123", "1234", "12345"] {
        let t = texts(&r.rewrite(input));
        assert!(
            !t.iter().any(|s| s == input),
            "{} in its own variants",
            input
        );
    }
}

#[test]
fn very_large_number_skips_radix() {
    let r = NumberRewriter::new();
    let t = texts(&r.rewrite("99999999999999999999")); // 20 digits, > u64::MAX
    assert!(!t.iter().any(|s| s.starts_with("0x")));
    assert!(!t.iter().any(|s| s.starts_with("0b")));
}

#[test]
fn radix_forms_have_no_leading_zeros() {
    let t = texts(&NumberRewriter::new().rewrite("255"));
    assert!(t.contains(&"0xff".to_string()));
    assert!(t.contains(&"0377".to_string()));
    assert!(t.contains(&"0b11111111".to_string()));
    let t = texts(&NumberRewriter::new().rewrite("0"));
    assert!(t.contains(&"0x0".to_string()));
    assert!(t.contains(&"0b0".to_string()));
}

#[test]
fn daiji_keeps_every_one_and_skips_zero_segments() {
    let t = texts(&NumberRewriter::new().rewrite("10001"));
    assert!(t.contains(&"壱萬壱".to_string()));
    let t = texts(&NumberRewriter::new().rewrite("100000000"));
    assert!(t.contains(&"一億".to_string()));
}

#[test]
fn past_the_largest_big_rank_there_is_no_kanji_form() {
    // 29 digits: eight four-digit segments, one more than 秭 covers.
    let t = texts(&NumberRewriter::new().rewrite("10000000000000000000000000000"));
    assert!(!t.iter().any(|s| s.contains('秭')));
    // 28 digits: 10^27, the largest power that still has a kanji form.
    let t = texts(&NumberRewriter::new().rewrite("1000000000000000000000000000"));
    assert!(t.contains(&"千秭".to_string()));
    // 25 digits: 10^24 is exactly one 秭.
    let t = texts(&NumberRewriter::new().rewrite("1000000000000000000000000"));
    assert!(t.contains(&"一秭".to_string()));
}

#[test]
fn number_never_offers_the_candidate_itself_or_a_text_twice() {
    let r = NumberRewriter::new();
    for input in ["0", "7", "12", "１２３", "255", "10001", "99999999"] {
        let t = texts(&r.rewrite(input));
        for (i, a) in t.iter().enumerate() {
            assert_ne!(a, input, "{input} offered itself");
            assert!(!t[i + 1..].contains(a), "{a} offered twice for {input}");
        }
    }
}
