use karukan::rewriter::half_katakana::HalfWidthKatakanaRewriter;
use karukan::rewriter::Rewriter;
use karukan::rewriter::half_katakana::katakana_to_half_width;

fn texts(out: &[(String, Option<String>)]) -> Vec<String> {
    out.iter().map(|(t, _)| t.clone()).collect()
}

fn desc(out: &[(String, Option<String>)], text: &str) -> Option<String> {
    out.iter().find(|(t, _)| t == text).and_then(|(_, d)| d.clone())
}

#[test]
fn half_katakana_empty_input_returns_empty() {
    let r = HalfWidthKatakanaRewriter;
    assert!(r.rewrite("").is_empty());
}

#[test]
fn pure_kanji_returns_empty() {
    let r = HalfWidthKatakanaRewriter;
    assert!(r.rewrite("競技").is_empty());
}

#[test]
fn pure_ascii_returns_empty() {
    let r = HalfWidthKatakanaRewriter;
    assert!(r.rewrite("abc").is_empty());
}

#[test]
fn hiragana_emits_full_and_half() {
    let r = HalfWidthKatakanaRewriter;
    assert_eq!(
        texts(&r.rewrite("あいう")),
        vec!["アイウ".to_string(), "ｱｲｳ".to_string()]
    );
}

#[test]
fn full_katakana_emits_half_only() {
    let r = HalfWidthKatakanaRewriter;
    assert_eq!(texts(&r.rewrite("アイウ")), vec!["ｱｲｳ".to_string()]);
}

#[test]
fn voiced_dakuten_expands() {
    let r = HalfWidthKatakanaRewriter;
    assert_eq!(
        texts(&r.rewrite("がっこう")),
        vec!["ガッコウ".to_string(), "ｶﾞｯｺｳ".to_string()]
    );
}

#[test]
fn mixed_kanji_kana_returns_empty() {
    let r = HalfWidthKatakanaRewriter;
    // Mixed kanji + kana inputs (typical model output) must NOT be rewritten:
    // turning `愛してる` into `愛ｼﾃﾙ` is nonsense.
    assert!(r.rewrite("競技プログラミング").is_empty());
    assert!(r.rewrite("愛してる").is_empty());
    assert!(r.rewrite("漢字あ").is_empty());
}

#[test]
fn half_katakana_does_not_emit_self() {
    let r = HalfWidthKatakanaRewriter;
    let out = r.rewrite("ｱｲｳ");
    assert!(!out.iter().any(|(s, _)| s == "ｱｲｳ"));
}

#[test]
fn descriptions_match_width_form() {
    // Mozc-style width annotations: full-width katakana → `[全]カタカナ`,
    // half-width katakana → `[半]カタカナ`.
    let r = HalfWidthKatakanaRewriter;
    let out = r.rewrite("あいう");
    assert_eq!(desc(&out, "アイウ"), Some("[全]カタカナ".to_string()));
    assert_eq!(desc(&out, "ｱｲｳ"), Some("[半]カタカナ".to_string()));

    let out = r.rewrite("アイウ");
    assert_eq!(desc(&out, "ｱｲｳ"), Some("[半]カタカナ".to_string()));
}

#[test]
fn katakana_folds_to_half_width_with_separate_marks() {
    assert_eq!(katakana_to_half_width("ガッコウ"), "ｶﾞｯｺｳ");
    assert_eq!(katakana_to_half_width("パーティー"), "ﾊﾟｰﾃｨｰ");
    assert_eq!(katakana_to_half_width("ヴ"), "ｳﾞ");
    assert_eq!(katakana_to_half_width("abc"), "abc");
}

#[test]
fn half_katakana_never_offers_the_candidate_itself_or_a_text_twice() {
    let r = HalfWidthKatakanaRewriter;
    for input in ["カタカナ", "ガッコウ", "ｶﾀｶﾅ", "あいう", "パーティー"] {
        let t = texts(&r.rewrite(input));
        for (i, a) in t.iter().enumerate() {
            assert_ne!(a, input, "{input} offered itself");
            assert!(!t[i + 1..].contains(a), "{a} offered twice for {input}");
        }
    }
}
