use karukan::rewriter::alphabet::AlphabetRewriter;
use karukan::rewriter::Rewriter;

fn texts(out: &[(String, Option<String>)]) -> Vec<String> {
    out.iter().map(|(t, _)| t.clone()).collect()
}

fn desc(out: &[(String, Option<String>)], text: &str) -> Option<String> {
    out.iter().find(|(t, _)| t == text).and_then(|(_, d)| d.clone())
}

#[test]
fn empty_returns_empty() {
    assert!(AlphabetRewriter.rewrite("").is_empty());
}

#[test]
fn non_alpha_returns_empty() {
    assert!(AlphabetRewriter.rewrite("123").is_empty());
    assert!(AlphabetRewriter.rewrite("abc1").is_empty()); // mixed digits
    assert!(AlphabetRewriter.rewrite("hello world").is_empty()); // space
    assert!(AlphabetRewriter.rewrite("あ").is_empty());
    assert!(AlphabetRewriter.rewrite("競技").is_empty());
}

#[test]
fn lowercase_emits_three_variants() {
    let out = AlphabetRewriter.rewrite("abc");
    let t = texts(&out);
    assert!(t.contains(&"ABC".to_string()));
    assert!(t.contains(&"ａｂｃ".to_string()));
    assert!(t.contains(&"ＡＢＣ".to_string()));
    assert!(!t.iter().any(|s| s == "abc")); // self excluded
}

#[test]
fn uppercase_emits_three_variants() {
    let out = AlphabetRewriter.rewrite("ABC");
    let t = texts(&out);
    assert!(t.contains(&"abc".to_string()));
    assert!(t.contains(&"ａｂｃ".to_string()));
    assert!(t.contains(&"ＡＢＣ".to_string()));
    assert!(!t.iter().any(|s| s == "ABC"));
}

#[test]
fn fullwidth_lowercase_emits_three_variants() {
    let out = AlphabetRewriter.rewrite("ａｂｃ");
    let t = texts(&out);
    assert!(t.contains(&"abc".to_string()));
    assert!(t.contains(&"ABC".to_string()));
    assert!(t.contains(&"ＡＢＣ".to_string()));
    assert!(!t.iter().any(|s| s == "ａｂｃ"));
}

#[test]
fn mixed_case_emits_all_four_canonical_forms() {
    // `AbC` itself isn't one of the four canonical forms, so all four
    // appear as variants.
    let t = texts(&AlphabetRewriter.rewrite("AbC"));
    assert!(t.contains(&"abc".to_string()));
    assert!(t.contains(&"ABC".to_string()));
    assert!(t.contains(&"ａｂｃ".to_string()));
    assert!(t.contains(&"ＡＢＣ".to_string()));
}

#[test]
fn descriptions_match_width_and_case() {
    let out = AlphabetRewriter.rewrite("abc");
    assert_eq!(desc(&out, "ABC"), Some("[半]英大文字".to_string()));
    assert_eq!(desc(&out, "ａｂｃ"), Some("[全]英小文字".to_string()));
    assert_eq!(desc(&out, "ＡＢＣ"), Some("[全]英大文字".to_string()));
}

#[test]
fn single_letter_works() {
    let t = texts(&AlphabetRewriter.rewrite("a"));
    assert!(t.contains(&"A".to_string()));
    assert!(t.contains(&"ａ".to_string()));
    assert!(t.contains(&"Ａ".to_string()));
}

#[test]
fn alphabet_never_offers_the_candidate_itself_or_a_text_twice() {
    let r = AlphabetRewriter;
    for input in ["abc", "ABC", "ａｂｃ", "AbC", "x"] {
        let t = texts(&r.rewrite(input));
        for (i, a) in t.iter().enumerate() {
            assert_ne!(a, input, "{input} offered itself");
            assert!(!t[i + 1..].contains(a), "{a} offered twice for {input}");
        }
    }
}
