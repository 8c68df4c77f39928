use karukan::romaji::converter::RomajiConverter;
use karukan::romaji::style::{BracketStyle, PunctuationStyle, SlashStyle, SymbolStyle};

fn conv(raw: &str) -> (String, String) {
    let c = RomajiConverter::new();
    let r = c.convert(raw);
    (r.text, r.pending)
}

#[test]
fn test_basic_conversion() {
    assert_eq!(conv("ka"), ("か".to_string(), "".to_string()));
}

#[test]
fn test_buffering() {
    assert_eq!(conv("k"), ("".to_string(), "k".to_string()));
}

#[test]
fn test_sokuon() {
    assert_eq!(conv("kk"), ("っ".to_string(), "k".to_string()));
    assert_eq!(conv("kka"), ("っか".to_string(), "".to_string()));
}

#[test]
fn test_sokuon_after_rule_prefix_keeps_prefix() {
    // `ty` + `y`: the pair fires but the prefix must survive
    assert_eq!(conv("tyy"), ("tっ".to_string(), "y".to_string()));
    assert_eq!(conv("tyyu"), ("tっゆ".to_string(), "".to_string()));
    assert_eq!(conv("kyy"), ("kっ".to_string(), "y".to_string()));
    assert_eq!(conv("tss"), ("tっ".to_string(), "s".to_string()));
}

#[test]
fn test_n_context() {
    assert_eq!(conv("n"), ("".to_string(), "n".to_string()));
    assert_eq!(conv("na"), ("な".to_string(), "".to_string()));
}

#[test]
fn test_nn() {
    // "nn" converts immediately to ん
    assert_eq!(conv("nn"), ("ん".to_string(), "".to_string()));
    assert_eq!(conv("nni"), ("んい".to_string(), "".to_string()));
    assert_eq!(conv("nna"), ("んあ".to_string(), "".to_string()));
    assert_eq!(conv("nnk"), ("ん".to_string(), "k".to_string()));
}

#[test]
fn test_youon() {
    assert_eq!(conv("kya"), ("きゃ".to_string(), "".to_string()));
}

#[test]
fn test_flush() {
    let c = RomajiConverter::new();
    assert_eq!(c.flush_pending("k"), "k");
    assert_eq!(c.flush_pending("ltu"), "っ");
    assert_eq!(c.convert_flush("k"), "k");
    assert_eq!(c.convert_flush("kan"), "かn");
}

#[test]
fn test_is_rule_prefix() {
    let c = RomajiConverter::new();
    assert!(c.is_rule_prefix("k"));
    assert!(c.is_rule_prefix("ky"));
    assert!(c.is_rule_prefix("n"));
    assert!(!c.is_rule_prefix("1"));
    assert!(!c.is_rule_prefix("こ"));
    assert!(!c.is_rule_prefix("yk"));
}

#[test]
fn test_full_sentence() {
    // IME style: "nn" is always ん, so こんにちは requires 3 n's: "konnnichiha"
    // (ko -> こ, nn -> ん, ni -> に, chi -> ち, ha -> は)
    assert_eq!(conv("konnnichiha").0, "こんにちは");
}

#[test]
fn test_punctuation_passthrough() {
    assert_eq!(
        conv("kokohadoko?watashihadare?"),
        ("ここはどこ？わたしはだれ？".to_string(), "".to_string())
    );
}

#[test]
fn test_mixed_punctuation() {
    // 'c' stays pending because it could start 'ca', 'chi', etc.
    assert_eq!(conv("a!b?c"), ("あ！b？".to_string(), "c".to_string()));
    let c = RomajiConverter::new();
    assert_eq!(c.convert_flush("a!b?c"), "あ！b？c");
}

#[test]
fn test_watashiha() {
    assert_eq!(
        conv("kokohadoko?watashiha?"),
        ("ここはどこ？わたしは？".to_string(), "".to_string())
    );
}

#[test]
fn test_punctuation_then_youon() {
    // 'c' must stay pending after '?' until 'ya' completes 'cya'
    assert_eq!(conv("a?b?cya"), ("あ？b？ちゃ".to_string(), "".to_string()));
}

#[test]
fn each_style_types_its_own_pair() {
    for (style, comma, period) in [
        (PunctuationStyle::KutenTouten, "、", "。"),
        (PunctuationStyle::CommaPeriod, "，", "．"),
        (PunctuationStyle::ToutenPeriod, "、", "．"),
        (PunctuationStyle::CommaKuten, "，", "。"),
    ] {
        assert_eq!(
            (style.comma(), style.period()),
            (comma, period),
            "{style:?}"
        );
    }
    let default = SymbolStyle::default();
    assert_eq!(default.punctuation, PunctuationStyle::KutenTouten);
    assert_eq!(
        (default.bracket.open(), default.slash.slash()),
        ("「", "・")
    );
}

#[test]
fn outputs_are_never_ascii() {
    // The converter's contract: a rule output is always non-ASCII, so
    // the width rules — not the trie — decide half or full.
    let outputs = [
        PunctuationStyle::CommaPeriod.comma(),
        PunctuationStyle::CommaPeriod.period(),
        BracketStyle::Square.open(),
        BracketStyle::Square.close(),
        SlashStyle::Slash.slash(),
    ];
    for output in outputs {
        assert!(
            output.chars().all(|c| !c.is_ascii()),
            "{output} must not be ASCII"
        );
    }
}
