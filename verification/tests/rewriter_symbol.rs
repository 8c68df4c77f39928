use karukan::rewriter::symbol::{description, SymbolRewriter};
use karukan::rewriter::Rewriter;

fn texts(out: &[(String, Option<String>)]) -> Vec<String> {
    out.iter().map(|(t, _)| t.clone()).collect()
}

fn desc(out: &[(String, Option<String>)], text: &str) -> Option<String> {
    out.iter().find(|(t, _)| t == text).and_then(|(_, d)| d.clone())
}

#[test]
fn open_kagi_returns_other_open_brackets() {
    let r = SymbolRewriter::new();
    let out = texts(&r.rewrite("「"));
    assert!(out.contains(&"『".to_string()));
    assert!(out.contains(&"【".to_string()));
    assert!(out.contains(&"（".to_string()));
    assert!(out.contains(&"〔".to_string()));
}

#[test]
fn close_kagi_returns_other_close_brackets() {
    let r = SymbolRewriter::new();
    let out = texts(&r.rewrite("」"));
    assert!(out.contains(&"』".to_string()));
    assert!(out.contains(&"】".to_string()));
    assert!(out.contains(&"）".to_string()));
}

#[test]
fn comma_returns_variants() {
    let r = SymbolRewriter::new();
    let out = texts(&r.rewrite("、"));
    assert!(out.contains(&"，".to_string()));
    assert!(out.contains(&",".to_string()));
}

#[test]
fn unknown_returns_empty() {
    // Arbitrary words / empty input have neither variant chains nor
    // reading entries in the symbol table.
    let r = SymbolRewriter::new();
    assert!(r.rewrite("競技").is_empty());
    assert!(r.rewrite("").is_empty());
    // (Single-kana readings like `あ` *do* hit reading entries from
    // mozc's symbol.tsv — see kakko/kagikakko tests below — so they're
    // intentionally not asserted to be empty here.)
}

#[test]
fn no_self_in_variants() {
    let r = SymbolRewriter::new();
    for key in SymbolRewriter::new().variant_keys().iter() {
        let out = texts(&r.rewrite(key));
        assert!(
            !out.iter().any(|s| s == key),
            "{} should not include self",
            key
        );
    }
}

#[test]
fn single_digit_emits_width_pair() {
    let r = SymbolRewriter::new();
    assert!(texts(&r.rewrite("1")).contains(&"１".to_string()));
    assert!(texts(&r.rewrite("１")).contains(&"1".to_string()));
    assert!(texts(&r.rewrite("0")).contains(&"０".to_string()));
    assert!(texts(&r.rewrite("9")).contains(&"９".to_string()));
}

#[test]
fn multi_digit_emits_width_pair() {
    let r = SymbolRewriter::new();
    assert!(texts(&r.rewrite("123")).contains(&"１２３".to_string()));
    assert!(texts(&r.rewrite("１２３")).contains(&"123".to_string()));
    assert!(texts(&r.rewrite("2026")).contains(&"２０２６".to_string()));
}

#[test]
fn pure_letters_are_left_to_the_alphabet_rewriter() {
    // That one covers case as well as width, so it owns `abc`.
    let r = SymbolRewriter::new();
    let out = texts(&r.rewrite("abc"));
    assert!(!out.iter().any(|s| s == "ａｂｃ"));
}

#[test]
fn a_mixed_run_offers_both_widths() {
    // What the engine passes in is the reading as displayed, which
    // under the default settings is itself mixed (symbols full, digits
    // half): both patterns have to come back from it.
    let r = SymbolRewriter::new();
    let out = r.rewrite("＜＞1234");
    assert_eq!(desc(&out, "＜＞１２３４"), Some("[全]記号".to_string()));
    assert_eq!(desc(&out, "<>1234"), Some("[半]記号".to_string()));

    // A form equal to the input is not a variant and is left out.
    let out = r.rewrite("（ａ１）");
    assert!(!texts(&out).contains(&"（ａ１）".to_string()));
    assert_eq!(desc(&out, "(a1)"), Some("[半]記号".to_string()));
}

#[test]
fn a_word_with_a_mark_in_it_is_not_converted() {
    // 「きょう。」 must not be offered as 「きょう｡」: the marks around a
    // word are not what the user is choosing a width for.
    let r = SymbolRewriter::new();
    let out = texts(&r.rewrite("きょう。"));
    assert!(!out.iter().any(|s| s == "きょう｡"));
}

#[test]
fn width_variants_are_annotated() {
    let r = SymbolRewriter::new();
    let out = r.rewrite("123");
    assert_eq!(desc(&out, "１２３"), Some("[全]数字".to_string()));
    let out = r.rewrite("１２３");
    assert_eq!(desc(&out, "123"), Some("[半]数字".to_string()));
}

#[test]
fn a_variant_the_chain_also_produces_still_gets_its_width_label() {
    // `｡` comes from 。's variant chain first; the width pair reaches it
    // second and supplies the label the chain has none for.
    let r = SymbolRewriter::new();
    let out = r.rewrite("。");
    assert_eq!(desc(&out, "｡"), Some("[半]記号".to_string()));
    // An entry the width pair does not reach keeps its own label.
    assert_eq!(desc(&out, "．"), Some("ピリオド".to_string()));

    let out = r.rewrite("@");
    // A name the table already carries is kept, with the width marker
    // in front of it.
    assert_eq!(desc(&out, "＠"), Some("[全]アットマーク".to_string()));
}

#[test]
fn double_quote_returns_variants() {
    let r = SymbolRewriter::new();
    let out = texts(&r.rewrite("\""));
    assert!(out.contains(&"”".to_string()));
    assert!(out.contains(&"“".to_string()));
    let out = texts(&r.rewrite("”"));
    assert!(out.contains(&"\"".to_string()));
    assert!(out.contains(&"“".to_string()));
}

#[test]
fn repeated_dots_emit_ellipsis() {
    let r = SymbolRewriter::new();
    assert!(texts(&r.rewrite("。。。")).contains(&"…".to_string()));
    assert!(texts(&r.rewrite("...")).contains(&"…".to_string()));
    assert!(texts(&r.rewrite("・・・")).contains(&"…".to_string()));
    assert!(texts(&r.rewrite("。。")).contains(&"‥".to_string()));
    assert!(texts(&r.rewrite("..")).contains(&"‥".to_string()));
    let out = texts(&r.rewrite("…"));
    assert!(out.contains(&"。。。".to_string()));
    assert!(out.contains(&"...".to_string()));
}

#[test]
fn paired_brackets_emit_other_pairs() {
    let r = SymbolRewriter::new();
    let out = texts(&r.rewrite("「」"));
    assert!(out.contains(&"『』".to_string()));
    assert!(out.contains(&"【】".to_string()));
    assert!(out.contains(&"（）".to_string()));
    let out = texts(&r.rewrite("()"));
    assert!(out.contains(&"「」".to_string()));
}

#[test]
fn ascii_symbol_pair_expands() {
    let r = SymbolRewriter::new();
    assert!(texts(&r.rewrite("@")).contains(&"＠".to_string()));
    assert!(texts(&r.rewrite("＠")).contains(&"@".to_string()));
}

// ---------- description tests ----------

#[test]
fn description_returns_mozc_label() {
    // These come from mozc's symbol.tsv via data/symbols.yml.
    assert_eq!(description("。").as_deref(), Some("句点"));
    assert_eq!(description("、").as_deref(), Some("読点"));
    assert_eq!(description("…").as_deref(), Some("三点リーダ"));
    assert_eq!(description("‥").as_deref(), Some("二点リーダ"));
    assert_eq!(description("「").as_deref(), Some("始めかぎ括弧"));
    assert_eq!(description("『』").as_deref(), Some("二重かぎ括弧"));
}

#[test]
fn description_returns_none_for_unknown() {
    assert_eq!(description("あ").as_deref(), None);
    assert_eq!(description("競技").as_deref(), None);
    assert_eq!(description("").as_deref(), None);
}

#[test]
fn rewriter_attaches_description_to_known_variants() {
    let r = SymbolRewriter::new();
    let out = r.rewrite("。。。");
    // `…` should come back with its description.
    assert_eq!(desc(&out, "…"), Some("三点リーダ".to_string()));
}

#[test]
fn rewriter_returns_none_for_undescribed_variants() {
    let r = SymbolRewriter::new();
    let out = r.rewrite("。");
    // `.` (ASCII period) has no mozc description in our YAML — must be None,
    // not a stale label from a different symbol.
    assert!(desc(&out, ".").is_none());
}

// ---------- reading → symbol lookup (from mozc's symbol.tsv) ----------

#[test]
fn kagikakko_reading_emits_paired_brackets() {
    // Typing the reading `かぎかっこ` should surface `「」` and `『』`
    // as candidates (mozc symbol.tsv parity).
    let r = SymbolRewriter::new();
    let out = r.rewrite("かぎかっこ");
    let texts: Vec<String> = out.iter().map(|(t, _)| t.clone()).collect();
    assert!(
        texts.contains(&"「」".to_string()),
        "「」 should appear for reading かぎかっこ, got: {:?}",
        texts
    );
    assert!(
        texts.contains(&"『』".to_string()),
        "『』 should appear for reading かぎかっこ, got: {:?}",
        texts
    );
    // The mozc-sourced description rides along on the candidate.
    assert_eq!(desc(&out, "「」"), Some("かぎ括弧".to_string()));
}

#[test]
fn kakko_reading_emits_many_bracket_pairs() {
    // The broader `かっこ` reading covers many bracket variants in
    // mozc's symbol.tsv.
    let r = SymbolRewriter::new();
    let out = r.rewrite("かっこ");
    let texts: Vec<String> = out.iter().map(|(t, _)| t.clone()).collect();
    for expected in ["「」", "『』", "（）", "【】"] {
        assert!(
            texts.iter().any(|t| t == expected),
            "{} should appear for reading かっこ, got: {:?}",
            expected,
            texts
        );
    }
}

#[test]
fn ascii_reading_lookup_matches_mozc() {
    // Mozc parity: typing the literal ASCII reading `<` should surface
    // every symbol that lists `<` as a reading in symbol.tsv — the
    // angle bracket, less-than-or-equal, triangles, etc. This was the
    // case the earlier porter intentionally filtered out; regenerating
    // entries: from symbol.tsv brings it back.
    let r = SymbolRewriter::new();
    let out = r.rewrite("<");
    let texts: Vec<String> = out.iter().map(|(t, _)| t.clone()).collect();
    for expected in ["〈", "‹", "＜", "≦", "◁", "◀"] {
        assert!(
            texts.iter().any(|t| t == expected),
            "{} should appear for ASCII reading <, got: {:?}",
            expected,
            texts
        );
    }
}

#[test]
fn multichar_ascii_reading_lookup_matches_mozc() {
    // `<<` (paired less-than) is a multi-char ASCII reading in mozc's
    // symbol.tsv mapping to `《`, `«`, `≪`. Typing `<<` should surface
    // these without going through the hiragana lookup.
    let r = SymbolRewriter::new();
    let out = r.rewrite("<<");
    let texts: Vec<String> = out.iter().map(|(t, _)| t.clone()).collect();
    for expected in ["《", "«", "≪"] {
        assert!(
            texts.iter().any(|t| t == expected),
            "{} should appear for ASCII reading <<, got: {:?}",
            expected,
            texts
        );
    }
}

#[test]
fn unknown_reading_yields_no_symbol_lookup() {
    // A plain Japanese word with no symbol-table reading should not
    // produce symbol candidates from this path.
    let r = SymbolRewriter::new();
    let out = r.rewrite("きょう");
    let texts: Vec<String> = out.iter().map(|(t, _)| t.clone()).collect();
    // None of these should appear from a plain word reading.
    for unexpected in ["「」", "『』", "（）"] {
        assert!(
            !texts.iter().any(|t| t == unexpected),
            "{} should not appear for reading きょう, got: {:?}",
            unexpected,
            texts
        );
    }
}

#[test]
fn symbol_never_offers_the_candidate_itself_or_a_text_twice() {
    let r = SymbolRewriter::new();
    for input in ["?", "？", "(", "「", "。", "~", "!?"] {
        let t = texts(&r.rewrite(input));
        for (i, a) in t.iter().enumerate() {
            assert_ne!(a, input, "{input} offered itself");
            assert!(!t[i + 1..].contains(a), "{a} offered twice for {input}");
        }
    }
}
