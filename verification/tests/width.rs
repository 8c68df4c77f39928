use karukan::width::{has_width_pair, to_full_width, to_half_width, Width, WidthRules};

/// Every group at one width. `all(Width::Half)` is the "記号はすべて
/// 半角" setting.
fn all(width: Width) -> WidthRules {
    WidthRules {
        kana_symbol: width,
        ascii_symbol: width,
        digit: width,
    }
}

fn all_half() -> WidthRules {
    all(Width::Half)
}

fn all_full() -> WidthRules {
    all(Width::Full)
}

#[test]
fn the_default_is_full_width_kana_input_with_half_width_digits() {
    let rules = WidthRules::default();
    assert_eq!(rules.apply_str("。、「」・"), "。、「」・");
    assert_eq!(rules.apply_str("()[]?!"), "（）［］？！");
    assert_eq!(rules.apply_str("１２３"), "123");
    assert_eq!(rules.apply_str("abcあア亜"), "abcあア亜");
}

#[test]
fn half_and_full_fold_each_group() {
    let half = all_half();
    assert_eq!(half.apply_str("？！"), "?!");
    assert_eq!(half.apply_str("（）［］"), "()[]");
    assert_eq!(half.apply_str("＠：；"), "@:;");
    assert_eq!(half.apply_str("１２３"), "123");

    let full = all_full();
    assert_eq!(full.apply_str("()[]{}"), "（）［］｛｝");
    assert_eq!(full.apply_str("@#%"), "＠＃％");
    assert_eq!(full.apply_str("123"), "１２３");

    // `~` types 〜 (U+301C); the full-width tilde ～ (U+FF5E) other
    // sources produce belongs to the same group and folds with it.
    assert_eq!(full.apply_str("~"), "〜");
    assert_eq!(half.apply_str("〜～"), "~~");
}

#[test]
fn the_kana_symbols_are_their_own_group() {
    // 「記号は半角」 must not reach them: that is what the split is for.
    let symbols_only = WidthRules {
        ascii_symbol: Width::Half,
        ..WidthRules::default()
    };
    assert_eq!(symbols_only.apply_str("。、「」・？"), "。、「」・?");
    // Asking for them explicitly still gives the half-width katakana
    // forms.
    let marks_too = WidthRules {
        kana_symbol: Width::Half,
        ..symbols_only
    };
    assert_eq!(marks_too.apply_str("。、「」・？"), "｡､｢｣･?");
}

#[test]
fn groups_are_independent() {
    // Full-width digits next to half-width symbols and letters.
    let rules = WidthRules {
        kana_symbol: Width::Full,
        ascii_symbol: Width::Half,
        digit: Width::Full,
    };
    assert_eq!(rules.apply_str("。"), "。");
    assert_eq!(rules.apply_str("（1）"), "(１)");
}

#[test]
fn applying_twice_changes_nothing() {
    for rules in [all_half(), all_full(), WidthRules::default()] {
        for text in ["。、「」・()[]?!~123abc@", "（）［］？！〜１２３ＡＢＣ＠"]
        {
            let once = rules.apply_str(text);
            assert_eq!(rules.apply_str(&once), once, "{text} is not idempotent");
        }
    }
}

#[test]
fn whole_string_conversions_cover_every_group() {
    assert_eq!(to_half_width("（１）ＡＢ？。"), "(1)AB?｡");
    assert_eq!(to_full_width("(1)AB?｡"), "（１）ＡＢ？。");
    // Kana and kanji have no pair and ride through untouched.
    assert_eq!(to_half_width("あ漢ア"), "あ漢ア");
    assert!(has_width_pair('。'));
    assert!(has_width_pair('1'));
    assert!(!has_width_pair('あ'));
    assert!(!has_width_pair('漢'));
}
