use karukan::engine::aux_text::{format_aux_composing, format_aux_suggest, mode_indicator};
use karukan::engine::keys::InputMode;

#[test]
fn mode_indicator_shows_live_mode_and_persona() {
    assert_eq!(mode_indicator(InputMode::Hiragana, false, ""), "[あ]");
    assert_eq!(mode_indicator(InputMode::Hiragana, true, ""), "⚡[あ]");
    assert_eq!(mode_indicator(InputMode::Hiragana, true, "プログラミング"), "⚡[あ]P:プログラミング");
    assert_eq!(mode_indicator(InputMode::Alphabet, false, ""), "[A]");
    assert_eq!(mode_indicator(InputMode::Katakana, false, ""), "[カ]");
    assert_eq!(mode_indicator(InputMode::Emoji, false, ""), "[☺]");
}

#[test]
fn composing_aux_line() {
    assert_eq!(format_aux_composing("[あ]", "わせだ", "d", "jinen", ""), "[あ] わせだd Karukan (jinen)");
    assert_eq!(format_aux_composing("[あ]", "", "", "jinen", ""), "[あ] Karukan (jinen)");
    assert_eq!(
        format_aux_composing("[あ]", "あ", "", "jinen", "lctx: 今日"),
        "[あ] あ Karukan (jinen) | lctx: 今日"
    );
}

#[test]
fn suggest_aux_line() {
    assert_eq!(format_aux_suggest("[あ]", "わせだ", "d", "", 12, 3, "jinen"), "[あ] わせだd | 12ms/3ms | jinen");
    assert_eq!(
        format_aux_suggest("[あ]", "きょう", "", "lctx: 昨日", 0, 105, "jinen"),
        "[あ] きょう | ctx: lctx: 昨日 | 0ms/105ms | jinen"
    );
}
