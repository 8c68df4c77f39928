use karukan::engine::composing::{cancel_choice, commit_choice, live_text_with_pending, CancelOutcome};
use karukan::engine::keys::InputMode;
use karukan::romaji::converter::RomajiConverter;

#[test]
fn return_commits_by_mode() {
    assert_eq!(commit_choice(InputMode::Hiragana, "きょう", "", None), Some(("きょう".to_string(), true)));
    assert_eq!(commit_choice(InputMode::Hiragana, "きょう", "今日", None), Some(("今日".to_string(), true)));
    assert_eq!(commit_choice(InputMode::Katakana, "きょう", "今日", None), Some(("キョウ".to_string(), true)));
    assert_eq!(
        commit_choice(InputMode::Emoji, ":smile", "", Some("😄".to_string())),
        Some(("😄".to_string(), false))
    );
    assert_eq!(commit_choice(InputMode::Emoji, ":xyz", "", None), Some((":xyz".to_string(), false)));
    assert_eq!(commit_choice(InputMode::Hiragana, "", "", None), None);
}

#[test]
fn escape_steps_back() {
    assert_eq!(cancel_choice(InputMode::Hiragana, true, "きょう"), CancelOutcome::ShowKana);
    assert_eq!(cancel_choice(InputMode::Hiragana, false, "きょう"), CancelOutcome::Clear);
    assert_eq!(cancel_choice(InputMode::Emoji, false, ":smi"), CancelOutcome::CommitLiteral(":smi".to_string()));
    assert_eq!(cancel_choice(InputMode::Emoji, false, ""), CancelOutcome::Clear);
}

#[test]
fn live_text_keeps_the_romaji_tail() {
    let conv = RomajiConverter::new();
    assert_eq!(live_text_with_pending(&conv, "早稲田", true, "d"), "早稲田d");
    assert_eq!(live_text_with_pending(&conv, "早稲田", true, "n"), "早稲田n");
    assert_eq!(live_text_with_pending(&conv, "早稲田", true, "ltu"), "早稲田っ");
    assert_eq!(live_text_with_pending(&conv, "早稲田", false, "d"), "");
    assert_eq!(live_text_with_pending(&conv, "", true, "d"), "");
}
