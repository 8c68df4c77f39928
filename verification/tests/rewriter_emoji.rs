use karukan::rewriter::emoji::{EmojiEntry, EmojiRewriter, MAX_TRIGGER_CANDIDATES};
use karukan::rewriter::Rewriter;

fn texts(out: &[(String, Option<String>)]) -> Vec<String> {
    out.iter().map(|(t, _)| t.clone()).collect()
}

fn desc(out: &[(String, Option<String>)], text: &str) -> Option<String> {
    out.iter().find(|(t, _)| t == text).and_then(|(_, d)| d.clone())
}

fn rewriter() -> EmojiRewriter {
    EmojiRewriter::new()
}

fn assert_surfaces(query: &str, emoji: &str) {
    let out = texts(&rewriter().rewrite(query));
    assert!(
        out.contains(&emoji.to_string()),
        "expected {} from `{}`, got {:?}",
        emoji,
        query,
        out
    );
}

fn assert_does_not_surface(query: &str, emoji: &str) {
    let out = texts(&rewriter().rewrite(query));
    assert!(
        !out.contains(&emoji.to_string()),
        "did NOT expect {} from `{}`, got {:?}",
        emoji,
        query,
        out
    );
}

// ---------- :trigger subseq matching ----------

#[test]
fn trigger_exact_match() {
    assert_surfaces(":smile", "😄");
}

#[test]
fn trigger_subseq_matches_deep_substring() {
    // `:halo` matches `smiling_face_with_halo` via h-a-l-o subseq.
    assert_surfaces(":halo", "😇");
}

#[test]
fn trigger_subseq_skips_chars_inside_a_word() {
    // `:hlo` skips `a` inside the trailing `halo` to reach 😇.
    assert_surfaces(":hlo", "😇");
}

#[test]
fn trigger_subseq_skips_separator_chars_too() {
    // `:smhlo` walks s-m from `smiling`, hops over `_face_with_`,
    // then picks up h-l-o in `halo`.
    assert_surfaces(":smhlo", "😇");
}

#[test]
fn trigger_skip_inside_word_still_matches() {
    // `:smle` skips the `i` inside `smile`.
    assert_surfaces(":smle", "😄");
}

#[test]
fn trigger_out_of_order_rejects() {
    // m-l-s-i is not a subseq of s-m-i-l-e.
    assert_does_not_surface(":mlsi", "😄");
}

#[test]
fn trigger_uppercase_rejects() {
    // All triggers are ASCII lowercase, so `:SMILE` simply has
    // no subseq match anywhere — no special-case needed.
    let out = rewriter().rewrite(":SMILE");
    assert!(
        out.is_empty(),
        "expected no match for :SMILE, got {:?}",
        out
    );
}

#[test]
fn trigger_accepts_plus_in_body() {
    // `+1` is the classic Slack alias for 👍.
    assert_surfaces(":+1", "👍");
}

// ---------- description annotation ----------

#[test]
fn trigger_description_carries_matched_trigger_and_label() {
    let out = rewriter().rewrite(":smile");
    let d = desc(&out, "😄").expect("😄 should have a description");
    assert!(
        d.contains(":smile") && d.contains("絵文字"),
        "expected `:smile` and `絵文字` in description, got `{}`",
        d
    );
}

#[test]
fn trigger_description_shows_full_trigger_for_partial_query() {
    // `:pie` matches the romaji trigger `pien`; the description
    // shows the full `:pien` so the user sees what they're
    // completing to.
    let out = rewriter().rewrite(":pie");
    let d = desc(&out, "🥺").expect("🥺 should have a description");
    assert!(
        d.contains(":pien"),
        "expected `:pien` in description, got `{}`",
        d
    );
}

// ---------- hiragana reading lookup ----------

#[test]
fn hiragana_reading_surfaces_emoji() {
    assert_surfaces("ぴえん", "🥺");
    assert_surfaces("おねがい", "🥺");
}

#[test]
fn hiragana_unrelated_reading_rejects() {
    let out = rewriter().rewrite("きょうとし");
    assert!(out.is_empty(), "expected no match, got {:?}", texts(&out));
}

// ---------- precomputed romaji triggers ----------

#[test]
fn romaji_trigger_surfaces_emoji() {
    // Direct romaji of a Mozc reading reaches the emoji because
    // the porter emitted it into the trigger table.
    assert_surfaces(":pien", "🥺");
    let out = texts(&rewriter().rewrite(":warai"));
    assert!(
        out.contains(&"😁".to_string()) || out.contains(&"😂".to_string()),
        "expected 😁 or 😂 from :warai, got {:?}",
        out
    );
}

#[test]
fn romaji_silent_n_variant_surfaces_emoji() {
    // The porter emits both `kiniku` (silent ん) and `kinniku`
    // (explicit double-n) for the reading `きんにく`, so users
    // typing either spelling reach 💪.
    assert_surfaces(":kiniku", "💪");
    assert_surfaces(":kinniku", "💪");
}

// ---------- guardrails ----------

#[test]
fn emoji_empty_input_returns_empty() {
    assert!(rewriter().rewrite("").is_empty());
}

#[test]
fn colon_alone_returns_empty() {
    assert!(rewriter().rewrite(":").is_empty());
}

#[test]
fn unmatched_trigger_query_returns_empty() {
    let out = rewriter().rewrite(":xyzqq");
    assert!(
        out.is_empty(),
        "expected no match for :xyzqq, got {:?}",
        out
    );
}

#[test]
fn duplicate_triggers_for_same_emoji_dedupe() {
    // 😄 carries multiple triggers (`smile`, `happy`,
    // `grinning_face_with_smiling_eyes`); even when several
    // match, the emoji surfaces only once.
    let out = texts(&rewriter().rewrite(":smile"));
    let count = out.iter().filter(|t| *t == "😄").count();
    assert_eq!(count, 1, "😄 should appear once, got {:?}", out);
}

#[test]
fn longer_adjacent_runs_rank_first() {
    // `:hlo` meets h-l-o in `halo` with l-o adjacent (a run of 2), but
    // only scattered in `helicopter` (runs of 1).
    let t = texts(&rewriter().rewrite(":hlo"));
    assert_eq!(t.first().map(String::as_str), Some("😇"));
    assert!(t.contains(&"🚁".to_string()));
}

#[test]
fn every_emoji_is_offered_once() {
    for q in [":s", ":a", ":i", "わらい"] {
        let t = texts(&rewriter().rewrite(q));
        for (i, a) in t.iter().enumerate() {
            assert!(!t[i + 1..].contains(a), "{a} twice for {q}");
        }
    }
}

#[test]
fn trigger_offers_are_capped_to_the_best_ranked() {
    // Thirty emoji whose triggers all contain `s`: the exact `s` trigger
    // ranks first, and only the cap's worth are offered.
    let mut entries = Vec::new();
    for i in 0..30u32 {
        let emoji = char::from_u32(0x1F600 + i).unwrap().to_string();
        let trigger = if i == 7 { "s".to_string() } else { format!("x{}s", "y".repeat(i as usize)) };
        entries.push(EmojiEntry { emoji, readings: vec![], triggers: vec![trigger] });
    }
    let r = EmojiRewriter::with_table(vec![], entries);
    let out = texts(&r.rewrite(":s"));
    assert_eq!(out.len(), MAX_TRIGGER_CANDIDATES);
    assert_eq!(out[0], char::from_u32(0x1F607).unwrap().to_string());
}
