use karukan::engine::chunk::split::{group_chunks, ChunkLimits};
use karukan::engine::chunk::split::trailing_chunks_start;

/// The default per-chunk symbol cap.
const SYMBOLS: usize = 1;
/// Digits stay out of the converter by default.
const DIGITS: usize = 0;
/// Alphabet chars stay out too by default.
const ALPHABETS: usize = 0;

/// Split with the default caps and no manual breaks.
fn split_default(s: &str, max: usize) -> Vec<String> {
    split_full(s, max, SYMBOLS, DIGITS, ALPHABETS, &[])
}

fn split_full(
    s: &str,
    max: usize,
    max_symbols: usize,
    max_digits: usize,
    max_alphabets: usize,
    breaks: &[usize],
) -> Vec<String> {
    let chars: Vec<char> = s.chars().collect();
    let limits = ChunkLimits {
        chars: max,
        symbols: max_symbols,
        digits: max_digits,
        alphabets: max_alphabets,
    };
    group_chunks(&chars, limits, breaks).into_iter().collect()
}

#[test]
fn empty_input_has_no_chunks() {
    assert!(split_default("", 40).is_empty());
}

#[test]
fn split_japanese_run_splits_by_length_cap() {
    assert_eq!(split_default("あいうえお", 2), vec!["あい", "うえ", "お"]);
}

#[test]
fn split_long_japanese_run_hard_breaks() {
    assert_eq!(split_default("あいうえお", 3), vec!["あいう", "えお"]);
}

#[test]
fn split_a_run_of_marks_after_japanese_forms_one_chunk() {
    // The first mark rides along; the rest have no Japanese in front of
    // them, so they grow into a single verbatim chunk instead of
    // splitting one by one.
    assert_eq!(split_default("ア、、、、、", 40), vec!["ア、", "、、、、"]);
}

#[test]
fn split_a_mark_rides_along_with_the_japanese_around_it() {
    // The mark stays inline while the chunk has budget left, so 「おい、」
    // keeps converting as one unit instead of freezing 「おい」 (as 老)
    // the moment the mark is typed.
    assert_eq!(split_default("おい、", 10), vec!["おい、"]);
    assert_eq!(split_default("あ、いう", 10), vec!["あ、いう"]);
    assert_eq!(split_default("いいね！すごい", 10), vec!["いいね！すごい"]);
    assert_eq!(split_default("きごう〜", 10), vec!["きごう〜"]);
}

#[test]
fn split_mark_past_the_cap_forces_a_new_chunk() {
    // One mark per chunk by default: the second opens a new chunk even
    // directly after Japanese, which is roughly one clause each.
    assert_eq!(split_default("あ、い。う", 10), vec!["あ、い", "。", "う"]);
    assert_eq!(
        split_default("おい、おまえだよ。まて、こら", 20),
        vec!["おい、おまえだよ", "。", "まて、こら"]
    );
    // The kept mark stays put, so the left chunk is not reshaped.
    assert_eq!(split_default("すごい！？", 10), vec!["すごい！", "？"]);
    assert_eq!(split_default("は、じ。", 10), vec!["は、じ", "。"]);
}

#[test]
fn split_digits_ride_along_when_allowed() {
    // Raising the digit budget lets short runs go through the converter
    // with the text around them.
    assert_eq!(
        split_full("だい3かい", 10, SYMBOLS, 1, ALPHABETS, &[]),
        vec!["だい3かい"]
    );
    assert_eq!(
        split_full("あ12い", 10, SYMBOLS, 2, ALPHABETS, &[]),
        vec!["あ12い"]
    );
    // The budget fills like the symbol one: the digits that fit ride
    // along and the rest form a chunk of their own.
    assert_eq!(
        split_full("あ1234", 40, SYMBOLS, 0, ALPHABETS, &[]),
        vec!["あ", "1234"]
    );
    assert_eq!(
        split_full("あ1234", 40, SYMBOLS, 1, ALPHABETS, &[]),
        vec!["あ1", "234"]
    );
    assert_eq!(
        split_full("あ1234", 40, SYMBOLS, 2, ALPHABETS, &[]),
        vec!["あ12", "34"]
    );
}

#[test]
fn alphabets_never_ride_along_by_default() {
    // Latin text is passthrough, and so is the unfired romaji tail.
    assert_eq!(split_default("あいk", 40), vec!["あい", "k"]);
    // Raising the budget lets it ride, like the other two.
    assert_eq!(
        split_full("これはRustです", 40, SYMBOLS, DIGITS, 4, &[]),
        vec!["これはRustです"]
    );
    assert_eq!(
        split_full("あいkかき", 40, SYMBOLS, DIGITS, 1, &[]),
        vec!["あいkかき"]
    );
    // Only after Japanese, though: a chunk still never starts with the
    // text it absorbs.
    assert_eq!(
        split_full("Rustで", 40, SYMBOLS, DIGITS, 4, &[]),
        vec!["Rust", "で"]
    );
}

#[test]
fn split_caps_are_configurable() {
    // Two marks per chunk.
    assert_eq!(
        split_full("あ、い。う", 10, 2, DIGITS, ALPHABETS, &[]),
        vec!["あ、い。う"]
    );
    // No marks at all: split at every one.
    assert_eq!(
        split_full("おい、", 10, 0, DIGITS, ALPHABETS, &[]),
        vec!["おい", "、"]
    );
}

#[test]
fn split_chunk_with_no_japanese_is_exempt_from_the_cap() {
    // A chunk never *starts* with absorbed symbols: with no Japanese in
    // front of them, digits/symbols form a verbatim chunk of their own,
    // growing to the length cap regardless of how many symbols it holds.
    assert_eq!(split_default("123あ", 40), vec!["123", "あ"]);
    assert_eq!(split_default("1233413！！〜〜", 40), vec!["1233413！！〜〜"]);
    assert_eq!(split_default("iPhone15", 40), vec!["iPhone15"]);
}

#[test]
fn split_non_japanese_run_is_capped_at_max() {
    assert_eq!(split_default("abcdef", 2), vec!["ab", "cd", "ef"]);
}

#[test]
fn split_katakana_word_with_prolonged_mark_stays_together() {
    // `ー` (U+30FC) lives in the katakana block, so a katakana word is one
    // Japanese chunk and is never split off as a symbol.
    assert_eq!(split_default("スーパーマーケット", 40), vec!["スーパーマーケット"]);
}

#[test]
fn split_middle_dot_counts_toward_the_symbol_cap() {
    // 中黒 ・ (U+30FB) sits in the katakana block but is special-cased as
    // a symbol: it is absorbed like any other mark and counts against the
    // cap.
    assert_eq!(split_default("ジョン・スミス", 40), vec!["ジョン・スミス"]);
    assert_eq!(split_default("あ・い・う・え", 40), vec!["あ・い", "・", "う・え"]);
}

#[test]
fn split_manual_breaks_force_boundaries() {
    assert_eq!(
        split_full("あいうえ", 40, SYMBOLS, DIGITS, ALPHABETS, &[2]),
        vec!["あい", "うえ"]
    );
    assert_eq!(
        split_full("あいうえ", 40, SYMBOLS, DIGITS, ALPHABETS, &[1, 3]),
        vec!["あ", "いう", "え"]
    );
    // A break at 0 or at the very end changes nothing.
    assert_eq!(
        split_full("あい", 40, SYMBOLS, DIGITS, ALPHABETS, &[0]),
        vec!["あい"]
    );
    assert_eq!(
        split_full("あい", 40, SYMBOLS, DIGITS, ALPHABETS, &[2]),
        vec!["あい"]
    );
}

#[test]
fn split_manual_break_splits_a_non_japanese_run() {
    assert_eq!(
        split_full("1234", 40, SYMBOLS, DIGITS, ALPHABETS, &[2]),
        vec!["12", "34"]
    );
}

#[test]
fn split_absorbed_symbols_count_against_the_length_cap() {
    assert_eq!(split_default("あ、いうえ", 3), vec!["あ、い", "うえ"]);
}

#[test]
fn trailing_span_takes_whole_japanese_chunks_within_the_budget() {
    let limits = ChunkLimits {
        chars: 2,
        symbols: SYMBOLS,
        digits: DIGITS,
        alphabets: ALPHABETS,
    };
    let chars: Vec<char> = "あいうえお".chars().collect();
    // Chunks あい|うえ|お: a budget of 3 takes お and うえ.
    assert_eq!(trailing_chunks_start(&chars, limits, &[], 3), 2);
    // The last chunk always counts, whatever the budget.
    assert_eq!(trailing_chunks_start(&chars, limits, &[], 0), 4);
    // A manual break is a wall.
    assert_eq!(trailing_chunks_start(&chars, limits, &[4], 10), 4);
    // A chunk without Japanese stops the span.
    let mixed: Vec<char> = "あい12".chars().collect();
    assert_eq!(trailing_chunks_start(&mixed, limits, &[], 10), 4);
}

#[test]
fn chunks_partition_the_text_and_respect_breaks() {
    let text = "これはRustです、1234。あ";
    let chars: Vec<char> = text.chars().collect();
    let limits = ChunkLimits {
        chars: 4,
        symbols: 1,
        digits: 0,
        alphabets: 0,
    };
    let chunks = group_chunks(&chars, limits, &[2, 9]);
    assert_eq!(chunks.concat(), text);
    assert!(chunks.iter().all(|c| !c.is_empty() && c.chars().count() <= 4));
    let mut at = 0;
    let mut boundaries = vec![0];
    for c in &chunks {
        at += c.chars().count();
        boundaries.push(at);
    }
    assert!(boundaries.contains(&2) && boundaries.contains(&9));
}

#[test]
fn japanese_chunks_keep_their_per_kind_budgets() {
    let limits = ChunkLimits { chars: 40, symbols: 1, digits: 2, alphabets: 1 };
    let chars: Vec<char> = "あ12345い、。うabえ".chars().collect();
    let chunks = group_chunks(&chars, limits, &[]);
    for c in &chunks {
        let first = c.chars().next().unwrap();
        let jp = |x: char| ('\u{3040}'..='\u{30FF}').contains(&x);
        if jp(first) {
            assert!(c.chars().filter(|x| x.is_ascii_digit()).count() <= 2, "{c}");
            assert!(c.chars().filter(|x| *x == '、' || *x == '。').count() <= 1, "{c}");
            assert!(c.chars().filter(|x| x.is_ascii_alphabetic()).count() <= 1, "{c}");
        } else {
            assert!(!c.chars().any(jp), "{c}");
        }
    }
    assert_eq!(chunks.concat(), "あ12345い、。うabえ");
}
