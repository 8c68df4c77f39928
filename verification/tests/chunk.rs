use karukan::engine::chunk::group_chunks;
use karukan::engine::chunk::caret_chunk_index;
use karukan::engine::chunk::shift_breaks;

/// The default per-chunk symbol cap.
const SYMBOLS: usize = 1;
/// Digits stay out of the converter by default.
const DIGITS: usize = 0;

/// Split with the default caps and no manual breaks.
fn split(s: &str, max: usize) -> Vec<String> {
    split_full(s, max, SYMBOLS, DIGITS, &[])
}

fn split_full(
    s: &str,
    max: usize,
    max_symbols: usize,
    max_digits: usize,
    breaks: &[usize],
) -> Vec<String> {
    let chars: Vec<char> = s.chars().collect();
    group_chunks(&chars, max, max_symbols, max_digits, breaks)
        .into_iter()
        .map(|c| c.iter().collect())
        .collect()
}

#[test]
fn chunk_japanese_run_splits_by_length_cap() {
    assert_eq!(split("あいうえお", 2), vec!["あい", "うえ", "お"]);
}

#[test]
fn chunk_long_japanese_run_hard_breaks() {
    assert_eq!(split("あいうえお", 3), vec!["あいう", "えお"]);
}

#[test]
fn chunk_a_run_of_marks_after_japanese_forms_one_chunk() {
    // The first mark rides along; the rest have no Japanese in front of
    // them, so they grow into a single verbatim chunk instead of
    // splitting one by one.
    assert_eq!(split("ア、、、、、", 40), vec!["ア、", "、、、、"]);
}

#[test]
fn chunk_a_mark_rides_along_with_the_japanese_around_it() {
    // The mark stays inline while the chunk has budget left, so 「おい、」
    // keeps converting as one unit instead of freezing 「おい」 (as 老)
    // the moment the mark is typed.
    assert_eq!(split("おい、", 10), vec!["おい、"]);
    assert_eq!(split("あ、いう", 10), vec!["あ、いう"]);
    assert_eq!(split("いいね！すごい", 10), vec!["いいね！すごい"]);
    assert_eq!(split("きごう〜", 10), vec!["きごう〜"]);
}

#[test]
fn chunk_mark_past_the_cap_forces_a_new_chunk() {
    // One mark per chunk by default: the second opens a new chunk even
    // directly after Japanese, which is roughly one clause each.
    assert_eq!(split("あ、い。う", 10), vec!["あ、い", "。", "う"]);
    assert_eq!(
        split("おい、おまえだよ。まて、こら", 20),
        vec!["おい、おまえだよ", "。", "まて、こら"]
    );
    // The kept mark stays put, so the left chunk is not reshaped.
    assert_eq!(split("すごい！？", 10), vec!["すごい！", "？"]);
    assert_eq!(split("は、じ。", 10), vec!["は、じ", "。"]);
}

#[test]
fn chunk_digits_ride_along_when_allowed() {
    // Raising the digit budget lets short runs go through the converter
    // with the text around them.
    assert_eq!(split_full("あ12い", 10, SYMBOLS, 4, &[]), vec!["あ12い"]);
    assert_eq!(
        split_full("だい3かい", 10, SYMBOLS, 4, &[]),
        vec!["だい3かい"]
    );
    // A run is kept whole or split off whole, never torn.
    assert_eq!(
        split_full("あ1234い", 40, SYMBOLS, 2, &[]),
        vec!["あ", "1234", "い"]
    );
}

#[test]
fn letters_never_ride_along() {
    // Latin text is passthrough, and an unresolved romaji tail must not
    // reach the converter as part of the reading.
    assert_eq!(split("あいk", 40), vec!["あい", "k"]);
}

#[test]
fn chunk_caps_are_configurable() {
    // Two marks per chunk.
    assert_eq!(
        split_full("あ、い。う", 10, 2, DIGITS, &[]),
        vec!["あ、い。う"]
    );
    // No marks at all: split at every one.
    assert_eq!(split_full("おい、", 10, 0, DIGITS, &[]), vec!["おい", "、"]);
}

#[test]
fn chunk_chunk_with_no_japanese_is_exempt_from_the_cap() {
    // A chunk never *starts* with absorbed symbols: with no Japanese in
    // front of them, digits/symbols form a verbatim chunk of their own,
    // growing to the length cap regardless of how many symbols it holds.
    assert_eq!(split("123あ", 40), vec!["123", "あ"]);
    assert_eq!(split("1233413！！〜〜", 40), vec!["1233413！！〜〜"]);
    assert_eq!(split("iPhone15", 40), vec!["iPhone15"]);
}

#[test]
fn chunk_non_japanese_run_is_capped_at_max() {
    assert_eq!(split("abcdef", 2), vec!["ab", "cd", "ef"]);
}

#[test]
fn chunk_katakana_word_with_prolonged_mark_stays_together() {
    // `ー` (U+30FC) lives in the katakana block, so a katakana word is one
    // Japanese chunk and is never split off as a symbol.
    assert_eq!(split("スーパーマーケット", 40), vec!["スーパーマーケット"]);
}

#[test]
fn chunk_middle_dot_counts_toward_the_symbol_cap() {
    // 中黒 ・ (U+30FB) sits in the katakana block but is special-cased as
    // a symbol: it is absorbed like any other mark and counts against the
    // cap.
    assert_eq!(split("ジョン・スミス", 40), vec!["ジョン・スミス"]);
    assert_eq!(split("あ・い・う・え", 40), vec!["あ・い", "・", "う・え"]);
}

#[test]
fn chunk_manual_breaks_force_boundaries() {
    assert_eq!(
        split_full("あいうえ", 40, SYMBOLS, DIGITS, &[2]),
        vec!["あい", "うえ"]
    );
    assert_eq!(
        split_full("あいうえ", 40, SYMBOLS, DIGITS, &[1, 3]),
        vec!["あ", "いう", "え"]
    );
    // A break at 0 or at the very end changes nothing.
    assert_eq!(split_full("あい", 40, SYMBOLS, DIGITS, &[0]), vec!["あい"]);
    assert_eq!(split_full("あい", 40, SYMBOLS, DIGITS, &[2]), vec!["あい"]);
}

#[test]
fn chunk_manual_break_splits_a_non_japanese_run() {
    assert_eq!(
        split_full("1234", 40, SYMBOLS, DIGITS, &[2]),
        vec!["12", "34"]
    );
}

#[test]
fn chunk_absorbed_symbols_count_against_the_length_cap() {
    assert_eq!(split("あ、いうえ", 3), vec!["あ、い", "うえ"]);
}

#[test]
fn chunks_lay_end_to_end_into_the_text() {
    let text = "あ、い。う1234えkお";
    let chars: Vec<char> = text.chars().collect();
    let chunks = group_chunks(&chars, 3, 1, 0, &[2, 5]);
    let joined: String = chunks.iter().flat_map(|c| c.iter()).collect();
    assert_eq!(joined, text);
    assert!(chunks.iter().all(|c| !c.is_empty() && c.len() <= 3));
}

#[test]
fn breaks_shift_with_an_insertion_right_of_them() {
    // Two characters typed at position 1: the break at 1 stays, the one at
    // 3 moves to 5.
    assert_eq!(shift_breaks(&vec![1, 3], 1, 4, 6), vec![1, 5]);
    // A deletion pulls breaks left but never past the edit point, and the
    // repeats it makes are dropped.
    assert_eq!(shift_breaks(&vec![2, 3, 4], 1, 5, 2), vec![1]);
    assert_eq!(shift_breaks(&vec![2, 5], 1, 5, 4), vec![1, 4]);
    // Breaks off the reading go.
    assert_eq!(shift_breaks(&vec![0, 3], 0, 3, 3), vec![3]);
    assert_eq!(shift_breaks(&vec![3], 0, 3, 1), vec![1]);
}

#[test]
fn caret_chunk_index_walks_the_chunk_lengths() {
    let lengths = vec![2, 3, 1];
    assert_eq!(caret_chunk_index(&lengths, 0, false), 0);
    assert_eq!(caret_chunk_index(&lengths, 2, false), 0);
    assert_eq!(caret_chunk_index(&lengths, 3, false), 1);
    assert_eq!(caret_chunk_index(&lengths, 2, true), 1);
    assert_eq!(caret_chunk_index(&lengths, 6, false), 2);
    assert_eq!(caret_chunk_index(&lengths, 6, true), 3);
    assert_eq!(caret_chunk_index(&vec![], 0, false), 0);
}
