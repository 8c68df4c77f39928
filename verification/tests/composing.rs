//! The chunk grid of a composition, driven the way the input method drives
//! it: keystrokes go into the input buffer, every edit shifts the manual
//! breaks, and the grid is a fresh split of the reading.

use karukan::engine::chunk::split::{group_chunks, trailing_chunks_start, ChunkLimits};
use karukan::engine::chunk::{caret_chunk_index, insert_break, shift_breaks};
use karukan::engine::input_buffer::InputBuffer;
use karukan::romaji::converter::RomajiConverter;

/// Default per-chunk symbol cap.
const SYMBOLS: usize = 1;
/// Digits stay out of the converter by default.
const DIGITS: usize = 0;
/// Alphabet chars stay out by default.
const ALPHABETS: usize = 0;

fn limits(chunk_chars: usize) -> ChunkLimits {
    ChunkLimits {
        chars: chunk_chars,
        symbols: SYMBOLS,
        digits: DIGITS,
        alphabets: ALPHABETS,
    }
}

struct Composer {
    buf: InputBuffer,
    conv: RomajiConverter,
    breaks: Vec<usize>,
    limits: ChunkLimits,
}

impl Composer {
    fn new(chunk_chars: usize) -> Self {
        Composer {
            buf: InputBuffer::new(),
            conv: RomajiConverter::new(),
            breaks: Vec::new(),
            limits: limits(chunk_chars),
        }
    }

    fn reading_len(&self) -> usize {
        self.buf.reading().chars().count()
    }

    /// Run a buffer edit, shifting the manual breaks with the text.
    fn edit(&mut self, f: impl FnOnce(&mut InputBuffer, &RomajiConverter)) {
        let old_len = self.reading_len();
        let old_pos = self.buf.reading_cursor();
        f(&mut self.buf, &self.conv);
        let new_len = self.reading_len();
        let pos = old_pos.min(self.buf.reading_cursor());
        self.breaks = shift_breaks(&self.breaks, pos, old_len, new_len);
    }

    fn press(&mut self, c: char) {
        self.edit(|buf, conv| buf.push_romaji(c, conv));
    }

    fn type_keys(&mut self, keys: &str) {
        for c in keys.chars() {
            self.press(c);
        }
    }

    fn insert(&mut self, text: &str) {
        self.buf.clear();
        self.buf.insert(text);
    }

    fn left(&mut self) {
        let pos = self.buf.cursor().saturating_sub(1);
        self.buf.set_cursor(pos);
    }

    fn home(&mut self) {
        self.buf.set_cursor(0);
    }

    fn ctrl_j(&mut self) {
        let pos = self.buf.reading_cursor();
        insert_break(&mut self.breaks, pos);
    }

    fn chunks(&self) -> Vec<String> {
        let chars: Vec<char> = self.buf.reading().chars().collect();
        group_chunks(&chars, self.limits, &self.breaks)
    }

    fn current_chunk_index(&self) -> usize {
        let lengths: Vec<usize> = self.chunks().iter().map(|c| c.chars().count()).collect();
        let cursor = self.buf.reading_cursor();
        caret_chunk_index(&lengths, cursor, self.breaks.contains(&cursor))
    }
}

#[test]
fn test_buffer_split_into_chunks_of_n_chars() {
    let mut c = Composer::new(2);
    c.type_keys("aiue");
    assert_eq!(c.buf.reading(), "あいうえ");
    assert_eq!(c.chunks(), vec!["あい", "うえ"]);
    for chunk in c.chunks() {
        assert!(chunk.chars().count() <= 2);
    }
}

#[test]
fn test_typed_punctuation_is_absorbed() {
    let mut c = Composer::new(40);
    c.type_keys("ha,ji");
    assert_eq!(c.buf.reading(), "は、じ");
    assert_eq!(c.chunks(), vec!["は、じ"]);

    c.press('.');
    assert_eq!(c.chunks(), vec!["は、じ", "。"]);
}

#[test]
fn test_long_digit_run_forms_its_own_chunk() {
    let mut c = Composer::new(40);
    c.type_keys("a1234i");
    assert_eq!(c.buf.reading(), "あ1234い");
    assert_eq!(c.chunks(), vec!["あ", "1234", "い"]);
}

#[test]
fn test_katakana_word_with_prolonged_mark_stays_one_chunk() {
    let mut c = Composer::new(40);
    c.insert("スーパーマーケット");
    assert_eq!(c.chunks(), vec!["スーパーマーケット"]);
}

#[test]
fn test_symbols_within_budget_stay_in_one_chunk() {
    let mut c = Composer::new(40);
    c.insert("あ、いうえ");
    assert_eq!(c.chunks(), vec!["あ、いうえ"]);
}

#[test]
fn test_last_chunk_may_be_shorter_than_n() {
    let mut c = Composer::new(2);
    c.type_keys("aiu");
    assert_eq!(c.chunks(), vec!["あい", "う"]);
}

#[test]
fn test_current_chunk_index_tracks_cursor() {
    let mut c = Composer::new(2);
    c.type_keys("aiue");
    assert_eq!(c.current_chunk_index(), 1);

    for _ in 0..4 {
        c.left();
    }
    assert_eq!(c.buf.reading_cursor(), 0);
    assert_eq!(c.current_chunk_index(), 0);
}

#[test]
fn test_current_chunk_index_with_variable_length_chunks() {
    let mut c = Composer::new(40);
    c.insert("あ1234いう");
    assert_eq!(c.chunks().len(), 3);

    for (pos, expected) in [(0, 0), (1, 0), (2, 1), (5, 1), (6, 2), (7, 2)] {
        c.buf.set_cursor(pos);
        assert_eq!(
            c.current_chunk_index(),
            expected,
            "cursor pos {pos} should be in chunk {expected}"
        );
    }
}

#[test]
fn test_ctrl_j_starts_a_new_chunk() {
    let mut c = Composer::new(40);
    c.type_keys("aiue");
    assert_eq!(c.chunks().len(), 1);

    c.ctrl_j();
    assert_eq!(c.breaks, vec![4]);

    c.press('o');
    assert_eq!(c.chunks(), vec!["あいうえ", "お"]);
}

#[test]
fn test_ctrl_j_overrides_symbol_absorption() {
    let mut c = Composer::new(40);
    c.type_keys("aiue");
    c.ctrl_j();
    c.press(',');
    assert_eq!(c.chunks(), vec!["あいうえ", "、"]);
}

#[test]
fn test_manual_break_shifts_with_edits_to_its_left() {
    let mut c = Composer::new(40);
    c.type_keys("aiue");
    c.ctrl_j();
    c.press('o');

    c.home();
    c.press('k');
    c.press('a');
    assert_eq!(c.buf.reading(), "かあいうえお");
    assert_eq!(c.chunks(), vec!["かあいうえ", "お"]);
}

#[test]
fn test_beam_span_grows_up_to_the_budget() {
    let chars: Vec<char> = "あいうえおか".chars().collect();
    let lim = limits(2);
    assert_eq!(trailing_chunks_start(&chars, lim, &[], 2), 4, "one chunk");
    assert_eq!(trailing_chunks_start(&chars, lim, &[], 4), 2, "two chunks");
    assert_eq!(trailing_chunks_start(&chars, lim, &[], 30), 0, "all of it");
}

#[test]
fn test_beam_span_stops_at_a_manual_break_and_at_digits() {
    let lim = limits(2);
    let chars: Vec<char> = "あいうえ".chars().collect();
    assert_eq!(trailing_chunks_start(&chars, lim, &[2], 30), 2, "manual break is a wall");

    let chars: Vec<char> = "あ12うえ".chars().collect();
    assert_eq!(trailing_chunks_start(&chars, lim, &[], 30), 3, "digits are a wall");
}

#[test]
fn armed_break_at_the_end_puts_the_caret_past_the_last_chunk() {
    let mut c = Composer::new(40);
    c.type_keys("aiue");
    c.ctrl_j();
    assert_eq!(c.current_chunk_index(), c.chunks().len());
    c.ctrl_j();
    assert_eq!(c.breaks, vec![4]);
}

#[test]
fn no_break_is_armed_at_the_start() {
    let mut c = Composer::new(40);
    c.type_keys("aiue");
    c.home();
    c.ctrl_j();
    assert!(c.breaks.is_empty());
}
