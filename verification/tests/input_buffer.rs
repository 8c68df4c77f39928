use karukan::engine::input_buffer::InputBuffer;
use karukan::romaji::converter::RomajiConverter;

fn typed(keys: &str) -> (InputBuffer, RomajiConverter) {
    let conv = RomajiConverter::new();
    let mut buf = InputBuffer::new();
    for c in keys.chars() {
        buf.push_romaji(c, &conv);
    }
    (buf, conv)
}

#[test]
fn typing_converts_at_the_caret() {
    let (buf, _) = typed("kyou");
    assert_eq!(buf.display(), "きょう");
    assert_eq!(buf.cursor(), 3);
    assert_eq!(buf.char_count(), 3);
    assert_eq!(buf.pending(), "");
    assert_eq!(buf.reading(), "きょう");
}

#[test]
fn pending_keystrokes_stay_live_and_out_of_the_reading() {
    let (buf, _) = typed("kak");
    assert_eq!(buf.display(), "かk");
    assert_eq!(buf.pending(), "k");
    assert_eq!(buf.reading(), "か");
    assert_eq!(buf.reading_cursor(), 1);
}

#[test]
fn erasing_a_passed_through_consonant_lets_the_rest_recombine() {
    let (mut buf, conv) = typed("ykt");
    assert_eq!(buf.display(), "ykt");
    assert!(buf.backspace(&conv));
    assert_eq!(buf.display(), "yk");
    buf.push_romaji('o', &conv);
    assert_eq!(buf.display(), "yこ");
}

#[test]
fn backspace_at_the_start_does_nothing() {
    let conv = RomajiConverter::new();
    let mut buf = InputBuffer::new();
    assert!(!buf.backspace(&conv));
    assert!(buf.is_empty());
    assert!(!buf.delete_at_cursor(&conv));
}

#[test]
fn delete_removes_the_element_at_the_caret() {
    let (mut buf, conv) = typed("aiu");
    buf.set_cursor(1);
    assert!(buf.delete_at_cursor(&conv));
    assert_eq!(buf.display(), "あう");
    assert_eq!(buf.cursor(), 1);
}

#[test]
fn set_cursor_clamps_to_the_end() {
    let (mut buf, _) = typed("ka");
    buf.set_cursor(10);
    assert_eq!(buf.cursor(), 1);
}

#[test]
fn settling_forces_the_romaji_tail_and_matches_the_settled_reading() {
    let (mut buf, conv) = typed("kan");
    assert_eq!(buf.display(), "かn");
    let before = buf.settled_reading(&conv);
    assert_eq!(before, "かn");
    buf.settle_romaji(&conv);
    assert_eq!(buf.display(), before);
    assert_eq!(buf.pending(), "");
    assert_eq!(buf.cursor(), 2);
}

#[test]
fn settling_converts_a_small_tsu_tail() {
    let (mut buf, conv) = typed("ltu");
    assert_eq!(buf.display(), "っ");
    buf.settle_romaji(&conv);
    assert_eq!(buf.display(), "っ");
}

#[test]
fn baking_katakana_keeps_live_keystrokes() {
    let (mut buf, _) = typed("kak");
    buf.bake_katakana();
    assert_eq!(buf.display(), "カk");
    assert_eq!(buf.cursor(), 2);
}

#[test]
fn direct_input_and_inserted_text_are_settled() {
    let conv = RomajiConverter::new();
    let mut buf = InputBuffer::new();
    buf.push_direct('A');
    buf.insert("漢字");
    assert_eq!(buf.display(), "A漢字");
    assert_eq!(buf.cursor(), 3);
    buf.push_romaji('k', &conv);
    assert_eq!(buf.pending(), "k");
    assert_eq!(buf.reading(), "A漢字");
    buf.clear();
    assert!(buf.is_empty());
    assert_eq!(buf.cursor(), 0);
}

#[test]
fn typing_in_the_middle_leaves_the_right_side_alone() {
    let (mut buf, conv) = typed("aiu");
    buf.set_cursor(1);
    buf.push_romaji('k', &conv);
    buf.push_romaji('a', &conv);
    assert_eq!(buf.display(), "あかいう");
    assert_eq!(buf.cursor(), 2);
}

#[test]
fn display_is_the_reading_with_the_pending_keystrokes_at_the_reading_caret() {
    let (mut buf, conv) = typed("aiu");
    buf.set_cursor(1);
    buf.push_romaji('k', &conv);
    let reading = buf.reading();
    let at = buf.reading_cursor();
    let chars: Vec<char> = reading.chars().collect();
    let rebuilt: String = chars[..at].iter().collect::<String>() + &buf.pending()
        + &chars[at..].iter().collect::<String>();
    assert_eq!(rebuilt, buf.display());
}

#[test]
fn test_stranded_consonant_stays_in_place() {
    let (mut buf, conv) = typed("y1k");
    assert_eq!(buf.display(), "y1k");
    // Only the k (adjacent to the caret) is being typed; y is stranded.
    assert_eq!(buf.reading(), "y1");
    assert_eq!(buf.pending(), "k");

    buf.push_romaji('a', &conv);
    assert_eq!(buf.display(), "y1か");
    assert_eq!(buf.reading(), "y1か");
    assert_eq!(buf.pending(), "");
}

/// Send keys one at a time: `←` moves the caret left, `⇥` to the end, `⌫`
/// erases before the caret; anything else is typed as romaji.
fn send(buf: &mut InputBuffer, conv: &RomajiConverter, keys: &str) {
    for ch in keys.chars() {
        match ch {
            '←' => {
                let pos = buf.cursor().saturating_sub(1);
                buf.set_cursor(pos);
            }
            '⇥' => {
                let end = buf.char_count();
                buf.set_cursor(end);
            }
            '⌫' => {
                buf.backspace(conv);
            }
            c => buf.push_romaji(c, conv),
        }
    }
}

/// Each step sends keys, then checks the display; `text@n` also checks the
/// caret, and `∅` an empty buffer.
#[test]
fn editing_scenarios_on_the_buffer() {
    let cases: &[(&str, &[(&str, &str)])] = &[
        ("ykt_backspace_then_o", &[("ykt", "ykt"), ("⌫", "yk"), ("o", "yこ")]),
        (
            "ytko_backspace_recombines_stepwise",
            &[("ytko", "ytこ"), ("⌫", "yt"), ("o", "yと"), ("⌫", "y"), ("o", "よ")],
        ),
        ("kyt_backspace_then_o", &[("kyt", "kyt"), ("⌫", "ky"), ("o", "きょ")]),
        ("kk_backspace_keeps_sokuon", &[("kk", "っk"), ("⌫", "っ"), ("a", "っあ")]),
        ("nk_backspace_keeps_n", &[("nk", "んk"), ("⌫", "ん"), ("a", "んあ")]),
        ("kyo_backspace_then_o", &[("kyo", "きょ"), ("⌫", "き"), ("o", "きお")]),
        ("kan_backspace_to_empty", &[("kan", "かn"), ("⌫", "か"), ("⌫", "∅")]),
        (
            "consonant_run_backspace_to_empty",
            &[("ykt", "ykt"), ("⌫", "yk"), ("⌫", "y"), ("⌫", "∅")],
        ),
        ("cursor_move_keeps_pending_live", &[("ak", "あk"), ("←", "あk@1"), ("⇥o", "あこ")]),
        (
            "stranded_consonants_combine_after_cursor_return",
            &[("ky123", "ky123"), ("←←←", "ky123@2"), ("o", "きょ123@2")],
        ),
        (
            "ky123ni_cursor_return_combines",
            &[("ky123ni", "ky123に"), ("←←←←", "ky123に@2"), ("o", "きょ123に@2")],
        ),
        (
            "delete_separator_evaluates_joined_run",
            &[("ty1y", "ty1y"), ("←⌫", "tっy@2"), ("⇥o", "tっよ")],
        ),
        (
            "delete_separator_fires_sokuon",
            &[("yt1t", "yt1t"), ("←⌫", "yっt@2"), ("⇥o", "yっと")],
        ),
        (
            "prefixed_double_consonant_keeps_prefix",
            &[("tyy", "tっy"), ("⌫", "tっ"), ("⌫", "t"), ("a", "た")],
        ),
    ];

    for (name, steps) in cases {
        let conv = RomajiConverter::new();
        let mut buf = InputBuffer::new();
        for (keys, expected) in steps.iter() {
            send(&mut buf, &conv, keys);
            if *expected == "∅" {
                assert!(buf.is_empty(), "{name}: expected an empty buffer after {keys:?}");
                continue;
            }
            let (text, caret) = match expected.split_once('@') {
                Some((text, caret)) => (text, Some(caret.parse::<usize>().expect("caret number"))),
                None => (*expected, None),
            };
            assert_eq!(buf.display(), text, "{name}: after {keys:?}");
            if let Some(caret) = caret {
                assert_eq!(buf.cursor(), caret, "{name}: caret after {keys:?}");
            }
        }
    }
}
