use karukan::engine::candidates::{next_filter, CandidateSource};
use karukan::engine::composing::commit_choice;
use karukan::engine::input_buffer::InputBuffer;
use karukan::engine::keys::{
    composing_command, conversion_command, empty_command, CaretMotion, ComposingCommand,
    ConversionCommand, EmptyCommand, InputMode,
};
use karukan::keycode::{KeyEvent, KeyModifiers, Keysym};
use karukan::romaji::converter::RomajiConverter;

const M: InputMode = InputMode::Hiragana;

fn press(c: char) -> KeyEvent {
    KeyEvent::press(Keysym(c as u32))
}

fn press_key(k: u32) -> KeyEvent {
    KeyEvent::press(Keysym(k))
}

fn press_ctrl(k: u32) -> KeyEvent {
    KeyEvent::new(Keysym(k), KeyModifiers::new().with_control(true), true)
}

/// Types `keys` the way the engine does: the first key through the empty
/// state's binding, the rest through composing's; each must be text input.
fn type_keys(keys: &str, conv: &RomajiConverter) -> InputBuffer {
    let mut buf = InputBuffer::new();
    for c in keys.chars() {
        let ch = if buf.is_empty() {
            match empty_command(press(c), false, M, true) {
                EmptyCommand::StartInput { ch, enter_alphabet: false } => ch,
                other => panic!("{c:?} did not start input: {other:?}"),
            }
        } else {
            match composing_command(press(c), false, M, true) {
                ComposingCommand::Input { ch, enter_alphabet: false, .. } => ch,
                other => panic!("{c:?} was not input: {other:?}"),
            }
        };
        buf.push_romaji(ch, conv);
    }
    buf
}

/// What Return commits from the composition.
fn commit(buf: &mut InputBuffer, conv: &RomajiConverter) -> String {
    assert_eq!(composing_command(press_key(Keysym::RETURN), false, M, true), ComposingCommand::Commit);
    buf.settle_romaji(conv);
    commit_choice(M, &buf.reading(), "", None).expect("something to commit").0
}

#[test]
fn test_thx_chars_not_lost() {
    let conv = RomajiConverter::new();
    assert_eq!(type_keys("t", &conv).display(), "t");
    assert_eq!(type_keys("th", &conv).display(), "th");
    let mut buf = type_keys("thx", &conv);
    assert_eq!(buf.display(), "thx");
    assert_eq!(commit(&mut buf, &conv), "thx");
}

#[test]
fn test_digit_starts_input_mode() {
    let conv = RomajiConverter::new();
    assert_eq!(
        empty_command(press('2'), false, M, true),
        EmptyCommand::StartInput { ch: '2', enter_alphabet: false }
    );
    assert_eq!(type_keys("2", &conv).display(), "2");
    assert_eq!(type_keys("20", &conv).display(), "20");
    let mut buf = type_keys("20seiki", &conv);
    assert_eq!(buf.display(), "20せいき");
    assert_eq!(commit(&mut buf, &conv), "20せいき");
}

#[test]
fn test_digit_in_middle_of_hiragana() {
    let conv = RomajiConverter::new();
    assert_eq!(type_keys("a", &conv).display(), "あ");
    assert_eq!(type_keys("a2", &conv).display(), "あ2");
}

#[test]
fn test_bare_digit_during_conversion_refines_instead_of_selecting() {
    // A bare digit in the conversion refines the reading through
    // composing; nothing is committed.
    let conv = RomajiConverter::new();
    let mut buf = type_keys("ai", &conv);
    assert_eq!(
        composing_command(press_key(Keysym::SPACE), false, M, true),
        ComposingCommand::StartConversion { skip_learning: false }
    );
    assert_eq!(conversion_command(press('2'), false, false), ConversionCommand::Refine);
    match composing_command(press('2'), false, M, true) {
        ComposingCommand::Input { ch, .. } => buf.push_romaji(ch, &conv),
        other => panic!("2 was not input: {other:?}"),
    }
    assert_eq!(buf.reading(), "あい2");
}

#[test]
fn test_ctrl_digit_with_no_suggestion_is_consumed() {
    // Ctrl+9 while composing is a selection, never passed on to the
    // application, whether or not a suggestion sits at 9.
    let conv = RomajiConverter::new();
    let _buf = type_keys("a", &conv);
    let cmd = composing_command(press_ctrl('9' as u32), false, M, true);
    assert_eq!(cmd, ComposingCommand::SelectSuggestion { digit: 9 });
    assert_ne!(cmd, ComposingCommand::PassThrough);
}

#[test]
fn test_cycle_visits_every_source_without_skipping() {
    let forward = conversion_command(press_ctrl('t' as u32), true, false);
    assert_eq!(forward, ConversionCommand::CycleFilter { forward: true });
    let mut at = next_filter(None, true);
    assert_eq!(at, CandidateSource::Learning);
    at = next_filter(Some(at), true);
    assert_eq!(at, CandidateSource::Dictionary);
    at = next_filter(Some(at), true);
    assert_eq!(at, CandidateSource::Model);
    at = next_filter(Some(at), true);
    assert_eq!(at, CandidateSource::Rewriter);
    at = next_filter(Some(at), true);
    assert_eq!(at, CandidateSource::Learning);
}

#[test]
fn test_uppercase_ctrl_t_without_shift_cycles_forward() {
    let key = KeyEvent::new(Keysym('T' as u32), KeyModifiers::new().with_control(true), true);
    assert_eq!(conversion_command(key, false, false), ConversionCommand::CycleFilter { forward: true });
    assert_eq!(next_filter(None, true), CandidateSource::Learning);
}

#[test]
fn test_ctrl_t_from_composing_opens_filtered_conversion() {
    let cmd = composing_command(press_ctrl('t' as u32), false, M, true);
    assert_eq!(cmd, ComposingCommand::StartFilteredConversion { forward: true });
    assert_eq!(next_filter(None, true), CandidateSource::Learning);
}

#[test]
fn test_ctrl_r_from_composing_opens_reverse_filtered_conversion() {
    let cmd = composing_command(press_ctrl('r' as u32), false, M, true);
    assert_eq!(cmd, ComposingCommand::StartFilteredConversion { forward: false });
    assert_eq!(next_filter(None, false), CandidateSource::Rewriter);
}

#[test]
fn test_home_end_in_conversion_return_to_composing_and_move_caret() {
    let conv = RomajiConverter::new();
    let mut buf = type_keys("kyou", &conv);
    assert_eq!(buf.cursor(), 3);
    assert_eq!(
        conversion_command(press_key(Keysym::HOME), false, false),
        ConversionCommand::LeaveToCaret { motion: CaretMotion::Home }
    );
    buf.set_cursor(0);
    assert_eq!(buf.cursor(), 0);
    assert_eq!(composing_command(press_key(Keysym::END), false, M, true), ComposingCommand::CaretEnd);
    buf.set_cursor(buf.char_count());
    assert_eq!(buf.cursor(), 3);
}

#[test]
fn test_ctrl_b_in_conversion_moves_caret_like_left() {
    let conv = RomajiConverter::new();
    let mut buf = type_keys("kyou", &conv);
    assert_eq!(
        conversion_command(press_ctrl('b' as u32), false, false),
        ConversionCommand::LeaveToCaret { motion: CaretMotion::Left }
    );
    buf.set_cursor(buf.cursor() - 1);
    assert_eq!(buf.cursor(), 2);
}
