use karukan::engine::keys::{
    composing_command, conversion_command, empty_command, CaretMotion, ComposingCommand,
    ConversionCommand, EmptyCommand, InputMode,
};
use karukan::keycode::{KeyEvent, KeyModifiers, Keysym};

fn press(c: char) -> KeyEvent {
    KeyEvent::press(Keysym(c as u32))
}

fn key(k: u32) -> KeyEvent {
    KeyEvent::press(Keysym(k))
}

fn ctrl(k: u32) -> KeyEvent {
    KeyEvent::new(Keysym(k), KeyModifiers::new().with_control(true), true)
}

fn shift(c: char) -> KeyEvent {
    KeyEvent::new(Keysym(c as u32), KeyModifiers::new().with_shift(true), true)
}

#[test]
fn empty_state_bindings() {
    assert_eq!(empty_command(key(Keysym::SPACE), false, InputMode::Hiragana, true), EmptyCommand::CommitFullwidthSpace);
    assert_eq!(empty_command(key(Keysym::SPACE), false, InputMode::Alphabet, true), EmptyCommand::PassThrough);
    assert_eq!(empty_command(ctrl(Keysym::SPACE), false, InputMode::Hiragana, true), EmptyCommand::StartWithFullwidthSpace);
    assert_eq!(empty_command(ctrl(Keysym::SPACE), false, InputMode::Hiragana, false), EmptyCommand::PassThrough);
    assert_eq!(empty_command(press(':'), false, InputMode::Hiragana, true), EmptyCommand::StartEmoji);
    assert_eq!(empty_command(key(0x3b), true, InputMode::Hiragana, true), EmptyCommand::StartEmoji);
    assert_eq!(
        empty_command(press(':'), false, InputMode::Alphabet, true),
        EmptyCommand::StartInput { ch: ':', enter_alphabet: false }
    );
    assert_eq!(empty_command(press('a'), false, InputMode::Hiragana, true), EmptyCommand::StartInput { ch: 'a', enter_alphabet: false });
    assert_eq!(empty_command(press('A'), false, InputMode::Hiragana, true), EmptyCommand::StartInput { ch: 'A', enter_alphabet: true });
    assert_eq!(empty_command(press('a'), true, InputMode::Hiragana, true), EmptyCommand::StartInput { ch: 'A', enter_alphabet: true });
    assert_eq!(empty_command(shift('1'), true, InputMode::Hiragana, true), EmptyCommand::StartInput { ch: '1', enter_alphabet: false });
    assert_eq!(empty_command(key(Keysym::SHIFT_L), true, InputMode::Hiragana, true), EmptyCommand::PassThrough);
    assert_eq!(empty_command(ctrl('a' as u32), false, InputMode::Hiragana, true), EmptyCommand::PassThrough);
}

#[test]
fn composing_bindings() {
    let m = InputMode::Hiragana;
    assert_eq!(composing_command(key(Keysym::RETURN), false, m, true), ComposingCommand::Commit);
    assert_eq!(composing_command(key(Keysym::ESCAPE), false, m, true), ComposingCommand::Cancel);
    assert_eq!(composing_command(key(Keysym::TAB), false, m, true), ComposingCommand::StartConversion { skip_learning: true });
    assert_eq!(composing_command(key(Keysym::SPACE), false, m, true), ComposingCommand::StartConversion { skip_learning: false });
    assert_eq!(
        composing_command(key(Keysym::SPACE), false, InputMode::Alphabet, true),
        ComposingCommand::Input { ch: ' ', enter_alphabet: false, bake_katakana: false }
    );
    assert_eq!(composing_command(ctrl('k' as u32), false, m, true), ComposingCommand::EnterKatakana);
    assert_eq!(composing_command(ctrl('A' as u32), false, m, true), ComposingCommand::CaretHome);
    assert_eq!(composing_command(ctrl('f' as u32), false, m, true), ComposingCommand::CaretRight);
    assert_eq!(composing_command(ctrl(Keysym::SPACE), false, m, false), ComposingCommand::PassThrough);
    assert_eq!(composing_command(key(Keysym::LEFT), false, m, true), ComposingCommand::CaretLeft);
    assert_eq!(
        composing_command(press('K'), false, InputMode::Katakana, true),
        ComposingCommand::Input { ch: 'K', enter_alphabet: true, bake_katakana: true }
    );
    assert_eq!(
        composing_command(press('k'), false, InputMode::Alphabet, true),
        ComposingCommand::Input { ch: 'k', enter_alphabet: false, bake_katakana: false }
    );
    assert_eq!(
        composing_command(press('k'), true, InputMode::Alphabet, true),
        ComposingCommand::Input { ch: 'K', enter_alphabet: false, bake_katakana: false }
    );
    assert_eq!(composing_command(ctrl('z' as u32), false, m, true), ComposingCommand::PassThrough);
    assert_eq!(composing_command(ctrl('t' as u32), false, m, true), ComposingCommand::StartFilteredConversion { forward: true });
    assert_eq!(composing_command(ctrl('R' as u32), false, m, true), ComposingCommand::StartFilteredConversion { forward: false });
    assert_eq!(composing_command(ctrl('i' as u32), false, m, true), ComposingCommand::ModelView);
    assert_eq!(composing_command(ctrl('j' as u32), false, m, true), ComposingCommand::ChunkBreak);
    assert_eq!(composing_command(ctrl('9' as u32), false, m, true), ComposingCommand::SelectSuggestion { digit: 9 });
    assert_eq!(
        composing_command(press('9'), false, m, true),
        ComposingCommand::Input { ch: '9', enter_alphabet: false, bake_katakana: false }
    );
}

#[test]
fn conversion_bindings() {
    let alt = KeyEvent::new(Keysym(Keysym::TAB), KeyModifiers::new().with_shift(false), true);
    assert_eq!(conversion_command(alt, false, false), ConversionCommand::NextCandidate);
    let shift_tab = KeyEvent::new(Keysym(Keysym::TAB), KeyModifiers::new().with_shift(true), true);
    assert_eq!(conversion_command(shift_tab, false, false), ConversionCommand::PrevCandidate);
    assert_eq!(conversion_command(key(Keysym::RETURN), false, false), ConversionCommand::Commit);
    assert_eq!(conversion_command(ctrl(Keysym::BACKSPACE), false, true), ConversionCommand::DeleteSelected);
    assert_eq!(conversion_command(ctrl(Keysym::BACKSPACE), false, false), ConversionCommand::Ignore);
    assert_eq!(conversion_command(key(Keysym::BACKSPACE), true, false), ConversionCommand::Refine);
    assert_eq!(conversion_command(key(Keysym::BACKSPACE), false, false), ConversionCommand::Backspace);
    assert_eq!(conversion_command(ctrl('t' as u32), false, false), ConversionCommand::CycleFilter { forward: true });
    assert_eq!(conversion_command(ctrl('T' as u32), false, false), ConversionCommand::CycleFilter { forward: true });
    assert_eq!(conversion_command(ctrl('r' as u32), false, false), ConversionCommand::CycleFilter { forward: false });
    assert_eq!(conversion_command(ctrl('R' as u32), false, false), ConversionCommand::CycleFilter { forward: false });
    assert_eq!(conversion_command(press('2'), false, false), ConversionCommand::Refine);
    assert_eq!(conversion_command(ctrl('2' as u32), false, false), ConversionCommand::SelectDigit { digit: 2 });
    assert_eq!(conversion_command(ctrl('0' as u32), false, false), ConversionCommand::Ignore);
    assert_eq!(conversion_command(ctrl('i' as u32), false, false), ConversionCommand::ModelView);
    assert_eq!(conversion_command(ctrl('j' as u32), true, false), ConversionCommand::ChunkBreak);
    assert_eq!(conversion_command(key(Keysym::HOME), true, false), ConversionCommand::LeaveToCaret { motion: CaretMotion::Home });
    assert_eq!(conversion_command(key(Keysym::END), false, false), ConversionCommand::LeaveToCaret { motion: CaretMotion::End });
    assert_eq!(conversion_command(ctrl('b' as u32), false, false), ConversionCommand::LeaveToCaret { motion: CaretMotion::Left });
    assert_eq!(conversion_command(key(Keysym::RIGHT), false, false), ConversionCommand::NextSegment);
    assert_eq!(conversion_command(key(Keysym::LEFT), false, false), ConversionCommand::PrevSegment);
    let shift_left = KeyEvent::new(Keysym(Keysym::LEFT), KeyModifiers::new().with_shift(true), true);
    assert_eq!(conversion_command(shift_left, false, false), ConversionCommand::ShrinkSegment);
    let shift_right = KeyEvent::new(Keysym(Keysym::RIGHT), KeyModifiers::new().with_shift(true), true);
    assert_eq!(conversion_command(shift_right, false, false), ConversionCommand::ExpandSegment);
    // Unbound chords and keys are consumed, never leaked.
    assert_eq!(conversion_command(ctrl('g' as u32), false, false), ConversionCommand::Ignore);
    assert_eq!(conversion_command(ctrl('w' as u32), false, false), ConversionCommand::Ignore);
    assert_eq!(conversion_command(key(0xffc2), false, false), ConversionCommand::Ignore);
    assert_eq!(conversion_command(press('a'), false, false), ConversionCommand::Refine);
    assert_eq!(conversion_command(ctrl('x' as u32), false, false), ConversionCommand::Ignore);
    let alt_ret = KeyEvent { keysym: Keysym(Keysym::RETURN), modifiers: KeyModifiers { shift_key: false, control_key: false, alt_key: true, super_key: false }, is_press: true };
    assert_eq!(conversion_command(alt_ret, false, false), ConversionCommand::PassThrough);
}
