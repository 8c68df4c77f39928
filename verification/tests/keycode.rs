use karukan::keycode::{KeyEvent, KeyModifiers, Keysym};

#[test]
fn test_keysym_printable() {
    assert!(Keysym(0x0061).is_printable()); // 'a'
    assert!(Keysym(0x0041).is_printable()); // 'A'
    assert!(Keysym(0x0020).is_printable()); // space
    assert!(!Keysym(Keysym::BACKSPACE).is_printable());
    assert!(!Keysym(Keysym::RETURN).is_printable());
}

#[test]
fn test_keysym_to_char() {
    assert_eq!(Keysym(0x0061).to_char(), Some('a'));
    assert_eq!(Keysym(0x0041).to_char(), Some('A'));
    assert_eq!(Keysym(Keysym::BACKSPACE).to_char(), None);
}

#[test]
fn test_digit_value() {
    assert_eq!(Keysym::from('1').digit_value(), Some(1));
    assert_eq!(Keysym::from('9').digit_value(), Some(9));
    assert_eq!(Keysym::from('0').digit_value(), None);
    assert_eq!(Keysym::from('a').digit_value(), None);
}

#[test]
fn test_keysym_from_char() {
    assert_eq!(Keysym::from('a'), Keysym(0x0061));
    assert_eq!(Keysym::from('é'), Keysym(0x00e9));
}

#[test]
fn test_letter() {
    assert_eq!(Keysym::from('t').letter(), Some('t'));
    assert_eq!(Keysym::from('T').letter(), Some('t'));
    assert_eq!(Keysym::from('1').letter(), None);
    assert_eq!(Keysym(Keysym::SPACE).letter(), None);
}

#[test]
fn test_key_event_shift_letter() {
    let shifted =
        |c| KeyEvent::new(Keysym::from(c), KeyModifiers::new().with_shift(true), true);
    assert_eq!(shifted('a').to_char(), Some('A'));
    assert_eq!(KeyEvent::press(Keysym::from('A')).to_char(), Some('A'));
    assert_eq!(shifted(';').to_char(), Some(';'));
}

#[test]
fn test_key_event_printable() {
    let event = KeyEvent::press(Keysym(0x0061));
    assert!(event.is_printable_press());
    assert_eq!(event.to_char(), Some('a'));

    let ctrl_a = KeyEvent::new(Keysym(0x0061), KeyModifiers::new().with_control(true), true);
    assert!(!ctrl_a.is_printable_press());
}

#[test]
fn display_string_shows_the_character_or_the_keysym_value() {
    assert_eq!(Keysym(0x0061).display_string(), "a");
    assert_eq!(Keysym(Keysym::BACKSPACE).display_string(), "Keysym(0xff08)");
    assert_eq!(Keysym(0x0001).display_string(), "Keysym(0x0001)");
    assert_eq!(Keysym(0x12345).display_string(), "Keysym(0x12345)");
}

#[test]
fn modifier_masks_decode_each_flag() {
    let m = KeyModifiers::from_modifier_state(KeyModifiers::SHIFT_MASK | KeyModifiers::SUPER_MASK);
    assert!(m.shift_key && m.super_key && !m.control_key && !m.alt_key);
    assert!(m.any());
    assert!(KeyModifiers::from_modifier_state(0).is_empty());
    assert!(Keysym(Keysym::HENKAN).is_mode_toggle_key());
    assert!(Keysym(Keysym::SUPER_R).is_mode_toggle_key());
    assert!(!Keysym(Keysym::SUPER_L).is_mode_toggle_key());
    assert!(Keysym(Keysym::CONTROL_L).is_modifier());
    assert!(!Keysym(Keysym::HENKAN).is_modifier());
}
