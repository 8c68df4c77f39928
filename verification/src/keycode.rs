//! Key symbols, modifier flags and key events as the frontends deliver
//! them.

use vstd::prelude::*;

use crate::text::{ascii_lower, ascii_upper, char_from_u32, push_char};

verus! {

/// A key symbol (XKB keysym value).
#[derive(Debug, Clone, Copy, PartialEq, Eq, Hash, Structural)]
pub struct Keysym(pub u32);

/// Whether a keysym value is a printable ASCII character (space to `~`).
pub open spec fn spec_printable(v: u32) -> bool {
    0x20 <= v <= 0x7e
}

/// The keysyms of the right-side modifiers and the JIS 変換 key.
pub open spec fn spec_mode_toggle(v: u32) -> bool {
    v == 0xffea || v == 0xffec || v == 0xffe8 || v == 0xffee || v == 0xff23
}

/// The keysyms of the modifier keys, both sides.
pub open spec fn spec_modifier(v: u32) -> bool {
    (0xffe1 <= v <= 0xffe4) || (0xffe7 <= v <= 0xffee)
}

/// Keysym values of the keys the engine handles by name. Each is the value
/// a [`Keysym`] holds: `Keysym(Keysym::BACKSPACE)`.
impl Keysym {
    pub const BACKSPACE: u32 = 0xff08;
    pub const TAB: u32 = 0xff09;
    /// Shift+Tab as X11 delivers it (a keysym of its own).
    pub const ISO_LEFT_TAB: u32 = 0xfe20;
    pub const RETURN: u32 = 0xff0d;
    pub const ESCAPE: u32 = 0xff1b;
    pub const DELETE: u32 = 0xffff;
    pub const HOME: u32 = 0xff50;
    pub const LEFT: u32 = 0xff51;
    pub const UP: u32 = 0xff52;
    pub const RIGHT: u32 = 0xff53;
    pub const DOWN: u32 = 0xff54;
    pub const PAGE_UP: u32 = 0xff55;
    pub const PAGE_DOWN: u32 = 0xff56;
    pub const END: u32 = 0xff57;
    pub const SHIFT_L: u32 = 0xffe1;
    pub const SHIFT_R: u32 = 0xffe2;
    pub const CONTROL_L: u32 = 0xffe3;
    pub const CONTROL_R: u32 = 0xffe4;
    pub const ALT_L: u32 = 0xffe9;
    pub const ALT_R: u32 = 0xffea;
    pub const META_L: u32 = 0xffe7;
    pub const META_R: u32 = 0xffe8;
    pub const SUPER_L: u32 = 0xffeb;
    pub const SUPER_R: u32 = 0xffec;
    pub const HYPER_L: u32 = 0xffed;
    pub const HYPER_R: u32 = 0xffee;
    /// The JIS 変換 key.
    pub const HENKAN: u32 = 0xff23;
    pub const SPACE: u32 = 0x0020;

    /// Whether this keysym types a printable ASCII character.
    pub fn is_printable(&self) -> (r: bool)
        ensures
            r == spec_printable(self.0),
    {
        0x20 <= self.0 && self.0 <= 0x7e
    }

    /// The character this keysym types, if printable.
    pub fn to_char(&self) -> (r: Option<char>)
        ensures
            r == if spec_printable(self.0) {
                Some(self.0 as char)
            } else {
                None::<char>
            },
    {
        if self.is_printable() {
            char_from_u32(self.0)
        } else {
            None
        }
    }

    /// The value of a digit key 1 to 9.
    pub fn digit_value(&self) -> (r: Option<usize>)
        ensures
            r == if 0x31 <= self.0 <= 0x39 {
                Some((self.0 - 0x30) as usize)
            } else {
                None::<usize>
            },
    {
        if 0x31 <= self.0 && self.0 <= 0x39 {
            Some((self.0 - 0x30) as usize)
        } else {
            None
        }
    }

    /// The letter this keysym types, lowercased; `None` for anything but
    /// an ASCII letter.
    pub fn letter(&self) -> (r: Option<char>)
        ensures
            r == if (0x41 <= self.0 <= 0x5a) || (0x61 <= self.0 <= 0x7a) {
                Some(ascii_lower(self.0 as char))
            } else {
                None::<char>
            },
    {
        match self.to_char() {
            Some(c) => {
                if 'A' <= c && c <= 'Z' {
                    char_from_u32(c as u32 + 32)
                } else if 'a' <= c && c <= 'z' {
                    Some(c)
                } else {
                    None
                }
            },
            None => None,
        }
    }

    /// Whether this key switches back to hiragana input: a right-side
    /// modifier, or the JIS 変換 key.
    pub fn is_mode_toggle_key(&self) -> (r: bool)
        ensures
            r == spec_mode_toggle(self.0),
    {
        self.0 == 0xffea || self.0 == 0xffec || self.0 == 0xffe8 || self.0 == 0xffee || self.0
            == 0xff23
    }

    /// Whether this is a modifier key.
    pub fn is_modifier(&self) -> (r: bool)
        ensures
            r == spec_modifier(self.0),
    {
        (0xffe1 <= self.0 && self.0 <= 0xffe4) || (0xffe7 <= self.0 && self.0 <= 0xffee)
    }

    /// How the keysym is shown: the character it types, or
    /// `Keysym(0x....)` with at least four lowercase hex digits.
    pub fn display_string(&self) -> (r: String)
        ensures
            spec_printable(self.0) ==> r@ == seq![self.0 as char],
            !spec_printable(self.0) ==> r@ == seq!['K', 'e', 'y', 's', 'y', 'm', '(', '0', 'x']
                + hex_digits(self.0 as nat, 4) + seq![')'],
    {
        let mut s = String::new();
        match self.to_char() {
            Some(c) => {
                push_char(&mut s, c);
            },
            None => {
                push_char(&mut s, 'K');
                push_char(&mut s, 'e');
                push_char(&mut s, 'y');
                push_char(&mut s, 's');
                push_char(&mut s, 'y');
                push_char(&mut s, 'm');
                push_char(&mut s, '(');
                push_char(&mut s, '0');
                push_char(&mut s, 'x');
                let digits = hex_exec(self.0, 4);
                let mut i: usize = 0;
                let ghost before = s@;
                while i < digits.len()
                    invariant
                        i <= digits.len(),
                        s@ == before + digits@.take(i as int),
                    decreases digits.len() - i,
                {
                    push_char(&mut s, digits[i]);
                    i += 1;
                    assert(s@ =~= before + digits@.take(i as int));
                }
                assert(digits@.take(digits.len() as int) =~= digits@);
                push_char(&mut s, ')');
            },
        }
        s
    }
}

/// The lowercase hex digit for `d` below sixteen.
pub open spec fn hex_char(d: nat) -> char {
    if d < 10 {
        ((d as int) + 48) as char
    } else {
        ((d as int) + 87) as char
    }
}

/// `v` in lowercase hex, zero-padded to at least `width` digits.
pub open spec fn hex_digits(v: nat, width: nat) -> Seq<char>
    decreases v + width,
{
    if v == 0 && width == 0 {
        Seq::empty()
    } else {
        let w = if width > 0 {
            (width - 1) as nat
        } else {
            0nat
        };
        hex_digits(v / 16, w).push(hex_char(v % 16))
    }
}

fn hex_exec(v: u32, width: usize) -> (r: Vec<char>)
    ensures
        r@ == hex_digits(v as nat, width as nat),
    decreases v, width,
{
    if v == 0 && width == 0 {
        Vec::new()
    } else {
        let w = if width > 0 {
            width - 1
        } else {
            0
        };
        let mut r = hex_exec(v / 16, w);
        let d = v % 16;
        let c = if d < 10 {
            char_from_u32(d + 48)
        } else {
            char_from_u32(d + 87)
        };
        match c {
            Some(c) => r.push(c),
            None => {},
        }
        r
    }
}

impl From<char> for Keysym {
    /// Printable keys are spelled as the character they type: a Latin-1
    /// keysym is its code point.
    fn from(c: char) -> (r: Keysym) {
        Keysym(c as u32)
    }
}

impl vstd::std_specs::convert::FromSpecImpl<char> for Keysym {
    open spec fn obeys_from_spec() -> bool {
        true
    }

    open spec fn from_spec(c: char) -> Keysym {
        Keysym(c as u32)
    }
}

/// Modifier flags held with a key.
#[derive(Debug, Clone, Copy, PartialEq, Eq, Structural)]
pub struct KeyModifiers {
    pub shift_key: bool,
    pub control_key: bool,
    pub alt_key: bool,
    pub super_key: bool,
}

impl KeyModifiers {
    /// XKB `ShiftMask`.
    pub const SHIFT_MASK: u32 = 1;
    /// XKB `ControlMask`.
    pub const CONTROL_MASK: u32 = 4;
    /// XKB `Mod1Mask`.
    pub const ALT_MASK: u32 = 8;
    /// XKB `Mod4Mask`.
    pub const SUPER_MASK: u32 = 64;

    /// Whether any modifier is held.
    pub fn any(&self) -> (r: bool)
        ensures
            r == (self.shift_key || self.control_key || self.alt_key || self.super_key),
    {
        self.shift_key || self.control_key || self.alt_key || self.super_key
    }

    /// Decode a bitmask of XKB modifier flags.
    pub fn from_modifier_state(state: u32) -> (r: Self)
        ensures
            r.shift_key == (state & 1 != 0),
            r.control_key == (state & 4 != 0),
            r.alt_key == (state & 8 != 0),
            r.super_key == (state & 64 != 0),
    {
        KeyModifiers {
            shift_key: (state & 1) != 0,
            control_key: (state & 4) != 0,
            alt_key: (state & 8) != 0,
            super_key: (state & 64) != 0,
        }
    }

    /// No modifier held.
    pub fn new() -> (r: Self)
        ensures
            !r.shift_key && !r.control_key && !r.alt_key && !r.super_key,
    {
        KeyModifiers { shift_key: false, control_key: false, alt_key: false, super_key: false }
    }

    /// The same flags with Shift set to `shift`.
    pub fn with_shift(self, shift: bool) -> (r: Self)
        ensures
            r == (KeyModifiers { shift_key: shift, ..self }),
    {
        KeyModifiers { shift_key: shift, ..self }
    }

    /// The same flags with Control set to `control`.
    pub fn with_control(self, control: bool) -> (r: Self)
        ensures
            r == (KeyModifiers { control_key: control, ..self }),
    {
        KeyModifiers { control_key: control, ..self }
    }

    /// Whether no modifier is held.
    pub fn is_empty(&self) -> (r: bool)
        ensures
            r == (!self.shift_key && !self.control_key && !self.alt_key && !self.super_key),
    {
        !self.shift_key && !self.control_key && !self.alt_key && !self.super_key
    }
}

impl Default for KeyModifiers {
    fn default() -> (r: Self)
        ensures
            !r.shift_key && !r.control_key && !r.alt_key && !r.super_key,
    {
        KeyModifiers::new()
    }
}

/// A key event.
#[derive(Debug, Clone, Copy)]
pub struct KeyEvent {
    /// The key symbol.
    pub keysym: Keysym,
    /// Modifier state.
    pub modifiers: KeyModifiers,
    /// Press (true) or release (false).
    pub is_press: bool,
}

/// Whether an event is a printable press with neither Control nor Alt.
pub open spec fn spec_printable_press(e: KeyEvent) -> bool {
    e.is_press && spec_printable(e.keysym.0) && !e.modifiers.control_key && !e.modifiers.alt_key
}

impl KeyEvent {
    pub fn new(keysym: Keysym, modifiers: KeyModifiers, is_press: bool) -> (r: Self)
        ensures
            r.keysym == keysym,
            r.modifiers == modifiers,
            r.is_press == is_press,
    {
        KeyEvent { keysym, modifiers, is_press }
    }

    /// A press without modifiers.
    pub fn press(keysym: Keysym) -> (r: Self)
        ensures
            r.keysym == keysym,
            r.modifiers == KeyModifiers::spec_none(),
            r.is_press,
    {
        KeyEvent::new(keysym, KeyModifiers::new(), true)
    }

    /// Whether this is a printable press with neither Control nor Alt.
    pub fn is_printable_press(&self) -> (r: bool)
        ensures
            r == spec_printable_press(*self),
    {
        self.is_press && self.keysym.is_printable() && !self.modifiers.control_key
            && !self.modifiers.alt_key
    }

    /// The character a printable press types (see [`KeyEvent::to_char`]).
    pub open spec fn spec_char(self) -> Option<char> {
        if spec_printable_press(self) {
            Some(
                if self.modifiers.shift_key {
                    ascii_upper(self.keysym.0 as char)
                } else {
                    self.keysym.0 as char
                },
            )
        } else {
            None::<char>
        }
    }

    /// The character a printable press types; Shift uppercases a letter
    /// whichever way the frontend spells it.
    pub fn to_char(&self) -> (r: Option<char>)
        ensures
            r == if spec_printable_press(*self) {
                Some(
                    if self.modifiers.shift_key {
                        ascii_upper(self.keysym.0 as char)
                    } else {
                        self.keysym.0 as char
                    },
                )
            } else {
                None::<char>
            },
    {
        if !self.is_printable_press() {
            return None;
        }
        match self.keysym.to_char() {
            None => None,
            Some(c) => {
                if self.modifiers.shift_key && 'a' <= c && c <= 'z' {
                    char_from_u32(c as u32 - 32)
                } else {
                    Some(c)
                }
            },
        }
    }
}

impl KeyModifiers {
    /// The flags with nothing held.
    pub open spec fn spec_none() -> KeyModifiers {
        KeyModifiers { shift_key: false, control_key: false, alt_key: false, super_key: false }
    }
}

} // verus!
