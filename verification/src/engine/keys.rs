//! What a key does in each state of the composition: the key bindings of
//! the empty state, of composing, and of the candidate conversion, each a
//! decision from the key and the few facts of the state it reads to the
//! command to carry out. Carrying the command out (editing the buffer,
//! running the conversion, updating the display) is the caller's.

use vstd::prelude::*;

use crate::keycode::{KeyEvent, Keysym};
use crate::text::{ascii_upper, upper_char};

verus! {

/// The input mode.
#[derive(Debug, Clone, Copy, PartialEq, Eq, Structural)]
pub enum InputMode {
    Hiragana,
    Katakana,
    Alphabet,
    Emoji,
}

/// An ASCII capital letter.
pub open spec fn is_upper(c: char) -> bool {
    'A' <= c && c <= 'Z'
}

/// An ASCII letter.
pub open spec fn is_letter(c: char) -> bool {
    ('A' <= c && c <= 'Z') || ('a' <= c && c <= 'z')
}

/// A letter typed with Shift: an uppercase keysym (the frontend may fold
/// Shift into it), or a letter with Shift held.
pub open spec fn shift_alpha(c: char, shift_active: bool) -> bool {
    is_upper(c) || (shift_active && is_letter(c))
}

/// Whether the keysym is the letter `lower` in either case.
pub open spec fn is_key(k: Keysym, lower: u32) -> bool {
    k.0 == lower || k.0 == lower - 32
}

fn key_is(k: Keysym, lower: u32) -> (r: bool)
    requires
        lower >= 32,
    ensures
        r == is_key(k, lower),
{
    k.0 == lower || k.0 == lower - 32
}

// ---------- the empty state ----------

/// What a key does with nothing composed.
#[derive(Debug, Clone, Copy, PartialEq, Eq, Structural)]
pub enum EmptyCommand {
    /// Not handled: the key goes to the application.
    PassThrough,
    /// Ctrl+Space: start composing with a full-width space.
    StartWithFullwidthSpace,
    /// Space in hiragana mode: commit a full-width space directly.
    CommitFullwidthSpace,
    /// `:` starts an emoji shortcode.
    StartEmoji,
    /// Start composing with `ch`; `enter_alphabet` switches to the
    /// temporary alphabet mode first.
    StartInput { ch: char, enter_alphabet: bool },
}

/// The empty-state binding of `key`.
pub open spec fn spec_empty_command(
    key: KeyEvent,
    shift_active: bool,
    mode: InputMode,
    ctrl_space_fullwidth: bool,
) -> EmptyCommand {
    let ctrl = key.modifiers.control_key;
    let alt = key.modifiers.alt_key;
    let ch = key.spec_char();
    if ctrl && key.keysym.0 == Keysym::SPACE {
        if ctrl_space_fullwidth {
            EmptyCommand::StartWithFullwidthSpace
        } else {
            EmptyCommand::PassThrough
        }
    } else if key.keysym.0 == Keysym::SPACE && !ctrl && !alt {
        if mode == InputMode::Hiragana {
            EmptyCommand::CommitFullwidthSpace
        } else {
            EmptyCommand::PassThrough
        }
    } else if (ch == Some(':') || (shift_active && key.keysym.0 == 0x3b)) && !ctrl && !alt && mode
        != InputMode::Alphabet {
        EmptyCommand::StartEmoji
    } else if ch is Some && !ctrl && !alt {
        let c = ch->0;
        let sa = shift_alpha(c, shift_active);
        EmptyCommand::StartInput {
            ch: if sa {
                ascii_upper(c)
            } else {
                c
            },
            enter_alphabet: sa,
        }
    } else {
        EmptyCommand::PassThrough
    }
}

/// The empty-state binding of `key` (see [`spec_empty_command`]).
pub fn empty_command(key: KeyEvent, shift_active: bool, mode: InputMode, ctrl_space_fullwidth: bool) -> (r:
    EmptyCommand)
    ensures
        r == spec_empty_command(key, shift_active, mode, ctrl_space_fullwidth),
{
    let ctrl = key.modifiers.control_key;
    let alt = key.modifiers.alt_key;
    let ch = key.to_char();
    if ctrl && key.keysym.0 == Keysym::SPACE {
        if ctrl_space_fullwidth {
            EmptyCommand::StartWithFullwidthSpace
        } else {
            EmptyCommand::PassThrough
        }
    } else if key.keysym.0 == Keysym::SPACE && !ctrl && !alt {
        if mode == InputMode::Hiragana {
            EmptyCommand::CommitFullwidthSpace
        } else {
            EmptyCommand::PassThrough
        }
    } else if (ch == Some(':') || (shift_active && key.keysym.0 == 0x3b)) && !ctrl && !alt && mode
        != InputMode::Alphabet {
        EmptyCommand::StartEmoji
    } else {
        match ch {
            Some(c) if !ctrl && !alt => {
                let sa = ('A' <= c && c <= 'Z') || (shift_active && (('A' <= c && c <= 'Z') || (
                'a' <= c && c <= 'z')));
                EmptyCommand::StartInput {
                    ch: if sa {
                        upper_char(c)
                    } else {
                        c
                    },
                    enter_alphabet: sa,
                }
            },
            _ => EmptyCommand::PassThrough,
        }
    }
}

// ---------- composing ----------

/// What a key does while composing.
#[derive(Debug, Clone, Copy, PartialEq, Eq, Structural)]
pub enum ComposingCommand {
    /// Not handled: the key goes to the application.
    PassThrough,
    /// Ctrl+Space: insert a full-width space.
    InsertFullwidthSpace,
    /// Ctrl+K: switch to katakana.
    EnterKatakana,
    /// Home, Ctrl+A.
    CaretHome,
    /// Left, Ctrl+B.
    CaretLeft,
    /// End, Ctrl+E.
    CaretEnd,
    /// Right, Ctrl+F.
    CaretRight,
    /// Return: commit the composition.
    Commit,
    /// Escape: cancel it.
    Cancel,
    /// Erase before the caret.
    Backspace,
    /// Erase at the caret.
    Delete,
    /// Space, Down (with the learning history) or Tab (without it): open
    /// the conversion.
    StartConversion { skip_learning: bool },
    /// Ctrl+T (forward) / Ctrl+R (backward): open the conversion already
    /// narrowed one step along the source filter rotation.
    StartFilteredConversion { forward: bool },
    /// Ctrl+I: open the conversion on the model's view.
    ModelView,
    /// Ctrl+J: place a chunk break at the caret.
    ChunkBreak,
    /// Ctrl+1 … Ctrl+9: commit that suggestion of the window (consumed
    /// even when there is none).
    SelectSuggestion { digit: usize },
    /// Type `ch`. `enter_alphabet`: switch to the temporary alphabet mode
    /// first, after settling the romaji and baking katakana when
    /// `bake_katakana`.
    Input { ch: char, enter_alphabet: bool, bake_katakana: bool },
}

/// The composing binding of `key`.
pub open spec fn spec_composing_command(
    key: KeyEvent,
    shift_active: bool,
    mode: InputMode,
    ctrl_space_fullwidth: bool,
) -> ComposingCommand {
    let ctrl = key.modifiers.control_key;
    let k = key.keysym;
    if ctrl && k.0 == Keysym::SPACE {
        if ctrl_space_fullwidth {
            ComposingCommand::InsertFullwidthSpace
        } else {
            ComposingCommand::PassThrough
        }
    } else if ctrl && is_key(k, 0x6b) {
        ComposingCommand::EnterKatakana
    } else if ctrl && is_key(k, 0x61) {
        ComposingCommand::CaretHome
    } else if ctrl && is_key(k, 0x62) {
        ComposingCommand::CaretLeft
    } else if ctrl && is_key(k, 0x65) {
        ComposingCommand::CaretEnd
    } else if ctrl && is_key(k, 0x66) {
        ComposingCommand::CaretRight
    } else if ctrl && is_key(k, 0x74) {
        ComposingCommand::StartFilteredConversion { forward: true }
    } else if ctrl && is_key(k, 0x72) {
        ComposingCommand::StartFilteredConversion { forward: false }
    } else if ctrl && is_key(k, 0x69) {
        ComposingCommand::ModelView
    } else if ctrl && is_key(k, 0x6a) {
        ComposingCommand::ChunkBreak
    } else if ctrl && 0x31 <= k.0 <= 0x39 {
        ComposingCommand::SelectSuggestion { digit: (k.0 - 0x30) as usize }
    } else if k.0 == Keysym::RETURN {
        ComposingCommand::Commit
    } else if k.0 == Keysym::ESCAPE {
        ComposingCommand::Cancel
    } else if k.0 == Keysym::BACKSPACE {
        ComposingCommand::Backspace
    } else if k.0 == Keysym::DELETE {
        ComposingCommand::Delete
    } else if k.0 == Keysym::SPACE && mode == InputMode::Alphabet {
        ComposingCommand::Input { ch: ' ', enter_alphabet: false, bake_katakana: false }
    } else if k.0 == Keysym::TAB {
        ComposingCommand::StartConversion { skip_learning: true }
    } else if k.0 == Keysym::SPACE || k.0 == Keysym::DOWN {
        ComposingCommand::StartConversion { skip_learning: false }
    } else if k.0 == Keysym::LEFT {
        ComposingCommand::CaretLeft
    } else if k.0 == Keysym::RIGHT {
        ComposingCommand::CaretRight
    } else if k.0 == Keysym::HOME {
        ComposingCommand::CaretHome
    } else if k.0 == Keysym::END {
        ComposingCommand::CaretEnd
    } else if key.spec_char() is Some && !ctrl && !key.modifiers.alt_key {
        let c = key.spec_char()->0;
        let sa = shift_alpha(c, shift_active);
        let switch = sa && mode != InputMode::Alphabet;
        let alphabet_after = mode == InputMode::Alphabet || switch;
        ComposingCommand::Input {
            ch: if alphabet_after && sa {
                ascii_upper(c)
            } else {
                c
            },
            enter_alphabet: switch,
            bake_katakana: switch && mode == InputMode::Katakana,
        }
    } else {
        ComposingCommand::PassThrough
    }
}

/// The composing binding of `key` (see [`spec_composing_command`]).
pub fn composing_command(
    key: KeyEvent,
    shift_active: bool,
    mode: InputMode,
    ctrl_space_fullwidth: bool,
) -> (r: ComposingCommand)
    ensures
        r == spec_composing_command(key, shift_active, mode, ctrl_space_fullwidth),
{
    let ctrl = key.modifiers.control_key;
    let k = key.keysym;
    if ctrl && k.0 == Keysym::SPACE {
        if ctrl_space_fullwidth {
            ComposingCommand::InsertFullwidthSpace
        } else {
            ComposingCommand::PassThrough
        }
    } else if ctrl && key_is(k, 0x6b) {
        ComposingCommand::EnterKatakana
    } else if ctrl && key_is(k, 0x61) {
        ComposingCommand::CaretHome
    } else if ctrl && key_is(k, 0x62) {
        ComposingCommand::CaretLeft
    } else if ctrl && key_is(k, 0x65) {
        ComposingCommand::CaretEnd
    } else if ctrl && key_is(k, 0x66) {
        ComposingCommand::CaretRight
    } else if ctrl && key_is(k, 0x74) {
        ComposingCommand::StartFilteredConversion { forward: true }
    } else if ctrl && key_is(k, 0x72) {
        ComposingCommand::StartFilteredConversion { forward: false }
    } else if ctrl && key_is(k, 0x69) {
        ComposingCommand::ModelView
    } else if ctrl && key_is(k, 0x6a) {
        ComposingCommand::ChunkBreak
    } else if ctrl && 0x31 <= k.0 && k.0 <= 0x39 {
        ComposingCommand::SelectSuggestion { digit: (k.0 - 0x30) as usize }
    } else if k.0 == Keysym::RETURN {
        ComposingCommand::Commit
    } else if k.0 == Keysym::ESCAPE {
        ComposingCommand::Cancel
    } else if k.0 == Keysym::BACKSPACE {
        ComposingCommand::Backspace
    } else if k.0 == Keysym::DELETE {
        ComposingCommand::Delete
    } else if k.0 == Keysym::SPACE && mode == InputMode::Alphabet {
        ComposingCommand::Input { ch: ' ', enter_alphabet: false, bake_katakana: false }
    } else if k.0 == Keysym::TAB {
        ComposingCommand::StartConversion { skip_learning: true }
    } else if k.0 == Keysym::SPACE || k.0 == Keysym::DOWN {
        ComposingCommand::StartConversion { skip_learning: false }
    } else if k.0 == Keysym::LEFT {
        ComposingCommand::CaretLeft
    } else if k.0 == Keysym::RIGHT {
        ComposingCommand::CaretRight
    } else if k.0 == Keysym::HOME {
        ComposingCommand::CaretHome
    } else if k.0 == Keysym::END {
        ComposingCommand::CaretEnd
    } else {
        match key.to_char() {
            Some(c) if !ctrl && !key.modifiers.alt_key => {
                let sa = ('A' <= c && c <= 'Z') || (shift_active && (('A' <= c && c <= 'Z') || (
                'a' <= c && c <= 'z')));
                let switch = sa && mode != InputMode::Alphabet;
                let alphabet_after = mode == InputMode::Alphabet || switch;
                ComposingCommand::Input {
                    ch: if alphabet_after && sa {
                        upper_char(c)
                    } else {
                        c
                    },
                    enter_alphabet: switch,
                    bake_katakana: switch && mode == InputMode::Katakana,
                }
            },
            _ => ComposingCommand::PassThrough,
        }
    }
}

// ---------- the conversion ----------

/// Where a caret key leaves the caret when it ends the conversion.
#[derive(Debug, Clone, Copy, PartialEq, Eq, Structural)]
pub enum CaretMotion {
    Home,
    Left,
    End,
    Right,
}

/// What a key does while the candidates are shown.
#[derive(Debug, Clone, Copy, PartialEq, Eq, Structural)]
pub enum ConversionCommand {
    /// Not handled: the key goes to the application (Alt chords).
    PassThrough,
    /// Consumed without effect.
    Ignore,
    /// Return: commit the selected candidate.
    Commit,
    /// Escape: back to composing.
    Cancel,
    NextCandidate,
    PrevCandidate,
    NextPage,
    PrevPage,
    /// Right: confirm the segment and move to the next one.
    NextSegment,
    /// Left: back to the previous segment.
    PrevSegment,
    /// Shift+Left: move the segment's end one character left.
    ShrinkSegment,
    /// Shift+Right: move the segment's end one character right.
    ExpandSegment,
    /// Home, End and their Emacs chords (Ctrl+A, Ctrl+E) and Ctrl+B,
    /// Ctrl+F: end the conversion and move the caret in the composition.
    LeaveToCaret { motion: CaretMotion },
    /// Ctrl+Backspace / Ctrl+Delete on a learned candidate: forget it.
    DeleteSelected,
    /// Backspace without a source filter: shrink the conversion.
    Backspace,
    /// A printable key (digits included), or Backspace inside a filtered
    /// view: refine the reading through composing.
    Refine,
    /// Ctrl+T (forward) / Ctrl+R (backward): rotate the source filter.
    CycleFilter { forward: bool },
    /// Ctrl+I: open the model's view.
    ModelView,
    /// Ctrl+J: place a chunk break at the caret.
    ChunkBreak,
    /// Ctrl+1 … Ctrl+9: select that candidate of the page.
    SelectDigit { digit: usize },
}

/// The conversion binding of `key`. `filtered`: a source filter is
/// active; `deletable`: the selected candidate is a learned one.
pub open spec fn spec_conversion_command(key: KeyEvent, filtered: bool, deletable: bool) -> ConversionCommand {
    let ctrl = key.modifiers.control_key;
    let shift = key.modifiers.shift_key;
    let k = key.keysym;
    if key.modifiers.alt_key {
        ConversionCommand::PassThrough
    } else if k.0 == Keysym::RETURN {
        ConversionCommand::Commit
    } else if k.0 == Keysym::ESCAPE {
        ConversionCommand::Cancel
    } else if k.0 == Keysym::ISO_LEFT_TAB || (k.0 == Keysym::TAB && shift) {
        ConversionCommand::PrevCandidate
    } else if k.0 == Keysym::SPACE || k.0 == Keysym::DOWN || k.0 == Keysym::TAB {
        ConversionCommand::NextCandidate
    } else if k.0 == Keysym::UP {
        ConversionCommand::PrevCandidate
    } else if k.0 == Keysym::PAGE_DOWN {
        ConversionCommand::NextPage
    } else if k.0 == Keysym::PAGE_UP {
        ConversionCommand::PrevPage
    } else if k.0 == Keysym::LEFT {
        if shift {
            ConversionCommand::ShrinkSegment
        } else {
            ConversionCommand::PrevSegment
        }
    } else if k.0 == Keysym::RIGHT {
        if shift {
            ConversionCommand::ExpandSegment
        } else {
            ConversionCommand::NextSegment
        }
    } else if k.0 == Keysym::HOME {
        ConversionCommand::LeaveToCaret { motion: CaretMotion::Home }
    } else if k.0 == Keysym::END {
        ConversionCommand::LeaveToCaret { motion: CaretMotion::End }
    } else if (k.0 == Keysym::DELETE || k.0 == Keysym::BACKSPACE) && ctrl {
        if deletable {
            ConversionCommand::DeleteSelected
        } else {
            ConversionCommand::Ignore
        }
    } else if k.0 == Keysym::BACKSPACE && filtered {
        ConversionCommand::Refine
    } else if k.0 == Keysym::BACKSPACE {
        ConversionCommand::Backspace
    } else if ctrl && is_key(k, 0x6e) {
        ConversionCommand::NextCandidate
    } else if ctrl && is_key(k, 0x70) {
        ConversionCommand::PrevCandidate
    } else if ctrl && is_key(k, 0x74) {
        ConversionCommand::CycleFilter { forward: true }
    } else if ctrl && is_key(k, 0x72) {
        ConversionCommand::CycleFilter { forward: false }
    } else if ctrl && is_key(k, 0x69) {
        ConversionCommand::ModelView
    } else if ctrl && is_key(k, 0x6a) {
        ConversionCommand::ChunkBreak
    } else if ctrl && is_key(k, 0x61) {
        ConversionCommand::LeaveToCaret { motion: CaretMotion::Home }
    } else if ctrl && is_key(k, 0x62) {
        ConversionCommand::LeaveToCaret { motion: CaretMotion::Left }
    } else if ctrl && is_key(k, 0x65) {
        ConversionCommand::LeaveToCaret { motion: CaretMotion::End }
    } else if ctrl && is_key(k, 0x66) {
        ConversionCommand::LeaveToCaret { motion: CaretMotion::Right }
    } else if ctrl && 0x31 <= k.0 <= 0x39 {
        ConversionCommand::SelectDigit { digit: (k.0 - 0x30) as usize }
    } else if key.spec_char() is Some && !ctrl {
        ConversionCommand::Refine
    } else {
        ConversionCommand::Ignore
    }
}

/// The conversion binding of `key` (see [`spec_conversion_command`]).
pub fn conversion_command(key: KeyEvent, filtered: bool, deletable: bool) -> (r: ConversionCommand)
    ensures
        r == spec_conversion_command(key, filtered, deletable),
{
    let ctrl = key.modifiers.control_key;
    let shift = key.modifiers.shift_key;
    let k = key.keysym;
    if key.modifiers.alt_key {
        ConversionCommand::PassThrough
    } else if k.0 == Keysym::RETURN {
        ConversionCommand::Commit
    } else if k.0 == Keysym::ESCAPE {
        ConversionCommand::Cancel
    } else if k.0 == Keysym::ISO_LEFT_TAB || (k.0 == Keysym::TAB && shift) {
        ConversionCommand::PrevCandidate
    } else if k.0 == Keysym::SPACE || k.0 == Keysym::DOWN || k.0 == Keysym::TAB {
        ConversionCommand::NextCandidate
    } else if k.0 == Keysym::UP {
        ConversionCommand::PrevCandidate
    } else if k.0 == Keysym::PAGE_DOWN {
        ConversionCommand::NextPage
    } else if k.0 == Keysym::PAGE_UP {
        ConversionCommand::PrevPage
    } else if k.0 == Keysym::LEFT {
        if shift {
            ConversionCommand::ShrinkSegment
        } else {
            ConversionCommand::PrevSegment
        }
    } else if k.0 == Keysym::RIGHT {
        if shift {
            ConversionCommand::ExpandSegment
        } else {
            ConversionCommand::NextSegment
        }
    } else if k.0 == Keysym::HOME {
        ConversionCommand::LeaveToCaret { motion: CaretMotion::Home }
    } else if k.0 == Keysym::END {
        ConversionCommand::LeaveToCaret { motion: CaretMotion::End }
    } else if (k.0 == Keysym::DELETE || k.0 == Keysym::BACKSPACE) && ctrl {
        if deletable {
            ConversionCommand::DeleteSelected
        } else {
            ConversionCommand::Ignore
        }
    } else if k.0 == Keysym::BACKSPACE && filtered {
        ConversionCommand::Refine
    } else if k.0 == Keysym::BACKSPACE {
        ConversionCommand::Backspace
    } else if ctrl && key_is(k, 0x6e) {
        ConversionCommand::NextCandidate
    } else if ctrl && key_is(k, 0x70) {
        ConversionCommand::PrevCandidate
    } else if ctrl && key_is(k, 0x74) {
        ConversionCommand::CycleFilter { forward: true }
    } else if ctrl && key_is(k, 0x72) {
        ConversionCommand::CycleFilter { forward: false }
    } else if ctrl && key_is(k, 0x69) {
        ConversionCommand::ModelView
    } else if ctrl && key_is(k, 0x6a) {
        ConversionCommand::ChunkBreak
    } else if ctrl && key_is(k, 0x61) {
        ConversionCommand::LeaveToCaret { motion: CaretMotion::Home }
    } else if ctrl && key_is(k, 0x62) {
        ConversionCommand::LeaveToCaret { motion: CaretMotion::Left }
    } else if ctrl && key_is(k, 0x65) {
        ConversionCommand::LeaveToCaret { motion: CaretMotion::End }
    } else if ctrl && key_is(k, 0x66) {
        ConversionCommand::LeaveToCaret { motion: CaretMotion::Right }
    } else {
        match k.digit_value() {
            Some(d) if ctrl => ConversionCommand::SelectDigit { digit: d },
            _ => {
                if key.to_char().is_some() && !ctrl {
                    ConversionCommand::Refine
                } else {
                    ConversionCommand::Ignore
                }
            },
        }
    }
}

/// While the candidates are shown, only Alt chords reach the application:
/// every other key, bound or not, is consumed, so that a chord such as
/// Ctrl+R cannot act on the application mid-conversion. The filter
/// rotation follows the Ctrl modifier, not the letter's case, and a bare
/// digit pressed refines the reading rather than selecting.
pub proof fn lemma_conversion_keeps_keys(key: KeyEvent, filtered: bool, deletable: bool)
    ensures
        (spec_conversion_command(key, filtered, deletable) == ConversionCommand::PassThrough)
            <==> key.modifiers.alt_key,
        !key.modifiers.alt_key && key.modifiers.control_key && (key.keysym.0 == 0x74
            || key.keysym.0 == 0x54) ==> spec_conversion_command(key, filtered, deletable)
            == (ConversionCommand::CycleFilter { forward: true }),
        !key.modifiers.alt_key && key.modifiers.control_key && (key.keysym.0 == 0x72
            || key.keysym.0 == 0x52) ==> spec_conversion_command(key, filtered, deletable)
            == (ConversionCommand::CycleFilter { forward: false }),
        key.is_press && !key.modifiers.alt_key && !key.modifiers.control_key && 0x31
            <= key.keysym.0 <= 0x39 ==> spec_conversion_command(key, filtered, deletable)
            == ConversionCommand::Refine,
{
    if key.is_press && !key.modifiers.alt_key && !key.modifiers.control_key && 0x31 <= key.keysym.0
        <= 0x39 {
        assert(key.spec_char() is Some);
    }
}

/// The named keys of composing, in every mode: Return commits, Escape
/// cancels, BackSpace erases before the caret and Delete at it, Tab opens
/// the conversion past the learning history and Space or Down with it,
/// the arrows, Home and End (and their Emacs chords) move the caret, and
/// the Ctrl letters do what their bindings name; Ctrl+digit selects that
/// suggestion.
pub proof fn lemma_composing_bindings(key: KeyEvent, shift_active: bool, mode: InputMode, ctrl_space_fullwidth: bool)
    ensures
        ({
            let ctrl = key.modifiers.control_key;
            let k = key.keysym.0;
            let cmd = spec_composing_command(key, shift_active, mode, ctrl_space_fullwidth);
            &&& !ctrl && k == 0xff0d ==> cmd == ComposingCommand::Commit
            &&& !ctrl && k == 0xff1b ==> cmd == ComposingCommand::Cancel
            &&& !ctrl && k == 0xff08 ==> cmd == ComposingCommand::Backspace
            &&& !ctrl && k == 0xffff ==> cmd == ComposingCommand::Delete
            &&& !ctrl && k == 0xff09 ==> cmd == (ComposingCommand::StartConversion { skip_learning: true })
            &&& !ctrl && k == 0xff54 ==> cmd == (ComposingCommand::StartConversion { skip_learning: false })
            &&& !ctrl && k == 0x20 && mode != InputMode::Alphabet ==> cmd == (
            ComposingCommand::StartConversion { skip_learning: false })
            &&& !ctrl && k == 0x20 && mode == InputMode::Alphabet ==> cmd == (ComposingCommand::Input {
                ch: ' ',
                enter_alphabet: false,
                bake_katakana: false,
            })
            &&& !ctrl && k == 0xff51 ==> cmd == ComposingCommand::CaretLeft
            &&& !ctrl && k == 0xff53 ==> cmd == ComposingCommand::CaretRight
            &&& !ctrl && k == 0xff50 ==> cmd == ComposingCommand::CaretHome
            &&& !ctrl && k == 0xff57 ==> cmd == ComposingCommand::CaretEnd
            &&& ctrl && k == 0x20 && ctrl_space_fullwidth ==> cmd == ComposingCommand::InsertFullwidthSpace
            &&& ctrl && k == 0x20 && !ctrl_space_fullwidth ==> cmd == ComposingCommand::PassThrough
            &&& ctrl && (k == 0x6b || k == 0x4b) ==> cmd == ComposingCommand::EnterKatakana
            &&& ctrl && (k == 0x61 || k == 0x41) ==> cmd == ComposingCommand::CaretHome
            &&& ctrl && (k == 0x62 || k == 0x42) ==> cmd == ComposingCommand::CaretLeft
            &&& ctrl && (k == 0x65 || k == 0x45) ==> cmd == ComposingCommand::CaretEnd
            &&& ctrl && (k == 0x66 || k == 0x46) ==> cmd == ComposingCommand::CaretRight
            &&& ctrl && (k == 0x74 || k == 0x54) ==> cmd == (ComposingCommand::StartFilteredConversion {
                forward: true,
            })
            &&& ctrl && (k == 0x72 || k == 0x52) ==> cmd == (ComposingCommand::StartFilteredConversion {
                forward: false,
            })
            &&& ctrl && (k == 0x69 || k == 0x49) ==> cmd == ComposingCommand::ModelView
            &&& ctrl && (k == 0x6a || k == 0x4a) ==> cmd == ComposingCommand::ChunkBreak
            &&& ctrl && 0x31 <= k <= 0x39 ==> cmd == (ComposingCommand::SelectSuggestion {
                digit: (k - 0x30) as usize,
            })
        }),
{
}

/// The named keys of the conversion (without Alt): Return commits, Escape
/// goes back, Space, Down, Tab and Ctrl+N step to the next candidate, Up,
/// Shift+Tab and Ctrl+P to the previous one, the page keys turn the page,
/// Left and Right walk the segments and with Shift resize one, Home, End
/// and the Emacs caret chords leave for the composition, BackSpace shrinks
/// the conversion (or refines a filtered view), and Ctrl+1…9 selects.
pub proof fn lemma_conversion_bindings(key: KeyEvent, filtered: bool, deletable: bool)
    ensures
        ({
            let ctrl = key.modifiers.control_key;
            let shift = key.modifiers.shift_key;
            let k = key.keysym.0;
            let cmd = spec_conversion_command(key, filtered, deletable);
            !key.modifiers.alt_key ==> {
                &&& k == 0xff0d ==> cmd == ConversionCommand::Commit
                &&& k == 0xff1b ==> cmd == ConversionCommand::Cancel
                &&& (k == 0x20 || k == 0xff54 || (k == 0xff09 && !shift)) ==> cmd
                    == ConversionCommand::NextCandidate
                &&& (k == 0xff52 || k == 0xfe20 || (k == 0xff09 && shift)) ==> cmd
                    == ConversionCommand::PrevCandidate
                &&& k == 0xff56 ==> cmd == ConversionCommand::NextPage
                &&& k == 0xff55 ==> cmd == ConversionCommand::PrevPage
                &&& k == 0xff51 && !shift ==> cmd == ConversionCommand::PrevSegment
                &&& k == 0xff53 && !shift ==> cmd == ConversionCommand::NextSegment
                &&& k == 0xff51 && shift ==> cmd == ConversionCommand::ShrinkSegment
                &&& k == 0xff53 && shift ==> cmd == ConversionCommand::ExpandSegment
                &&& k == 0xff50 ==> cmd == (ConversionCommand::LeaveToCaret { motion: CaretMotion::Home })
                &&& k == 0xff57 ==> cmd == (ConversionCommand::LeaveToCaret { motion: CaretMotion::End })
                &&& k == 0xff08 && !ctrl && !filtered ==> cmd == ConversionCommand::Backspace
                &&& k == 0xff08 && !ctrl && filtered ==> cmd == ConversionCommand::Refine
                &&& (k == 0xff08 || k == 0xffff) && ctrl && deletable ==> cmd
                    == ConversionCommand::DeleteSelected
                &&& (k == 0xff08 || k == 0xffff) && ctrl && !deletable ==> cmd == ConversionCommand::Ignore
                &&& ctrl && (k == 0x6e || k == 0x4e) ==> cmd == ConversionCommand::NextCandidate
                &&& ctrl && (k == 0x70 || k == 0x50) ==> cmd == ConversionCommand::PrevCandidate
                &&& ctrl && (k == 0x69 || k == 0x49) ==> cmd == ConversionCommand::ModelView
                &&& ctrl && (k == 0x6a || k == 0x4a) ==> cmd == ConversionCommand::ChunkBreak
                &&& ctrl && (k == 0x61 || k == 0x41) ==> cmd == (ConversionCommand::LeaveToCaret {
                    motion: CaretMotion::Home,
                })
                &&& ctrl && (k == 0x62 || k == 0x42) ==> cmd == (ConversionCommand::LeaveToCaret {
                    motion: CaretMotion::Left,
                })
                &&& ctrl && (k == 0x65 || k == 0x45) ==> cmd == (ConversionCommand::LeaveToCaret {
                    motion: CaretMotion::End,
                })
                &&& ctrl && (k == 0x66 || k == 0x46) ==> cmd == (ConversionCommand::LeaveToCaret {
                    motion: CaretMotion::Right,
                })
                &&& ctrl && 0x31 <= k <= 0x39 ==> cmd == (ConversionCommand::SelectDigit {
                    digit: (k - 0x30) as usize,
                })
            }
        }),
{
}

/// The named keys with nothing composed: Space in hiragana commits a
/// full-width space (passes through in the other modes), Ctrl+Space starts
/// composing with one when enabled, and `:` outside alphabet mode starts an
/// emoji shortcode.
pub proof fn lemma_empty_bindings(key: KeyEvent, shift_active: bool, mode: InputMode, ctrl_space_fullwidth: bool)
    ensures
        ({
            let ctrl = key.modifiers.control_key;
            let alt = key.modifiers.alt_key;
            let k = key.keysym.0;
            let cmd = spec_empty_command(key, shift_active, mode, ctrl_space_fullwidth);
            &&& !ctrl && !alt && k == 0x20 && mode == InputMode::Hiragana ==> cmd
                == EmptyCommand::CommitFullwidthSpace
            &&& !ctrl && !alt && k == 0x20 && mode != InputMode::Hiragana ==> cmd == EmptyCommand::PassThrough
            &&& ctrl && k == 0x20 && ctrl_space_fullwidth ==> cmd == EmptyCommand::StartWithFullwidthSpace
            &&& ctrl && k == 0x20 && !ctrl_space_fullwidth ==> cmd == EmptyCommand::PassThrough
            &&& key.is_press && !ctrl && !alt && k == 0x3a && mode != InputMode::Alphabet ==> cmd
                == EmptyCommand::StartEmoji
        }),
{
}

} // verus!
