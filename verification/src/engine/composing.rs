//! The decisions that end a composition: what Return commits and what
//! Escape does, from the mode, the reading and the live conversion.

use vstd::prelude::*;

use crate::engine::keys::InputMode;
use crate::kana::{hiragana_to_katakana, kata_of};
use crate::rewriter::number::append;
use crate::romaji::converter::{spec_convert, spec_flush, RomajiConverter};
use crate::text::{chars_of, string_of};

verus! {

/// The live conversion as displayed, with the settled romaji tail
/// (早稲田 + `d` → 早稲田d): empty without a live conversion, or while the
/// caret is away from the end (the display then falls back to kana).
pub open spec fn spec_live_with_pending(
    conv: RomajiConverter,
    live: Seq<char>,
    caret_at_end: bool,
    pending: Seq<char>,
) -> Seq<char> {
    if live.len() == 0 || !caret_at_end {
        Seq::empty()
    } else {
        live + spec_convert(conv.rules(), pending).0 + spec_flush(
            conv.rules(),
            spec_convert(conv.rules(), pending).1,
        )
    }
}

/// The live conversion with its settled romaji tail (see
/// [`spec_live_with_pending`]).
pub fn live_text_with_pending(conv: &RomajiConverter, live: &str, caret_at_end: bool, pending: &str) -> (r:
    String)
    ensures
        r@ == spec_live_with_pending(*conv, live@, caret_at_end, pending@),
{
    let l = chars_of(live);
    if l.len() == 0 || !caret_at_end {
        return String::new();
    }
    let mut out = l;
    append(&mut out, &chars_of(conv.convert_flush(pending).as_str()));
    string_of(&out)
}

/// What Return commits: in emoji mode the first emoji offered (the typed
/// query when there is none); in katakana mode the katakana of the
/// reading; otherwise the live conversion when there is one, else the
/// reading. Nothing when that is empty; the learning history records the
/// commit outside emoji mode.
pub open spec fn spec_commit(
    mode: InputMode,
    reading: Seq<char>,
    live: Seq<char>,
    first_emoji: Option<Seq<char>>,
) -> Option<(Seq<char>, bool)> {
    let text = if mode == InputMode::Emoji {
        match first_emoji {
            Some(e) => e,
            None => reading,
        }
    } else if mode == InputMode::Katakana {
        reading.map_values(|c: char| kata_of(c))
    } else if live.len() > 0 {
        live
    } else {
        reading
    };
    if text.len() == 0 {
        None
    } else {
        Some((text, mode != InputMode::Emoji))
    }
}

/// What Return commits, and whether to record it (see [`spec_commit`]).
/// `reading` is the settled reading, `live` the live conversion with its
/// tail.
pub fn commit_choice(mode: InputMode, reading: &str, live: &str, first_emoji: Option<String>) -> (r:
    Option<(String, bool)>)
    ensures
        match r {
            Some((t, learn)) => spec_commit(
                mode,
                reading@,
                live@,
                match first_emoji {
                    Some(e) => Some(e@),
                    None => None,
                },
            ) == Some((t@, learn)),
            None => spec_commit(
                mode,
                reading@,
                live@,
                match first_emoji {
                    Some(e) => Some(e@),
                    None => None,
                },
            ) is None,
        },
{
    let text: String = if mode == InputMode::Emoji {
        match first_emoji {
            Some(e) => e,
            None => reading.to_owned(),
        }
    } else if mode == InputMode::Katakana {
        hiragana_to_katakana(reading)
    } else if chars_of(live).len() > 0 {
        live.to_owned()
    } else {
        reading.to_owned()
    };
    if chars_of(text.as_str()).len() == 0 {
        None
    } else {
        Some((text, mode != InputMode::Emoji))
    }
}

/// What Escape does while composing.
#[derive(Debug, Clone, PartialEq, Eq)]
pub enum CancelOutcome {
    /// Hide the live conversion and show the kana again.
    ShowKana,
    /// Close the emoji picker, committing the typed query.
    CommitLiteral(String),
    /// Drop the composition.
    Clear,
}

/// Escape with a live conversion shown returns to the kana; in emoji mode
/// it commits the typed query, when there is one; otherwise it drops the
/// composition.
pub fn cancel_choice(mode: InputMode, live_shown: bool, reading: &str) -> (r: CancelOutcome)
    ensures
        live_shown ==> r == CancelOutcome::ShowKana,
        !live_shown && mode == InputMode::Emoji && reading@.len() > 0 ==> (r matches CancelOutcome::CommitLiteral(
            t,
        ) && t@ == reading@),
        !live_shown && !(mode == InputMode::Emoji && reading@.len() > 0) ==> r == CancelOutcome::Clear,
{
    if live_shown {
        CancelOutcome::ShowKana
    } else if mode == InputMode::Emoji && chars_of(reading).len() > 0 {
        CancelOutcome::CommitLiteral(reading.to_owned())
    } else {
        CancelOutcome::Clear
    }
}

} // verus!
