//! Which width a character comes out at: half (`(`, `?`, `1`) or full
//! (`（`, `？`, `１`).
//!
//! Three [`Group`]s are configurable, each with its own [`Width`]: the kana
//! symbols, the ASCII ones, digits. Characters in no group (kana, kanji,
//! the ideographic space) are left alone, and so are letters.
//!
//! `。、「」・` are a group of their own because they are the symbols with
//! no ASCII counterpart: their only half-width forms (`｡､｢｣･`) are the ones
//! that go with half-width katakana.
//!
//! A group holds both forms of each character it covers, so applying the
//! rules twice is the same as applying them once.

use vstd::prelude::*;

use crate::kana::{
    ascii_to_fullwidth_char, fullwidth_to_ascii_char, is_ascii_graphic, is_digit,
    is_fullwidth_ascii, lemma_fullwidth_ascii_inverse, spec_is_digit, spec_to_ascii,
    spec_to_fullwidth, FULLWIDTH_OFFSET,
};
use crate::text::{chars_of, char_from_u32, string_of};

verus! {

/// The width a group comes out at.
#[derive(Debug, Clone, Copy, PartialEq, Eq, Structural)]
pub enum Width {
    /// The half-width form (`。` → `｡`, `（` → `(`).
    Half,
    /// The full-width form (`｡` → `。`, `(` → `（`).
    Full,
}

/// A set of characters sharing one width setting.
#[derive(Debug, Clone, Copy, PartialEq, Eq, Structural)]
pub enum Group {
    /// 。、「」・ — the symbols with no ASCII form
    KanaSymbol,
    /// Every ASCII symbol and its full-width twin
    AsciiSymbol,
    /// 0-9
    Digit,
    /// A-Za-z; never folded
    Alphabet,
}

/// ASCII punctuation: `!`–`/`, `:`–`@`, `[`–`` ` ``, `{`–`~`.
pub open spec fn is_ascii_punct(c: char) -> bool {
    ('!' <= c && c <= '/') || (':' <= c && c <= '@') || ('[' <= c && c <= '`')
        || ('{' <= c && c <= '~')
}

/// ASCII or full-width letter.
pub open spec fn is_any_letter(c: char) -> bool {
    ('A' <= c && c <= 'Z') || ('a' <= c && c <= 'z') || ('\u{FF21}' <= c && c <= '\u{FF3A}')
        || ('\u{FF41}' <= c && c <= '\u{FF5A}')
}

/// The pairs arithmetic cannot produce: five kana symbols with unrelated
/// code points, and `~`, which types the wave dash `〜` rather than the
/// full-width tilde the offset would give.
pub open spec fn spec_pair(c: char) -> Option<(Group, char, char)> {
    if c == '｡' || c == '。' {
        Some((Group::KanaSymbol, '｡', '。'))
    } else if c == '､' || c == '、' {
        Some((Group::KanaSymbol, '､', '、'))
    } else if c == '｢' || c == '「' {
        Some((Group::KanaSymbol, '｢', '「'))
    } else if c == '｣' || c == '」' {
        Some((Group::KanaSymbol, '｣', '」'))
    } else if c == '･' || c == '・' {
        Some((Group::KanaSymbol, '･', '・'))
    } else if c == '~' || c == '〜' {
        Some((Group::AsciiSymbol, '~', '〜'))
    } else {
        None
    }
}

/// The group `c` belongs to, with its half and full forms — `None` for
/// characters no group covers (kana, kanji, spaces).
pub open spec fn spec_forms(c: char) -> Option<(Group, char, char)> {
    if spec_is_digit(c) {
        Some((Group::Digit, spec_to_ascii(c), spec_to_fullwidth(c)))
    } else if is_any_letter(c) {
        Some((Group::Alphabet, spec_to_ascii(c), spec_to_fullwidth(c)))
    } else if spec_pair(c) is Some {
        spec_pair(c)
    } else if is_ascii_punct(c) {
        Some((Group::AsciiSymbol, c, ((c as int) + 0xFEE0) as char))
    } else if is_fullwidth_ascii(c) && is_ascii_punct(((c as int) - 0xFEE0) as char) {
        Some((Group::AsciiSymbol, ((c as int) - 0xFEE0) as char, c))
    } else {
        None
    }
}

fn pair(c: char) -> (r: Option<(Group, char, char)>)
    ensures
        r == spec_pair(c),
{
    if c == '｡' || c == '。' {
        Some((Group::KanaSymbol, '｡', '。'))
    } else if c == '､' || c == '、' {
        Some((Group::KanaSymbol, '､', '、'))
    } else if c == '｢' || c == '「' {
        Some((Group::KanaSymbol, '｢', '「'))
    } else if c == '｣' || c == '」' {
        Some((Group::KanaSymbol, '｣', '」'))
    } else if c == '･' || c == '・' {
        Some((Group::KanaSymbol, '･', '・'))
    } else if c == '~' || c == '〜' {
        Some((Group::AsciiSymbol, '~', '〜'))
    } else {
        None
    }
}

fn is_ascii_punctuation(c: char) -> (r: bool)
    ensures
        r == is_ascii_punct(c),
{
    ('!' <= c && c <= '/') || (':' <= c && c <= '@') || ('[' <= c && c <= '`') || ('{' <= c
        && c <= '~')
}

/// Exec form of [`spec_forms`].
pub fn forms(c: char) -> (r: Option<(Group, char, char)>)
    ensures
        r == spec_forms(c),
{
    if is_digit(c) {
        return Some((Group::Digit, fullwidth_to_ascii_char(c), ascii_to_fullwidth_char(c)));
    }
    if ('A' <= c && c <= 'Z') || ('a' <= c && c <= 'z') || ('\u{FF21}' <= c && c <= '\u{FF3A}')
        || ('\u{FF41}' <= c && c <= '\u{FF5A}') {
        return Some((Group::Alphabet, fullwidth_to_ascii_char(c), ascii_to_fullwidth_char(c)));
    }
    let p = pair(c);
    if p.is_some() {
        return p;
    }
    if is_ascii_punctuation(c) {
        return match char_from_u32(c as u32 + FULLWIDTH_OFFSET) {
            Some(full) => Some((Group::AsciiSymbol, c, full)),
            None => None,
        };
    }
    if '\u{FF01}' <= c && c <= '\u{FF5E}' {
        match char_from_u32(c as u32 - FULLWIDTH_OFFSET) {
            Some(half) => {
                if is_ascii_punctuation(half) {
                    return Some((Group::AsciiSymbol, half, c));
                }
            },
            None => {},
        }
    }
    None
}

/// Whether `c` has both a half-width and a full-width form — false for kana,
/// kanji and anything else no group covers.
pub fn has_width_pair(c: char) -> (r: bool)
    ensures
        r == spec_forms(c) is Some,
{
    forms(c).is_some()
}

/// `c` at its half-width form, or unchanged when it has none.
pub open spec fn spec_half(c: char) -> char {
    match spec_forms(c) {
        Some((_, half, _)) => half,
        None => c,
    }
}

/// `c` at its full-width form, or unchanged when it has none.
pub open spec fn spec_full(c: char) -> char {
    match spec_forms(c) {
        Some((_, _, full)) => full,
        None => c,
    }
}

fn half_char(c: char) -> (r: char)
    ensures
        r == spec_half(c),
{
    match forms(c) {
        Some((_, half, _)) => half,
        None => c,
    }
}

fn full_char(c: char) -> (r: char)
    ensures
        r == spec_full(c),
{
    match forms(c) {
        Some((_, _, full)) => full,
        None => c,
    }
}

/// Every character at its half-width form (`（１）` → `(1)`). Characters
/// without one are left alone.
pub fn to_half_width(text: &str) -> (r: String)
    ensures
        r@ == text@.map_values(|c: char| spec_half(c)),
{
    let cs = chars_of(text);
    let mut out: Vec<char> = Vec::new();
    let mut i: usize = 0;
    while i < cs.len()
        invariant
            i <= cs.len(),
            cs@ == text@,
            out@ == cs@.take(i as int).map_values(|c: char| spec_half(c)),
        decreases cs.len() - i,
    {
        out.push(half_char(cs[i]));
        i += 1;
        assert(out@ == cs@.take(i as int).map_values(|c: char| spec_half(c)));
    }
    assert(cs@.take(cs.len() as int) == cs@);
    string_of(&out)
}

/// Every character at its full-width form (`(1)` → `（１）`). Characters
/// without one are left alone.
pub fn to_full_width(text: &str) -> (r: String)
    ensures
        r@ == text@.map_values(|c: char| spec_full(c)),
{
    let cs = chars_of(text);
    let mut out: Vec<char> = Vec::new();
    let mut i: usize = 0;
    while i < cs.len()
        invariant
            i <= cs.len(),
            cs@ == text@,
            out@ == cs@.take(i as int).map_values(|c: char| spec_full(c)),
        decreases cs.len() - i,
    {
        out.push(full_char(cs[i]));
        i += 1;
        assert(out@ == cs@.take(i as int).map_values(|c: char| spec_full(c)));
    }
    assert(cs@.take(cs.len() as int) == cs@);
    string_of(&out)
}

/// The width each configurable group comes out at.
#[derive(Debug, Clone, Copy, PartialEq, Eq, Structural)]
pub struct WidthRules {
    pub kana_symbol: Width,
    pub ascii_symbol: Width,
    pub digit: Width,
}

impl Default for WidthRules {
    /// Kana input comes out full-width, digits excepted.
    fn default() -> (r: Self)
        ensures
            r.kana_symbol == Width::Full,
            r.ascii_symbol == Width::Full,
            r.digit == Width::Half,
    {
        WidthRules { kana_symbol: Width::Full, ascii_symbol: Width::Full, digit: Width::Half }
    }
}

impl WidthRules {
    /// The default rules: kana and ASCII symbols full-width, digits
    /// half-width.
    pub open spec fn default_spec() -> WidthRules {
        WidthRules { kana_symbol: Width::Full, ascii_symbol: Width::Full, digit: Width::Half }
    }

    /// The width configured for `group`; `None` for letters, which are
    /// never folded.
    pub open spec fn spec_width(&self, group: Group) -> Option<Width> {
        match group {
            Group::KanaSymbol => Some(self.kana_symbol),
            Group::AsciiSymbol => Some(self.ascii_symbol),
            Group::Digit => Some(self.digit),
            Group::Alphabet => None,
        }
    }

    /// The form `c` comes out at under these rules.
    pub open spec fn spec_apply(&self, c: char) -> char {
        match spec_forms(c) {
            None => c,
            Some((group, half, full)) => match self.spec_width(group) {
                Some(Width::Half) => half,
                Some(Width::Full) => full,
                None => c,
            },
        }
    }

    fn width(&self, group: Group) -> (r: Option<Width>)
        ensures
            r == self.spec_width(group),
    {
        match group {
            Group::KanaSymbol => Some(self.kana_symbol),
            Group::AsciiSymbol => Some(self.ascii_symbol),
            Group::Digit => Some(self.digit),
            Group::Alphabet => None,
        }
    }

    /// The form `c` comes out at.
    pub fn apply(&self, c: char) -> (r: char)
        ensures
            r == self.spec_apply(c),
    {
        match forms(c) {
            None => c,
            Some((group, half, full)) => match self.width(group) {
                Some(Width::Half) => half,
                Some(Width::Full) => full,
                None => c,
            },
        }
    }

    /// Every character of `text` at the width its group settles as.
    pub fn apply_str(&self, text: &str) -> (r: String)
        ensures
            r@ == text@.map_values(|c: char| self.spec_apply(c)),
    {
        let cs = chars_of(text);
        let mut out: Vec<char> = Vec::new();
        let mut i: usize = 0;
        while i < cs.len()
            invariant
                i <= cs.len(),
                cs@ == text@,
                out@ == cs@.take(i as int).map_values(|c: char| self.spec_apply(c)),
            decreases cs.len() - i,
        {
            out.push(self.apply(cs[i]));
            i += 1;
            assert(out@ == cs@.take(i as int).map_values(|c: char| self.spec_apply(c)));
        }
        assert(cs@.take(cs.len() as int) == cs@);
        string_of(&out)
    }
}

/// The forms of a character's half or full form are that character's forms:
/// each group holds both forms of everything it covers.
pub proof fn lemma_forms_closed(c: char)
    ensures
        spec_forms(c) matches Some((g, h, f)) ==> {
            &&& spec_forms(h) matches Some((g2, h2, f2)) && g2 == g && h2 == h
            &&& spec_forms(f) matches Some((g3, h3, f3)) && g3 == g && f3 == f
        },
{
    lemma_fullwidth_ascii_inverse(c);
    if spec_is_digit(c) || is_any_letter(c) {
        let h = spec_to_ascii(c);
        let f = spec_to_fullwidth(c);
        lemma_fullwidth_ascii_inverse(h);
        lemma_fullwidth_ascii_inverse(f);
        assert(c as int == h as int || c as int == h as int + 0xFEE0);
        assert(f as int == h as int + 0xFEE0);
    } else if spec_pair(c) is Some {
    } else if is_ascii_punct(c) {
        let f = ((c as int) + 0xFEE0) as char;
        assert(f as int == c as int + 0xFEE0);
        assert((((f as int) - 0xFEE0) as char) == c);
    } else if is_fullwidth_ascii(c) && is_ascii_punct(((c as int) - 0xFEE0) as char) {
        let h = ((c as int) - 0xFEE0) as char;
        assert(h as int == c as int - 0xFEE0);
        assert((((h as int) + 0xFEE0) as char) == c);
    }
}

/// Applying the rules twice is the same as applying them once.
pub proof fn lemma_apply_idempotent(rules: WidthRules, c: char)
    ensures
        rules.spec_apply(rules.spec_apply(c)) == rules.spec_apply(c),
{
    lemma_forms_closed(c);
}

/// `apply_str` is idempotent: settling already-settled text changes nothing.
pub proof fn lemma_apply_str_idempotent(rules: WidthRules, s: Seq<char>)
    ensures
        s.map_values(|c: char| rules.spec_apply(c)).map_values(|c: char| rules.spec_apply(c))
            == s.map_values(|c: char| rules.spec_apply(c)),
{
    let once = s.map_values(|c: char| rules.spec_apply(c));
    let twice = once.map_values(|c: char| rules.spec_apply(c));
    assert forall|i: int| 0 <= i < s.len() implies twice[i] == once[i] by {
        lemma_apply_idempotent(rules, s[i]);
    }
    assert(twice =~= once);
}

/// Folding to half width is idempotent, and ignores a prior fold to full
/// width: `to_half_width(to_full_width(s)) == to_half_width(s)`.
pub proof fn lemma_half_width_folds(s: Seq<char>)
    ensures
        s.map_values(|c: char| spec_half(c)).map_values(|c: char| spec_half(c))
            == s.map_values(|c: char| spec_half(c)),
        s.map_values(|c: char| spec_full(c)).map_values(|c: char| spec_half(c))
            == s.map_values(|c: char| spec_half(c)),
        s.map_values(|c: char| spec_full(c)).map_values(|c: char| spec_full(c))
            == s.map_values(|c: char| spec_full(c)),
{
    let h = s.map_values(|c: char| spec_half(c));
    let f = s.map_values(|c: char| spec_full(c));
    assert forall|i: int| 0 <= i < s.len() implies spec_half(h[i]) == h[i] && spec_half(f[i])
        == h[i] && spec_full(f[i]) == f[i] by {
        lemma_forms_closed(s[i]);
    }
    assert(h.map_values(|c: char| spec_half(c)) =~= h);
    assert(f.map_values(|c: char| spec_half(c)) =~= h);
    assert(f.map_values(|c: char| spec_full(c)) =~= f);
}

} // verus!
