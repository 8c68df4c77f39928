//! Which symbol a key types: the `,` `.` `/` `[` `]` keys have more than
//! one conventional output, and each IME lets the user pick.
//!
//! The style only decides *which* symbol; how wide it settles is
//! [`crate::width`]. Every output here is full-width so the converter keeps
//! its "rule outputs are never ASCII" contract, and the width rules fold
//! them to `,` `.` `/` `[` `]` when asked.

use vstd::prelude::*;

verus! {

/// What the `,` and `.` keys type.
#[derive(Debug, Clone, Copy, PartialEq, Eq, Structural)]
pub enum PunctuationStyle {
    /// `、` and `。`
    KutenTouten,
    /// `，` and `．`
    CommaPeriod,
    /// `、` and `．`
    ToutenPeriod,
    /// `，` and `。`
    CommaKuten,
}

impl Default for PunctuationStyle {
    fn default() -> (r: Self)
        ensures
            r == PunctuationStyle::KutenTouten,
    {
        PunctuationStyle::KutenTouten
    }
}

/// The `,` key's output under a style.
pub open spec fn spec_comma(style: PunctuationStyle) -> char {
    match style {
        PunctuationStyle::KutenTouten | PunctuationStyle::ToutenPeriod => '、',
        PunctuationStyle::CommaPeriod | PunctuationStyle::CommaKuten => '，',
    }
}

/// The `.` key's output under a style.
pub open spec fn spec_period(style: PunctuationStyle) -> char {
    match style {
        PunctuationStyle::KutenTouten | PunctuationStyle::CommaKuten => '。',
        PunctuationStyle::CommaPeriod | PunctuationStyle::ToutenPeriod => '．',
    }
}

impl PunctuationStyle {
    /// The `,` key's output.
    pub fn comma(self) -> (r: &'static str)
        ensures
            r@ == seq![spec_comma(self)],
    {
        match self {
            Self::KutenTouten | Self::ToutenPeriod => {
                proof { reveal_strlit("、"); }
                "、"
            },
            Self::CommaPeriod | Self::CommaKuten => {
                proof { reveal_strlit("，"); }
                "，"
            },
        }
    }

    /// The `.` key's output.
    pub fn period(self) -> (r: &'static str)
        ensures
            r@ == seq![spec_period(self)],
    {
        match self {
            Self::KutenTouten | Self::CommaKuten => {
                proof { reveal_strlit("。"); }
                "。"
            },
            Self::CommaPeriod | Self::ToutenPeriod => {
                proof { reveal_strlit("．"); }
                "．"
            },
        }
    }

    /// Character form of [`Self::comma`].
    pub fn comma_char(self) -> (r: char)
        ensures
            r == spec_comma(self),
    {
        match self {
            Self::KutenTouten | Self::ToutenPeriod => '、',
            Self::CommaPeriod | Self::CommaKuten => '，',
        }
    }

    /// Character form of [`Self::period`].
    pub fn period_char(self) -> (r: char)
        ensures
            r == spec_period(self),
    {
        match self {
            Self::KutenTouten | Self::CommaKuten => '。',
            Self::CommaPeriod | Self::ToutenPeriod => '．',
        }
    }
}

/// What the `[` and `]` keys type.
#[derive(Debug, Clone, Copy, PartialEq, Eq, Structural)]
pub enum BracketStyle {
    /// `「」`
    Corner,
    /// `［］`
    Square,
}

impl Default for BracketStyle {
    fn default() -> (r: Self)
        ensures
            r == BracketStyle::Corner,
    {
        BracketStyle::Corner
    }
}

/// The `[` key's output under a style.
pub open spec fn spec_open(style: BracketStyle) -> char {
    match style {
        BracketStyle::Corner => '「',
        BracketStyle::Square => '［',
    }
}

/// The `]` key's output under a style.
pub open spec fn spec_close(style: BracketStyle) -> char {
    match style {
        BracketStyle::Corner => '」',
        BracketStyle::Square => '］',
    }
}

impl BracketStyle {
    /// The `[` key's output.
    pub fn open(self) -> (r: &'static str)
        ensures
            r@ == seq![spec_open(self)],
    {
        match self {
            Self::Corner => {
                proof { reveal_strlit("「"); }
                "「"
            },
            Self::Square => {
                proof { reveal_strlit("［"); }
                "［"
            },
        }
    }

    /// The `]` key's output.
    pub fn close(self) -> (r: &'static str)
        ensures
            r@ == seq![spec_close(self)],
    {
        match self {
            Self::Corner => {
                proof { reveal_strlit("」"); }
                "」"
            },
            Self::Square => {
                proof { reveal_strlit("］"); }
                "］"
            },
        }
    }

    /// Character form of [`Self::open`].
    pub fn open_char(self) -> (r: char)
        ensures
            r == spec_open(self),
    {
        match self {
            Self::Corner => '「',
            Self::Square => '［',
        }
    }

    /// Character form of [`Self::close`].
    pub fn close_char(self) -> (r: char)
        ensures
            r == spec_close(self),
    {
        match self {
            Self::Corner => '」',
            Self::Square => '］',
        }
    }
}

/// What the `/` key types.
#[derive(Debug, Clone, Copy, PartialEq, Eq, Structural)]
pub enum SlashStyle {
    /// `・`
    MiddleDot,
    /// `／`
    Slash,
}

impl Default for SlashStyle {
    fn default() -> (r: Self)
        ensures
            r == SlashStyle::MiddleDot,
    {
        SlashStyle::MiddleDot
    }
}

/// The `/` key's output under a style.
pub open spec fn spec_slash(style: SlashStyle) -> char {
    match style {
        SlashStyle::MiddleDot => '・',
        SlashStyle::Slash => '／',
    }
}

impl SlashStyle {
    /// The `/` key's output.
    pub fn slash(self) -> (r: &'static str)
        ensures
            r@ == seq![spec_slash(self)],
    {
        match self {
            Self::MiddleDot => {
                proof { reveal_strlit("・"); }
                "・"
            },
            Self::Slash => {
                proof { reveal_strlit("／"); }
                "／"
            },
        }
    }

    /// Character form of [`Self::slash`].
    pub fn slash_char(self) -> (r: char)
        ensures
            r == spec_slash(self),
    {
        match self {
            Self::MiddleDot => '・',
            Self::Slash => '／',
        }
    }
}

/// The symbol style as a whole, one field per configurable key.
#[derive(Debug, Clone, Copy, PartialEq, Eq, Structural)]
pub struct SymbolStyle {
    pub punctuation: PunctuationStyle,
    pub bracket: BracketStyle,
    pub slash: SlashStyle,
}

impl Default for SymbolStyle {
    fn default() -> (r: Self)
        ensures
            r.punctuation == PunctuationStyle::KutenTouten,
            r.bracket == BracketStyle::Corner,
            r.slash == SlashStyle::MiddleDot,
    {
        SymbolStyle {
            punctuation: PunctuationStyle::KutenTouten,
            bracket: BracketStyle::Corner,
            slash: SlashStyle::MiddleDot,
        }
    }
}

/// No style output is ASCII: whichever style is picked, the five keys type
/// characters at or above U+0080, so the width rules — not the rule table —
/// decide whether they settle half- or full-width.
pub proof fn lemma_style_outputs_are_not_ascii(style: SymbolStyle)
    ensures
        spec_comma(style.punctuation) as u32 >= 0x80,
        spec_period(style.punctuation) as u32 >= 0x80,
        spec_open(style.bracket) as u32 >= 0x80,
        spec_close(style.bracket) as u32 >= 0x80,
        spec_slash(style.slash) as u32 >= 0x80,
{
}

} // verus!
