//! The auxiliary line shown above the candidates: the mode indicator, the
//! reading being typed, timings, the model, and the context line.

use vstd::prelude::*;

use crate::engine::keys::InputMode;
use crate::rewriter::number::{append, radix_digits, radix_exec};
use crate::text::{chars_of, string_of};

verus! {

/// The bracketed mark of a mode.
pub open spec fn mode_mark(mode: InputMode) -> Seq<char> {
    match mode {
        InputMode::Alphabet => "[A]"@,
        InputMode::Katakana => "[カ]"@,
        InputMode::Hiragana => "[あ]"@,
        InputMode::Emoji => "[☺]"@,
    }
}

/// The mode indicator: `⚡` while live conversion is on, the mode's mark,
/// and `P:` with the persona the model is given, when there is one.
pub open spec fn spec_mode_indicator(mode: InputMode, live: bool, persona: Seq<char>) -> Seq<char> {
    let l = if live {
        "⚡"@
    } else {
        Seq::empty()
    };
    if persona.len() == 0 {
        l + mode_mark(mode)
    } else {
        l + mode_mark(mode) + "P:"@ + persona
    }
}

/// The mode indicator (see [`spec_mode_indicator`]).
pub fn mode_indicator(mode: InputMode, live: bool, persona: &str) -> (r: String)
    ensures
        r@ == spec_mode_indicator(mode, live, persona@),
{
    let mut out: Vec<char> = Vec::new();
    if live {
        append(&mut out, &chars_of("⚡"));
    }
    let mark = match mode {
        InputMode::Alphabet => chars_of("[A]"),
        InputMode::Katakana => chars_of("[カ]"),
        InputMode::Hiragana => chars_of("[あ]"),
        InputMode::Emoji => chars_of("[☺]"),
    };
    append(&mut out, &mark);
    let p = chars_of(persona);
    if p.len() > 0 {
        append(&mut out, &chars_of("P:"));
        append(&mut out, &p);
    }
    proof {
        if live {
            assert(out@ =~= spec_mode_indicator(mode, live, persona@));
        } else {
            assert(out@ =~= spec_mode_indicator(mode, live, persona@));
        }
    }
    string_of(&out)
}

/// The composing aux line: the indicator, the reading with its unconverted
/// romaji tail (`わせだd`) when anything is typed, the model, and the
/// context line when there is one.
pub open spec fn spec_aux_composing(
    indicator: Seq<char>,
    reading: Seq<char>,
    pending: Seq<char>,
    model: Seq<char>,
    ctx: Seq<char>,
) -> Seq<char> {
    let typed = if reading.len() == 0 && pending.len() == 0 {
        Seq::empty()
    } else {
        " "@ + reading + pending
    };
    let head = indicator + typed + " Karukan ("@ + model + ")"@;
    if ctx.len() == 0 {
        head
    } else {
        head + " | "@ + ctx
    }
}

/// The composing aux line (see [`spec_aux_composing`]).
pub fn format_aux_composing(indicator: &str, reading: &str, pending: &str, model: &str, ctx: &str) -> (r:
    String)
    ensures
        r@ == spec_aux_composing(indicator@, reading@, pending@, model@, ctx@),
{
    let mut out = chars_of(indicator);
    let rd = chars_of(reading);
    let pd = chars_of(pending);
    if rd.len() > 0 || pd.len() > 0 {
        append(&mut out, &chars_of(" "));
        append(&mut out, &rd);
        append(&mut out, &pd);
    }
    append(&mut out, &chars_of(" Karukan ("));
    append(&mut out, &chars_of(model));
    append(&mut out, &chars_of(")"));
    let c = chars_of(ctx);
    if c.len() > 0 {
        append(&mut out, &chars_of(" | "));
        append(&mut out, &c);
    }
    assert(out@ =~= spec_aux_composing(indicator@, reading@, pending@, model@, ctx@));
    string_of(&out)
}

/// The suggestion aux line: the indicator, the reading with its romaji
/// tail, the context (when there is one), the timings
/// `<conversion>ms/<keystroke>ms`, and the model.
pub open spec fn spec_aux_suggest(
    indicator: Seq<char>,
    reading: Seq<char>,
    pending: Seq<char>,
    ctx: Seq<char>,
    conversion_ms: u64,
    process_key_ms: u64,
    model: Seq<char>,
) -> Seq<char> {
    let timing = radix_digits(conversion_ms as nat, 10) + "ms/"@ + radix_digits(process_key_ms as nat, 10)
        + "ms"@;
    let head = indicator + " "@ + reading + pending;
    if ctx.len() == 0 {
        head + " | "@ + timing + " | "@ + model
    } else {
        head + " | ctx: "@ + ctx + " | "@ + timing + " | "@ + model
    }
}

/// The suggestion aux line (see [`spec_aux_suggest`]).
pub fn format_aux_suggest(
    indicator: &str,
    reading: &str,
    pending: &str,
    ctx: &str,
    conversion_ms: u64,
    process_key_ms: u64,
    model: &str,
) -> (r: String)
    ensures
        r@ == spec_aux_suggest(indicator@, reading@, pending@, ctx@, conversion_ms, process_key_ms, model@),
{
    let mut out = chars_of(indicator);
    append(&mut out, &chars_of(" "));
    append(&mut out, &chars_of(reading));
    append(&mut out, &chars_of(pending));
    let c = chars_of(ctx);
    if c.len() > 0 {
        append(&mut out, &chars_of(" | ctx: "));
        append(&mut out, &c);
    }
    append(&mut out, &chars_of(" | "));
    append(&mut out, &radix_exec(conversion_ms, 10));
    append(&mut out, &chars_of("ms/"));
    append(&mut out, &radix_exec(process_key_ms, 10));
    append(&mut out, &chars_of("ms"));
    append(&mut out, &chars_of(" | "));
    append(&mut out, &chars_of(model));
    assert(out@ =~= spec_aux_suggest(indicator@, reading@, pending@, ctx@, conversion_ms, process_key_ms, model@));
    string_of(&out)
}

} // verus!
