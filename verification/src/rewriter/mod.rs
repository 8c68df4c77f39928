//! Rewriters: given one conversion candidate, offer related candidates
//! (other widths and cases, katakana forms, number styles, symbols,
//! emoji), each with an optional description for the candidate window.

use vstd::prelude::*;

use crate::text::{chars_of, same_text};

pub mod alphabet;
pub mod date;
pub mod emoji;
pub mod half_katakana;
pub mod kanji_numeral;
pub mod number;
pub mod symbol;

verus! {

/// One rewritten candidate: its text and an optional description.
pub type RewriteOutput = (String, Option<String>);

/// A rewritten candidate as plain values.
pub type OutView = (Seq<char>, Option<Seq<char>>);

/// An optional string as plain values.
pub open spec fn opt_view(o: Option<String>) -> Option<Seq<char>> {
    match o {
        Some(s) => Some(s@),
        None => None,
    }
}

/// A rewritten candidate as plain values.
pub open spec fn out_view(o: RewriteOutput) -> OutView {
    (o.0@, opt_view(o.1))
}

/// Rewritten candidates as plain values.
pub open spec fn outs_view(v: Seq<RewriteOutput>) -> Seq<OutView> {
    v.map_values(|o: RewriteOutput| out_view(o))
}

/// Whether some candidate in `out` has text `t`.
pub open spec fn has_text(out: Seq<OutView>, t: Seq<char>) -> bool {
    exists|i: int| 0 <= i < out.len() && #[trigger] out[i].0 == t
}

/// `out` with `(t, desc)` appended, unless `t` is the input candidate
/// itself or already offered.
pub open spec fn add_variant(
    out: Seq<OutView>,
    cand: Seq<char>,
    t: Seq<char>,
    desc: Option<Seq<char>>,
) -> Seq<OutView> {
    if t != cand && !has_text(out, t) {
        out.push((t, desc))
    } else {
        out
    }
}

/// `out` with `(t, desc)` appended unless `t` is already offered.
pub open spec fn add_new(out: Seq<OutView>, t: Seq<char>, desc: Option<Seq<char>>) -> Seq<OutView> {
    if !has_text(out, t) {
        out.push((t, desc))
    } else {
        out
    }
}

/// Whether every character of `s` is a decimal digit, half- or full-width,
/// and there is at least one.
pub open spec fn spec_pure_digit(s: Seq<char>) -> bool {
    s.len() > 0 && forall|i: int| 0 <= i < s.len() ==> is_decimal(#[trigger] s[i])
}

/// `0`–`9` or `０`–`９`.
pub open spec fn is_decimal(c: char) -> bool {
    ('0' <= c && c <= '9') || ('\u{FF10}' <= c && c <= '\u{FF19}')
}

/// A rewriter: related candidates for one candidate.
pub trait Rewriter {
    /// The rewriter's name.
    fn name(&self) -> &'static str;

    /// Related candidates for `candidate`, each with an optional
    /// description; never the candidate itself, never one text twice.
    fn rewrite(&self, candidate: &str) -> Vec<RewriteOutput>;
}

/// Whether a string is a non-empty run of decimal digits.
pub fn is_pure_digit(text: &str) -> (r: bool)
    ensures
        r == spec_pure_digit(text@),
{
    let cs = chars_of(text);
    if cs.len() == 0 {
        return false;
    }
    let mut i: usize = 0;
    while i < cs.len()
        invariant
            cs@ == text@,
            i <= cs.len(),
            forall|j: int| 0 <= j < i ==> is_decimal(#[trigger] cs@[j]),
        decreases cs.len() - i,
    {
        let c = cs[i];
        if !(('0' <= c && c <= '9') || ('\u{FF10}' <= c && c <= '\u{FF19}')) {
            assert(!is_decimal(text@[i as int]));
            return false;
        }
        i += 1;
    }
    true
}

/// Whether some candidate in `out` has the text `t`.
pub fn contains_text(out: &Vec<RewriteOutput>, t: &str) -> (r: bool)
    ensures
        r == has_text(outs_view(out@), t@),
{
    let mut i: usize = 0;
    while i < out.len()
        invariant
            i <= out.len(),
            forall|j: int| 0 <= j < i ==> out@[j].0@ != t@,
        decreases out.len() - i,
    {
        if same_text(out[i].0.as_str(), t) {
            assert(outs_view(out@)[i as int].0 == t@);
            return true;
        }
        i += 1;
    }
    assert forall|j: int| 0 <= j < out@.len() implies #[trigger] outs_view(out@)[j].0 != t@ by {
        assert(outs_view(out@)[j].0 == out@[j].0@);
    }
    false
}

/// Append `(text, desc)` unless `text` is the candidate or already offered.
pub fn push_variant(out: &mut Vec<RewriteOutput>, cand: &str, text: String, desc: Option<String>)
    ensures
        outs_view(final(out)@) == add_variant(outs_view(old(out)@), cand@, text@, opt_view(desc)),
{
    if !same_text(text.as_str(), cand) && !contains_text(out, text.as_str()) {
        let ghost before = out@;
        let ghost entry = (text, desc);
        out.push((text, desc));
        assert(outs_view(out@) =~= outs_view(before).push(out_view(entry)));
    }
}

/// Append `(text, desc)` unless `text` is already offered.
pub fn push_new(out: &mut Vec<RewriteOutput>, text: String, desc: Option<String>)
    ensures
        outs_view(final(out)@) == add_new(outs_view(old(out)@), text@, opt_view(desc)),
{
    if !contains_text(out, text.as_str()) {
        let ghost before = out@;
        let ghost entry = (text, desc);
        out.push((text, desc));
        assert(outs_view(out@) =~= outs_view(before).push(out_view(entry)));
    }
}

/// No offered candidate is the input candidate itself, and no text is
/// offered twice.
pub open spec fn well_offered(out: Seq<OutView>, cand: Seq<char>) -> bool {
    &&& forall|i: int| 0 <= i < out.len() ==> #[trigger] out[i].0 != cand
    &&& forall|i: int, j: int| 0 <= i < j < out.len() ==> #[trigger] out[i].0 != #[trigger] out[j].0
}

/// Adding a variant keeps the offer free of the candidate and of repeats.
pub proof fn lemma_add_variant_keeps(
    out: Seq<OutView>,
    cand: Seq<char>,
    t: Seq<char>,
    desc: Option<Seq<char>>,
)
    requires
        well_offered(out, cand),
    ensures
        well_offered(add_variant(out, cand, t, desc), cand),
{
    let r = add_variant(out, cand, t, desc);
    if t != cand && !has_text(out, t) {
        assert forall|i: int, j: int| 0 <= i < j < r.len() implies #[trigger] r[i].0
            != #[trigger] r[j].0 by {
            if j == out.len() {
                assert(r[i] == out[i]);
                if out[i].0 == t {
                    assert(has_text(out, t));
                }
            }
        }
    }
}

/// No text is offered twice.
pub open spec fn distinct_texts(out: Seq<OutView>) -> bool {
    forall|i: int, j: int| 0 <= i < j < out.len() ==> #[trigger] out[i].0 != #[trigger] out[j].0
}

/// Adding a new text keeps the offer free of repeats.
pub proof fn lemma_add_new_keeps(out: Seq<OutView>, t: Seq<char>, desc: Option<Seq<char>>)
    requires
        distinct_texts(out),
    ensures
        distinct_texts(add_new(out, t, desc)),
{
    let r = add_new(out, t, desc);
    if !has_text(out, t) {
        assert forall|i: int, j: int| 0 <= i < j < r.len() implies #[trigger] r[i].0
            != #[trigger] r[j].0 by {
            if j == out.len() {
                assert(r[i] == out[i]);
                if out[i].0 == t {
                    assert(has_text(out, t));
                }
            }
        }
    }
}

} // verus!
