//! Katakana form rewriter: full-width and half-width katakana variants of a
//! candidate made entirely of kana. Candidates mixing kanji with kana are
//! left alone (`愛してる` must not become `愛ｼﾃﾙ`).
//!
//! For a pure-kana candidate it offers the full-width katakana form (when
//! the candidate holds hiragana) and the half-width katakana form, each
//! only when it differs from the candidate and from the other, described
//! as `[全]カタカナ` / `[半]カタカナ`.

use vstd::prelude::*;

use crate::kana::{half_form, hira_of, hiragana_to_katakana, is_hiragana, is_twin_katakana, kata_of};
use crate::rewriter::{
    add_variant, lemma_add_variant_keeps, outs_view, push_variant, well_offered, OutView,
    RewriteOutput, Rewriter,
};
use crate::text::{chars_of, same_text, string_of};

verus! {

/// Rewriter that offers full-width and half-width katakana variants.
pub struct HalfWidthKatakanaRewriter;

/// Hiragana U+3041–U+3096 or anything in the katakana block U+30A0–U+30FF.
pub open spec fn is_kana(c: char) -> bool {
    ('\u{3041}' <= c && c <= '\u{3096}') || ('\u{30A0}' <= c && c <= '\u{30FF}')
}

/// Every character is kana.
pub open spec fn spec_pure_kana(s: Seq<char>) -> bool {
    forall|i: int| 0 <= i < s.len() ==> is_kana(#[trigger] s[i])
}

/// Some character is hiragana.
pub open spec fn spec_contains_hiragana(s: Seq<char>) -> bool {
    exists|i: int| 0 <= i < s.len() && is_hiragana(#[trigger] s[i])
}

/// The half-width form of one character of full-width katakana text:
/// katakana through its hiragana twin, kana punctuation and the prolonged
/// mark by the half-width table; hiragana and everything else unchanged.
pub open spec fn kata_half_form(c: char) -> Seq<char> {
    if is_twin_katakana(c) {
        half_form(hira_of(c))
    } else if is_hiragana(c) {
        seq![c]
    } else {
        half_form(c)
    }
}

/// Full-width katakana text at half width.
pub open spec fn spec_katakana_to_half_width(s: Seq<char>) -> Seq<char>
    decreases s.len(),
{
    if s.len() == 0 {
        Seq::empty()
    } else {
        spec_katakana_to_half_width(s.drop_last()) + kata_half_form(s.last())
    }
}

/// The full-width katakana of hiragana text.
pub open spec fn spec_katakana(s: Seq<char>) -> Seq<char> {
    s.map_values(|c: char| kata_of(c))
}

/// What the rewriter offers for `cand`.
pub open spec fn spec_katakana_rewrite(cand: Seq<char>) -> Seq<OutView> {
    if cand.len() == 0 || !spec_pure_kana(cand) {
        Seq::empty()
    } else {
        let with_full = if spec_contains_hiragana(cand) {
            add_variant(Seq::empty(), cand, spec_katakana(cand), Some("[全]カタカナ"@))
        } else {
            Seq::empty()
        };
        let full = if spec_contains_hiragana(cand) {
            spec_katakana(cand)
        } else {
            cand
        };
        add_variant(with_full, cand, spec_katakana_to_half_width(full), Some("[半]カタカナ"@))
    }
}

/// Convert full-width katakana to half-width katakana; voiced kana become
/// base plus mark (`ガ` becomes `ｶﾞ`).
pub fn katakana_to_half_width(text: &str) -> (r: String)
    ensures
        r@ == spec_katakana_to_half_width(text@),
{
    let cs = chars_of(text);
    let mut out: Vec<char> = Vec::new();
    let mut i: usize = 0;
    while i < cs.len()
        invariant
            i <= cs.len(),
            out@ == spec_katakana_to_half_width(cs@.take(i as int)),
        decreases cs.len() - i,
    {
        let c = cs[i];
        let piece = if '\u{30A1}' <= c && c <= '\u{30F6}' {
            crate::kana::hiragana_to_halfwidth_katakana_char(crate::kana::hira_char(c))
        } else if '\u{3041}' <= c && c <= '\u{3096}' {
            vec![c]
        } else {
            crate::kana::hiragana_to_halfwidth_katakana_char(c)
        };
        let ghost before = out@;
        let mut k: usize = 0;
        while k < piece.len()
            invariant
                k <= piece.len(),
                out@ == before + piece@.take(k as int),
            decreases piece.len() - k,
        {
            out.push(piece[k]);
            k += 1;
            assert(out@ =~= before + piece@.take(k as int));
        }
        assert(piece@.take(piece.len() as int) =~= piece@);
        assert(cs@.take(i + 1).drop_last() =~= cs@.take(i as int));
        i += 1;
    }
    assert(cs@.take(cs.len() as int) =~= cs@);
    string_of(&out)
}

fn is_pure_kana(cs: &Vec<char>) -> (r: bool)
    ensures
        r == spec_pure_kana(cs@),
{
    let mut i: usize = 0;
    while i < cs.len()
        invariant
            i <= cs.len(),
            forall|j: int| 0 <= j < i ==> is_kana(#[trigger] cs@[j]),
        decreases cs.len() - i,
    {
        let c = cs[i];
        if !(('\u{3041}' <= c && c <= '\u{3096}') || ('\u{30A0}' <= c && c <= '\u{30FF}')) {
            assert(!is_kana(cs@[i as int]));
            return false;
        }
        i += 1;
    }
    true
}

fn contains_hiragana(cs: &Vec<char>) -> (r: bool)
    ensures
        r == spec_contains_hiragana(cs@),
{
    let mut i: usize = 0;
    while i < cs.len()
        invariant
            i <= cs.len(),
            forall|j: int| 0 <= j < i ==> !is_hiragana(#[trigger] cs@[j]),
        decreases cs.len() - i,
    {
        let c = cs[i];
        if '\u{3041}' <= c && c <= '\u{3096}' {
            assert(is_hiragana(cs@[i as int]));
            return true;
        }
        i += 1;
    }
    false
}

impl Rewriter for HalfWidthKatakanaRewriter {
    fn name(&self) -> (r: &'static str)
        ensures
            r@ == "katakana_form"@,
    {
        "katakana_form"
    }

    fn rewrite(&self, candidate: &str) -> (r: Vec<RewriteOutput>)
        ensures
            outs_view(r@) == spec_katakana_rewrite(candidate@),
    {
        let mut out: Vec<RewriteOutput> = Vec::new();
        assert(outs_view(out@) =~= Seq::<OutView>::empty());
        let cs = chars_of(candidate);
        if cs.len() == 0 || !is_pure_kana(&cs) {
            return out;
        }
        let has_hira = contains_hiragana(&cs);
        let full_kata = if has_hira {
            let v = hiragana_to_katakana(candidate);
            assert(v@ == spec_katakana(candidate@));
            push_variant(&mut out, candidate, v.clone(), Some("[全]カタカナ".to_owned()));
            v
        } else {
            candidate.to_owned()
        };
        let half = katakana_to_half_width(full_kata.as_str());
        push_variant(&mut out, candidate, half, Some("[半]カタカナ".to_owned()));
        out
    }
}

/// The katakana rewriter never offers the candidate itself and never one
/// text twice.
pub proof fn lemma_katakana_well_offered(cand: Seq<char>)
    ensures
        well_offered(spec_katakana_rewrite(cand), cand),
{
    let e = Seq::<OutView>::empty();
    if cand.len() > 0 && spec_pure_kana(cand) {
        let with_full = if spec_contains_hiragana(cand) {
            lemma_add_variant_keeps(e, cand, spec_katakana(cand), Some("[全]カタカナ"@));
            add_variant(e, cand, spec_katakana(cand), Some("[全]カタカナ"@))
        } else {
            e
        };
        let full = if spec_contains_hiragana(cand) {
            spec_katakana(cand)
        } else {
            cand
        };
        lemma_add_variant_keeps(with_full, cand, spec_katakana_to_half_width(full), Some("[半]カタカナ"@));
    }
}

} // verus!
