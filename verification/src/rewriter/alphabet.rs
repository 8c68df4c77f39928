//! Alphabet width/case rewriter: for ASCII or full-width letters, offer the
//! four canonical forms (half-width lower and upper, full-width lower and
//! upper), each described with its width marker (`[半]` / `[全]`) and case
//! (`英小文字` / `英大文字`).

use vstd::prelude::*;

use crate::kana::{
    ascii_to_fullwidth_char, fullwidth_to_ascii_char, spec_to_ascii, spec_to_fullwidth,
};
use crate::rewriter::{
    add_variant, has_text, lemma_add_variant_keeps, outs_view, push_variant, well_offered, OutView,
    RewriteOutput, Rewriter,
};
use crate::text::{ascii_lower, ascii_upper, chars_of, lower_char, string_of, upper_char};

verus! {

/// Rewriter that offers width/case variants of alphabetic input.
pub struct AlphabetRewriter;

/// An ASCII letter or a full-width `Ａ`–`Ｚ` / `ａ`–`ｚ`.
pub open spec fn is_alpha_char(c: char) -> bool {
    ('a' <= c && c <= 'z') || ('A' <= c && c <= 'Z') || ('\u{FF21}' <= c && c <= '\u{FF3A}') || (
    '\u{FF41}' <= c && c <= '\u{FF5A}')
}

/// A non-empty run of letters.
pub open spec fn spec_pure_alpha(s: Seq<char>) -> bool {
    s.len() > 0 && forall|i: int| 0 <= i < s.len() ==> is_alpha_char(#[trigger] s[i])
}

/// Which width a variant takes.
#[derive(Clone, Copy, PartialEq, Eq, Structural)]
pub enum Width {
    Half,
    Full,
}

/// Which case a variant takes.
#[derive(Clone, Copy, PartialEq, Eq, Structural)]
pub enum Case {
    Lower,
    Upper,
}

/// The candidate at one width and case.
pub open spec fn variant_text(cand: Seq<char>, w: Width, c: Case) -> Seq<char> {
    let half = cand.map_values(|x: char| spec_to_ascii(x));
    let cased = match c {
        Case::Lower => half.map_values(|x: char| ascii_lower(x)),
        Case::Upper => half.map_values(|x: char| ascii_upper(x)),
    };
    match w {
        Width::Half => cased,
        Width::Full => cased.map_values(|x: char| spec_to_fullwidth(x)),
    }
}

/// The description of a variant.
pub open spec fn variant_desc(w: Width, c: Case) -> Seq<char> {
    match (w, c) {
        (Width::Half, Case::Lower) => "[半]英小文字"@,
        (Width::Half, Case::Upper) => "[半]英大文字"@,
        (Width::Full, Case::Lower) => "[全]英小文字"@,
        (Width::Full, Case::Upper) => "[全]英大文字"@,
    }
}

/// What the rewriter offers for `cand`: the four forms in the order half
/// lower, half upper, full lower, full upper, leaving out the candidate
/// itself and repeats; nothing unless the candidate is all letters.
pub open spec fn spec_alphabet_rewrite(cand: Seq<char>) -> Seq<OutView> {
    if !spec_pure_alpha(cand) {
        Seq::empty()
    } else {
        let step = |out: Seq<OutView>, w: Width, c: Case|
            add_variant(out, cand, variant_text(cand, w, c), Some(variant_desc(w, c)));
        step(
            step(
                step(step(Seq::empty(), Width::Half, Case::Lower), Width::Half, Case::Upper),
                Width::Full,
                Case::Lower,
            ),
            Width::Full,
            Case::Upper,
        )
    }
}

fn is_pure_alpha(text: &str) -> (r: bool)
    ensures
        r == spec_pure_alpha(text@),
{
    let cs = chars_of(text);
    if cs.len() == 0 {
        return false;
    }
    let mut i: usize = 0;
    while i < cs.len()
        invariant
            cs@ == text@,
            i <= cs.len(),
            forall|j: int| 0 <= j < i ==> is_alpha_char(#[trigger] cs@[j]),
        decreases cs.len() - i,
    {
        let c = cs[i];
        if !(('a' <= c && c <= 'z') || ('A' <= c && c <= 'Z') || ('\u{FF21}' <= c && c
            <= '\u{FF3A}') || ('\u{FF41}' <= c && c <= '\u{FF5A}')) {
            assert(!is_alpha_char(text@[i as int]));
            return false;
        }
        i += 1;
    }
    true
}

fn build_text(original: &str, w: Width, c: Case) -> (r: String)
    ensures
        r@ == variant_text(original@, w, c),
{
    let cs = chars_of(original);
    let mut out: Vec<char> = Vec::new();
    let mut i: usize = 0;
    while i < cs.len()
        invariant
            cs@ == original@,
            i <= cs.len(),
            out@.len() == i,
            forall|j: int| 0 <= j < i ==> out@[j] == variant_text(original@, w, c)[j],
        decreases cs.len() - i,
    {
        let half = fullwidth_to_ascii_char(cs[i]);
        let cased = match c {
            Case::Lower => lower_char(half),
            Case::Upper => upper_char(half),
        };
        let x = match w {
            Width::Half => cased,
            Width::Full => ascii_to_fullwidth_char(cased),
        };
        out.push(x);
        i += 1;
    }
    assert(out@ =~= variant_text(original@, w, c));
    string_of(&out)
}

fn build_desc(w: Width, c: Case) -> (r: String)
    ensures
        r@ == variant_desc(w, c),
{
    match (w, c) {
        (Width::Half, Case::Lower) => "[半]英小文字".to_owned(),
        (Width::Half, Case::Upper) => "[半]英大文字".to_owned(),
        (Width::Full, Case::Lower) => "[全]英小文字".to_owned(),
        (Width::Full, Case::Upper) => "[全]英大文字".to_owned(),
    }
}

impl Rewriter for AlphabetRewriter {
    fn name(&self) -> (r: &'static str)
        ensures
            r@ == "alphabet"@,
    {
        "alphabet"
    }

    fn rewrite(&self, candidate: &str) -> (r: Vec<RewriteOutput>)
        ensures
            outs_view(r@) == spec_alphabet_rewrite(candidate@),
    {
        let mut out: Vec<RewriteOutput> = Vec::new();
        if !is_pure_alpha(candidate) {
            assert(outs_view(out@) =~= Seq::<OutView>::empty());
            return out;
        }
        assert(outs_view(out@) =~= Seq::<OutView>::empty());
        push_variant(
            &mut out,
            candidate,
            build_text(candidate, Width::Half, Case::Lower),
            Some(build_desc(Width::Half, Case::Lower)),
        );
        push_variant(
            &mut out,
            candidate,
            build_text(candidate, Width::Half, Case::Upper),
            Some(build_desc(Width::Half, Case::Upper)),
        );
        push_variant(
            &mut out,
            candidate,
            build_text(candidate, Width::Full, Case::Lower),
            Some(build_desc(Width::Full, Case::Lower)),
        );
        push_variant(
            &mut out,
            candidate,
            build_text(candidate, Width::Full, Case::Upper),
            Some(build_desc(Width::Full, Case::Upper)),
        );
        out
    }
}

/// The alphabet rewriter never offers the candidate itself and never one
/// text twice.
pub proof fn lemma_alphabet_well_offered(cand: Seq<char>)
    ensures
        well_offered(spec_alphabet_rewrite(cand), cand),
{
    if spec_pure_alpha(cand) {
        let e = Seq::<OutView>::empty();
        let o1 = add_variant(e, cand, variant_text(cand, Width::Half, Case::Lower), Some(variant_desc(Width::Half, Case::Lower)));
        let o2 = add_variant(o1, cand, variant_text(cand, Width::Half, Case::Upper), Some(variant_desc(Width::Half, Case::Upper)));
        let o3 = add_variant(o2, cand, variant_text(cand, Width::Full, Case::Lower), Some(variant_desc(Width::Full, Case::Lower)));
        lemma_add_variant_keeps(e, cand, variant_text(cand, Width::Half, Case::Lower), Some(variant_desc(Width::Half, Case::Lower)));
        lemma_add_variant_keeps(o1, cand, variant_text(cand, Width::Half, Case::Upper), Some(variant_desc(Width::Half, Case::Upper)));
        lemma_add_variant_keeps(o2, cand, variant_text(cand, Width::Full, Case::Lower), Some(variant_desc(Width::Full, Case::Lower)));
        lemma_add_variant_keeps(o3, cand, variant_text(cand, Width::Full, Case::Upper), Some(variant_desc(Width::Full, Case::Upper)));
    }
}

/// The alphabet rewriter offers nothing exactly when the candidate is not
/// a non-empty run of letters; otherwise three or four forms (the four
/// forms differ from each other, and at most one of them is the candidate
/// itself), every one with a description.
pub proof fn lemma_alphabet_offer_shape(cand: Seq<char>)
    ensures
        (spec_alphabet_rewrite(cand).len() == 0) <==> !spec_pure_alpha(cand),
        spec_pure_alpha(cand) ==> 3 <= spec_alphabet_rewrite(cand).len() <= 4,
        forall|i: int|
            0 <= i < spec_alphabet_rewrite(cand).len() ==> (#[trigger] spec_alphabet_rewrite(
                cand,
            )[i]).1 is Some,
{
    if spec_pure_alpha(cand) {
        let t1 = variant_text(cand, Width::Half, Case::Lower);
        let t2 = variant_text(cand, Width::Half, Case::Upper);
        let t3 = variant_text(cand, Width::Full, Case::Lower);
        let t4 = variant_text(cand, Width::Full, Case::Upper);
        let d1 = Some(variant_desc(Width::Half, Case::Lower));
        let d2 = Some(variant_desc(Width::Half, Case::Upper));
        let d3 = Some(variant_desc(Width::Full, Case::Lower));
        let d4 = Some(variant_desc(Width::Full, Case::Upper));
        let c0 = cand[0];
        assert(is_alpha_char(c0));
        let a = spec_to_ascii(c0);
        assert(('a' <= a && a <= 'z') || ('A' <= a && a <= 'Z'));
        let lo = ascii_lower(a);
        let up = ascii_upper(a);
        assert('a' <= lo && lo <= 'z');
        assert('A' <= up && up <= 'Z');
        assert(t1[0] == lo);
        assert(t2[0] == up);
        assert(t3[0] == spec_to_fullwidth(lo));
        assert(t4[0] == spec_to_fullwidth(up));
        assert(t1 != t2 && t1 != t3 && t1 != t4 && t2 != t3 && t2 != t4 && t3 != t4) by {
            assert(t1[0] != t2[0] && t1[0] != t3[0] && t1[0] != t4[0] && t2[0] != t3[0] && t2[0]
                != t4[0] && t3[0] != t4[0]);
        }
        let e = Seq::<OutView>::empty();
        let o1 = add_variant(e, cand, t1, d1);
        let o2 = add_variant(o1, cand, t2, d2);
        let o3 = add_variant(o2, cand, t3, d3);
        let o4 = add_variant(o3, cand, t4, d4);
        assert(o4 == spec_alphabet_rewrite(cand));
        assert(forall|i: int| 0 <= i < o1.len() ==> #[trigger] o1[i] == (t1, d1));
        assert(!has_text(o1, t2));
        assert(forall|i: int| 0 <= i < o2.len() ==> (#[trigger] o2[i] == (t1, d1) || o2[i] == (t2, d2)));
        assert(!has_text(o2, t3));
        assert(forall|i: int|
            0 <= i < o3.len() ==> (#[trigger] o3[i] == (t1, d1) || o3[i] == (t2, d2) || o3[i] == (
            t3,
            d3,
        )));
        assert(!has_text(o3, t4));
        assert(forall|i: int|
            0 <= i < o4.len() ==> (#[trigger] o4[i] == (t1, d1) || o4[i] == (t2, d2) || o4[i] == (
            t3,
            d3,
        ) || o4[i] == (t4, d4)));
    }
}

} // verus!
