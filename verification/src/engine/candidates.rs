//! The conversion candidate list: every source's candidates merged in
//! priority order — learning history, user dictionary, model (or the kana
//! itself when the model gave nothing), system dictionary, the kana pair,
//! rewriter variants — with later repeats of a text dropped, then labelled.

use vstd::prelude::*;

use crate::kana::{hiragana_to_katakana, kata_of};
use crate::rewriter::symbol::{builtin_symbol_descriptions, builtin_symbol_entries, description, lookup_desc};
use crate::rewriter::{opt_view, OutView, RewriteOutput};
use crate::text::{chars_of, same_text, strs};

verus! {

/// Where a candidate came from.
#[derive(Debug, Clone, Copy, PartialEq, Eq, Structural)]
pub enum CandidateSource {
    Learning,
    UserDictionary,
    Model,
    Dictionary,
    Rewriter,
    Fallback,
}

/// A candidate with its origin: the text, the reading it stands for when
/// that differs from the typed one, and a description for the window.
#[derive(Debug)]
pub struct AnnotatedCandidate {
    pub text: String,
    pub reading: Option<String>,
    pub source: CandidateSource,
    pub description: Option<String>,
}

/// A candidate as plain values: text, reading, source, description.
pub type CandView = (Seq<char>, Option<Seq<char>>, CandidateSource, Option<Seq<char>>);

pub open spec fn cand_view(c: AnnotatedCandidate) -> CandView {
    (c.text@, opt_view(c.reading), c.source, opt_view(c.description))
}

pub open spec fn cand_views(v: Seq<AnnotatedCandidate>) -> Seq<CandView> {
    v.map_values(|c: AnnotatedCandidate| cand_view(c))
}

/// Whether some candidate of `out` has the text `t`.
pub open spec fn offers(out: Seq<CandView>, t: Seq<char>) -> bool {
    exists|i: int| 0 <= i < out.len() && #[trigger] out[i].0 == t
}

/// `out` with `c` appended unless its text is already there.
pub open spec fn push_unseen(out: Seq<CandView>, c: CandView) -> Seq<CandView> {
    if offers(out, c.0) {
        out
    } else {
        out.push(c)
    }
}

/// `out` with each of `cs` (only those from `src`, when given) appended in
/// order unless its text is already there.
pub open spec fn add_all(out: Seq<CandView>, cs: Seq<CandView>, src: Option<CandidateSource>) -> Seq<
    CandView,
>
    decreases cs.len(),
{
    if cs.len() == 0 {
        out
    } else {
        let o = add_all(out, cs.drop_last(), src);
        let c = cs.last();
        if src matches Some(x) && c.2 != x {
            o
        } else {
            push_unseen(o, c)
        }
    }
}

/// A learning-history hit as a candidate: its reading is kept only when it
/// differs from the typed one.
pub open spec fn learned_view(hit: (Seq<char>, Option<Seq<char>>), reading: Seq<char>) -> CandView {
    (hit.0, if hit.1 == Some(reading) { None } else { hit.1 }, CandidateSource::Learning, None)
}

pub open spec fn learned_views(hits: Seq<(Seq<char>, Option<Seq<char>>)>, reading: Seq<char>) -> Seq<
    CandView,
> {
    hits.map_values(|h: (Seq<char>, Option<Seq<char>>)| learned_view(h, reading))
}

pub open spec fn model_view(t: Seq<char>) -> CandView {
    (t, None, CandidateSource::Model, None)
}

pub open spec fn model_views(ts: Seq<Seq<char>>) -> Seq<CandView> {
    ts.map_values(|t: Seq<char>| model_view(t))
}

pub open spec fn rewrite_view(o: OutView) -> CandView {
    (o.0, None, CandidateSource::Rewriter, o.1)
}

pub open spec fn rewrite_views(os: Seq<OutView>) -> Seq<CandView> {
    os.map_values(|o: OutView| rewrite_view(o))
}

pub open spec fn fallback_view(t: Seq<char>) -> CandView {
    (t, None, CandidateSource::Fallback, None)
}

/// Hiragana, or the long-vowel mark.
pub open spec fn hiragana_like(c: char) -> bool {
    ('\u{3041}' <= c && c <= '\u{309F}') || c == '\u{30FC}'
}

/// Full-width katakana, or the long-vowel mark.
pub open spec fn katakana_like(c: char) -> bool {
    '\u{30A1}' <= c && c <= '\u{30FA}' || c == '\u{30FC}'
}

/// Mozc-style width/script label for a text made only of hiragana, or only
/// of full-width katakana; `None` for anything else.
pub open spec fn width_label(t: Seq<char>) -> Option<Seq<char>> {
    if t.len() > 0 && forall|i: int| 0 <= i < t.len() ==> hiragana_like(#[trigger] t[i]) {
        Some("[全]ひらがな"@)
    } else if t.len() > 0 && forall|i: int| 0 <= i < t.len() ==> katakana_like(#[trigger] t[i]) {
        Some("[全]カタカナ"@)
    } else {
        None
    }
}

/// The labels: a kana candidate without a description gets the symbol
/// description of its text (a fallback only, so no dictionary or model
/// candidate inherits a symbol's label), then the width label.
pub open spec fn labelled(c: CandView) -> CandView {
    let d1 = if c.2 == CandidateSource::Fallback && c.3 is None {
        lookup_desc(builtin_symbol_descriptions(), builtin_symbol_entries(), c.0)
    } else {
        c.3
    };
    let d2 = if d1 is None {
        width_label(c.0)
    } else {
        d1
    };
    (c.0, c.1, c.2, d2)
}

/// The merged candidate list for `reading`.
pub open spec fn spec_build_candidates(
    reading: Seq<char>,
    learning: Seq<(Seq<char>, Option<Seq<char>>)>,
    dict: Seq<CandView>,
    model: Seq<Seq<char>>,
    rewrites: Seq<OutView>,
    emoji_mode: bool,
    skip_learning: bool,
) -> Seq<CandView> {
    let o1 = if skip_learning {
        Seq::empty()
    } else {
        learned_views(learning, reading)
    };
    let o2 = add_all(o1, dict, Some(CandidateSource::UserDictionary));
    let o3 = if model.len() == 0 {
        if o2.len() == 0 && !emoji_mode {
            push_unseen(o2, fallback_view(reading))
        } else {
            o2
        }
    } else {
        add_all(o2, model_views(model), None)
    };
    let o4 = add_all(o3, dict, Some(CandidateSource::Dictionary));
    let o5 = if emoji_mode {
        add_all(o4, rewrite_views(rewrites), None)
    } else {
        add_all(
            push_unseen(
                push_unseen(o4, fallback_view(reading)),
                fallback_view(reading.map_values(|c: char| kata_of(c))),
            ),
            rewrite_views(rewrites),
            None,
        )
    };
    o5.map_values(|c: CandView| labelled(c))
}

fn copy_opt(o: &Option<String>) -> (r: Option<String>)
    ensures
        opt_view(r) == opt_view(*o),
{
    match o {
        Some(s) => Some(s.clone()),
        None => None,
    }
}

fn copy_cand(c: &AnnotatedCandidate) -> (r: AnnotatedCandidate)
    ensures
        cand_view(r) == cand_view(*c),
{
    AnnotatedCandidate {
        text: c.text.clone(),
        reading: copy_opt(&c.reading),
        source: c.source,
        description: copy_opt(&c.description),
    }
}

fn has_text(out: &Vec<AnnotatedCandidate>, t: &str) -> (r: bool)
    ensures
        r == offers(cand_views(out@), t@),
{
    let mut i: usize = 0;
    while i < out.len()
        invariant
            i <= out.len(),
            forall|j: int| 0 <= j < i ==> out@[j].text@ != t@,
        decreases out.len() - i,
    {
        if same_text(out[i].text.as_str(), t) {
            assert(cand_views(out@)[i as int].0 == t@);
            return true;
        }
        i += 1;
    }
    assert forall|j: int| 0 <= j < cand_views(out@).len() implies #[trigger] cand_views(out@)[j].0
        != t@ by {
        assert(cand_views(out@)[j].0 == out@[j].text@);
    }
    false
}

fn push_if_unseen(out: &mut Vec<AnnotatedCandidate>, c: AnnotatedCandidate)
    ensures
        cand_views(final(out)@) == push_unseen(cand_views(old(out)@), cand_view(c)),
{
    if !has_text(out, c.text.as_str()) {
        let ghost before = out@;
        let ghost cv = cand_view(c);
        out.push(c);
        assert(cand_views(out@) =~= cand_views(before).push(cv));
    }
}

fn add_candidates(out: &mut Vec<AnnotatedCandidate>, cs: &Vec<AnnotatedCandidate>, src: Option<CandidateSource>)
    ensures
        cand_views(final(out)@) == add_all(cand_views(old(out)@), cand_views(cs@), src),
{
    let ghost start = cand_views(out@);
    let mut i: usize = 0;
    assert(cand_views(cs@).take(0) =~= Seq::<CandView>::empty());
    while i < cs.len()
        invariant
            i <= cs.len(),
            cand_views(out@) == add_all(start, cand_views(cs@).take(i as int), src),
        decreases cs.len() - i,
    {
        assert(cand_views(cs@).take(i + 1).drop_last() =~= cand_views(cs@).take(i as int));
        assert(cand_views(cs@).take(i + 1).last() == cand_view(cs@[i as int]));
        let keep = match src {
            Some(x) => cs[i].source == x,
            None => true,
        };
        if keep {
            push_if_unseen(out, copy_cand(&cs[i]));
        }
        i += 1;
    }
    assert(cand_views(cs@).take(cs.len() as int) =~= cand_views(cs@));
}

fn is_hiragana_like(c: char) -> (r: bool)
    ensures
        r == hiragana_like(c),
{
    ('\u{3041}' <= c && c <= '\u{309F}') || c == '\u{30FC}'
}

fn is_katakana_like(c: char) -> (r: bool)
    ensures
        r == katakana_like(c),
{
    ('\u{30A1}' <= c && c <= '\u{30FA}') || c == '\u{30FC}'
}

/// The width/script label of a pure-kana text (see [`width_label`]).
pub fn width_annotation(text: &str) -> (r: Option<String>)
    ensures
        opt_view(r) == width_label(text@),
{
    let cs = chars_of(text);
    if cs.len() == 0 {
        return None;
    }
    let mut hira = true;
    let mut kata = true;
    let mut i: usize = 0;
    while i < cs.len()
        invariant
            cs@ == text@,
            i <= cs.len(),
            hira == (forall|j: int| 0 <= j < i ==> hiragana_like(#[trigger] cs@[j])),
            kata == (forall|j: int| 0 <= j < i ==> katakana_like(#[trigger] cs@[j])),
        decreases cs.len() - i,
    {
        let c = cs[i];
        if !is_hiragana_like(c) {
            hira = false;
        }
        if !is_katakana_like(c) {
            kata = false;
        }
        i += 1;
    }
    if hira {
        Some("[全]ひらがな".to_owned())
    } else if kata {
        Some("[全]カタカナ".to_owned())
    } else {
        None
    }
}

fn label(c: AnnotatedCandidate) -> (r: AnnotatedCandidate)
    ensures
        cand_view(r) == labelled(cand_view(c)),
{
    let mut c = c;
    if c.source == CandidateSource::Fallback && c.description.is_none() {
        c.description = description(c.text.as_str());
    }
    if c.description.is_none() {
        c.description = width_annotation(c.text.as_str());
    }
    c
}

/// Merge the candidates of every source for `reading`, in priority order:
/// the learning history (`learning`: text and reading of each hit, kept
/// even where a later source repeats it), the user-dictionary hits of
/// `dict`, the model's `model` candidates — or, when the model gave none,
/// the reading itself if nothing came before it (never in emoji mode) —
/// the system-dictionary hits of `dict`, then the reading and its katakana
/// (not in emoji mode) and the rewriter variants. A text already listed is
/// not listed again. Fallback candidates without a description get the
/// symbol description of their text, and every candidate still without
/// one gets the width label of a pure-kana text. `skip_learning` leaves
/// the history out.
pub fn build_conversion_candidates(
    reading: &str,
    learning: Vec<(String, Option<String>)>,
    dict: Vec<AnnotatedCandidate>,
    model: Vec<String>,
    rewrites: Vec<RewriteOutput>,
    emoji_mode: bool,
    skip_learning: bool,
) -> (r: Vec<AnnotatedCandidate>)
    ensures
        cand_views(r@) == spec_build_candidates(
            reading@,
            learning@.map_values(|h: (String, Option<String>)| (h.0@, opt_view(h.1))),
            cand_views(dict@),
            strs(model@),
            rewrites@.map_values(|o: RewriteOutput| (o.0@, opt_view(o.1))),
            emoji_mode,
            skip_learning,
        ),
{
    let ghost lv = learning@.map_values(|h: (String, Option<String>)| (h.0@, opt_view(h.1)));
    let ghost mv = strs(model@);
    let ghost rv = rewrites@.map_values(|o: RewriteOutput| (o.0@, opt_view(o.1)));
    let mut out: Vec<AnnotatedCandidate> = Vec::new();
    assert(cand_views(out@) =~= Seq::<CandView>::empty());
    // 1. learning history, kept unconditionally
    if !skip_learning {
        let mut i: usize = 0;
        while i < learning.len()
            invariant
                i <= learning.len(),
                lv == learning@.map_values(|h: (String, Option<String>)| (h.0@, opt_view(h.1))),
                cand_views(out@) == learned_views(lv, reading@).take(i as int),
                out@.len() == i,
                lv.len() == learning@.len(),
            decreases learning.len() - i,
        {
            let ghost before = out@;
            let keep_reading = match &learning[i].1 {
                Some(r) => !same_text(r.as_str(), reading),
                None => false,
            };
            let rd = if keep_reading {
                copy_opt(&learning[i].1)
            } else {
                None
            };
            let c = AnnotatedCandidate {
                text: learning[i].0.clone(),
                reading: rd,
                source: CandidateSource::Learning,
                description: None,
            };
            let ghost cv = cand_view(c);
            proof {
                assert(lv[i as int] == (learning@[i as int].0@, opt_view(learning@[i as int].1)));
                assert(cv == learned_view(lv[i as int], reading@));
                assert(learned_views(lv, reading@)[i as int] == cv);
            }
            out.push(c);
            proof {
                assert(cand_views(out@)[i as int] == cv);
            }
            i += 1;
            assert(cand_views(out@) =~= learned_views(lv, reading@).take(i as int));
        }
        assert(learned_views(lv, reading@).take(learning.len() as int) =~= learned_views(lv, reading@));
    }
    // 2. user dictionary
    add_candidates(&mut out, &dict, Some(CandidateSource::UserDictionary));
    // 3. model, or the reading when the model gave nothing
    if model.len() == 0 {
        if out.len() == 0 && !emoji_mode {
            push_if_unseen(
                &mut out,
                AnnotatedCandidate {
                    text: reading.to_owned(),
                    reading: None,
                    source: CandidateSource::Fallback,
                    description: None,
                },
            );
        }
    } else {
        let mut ms: Vec<AnnotatedCandidate> = Vec::new();
        let mut i: usize = 0;
        while i < model.len()
            invariant
                i <= model.len(),
                mv == strs(model@),
                cand_views(ms@) == model_views(mv).take(i as int),
                ms@.len() == i,
                mv.len() == model@.len(),
            decreases model.len() - i,
        {
            let c = AnnotatedCandidate {
                text: model[i].clone(),
                reading: None,
                source: CandidateSource::Model,
                description: None,
            };
            let ghost cv = cand_view(c);
            proof {
                assert(mv[i as int] == model@[i as int]@);
                assert(model_views(mv)[i as int] == cv);
            }
            ms.push(c);
            proof {
                assert(cand_views(ms@)[i as int] == cv);
            }
            i += 1;
            assert(cand_views(ms@) =~= model_views(mv).take(i as int));
        }
        assert(model_views(mv).take(model.len() as int) =~= model_views(mv));
        add_candidates(&mut out, &ms, None);
    }
    // 4. system dictionary
    add_candidates(&mut out, &dict, Some(CandidateSource::Dictionary));
    // 5. the kana pair (not in emoji mode), then the rewriter variants
    if !emoji_mode {
        push_if_unseen(
            &mut out,
            AnnotatedCandidate {
                text: reading.to_owned(),
                reading: None,
                source: CandidateSource::Fallback,
                description: None,
            },
        );
        push_if_unseen(
            &mut out,
            AnnotatedCandidate {
                text: hiragana_to_katakana(reading),
                reading: None,
                source: CandidateSource::Fallback,
                description: None,
            },
        );
    }
    let mut rs: Vec<AnnotatedCandidate> = Vec::new();
    let mut i: usize = 0;
    while i < rewrites.len()
        invariant
            i <= rewrites.len(),
            rv == rewrites@.map_values(|o: RewriteOutput| (o.0@, opt_view(o.1))),
            cand_views(rs@) == rewrite_views(rv).take(i as int),
            rs@.len() == i,
            rv.len() == rewrites@.len(),
        decreases rewrites.len() - i,
    {
        let c = AnnotatedCandidate {
            text: rewrites[i].0.clone(),
            reading: None,
            source: CandidateSource::Rewriter,
            description: copy_opt(&rewrites[i].1),
        };
        let ghost cv = cand_view(c);
        proof {
            assert(rv[i as int] == (rewrites@[i as int].0@, opt_view(rewrites@[i as int].1)));
            assert(rewrite_views(rv)[i as int] == cv);
        }
        rs.push(c);
        proof {
            assert(cand_views(rs@)[i as int] == cv);
        }
        i += 1;
        assert(cand_views(rs@) =~= rewrite_views(rv).take(i as int));
    }
    assert(rewrite_views(rv).take(rewrites.len() as int) =~= rewrite_views(rv));
    add_candidates(&mut out, &rs, None);
    // 6. labels
    let ghost merged = cand_views(out@);
    let mut labelled_out: Vec<AnnotatedCandidate> = Vec::new();
    let mut k: usize = 0;
    while k < out.len()
        invariant
            k <= out.len(),
            merged == cand_views(out@),
            cand_views(labelled_out@) == merged.take(k as int).map_values(|c: CandView| labelled(c)),
            labelled_out@.len() == k,
            merged.len() == out@.len(),
        decreases out.len() - k,
    {
        let lc = label(copy_cand(&out[k]));
        let ghost lv2 = cand_view(lc);
        proof {
            assert(merged[k as int] == cand_view(out@[k as int]));
            assert(lv2 == labelled(merged[k as int]));
        }
        let ghost prev = labelled_out@;
        labelled_out.push(lc);
        proof {
            assert(cand_views(labelled_out@) =~= cand_views(prev).push(lv2));
            assert(merged.take(k + 1).map_values(|c: CandView| labelled(c)) =~= merged.take(
                k as int,
            ).map_values(|c: CandView| labelled(c)).push(labelled(merged[k as int])));
        }
        k += 1;
    }
    assert(merged.take(k as int) =~= merged);
    labelled_out
}

// ---------- dictionary hits ----------

/// Whether a hit from `src` is searched at all.
pub open spec fn searched(src: CandidateSource, only: Option<CandidateSource>) -> bool {
    match only {
        Some(o) => o == src,
        None => true,
    }
}

/// The exact-match hits taken in order: from a searched dictionary, while
/// fewer than `limit` candidates are listed, each surface once.
pub open spec fn take_exact(
    out: Seq<CandView>,
    hits: Seq<(Seq<char>, CandidateSource)>,
    limit: int,
    only: Option<CandidateSource>,
) -> Seq<CandView>
    decreases hits.len(),
{
    if hits.len() == 0 {
        out
    } else {
        let o = take_exact(out, hits.drop_last(), limit, only);
        let h = hits.last();
        if !searched(h.1, only) || o.len() >= limit {
            o
        } else {
            push_unseen(o, (h.0, None, h.1, None))
        }
    }
}

/// The predictive hits (surface, full reading, dictionary) taken in order:
/// from a searched dictionary, while the predictive budget lasts and fewer
/// than `limit` candidates are listed, each new surface once, each using
/// one unit of the budget. Gives the list and the budget left.
pub open spec fn take_predictive(
    out: Seq<CandView>,
    budget: int,
    hits: Seq<(Seq<char>, Seq<char>, CandidateSource)>,
    limit: int,
    only: Option<CandidateSource>,
) -> (Seq<CandView>, int)
    decreases hits.len(),
{
    if hits.len() == 0 {
        (out, budget)
    } else {
        let (o, b) = take_predictive(out, budget, hits.drop_last(), limit, only);
        let h = hits.last();
        if !searched(h.2, only) || b == 0 || o.len() >= limit || offers(o, h.0) {
            (o, b)
        } else {
            (o.push((h.0, Some(h.1), h.2, None)), b - 1)
        }
    }
}

/// The dictionary candidates for `reading`: exact hits first (only when no
/// romaji tail is pending), then predictive hits (only for a reading of at
/// least `min_prefix_chars` characters whose tail can still become kana).
pub open spec fn spec_search(
    reading: Seq<char>,
    pending_empty: bool,
    tail_dead: bool,
    exact: Seq<(Seq<char>, CandidateSource)>,
    predictive: Seq<(Seq<char>, Seq<char>, CandidateSource)>,
    limit: int,
    predictive_limit: int,
    min_prefix_chars: int,
    only: Option<CandidateSource>,
) -> Seq<CandView> {
    let o1 = if pending_empty {
        take_exact(Seq::empty(), exact, limit, only)
    } else {
        Seq::empty()
    };
    if reading.len() >= min_prefix_chars && !tail_dead {
        take_predictive(o1, predictive_limit, predictive, limit, only).0
    } else {
        o1
    }
}

fn in_search(src: CandidateSource, only: Option<CandidateSource>) -> (r: bool)
    ensures
        r == searched(src, only),
{
    match only {
        Some(o) => o == src,
        None => true,
    }
}

/// Merge the dictionaries' hits for `reading` into one list, user
/// dictionary before system dictionary as the hits come: the exact-match
/// hits `exact` (surface, dictionary), skipped while a romaji tail is
/// pending; then the predictive hits `predictive` (surface, full reading,
/// dictionary), which carry their reading, at most `predictive_limit` of
/// them, and only when `reading` has at least `min_prefix_chars`
/// characters and the pending tail can still become kana. Each surface is
/// listed once, at most `limit` candidates in all, and `only` restricts
/// the search to one dictionary.
pub fn merge_dictionary_hits(
    reading: &str,
    pending_empty: bool,
    tail_dead: bool,
    exact: Vec<(String, CandidateSource)>,
    predictive: Vec<(String, String, CandidateSource)>,
    limit: usize,
    predictive_limit: usize,
    min_prefix_chars: usize,
    only: Option<CandidateSource>,
) -> (r: Vec<AnnotatedCandidate>)
    ensures
        cand_views(r@) == spec_search(
            reading@,
            pending_empty,
            tail_dead,
            exact@.map_values(|h: (String, CandidateSource)| (h.0@, h.1)),
            predictive@.map_values(|h: (String, String, CandidateSource)| (h.0@, h.1@, h.2)),
            limit as int,
            predictive_limit as int,
            min_prefix_chars as int,
            only,
        ),
{
    let ghost ev = exact@.map_values(|h: (String, CandidateSource)| (h.0@, h.1));
    let ghost pv = predictive@.map_values(|h: (String, String, CandidateSource)| (h.0@, h.1@, h.2));
    let mut out: Vec<AnnotatedCandidate> = Vec::new();
    assert(cand_views(out@) =~= Seq::<CandView>::empty());
    if pending_empty {
        let mut i: usize = 0;
        assert(ev.take(0) =~= Seq::<(Seq<char>, CandidateSource)>::empty());
        while i < exact.len()
            invariant
                i <= exact.len(),
                ev == exact@.map_values(|h: (String, CandidateSource)| (h.0@, h.1)),
                cand_views(out@) == take_exact(Seq::empty(), ev.take(i as int), limit as int, only),
            decreases exact.len() - i,
        {
            proof {
                assert(ev.take(i + 1).drop_last() =~= ev.take(i as int));
                assert(ev.take(i + 1).last() == ev[i as int]);
                assert(ev[i as int] == (exact@[i as int].0@, exact@[i as int].1));
            }
            let src = exact[i].1;
            if in_search(src, only) && out.len() < limit {
                push_if_unseen(
                    &mut out,
                    AnnotatedCandidate {
                        text: exact[i].0.clone(),
                        reading: None,
                        source: src,
                        description: None,
                    },
                );
            }
            i += 1;
        }
        assert(ev.take(exact.len() as int) =~= ev);
    }
    let rc = chars_of(reading);
    if rc.len() >= min_prefix_chars && !tail_dead {
        let ghost o1 = cand_views(out@);
        let mut budget = predictive_limit;
        let mut i: usize = 0;
        assert(pv.take(0) =~= Seq::<(Seq<char>, Seq<char>, CandidateSource)>::empty());
        while i < predictive.len()
            invariant
                i <= predictive.len(),
                pv == predictive@.map_values(
                    |h: (String, String, CandidateSource)| (h.0@, h.1@, h.2),
                ),
                (cand_views(out@), budget as int) == take_predictive(
                    o1,
                    predictive_limit as int,
                    pv.take(i as int),
                    limit as int,
                    only,
                ),
            decreases predictive.len() - i,
        {
            proof {
                assert(pv.take(i + 1).drop_last() =~= pv.take(i as int));
                assert(pv.take(i + 1).last() == pv[i as int]);
                assert(pv[i as int] == (predictive@[i as int].0@, predictive@[i as int].1@, predictive@[i as int].2));
            }
            let src = predictive[i].2;
            if in_search(src, only) && budget > 0 && out.len() < limit && !has_text(
                &out,
                predictive[i].0.as_str(),
            ) {
                let ghost before = out@;
                let c = AnnotatedCandidate {
                    text: predictive[i].0.clone(),
                    reading: Some(predictive[i].1.clone()),
                    source: src,
                    description: None,
                };
                let ghost cv = cand_view(c);
                out.push(c);
                assert(cand_views(out@) =~= cand_views(before).push(cv));
                budget = budget - 1;
            }
            i += 1;
        }
        assert(pv.take(predictive.len() as int) =~= pv);
    }
    out
}

// ---------- source views ----------

/// The source views in the order Ctrl+T (forward) and Ctrl+R (backward)
/// rotate through them. One view stands for both dictionaries: it is
/// named by [`CandidateSource::Dictionary`] and shows the user and the
/// system dictionary's hits together.
pub open spec fn filter_cycle() -> Seq<CandidateSource> {
    seq![
        CandidateSource::Learning,
        CandidateSource::Dictionary,
        CandidateSource::Model,
        CandidateSource::Rewriter,
    ]
}

/// The position of a source's view in the rotation: both dictionaries
/// share one; the fallback has none and counts as the first.
pub open spec fn cycle_pos(s: CandidateSource) -> int {
    match s {
        CandidateSource::Learning => 0,
        CandidateSource::UserDictionary => 1,
        CandidateSource::Dictionary => 1,
        CandidateSource::Model => 2,
        CandidateSource::Rewriter => 3,
        CandidateSource::Fallback => 0,
    }
}

/// The view one step from `current` (`None`: the full list): forward from
/// the full list is the first view, backward the last; otherwise the next
/// or previous one, wrapping around. The rotation never returns to the
/// full list, and an empty view is a stop like any other.
pub open spec fn spec_next_filter(current: Option<CandidateSource>, forward: bool) -> CandidateSource {
    let n = filter_cycle().len() as int;
    let pos = match current {
        None => if forward {
            0
        } else {
            n - 1
        },
        Some(s) => if forward {
            (cycle_pos(s) + 1) % n
        } else {
            (cycle_pos(s) + n - 1) % n
        },
    };
    filter_cycle()[pos]
}

/// The source view one Ctrl+T (`forward`) or Ctrl+R step from `current`.
pub fn next_filter(current: Option<CandidateSource>, forward: bool) -> (r: CandidateSource)
    ensures
        r == spec_next_filter(current, forward),
{
    let pos: usize = match current {
        None => if forward {
            0
        } else {
            3
        },
        Some(s) => {
            let p: usize = match s {
                CandidateSource::Learning => 0,
                CandidateSource::UserDictionary => 1,
                CandidateSource::Dictionary => 1,
                CandidateSource::Model => 2,
                CandidateSource::Rewriter => 3,
                CandidateSource::Fallback => 0,
            };
            if forward {
                (p + 1) % 4
            } else {
                (p + 3) % 4
            }
        },
    };
    if pos == 0 {
        CandidateSource::Learning
    } else if pos == 1 {
        CandidateSource::Dictionary
    } else if pos == 2 {
        CandidateSource::Model
    } else {
        CandidateSource::Rewriter
    }
}

/// Whether `s` names a stop of the rotation.
pub open spec fn is_view_stop(s: CandidateSource) -> bool {
    s == CandidateSource::Learning || s == CandidateSource::Dictionary || s
        == CandidateSource::Model || s == CandidateSource::Rewriter
}

/// The rotation has four stops and visits each in turn: every step lands
/// on a stop (never the full list, the user dictionary apart or the
/// fallback alone), four forward steps from a stop come back to it, and a
/// backward step undoes a forward one. From the full list, forward visits
/// learning, the dictionaries, the model and the rewriter, then wraps to
/// learning; backward starts at the rewriter.
pub proof fn lemma_filter_cycle_returns(s: CandidateSource, current: Option<CandidateSource>, forward: bool)
    requires
        is_view_stop(s),
    ensures
        is_view_stop(spec_next_filter(current, forward)),
        spec_next_filter(
            Some(spec_next_filter(Some(spec_next_filter(Some(spec_next_filter(Some(s), true)), true)), true)),
            true,
        ) == s,
        spec_next_filter(Some(spec_next_filter(Some(s), true)), false) == s,
        spec_next_filter(None, true) == CandidateSource::Learning,
        spec_next_filter(Some(CandidateSource::Learning), true) == CandidateSource::Dictionary,
        spec_next_filter(Some(CandidateSource::UserDictionary), true) == CandidateSource::Model,
        spec_next_filter(Some(CandidateSource::Dictionary), true) == CandidateSource::Model,
        spec_next_filter(Some(CandidateSource::Model), true) == CandidateSource::Rewriter,
        spec_next_filter(Some(CandidateSource::Rewriter), true) == CandidateSource::Learning,
        spec_next_filter(None, false) == CandidateSource::Rewriter,
        spec_next_filter(Some(CandidateSource::Rewriter), false) == CandidateSource::Model,
{
}

// ---------- learning hits ----------

/// The learning-history hits taken in order, up to `max`, each surface
/// once: the exact hits (only when no romaji tail is pending), then the
/// prefix hits (full reading, surface) whose reading is not the typed one
/// and, when the tail narrows the lookup, continues with one of the kana
/// the tail can become. A dead tail (`dead`) gives nothing.
pub open spec fn take_learned_exact(
    out: Seq<(Seq<char>, Option<Seq<char>>)>,
    hits: Seq<Seq<char>>,
    reading: Seq<char>,
    max: int,
) -> Seq<(Seq<char>, Option<Seq<char>>)>
    decreases hits.len(),
{
    if hits.len() == 0 {
        out
    } else {
        let o = take_learned_exact(out, hits.drop_last(), reading, max);
        let h = hits.last();
        if o.len() >= max || seen_surface(o, h) {
            o
        } else {
            o.push((h, Some(reading)))
        }
    }
}

/// Whether a surface is already taken.
pub open spec fn seen_surface(out: Seq<(Seq<char>, Option<Seq<char>>)>, t: Seq<char>) -> bool {
    exists|i: int| 0 <= i < out.len() && #[trigger] out[i].0 == t
}

/// Whether `s` starts with `p`.
pub open spec fn starts_with_seq(s: Seq<char>, p: Seq<char>) -> bool {
    p.len() <= s.len() && s.subrange(0, p.len() as int) == p
}

/// What follows the typed reading in a full reading (all of it when it
/// does not start with the typed reading).
pub open spec fn tail_after(full: Seq<char>, reading: Seq<char>) -> Seq<char> {
    if reading.len() <= full.len() && full.subrange(0, reading.len() as int) == reading {
        full.subrange(reading.len() as int, full.len() as int)
    } else {
        full
    }
}

/// Whether a prefix hit's reading fits the tail: when the tail narrows
/// the lookup (`narrow`), what follows the typed reading starts with one
/// of `expansions`, the kana the tail can still become.
pub open spec fn fits_tail(full: Seq<char>, reading: Seq<char>, narrow: bool, expansions: Seq<Seq<char>>) -> bool {
    !narrow || continues_with_one(tail_after(full, reading), expansions)
}

/// Whether `rest` starts with one of `es`.
pub open spec fn continues_with_one(rest: Seq<char>, es: Seq<Seq<char>>) -> bool {
    exists|k: int| 0 <= k < es.len() && #[trigger] starts_with_seq(rest, es[k])
}

pub open spec fn take_learned_prefix(
    out: Seq<(Seq<char>, Option<Seq<char>>)>,
    hits: Seq<(Seq<char>, Seq<char>)>,
    reading: Seq<char>,
    narrow: bool,
    expansions: Seq<Seq<char>>,
    max: int,
) -> Seq<(Seq<char>, Option<Seq<char>>)>
    decreases hits.len(),
{
    if hits.len() == 0 {
        out
    } else {
        let o = take_learned_prefix(out, hits.drop_last(), reading, narrow, expansions, max);
        let h = hits.last();
        if o.len() >= max || h.0 == reading || !fits_tail(h.0, reading, narrow, expansions) || seen_surface(
            o,
            h.1,
        ) {
            o
        } else {
            o.push((h.1, Some(h.0)))
        }
    }
}

/// The learning candidates for `reading` (text, reading).
pub open spec fn spec_learned(
    reading: Seq<char>,
    pending_empty: bool,
    dead: bool,
    narrow: bool,
    expansions: Seq<Seq<char>>,
    exact: Seq<Seq<char>>,
    prefix: Seq<(Seq<char>, Seq<char>)>,
    max: int,
) -> Seq<(Seq<char>, Option<Seq<char>>)> {
    if dead {
        Seq::empty()
    } else {
        let o1 = if pending_empty {
            take_learned_exact(Seq::empty(), exact, reading, max)
        } else {
            Seq::empty()
        };
        take_learned_prefix(o1, prefix, reading, narrow, expansions, max)
    }
}

fn seen_in(out: &Vec<(String, Option<String>)>, t: &str) -> (r: bool)
    ensures
        r == seen_surface(out@.map_values(|h: (String, Option<String>)| (h.0@, opt_view(h.1))), t@),
{
    let ghost v = out@.map_values(|h: (String, Option<String>)| (h.0@, opt_view(h.1)));
    let mut i: usize = 0;
    while i < out.len()
        invariant
            i <= out.len(),
            v == out@.map_values(|h: (String, Option<String>)| (h.0@, opt_view(h.1))),
            forall|j: int| 0 <= j < i ==> out@[j].0@ != t@,
        decreases out.len() - i,
    {
        if same_text(out[i].0.as_str(), t) {
            assert(v[i as int].0 == t@);
            return true;
        }
        i += 1;
    }
    assert forall|j: int| 0 <= j < v.len() implies #[trigger] v[j].0 != t@ by {
        assert(v[j].0 == out@[j].0@);
    }
    false
}

fn starts_with_chars(s: &Vec<char>, p: &Vec<char>) -> (r: bool)
    ensures
        r == (p@.len() <= s@.len() && s@.subrange(0, p@.len() as int) == p@),
{
    if p.len() > s.len() {
        return false;
    }
    let mut i: usize = 0;
    while i < p.len()
        invariant
            p.len() <= s.len(),
            i <= p.len(),
            forall|j: int| 0 <= j < i ==> s@[j] == p@[j],
        decreases p.len() - i,
    {
        if s[i] != p[i] {
            assert(s@.subrange(0, p@.len() as int)[i as int] != p@[i as int]);
            return false;
        }
        i += 1;
    }
    assert(s@.subrange(0, p@.len() as int) =~= p@);
    true
}

fn fits_tail_exec(full: &str, reading: &str, narrow: bool, expansions: &Vec<String>) -> (r: bool)
    ensures
        r == fits_tail(full@, reading@, narrow, strs(expansions@)),
{
    if !narrow {
        return true;
    }
    let ghost ev = strs(expansions@);
    let f = chars_of(full);
    let rd = chars_of(reading);
    let rest: Vec<char> = if starts_with_chars(&f, &rd) {
        let mut r: Vec<char> = Vec::new();
        let mut i = rd.len();
        while i < f.len()
            invariant
                rd.len() <= i <= f.len(),
                r@ == f@.subrange(rd.len() as int, i as int),
            decreases f.len() - i,
        {
            r.push(f[i]);
            i += 1;
            assert(r@ =~= f@.subrange(rd.len() as int, i as int));
        }
        r
    } else {
        f
    };
    let ghost rv = rest@;
    assert(rv == tail_after(full@, reading@));
    let mut k: usize = 0;
    while k < expansions.len()
        invariant
            k <= expansions.len(),
            ev == strs(expansions@),
            ev.len() == expansions@.len(),
            rv == rest@,
            rv == tail_after(full@, reading@),
            forall|j: int| 0 <= j < k ==> !#[trigger] starts_with_seq(rv, ev[j]),
        decreases expansions.len() - k,
    {
        let e = chars_of(expansions[k].as_str());
        assert(ev[k as int] == e@);
        let hit = starts_with_chars(&rest, &e);
        if hit {
            assert(starts_with_seq(rv, ev[k as int]));
            return true;
        }
        k += 1;
    }
    false
}

/// The learning-history candidates for `reading`, as (text, reading)
/// pairs: nothing for a dead romaji tail; otherwise the exact hits `exact`
/// (only when no tail is pending), then the prefix hits `prefix` (full
/// reading, surface) other than the reading itself that fit the tail (see
/// [`fits_tail`]; `narrow` with the tail's `expansions`), each surface
/// once and at most `max` in all.
pub fn merge_learning_hits(
    reading: &str,
    pending_empty: bool,
    dead: bool,
    narrow: bool,
    expansions: Vec<String>,
    exact: Vec<String>,
    prefix: Vec<(String, String)>,
    max: usize,
) -> (r: Vec<(String, Option<String>)>)
    ensures
        r@.map_values(|h: (String, Option<String>)| (h.0@, opt_view(h.1))) == spec_learned(
            reading@,
            pending_empty,
            dead,
            narrow,
            strs(expansions@),
            strs(exact@),
            prefix@.map_values(|h: (String, String)| (h.0@, h.1@)),
            max as int,
        ),
{
    let ghost xv = strs(exact@);
    let ghost pv = prefix@.map_values(|h: (String, String)| (h.0@, h.1@));
    let mut out: Vec<(String, Option<String>)> = Vec::new();
    assert(out@.map_values(|h: (String, Option<String>)| (h.0@, opt_view(h.1))) =~= Seq::<(Seq<char>, Option<Seq<char>>)>::empty());
    if dead {
        return out;
    }
    if pending_empty {
        let mut i: usize = 0;
        assert(xv.take(0) =~= Seq::<Seq<char>>::empty());
        while i < exact.len()
            invariant
                i <= exact.len(),
                xv == strs(exact@),
                out@.map_values(|h: (String, Option<String>)| (h.0@, opt_view(h.1))) == take_learned_exact(
                    Seq::empty(),
                    xv.take(i as int),
                    reading@,
                    max as int,
                ),
            decreases exact.len() - i,
        {
            proof {
                assert(xv.take(i + 1).drop_last() =~= xv.take(i as int));
                assert(xv.take(i + 1).last() == exact@[i as int]@);
            }
            if out.len() < max && !seen_in(&out, exact[i].as_str()) {
                let ghost before = out@;
                let item = (exact[i].clone(), Some(reading.to_owned()));
                let ghost iv = (item.0@, opt_view(item.1));
                out.push(item);
                assert(out@.map_values(|h: (String, Option<String>)| (h.0@, opt_view(h.1))) =~= before.map_values(
                    |h: (String, Option<String>)| (h.0@, opt_view(h.1)),
                ).push(iv));
            }
            i += 1;
        }
        assert(xv.take(exact.len() as int) =~= xv);
    }
    let ghost o1 = out@.map_values(|h: (String, Option<String>)| (h.0@, opt_view(h.1)));
    let rc = chars_of(reading);
    let mut i: usize = 0;
    assert(pv.take(0) =~= Seq::<(Seq<char>, Seq<char>)>::empty());
    while i < prefix.len()
        invariant
            i <= prefix.len(),
            pv == prefix@.map_values(|h: (String, String)| (h.0@, h.1@)),
            rc@ == reading@,
            out@.map_values(|h: (String, Option<String>)| (h.0@, opt_view(h.1))) == take_learned_prefix(
                o1,
                pv.take(i as int),
                reading@,
                narrow,
                strs(expansions@),
                max as int,
            ),
        decreases prefix.len() - i,
    {
        proof {
            assert(pv.take(i + 1).drop_last() =~= pv.take(i as int));
            assert(pv.take(i + 1).last() == (prefix@[i as int].0@, prefix@[i as int].1@));
        }
        let same_reading = same_text(prefix[i].0.as_str(), reading);
        if out.len() < max && !same_reading && fits_tail_exec(prefix[i].0.as_str(), reading, narrow, &expansions)
            && !seen_in(&out, prefix[i].1.as_str()) {
            let ghost before = out@;
            let item = (prefix[i].1.clone(), Some(prefix[i].0.clone()));
            let ghost iv = (item.0@, opt_view(item.1));
            out.push(item);
            assert(out@.map_values(|h: (String, Option<String>)| (h.0@, opt_view(h.1))) =~= before.map_values(
                |h: (String, Option<String>)| (h.0@, opt_view(h.1)),
            ).push(iv));
        }
        i += 1;
    }
    assert(pv.take(prefix.len() as int) =~= pv);
    out
}

} // verus!
