//! Emoji rewriter: emoji candidates from two input paths.
//!
//! 1. **Reading lookup**: a typed hiragana reading expands to the emoji
//!    listed under it (`ぴえん` → 🥺), in table order.
//! 2. **`:trigger` lookup**: `:` followed by a query matches each trigger
//!    as a subsequence (each query char in order, anything in between).
//!    Hits rank by the longest run of adjacent matched chars (longer
//!    first), then the earliest start, then the shorter trigger; equal
//!    scores keep table order. For each trigger every start position where
//!    the first query char occurs is tried, greedily completed, and the
//!    best placement kept.
//!
//! Every emoji is offered once, described as `絵文字` (plus its name when
//! the table has one), with the matched trigger in front on the trigger
//! path: `:smile 絵文字 笑顔`.

use vstd::prelude::*;

use crate::rewriter::{
    add_new, distinct_texts, lemma_add_new_keeps, outs_view, push_new, OutView, RewriteOutput,
    Rewriter,
};
use crate::text::{chars_of, same_text, string_of, strs};

verus! {

/// One emoji with the readings and the `:` triggers that reach it.
pub struct EmojiEntry {
    pub emoji: String,
    pub readings: Vec<String>,
    pub triggers: Vec<String>,
}

/// An entry as plain values.
pub type EntryView = (Seq<char>, Seq<Seq<char>>, Seq<Seq<char>>);

/// A description pair as plain values.
pub type PairView = (Seq<char>, Seq<char>);

impl EmojiEntry {
    /// The entry as plain values.
    pub open spec fn view_of(&self) -> EntryView {
        (self.emoji@, strs(self.readings@), strs(self.triggers@))
    }
}

/// The entries as plain values.
pub open spec fn entries_view(v: Seq<EmojiEntry>) -> Seq<EntryView> {
    v.map_values(|e: EmojiEntry| e.view_of())
}

/// Pairs of strings as plain values.
pub open spec fn pairs_view(v: Seq<(String, String)>) -> Seq<PairView> {
    v.map_values(|p: (String, String)| (p.0@, p.1@))
}

// ---------- fuzzy matching ----------

/// The greedy scan behind [`longest_from`]: from target position `ti`,
/// with `qi` query chars matched, the last match at `prev`, the longest
/// run so far and the current run; returns the final `(qi, longest)`.
pub open spec fn run_scan(
    q: Seq<char>,
    t: Seq<char>,
    ti: int,
    qi: int,
    prev: int,
    longest: int,
    run: int,
) -> (int, int)
    decreases t.len() - ti,
{
    if ti >= t.len() || qi >= q.len() {
        (qi, longest)
    } else if t[ti] != q[qi] {
        run_scan(q, t, ti + 1, qi, prev, longest, run)
    } else {
        let run2 = if ti == prev + 1 {
            run + 1
        } else {
            1
        };
        run_scan(q, t, ti + 1, qi + 1, ti, if run2 > longest { run2 } else { longest }, run2)
    }
}

/// Greedy subsequence match anchored at `start` (where `t[start]` is
/// `q[0]`): the longest run of adjacent matched positions, when all of
/// `q` is consumed.
pub open spec fn longest_from(q: Seq<char>, t: Seq<char>, start: int) -> Option<int> {
    let (qi, longest) = run_scan(q, t, start + 1, 1, start, 1, 1);
    if qi == q.len() {
        Some(longest)
    } else {
        None
    }
}

/// A match score: longest run, start, trigger length.
pub type Score = (int, int, int);

/// Whether `a` ranks strictly before `b`: longer run, then earlier start,
/// then shorter trigger.
pub open spec fn ranks_before(a: Score, b: Score) -> bool {
    a.0 > b.0 || (a.0 == b.0 && a.1 < b.1) || (a.0 == b.0 && a.1 == b.1 && a.2 < b.2)
}

/// The best placement among starts `s..`.
pub open spec fn best_from(q: Seq<char>, t: Seq<char>, s: int) -> Option<Score>
    decreases t.len() - s,
{
    if s >= t.len() || s < 0 {
        None
    } else {
        let rest = best_from(q, t, s + 1);
        let here = if t[s] == q[0] {
            match longest_from(q, t, s) {
                Some(l) => Some((l, s, t.len() as int)),
                None => None,
            }
        } else {
            None
        };
        match (here, rest) {
            (Some(h), Some(r)) => if ranks_before(r, h) {
                Some(r)
            } else {
                Some(h)
            },
            (Some(h), None) => Some(h),
            (None, r) => r,
        }
    }
}

/// The score of `q` against `t`; `None` when `q` is empty or not a
/// subsequence of `t`.
pub open spec fn best_match_score(q: Seq<char>, t: Seq<char>) -> Option<Score> {
    if q.len() == 0 {
        None
    } else {
        best_from(q, t, 0)
    }
}

// ---------- ranking ----------

/// A scored hit: score, trigger, emoji.
pub type Hit = (Score, Seq<char>, Seq<char>);

/// Where `x` goes in a ranked list: before the first hit it ranks before.
pub open spec fn insert_pos(s: Seq<Hit>, x: Hit, i: int) -> int
    decreases s.len() - i,
{
    if i >= s.len() || i < 0 {
        s.len() as int
    } else if ranks_before(x.0, s[i].0) {
        i
    } else {
        insert_pos(s, x, i + 1)
    }
}

/// The hits stably sorted by score.
pub open spec fn ranked(s: Seq<Hit>) -> Seq<Hit>
    decreases s.len(),
{
    if s.len() == 0 {
        Seq::empty()
    } else {
        let r = ranked(s.drop_last());
        r.insert(insert_pos(r, s.last(), 0), s.last())
    }
}

// ---------- the rewriter ----------

/// All `(trigger, emoji)` pairs, in table order.
pub open spec fn flat_triggers(es: Seq<EntryView>) -> Seq<PairView>
    decreases es.len(),
{
    if es.len() == 0 {
        Seq::empty()
    } else {
        let e = es.last();
        flat_triggers(es.drop_last()) + e.2.map_values(|t: Seq<char>| (t, e.0))
    }
}

/// The hits of `q` among `(trigger, emoji)` pairs, in table order.
pub open spec fn hits(q: Seq<char>, ps: Seq<PairView>) -> Seq<Hit>
    decreases ps.len(),
{
    if ps.len() == 0 {
        Seq::empty()
    } else {
        let p = ps.last();
        let r = hits(q, ps.drop_last());
        match best_match_score(q, p.0) {
            Some(sc) => r.push((sc, p.0, p.1)),
            None => r,
        }
    }
}

/// The description registered for `emoji`, the first one listed.
pub open spec fn desc_of(ds: Seq<PairView>, emoji: Seq<char>) -> Option<Seq<char>>
    decreases ds.len(),
{
    if ds.len() == 0 {
        None
    } else if ds[0].0 == emoji {
        Some(ds[0].1)
    } else {
        desc_of(ds.skip(1), emoji)
    }
}

/// `絵文字`, or `絵文字 <name>` when the emoji has a non-empty name.
pub open spec fn base_desc(ds: Seq<PairView>, emoji: Seq<char>) -> Seq<char> {
    match desc_of(ds, emoji) {
        Some(d) => if d.len() > 0 {
            "絵文字"@ + seq![' '] + d
        } else {
            "絵文字"@
        },
        None => "絵文字"@,
    }
}

/// The description on the trigger path: `:<trigger> ` before the base.
pub open spec fn trigger_desc(ds: Seq<PairView>, emoji: Seq<char>, trigger: Seq<char>) -> Seq<char> {
    seq![':'] + trigger + seq![' '] + base_desc(ds, emoji)
}

/// At most this many emoji are offered on the trigger path, the best
/// ranked ones, so that a short query such as `:s` does not bring up
/// every emoji with an `s` in a trigger.
pub const MAX_TRIGGER_CANDIDATES: usize = 20;

/// The trigger-path offers, best ranked first, each emoji once, until
/// [`MAX_TRIGGER_CANDIDATES`] are offered.
pub open spec fn offer_hits(out: Seq<OutView>, ds: Seq<PairView>, hs: Seq<Hit>) -> Seq<OutView>
    decreases hs.len(),
{
    if hs.len() == 0 {
        out
    } else {
        let h = hs.last();
        let o = offer_hits(out, ds, hs.drop_last());
        if o.len() >= MAX_TRIGGER_CANDIDATES {
            o
        } else {
            add_new(o, h.2, Some(trigger_desc(ds, h.2, h.1)))
        }
    }
}

/// The reading-path offers: every emoji listing `reading`, in table order.
pub open spec fn offer_reading(
    out: Seq<OutView>,
    ds: Seq<PairView>,
    es: Seq<EntryView>,
    reading: Seq<char>,
) -> Seq<OutView>
    decreases es.len(),
{
    if es.len() == 0 {
        out
    } else {
        let e = es.last();
        let r = offer_reading(out, ds, es.drop_last(), reading);
        if e.1.contains(reading) {
            add_new(r, e.0, Some(base_desc(ds, e.0)))
        } else {
            r
        }
    }
}

/// What the rewriter offers for `cand`.
pub open spec fn spec_emoji_rewrite(ds: Seq<PairView>, es: Seq<EntryView>, cand: Seq<char>) -> Seq<
    OutView,
> {
    if cand.len() == 0 {
        Seq::empty()
    } else if cand[0] == ':' {
        if cand.len() > 1 {
            offer_hits(Seq::empty(), ds, ranked(hits(cand.skip(1), flat_triggers(es))))
        } else {
            Seq::empty()
        }
    } else {
        offer_reading(Seq::empty(), ds, es, cand)
    }
}

// ---------- exec ----------

fn longest_run_from(q: &Vec<char>, t: &Vec<char>, start: usize) -> (r: Option<usize>)
    requires
        start < t.len(),
        q.len() >= 1,
    ensures
        match r {
            Some(l) => longest_from(q@, t@, start as int) == Some(l as int) && 1 <= l <= t.len(),
            None => longest_from(q@, t@, start as int) is None,
        },
{
    let mut qi: usize = 1;
    let mut prev: usize = start;
    let mut longest: usize = 1;
    let mut run: usize = 1;
    let mut ti: usize = start + 1;
    while ti < t.len() && qi < q.len()
        invariant
            start < t.len(),
            start + 1 <= ti <= t.len(),
            1 <= qi <= q.len(),
            prev < ti,
            1 <= run <= ti,
            1 <= longest <= ti,
            run_scan(q@, t@, start + 1, 1, start as int, 1, 1) == run_scan(
                q@,
                t@,
                ti as int,
                qi as int,
                prev as int,
                longest as int,
                run as int,
            ),
        decreases t.len() - ti,
    {
        if t[ti] == q[qi] {
            run = if ti == prev + 1 {
                run + 1
            } else {
                1
            };
            if run > longest {
                longest = run;
            }
            prev = ti;
            qi += 1;
        }
        ti += 1;
    }
    if qi == q.len() {
        Some(longest)
    } else {
        None
    }
}

fn best_match_score_exec(q: &Vec<char>, t: &Vec<char>) -> (r: Option<(usize, usize, usize)>)
    ensures
        match r {
            Some(sc) => best_match_score(q@, t@) == Some((sc.0 as int, sc.1 as int, sc.2 as int)),
            None => best_match_score(q@, t@) is None,
        },
{
    if q.len() == 0 {
        return None;
    }
    let mut acc: Option<(usize, usize, usize)> = None;
    let mut s = t.len();
    while s > 0
        invariant
            q.len() >= 1,
            s <= t.len(),
            match acc {
                Some(sc) => best_from(q@, t@, s as int) == Some(
                    (sc.0 as int, sc.1 as int, sc.2 as int),
                ),
                None => best_from(q@, t@, s as int) is None,
            },
        decreases s,
    {
        s -= 1;
        let here = if t[s] == q[0] {
            match longest_run_from(q, t, s) {
                Some(l) => Some((l, s, t.len())),
                None => None,
            }
        } else {
            None
        };
        acc = match (here, acc) {
            (Some(h), Some(r)) => {
                if r.0 > h.0 || (r.0 == h.0 && r.1 < h.1) || (r.0 == h.0 && r.1 == h.1 && r.2 < h.2) {
                    Some(r)
                } else {
                    Some(h)
                }
            },
            (Some(h), None) => Some(h),
            (None, r) => r,
        };
    }
    acc
}

/// A scored hit as the rewriter holds it: score, trigger, emoji.
type ExecHit = ((usize, usize, usize), String, String);

spec fn hit_view(h: ExecHit) -> Hit {
    (((h.0).0 as int, (h.0).1 as int, (h.0).2 as int), h.1@, h.2@)
}

spec fn hits_view(v: Seq<ExecHit>) -> Seq<Hit> {
    v.map_values(|h: ExecHit| hit_view(h))
}

fn flat_triggers_exec(entries: &Vec<EmojiEntry>) -> (r: Vec<(String, String)>)
    ensures
        pairs_view(r@) == flat_triggers(entries_view(entries@)),
{
    let mut out: Vec<(String, String)> = Vec::new();
    let mut i: usize = 0;
    assert(entries_view(entries@).take(0) =~= Seq::<EntryView>::empty());
    assert(pairs_view(out@) =~= Seq::<PairView>::empty());
    while i < entries.len()
        invariant
            i <= entries.len(),
            pairs_view(out@) == flat_triggers(entries_view(entries@).take(i as int)),
        decreases entries.len() - i,
    {
        let e = &entries[i];
        let ghost before = pairs_view(out@);
        let ghost ev = e.view_of();
        let mut j: usize = 0;
        while j < e.triggers.len()
            invariant
                j <= e.triggers.len(),
                ev == e.view_of(),
                pairs_view(out@) == before + ev.2.take(j as int).map_values(
                    |t: Seq<char>| (t, ev.0),
                ),
            decreases e.triggers.len() - j,
        {
            let ghost prev = out@;
            out.push((e.triggers[j].clone(), e.emoji.clone()));
            j += 1;
            assert(pairs_view(out@) =~= pairs_view(prev).push((ev.2[j - 1], ev.0)));
            assert(pairs_view(out@) =~= before + ev.2.take(j as int).map_values(
                |t: Seq<char>| (t, ev.0),
            ));
        }
        assert(ev.2.take(e.triggers.len() as int) =~= ev.2);
        assert(entries_view(entries@).take(i + 1).drop_last() =~= entries_view(entries@).take(
            i as int,
        ));
        assert(entries_view(entries@).take(i + 1).last() == ev);
        i += 1;
    }
    assert(entries_view(entries@).take(entries.len() as int) =~= entries_view(entries@));
    out
}

fn hits_exec(q: &Vec<char>, ps: &Vec<(String, String)>) -> (r: Vec<ExecHit>)
    ensures
        hits_view(r@) == hits(q@, pairs_view(ps@)),
{
    let mut out: Vec<ExecHit> = Vec::new();
    let mut i: usize = 0;
    assert(hits_view(out@) =~= Seq::<Hit>::empty());
    assert(pairs_view(ps@).take(0) =~= Seq::<PairView>::empty());
    while i < ps.len()
        invariant
            i <= ps.len(),
            hits_view(out@) == hits(q@, pairs_view(ps@).take(i as int)),
        decreases ps.len() - i,
    {
        let t = chars_of(ps[i].0.as_str());
        assert(pairs_view(ps@).take(i + 1).drop_last() =~= pairs_view(ps@).take(i as int));
        assert(pairs_view(ps@).take(i + 1).last() == (ps@[i as int].0@, ps@[i as int].1@));
        match best_match_score_exec(q, &t) {
            Some(sc) => {
                let ghost prev = out@;
                out.push((sc, ps[i].0.clone(), ps[i].1.clone()));
                assert(hits_view(out@) =~= hits_view(prev).push(hit_view(out@.last())));
            },
            None => {},
        }
        i += 1;
    }
    assert(pairs_view(ps@).take(ps.len() as int) =~= pairs_view(ps@));
    out
}

fn ranks_before_exec(a: (usize, usize, usize), b: (usize, usize, usize)) -> (r: bool)
    ensures
        r == ranks_before((a.0 as int, a.1 as int, a.2 as int), (b.0 as int, b.1 as int, b.2 as int)),
{
    a.0 > b.0 || (a.0 == b.0 && a.1 < b.1) || (a.0 == b.0 && a.1 == b.1 && a.2 < b.2)
}

fn rank_exec(hs: Vec<ExecHit>) -> (r: Vec<ExecHit>)
    ensures
        hits_view(r@) == ranked(hits_view(hs@)),
{
    let mut out: Vec<ExecHit> = Vec::new();
    let mut i: usize = 0;
    assert(hits_view(out@) =~= Seq::<Hit>::empty());
    assert(hits_view(hs@).take(0) =~= Seq::<Hit>::empty());
    while i < hs.len()
        invariant
            i <= hs.len(),
            hits_view(out@) == ranked(hits_view(hs@).take(i as int)),
        decreases hs.len() - i,
    {
        let x: ExecHit = (hs[i].0, hs[i].1.clone(), hs[i].2.clone());
        let ghost xv = hit_view(hs@[i as int]);
        assert(hit_view(x) == xv);
        let mut p: usize = 0;
        while p < out.len() && !ranks_before_exec(x.0, out[p].0)
            invariant
                p <= out.len(),
                hit_view(x) == xv,
                insert_pos(hits_view(out@), xv, 0) == insert_pos(hits_view(out@), xv, p as int),
            decreases out.len() - p,
        {
            assert(hits_view(out@)[p as int] == hit_view(out@[p as int]));
            p += 1;
        }
        let ghost prev = hits_view(out@);
        out.insert(p, x);
        assert(hits_view(out@) =~= prev.insert(p as int, xv));
        assert(hits_view(hs@).take(i + 1).drop_last() =~= hits_view(hs@).take(i as int));
        i += 1;
    }
    assert(hits_view(hs@).take(hs.len() as int) =~= hits_view(hs@));
    out
}

fn desc_of_exec(ds: &Vec<(String, String)>, emoji: &str) -> (r: Option<String>)
    ensures
        match r {
            Some(d) => desc_of(pairs_view(ds@), emoji@) == Some(d@),
            None => desc_of(pairs_view(ds@), emoji@) is None,
        },
{
    let mut i: usize = 0;
    assert(pairs_view(ds@).skip(0) =~= pairs_view(ds@));
    while i < ds.len()
        invariant
            i <= ds.len(),
            desc_of(pairs_view(ds@), emoji@) == desc_of(pairs_view(ds@).skip(i as int), emoji@),
        decreases ds.len() - i,
    {
        assert(pairs_view(ds@).skip(i as int)[0] == (ds@[i as int].0@, ds@[i as int].1@));
        assert(pairs_view(ds@).skip(i as int).skip(1) =~= pairs_view(ds@).skip(i + 1));
        if same_text(ds[i].0.as_str(), emoji) {
            return Some(ds[i].1.clone());
        }
        i += 1;
    }
    None
}

fn append_str(out: &mut Vec<char>, s: &str)
    ensures
        final(out)@ == old(out)@ + s@,
{
    let more = chars_of(s);
    let ghost before = out@;
    let mut k: usize = 0;
    while k < more.len()
        invariant
            k <= more.len(),
            out@ == before + more@.take(k as int),
        decreases more.len() - k,
    {
        out.push(more[k]);
        k += 1;
        assert(out@ =~= before + more@.take(k as int));
    }
    assert(more@.take(more.len() as int) =~= more@);
}

fn base_desc_exec(ds: &Vec<(String, String)>, emoji: &str) -> (r: Vec<char>)
    ensures
        r@ == base_desc(pairs_view(ds@), emoji@),
{
    let mut out: Vec<char> = Vec::new();
    append_str(&mut out, "絵文字");
    match desc_of_exec(ds, emoji) {
        Some(d) => {
            let dc = chars_of(d.as_str());
            if dc.len() > 0 {
                out.push(' ');
                append_str(&mut out, d.as_str());
            }
        },
        None => {},
    }
    assert(out@ =~= base_desc(pairs_view(ds@), emoji@));
    out
}

fn trigger_desc_exec(ds: &Vec<(String, String)>, emoji: &str, trigger: &str) -> (r: String)
    ensures
        r@ == trigger_desc(pairs_view(ds@), emoji@, trigger@),
{
    let mut out: Vec<char> = Vec::new();
    out.push(':');
    append_str(&mut out, trigger);
    out.push(' ');
    let base = base_desc_exec(ds, emoji);
    let mut k: usize = 0;
    let ghost before = out@;
    while k < base.len()
        invariant
            k <= base.len(),
            out@ == before + base@.take(k as int),
        decreases base.len() - k,
    {
        out.push(base[k]);
        k += 1;
        assert(out@ =~= before + base@.take(k as int));
    }
    assert(base@.take(base.len() as int) =~= base@);
    assert(out@ =~= trigger_desc(pairs_view(ds@), emoji@, trigger@));
    string_of(&out)
}

fn lists(v: &Vec<String>, x: &str) -> (r: bool)
    ensures
        r == strs(v@).contains(x@),
{
    let mut i: usize = 0;
    while i < v.len()
        invariant
            i <= v.len(),
            forall|j: int| 0 <= j < i ==> v@[j]@ != x@,
        decreases v.len() - i,
    {
        if same_text(v[i].as_str(), x) {
            assert(strs(v@)[i as int] == x@);
            return true;
        }
        i += 1;
    }
    assert forall|j: int| 0 <= j < strs(v@).len() implies strs(v@)[j] != x@ by {
        assert(strs(v@)[j] == v@[j]@);
    }
    false
}

/// Rewriter that surfaces emoji candidates from readings and `:` triggers.
pub struct EmojiRewriter {
    descriptions: Vec<(String, String)>,
    entries: Vec<EmojiEntry>,
}

impl EmojiRewriter {
    /// The emoji names, emoji first.
    pub closed spec fn descriptions(&self) -> Seq<PairView> {
        pairs_view(self.descriptions@)
    }

    /// The emoji with their readings and triggers, in table order.
    pub closed spec fn entries(&self) -> Seq<EntryView> {
        entries_view(self.entries@)
    }

    /// A rewriter over the given table.
    pub fn with_table(descriptions: Vec<(String, String)>, entries: Vec<EmojiEntry>) -> (r: Self)
        ensures
            r.descriptions() == pairs_view(descriptions@),
            r.entries() == entries_view(entries@),
    {
        EmojiRewriter { descriptions, entries }
    }
}

impl Rewriter for EmojiRewriter {
    fn name(&self) -> (r: &'static str)
        ensures
            r@ == "emoji"@,
    {
        "emoji"
    }

    fn rewrite(&self, candidate: &str) -> (r: Vec<RewriteOutput>)
        ensures
            outs_view(r@) == spec_emoji_rewrite(self.descriptions(), self.entries(), candidate@),
    {
        let mut out: Vec<RewriteOutput> = Vec::new();
        assert(outs_view(out@) =~= Seq::<OutView>::empty());
        let cs = chars_of(candidate);
        if cs.len() == 0 {
            return out;
        }
        let ds = &self.descriptions;
        if cs[0] == ':' {
            if cs.len() <= 1 {
                return out;
            }
            let mut q: Vec<char> = Vec::new();
            let mut k: usize = 1;
            while k < cs.len()
                invariant
                    1 <= k <= cs.len(),
                    q@ == cs@.subrange(1, k as int),
                decreases cs.len() - k,
            {
                q.push(cs[k]);
                k += 1;
                assert(q@ =~= cs@.subrange(1, k as int));
            }
            assert(q@ =~= candidate@.skip(1));
            let ps = flat_triggers_exec(&self.entries);
            let hs = rank_exec(hits_exec(&q, &ps));
            let ghost hv = hits_view(hs@);
            let mut i: usize = 0;
            assert(hv.take(0) =~= Seq::<Hit>::empty());
            while i < hs.len()
                invariant
                    i <= hs.len(),
                    hv == hits_view(hs@),
                    outs_view(out@) == offer_hits(Seq::empty(), pairs_view(ds@), hv.take(i as int)),
                decreases hs.len() - i,
            {
                assert(hv.take(i + 1).drop_last() =~= hv.take(i as int));
                if out.len() < MAX_TRIGGER_CANDIDATES {
                    let d = trigger_desc_exec(ds, hs[i].2.as_str(), hs[i].1.as_str());
                    push_new(&mut out, hs[i].2.clone(), Some(d));
                }
                assert(hv[i as int] == hit_view(hs@[i as int]));
                i += 1;
            }
            assert(hv.take(hs.len() as int) =~= hv);
            out
        } else {
            let es = &self.entries;
            let ghost ev = entries_view(es@);
            let mut i: usize = 0;
            assert(ev.take(0) =~= Seq::<EntryView>::empty());
            while i < es.len()
                invariant
                    i <= es.len(),
                    ev == entries_view(es@),
                    outs_view(out@) == offer_reading(Seq::empty(), pairs_view(ds@), ev.take(i as int), candidate@),
                decreases es.len() - i,
            {
                assert(ev.take(i + 1).drop_last() =~= ev.take(i as int));
                assert(ev.take(i + 1).last() == es@[i as int].view_of());
                if lists(&es[i].readings, candidate) {
                    let b = base_desc_exec(ds, es[i].emoji.as_str());
                    push_new(&mut out, es[i].emoji.clone(), Some(string_of(&b)));
                }
                i += 1;
            }
            assert(ev.take(es.len() as int) =~= ev);
            out
        }
    }
}

// ---------- the built-in table ----------

/// The built-in emoji names.
pub open spec fn builtin_emoji_descriptions() -> Seq<PairView> {
    seq![("😄"@, "笑顔"@), ("😁"@, "にやり"@), ("😂"@, "うれし泣き"@), ("😇"@, "天使"@), ("🚁"@, "ヘリコプター"@), ("👍"@, "いいね"@), ("🥺"@, "お願い"@), ("💪"@, "力こぶ"@), ("❤"@, "ハート"@), ("🎉"@, "クラッカー"@)]
}

/// The built-in emoji entries.
pub open spec fn builtin_emoji_entries() -> Seq<EntryView> {
    seq![
        ("😄"@, seq!["えがお"@, "わらい"@, "にこにこ"@], seq!["smile"@, "happy"@, "grinning_face_with_smiling_eyes"@, "egao"@, "warai"@, "nikoniko"@]),
        ("😁"@, seq!["にやり"@], seq!["grin"@, "beaming_face_with_smiling_eyes"@, "niyari"@]),
        ("😂"@, seq!["わらい"@, "うれしなき"@], seq!["joy"@, "face_with_tears_of_joy"@, "warai"@, "ureshinaki"@]),
        ("😇"@, seq!["てんし"@], seq!["innocent"@, "smiling_face_with_halo"@, "tenshi"@]),
        ("🚁"@, seq!["へりこぷたー"@], seq!["helicopter"@, "herikoputa"@, "herikoputaa"@]),
        ("👍"@, seq!["いいね"@, "ぐっど"@], seq!["+1"@, "thumbsup"@, "thumbs_up"@, "iine"@, "guddo"@]),
        ("🥺"@, seq!["ぴえん"@, "おねがい"@], seq!["pleading_face"@, "pien"@, "onegai"@]),
        ("💪"@, seq!["きんにく"@, "ちからこぶ"@], seq!["muscle"@, "flexed_biceps"@, "kinniku"@, "kiniku"@, "chikarakobu"@, "tikarakobu"@]),
        ("❤"@, seq!["はーと"@], seq!["heart"@, "red_heart"@, "haato"@, "hato"@]),
        ("🎉"@, seq!["くらっかー"@, "おめでとう"@], seq!["tada"@, "party_popper"@, "kurakka"@, "omedetou"@]),
    ]
}

fn builtin_emoji_table() -> (r: (Vec<(String, String)>, Vec<EmojiEntry>))
    ensures
        pairs_view(r.0@) == builtin_emoji_descriptions(),
        entries_view(r.1@) == builtin_emoji_entries(),
{
    let mut ds: Vec<(String, String)> = Vec::new();
    ds.push(("😄".to_owned(), "笑顔".to_owned()));
    ds.push(("😁".to_owned(), "にやり".to_owned()));
    ds.push(("😂".to_owned(), "うれし泣き".to_owned()));
    ds.push(("😇".to_owned(), "天使".to_owned()));
    ds.push(("🚁".to_owned(), "ヘリコプター".to_owned()));
    ds.push(("👍".to_owned(), "いいね".to_owned()));
    ds.push(("🥺".to_owned(), "お願い".to_owned()));
    ds.push(("💪".to_owned(), "力こぶ".to_owned()));
    ds.push(("❤".to_owned(), "ハート".to_owned()));
    ds.push(("🎉".to_owned(), "クラッカー".to_owned()));
    assert(pairs_view(ds@) =~= builtin_emoji_descriptions());
    let mut es: Vec<EmojiEntry> = Vec::new();
    let mut r0: Vec<String> = Vec::new();
    r0.push("えがお".to_owned());
    r0.push("わらい".to_owned());
    r0.push("にこにこ".to_owned());
    assert(strs(r0@) =~= seq!["えがお"@, "わらい"@, "にこにこ"@]);
    let mut t0: Vec<String> = Vec::new();
    t0.push("smile".to_owned());
    t0.push("happy".to_owned());
    t0.push("grinning_face_with_smiling_eyes".to_owned());
    t0.push("egao".to_owned());
    t0.push("warai".to_owned());
    t0.push("nikoniko".to_owned());
    assert(strs(t0@) =~= seq!["smile"@, "happy"@, "grinning_face_with_smiling_eyes"@, "egao"@, "warai"@, "nikoniko"@]);
    let e0 = EmojiEntry { emoji: "😄".to_owned(), readings: r0, triggers: t0 };
    assert(e0.view_of() == ("😄"@, seq!["えがお"@, "わらい"@, "にこにこ"@], seq!["smile"@, "happy"@, "grinning_face_with_smiling_eyes"@, "egao"@, "warai"@, "nikoniko"@]));
    es.push(e0);
    let mut r1: Vec<String> = Vec::new();
    r1.push("にやり".to_owned());
    assert(strs(r1@) =~= seq!["にやり"@]);
    let mut t1: Vec<String> = Vec::new();
    t1.push("grin".to_owned());
    t1.push("beaming_face_with_smiling_eyes".to_owned());
    t1.push("niyari".to_owned());
    assert(strs(t1@) =~= seq!["grin"@, "beaming_face_with_smiling_eyes"@, "niyari"@]);
    let e1 = EmojiEntry { emoji: "😁".to_owned(), readings: r1, triggers: t1 };
    assert(e1.view_of() == ("😁"@, seq!["にやり"@], seq!["grin"@, "beaming_face_with_smiling_eyes"@, "niyari"@]));
    es.push(e1);
    let mut r2: Vec<String> = Vec::new();
    r2.push("わらい".to_owned());
    r2.push("うれしなき".to_owned());
    assert(strs(r2@) =~= seq!["わらい"@, "うれしなき"@]);
    let mut t2: Vec<String> = Vec::new();
    t2.push("joy".to_owned());
    t2.push("face_with_tears_of_joy".to_owned());
    t2.push("warai".to_owned());
    t2.push("ureshinaki".to_owned());
    assert(strs(t2@) =~= seq!["joy"@, "face_with_tears_of_joy"@, "warai"@, "ureshinaki"@]);
    let e2 = EmojiEntry { emoji: "😂".to_owned(), readings: r2, triggers: t2 };
    assert(e2.view_of() == ("😂"@, seq!["わらい"@, "うれしなき"@], seq!["joy"@, "face_with_tears_of_joy"@, "warai"@, "ureshinaki"@]));
    es.push(e2);
    let mut r3: Vec<String> = Vec::new();
    r3.push("てんし".to_owned());
    assert(strs(r3@) =~= seq!["てんし"@]);
    let mut t3: Vec<String> = Vec::new();
    t3.push("innocent".to_owned());
    t3.push("smiling_face_with_halo".to_owned());
    t3.push("tenshi".to_owned());
    assert(strs(t3@) =~= seq!["innocent"@, "smiling_face_with_halo"@, "tenshi"@]);
    let e3 = EmojiEntry { emoji: "😇".to_owned(), readings: r3, triggers: t3 };
    assert(e3.view_of() == ("😇"@, seq!["てんし"@], seq!["innocent"@, "smiling_face_with_halo"@, "tenshi"@]));
    es.push(e3);
    let mut r4: Vec<String> = Vec::new();
    r4.push("へりこぷたー".to_owned());
    assert(strs(r4@) =~= seq!["へりこぷたー"@]);
    let mut t4: Vec<String> = Vec::new();
    t4.push("helicopter".to_owned());
    t4.push("herikoputa".to_owned());
    t4.push("herikoputaa".to_owned());
    assert(strs(t4@) =~= seq!["helicopter"@, "herikoputa"@, "herikoputaa"@]);
    let e4 = EmojiEntry { emoji: "🚁".to_owned(), readings: r4, triggers: t4 };
    assert(e4.view_of() == ("🚁"@, seq!["へりこぷたー"@], seq!["helicopter"@, "herikoputa"@, "herikoputaa"@]));
    es.push(e4);
    let mut r5: Vec<String> = Vec::new();
    r5.push("いいね".to_owned());
    r5.push("ぐっど".to_owned());
    assert(strs(r5@) =~= seq!["いいね"@, "ぐっど"@]);
    let mut t5: Vec<String> = Vec::new();
    t5.push("+1".to_owned());
    t5.push("thumbsup".to_owned());
    t5.push("thumbs_up".to_owned());
    t5.push("iine".to_owned());
    t5.push("guddo".to_owned());
    assert(strs(t5@) =~= seq!["+1"@, "thumbsup"@, "thumbs_up"@, "iine"@, "guddo"@]);
    let e5 = EmojiEntry { emoji: "👍".to_owned(), readings: r5, triggers: t5 };
    assert(e5.view_of() == ("👍"@, seq!["いいね"@, "ぐっど"@], seq!["+1"@, "thumbsup"@, "thumbs_up"@, "iine"@, "guddo"@]));
    es.push(e5);
    let mut r6: Vec<String> = Vec::new();
    r6.push("ぴえん".to_owned());
    r6.push("おねがい".to_owned());
    assert(strs(r6@) =~= seq!["ぴえん"@, "おねがい"@]);
    let mut t6: Vec<String> = Vec::new();
    t6.push("pleading_face".to_owned());
    t6.push("pien".to_owned());
    t6.push("onegai".to_owned());
    assert(strs(t6@) =~= seq!["pleading_face"@, "pien"@, "onegai"@]);
    let e6 = EmojiEntry { emoji: "🥺".to_owned(), readings: r6, triggers: t6 };
    assert(e6.view_of() == ("🥺"@, seq!["ぴえん"@, "おねがい"@], seq!["pleading_face"@, "pien"@, "onegai"@]));
    es.push(e6);
    let mut r7: Vec<String> = Vec::new();
    r7.push("きんにく".to_owned());
    r7.push("ちからこぶ".to_owned());
    assert(strs(r7@) =~= seq!["きんにく"@, "ちからこぶ"@]);
    let mut t7: Vec<String> = Vec::new();
    t7.push("muscle".to_owned());
    t7.push("flexed_biceps".to_owned());
    t7.push("kinniku".to_owned());
    t7.push("kiniku".to_owned());
    t7.push("chikarakobu".to_owned());
    t7.push("tikarakobu".to_owned());
    assert(strs(t7@) =~= seq!["muscle"@, "flexed_biceps"@, "kinniku"@, "kiniku"@, "chikarakobu"@, "tikarakobu"@]);
    let e7 = EmojiEntry { emoji: "💪".to_owned(), readings: r7, triggers: t7 };
    assert(e7.view_of() == ("💪"@, seq!["きんにく"@, "ちからこぶ"@], seq!["muscle"@, "flexed_biceps"@, "kinniku"@, "kiniku"@, "chikarakobu"@, "tikarakobu"@]));
    es.push(e7);
    let mut r8: Vec<String> = Vec::new();
    r8.push("はーと".to_owned());
    assert(strs(r8@) =~= seq!["はーと"@]);
    let mut t8: Vec<String> = Vec::new();
    t8.push("heart".to_owned());
    t8.push("red_heart".to_owned());
    t8.push("haato".to_owned());
    t8.push("hato".to_owned());
    assert(strs(t8@) =~= seq!["heart"@, "red_heart"@, "haato"@, "hato"@]);
    let e8 = EmojiEntry { emoji: "❤".to_owned(), readings: r8, triggers: t8 };
    assert(e8.view_of() == ("❤"@, seq!["はーと"@], seq!["heart"@, "red_heart"@, "haato"@, "hato"@]));
    es.push(e8);
    let mut r9: Vec<String> = Vec::new();
    r9.push("くらっかー".to_owned());
    r9.push("おめでとう".to_owned());
    assert(strs(r9@) =~= seq!["くらっかー"@, "おめでとう"@]);
    let mut t9: Vec<String> = Vec::new();
    t9.push("tada".to_owned());
    t9.push("party_popper".to_owned());
    t9.push("kurakka".to_owned());
    t9.push("omedetou".to_owned());
    assert(strs(t9@) =~= seq!["tada"@, "party_popper"@, "kurakka"@, "omedetou"@]);
    let e9 = EmojiEntry { emoji: "🎉".to_owned(), readings: r9, triggers: t9 };
    assert(e9.view_of() == ("🎉"@, seq!["くらっかー"@, "おめでとう"@], seq!["tada"@, "party_popper"@, "kurakka"@, "omedetou"@]));
    es.push(e9);
    assert(entries_view(es@) =~= builtin_emoji_entries());
    (ds, es)
}

impl EmojiRewriter {
    /// A rewriter over the built-in table. That table is a small starter
    /// set of ten common emoji, not a full emoji dictionary: a complete
    /// table (read from an emoji data file by the application) is given
    /// with [`EmojiRewriter::with_table`].
    pub fn new() -> (r: Self)
        ensures
            r.descriptions() == builtin_emoji_descriptions(),
            r.entries() == builtin_emoji_entries(),
    {
        let (ds, es) = builtin_emoji_table();
        EmojiRewriter::with_table(ds, es)
    }
}

// ---------- laws ----------

proof fn lemma_offer_hits_distinct(out: Seq<OutView>, ds: Seq<PairView>, hs: Seq<Hit>)
    requires
        distinct_texts(out),
    ensures
        distinct_texts(offer_hits(out, ds, hs)),
    decreases hs.len(),
{
    if hs.len() > 0 {
        lemma_offer_hits_distinct(out, ds, hs.drop_last());
        let h = hs.last();
        lemma_add_new_keeps(offer_hits(out, ds, hs.drop_last()), h.2, Some(trigger_desc(ds, h.2, h.1)));
    }
}

proof fn lemma_offer_hits_capped(ds: Seq<PairView>, hs: Seq<Hit>)
    ensures
        offer_hits(Seq::empty(), ds, hs).len() <= MAX_TRIGGER_CANDIDATES,
    decreases hs.len(),
{
    if hs.len() > 0 {
        lemma_offer_hits_capped(ds, hs.drop_last());
    }
}

/// The trigger path offers at most [`MAX_TRIGGER_CANDIDATES`] emoji.
pub proof fn lemma_emoji_trigger_offer_capped(ds: Seq<PairView>, es: Seq<EntryView>, cand: Seq<char>)
    requires
        cand.len() > 0,
        cand[0] == ':',
    ensures
        spec_emoji_rewrite(ds, es, cand).len() <= MAX_TRIGGER_CANDIDATES,
{
    lemma_offer_hits_capped(ds, ranked(hits(cand.skip(1), flat_triggers(es))));
}

proof fn lemma_offer_reading_distinct(
    out: Seq<OutView>,
    ds: Seq<PairView>,
    es: Seq<EntryView>,
    reading: Seq<char>,
)
    requires
        distinct_texts(out),
    ensures
        distinct_texts(offer_reading(out, ds, es, reading)),
    decreases es.len(),
{
    if es.len() > 0 {
        lemma_offer_reading_distinct(out, ds, es.drop_last(), reading);
        let e = es.last();
        lemma_add_new_keeps(offer_reading(out, ds, es.drop_last(), reading), e.0, Some(base_desc(ds, e.0)));
    }
}

/// Every emoji is offered at most once, whichever path and however many
/// of its triggers or readings match.
pub proof fn lemma_emoji_offered_once(ds: Seq<PairView>, es: Seq<EntryView>, cand: Seq<char>)
    ensures
        distinct_texts(spec_emoji_rewrite(ds, es, cand)),
{
    lemma_offer_hits_distinct(Seq::empty(), ds, ranked(hits(cand.skip(1), flat_triggers(es))));
    lemma_offer_reading_distinct(Seq::empty(), ds, es, cand);
}

// ---------- the shape of the offer ----------

/// Whether `t` is one of the triggers listed for `emoji`.
pub open spec fn triggered(es: Seq<EntryView>, emoji: Seq<char>, t: Seq<char>) -> bool {
    exists|j: int| 0 <= j < es.len() && es[j].0 == emoji && #[trigger] es[j].2.contains(t)
}

/// Whether `d` holds the label `絵文字`.
pub open spec fn has_emoji_label(d: Seq<char>) -> bool {
    exists|k: int| 0 <= k && k + 3 <= d.len() && #[trigger] d.subrange(k, k + 3) == "絵文字"@
}

proof fn lemma_flat_triggered(es: Seq<EntryView>)
    ensures
        forall|i: int|
            0 <= i < flat_triggers(es).len() ==> triggered(es, (#[trigger] flat_triggers(es)[i]).1, flat_triggers(es)[i].0),
    decreases es.len(),
{
    if es.len() > 0 {
        let init = es.drop_last();
        let e = es.last();
        lemma_flat_triggered(init);
        let a = flat_triggers(init);
        let b = e.2.map_values(|t: Seq<char>| (t, e.0));
        assert(flat_triggers(es) == a + b);
        assert forall|i: int| 0 <= i < (a + b).len() implies triggered(es, (#[trigger] (a + b)[i]).1, (a + b)[i].0) by {
            if i < a.len() {
                assert((a + b)[i] == a[i]);
                let j = choose|j: int| 0 <= j < init.len() && init[j].0 == a[i].1 && #[trigger] init[j].2.contains(a[i].0);
                assert(es[j] == init[j]);
            } else {
                let k = i - a.len();
                assert((a + b)[i] == b[k]);
                assert(b[k] == (e.2[k], e.0));
                assert(es[es.len() - 1].2[k] == e.2[k]);
                assert(es[es.len() - 1].2.contains(e.2[k]));
            }
        }
    }
}

proof fn lemma_hits_triggered(q: Seq<char>, ps: Seq<PairView>, es: Seq<EntryView>)
    requires
        forall|i: int| 0 <= i < ps.len() ==> triggered(es, (#[trigger] ps[i]).1, ps[i].0),
    ensures
        forall|i: int| 0 <= i < hits(q, ps).len() ==> triggered(es, (#[trigger] hits(q, ps)[i]).2, hits(q, ps)[i].1),
    decreases ps.len(),
{
    if ps.len() > 0 {
        let init = ps.drop_last();
        assert forall|i: int| 0 <= i < init.len() implies triggered(es, (#[trigger] init[i]).1, init[i].0) by {
            assert(init[i] == ps[i]);
        }
        lemma_hits_triggered(q, init, es);
        let p = ps.last();
        assert(ps[ps.len() - 1] == p);
        let r = hits(q, init);
        let h = hits(q, ps);
        assert forall|i: int| 0 <= i < h.len() implies triggered(es, (#[trigger] h[i]).2, h[i].1) by {
            if i < r.len() {
                assert(h[i] == r[i]);
            } else {
                assert(h[i].1 == p.0 && h[i].2 == p.1);
            }
        }
    }
}

proof fn lemma_insert_pos_range(s: Seq<Hit>, x: Hit, i: int)
    requires
        0 <= i <= s.len(),
    ensures
        i <= insert_pos(s, x, i) <= s.len(),
    decreases s.len() - i,
{
    if i < s.len() && !ranks_before(x.0, s[i].0) {
        lemma_insert_pos_range(s, x, i + 1);
    }
}

proof fn lemma_ranked_triggered(s: Seq<Hit>, es: Seq<EntryView>)
    requires
        forall|i: int| 0 <= i < s.len() ==> triggered(es, (#[trigger] s[i]).2, s[i].1),
    ensures
        forall|i: int| 0 <= i < ranked(s).len() ==> triggered(es, (#[trigger] ranked(s)[i]).2, ranked(s)[i].1),
        ranked(s).len() == s.len(),
    decreases s.len(),
{
    if s.len() > 0 {
        let init = s.drop_last();
        assert forall|i: int| 0 <= i < init.len() implies triggered(es, (#[trigger] init[i]).2, init[i].1) by {
            assert(init[i] == s[i]);
        }
        lemma_ranked_triggered(init, es);
        let r = ranked(init);
        let x = s.last();
        assert(s[s.len() - 1] == x);
        let p = insert_pos(r, x, 0);
        lemma_insert_pos_range(r, x, 0);
        let out = r.insert(p, x);
        assert forall|i: int| 0 <= i < out.len() implies triggered(es, (#[trigger] out[i]).2, out[i].1) by {
            if i < p {
                assert(out[i] == r[i]);
            } else if i > p {
                assert(out[i] == r[i - 1]);
            }
        }
    }
}

/// A trigger-path offer: its description is `:`, a full trigger listed
/// for its emoji, a space, and the base description.
pub open spec fn trigger_described(ds: Seq<PairView>, es: Seq<EntryView>, o: OutView) -> bool {
    exists|t: Seq<char>|
        #[trigger] triggered(es, o.0, t) && o.1 == Some(seq![':'] + t + seq![' '] + base_desc(ds, o.0))
}

/// The trigger-path offer made for a hit.
pub open spec fn hit_offer(ds: Seq<PairView>, h: Hit) -> OutView {
    (h.2, Some(trigger_desc(ds, h.2, h.1)))
}

proof fn lemma_offer_hits_from(ds: Seq<PairView>, hs: Seq<Hit>)
    ensures
        forall|i: int|
            0 <= i < offer_hits(Seq::empty(), ds, hs).len() ==> exists|k: int|
                0 <= k < hs.len() && #[trigger] offer_hits(Seq::empty(), ds, hs)[i] == hit_offer(ds, hs[k]),
    decreases hs.len(),
{
    if hs.len() > 0 {
        let init = hs.drop_last();
        lemma_offer_hits_from(ds, init);
        let o = offer_hits(Seq::empty(), ds, init);
        let h = hs.last();
        let r = offer_hits(Seq::empty(), ds, hs);
        assert(o.len() >= MAX_TRIGGER_CANDIDATES ==> r == o);
        assert(o.len() < MAX_TRIGGER_CANDIDATES ==> r == add_new(o, h.2, Some(trigger_desc(ds, h.2, h.1))));
        assert forall|i: int| 0 <= i < r.len() implies exists|k: int|
            0 <= k < hs.len() && #[trigger] r[i] == hit_offer(ds, hs[k]) by {
            if i < o.len() {
                assert(r[i] == o[i]);
                let k = choose|k: int| 0 <= k < init.len() && #[trigger] o[i] == hit_offer(ds, init[k]);
                assert(init[k] == hs[k]);
            } else {
                assert(r[i] == hit_offer(ds, hs[hs.len() - 1]));
            }
        }
    }
}

proof fn lemma_offer_reading_desc(ds: Seq<PairView>, es: Seq<EntryView>, reading: Seq<char>)
    ensures
        forall|i: int|
            0 <= i < offer_reading(Seq::empty(), ds, es, reading).len() ==> (#[trigger] offer_reading(
                Seq::empty(),
                ds,
                es,
                reading,
            )[i]).1 == Some(base_desc(ds, offer_reading(Seq::empty(), ds, es, reading)[i].0)),
    decreases es.len(),
{
    if es.len() > 0 {
        lemma_offer_reading_desc(ds, es.drop_last(), reading);
        let o = offer_reading(Seq::empty(), ds, es.drop_last(), reading);
        let r = offer_reading(Seq::empty(), ds, es, reading);
        assert forall|i: int| 0 <= i < r.len() implies (#[trigger] r[i]).1 == Some(base_desc(ds, r[i].0)) by {
            if i < o.len() {
                assert(r[i] == o[i]);
            }
        }
    }
}

proof fn lemma_base_desc_label(ds: Seq<PairView>, emoji: Seq<char>)
    ensures
        base_desc(ds, emoji).subrange(0, 3) == "絵文字"@,
        base_desc(ds, emoji).len() >= 3,
{
    reveal_strlit("絵文字");
    let b = base_desc(ds, emoji);
    match desc_of(ds, emoji) {
        Some(d) => {
            if d.len() > 0 {
                assert(b.subrange(0, 3) =~= "絵文字"@);
            }
        },
        None => {},
    }
}

proof fn lemma_trigger_desc_label(ds: Seq<PairView>, emoji: Seq<char>, t: Seq<char>)
    ensures
        has_emoji_label(trigger_desc(ds, emoji, t)),
{
    lemma_base_desc_label(ds, emoji);
    let b = base_desc(ds, emoji);
    let d = trigger_desc(ds, emoji, t);
    let k: int = t.len() as int + 2;
    assert(d.subrange(k, k + 3) =~= b.subrange(0, 3));
}

/// Shape of the emoji offer: nothing for an empty candidate or a bare
/// `:`; every offer described, with the label `絵文字`; and on the trigger
/// path (a candidate starting with `:`) each description starts with `:`
/// and a full trigger listed for that emoji.
pub proof fn lemma_emoji_offer_shape(ds: Seq<PairView>, es: Seq<EntryView>, cand: Seq<char>)
    ensures
        (cand.len() == 0 || cand == seq![':']) ==> spec_emoji_rewrite(ds, es, cand).len() == 0,
        forall|i: int|
            0 <= i < spec_emoji_rewrite(ds, es, cand).len() ==> (#[trigger] spec_emoji_rewrite(
                ds,
                es,
                cand,
            )[i]).1 is Some && has_emoji_label((spec_emoji_rewrite(ds, es, cand)[i]).1->0),
        cand.len() > 0 && cand[0] == ':' ==> forall|i: int|
            0 <= i < spec_emoji_rewrite(ds, es, cand).len() ==> trigger_described(
                ds,
                es,
                #[trigger] spec_emoji_rewrite(ds, es, cand)[i],
            ),
{
    let out = spec_emoji_rewrite(ds, es, cand);
    if cand.len() > 0 && cand[0] == ':' {
        if cand.len() > 1 {
            let ps = flat_triggers(es);
            lemma_flat_triggered(es);
            let hs = hits(cand.skip(1), ps);
            lemma_hits_triggered(cand.skip(1), ps, es);
            lemma_ranked_triggered(hs, es);
            let rk = ranked(hs);
            lemma_offer_hits_from(ds, rk);
            let oh = offer_hits(Seq::<OutView>::empty(), ds, rk);
            assert(out == oh);
            assert forall|i: int| 0 <= i < out.len() implies (#[trigger] out[i]).1 is Some
                && has_emoji_label(out[i].1->0) by {
                assert(oh[i] == out[i]);
                let k = choose|k: int| 0 <= k < rk.len() && #[trigger] oh[i] == hit_offer(ds, rk[k]);
                lemma_trigger_desc_label(ds, rk[k].2, rk[k].1);
            }
            assert forall|i: int| 0 <= i < out.len() implies trigger_described(ds, es, #[trigger] out[i]) by {
                assert(oh[i] == out[i]);
                let k = choose|k: int| 0 <= k < rk.len() && #[trigger] oh[i] == hit_offer(ds, rk[k]);
                assert(triggered(es, rk[k].2, rk[k].1));
                assert(triggered(es, out[i].0, rk[k].1));
            }
        }
    } else if cand.len() > 0 {
        lemma_offer_reading_desc(ds, es, cand);
        let orr = offer_reading(Seq::<OutView>::empty(), ds, es, cand);
        assert(out == orr);
        assert forall|i: int| 0 <= i < out.len() implies (#[trigger] out[i]).1 is Some
            && has_emoji_label(out[i].1->0) by {
            assert(orr[i] == out[i]);
            lemma_base_desc_label(ds, out[i].0);
            let d = out[i].1->0;
            assert(d == base_desc(ds, out[i].0));
            assert(d.subrange(0, 3) == "絵文字"@ && d.len() >= 3);
            assert(d.subrange(0int, 0int + 3) == "絵文字"@);
        }
    }
}

} // verus!
