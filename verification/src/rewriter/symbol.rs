//! Symbol rewriter: a typed symbol or a reading expands to related symbols.
//!
//! 1. **Variant chain**: a typed symbol expands to the symbols listed for
//!    it (`「` → `『`, `【`, `（`, ...).
//! 2. **Reading lookup**: a reading expands to the symbols listing it
//!    (`かぎかっこ` → `「」`, `『』`), in table order.
//! 3. **Width pair**: a candidate made entirely of characters with both
//!    widths (and not purely letters) offers its other widths, marked
//!    `[全]` / `[半]`; where an earlier step already offered the same text,
//!    the marker goes in front of that offer's description instead.
//!
//! A symbol's description comes from the curated table, else from the
//! first reading entry for it that has one.

use vstd::prelude::*;

use crate::rewriter::{
    add_variant, contains_text, is_pure_digit, lemma_add_variant_keeps, opt_view, out_view,
    outs_view, push_variant, spec_pure_digit, well_offered, OutView, RewriteOutput, Rewriter,
};
use crate::rewriter::emoji::{desc_of, pairs_view, PairView};
use crate::text::{chars_of, same_text, string_of, strs};
use crate::width::{has_width_pair, spec_forms, spec_full, spec_half, to_full_width, to_half_width};

verus! {

/// One reading entry: a symbol, the readings that reach it, and its
/// description.
pub struct SymbolEntry {
    pub text: String,
    pub readings: Vec<String>,
    pub description: Option<String>,
}

/// A reading entry as plain values.
pub type SymbolEntryView = (Seq<char>, Seq<Seq<char>>, Option<Seq<char>>);

/// A variant chain as plain values.
pub type ChainView = (Seq<char>, Seq<Seq<char>>);

impl SymbolEntry {
    /// The entry as plain values.
    pub open spec fn view_of(&self) -> SymbolEntryView {
        (self.text@, strs(self.readings@), opt_view(self.description))
    }
}

/// Reading entries as plain values.
pub open spec fn sym_entries_view(v: Seq<SymbolEntry>) -> Seq<SymbolEntryView> {
    v.map_values(|e: SymbolEntry| e.view_of())
}

/// Variant chains as plain values.
pub open spec fn chains_view(v: Seq<(String, Vec<String>)>) -> Seq<ChainView> {
    v.map_values(|c: (String, Vec<String>)| (c.0@, strs(c.1@)))
}

/// The description of the first entry for `s` that has one.
pub open spec fn entry_desc(es: Seq<SymbolEntryView>, s: Seq<char>) -> Option<Seq<char>>
    decreases es.len(),
{
    if es.len() == 0 {
        None
    } else if es[0].0 == s && es[0].2 is Some {
        es[0].2
    } else {
        entry_desc(es.skip(1), s)
    }
}

/// The description of a symbol: curated first, then the reading entries.
pub open spec fn lookup_desc(ds: Seq<PairView>, es: Seq<SymbolEntryView>, s: Seq<char>) -> Option<
    Seq<char>,
> {
    match desc_of(ds, s) {
        Some(d) => Some(d),
        None => entry_desc(es, s),
    }
}

/// The chain listed for `key`; a key listed twice keeps its last chain.
pub open spec fn chain_of(vs: Seq<ChainView>, key: Seq<char>) -> Option<Seq<Seq<char>>>
    decreases vs.len(),
{
    if vs.len() == 0 {
        None
    } else if vs.last().0 == key {
        Some(vs.last().1)
    } else {
        chain_of(vs.drop_last(), key)
    }
}

/// Offers from a variant chain, each described from the table.
pub open spec fn offer_chain(
    out: Seq<OutView>,
    cand: Seq<char>,
    ds: Seq<PairView>,
    es: Seq<SymbolEntryView>,
    chain: Seq<Seq<char>>,
) -> Seq<OutView>
    decreases chain.len(),
{
    if chain.len() == 0 {
        out
    } else {
        let v = chain.last();
        add_variant(offer_chain(out, cand, ds, es, chain.drop_last()), cand, v, lookup_desc(ds, es, v))
    }
}

/// Offers from the reading entries, each with its own description or the
/// table's.
pub open spec fn offer_entries(
    out: Seq<OutView>,
    cand: Seq<char>,
    ds: Seq<PairView>,
    all: Seq<SymbolEntryView>,
    es: Seq<SymbolEntryView>,
) -> Seq<OutView>
    decreases es.len(),
{
    if es.len() == 0 {
        out
    } else {
        let e = es.last();
        let r = offer_entries(out, cand, ds, all, es.drop_last());
        if e.1.contains(cand) {
            add_variant(
                r,
                cand,
                e.0,
                match e.2 {
                    Some(d) => Some(d),
                    None => lookup_desc(ds, all, e.0),
                },
            )
        } else {
            r
        }
    }
}

/// ASCII or full-width letters only, at least one.
pub open spec fn letters_only(s: Seq<char>) -> bool {
    s.len() > 0 && forall|i: int| 0 <= i < s.len() ==> crate::width::is_any_letter(#[trigger] s[i])
}

/// Whether the candidate offers its other widths.
pub open spec fn convertible(cand: Seq<char>) -> bool {
    &&& cand.len() > 0
    &&& forall|i: int| 0 <= i < cand.len() ==> spec_forms(#[trigger] cand[i]) is Some
    &&& !letters_only(cand)
}

/// The index of the first offer with text `t`, or -1.
pub open spec fn find_text(out: Seq<OutView>, t: Seq<char>, i: int) -> int
    decreases out.len() - i,
{
    if i >= out.len() || i < 0 {
        -1
    } else if out[i].0 == t {
        i
    } else {
        find_text(out, t, i + 1)
    }
}

/// `[marker]label`.
pub open spec fn marked(marker: char, label: Seq<char>) -> Seq<char> {
    seq!['[', marker, ']'] + label
}

/// A width variant: annotate the offer that already has its text, or add
/// it.
pub open spec fn annotate(out: Seq<OutView>, t: Seq<char>, marker: char, kind: Seq<char>) -> Seq<
    OutView,
> {
    let i = find_text(out, t, 0);
    if i >= 0 {
        let label = match out[i].1 {
            Some(d) => d,
            None => kind,
        };
        out.update(i, (t, Some(marked(marker, label))))
    } else {
        out.push((t, Some(marked(marker, kind))))
    }
}

/// The width-pair step.
pub open spec fn offer_widths(out: Seq<OutView>, cand: Seq<char>) -> Seq<OutView> {
    if !convertible(cand) {
        out
    } else {
        let kind = if spec_pure_digit(cand) {
            "数字"@
        } else {
            "記号"@
        };
        let full = cand.map_values(|c: char| spec_full(c));
        let half = cand.map_values(|c: char| spec_half(c));
        let o1 = if full != cand {
            annotate(out, full, '全', kind)
        } else {
            out
        };
        if half != cand {
            annotate(o1, half, '半', kind)
        } else {
            o1
        }
    }
}

/// What the rewriter offers for `cand`.
pub open spec fn spec_symbol_rewrite(
    ds: Seq<PairView>,
    vs: Seq<ChainView>,
    es: Seq<SymbolEntryView>,
    cand: Seq<char>,
) -> Seq<OutView> {
    if cand.len() == 0 {
        Seq::empty()
    } else {
        let o1 = match chain_of(vs, cand) {
            Some(chain) => offer_chain(Seq::empty(), cand, ds, es, chain),
            None => Seq::empty(),
        };
        let o2 = offer_entries(o1, cand, ds, es, es);
        offer_widths(o2, cand)
    }
}

// ---------- exec ----------

fn entry_desc_exec(es: &Vec<SymbolEntry>, s: &str) -> (r: Option<String>)
    ensures
        opt_view(r) == entry_desc(sym_entries_view(es@), s@),
{
    let ghost ev = sym_entries_view(es@);
    let mut i: usize = 0;
    assert(ev.skip(0) =~= ev);
    while i < es.len()
        invariant
            i <= es.len(),
            ev == sym_entries_view(es@),
            entry_desc(ev, s@) == entry_desc(ev.skip(i as int), s@),
        decreases es.len() - i,
    {
        assert(ev.skip(i as int)[0] == es@[i as int].view_of());
        assert(ev.skip(i as int).skip(1) =~= ev.skip(i + 1));
        if same_text(es[i].text.as_str(), s) {
            match &es[i].description {
                Some(d) => {
                    return Some(d.clone());
                },
                None => {},
            }
        }
        i += 1;
    }
    None
}

fn desc_of_exec(ds: &Vec<(String, String)>, s: &str) -> (r: Option<String>)
    ensures
        opt_view(r) == desc_of(pairs_view(ds@), s@),
{
    let ghost dv = pairs_view(ds@);
    let mut i: usize = 0;
    assert(dv.skip(0) =~= dv);
    while i < ds.len()
        invariant
            i <= ds.len(),
            dv == pairs_view(ds@),
            desc_of(dv, s@) == desc_of(dv.skip(i as int), s@),
        decreases ds.len() - i,
    {
        assert(dv.skip(i as int)[0] == (ds@[i as int].0@, ds@[i as int].1@));
        assert(dv.skip(i as int).skip(1) =~= dv.skip(i + 1));
        if same_text(ds[i].0.as_str(), s) {
            return Some(ds[i].1.clone());
        }
        i += 1;
    }
    None
}

fn lookup_desc_exec(ds: &Vec<(String, String)>, es: &Vec<SymbolEntry>, s: &str) -> (r: Option<String>)
    ensures
        opt_view(r) == lookup_desc(pairs_view(ds@), sym_entries_view(es@), s@),
{
    match desc_of_exec(ds, s) {
        Some(d) => Some(d),
        None => entry_desc_exec(es, s),
    }
}

fn chain_index(vs: &Vec<(String, Vec<String>)>, key: &str) -> (r: Option<usize>)
    ensures
        match r {
            Some(i) => i < vs.len() && chain_of(chains_view(vs@), key@) == Some(strs(vs@[i as int].1@)),
            None => chain_of(chains_view(vs@), key@) is None,
        },
{
    let ghost cv = chains_view(vs@);
    let mut i = vs.len();
    assert(cv.take(vs.len() as int) =~= cv);
    while i > 0
        invariant
            i <= vs.len(),
            cv == chains_view(vs@),
            chain_of(cv, key@) == chain_of(cv.take(i as int), key@),
        decreases i,
    {
        assert(cv.take(i as int).last() == (vs@[i - 1].0@, strs(vs@[i - 1].1@)));
        assert(cv.take(i as int).drop_last() =~= cv.take(i - 1));
        if same_text(vs[i - 1].0.as_str(), key) {
            return Some(i - 1);
        }
        i -= 1;
    }
    None
}

fn lists(v: &Vec<String>, x: &str) -> (r: bool)
    ensures
        r == strs(v@).contains(x@),
{
    let mut i: usize = 0;
    while i < v.len()
        invariant
            i <= v.len(),
            forall|j: int| 0 <= j < i ==> v@[j]@ != x@,
        decreases v.len() - i,
    {
        if same_text(v[i].as_str(), x) {
            assert(strs(v@)[i as int] == x@);
            return true;
        }
        i += 1;
    }
    assert forall|j: int| 0 <= j < strs(v@).len() implies strs(v@)[j] != x@ by {
        assert(strs(v@)[j] == v@[j]@);
    }
    false
}

fn find_text_exec(out: &Vec<RewriteOutput>, t: &str) -> (r: Option<usize>)
    ensures
        match r {
            Some(i) => i < out.len() && find_text(outs_view(out@), t@, 0) == i as int,
            None => find_text(outs_view(out@), t@, 0) == -1,
        },
{
    let ghost ov = outs_view(out@);
    let mut i: usize = 0;
    while i < out.len()
        invariant
            i <= out.len(),
            ov == outs_view(out@),
            find_text(ov, t@, 0) == find_text(ov, t@, i as int),
        decreases out.len() - i,
    {
        assert(ov[i as int] == out_view(out@[i as int]));
        if same_text(out[i].0.as_str(), t) {
            return Some(i);
        }
        i += 1;
    }
    None
}

fn marked_exec(marker: char, label: &str) -> (r: String)
    ensures
        r@ == marked(marker, label@),
{
    let mut v: Vec<char> = Vec::new();
    v.push('[');
    v.push(marker);
    v.push(']');
    let l = chars_of(label);
    let ghost before = v@;
    let mut k: usize = 0;
    while k < l.len()
        invariant
            k <= l.len(),
            v@ == before + l@.take(k as int),
        decreases l.len() - k,
    {
        v.push(l[k]);
        k += 1;
        assert(v@ =~= before + l@.take(k as int));
    }
    assert(l@.take(l.len() as int) =~= l@);
    assert(v@ =~= marked(marker, label@));
    string_of(&v)
}

fn annotate_exec(out: &mut Vec<RewriteOutput>, t: String, marker: char, kind: &str)
    ensures
        outs_view(final(out)@) == annotate(outs_view(old(out)@), t@, marker, kind@),
{
    let ghost before = outs_view(out@);
    match find_text_exec(out, t.as_str()) {
        Some(i) => {
            let label = match &out[i].1 {
                Some(d) => d.clone(),
                None => kind.to_owned(),
            };
            assert(before[i as int] == out_view(out@[i as int]));
            let m = marked_exec(marker, label.as_str());
            let ghost entry = (t, Some(m));
            out.set(i, (t, Some(m)));
            assert(outs_view(out@) =~= before.update(i as int, out_view(entry)));
        },
        None => {
            let m = marked_exec(marker, kind);
            let ghost entry = (t, Some(m));
            out.push((t, Some(m)));
            assert(outs_view(out@) =~= before.push(out_view(entry)));
        },
    }
}

fn is_convertible(cand: &str) -> (r: bool)
    ensures
        r == convertible(cand@),
{
    let cs = chars_of(cand);
    if cs.len() == 0 {
        return false;
    }
    let mut all_pairs = true;
    let mut all_letters = true;
    let mut i: usize = 0;
    while i < cs.len()
        invariant
            cs@ == cand@,
            i <= cs.len(),
            all_pairs == forall|j: int| 0 <= j < i ==> spec_forms(#[trigger] cs@[j]) is Some,
            all_letters == forall|j: int| 0 <= j < i ==> crate::width::is_any_letter(#[trigger] cs@[j]),
        decreases cs.len() - i,
    {
        let c = cs[i];
        if !has_width_pair(c) {
            all_pairs = false;
        }
        if !(('A' <= c && c <= 'Z') || ('a' <= c && c <= 'z') || ('\u{FF21}' <= c && c <= '\u{FF3A}')
            || ('\u{FF41}' <= c && c <= '\u{FF5A}')) {
            all_letters = false;
        }
        i += 1;
    }
    all_pairs && !all_letters
}

/// Rewriter that offers related symbols for a typed symbol or a reading.
pub struct SymbolRewriter {
    descriptions: Vec<(String, String)>,
    variants: Vec<(String, Vec<String>)>,
    entries: Vec<SymbolEntry>,
}

impl SymbolRewriter {
    /// The curated descriptions, symbol first.
    pub closed spec fn descriptions(&self) -> Seq<PairView> {
        pairs_view(self.descriptions@)
    }

    /// The variant chains, key first.
    pub closed spec fn variants(&self) -> Seq<ChainView> {
        chains_view(self.variants@)
    }

    /// The reading entries, in table order.
    pub closed spec fn entries(&self) -> Seq<SymbolEntryView> {
        sym_entries_view(self.entries@)
    }

    /// A rewriter over the given table.
    pub fn with_table(
        descriptions: Vec<(String, String)>,
        variants: Vec<(String, Vec<String>)>,
        entries: Vec<SymbolEntry>,
    ) -> (r: Self)
        ensures
            r.descriptions() == pairs_view(descriptions@),
            r.variants() == chains_view(variants@),
            r.entries() == sym_entries_view(entries@),
    {
        SymbolRewriter { descriptions, variants, entries }
    }

    /// The description of a symbol in this table (`。` is 句点).
    pub fn describe(&self, text: &str) -> (r: Option<String>)
        ensures
            opt_view(r) == lookup_desc(self.descriptions(), self.entries(), text@),
    {
        lookup_desc_exec(&self.descriptions, &self.entries, text)
    }

    /// The symbols that have a variant chain.
    pub fn variant_keys(&self) -> (r: Vec<String>)
        ensures
            strs(r@) == self.variants().map_values(|c: ChainView| c.0),
    {
        let mut out: Vec<String> = Vec::new();
        let mut i: usize = 0;
        while i < self.variants.len()
            invariant
                i <= self.variants.len(),
                out@.len() == i,
                forall|j: int| 0 <= j < i ==> #[trigger] out@[j]@ == self.variants@[j].0@,
            decreases self.variants.len() - i,
        {
            out.push(self.variants[i].0.clone());
            i += 1;
        }
        assert(strs(out@) =~= self.variants().map_values(|c: ChainView| c.0));
        out
    }
}

impl Rewriter for SymbolRewriter {
    fn name(&self) -> (r: &'static str)
        ensures
            r@ == "symbol"@,
    {
        "symbol"
    }

    fn rewrite(&self, candidate: &str) -> (r: Vec<RewriteOutput>)
        ensures
            outs_view(r@) == spec_symbol_rewrite(
                self.descriptions(),
                self.variants(),
                self.entries(),
                candidate@,
            ),
    {
        let mut out: Vec<RewriteOutput> = Vec::new();
        assert(outs_view(out@) =~= Seq::<OutView>::empty());
        let cs = chars_of(candidate);
        if cs.len() == 0 {
            return out;
        }
        let ds = &self.descriptions;
        let es = &self.entries;
        let ghost dv = pairs_view(ds@);
        let ghost ev = sym_entries_view(es@);
        match chain_index(&self.variants, candidate) {
            Some(ci) => {
                let chain = &self.variants[ci].1;
                let ghost chv = strs(chain@);
                let mut i: usize = 0;
                assert(chv.take(0) =~= Seq::<Seq<char>>::empty());
                while i < chain.len()
                    invariant
                        i <= chain.len(),
                        chv == strs(chain@),
                        dv == pairs_view(ds@),
                        ev == sym_entries_view(es@),
                        outs_view(out@) == offer_chain(Seq::empty(), candidate@, dv, ev, chv.take(i as int)),
                    decreases chain.len() - i,
                {
                    let d = lookup_desc_exec(ds, es, chain[i].as_str());
                    push_variant(&mut out, candidate, chain[i].clone(), d);
                    assert(chv.take(i + 1).drop_last() =~= chv.take(i as int));
                    assert(chv.take(i + 1).last() == chain@[i as int]@);
                    i += 1;
                }
                assert(chv.take(chain.len() as int) =~= chv);
            },
            None => {},
        }
        let ghost o1 = outs_view(out@);
        let mut i: usize = 0;
        assert(ev.take(0) =~= Seq::<SymbolEntryView>::empty());
        while i < es.len()
            invariant
                i <= es.len(),
                dv == pairs_view(ds@),
                ev == sym_entries_view(es@),
                outs_view(out@) == offer_entries(o1, candidate@, dv, ev, ev.take(i as int)),
            decreases es.len() - i,
        {
            assert(ev.take(i + 1).drop_last() =~= ev.take(i as int));
            assert(ev.take(i + 1).last() == es@[i as int].view_of());
            if lists(&es[i].readings, candidate) {
                let d = match &es[i].description {
                    Some(d) => Some(d.clone()),
                    None => lookup_desc_exec(ds, es, es[i].text.as_str()),
                };
                push_variant(&mut out, candidate, es[i].text.clone(), d);
            }
            i += 1;
        }
        assert(ev.take(es.len() as int) =~= ev);
        if is_convertible(candidate) {
            let kind = if is_pure_digit(candidate) {
                "数字"
            } else {
                "記号"
            };
            let full = to_full_width(candidate);
            if !same_text(full.as_str(), candidate) {
                annotate_exec(&mut out, full, '全', kind);
            }
            let half = to_half_width(candidate);
            if !same_text(half.as_str(), candidate) {
                annotate_exec(&mut out, half, '半', kind);
            }
        }
        out
    }
}

// ---------- the built-in table ----------

/// The built-in curated symbol descriptions.
pub open spec fn builtin_symbol_descriptions() -> Seq<PairView> {
    seq![("「"@, "始めかぎ括弧"@), ("」"@, "終わりかぎ括弧"@), ("『"@, "始め二重かぎ括弧"@), ("』"@, "終わり二重かぎ括弧"@), ("【"@, "始め隅付き括弧"@), ("】"@, "終わり隅付き括弧"@)]
}

/// The built-in variant chains.
pub open spec fn builtin_symbol_variants() -> Seq<ChainView> {
    seq![
        ("「"@, seq!["『"@, "【"@, "〔"@, "（"@, "〈"@, "《"@, "［"@, "｛"@, "｢"@]),
        ("」"@, seq!["』"@, "】"@, "〕"@, "）"@, "〉"@, "》"@, "］"@, "｝"@, "｣"@]),
        ("『"@, seq!["「"@, "【"@, "〔"@, "（"@]),
        ("』"@, seq!["」"@, "】"@, "〕"@, "）"@]),
        ("、"@, seq!["，"@, ","@, "､"@]),
        ("。"@, seq!["．"@, "."@, "｡"@]),
        ("\""@, seq!["”"@, "“"@, "＂"@]),
        ("”"@, seq!["\""@, "“"@, "＂"@]),
        ("“"@, seq!["\""@, "”"@, "＂"@]),
        ("。。。"@, seq!["…"@]),
        ("..."@, seq!["…"@]),
        ("・・・"@, seq!["…"@]),
        ("。。"@, seq!["‥"@]),
        (".."@, seq!["‥"@]),
        ("・・"@, seq!["‥"@]),
        ("…"@, seq!["。。。"@, "..."@, "・・・"@, "‥"@]),
        ("‥"@, seq!["。。"@, ".."@, "・・"@, "…"@]),
        ("「」"@, seq!["『』"@, "【】"@, "（）"@, "〔〕"@, "〈〉"@, "《》"@, "［］"@, "｛｝"@]),
        ("()"@, seq!["「」"@, "『』"@, "【】"@, "（）"@, "［］"@]),
        ("@"@, seq!["＠"@]),
        ("＠"@, seq!["@"@]),
        ("・"@, seq!["･"@, "／"@, "×"@]),
    ]
}

/// The built-in reading entries.
pub open spec fn builtin_symbol_entries() -> Seq<SymbolEntryView> {
    seq![
        ("「」"@, seq!["かっこ"@, "かぎかっこ"@], Some("かぎ括弧"@)),
        ("『』"@, seq!["かっこ"@, "かぎかっこ"@, "にじゅうかぎかっこ"@], Some("二重かぎ括弧"@)),
        ("（）"@, seq!["かっこ"@, "まるかっこ"@], Some("丸括弧"@)),
        ("【】"@, seq!["かっこ"@, "すみつきかっこ"@], Some("隅付き括弧"@)),
        ("〔〕"@, seq!["かっこ"@, "きっこう"@], Some("亀甲括弧"@)),
        ("［］"@, seq!["かっこ"@, "だいかっこ"@], Some("角括弧"@)),
        ("〈"@, seq!["<"@, "かっこ"@], Some("山括弧開"@)),
        ("‹"@, seq!["<"@], None::<Seq<char>>),
        ("＜"@, seq!["<"@, "しょうなり"@], Some("小なり"@)),
        ("≦"@, seq!["<"@, "しょうなりいこーる"@], Some("小なりイコール"@)),
        ("◁"@, seq!["<"@, "さんかく"@], Some("白三角(左)"@)),
        ("◀"@, seq!["<"@, "さんかく"@], Some("黒三角(左)"@)),
        ("←"@, seq!["<"@, "やじるし"@, "ひだり"@], Some("左矢印"@)),
        ("《"@, seq!["<<"@, "かっこ"@], Some("二重山括弧開"@)),
        ("«"@, seq!["<<"@], None::<Seq<char>>),
        ("≪"@, seq!["<<"@], Some("非常に小さい"@)),
        ("。"@, seq!["まる"@, "くてん"@], Some("句点"@)),
        ("、"@, seq!["てん"@, "とうてん"@], Some("読点"@)),
        ("…"@, seq!["てん"@, "さんてんりーだ"@], Some("三点リーダ"@)),
        ("‥"@, seq!["てん"@, "にてんりーだ"@], Some("二点リーダ"@)),
        ("．"@, seq!["ぴりおど"@], Some("ピリオド"@)),
        ("＠"@, seq!["あっと"@], Some("アットマーク"@)),
        ("※"@, seq!["こめ"@, "こめじるし"@], Some("米印"@)),
        ("☆"@, seq!["ほし"@], Some("白星"@)),
        ("★"@, seq!["ほし"@], Some("黒星"@)),
    ]
}

fn builtin_symbol_table() -> (r: (Vec<(String, String)>, Vec<(String, Vec<String>)>, Vec<SymbolEntry>))
    ensures
        pairs_view(r.0@) == builtin_symbol_descriptions(),
        chains_view(r.1@) == builtin_symbol_variants(),
        sym_entries_view(r.2@) == builtin_symbol_entries(),
{
    let mut ds: Vec<(String, String)> = Vec::new();
    ds.push(("「".to_owned(), "始めかぎ括弧".to_owned()));
    ds.push(("」".to_owned(), "終わりかぎ括弧".to_owned()));
    ds.push(("『".to_owned(), "始め二重かぎ括弧".to_owned()));
    ds.push(("』".to_owned(), "終わり二重かぎ括弧".to_owned()));
    ds.push(("【".to_owned(), "始め隅付き括弧".to_owned()));
    ds.push(("】".to_owned(), "終わり隅付き括弧".to_owned()));
    assert(pairs_view(ds@) =~= builtin_symbol_descriptions());
    let mut vs: Vec<(String, Vec<String>)> = Vec::new();
    let mut c0: Vec<String> = Vec::new();
    c0.push("『".to_owned());
    c0.push("【".to_owned());
    c0.push("〔".to_owned());
    c0.push("（".to_owned());
    c0.push("〈".to_owned());
    c0.push("《".to_owned());
    c0.push("［".to_owned());
    c0.push("｛".to_owned());
    c0.push("｢".to_owned());
    assert(strs(c0@) =~= seq!["『"@, "【"@, "〔"@, "（"@, "〈"@, "《"@, "［"@, "｛"@, "｢"@]);
    vs.push(("「".to_owned(), c0));
    let mut c1: Vec<String> = Vec::new();
    c1.push("』".to_owned());
    c1.push("】".to_owned());
    c1.push("〕".to_owned());
    c1.push("）".to_owned());
    c1.push("〉".to_owned());
    c1.push("》".to_owned());
    c1.push("］".to_owned());
    c1.push("｝".to_owned());
    c1.push("｣".to_owned());
    assert(strs(c1@) =~= seq!["』"@, "】"@, "〕"@, "）"@, "〉"@, "》"@, "］"@, "｝"@, "｣"@]);
    vs.push(("」".to_owned(), c1));
    let mut c2: Vec<String> = Vec::new();
    c2.push("「".to_owned());
    c2.push("【".to_owned());
    c2.push("〔".to_owned());
    c2.push("（".to_owned());
    assert(strs(c2@) =~= seq!["「"@, "【"@, "〔"@, "（"@]);
    vs.push(("『".to_owned(), c2));
    let mut c3: Vec<String> = Vec::new();
    c3.push("」".to_owned());
    c3.push("】".to_owned());
    c3.push("〕".to_owned());
    c3.push("）".to_owned());
    assert(strs(c3@) =~= seq!["」"@, "】"@, "〕"@, "）"@]);
    vs.push(("』".to_owned(), c3));
    let mut c4: Vec<String> = Vec::new();
    c4.push("，".to_owned());
    c4.push(",".to_owned());
    c4.push("､".to_owned());
    assert(strs(c4@) =~= seq!["，"@, ","@, "､"@]);
    vs.push(("、".to_owned(), c4));
    let mut c5: Vec<String> = Vec::new();
    c5.push("．".to_owned());
    c5.push(".".to_owned());
    c5.push("｡".to_owned());
    assert(strs(c5@) =~= seq!["．"@, "."@, "｡"@]);
    vs.push(("。".to_owned(), c5));
    let mut c6: Vec<String> = Vec::new();
    c6.push("”".to_owned());
    c6.push("“".to_owned());
    c6.push("＂".to_owned());
    assert(strs(c6@) =~= seq!["”"@, "“"@, "＂"@]);
    vs.push(("\"".to_owned(), c6));
    let mut c7: Vec<String> = Vec::new();
    c7.push("\"".to_owned());
    c7.push("“".to_owned());
    c7.push("＂".to_owned());
    assert(strs(c7@) =~= seq!["\""@, "“"@, "＂"@]);
    vs.push(("”".to_owned(), c7));
    let mut c8: Vec<String> = Vec::new();
    c8.push("\"".to_owned());
    c8.push("”".to_owned());
    c8.push("＂".to_owned());
    assert(strs(c8@) =~= seq!["\""@, "”"@, "＂"@]);
    vs.push(("“".to_owned(), c8));
    let mut c9: Vec<String> = Vec::new();
    c9.push("…".to_owned());
    assert(strs(c9@) =~= seq!["…"@]);
    vs.push(("。。。".to_owned(), c9));
    let mut c10: Vec<String> = Vec::new();
    c10.push("…".to_owned());
    assert(strs(c10@) =~= seq!["…"@]);
    vs.push(("...".to_owned(), c10));
    let mut c11: Vec<String> = Vec::new();
    c11.push("…".to_owned());
    assert(strs(c11@) =~= seq!["…"@]);
    vs.push(("・・・".to_owned(), c11));
    let mut c12: Vec<String> = Vec::new();
    c12.push("‥".to_owned());
    assert(strs(c12@) =~= seq!["‥"@]);
    vs.push(("。。".to_owned(), c12));
    let mut c13: Vec<String> = Vec::new();
    c13.push("‥".to_owned());
    assert(strs(c13@) =~= seq!["‥"@]);
    vs.push(("..".to_owned(), c13));
    let mut c14: Vec<String> = Vec::new();
    c14.push("‥".to_owned());
    assert(strs(c14@) =~= seq!["‥"@]);
    vs.push(("・・".to_owned(), c14));
    let mut c15: Vec<String> = Vec::new();
    c15.push("。。。".to_owned());
    c15.push("...".to_owned());
    c15.push("・・・".to_owned());
    c15.push("‥".to_owned());
    assert(strs(c15@) =~= seq!["。。。"@, "..."@, "・・・"@, "‥"@]);
    vs.push(("…".to_owned(), c15));
    let mut c16: Vec<String> = Vec::new();
    c16.push("。。".to_owned());
    c16.push("..".to_owned());
    c16.push("・・".to_owned());
    c16.push("…".to_owned());
    assert(strs(c16@) =~= seq!["。。"@, ".."@, "・・"@, "…"@]);
    vs.push(("‥".to_owned(), c16));
    let mut c17: Vec<String> = Vec::new();
    c17.push("『』".to_owned());
    c17.push("【】".to_owned());
    c17.push("（）".to_owned());
    c17.push("〔〕".to_owned());
    c17.push("〈〉".to_owned());
    c17.push("《》".to_owned());
    c17.push("［］".to_owned());
    c17.push("｛｝".to_owned());
    assert(strs(c17@) =~= seq!["『』"@, "【】"@, "（）"@, "〔〕"@, "〈〉"@, "《》"@, "［］"@, "｛｝"@]);
    vs.push(("「」".to_owned(), c17));
    let mut c18: Vec<String> = Vec::new();
    c18.push("「」".to_owned());
    c18.push("『』".to_owned());
    c18.push("【】".to_owned());
    c18.push("（）".to_owned());
    c18.push("［］".to_owned());
    assert(strs(c18@) =~= seq!["「」"@, "『』"@, "【】"@, "（）"@, "［］"@]);
    vs.push(("()".to_owned(), c18));
    let mut c19: Vec<String> = Vec::new();
    c19.push("＠".to_owned());
    assert(strs(c19@) =~= seq!["＠"@]);
    vs.push(("@".to_owned(), c19));
    let mut c20: Vec<String> = Vec::new();
    c20.push("@".to_owned());
    assert(strs(c20@) =~= seq!["@"@]);
    vs.push(("＠".to_owned(), c20));
    let mut c21: Vec<String> = Vec::new();
    c21.push("･".to_owned());
    c21.push("／".to_owned());
    c21.push("×".to_owned());
    assert(strs(c21@) =~= seq!["･"@, "／"@, "×"@]);
    vs.push(("・".to_owned(), c21));
    assert(chains_view(vs@) =~= builtin_symbol_variants());
    let mut es: Vec<SymbolEntry> = Vec::new();
    let mut r0: Vec<String> = Vec::new();
    r0.push("かっこ".to_owned());
    r0.push("かぎかっこ".to_owned());
    assert(strs(r0@) =~= seq!["かっこ"@, "かぎかっこ"@]);
    let e0 = SymbolEntry { text: "「」".to_owned(), readings: r0, description: Some("かぎ括弧".to_owned()) };
    assert(e0.view_of() == ("「」"@, seq!["かっこ"@, "かぎかっこ"@], Some("かぎ括弧"@)));
    es.push(e0);
    let mut r1: Vec<String> = Vec::new();
    r1.push("かっこ".to_owned());
    r1.push("かぎかっこ".to_owned());
    r1.push("にじゅうかぎかっこ".to_owned());
    assert(strs(r1@) =~= seq!["かっこ"@, "かぎかっこ"@, "にじゅうかぎかっこ"@]);
    let e1 = SymbolEntry { text: "『』".to_owned(), readings: r1, description: Some("二重かぎ括弧".to_owned()) };
    assert(e1.view_of() == ("『』"@, seq!["かっこ"@, "かぎかっこ"@, "にじゅうかぎかっこ"@], Some("二重かぎ括弧"@)));
    es.push(e1);
    let mut r2: Vec<String> = Vec::new();
    r2.push("かっこ".to_owned());
    r2.push("まるかっこ".to_owned());
    assert(strs(r2@) =~= seq!["かっこ"@, "まるかっこ"@]);
    let e2 = SymbolEntry { text: "（）".to_owned(), readings: r2, description: Some("丸括弧".to_owned()) };
    assert(e2.view_of() == ("（）"@, seq!["かっこ"@, "まるかっこ"@], Some("丸括弧"@)));
    es.push(e2);
    let mut r3: Vec<String> = Vec::new();
    r3.push("かっこ".to_owned());
    r3.push("すみつきかっこ".to_owned());
    assert(strs(r3@) =~= seq!["かっこ"@, "すみつきかっこ"@]);
    let e3 = SymbolEntry { text: "【】".to_owned(), readings: r3, description: Some("隅付き括弧".to_owned()) };
    assert(e3.view_of() == ("【】"@, seq!["かっこ"@, "すみつきかっこ"@], Some("隅付き括弧"@)));
    es.push(e3);
    let mut r4: Vec<String> = Vec::new();
    r4.push("かっこ".to_owned());
    r4.push("きっこう".to_owned());
    assert(strs(r4@) =~= seq!["かっこ"@, "きっこう"@]);
    let e4 = SymbolEntry { text: "〔〕".to_owned(), readings: r4, description: Some("亀甲括弧".to_owned()) };
    assert(e4.view_of() == ("〔〕"@, seq!["かっこ"@, "きっこう"@], Some("亀甲括弧"@)));
    es.push(e4);
    let mut r5: Vec<String> = Vec::new();
    r5.push("かっこ".to_owned());
    r5.push("だいかっこ".to_owned());
    assert(strs(r5@) =~= seq!["かっこ"@, "だいかっこ"@]);
    let e5 = SymbolEntry { text: "［］".to_owned(), readings: r5, description: Some("角括弧".to_owned()) };
    assert(e5.view_of() == ("［］"@, seq!["かっこ"@, "だいかっこ"@], Some("角括弧"@)));
    es.push(e5);
    let mut r6: Vec<String> = Vec::new();
    r6.push("<".to_owned());
    r6.push("かっこ".to_owned());
    assert(strs(r6@) =~= seq!["<"@, "かっこ"@]);
    let e6 = SymbolEntry { text: "〈".to_owned(), readings: r6, description: Some("山括弧開".to_owned()) };
    assert(e6.view_of() == ("〈"@, seq!["<"@, "かっこ"@], Some("山括弧開"@)));
    es.push(e6);
    let mut r7: Vec<String> = Vec::new();
    r7.push("<".to_owned());
    assert(strs(r7@) =~= seq!["<"@]);
    let e7 = SymbolEntry { text: "‹".to_owned(), readings: r7, description: None };
    assert(e7.view_of() == ("‹"@, seq!["<"@], None::<Seq<char>>));
    es.push(e7);
    let mut r8: Vec<String> = Vec::new();
    r8.push("<".to_owned());
    r8.push("しょうなり".to_owned());
    assert(strs(r8@) =~= seq!["<"@, "しょうなり"@]);
    let e8 = SymbolEntry { text: "＜".to_owned(), readings: r8, description: Some("小なり".to_owned()) };
    assert(e8.view_of() == ("＜"@, seq!["<"@, "しょうなり"@], Some("小なり"@)));
    es.push(e8);
    let mut r9: Vec<String> = Vec::new();
    r9.push("<".to_owned());
    r9.push("しょうなりいこーる".to_owned());
    assert(strs(r9@) =~= seq!["<"@, "しょうなりいこーる"@]);
    let e9 = SymbolEntry { text: "≦".to_owned(), readings: r9, description: Some("小なりイコール".to_owned()) };
    assert(e9.view_of() == ("≦"@, seq!["<"@, "しょうなりいこーる"@], Some("小なりイコール"@)));
    es.push(e9);
    let mut r10: Vec<String> = Vec::new();
    r10.push("<".to_owned());
    r10.push("さんかく".to_owned());
    assert(strs(r10@) =~= seq!["<"@, "さんかく"@]);
    let e10 = SymbolEntry { text: "◁".to_owned(), readings: r10, description: Some("白三角(左)".to_owned()) };
    assert(e10.view_of() == ("◁"@, seq!["<"@, "さんかく"@], Some("白三角(左)"@)));
    es.push(e10);
    let mut r11: Vec<String> = Vec::new();
    r11.push("<".to_owned());
    r11.push("さんかく".to_owned());
    assert(strs(r11@) =~= seq!["<"@, "さんかく"@]);
    let e11 = SymbolEntry { text: "◀".to_owned(), readings: r11, description: Some("黒三角(左)".to_owned()) };
    assert(e11.view_of() == ("◀"@, seq!["<"@, "さんかく"@], Some("黒三角(左)"@)));
    es.push(e11);
    let mut r12: Vec<String> = Vec::new();
    r12.push("<".to_owned());
    r12.push("やじるし".to_owned());
    r12.push("ひだり".to_owned());
    assert(strs(r12@) =~= seq!["<"@, "やじるし"@, "ひだり"@]);
    let e12 = SymbolEntry { text: "←".to_owned(), readings: r12, description: Some("左矢印".to_owned()) };
    assert(e12.view_of() == ("←"@, seq!["<"@, "やじるし"@, "ひだり"@], Some("左矢印"@)));
    es.push(e12);
    let mut r13: Vec<String> = Vec::new();
    r13.push("<<".to_owned());
    r13.push("かっこ".to_owned());
    assert(strs(r13@) =~= seq!["<<"@, "かっこ"@]);
    let e13 = SymbolEntry { text: "《".to_owned(), readings: r13, description: Some("二重山括弧開".to_owned()) };
    assert(e13.view_of() == ("《"@, seq!["<<"@, "かっこ"@], Some("二重山括弧開"@)));
    es.push(e13);
    let mut r14: Vec<String> = Vec::new();
    r14.push("<<".to_owned());
    assert(strs(r14@) =~= seq!["<<"@]);
    let e14 = SymbolEntry { text: "«".to_owned(), readings: r14, description: None };
    assert(e14.view_of() == ("«"@, seq!["<<"@], None::<Seq<char>>));
    es.push(e14);
    let mut r15: Vec<String> = Vec::new();
    r15.push("<<".to_owned());
    assert(strs(r15@) =~= seq!["<<"@]);
    let e15 = SymbolEntry { text: "≪".to_owned(), readings: r15, description: Some("非常に小さい".to_owned()) };
    assert(e15.view_of() == ("≪"@, seq!["<<"@], Some("非常に小さい"@)));
    es.push(e15);
    let mut r16: Vec<String> = Vec::new();
    r16.push("まる".to_owned());
    r16.push("くてん".to_owned());
    assert(strs(r16@) =~= seq!["まる"@, "くてん"@]);
    let e16 = SymbolEntry { text: "。".to_owned(), readings: r16, description: Some("句点".to_owned()) };
    assert(e16.view_of() == ("。"@, seq!["まる"@, "くてん"@], Some("句点"@)));
    es.push(e16);
    let mut r17: Vec<String> = Vec::new();
    r17.push("てん".to_owned());
    r17.push("とうてん".to_owned());
    assert(strs(r17@) =~= seq!["てん"@, "とうてん"@]);
    let e17 = SymbolEntry { text: "、".to_owned(), readings: r17, description: Some("読点".to_owned()) };
    assert(e17.view_of() == ("、"@, seq!["てん"@, "とうてん"@], Some("読点"@)));
    es.push(e17);
    let mut r18: Vec<String> = Vec::new();
    r18.push("てん".to_owned());
    r18.push("さんてんりーだ".to_owned());
    assert(strs(r18@) =~= seq!["てん"@, "さんてんりーだ"@]);
    let e18 = SymbolEntry { text: "…".to_owned(), readings: r18, description: Some("三点リーダ".to_owned()) };
    assert(e18.view_of() == ("…"@, seq!["てん"@, "さんてんりーだ"@], Some("三点リーダ"@)));
    es.push(e18);
    let mut r19: Vec<String> = Vec::new();
    r19.push("てん".to_owned());
    r19.push("にてんりーだ".to_owned());
    assert(strs(r19@) =~= seq!["てん"@, "にてんりーだ"@]);
    let e19 = SymbolEntry { text: "‥".to_owned(), readings: r19, description: Some("二点リーダ".to_owned()) };
    assert(e19.view_of() == ("‥"@, seq!["てん"@, "にてんりーだ"@], Some("二点リーダ"@)));
    es.push(e19);
    let mut r20: Vec<String> = Vec::new();
    r20.push("ぴりおど".to_owned());
    assert(strs(r20@) =~= seq!["ぴりおど"@]);
    let e20 = SymbolEntry { text: "．".to_owned(), readings: r20, description: Some("ピリオド".to_owned()) };
    assert(e20.view_of() == ("．"@, seq!["ぴりおど"@], Some("ピリオド"@)));
    es.push(e20);
    let mut r21: Vec<String> = Vec::new();
    r21.push("あっと".to_owned());
    assert(strs(r21@) =~= seq!["あっと"@]);
    let e21 = SymbolEntry { text: "＠".to_owned(), readings: r21, description: Some("アットマーク".to_owned()) };
    assert(e21.view_of() == ("＠"@, seq!["あっと"@], Some("アットマーク"@)));
    es.push(e21);
    let mut r22: Vec<String> = Vec::new();
    r22.push("こめ".to_owned());
    r22.push("こめじるし".to_owned());
    assert(strs(r22@) =~= seq!["こめ"@, "こめじるし"@]);
    let e22 = SymbolEntry { text: "※".to_owned(), readings: r22, description: Some("米印".to_owned()) };
    assert(e22.view_of() == ("※"@, seq!["こめ"@, "こめじるし"@], Some("米印"@)));
    es.push(e22);
    let mut r23: Vec<String> = Vec::new();
    r23.push("ほし".to_owned());
    assert(strs(r23@) =~= seq!["ほし"@]);
    let e23 = SymbolEntry { text: "☆".to_owned(), readings: r23, description: Some("白星".to_owned()) };
    assert(e23.view_of() == ("☆"@, seq!["ほし"@], Some("白星"@)));
    es.push(e23);
    let mut r24: Vec<String> = Vec::new();
    r24.push("ほし".to_owned());
    assert(strs(r24@) =~= seq!["ほし"@]);
    let e24 = SymbolEntry { text: "★".to_owned(), readings: r24, description: Some("黒星".to_owned()) };
    assert(e24.view_of() == ("★"@, seq!["ほし"@], Some("黒星"@)));
    es.push(e24);
    assert(sym_entries_view(es@) =~= builtin_symbol_entries());
    (ds, vs, es)
}

impl SymbolRewriter {
    /// A rewriter over the built-in table. That table is a small starter
    /// set of common symbols, not a full symbol dictionary: a complete
    /// table (read from a symbol data file by the application) is given
    /// with [`SymbolRewriter::with_table`].
    pub fn new() -> (r: Self)
        ensures
            r.descriptions() == builtin_symbol_descriptions(),
            r.variants() == builtin_symbol_variants(),
            r.entries() == builtin_symbol_entries(),
    {
        let (ds, vs, es) = builtin_symbol_table();
        SymbolRewriter::with_table(ds, vs, es)
    }
}

/// The description of a symbol in the built-in table (`。` is 句点);
/// `None` for text that is not a known symbol.
pub fn description(text: &str) -> (r: Option<String>)
    ensures
        opt_view(r) == lookup_desc(builtin_symbol_descriptions(), builtin_symbol_entries(), text@),
{
    SymbolRewriter::new().describe(text)
}

// ---------- laws ----------

proof fn lemma_offer_chain_keeps(
    out: Seq<OutView>,
    cand: Seq<char>,
    ds: Seq<PairView>,
    es: Seq<SymbolEntryView>,
    chain: Seq<Seq<char>>,
)
    requires
        well_offered(out, cand),
    ensures
        well_offered(offer_chain(out, cand, ds, es, chain), cand),
    decreases chain.len(),
{
    if chain.len() > 0 {
        lemma_offer_chain_keeps(out, cand, ds, es, chain.drop_last());
        let v = chain.last();
        lemma_add_variant_keeps(offer_chain(out, cand, ds, es, chain.drop_last()), cand, v, lookup_desc(ds, es, v));
    }
}

proof fn lemma_offer_entries_keeps(
    out: Seq<OutView>,
    cand: Seq<char>,
    ds: Seq<PairView>,
    all: Seq<SymbolEntryView>,
    es: Seq<SymbolEntryView>,
)
    requires
        well_offered(out, cand),
    ensures
        well_offered(offer_entries(out, cand, ds, all, es), cand),
    decreases es.len(),
{
    if es.len() > 0 {
        lemma_offer_entries_keeps(out, cand, ds, all, es.drop_last());
        let e = es.last();
        let r = offer_entries(out, cand, ds, all, es.drop_last());
        if e.1.contains(cand) {
            lemma_add_variant_keeps(
                r,
                cand,
                e.0,
                match e.2 {
                    Some(d) => Some(d),
                    None => lookup_desc(ds, all, e.0),
                },
            );
        }
    }
}

proof fn lemma_find_text(out: Seq<OutView>, t: Seq<char>, i: int)
    requires
        0 <= i,
    ensures
        find_text(out, t, i) == -1 ==> forall|k: int| i <= k < out.len() ==> out[k].0 != t,
        find_text(out, t, i) != -1 ==> i <= find_text(out, t, i) < out.len() && out[find_text(
            out,
            t,
            i,
        )].0 == t,
    decreases out.len() - i,
{
    if i < out.len() && out[i].0 != t {
        lemma_find_text(out, t, i + 1);
    }
}

proof fn lemma_annotate_keeps(out: Seq<OutView>, cand: Seq<char>, t: Seq<char>, marker: char, kind: Seq<char>)
    requires
        well_offered(out, cand),
        t != cand,
    ensures
        well_offered(annotate(out, t, marker, kind), cand),
{
    lemma_find_text(out, t, 0);
    let i = find_text(out, t, 0);
    let r = annotate(out, t, marker, kind);
    if i >= 0 {
        assert forall|a: int, b: int| 0 <= a < b < r.len() implies #[trigger] r[a].0
            != #[trigger] r[b].0 by {
            assert(r[a].0 == out[a].0);
            assert(r[b].0 == out[b].0);
        }
        assert forall|a: int| 0 <= a < r.len() implies #[trigger] r[a].0 != cand by {
            assert(r[a].0 == out[a].0);
        }
    } else {
        assert forall|a: int, b: int| 0 <= a < b < r.len() implies #[trigger] r[a].0
            != #[trigger] r[b].0 by {
            if b == out.len() {
                assert(r[a] == out[a]);
            }
        }
    }
}

/// The symbol rewriter never offers the candidate itself and never one
/// text twice; where the width step reaches a text an earlier step
/// offered, it annotates that offer instead of adding another.
pub proof fn lemma_symbol_well_offered(
    ds: Seq<PairView>,
    vs: Seq<ChainView>,
    es: Seq<SymbolEntryView>,
    cand: Seq<char>,
)
    ensures
        well_offered(spec_symbol_rewrite(ds, vs, es, cand), cand),
{
    if cand.len() > 0 {
        let e = Seq::<OutView>::empty();
        let o1 = match chain_of(vs, cand) {
            Some(chain) => {
                lemma_offer_chain_keeps(e, cand, ds, es, chain);
                offer_chain(e, cand, ds, es, chain)
            },
            None => e,
        };
        lemma_offer_entries_keeps(o1, cand, ds, es, es);
        let o2 = offer_entries(o1, cand, ds, es, es);
        if convertible(cand) {
            let kind = if spec_pure_digit(cand) {
                "数字"@
            } else {
                "記号"@
            };
            let full = cand.map_values(|c: char| spec_full(c));
            let half = cand.map_values(|c: char| spec_half(c));
            let o3 = if full != cand {
                lemma_annotate_keeps(o2, cand, full, '全', kind);
                annotate(o2, full, '全', kind)
            } else {
                o2
            };
            if half != cand {
                lemma_annotate_keeps(o3, cand, half, '半', kind);
            }
        }
    }
}

} // verus!
