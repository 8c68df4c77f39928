//! InputBuffer: a recorded element array plus a caret, with every view
//! derived by evaluation.
//!
//! **The record** is the single source of truth: one element per display
//! character plus `cursor`, the caret as an element index. Typing `kyo`
//! records `[Romaji(k), Romaji(y), Romaji(o)]`, which evaluation re-records
//! as `[Converted(き), Converted(ょ)]` — elements and displayed characters
//! always correspond one to one, so the caret is simply an index into both.
//!
//! - [`Element::Romaji`]: one keystroke not yet consumed by a rule (`y`,
//!   `k`, a lone `n`). Shown verbatim; evaluation may later consume it.
//! - [`Element::Converted`]: one settled character — a fired rule's kana,
//!   a passthrough like `1`, or direct input. Opaque to evaluation.
//!
//! **Evaluation** derives everything else: the display, the conversion
//! reading, and the aux romaji tail. After a romaji keystroke is recorded,
//! the Romaji run ending at the cursor is evaluated through the converter:
//! keystrokes a rule consumed are re-recorded as its output. Elements right
//! of the cursor are never touched, so nothing combines across the caret.

use vstd::prelude::*;

use crate::kana::{kata_char, kata_of};
use crate::romaji::converter::{spec_convert, spec_flush, spec_lower, extends, RomajiConverter};
use crate::text::{chars_of, char_from_u32, string_of};

verus! {

/// One display character of the composition.
#[derive(Debug, Clone, Copy, PartialEq, Eq, Structural)]
pub enum Element {
    /// A keystroke not yet consumed by a conversion rule
    Romaji(char),
    /// A settled character: fired rule output, passthrough, or direct input
    Converted(char),
}

/// The character an element shows.
pub open spec fn el_ch(e: Element) -> char {
    match e {
        Element::Romaji(c) => c,
        Element::Converted(c) => c,
    }
}

/// Whether an element is a live keystroke.
pub open spec fn el_romaji(e: Element) -> bool {
    e is Romaji
}

impl Element {
    /// The character this element shows.
    pub fn ch(&self) -> (r: char)
        ensures
            r == el_ch(*self),
    {
        match self {
            Element::Romaji(c) => *c,
            Element::Converted(c) => *c,
        }
    }

    /// Whether this element is a live keystroke.
    pub fn is_romaji(&self) -> (r: bool)
        ensures
            r == el_romaji(*self),
    {
        matches!(self, Element::Romaji(_))
    }
}

/// The characters a sequence of elements shows.
pub open spec fn show(els: Seq<Element>) -> Seq<char> {
    els.map_values(|e: Element| el_ch(e))
}

/// Start of the maximal Romaji run ending at `i`.
pub open spec fn run_start(els: Seq<Element>, i: int) -> int
    decreases i,
{
    if i <= 0 {
        0
    } else if !el_romaji(els[i - 1]) {
        i
    } else {
        run_start(els, i - 1)
    }
}

/// End of the maximal Romaji run starting at `i`.
pub open spec fn run_end(els: Seq<Element>, i: int) -> int
    decreases els.len() - i,
{
    if i >= els.len() {
        els.len() as int
    } else if !el_romaji(els[i]) {
        i
    } else {
        run_end(els, i + 1)
    }
}

/// `run_start` lies in `[0, i]` and everything between it and `i` is Romaji.
pub proof fn lemma_run_start(els: Seq<Element>, i: int)
    requires
        0 <= i <= els.len(),
    ensures
        0 <= run_start(els, i) <= i,
        forall|k: int| run_start(els, i) <= k < i ==> el_romaji(#[trigger] els[k]),
        run_start(els, i) > 0 ==> !el_romaji(els[run_start(els, i) - 1]),
    decreases i,
{
    if i > 0 && el_romaji(els[i - 1]) {
        lemma_run_start(els, i - 1);
    }
}

/// `run_end` lies in `[i, len]` and everything between `i` and it is Romaji.
pub proof fn lemma_run_end(els: Seq<Element>, i: int)
    requires
        0 <= i <= els.len(),
    ensures
        i <= run_end(els, i) <= els.len(),
        forall|k: int| i <= k < run_end(els, i) ==> el_romaji(#[trigger] els[k]),
    decreases els.len() - i,
{
    if i < els.len() && el_romaji(els[i]) {
        lemma_run_end(els, i + 1);
    }
}

/// How evaluation records one converted character: an ASCII passthrough
/// that can still begin a rule stays live; everything else settles at the
/// configured width.
pub open spec fn classify(conv: RomajiConverter, c: char) -> Element {
    if extends(conv.rules(), seq![c]) {
        Element::Romaji(c)
    } else {
        Element::Converted(conv.spec_width().spec_apply(c))
    }
}

/// Evaluation of a run of keystrokes: one element per output character,
/// the trailing pending keystrokes left live.
pub open spec fn spec_evaluate(conv: RomajiConverter, run: Seq<char>) -> Seq<Element> {
    let (text, pending) = spec_convert(conv.rules(), run);
    classify_all(conv, text) + as_live(pending)
}

/// Each character classified as evaluation records it.
pub open spec fn classify_all(conv: RomajiConverter, s: Seq<char>) -> Seq<Element> {
    s.map_values(|c: char| classify(conv, c))
}

/// Each character as a live keystroke.
pub open spec fn as_live(s: Seq<char>) -> Seq<Element> {
    s.map_values(|c: char| live(c))
}

/// A live keystroke element.
pub open spec fn live(c: char) -> Element {
    Element::Romaji(c)
}

/// A settled element.
pub open spec fn settled(c: char) -> Element {
    Element::Converted(c)
}

/// Each character as a settled element.
pub open spec fn as_settled(s: Seq<char>) -> Seq<Element> {
    s.map_values(|c: char| settled(c))
}

/// `els` with `[s, e)` replaced by `ev`.
pub open spec fn splice(els: Seq<Element>, s: int, e: int, ev: Seq<Element>) -> Seq<Element> {
    els.take(s) + ev + els.skip(e)
}

/// The committed form of a keystroke run.
pub open spec fn settle_run(conv: RomajiConverter, run: Seq<char>) -> Seq<char> {
    spec_convert(conv.rules(), run).0 + spec_flush(
        conv.rules(),
        spec_convert(conv.rules(), run).1,
    )
}

/// The reading as it would settle: Romaji runs force-converted in place
/// (`run` holds the keystrokes of the run in progress).
pub open spec fn settled_chars(conv: RomajiConverter, els: Seq<Element>, run: Seq<char>) -> Seq<
    char,
>
    decreases els.len(),
{
    if els.len() == 0 {
        settle_run(conv, run)
    } else {
        match els[0] {
            Element::Romaji(c) => settled_chars(conv, els.skip(1), run.push(c)),
            Element::Converted(c) => settle_run(conv, run) + seq![c] + settled_chars(
                conv,
                els.skip(1),
                Seq::empty(),
            ),
        }
    }
}

/// The record after settling every Romaji run in place.
pub open spec fn settled_elements(
    conv: RomajiConverter,
    els: Seq<Element>,
    run: Seq<char>,
) -> Seq<Element>
    decreases els.len(),
{
    if els.len() == 0 {
        as_settled(settle_run(conv, run))
    } else {
        match els[0] {
            Element::Romaji(c) => settled_elements(conv, els.skip(1), run.push(c)),
            Element::Converted(c) => as_settled(settle_run(conv, run)) + seq![Element::Converted(c)]
                + settled_elements(conv, els.skip(1), Seq::empty()),
        }
    }
}

/// Baking katakana: settled characters become katakana, live keystrokes
/// stay.
pub open spec fn bake(e: Element) -> Element {
    match e {
        Element::Romaji(c) => Element::Romaji(c),
        Element::Converted(c) => Element::Converted(kata_of(c)),
    }
}

/// Whether any element is a live keystroke.
pub open spec fn has_romaji(els: Seq<Element>) -> bool {
    exists|k: int| 0 <= k < els.len() && el_romaji(#[trigger] els[k])
}

/// The record after settling: every Romaji run force-converted in place,
/// the caret keeping its distance from the end (clamped at the start). A
/// record with no live keystroke is left as it is.
pub open spec fn spec_settle(conv: RomajiConverter, b: (Seq<Element>, int)) -> (Seq<Element>, int) {
    if !has_romaji(b.0) {
        b
    } else {
        let out = settled_elements(conv, b.0, Seq::empty());
        let from_end = b.0.len() - b.1;
        (out, if out.len() >= from_end { out.len() - from_end } else { 0 })
    }
}

/// The recorded composition: elements plus the caret index.
pub struct InputBuffer {
    elements: Vec<Element>,
    cursor: usize,
}

impl View for InputBuffer {
    type V = (Seq<Element>, int);

    closed spec fn view(&self) -> (Seq<Element>, int) {
        (self.elements@, self.cursor as int)
    }
}

/// The display of a record.
pub open spec fn spec_display(b: (Seq<Element>, int)) -> Seq<char> {
    show(b.0)
}

/// Start of the active run: the maximal Romaji run ending at the caret.
pub open spec fn active_start(b: (Seq<Element>, int)) -> int {
    run_start(b.0, b.1)
}

/// Keystrokes of the active run.
pub open spec fn spec_pending(b: (Seq<Element>, int)) -> Seq<char> {
    show(b.0.subrange(active_start(b), b.1))
}

/// Everything except the active run.
pub open spec fn spec_reading(b: (Seq<Element>, int)) -> Seq<char> {
    show(b.0.take(active_start(b))) + show(b.0.skip(b.1))
}

/// The record after evaluating `[s, e)` and placing the caret at `s` plus
/// `offset`, clamped to the evaluated length.
pub open spec fn evaluated(
    conv: RomajiConverter,
    els: Seq<Element>,
    s: int,
    e: int,
    offset: int,
) -> (Seq<Element>, int) {
    let ev = spec_evaluate(conv, show(els.subrange(s, e)));
    (splice(els, s, e, ev), s + if offset < ev.len() { offset } else { ev.len() as int })
}

/// The record after typing keystroke `c` at the caret: the keystroke is
/// inserted, the Romaji run it ends is evaluated, and the caret lands right
/// after the evaluated run.
pub open spec fn typed(conv: RomajiConverter, b: (Seq<Element>, int), c: char) -> (
    Seq<Element>,
    int,
) {
    let inserted = b.0.insert(b.1, Element::Romaji(c));
    let s = run_start(inserted, b.1 + 1);
    let ev = spec_evaluate(conv, show(inserted.subrange(s, b.1 + 1)));
    (splice(inserted, s, b.1 + 1, ev), s + ev.len())
}

fn show_range(els: &Vec<Element>, from: usize, to: usize) -> (r: Vec<char>)
    requires
        from <= to <= els.len(),
    ensures
        r@ == show(els@.subrange(from as int, to as int)),
{
    let mut r: Vec<char> = Vec::new();
    let mut i = from;
    while i < to
        invariant
            from <= i <= to <= els.len(),
            r@ == show(els@.subrange(from as int, i as int)),
        decreases to - i,
    {
        r.push(els[i].ch());
        i += 1;
        assert(r@ =~= show(els@.subrange(from as int, i as int)));
    }
    r
}

fn classify_char(c: char, conv: &RomajiConverter) -> (r: Element)
    ensures
        r == classify(*conv, c),
{
    if conv.starts_rule(c) {
        Element::Romaji(c)
    } else {
        Element::Converted(conv.width().apply(c))
    }
}

/// Evaluate a run of romaji keystrokes: convert the whole run and record
/// one element per output character.
fn evaluate_run(run: &Vec<char>, conv: &RomajiConverter) -> (r: Vec<Element>)
    ensures
        r@ == spec_evaluate(*conv, run@),
{
    let converted = conv.convert(string_of(run).as_str());
    let text = chars_of(converted.text.as_str());
    let pending = chars_of(converted.pending.as_str());
    let mut out: Vec<Element> = Vec::new();
    let mut i: usize = 0;
    assert(classify_all(*conv, text@.take(0)) =~= Seq::empty());
    while i < text.len()
        invariant
            i <= text.len(),
            out@ == classify_all(*conv, text@.take(i as int)),
        decreases text.len() - i,
    {
        out.push(classify_char(text[i], conv));
        i += 1;
        assert(out@ =~= classify_all(*conv, text@.take(i as int)));
    }
    let ghost head = out@;
    assert(text@.take(text.len() as int) == text@);
    let mut k: usize = 0;
    while k < pending.len()
        invariant
            k <= pending.len(),
            out@.len() == head.len() + k,
            forall|j: int| 0 <= j < head.len() ==> out@[j] == head[j],
            forall|j: int| 0 <= j < k ==> out@[head.len() + j] == live(pending@[j]),
        decreases pending.len() - k,
    {
        out.push(Element::Romaji(pending[k]));
        k += 1;
    }
    assert(out@ =~= head + as_live(pending@));
    out
}

fn splice_exec(els: &Vec<Element>, s: usize, e: usize, ev: &Vec<Element>) -> (r: Vec<Element>)
    requires
        s <= e <= els.len(),
    ensures
        r@ == splice(els@, s as int, e as int, ev@),
{
    let mut r: Vec<Element> = Vec::new();
    let mut i: usize = 0;
    while i < s
        invariant
            i <= s <= e <= els.len(),
            r@ == els@.take(i as int),
        decreases s - i,
    {
        r.push(els[i]);
        i += 1;
        assert(r@ =~= els@.take(i as int));
    }
    let mut k: usize = 0;
    while k < ev.len()
        invariant
            k <= ev.len(),
            r@ == els@.take(s as int) + ev@.take(k as int),
        decreases ev.len() - k,
    {
        r.push(ev[k]);
        k += 1;
        assert(r@ =~= els@.take(s as int) + ev@.take(k as int));
    }
    assert(ev@.take(ev.len() as int) == ev@);
    let mut j = e;
    while j < els.len()
        invariant
            e <= j <= els.len(),
            r@ == els@.take(s as int) + ev@ + els@.subrange(e as int, j as int),
        decreases els.len() - j,
    {
        r.push(els[j]);
        j += 1;
        assert(r@ =~= els@.take(s as int) + ev@ + els@.subrange(e as int, j as int));
    }
    assert(els@.subrange(e as int, els.len() as int) == els@.skip(e as int));
    r
}

fn append_chars(out: &mut Vec<char>, more: &Vec<char>)
    ensures
        final(out)@ == old(out)@ + more@,
{
    let ghost before = out@;
    let mut k: usize = 0;
    while k < more.len()
        invariant
            k <= more.len(),
            out@ == before + more@.take(k as int),
        decreases more.len() - k,
    {
        out.push(more[k]);
        k += 1;
        assert(out@ =~= before + more@.take(k as int));
    }
    assert(more@.take(more.len() as int) =~= more@);
}

fn append_settled(out: &mut Vec<Element>, more: &Vec<char>)
    ensures
        final(out)@ == old(out)@ + as_settled(more@),
{
    let ghost before = out@;
    let mut k: usize = 0;
    while k < more.len()
        invariant
            k <= more.len(),
            out@.len() == before.len() + k,
            forall|j: int| 0 <= j < before.len() ==> out@[j] == before[j],
            forall|j: int| 0 <= j < k ==> out@[before.len() + j] == settled(more@[j]),
        decreases more.len() - k,
    {
        let c = more[k];
        out.push(Element::Converted(c));
        assert(out@[before.len() + k] == settled(more@[k as int]));
        k += 1;
    }
    assert(out@ =~= before + as_settled(more@));
}

fn settle_run_exec(run: &Vec<char>, conv: &RomajiConverter) -> (r: Vec<char>)
    ensures
        r@ == settle_run(*conv, run@),
{
    chars_of(conv.convert_flush(string_of(run).as_str()).as_str())
}

impl InputBuffer {
    /// The caret sits on an element boundary.
    pub open spec fn wf(&self) -> bool {
        0 <= self@.1 <= self@.0.len()
    }

    /// An empty composition.
    pub fn new() -> (r: Self)
        ensures
            r.wf(),
            r@.0.len() == 0,
            r@.1 == 0,
    {
        InputBuffer { elements: Vec::new(), cursor: 0 }
    }

    /// Drop everything.
    pub fn clear(&mut self)
        ensures
            final(self).wf(),
            final(self)@.0.len() == 0,
            final(self)@.1 == 0,
    {
        self.elements = Vec::new();
        self.cursor = 0;
    }

    /// Whether nothing is recorded.
    pub fn is_empty(&self) -> (r: bool)
        ensures
            r == (self@.0.len() == 0),
    {
        self.elements.len() == 0
    }

    /// Find where the Romaji run ending at `i` starts.
    fn find_run_start(&self, i: usize) -> (r: usize)
        requires
            i <= self.elements.len(),
        ensures
            r as int == run_start(self@.0, i as int),
    {
        let mut k = i;
        while k > 0
            invariant
                k <= i <= self.elements.len(),
                run_start(self.elements@, i as int) == run_start(self.elements@, k as int),
            decreases k,
        {
            if !self.elements[k - 1].is_romaji() {
                return k;
            }
            k -= 1;
        }
        0
    }

    /// Find where the Romaji run starting at `i` ends.
    fn find_run_end(&self, i: usize) -> (r: usize)
        requires
            i <= self.elements.len(),
        ensures
            r as int == run_end(self@.0, i as int),
    {
        let mut k = i;
        while k < self.elements.len()
            invariant
                i <= k <= self.elements.len(),
                run_end(self.elements@, i as int) == run_end(self.elements@, k as int),
            decreases self.elements.len() - k,
        {
            if !self.elements[k].is_romaji() {
                return k;
            }
            k += 1;
        }
        self.elements.len()
    }

    /// Replace `[s, e)` with its evaluation; returns the evaluated length.
    /// The caret is left for the caller to place.
    fn evaluate_range(&mut self, s: usize, e: usize, conv: &RomajiConverter) -> (len: usize)
        requires
            s <= e <= old(self).elements.len(),
        ensures
            final(self)@.0 == splice(
                old(self)@.0,
                s as int,
                e as int,
                spec_evaluate(*conv, show(old(self)@.0.subrange(s as int, e as int))),
            ),
            final(self)@.1 == old(self)@.1,
            len == spec_evaluate(*conv, show(old(self)@.0.subrange(s as int, e as int))).len(),
            final(self)@.0.len() == old(self)@.0.len() - (e - s) + len,
    {
        let run = show_range(&self.elements, s, e);
        let ev = evaluate_run(&run, conv);
        let new_els = splice_exec(&self.elements, s, e, &ev);
        self.elements = new_els;
        ev.len()
    }

    /// Record a kana-mode keystroke at the caret, then evaluate the active
    /// run it now ends; the caret lands after the evaluated run. Elements
    /// right of the caret are never touched.
    pub fn push_romaji(&mut self, ch: char, romaji: &RomajiConverter)
        requires
            old(self).wf(),
        ensures
            final(self).wf(),
            final(self)@ == typed(*romaji, old(self)@, spec_lower(ch)),
            final(self)@.0.skip(final(self)@.1) == old(self)@.0.skip(old(self)@.1),
    {
        let lc = if 'A' <= ch && ch <= 'Z' {
            match char_from_u32(ch as u32 + 32) {
                Some(l) => l,
                None => ch,
            }
        } else {
            ch
        };
        self.elements.insert(self.cursor, Element::Romaji(lc));
        let n = self.elements.len();
        assert(self.cursor < n);
        let end = self.cursor + 1;
        let ghost inserted = self.elements@;
        let s = self.find_run_start(end);
        proof {
            lemma_run_start(inserted, end as int);
        }
        let len = self.evaluate_range(s, end, romaji);
        let n2 = self.elements.len();
        self.cursor = s + len;
        proof {
            assert(self@.0.skip(self@.1) =~= inserted.skip(end as int));
            assert(inserted.skip(end as int) =~= old(self)@.0.skip(old(self)@.1));
        }
    }

    /// Record a direct-input keystroke (alphabet/emoji mode) at the caret,
    /// settled as-is.
    pub fn push_direct(&mut self, ch: char)
        requires
            old(self).wf(),
        ensures
            final(self).wf(),
            final(self)@.0 == old(self)@.0.insert(old(self)@.1, Element::Converted(ch)),
            final(self)@.1 == old(self)@.1 + 1,
    {
        self.elements.insert(self.cursor, Element::Converted(ch));
        let n = self.elements.len();
        assert(self.cursor < n);
        self.cursor = self.cursor + 1;
    }

    /// Record settled text at the caret.
    pub fn insert(&mut self, text: &str)
        requires
            old(self).wf(),
        ensures
            final(self).wf(),
            final(self)@.0 == old(self)@.0.take(old(self)@.1) + as_settled(text@) + old(
                self,
            )@.0.skip(old(self)@.1),
            final(self)@.1 == old(self)@.1 + text@.len(),
    {
        let cs = chars_of(text);
        let mut ev: Vec<Element> = Vec::new();
        let mut i: usize = 0;
        while i < cs.len()
            invariant
                i <= cs.len(),
                ev@.len() == i,
                forall|j: int| 0 <= j < i ==> ev@[j] == settled(cs@[j]),
            decreases cs.len() - i,
        {
            let c = cs[i];
            ev.push(Element::Converted(c));
            assert(ev@[i as int] == settled(cs@[i as int]));
            i += 1;
        }
        assert(ev@ =~= as_settled(cs@));
        let new_els = splice_exec(&self.elements, self.cursor, self.cursor, &ev);
        let n = new_els.len();
        self.elements = new_els;
        self.cursor = self.cursor + ev.len();
    }

    /// Remove the element before the caret, then evaluate the Romaji run
    /// the removal joined. Returns false when the caret is at the start.
    pub fn backspace(&mut self, romaji: &RomajiConverter) -> (r: bool)
        requires
            old(self).wf(),
        ensures
            final(self).wf(),
            r == (old(self)@.1 > 0),
            !r ==> final(self)@ == old(self)@,
            r ==> ({
                let removed = old(self)@.0.remove(old(self)@.1 - 1);
                let c = old(self)@.1 - 1;
                let s = run_start(removed, c);
                final(self)@ == evaluated(*romaji, removed, s, run_end(removed, c), c - s)
            }),
    {
        if self.cursor == 0 {
            return false;
        }
        self.cursor = self.cursor - 1;
        self.elements.remove(self.cursor);
        self.evaluate_joined_run(romaji);
        true
    }

    /// Remove the element at the caret (delete key), then evaluate the
    /// Romaji run the removal joined. Returns false when the caret is at
    /// the end.
    pub fn delete_at_cursor(&mut self, romaji: &RomajiConverter) -> (r: bool)
        requires
            old(self).wf(),
        ensures
            final(self).wf(),
            r == (old(self)@.1 < old(self)@.0.len()),
            !r ==> final(self)@ == old(self)@,
            r ==> ({
                let removed = old(self)@.0.remove(old(self)@.1);
                let c = old(self)@.1;
                let s = run_start(removed, c);
                final(self)@ == evaluated(*romaji, removed, s, run_end(removed, c), c - s)
            }),
    {
        if self.cursor == self.elements.len() {
            return false;
        }
        self.elements.remove(self.cursor);
        self.evaluate_joined_run(romaji);
        true
    }

    /// Evaluate the Romaji run containing the caret — both sides of a
    /// deletion point.
    fn evaluate_joined_run(&mut self, romaji: &RomajiConverter)
        requires
            old(self).wf(),
        ensures
            final(self).wf(),
            ({
                let c = old(self)@.1;
                let s = run_start(old(self)@.0, c);
                final(self)@ == evaluated(*romaji, old(self)@.0, s, run_end(old(self)@.0, c), c - s)
            }),
    {
        let c = self.cursor;
        let s = self.find_run_start(c);
        let e = self.find_run_end(c);
        proof {
            lemma_run_start(self.elements@, c as int);
            lemma_run_end(self.elements@, c as int);
        }
        let len = self.evaluate_range(s, e, romaji);
        let n = self.elements.len();
        let offset = c - s;
        self.cursor = s + if offset < len {
            offset
        } else {
            len
        };
    }

    /// The reading as it would settle: Romaji runs force-converted in
    /// place, everything else as displayed. The non-destructive
    /// counterpart of [`Self::settle_romaji`].
    pub fn settled_reading(&self, romaji: &RomajiConverter) -> (r: String)
        ensures
            r@ == settled_chars(*romaji, self@.0, Seq::empty()),
    {
        let mut reading: Vec<char> = Vec::new();
        let mut run: Vec<char> = Vec::new();
        let mut i: usize = 0;
        assert(self.elements@.skip(0) =~= self.elements@);
        assert(reading@ + settled_chars(*romaji, self.elements@.skip(0), run@) =~= settled_chars(
            *romaji,
            self.elements@,
            Seq::empty(),
        ));
        while i < self.elements.len()
            invariant
                i <= self.elements.len(),
                reading@ + settled_chars(*romaji, self.elements@.skip(i as int), run@)
                    == settled_chars(*romaji, self.elements@, Seq::empty()),
            decreases self.elements.len() - i,
        {
            let ghost rest = self.elements@.skip(i as int);
            let ghost old_run = run@;
            let ghost old_reading = reading@;
            assert(rest.skip(1) =~= self.elements@.skip(i + 1));
            assert(rest[0] == self.elements@[i as int]);
            match self.elements[i] {
                Element::Romaji(ch) => {
                    run.push(ch);
                },
                Element::Converted(ch) => {
                    let flushed = settle_run_exec(&run, romaji);
                    append_chars(&mut reading, &flushed);
                    reading.push(ch);
                    run = Vec::new();
                    assert(reading@ =~= old_reading + flushed@ + seq![ch]);
                    assert(settled_chars(*romaji, rest, old_run) == settle_run(*romaji, old_run)
                        + seq![ch] + settled_chars(*romaji, rest.skip(1), Seq::empty()));
                    assert(run@ =~= Seq::<char>::empty());
                    assert(reading@ + settled_chars(*romaji, self.elements@.skip(i + 1), run@)
                        =~= old_reading + settled_chars(*romaji, rest, old_run));
                },
            }
            i += 1;
        }
        assert(self.elements@.skip(self.elements.len() as int).len() == 0);
        let flushed = settle_run_exec(&run, romaji);
        append_chars(&mut reading, &flushed);
        string_of(&reading)
    }

    /// Settle every Romaji keystroke in place (`ltu` becomes っ; unmatched
    /// consonants pass through literally). The caret keeps its distance
    /// from the end, so an end-of-composition caret stays at the end.
    pub fn settle_romaji(&mut self, romaji: &RomajiConverter)
        requires
            old(self).wf(),
        ensures
            final(self).wf(),
            final(self)@ == spec_settle(*romaji, old(self)@),
    {
        let mut any = false;
        let mut k: usize = 0;
        while k < self.elements.len()
            invariant
                k <= self.elements.len(),
                any == (exists|j: int| 0 <= j < k && el_romaji(#[trigger] self.elements@[j])),
            decreases self.elements.len() - k,
        {
            if self.elements[k].is_romaji() {
                any = true;
            }
            k += 1;
        }
        if !any {
            return;
        }
        let from_end = self.elements.len() - self.cursor;
        let mut out: Vec<Element> = Vec::new();
        let mut run: Vec<char> = Vec::new();
        let mut i: usize = 0;
        assert(self.elements@.skip(0) =~= self.elements@);
        assert(out@ + settled_elements(*romaji, self.elements@.skip(0), run@) =~= settled_elements(
            *romaji,
            self.elements@,
            Seq::empty(),
        ));
        while i < self.elements.len()
            invariant
                i <= self.elements.len(),
                out@ + settled_elements(*romaji, self.elements@.skip(i as int), run@)
                    == settled_elements(*romaji, self.elements@, Seq::empty()),
            decreases self.elements.len() - i,
        {
            let ghost rest = self.elements@.skip(i as int);
            let ghost old_run = run@;
            let ghost old_out = out@;
            assert(rest.skip(1) =~= self.elements@.skip(i + 1));
            assert(rest[0] == self.elements@[i as int]);
            match self.elements[i] {
                Element::Romaji(ch) => {
                    run.push(ch);
                },
                Element::Converted(ch) => {
                    let flushed = settle_run_exec(&run, romaji);
                    append_settled(&mut out, &flushed);
                    out.push(Element::Converted(ch));
                    run = Vec::new();
                    assert(out@ =~= old_out + as_settled(flushed@) + seq![Element::Converted(ch)]);
                    assert(run@ =~= Seq::<char>::empty());
                    assert(out@ + settled_elements(*romaji, self.elements@.skip(i + 1), run@)
                        =~= old_out + settled_elements(*romaji, rest, old_run));
                },
            }
            i += 1;
        }
        assert(self.elements@.skip(self.elements.len() as int).len() == 0);
        let flushed = settle_run_exec(&run, romaji);
        append_settled(&mut out, &flushed);
        let n = out.len();
        self.elements = out;
        self.cursor = if n >= from_end {
            n - from_end
        } else {
            0
        };
    }

    /// Turn every settled element into katakana for good (live keystrokes
    /// stay as typed). Used when leaving katakana mode so the preedit does
    /// not revert.
    pub fn bake_katakana(&mut self)
        ensures
            final(self)@.0 == old(self)@.0.map_values(|e: Element| bake(e)),
            final(self)@.1 == old(self)@.1,
    {
        let ghost before = self.elements@;
        let ghost caret = self.cursor;
        let mut i: usize = 0;
        while i < self.elements.len()
            invariant
                i <= self.elements.len(),
                self.cursor == caret,
                self.elements@.len() == before.len(),
                forall|j: int| 0 <= j < i ==> self.elements@[j] == bake(before[j]),
                forall|j: int| i <= j < before.len() ==> self.elements@[j] == before[j],
            decreases self.elements.len() - i,
        {
            match self.elements[i] {
                Element::Converted(ch) => {
                    self.elements.set(i, Element::Converted(kata_char(ch)));
                },
                Element::Romaji(_) => {},
            }
            i += 1;
        }
        assert(self.elements@ =~= before.map_values(|e: Element| bake(e)));
    }

    /// Move the caret to a display position, clamped to the end.
    pub fn set_cursor(&mut self, pos: usize)
        ensures
            final(self).wf(),
            final(self)@.0 == old(self)@.0,
            final(self)@.1 == if pos <= old(self)@.0.len() {
                pos as int
            } else {
                old(self)@.0.len() as int
            },
    {
        let n = self.elements.len();
        self.cursor = if pos <= n {
            pos
        } else {
            n
        };
    }

    /// The caret, as a display position (equally an element index).
    pub fn cursor(&self) -> (r: usize)
        ensures
            r == self@.1,
    {
        self.cursor
    }

    /// The whole composition as displayed.
    pub fn display(&self) -> (r: String)
        ensures
            r@ == spec_display(self@),
    {
        let cs = show_range(&self.elements, 0, self.elements.len());
        assert(self.elements@.subrange(0, self.elements@.len() as int) =~= self.elements@);
        string_of(&cs)
    }

    /// Number of displayed characters.
    pub fn char_count(&self) -> (r: usize)
        ensures
            r == self@.0.len(),
    {
        self.elements.len()
    }

    /// Keystrokes of the active run: the maximal Romaji run ending at the
    /// caret, shown as the romaji tail.
    pub fn pending(&self) -> (r: String)
        requires
            self.wf(),
        ensures
            r@ == spec_pending(self@),
    {
        let s = self.find_run_start(self.cursor);
        proof {
            lemma_run_start(self.elements@, self.cursor as int);
        }
        string_of(&show_range(&self.elements, s, self.cursor))
    }

    /// The conversion reading: everything except the active run. A
    /// keystroke stranded away from the caret counts as a literal
    /// character at its position.
    pub fn reading(&self) -> (r: String)
        requires
            self.wf(),
        ensures
            r@ == spec_reading(self@),
    {
        let s = self.find_run_start(self.cursor);
        proof {
            lemma_run_start(self.elements@, self.cursor as int);
        }
        let mut head = show_range(&self.elements, 0, s);
        let tail = show_range(&self.elements, self.cursor, self.elements.len());
        append_chars(&mut head, &tail);
        assert(self.elements@.subrange(0, s as int) =~= self.elements@.take(s as int));
        assert(self.elements@.subrange(self.cursor as int, self.elements@.len() as int)
            =~= self.elements@.skip(self.cursor as int));
        string_of(&head)
    }

    /// The caret's position within the reading: the caret less the active
    /// run, which sits just before it.
    pub fn reading_cursor(&self) -> (r: usize)
        requires
            self.wf(),
        ensures
            r == active_start(self@),
    {
        let s = self.find_run_start(self.cursor);
        proof {
            lemma_run_start(self.elements@, self.cursor as int);
        }
        self.cursor - (self.cursor - s)
    }
}

/// What a sequence of elements shows splits over concatenation.
pub proof fn lemma_show_concat(a: Seq<Element>, b: Seq<Element>)
    ensures
        show(a + b) == show(a) + show(b),
{
    assert(show(a + b) =~= show(a) + show(b));
}

/// The display is the reading with the pending keystrokes put back at the
/// reading caret.
pub proof fn lemma_display_is_reading_with_pending(b: (Seq<Element>, int))
    requires
        0 <= b.1 <= b.0.len(),
    ensures
        spec_display(b) == spec_reading(b).take(active_start(b)) + spec_pending(b)
            + spec_reading(b).skip(active_start(b)),
{
    let els = b.0;
    let s = active_start(b);
    lemma_run_start(els, b.1);
    assert(els =~= els.take(s) + els.subrange(s, b.1) + els.skip(b.1));
    lemma_show_concat(els.take(s) + els.subrange(s, b.1), els.skip(b.1));
    lemma_show_concat(els.take(s), els.subrange(s, b.1));
    lemma_show_concat(els.take(s), els.skip(b.1));
    assert(spec_reading(b).take(s) =~= show(els.take(s)));
    assert(spec_reading(b).skip(s) =~= show(els.skip(b.1)));
}

/// Settling in place shows exactly the reading as it would settle.
pub proof fn lemma_settled_elements_show(conv: RomajiConverter, els: Seq<Element>, run: Seq<char>)
    ensures
        show(settled_elements(conv, els, run)) == settled_chars(conv, els, run),
    decreases els.len(),
{
    if els.len() == 0 {
        assert(show(as_settled(settle_run(conv, run))) =~= settle_run(conv, run));
    } else {
        match els[0] {
            Element::Romaji(c) => {
                lemma_settled_elements_show(conv, els.skip(1), run.push(c));
            },
            Element::Converted(c) => {
                lemma_settled_elements_show(conv, els.skip(1), Seq::empty());
                let head = as_settled(settle_run(conv, run)) + seq![Element::Converted(c)];
                lemma_show_concat(head, settled_elements(conv, els.skip(1), Seq::empty()));
                assert(show(head) =~= settle_run(conv, run) + seq![c]);
            },
        }
    }
}

/// Settling leaves no live keystroke behind.
pub proof fn lemma_settled_elements_settled(conv: RomajiConverter, els: Seq<Element>, run: Seq<char>)
    ensures
        !has_romaji(settled_elements(conv, els, run)),
    decreases els.len(),
{
    if els.len() == 0 {
    } else {
        match els[0] {
            Element::Romaji(c) => {
                lemma_settled_elements_settled(conv, els.skip(1), run.push(c));
            },
            Element::Converted(c) => {
                lemma_settled_elements_settled(conv, els.skip(1), Seq::empty());
                let head = as_settled(settle_run(conv, run)) + seq![Element::Converted(c)];
                let tail = settled_elements(conv, els.skip(1), Seq::empty());
                assert forall|k: int| 0 <= k < (head + tail).len() implies !el_romaji(
                    #[trigger] (head + tail)[k],
                ) by {
                    if k >= head.len() {
                        assert((head + tail)[k] == tail[k - head.len()]);
                    }
                }
            },
        }
    }
}

/// A record with no live keystroke settles to what it shows.
pub proof fn lemma_settled_chars_plain(conv: RomajiConverter, els: Seq<Element>)
    requires
        !has_romaji(els),
    ensures
        settled_chars(conv, els, Seq::empty()) == show(els),
    decreases els.len(),
{
    if els.len() > 0 {
        assert(!el_romaji(els[0]));
        assert(!has_romaji(els.skip(1))) by {
            if has_romaji(els.skip(1)) {
                let k = choose|k: int| 0 <= k < els.skip(1).len() && el_romaji(#[trigger] els.skip(1)[k]);
                assert(el_romaji(els[k + 1]));
            }
        }
        lemma_settled_chars_plain(conv, els.skip(1));
        assert(settle_run(conv, Seq::empty()) =~= Seq::<char>::empty());
        assert(els =~= seq![els[0]] + els.skip(1));
        lemma_show_concat(seq![els[0]], els.skip(1));
        assert(show(seq![els[0]]) =~= seq![el_ch(els[0])]);
    }
}

/// Settling in place and reading the settled form agree: after
/// `settle_romaji` the display is what `settled_reading` gave before, and
/// no live keystroke is left.
pub proof fn lemma_settle_matches_settled_reading(conv: RomajiConverter, b: (Seq<Element>, int))
    ensures
        spec_display(spec_settle(conv, b)) == settled_chars(conv, b.0, Seq::empty()),
        !has_romaji(spec_settle(conv, b).0),
{
    if has_romaji(b.0) {
        lemma_settled_elements_show(conv, b.0, Seq::empty());
        lemma_settled_elements_settled(conv, b.0, Seq::empty());
    } else {
        lemma_settled_chars_plain(conv, b.0);
    }
}

} // verus!
