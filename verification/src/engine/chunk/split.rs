//! Where the chunk boundaries are, token by token: every character is
//! classified into a [`Token`], and [`group_chunks`] packs the tokens into
//! chunks in one walk. Everything a rule needs is counted off the chunk
//! being built, so there is no running tally to keep in step with it.

use vstd::prelude::*;

use crate::engine::chunk::{
    contains_usize, is_boundary, is_japanese, joined, lemma_boundary_end, lemma_boundary_push,
    lemma_boundary_take, lemma_joined_push, spec_is_japanese,
};
use crate::kana::{is_digit, spec_is_digit};
use crate::text::{chars_of, is_alphabetic, string_of, strs, unicode_alphabetic};

verus! {

/// Per-chunk limits, taken from the engine configuration.
#[derive(Debug, Clone, Copy)]
pub struct ChunkLimits {
    /// Hard cap on a chunk's length in chars.
    pub chars: usize,
    /// Marks a chunk holding Japanese may keep.
    pub symbols: usize,
    /// Digits a chunk holding Japanese may keep.
    pub digits: usize,
    /// Alphabet chars a chunk holding Japanese may keep.
    pub alphabets: usize,
}

/// One character, classified. Only Japanese is converted; the rest passes
/// through as typed.
#[derive(Debug, Clone, Copy, PartialEq, Eq, Structural)]
pub enum Token {
    /// Hiragana, katakana, kanji: the only text the model sees.
    Japanese(char),
    Digit(char),
    /// Punctuation and every other mark.
    Symbol(char),
    Alphabet(char),
}

/// How a character is classified.
pub open spec fn token_of(c: char) -> Token {
    if spec_is_japanese(c) {
        Token::Japanese(c)
    } else if spec_is_digit(c) {
        Token::Digit(c)
    } else if unicode_alphabetic(c) {
        Token::Alphabet(c)
    } else {
        Token::Symbol(c)
    }
}

/// The character a token stands for.
pub open spec fn tok_ch(t: Token) -> char {
    match t {
        Token::Japanese(c) => c,
        Token::Digit(c) => c,
        Token::Symbol(c) => c,
        Token::Alphabet(c) => c,
    }
}

/// Which of the four kinds a token is.
pub open spec fn kind(t: Token) -> int {
    match t {
        Token::Japanese(_) => 0,
        Token::Digit(_) => 1,
        Token::Symbol(_) => 2,
        Token::Alphabet(_) => 3,
    }
}

/// How many of this kind a chunk holding Japanese may keep; Japanese itself
/// has no budget.
pub open spec fn budget(t: Token, limits: ChunkLimits) -> Option<usize> {
    match t {
        Token::Japanese(_) => None,
        Token::Symbol(_) => Some(limits.symbols),
        Token::Digit(_) => Some(limits.digits),
        Token::Alphabet(_) => Some(limits.alphabets),
    }
}

/// Whether the chunk holds Japanese.
pub open spec fn has_japanese(chunk: Seq<Token>) -> bool {
    exists|k: int| 0 <= k < chunk.len() && #[trigger] kind(chunk[k]) == 0
}

/// How many tokens of kind `k` the chunk holds.
pub open spec fn count_kind(chunk: Seq<Token>, k: int) -> int
    decreases chunk.len(),
{
    if chunk.len() == 0 {
        0
    } else {
        count_kind(chunk.drop_last(), k) + if kind(chunk.last()) == k {
            1int
        } else {
            0int
        }
    }
}

/// Whether `token` still fits the chunk being built.
pub open spec fn fits(token: Token, chunk: Seq<Token>, limits: ChunkLimits) -> bool {
    if chunk.len() >= limits.chars {
        false
    } else {
        match budget(token, limits) {
            None => has_japanese(chunk),
            Some(b) => !has_japanese(chunk) || count_kind(chunk, kind(token)) < b,
        }
    }
}

/// The characters a run of tokens stands for.
pub open spec fn token_chars(ts: Seq<Token>) -> Seq<char> {
    ts.map_values(|t: Token| tok_ch(t))
}

/// Splitting state after a prefix: finished chunks, the chunk being built,
/// and how many manual breaks have been passed.
pub type SplitState = (Seq<Seq<char>>, Seq<Token>, int);

/// One character of the walk.
pub open spec fn split_step(
    chars: Seq<char>,
    limits: ChunkLimits,
    breaks: Seq<usize>,
    st: SplitState,
    pos: int,
) -> SplitState {
    let token = token_of(chars[pos]);
    let at_break = st.2 < breaks.len() && breaks[st.2] == pos;
    let bi = if at_break {
        st.2 + 1
    } else {
        st.2
    };
    if st.1.len() > 0 && (at_break || !fits(token, st.1, limits)) {
        (st.0.push(token_chars(st.1)), seq![token], bi)
    } else {
        (st.0, st.1.push(token), bi)
    }
}

/// The state after the first `n` characters.
pub open spec fn split_state(chars: Seq<char>, limits: ChunkLimits, breaks: Seq<usize>, n: int) -> SplitState
    decreases n,
{
    if n <= 0 {
        (Seq::empty(), Seq::empty(), 0)
    } else {
        split_step(chars, limits, breaks, split_state(chars, limits, breaks, n - 1), n - 1)
    }
}

/// The chunk readings of `chars`.
pub open spec fn spec_group_chunks(chars: Seq<char>, limits: ChunkLimits, breaks: Seq<usize>) -> Seq<
    Seq<char>,
> {
    let st = split_state(chars, limits, breaks, chars.len() as int);
    if st.1.len() > 0 {
        st.0.push(token_chars(st.1))
    } else {
        st.0
    }
}

impl Token {
    /// Classify a character.
    pub fn from_char(c: char) -> (t: Token)
        ensures
            t == token_of(c),
    {
        if is_japanese(c) {
            Token::Japanese(c)
        } else if is_digit(c) {
            Token::Digit(c)
        } else if is_alphabetic(c) {
            Token::Alphabet(c)
        } else {
            Token::Symbol(c)
        }
    }

    /// The character it stands for.
    pub fn ch(self) -> (c: char)
        ensures
            c == tok_ch(self),
    {
        match self {
            Token::Japanese(c) => c,
            Token::Digit(c) => c,
            Token::Symbol(c) => c,
            Token::Alphabet(c) => c,
        }
    }

    fn kind_exec(self) -> (k: u8)
        ensures
            k as int == kind(self),
    {
        match self {
            Token::Japanese(_) => 0,
            Token::Digit(_) => 1,
            Token::Symbol(_) => 2,
            Token::Alphabet(_) => 3,
        }
    }

    fn budget_exec(self, limits: ChunkLimits) -> (b: Option<usize>)
        ensures
            b == budget(self, limits),
    {
        match self {
            Token::Japanese(_) => None,
            Token::Symbol(_) => Some(limits.symbols),
            Token::Digit(_) => Some(limits.digits),
            Token::Alphabet(_) => Some(limits.alphabets),
        }
    }
}

fn fits_exec(token: Token, chunk: &Vec<Token>, limits: ChunkLimits) -> (r: bool)
    ensures
        r == fits(token, chunk@, limits),
{
    if chunk.len() >= limits.chars {
        return false;
    }
    let mut hj = false;
    let mut same: usize = 0;
    let k = token.kind_exec();
    let mut i: usize = 0;
    while i < chunk.len()
        invariant
            i <= chunk.len(),
            k as int == kind(token),
            same <= i,
            same == count_kind(chunk@.take(i as int), k as int),
            hj == (exists|j: int| 0 <= j < i && #[trigger] kind(chunk@[j]) == 0),
        decreases chunk.len() - i,
    {
        assert(chunk@.take(i + 1).drop_last() =~= chunk@.take(i as int));
        let kj = chunk[i].kind_exec();
        if kj == 0 {
            hj = true;
        }
        if kj == k {
            same += 1;
        }
        i += 1;
    }
    assert(chunk@.take(chunk.len() as int) =~= chunk@);
    match token.budget_exec(limits) {
        None => hj,
        Some(b) => !hj || same < b,
    }
}

fn chunk_string(chunk: &Vec<Token>) -> (s: String)
    ensures
        s@ == token_chars(chunk@),
{
    let mut cs: Vec<char> = Vec::new();
    let mut i: usize = 0;
    while i < chunk.len()
        invariant
            i <= chunk.len(),
            cs@.len() == i,
            forall|j: int| 0 <= j < i ==> cs@[j] == tok_ch(chunk@[j]),
        decreases chunk.len() - i,
    {
        let c = chunk[i].ch();
        cs.push(c);
        i += 1;
    }
    assert(cs@ =~= token_chars(chunk@));
    string_of(&cs)
}

/// Split `chars` into the chunk readings: each token goes into the chunk
/// being built, or ends it and starts the next one. `breaks` are the
/// manual boundaries, sorted, so the next one is always the one not yet
/// passed.
pub fn group_chunks(chars: &[char], limits: ChunkLimits, breaks: &[usize]) -> (r: Vec<String>)
    ensures
        strs(r@) == spec_group_chunks(chars@, limits, breaks@),
{
    let ghost cs = chars@;
    let mut out: Vec<String> = Vec::new();
    let mut chunk: Vec<Token> = Vec::new();
    let mut bi: usize = 0;
    let mut pos: usize = 0;
    assert(strs(out@) =~= Seq::<Seq<char>>::empty());
    assert(chunk@ =~= Seq::<Token>::empty());
    while pos < chars.len()
        invariant
            cs == chars@,
            pos <= chars.len(),
            bi <= breaks.len(),
            (strs(out@), chunk@, bi as int) == split_state(cs, limits, breaks@, pos as int),
        decreases chars.len() - pos,
    {
        let token = Token::from_char(chars[pos]);
        let at_break = bi < breaks.len() && breaks[bi] == pos;
        if at_break {
            bi += 1;
        }
        if chunk.len() > 0 && (at_break || !fits_exec(token, &chunk, limits)) {
            let s = chunk_string(&chunk);
            let ghost before = out@;
            out.push(s);
            assert(strs(out@) =~= strs(before).push(token_chars(chunk@)));
            chunk = Vec::new();
            chunk.push(token);
            assert(chunk@ =~= seq![token]);
        } else {
            chunk.push(token);
        }
        pos += 1;
    }
    if chunk.len() > 0 {
        let s = chunk_string(&chunk);
        let ghost before = out@;
        out.push(s);
        assert(strs(out@) =~= strs(before).push(token_chars(chunk@)));
    }
    out
}

/// Manual breaks as the engine keeps them: sorted, no position twice.
pub open spec fn strictly_sorted(s: Seq<usize>) -> bool {
    forall|i: int, j: int| 0 <= i < j < s.len() ==> s[i] < s[j]
}

/// The larger of the length cap and one: a chunk never holds more.
pub open spec fn cap(limits: ChunkLimits) -> int {
    if limits.chars >= 1 {
        limits.chars as int
    } else {
        1
    }
}

proof fn lemma_token_chars_push(ts: Seq<Token>, t: Token)
    ensures
        token_chars(ts.push(t)) == token_chars(ts).push(tok_ch(t)),
{
    assert(token_chars(ts.push(t)) =~= token_chars(ts).push(tok_ch(t)));
}

/// What holds of the walk after any prefix.
proof fn lemma_split_state(chars: Seq<char>, limits: ChunkLimits, breaks: Seq<usize>, n: int)
    requires
        0 <= n <= chars.len(),
    ensures
        ({
            let st = split_state(chars, limits, breaks, n);
            &&& joined(st.0) + token_chars(st.1) == chars.take(n)
            &&& (n > 0 <==> st.1.len() > 0)
            &&& forall|k: int| 0 <= k < st.0.len() ==> #[trigger] st.0[k].len() > 0
            &&& forall|k: int| 0 <= k < st.0.len() ==> #[trigger] st.0[k].len() <= cap(limits)
            &&& st.1.len() <= cap(limits)
            &&& strictly_sorted(breaks) ==> {
                &&& 0 <= st.2 <= breaks.len()
                &&& forall|k: int| 0 <= k < st.2 ==> #[trigger] breaks[k] < n
                &&& forall|k: int| st.2 <= k < breaks.len() ==> #[trigger] breaks[k] >= n
                &&& forall|b: usize|
                    0 < b < n && #[trigger] breaks.contains(b) ==> is_boundary(st.0, b as int)
            }
        }),
    decreases n,
{
    if n > 0 {
        let pos = n - 1;
        lemma_split_state(chars, limits, breaks, pos);
        let st = split_state(chars, limits, breaks, pos);
        let st2 = split_state(chars, limits, breaks, n);
        let token = token_of(chars[pos]);
        assert(tok_ch(token) == chars[pos]);
        let at_break = st.2 < breaks.len() && breaks[st.2] == pos;
        assert(chars.take(n) =~= chars.take(pos).push(chars[pos]));
        if st.1.len() > 0 && (at_break || !fits(token, st.1, limits)) {
            lemma_joined_push(st.0, token_chars(st.1));
            assert(token_chars(seq![token]) =~= seq![chars[pos]]);
            assert(joined(st2.0) + token_chars(st2.1) =~= chars.take(n));
            assert forall|k: int| 0 <= k < st2.0.len() implies #[trigger] st2.0[k].len() > 0
                && st2.0[k].len() <= cap(limits) by {
                if k < st.0.len() {
                    assert(st2.0[k] == st.0[k]);
                }
            }
            if strictly_sorted(breaks) {
                assert forall|b: usize| 0 < b < n && #[trigger] breaks.contains(b) implies is_boundary(
                    st2.0,
                    b as int,
                ) by {
                    if b < pos {
                        lemma_boundary_push(st.0, token_chars(st.1), b as int);
                    } else {
                        lemma_boundary_end(st2.0);
                    }
                }
            }
        } else {
            lemma_token_chars_push(st.1, token);
            assert(joined(st2.0) + token_chars(st2.1) =~= chars.take(n));
            if strictly_sorted(breaks) {
                assert forall|b: usize| 0 < b < n && #[trigger] breaks.contains(b) implies is_boundary(
                    st2.0,
                    b as int,
                ) by {
                    if b == pos {
                        let idx = choose|idx: int| 0 <= idx < breaks.len() && breaks[idx] == b;
                        if idx < st.2 {
                            assert(breaks[idx] < pos);
                        } else if idx > st.2 {
                            assert(breaks[st.2] < breaks[idx]);
                            assert(breaks[st.2] >= pos);
                        }
                        assert(idx == st.2);
                        assert(at_break);
                    }
                }
            }
        }
        if strictly_sorted(breaks) {
            assert forall|k: int| st2.2 <= k < breaks.len() implies #[trigger] breaks[k] >= n by {
                if !at_break {
                    assert(breaks[st.2] >= pos);
                    if k > st.2 {
                        assert(breaks[st.2] < breaks[k]);
                    }
                } else {
                    assert(breaks[st.2] < breaks[k]);
                }
            }
        }
    }
}

/// The chunks partition the text: laid end to end they give it back, none
/// is empty, none is longer than the length cap (or one, for a cap of
/// zero), and with the manual breaks sorted, every break inside the text is
/// a boundary between two chunks.
pub proof fn lemma_split_partition(chars: Seq<char>, limits: ChunkLimits, breaks: Seq<usize>)
    ensures
        ({
            let r = spec_group_chunks(chars, limits, breaks);
            &&& joined(r) == chars
            &&& forall|k: int| 0 <= k < r.len() ==> #[trigger] r[k].len() > 0
            &&& forall|k: int| 0 <= k < r.len() ==> #[trigger] r[k].len() <= cap(limits)
            &&& strictly_sorted(breaks) ==> forall|b: usize|
                0 < b < chars.len() && #[trigger] breaks.contains(b) ==> is_boundary(r, b as int)
        }),
{
    let n = chars.len() as int;
    lemma_split_state(chars, limits, breaks, n);
    let st = split_state(chars, limits, breaks, n);
    let r = spec_group_chunks(chars, limits, breaks);
    assert(chars.take(n) =~= chars);
    if st.1.len() > 0 {
        lemma_joined_push(st.0, token_chars(st.1));
        assert forall|k: int| 0 <= k < r.len() implies #[trigger] r[k].len() > 0 && r[k].len()
            <= cap(limits) by {
            if k < st.0.len() {
                assert(r[k] == st.0[k]);
            }
        }
        if strictly_sorted(breaks) {
            assert forall|b: usize| 0 < b < n && #[trigger] breaks.contains(b) implies is_boundary(
                r,
                b as int,
            ) by {
                lemma_boundary_push(st.0, token_chars(st.1), b as int);
            }
        }
    } else {
        assert(token_chars(st.1) =~= Seq::<char>::empty());
        assert(joined(st.0) =~= chars);
    }
}

// ---------- per-kind budgets ----------

/// The budgets a chunk keeps: one that starts with something other than
/// Japanese holds no Japanese at all (it is passed through); one that
/// starts with Japanese holds at most the configured number of digits,
/// marks and letters.
pub open spec fn within_budget(ts: Seq<Token>, limits: ChunkLimits) -> bool {
    ts.len() > 0 ==> {
        &&& kind(ts[0]) != 0 ==> !has_japanese(ts)
        &&& kind(ts[0]) == 0 ==> {
            &&& count_kind(ts, 1) <= limits.digits
            &&& count_kind(ts, 2) <= limits.symbols
            &&& count_kind(ts, 3) <= limits.alphabets
        }
    }
}

/// The tokens of a chunk's characters.
pub open spec fn chunk_tokens(c: Seq<char>) -> Seq<Token> {
    c.map_values(|x: char| token_of(x))
}

/// Every token is how its own character is classified.
pub open spec fn canonical(ts: Seq<Token>) -> bool {
    forall|k: int| 0 <= k < ts.len() ==> token_of(tok_ch(#[trigger] ts[k])) == ts[k]
}

proof fn lemma_token_of_ch(c: char)
    ensures
        tok_ch(token_of(c)) == c,
{
}

proof fn lemma_count_push(ts: Seq<Token>, t: Token, k: int)
    ensures
        count_kind(ts.push(t), k) == count_kind(ts, k) + if kind(t) == k {
            1int
        } else {
            0int
        },
        has_japanese(ts.push(t)) <==> has_japanese(ts) || kind(t) == 0,
{
    assert(ts.push(t).drop_last() =~= ts);
    assert(ts.push(t).last() == t);
    if has_japanese(ts) {
        let j = choose|j: int| 0 <= j < ts.len() && #[trigger] kind(ts[j]) == 0;
        assert(ts.push(t)[j] == ts[j]);
    }
    if kind(t) == 0 {
        assert(ts.push(t)[ts.len() as int] == t);
    }
    if has_japanese(ts.push(t)) {
        let j = choose|j: int| 0 <= j < ts.push(t).len() && #[trigger] kind(ts.push(t)[j]) == 0;
        if j < ts.len() {
            assert(ts.push(t)[j] == ts[j]);
        }
    }
}

proof fn lemma_single_within(t: Token, limits: ChunkLimits)
    ensures
        within_budget(seq![t], limits),
{
    lemma_count_push(Seq::empty(), t, 1);
    lemma_count_push(Seq::empty(), t, 2);
    lemma_count_push(Seq::empty(), t, 3);
    assert(Seq::<Token>::empty().push(t) =~= seq![t]);
    assert(!has_japanese(Seq::<Token>::empty()));
}

proof fn lemma_split_budget_state(chars: Seq<char>, limits: ChunkLimits, breaks: Seq<usize>, n: int)
    requires
        0 <= n <= chars.len(),
    ensures
        ({
            let st = split_state(chars, limits, breaks, n);
            &&& canonical(st.1)
            &&& within_budget(st.1, limits)
            &&& forall|k: int| 0 <= k < st.0.len() ==> within_budget(chunk_tokens(#[trigger] st.0[k]), limits)
        }),
    decreases n,
{
    if n > 0 {
        let pos = n - 1;
        lemma_split_budget_state(chars, limits, breaks, pos);
        let st = split_state(chars, limits, breaks, pos);
        let st2 = split_state(chars, limits, breaks, n);
        let token = token_of(chars[pos]);
        lemma_token_of_ch(chars[pos]);
        assert(token_of(tok_ch(token)) == token);
        let at_break = st.2 < breaks.len() && breaks[st.2] == pos;
        if st.1.len() > 0 && (at_break || !fits(token, st.1, limits)) {
            assert(chunk_tokens(token_chars(st.1)) =~= st.1);
            lemma_single_within(token, limits);
            assert forall|k: int| 0 <= k < st2.0.len() implies within_budget(
                chunk_tokens(#[trigger] st2.0[k]),
                limits,
            ) by {
                if k < st.0.len() {
                    assert(st2.0[k] == st.0[k]);
                }
            }
        } else {
            let ts = st.1;
            let t2 = ts.push(token);
            assert(st2.1 == t2);
            if ts.len() == 0 {
                assert(t2 =~= seq![token]);
                lemma_single_within(token, limits);
            } else {
                lemma_count_push(ts, token, 1);
                lemma_count_push(ts, token, 2);
                lemma_count_push(ts, token, 3);
                assert(t2[0] == ts[0]);
                if kind(ts[0]) == 0 {
                    assert(has_japanese(ts));
                } else {
                    assert(!has_japanese(ts));
                }
            }
            assert forall|k: int| 0 <= k < t2.len() implies token_of(tok_ch(#[trigger] t2[k])) == t2[k] by {
                if k < ts.len() {
                    assert(t2[k] == ts[k]);
                }
            }
        }
    }
}

/// Every chunk keeps its budgets: a chunk that starts with something other
/// than Japanese holds no Japanese, and one that starts with Japanese holds
/// at most `limits.digits` digits, `limits.symbols` marks and
/// `limits.alphabets` letters.
pub proof fn lemma_split_budgets(chars: Seq<char>, limits: ChunkLimits, breaks: Seq<usize>)
    ensures
        forall|k: int|
            0 <= k < spec_group_chunks(chars, limits, breaks).len() ==> within_budget(
                chunk_tokens(#[trigger] spec_group_chunks(chars, limits, breaks)[k]),
                limits,
            ),
{
    let n = chars.len() as int;
    lemma_split_budget_state(chars, limits, breaks, n);
    let st = split_state(chars, limits, breaks, n);
    let r = spec_group_chunks(chars, limits, breaks);
    if st.1.len() > 0 {
        assert(chunk_tokens(token_chars(st.1)) =~= st.1);
        assert forall|k: int| 0 <= k < r.len() implies within_budget(chunk_tokens(#[trigger] r[k]), limits) by {
            if k < st.0.len() {
                assert(r[k] == st.0[k]);
            }
        }
    }
}

// ---------- the span worth converting ----------

/// Whether a chunk holds any Japanese.
pub open spec fn has_jp(c: Seq<char>) -> bool {
    exists|i: int| 0 <= i < c.len() && spec_is_japanese(#[trigger] c[i])
}

/// The walk back from chunk `k`, with `start` where chunk `k` begins and
/// `taken` characters already in the span.
pub open spec fn trailing_walk(
    chunks: Seq<Seq<char>>,
    k: int,
    start: int,
    taken: int,
    budget: int,
    breaks: Seq<usize>,
) -> int
    decreases k,
{
    if k <= 0 {
        start
    } else {
        let c = chunks[k - 1];
        if !has_jp(c) || (taken > 0 && taken + c.len() > budget) {
            start
        } else {
            let s2 = start - c.len();
            if breaks.contains(s2 as usize) {
                s2
            } else {
                trailing_walk(chunks, k - 1, s2, taken + c.len(), budget, breaks)
            }
        }
    }
}

/// Start of the trailing run of Japanese chunks that fits `budget` chars,
/// always at least the last chunk when it holds Japanese: snapped to chunk
/// boundaries, stopped by a chunk with no Japanese, and walled by a manual
/// break.
pub open spec fn spec_trailing_chunks_start(
    chars: Seq<char>,
    limits: ChunkLimits,
    breaks: Seq<usize>,
    budget: int,
) -> int {
    let r = spec_group_chunks(chars, limits, breaks);
    trailing_walk(r, r.len() as int, chars.len() as int, 0, budget, breaks)
}

fn has_japanese_str(s: &String) -> (r: bool)
    ensures
        r == has_jp(s@),
{
    let cs = chars_of(s.as_str());
    let mut i: usize = 0;
    while i < cs.len()
        invariant
            cs@ == s@,
            i <= cs.len(),
            forall|j: int| 0 <= j < i ==> !spec_is_japanese(#[trigger] cs@[j]),
        decreases cs.len() - i,
    {
        if is_japanese(cs[i]) {
            return true;
        }
        i += 1;
    }
    false
}

/// The start of the trailing span of Japanese chunks that fits `budget`
/// characters (see [`spec_trailing_chunks_start`]).
pub fn trailing_chunks_start(chars: &[char], limits: ChunkLimits, breaks: &[usize], budget: usize) -> (r: usize)
    ensures
        r as int == spec_trailing_chunks_start(chars@, limits, breaks@, budget as int),
        r <= chars.len(),
        is_boundary(spec_group_chunks(chars@, limits, breaks@), r as int),
{
    let chunks = group_chunks(chars, limits, breaks);
    let ghost cv = strs(chunks@);
    proof {
        lemma_split_partition(chars@, limits, breaks@);
        assert(cv.take(cv.len() as int) =~= cv);
    }
    let mut start = chars.len();
    let mut taken: usize = 0;
    let mut k = chunks.len();
    let mut done = false;
    while k > 0 && !done
        invariant
            cv == strs(chunks@),
            k <= chunks.len(),
            start as int == joined(cv.take(k as int)).len(),
            taken as int + start == chars.len(),
            !done ==> spec_trailing_chunks_start(chars@, limits, breaks@, budget as int)
                == trailing_walk(cv, k as int, start as int, taken as int, budget as int, breaks@),
            done ==> spec_trailing_chunks_start(chars@, limits, breaks@, budget as int) == start,
        decreases 2 * k + if done { 0int } else { 1int },
    {
        let c = &chunks[k - 1];
        assert(cv[k - 1] == c@);
        assert(cv.take(k as int).drop_last() =~= cv.take(k - 1));
        assert(cv.take(k as int).last() == cv[k - 1]);
        let n = chars_of(c.as_str()).len();
        if !has_japanese_str(c) || (taken > 0 && taken + n > budget) {
            done = true;
        } else {
            taken = taken + n;
            start = start - n;
            k -= 1;
            if contains_usize(breaks, start) {
                done = true;
            }
        }
    }
    proof {
        lemma_boundary_take(cv, k as int);
    }
    start
}

} // verus!
