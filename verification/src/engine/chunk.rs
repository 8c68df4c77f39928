//! Live-conversion chunking of the composing buffer.
//!
//! Splitting bounds each model call and freezes settled text: once a
//! boundary is behind the caret, that chunk's reading and left context stop
//! changing. This module holds the splitting rule driven by running
//! counters; [`split`] holds the token-based form of the same rules with a
//! separate alphabet budget.

use vstd::prelude::*;

use crate::kana::{is_digit, spec_is_digit};
use crate::text::{is_alphabetic, unicode_alphabetic};

pub mod split;

verus! {

/// Whether `c` is "Japanese": hiragana, katakana (with `ー`) or kanji. The
/// 中黒 `・` sits in the katakana block but counts as a separator symbol.
pub open spec fn spec_is_japanese(c: char) -> bool {
    c != '\u{30FB}' && (('\u{3040}' <= c && c <= '\u{309F}') || ('\u{30A0}' <= c && c
        <= '\u{30FF}') || ('\u{3400}' <= c && c <= '\u{9FFF}'))
}

/// Exec form of [`spec_is_japanese`].
pub fn is_japanese(c: char) -> (r: bool)
    ensures
        r == spec_is_japanese(c),
{
    if c == '\u{30FB}' {
        return false;
    }
    ('\u{3040}' <= c && c <= '\u{309F}') || ('\u{30A0}' <= c && c <= '\u{30FF}') || ('\u{3400}'
        <= c && c <= '\u{9FFF}')
}

/// The chunks laid end to end.
pub open spec fn joined(cs: Seq<Seq<char>>) -> Seq<char>
    decreases cs.len(),
{
    if cs.len() == 0 {
        Seq::empty()
    } else {
        joined(cs.drop_last()) + cs.last()
    }
}

/// Whether position `b` of the text falls between two chunks (or at an
/// end).
pub open spec fn is_boundary(cs: Seq<Seq<char>>, b: int) -> bool {
    exists|k: int| 0 <= k <= cs.len() && #[trigger] joined(cs.take(k)).len() == b
}

/// The character vectors as plain sequences.
pub open spec fn views(v: Seq<Vec<char>>) -> Seq<Seq<char>> {
    v.map_values(|x: Vec<char>| x@)
}

/// Length of the run of digits starting at `i`.
pub open spec fn digit_run(chars: Seq<char>, i: int) -> int
    decreases chars.len() - i,
{
    if 0 <= i < chars.len() && spec_is_digit(chars[i]) {
        1 + digit_run(chars, i + 1)
    } else {
        0
    }
}

/// Whether the chunk being built, holding `symbols` marks and `digits`
/// digits, can keep the character at `i` alongside its Japanese. A digit is
/// judged by the whole run it starts.
pub open spec fn keeps(
    chars: Seq<char>,
    i: int,
    symbols: int,
    digits: int,
    max_symbols: int,
    max_digits: int,
) -> bool {
    let c = chars[i];
    if spec_is_japanese(c) {
        true
    } else if spec_is_digit(c) {
        digits + digit_run(chars, i) <= max_digits
    } else if unicode_alphabetic(c) {
        false
    } else {
        symbols < max_symbols
    }
}

/// Splitting state after a prefix: finished chunks, start of the chunk
/// being built, whether it holds Japanese, and its mark and digit counts.
pub type GroupState = (Seq<Seq<char>>, int, bool, int, int);

/// Whether a new chunk opens at `i`.
pub open spec fn cuts_at(
    chars: Seq<char>,
    max: int,
    max_symbols: int,
    max_digits: int,
    breaks: Seq<usize>,
    st: GroupState,
    i: int,
) -> bool {
    let j = spec_is_japanese(chars[i]);
    i > st.1 && (breaks.contains(i as usize) || i - st.1 >= max || (j && !st.2) || (!j && st.2
        && !keeps(chars, i, st.3, st.4, max_symbols, max_digits)))
}

/// One character of the splitting walk.
pub open spec fn group_step(
    chars: Seq<char>,
    max: int,
    max_symbols: int,
    max_digits: int,
    breaks: Seq<usize>,
    st: GroupState,
    i: int,
) -> GroupState {
    let c = chars[i];
    let j = spec_is_japanese(c);
    let s = if cuts_at(chars, max, max_symbols, max_digits, breaks, st, i) {
        (st.0.push(chars.subrange(st.1, i)), i, false, 0int, 0int)
    } else {
        st
    };
    (
        s.0,
        s.1,
        s.2 || j,
        if !j && !spec_is_digit(c) {
            s.3 + 1
        } else {
            s.3
        },
        if !j && spec_is_digit(c) {
            s.4 + 1
        } else {
            s.4
        },
    )
}

/// The splitting state after the first `n` characters.
pub open spec fn group_state(
    chars: Seq<char>,
    max: int,
    max_symbols: int,
    max_digits: int,
    breaks: Seq<usize>,
    n: int,
) -> GroupState
    decreases n,
{
    if n <= 0 {
        (Seq::empty(), 0, false, 0, 0)
    } else {
        group_step(
            chars,
            max,
            max_symbols,
            max_digits,
            breaks,
            group_state(chars, max, max_symbols, max_digits, breaks, n - 1),
            n - 1,
        )
    }
}

/// The chunks of `chars`: the finished ones plus the one still being built.
pub open spec fn spec_group_chunks(
    chars: Seq<char>,
    max: int,
    max_symbols: int,
    max_digits: int,
    breaks: Seq<usize>,
) -> Seq<Seq<char>> {
    let st = group_state(chars, max, max_symbols, max_digits, breaks, chars.len() as int);
    if st.1 < chars.len() {
        st.0.push(chars.subrange(st.1, chars.len() as int))
    } else {
        st.0
    }
}

/// `chars[from..to]` as a fresh vector.
pub fn copy_range(chars: &[char], from: usize, to: usize) -> (r: Vec<char>)
    requires
        from <= to <= chars.len(),
    ensures
        r@ == chars@.subrange(from as int, to as int),
{
    let mut r: Vec<char> = Vec::new();
    let mut i = from;
    while i < to
        invariant
            from <= i <= to <= chars.len(),
            r@ == chars@.subrange(from as int, i as int),
        decreases to - i,
    {
        r.push(chars[i]);
        i += 1;
        assert(r@ =~= chars@.subrange(from as int, i as int));
    }
    r
}

/// Whether `x` occurs in `v`.
pub fn contains_usize(v: &[usize], x: usize) -> (r: bool)
    ensures
        r == v@.contains(x),
{
    let mut i: usize = 0;
    while i < v.len()
        invariant
            i <= v.len(),
            forall|k: int| 0 <= k < i ==> v@[k] != x,
        decreases v.len() - i,
    {
        if v[i] == x {
            return true;
        }
        i += 1;
    }
    false
}

fn digit_run_exec(chars: &[char], i: usize) -> (r: usize)
    requires
        i <= chars.len(),
    ensures
        r == digit_run(chars@, i as int),
        r <= chars.len() - i,
{
    proof {
        lemma_digit_run_len(chars@, i as int);
    }
    let mut n = i;
    while n < chars.len() && is_digit(chars[n])
        invariant
            i <= n <= chars.len(),
            digit_run(chars@, i as int) == (n - i) + digit_run(chars@, n as int),
        decreases chars.len() - n,
    {
        n += 1;
    }
    n - i
}

proof fn lemma_digit_run_len(chars: Seq<char>, i: int)
    requires
        0 <= i <= chars.len(),
    ensures
        0 <= digit_run(chars, i) <= chars.len() - i,
    decreases chars.len() - i,
{
    if i < chars.len() && spec_is_digit(chars[i]) {
        lemma_digit_run_len(chars, i + 1);
    }
}

/// Split `chars` into chunks. A boundary opens at every position in
/// `breaks` (manual boundaries), wherever a chunk reaches `max` chars, and
/// around non-Japanese chars, except that a chunk holding Japanese keeps
/// marks up to `max_symbols` and digits up to `max_digits`. Digits count
/// per run, so a run is kept whole or split off whole. Letters never join a
/// Japanese chunk, and a chunk with no Japanese is exempt from both caps.
pub fn group_chunks(
    chars: &[char],
    max: usize,
    max_symbols: usize,
    max_digits: usize,
    breaks: &[usize],
) -> (r: Vec<Vec<char>>)
    ensures
        views(r@) == spec_group_chunks(
            chars@,
            max as int,
            max_symbols as int,
            max_digits as int,
            breaks@,
        ),
{
    let ghost cs = chars@;
    let ghost mx = max as int;
    let ghost ms = max_symbols as int;
    let ghost md = max_digits as int;
    let mut out: Vec<Vec<char>> = Vec::new();
    let mut start: usize = 0;
    let mut has_japanese = false;
    let mut symbols: usize = 0;
    let mut digits: usize = 0;
    let mut i: usize = 0;
    assert(views(out@) =~= Seq::<Seq<char>>::empty());
    while i < chars.len()
        invariant
            cs == chars@,
            mx == max as int,
            ms == max_symbols as int,
            md == max_digits as int,
            i <= chars.len(),
            start <= i,
            symbols <= i,
            digits <= i,
            (views(out@), start as int, has_japanese, symbols as int, digits as int)
                == group_state(cs, mx, ms, md, breaks@, i as int),
        decreases chars.len() - i,
    {
        let ghost st = group_state(cs, mx, ms, md, breaks@, i as int);
        let c = chars[i];
        let japanese = is_japanese(c);
        let keeps_c = if japanese {
            true
        } else if is_digit(c) {
            let run = digit_run_exec(chars, i);
            digits + run <= max_digits
        } else if is_alphabetic(c) {
            false
        } else {
            symbols < max_symbols
        };
        let cut = i > start && (contains_usize(breaks, i) || i - start >= max || (japanese
            && !has_japanese) || (!japanese && has_japanese && !keeps_c));
        assert(cut == cuts_at(cs, mx, ms, md, breaks@, st, i as int));
        if cut {
            let piece = copy_range(chars, start, i);
            let ghost before = out@;
            out.push(piece);
            assert(views(out@) =~= views(before).push(cs.subrange(start as int, i as int)));
            start = i;
            has_japanese = false;
            symbols = 0;
            digits = 0;
        }
        has_japanese = has_japanese || japanese;
        if !japanese {
            if is_digit(c) {
                digits += 1;
            } else {
                symbols += 1;
            }
        }
        i += 1;
    }
    if start < chars.len() {
        let piece = copy_range(chars, start, chars.len());
        let ghost before = out@;
        out.push(piece);
        assert(views(out@) =~= views(before).push(cs.subrange(start as int, cs.len() as int)));
    }
    out
}

/// Laying a pushed chunk after the others.
pub proof fn lemma_joined_push(cs: Seq<Seq<char>>, x: Seq<char>)
    ensures
        joined(cs.push(x)) == joined(cs) + x,
{
    assert(cs.push(x).drop_last() =~= cs);
}

/// Boundaries of a chunk list stay boundaries when a chunk is pushed.
pub proof fn lemma_boundary_push(cs: Seq<Seq<char>>, x: Seq<char>, b: int)
    requires
        is_boundary(cs, b),
    ensures
        is_boundary(cs.push(x), b),
{
    let k = choose|k: int| 0 <= k <= cs.len() && #[trigger] joined(cs.take(k)).len() == b;
    assert(cs.push(x).take(k) =~= cs.take(k));
    assert(joined(cs.push(x).take(k)).len() == b);
}

/// The start of chunk `k` is a boundary.
pub proof fn lemma_boundary_take(cs: Seq<Seq<char>>, k: int)
    requires
        0 <= k <= cs.len(),
    ensures
        is_boundary(cs, joined(cs.take(k)).len() as int),
{
    assert(joined(cs.take(k)).len() == joined(cs.take(k)).len());
}

/// The end of the chunk list is a boundary.
pub proof fn lemma_boundary_end(cs: Seq<Seq<char>>)
    ensures
        is_boundary(cs, joined(cs).len() as int),
{
    assert(cs.take(cs.len() as int) =~= cs);
    assert(joined(cs.take(cs.len() as int)).len() == joined(cs).len());
}

/// What holds of the splitting state after any prefix.
proof fn lemma_group_state(
    chars: Seq<char>,
    mx: int,
    ms: int,
    md: int,
    breaks: Seq<usize>,
    n: int,
)
    requires
        0 <= n <= chars.len(),
    ensures
        ({
            let st = group_state(chars, mx, ms, md, breaks, n);
            &&& joined(st.0) + chars.subrange(st.1, n) == chars.take(n)
            &&& 0 <= st.1 <= n
            &&& n > 0 ==> st.1 < n
            &&& forall|k: int| 0 <= k < st.0.len() ==> #[trigger] st.0[k].len() > 0
            &&& mx >= 1 ==> (forall|k: int| 0 <= k < st.0.len() ==> #[trigger] st.0[k].len() <= mx)
            &&& mx >= 1 ==> n - st.1 <= mx
            &&& forall|b: usize|
                0 < b < n && #[trigger] breaks.contains(b) ==> is_boundary(st.0, b as int)
        }),
    decreases n,
{
    if n > 0 {
        let i = n - 1;
        lemma_group_state(chars, mx, ms, md, breaks, i);
        let st = group_state(chars, mx, ms, md, breaks, i);
        let st2 = group_state(chars, mx, ms, md, breaks, n);
        if cuts_at(chars, mx, ms, md, breaks, st, i) {
            let piece = chars.subrange(st.1, i);
            lemma_joined_push(st.0, piece);
            assert(joined(st.0) + piece == chars.take(i)) by {
                assert(chars.subrange(st.1, i) =~= piece);
            }
            assert(joined(st2.0) + chars.subrange(i, n) =~= chars.take(n));
            assert forall|k: int| 0 <= k < st2.0.len() implies #[trigger] st2.0[k].len() > 0 by {
                if k < st.0.len() {
                    assert(st2.0[k] == st.0[k]);
                }
            }
            if mx >= 1 {
                assert forall|k: int| 0 <= k < st2.0.len() implies #[trigger] st2.0[k].len()
                    <= mx by {
                    if k < st.0.len() {
                        assert(st2.0[k] == st.0[k]);
                    }
                }
            }
            assert forall|b: usize| 0 < b < n && #[trigger] breaks.contains(b) implies is_boundary(
                st2.0,
                b as int,
            ) by {
                if b < i {
                    lemma_boundary_push(st.0, piece, b as int);
                } else {
                    lemma_boundary_end(st2.0);
                }
            }
        } else {
            assert(joined(st2.0) + chars.subrange(st2.1, n) =~= chars.take(n)) by {
                assert(chars.subrange(st.1, n) =~= chars.subrange(st.1, i).push(chars[i]));
                assert(chars.take(n) =~= chars.take(i).push(chars[i]));
            }
            assert forall|b: usize| 0 < b < n && #[trigger] breaks.contains(b) implies is_boundary(
                st2.0,
                b as int,
            ) by {
                if b == i {
                    assert(cuts_at(chars, mx, ms, md, breaks, st, i));
                }
            }
        }
    }
}

/// The chunks partition the text: laid end to end they give it back, none
/// is empty, none is longer than `max` (when `max` is at least one), and
/// every manual break inside the text is a boundary between two chunks.
pub proof fn lemma_group_chunks_partition(
    chars: Seq<char>,
    max: int,
    max_symbols: int,
    max_digits: int,
    breaks: Seq<usize>,
)
    ensures
        ({
            let r = spec_group_chunks(chars, max, max_symbols, max_digits, breaks);
            &&& joined(r) == chars
            &&& forall|k: int| 0 <= k < r.len() ==> #[trigger] r[k].len() > 0
            &&& max >= 1 ==> forall|k: int| 0 <= k < r.len() ==> #[trigger] r[k].len() <= max
            &&& forall|b: usize|
                0 < b < chars.len() && #[trigger] breaks.contains(b) ==> is_boundary(r, b as int)
        }),
{
    let n = chars.len() as int;
    lemma_group_state(chars, max, max_symbols, max_digits, breaks, n);
    let st = group_state(chars, max, max_symbols, max_digits, breaks, n);
    let r = spec_group_chunks(chars, max, max_symbols, max_digits, breaks);
    assert(chars.take(n) =~= chars);
    if st.1 < n {
        let piece = chars.subrange(st.1, n);
        lemma_joined_push(st.0, piece);
        assert forall|k: int| 0 <= k < r.len() implies #[trigger] r[k].len() > 0 by {
            if k < st.0.len() {
                assert(r[k] == st.0[k]);
            }
        }
        if max >= 1 {
            assert forall|k: int| 0 <= k < r.len() implies #[trigger] r[k].len() <= max by {
                if k < st.0.len() {
                    assert(r[k] == st.0[k]);
                }
            }
        }
        assert forall|b: usize| 0 < b < n && #[trigger] breaks.contains(b) implies is_boundary(
            r,
            b as int,
        ) by {
            lemma_boundary_push(st.0, piece, b as int);
        }
    } else {
        assert(chars.subrange(st.1, n) =~= Seq::<char>::empty());
        assert(joined(st.0) =~= chars);
    }
}

// ---------- manual breaks and the caret ----------

/// Where a manual break at `b` moves when an edit at `pos` changes the
/// reading from `old_len` to `new_len` characters: breaks at or left of the
/// edit stay; those to the right move by the length change, but a deletion
/// never pulls one left of the edit point.
pub open spec fn shifted_break(b: int, pos: int, old_len: int, new_len: int) -> int {
    if b <= pos {
        b
    } else if new_len >= old_len {
        b + (new_len - old_len)
    } else {
        let moved = if b >= old_len - new_len {
            b - (old_len - new_len)
        } else {
            0
        };
        if moved >= pos {
            moved
        } else {
            pos
        }
    }
}

/// The breaks after an edit: each shifted, those off the reading (at 0 or
/// past the end) dropped, and a break equal to the one before it dropped.
pub open spec fn spec_shift_breaks(bs: Seq<usize>, pos: int, old_len: int, new_len: int) -> Seq<usize>
    decreases bs.len(),
{
    if bs.len() == 0 {
        Seq::empty()
    } else {
        let r = spec_shift_breaks(bs.drop_last(), pos, old_len, new_len);
        let x = shifted_break(bs.last() as int, pos, old_len, new_len);
        if 0 < x <= new_len && (r.len() == 0 || r.last() != x) {
            r.push(x as usize)
        } else {
            r
        }
    }
}

/// Shift the manual breaks around an edit at `pos` (see
/// [`shifted_break`]), then drop the ones off the reading and repeats.
pub fn shift_breaks(breaks: &Vec<usize>, pos: usize, old_len: usize, new_len: usize) -> (r: Vec<usize>)
    requires
        new_len >= old_len ==> forall|k: int| 0 <= k < breaks@.len() ==> breaks@[k] + (new_len - old_len) <= usize::MAX,
    ensures
        r@ == spec_shift_breaks(breaks@, pos as int, old_len as int, new_len as int),
{
    let mut out: Vec<usize> = Vec::new();
    let mut i: usize = 0;
    assert(breaks@.take(0) =~= Seq::<usize>::empty());
    while i < breaks.len()
        invariant
            i <= breaks.len(),
            new_len >= old_len ==> forall|k: int| 0 <= k < breaks@.len() ==> breaks@[k] + (new_len - old_len) <= usize::MAX,
            out@ == spec_shift_breaks(breaks@.take(i as int), pos as int, old_len as int, new_len as int),
        decreases breaks.len() - i,
    {
        let b = breaks[i];
        let x = if b <= pos {
            b
        } else if new_len >= old_len {
            b + (new_len - old_len)
        } else {
            let moved = if b >= old_len - new_len {
                b - (old_len - new_len)
            } else {
                0
            };
            if moved >= pos {
                moved
            } else {
                pos
            }
        };
        assert(breaks@.take(i + 1).drop_last() =~= breaks@.take(i as int));
        if 0 < x && x <= new_len && (out.len() == 0 || out[out.len() - 1] != x) {
            out.push(x);
        }
        i += 1;
    }
    assert(breaks@.take(breaks.len() as int) =~= breaks@);
    out
}

/// Sorted and free of repeats.
pub open spec fn increasing(s: Seq<usize>) -> bool {
    forall|i: int, j: int| 0 <= i < j < s.len() ==> s[i] < s[j]
}

/// Sorted, repeats allowed.
pub open spec fn nondecreasing(s: Seq<usize>) -> bool {
    forall|i: int, j: int| 0 <= i < j < s.len() ==> s[i] <= s[j]
}

/// Arm a manual break at the reading caret `pos`: none at the very start,
/// none where one is already armed, and the breaks stay sorted.
pub fn insert_break(breaks: &mut Vec<usize>, pos: usize)
    requires
        increasing(old(breaks)@),
    ensures
        increasing(final(breaks)@),
        forall|x: usize| #[trigger] final(breaks)@.contains(x) <==> (old(breaks)@.contains(x) || (x == pos && pos > 0)),
        (pos == 0 || old(breaks)@.contains(pos)) ==> final(breaks)@ == old(breaks)@,
        !(pos == 0 || old(breaks)@.contains(pos)) ==> final(breaks)@.len() == old(breaks)@.len() + 1,
{
    if pos == 0 {
        return;
    }
    let ghost bs = breaks@;
    let mut i: usize = 0;
    let mut done = false;
    while i < breaks.len() && !done
        invariant
            bs == breaks@,
            increasing(bs),
            i <= breaks.len(),
            forall|k: int| 0 <= k < i ==> #[trigger] bs[k] < pos,
            done ==> i < breaks.len() && breaks@[i as int] >= pos,
        decreases breaks.len() - i + (if done { 0int } else { 1int }),
    {
        if breaks[i] >= pos {
            done = true;
        } else {
            i += 1;
        }
    }
    if done && breaks[i] == pos {
        return;
    }
    proof {
        assert forall|k: int| i <= k < bs.len() implies #[trigger] bs[k] > pos by {
            if k > i {
                assert(bs[i as int] < bs[k]);
            }
        }
        assert(!bs.contains(pos));
    }
    breaks.insert(i, pos);
    proof {
        let r = breaks@;
        assert(r == bs.insert(i as int, pos));
        assert forall|a: int, b: int| 0 <= a < b < r.len() implies r[a] < r[b] by {
            if b < i {
            } else if a < i && b == i {
            } else if a < i {
                assert(r[b] == bs[b - 1]);
            } else if a == i {
                assert(r[b] == bs[b - 1]);
            } else {
                assert(r[a] == bs[a - 1] && r[b] == bs[b - 1]);
            }
        }
        assert forall|x: usize| #[trigger] r.contains(x) <==> (bs.contains(x) || (x == pos && pos > 0)) by {
            if r.contains(x) {
                let j = choose|j: int| 0 <= j < r.len() && r[j] == x;
                if j < i {
                    assert(bs[j] == x);
                } else if j > i {
                    assert(bs[j - 1] == x);
                }
            }
            if bs.contains(x) {
                let j = choose|j: int| 0 <= j < bs.len() && bs[j] == x;
                if j < i {
                    assert(r[j] == x);
                } else {
                    assert(r[j + 1] == x);
                }
            }
            if x == pos {
                assert(r[i as int] == x);
            }
        }
    }
}

/// Shifting preserves the order of breaks.
pub proof fn lemma_shifted_monotone(b1: int, b2: int, pos: int, old_len: int, new_len: int)
    requires
        b1 <= b2,
        0 <= pos,
    ensures
        shifted_break(b1, pos, old_len, new_len) <= shifted_break(b2, pos, old_len, new_len),
{
}

/// Shifting keeps the manual breaks usable: sorted breaks stay sorted and
/// become free of repeats, and every break lies inside the new reading.
pub proof fn lemma_shift_breaks_sorted(bs: Seq<usize>, pos: int, old_len: int, new_len: int)
    requires
        nondecreasing(bs),
        0 <= pos,
        0 <= new_len <= usize::MAX,
        0 <= old_len,
    ensures
        increasing(spec_shift_breaks(bs, pos, old_len, new_len)),
        forall|k: int| 0 <= k < spec_shift_breaks(bs, pos, old_len, new_len).len()
            ==> 0 < #[trigger] spec_shift_breaks(bs, pos, old_len, new_len)[k] <= new_len,
        bs.len() > 0 && spec_shift_breaks(bs, pos, old_len, new_len).len() > 0
            ==> spec_shift_breaks(bs, pos, old_len, new_len).last() <= shifted_break(bs.last() as int, pos, old_len, new_len),
    decreases bs.len(),
{
    if bs.len() > 0 {
        let init = bs.drop_last();
        assert(nondecreasing(init));
        lemma_shift_breaks_sorted(init, pos, old_len, new_len);
        let r = spec_shift_breaks(init, pos, old_len, new_len);
        let x = shifted_break(bs.last() as int, pos, old_len, new_len);
        if init.len() > 0 && r.len() > 0 {
            assert(init.last() <= bs.last());
            lemma_shifted_monotone(init.last() as int, bs.last() as int, pos, old_len, new_len);
        }
        let out = spec_shift_breaks(bs, pos, old_len, new_len);
        if 0 < x <= new_len && (r.len() == 0 || r.last() != x) {
            assert(out == r.push(x as usize));
            assert forall|i: int, j: int| 0 <= i < j < out.len() implies out[i] < out[j] by {
                if j == r.len() {
                    assert(r[i] <= r.last());
                }
            }
        }
    }
}

/// The cumulative length of the first `k` chunks.
pub open spec fn prefix_len(lengths: Seq<usize>, k: int) -> int
    decreases k,
{
    if k <= 0 {
        0
    } else {
        prefix_len(lengths, k - 1) + lengths[k - 1]
    }
}

/// The index of the first chunk ending after `pos`, from chunk `i` on;
/// `fallback` when none does.
pub open spec fn chunk_at(lengths: Seq<usize>, pos: int, i: int, fallback: int) -> int
    decreases lengths.len() - i,
{
    if i < 0 || i >= lengths.len() {
        fallback
    } else if pos < prefix_len(lengths, i + 1) {
        i
    } else {
        chunk_at(lengths, pos, i + 1, fallback)
    }
}

/// The chunk the caret is in: the one holding the character before it, or
/// the one starting at it when it sits on a manual break. Past the last
/// chunk it is the last one, or one past the end at a manual break (the
/// new chunk is still empty).
pub open spec fn spec_caret_chunk_index(lengths: Seq<usize>, cursor: int, at_break: bool) -> int {
    let pos = if at_break {
        cursor
    } else if cursor >= 1 {
        cursor - 1
    } else {
        0
    };
    let fallback = if at_break {
        lengths.len() as int
    } else if lengths.len() >= 1 {
        lengths.len() - 1
    } else {
        0
    };
    chunk_at(lengths, pos, 0, fallback)
}

/// Index of the chunk the caret is in, by walking the chunk lengths.
pub fn caret_chunk_index(lengths: &Vec<usize>, cursor: usize, at_break: bool) -> (r: usize)
    requires
        prefix_len(lengths@, lengths@.len() as int) <= usize::MAX,
    ensures
        r as int == spec_caret_chunk_index(lengths@, cursor as int, at_break),
        r <= lengths.len(),
{
    let pos = if at_break {
        cursor
    } else if cursor >= 1 {
        cursor - 1
    } else {
        0
    };
    let ghost fallback = if at_break {
        lengths.len() as int
    } else if lengths.len() >= 1 {
        lengths.len() - 1
    } else {
        0
    };
    let mut end: usize = 0;
    let mut i: usize = 0;
    proof {
        lemma_prefix_len_monotone(lengths@, 0, lengths@.len() as int);
    }
    while i < lengths.len()
        invariant
            i <= lengths.len(),
            end as int == prefix_len(lengths@, i as int),
            prefix_len(lengths@, lengths@.len() as int) <= usize::MAX,
            chunk_at(lengths@, pos as int, 0, fallback) == chunk_at(lengths@, pos as int, i as int, fallback),
            spec_caret_chunk_index(lengths@, cursor as int, at_break) == chunk_at(lengths@, pos as int, 0, fallback),
            fallback == (if at_break { lengths.len() as int } else if lengths.len() >= 1 { lengths.len() - 1 } else { 0 }),
        decreases lengths.len() - i,
    {
        proof {
            lemma_prefix_len_monotone(lengths@, i + 1, lengths@.len() as int);
        }
        end = end + lengths[i];
        assert(end as int == prefix_len(lengths@, i + 1));
        if pos < end {
            assert(chunk_at(lengths@, pos as int, i as int, fallback) == i as int);
            return i;
        }
        i += 1;
    }
    if at_break {
        lengths.len()
    } else if lengths.len() >= 1 {
        lengths.len() - 1
    } else {
        0
    }
}

/// Prefix lengths grow with the prefix.
pub proof fn lemma_prefix_len_monotone(lengths: Seq<usize>, a: int, b: int)
    requires
        0 <= a <= b <= lengths.len(),
    ensures
        prefix_len(lengths, a) <= prefix_len(lengths, b),
    decreases b - a,
{
    if a < b {
        lemma_prefix_len_monotone(lengths, a, b - 1);
    }
}

} // verus!
