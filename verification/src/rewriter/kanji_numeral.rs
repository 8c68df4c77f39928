//! Reading numerals back as numbers — kanji numerals, and digits in a base
//! up to sixteen — and the laws that the forms the rewriters offer denote
//! the values they were made from.

use vstd::prelude::*;

use crate::rewriter::number::{
    ascii_digits, big_rank, dec_value, digit_piece, digit_val, kanji_body, kanji_digit, radix_char,
    radix_digits, rank, render_segment, render_upto, seg_count, segment, segment_part,
    spec_to_kanji, trim_zeros, zero_glyph,
};

verus! {

// ---------- reading a numeral ----------

/// The value of a kanji digit, standard or daiji; -1 for anything else.
pub open spec fn numeral_digit(c: char) -> int {
    if c == '〇' || c == '零' {
        0
    } else if c == '一' || c == '壱' {
        1
    } else if c == '二' || c == '弐' {
        2
    } else if c == '三' || c == '参' {
        3
    } else if c == '四' {
        4
    } else if c == '五' {
        5
    } else if c == '六' {
        6
    } else if c == '七' {
        7
    } else if c == '八' {
        8
    } else if c == '九' {
        9
    } else {
        -1
    }
}

/// The value of a unit within a group of four digits: 十 (拾) ten, 百 a
/// hundred, 千 (阡) a thousand; 0 for anything else.
pub open spec fn small_unit(c: char) -> int {
    if c == '十' || c == '拾' {
        10
    } else if c == '百' {
        100
    } else if c == '千' || c == '阡' {
        1000
    } else {
        0
    }
}

/// The value of a myriad unit: 万 (萬) 10⁴, 億 10⁸, 兆 10¹², 京 10¹⁶,
/// 垓 10²⁰, 秭 10²⁴; 0 for anything else.
pub open spec fn big_unit(c: char) -> int {
    if c == '万' || c == '萬' {
        10000
    } else if c == '億' {
        100000000
    } else if c == '兆' {
        1000000000000
    } else if c == '京' {
        10000000000000000
    } else if c == '垓' {
        100000000000000000000
    } else if c == '秭' {
        1000000000000000000000000
    } else {
        0
    }
}

/// The reading state: the total of the finished myriad groups, the group
/// being read so far, and the digit not yet given a unit.
pub type ReadState = (int, int, int);

/// One character of a numeral read: a digit waits for its unit; a small
/// unit multiplies the waiting digit (one when none waits) into the group;
/// a myriad unit multiplies the group into the total.
pub open spec fn read_step(st: ReadState, c: char) -> ReadState {
    if numeral_digit(c) >= 0 {
        (st.0, st.1, numeral_digit(c))
    } else if small_unit(c) > 0 {
        (st.0, st.1 + (if st.2 == 0 {
            1
        } else {
            st.2
        }) * small_unit(c), 0)
    } else if big_unit(c) > 0 {
        (st.0 + (st.1 + st.2) * big_unit(c), 0, 0)
    } else {
        st
    }
}

/// The state after reading `s` from `st`, left to right.
pub open spec fn read_from(st: ReadState, s: Seq<char>) -> ReadState
    decreases s.len(),
{
    if s.len() == 0 {
        st
    } else {
        read_step(read_from(st, s.drop_last()), s.last())
    }
}

/// The number a kanji numeral denotes (`千二百三十四万五` is 12340005).
pub open spec fn kanji_value(s: Seq<char>) -> int {
    let st = read_from((0int, 0int, 0int), s);
    st.0 + st.1 + st.2
}

/// Ten to the power `e`.
pub open spec fn p10(e: nat) -> int
    decreases e,
{
    if e == 0 {
        1
    } else {
        10 * p10((e - 1) as nat)
    }
}

// ---------- arithmetic ----------

proof fn lemma_p10_pos(e: nat)
    ensures
        p10(e) >= 1,
    decreases e,
{
    if e > 0 {
        lemma_p10_pos((e - 1) as nat);
    }
}

proof fn lemma_p10_add(a: nat, b: nat)
    ensures
        p10(a + b) == p10(a) * p10(b),
    decreases b,
{
    if b > 0 {
        lemma_p10_add(a, (b - 1) as nat);
        let x = p10(a);
        let y = p10((b - 1) as nat);
        assert(p10(a + b) == 10 * p10((a + b - 1) as nat));
        assert((a + b - 1) as nat == a + (b - 1) as nat);
        assert(10 * (x * y) == x * (10 * y)) by (nonlinear_arith);
    }
}

/// `dec_value` of a prefix splits at any point: the head scaled by the
/// tail's length, plus the tail.
#[verifier::spinoff_prover]
proof fn lemma_dec_split(t: Seq<char>, e1: int, e2: int)
    requires
        0 <= e1 <= e2 <= t.len(),
    ensures
        dec_value(t.take(e2)) == dec_value(t.take(e1)) * p10((e2 - e1) as nat) + dec_value(
            t.subrange(e1, e2),
        ),
    decreases e2 - e1,
{
    if e2 == e1 {
        assert(t.subrange(e1, e2) =~= Seq::<char>::empty());
        assert(dec_value(Seq::<char>::empty()) == 0);
        assert(p10(0) == 1);
        assert(dec_value(t.take(e1)) * 1 == dec_value(t.take(e1)));
    } else {
        lemma_dec_split(t, e1, e2 - 1);
        assert(t.take(e2).drop_last() =~= t.take(e2 - 1));
        assert(t.take(e2).last() == t[e2 - 1]);
        assert(t.subrange(e1, e2).drop_last() =~= t.subrange(e1, e2 - 1));
        assert(t.subrange(e1, e2).last() == t[e2 - 1]);
        let a = dec_value(t.take(e1));
        let p = p10((e2 - 1 - e1) as nat);
        let b = dec_value(t.subrange(e1, e2 - 1));
        let d = digit_val(t[e2 - 1]);
        assert(p10((e2 - e1) as nat) == 10 * p);
        assert(dec_value(t.take(e2)) == dec_value(t.take(e2 - 1)) * 10 + d);
        assert(dec_value(t.subrange(e1, e2)) == b * 10 + d);
        assert(dec_value(t.take(e2 - 1)) == a * p + b);
        assert((a * p + b) * 10 + d == a * (10 * p) + (b * 10 + d)) by (nonlinear_arith);
    }
}

// ---------- reading concatenations ----------

proof fn lemma_read_concat(st: ReadState, a: Seq<char>, b: Seq<char>)
    ensures
        read_from(st, a + b) == read_from(read_from(st, a), b),
    decreases b.len(),
{
    if b.len() == 0 {
        assert(a + b =~= a);
    } else {
        assert((a + b).drop_last() =~= a + b.drop_last());
        assert((a + b).last() == b.last());
        lemma_read_concat(st, a, b.drop_last());
    }
}

proof fn lemma_read_one(st: ReadState, c: char)
    ensures
        read_from(st, seq![c]) == read_step(st, c),
{
    assert(seq![c].drop_last() =~= Seq::<char>::empty());
    assert(read_from(st, Seq::<char>::empty()) == st);
    assert(seq![c].last() == c);
}

// ---------- one group of four digits ----------

proof fn lemma_digit_glyph(d: int, old_kanji: bool)
    requires
        1 <= d <= 9,
    ensures
        numeral_digit(kanji_digit(d, old_kanji)) == d,
{
}

proof fn lemma_rank_unit(pos: int, old_kanji: bool)
    requires
        1 <= pos <= 3,
    ensures
        rank(pos, old_kanji).len() == 1,
        numeral_digit(rank(pos, old_kanji)[0]) < 0,
        small_unit(rank(pos, old_kanji)[0]) == p10(pos as nat),
{
    reveal_with_fuel(p10, 4);
}

/// Reading the first `k` digits of a group (all but the last carrying a
/// unit) leaves them in the group, scaled to their positions.
#[verifier::spinoff_prover]
#[verifier::rlimit(40)]
proof fn lemma_read_upto(seg: Seq<char>, k: int, old_kanji: bool, total: int)
    requires
        1 <= seg.len() <= 4,
        ascii_digits(seg),
        0 <= k <= seg.len(),
    ensures
        k < seg.len() ==> read_from((total, 0int, 0int), render_upto(seg, k, old_kanji)) == (
            total,
            dec_value(seg.take(k)) * p10((seg.len() - k) as nat),
            0int,
        ),
        k == seg.len() ==> read_from((total, 0int, 0int), render_upto(seg, k, old_kanji)) == (
            total,
            dec_value(seg.take(k - 1)) * 10,
            digit_val(seg[k - 1]),
        ),
    decreases k,
{
    let n = seg.len() as int;
    if k == 0 {
        assert(seg.take(0) =~= Seq::<char>::empty());
        assert(dec_value(Seq::<char>::empty()) == 0);
        assert(render_upto(seg, 0, old_kanji) =~= Seq::<char>::empty());
        assert(read_from((total, 0int, 0int), Seq::<char>::empty()) == (total, 0int, 0int));
    } else {
        lemma_read_upto(seg, k - 1, old_kanji, total);
        let prev = render_upto(seg, k - 1, old_kanji);
        let piece = digit_piece(seg, k - 1, old_kanji);
        assert(render_upto(seg, k, old_kanji) == prev + piece);
        lemma_read_concat((total, 0int, 0int), prev, piece);
        let st = read_from((total, 0int, 0int), prev);
        let a = dec_value(seg.take(k - 1));
        assert(st == (total, a * p10((n - k + 1) as nat), 0int));
        let d = digit_val(seg[k - 1]);
        assert('0' <= seg[k - 1] <= '9');
        assert(0 <= d <= 9);
        let pos = n - k;
        assert(seg.take(k).drop_last() =~= seg.take(k - 1));
        assert(seg.take(k).last() == seg[k - 1]);
        assert(dec_value(seg.take(k)) == a * 10 + d);
        lemma_p10_pos(pos as nat);
        if pos == 0 {
            assert(p10(1) == 10) by {
                reveal_with_fuel(p10, 2);
            }
            assert(rank(0, old_kanji) =~= Seq::<char>::empty());
            if d == 0 {
                assert(piece =~= Seq::<char>::empty());
                assert(read_from(st, piece) == st);
            } else {
                assert(piece =~= seq![kanji_digit(d, old_kanji)]);
                lemma_digit_glyph(d, old_kanji);
                lemma_read_one(st, kanji_digit(d, old_kanji));
            }
        } else {
            let p = p10(pos as nat);
            assert(p10((pos + 1) as nat) == 10 * p);
            lemma_rank_unit(pos, old_kanji);
            let u = rank(pos, old_kanji)[0];
            assert(rank(pos, old_kanji) =~= seq![u]);
            assert((a * 10 + d) * p == a * (10 * p) + d * p) by (nonlinear_arith);
            if d == 0 {
                assert(piece =~= Seq::<char>::empty());
                assert(read_from(st, piece) == st);
            } else if old_kanji || d != 1 {
                let g = kanji_digit(d, old_kanji);
                assert(piece =~= seq![g] + seq![u]);
                lemma_digit_glyph(d, old_kanji);
                lemma_read_concat(st, seq![g], seq![u]);
                lemma_read_one(st, g);
                lemma_read_one(read_step(st, g), u);
            } else {
                assert(piece =~= seq![u]);
                lemma_read_one(st, u);
            }
        }
    }
}

/// Reading a rendered group from a finished total adds nothing to the
/// total and leaves the group's value waiting.
proof fn lemma_read_group(seg: Seq<char>, old_kanji: bool, total: int)
    requires
        1 <= seg.len() <= 4,
        ascii_digits(seg),
    ensures
        read_from((total, 0int, 0int), render_segment(seg, old_kanji)).0 == total,
        read_from((total, 0int, 0int), render_segment(seg, old_kanji)).1 + read_from(
            (total, 0int, 0int),
            render_segment(seg, old_kanji),
        ).2 == dec_value(seg),
{
    let n = seg.len() as int;
    lemma_read_upto(seg, n, old_kanji, total);
    assert(seg.take(n).drop_last() =~= seg.take(n - 1));
    assert(seg.take(n) =~= seg);
    assert(seg.last() == seg[n - 1]);
}

// ---------- the whole numeral ----------

proof fn lemma_big_rank_unit(i: int, old_kanji: bool)
    requires
        1 <= i <= 6,
    ensures
        big_rank(i, old_kanji).len() == 1,
        numeral_digit(big_rank(i, old_kanji)[0]) < 0,
        small_unit(big_rank(i, old_kanji)[0]) == 0,
        big_unit(big_rank(i, old_kanji)[0]) == p10((4 * i) as nat),
{
    reveal_with_fuel(p10, 25);
}

/// The start of the first digit of segment `i`'s more significant
/// neighbours: everything before segment `i`.
pub open spec fn seg_start(t: Seq<char>, i: int) -> int {
    let end = t.len() - 4 * i;
    if end >= 4 {
        end - 4
    } else {
        0
    }
}

proof fn lemma_segment_facts(t: Seq<char>, i: int)
    requires
        ascii_digits(t),
        t.len() >= 1,
        0 <= i < seg_count(t),
    ensures
        0 <= seg_start(t, i) < t.len() - 4 * i <= t.len(),
        segment(t, i) == t.subrange(seg_start(t, i), t.len() - 4 * i),
        1 <= segment(t, i).len() <= 4,
        ascii_digits(segment(t, i)),
        i + 1 < seg_count(t) ==> seg_start(t, i) == t.len() - 4 * (i + 1),
        i + 1 == seg_count(t) ==> seg_start(t, i) == 0,
{
    let s = segment(t, i);
    assert forall|k: int| 0 <= k < s.len() implies '0' <= #[trigger] s[k] && s[k] <= '9' by {
        assert(s[k] == t[seg_start(t, i) + k]);
    }
}

/// How many of the most significant digits the first `k` segments cover.
pub open spec fn done_len(t: Seq<char>, k: int) -> int {
    let e = t.len() - 4 * (seg_count(t) - k);
    if e < 0 {
        0
    } else {
        e
    }
}

/// After the `k` most significant segments (not yet the last), the total
/// holds their value scaled past the segments still to come.
#[verifier::spinoff_prover]
#[verifier::rlimit(80)]
proof fn lemma_read_body(t: Seq<char>, k: int, old_kanji: bool)
    requires
        ascii_digits(t),
        t.len() >= 1,
        seg_count(t) <= 7,
        0 <= k < seg_count(t),
    ensures
        read_from((0int, 0int, 0int), kanji_body(t, k, old_kanji)) == (
            dec_value(t.take(done_len(t, k))) * p10((4 * (seg_count(t) - k)) as nat),
            0int,
            0int,
        ),
    decreases k,
{
    let n = seg_count(t);
    if k == 0 {
        assert(kanji_body(t, 0, old_kanji) =~= Seq::<char>::empty());
        assert(t.take(0) =~= Seq::<char>::empty());
    } else {
        lemma_read_body(t, k - 1, old_kanji);
        let i = n - k;
        lemma_segment_facts(t, i);
        let start = seg_start(t, i);
        let end = t.len() - 4 * i;
        let seg = segment(t, i);
        let prev = kanji_body(t, k - 1, old_kanji);
        let part = segment_part(t, i, old_kanji);
        assert(kanji_body(t, k, old_kanji) == prev + part);
        lemma_read_concat((0int, 0int, 0int), prev, part);
        let head = dec_value(t.take(start));
        let big = p10((4 * i + 4) as nat);
        let small = p10((4 * i) as nat);
        lemma_p10_add(4, (4 * i) as nat);
        assert(p10(4) == 10000) by {
            reveal_with_fuel(p10, 5);
        }
        assert(big == 10000 * small);
        // The total before this segment.
        assert(done_len(t, k - 1) == start);
        assert(done_len(t, k) == end);
        let st = read_from((0int, 0int, 0int), prev);
        assert(st == (head * big, 0int, 0int));
        lemma_dec_split(t, start, end);
        let sv = dec_value(seg);
        assert(dec_value(t.take(end)) == head * p10((end - start) as nat) + sv);
        if start > 0 {
            assert(end - start == 4);
        } else {
            assert(t.take(0) =~= Seq::<char>::empty());
            assert(head == 0);
        }
        lemma_read_group(seg, old_kanji, head * big);
        let body = render_segment(seg, old_kanji);
        let gs = read_from((head * big, 0int, 0int), body);
        assert(gs.1 + gs.2 == sv);
        lemma_big_rank_unit(i, old_kanji);
        if body.len() > 0 {
            let b = big_rank(i, old_kanji)[0];
            assert(big_rank(i, old_kanji) =~= seq![b]);
            assert(part == body + seq![b]);
            lemma_read_concat(st, body, seq![b]);
            lemma_read_one(gs, b);
            assert(read_from(st, part) == (head * big + sv * small, 0int, 0int));
        } else {
            assert(part =~= Seq::<char>::empty());
            assert(body =~= Seq::<char>::empty());
            assert(gs == (head * big, 0int, 0int));
            assert(sv == 0);
            assert(read_from(st, part) == st);
        }
        assert((head * 10000 + sv) * small == head * (10000 * small) + sv * small) by (
        nonlinear_arith);
        assert(4 * (n - k) == 4 * i);
        let x = dec_value(t.take(end)) * small;
        if start > 0 {
            assert(p10((end - start) as nat) == 10000);
            assert(dec_value(t.take(end)) == head * 10000 + sv);
            assert(x == head * big + sv * small);
        } else {
            assert(dec_value(t.take(end)) == sv);
            assert(x == head * big + sv * small);
        }
        assert(read_from((0int, 0int, 0int), kanji_body(t, k, old_kanji)) == read_from(st, part));
        assert(read_from(st, part).0 == x);
    }
    let r = read_from((0int, 0int, 0int), kanji_body(t, k, old_kanji));
    let x = dec_value(t.take(done_len(t, k))) * p10((4 * (seg_count(t) - k)) as nat);
    assert(r.0 == x && r.1 == 0 && r.2 == 0);
    assert(r == (x, 0int, 0int));
}

proof fn lemma_dec_trim(s: Seq<char>)
    ensures
        dec_value(trim_zeros(s)) == dec_value(s),
        ascii_digits(s) ==> ascii_digits(trim_zeros(s)),
        trim_zeros(s).len() == 0 ==> dec_value(s) == 0,
    decreases s.len(),
{
    if s.len() > 0 && s[0] == '0' {
        assert(trim_zeros(s) == trim_zeros(s.skip(1)));
        lemma_dec_trim(s.skip(1));
        lemma_dec_split(s, 1, s.len() as int);
        assert(s.take(s.len() as int) =~= s);
        assert(s.subrange(1, s.len() as int) =~= s.skip(1));
        assert(s.take(1).drop_last() =~= Seq::<char>::empty());
        assert(dec_value(Seq::<char>::empty()) == 0);
        assert(s.take(1).last() == '0');
        assert(dec_value(s.take(1)) == 0);
        if ascii_digits(s) {
            assert forall|k: int| 0 <= k < s.skip(1).len() implies '0' <= #[trigger] s.skip(1)[k]
                && s.skip(1)[k] <= '9' by {
                assert(s.skip(1)[k] == s[k + 1]);
            }
        }
    }
}

/// The kanji numeral the number rewriter offers (standard or daiji) reads
/// back as the value of the digits typed: each digit counts at its
/// position within its group of four (十 ten, 百 a hundred, 千 a
/// thousand), and each group at its myriad (万 10⁴, 億 10⁸, 兆 10¹², 京
/// 10¹⁶, 垓 10²⁰, 秭 10²⁴).
pub proof fn lemma_kanji_denotes_value(digits: Seq<char>, old_kanji: bool)
    requires
        ascii_digits(digits),
        spec_to_kanji(digits, old_kanji) is Some,
    ensures
        kanji_value(spec_to_kanji(digits, old_kanji)->0) == dec_value(digits),
{
    let t = trim_zeros(digits);
    lemma_dec_trim(digits);
    let z = zero_glyph(old_kanji);
    assert(z =~= seq![z[0]]);
    lemma_read_one((0int, 0int, 0int), z[0]);
    assert(kanji_value(z) == 0);
    if t.len() > 0 {
        let n = seg_count(t);
        assert(n <= 7);
        assert(n >= 1);
        lemma_read_body(t, n - 1, old_kanji);
        lemma_segment_facts(t, 0);
        let start = seg_start(t, 0);
        let seg = segment(t, 0);
        let prev = kanji_body(t, n - 1, old_kanji);
        let part = segment_part(t, 0, old_kanji);
        let body = kanji_body(t, n, old_kanji);
        assert(body == prev + part);
        lemma_read_concat((0int, 0int, 0int), prev, part);
        let head = dec_value(t.take(start));
        assert(done_len(t, n - 1) == start);
        assert(p10(4) == 10000) by {
            reveal_with_fuel(p10, 5);
        }
        let st = read_from((0int, 0int, 0int), prev);
        assert(st == (head * 10000, 0int, 0int));
        lemma_dec_split(t, start, t.len() as int);
        assert(t.take(t.len() as int) =~= t);
        let sv = dec_value(seg);
        lemma_read_group(seg, old_kanji, head * 10000);
        assert(big_rank(0, old_kanji) =~= Seq::<char>::empty());
        let gbody = render_segment(seg, old_kanji);
        if gbody.len() > 0 {
            assert(part =~= gbody);
        } else {
            assert(part =~= Seq::<char>::empty());
            assert(gbody =~= Seq::<char>::empty());
        }
        if start > 0 {
            assert(t.len() - start == 4);
        } else {
            assert(head == 0);
        }
        assert(kanji_value(body) == dec_value(t));
        if body.len() == 0 {
            assert(dec_value(t) == 0);
        }
    }
}

// ---------- digits in a base ----------

/// The value of a digit character: `0`–`9`, then `a`–`f` for ten to
/// fifteen; -1 for anything else.
pub open spec fn digit_char_value(c: char) -> int {
    if '0' <= c && c <= '9' {
        (c as int) - ('0' as int)
    } else if 'a' <= c && c <= 'f' {
        (c as int) - ('a' as int) + 10
    } else {
        -1
    }
}

/// The number the digits `s` denote in base `b`.
pub open spec fn base_value(s: Seq<char>, b: int) -> int
    decreases s.len(),
{
    if s.len() == 0 {
        0
    } else {
        base_value(s.drop_last(), b) * b + digit_char_value(s.last())
    }
}

/// Every character of `s` is a digit of base `b`.
pub open spec fn digits_in_base(s: Seq<char>, b: int) -> bool {
    forall|i: int| 0 <= i < s.len() ==> 0 <= #[trigger] digit_char_value(s[i]) < b
}

/// Written in base `b` (2 to 16), `n` reads back as `n`: every character
/// is a digit of the base, the first is not a superfluous zero, and the
/// digits weigh by powers of the base.
pub proof fn lemma_radix_reads_back(n: nat, b: nat)
    requires
        2 <= b <= 16,
    ensures
        base_value(radix_digits(n, b), b as int) == n,
        digits_in_base(radix_digits(n, b), b as int),
        radix_digits(n, b).len() >= 1,
        n > 0 ==> radix_digits(n, b)[0] != '0',
    decreases n,
{
    let r = radix_digits(n, b);
    if n < b {
        assert(r == seq![radix_char(n as int)]);
        assert(r.drop_last() =~= Seq::<char>::empty());
        assert(base_value(Seq::<char>::empty(), b as int) == 0);
        assert(digit_char_value(radix_char(n as int)) == n);
    } else {
        assert(n / b < n) by (nonlinear_arith)
            requires
                b >= 2,
                n >= b,
        ;
        assert(n / b >= 1) by (nonlinear_arith)
            requires
                b >= 2,
                n >= b,
        ;
        lemma_radix_reads_back(n / b, b);
        let h = radix_digits(n / b, b);
        assert(0 <= n % b < b) by (nonlinear_arith)
            requires
                b >= 2,
        ;
        let d = (n % b) as int;
        assert(r == h.push(radix_char(d)));
        assert(r.drop_last() =~= h);
        assert(digit_char_value(radix_char(d)) == d);
        assert((n / b) * b + n % b == n) by (nonlinear_arith)
            requires
                b >= 2,
        ;
        assert forall|i: int| 0 <= i < r.len() implies 0 <= #[trigger] digit_char_value(r[i]) < b by {
            if i < h.len() {
                assert(r[i] == h[i]);
            }
        }
        assert(r[0] == h[0]);
    }
}

/// Decimal digits read back in base ten as they do by [`dec_value`].
pub proof fn lemma_decimal_base_value(s: Seq<char>)
    requires
        ascii_digits(s),
    ensures
        base_value(s, 10) == dec_value(s),
    decreases s.len(),
{
    if s.len() > 0 {
        assert(ascii_digits(s.drop_last())) by {
            assert forall|i: int| 0 <= i < s.drop_last().len() implies '0' <= #[trigger] s.drop_last()[i]
                && s.drop_last()[i] <= '9' by {
                assert(s.drop_last()[i] == s[i]);
            }
        }
        lemma_decimal_base_value(s.drop_last());
        assert(s.last() == s[s.len() - 1]);
    }
}

/// `n` in decimal, zero-padded or not, reads back as `n`.
pub proof fn lemma_decimal_reads_back(n: nat, s: Seq<char>, w: nat)
    requires
        s == radix_digits(n, 10) || s == crate::rewriter::date::pad(radix_digits(n, 10), w),
    ensures
        dec_value(s) == n,
        ascii_digits(s),
{
    lemma_radix_reads_back(n, 10);
    let r = radix_digits(n, 10);
    crate::rewriter::number::lemma_decimal_digits(n);
    lemma_decimal_base_value(r);
    if s != r {
        let z = (w - r.len()) as nat;
        assert(r.len() < w);
        let zeros = Seq::new(z, |i: int| '0');
        assert(s == zeros + r);
        lemma_dec_split(s, z as int, s.len() as int);
        assert(s.subrange(z as int, s.len() as int) =~= r);
        assert(s.take(s.len() as int) =~= s);
        lemma_zeros_value(zeros);
        assert(s.take(z as int) =~= zeros);
        assert forall|i: int| 0 <= i < s.len() implies '0' <= #[trigger] s[i] && s[i] <= '9' by {
            if i >= z {
                assert(s[i] == r[i - z]);
            }
        }
    }
}

proof fn lemma_zeros_value(z: Seq<char>)
    requires
        forall|i: int| 0 <= i < z.len() ==> #[trigger] z[i] == '0',
    ensures
        dec_value(z) == 0,
    decreases z.len(),
{
    if z.len() > 0 {
        lemma_zeros_value(z.drop_last());
        assert(z.last() == z[z.len() - 1]);
    }
}

} // verus!
