//! Number rewriter: a candidate of decimal digits, half- or full-width,
//! expands into related styles: the width pair (`123` / `１２３`), kanji
//! (`百二十三`), daiji (`壱百弐拾参`), roman (`Ⅰ`–`Ⅻ`, `ⅰ`–`ⅻ`), circled
//! (`⓪`–`㊿`) and radix (`0x…`, `0…`, `0b…`), each with its description.
//! Mixed text like `20世紀` is left alone.

use vstd::prelude::*;

use crate::kana::{ascii_to_fullwidth_char, fullwidth_to_ascii_char, spec_to_ascii, spec_to_fullwidth};
use crate::rewriter::{
    add_variant, has_text, is_decimal, is_pure_digit, lemma_add_variant_keeps, outs_view, push_variant, spec_pure_digit,
    well_offered, OutView, RewriteOutput, Rewriter,
};
use crate::text::{char_from_u32, chars_of, string_of};

verus! {

// ---------- digits and values ----------

/// The value of an ASCII digit.
pub open spec fn digit_val(c: char) -> int {
    (c as int) - 48
}

/// The value of a string of ASCII digits.
pub open spec fn dec_value(s: Seq<char>) -> int
    decreases s.len(),
{
    if s.len() == 0 {
        0
    } else {
        dec_value(s.drop_last()) * 10 + digit_val(s.last())
    }
}

/// Only ASCII digits.
pub open spec fn ascii_digits(s: Seq<char>) -> bool {
    forall|i: int| 0 <= i < s.len() ==> '0' <= #[trigger] s[i] && s[i] <= '9'
}

/// The digits without their leading zeros.
pub open spec fn trim_zeros(s: Seq<char>) -> Seq<char>
    decreases s.len(),
{
    if s.len() > 0 && s[0] == '0' {
        trim_zeros(s.skip(1))
    } else {
        s
    }
}

// ---------- kanji rendering ----------

/// The kanji for digit `d`, standard or daiji (`一` / `壱`).
pub open spec fn kanji_digit(d: int, old_kanji: bool) -> char {
    if old_kanji {
        if d == 1 { '壱' } else if d == 2 { '弐' } else if d == 3 { '参' } else { std_digit(d) }
    } else {
        std_digit(d)
    }
}

/// The standard kanji for digit `d`.
pub open spec fn std_digit(d: int) -> char {
    if d == 1 { '一' } else if d == 2 { '二' } else if d == 3 { '三' } else if d == 4 { '四' }
    else if d == 5 { '五' } else if d == 6 { '六' } else if d == 7 { '七' } else if d == 8 { '八' }
    else if d == 9 { '九' } else { '〇' }
}

/// The rank suffix for position `pos` of a four-digit segment.
pub open spec fn rank(pos: int, old_kanji: bool) -> Seq<char> {
    if pos == 1 {
        if old_kanji { seq!['拾'] } else { seq!['十'] }
    } else if pos == 2 {
        seq!['百']
    } else if pos == 3 {
        if old_kanji { seq!['阡'] } else { seq!['千'] }
    } else {
        Seq::empty()
    }
}

/// The suffix after segment `i` counted from the least significant (万,
/// 億, 兆, 京, 垓, 秭).
pub open spec fn big_rank(i: int, old_kanji: bool) -> Seq<char> {
    if i == 1 {
        if old_kanji { seq!['萬'] } else { seq!['万'] }
    } else if i == 2 {
        seq!['億']
    } else if i == 3 {
        seq!['兆']
    } else if i == 4 {
        seq!['京']
    } else if i == 5 {
        seq!['垓']
    } else if i == 6 {
        seq!['秭']
    } else {
        Seq::empty()
    }
}

/// The glyph for an all-zero number (`〇` / `零`).
pub open spec fn zero_glyph(old_kanji: bool) -> Seq<char> {
    if old_kanji { seq!['零'] } else { seq!['〇'] }
}

/// The kanji for the `i`th digit of a segment: nothing for 0; the digit
/// and its rank otherwise, where standard style drops a leading `一`
/// before 十百千.
pub open spec fn digit_piece(seg: Seq<char>, i: int, old_kanji: bool) -> Seq<char> {
    let d = digit_val(seg[i]);
    let pos = seg.len() - 1 - i;
    if d == 0 {
        Seq::empty()
    } else if old_kanji || pos == 0 || d != 1 {
        seq![kanji_digit(d, old_kanji)] + rank(pos, old_kanji)
    } else {
        rank(pos, old_kanji)
    }
}

/// The first `k` digits of a segment rendered.
pub open spec fn render_upto(seg: Seq<char>, k: int, old_kanji: bool) -> Seq<char>
    decreases k,
{
    if k <= 0 {
        Seq::empty()
    } else {
        render_upto(seg, k - 1, old_kanji) + digit_piece(seg, k - 1, old_kanji)
    }
}

/// One segment (at most four digits) as positional kanji: `1234` is
/// `千二百三十四`.
pub open spec fn render_segment(seg: Seq<char>, old_kanji: bool) -> Seq<char> {
    render_upto(seg, seg.len() as int, old_kanji)
}

/// How many four-digit segments `t` has.
pub open spec fn seg_count(t: Seq<char>) -> int {
    (t.len() as int + 3) / 4
}

/// Segment `i` of `t`, counted from the least significant.
pub open spec fn segment(t: Seq<char>, i: int) -> Seq<char> {
    let end = t.len() - 4 * i;
    let start = if end >= 4 { end - 4 } else { 0 };
    t.subrange(start, end)
}

/// A rendered segment with its big-rank suffix; nothing for an all-zero
/// segment.
pub open spec fn segment_part(t: Seq<char>, i: int, old_kanji: bool) -> Seq<char> {
    let body = render_segment(segment(t, i), old_kanji);
    if body.len() > 0 {
        body + big_rank(i, old_kanji)
    } else {
        Seq::empty()
    }
}

/// The `k` most significant segments rendered, most significant first.
pub open spec fn kanji_body(t: Seq<char>, k: int, old_kanji: bool) -> Seq<char>
    decreases k,
{
    if k <= 0 {
        Seq::empty()
    } else {
        kanji_body(t, k - 1, old_kanji) + segment_part(t, seg_count(t) - k, old_kanji)
    }
}

/// The kanji form of a digit string; `None` past the largest big rank.
pub open spec fn spec_to_kanji(digits: Seq<char>, old_kanji: bool) -> Option<Seq<char>> {
    let t = trim_zeros(digits);
    if t.len() == 0 {
        Some(zero_glyph(old_kanji))
    } else if seg_count(t) > 7 {
        None
    } else {
        let body = kanji_body(t, seg_count(t), old_kanji);
        Some(if body.len() == 0 { zero_glyph(old_kanji) } else { body })
    }
}

// ---------- value-indexed glyphs ----------

/// The capital roman numeral for 1 to 12.
pub open spec fn roman_capital(n: int) -> Option<char> {
    if 1 <= n <= 12 { Some((0x215F + n) as char) } else { None }
}

/// The small roman numeral for 1 to 12.
pub open spec fn roman_small(n: int) -> Option<char> {
    if 1 <= n <= 12 { Some((0x216F + n) as char) } else { None }
}

/// The circled number for 0 to 50.
pub open spec fn circled(n: int) -> Option<char> {
    if n == 0 {
        Some('\u{24EA}')
    } else if 1 <= n <= 20 {
        Some((0x245F + n) as char)
    } else if 21 <= n <= 35 {
        Some((0x323C + n) as char)
    } else if 36 <= n <= 50 {
        Some((0x328D + n) as char)
    } else {
        None
    }
}

// ---------- radix ----------

/// A digit below sixteen as a lowercase hex character.
pub open spec fn radix_char(d: int) -> char {
    if d < 10 { (d + 48) as char } else { (d + 87) as char }
}

/// `n` written in base `b` (2 to 16), lowercase, without leading zeros
/// (`0` for zero).
pub open spec fn radix_digits(n: nat, b: nat) -> Seq<char>
    decreases n,
{
    if b < 2 || n < b {
        seq![radix_char(n as int)]
    } else {
        proof {
            assert(n / b < n) by (nonlinear_arith)
                requires
                    b >= 2,
                    n >= b,
            ;
        }
        radix_digits(n / b, b).push(radix_char((n % b) as int))
    }
}

// ---------- the rewriter ----------

/// The halfwidth digits of the candidate.
pub open spec fn half_of(s: Seq<char>) -> Seq<char> {
    s.map_values(|c: char| spec_to_ascii(c))
}

/// The fullwidth digits of the candidate.
pub open spec fn full_of(s: Seq<char>) -> Seq<char> {
    s.map_values(|c: char| spec_to_fullwidth(c))
}

/// `add_variant` for a value that may be missing.
pub open spec fn add_opt(
    out: Seq<OutView>,
    cand: Seq<char>,
    t: Option<Seq<char>>,
    desc: Seq<char>,
) -> Seq<OutView> {
    match t {
        Some(t) => add_variant(out, cand, t, Some(desc)),
        None => out,
    }
}

/// A glyph as a one-character text.
pub open spec fn glyph(c: Option<char>) -> Option<Seq<char>> {
    match c {
        Some(c) => Some(seq![c]),
        None => None,
    }
}

/// The value-based variants, for a value that fits in 64 bits.
pub open spec fn value_variants(out: Seq<OutView>, cand: Seq<char>, v: Option<int>) -> Seq<OutView> {
    match v {
        None => out,
        Some(n) => {
            let o1 = if roman_capital(n) is Some {
                add_opt(
                    add_opt(out, cand, glyph(roman_capital(n)), "ローマ数字(大文字)"@),
                    cand,
                    glyph(roman_small(n)),
                    "ローマ数字(小文字)"@,
                )
            } else {
                out
            };
            let o2 = add_opt(o1, cand, glyph(circled(n)), "丸数字"@);
            let o3 = add_variant(o2, cand, seq!['0', 'x'] + radix_digits(n as nat, 16), Some("16進数"@));
            let o4 = add_variant(o3, cand, seq!['0'] + radix_digits(n as nat, 8), Some("8進数"@));
            add_variant(o4, cand, seq!['0', 'b'] + radix_digits(n as nat, 2), Some("2進数"@))
        },
    }
}

/// The value of the digits, when it fits in 64 bits.
pub open spec fn parsed(half: Seq<char>) -> Option<int> {
    if dec_value(half) <= u64::MAX {
        Some(dec_value(half))
    } else {
        None
    }
}

/// What the rewriter offers for `cand`.
pub open spec fn spec_number_rewrite(cand: Seq<char>) -> Seq<OutView> {
    if !spec_pure_digit(cand) {
        Seq::empty()
    } else {
        let half = half_of(cand);
        let o1 = add_variant(Seq::empty(), cand, half, Some("数字"@));
        let o2 = add_variant(o1, cand, full_of(cand), Some("数字"@));
        let o3 = add_opt(o2, cand, spec_to_kanji(half, false), "漢数字"@);
        let o4 = add_opt(o3, cand, spec_to_kanji(half, true), "大字"@);
        value_variants(o4, cand, parsed(half))
    }
}

// ---------- exec ----------

pub(crate) fn append(out: &mut Vec<char>, more: &Vec<char>)
    ensures
        final(out)@ == old(out)@ + more@,
{
    let ghost before = out@;
    let mut k: usize = 0;
    while k < more.len()
        invariant
            k <= more.len(),
            out@ == before + more@.take(k as int),
        decreases more.len() - k,
    {
        out.push(more[k]);
        k += 1;
        assert(out@ =~= before + more@.take(k as int));
    }
    assert(more@.take(more.len() as int) =~= more@);
}

fn to_halfwidth(cs: &Vec<char>) -> (r: Vec<char>)
    ensures
        r@ == half_of(cs@),
{
    let mut out: Vec<char> = Vec::new();
    let mut i: usize = 0;
    while i < cs.len()
        invariant
            i <= cs.len(),
            out@.len() == i,
            forall|j: int| 0 <= j < i ==> out@[j] == spec_to_ascii(cs@[j]),
        decreases cs.len() - i,
    {
        out.push(fullwidth_to_ascii_char(cs[i]));
        i += 1;
    }
    assert(out@ =~= half_of(cs@));
    out
}

fn to_fullwidth(cs: &Vec<char>) -> (r: Vec<char>)
    ensures
        r@ == full_of(cs@),
{
    let mut out: Vec<char> = Vec::new();
    let mut i: usize = 0;
    while i < cs.len()
        invariant
            i <= cs.len(),
            out@.len() == i,
            forall|j: int| 0 <= j < i ==> out@[j] == spec_to_fullwidth(cs@[j]),
        decreases cs.len() - i,
    {
        out.push(ascii_to_fullwidth_char(cs[i]));
        i += 1;
    }
    assert(out@ =~= full_of(cs@));
    out
}

proof fn lemma_dec_value_grows(s: Seq<char>, k: int)
    requires
        ascii_digits(s),
        0 <= k <= s.len(),
    ensures
        0 <= dec_value(s.take(k)) <= dec_value(s),
    decreases s.len() - k,
{
    if k < s.len() {
        lemma_dec_value_grows(s, k + 1);
        let x = dec_value(s.take(k));
        assert(s.take(k + 1).drop_last() =~= s.take(k));
        assert(dec_value(s.take(k + 1)) == x * 10 + digit_val(s[k]));
        lemma_dec_value_nonneg(s.take(k));
        assert(x <= x * 10 + digit_val(s[k])) by (nonlinear_arith)
            requires
                x >= 0,
                digit_val(s[k]) >= 0,
        ;
    } else {
        assert(s.take(k) =~= s);
        lemma_dec_value_nonneg(s);
    }
}

proof fn lemma_dec_value_nonneg(s: Seq<char>)
    requires
        ascii_digits(s),
    ensures
        dec_value(s) >= 0,
    decreases s.len(),
{
    if s.len() > 0 {
        lemma_dec_value_nonneg(s.drop_last());
    }
}

/// The value of ASCII digits, when it fits in 64 bits.
fn parse_u64(cs: &Vec<char>) -> (r: Option<u64>)
    requires
        ascii_digits(cs@),
    ensures
        match r {
            Some(v) => parsed(cs@) == Some(v as int),
            None => parsed(cs@) is None,
        },
{
    let mut acc: u64 = 0;
    let mut i: usize = 0;
    while i < cs.len()
        invariant
            ascii_digits(cs@),
            i <= cs.len(),
            acc as int == dec_value(cs@.take(i as int)),
        decreases cs.len() - i,
    {
        let d = (cs[i] as u32 - 48) as u64;
        assert(cs@.take(i + 1).drop_last() =~= cs@.take(i as int));
        match acc.checked_mul(10) {
            None => {
                proof {
                    lemma_dec_value_grows(cs@, i + 1);
                }
                return None;
            },
            Some(m) => match m.checked_add(d) {
                None => {
                    proof {
                        lemma_dec_value_grows(cs@, i + 1);
                    }
                    return None;
                },
                Some(v) => {
                    acc = v;
                },
            },
        }
        i += 1;
    }
    assert(cs@.take(cs.len() as int) =~= cs@);
    Some(acc)
}

fn kanji_digit_exec(d: u32, old_kanji: bool) -> (c: char)
    ensures
        c == kanji_digit(d as int, old_kanji),
{
    if old_kanji && d == 1 {
        '壱'
    } else if old_kanji && d == 2 {
        '弐'
    } else if old_kanji && d == 3 {
        '参'
    } else if d == 1 {
        '一'
    } else if d == 2 {
        '二'
    } else if d == 3 {
        '三'
    } else if d == 4 {
        '四'
    } else if d == 5 {
        '五'
    } else if d == 6 {
        '六'
    } else if d == 7 {
        '七'
    } else if d == 8 {
        '八'
    } else if d == 9 {
        '九'
    } else {
        '〇'
    }
}

fn rank_exec(pos: usize, old_kanji: bool) -> (r: Vec<char>)
    ensures
        r@ == rank(pos as int, old_kanji),
{
    let mut r: Vec<char> = Vec::new();
    if pos == 1 {
        r.push(if old_kanji { '拾' } else { '十' });
    } else if pos == 2 {
        r.push('百');
    } else if pos == 3 {
        r.push(if old_kanji { '阡' } else { '千' });
    }
    assert(r@ =~= rank(pos as int, old_kanji));
    r
}

fn big_rank_exec(i: usize, old_kanji: bool) -> (r: Vec<char>)
    ensures
        r@ == big_rank(i as int, old_kanji),
{
    let mut r: Vec<char> = Vec::new();
    if i == 1 {
        r.push(if old_kanji { '萬' } else { '万' });
    } else if i == 2 {
        r.push('億');
    } else if i == 3 {
        r.push('兆');
    } else if i == 4 {
        r.push('京');
    } else if i == 5 {
        r.push('垓');
    } else if i == 6 {
        r.push('秭');
    }
    assert(r@ =~= big_rank(i as int, old_kanji));
    r
}

fn render_segment_exec(t: &Vec<char>, start: usize, end: usize, old_kanji: bool) -> (r: Vec<char>)
    requires
        start <= end <= t.len(),
        ascii_digits(t@),
    ensures
        r@ == render_segment(t@.subrange(start as int, end as int), old_kanji),
{
    let ghost seg = t@.subrange(start as int, end as int);
    let len = end - start;
    let mut out: Vec<char> = Vec::new();
    let mut i: usize = 0;
    while i < len
        invariant
            start <= end <= t.len(),
            len == end - start,
            seg == t@.subrange(start as int, end as int),
            ascii_digits(t@),
            i <= len,
            out@ == render_upto(seg, i as int, old_kanji),
        decreases len - i,
    {
        let c = t[start + i];
        assert(c == seg[i as int]);
        let d = c as u32 - 48;
        let pos = len - 1 - i;
        if d != 0 {
            if old_kanji || pos == 0 || d != 1 {
                out.push(kanji_digit_exec(d, old_kanji));
            }
            let rk = rank_exec(pos, old_kanji);
            append(&mut out, &rk);
        }
        i += 1;
        assert(out@ =~= render_upto(seg, i as int, old_kanji));
    }
    out
}

proof fn lemma_trim_zeros(s: Seq<char>, k: int)
    requires
        0 <= k <= s.len(),
        forall|j: int| 0 <= j < k ==> s[j] == '0',
    ensures
        trim_zeros(s) == trim_zeros(s.skip(k)),
    decreases k,
{
    if k > 0 {
        assert(s.skip(1).skip(k - 1) =~= s.skip(k));
        lemma_trim_zeros(s.skip(1), k - 1);
    } else {
        assert(s.skip(0) =~= s);
    }
}

/// The kanji form of ASCII digits; `None` past the largest big rank.
pub(crate) fn to_kanji(digits: &Vec<char>, old_kanji: bool) -> (r: Option<Vec<char>>)
    requires
        ascii_digits(digits@),
    ensures
        match r {
            Some(v) => spec_to_kanji(digits@, old_kanji) == Some(v@),
            None => spec_to_kanji(digits@, old_kanji) is None,
        },
{
    let mut k: usize = 0;
    while k < digits.len() && digits[k] == '0'
        invariant
            k <= digits.len(),
            forall|j: int| 0 <= j < k ==> digits@[j] == '0',
        decreases digits.len() - k,
    {
        k += 1;
    }
    proof {
        lemma_trim_zeros(digits@, k as int);
    }
    let mut t: Vec<char> = Vec::new();
    let mut i = k;
    while i < digits.len()
        invariant
            k <= i <= digits.len(),
            t@ == digits@.subrange(k as int, i as int),
        decreases digits.len() - i,
    {
        t.push(digits[i]);
        i += 1;
        assert(t@ =~= digits@.subrange(k as int, i as int));
    }
    assert(t@ =~= digits@.skip(k as int));
    assert(trim_zeros(t@) == t@);
    let ghost tv = t@;
    assert(ascii_digits(tv));
    let zero = if old_kanji { '零' } else { '〇' };
    if t.len() == 0 {
        let mut z: Vec<char> = Vec::new();
        z.push(zero);
        assert(z@ =~= zero_glyph(old_kanji));
        return Some(z);
    }
    let n = (t.len() - 1) / 4 + 1;
    assert(n == seg_count(tv));
    if n > 7 {
        return None;
    }
    let mut body: Vec<char> = Vec::new();
    let mut m: usize = 0;
    while m < n
        invariant
            tv == t@,
            ascii_digits(tv),
            n == seg_count(tv),
            n <= 7,
            t.len() > 0,
            m <= n,
            body@ == kanji_body(tv, m as int, old_kanji),
        decreases n - m,
    {
        let seg_i = n - 1 - m;
        let end = t.len() - 4 * seg_i;
        let start = if end >= 4 {
            end - 4
        } else {
            0
        };
        let part = render_segment_exec(&t, start, end, old_kanji);
        assert(part@ == render_segment(segment(tv, seg_i as int), old_kanji));
        if part.len() > 0 {
            append(&mut body, &part);
            let br = big_rank_exec(seg_i, old_kanji);
            append(&mut body, &br);
        }
        m += 1;
        assert(body@ =~= kanji_body(tv, m as int, old_kanji));
    }
    if body.len() == 0 {
        let mut z: Vec<char> = Vec::new();
        z.push(zero);
        assert(z@ =~= zero_glyph(old_kanji));
        Some(z)
    } else {
        Some(body)
    }
}

fn radix_char_exec(d: u64) -> (c: char)
    requires
        d < 16,
    ensures
        c == radix_char(d as int),
{
    let code: u32 = if d < 10 {
        (d + 48) as u32
    } else {
        (d + 87) as u32
    };
    match char_from_u32(code) {
        Some(c) => c,
        None => '0',
    }
}

pub(crate) fn radix_exec(n: u64, b: u64) -> (r: Vec<char>)
    requires
        2 <= b <= 16,
    ensures
        r@ == radix_digits(n as nat, b as nat),
    decreases n,
{
    if n < b {
        let mut r: Vec<char> = Vec::new();
        r.push(radix_char_exec(n));
        assert(r@ =~= radix_digits(n as nat, b as nat));
        r
    } else {
        assert(n / b < n) by (nonlinear_arith)
            requires
                b >= 2,
                n >= b,
        ;
        let mut r = radix_exec(n / b, b);
        r.push(radix_char_exec(n % b));
        r
    }
}

fn prefixed(prefix: &str, digits: Vec<char>) -> (r: String)
    ensures
        r@ == prefix@ + digits@,
{
    let mut v = chars_of(prefix);
    append(&mut v, &digits);
    string_of(&v)
}

fn glyph_string(code: u32) -> (r: String)
    requires
        crate::text::is_scalar(code as int),
    ensures
        r@ == seq![code as char],
{
    let mut v: Vec<char> = Vec::new();
    match char_from_u32(code) {
        Some(c) => v.push(c),
        None => {},
    }
    assert(v@ =~= seq![code as char]);
    string_of(&v)
}

/// Rewriter that expands a numeric candidate into related styles.
pub struct NumberRewriter;

impl NumberRewriter {
    pub fn new() -> (r: Self) {
        NumberRewriter
    }
}

impl Rewriter for NumberRewriter {
    fn name(&self) -> (r: &'static str)
        ensures
            r@ == "number"@,
    {
        "number"
    }

    fn rewrite(&self, candidate: &str) -> (r: Vec<RewriteOutput>)
        ensures
            outs_view(r@) == spec_number_rewrite(candidate@),
    {
        let mut out: Vec<RewriteOutput> = Vec::new();
        assert(outs_view(out@) =~= Seq::<OutView>::empty());
        if !is_pure_digit(candidate) {
            return out;
        }
        let cs = chars_of(candidate);
        let half = to_halfwidth(&cs);
        let full = to_fullwidth(&cs);
        assert forall|i: int| 0 <= i < half@.len() implies '0' <= #[trigger] half@[i] && half@[i]
            <= '9' by {
            assert(crate::rewriter::is_decimal(cs@[i]));
        }
        let n = parse_u64(&half);
        proof {
            reveal_strlit("0x");
            reveal_strlit("0");
            reveal_strlit("0b");
        }
        let ghost cand = candidate@;
        let ghost hv = half_of(cand);
        assert(half@ == hv);
        push_variant(&mut out, candidate, string_of(&half), Some("数字".to_owned()));
        push_variant(&mut out, candidate, string_of(&full), Some("数字".to_owned()));
        let ghost o2 = outs_view(out@);
        assert(o2 == add_variant(add_variant(Seq::empty(), cand, hv, Some("数字"@)), cand, full_of(cand), Some("数字"@)));
        match to_kanji(&half, false) {
            Some(s) => push_variant(&mut out, candidate, string_of(&s), Some("漢数字".to_owned())),
            None => {},
        }
        assert(outs_view(out@) == add_opt(o2, cand, spec_to_kanji(hv, false), "漢数字"@));
        let ghost o3 = outs_view(out@);
        match to_kanji(&half, true) {
            Some(s) => push_variant(&mut out, candidate, string_of(&s), Some("大字".to_owned())),
            None => {},
        }
        assert(outs_view(out@) == add_opt(o3, cand, spec_to_kanji(hv, true), "大字"@));
        let ghost o4 = outs_view(out@);
        match n {
            None => {},
            Some(v) => {
                let ghost vi = v as int;
                if 1 <= v && v <= 12 {
                    push_variant(
                        &mut out,
                        candidate,
                        glyph_string(0x215F + v as u32),
                        Some("ローマ数字(大文字)".to_owned()),
                    );
                    push_variant(
                        &mut out,
                        candidate,
                        glyph_string(0x216F + v as u32),
                        Some("ローマ数字(小文字)".to_owned()),
                    );
                }
                let ghost p1 = outs_view(out@);
                assert(p1 == if roman_capital(vi) is Some {
                    add_opt(
                        add_opt(o4, cand, glyph(roman_capital(vi)), "ローマ数字(大文字)"@),
                        cand,
                        glyph(roman_small(vi)),
                        "ローマ数字(小文字)"@,
                    )
                } else {
                    o4
                });
                if v == 0 {
                    push_variant(&mut out, candidate, glyph_string(0x24EA), Some("丸数字".to_owned()));
                } else if 1 <= v && v <= 20 {
                    push_variant(&mut out, candidate, glyph_string(0x245F + v as u32), Some("丸数字".to_owned()));
                } else if 21 <= v && v <= 35 {
                    push_variant(&mut out, candidate, glyph_string(0x323C + v as u32), Some("丸数字".to_owned()));
                } else if 36 <= v && v <= 50 {
                    push_variant(&mut out, candidate, glyph_string(0x328D + v as u32), Some("丸数字".to_owned()));
                }
                assert(outs_view(out@) == add_opt(p1, cand, glyph(circled(vi)), "丸数字"@));
                let ghost q2 = outs_view(out@);
                let hex = prefixed("0x", radix_exec(v, 16));
                assert(hex@ =~= seq!['0', 'x'] + radix_digits(vi as nat, 16));
                push_variant(&mut out, candidate, hex, Some("16進数".to_owned()));
                let oct = prefixed("0", radix_exec(v, 8));
                assert(oct@ =~= seq!['0'] + radix_digits(vi as nat, 8));
                push_variant(&mut out, candidate, oct, Some("8進数".to_owned()));
                let bin = prefixed("0b", radix_exec(v, 2));
                assert(bin@ =~= seq!['0', 'b'] + radix_digits(vi as nat, 2));
                push_variant(&mut out, candidate, bin, Some("2進数".to_owned()));
                assert(outs_view(out@) == value_variants(o4, cand, Some(vi)));
                assert(parsed(hv) == Some(vi));
            },
        }
        assert(outs_view(out@) == value_variants(o4, cand, parsed(hv)));
        out
    }
}

proof fn lemma_add_opt_keeps(out: Seq<OutView>, cand: Seq<char>, t: Option<Seq<char>>, desc: Seq<char>)
    requires
        well_offered(out, cand),
    ensures
        well_offered(add_opt(out, cand, t, desc), cand),
{
    if let Some(t) = t {
        lemma_add_variant_keeps(out, cand, t, Some(desc));
    }
}

/// The number rewriter never offers the candidate itself and never one
/// text twice.
pub proof fn lemma_number_well_offered(cand: Seq<char>)
    ensures
        well_offered(spec_number_rewrite(cand), cand),
{
    if spec_pure_digit(cand) {
        let half = half_of(cand);
        let e = Seq::<OutView>::empty();
        lemma_add_variant_keeps(e, cand, half, Some("数字"@));
        let o1 = add_variant(e, cand, half, Some("数字"@));
        lemma_add_variant_keeps(o1, cand, full_of(cand), Some("数字"@));
        let o2 = add_variant(o1, cand, full_of(cand), Some("数字"@));
        lemma_add_opt_keeps(o2, cand, spec_to_kanji(half, false), "漢数字"@);
        let o3 = add_opt(o2, cand, spec_to_kanji(half, false), "漢数字"@);
        lemma_add_opt_keeps(o3, cand, spec_to_kanji(half, true), "大字"@);
        let o4 = add_opt(o3, cand, spec_to_kanji(half, true), "大字"@);
        if let Some(n) = parsed(half) {
            let o1 = if roman_capital(n) is Some {
                lemma_add_opt_keeps(o4, cand, glyph(roman_capital(n)), "ローマ数字(大文字)"@);
                let a = add_opt(o4, cand, glyph(roman_capital(n)), "ローマ数字(大文字)"@);
                lemma_add_opt_keeps(a, cand, glyph(roman_small(n)), "ローマ数字(小文字)"@);
                add_opt(a, cand, glyph(roman_small(n)), "ローマ数字(小文字)"@)
            } else {
                o4
            };
            lemma_add_opt_keeps(o1, cand, glyph(circled(n)), "丸数字"@);
            let o2 = add_opt(o1, cand, glyph(circled(n)), "丸数字"@);
            let x = seq!['0', 'x'] + radix_digits(n as nat, 16);
            lemma_add_variant_keeps(o2, cand, x, Some("16進数"@));
            let o3 = add_variant(o2, cand, x, Some("16進数"@));
            let y = seq!['0'] + radix_digits(n as nat, 8);
            lemma_add_variant_keeps(o3, cand, y, Some("8進数"@));
            let o4b = add_variant(o3, cand, y, Some("8進数"@));
            lemma_add_variant_keeps(o4b, cand, seq!['0', 'b'] + radix_digits(n as nat, 2), Some("2進数"@));
        }
    }
}

/// Decimal digits are ASCII digits.
pub proof fn lemma_decimal_digits(n: nat)
    ensures
        ascii_digits(radix_digits(n, 10)),
    decreases n,
{
    if n >= 10 {
        lemma_decimal_digits(n / 10);
        let r = radix_digits(n / 10, 10);
        assert(radix_digits(n, 10) == r.push(radix_char((n % 10) as int)));
        assert forall|i: int| 0 <= i < r.len() + 1 implies '0' <= #[trigger] r.push(
            radix_char((n % 10) as int),
        )[i] && r.push(radix_char((n % 10) as int))[i] <= '9' by {
            if i < r.len() {
                assert(r.push(radix_char((n % 10) as int))[i] == r[i]);
            }
        }
    }
}

// ---------- the shape of the offer ----------

/// No character of `s` is ASCII.
pub open spec fn non_ascii(s: Seq<char>) -> bool {
    forall|i: int| 0 <= i < s.len() ==> (#[trigger] s[i] as int) >= 0x80
}

/// Whether a text starts with the hexadecimal prefix `0x`.
pub open spec fn starts_hex(t: Seq<char>) -> bool {
    t.len() >= 2 && t[0] == '0' && t[1] == 'x'
}

/// Whether some offered text starts with `0x`.
pub open spec fn offers_hex(out: Seq<OutView>) -> bool {
    exists|i: int| 0 <= i < out.len() && starts_hex(#[trigger] out[i].0)
}

/// Whether every offered text has a description.
pub open spec fn all_described(out: Seq<OutView>) -> bool {
    forall|i: int| 0 <= i < out.len() ==> (#[trigger] out[i]).1 is Some
}

proof fn lemma_non_ascii_concat(a: Seq<char>, b: Seq<char>)
    requires
        non_ascii(a),
        non_ascii(b),
    ensures
        non_ascii(a + b),
{
    assert forall|i: int| 0 <= i < (a + b).len() implies ((#[trigger] (a + b)[i]) as int) >= 0x80 by {
        if i < a.len() {
            assert((a + b)[i] == a[i]);
        } else {
            assert((a + b)[i] == b[i - a.len()]);
        }
    }
}

proof fn lemma_render_non_ascii(seg: Seq<char>, k: int, old_kanji: bool)
    requires
        0 <= k <= seg.len(),
    ensures
        non_ascii(render_upto(seg, k, old_kanji)),
    decreases k,
{
    if k > 0 {
        lemma_render_non_ascii(seg, k - 1, old_kanji);
        let d = digit_val(seg[k - 1]);
        let pos = seg.len() - 1 - (k - 1);
        let piece = digit_piece(seg, k - 1, old_kanji);
        assert(non_ascii(rank(pos, old_kanji)));
        assert(non_ascii(seq![kanji_digit(d, old_kanji)]));
        lemma_non_ascii_concat(seq![kanji_digit(d, old_kanji)], rank(pos, old_kanji));
        assert(non_ascii(piece));
        lemma_non_ascii_concat(render_upto(seg, k - 1, old_kanji), piece);
    }
}

proof fn lemma_body_non_ascii(t: Seq<char>, k: int, old_kanji: bool)
    requires
        0 <= k <= seg_count(t),
    ensures
        non_ascii(kanji_body(t, k, old_kanji)),
    decreases k,
{
    if k > 0 {
        lemma_body_non_ascii(t, k - 1, old_kanji);
        let i = seg_count(t) - k;
        let sg = segment(t, i);
        lemma_render_non_ascii(sg, sg.len() as int, old_kanji);
        assert(non_ascii(big_rank(i, old_kanji)));
        lemma_non_ascii_concat(render_segment(sg, old_kanji), big_rank(i, old_kanji));
        assert(non_ascii(segment_part(t, i, old_kanji)));
        lemma_non_ascii_concat(kanji_body(t, k - 1, old_kanji), segment_part(t, i, old_kanji));
    }
}

proof fn lemma_kanji_non_ascii(digits: Seq<char>, old_kanji: bool)
    ensures
        spec_to_kanji(digits, old_kanji) matches Some(t) ==> non_ascii(t),
{
    let t = trim_zeros(digits);
    if t.len() > 0 && seg_count(t) <= 7 {
        lemma_body_non_ascii(t, seg_count(t), old_kanji);
    }
}

/// Every character of a number written in a base from 2 to 16 is a digit
/// or a lowercase letter up to `f`.
proof fn lemma_radix_chars(n: nat, b: nat)
    requires
        2 <= b <= 16,
    ensures
        radix_digits(n, b).len() >= 1,
        forall|i: int|
            0 <= i < radix_digits(n, b).len() ==> ('0' <= #[trigger] radix_digits(n, b)[i] <= '9')
                || ('a' <= radix_digits(n, b)[i] <= 'f'),
    decreases n,
{
    if n >= b {
        assert(n / b < n) by (nonlinear_arith)
            requires
                b >= 2,
                n >= b,
        ;
        lemma_radix_chars(n / b, b);
        let r = radix_digits(n / b, b);
        assert(radix_digits(n, b) == r.push(radix_char((n % b) as int)));
        assert forall|i: int| 0 <= i < r.len() + 1 implies ('0' <= #[trigger] r.push(
            radix_char((n % b) as int),
        )[i] <= '9') || ('a' <= r.push(radix_char((n % b) as int))[i] <= 'f') by {
            if i < r.len() {
                assert(r.push(radix_char((n % b) as int))[i] == r[i]);
            }
        }
    }
}

proof fn lemma_add_variant_shape(out: Seq<OutView>, cand: Seq<char>, t: Seq<char>, d: Seq<char>)
    requires
        all_described(out),
    ensures
        all_described(add_variant(out, cand, t, Some(d))),
        add_variant(out, cand, t, Some(d)).len() >= out.len(),
        offers_hex(add_variant(out, cand, t, Some(d))) <==> offers_hex(out) || (starts_hex(t) && t
            != cand && !has_text(out, t)),
{
    let r = add_variant(out, cand, t, Some(d));
    if t != cand && !has_text(out, t) {
        assert(r[out.len() as int].0 == t);
        if offers_hex(out) {
            let i = choose|i: int| 0 <= i < out.len() && starts_hex(#[trigger] out[i].0);
            assert(r[i] == out[i]);
        }
        if offers_hex(r) {
            let i = choose|i: int| 0 <= i < r.len() && starts_hex(#[trigger] r[i].0);
            if i < out.len() {
                assert(r[i] == out[i]);
            }
        }
    }
}

proof fn lemma_add_opt_shape(out: Seq<OutView>, cand: Seq<char>, t: Option<Seq<char>>, d: Seq<char>)
    requires
        all_described(out),
        t matches Some(x) ==> !starts_hex(x),
    ensures
        all_described(add_opt(out, cand, t, d)),
        add_opt(out, cand, t, d).len() >= out.len(),
        offers_hex(add_opt(out, cand, t, d)) <==> offers_hex(out),
{
    if let Some(x) = t {
        lemma_add_variant_shape(out, cand, x, d);
    }
}

/// The number rewriter offers nothing exactly when the candidate is not a
/// non-empty run of decimal digits; every offer has a description; and a
/// hexadecimal form (`0x…`) is offered exactly when the digits' value fits
/// in 64 bits.
pub proof fn lemma_number_offer_shape(cand: Seq<char>)
    ensures
        (spec_number_rewrite(cand).len() == 0) <==> !spec_pure_digit(cand),
        all_described(spec_number_rewrite(cand)),
        offers_hex(spec_number_rewrite(cand)) <==> (spec_pure_digit(cand) && parsed(half_of(cand))
            is Some),
{
    if spec_pure_digit(cand) {
        let half = half_of(cand);
        let full = full_of(cand);
        let e = Seq::<OutView>::empty();
        assert(all_described(e));
        assert(!offers_hex(e));
        // The two width forms differ, so at least one is not the candidate.
        assert(half[0] != full[0]);
        assert(!starts_hex(half)) by {
            if half.len() >= 2 {
                assert(is_decimal(cand[1]));
            }
        }
        assert(!starts_hex(full)) by {
            assert(is_decimal(cand[0]));
        }
        lemma_add_variant_shape(e, cand, half, "数字"@);
        let o1 = add_variant(e, cand, half, Some("数字"@));
        lemma_add_variant_shape(o1, cand, full, "数字"@);
        let o2 = add_variant(o1, cand, full, Some("数字"@));
        assert(o2.len() >= 1) by {
            if half == cand {
                assert(o1.len() == 0);
                assert(full != cand);
                assert(!has_text(o1, full));
            }
        }
        lemma_kanji_non_ascii(half, false);
        lemma_kanji_non_ascii(half, true);
        let k1 = spec_to_kanji(half, false);
        let k2 = spec_to_kanji(half, true);
        if let Some(x) = k1 {
            if x.len() >= 2 {
                assert((x[0] as int) >= 0x80);
            }
        }
        if let Some(x) = k2 {
            if x.len() >= 2 {
                assert((x[0] as int) >= 0x80);
            }
        }
        lemma_add_opt_shape(o2, cand, k1, "漢数字"@);
        let o3 = add_opt(o2, cand, k1, "漢数字"@);
        lemma_add_opt_shape(o3, cand, k2, "大字"@);
        let o4 = add_opt(o3, cand, k2, "大字"@);
        assert(!offers_hex(o4));
        if let Some(n) = parsed(half) {
            let a1 = if roman_capital(n) is Some {
                lemma_add_opt_shape(o4, cand, glyph(roman_capital(n)), "ローマ数字(大文字)"@);
                let a = add_opt(o4, cand, glyph(roman_capital(n)), "ローマ数字(大文字)"@);
                lemma_add_opt_shape(a, cand, glyph(roman_small(n)), "ローマ数字(小文字)"@);
                add_opt(a, cand, glyph(roman_small(n)), "ローマ数字(小文字)"@)
            } else {
                o4
            };
            lemma_add_opt_shape(a1, cand, glyph(circled(n)), "丸数字"@);
            let a2 = add_opt(a1, cand, glyph(circled(n)), "丸数字"@);
            assert(!offers_hex(a2));
            let x = seq!['0', 'x'] + radix_digits(n as nat, 16);
            lemma_radix_chars(n as nat, 16);
            assert(starts_hex(x));
            assert(x != cand) by {
                assert(is_decimal(cand[1]) || cand.len() < 2);
            }
            assert(!has_text(a2, x));
            lemma_add_variant_shape(a2, cand, x, "16進数"@);
            let a3 = add_variant(a2, cand, x, Some("16進数"@));
            let y = seq!['0'] + radix_digits(n as nat, 8);
            lemma_radix_chars(n as nat, 8);
            assert(!starts_hex(y)) by {
                assert(y[1] == radix_digits(n as nat, 8)[0]);
            }
            lemma_add_variant_shape(a3, cand, y, "8進数"@);
            let a4 = add_variant(a3, cand, y, Some("8進数"@));
            let z = seq!['0', 'b'] + radix_digits(n as nat, 2);
            assert(!starts_hex(z));
            lemma_add_variant_shape(a4, cand, z, "2進数"@);
        }
    }
}

} // verus!
