//! Kana conversions: hiragana ↔ katakana, half-width katakana, and the
//! full-width ↔ ASCII character folds the width rules are built from.

use vstd::prelude::*;
use unicode_normalization::UnicodeNormalization;

use crate::text::{chars_of, char_from_u32, string_of};

verus! {

/// Hiragana block that has a katakana twin (U+3041–U+3096).
pub open spec fn is_hiragana(c: char) -> bool {
    '\u{3041}' <= c && c <= '\u{3096}'
}

/// Katakana block that has a hiragana twin (U+30A1–U+30F6).
pub open spec fn is_twin_katakana(c: char) -> bool {
    '\u{30A1}' <= c && c <= '\u{30F6}'
}

/// One character hiragana → katakana; everything else unchanged.
pub open spec fn kata_of(c: char) -> char {
    if is_hiragana(c) {
        ((c as int) + 0x60) as char
    } else {
        c
    }
}

/// One character katakana → hiragana; everything else unchanged.
pub open spec fn hira_of(c: char) -> char {
    if is_twin_katakana(c) {
        ((c as int) - 0x60) as char
    } else {
        c
    }
}

/// Exec form of [`kata_of`].
pub fn kata_char(c: char) -> (r: char)
    ensures
        r == kata_of(c),
{
    if '\u{3041}' <= c && c <= '\u{3096}' {
        match char_from_u32(c as u32 + 0x60) {
            Some(k) => k,
            None => c,
        }
    } else {
        c
    }
}

/// Exec form of [`hira_of`].
pub fn hira_char(c: char) -> (r: char)
    ensures
        r == hira_of(c),
{
    if '\u{30A1}' <= c && c <= '\u{30F6}' {
        match char_from_u32(c as u32 - 0x60) {
            Some(h) => h,
            None => c,
        }
    } else {
        c
    }
}

/// Convert hiragana to katakana (U+3041–U+3096 → U+30A1–U+30F6); every
/// other character passes through.
pub fn hiragana_to_katakana(text: &str) -> (r: String)
    ensures
        r@ == text@.map_values(|c: char| kata_of(c)),
{
    let cs = chars_of(text);
    let mut out: Vec<char> = Vec::new();
    let mut i: usize = 0;
    while i < cs.len()
        invariant
            i <= cs.len(),
            cs@ == text@,
            out@ == cs@.take(i as int).map_values(|c: char| kata_of(c)),
        decreases cs.len() - i,
    {
        out.push(kata_char(cs[i]));
        i += 1;
        assert(out@ == cs@.take(i as int).map_values(|c: char| kata_of(c)));
    }
    assert(cs@.take(cs.len() as int) == cs@);
    string_of(&out)
}

/// Convert katakana to hiragana (U+30A1–U+30F6 → U+3041–U+3096); every
/// other character passes through.
pub fn katakana_to_hiragana(text: &str) -> (r: String)
    ensures
        r@ == text@.map_values(|c: char| hira_of(c)),
{
    let cs = chars_of(text);
    let mut out: Vec<char> = Vec::new();
    let mut i: usize = 0;
    while i < cs.len()
        invariant
            i <= cs.len(),
            cs@ == text@,
            out@ == cs@.take(i as int).map_values(|c: char| hira_of(c)),
        decreases cs.len() - i,
    {
        out.push(hira_char(cs[i]));
        i += 1;
        assert(out@ == cs@.take(i as int).map_values(|c: char| hira_of(c)));
    }
    assert(cs@.take(cs.len() as int) == cs@);
    string_of(&out)
}

/// Katakana of hiragana turned back is the hiragana: for text holding no
/// katakana of its own, `katakana_to_hiragana(hiragana_to_katakana(s)) == s`.
pub proof fn lemma_kana_round_trip(s: Seq<char>)
    requires
        forall|i: int| 0 <= i < s.len() ==> !is_twin_katakana(#[trigger] s[i]),
    ensures
        s.map_values(|c: char| kata_of(c)).map_values(|c: char| hira_of(c)) == s,
{
    let t = s.map_values(|c: char| kata_of(c)).map_values(|c: char| hira_of(c));
    assert forall|i: int| 0 <= i < s.len() implies t[i] == s[i] by {
        let c = s[i];
        if is_hiragana(c) {
            assert((((c as int) + 0x60) as char) as int == (c as int) + 0x60);
        }
    }
    assert(t =~= s);
}


/// Decimal digit, half-width (`0-9`) or full-width (`０-９`).
pub open spec fn spec_is_digit(c: char) -> bool {
    ('0' <= c && c <= '9') || ('\u{FF10}' <= c && c <= '\u{FF19}')
}

/// Exec form of [`spec_is_digit`].
pub fn is_digit(c: char) -> (r: bool)
    ensures
        r == spec_is_digit(c),
{
    ('0' <= c && c <= '9') || ('\u{FF10}' <= c && c <= '\u{FF19}')
}

/// Printable ASCII other than space (`!`–`~`), the characters that have a
/// full-width form at [`FULLWIDTH_OFFSET`].
pub open spec fn is_ascii_graphic(c: char) -> bool {
    '!' <= c && c <= '~'
}

/// Full-width forms of printable ASCII (U+FF01–U+FF5E).
pub open spec fn is_fullwidth_ascii(c: char) -> bool {
    '\u{FF01}' <= c && c <= '\u{FF5E}'
}

/// Full-width forms sit this far above their ASCII originals: `(` U+0028 →
/// `（` U+FF08.
pub const FULLWIDTH_OFFSET: u32 = 0xFEE0;

/// `！`–`～` → `!`–`~`; everything else unchanged.
pub open spec fn spec_to_ascii(c: char) -> char {
    if is_fullwidth_ascii(c) {
        ((c as int) - 0xFEE0) as char
    } else {
        c
    }
}

/// `!`–`~` → `！`–`～`; everything else unchanged.
pub open spec fn spec_to_fullwidth(c: char) -> char {
    if is_ascii_graphic(c) {
        ((c as int) + 0xFEE0) as char
    } else {
        c
    }
}

/// A full-width ASCII form folded to ASCII (`Ａ` → `A`, `１` → `1`).
pub fn fullwidth_to_ascii_char(c: char) -> (r: char)
    ensures
        r == spec_to_ascii(c),
{
    if '\u{FF01}' <= c && c <= '\u{FF5E}' {
        match char_from_u32(c as u32 - FULLWIDTH_OFFSET) {
            Some(a) => a,
            None => c,
        }
    } else {
        c
    }
}

/// A printable ASCII character widened to its full-width form (`A` → `Ａ`).
pub fn ascii_to_fullwidth_char(c: char) -> (r: char)
    ensures
        r == spec_to_fullwidth(c),
{
    if '!' <= c && c <= '~' {
        match char_from_u32(c as u32 + FULLWIDTH_OFFSET) {
            Some(f) => f,
            None => c,
        }
    } else {
        c
    }
}

/// The two folds undo each other on their domains.
pub proof fn lemma_fullwidth_ascii_inverse(c: char)
    ensures
        is_ascii_graphic(c) ==> spec_to_ascii(spec_to_fullwidth(c)) == c,
        is_fullwidth_ascii(c) ==> spec_to_fullwidth(spec_to_ascii(c)) == c,
        is_ascii_graphic(c) ==> is_fullwidth_ascii(spec_to_fullwidth(c)),
        is_fullwidth_ascii(c) ==> is_ascii_graphic(spec_to_ascii(c)),
{
    if is_ascii_graphic(c) {
        assert((((c as int) + 0xFEE0) as char) as int == (c as int) + 0xFEE0);
    }
    if is_fullwidth_ascii(c) {
        assert((((c as int) - 0xFEE0) as char) as int == (c as int) - 0xFEE0);
    }
}

/// The half-width katakana form of one character: a hiragana (voiced ones
/// as base plus a separate mark), a small kana, or a Japanese punctuation
/// mark; anything else stands for itself.
pub open spec fn half_form(c: char) -> Seq<char> {
    match c {
        'あ' => seq!['ｱ'],
        'い' => seq!['ｲ'],
        'う' => seq!['ｳ'],
        'え' => seq!['ｴ'],
        'お' => seq!['ｵ'],
        'か' => seq!['ｶ'],
        'き' => seq!['ｷ'],
        'く' => seq!['ｸ'],
        'け' => seq!['ｹ'],
        'こ' => seq!['ｺ'],
        'さ' => seq!['ｻ'],
        'し' => seq!['ｼ'],
        'す' => seq!['ｽ'],
        'せ' => seq!['ｾ'],
        'そ' => seq!['ｿ'],
        'た' => seq!['ﾀ'],
        'ち' => seq!['ﾁ'],
        'つ' => seq!['ﾂ'],
        'て' => seq!['ﾃ'],
        'と' => seq!['ﾄ'],
        'な' => seq!['ﾅ'],
        'に' => seq!['ﾆ'],
        'ぬ' => seq!['ﾇ'],
        'ね' => seq!['ﾈ'],
        'の' => seq!['ﾉ'],
        'は' => seq!['ﾊ'],
        'ひ' => seq!['ﾋ'],
        'ふ' => seq!['ﾌ'],
        'へ' => seq!['ﾍ'],
        'ほ' => seq!['ﾎ'],
        'ま' => seq!['ﾏ'],
        'み' => seq!['ﾐ'],
        'む' => seq!['ﾑ'],
        'め' => seq!['ﾒ'],
        'も' => seq!['ﾓ'],
        'や' => seq!['ﾔ'],
        'ゆ' => seq!['ﾕ'],
        'よ' => seq!['ﾖ'],
        'ら' => seq!['ﾗ'],
        'り' => seq!['ﾘ'],
        'る' => seq!['ﾙ'],
        'れ' => seq!['ﾚ'],
        'ろ' => seq!['ﾛ'],
        'わ' => seq!['ﾜ'],
        'を' => seq!['ｦ'],
        'ん' => seq!['ﾝ'],
        'が' => seq!['ｶ', 'ﾞ'],
        'ぎ' => seq!['ｷ', 'ﾞ'],
        'ぐ' => seq!['ｸ', 'ﾞ'],
        'げ' => seq!['ｹ', 'ﾞ'],
        'ご' => seq!['ｺ', 'ﾞ'],
        'ざ' => seq!['ｻ', 'ﾞ'],
        'じ' => seq!['ｼ', 'ﾞ'],
        'ず' => seq!['ｽ', 'ﾞ'],
        'ぜ' => seq!['ｾ', 'ﾞ'],
        'ぞ' => seq!['ｿ', 'ﾞ'],
        'だ' => seq!['ﾀ', 'ﾞ'],
        'ぢ' => seq!['ﾁ', 'ﾞ'],
        'づ' => seq!['ﾂ', 'ﾞ'],
        'で' => seq!['ﾃ', 'ﾞ'],
        'ど' => seq!['ﾄ', 'ﾞ'],
        'ば' => seq!['ﾊ', 'ﾞ'],
        'び' => seq!['ﾋ', 'ﾞ'],
        'ぶ' => seq!['ﾌ', 'ﾞ'],
        'べ' => seq!['ﾍ', 'ﾞ'],
        'ぼ' => seq!['ﾎ', 'ﾞ'],
        'ゔ' => seq!['ｳ', 'ﾞ'],
        'ぱ' => seq!['ﾊ', 'ﾟ'],
        'ぴ' => seq!['ﾋ', 'ﾟ'],
        'ぷ' => seq!['ﾌ', 'ﾟ'],
        'ぺ' => seq!['ﾍ', 'ﾟ'],
        'ぽ' => seq!['ﾎ', 'ﾟ'],
        'ぁ' => seq!['ｧ'],
        'ぃ' => seq!['ｨ'],
        'ぅ' => seq!['ｩ'],
        'ぇ' => seq!['ｪ'],
        'ぉ' => seq!['ｫ'],
        'っ' => seq!['ｯ'],
        'ゃ' => seq!['ｬ'],
        'ゅ' => seq!['ｭ'],
        'ょ' => seq!['ｮ'],
        '。' => seq!['｡'],
        '、' => seq!['､'],
        '・' => seq!['･'],
        'ー' => seq!['ｰ'],
        '「' => seq!['｢'],
        '」' => seq!['｣'],
        _ => seq![c],
    }
}

/// One character at half-width katakana form (see [`half_form`]).
pub fn hiragana_to_halfwidth_katakana_char(c: char) -> (r: Vec<char>)
    ensures
        r@ == half_form(c),
{
    match c {
        'あ' => vec!['ｱ'],
        'い' => vec!['ｲ'],
        'う' => vec!['ｳ'],
        'え' => vec!['ｴ'],
        'お' => vec!['ｵ'],
        'か' => vec!['ｶ'],
        'き' => vec!['ｷ'],
        'く' => vec!['ｸ'],
        'け' => vec!['ｹ'],
        'こ' => vec!['ｺ'],
        'さ' => vec!['ｻ'],
        'し' => vec!['ｼ'],
        'す' => vec!['ｽ'],
        'せ' => vec!['ｾ'],
        'そ' => vec!['ｿ'],
        'た' => vec!['ﾀ'],
        'ち' => vec!['ﾁ'],
        'つ' => vec!['ﾂ'],
        'て' => vec!['ﾃ'],
        'と' => vec!['ﾄ'],
        'な' => vec!['ﾅ'],
        'に' => vec!['ﾆ'],
        'ぬ' => vec!['ﾇ'],
        'ね' => vec!['ﾈ'],
        'の' => vec!['ﾉ'],
        'は' => vec!['ﾊ'],
        'ひ' => vec!['ﾋ'],
        'ふ' => vec!['ﾌ'],
        'へ' => vec!['ﾍ'],
        'ほ' => vec!['ﾎ'],
        'ま' => vec!['ﾏ'],
        'み' => vec!['ﾐ'],
        'む' => vec!['ﾑ'],
        'め' => vec!['ﾒ'],
        'も' => vec!['ﾓ'],
        'や' => vec!['ﾔ'],
        'ゆ' => vec!['ﾕ'],
        'よ' => vec!['ﾖ'],
        'ら' => vec!['ﾗ'],
        'り' => vec!['ﾘ'],
        'る' => vec!['ﾙ'],
        'れ' => vec!['ﾚ'],
        'ろ' => vec!['ﾛ'],
        'わ' => vec!['ﾜ'],
        'を' => vec!['ｦ'],
        'ん' => vec!['ﾝ'],
        'が' => vec!['ｶ', 'ﾞ'],
        'ぎ' => vec!['ｷ', 'ﾞ'],
        'ぐ' => vec!['ｸ', 'ﾞ'],
        'げ' => vec!['ｹ', 'ﾞ'],
        'ご' => vec!['ｺ', 'ﾞ'],
        'ざ' => vec!['ｻ', 'ﾞ'],
        'じ' => vec!['ｼ', 'ﾞ'],
        'ず' => vec!['ｽ', 'ﾞ'],
        'ぜ' => vec!['ｾ', 'ﾞ'],
        'ぞ' => vec!['ｿ', 'ﾞ'],
        'だ' => vec!['ﾀ', 'ﾞ'],
        'ぢ' => vec!['ﾁ', 'ﾞ'],
        'づ' => vec!['ﾂ', 'ﾞ'],
        'で' => vec!['ﾃ', 'ﾞ'],
        'ど' => vec!['ﾄ', 'ﾞ'],
        'ば' => vec!['ﾊ', 'ﾞ'],
        'び' => vec!['ﾋ', 'ﾞ'],
        'ぶ' => vec!['ﾌ', 'ﾞ'],
        'べ' => vec!['ﾍ', 'ﾞ'],
        'ぼ' => vec!['ﾎ', 'ﾞ'],
        'ゔ' => vec!['ｳ', 'ﾞ'],
        'ぱ' => vec!['ﾊ', 'ﾟ'],
        'ぴ' => vec!['ﾋ', 'ﾟ'],
        'ぷ' => vec!['ﾌ', 'ﾟ'],
        'ぺ' => vec!['ﾍ', 'ﾟ'],
        'ぽ' => vec!['ﾎ', 'ﾟ'],
        'ぁ' => vec!['ｧ'],
        'ぃ' => vec!['ｨ'],
        'ぅ' => vec!['ｩ'],
        'ぇ' => vec!['ｪ'],
        'ぉ' => vec!['ｫ'],
        'っ' => vec!['ｯ'],
        'ゃ' => vec!['ｬ'],
        'ゅ' => vec!['ｭ'],
        'ょ' => vec!['ｮ'],
        '。' => vec!['｡'],
        '、' => vec!['､'],
        '・' => vec!['･'],
        'ー' => vec!['ｰ'],
        '「' => vec!['｢'],
        '」' => vec!['｣'],
        _ => vec![c],
    }
}

/// Each character replaced by its half-width katakana form.
pub open spec fn spec_half_katakana(s: Seq<char>) -> Seq<char>
    decreases s.len(),
{
    if s.len() == 0 {
        Seq::empty()
    } else {
        spec_half_katakana(s.drop_last()) + half_form(s.last())
    }
}

/// Convert hiragana to half-width katakana (半角カタカナ). Voiced kana
/// become two code points, base and mark: が becomes ｶﾞ.
pub fn hiragana_to_halfwidth_katakana(text: &str) -> (r: String)
    ensures
        r@ == spec_half_katakana(text@),
{
    let cs = chars_of(text);
    let mut out: Vec<char> = Vec::new();
    let mut i: usize = 0;
    while i < cs.len()
        invariant
            i <= cs.len(),
            out@ == spec_half_katakana(cs@.take(i as int)),
        decreases cs.len() - i,
    {
        let piece = hiragana_to_halfwidth_katakana_char(cs[i]);
        let mut k: usize = 0;
        let ghost before = out@;
        while k < piece.len()
            invariant
                k <= piece.len(),
                out@ == before + piece@.take(k as int),
            decreases piece.len() - k,
        {
            out.push(piece[k]);
            k += 1;
            assert(out@ =~= before + piece@.take(k as int));
        }
        assert(piece@.take(piece.len() as int) =~= piece@);
        assert(cs@.take(i + 1).drop_last() =~= cs@.take(i as int));
        i += 1;
    }
    assert(cs@.take(cs.len() as int) =~= cs@);
    string_of(&out)
}

// ---------- reading half-width katakana back ----------

/// The full-width character Unicode's compatibility mapping gives a
/// half-width katakana letter or Japanese punctuation mark; anything else
/// stands for itself.
pub open spec fn full_of_half(c: char) -> char {
    match c {
        'ｱ' => 'ア',
        'ｲ' => 'イ',
        'ｳ' => 'ウ',
        'ｴ' => 'エ',
        'ｵ' => 'オ',
        'ｶ' => 'カ',
        'ｷ' => 'キ',
        'ｸ' => 'ク',
        'ｹ' => 'ケ',
        'ｺ' => 'コ',
        'ｻ' => 'サ',
        'ｼ' => 'シ',
        'ｽ' => 'ス',
        'ｾ' => 'セ',
        'ｿ' => 'ソ',
        'ﾀ' => 'タ',
        'ﾁ' => 'チ',
        'ﾂ' => 'ツ',
        'ﾃ' => 'テ',
        'ﾄ' => 'ト',
        'ﾅ' => 'ナ',
        'ﾆ' => 'ニ',
        'ﾇ' => 'ヌ',
        'ﾈ' => 'ネ',
        'ﾉ' => 'ノ',
        'ﾊ' => 'ハ',
        'ﾋ' => 'ヒ',
        'ﾌ' => 'フ',
        'ﾍ' => 'ヘ',
        'ﾎ' => 'ホ',
        'ﾏ' => 'マ',
        'ﾐ' => 'ミ',
        'ﾑ' => 'ム',
        'ﾒ' => 'メ',
        'ﾓ' => 'モ',
        'ﾔ' => 'ヤ',
        'ﾕ' => 'ユ',
        'ﾖ' => 'ヨ',
        'ﾗ' => 'ラ',
        'ﾘ' => 'リ',
        'ﾙ' => 'ル',
        'ﾚ' => 'レ',
        'ﾛ' => 'ロ',
        'ﾜ' => 'ワ',
        'ｦ' => 'ヲ',
        'ﾝ' => 'ン',
        'ｧ' => 'ァ',
        'ｨ' => 'ィ',
        'ｩ' => 'ゥ',
        'ｪ' => 'ェ',
        'ｫ' => 'ォ',
        'ｯ' => 'ッ',
        'ｬ' => 'ャ',
        'ｭ' => 'ュ',
        'ｮ' => 'ョ',
        'ｰ' => 'ー',
        '｡' => '。',
        '､' => '、',
        '･' => '・',
        '｢' => '「',
        '｣' => '」',
        _ => c,
    }
}

/// The voiced katakana a base composes into with the voicing mark ﾞ
/// (カ→ガ … ト→ド, ハ→バ …, ウ→ヴ); `None` for a base that has none.
pub open spec fn voiced_of(k: char) -> Option<char> {
    if k == 'カ' || k == 'キ' || k == 'ク' || k == 'ケ' || k == 'コ' || k == 'サ' || k == 'シ' || k
        == 'ス' || k == 'セ' || k == 'ソ' || k == 'タ' || k == 'チ' || k == 'ツ' || k == 'テ' || k
        == 'ト' || k == 'ハ' || k == 'ヒ' || k == 'フ' || k == 'ヘ' || k == 'ホ' {
        Some(((k as int) + 1) as char)
    } else if k == 'ウ' {
        Some('ヴ')
    } else {
        None
    }
}

/// The semi-voiced katakana a base composes into with the mark ﾟ (ハ→パ …
/// ホ→ポ); `None` for any other base.
pub open spec fn semi_voiced_of(k: char) -> Option<char> {
    if k == 'ハ' || k == 'ヒ' || k == 'フ' || k == 'ヘ' || k == 'ホ' {
        Some(((k as int) + 2) as char)
    } else {
        None
    }
}

/// Half-width katakana read back at full width, a base and its following
/// mark composed into one character.
pub open spec fn widen(s: Seq<char>) -> Seq<char>
    decreases s.len(),
{
    if s.len() == 0 {
        Seq::empty()
    } else if s.len() >= 2 && s[1] == 'ﾞ' && voiced_of(full_of_half(s[0])) is Some {
        seq![voiced_of(full_of_half(s[0]))->0] + widen(s.skip(2))
    } else if s.len() >= 2 && s[1] == 'ﾟ' && semi_voiced_of(full_of_half(s[0])) is Some {
        seq![semi_voiced_of(full_of_half(s[0]))->0] + widen(s.skip(2))
    } else {
        seq![full_of_half(s[0])] + widen(s.skip(1))
    }
}

/// The hiragana with a half-width katakana form: all of the block but ゎ,
/// ゐ, ゑ, ゕ and ゖ.
pub open spec fn has_half_form(c: char) -> bool {
    is_hiragana(c) && c != 'ゎ' && c != 'ゐ' && c != 'ゑ' && c != 'ゕ' && c != 'ゖ'
}

/// The Japanese punctuation marks with a half-width form.
pub open spec fn is_half_punct(c: char) -> bool {
    c == '。' || c == '、' || c == '・' || c == 'ー' || c == '「' || c == '」'
}

/// Whether `s` is made of characters with a half-width form.
pub open spec fn all_half_convertible(s: Seq<char>) -> bool {
    forall|i: int| 0 <= i < s.len() ==> has_half_form(#[trigger] s[i]) || is_half_punct(s[i])
}

/// The full-width form of each character: katakana for hiragana.
pub open spec fn kata_seq(s: Seq<char>) -> Seq<char> {
    s.map_values(|c: char| kata_of(c))
}

/// Read back at full width, the half-width form of a hiragana is its
/// katakana, and that of a punctuation mark is the mark: a voiced kana
/// becomes its unvoiced base with ﾞ, a p-row kana its base with ﾟ, and
/// nothing is lost or changed on the way.
#[verifier::rlimit(100)]
pub proof fn lemma_half_form_reads_back(c: char)
    ensures
        has_half_form(c) ==> widen(half_form(c)) == seq![kata_of(c)],
        is_half_punct(c) ==> widen(half_form(c)) == seq![c],
        has_half_form(c) || is_half_punct(c) ==> half_form(c).len() >= 1 && half_form(c)[0] != 'ﾞ'
            && half_form(c)[0] != 'ﾟ',
{
    reveal_with_fuel(widen, 3);
}

proof fn lemma_widen_concat(x: Seq<char>, y: Seq<char>)
    requires
        y.len() == 0 || (y[0] != 'ﾞ' && y[0] != 'ﾟ'),
    ensures
        widen(x + y) == widen(x) + widen(y),
    decreases x.len(),
{
    let xy = x + y;
    if x.len() == 0 {
        assert(xy =~= y);
        assert(widen(x) =~= Seq::<char>::empty());
        assert(widen(x) + widen(y) =~= widen(y));
    } else if x.len() >= 2 && ((x[1] == 'ﾞ' && voiced_of(full_of_half(x[0])) is Some) || (x[1]
        == 'ﾟ' && semi_voiced_of(full_of_half(x[0])) is Some)) {
        assert(xy[0] == x[0] && xy[1] == x[1]);
        assert(xy.skip(2) =~= x.skip(2) + y);
        lemma_widen_concat(x.skip(2), y);
        assert(widen(xy) =~= widen(x) + widen(y));
    } else {
        assert(xy[0] == x[0]);
        if x.len() >= 2 {
            assert(xy[1] == x[1]);
        } else if y.len() > 0 {
            assert(xy[1] == y[0]);
        }
        assert(xy.skip(1) =~= x.skip(1) + y);
        lemma_widen_concat(x.skip(1), y);
        assert(widen(xy) =~= widen(x) + widen(y));
    }
}

/// Read back at full width, the half-width katakana of a text of hiragana
/// and Japanese punctuation is its katakana: the conversion loses and
/// changes nothing but the width.
pub proof fn lemma_half_katakana_reads_back(s: Seq<char>)
    requires
        all_half_convertible(s),
    ensures
        widen(spec_half_katakana(s)) == kata_seq(s),
    decreases s.len(),
{
    if s.len() > 0 {
        let init = s.drop_last();
        let c = s.last();
        assert(all_half_convertible(init)) by {
            assert forall|i: int| 0 <= i < init.len() implies has_half_form(#[trigger] init[i])
                || is_half_punct(init[i]) by {
                assert(init[i] == s[i]);
            }
        }
        assert(has_half_form(c) || is_half_punct(c)) by {
            assert(c == s[s.len() - 1]);
        }
        lemma_half_katakana_reads_back(init);
        lemma_half_form_reads_back(c);
        lemma_widen_concat(spec_half_katakana(init), half_form(c));
        assert(is_half_punct(c) ==> kata_of(c) == c);
        assert(kata_seq(s) =~= kata_seq(init).push(kata_of(c)));
        assert(widen(half_form(c)) == seq![kata_of(c)]);
        assert(kata_seq(init) + seq![kata_of(c)] =~= kata_seq(init).push(kata_of(c)));
    } else {
        assert(kata_seq(s) =~= Seq::<char>::empty());
    }
}

/// What NFKC normalization (Unicode compatibility decomposition followed
/// by canonical composition) makes of a text.
pub uninterp spec fn nfkc(s: Seq<char>) -> Seq<char>;

/// Apply NFKC normalization (`unicode_normalization`'s `nfkc`). Models
/// whose tokenizer lacks full-width ASCII need it: `（` becomes `(`, `！`
/// becomes `!`, `０` becomes `0`; kana and kanji are left alone. The
/// contract names the result and claims nothing else of it.
#[verifier::external_body]
pub fn normalize_nfkc(text: &str) -> (r: String)
    ensures
        r@ == nfkc(text@),
{
    text.nfkc().collect()
}

} // verus!
