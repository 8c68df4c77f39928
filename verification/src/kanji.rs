//! Token-level helpers of the kana-kanji model: byte-fallback tokens,
//! display of partial UTF-8 output, and cache-prefix reuse.

use vstd::prelude::*;

use crate::text::{char_from_u32, string_of};

verus! {

/// A hexadecimal digit, either case.
pub open spec fn is_hex(c: char) -> bool {
    ('0' <= c && c <= '9') || ('a' <= c && c <= 'f') || ('A' <= c && c <= 'F')
}

/// Whether `s` is a byte-fallback token like `<0xCE>`: `<0x`, a byte in
/// hex (two digits, or a `+` sign and one digit, as `u8::from_str_radix`
/// reads them), then `>`.
pub open spec fn spec_byte_fallback(s: Seq<char>) -> bool {
    &&& s.len() == 6
    &&& s[0] == '<' && s[1] == '0' && s[2] == 'x'
    &&& s[5] == '>'
    &&& (is_hex(s[3]) || s[3] == '+') && is_hex(s[4])
}

/// Whether an added-token string is a byte-fallback token like `<0xCE>`.
/// Tokenizers mark them special, but they carry real output bytes and must
/// never be skipped as special.
pub fn is_byte_fallback_token(token: &str) -> (r: bool)
    ensures
        r == spec_byte_fallback(token@),
{
    let cs = crate::text::chars_of(token);
    if cs.len() != 6 {
        return false;
    }
    let hex3 = ('0' <= cs[3] && cs[3] <= '9') || ('a' <= cs[3] && cs[3] <= 'f') || ('A' <= cs[3]
        && cs[3] <= 'F');
    let hex4 = ('0' <= cs[4] && cs[4] <= '9') || ('a' <= cs[4] && cs[4] <= 'f') || ('A' <= cs[4]
        && cs[4] <= 'F');
    cs[0] == '<' && cs[1] == '0' && cs[2] == 'x' && cs[5] == '>' && (hex3 || cs[3] == '+') && hex4
}

/// An uppercase hexadecimal digit for a value below sixteen.
pub open spec fn upper_hex(d: int) -> char {
    if d < 10 {
        (d + 48) as char
    } else {
        (d + 55) as char
    }
}

/// `<HH>` for each byte, two uppercase hex digits.
pub open spec fn spec_hex_display(bytes: Seq<u8>) -> Seq<char>
    decreases bytes.len(),
{
    if bytes.len() == 0 {
        Seq::empty()
    } else {
        let b = bytes.last() as int;
        spec_hex_display(bytes.drop_last()) + seq!['<', upper_hex(b / 16), upper_hex(b % 16), '>']
    }
}

fn upper_hex_exec(d: u8) -> (c: char)
    requires
        d < 16,
    ensures
        c == upper_hex(d as int),
{
    let code: u32 = if d < 10 {
        d as u32 + 48
    } else {
        d as u32 + 55
    };
    match char_from_u32(code) {
        Some(c) => c,
        None => '0',
    }
}

/// Bytes of a partial UTF-8 sequence shown as `<CE><BB>`.
pub fn bytes_to_hex_display(bytes: &[u8]) -> (r: String)
    ensures
        r@ == spec_hex_display(bytes@),
{
    let mut out: Vec<char> = Vec::new();
    let mut i: usize = 0;
    while i < bytes.len()
        invariant
            i <= bytes.len(),
            out@ == spec_hex_display(bytes@.take(i as int)),
        decreases bytes.len() - i,
    {
        let b = bytes[i];
        out.push('<');
        out.push(upper_hex_exec(b / 16));
        out.push(upper_hex_exec(b % 16));
        out.push('>');
        assert(bytes@.take(i + 1).drop_last() =~= bytes@.take(i as int));
        i += 1;
        assert(out@ =~= spec_hex_display(bytes@.take(i as int)));
    }
    assert(bytes@.take(bytes.len() as int) =~= bytes@);
    string_of(&out)
}

/// Length of the longest common prefix of two token sequences.
pub fn common_prefix_len(a: &[i32], b: &[i32]) -> (n: usize)
    ensures
        n <= a.len(),
        n <= b.len(),
        forall|i: int| 0 <= i < n ==> a@[i] == b@[i],
        n < a.len() && n < b.len() ==> a@[n as int] != b@[n as int],
{
    let mut n: usize = 0;
    while n < a.len() && n < b.len() && a[n] == b[n]
        invariant
            n <= a.len(),
            n <= b.len(),
            forall|i: int| 0 <= i < n ==> a@[i] == b@[i],
        decreases a.len() - n,
    {
        n += 1;
    }
    n
}

} // verus!
