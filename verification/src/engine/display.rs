//! Text shown around the composition: the editor context line.

use vstd::prelude::*;

use crate::text::{chars_of, string_of};

verus! {

/// The last `n` characters of `s` (all of it when shorter).
pub open spec fn last_chars(s: Seq<char>, n: int) -> Seq<char> {
    if s.len() <= n {
        s
    } else {
        s.skip(s.len() - n)
    }
}

/// The first `n` characters of `s` (all of it when shorter).
pub open spec fn first_chars(s: Seq<char>, n: int) -> Seq<char> {
    if s.len() <= n {
        s
    } else {
        s.take(n)
    }
}

/// Keep the last `n` characters of `s`.
pub fn keep_last_chars(s: &str, n: usize) -> (r: String)
    ensures
        r@ == last_chars(s@, n as int),
{
    let cs = chars_of(s);
    if cs.len() <= n {
        return string_of(&cs);
    }
    let mut out: Vec<char> = Vec::new();
    let from = cs.len() - n;
    let mut i = from;
    while i < cs.len()
        invariant
            cs@ == s@,
            from <= i <= cs.len(),
            out@ == cs@.subrange(from as int, i as int),
        decreases cs.len() - i,
    {
        out.push(cs[i]);
        i += 1;
        assert(out@ =~= cs@.subrange(from as int, i as int));
    }
    assert(out@ =~= s@.skip(s@.len() - n));
    string_of(&out)
}

/// Keep the first `n` characters of `s`.
pub fn keep_first_chars(s: &str, n: usize) -> (r: String)
    ensures
        r@ == first_chars(s@, n as int),
{
    let cs = chars_of(s);
    if cs.len() <= n {
        return string_of(&cs);
    }
    let mut out: Vec<char> = Vec::new();
    let mut i: usize = 0;
    while i < n
        invariant
            cs@ == s@,
            n < cs.len(),
            i <= n,
            out@ == cs@.take(i as int),
        decreases n - i,
    {
        out.push(cs[i]);
        i += 1;
        assert(out@ =~= cs@.take(i as int));
    }
    string_of(&out)
}

/// The left context as shown: its tail after `...` when too long.
pub open spec fn shown_left(l: Seq<char>, max_len: int) -> Seq<char> {
    if l.len() > max_len {
        "..."@ + last_chars(l, max_len)
    } else {
        l
    }
}

/// The right context as shown: its head before `...` when too long.
pub open spec fn shown_right(r: Seq<char>, max_len: int) -> Seq<char> {
    if r.len() > max_len {
        first_chars(r, max_len) + "..."@
    } else {
        r
    }
}

/// The `lctx: … rctx: …` line for the editor's left and right context,
/// each cut to `max_len` characters (the left keeps its tail, the right its
/// head); empty contexts are left out, and a limit of 0 shows nothing.
pub open spec fn spec_context_line(left: Option<Seq<char>>, right: Option<Seq<char>>, max_len: int) -> Seq<char> {
    if max_len == 0 {
        Seq::empty()
    } else {
        let l = match left {
            Some(s) => if s.len() > 0 { Some(shown_left(s, max_len)) } else { None },
            None => None,
        };
        let r = match right {
            Some(s) => if s.len() > 0 { Some(shown_right(s, max_len)) } else { None },
            None => None,
        };
        match (l, r) {
            (Some(a), Some(b)) => "lctx: "@ + a + " rctx: "@ + b,
            (Some(a), None) => "lctx: "@ + a,
            (None, Some(b)) => "rctx: "@ + b,
            (None, None) => Seq::empty(),
        }
    }
}

fn concat(a: &str, b: &str) -> (r: String)
    ensures
        r@ == a@ + b@,
{
    let mut v = chars_of(a);
    let w = chars_of(b);
    let ghost before = v@;
    let mut k: usize = 0;
    while k < w.len()
        invariant
            k <= w.len(),
            v@ == before + w@.take(k as int),
        decreases w.len() - k,
    {
        v.push(w[k]);
        k += 1;
        assert(v@ =~= before + w@.take(k as int));
    }
    assert(w@.take(w.len() as int) =~= w@);
    string_of(&v)
}

/// Format the context line (see [`spec_context_line`]).
pub fn context_line(left: Option<&str>, right: Option<&str>, max_len: usize) -> (r: String)
    ensures
        r@ == spec_context_line(
            match left {
                Some(s) => Some(s@),
                None => None,
            },
            match right {
                Some(s) => Some(s@),
                None => None,
            },
            max_len as int,
        ),
{
    if max_len == 0 {
        return String::new();
    }
    let l: Option<String> = match left {
        Some(s) => {
            let n = chars_of(s).len();
            if n == 0 {
                None
            } else if n > max_len {
                Some(concat("...", keep_last_chars(s, max_len).as_str()))
            } else {
                Some(s.to_owned())
            }
        },
        None => None,
    };
    let r: Option<String> = match right {
        Some(s) => {
            let n = chars_of(s).len();
            if n == 0 {
                None
            } else if n > max_len {
                Some(concat(keep_first_chars(s, max_len).as_str(), "..."))
            } else {
                Some(s.to_owned())
            }
        },
        None => None,
    };
    match (l, r) {
        (Some(a), Some(b)) => concat(concat(concat("lctx: ", a.as_str()).as_str(), " rctx: ").as_str(), b.as_str()),
        (Some(a), None) => concat("lctx: ", a.as_str()),
        (None, Some(b)) => concat("rctx: ", b.as_str()),
        (None, None) => String::new(),
    }
}

} // verus!
