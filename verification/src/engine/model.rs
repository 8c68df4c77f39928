//! Choosing and merging model conversions: the candidate merge and the
//! window the beam search runs over.

use vstd::prelude::*;

use crate::engine::chunk::{is_japanese, spec_is_japanese};
use crate::text::strs;

verus! {

/// The sequence with every repeat after the first occurrence dropped.
pub open spec fn dedup_first(s: Seq<Seq<char>>) -> Seq<Seq<char>>
    decreases s.len(),
{
    if s.len() == 0 {
        Seq::empty()
    } else {
        let r = dedup_first(s.drop_last());
        if r.contains(s.last()) {
            r
        } else {
            r.push(s.last())
        }
    }
}

/// The first `n` elements, or all of them.
pub open spec fn first_n(s: Seq<Seq<char>>, n: int) -> Seq<Seq<char>> {
    if s.len() <= n {
        s
    } else {
        s.take(n)
    }
}

/// `d` with `x` added unless already there.
pub open spec fn with_new(d: Seq<Seq<char>>, x: Seq<char>) -> Seq<Seq<char>> {
    if d.contains(x) {
        d
    } else {
        d.push(x)
    }
}

fn merge_step(out: &mut Vec<String>, c: &String, max_candidates: usize, Ghost(d): Ghost<Seq<Seq<char>>>)
    requires
        strs(old(out)@) == first_n(d, max_candidates as int),
        d.len() >= old(out)@.len(),
    ensures
        strs(final(out)@) == first_n(with_new(d, c@), max_candidates as int),
        with_new(d, c@).len() >= final(out)@.len(),
{
    if out.len() < max_candidates {
        assert(strs(out@) == d);
        let mut seen = false;
        let mut k: usize = 0;
        while k < out.len()
            invariant
                k <= out.len(),
                seen == exists|j: int| 0 <= j < k && strs(out@)[j] == c@,
            decreases out.len() - k,
        {
            assert(strs(out@)[k as int] == out@[k as int]@);
            if out[k] == *c {
                seen = true;
            }
            k += 1;
        }
        if !seen {
            let ghost before = out@;
            out.push(c.clone());
            assert(strs(out@) =~= strs(before).push(c@));
        } else {
            assert(d.contains(c@));
        }
    } else {
        proof {
            if !d.contains(c@) {
                assert(d.push(c@).take(max_candidates as int) =~= d.take(max_candidates as int));
            }
        }
    }
}

/// Merge two candidate lists, primary first, dropping repeats, keeping at
/// most `max_candidates`.
pub fn merge_candidates_dedup(primary: Vec<String>, secondary: Vec<String>, max_candidates: usize) -> (r: Vec<String>)
    ensures
        strs(r@) == first_n(dedup_first(strs(primary@) + strs(secondary@)), max_candidates as int),
{
    let ghost all = strs(primary@) + strs(secondary@);
    let ghost pl = primary@.len() as int;
    let mut out: Vec<String> = Vec::new();
    assert(all.take(0) =~= Seq::<Seq<char>>::empty());
    assert(strs(out@) =~= Seq::<Seq<char>>::empty());
    let mut i: usize = 0;
    while i < primary.len()
        invariant
            all == strs(primary@) + strs(secondary@),
            pl == primary@.len(),
            i <= primary.len(),
            strs(out@) == first_n(dedup_first(all.take(i as int)), max_candidates as int),
            dedup_first(all.take(i as int)).len() >= out@.len(),
        decreases primary.len() - i,
    {
        assert(all[i as int] == primary@[i as int]@);
        assert(all.take(i + 1).drop_last() =~= all.take(i as int));
        merge_step(&mut out, &primary[i], max_candidates, Ghost(dedup_first(all.take(i as int))));
        i += 1;
    }
    let mut j: usize = 0;
    while j < secondary.len()
        invariant
            all == strs(primary@) + strs(secondary@),
            pl == primary@.len(),
            j <= secondary.len(),
            strs(out@) == first_n(dedup_first(all.take(pl + j)), max_candidates as int),
            dedup_first(all.take(pl + j)).len() >= out@.len(),
        decreases secondary.len() - j,
    {
        assert(all[pl + j] == secondary@[j as int]@);
        assert(all.take(pl + j + 1).drop_last() =~= all.take(pl + j));
        merge_step(&mut out, &secondary[j], max_candidates, Ghost(dedup_first(all.take(pl + j))));
        j += 1;
    }
    assert(all.take(pl + secondary@.len()) =~= all);
    out
}

/// Start of the run of Japanese characters that ends the reading.
pub open spec fn final_run_start(chars: Seq<char>, i: int) -> int
    decreases i,
{
    if i <= 0 {
        0
    } else if !spec_is_japanese(chars[i - 1]) {
        i
    } else {
        final_run_start(chars, i - 1)
    }
}

/// Start of the beam window: the final Japanese run, capped at the
/// smaller of `beam_window_len` and the chunk length.
pub open spec fn spec_beam_window_start(chars: Seq<char>, beam_window_len: int, chunk_len: int) -> int {
    let run = final_run_start(chars, chars.len() as int);
    let cap = if beam_window_len <= chunk_len {
        beam_window_len
    } else {
        chunk_len
    };
    let tail = if chars.len() >= cap {
        chars.len() - cap
    } else {
        0
    };
    if run >= tail {
        run
    } else {
        tail
    }
}

/// Where the beam window over `chars` starts (see
/// [`spec_beam_window_start`]).
pub fn beam_window_start(chars: &[char], beam_window_len: usize, chunk_len: usize) -> (r: usize)
    ensures
        r as int == spec_beam_window_start(chars@, beam_window_len as int, chunk_len as int),
        r <= chars.len(),
{
    let mut run = chars.len();
    while run > 0 && is_japanese(chars[run - 1])
        invariant
            run <= chars.len(),
            final_run_start(chars@, chars.len() as int) == final_run_start(chars@, run as int),
        decreases run,
    {
        run -= 1;
    }
    let cap = if beam_window_len <= chunk_len {
        beam_window_len
    } else {
        chunk_len
    };
    let tail = if chars.len() >= cap {
        chars.len() - cap
    } else {
        0
    };
    if run >= tail {
        run
    } else {
        tail
    }
}

/// The merged list holds every candidate at most once and at most
/// `max_candidates` of them.
pub proof fn lemma_merge_distinct(s: Seq<Seq<char>>, max_candidates: int)
    requires
        max_candidates >= 0,
    ensures
        first_n(dedup_first(s), max_candidates).len() <= max_candidates,
        forall|i: int, j: int|
            0 <= i < j < first_n(dedup_first(s), max_candidates).len() ==> first_n(
                dedup_first(s),
                max_candidates,
            )[i] != first_n(dedup_first(s), max_candidates)[j],
{
    lemma_dedup_distinct(s);
    let d = dedup_first(s);
    let f = first_n(d, max_candidates);
    assert forall|i: int, j: int| 0 <= i < j < f.len() implies f[i] != f[j] by {
        assert(f[i] == d[i] && f[j] == d[j]);
    }
}

proof fn lemma_dedup_distinct(s: Seq<Seq<char>>)
    ensures
        forall|i: int, j: int|
            0 <= i < j < dedup_first(s).len() ==> dedup_first(s)[i] != dedup_first(s)[j],
    decreases s.len(),
{
    if s.len() > 0 {
        lemma_dedup_distinct(s.drop_last());
        let r = dedup_first(s.drop_last());
        if !r.contains(s.last()) {
            let d = r.push(s.last());
            assert forall|i: int, j: int| 0 <= i < j < d.len() implies d[i] != d[j] by {
                if j == r.len() {
                    assert(d[i] == r[i]);
                    if r[i] == s.last() {
                        assert(r.contains(s.last()));
                    }
                }
            }
        }
    }
}

} // verus!
