//! Stateless romaji-to-hiragana conversion over the rule table.
//!
//! Each call derives its result from the full raw input, so the caller owns
//! all editing state. Conversion reads keystrokes left to right into a
//! buffer; after every keystroke the buffer is resolved by [`spec_step`]:
//! fired rules move their output to the text, keystrokes that start no rule
//! pass through, and whatever may still grow into a longer rule stays
//! pending.

use vstd::prelude::*;

use crate::romaji::rules::{
    build_rules, lemma_rule_table_regular_n, regular_n_key, rule_table, rule_views, Rule,
};
use crate::romaji::style::{BracketStyle, PunctuationStyle, SlashStyle, SymbolStyle};
use crate::text::{chars_of, char_from_u32, string_of};
use crate::width::WidthRules;

verus! {

// ---------- the rule table as a mathematical object ----------

/// Index of the first rule at or after `i` whose key is `s`.
pub open spec fn find_key(rules: Seq<Rule>, s: Seq<char>, i: int) -> Option<int>
    decreases rules.len() - i,
{
    if i < 0 || i >= rules.len() {
        None
    } else if rules[i].key@ == s {
        Some(i)
    } else {
        find_key(rules, s, i + 1)
    }
}

/// A found index is in range and holds the key.
pub proof fn lemma_find_key_range(rules: Seq<Rule>, s: Seq<char>, i: int)
    ensures
        find_key(rules, s, i) matches Some(j) ==> i <= j < rules.len() && rules[j].key@ == s,
    decreases rules.len() - i,
{
    if 0 <= i < rules.len() && rules[i].key@ != s {
        lemma_find_key_range(rules, s, i + 1);
    }
}

/// `s` is the key of some rule.
pub open spec fn is_key(rules: Seq<Rule>, s: Seq<char>) -> bool {
    find_key(rules, s, 0) is Some
}

/// The output of the (first) rule keyed `s`; empty when there is none.
pub open spec fn output_of(rules: Seq<Rule>, s: Seq<char>) -> Seq<char> {
    match find_key(rules, s, 0) {
        Some(i) => rules[i].output@,
        None => Seq::empty(),
    }
}

/// `s` is a strict prefix of some key: more input could still complete a
/// rule (`k`, `ky`, `n`).
pub open spec fn extends(rules: Seq<Rule>, s: Seq<char>) -> bool {
    exists|j: int|
        0 <= j < rules.len() && s.len() < rules[j].key@.len() && #[trigger] rules[j].key@.take(
            s.len() as int,
        ) == s
}

/// `s` is a prefix of some key, possibly the whole key.
pub open spec fn prefix_of_key(rules: Seq<Rule>, s: Seq<char>) -> bool {
    exists|j: int|
        0 <= j < rules.len() && s.len() <= rules[j].key@.len() && #[trigger] rules[j].key@.take(
            s.len() as int,
        ) == s
}

/// Length of the longest prefix of `s`, at most `i` long, that is a key; 0
/// when none is.
pub open spec fn longest(rules: Seq<Rule>, s: Seq<char>, i: int) -> int
    decreases i,
{
    if i <= 0 {
        0
    } else if is_key(rules, s.take(i)) {
        i
    } else {
        longest(rules, s, i - 1)
    }
}

/// The longest key prefix is no longer than the bound it was searched
/// under.
pub proof fn lemma_longest_bound(rules: Seq<Rule>, s: Seq<char>, i: int)
    ensures
        0 <= longest(rules, s, i),
        i >= 0 ==> longest(rules, s, i) <= i,
        longest(rules, s, i) > 0 ==> is_key(rules, s.take(longest(rules, s, i))),
    decreases i,
{
    if i > 0 && !is_key(rules, s.take(i)) {
        lemma_longest_bound(rules, s, i - 1);
    }
}

/// Vowels, `y` and the apostrophe: after these an `n` is still a syllable
/// onset (`na`, `nya`, `n'`), not ん.
pub open spec fn is_soft(c: char) -> bool {
    c == 'a' || c == 'i' || c == 'u' || c == 'e' || c == 'o' || c == 'y' || c == '\''
}

/// Vowels and `n`, which never double into っ.
pub open spec fn is_vowel_or_n(c: char) -> bool {
    c == 'a' || c == 'i' || c == 'u' || c == 'e' || c == 'o' || c == 'n'
}

/// ASCII uppercase folded to lowercase.
pub open spec fn spec_lower(c: char) -> char {
    if 'A' <= c && c <= 'Z' {
        ((c as int) + 32) as char
    } else {
        c
    }
}

/// Resolve a keystroke buffer: returns the text the buffer fires and the
/// buffer left pending.
///
/// - `nn` followed by anything is ん, and the rest resolves on its own;
/// - `n` before a consonant (not a vowel, `y` or `'`) is ん;
/// - a doubled consonant as the whole buffer is っ plus that consonant;
/// - otherwise the longest key prefix fires, unless it is the whole buffer
///   and a longer rule could still follow (then the buffer waits, except
///   `n'` and `nn`, which fire at once);
/// - with no key prefix, a buffer that is still on the way to some key
///   waits; otherwise its first keystroke fires (if it is a key) or passes
///   through, and the rest resolves on its own.
pub open spec fn spec_step(rules: Seq<Rule>, buf: Seq<char>) -> (Seq<char>, Seq<char>)
    decreases buf.len(),
{
    let n = buf.len();
    if n >= 3 && buf[0] == 'n' && buf[1] == 'n' {
        let (e, b) = spec_step(rules, buf.skip(2));
        (seq!['ん'] + e, b)
    } else if n >= 2 && buf[n - 2] == 'n' && !is_soft(buf[n - 1]) && !(n == 2 && buf[n - 1]
        == 'n') {
        let (e, b) = spec_step(rules, buf.take(n - 2).push(buf[n - 1]));
        (seq!['ん'] + e, b)
    } else if n == 2 && buf[1] == buf[0] && !is_vowel_or_n(buf[1]) {
        (seq!['っ'], seq![buf[1]])
    } else {
        let m = longest(rules, buf, n as int);
        proof {
            lemma_longest_bound(rules, buf, n as int);
        }
        if m > 0 {
            let out = output_of(rules, buf.take(m));
            if extends(rules, buf.take(m)) && m == n {
                if n == 2 && buf[0] == 'n' && (buf[1] == '\'' || buf[1] == 'n') {
                    (out, Seq::empty())
                } else {
                    (Seq::empty(), buf)
                }
            } else if m == n {
                (out, Seq::empty())
            } else {
                let (e, b) = spec_step(rules, buf.skip(m));
                (out + e, b)
            }
        } else if n == 0 {
            (Seq::empty(), buf)
        } else if prefix_of_key(rules, buf) {
            (Seq::empty(), buf)
        } else {
            let first = buf[0];
            let head = if is_key(rules, seq![first]) {
                output_of(rules, seq![first])
            } else {
                seq![first]
            };
            if n == 1 {
                (head, Seq::empty())
            } else {
                let (e, b) = spec_step(rules, buf.skip(1));
                (head + e, b)
            }
        }
    }
}

/// Convert keystrokes left to right: `(text, pending)`.
pub open spec fn spec_convert(rules: Seq<Rule>, raw: Seq<char>) -> (Seq<char>, Seq<char>)
    decreases raw.len(),
{
    if raw.len() == 0 {
        (Seq::empty(), Seq::empty())
    } else {
        let (text, buf) = spec_convert(rules, raw.drop_last());
        let (e, b) = spec_step(rules, buf.push(spec_lower(raw.last())));
        (text + e, b)
    }
}

/// Force-convert leftover input: the longest key prefix fires, anything
/// else passes through one character at a time.
pub open spec fn spec_flush(rules: Seq<Rule>, buf: Seq<char>) -> Seq<char>
    decreases buf.len(),
{
    if buf.len() == 0 {
        Seq::empty()
    } else {
        let m = longest(rules, buf, buf.len() as int);
        proof {
            lemma_longest_bound(rules, buf, buf.len() as int);
        }
        if m > 0 {
            output_of(rules, buf.take(m)) + spec_flush(rules, buf.skip(m))
        } else {
            seq![buf[0]] + spec_flush(rules, buf.skip(1))
        }
    }
}

// ---------- the pending law ----------

/// `c` occurs inside some key, before its last character.
pub open spec fn inner_char(rules: Seq<Rule>, c: char) -> bool {
    exists|j: int, i: int|
        0 <= j < rules.len() && 0 <= i < rules[j].key@.len() - 1 && #[trigger] rules[j].key@[i]
            == c
}

/// Every keystroke that occurs inside a key (before its end) is a vowel,
/// `n`, or itself begins a longer key — so a doubled keystroke that stays
/// pending can still grow into a rule.
pub open spec fn rules_closed(rules: Seq<Rule>) -> bool {
    forall|c: char| #[trigger] inner_char(rules, c) && !is_vowel_or_n(c) ==> extends(rules, seq![c])
}

/// Every character but the last is an inner key character.
pub open spec fn inner_but_last(rules: Seq<Rule>, buf: Seq<char>) -> bool {
    forall|k: int| 0 <= k < buf.len() - 1 ==> inner_char(rules, #[trigger] buf[k])
}

/// A key that exists is found.
pub proof fn lemma_find_key_exists(rules: Seq<Rule>, s: Seq<char>, i: int, j: int)
    requires
        0 <= i <= j < rules.len(),
        rules[j].key@ == s,
    ensures
        find_key(rules, s, i) is Some,
    decreases j - i,
{
    if rules[i].key@ != s {
        lemma_find_key_exists(rules, s, i + 1, j);
    }
}

/// Resolving a buffer leaves a pending buffer that is empty or can still
/// grow into a key.
pub proof fn lemma_step_pending(rules: Seq<Rule>, buf: Seq<char>)
    requires
        rules_closed(rules),
        inner_but_last(rules, buf),
    ensures
        spec_step(rules, buf).1.len() == 0 || extends(rules, spec_step(rules, buf).1),
    decreases buf.len(),
{
    let n = buf.len();
    if n >= 3 && buf[0] == 'n' && buf[1] == 'n' {
        let rest = buf.skip(2);
        assert forall|k: int| 0 <= k < rest.len() - 1 implies inner_char(rules, #[trigger] rest[k]) by {
            assert(rest[k] == buf[k + 2]);
        }
        lemma_step_pending(rules, rest);
    } else if n >= 2 && buf[n - 2] == 'n' && !is_soft(buf[n - 1]) && !(n == 2 && buf[n - 1]
        == 'n') {
        let nb = buf.take(n - 2).push(buf[n - 1]);
        assert forall|k: int| 0 <= k < nb.len() - 1 implies inner_char(rules, #[trigger] nb[k]) by {
            assert(nb[k] == buf[k]);
        }
        lemma_step_pending(rules, nb);
    } else if n == 2 && buf[1] == buf[0] && !is_vowel_or_n(buf[1]) {
        assert(inner_char(rules, buf[0]));
    } else {
        let m = longest(rules, buf, n as int);
        lemma_longest_bound(rules, buf, n as int);
        if m > 0 {
            if extends(rules, buf.take(m)) && m == n {
                assert(buf.take(m) == buf);
            } else if m < n {
                let rest = buf.skip(m);
                assert forall|k: int| 0 <= k < rest.len() - 1 implies inner_char(
                    rules,
                    #[trigger] rest[k],
                ) by {
                    assert(rest[k] == buf[k + m]);
                }
                lemma_step_pending(rules, rest);
            }
        } else if n == 0 {
        } else if prefix_of_key(rules, buf) {
            let j = choose|j: int|
                0 <= j < rules.len() && buf.len() <= rules[j].key@.len() && #[trigger] rules[j].key@.take(
                    buf.len() as int,
                ) == buf;
            if buf.len() == rules[j].key@.len() {
                assert(rules[j].key@ == rules[j].key@.take(buf.len() as int));
                lemma_find_key_exists(rules, buf, 0, j);
                assert(buf.take(n as int) == buf);
                assert(false);
            }
            assert(extends(rules, buf));
        } else if n > 1 {
            let rest = buf.skip(1);
            assert forall|k: int| 0 <= k < rest.len() - 1 implies inner_char(rules, #[trigger] rest[k]) by {
                assert(rest[k] == buf[k + 1]);
            }
            lemma_step_pending(rules, rest);
        }
    }
}

/// A pending buffer that can grow into a key is made of inner key
/// characters, so a keystroke appended to it keeps the precondition of
/// [`lemma_step_pending`].
pub proof fn lemma_push_inner(rules: Seq<Rule>, buf: Seq<char>, c: char)
    requires
        buf.len() == 0 || extends(rules, buf),
    ensures
        inner_but_last(rules, buf.push(c)),
{
    if buf.len() > 0 {
        let j = choose|j: int|
            0 <= j < rules.len() && buf.len() < rules[j].key@.len() && #[trigger] rules[j].key@.take(
                buf.len() as int,
            ) == buf;
        assert forall|k: int| 0 <= k < buf.push(c).len() - 1 implies inner_char(
            rules,
            #[trigger] buf.push(c)[k],
        ) by {
            assert(buf.push(c)[k] == rules[j].key@.take(buf.len() as int)[k]);
            assert(rules[j].key@[k] == buf.push(c)[k]);
        }
    }
}

/// The documented promise of `convert`: what stays pending is empty or may
/// still combine with future keys (`k`, `ky`, a lone `n`) — provided the
/// table is closed in the sense of [`rules_closed`], which
/// `RomajiConverter::has_closed_rules` checks.
pub proof fn lemma_convert_pending(rules: Seq<Rule>, raw: Seq<char>)
    requires
        rules_closed(rules),
    ensures
        spec_convert(rules, raw).1.len() == 0 || extends(rules, spec_convert(rules, raw).1),
    decreases raw.len(),
{
    if raw.len() > 0 {
        let (text, buf) = spec_convert(rules, raw.drop_last());
        lemma_convert_pending(rules, raw.drop_last());
        lemma_push_inner(rules, buf, spec_lower(raw.last()));
        lemma_step_pending(rules, buf.push(spec_lower(raw.last())));
    }
}

// ---------- the syllabic n ----------

/// Every key longer than one keystroke that begins with `n` continues with
/// a vowel, `y`, the apostrophe or a second `n` (な…, にゃ…, `n'`, `nn`):
/// the shape of the romaji tables the converter is built for.
pub open spec fn n_onsets_regular(rules: Seq<Rule>) -> bool {
    forall|j: int|
        0 <= j < rules.len() && #[trigger] rules[j].key@.len() >= 2 && rules[j].key@[0] == 'n'
            ==> {
            let c = rules[j].key@[1];
            c == 'a' || c == 'i' || c == 'u' || c == 'e' || c == 'o' || c == 'y' || c == '\'' || c
                == 'n'
        }
}

proof fn lemma_key_witness(rules: Seq<Rule>, s: Seq<char>) -> (j: int)
    requires
        is_key(rules, s),
    ensures
        0 <= j < rules.len(),
        rules[j].key@ == s,
{
    lemma_find_key_range(rules, s, 0);
    find_key(rules, s, 0)->0
}

/// An `n` followed by a keystroke with which it still begins a longer key
/// (`ny` on the way to にゃ) is not ん: the two keystrokes wait together
/// for the rest of the syllable.
pub proof fn lemma_n_onset_waits(rules: Seq<Rule>, c: char)
    requires
        n_onsets_regular(rules),
        !is_key(rules, seq!['n']),
        c != 'n',
        c != '\'',
        extends(rules, seq!['n', c]),
    ensures
        spec_step(rules, seq!['n', c]) == (Seq::<char>::empty(), seq!['n', c]),
{
    let buf = seq!['n', c];
    let j = choose|j: int|
        0 <= j < rules.len() && buf.len() < rules[j].key@.len() && #[trigger] rules[j].key@.take(
            buf.len() as int,
        ) == buf;
    assert(rules[j].key@[0] == rules[j].key@.take(2)[0]);
    assert(rules[j].key@[1] == rules[j].key@.take(2)[1]);
    assert(buf.take(1) =~= seq!['n']);
    assert(buf.take(2) =~= buf);
    assert(prefix_of_key(rules, buf));
    reveal_with_fuel(longest, 3);
    assert(longest(rules, buf, 1) == 0);
    if is_key(rules, buf) {
        assert(longest(rules, buf, 2) == 2);
    } else {
        assert(longest(rules, buf, 2) == 0);
    }
}

/// An `n` before a consonant that forms no key with it (`nk`, `nt`, …) is
/// ん, and the consonant goes on on its own.
pub proof fn lemma_n_before_consonant(rules: Seq<Rule>, c: char)
    requires
        'a' <= c <= 'z',
        c != 'a' && c != 'i' && c != 'u' && c != 'e' && c != 'o' && c != 'y' && c != 'n',
    ensures
        spec_step(rules, seq!['n', c]) == ({
            let (e, b) = spec_step(rules, seq![c]);
            (seq!['ん'] + e, b)
        }),
{
    assert(seq!['n', c].take(0).push(c) =~= seq![c]);
}

/// Typed on its own, an `n`-syllable key of two or three keystrokes that no
/// longer key extends (な, `n'`, `nn`, にゃ, にゅ, にょ, …) converts to
/// exactly its rule's output with nothing pending: its `n` is never taken
/// for ん on the way.
pub proof fn lemma_n_syllable_converts(rules: Seq<Rule>, key: Seq<char>)
    requires
        n_onsets_regular(rules),
        !is_key(rules, seq!['n']),
        key.len() == 2 || key.len() == 3,
        key[0] == 'n',
        key.len() == 3 ==> key[1] == 'y' && !is_key(rules, seq!['n', 'y']) && 'a' <= key[2] <= 'z',
        key.len() == 2 ==> key[1] != 'y',
        is_key(rules, key),
        !extends(rules, key),
    ensures
        spec_convert(rules, key) == (output_of(rules, key), Seq::<char>::empty()),
{
    let j = lemma_key_witness(rules, key);
    assert(rules[j].key@.len() >= 2 && rules[j].key@[0] == 'n');
    let c = key[1];
    assert(c == 'a' || c == 'i' || c == 'u' || c == 'e' || c == 'o' || c == 'y' || c == '\'' || c
        == 'n');
    assert(spec_lower('n') == 'n');
    assert(spec_lower(c) == c);
    // The first keystroke waits: `n` is no key but begins one.
    assert(key.take(1) =~= seq!['n']);
    assert(rules[j].key@.take(1) =~= seq!['n']);
    assert(extends(rules, seq!['n']));
    assert(seq!['n'].take(1) =~= seq!['n']);
    assert(prefix_of_key(rules, seq!['n']));
    reveal_with_fuel(longest, 3);
    assert(longest(rules, seq!['n'], 1) == 0);
    assert(spec_step(rules, seq!['n']) == (Seq::<char>::empty(), seq!['n']));
    let k1 = key.take(1);
    assert(spec_convert(rules, k1.drop_last()) == (Seq::<char>::empty(), Seq::<char>::empty()));
    assert(Seq::<char>::empty().push(spec_lower(k1.last())) =~= seq!['n']);
    assert(spec_convert(rules, k1) == (Seq::<char>::empty(), seq!['n']));
    let two = seq!['n', c];
    assert(key.take(2) =~= two);
    assert(seq!['n'].push(c) =~= two);
    if key.len() == 2 {
        assert(key =~= two);
        assert(key.drop_last() =~= k1);
        assert(two.take(2) =~= two);
        assert(spec_step(rules, two) == (output_of(rules, two), Seq::<char>::empty()));
        assert(Seq::<char>::empty() + output_of(rules, two) =~= output_of(rules, two));
    } else {
        let v = key[2];
        assert(spec_lower(v) == v);
        assert(rules[j].key@.take(2) =~= two);
        assert(extends(rules, two));
        lemma_n_onset_waits(rules, 'y');
        assert(key.take(2).drop_last() =~= k1);
        assert(spec_convert(rules, key.take(2)) == (Seq::<char>::empty(), two));
        assert(key.drop_last() =~= key.take(2));
        assert(two.push(v) =~= key);
        assert(key.take(3) =~= key);
        assert(spec_step(rules, key) == (output_of(rules, key), Seq::<char>::empty()));
        assert(Seq::<char>::empty() + output_of(rules, key) =~= output_of(rules, key));
    }
}

/// The converter's rule tables, whatever the symbol style, have the shape
/// the syllabic-n laws above ask for: no lone `n` or `ny` key, and every
/// `n`-key continuing with a vowel, `y`, `'` or `n`.
pub proof fn lemma_table_n_shape(rules: Seq<Rule>, style: SymbolStyle)
    requires
        rule_views(rules) == rule_table(style),
    ensures
        n_onsets_regular(rules),
        !is_key(rules, seq!['n']),
        !is_key(rules, seq!['n', 'y']),
{
    lemma_rule_table_regular_n(style);
    let t = rule_table(style);
    assert forall|j: int| 0 <= j < rules.len() implies regular_n_key(#[trigger] rules[j].key@) by {
        assert(rule_views(rules)[j] == (rules[j].key@, rules[j].output@));
        assert(regular_n_key(t[j].0));
    }
    lemma_find_key_range(rules, seq!['n'], 0);
    lemma_find_key_range(rules, seq!['n', 'y'], 0);
    if is_key(rules, seq!['n']) {
        let j = find_key(rules, seq!['n'], 0)->0;
        assert(regular_n_key(rules[j].key@));
        assert(rules[j].key@ == seq!['n']);
        assert(rules[j].key@.len() == 1 && rules[j].key@[0] == 'n');
    }
    if is_key(rules, seq!['n', 'y']) {
        let j = find_key(rules, seq!['n', 'y'], 0)->0;
        assert(regular_n_key(rules[j].key@));
        assert(rules[j].key@ == seq!['n', 'y']);
        assert(rules[j].key@.len() == 2 && rules[j].key@[0] == 'n' && rules[j].key@[1] == 'y');
    }
}

/// With the converter's own rule tables: `ny` followed by a vowel converts
/// to the rule's にゃ-style syllable, and `n` with a vowel, `'` or `n` to
/// its rule's output, whole and with nothing pending, whenever no longer key
/// continues it; an `n` starting a longer key together with the next
/// keystroke waits; and an `n` before any other consonant is ん.
pub proof fn lemma_table_n_syllables(rules: Seq<Rule>, style: SymbolStyle, key: Seq<char>, c: char)
    requires
        rule_views(rules) == rule_table(style),
    ensures
        (key.len() == 2 || key.len() == 3) && key[0] == 'n' && (key.len() == 3 ==> key[1] == 'y'
            && 'a' <= key[2] <= 'z') && (key.len() == 2 ==> key[1] != 'y') && is_key(rules, key)
            && !extends(rules, key) ==> spec_convert(rules, key) == (
            output_of(rules, key),
            Seq::<char>::empty(),
        ),
        c != 'n' && c != '\'' && extends(rules, seq!['n', c]) ==> spec_step(rules, seq!['n', c]) == (
        Seq::<char>::empty(), seq!['n', c]),
{
    lemma_table_n_shape(rules, style);
    if (key.len() == 2 || key.len() == 3) && key[0] == 'n' && (key.len() == 3 ==> key[1] == 'y'
        && 'a' <= key[2] <= 'z') && (key.len() == 2 ==> key[1] != 'y') && is_key(rules, key)
        && !extends(rules, key) {
        lemma_n_syllable_converts(rules, key);
    }
    if c != 'n' && c != '\'' && extends(rules, seq!['n', c]) {
        lemma_n_onset_waits(rules, c);
    }
}

// ---------- executable helpers ----------

fn lower(c: char) -> (r: char)
    ensures
        r == spec_lower(c),
{
    if 'A' <= c && c <= 'Z' {
        match char_from_u32(c as u32 + 32) {
            Some(l) => l,
            None => c,
        }
    } else {
        c
    }
}

fn subvec(v: &Vec<char>, from: usize, to: usize) -> (r: Vec<char>)
    requires
        from <= to <= v.len(),
    ensures
        r@ == v@.subrange(from as int, to as int),
{
    let mut r: Vec<char> = Vec::new();
    let mut i = from;
    while i < to
        invariant
            from <= i <= to <= v.len(),
            r@ == v@.subrange(from as int, i as int),
        decreases to - i,
    {
        r.push(v[i]);
        i += 1;
        assert(r@ == v@.subrange(from as int, i as int));
    }
    r
}

fn append(out: &mut Vec<char>, v: &Vec<char>)
    ensures
        final(out)@ == old(out)@ + v@,
{
    let mut i: usize = 0;
    while i < v.len()
        invariant
            i <= v.len(),
            out@ == old(out)@ + v@.take(i as int),
        decreases v.len() - i,
    {
        out.push(v[i]);
        i += 1;
        assert(out@ == old(out)@ + v@.take(i as int));
    }
    assert(v@.take(v.len() as int) == v@);
}

/// Whether `key` equals the first `len` characters of `buf`.
fn key_is(key: &Vec<char>, buf: &Vec<char>, len: usize) -> (r: bool)
    requires
        len <= buf.len(),
    ensures
        r == (key@ == buf@.take(len as int)),
{
    if key.len() != len {
        return false;
    }
    let mut i: usize = 0;
    while i < len
        invariant
            i <= len <= buf.len(),
            key.len() == len,
            key@.take(i as int) == buf@.take(i as int),
        decreases len - i,
    {
        if key[i] != buf[i] {
            assert(key@[i as int] != buf@.take(len as int)[i as int]);
            return false;
        }
        i += 1;
        assert(key@.take(i as int) == buf@.take(i as int));
    }
    assert(key@ == key@.take(len as int));
    true
}

/// Whether the first `len` characters of `buf` are the first `len`
/// characters of `key` (and `key` is at least `min` long).
fn key_starts_with(key: &Vec<char>, buf: &Vec<char>, len: usize, strict: bool) -> (r: bool)
    requires
        len <= buf.len(),
    ensures
        r == ((if strict { len < key@.len() } else { len <= key@.len() }) && key@.take(len as int)
            == buf@.take(len as int)),
{
    if strict && key.len() <= len {
        return false;
    }
    if !strict && key.len() < len {
        return false;
    }
    let mut i: usize = 0;
    while i < len
        invariant
            i <= len <= buf.len(),
            len <= key.len(),
            key@.take(i as int) == buf@.take(i as int),
        decreases len - i,
    {
        if key[i] != buf[i] {
            assert(key@.take(len as int)[i as int] != buf@.take(len as int)[i as int]);
            return false;
        }
        i += 1;
        assert(key@.take(i as int) == buf@.take(i as int));
    }
    true
}

/// Result of converting a raw input string.
#[derive(Debug, Clone, PartialEq)]
pub struct Converted {
    /// Converted output: hiragana plus passed-through characters
    pub text: String,
    /// Unresolved trailing input that may still extend to a longer rule
    pub pending: String,
}

/// Stateless romaji-to-hiragana converter.
///
/// Holds only the rule table and the width settled characters come out at;
/// each call derives its result from the full raw input.
pub struct RomajiConverter {
    rules: Vec<Rule>,
    width: WidthRules,
}

impl RomajiConverter {
    /// The rule table.
    pub closed spec fn rules(&self) -> Seq<Rule> {
        self.rules@
    }

    /// The width rules settled characters come out at.
    pub closed spec fn spec_width(&self) -> WidthRules {
        self.width
    }

    /// Create a new converter with the default rules, symbol style and
    /// width rules.
    pub fn new() -> (r: Self)
        ensures
            r.spec_width() == WidthRules::default_spec(),
            rule_views(r.rules()) == rule_table(
                (SymbolStyle {
                    punctuation: PunctuationStyle::KutenTouten,
                    bracket: BracketStyle::Corner,
                    slash: SlashStyle::MiddleDot,
                }),
            ),
    {
        Self::with_style(SymbolStyle::default(), WidthRules::default())
    }

    /// A converter typing `style`'s symbols, settling at `width`.
    pub fn with_style(style: SymbolStyle, width: WidthRules) -> (r: Self)
        ensures
            r.spec_width() == width,
            rule_views(r.rules()) == rule_table(style),
    {
        RomajiConverter { rules: build_rules(style), width }
    }

    /// The width rules settled characters come out at.
    pub fn width(&self) -> (r: WidthRules)
        ensures
            r == self.spec_width(),
    {
        self.width
    }

    fn find(&self, buf: &Vec<char>, len: usize) -> (r: Option<usize>)
        requires
            len <= buf.len(),
        ensures
            r matches Some(i) ==> find_key(self.rules(), buf@.take(len as int), 0) == Some(
                i as int,
            ),
            r is None ==> find_key(self.rules(), buf@.take(len as int), 0) is None,
            r matches Some(i) ==> i < self.rules().len(),
    {
        let ghost s = buf@.take(len as int);
        let mut i: usize = 0;
        while i < self.rules.len()
            invariant
                i <= self.rules.len(),
                len <= buf.len(),
                s == buf@.take(len as int),
                find_key(self.rules@, s, 0) == find_key(self.rules@, s, i as int),
            decreases self.rules.len() - i,
        {
            proof {
                lemma_find_key_range(self.rules@, s, i as int);
            }
            if key_is(&self.rules[i].key, buf, len) {
                return Some(i);
            }
            i += 1;
        }
        None
    }

    fn has_extension(&self, buf: &Vec<char>, len: usize, strict: bool) -> (r: bool)
        requires
            len <= buf.len(),
        ensures
            strict ==> r == extends(self.rules(), buf@.take(len as int)),
            !strict ==> r == prefix_of_key(self.rules(), buf@.take(len as int)),
    {
        let ghost s = buf@.take(len as int);
        let mut i: usize = 0;
        while i < self.rules.len()
            invariant
                i <= self.rules.len(),
                len <= buf.len(),
                s == buf@.take(len as int),
                s.len() == len,
                forall|j: int|
                    0 <= j < i ==> !((if strict {
                        s.len() < #[trigger] self.rules@[j].key@.len()
                    } else {
                        s.len() <= self.rules@[j].key@.len()
                    }) && self.rules@[j].key@.take(len as int) == s),
            decreases self.rules.len() - i,
        {
            if key_starts_with(&self.rules[i].key, buf, len, strict) {
                assert(self.rules@[i as int].key@.take(s.len() as int) == s);
                assert(self.rules()[i as int].key@.take(s.len() as int) == s);
                return true;
            }
            i += 1;
        }
        proof {
            if strict {
                assert(!extends(self.rules@, s));
            } else {
                assert(!prefix_of_key(self.rules@, s));
            }
        }
        false
    }

    /// Length of the longest key prefix of `buf`.
    fn longest_match(&self, buf: &Vec<char>) -> (r: usize)
        ensures
            r as int == longest(self.rules(), buf@, buf@.len() as int),
            r <= buf.len(),
    {
        let mut i = buf.len();
        while i > 0
            invariant
                i <= buf.len(),
                longest(self.rules@, buf@, buf@.len() as int) == longest(
                    self.rules@,
                    buf@,
                    i as int,
                ),
            decreases i,
        {
            if self.find(buf, i).is_some() {
                return i;
            }
            i -= 1;
        }
        0
    }

    /// Output of the first rule keyed by `buf`'s first `len` characters.
    fn output_for(&self, buf: &Vec<char>, len: usize) -> (r: Vec<char>)
        requires
            len <= buf.len(),
        ensures
            r@ == output_of(self.rules(), buf@.take(len as int)),
    {
        match self.find(buf, len) {
            Some(i) => self.rules[i].output.clone(),
            None => Vec::new(),
        }
    }

    /// Exec form of [`spec_step`]: appends the fired text to `out` and
    /// returns the pending buffer.
    fn step(&self, buf: Vec<char>, out: &mut Vec<char>) -> (rest: Vec<char>)
        ensures
            final(out)@ == old(out)@ + spec_step(self.rules(), buf@).0,
            rest@ == spec_step(self.rules(), buf@).1,
        decreases buf@.len(),
    {
        let n = buf.len();
        if n >= 3 && buf[0] == 'n' && buf[1] == 'n' {
            out.push('ん');
            let rest = subvec(&buf, 2, n);
            assert(rest@ == buf@.skip(2));
            return self.step(rest, out);
        }
        if n >= 2 && buf[n - 2] == 'n' && !(buf[n - 1] == 'a' || buf[n - 1] == 'i' || buf[n
            - 1] == 'u' || buf[n - 1] == 'e' || buf[n - 1] == 'o' || buf[n - 1] == 'y' || buf[n
            - 1] == '\'') && !(n == 2 && buf[n - 1] == 'n') {
            out.push('ん');
            let mut nb = subvec(&buf, 0, n - 2);
            nb.push(buf[n - 1]);
            assert(nb@ == buf@.take(n - 2).push(buf@[n - 1]));
            return self.step(nb, out);
        }
        if n == 2 && buf[1] == buf[0] && !(buf[1] == 'a' || buf[1] == 'i' || buf[1] == 'u'
            || buf[1] == 'e' || buf[1] == 'o' || buf[1] == 'n') {
            out.push('っ');
            let mut r: Vec<char> = Vec::new();
            r.push(buf[1]);
            return r;
        }
        let m = self.longest_match(&buf);
        if m > 0 {
            let o = self.output_for(&buf, m);
            if m == n && self.has_extension(&buf, m, true) {
                assert(buf@.take(m as int) == buf@);
                if n == 2 && buf[0] == 'n' && (buf[1] == '\'' || buf[1] == 'n') {
                    append(out, &o);
                    return Vec::new();
                }
                return buf;
            }
            append(out, &o);
            if m == n {
                return Vec::new();
            }
            let rest = subvec(&buf, m, n);
            assert(rest@ == buf@.skip(m as int));
            return self.step(rest, out);
        }
        if n == 0 {
            return buf;
        }
        assert(buf@.take(n as int) == buf@);
        if self.has_extension(&buf, n, false) {
            return buf;
        }
        let first = buf[0];
        let mut single: Vec<char> = Vec::new();
        single.push(first);
        assert(single@.take(1) == seq![first]);
        let ghost head = if is_key(self.rules(), seq![first]) {
            output_of(self.rules(), seq![first])
        } else {
            seq![first]
        };
        if self.find(&single, 1).is_some() {
            let o = self.output_for(&single, 1);
            append(out, &o);
        } else {
            out.push(first);
            assert(out@ == old(out)@ + seq![first]);
        }
        assert(out@ == old(out)@ + head);
        if n == 1 {
            return Vec::new();
        }
        let rest = subvec(&buf, 1, n);
        assert(rest@ == buf@.skip(1));
        let ghost mid = out@;
        let r = self.step(rest, out);
        assert(out@ == old(out)@ + (head + spec_step(self.rules(), buf@.skip(1)).0));
        r
    }

    /// Convert `raw` left to right. `pending` holds the trailing input that
    /// may still combine with future keys (e.g. `k`, `ky`, a lone `n`).
    pub fn convert(&self, raw: &str) -> (r: Converted)
        ensures
            (r.text@, r.pending@) == spec_convert(self.rules(), raw@),
    {
        let cs = chars_of(raw);
        let mut out: Vec<char> = Vec::new();
        let mut buf: Vec<char> = Vec::new();
        let mut i: usize = 0;
        while i < cs.len()
            invariant
                i <= cs.len(),
                cs@ == raw@,
                (out@, buf@) == spec_convert(self.rules(), cs@.take(i as int)),
            decreases cs.len() - i,
        {
            let ghost before = cs@.take(i as int);
            buf.push(lower(cs[i]));
            buf = self.step(buf, &mut out);
            i += 1;
            assert(cs@.take(i as int).drop_last() == before);
            assert(cs@.take(i as int).last() == cs@[i - 1]);
        }
        assert(cs@.take(cs.len() as int) == cs@);
        Converted { text: string_of(&out), pending: string_of(&buf) }
    }

    fn flush_chars(&self, buf: Vec<char>, out: &mut Vec<char>)
        ensures
            final(out)@ == old(out)@ + spec_flush(self.rules(), buf@),
        decreases buf@.len(),
    {
        let n = buf.len();
        if n == 0 {
            assert(old(out)@ + Seq::<char>::empty() == old(out)@);
            return;
        }
        let m = self.longest_match(&buf);
        if m > 0 {
            let o = self.output_for(&buf, m);
            append(out, &o);
            let rest = subvec(&buf, m, n);
            assert(rest@ == buf@.skip(m as int));
            self.flush_chars(rest, out);
        } else {
            out.push(buf[0]);
            let rest = subvec(&buf, 1, n);
            assert(rest@ == buf@.skip(1));
            self.flush_chars(rest, out);
        }
    }

    /// Force-convert leftover pending input (`ltu` → っ); characters with no
    /// rule pass through literally (a trailing `n` stays `n`).
    pub fn flush_pending(&self, pending: &str) -> (r: String)
        ensures
            r@ == spec_flush(self.rules(), pending@),
    {
        let cs = chars_of(pending);
        let mut out: Vec<char> = Vec::new();
        self.flush_chars(cs, &mut out);
        string_of(&out)
    }

    /// Convert then flush the leftover: the committed form of `raw`.
    pub fn convert_flush(&self, raw: &str) -> (r: String)
        ensures
            r@ == spec_convert(self.rules(), raw@).0 + spec_flush(
                self.rules(),
                spec_convert(self.rules(), raw@).1,
            ),
    {
        let c = self.convert(raw);
        let cs = chars_of(c.text.as_str());
        let mut out = cs;
        let p = chars_of(c.pending.as_str());
        self.flush_chars(p, &mut out);
        string_of(&out)
    }

    /// Whether `s` is a strict prefix of some conversion rule (e.g. `k`,
    /// `ky`, `n`) — i.e. more input could still complete a conversion.
    pub fn is_rule_prefix(&self, s: &str) -> (r: bool)
        ensures
            r == extends(self.rules(), s@),
    {
        let cs = chars_of(s);
        let r = self.has_extension(&cs, cs.len(), true);
        assert(cs@.take(cs.len() as int) == cs@);
        r
    }

    /// Whether the single keystroke `c` can begin a longer rule — a
    /// passed-through keystroke that stays live.
    pub fn starts_rule(&self, c: char) -> (r: bool)
        ensures
            r == extends(self.rules(), seq![c]),
    {
        let mut v: Vec<char> = Vec::new();
        v.push(c);
        let r = self.has_extension(&v, 1, true);
        assert(v@.take(1) == seq![c]);
        r
    }

    /// Whether the rule table is closed in the sense of [`rules_closed`]:
    /// the condition under which [`lemma_convert_pending`] promises that
    /// `pending` can always still grow into a rule.
    pub fn has_closed_rules(&self) -> (r: bool)
        ensures
            r == rules_closed(self.rules()),
    {
        let mut j: usize = 0;
        while j < self.rules.len()
            invariant
                j <= self.rules.len(),
                forall|jj: int, ii: int|
                    0 <= jj < j && 0 <= ii < self.rules@[jj].key@.len() - 1 ==> is_vowel_or_n(
                        #[trigger] self.rules@[jj].key@[ii],
                    ) || extends(self.rules@, seq![self.rules@[jj].key@[ii]]),
            decreases self.rules.len() - j,
        {
            let key = &self.rules[j].key;
            let mut i: usize = 0;
            while i < key.len() && i + 1 < key.len()
                invariant
                    j < self.rules.len(),
                    key == &self.rules@[j as int].key,
                    i <= key.len(),
                    forall|jj: int, ii: int|
                        0 <= jj < j && 0 <= ii < self.rules@[jj].key@.len() - 1 ==> is_vowel_or_n(
                            #[trigger] self.rules@[jj].key@[ii],
                        ) || extends(self.rules@, seq![self.rules@[jj].key@[ii]]),
                    forall|ii: int|
                        0 <= ii < i && ii < key@.len() - 1 ==> is_vowel_or_n(#[trigger] key@[ii])
                            || extends(self.rules@, seq![key@[ii]]),
                decreases key.len() - i,
            {
                let c = key[i];
                let soft = c == 'a' || c == 'i' || c == 'u' || c == 'e' || c == 'o' || c == 'n';
                if !soft && !self.starts_rule(c) {
                    proof {
                        assert(inner_char(self.rules@, c) && self.rules@[j as int].key@[i as int]
                            == c);
                    }
                    return false;
                }
                i += 1;
            }
            j += 1;
        }
        proof {
            assert forall|c: char| #[trigger]
                inner_char(self.rules@, c) && !is_vowel_or_n(c) implies extends(
                self.rules@,
                seq![c],
            ) by {
                let (jj, ii) = choose|jj: int, ii: int|
                    0 <= jj < self.rules@.len() && 0 <= ii < self.rules@[jj].key@.len() - 1
                        && #[trigger] self.rules@[jj].key@[ii] == c;
                assert(is_vowel_or_n(self.rules@[jj].key@[ii]) || extends(
                    self.rules@,
                    seq![self.rules@[jj].key@[ii]],
                ));
            }
        }
        true
    }
}

} // verus!
