//! One kana-kanji conversion, without the model call itself: whether the
//! model runs at all and with which strategy, which cached results serve
//! it, and which results are stored.

use vstd::prelude::*;

use crate::engine::cache::{
    after_insert, lookup, ConversionCache, ConversionCacheKey, EntryView, KeyView, ModelRole,
    lemma_get_keeps_contents,
};
use crate::engine::strategy::{determine_conversion_strategy, spec_strategy, ConversionStrategy, StrategyMode};
use crate::kana::{hiragana_to_katakana, kata_of};
use crate::text::{chars_of, strs};

verus! {

/// Hiragana or katakana (U+3041–U+309F, U+30A0–U+30FF).
pub open spec fn is_kana(c: char) -> bool {
    ('\u{3041}' <= c && c <= '\u{309F}') || ('\u{30A0}' <= c && c <= '\u{30FF}')
}

/// Whether the text holds any kana.
pub open spec fn has_kana(s: Seq<char>) -> bool {
    exists|i: int| 0 <= i < s.len() && is_kana(#[trigger] s[i])
}

/// Whether `text` holds any kana.
pub fn contains_kana(text: &str) -> (r: bool)
    ensures
        r == has_kana(text@),
{
    let cs = chars_of(text);
    let mut i: usize = 0;
    while i < cs.len()
        invariant
            cs@ == text@,
            i <= cs.len(),
            forall|j: int| 0 <= j < i ==> !is_kana(#[trigger] cs@[j]),
        decreases cs.len() - i,
    {
        let c = cs[i];
        if ('\u{3041}' <= c && c <= '\u{309F}') || ('\u{30A0}' <= c && c <= '\u{30FF}') {
            assert(is_kana(text@[i as int]));
            return true;
        }
        i += 1;
    }
    false
}

/// The conversion to run for `reading`: none for a kana-free reading
/// (the model hallucinates on symbols and letters; rewriters cover them),
/// otherwise the katakana the model is fed and the strategy — the main
/// model alone, greedy, while no main model is loaded.
pub open spec fn spec_plan(
    reading: Seq<char>,
    num_candidates: usize,
    has_main_model: bool,
    has_light_model: bool,
    use_light: bool,
    mode: StrategyMode,
    beam_width: usize,
    chunk_chars: usize,
) -> Option<(Seq<char>, ConversionStrategy)> {
    if !has_kana(reading) {
        None
    } else {
        Some(
            (
                reading.map_values(|c: char| kata_of(c)),
                if !has_main_model {
                    ConversionStrategy::MainModelOnly
                } else {
                    spec_strategy(
                        reading.len() as usize,
                        num_candidates,
                        has_light_model,
                        use_light,
                        mode,
                        beam_width,
                        chunk_chars,
                    )
                },
            ),
        )
    }
}

/// Plan the conversion of `reading` (see [`spec_plan`]).
pub fn conversion_plan(
    reading: &str,
    num_candidates: usize,
    has_main_model: bool,
    has_light_model: bool,
    use_light: bool,
    mode: StrategyMode,
    beam_width: usize,
    chunk_chars: usize,
) -> (r: Option<(String, ConversionStrategy)>)
    ensures
        match r {
            Some((k, s)) => spec_plan(
                reading@,
                num_candidates,
                has_main_model,
                has_light_model,
                use_light,
                mode,
                beam_width,
                chunk_chars,
            ) == Some((k@, s)),
            None => spec_plan(
                reading@,
                num_candidates,
                has_main_model,
                has_light_model,
                use_light,
                mode,
                beam_width,
                chunk_chars,
            ) is None,
        },
{
    if !contains_kana(reading) {
        return None;
    }
    let katakana = hiragana_to_katakana(reading);
    let n = chars_of(reading).len();
    let strategy = if !has_main_model {
        ConversionStrategy::MainModelOnly
    } else {
        determine_conversion_strategy(
            n,
            num_candidates,
            has_light_model,
            use_light,
            mode,
            beam_width,
            chunk_chars,
        )
    };
    Some((katakana, strategy))
}

/// The model computations a strategy runs, each a model and a beam width
/// (1 = greedy): the parallel beam runs the main model greedy and the
/// light model's beam; every other strategy runs one.
pub open spec fn spec_computations(s: ConversionStrategy) -> Seq<(ModelRole, usize)> {
    match s {
        ConversionStrategy::ParallelBeam { beam_width } => seq![
            (ModelRole::Main, 1usize),
            (ModelRole::Light, beam_width),
        ],
        ConversionStrategy::LightModelOnly => seq![(ModelRole::Light, 1usize)],
        ConversionStrategy::LightModelBeam { beam_width } => seq![(ModelRole::Light, beam_width)],
        ConversionStrategy::MainModelOnly => seq![(ModelRole::Main, 1usize)],
        ConversionStrategy::MainModelBeam { beam_width } => seq![(ModelRole::Main, beam_width)],
    }
}

/// The computations of `strategy` (see [`spec_computations`]).
pub fn computations(strategy: ConversionStrategy) -> (r: Vec<(ModelRole, usize)>)
    ensures
        r@ == spec_computations(strategy),
{
    let mut r: Vec<(ModelRole, usize)> = Vec::new();
    match strategy {
        ConversionStrategy::ParallelBeam { beam_width } => {
            r.push((ModelRole::Main, 1));
            r.push((ModelRole::Light, beam_width));
        },
        ConversionStrategy::LightModelOnly => r.push((ModelRole::Light, 1)),
        ConversionStrategy::LightModelBeam { beam_width } => r.push((ModelRole::Light, beam_width)),
        ConversionStrategy::MainModelOnly => r.push((ModelRole::Main, 1)),
        ConversionStrategy::MainModelBeam { beam_width } => r.push((ModelRole::Main, beam_width)),
    }
    assert(r@ =~= spec_computations(strategy));
    r
}

/// The cache key of one computation.
pub fn cache_key(model: ModelRole, beam_width: usize, katakana: &str, lctx: &str) -> (r: ConversionCacheKey)
    ensures
        r@ == (katakana@, lctx@, model, beam_width),
{
    ConversionCacheKey { katakana: katakana.to_owned(), lctx: lctx.to_owned(), model, beam_width }
}

/// What the cache serves a computation: its own entry, or — for a
/// light-model computation — the main model's entry for the same reading,
/// context and beam width (the better model, at no cost). Never a
/// light-model entry for a main-model computation.
pub open spec fn spec_cached(es: Seq<EntryView>, k: KeyView) -> Option<Seq<Seq<char>>> {
    let hit = lookup(es, k);
    if hit is Some {
        hit
    } else if k.2 == ModelRole::Light {
        lookup(es, (k.0, k.1, ModelRole::Main, k.3))
    } else {
        None
    }
}

/// The cached result for one computation (see [`spec_cached`]); a hit is
/// marked as just used, and no cached candidates change.
pub fn cached_result(
    cache: &mut ConversionCache,
    model: ModelRole,
    beam_width: usize,
    katakana: &str,
    lctx: &str,
) -> (r: Option<Vec<String>>)
    requires
        old(cache).wf(),
        old(cache).clock() < u64::MAX - 1,
    ensures
        final(cache).wf(),
        final(cache).capacity() == old(cache).capacity(),
        final(cache).clock() <= old(cache).clock() + 2,
        final(cache).entries().len() == old(cache).entries().len(),
        forall|k: KeyView| #[trigger] lookup(final(cache).entries(), k) == lookup(old(cache).entries(), k),
        match r {
            Some(v) => spec_cached(old(cache).entries(), (katakana@, lctx@, model, beam_width)) == Some(
                strs(v@),
            ),
            None => spec_cached(old(cache).entries(), (katakana@, lctx@, model, beam_width)) is None,
        },
{
    let ghost es0 = cache.entries();
    proof {
        cache.lemma_wf_keys();
    }
    let key = cache_key(model, beam_width, katakana, lctx);
    let first = cache.get(&key);
    let ghost es1 = cache.entries();
    proof {
        lemma_get_keeps_contents(es0, key@, cache.clock(), key@);
        assert forall|k: KeyView| #[trigger] lookup(es1, k) == lookup(es0, k) by {
            lemma_get_keeps_contents(es0, key@, cache.clock(), k);
        }
    }
    match first {
        Some(v) => Some(v),
        None => {
            if model == ModelRole::Light {
                proof {
                    cache.lemma_wf_keys();
                }
                let main_key = cache_key(ModelRole::Main, beam_width, katakana, lctx);
                let second = cache.get(&main_key);
                proof {
                    lemma_get_keeps_contents(es1, main_key@, cache.clock(), key@);
                    assert forall|k: KeyView| #[trigger] lookup(cache.entries(), k) == lookup(es0, k) by {
                        lemma_get_keeps_contents(es1, main_key@, cache.clock(), k);
                    }
                }
                second
            } else {
                None
            }
        },
    }
}

/// Store a computation's result — unless it is empty: an empty result
/// usually means a conversion error, and caching it would replay the
/// failure.
pub fn store_result(cache: &mut ConversionCache, key: ConversionCacheKey, candidates: Vec<String>)
    requires
        old(cache).wf(),
        old(cache).clock() < u64::MAX,
    ensures
        final(cache).wf(),
        final(cache).capacity() == old(cache).capacity(),
        candidates.len() == 0 ==> final(cache).entries() == old(cache).entries() && final(cache).clock()
            == old(cache).clock(),
        candidates.len() > 0 ==> final(cache).clock() == old(cache).clock() + 1 && final(cache).entries()
            == after_insert(
            old(cache).entries(),
            key@,
            strs(candidates@),
            final(cache).clock(),
            old(cache).capacity(),
        ),
{
    if candidates.len() > 0 {
        cache.insert(key, candidates);
    }
}

} // verus!
