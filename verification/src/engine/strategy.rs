//! Which model runs a conversion: decided from the reading length, the
//! candidate count asked for, whether a light model is loaded, and the
//! adaptive latency flag.

use vstd::prelude::*;

verus! {

/// How the conversion models are configured.
#[derive(Debug, Clone, Copy, PartialEq, Eq, Structural)]
pub enum StrategyMode {
    /// The main model alone, greedy.
    Main,
    /// The light model in the main slot: greedy to suggest, beam to convert.
    Light,
    /// Main and light models, switching on measured latency.
    Adaptive,
}

/// The conversion to run.
#[derive(Debug, Clone, Copy, PartialEq, Eq, Structural)]
pub enum ConversionStrategy {
    MainModelOnly,
    MainModelBeam { beam_width: usize },
    LightModelOnly,
    LightModelBeam { beam_width: usize },
    ParallelBeam { beam_width: usize },
}

/// The smaller of two counts.
pub open spec fn min_usize(a: usize, b: usize) -> usize {
    if a <= b {
        a
    } else {
        b
    }
}

/// The adaptive choice: no light model means the main model; a suggestion
/// (one candidate) runs greedy on the main model unless it was measured too
/// slow; a conversion beams on the light model when the main one was too
/// slow, else in parallel when the reading fits one chunk, else greedy on
/// the light model.
pub open spec fn spec_adaptive(
    reading_chars: usize,
    num_candidates: usize,
    has_light_model: bool,
    use_light: bool,
    beam_width: usize,
    chunk_chars: usize,
) -> ConversionStrategy {
    if !has_light_model {
        ConversionStrategy::MainModelOnly
    } else if num_candidates == 1 {
        if use_light {
            ConversionStrategy::LightModelOnly
        } else {
            ConversionStrategy::MainModelOnly
        }
    } else if use_light {
        ConversionStrategy::LightModelBeam { beam_width: min_usize(num_candidates, beam_width) }
    } else if reading_chars <= chunk_chars {
        ConversionStrategy::ParallelBeam { beam_width: min_usize(num_candidates, beam_width) }
    } else {
        ConversionStrategy::LightModelOnly
    }
}

/// The strategy for each mode.
pub open spec fn spec_strategy(
    reading_chars: usize,
    num_candidates: usize,
    has_light_model: bool,
    use_light: bool,
    mode: StrategyMode,
    beam_width: usize,
    chunk_chars: usize,
) -> ConversionStrategy {
    match mode {
        StrategyMode::Adaptive => spec_adaptive(
            reading_chars,
            num_candidates,
            has_light_model,
            use_light,
            beam_width,
            chunk_chars,
        ),
        StrategyMode::Light => if num_candidates == 1 {
            ConversionStrategy::MainModelOnly
        } else {
            ConversionStrategy::MainModelBeam { beam_width: min_usize(num_candidates, beam_width) }
        },
        StrategyMode::Main => ConversionStrategy::MainModelOnly,
    }
}

fn min_exec(a: usize, b: usize) -> (r: usize)
    ensures
        r == min_usize(a, b),
{
    if a <= b {
        a
    } else {
        b
    }
}

fn determine_adaptive_strategy(
    reading_chars: usize,
    num_candidates: usize,
    has_light_model: bool,
    use_light: bool,
    beam_width: usize,
    chunk_chars: usize,
) -> (r: ConversionStrategy)
    ensures
        r == spec_adaptive(reading_chars, num_candidates, has_light_model, use_light, beam_width, chunk_chars),
{
    if !has_light_model {
        return ConversionStrategy::MainModelOnly;
    }
    if num_candidates == 1 {
        if use_light {
            ConversionStrategy::LightModelOnly
        } else {
            ConversionStrategy::MainModelOnly
        }
    } else if use_light {
        ConversionStrategy::LightModelBeam { beam_width: min_exec(num_candidates, beam_width) }
    } else if reading_chars <= chunk_chars {
        ConversionStrategy::ParallelBeam { beam_width: min_exec(num_candidates, beam_width) }
    } else {
        ConversionStrategy::LightModelOnly
    }
}

/// The conversion strategy for a reading of `reading_chars` characters
/// asking for `num_candidates` candidates. `use_light` is the adaptive
/// flag: the main model's last greedy conversion was too slow.
pub fn determine_conversion_strategy(
    reading_chars: usize,
    num_candidates: usize,
    has_light_model: bool,
    use_light: bool,
    mode: StrategyMode,
    beam_width: usize,
    chunk_chars: usize,
) -> (r: ConversionStrategy)
    ensures
        r == spec_strategy(
            reading_chars,
            num_candidates,
            has_light_model,
            use_light,
            mode,
            beam_width,
            chunk_chars,
        ),
{
    match mode {
        StrategyMode::Adaptive => determine_adaptive_strategy(
            reading_chars,
            num_candidates,
            has_light_model,
            use_light,
            beam_width,
            chunk_chars,
        ),
        StrategyMode::Light => {
            if num_candidates == 1 {
                ConversionStrategy::MainModelOnly
            } else {
                ConversionStrategy::MainModelBeam { beam_width: min_exec(num_candidates, beam_width) }
            }
        },
        StrategyMode::Main => ConversionStrategy::MainModelOnly,
    }
}

/// The adaptive flag after a main-model greedy run of `main_ms`
/// milliseconds: only Adaptive mode with a latency budget and a light model
/// loaded changes it, to whether the run went over budget.
pub fn update_adaptive_flag(
    flag: bool,
    mode: StrategyMode,
    max_latency_ms: u64,
    has_light_model: bool,
    main_ms: u64,
) -> (r: bool)
    ensures
        r == if mode != StrategyMode::Adaptive || max_latency_ms == 0 || !has_light_model {
            flag
        } else {
            main_ms > max_latency_ms
        },
{
    if mode != StrategyMode::Adaptive {
        return flag;
    }
    if max_latency_ms == 0 || !has_light_model {
        return flag;
    }
    main_ms > max_latency_ms
}

/// A beam never asks for more candidates than requested or than the
/// configured beam width, and a single-candidate request never beams.
pub proof fn lemma_beam_width_bounded(
    reading_chars: usize,
    num_candidates: usize,
    has_light_model: bool,
    use_light: bool,
    mode: StrategyMode,
    beam_width: usize,
    chunk_chars: usize,
)
    ensures
        ({
            let s = spec_strategy(
                reading_chars,
                num_candidates,
                has_light_model,
                use_light,
                mode,
                beam_width,
                chunk_chars,
            );
            &&& s matches ConversionStrategy::MainModelBeam { beam_width: w } ==> w <= num_candidates && w <= beam_width
            &&& s matches ConversionStrategy::LightModelBeam { beam_width: w } ==> w <= num_candidates && w <= beam_width
            &&& s matches ConversionStrategy::ParallelBeam { beam_width: w } ==> w <= num_candidates && w <= beam_width
            &&& num_candidates == 1 ==> (s is MainModelOnly || s is LightModelOnly)
        }),
{
}

} // verus!
