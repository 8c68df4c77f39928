use karukan::engine::display::{context_line, keep_first_chars, keep_last_chars};
use karukan::engine::model::{beam_window_start, merge_candidates_dedup};
use karukan::engine::strategy::{
    determine_conversion_strategy, update_adaptive_flag, ConversionStrategy, StrategyMode,
};

#[test]
fn main_mode_always_runs_the_main_model_greedy() {
    for n in [1, 5] {
        assert_eq!(
            determine_conversion_strategy(3, n, true, true, StrategyMode::Main, 4, 10),
            ConversionStrategy::MainModelOnly
        );
    }
}

#[test]
fn light_mode_beams_only_for_conversion() {
    assert_eq!(
        determine_conversion_strategy(3, 1, false, false, StrategyMode::Light, 4, 10),
        ConversionStrategy::MainModelOnly
    );
    assert_eq!(
        determine_conversion_strategy(3, 9, false, false, StrategyMode::Light, 4, 10),
        ConversionStrategy::MainModelBeam { beam_width: 4 }
    );
    assert_eq!(
        determine_conversion_strategy(3, 2, false, false, StrategyMode::Light, 4, 10),
        ConversionStrategy::MainModelBeam { beam_width: 2 }
    );
}

#[test]
fn adaptive_mode_follows_latency_and_chunk_size() {
    let a = StrategyMode::Adaptive;
    assert_eq!(determine_conversion_strategy(3, 5, false, true, a, 4, 10), ConversionStrategy::MainModelOnly);
    assert_eq!(determine_conversion_strategy(3, 1, true, false, a, 4, 10), ConversionStrategy::MainModelOnly);
    assert_eq!(determine_conversion_strategy(3, 1, true, true, a, 4, 10), ConversionStrategy::LightModelOnly);
    assert_eq!(
        determine_conversion_strategy(3, 5, true, true, a, 4, 10),
        ConversionStrategy::LightModelBeam { beam_width: 4 }
    );
    assert_eq!(
        determine_conversion_strategy(10, 5, true, false, a, 4, 10),
        ConversionStrategy::ParallelBeam { beam_width: 4 }
    );
    assert_eq!(determine_conversion_strategy(11, 5, true, false, a, 4, 10), ConversionStrategy::LightModelOnly);
}

#[test]
fn adaptive_flag_changes_only_in_adaptive_mode_with_a_budget_and_a_light_model() {
    assert!(update_adaptive_flag(false, StrategyMode::Adaptive, 100, true, 150));
    assert!(!update_adaptive_flag(true, StrategyMode::Adaptive, 100, true, 50));
    assert!(update_adaptive_flag(true, StrategyMode::Main, 100, true, 50));
    assert!(!update_adaptive_flag(false, StrategyMode::Adaptive, 0, true, 500));
    assert!(!update_adaptive_flag(false, StrategyMode::Adaptive, 100, false, 500));
}

#[test]
fn merged_candidates_keep_first_occurrences_up_to_the_limit() {
    let s = |v: &[&str]| v.iter().map(|x| x.to_string()).collect::<Vec<String>>();
    assert_eq!(
        merge_candidates_dedup(s(&["今日", "京"]), s(&["京", "強", "今日", "経"]), 10),
        s(&["今日", "京", "強", "経"])
    );
    assert_eq!(merge_candidates_dedup(s(&["a", "a"]), s(&["b", "c"]), 2), s(&["a", "b"]));
    assert_eq!(merge_candidates_dedup(s(&[]), s(&[]), 3), s(&[]));
}

#[test]
fn beam_window_is_the_final_japanese_run_capped() {
    let chars: Vec<char> = "abcあいうえお".chars().collect();
    assert_eq!(beam_window_start(&chars, 10, 10), 3);
    assert_eq!(beam_window_start(&chars, 2, 10), 6);
    assert_eq!(beam_window_start(&chars, 10, 4), 4);
    let tail: Vec<char> = "あいう1".chars().collect();
    assert_eq!(beam_window_start(&tail, 10, 10), 4);
}

#[test]
fn context_line_cuts_each_side_to_the_limit() {
    assert_eq!(keep_last_chars("あいうえお", 2), "えお");
    assert_eq!(keep_first_chars("あいうえお", 2), "あい");
    assert_eq!(keep_last_chars("あ", 2), "あ");
    assert_eq!(context_line(Some("あいうえお"), Some("かきくけこ"), 3), "lctx: ...うえお rctx: かきく...");
    assert_eq!(context_line(Some("あい"), None, 3), "lctx: あい");
    assert_eq!(context_line(Some(""), Some("か"), 3), "rctx: か");
    assert_eq!(context_line(Some("あい"), Some("か"), 0), "");
    assert_eq!(context_line(None, None, 3), "");
}
