use karukan::engine::cache::{ConversionCache, ConversionCacheKey, ModelRole};
use karukan::engine::candidates::{
    build_conversion_candidates, merge_dictionary_hits, merge_learning_hits, next_filter,
    width_annotation, AnnotatedCandidate, CandidateSource,
};
use karukan::engine::conversion::{
    cache_key, cached_result, computations, contains_kana, conversion_plan, store_result,
};
use karukan::engine::strategy::{ConversionStrategy, StrategyMode};

type Row = (String, Option<String>, CandidateSource, Option<String>);

fn rows(v: &[AnnotatedCandidate]) -> Vec<Row> {
    v.iter()
        .map(|c| (c.text.clone(), c.reading.clone(), c.source, c.description.clone()))
        .collect()
}

fn row(text: &str, reading: Option<&str>, source: CandidateSource, desc: Option<&str>) -> Row {
    (text.to_string(), reading.map(str::to_string), source, desc.map(str::to_string))
}

fn dict(text: &str, source: CandidateSource) -> AnnotatedCandidate {
    AnnotatedCandidate { text: text.to_string(), reading: None, source, description: None }
}

fn s(v: &[&str]) -> Vec<String> {
    v.iter().map(|x| x.to_string()).collect()
}

#[test]
fn sources_are_merged_in_priority_order_without_repeats() {
    let out = build_conversion_candidates(
        "きょう",
        vec![
            ("今日".to_string(), Some("きょう".to_string())),
            ("教育".to_string(), Some("きょういく".to_string())),
        ],
        vec![
            dict("京", CandidateSource::Dictionary),
            dict("凶", CandidateSource::UserDictionary),
            dict("今日", CandidateSource::Dictionary),
        ],
        s(&["今日", "強"]),
        vec![],
        false,
        false,
    );
    assert_eq!(
        rows(&out),
        vec![
            row("今日", None, CandidateSource::Learning, None),
            row("教育", Some("きょういく"), CandidateSource::Learning, None),
            row("凶", None, CandidateSource::UserDictionary, None),
            row("強", None, CandidateSource::Model, None),
            row("京", None, CandidateSource::Dictionary, None),
            row("きょう", None, CandidateSource::Fallback, Some("[全]ひらがな")),
            row("キョウ", None, CandidateSource::Fallback, Some("[全]カタカナ")),
        ]
    );
}

#[test]
fn learning_is_kept_even_when_a_later_source_repeats_it_and_can_be_skipped() {
    let learning = vec![("今日".to_string(), None)];
    let out = build_conversion_candidates("きょう", learning.clone(), vec![], s(&["今日"]), vec![], false, true);
    assert_eq!(rows(&out)[0], row("今日", None, CandidateSource::Model, None));
    let out = build_conversion_candidates("きょう", learning, vec![], s(&["今日"]), vec![], false, false);
    assert_eq!(rows(&out)[0], row("今日", None, CandidateSource::Learning, None));
    assert_eq!(out.iter().filter(|c| c.text == "今日").count(), 1);
}

#[test]
fn without_model_output_the_reading_leads() {
    let out = build_conversion_candidates("あ", vec![], vec![], vec![], vec![], false, false);
    assert_eq!(
        rows(&out),
        vec![
            row("あ", None, CandidateSource::Fallback, Some("[全]ひらがな")),
            row("ア", None, CandidateSource::Fallback, Some("[全]カタカナ")),
        ]
    );
}

#[test]
fn emoji_mode_lists_rewrites_only() {
    let out = build_conversion_candidates(
        ":smile",
        vec![],
        vec![],
        vec![],
        vec![("😄".to_string(), Some("絵文字".to_string()))],
        true,
        false,
    );
    assert_eq!(rows(&out), vec![row("😄", None, CandidateSource::Rewriter, Some("絵文字"))]);
}

#[test]
fn rewrites_come_last_and_symbol_fallbacks_get_descriptions() {
    let out = build_conversion_candidates(
        "。",
        vec![],
        vec![],
        vec![],
        vec![("｡".to_string(), Some("[半]".to_string())), ("。".to_string(), None)],
        false,
        false,
    );
    let r = rows(&out);
    assert_eq!(r[0].0, "。");
    assert_eq!(r[0].2, CandidateSource::Fallback);
    assert_eq!(r[0].3, Some("句点".to_string()));
    assert_eq!(r.last().unwrap().0, "｡");
    assert_eq!(r.iter().filter(|x| x.0 == "。").count(), 1);
}

#[test]
fn width_labels_only_for_pure_kana() {
    assert_eq!(width_annotation("らーめん"), Some("[全]ひらがな".to_string()));
    assert_eq!(width_annotation("ラーメン"), Some("[全]カタカナ".to_string()));
    assert_eq!(width_annotation("ラーめん"), None);
    assert_eq!(width_annotation("漢字"), None);
    assert_eq!(width_annotation(""), None);
}

fn texts(v: &[AnnotatedCandidate]) -> Vec<String> {
    v.iter().map(|c| c.text.clone()).collect()
}

#[test]
fn dictionary_hits_exact_first_then_predictive_within_budget() {
    let exact = vec![
        ("京".to_string(), CandidateSource::UserDictionary),
        ("今日".to_string(), CandidateSource::Dictionary),
    ];
    let predictive = vec![
        ("今日".to_string(), "きょう".to_string(), CandidateSource::Dictionary),
        ("教育".to_string(), "きょういく".to_string(), CandidateSource::Dictionary),
        ("強化".to_string(), "きょうか".to_string(), CandidateSource::Dictionary),
        ("教室".to_string(), "きょうしつ".to_string(), CandidateSource::Dictionary),
    ];
    let out = merge_dictionary_hits("きょう", true, false, exact.clone(), predictive.clone(), 10, 2, 2, None);
    assert_eq!(texts(&out), s(&["京", "今日", "教育", "強化"]));
    assert_eq!(out[2].reading, Some("きょういく".to_string()));
    assert_eq!(out[0].reading, None);

    // A pending romaji tail skips the exact hits.
    let out = merge_dictionary_hits("きょう", false, false, exact.clone(), predictive.clone(), 10, 2, 2, None);
    assert_eq!(texts(&out), s(&["今日", "教育"]));

    // Too short a reading, or a dead tail, skips prediction.
    let out = merge_dictionary_hits("き", true, false, exact.clone(), predictive.clone(), 10, 2, 2, None);
    assert_eq!(texts(&out), s(&["京", "今日"]));
    let out = merge_dictionary_hits("きょう", true, true, exact.clone(), predictive.clone(), 10, 2, 2, None);
    assert_eq!(texts(&out), s(&["京", "今日"]));

    // The overall limit, and one dictionary only.
    let out = merge_dictionary_hits("きょう", true, false, exact.clone(), predictive.clone(), 3, 9, 2, None);
    assert_eq!(texts(&out), s(&["京", "今日", "教育"]));
    let out = merge_dictionary_hits(
        "きょう",
        true,
        false,
        exact,
        predictive,
        10,
        9,
        2,
        Some(CandidateSource::UserDictionary),
    );
    assert_eq!(texts(&out), s(&["京"]));
}

#[test]
fn kana_free_readings_skip_the_model() {
    assert!(!contains_kana("abc!"));
    assert!(contains_kana("aきb"));
    assert!(conversion_plan("123", 1, true, true, false, StrategyMode::Adaptive, 4, 10).is_none());
}

#[test]
fn the_plan_feeds_katakana_and_picks_the_strategy() {
    let (k, st) = conversion_plan("きょう", 1, false, true, false, StrategyMode::Adaptive, 4, 10).unwrap();
    assert_eq!(k, "キョウ");
    assert_eq!(st, ConversionStrategy::MainModelOnly);
    let (_, st) = conversion_plan("きょう", 5, true, false, false, StrategyMode::Light, 4, 10).unwrap();
    assert_eq!(st, ConversionStrategy::MainModelBeam { beam_width: 4 });
    assert_eq!(
        computations(ConversionStrategy::ParallelBeam { beam_width: 3 }),
        vec![(ModelRole::Main, 1), (ModelRole::Light, 3)]
    );
    assert_eq!(computations(ConversionStrategy::LightModelOnly), vec![(ModelRole::Light, 1)]);
}

#[test]
fn light_lookups_fall_back_to_main_entries_but_not_the_reverse() {
    let mut cache = ConversionCache::new(8);
    let main: ConversionCacheKey = cache_key(ModelRole::Main, 1, "キョウ", "");
    store_result(&mut cache, main, s(&["今日"]));
    assert_eq!(cached_result(&mut cache, ModelRole::Light, 1, "キョウ", ""), Some(s(&["今日"])));
    store_result(&mut cache, cache_key(ModelRole::Light, 3, "アメ", ""), s(&["雨"]));
    assert_eq!(cached_result(&mut cache, ModelRole::Main, 3, "アメ", ""), None);
    assert_eq!(cached_result(&mut cache, ModelRole::Light, 3, "アメ", ""), Some(s(&["雨"])));
}

#[test]
fn empty_results_are_not_stored() {
    let mut cache = ConversionCache::new(8);
    store_result(&mut cache, cache_key(ModelRole::Main, 1, "キョウ", ""), vec![]);
    assert_eq!(cached_result(&mut cache, ModelRole::Main, 1, "キョウ", ""), None);
}

#[test]
fn filter_rotation_visits_every_view() {
    assert_eq!(next_filter(None, true), CandidateSource::Learning);
    assert_eq!(next_filter(None, false), CandidateSource::Rewriter);
    let mut at = CandidateSource::Learning;
    let mut seen = vec![at];
    for _ in 0..4 {
        at = next_filter(Some(at), true);
        seen.push(at);
    }
    assert_eq!(
        seen,
        vec![
            CandidateSource::Learning,
            CandidateSource::Dictionary,
            CandidateSource::Model,
            CandidateSource::Rewriter,
            CandidateSource::Learning,
        ]
    );
    assert_eq!(next_filter(Some(CandidateSource::Rewriter), false), CandidateSource::Model);
    assert_eq!(next_filter(Some(CandidateSource::Learning), false), CandidateSource::Rewriter);
    assert_eq!(next_filter(Some(CandidateSource::UserDictionary), true), CandidateSource::Model);
    assert_eq!(next_filter(Some(CandidateSource::UserDictionary), false), CandidateSource::Learning);
    assert_eq!(next_filter(Some(CandidateSource::Fallback), true), CandidateSource::Dictionary);
}

#[test]
fn learning_hits_exact_then_prefix_narrowed_by_the_tail() {
    let exact = s(&["早稲田", "ワセダ"]);
    let prefix = vec![
        ("わせだ".to_string(), "早稲田".to_string()),
        ("わせだだいがく".to_string(), "早稲田大学".to_string()),
        ("わせりん".to_string(), "ワセリン".to_string()),
    ];
    let out = merge_learning_hits("わせだ", true, false, false, vec![], exact.clone(), prefix.clone(), 10);
    let texts: Vec<String> = out.iter().map(|h| h.0.clone()).collect();
    assert_eq!(texts, s(&["早稲田", "ワセダ", "早稲田大学", "ワセリン"]));
    assert_eq!(out[0].1, Some("わせだ".to_string()));
    assert_eq!(out[2].1, Some("わせだだいがく".to_string()));

    // Base わせ with a pending `d`: no exact hits, prefix hits narrowed to だ…
    let out = merge_learning_hits(
        "わせ",
        false,
        false,
        true,
        s(&["だ", "で", "ど"]),
        exact.clone(),
        prefix.clone(),
        10,
    );
    let texts: Vec<String> = out.iter().map(|h| h.0.clone()).collect();
    assert_eq!(texts, s(&["早稲田", "早稲田大学"]));

    assert!(merge_learning_hits("わせ", false, true, false, vec![], exact.clone(), prefix.clone(), 10).is_empty());
    assert_eq!(merge_learning_hits("わせだ", true, false, false, vec![], exact, prefix, 1).len(), 1);
}
