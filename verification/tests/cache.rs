use karukan::engine::cache::{ConversionCache, ConversionCacheKey, ModelRole};

fn key(katakana: &str, lctx: &str, model: ModelRole, beam_width: usize) -> ConversionCacheKey {
    ConversionCacheKey {
        katakana: katakana.to_string(),
        lctx: lctx.to_string(),
        model,
        beam_width,
    }
}

fn greedy(katakana: &str, lctx: &str) -> ConversionCacheKey {
    key(katakana, lctx, ModelRole::Main, 1)
}

#[test]
fn hit_and_miss() {
    let mut cache = ConversionCache::new(4);
    let k = greedy("キョウ", "");
    assert_eq!(cache.get(&k), None);
    cache.insert(k.clone(), vec!["今日".to_string()]);
    assert_eq!(cache.get(&k), Some(vec!["今日".to_string()]));
}

#[test]
fn every_key_field_distinguishes_entries() {
    let mut cache = ConversionCache::new(4);
    let k1 = greedy("キョウ", "");
    cache.insert(k1.clone(), vec!["今日".to_string()]);
    for other in [
        greedy("キョウ", "昨日と"),
        key("キョウ", "", ModelRole::Main, 3),
        key("キョウ", "", ModelRole::Light, 1),
    ] {
        assert_eq!(cache.get(&other), None);
    }
    assert_eq!(cache.get(&k1), Some(vec!["今日".to_string()]));
}

#[test]
fn evicts_least_recently_used() {
    let mut cache = ConversionCache::new(2);
    let k1 = greedy("ア", "");
    let k2 = greedy("イ", "");
    let k3 = greedy("ウ", "");
    cache.insert(k1.clone(), vec!["亜".to_string()]);
    cache.insert(k2.clone(), vec!["伊".to_string()]);
    // Touch k1 so k2 becomes the eviction target.
    cache.get(&k1);
    cache.insert(k3.clone(), vec!["宇".to_string()]);
    assert_eq!(cache.get(&k2), None);
    assert!(cache.get(&k1).is_some());
    assert!(cache.get(&k3).is_some());
}

#[test]
fn reinserting_existing_key_does_not_evict() {
    let mut cache = ConversionCache::new(2);
    let k1 = greedy("ア", "");
    let k2 = greedy("イ", "");
    cache.insert(k1.clone(), vec!["亜".to_string()]);
    cache.insert(k2.clone(), vec!["伊".to_string()]);
    cache.insert(k1.clone(), vec!["阿".to_string()]);
    assert_eq!(cache.get(&k1), Some(vec!["阿".to_string()]));
    assert!(cache.get(&k2).is_some());
}

#[test]
fn the_cache_never_holds_more_than_its_capacity() {
    let mut cache = ConversionCache::new(0);
    let a = greedy("ア", "");
    let b = greedy("イ", "");
    cache.insert(a.clone(), vec!["亜".to_string()]);
    cache.insert(b.clone(), vec!["伊".to_string()]);
    // A capacity of 0 is taken as 1: the second key evicted the first.
    assert_eq!(cache.get(&a), None);
    assert_eq!(cache.get(&b), Some(vec!["伊".to_string()]));
}
