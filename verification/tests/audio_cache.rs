use cmrt_tui::audio_cache::AudioCache;

fn samples(x: f32) -> Vec<f32> {
    vec![x, -x]
}

#[test]
fn a_stored_line_is_read_back() {
    let mut cache = AudioCache::new(2);
    cache.try_insert("cde".to_string(), samples(0.5), false);
    assert_eq!(cache.get("cde"), Some(&samples(0.5)));
    assert_eq!(cache.get("efg"), None);
    assert_eq!(cache.len(), 1);
}

#[test]
fn a_full_cache_evicts_the_least_recently_used_line() {
    let mut cache = AudioCache::new(2);
    cache.try_insert("a".to_string(), samples(1.0), false);
    cache.try_insert("b".to_string(), samples(2.0), false);
    cache.mark_recent("a");
    cache.try_insert("c".to_string(), samples(3.0), false);
    assert_eq!(cache.len(), 2);
    assert_eq!(cache.get("a"), Some(&samples(1.0)));
    assert_eq!(cache.get("b"), None);
    assert_eq!(cache.get("c"), Some(&samples(3.0)));
}

#[test]
fn storing_a_cached_line_replaces_its_samples_without_evicting() {
    let mut cache = AudioCache::new(2);
    cache.try_insert("a".to_string(), samples(1.0), false);
    cache.try_insert("b".to_string(), samples(2.0), false);
    cache.try_insert("a".to_string(), samples(9.0), false);
    assert_eq!(cache.len(), 2);
    assert_eq!(cache.get("a"), Some(&samples(9.0)));
    assert_eq!(cache.get("b"), Some(&samples(2.0)));
    cache.try_insert("c".to_string(), samples(3.0), false);
    assert_eq!(cache.get("b"), None);
    assert_eq!(cache.get("a"), Some(&samples(9.0)));
}

#[test]
fn audio_rendered_with_a_random_patch_is_not_cached() {
    let mut cache = AudioCache::new(2);
    cache.try_insert("a".to_string(), samples(1.0), true);
    assert_eq!(cache.len(), 0);
    assert_eq!(cache.get("a"), None);
}

#[test]
fn marking_an_absent_line_changes_nothing() {
    let mut cache = AudioCache::new(2);
    cache.try_insert("a".to_string(), samples(1.0), false);
    cache.try_insert("b".to_string(), samples(2.0), false);
    cache.mark_recent("z");
    cache.try_insert("c".to_string(), samples(3.0), false);
    assert_eq!(cache.get("a"), None);
    assert_eq!(cache.get("b"), Some(&samples(2.0)));
}

#[test]
fn a_zero_capacity_cache_keeps_the_latest_line() {
    let mut cache = AudioCache::new(0);
    cache.try_insert("a".to_string(), samples(1.0), false);
    assert_eq!(cache.len(), 1);
    cache.try_insert("b".to_string(), samples(2.0), false);
    assert_eq!(cache.len(), 1);
    assert_eq!(cache.get("a"), None);
    assert_eq!(cache.get("b"), Some(&samples(2.0)));
}
