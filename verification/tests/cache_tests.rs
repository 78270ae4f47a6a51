use std::time::Duration;

use sqlx_data_parser::cache::GlobalCache;

#[test]
fn cache_with_acceptable_ttl_is_built() {
    let c: Option<GlobalCache<u64, String>> =
        GlobalCache::try_new(4, 16, Some(Duration::from_secs(60)), |_k: &u64, _v: &String| 1);
    let c = c.unwrap();
    let v = c.insert(7, "seven".to_string());
    assert_eq!(*v, "seven");
    assert_eq!(c.stats(&7).unwrap().hits, 1);
}

#[test]
fn cache_with_ttl_over_a_thousand_years_is_refused() {
    let c: Option<GlobalCache<u64, String>> =
        GlobalCache::try_new(4, 16, Some(Duration::from_secs(u64::MAX)), |_k: &u64, _v: &String| 1);
    assert!(c.is_none());
    let c: Option<GlobalCache<u64, String>> =
        GlobalCache::try_new(4, 16, None, |_k: &u64, _v: &String| 1);
    assert!(c.is_some());
}
