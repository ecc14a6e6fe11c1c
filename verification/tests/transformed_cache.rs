use grafito_render::transformed_cache::TransformedCache;
use grafito_render::TRANSFORMED_CACHE_CAP;

#[test]
fn empty_cache_has_no_entries() {
    let cache: TransformedCache<Vec<u32>> = TransformedCache::new();
    assert_eq!(cache.len(), 0);
    assert!(cache.get(7).is_none());
}

#[test]
fn stored_geometry_is_found_again() {
    let mut cache = TransformedCache::new();
    cache.insert(42, vec![1u32, 2, 3]);
    assert_eq!(cache.get(42), Some(&vec![1, 2, 3]));
    cache.insert(42, vec![9]);
    assert_eq!(cache.get(42), Some(&vec![9]));
    assert_eq!(cache.len(), 1);
}

#[test]
fn full_cache_evicts_half_before_storing() {
    let mut cache = TransformedCache::new();
    for key in 0..TRANSFORMED_CACHE_CAP as u64 {
        cache.insert(key, key * 10);
    }
    assert_eq!(cache.len(), TRANSFORMED_CACHE_CAP);
    cache.insert(1000, 7);
    assert_eq!(cache.len(), TRANSFORMED_CACHE_CAP / 2 + 1);
    assert_eq!(cache.get(1000), Some(&7));
    let mut kept = 0;
    for key in 0..TRANSFORMED_CACHE_CAP as u64 {
        if let Some(value) = cache.get(key) {
            assert_eq!(*value, key * 10);
            kept += 1;
        }
    }
    assert_eq!(kept, TRANSFORMED_CACHE_CAP / 2);
}

#[test]
fn cache_never_exceeds_its_cap() {
    let mut cache = TransformedCache::new();
    for key in 0..1000u64 {
        cache.insert(key, ());
        assert!(cache.len() <= TRANSFORMED_CACHE_CAP);
    }
}
