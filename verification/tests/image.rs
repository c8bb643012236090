//! The images that are kept.

use sicompass_ui::image::{find_evict_slot_in, CachedTexture, ImageCache, MAX_CACHED_IMAGES};

#[test]
fn find_evict_slot_prefers_empty() {
    let mut cache: Vec<Option<CachedTexture>> = (0..MAX_CACHED_IMAGES).map(|_| None).collect();
    cache[0] = Some(dummy_cached(0, 5));
    cache[1] = Some(dummy_cached(1, 3));
    // Slots 2.. remain None
    let slot = find_evict_slot_in(&cache);
    assert!(slot >= 2, "should prefer an empty slot, got {slot}");
}

#[test]
fn find_evict_slot_lru_when_full() {
    let cache: Vec<Option<CachedTexture>> = (0..MAX_CACHED_IMAGES)
        .map(|i| Some(dummy_cached(i, (i as u64 + 1) * 10)))
        .collect();
    let slot = find_evict_slot_in(&cache);
    // Slot 0 has last_used_frame = 10 — the smallest
    assert_eq!(slot, 0);
}

#[test]
fn find_evict_slot_empty_cache_returns_zero() {
    let cache: Vec<Option<CachedTexture>> = (0..MAX_CACHED_IMAGES).map(|_| None).collect();
    let slot = find_evict_slot_in(&cache);
    assert_eq!(slot, 0);
}

fn dummy_cached(idx: usize, last_used: u64) -> CachedTexture {
    CachedTexture {
        path: format!("dummy_{idx}.png"),
        width: 1,
        height: 1,
        last_used_frame: last_used,
    }
}

#[test]
fn a_stored_image_is_found_again() {
    let mut cache = ImageCache::new();
    cache.begin_image_rendering();
    assert_eq!(cache.find_cached("a.png"), None);
    let (slot, evicted) = cache.evict();
    assert!(evicted.is_none());
    cache.store(slot, "a.png".to_owned(), 20, 10);
    assert_eq!(cache.find_cached("a.png"), Some(slot));
    assert_eq!(cache.texture_size(slot), Some((20, 10)));
    assert!(cache.prepare_image(slot));
    assert_eq!(cache.draws.len(), 1);
    assert_eq!(cache.draws[0].vertex_offset, 0);
}

#[test]
fn the_image_longest_unused_makes_room() {
    let mut cache = ImageCache::new();
    for i in 0..MAX_CACHED_IMAGES {
        cache.begin_image_rendering();
        let (slot, _) = cache.evict();
        cache.store(slot, format!("{i}.png"), 1, 1);
    }
    cache.begin_image_rendering();
    assert_eq!(cache.find_cached("0.png"), Some(0));
    let (slot, evicted) = cache.evict();
    assert_eq!(slot, 1);
    assert_eq!(evicted.unwrap().path, "1.png");
    assert_eq!(cache.find_cached("1.png"), None);
}

#[test]
fn a_frame_draws_no_more_images_than_are_held() {
    let mut cache = ImageCache::new();
    cache.begin_image_rendering();
    let (slot, _) = cache.evict();
    cache.store(slot, "a.png".to_owned(), 1, 1);
    for _ in 0..MAX_CACHED_IMAGES {
        assert!(cache.prepare_image(slot));
    }
    assert!(!cache.prepare_image(slot));
    cache.begin_image_rendering();
    assert!(cache.draws.is_empty());
}
