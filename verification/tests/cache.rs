//! The cache of rendered pages.

use termpdf::cache::{quantize_scale, CacheKey, RenderCache, RenderImage, CACHE_CAPACITY};

fn image(tag: u8) -> RenderImage {
    RenderImage { width: 1, height: 1, pixels: vec![tag, tag, tag, 255] }
}

fn key(page: usize) -> CacheKey {
    CacheKey::new(page, 1000, false)
}

#[test]
fn cache_keeps_the_ten_pages_nearest_to_the_reference() {
    let mut cache = RenderCache::new();
    for page in 0..15 {
        cache.put(key(page), image(page as u8), 7);
    }
    assert_eq!(cache.len(), CACHE_CAPACITY);
    for page in 0..15 {
        let cached = cache.get(&key(page));
        if (2..=11).contains(&page) {
            assert_eq!(cached.expect("near page stays").pixels[0], page as u8);
        } else {
            assert!(cached.is_none(), "page {} should be gone", page);
        }
    }
}

#[test]
fn cache_eviction_ignores_insertion_order() {
    let mut cache = RenderCache::new();
    for page in (0..30).rev() {
        cache.put(key(page), image(page as u8), 0);
    }
    // All thirty were put with page 0 as the reference; the last eleven
    // puts decide: 10 down to 0, of which the farthest goes.
    assert_eq!(cache.len(), 10);
    for page in 0..10 {
        assert!(cache.get(&key(page)).is_some());
    }
    for page in 10..30 {
        assert!(cache.get(&key(page)).is_none());
    }
}

#[test]
fn cache_reference_page_decides_what_goes() {
    let mut cache = RenderCache::new();
    for page in 0..10 {
        cache.put(key(page), image(page as u8), 0);
    }
    cache.put(key(50), image(50), 50);
    assert_eq!(cache.len(), 10);
    assert!(cache.get(&key(50)).is_some());
    assert!(cache.get(&key(0)).is_none());
    assert!(cache.get(&key(1)).is_some());
}

#[test]
fn cache_replaces_the_image_of_a_known_key() {
    let mut cache = RenderCache::new();
    cache.put(key(3), image(1), 3);
    cache.put(key(3), image(2), 3);
    assert_eq!(cache.len(), 1);
    assert_eq!(cache.get(&key(3)).unwrap().pixels, vec![2, 2, 2, 255]);
    cache.clear();
    assert_eq!(cache.len(), 0);
    assert!(cache.get(&key(3)).is_none());
}

#[test]
fn cache_keys_tell_scale_and_colour_mode_apart() {
    let mut cache = RenderCache::new();
    cache.put(CacheKey::new(1, 1000, false), image(1), 1);
    cache.put(CacheKey::new(1, 1001, false), image(2), 1);
    cache.put(CacheKey::new(1, 1000, true), image(3), 1);
    assert_eq!(cache.len(), 3);
    assert_eq!(cache.get(&CacheKey::new(1, 1000, true)).unwrap().pixels[0], 3);
    assert_eq!(cache.get(&CacheKey::new(1, 1001, false)).unwrap().pixels[0], 2);
}

#[test]
fn cache_key_scale_is_never_zero() {
    assert_eq!(quantize_scale(0), 1);
    assert_eq!(quantize_scale(1), 1);
    assert_eq!(quantize_scale(1500), 1500);
    assert_eq!(quantize_scale(u32::MAX), u32::MAX);
    assert_eq!(CacheKey::new(4, 0, true), CacheKey { page_index: 4, scale_milli: 1, dark_mode: true });
}

#[test]
fn cache_key_distance_is_the_page_difference() {
    assert_eq!(key(3).distance(10), 7);
    assert_eq!(key(10).distance(3), 7);
    assert_eq!(key(5).distance(5), 0);
    assert_eq!(key(0).distance(usize::MAX), usize::MAX);
}

#[test]
fn render_image_clone_copies_the_pixels() {
    let first = RenderImage { width: 2, height: 1, pixels: vec![1, 2, 3, 4, 5, 6, 7, 8] };
    let copy = first.clone();
    assert_eq!(copy.width, 2);
    assert_eq!(copy.height, 1);
    assert_eq!(copy.pixels, first.pixels);
}
