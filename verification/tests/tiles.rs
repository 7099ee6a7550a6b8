use antenna_toolbox::tiles::{visible_tiles, TileCache, TileId, CACHE_MAX};

fn t(z: u8, x: u32, y: u32) -> TileId {
    TileId { z, x, y }
}

#[test]
fn a_new_tile_is_fetched_once() {
    let mut c: TileCache<u32> = TileCache::new();
    assert!(c.request(t(3, 1, 2)));
    assert!(!c.request(t(3, 1, 2)));
    assert!(c.ready(t(3, 1, 2)).is_none());
}

#[test]
fn a_loaded_tile_is_ready() {
    let mut c: TileCache<u32> = TileCache::new();
    c.request(t(3, 1, 2));
    c.loaded(t(3, 1, 2), 77);
    assert_eq!(c.ready(t(3, 1, 2)), Some(&77));
    assert_eq!(c.error(), None);
}

#[test]
fn failures_are_counted_and_the_last_error_kept() {
    let mut c: TileCache<u32> = TileCache::new();
    c.request(t(3, 1, 2));
    c.failed(t(3, 1, 2), "timed out".to_string());
    assert_eq!(c.error(), Some(("timed out".to_string(), 1)));
    assert!(c.ready(t(3, 1, 2)).is_none());
    assert!(!c.request(t(3, 1, 2)));
    c.request(t(3, 1, 3));
    c.loaded(t(3, 1, 3), 5);
    assert_eq!(c.error(), None);
    assert_eq!(c.failure_count(), 1);
}

#[test]
fn the_oldest_finished_tiles_are_evicted() {
    let mut c: TileCache<u32> = TileCache::new();
    for i in 0..CACHE_MAX as u32 {
        c.request(t(10, i, 0));
        c.loaded(t(10, i, 0), i);
    }
    assert_eq!(c.ready(t(10, 0, 0)), Some(&0));
    c.request(t(10, 0, 1));
    assert!(c.ready(t(10, 0, 0)).is_none());
    assert!(c.request(t(10, 0, 0)));
    assert_eq!(c.ready(t(10, 1, 0)), None);
    assert_eq!(c.ready(t(10, 2, 0)), Some(&2));
}

#[test]
fn a_loading_tile_is_never_evicted() {
    let mut c: TileCache<u32> = TileCache::new();
    c.request(t(10, 9999, 0));
    for i in 0..CACHE_MAX as u32 + 5 {
        c.request(t(10, i, 0));
        c.loaded(t(10, i, 0), i);
    }
    assert!(!c.request(t(10, 9999, 0)));
    c.loaded(t(10, 9999, 0), 1);
    assert_eq!(c.ready(t(10, 9999, 0)), Some(&1));
}

#[test]
fn the_view_wraps_round_the_globe_and_stops_at_the_poles() {
    let v = visible_tiles(2, -1, 1, -1, 0);
    assert_eq!(v, vec![t(2, 3, 0), t(2, 0, 0), t(2, 1, 0)]);
    let v = visible_tiles(2, 3, 4, 3, 5);
    assert_eq!(v, vec![t(2, 3, 3), t(2, 0, 3)]);
}

#[test]
fn a_view_covers_every_row_and_column() {
    let v = visible_tiles(11, 1000, 1002, 600, 601);
    assert_eq!(v.len(), 6);
    assert_eq!(v[0], t(11, 1000, 600));
    assert_eq!(v[5], t(11, 1002, 601));
}

#[test]
fn an_empty_span_has_no_tiles() {
    assert!(visible_tiles(5, 3, 2, 0, 4).is_empty());
    assert!(visible_tiles(5, 0, 4, 3, 2).is_empty());
    assert!(visible_tiles(5, 0, 4, 40, 50).is_empty());
}

#[test]
fn far_negative_columns_wrap_too() {
    let v = visible_tiles(3, -17, -17, 1, 1);
    assert_eq!(v, vec![t(3, 7, 1)]);
    let v = visible_tiles(19, i64::MIN, i64::MIN, 0, 0);
    assert_eq!(v, vec![t(19, (i64::MIN.rem_euclid(1 << 19)) as u32, 0)]);
}

#[test]
fn a_tile_that_waited_at_the_back_is_evicted_in_its_turn() {
    let mut c: TileCache<u32> = TileCache::new();
    let first = t(12, 9999, 9);
    c.request(first);
    for i in 0..CACHE_MAX as u32 {
        c.request(t(12, i, 0));
        c.loaded(t(12, i, 0), i);
    }
    // Eviction stopped at the first tile, still loading, and put it last.
    c.loaded(first, 7);
    assert_eq!(c.ready(first), Some(&7));
    for i in 0..CACHE_MAX as u32 + 1 {
        c.request(t(12, i, 1));
        c.loaded(t(12, i, 1), i);
    }
    // It stayed in the age order, so it went when its turn came.
    assert!(c.ready(first).is_none());
    assert!(c.request(first));
}
