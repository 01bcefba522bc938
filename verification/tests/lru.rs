use geodb::levels::OverviewLevel;
use geodb::lru::{sample_nearest, GridSample, Lru, MapLoadResult, MapState};
use geodb::names::{MapKind, MapName, MapRef};

fn name(i: u32) -> MapName {
    MapName::new(MapKind::Heights, OverviewLevel::new(0), MapRef::new(i, 0, 16))
}

fn tile_with(x: usize, y: usize, h: i16) -> Vec<u8> {
    let mut v = vec![0u8; 512 * 512 * 2];
    let o = 2 * (y * 512 + x);
    v[o..o + 2].copy_from_slice(&h.to_le_bytes());
    v
}

fn load(lru: &mut Lru, n: MapName, status: Option<Vec<u8>>, notes: &mut Vec<MapName>) {
    lru.realize_load(MapLoadResult { rt_state: (7, 8), map: n, status }, notes);
}

#[test]
fn first_request_starts_loading_once() {
    let mut lru = Lru::new();
    let (state, request) = lru.make_map_available(&name(1), (1, 1));
    assert!(matches!(state, MapState::Loading));
    assert!(request);
    assert!(lru.map_is_loading(&name(1)));
    assert!(!lru.map_is_ready(&name(1)));
    let (state, request) = lru.make_map_available(&name(1), (2, 2));
    assert!(matches!(state, MapState::Loading));
    assert!(!request);
}

#[test]
fn make_available_lists_requests() {
    let mut lru = Lru::new();
    let names = vec![name(1), name(2), name(1)];
    let (states, requests) = lru.make_available(&names, (0, 0));
    assert_eq!(states.len(), 3);
    let states = states.into_vec();
    assert_eq!(requests, vec![name(1), name(2)]);
    assert!(states.iter().all(|(_, s)| matches!(s, MapState::Loading)));
    assert_eq!(states[2].0, name(1));
}

#[test]
fn loads_become_ready_or_empty() {
    let mut lru = Lru::new();
    let mut notes = Vec::new();
    lru.make_available(&[name(1), name(2), name(3)], (0, 0));
    load(&mut lru, name(1), Some(tile_with(3, 4, -12)), &mut notes);
    load(&mut lru, name(2), Some(Vec::new()), &mut notes);
    load(&mut lru, name(3), None, &mut notes);
    assert_eq!(notes, vec![name(1), name(2)]);
    assert!(lru.map_is_ready(&name(1)));
    assert!(!lru.map_is_ready(&name(2)));
    assert!(lru.map_is_loading(&name(3)));
    assert_eq!(lru.get_height_nearest(&name(1), 3, 4), Some(-12));
    assert_eq!(lru.get_height_nearest(&name(1), 4, 4), Some(0));
    assert_eq!(lru.get_height_nearest(&name(2), 3, 4), Some(0));
    assert_eq!(lru.get_height_nearest(&name(3), 3, 4), None);
    assert_eq!(lru.get_height_nearest(&name(4), 3, 4), None);
    assert_eq!(lru.memory_cache_size(), 512 * 512 * 2);
}

#[test]
fn ready_tiles_record_their_last_use() {
    let mut lru = Lru::new();
    let mut notes = Vec::new();
    lru.make_map_available(&name(1), (0, 0));
    load(&mut lru, name(1), Some(vec![1, 2, 3, 4]), &mut notes);
    match lru.make_map_available(&name(1), (5, 6)) {
        (MapState::Ready { data, last_use }, request) => {
            assert_eq!(*data, vec![1, 2, 3, 4]);
            assert_eq!(last_use, (5, 6));
            assert!(!request);
        }
        other => panic!("unexpected {other:?}"),
    }
}

#[test]
fn sampling_checks() {
    let mut lru = Lru::new();
    let mut notes = Vec::new();
    lru.make_map_available(&name(1), (0, 0));
    load(&mut lru, name(1), Some(vec![1, 2, 3]), &mut notes);
    assert!(!lru.can_sample_height(&name(1), 0, 0));
    assert!(lru.can_sample_height(&name(2), 511, 511));
    let t = tile_with(511, 511, 300);
    assert_eq!(sample_nearest(&t, 511, 511), 300);
    assert_eq!(sample_nearest(&t, 510, 511), 0);
}

#[test]
fn blit_flattens_a_region() {
    let mut lru = Lru::new();
    let mut notes = Vec::new();
    lru.make_map_available(&name(1), (0, 0));
    load(&mut lru, name(1), Some(vec![0u8; 512 * 512 * 2]), &mut notes);
    lru.blit_height_for_grid(&name(1), 10, 20, 12, 18, 0x0102);
    for y in 16..22 {
        for x in 8..14 {
            let expected = if (18..20).contains(&y) && (10..12).contains(&x) { 0x0102 } else { 0 };
            assert_eq!(lru.get_height_nearest(&name(1), x, y), Some(expected), "at {x},{y}");
        }
    }
    lru.blit_height_for_grid(&name(2), 10, 20, 12, 18, 5);
    assert!(!lru.map_is_ready(&name(2)));
    assert!(!lru.map_is_loading(&name(2)));
}

#[test]
fn blit_of_empty_region_changes_nothing() {
    let mut lru = Lru::new();
    let mut notes = Vec::new();
    lru.make_map_available(&name(1), (0, 0));
    load(&mut lru, name(1), Some(tile_with(1, 1, 9)), &mut notes);
    lru.blit_height_for_grid(&name(1), 0, 5, 512, 5, 77);
    assert_eq!(lru.get_height_nearest(&name(1), 1, 1), Some(9));
}

#[test]
fn blits_must_fit_the_tile() {
    let mut lru = Lru::new();
    let mut notes = Vec::new();
    lru.make_map_available(&name(1), (0, 0));
    load(&mut lru, name(1), Some(vec![0u8; 2 * 512 * 4]), &mut notes);
    assert!(lru.can_blit(&name(1), 0, 4, 512, 0));
    assert!(!lru.can_blit(&name(1), 0, 5, 512, 0));
    assert!(lru.can_blit(&name(1), 0, 5, 0, 0));
    assert!(lru.can_blit(&name(2), 0, 512, 512, 0));
}

#[test]
fn grid_heights_need_every_tile() {
    let mut lru = Lru::new();
    let mut notes = Vec::new();
    lru.make_available(&[name(1), name(2), name(3)], (0, 0));
    load(&mut lru, name(1), Some(tile_with(3, 4, 250)), &mut notes);
    load(&mut lru, name(2), Some(Vec::new()), &mut notes);
    let s = |n: u32, x: usize, y: usize, oob: bool| GridSample { map: name(n), x, y, oob };
    let samples = vec![s(1, 3, 4, false), s(1, 0, 0, false), s(2, 3, 4, false), s(3, 1, 1, true), s(9, 1, 1, true)];
    assert_eq!(lru.grid_heights(&samples), Some(vec![250, 0, 0, 0, 0]));
    // Tile 3 is still loading and tile 9 was never asked for.
    assert_eq!(lru.grid_heights(&[s(1, 3, 4, false), s(3, 1, 1, false)]), None);
    assert_eq!(lru.grid_heights(&[s(9, 3, 4, false)]), None);
    assert_eq!(lru.grid_heights(&[]), Some(Vec::new()));
}
