use geodb::attachments::{Flatten, Foundation, GroundStabilizer, Tarmac, TarmacBuilding};
use geodb::geodesy::{Geode, GeodeBB};
use geodb::levels::OverviewLevel;
use geodb::lru::{Lru, MapLoadResult};
use geodb::names::{MapKind, MapName, MapRef};

fn bounds() -> GeodeBB<f64> {
    GeodeBB::from_bounds(Geode::new(0.1, 0.2), Geode::new(0.3, 0.4))
}

fn tile(level: usize, x: u32) -> MapName {
    MapName::new(MapKind::Heights, OverviewLevel::new(level), MapRef::new(x, 0, 8))
}

#[test]
fn flatten_keeps_its_height_and_tiles() {
    let mut f: Flatten<f64, f64> = Flatten::new(&bounds());
    assert_eq!(f.target_height(), None);
    assert!(!f.has_cached_intersections());
    assert_eq!(f.bounds().corners(), bounds().corners());
    f.set_target_height(123.5);
    assert_eq!(f.target_height(), Some(123.5));
    let maps = vec![tile(0, 1), tile(0, 2), tile(3, 1)];
    f.cache_intersections(Some(&maps));
    assert!(f.has_cached_intersections());
    assert!(f.intersects_with_map_load(&tile(0, 2)));
    assert!(f.intersects_with_map_load(&tile(3, 1)));
    assert!(!f.intersects_with_map_load(&tile(3, 2)));
    assert!(!f.intersects_with_map_load(&tile(1, 1)));
}

#[test]
fn flatten_without_layout_stays_uncached() {
    let mut f: Flatten<f64, f64> = Flatten::new(&bounds());
    f.cache_intersections(None);
    assert!(!f.has_cached_intersections());
}

#[test]
fn foundation_refines_only_to_finer_levels() {
    let mut f: Foundation<f64, f64> = Foundation::new(2.5, &bounds());
    assert_eq!(f.offset_to_ground(), 2.5);
    assert_eq!(f.last_refined_at_step(), (0, 0));
    assert!(f.improves_refinement(&tile(9, 0)));
    f.note_refinement(&tile(5, 0), (3, 4));
    assert_eq!(f.last_refined_at_step(), (3, 4));
    assert!(!f.improves_refinement(&tile(5, 1)));
    assert!(!f.improves_refinement(&tile(6, 0)));
    assert!(f.improves_refinement(&tile(4, 0)));
    f.note_refinement(&tile(0, 0), (5, 6));
    assert!(!f.improves_refinement(&tile(1, 0)));
    f.cache_intersections(Some(&[tile(0, 0)]));
    assert!(f.intersects_with_map_load(&tile(0, 0)));
    assert!(!f.intersects_with_map_load(&tile(0, 1)));
}

#[test]
fn stabilizers_and_tarmacs() {
    let mut s: GroundStabilizer<f64> = GroundStabilizer::default();
    assert_eq!(s.current_height(), 0.0);
    s.set_current_height(88.0);
    assert_eq!(s.current_height(), 88.0);
    let b = TarmacBuilding::new(4.0f64);
    assert_eq!(b.offset_to_ground(), 4.0);
    let t = Tarmac::new(1.5f64, &[7u32, 9, 11]);
    assert_eq!(t.offset_to_ground(), 1.5);
    assert_eq!(t.buildings(), &[7, 9, 11]);
}

#[test]
fn flatten_reflattens_loaded_tiles_under_it() {
    let mut lru = Lru::new();
    let mut notes = Vec::new();
    let under = vec![tile(0, 1), tile(0, 2), tile(3, 1)];
    lru.make_available(&[tile(0, 1), tile(0, 2), tile(0, 5)], (0, 0));
    for (t, status) in [(tile(0, 1), Some(vec![0u8; 8])), (tile(0, 2), Some(Vec::new())), (tile(0, 5), Some(vec![0u8; 8]))] {
        lru.realize_load(MapLoadResult { rt_state: (0, 0), map: t, status }, &mut notes);
    }
    let mut f: Flatten<f64, f64> = Flatten::new(&bounds());
    f.cache_intersections(Some(&under));
    // No height yet: nothing to flatten.
    assert_eq!(f.maps_to_reflatten(&lru, &notes), Vec::<MapName>::new());
    f.set_target_height(10.0);
    // Tile 2 came back without data and tile 5 lies elsewhere.
    assert_eq!(f.maps_to_reflatten(&lru, &notes), vec![tile(0, 1)]);
    assert_eq!(f.maps_to_reflatten(&lru, &[tile(3, 1), tile(0, 1), tile(0, 1)]), vec![tile(0, 1), tile(0, 1)]);
}
