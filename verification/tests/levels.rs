use std::cmp::Ordering;
use geodb::levels::{OverviewLevel, TileSubdivisionLevel};
use geodb::names::MapKind;

#[test]
fn test_scale() {
    assert_eq!(
        TileSubdivisionLevel::new(10).best_overview_level(MapKind::Heights),
        OverviewLevel::new(0)
    );
}

#[test]
fn heights_depths_map_to_srtm_levels() {
    let coarse = TileSubdivisionLevel::new(0).best_overview_level(MapKind::Heights);
    let fine = TileSubdivisionLevel::new(9).best_overview_level(MapKind::Heights);
    assert!(fine.level() <= coarse.level());
    assert!(fine.is_more_refined_than(coarse) || fine == coarse);
}

#[test]
fn srtm_levels_follow_the_table() {
    let expected = [9u8, 9, 8, 7, 6, 5, 4, 3, 2, 1, 0, 0, 0, 0];
    for (depth, level) in expected.iter().enumerate() {
        assert_eq!(TileSubdivisionLevel::new(depth).best_overview_level(MapKind::Heights).level(), *level);
    }
    assert_eq!(TileSubdivisionLevel::new(usize::MAX).best_overview_level(MapKind::Heights).level(), 0);
}

#[test]
fn colors_depths_never_go_below_level_zero() {
    for depth in 0..20 {
        let l = TileSubdivisionLevel::new(depth).best_overview_level(MapKind::Colors);
        assert!(l.level() <= 12);
    }
}

#[test]
fn from_precision_thresholds() {
    assert_eq!(OverviewLevel::from_precision(0).level(), 0);
    assert_eq!(OverviewLevel::from_precision(29).level(), 0);
    assert_eq!(OverviewLevel::from_precision(30).level(), 1);
    assert_eq!(OverviewLevel::from_precision(59).level(), 1);
    assert_eq!(OverviewLevel::from_precision(60).level(), 2);
    assert_eq!(OverviewLevel::from_precision(7679).level(), 8);
    assert_eq!(OverviewLevel::from_precision(7680).level(), 9);
    assert_eq!(OverviewLevel::from_precision(1_000_000).level(), 9);
}

#[test]
fn from_precision_is_monotone_on_samples() {
    let mut last = 0;
    for p in (0u64..20_000).step_by(7) {
        let l = OverviewLevel::from_precision(p).level();
        assert!(l >= last);
        last = l;
    }
}

#[test]
fn from_angular_precision_thresholds() {
    assert_eq!(OverviewLevel::from_angular_precision(0).level(), 0);
    assert_eq!(OverviewLevel::from_angular_precision(1).level(), 1);
    assert_eq!(OverviewLevel::from_angular_precision(2).level(), 2);
    assert_eq!(OverviewLevel::from_angular_precision(3).level(), 2);
    assert_eq!(OverviewLevel::from_angular_precision(4).level(), 3);
    assert_eq!(OverviewLevel::from_angular_precision(2047).level(), 11);
    assert_eq!(OverviewLevel::from_angular_precision(2048).level(), 12);
    assert_eq!(OverviewLevel::from_angular_precision(u64::MAX).level(), 12);
}

#[test]
fn pixel_extent_and_angle() {
    assert_eq!(OverviewLevel::new(0).pixel_extent(), 30);
    assert_eq!(OverviewLevel::new(1).pixel_extent(), 60);
    assert_eq!(OverviewLevel::new(4).pixel_extent(), 480);
    assert_eq!(OverviewLevel::new(0).pixel_angle(), 1);
    assert_eq!(OverviewLevel::new(12).pixel_angle(), 4096);
    assert_eq!(OverviewLevel::new(63).pixel_extent(), 30u128 << 63);
    assert_eq!(OverviewLevel::new(63).pixel_angle(), 1u128 << 63);
    assert_eq!(OverviewLevel::new(3).extent_factor(), 8);
}

#[test]
fn pixel_extent_doubles_per_level() {
    for l in 0..63 {
        let a = OverviewLevel::new(l).pixel_extent();
        let b = OverviewLevel::new(l + 1).pixel_extent();
        assert_eq!(b, 2 * a);
    }
}

#[test]
fn level_ranges() {
    let l = OverviewLevel::new(10);
    assert_eq!(l.ascending().collect::<Vec<u8>>(), vec![10, 11, 12]);
    assert_eq!(l.up_to(&OverviewLevel::new(11)).collect::<Vec<u8>>(), vec![10, 11]);
    assert_eq!(l.offset(), 10);
    assert!(OverviewLevel::new(3).is_more_refined_than(OverviewLevel::new(4)));
    assert!(!OverviewLevel::new(4).is_more_refined_than(OverviewLevel::new(4)));
}

#[test]
fn levels_order_by_number() {

    assert!(OverviewLevel::new(2) < OverviewLevel::new(3));
    assert_eq!(OverviewLevel::new(7).partial_cmp(&OverviewLevel::new(7)), Some(Ordering::Equal));
    assert_eq!(OverviewLevel::new(9).cmp(&OverviewLevel::new(1)), Ordering::Greater);
    assert_eq!(OverviewLevel::new(4), OverviewLevel::new(4));
    assert_ne!(OverviewLevel::new(4), OverviewLevel::new(5));
}
