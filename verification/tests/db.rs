use geodb::db::{download_action, region_level, tile_stack_levels, DownloadAction, StackError};
use geodb::geotiff::LoadState;
use geodb::levels::{OverviewLevel, TileSubdivisionLevel};
use geodb::names::MapKind;

#[test]
fn actions_after_a_check() {
    assert_eq!(download_action(LoadState::Starting), DownloadAction::Wait);
    assert_eq!(download_action(LoadState::Preparing(1, 9)), DownloadAction::Wait);
    assert_eq!(download_action(LoadState::Finished), DownloadAction::InstallIndices);
    assert_eq!(download_action(LoadState::Complete), DownloadAction::RealizeLoads);
}

#[test]
fn region_levels() {
    let d = TileSubdivisionLevel::new(3);
    assert_eq!(region_level(true, d, MapKind::Heights, 10), Some(OverviewLevel::new(7)));
    assert_eq!(region_level(false, d, MapKind::Heights, 10), None);
    assert_eq!(region_level(true, d, MapKind::Heights, 7), None);
    assert_eq!(region_level(true, d, MapKind::Colors, 7), Some(OverviewLevel::new(3)));
    assert_eq!(region_level(true, TileSubdivisionLevel::new(20), MapKind::Colors, 1), Some(OverviewLevel::new(0)));
    assert_eq!(region_level(true, TileSubdivisionLevel::new(0), MapKind::Heights, 10), Some(OverviewLevel::new(9)));
    assert_eq!(region_level(true, TileSubdivisionLevel::new(14), MapKind::Heights, 10), Some(OverviewLevel::new(0)));
}

#[test]
fn tile_stacks() {
    let v = tile_stack_levels(OverviewLevel::new(9), 10).unwrap();
    assert_eq!(v.iter().map(|l| l.level()).collect::<Vec<_>>(), vec![9, 10, 11, 12]);
    assert_eq!(tile_stack_levels(OverviewLevel::new(10), 10), Err(StackError::LevelOutOfRange));
    assert_eq!(tile_stack_levels(OverviewLevel::new(0), 13).unwrap().len(), 13);
    assert!(tile_stack_levels(OverviewLevel::new(20), 30).unwrap().is_empty());
}
