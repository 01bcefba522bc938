use geodb::mesh::{grid_mesh, TriMesh};
use geodb::cog::GeoTiffOverviewInfo;
use geodb::geotiff::{
    check_downloads, expand_loaded_tile, is_ready, mesh_topology, samples_extent_for, LoadState,
    OverviewGrid, SampleGrid, StartupEvent,
};
use geodb::index::{GeoTiffMapIndex, Memory};
use geodb::levels::OverviewLevel;
use geodb::names::{MapKind, MapName, MapRef};
use geodb::startup::{assemble_indices, check_parts, startup_total, IndexPart, LoadedPart};
use geodb::tiff::{OffsetOrInlineData, TiffType};

#[test]
fn startup_states() {
    assert_eq!(check_downloads(LoadState::Starting, &[]), LoadState::Starting);
    assert_eq!(
        check_downloads(LoadState::Starting, &[StartupEvent::Status(0, 10), StartupEvent::Status(4, 10)]),
        LoadState::Preparing(4, 10)
    );
    assert_eq!(
        check_downloads(LoadState::Preparing(4, 10), &[StartupEvent::Finished]),
        LoadState::Finished
    );
    assert_eq!(check_downloads(LoadState::Finished, &[]), LoadState::Complete);
    assert_eq!(check_downloads(LoadState::Complete, &[]), LoadState::Complete);
    assert_eq!(check_downloads(LoadState::Starting, &[StartupEvent::Failed]), LoadState::Finished);
    assert!(!is_ready(LoadState::Starting));
    assert!(!is_ready(LoadState::Preparing(1, 2)));
    assert!(is_ready(LoadState::Finished));
    assert!(is_ready(LoadState::Complete));
}

fn grid() -> OverviewGrid {
    OverviewGrid { kind: MapKind::Heights, level: OverviewLevel::new(2), tile_stride: 4, tile_rows: 3, tile_count: 12 }
}

#[test]
fn tiles_in_range_column_by_column() {
    let g = grid();
    let min = MapRef::new(1, 2, 4);
    let max = MapRef::new(2, 1, 4);
    let tiles = g.find_tiles_in_range(&min, &max).to_vec();
    let offsets: Vec<u32> = tiles.iter().map(|n| n.position().offset()).collect();
    assert_eq!(offsets, vec![5, 9, 6, 10]);
    assert!(tiles.iter().all(|n| n.kind() == MapKind::Heights && n.level() == OverviewLevel::new(2)));
    let one = g.find_tiles_in_range(&min, &min).to_vec();
    assert_eq!(one, vec![MapName::new(MapKind::Heights, OverviewLevel::new(2), min)]);
    let none = g.find_tiles_in_range(&max, &min);
    assert_eq!(none.len(), 0);
}

#[test]
fn sample_grid_access() {
    let samples: Vec<u32> = (0..12).collect();
    let mut g = SampleGrid::new(samples, OverviewLevel::new(1), 3, 2);
    assert_eq!(g.width(), 3);
    assert_eq!(g.height(), 2);
    assert_eq!(g.level(), OverviewLevel::new(1));
    assert_eq!(*g.sample(2, 1), 6);
    assert_eq!(*g.sample(3, 2), 11);
    g.set_sample(6, 60);
    assert_eq!(*g.sample(2, 1), 60);
    assert_eq!(g.samples().len(), 12);
    assert_eq!(g.into_samples()[6], 60);
}

#[test]
fn mesh_of_a_small_grid() {
    let (tris, edges) = mesh_topology(2, 1);
    assert_eq!(tris.len(), 4);
    assert_eq!(tris[0], [0, 1, 4]);
    assert_eq!(tris[1], [0, 4, 3]);
    assert_eq!(tris[2], [1, 2, 5]);
    assert_eq!(tris[3], [1, 5, 4]);
    assert_eq!(edges.len(), 3 * 2 + 1 + 2);
    assert_eq!(
        edges,
        vec![[0, 1], [0, 3], [0, 4], [3, 4], [1, 2], [1, 4], [1, 5], [2, 5], [4, 5]]
    );
    let (_, edges) = mesh_topology(1, 1);
    assert_eq!(edges, vec![[0, 1], [0, 2], [0, 3], [1, 3], [2, 3]]);
    let (tris, edges) = mesh_topology(0, 5);
    assert!(tris.is_empty());
    assert!(edges.is_empty());
    let (tris, edges) = mesh_topology(10, 7);
    assert_eq!(tris.len(), 140);
    assert_eq!(edges.len(), 3 * 70 + 17);
    assert!(tris.iter().all(|t| t.iter().all(|&i| i < 11 * 8)));
}

#[test]
fn extent_of_a_tile_in_a_scan() {
    let a = MapName::new(MapKind::Heights, OverviewLevel::new(0), MapRef::new(0, 0, 2));
    let b = MapName::new(MapKind::Heights, OverviewLevel::new(0), MapRef::new(1, 0, 2));
    let names = vec![a, a, b, a, b, b];
    assert_eq!(samples_extent_for(&names, &a), (0, 3));
    assert_eq!(samples_extent_for(&names, &b), (2, 5));
}

#[test]
fn color_tiles_gain_alpha() {
    let mut v = vec![0u8; 512 * 512 * 3];
    v[0] = 1;
    v[1] = 2;
    v[2] = 3;
    v[3 * 512 * 512 - 1] = 9;
    let out = expand_loaded_tile(MapKind::Colors, v);
    assert_eq!(out.len(), 512 * 512 * 4);
    assert_eq!(&out[0..4], &[1, 2, 3, 255]);
    assert_eq!(&out[4 * 512 * 512 - 4..], &[0, 0, 9, 255]);
    let h = vec![1u8, 2, 3];
    assert_eq!(expand_loaded_tile(MapKind::Heights, h.clone()), h);
    assert_eq!(expand_loaded_tile(MapKind::Colors, Vec::new()), Vec::<u8>::new());
}

fn layer(offsets_size: usize, nbytes_size: usize) -> GeoTiffOverviewInfo {
    GeoTiffOverviewInfo {
        width: 512,
        height: 512,
        tile_stride: 1,
        tile_rows: 1,
        tile_count: 1,
        tile_offsets_offset: OffsetOrInlineData::Offset(100),
        tile_offsets_size: offsets_size,
        tile_offsets_type: TiffType::Long8,
        tile_nbytes_offset: OffsetOrInlineData::Offset(200),
        tile_nbytes_size: nbytes_size,
        tile_nbytes_type: TiffType::Long,
    }
}

#[test]
fn startup_work_counts_every_table_twice() {
    assert_eq!(startup_total(&[]), 0);
    assert_eq!(startup_total(&[layer(16, 8), layer(800, 400)]), 2 * (16 + 8 + 800 + 400));
}

fn part(layer: usize, part: IndexPart, map: Option<Memory>) -> LoadedPart {
    LoadedPart { layer, part, map }
}

#[test]
fn indices_are_matched_to_levels() {
    let layers = vec![layer(8, 4), layer(8, 4)];
    let parts = vec![
        part(1, IndexPart::NumBytes, Some(Memory::Inline4([11, 0]))),
        part(0, IndexPart::Offsets, Some(Memory::Inline8([100]))),
        part(1, IndexPart::Offsets, Some(Memory::Inline8([101]))),
        part(0, IndexPart::NumBytes, Some(Memory::Inline4([10, 0]))),
    ];
    let out = assemble_indices(MapKind::Colors, &layers, parts).unwrap();
    assert_eq!(out.len(), 2);
    for (i, index) in out.iter().enumerate() {
        assert_eq!(index.kind, MapKind::Colors);
        assert_eq!(index.level, OverviewLevel::new(i));
        assert_eq!(index.offsets_type, TiffType::Long8);
        assert_eq!(index.nbytes_type, TiffType::Long);
        let name = MapName::new(MapKind::Colors, OverviewLevel::new(i), MapRef::new(0, 0, 1));
        assert_eq!(index.at_offset(&name), (100 + i as u64, 10 + i));
    }
}

#[test]
fn first_failed_table_is_reported() {
    let layers = vec![layer(8, 4), layer(8, 4)];
    let parts = vec![
        part(1, IndexPart::Offsets, None),
        part(0, IndexPart::Offsets, Some(Memory::Inline8([100]))),
        part(0, IndexPart::NumBytes, None),
        part(1, IndexPart::NumBytes, None),
    ];
    match assemble_indices(MapKind::Heights, &layers, parts) {
        Err(e) => assert_eq!(e, (0, IndexPart::NumBytes)),
        Ok(_) => panic!("expected a failure"),
    }
    let parts = vec![
        part(1, IndexPart::NumBytes, None),
        part(0, IndexPart::Offsets, Some(Memory::Inline8([100]))),
        part(0, IndexPart::NumBytes, Some(Memory::Inline4([1, 0]))),
        part(1, IndexPart::Offsets, None),
    ];
    match assemble_indices(MapKind::Heights, &layers, parts) {
        Err(e) => assert_eq!(e, (1, IndexPart::Offsets)),
        Ok(_) => panic!("expected a failure"),
    }
}

#[test]
fn tile_index_lookup() {
    let mut offsets = Vec::new();
    for v in [0x10u64, 0x2000_0000_0000, 0x30] {
        offsets.extend_from_slice(&v.to_le_bytes());
    }
    let mut nbytes = Vec::new();
    for v in [5u32, 6, 7] {
        nbytes.extend_from_slice(&v.to_le_bytes());
    }
    let index = GeoTiffMapIndex {
        kind: MapKind::Heights,
        level: OverviewLevel::new(0),
        offsets: Memory::Mapping(offsets),
        offsets_type: TiffType::Long8,
        nbytes: Memory::Mapping(nbytes),
        nbytes_type: TiffType::Long,
    };
    let name = MapName::new(MapKind::Heights, OverviewLevel::new(0), MapRef::new(1, 0, 3));
    assert_eq!(index.at_offset(&name), (0x2000_0000_0000, 6));
    let name = MapName::new(MapKind::Heights, OverviewLevel::new(0), MapRef::new(2, 0, 3));
    assert_eq!(index.at_offset(&name), (0x30, 7));
    assert_eq!(index.offsets.as_u64_arr(), vec![0x10, 0x2000_0000_0000, 0x30]);
    assert_eq!(index.nbytes.as_u32_arr(), vec![5, 6, 7]);
    assert_eq!(index.nbytes.u32_at(3), None);
    assert_eq!(Memory::Inline4([1, 2]).as_u32_arr(), vec![1, 2]);
    assert_eq!(Memory::Inline8([9]).u64_at(0), Some(9));
}

#[test]
fn index_knows_which_tiles_it_locates() {
    let index = GeoTiffMapIndex {
        kind: MapKind::Heights,
        level: OverviewLevel::new(1),
        offsets: Memory::Mapping(vec![0u8; 16]),
        offsets_type: TiffType::Long8,
        nbytes: Memory::Inline4([3, 4]),
        nbytes_type: TiffType::Long,
    };
    let at = |x: u32| MapName::new(MapKind::Heights, OverviewLevel::new(1), MapRef::new(x, 0, 4));
    assert!(index.can_locate(&at(0)));
    assert!(index.can_locate(&at(1)));
    assert!(!index.can_locate(&at(2)));
    assert!(!index.can_locate(&MapName::new(MapKind::Colors, OverviewLevel::new(1), MapRef::new(0, 0, 4))));
    assert!(!index.can_locate(&MapName::new(MapKind::Heights, OverviewLevel::new(0), MapRef::new(0, 0, 4))));
    assert_eq!(index.at_offset(&at(1)), (0, 4));
}

#[test]
fn mesh_of_grid_points() {
    let points: Vec<(u32, u32)> = (0..3).flat_map(|y| (0..3).map(move |x| (x, y))).collect();
    let mesh = grid_mesh(points.clone(), 2, 2);
    let tris = mesh.tris();
    assert_eq!(tris.len(), 8);
    assert_eq!(tris[0], [(0, 0), (1, 0), (1, 1)]);
    assert_eq!(tris[1], [(0, 0), (1, 1), (0, 1)]);
    assert_eq!(tris[7], [(1, 1), (2, 2), (1, 2)]);
    let edges = mesh.edges();
    assert_eq!(edges.len(), 3 * 4 + 2 + 2);
    assert_eq!(edges[0], [(0, 0), (1, 0)]);
    assert_eq!(mesh.points(), &points[..]);
    let mut m = TriMesh::new(vec![1u8, 2, 3], vec![[0, 1, 2]], vec![[2, 0]]);
    m.set_point(1, 9);
    assert_eq!(m.tris(), vec![[1, 9, 3]]);
    assert_eq!(m.edges(), vec![[3, 1]]);
}

#[test]
fn table_sets_are_checked() {
    let full = vec![
        part(1, IndexPart::NumBytes, None),
        part(0, IndexPart::Offsets, None),
        part(1, IndexPart::Offsets, None),
        part(0, IndexPart::NumBytes, None),
    ];
    assert!(check_parts(&full, 2));
    assert!(!check_parts(&full, 1));
    assert!(!check_parts(&full, 3));
    let twice = vec![
        part(0, IndexPart::Offsets, None),
        part(0, IndexPart::NumBytes, None),
        part(0, IndexPart::Offsets, None),
    ];
    assert!(!check_parts(&twice, 1));
    let missing = vec![part(0, IndexPart::Offsets, None)];
    assert!(!check_parts(&missing, 1));
    assert!(check_parts(&[], 0));
}
