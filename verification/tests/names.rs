use geodb::levels::OverviewLevel;
use geodb::names::{MapKind, MapName, MapRef};
use geodb::text::{cache_dir_name, cache_file_name, decimal_padded, hex_lower_bytes, hex_upper_padded};

#[test]
fn map_ref_positions_round_trip() {
    let r = MapRef::new(3, 5, 10);
    assert_eq!(r.stride(), 10);
    assert_eq!(r.offset(), 53);
    assert_eq!(r.index(), 53);
    assert_eq!(r.x(), 3);
    assert_eq!(r.y(), 5);
    for stride in [1u32, 2, 7, 720, 65_535] {
        for (lon, lat) in [(0u32, 0u32), (stride - 1, 0), (0, 11), (stride / 2, 3)] {
            let r = MapRef::new(lon, lat, stride);
            assert_eq!((r.x(), r.y()), (lon, lat));
        }
    }
}

#[test]
fn map_name_parts_and_key() {
    let n = MapName::new(MapKind::Colors, OverviewLevel::new(3), MapRef::new(1, 2, 4));
    assert_eq!(n.kind(), MapKind::Colors);
    assert_eq!(n.level(), OverviewLevel::new(3));
    assert_eq!(n.position(), MapRef::new(1, 2, 4));
    assert_eq!(n.tiff_index_index(), (MapKind::Colors, OverviewLevel::new(3)));
    assert_eq!(n.key(), 1 + 0x300 + 0x4_0000 + 0x9_0000_0000);
}

#[test]
fn different_names_have_different_keys() {
    let mut keys = Vec::new();
    for kind in [MapKind::Heights, MapKind::Colors] {
        for level in [0usize, 1, 12, 255] {
            for (lon, lat, stride) in [(0u32, 0u32, 1u32), (1, 0, 2), (0, 1, 2), (5, 7, 720)] {
                let n = MapName::new(kind, OverviewLevel::new(level), MapRef::new(lon, lat, stride));
                keys.push(n.key());
            }
        }
    }
    let mut sorted = keys.clone();
    sorted.sort();
    sorted.dedup();
    assert_eq!(sorted.len(), keys.len());
}

#[test]
fn printed_names() {
    let r = MapRef::new(5, 3, 720);
    assert_eq!(r.to_string(), "0720:00002165");
    let n = MapName::new(MapKind::Heights, OverviewLevel::new(3), r);
    assert_eq!(n.to_string(), "N:H:03:0720:00002165");
    let n = MapName::new(MapKind::Colors, OverviewLevel::new(12), MapRef::new(0, 0, 1));
    assert_eq!(n.to_string(), "N:C:12:0001:00000000");
    let wide = MapRef::new(4_000_000, 0, 65_535);
    assert_eq!(wide.to_string(), "65535:04000000");
    let huge = MapRef::new(0, 65_000, 65_535);
    assert_eq!(huge.to_string(), "65535:4259775000");
}

#[test]
fn padded_numbers() {
    assert_eq!(decimal_padded(0, 0), "0");
    assert_eq!(decimal_padded(7, 3), "007");
    assert_eq!(decimal_padded(12345, 2), "12345");
    assert_eq!(decimal_padded(u64::MAX, 1), "18446744073709551615");
    assert_eq!(hex_upper_padded(0xAB, 4), "00AB");
    assert_eq!(hex_upper_padded(0, 0), "0");
    assert_eq!(hex_upper_padded(u64::MAX, 16), "FFFFFFFFFFFFFFFF");
    assert_eq!(hex_lower_bytes(&[0x00, 0x0f, 0xa5, 0xff]), "000fa5ff");
    assert_eq!(hex_lower_bytes(&[]), "");
}

#[test]
fn cache_names() {
    assert_eq!(cache_dir_name(""), "d41d8cd98f00b204e9800998ecf8427e");
    assert_eq!(cache_dir_name("abc"), "900150983cd24fb0d6963f7d28e17f72");
    assert_eq!(cache_file_name(0, 8192), "0000000000000000-00002000.dat");
    assert_eq!(cache_file_name(0x1234_5678_9ABC, 0x1_0000_0000), "0000123456789ABC-100000000.dat");
}

#[test]
fn different_ranges_have_different_cache_files() {
    let ranges = [(0u64, 1usize), (1, 0), (0x10, 0x1), (0x1, 0x10), (u64::MAX, 8192), (0, 0x1_0000_0000)];
    let names: Vec<String> = ranges.iter().map(|&(s, n)| cache_file_name(s, n)).collect();
    for i in 0..names.len() {
        for j in 0..names.len() {
            assert_eq!(names[i] == names[j], i == j, "{} vs {}", names[i], names[j]);
        }
    }
}
