use geodb::cog::{
    check_format, check_geo_key_directory, layer_info, locate_block, parse_ifd_common,
    parse_main_ifd, parse_overview_chain, parse_overview_ifd, required_tags, GeoTiffOverviewInfo,
};
use geodb::header::{parse_cog_main, parse_cog_rest};
use geodb::names::MapKind;
use geodb::tiff::{CogError, IFDTag, OffsetOrInlineData, TiffTagId, TiffType};

const SHORT: u16 = 3;
const LONG: u16 = 4;
const DOUBLE: u16 = 12;
const LONG8: u16 = 16;

const MAIN_AT: usize = 16;
const OVERVIEW_AT: usize = 400;
const SCALE_AT: u64 = 1000;
const TIE_AT: u64 = 1100;
const GEO_AT: u64 = 1200;

fn put(b: &mut [u8], at: usize, bytes: &[u8]) {
    b[at..at + bytes.len()].copy_from_slice(bytes);
}

fn write_ifd(b: &mut [u8], at: usize, entries: &[(u16, u16, u64, u64)], next: u64) {
    put(b, at, &(entries.len() as u64).to_le_bytes());
    let mut pos = at + 8;
    for &(id, ty, count, value) in entries {
        put(b, pos, &id.to_le_bytes());
        put(b, pos + 2, &ty.to_le_bytes());
        put(b, pos + 4, &count.to_le_bytes());
        put(b, pos + 12, &value.to_le_bytes());
        pos += 20;
    }
    put(b, pos, &next.to_le_bytes());
}

fn height_entries(width: u64, height: u64, tiles: u64, offsets: u64, nbytes: u64) -> Vec<(u16, u16, u64, u64)> {
    vec![
        (256, LONG, 1, width),
        (257, LONG, 1, height),
        (258, SHORT, 1, 16),
        (259, SHORT, 1, 34925),
        (262, SHORT, 1, 1),
        (277, SHORT, 1, 1),
        (284, SHORT, 1, 1),
        (322, SHORT, 1, 512),
        (323, SHORT, 1, 512),
        (324, LONG8, tiles, offsets),
        (325, LONG, tiles, nbytes),
        (339, SHORT, 1, 2),
    ]
}

fn main_entries() -> Vec<(u16, u16, u64, u64)> {
    let mut e = height_entries(1024, 512, 2, 2000, 0x0000_0200_0000_0100);
    e.push((33550, DOUBLE, 3, SCALE_AT));
    e.push((33922, DOUBLE, 6, TIE_AT));
    e.push((34735, SHORT, 16, GEO_AT));
    e
}

fn overview_entries() -> Vec<(u16, u16, u64, u64)> {
    let mut e = height_entries(512, 256, 1, 0x0000_0000_0000_3000, 0x77);
    e.insert(0, (254, LONG, 1, 1));
    e
}

fn write_geo_dir(b: &mut [u8], geographic: u16) {
    let words: [u16; 16] = [1, 1, 1, 3, 1024, 0, 1, 2, 1025, 0, 1, 1, 2048, 0, 1, geographic];
    for (i, w) in words.iter().enumerate() {
        put(b, GEO_AT as usize + 2 * i, &w.to_le_bytes());
    }
}

fn cog_bytes() -> Vec<u8> {
    let mut b = vec![0u8; 8192];
    put(&mut b, 0, b"II");
    put(&mut b, 2, &43u16.to_le_bytes());
    put(&mut b, 4, &8u16.to_le_bytes());
    put(&mut b, 8, &(MAIN_AT as u64).to_le_bytes());
    write_ifd(&mut b, MAIN_AT, &main_entries(), OVERVIEW_AT as u64);
    write_ifd(&mut b, OVERVIEW_AT, &overview_entries(), 0);
    write_geo_dir(&mut b, 4326);
    b
}

fn main_layer() -> GeoTiffOverviewInfo {
    GeoTiffOverviewInfo {
        width: 1024,
        height: 512,
        tile_stride: 2,
        tile_rows: 1,
        tile_count: 2,
        tile_offsets_offset: OffsetOrInlineData::Offset(2000),
        tile_offsets_size: 16,
        tile_offsets_type: TiffType::Long8,
        tile_nbytes_offset: OffsetOrInlineData::Data4([0x100, 0]),
        tile_nbytes_size: 8,
        tile_nbytes_type: TiffType::Long,
    }
}

fn overview_layer() -> GeoTiffOverviewInfo {
    GeoTiffOverviewInfo {
        width: 512,
        height: 256,
        tile_stride: 1,
        tile_rows: 1,
        tile_count: 1,
        tile_offsets_offset: OffsetOrInlineData::Data8([0x3000]),
        tile_offsets_size: 8,
        tile_offsets_type: TiffType::Long8,
        tile_nbytes_offset: OffsetOrInlineData::Data4([0x77, 0]),
        tile_nbytes_size: 4,
        tile_nbytes_type: TiffType::Long,
    }
}

#[test]
fn reads_a_whole_header() {
    let b = cog_bytes();
    let main = parse_cog_main(&b, MapKind::Heights).unwrap().unwrap();
    assert_eq!(main.scale_at, SCALE_AT as usize);
    assert_eq!(locate_block(main.main.tie_point_tag.inline_data, 48, &b), Some(Ok(TIE_AT as usize)));
    assert_eq!(main.main.next_ifd, OVERVIEW_AT as u64);
    assert_eq!(main.main.layer, main_layer());
    assert_eq!(main.main.geo_dir_tag.id, TiffTagId::GeoKeyDirectoryTag);
    assert_eq!(main.main.geo_dir_tag.inline_data, GEO_AT);
    assert_eq!(main.main.scale_tag.count, 3);
    let layers = parse_cog_rest(&b, MapKind::Heights, &main.main).unwrap().unwrap();
    assert_eq!(layers, vec![main_layer(), overview_layer()]);
}

#[test]
fn directory_entries_and_next_link() {
    let b = cog_bytes();
    let (next, tags, layer) = parse_ifd_common(MAIN_AT, &b, MapKind::Heights).unwrap().unwrap();
    assert_eq!(next, OVERVIEW_AT as u64);
    assert_eq!(tags.len(), 15);
    assert_eq!(tags[0].id, TiffTagId::ImageWidth);
    assert_eq!(layer, main_layer());
    let (next, layer) = parse_overview_ifd(OVERVIEW_AT, &b, MapKind::Heights).unwrap().unwrap();
    assert_eq!(next, 0);
    assert_eq!(layer, overview_layer());
}

#[test]
fn height_directory_is_not_a_color_directory() {
    let b = cog_bytes();
    assert_eq!(parse_ifd_common(MAIN_AT, &b, MapKind::Colors), Some(Err(CogError::ExpectedBitsPerSample)));
}

#[test]
fn main_directory_is_not_an_overview() {
    let b = cog_bytes();
    assert_eq!(
        parse_overview_ifd(MAIN_AT, &b, MapKind::Heights),
        Some(Err(CogError::MissingTag(TiffTagId::NewSubfileType)))
    );
}

#[test]
fn overview_missing_georeferencing_is_not_a_main_directory() {
    let b = cog_bytes();
    assert_eq!(
        parse_main_ifd(OVERVIEW_AT as u64, &b, MapKind::Heights),
        Some(Err(CogError::MissingTag(TiffTagId::ModelPixelScale)))
    );
    assert_eq!(parse_main_ifd(u64::MAX, &b, MapKind::Heights), None);
}

#[test]
fn tie_point_block_is_not_needed_to_read_the_main_directory() {
    let mut b = cog_bytes();
    let mut e = main_entries();
    e[13].3 = 8190;
    write_ifd(&mut b, MAIN_AT, &e, OVERVIEW_AT as u64);
    let main = parse_cog_main(&b, MapKind::Heights).unwrap().unwrap();
    assert_eq!(main.scale_at, SCALE_AT as usize);
    assert_eq!(locate_block(main.main.tie_point_tag.inline_data, 48, &b), None);
    let mut e = main_entries();
    e[12].3 = 8190;
    write_ifd(&mut b, MAIN_AT, &e, OVERVIEW_AT as u64);
    assert_eq!(parse_cog_main(&b, MapKind::Heights), None);
}

#[test]
fn short_header_cannot_be_read() {
    let b = cog_bytes();
    assert_eq!(parse_cog_main(&b[..15], MapKind::Heights), None);
    assert_eq!(parse_cog_main(&b[..100], MapKind::Heights), None);
}

#[test]
fn bad_file_header_is_reported() {
    let mut b = cog_bytes();
    b[2] = 42;
    assert_eq!(parse_cog_main(&b, MapKind::Heights), Some(Err(CogError::HeaderVersion)));
}

#[test]
fn wrong_compression_is_reported() {
    let mut b = cog_bytes();
    let mut e = main_entries();
    e[3].3 = 5;
    write_ifd(&mut b, MAIN_AT, &e, OVERVIEW_AT as u64);
    assert_eq!(parse_cog_main(&b, MapKind::Heights), Some(Err(CogError::ExpectedLzma)));
}

#[test]
fn missing_required_tag_is_reported() {
    let mut b = cog_bytes();
    let mut e = main_entries();
    e.remove(2);
    write_ifd(&mut b, MAIN_AT, &e, OVERVIEW_AT as u64);
    assert_eq!(
        parse_cog_main(&b, MapKind::Heights),
        Some(Err(CogError::MissingTag(TiffTagId::BitsPerSample)))
    );
}

#[test]
fn unknown_tag_cannot_be_read() {
    let mut b = cog_bytes();
    let mut e = main_entries();
    e.push((1, SHORT, 1, 0));
    write_ifd(&mut b, MAIN_AT, &e, OVERVIEW_AT as u64);
    assert_eq!(parse_cog_main(&b, MapKind::Heights), None);
}

#[test]
fn tile_count_mismatches() {
    let mut b = cog_bytes();
    let mut e = main_entries();
    e[10].2 = 3;
    write_ifd(&mut b, MAIN_AT, &e, OVERVIEW_AT as u64);
    assert_eq!(parse_cog_main(&b, MapKind::Heights), Some(Err(CogError::TileCountMismatch)));
    let mut b = cog_bytes();
    let mut e = main_entries();
    e[0].3 = 2048;
    write_ifd(&mut b, MAIN_AT, &e, OVERVIEW_AT as u64);
    assert_eq!(parse_cog_main(&b, MapKind::Heights), Some(Err(CogError::TileCountSizeMismatch)));
}

#[test]
fn bad_geo_key_is_reported() {
    let mut b = cog_bytes();
    write_geo_dir(&mut b, 4269);
    let main = parse_cog_main(&b, MapKind::Heights).unwrap().unwrap();
    assert_eq!(parse_cog_rest(&b, MapKind::Heights, &main.main), Some(Err(CogError::GeoKeyGeographic)));
    assert_eq!(
        check_geo_key_directory(&main.main.geo_dir_tag, &b),
        Some(Err(CogError::GeoKeyGeographic))
    );
}

#[test]
fn geo_dir_size_must_match_key_count() {
    let b = cog_bytes();
    let mut t = parse_cog_main(&b, MapKind::Heights).unwrap().unwrap().main.geo_dir_tag;
    assert_eq!(check_geo_key_directory(&t, &b), Some(Ok(())));
    t.count = 15;
    assert_eq!(check_geo_key_directory(&t, &b), Some(Err(CogError::GeoDirSizeMismatch)));
    t.inline_data = 0;
    assert_eq!(check_geo_key_directory(&t, &b), Some(Err(CogError::GeoDirVersion)));
}

#[test]
fn overview_chain_that_loops_never_ends() {
    let mut b = cog_bytes();
    write_ifd(&mut b, OVERVIEW_AT, &overview_entries(), OVERVIEW_AT as u64);
    assert_eq!(parse_overview_chain(OVERVIEW_AT as u64, &b, MapKind::Heights), None);
}

#[test]
fn overview_chain_in_file_order() {
    let mut b = cog_bytes();
    write_ifd(&mut b, OVERVIEW_AT, &overview_entries(), 700);
    write_ifd(&mut b, 700, &overview_entries(), 0);
    assert_eq!(
        parse_overview_chain(OVERVIEW_AT as u64, &b, MapKind::Heights),
        Some(Ok(vec![overview_layer(), overview_layer()]))
    );
    assert_eq!(parse_overview_chain(0, &b, MapKind::Heights), Some(Ok(vec![])));
    assert_eq!(parse_overview_chain(u64::MAX, &b, MapKind::Heights), None);
}

#[test]
fn blocks_must_lie_within_the_header() {
    let b = vec![0u8; 100];
    assert_eq!(locate_block(10, 24, &b), Some(Ok(10)));
    assert_eq!(locate_block(76, 24, &b), Some(Ok(76)));
    assert_eq!(locate_block(77, 24, &b), None);
    assert_eq!(locate_block(u64::MAX, 24, &b), None);
}

fn required(entries: &[(u16, u16, u64, u64)]) -> Vec<IFDTag> {
    entries
        .iter()
        .map(|&(id, ty, count, inline_data)| IFDTag {
            id: TiffTagId::try_from(id).unwrap(),
            field_type: TiffType::try_from(ty).unwrap(),
            count,
            inline_data,
        })
        .collect()
}

#[test]
fn required_tags_format_and_layout() {
    let tags = required(&height_entries(1024, 1024, 4, 2000, 3000));
    let req = required_tags(&tags).unwrap();
    assert_eq!(req.tile_width.inline_data, 512);
    assert_eq!(check_format(&req, MapKind::Heights), Ok(()));
    assert_eq!(check_format(&req, MapKind::Colors), Err(CogError::ExpectedBitsPerSample));
    let info = layer_info(&req).unwrap().unwrap();
    assert_eq!(info.tile_stride, 2);
    assert_eq!(info.tile_rows, 2);
    assert_eq!(info.tile_count, 4);
    assert_eq!(info.tile_offsets_offset, OffsetOrInlineData::Offset(2000));
    assert_eq!(info.tile_nbytes_offset, OffsetOrInlineData::Offset(3000));
    assert_eq!(info.tile_offsets_size, 32);
    assert_eq!(info.tile_nbytes_size, 16);
    let tags = required(&height_entries(1025, 513, 6, 2000, 3000));
    let info = layer_info(&required_tags(&tags).unwrap()).unwrap().unwrap();
    assert_eq!((info.tile_stride, info.tile_rows, info.tile_count), (3, 2, 6));
}

#[test]
fn color_directory_format() {
    let mut e = height_entries(512, 512, 1, 5, 6);
    e[2].3 = 8;
    e[4].3 = 2;
    e[5].3 = 3;
    e[11].3 = 1;
    let req = required_tags(&required(&e)).unwrap();
    assert_eq!(check_format(&req, MapKind::Colors), Ok(()));
    assert_eq!(check_format(&req, MapKind::Heights), Err(CogError::ExpectedBitsPerSample));
    let mut e2 = e.clone();
    e2[9].1 = LONG;
    let req = required_tags(&required(&e2)).unwrap();
    assert_eq!(check_format(&req, MapKind::Colors), Err(CogError::ExpectedLong8Offsets));
    let mut e3 = e.clone();
    e3[7].3 = 256;
    let req = required_tags(&required(&e3)).unwrap();
    assert_eq!(check_format(&req, MapKind::Colors), Err(CogError::ExpectedTileWidth));
}
