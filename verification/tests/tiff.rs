use geodb::le::{read_u16, read_u32, read_u64};
use geodb::tiff::{
    BigIFDTag, BigTiffFileHeader, CogError, GeoTiffDirHeader, GeoTiffDirKey, GeoTiffKeyId, IFDTag,
    OffsetOrInlineData, TiffTagId, TiffType,
};

fn header_bytes() -> Vec<u8> {
    let mut b = vec![0u8; 16];
    b[0] = b'I';
    b[1] = b'I';
    b[2] = 43;
    b[4] = 8;
    b[8..16].copy_from_slice(&0x0102_0304_0506_0708u64.to_le_bytes());
    b
}

#[test]
fn little_endian_reads() {
    let b = [0x01u8, 0x02, 0x03, 0x04, 0x05, 0x06, 0x07, 0x08, 0x09];
    assert_eq!(read_u16(&b, 0), 0x0201);
    assert_eq!(read_u32(&b, 1), 0x0504_0302);
    assert_eq!(read_u64(&b, 1), 0x0908_0706_0504_0302);
}

#[test]
fn header_overlay_and_validate() {
    let b = header_bytes();
    let h = BigTiffFileHeader::overlay(&b);
    assert_eq!(h.magic, [b'I', b'I']);
    assert_eq!(h.version, 43);
    assert_eq!(h.bytesize_of_offsets, 8);
    assert_eq!(h.always_zero, 0);
    assert_eq!(h.offset_to_first_ifd, 0x0102_0304_0506_0708);
    assert_eq!(h.validate_support(), Ok(()));
}

#[test]
fn header_errors_in_order() {
    let mut b = header_bytes();
    b[0] = b'M';
    b[2] = 42;
    assert_eq!(BigTiffFileHeader::overlay(&b).validate_support(), Err(CogError::HeaderByteOrder));
    let mut b = header_bytes();
    b[1] = b'M';
    assert_eq!(BigTiffFileHeader::overlay(&b).validate_support(), Err(CogError::HeaderMagic));
    let mut b = header_bytes();
    b[2] = 42;
    assert_eq!(BigTiffFileHeader::overlay(&b).validate_support(), Err(CogError::HeaderVersion));
    let mut b = header_bytes();
    b[4] = 4;
    assert_eq!(BigTiffFileHeader::overlay(&b).validate_support(), Err(CogError::HeaderOffsetSize));
    let mut b = header_bytes();
    b[6] = 1;
    assert_eq!(BigTiffFileHeader::overlay(&b).validate_support(), Err(CogError::HeaderReserved));
}

#[test]
fn tiff_types() {
    assert_eq!(TiffType::try_from(1), Ok(TiffType::Byte));
    assert_eq!(TiffType::try_from(3), Ok(TiffType::Short));
    assert_eq!(TiffType::try_from(16), Ok(TiffType::Long8));
    assert_eq!(TiffType::try_from(18), Ok(TiffType::IFD8));
    assert_eq!(TiffType::try_from(13), Err(CogError::UnknownTiffType(13)));
    assert_eq!(TiffType::try_from(0), Err(CogError::UnknownTiffType(0)));
    assert_eq!(TiffType::Byte.size_of(), 1);
    assert_eq!(TiffType::Short.size_of(), 2);
    assert_eq!(TiffType::Long.size_of(), 4);
    assert_eq!(TiffType::Rational.size_of(), 8);
    assert_eq!(TiffType::Double.size_of(), 8);
    assert_eq!(TiffType::Long8.size_of(), 8);
}

#[test]
fn tag_ids_and_geo_keys() {
    assert_eq!(TiffTagId::try_from(254), Ok(TiffTagId::NewSubfileType));
    assert_eq!(TiffTagId::try_from(324), Ok(TiffTagId::TileOffsets));
    assert_eq!(TiffTagId::try_from(34735), Ok(TiffTagId::GeoKeyDirectoryTag));
    assert_eq!(TiffTagId::try_from(42112), Ok(TiffTagId::GdalMetadata));
    assert_eq!(TiffTagId::try_from(255), Err(CogError::UnknownTiffTag(255)));
    assert_eq!(GeoTiffKeyId::try_from(1024), Ok(GeoTiffKeyId::GtModel));
    assert_eq!(GeoTiffKeyId::try_from(1025), Ok(GeoTiffKeyId::GtRaster));
    assert_eq!(GeoTiffKeyId::try_from(2048), Ok(GeoTiffKeyId::Geographic));
    assert_eq!(GeoTiffKeyId::try_from(3072), Err(CogError::UnknownGeoKey(3072)));
}

fn raw(id: u16, ty: u16, count: u64, value: u64) -> Vec<u8> {
    let mut b = Vec::new();
    b.extend_from_slice(&id.to_le_bytes());
    b.extend_from_slice(&ty.to_le_bytes());
    b.extend_from_slice(&count.to_le_bytes());
    b.extend_from_slice(&value.to_le_bytes());
    b
}

#[test]
fn raw_entry_overlay() {
    let mut b = vec![0xAAu8; 3];
    b.extend(raw(256, 4, 1, 0x1234));
    let t = BigIFDTag::overlay(&b, 3);
    assert_eq!(t, BigIFDTag { id: 256, field_type: 4, count: 1, inline_data: 0x1234 });
}

#[test]
fn from_big_masks_inline_values_by_type() {
    let v = 0x1122_3344_5566_7788u64;
    let t = IFDTag::from_big(&BigIFDTag { id: 256, field_type: 4, count: 1, inline_data: v }).unwrap();
    assert_eq!(t.inline_data, 0x5566_7788);
    assert_eq!(t.field_type, TiffType::Long);
    assert_eq!(t.id, TiffTagId::ImageWidth);
    let t = IFDTag::from_big(&BigIFDTag { id: 259, field_type: 3, count: 1, inline_data: v }).unwrap();
    assert_eq!(t.inline_data, 0x7788);
    let t = IFDTag::from_big(&BigIFDTag { id: 259, field_type: 1, count: 1, inline_data: v }).unwrap();
    assert_eq!(t.inline_data, 0x88);
    let t = IFDTag::from_big(&BigIFDTag { id: 324, field_type: 16, count: 1, inline_data: v }).unwrap();
    assert_eq!(t.inline_data, v);
    assert_eq!(
        IFDTag::from_big(&BigIFDTag { id: 324, field_type: 99, count: 1, inline_data: v }),
        Err(CogError::UnknownTiffType(99))
    );
    assert_eq!(
        IFDTag::from_big(&BigIFDTag { id: 1, field_type: 4, count: 1, inline_data: v }),
        Err(CogError::UnknownTiffTag(1))
    );
}

fn tag(ty: TiffType, count: u64, inline_data: u64) -> IFDTag {
    IFDTag { id: TiffTagId::TileOffsets, field_type: ty, count, inline_data }
}

#[test]
fn data_size_and_pointer() {
    assert_eq!(tag(TiffType::Long8, 3, 0).data_size(), Ok(24));
    assert_eq!(tag(TiffType::Short, 5, 0).data_size(), Ok(10));
    assert_eq!(
        tag(TiffType::Long, 2, 0x0000_0007_0000_0005).data_pointer(),
        Ok(OffsetOrInlineData::Data4([5, 7]))
    );
    assert_eq!(
        tag(TiffType::Long8, 1, 0xDEAD_BEEF_0000_0001).data_pointer(),
        Ok(OffsetOrInlineData::Data8([0xDEAD_BEEF_0000_0001]))
    );
    assert_eq!(tag(TiffType::Long8, 2, 4096).data_pointer(), Ok(OffsetOrInlineData::Offset(4096)));
    assert_eq!(tag(TiffType::Long, 3, 4096).data_pointer(), Ok(OffsetOrInlineData::Offset(4096)));
    assert_eq!(
        tag(TiffType::Short, 2, 9).data_pointer(),
        Err(CogError::UnsupportedInlineType(TiffType::Short))
    );
}

#[test]
fn find_returns_first_match() {
    let a = IFDTag { id: TiffTagId::ImageWidth, field_type: TiffType::Long, count: 1, inline_data: 1 };
    let b = IFDTag { id: TiffTagId::ImageLength, field_type: TiffType::Long, count: 1, inline_data: 2 };
    let c = IFDTag { id: TiffTagId::ImageWidth, field_type: TiffType::Long, count: 1, inline_data: 3 };
    let tags = vec![a, b, c];
    assert_eq!(IFDTag::find(TiffTagId::ImageWidth, &tags), Some(&a));
    assert_eq!(IFDTag::find(TiffTagId::ImageLength, &tags), Some(&b));
    assert_eq!(IFDTag::find(TiffTagId::TileWidth, &tags), None);
}

#[test]
fn geo_dir_records() {
    let mut b = vec![0u8; 2];
    for v in [1u16, 1, 0, 3, 1024, 0, 1, 2] {
        b.extend_from_slice(&v.to_le_bytes());
    }
    let h = GeoTiffDirHeader::overlay(&b, 2);
    assert_eq!(h, GeoTiffDirHeader { version: 1, key_revision: 1, minor_revision: 0, number_of_keys: 3 });
    let k = GeoTiffDirKey::overlay(&b, 10);
    assert_eq!(k, GeoTiffDirKey { id: 1024, tiff_tag_location: 0, count: 1, value_offset: 2 });
}
