//! BigTIFF building blocks: field types, tag identifiers, GeoTIFF key ids,
//! the fixed-size records of the file header and of an image file directory
//! (IFD), and the decoded form of an IFD entry.
use vstd::prelude::*;
use crate::le::{le16, le64, read_u16, read_u64};

verus! {

/// Everything that can go wrong while reading a cloud-optimised GeoTIFF header.
#[derive(Clone, Copy, Debug, PartialEq, Eq, Structural)]
pub enum CogError {
    /// A field type code that TIFF does not define.
    UnknownTiffType(u16),
    /// A tag id that this reader does not know.
    UnknownTiffTag(u16),
    /// A GeoTIFF key id that this reader does not know.
    UnknownGeoKey(u16),
    /// First magic byte is not `I`.
    HeaderByteOrder,
    /// Second magic byte is not `I`.
    HeaderMagic,
    /// The header version is not 43 (BigTIFF).
    HeaderVersion,
    /// Offsets are not 8 bytes wide.
    HeaderOffsetSize,
    /// The reserved header word is not zero.
    HeaderReserved,
    /// A stored integer does not fit the integer type it must be read into.
    IntConversion,
    /// A required tag is absent from the directory.
    MissingTag(TiffTagId),
    /// Compression is not LZMA (34925).
    ExpectedLzma,
    /// Planar configuration is not 1 (chunky).
    ExpectedChunkedPlanes,
    /// Tile width is not 512.
    ExpectedTileWidth,
    /// Tile length is not 512.
    ExpectedTileHeight,
    /// Tile offsets are not stored as Long8.
    ExpectedLong8Offsets,
    /// Bits per sample do not match the map kind.
    ExpectedBitsPerSample,
    /// Samples per pixel do not match the map kind.
    ExpectedSamplesPerPixel,
    /// Sample format does not match the map kind.
    ExpectedSampleFormat,
    /// Photometric interpretation does not match the map kind.
    ExpectedPhotometric,
    /// Inline data of a type that cannot be referenced in place.
    UnsupportedInlineType(TiffType),
    /// Tile offsets and tile byte counts hold different numbers of entries.
    TileCountMismatch,
    /// The number of tiles disagrees with the image size.
    TileCountSizeMismatch,
    /// An overview directory whose subfile type is not 1.
    SubfileType,
    /// Geo key directory version is not 1.
    GeoDirVersion,
    /// Geo key directory key revision is not 1.
    GeoDirKeyRevision,
    /// Geo key directory minor revision is not 1.
    GeoDirMinorRevision,
    /// Geo key directory length disagrees with its key count.
    GeoDirSizeMismatch,
    /// A geo key stores its value outside the directory.
    GeoKeyNotInline,
    /// A geo key holds more than one value.
    GeoKeyCount,
    /// Model type is not lat/lon (2).
    GeoKeyModel,
    /// Raster type is not pixel-is-area (1).
    GeoKeyRaster,
    /// Geographic type is not WGS 84 (4326).
    GeoKeyGeographic,
}

/// TIFF field types.
#[derive(Clone, Copy, Debug, PartialEq, Eq, Structural)]
pub enum TiffType {
    Byte,
    Ascii,
    Short,
    Long,
    Rational,
    SByte,
    Undefined,
    SShort,
    SLong,
    SRational,
    Float,
    Double,
    Long8,
    SLong8,
    IFD8,
}

impl TiffType {
    /// The numeric code of this type in the file.
    pub open spec fn code(self) -> u16 {
        match self {
            TiffType::Byte => 1,
            TiffType::Ascii => 2,
            TiffType::Short => 3,
            TiffType::Long => 4,
            TiffType::Rational => 5,
            TiffType::SByte => 6,
            TiffType::Undefined => 7,
            TiffType::SShort => 8,
            TiffType::SLong => 9,
            TiffType::SRational => 10,
            TiffType::Float => 11,
            TiffType::Double => 12,
            TiffType::Long8 => 16,
            TiffType::SLong8 => 17,
            TiffType::IFD8 => 18,
        }
    }

    /// The type whose code is `v`, if any.
    pub open spec fn from_code(v: u16) -> Option<TiffType> {
        if v == 1 { Some(TiffType::Byte) }
        else if v == 2 { Some(TiffType::Ascii) }
        else if v == 3 { Some(TiffType::Short) }
        else if v == 4 { Some(TiffType::Long) }
        else if v == 5 { Some(TiffType::Rational) }
        else if v == 6 { Some(TiffType::SByte) }
        else if v == 7 { Some(TiffType::Undefined) }
        else if v == 8 { Some(TiffType::SShort) }
        else if v == 9 { Some(TiffType::SLong) }
        else if v == 10 { Some(TiffType::SRational) }
        else if v == 11 { Some(TiffType::Float) }
        else if v == 12 { Some(TiffType::Double) }
        else if v == 16 { Some(TiffType::Long8) }
        else if v == 17 { Some(TiffType::SLong8) }
        else if v == 18 { Some(TiffType::IFD8) }
        else { None }
    }

    /// Size in bytes of one item of this type.
    pub open spec fn spec_size_of(self) -> nat {
        match self {
            TiffType::Byte | TiffType::Ascii | TiffType::SByte | TiffType::Undefined => 1,
            TiffType::Short | TiffType::SShort => 2,
            TiffType::Long | TiffType::SLong | TiffType::Float => 4,
            _ => 8,
        }
    }

    /// Reads a field type code.
    pub fn try_from(v: u16) -> (r: Result<TiffType, CogError>)
        ensures
            match r {
                Ok(t) => Self::from_code(v) == Some(t),
                Err(e) => Self::from_code(v) is None && e == CogError::UnknownTiffType(v),
            },
    {
        if v == 1 { Ok(TiffType::Byte) }
        else if v == 2 { Ok(TiffType::Ascii) }
        else if v == 3 { Ok(TiffType::Short) }
        else if v == 4 { Ok(TiffType::Long) }
        else if v == 5 { Ok(TiffType::Rational) }
        else if v == 6 { Ok(TiffType::SByte) }
        else if v == 7 { Ok(TiffType::Undefined) }
        else if v == 8 { Ok(TiffType::SShort) }
        else if v == 9 { Ok(TiffType::SLong) }
        else if v == 10 { Ok(TiffType::SRational) }
        else if v == 11 { Ok(TiffType::Float) }
        else if v == 12 { Ok(TiffType::Double) }
        else if v == 16 { Ok(TiffType::Long8) }
        else if v == 17 { Ok(TiffType::SLong8) }
        else if v == 18 { Ok(TiffType::IFD8) }
        else { Err(CogError::UnknownTiffType(v)) }
    }

    /// Size in bytes of an item of the given type.
    pub fn size_of(&self) -> (r: usize)
        ensures
            r == self.spec_size_of(),
    {
        match self {
            TiffType::Byte => 1,
            TiffType::Ascii => 1,
            TiffType::Short => 2,
            TiffType::Long => 4,
            TiffType::Rational => 8,
            TiffType::SByte => 1,
            TiffType::Undefined => 1,
            TiffType::SShort => 2,
            TiffType::SLong => 4,
            TiffType::SRational => 8,
            TiffType::Float => 4,
            TiffType::Double => 8,
            TiffType::Long8 => 8,
            TiffType::SLong8 => 8,
            TiffType::IFD8 => 8,
        }
    }
}

/// Reading a type's code gives the type back, and every code that reads as a
/// type is that type's code.
pub proof fn tiff_type_code_round_trip(t: TiffType, v: u16)
    ensures
        TiffType::from_code(t.code()) == Some(t),
        TiffType::from_code(v) matches Some(u) ==> u.code() == v,
{
}

/// The tags this reader understands.
#[derive(Clone, Copy, Debug, PartialEq, Eq, Structural)]
pub enum TiffTagId {
    NewSubfileType,
    ImageWidth,
    ImageLength,
    BitsPerSample,
    Compression,
    PhotometricInterpretation,
    SamplesPerPixel,
    PlanarConfiguration,
    TileWidth,
    TileLength,
    TileOffsets,
    TileByteCounts,
    SampleFormat,
    ModelPixelScale,
    ModelTiePoint,
    GeoKeyDirectoryTag,
    GdalMetadata,
}

impl TiffTagId {
    /// The numeric id of this tag in the file.
    pub open spec fn code(self) -> u16 {
        match self {
            TiffTagId::NewSubfileType => 254,
            TiffTagId::ImageWidth => 256,
            TiffTagId::ImageLength => 257,
            TiffTagId::BitsPerSample => 258,
            TiffTagId::Compression => 259,
            TiffTagId::PhotometricInterpretation => 262,
            TiffTagId::SamplesPerPixel => 277,
            TiffTagId::PlanarConfiguration => 284,
            TiffTagId::TileWidth => 322,
            TiffTagId::TileLength => 323,
            TiffTagId::TileOffsets => 324,
            TiffTagId::TileByteCounts => 325,
            TiffTagId::SampleFormat => 339,
            TiffTagId::ModelPixelScale => 33550,
            TiffTagId::ModelTiePoint => 33922,
            TiffTagId::GeoKeyDirectoryTag => 34735,
            TiffTagId::GdalMetadata => 42112,
        }
    }

    /// The tag whose id is `v`, if any.
    pub open spec fn from_code(v: u16) -> Option<TiffTagId> {
        if v == 254 { Some(TiffTagId::NewSubfileType) }
        else if v == 256 { Some(TiffTagId::ImageWidth) }
        else if v == 257 { Some(TiffTagId::ImageLength) }
        else if v == 258 { Some(TiffTagId::BitsPerSample) }
        else if v == 259 { Some(TiffTagId::Compression) }
        else if v == 262 { Some(TiffTagId::PhotometricInterpretation) }
        else if v == 277 { Some(TiffTagId::SamplesPerPixel) }
        else if v == 284 { Some(TiffTagId::PlanarConfiguration) }
        else if v == 322 { Some(TiffTagId::TileWidth) }
        else if v == 323 { Some(TiffTagId::TileLength) }
        else if v == 324 { Some(TiffTagId::TileOffsets) }
        else if v == 325 { Some(TiffTagId::TileByteCounts) }
        else if v == 339 { Some(TiffTagId::SampleFormat) }
        else if v == 33550 { Some(TiffTagId::ModelPixelScale) }
        else if v == 33922 { Some(TiffTagId::ModelTiePoint) }
        else if v == 34735 { Some(TiffTagId::GeoKeyDirectoryTag) }
        else if v == 42112 { Some(TiffTagId::GdalMetadata) }
        else { None }
    }

    /// Reads a tag id.
    pub fn try_from(v: u16) -> (r: Result<TiffTagId, CogError>)
        ensures
            match r {
                Ok(t) => Self::from_code(v) == Some(t),
                Err(e) => Self::from_code(v) is None && e == CogError::UnknownTiffTag(v),
            },
    {
        if v == 254 { Ok(TiffTagId::NewSubfileType) }
        else if v == 256 { Ok(TiffTagId::ImageWidth) }
        else if v == 257 { Ok(TiffTagId::ImageLength) }
        else if v == 258 { Ok(TiffTagId::BitsPerSample) }
        else if v == 259 { Ok(TiffTagId::Compression) }
        else if v == 262 { Ok(TiffTagId::PhotometricInterpretation) }
        else if v == 277 { Ok(TiffTagId::SamplesPerPixel) }
        else if v == 284 { Ok(TiffTagId::PlanarConfiguration) }
        else if v == 322 { Ok(TiffTagId::TileWidth) }
        else if v == 323 { Ok(TiffTagId::TileLength) }
        else if v == 324 { Ok(TiffTagId::TileOffsets) }
        else if v == 325 { Ok(TiffTagId::TileByteCounts) }
        else if v == 339 { Ok(TiffTagId::SampleFormat) }
        else if v == 33550 { Ok(TiffTagId::ModelPixelScale) }
        else if v == 33922 { Ok(TiffTagId::ModelTiePoint) }
        else if v == 34735 { Ok(TiffTagId::GeoKeyDirectoryTag) }
        else if v == 42112 { Ok(TiffTagId::GdalMetadata) }
        else { Err(CogError::UnknownTiffTag(v)) }
    }
}

/// Reading a tag's id gives the tag back, and every id that reads as a tag
/// is that tag's id.
pub proof fn tiff_tag_code_round_trip(t: TiffTagId, v: u16)
    ensures
        TiffTagId::from_code(t.code()) == Some(t),
        TiffTagId::from_code(v) matches Some(u) ==> u.code() == v,
{
}

/// The GeoTIFF keys this reader understands.
#[derive(Clone, Copy, Debug, PartialEq, Eq, Structural)]
pub enum GeoTiffKeyId {
    GtModel,
    GtRaster,
    Geographic,
}

impl GeoTiffKeyId {
    /// The numeric id of this key in the file.
    pub open spec fn code(self) -> u16 {
        match self {
            GeoTiffKeyId::GtModel => 1024,
            GeoTiffKeyId::GtRaster => 1025,
            GeoTiffKeyId::Geographic => 2048,
        }
    }

    /// The key whose id is `v`, if any.
    pub open spec fn from_code(v: u16) -> Option<GeoTiffKeyId> {
        if v == 1024 { Some(GeoTiffKeyId::GtModel) }
        else if v == 1025 { Some(GeoTiffKeyId::GtRaster) }
        else if v == 2048 { Some(GeoTiffKeyId::Geographic) }
        else { None }
    }

    /// Reads a geo key id.
    pub fn try_from(v: u16) -> (r: Result<GeoTiffKeyId, CogError>)
        ensures
            match r {
                Ok(t) => Self::from_code(v) == Some(t),
                Err(e) => Self::from_code(v) is None && e == CogError::UnknownGeoKey(v),
            },
    {
        if v == 1024 { Ok(GeoTiffKeyId::GtModel) }
        else if v == 1025 { Ok(GeoTiffKeyId::GtRaster) }
        else if v == 2048 { Ok(GeoTiffKeyId::Geographic) }
        else { Err(CogError::UnknownGeoKey(v)) }
    }
}

/// Reading a geo key's id gives the key back, and every id that reads as a
/// key is that key's id.
pub proof fn geo_key_code_round_trip(t: GeoTiffKeyId, v: u16)
    ensures
        GeoTiffKeyId::from_code(t.code()) == Some(t),
        GeoTiffKeyId::from_code(v) matches Some(u) ==> u.code() == v,
{
}

/// The 16-byte BigTIFF file header.
#[derive(Clone, Copy, Debug, PartialEq, Eq)]
pub struct BigTiffFileHeader {
    pub magic: [u8; 2],
    pub version: u16,
    pub bytesize_of_offsets: u16,
    pub always_zero: u16,
    pub offset_to_first_ifd: u64,
}

/// Size in bytes of the BigTIFF file header.
pub const BIG_TIFF_HEADER_SIZE: usize = 16;

impl BigTiffFileHeader {
    /// The header stored at `o` in `b`.
    pub open spec fn at(b: Seq<u8>, o: int) -> BigTiffFileHeader {
        BigTiffFileHeader {
            magic: [b[o], b[o + 1]],
            version: le16(b, o + 2) as u16,
            bytesize_of_offsets: le16(b, o + 4) as u16,
            always_zero: le16(b, o + 6) as u16,
            offset_to_first_ifd: le64(b, o + 8) as u64,
        }
    }

    /// Reads the header stored at the start of `data`.
    pub fn overlay(data: &[u8]) -> (r: BigTiffFileHeader)
        requires
            16 <= data@.len(),
        ensures
            r == Self::at(data@, 0),
    {
        BigTiffFileHeader {
            magic: [data[0], data[1]],
            version: read_u16(data, 2),
            bytesize_of_offsets: read_u16(data, 4),
            always_zero: read_u16(data, 6),
            offset_to_first_ifd: read_u64(data, 8),
        }
    }

    /// The first check, in file order, that this header fails, if any.
    pub open spec fn spec_validate(self) -> Result<(), CogError> {
        if self.magic[0] != 0x49 {
            Err(CogError::HeaderByteOrder)
        } else if self.magic[1] != 0x49 {
            Err(CogError::HeaderMagic)
        } else if self.version != 43 {
            Err(CogError::HeaderVersion)
        } else if self.bytesize_of_offsets != 8 {
            Err(CogError::HeaderOffsetSize)
        } else if self.always_zero != 0 {
            Err(CogError::HeaderReserved)
        } else {
            Ok(())
        }
    }

    /// Accepts only little-endian BigTIFF headers with 8 byte offsets.
    pub fn validate_support(&self) -> (r: Result<(), CogError>)
        ensures
            r == self.spec_validate(),
    {
        if self.magic[0] != 0x49 {
            Err(CogError::HeaderByteOrder)
        } else if self.magic[1] != 0x49 {
            Err(CogError::HeaderMagic)
        } else if self.version != 43 {
            Err(CogError::HeaderVersion)
        } else if self.bytesize_of_offsets != 8 {
            Err(CogError::HeaderOffsetSize)
        } else if self.always_zero != 0 {
            Err(CogError::HeaderReserved)
        } else {
            Ok(())
        }
    }
}

/// A raw 20-byte BigTIFF directory entry.
#[derive(Clone, Copy, Debug, PartialEq, Eq, Structural)]
pub struct BigIFDTag {
    pub id: u16,
    pub field_type: u16,
    pub count: u64,
    pub inline_data: u64,
}

/// Size in bytes of a raw BigTIFF directory entry.
pub const BIG_IFD_TAG_SIZE: usize = 20;

impl BigIFDTag {
    /// The entry stored at `o` in `b`.
    pub open spec fn at(b: Seq<u8>, o: int) -> BigIFDTag {
        BigIFDTag {
            id: le16(b, o) as u16,
            field_type: le16(b, o + 2) as u16,
            count: le64(b, o + 4) as u64,
            inline_data: le64(b, o + 12) as u64,
        }
    }

    /// Reads the entry stored at `off` in `data`.
    pub fn overlay(data: &[u8], off: usize) -> (r: BigIFDTag)
        requires
            off + 20 <= data@.len(),
        ensures
            r == Self::at(data@, off as int),
    {
        let n = data.len();
        assert(off + 20 <= n);
        BigIFDTag {
            id: read_u16(data, off),
            field_type: read_u16(data, off + 2),
            count: read_u64(data, off + 4),
            inline_data: read_u64(data, off + 12),
        }
    }
}

/// Where the values of a directory entry live: at a file offset, or inside
/// the entry itself as two 32-bit or one 64-bit word.
#[derive(Clone, Copy, Debug, PartialEq, Eq)]
pub enum OffsetOrInlineData {
    Offset(u64),
    Data4([u32; 2]),
    Data8([u64; 1]),
}

/// A decoded directory entry.
#[derive(Clone, Copy, Debug, PartialEq, Eq, Structural)]
pub struct IFDTag {
    pub id: TiffTagId,
    pub field_type: TiffType,
    pub count: u64,
    pub inline_data: u64,
}

/// The inline value of a raw entry, cut to the width of its type.
pub open spec fn masked_inline(t: TiffType, v: u64) -> u64 {
    match t {
        TiffType::Float | TiffType::Long | TiffType::SLong => (v % 0x1_0000_0000) as u64,
        TiffType::Short | TiffType::SShort => (v % 0x1_0000) as u64,
        TiffType::Ascii | TiffType::Byte | TiffType::SByte => (v % 0x100) as u64,
        _ => v,
    }
}

impl IFDTag {
    /// What decoding the raw entry gives: its field type is read first, then
    /// its id; the inline value is cut to the width of the field type.
    pub open spec fn spec_from_big(tag: BigIFDTag) -> Result<IFDTag, CogError> {
        match TiffType::from_code(tag.field_type) {
            None => Err(CogError::UnknownTiffType(tag.field_type)),
            Some(t) => match TiffTagId::from_code(tag.id) {
                None => Err(CogError::UnknownTiffTag(tag.id)),
                Some(id) => Ok(IFDTag {
                    id,
                    field_type: t,
                    count: tag.count,
                    inline_data: masked_inline(t, tag.inline_data),
                }),
            },
        }
    }

    /// Decodes a raw directory entry.
    pub fn from_big(tag: &BigIFDTag) -> (r: Result<IFDTag, CogError>)
        ensures
            r == Self::spec_from_big(*tag),
    {
        let field_type = match TiffType::try_from(tag.field_type) {
            Ok(t) => t,
            Err(e) => return Err(e),
        };
        let raw = tag.inline_data;
        let inline_data = match field_type {
            TiffType::Float | TiffType::Long | TiffType::SLong => {
                assert(raw & 0xFFFF_FFFF == raw % 0x1_0000_0000) by (bit_vector);
                raw & 0xFFFF_FFFF
            },
            TiffType::Short | TiffType::SShort => {
                assert(raw & 0xFFFF == raw % 0x1_0000) by (bit_vector);
                raw & 0xFFFF
            },
            TiffType::Ascii | TiffType::Byte | TiffType::SByte => {
                assert(raw & 0xFF == raw % 0x100) by (bit_vector);
                raw & 0xFF
            },
            _ => raw,
        };
        let id = match TiffTagId::try_from(tag.id) {
            Ok(t) => t,
            Err(e) => return Err(e),
        };
        Ok(IFDTag { id, field_type, count: tag.count, inline_data })
    }

    /// Whether the byte size of the entry's values fits in a `usize`
    /// whenever its count does.
    pub open spec fn data_size_fits(self) -> bool {
        self.count <= usize::MAX ==> self.count * self.field_type.spec_size_of() <= usize::MAX
    }

    /// The byte size of the entry's values.
    pub open spec fn spec_data_size(self) -> Result<usize, CogError> {
        if self.count > usize::MAX {
            Err(CogError::IntConversion)
        } else {
            Ok((self.count * self.field_type.spec_size_of()) as usize)
        }
    }

    /// Byte size of the entry's values: count times the size of its type.
    pub fn data_size(&self) -> (r: Result<usize, CogError>)
        requires
            self.data_size_fits(),
        ensures
            r == self.spec_data_size(),
    {
        if self.count > usize::MAX as u64 {
            Err(CogError::IntConversion)
        } else {
            let n = self.count as usize;
            let s = self.field_type.size_of();
            Ok(n * s)
        }
    }

    /// Where the entry's values are: inline when they fit in 8 bytes (only
    /// Long and Long8 values may be inline), otherwise at the stored offset.
    pub open spec fn spec_data_pointer(self) -> Result<OffsetOrInlineData, CogError> {
        match self.spec_data_size() {
            Err(e) => Err(e),
            Ok(size) => if size <= 8 {
                match self.field_type {
                    TiffType::Long => Ok(OffsetOrInlineData::Data4([
                        (self.inline_data % 0x1_0000_0000) as u32,
                        (self.inline_data / 0x1_0000_0000) as u32,
                    ])),
                    TiffType::Long8 => Ok(OffsetOrInlineData::Data8([self.inline_data])),
                    _ => Err(CogError::UnsupportedInlineType(self.field_type)),
                }
            } else {
                Ok(OffsetOrInlineData::Offset(self.inline_data))
            },
        }
    }

    /// Locates the entry's values.
    pub fn data_pointer(&self) -> (r: Result<OffsetOrInlineData, CogError>)
        requires
            self.data_size_fits(),
        ensures
            r == self.spec_data_pointer(),
    {
        let size = match self.data_size() {
            Ok(s) => s,
            Err(e) => return Err(e),
        };
        if size <= 8 {
            match self.field_type {
                TiffType::Long => {
                    let x = self.inline_data;
                    assert(x & 0xFFFF_FFFF == x % 0x1_0000_0000) by (bit_vector);
                    assert(x >> 32 == x / 0x1_0000_0000) by (bit_vector);
                    let lo = (x & 0xFFFF_FFFF) as u32;
                    let hi = (x >> 32) as u32;
                    Ok(OffsetOrInlineData::Data4([lo, hi]))
                },
                TiffType::Long8 => Ok(OffsetOrInlineData::Data8([self.inline_data])),
                _ => Err(CogError::UnsupportedInlineType(self.field_type)),
            }
        } else {
            Ok(OffsetOrInlineData::Offset(self.inline_data))
        }
    }

    /// Index of the first entry in `tags` with the given id.
    pub open spec fn first_index(id: TiffTagId, tags: Seq<IFDTag>) -> Option<int>
        decreases tags.len(),
    {
        if tags.len() == 0 {
            None
        } else if tags[0].id == id {
            Some(0)
        } else {
            match Self::first_index(id, tags.drop_first()) {
                Some(i) => Some(i + 1),
                None => None,
            }
        }
    }

    /// The first entry in `tags` with the given id.
    pub open spec fn spec_find(id: TiffTagId, tags: Seq<IFDTag>) -> Option<IFDTag> {
        match Self::first_index(id, tags) {
            Some(i) => Some(tags[i]),
            None => None,
        }
    }

    /// Finds the first entry with the given id.
    pub fn find(id: TiffTagId, tags: &[IFDTag]) -> (r: Option<&IFDTag>)
        ensures
            match r {
                Some(t) => Self::spec_find(id, tags@) == Some(*t),
                None => Self::spec_find(id, tags@) is None,
            },
    {
        let mut i: usize = 0;
        while i < tags.len()
            invariant
                i <= tags@.len(),
                forall|j: int| 0 <= j < i ==> tags@[j].id != id,
            decreases tags.len() - i,
        {
            if tags[i].id == id {
                proof { lemma_first_index_is(id, tags@, i as int); }
                return Some(&tags[i]);
            }
            i = i + 1;
        }
        proof { lemma_first_index_none(id, tags@); }
        None
    }
}

proof fn lemma_first_index_is(id: TiffTagId, tags: Seq<IFDTag>, i: int)
    requires
        0 <= i < tags.len(),
        tags[i].id == id,
        forall|j: int| 0 <= j < i ==> tags[j].id != id,
    ensures
        IFDTag::first_index(id, tags) == Some(i),
    decreases i,
{
    if i > 0 {
        lemma_first_index_is(id, tags.drop_first(), i - 1);
    }
}

proof fn lemma_first_index_none(id: TiffTagId, tags: Seq<IFDTag>)
    requires
        forall|j: int| 0 <= j < tags.len() ==> tags[j].id != id,
    ensures
        IFDTag::first_index(id, tags) is None,
    decreases tags.len(),
{
    if tags.len() > 0 {
        lemma_first_index_none(id, tags.drop_first());
    }
}

/// Splitting a Long entry into its two inline words loses nothing: the low
/// word and the high word put back together give the stored value.
pub proof fn inline_long_words_recombine(tag: IFDTag)
    requires
        tag.data_size_fits(),
        tag.spec_data_pointer() matches Ok(OffsetOrInlineData::Data4(w)),
    ensures
        tag.spec_data_pointer() matches Ok(OffsetOrInlineData::Data4(w))
            && w[0] + w[1] * 0x1_0000_0000 == tag.inline_data,
{
}

/// The 8-byte GeoTIFF key directory header.
#[derive(Clone, Copy, Debug, PartialEq, Eq, Structural)]
pub struct GeoTiffDirHeader {
    pub version: u16,
    pub key_revision: u16,
    pub minor_revision: u16,
    pub number_of_keys: u16,
}

impl GeoTiffDirHeader {
    pub open spec fn at(b: Seq<u8>, o: int) -> GeoTiffDirHeader {
        GeoTiffDirHeader {
            version: le16(b, o) as u16,
            key_revision: le16(b, o + 2) as u16,
            minor_revision: le16(b, o + 4) as u16,
            number_of_keys: le16(b, o + 6) as u16,
        }
    }

    /// Reads the directory header stored at `off` in `data`.
    pub fn overlay(data: &[u8], off: usize) -> (r: GeoTiffDirHeader)
        requires
            off + 8 <= data@.len(),
        ensures
            r == Self::at(data@, off as int),
    {
        let n = data.len();
        assert(off + 8 <= n);
        GeoTiffDirHeader {
            version: read_u16(data, off),
            key_revision: read_u16(data, off + 2),
            minor_revision: read_u16(data, off + 4),
            number_of_keys: read_u16(data, off + 6),
        }
    }
}

/// An 8-byte GeoTIFF key entry.
#[derive(Clone, Copy, Debug, PartialEq, Eq, Structural)]
pub struct GeoTiffDirKey {
    pub id: u16,
    pub tiff_tag_location: u16,
    pub count: u16,
    pub value_offset: u16,
}

impl GeoTiffDirKey {
    pub open spec fn at(b: Seq<u8>, o: int) -> GeoTiffDirKey {
        GeoTiffDirKey {
            id: le16(b, o) as u16,
            tiff_tag_location: le16(b, o + 2) as u16,
            count: le16(b, o + 4) as u16,
            value_offset: le16(b, o + 6) as u16,
        }
    }

    /// Reads the key stored at `off` in `data`.
    pub fn overlay(data: &[u8], off: usize) -> (r: GeoTiffDirKey)
        requires
            off + 8 <= data@.len(),
        ensures
            r == Self::at(data@, off as int),
    {
        let n = data.len();
        assert(off + 8 <= n);
        GeoTiffDirKey {
            id: read_u16(data, off),
            tiff_tag_location: read_u16(data, off + 2),
            count: read_u16(data, off + 4),
            value_offset: read_u16(data, off + 6),
        }
    }
}

} // verus!
