//! Reading the image file directories (IFDs) of a cloud-optimised GeoTIFF:
//! the directory layout, the tags every overview must carry, the layout of
//! its tile index, the chain of overview directories and the GeoTIFF key
//! directory.
//!
//! Functions here return `None` exactly on the inputs on which reading the
//! directory would index outside the header bytes, meet an entry whose type
//! or tag is unknown, overflow a size computation, or (for the chain of
//! overviews) never reach its end.
use vstd::prelude::*;
use crate::le::{le16, le64, read_u16, read_u64};
use crate::names::MapKind;
use crate::tiff::{
    BigIFDTag, CogError, GeoTiffDirHeader, GeoTiffDirKey, GeoTiffKeyId, IFDTag, OffsetOrInlineData,
    TiffTagId, TiffType,
};

verus! {

/// Edge length in pixels of a tile.
pub const MAP_SIZE: u32 = 512;

/// What the header says about one overview level: its size, its tile grid and
/// where its tile index (offsets and byte counts) is stored.
#[derive(Clone, Copy, Debug, PartialEq, Eq)]
pub struct GeoTiffOverviewInfo {
    pub width: u32,
    pub height: u32,
    pub tile_stride: u32,
    pub tile_rows: u32,
    pub tile_count: u32,
    pub tile_offsets_offset: OffsetOrInlineData,
    pub tile_offsets_size: usize,
    pub tile_offsets_type: TiffType,
    pub tile_nbytes_offset: OffsetOrInlineData,
    pub tile_nbytes_size: usize,
    pub tile_nbytes_type: TiffType,
}

/// The entries every overview directory must carry.
#[derive(Clone, Copy, Debug, PartialEq, Eq)]
pub struct RequiredTags {
    pub width: IFDTag,
    pub height: IFDTag,
    pub bits_per_sample: IFDTag,
    pub compression: IFDTag,
    pub photometrics: IFDTag,
    pub samples_per_pixel: IFDTag,
    pub sample_format: IFDTag,
    pub planar: IFDTag,
    pub tile_width: IFDTag,
    pub tile_height: IFDTag,
    pub tile_offsets: IFDTag,
    pub tile_nbytes: IFDTag,
}

/// The required entries of `tags`, or the first one (in the order of the
/// fields of `RequiredTags`) that is missing.
pub open spec fn spec_required_tags(tags: Seq<IFDTag>) -> Result<RequiredTags, CogError> {
    let f = |id: TiffTagId| IFDTag::spec_find(id, tags);
    if f(TiffTagId::ImageWidth) is None {
        Err(CogError::MissingTag(TiffTagId::ImageWidth))
    } else if f(TiffTagId::ImageLength) is None {
        Err(CogError::MissingTag(TiffTagId::ImageLength))
    } else if f(TiffTagId::BitsPerSample) is None {
        Err(CogError::MissingTag(TiffTagId::BitsPerSample))
    } else if f(TiffTagId::Compression) is None {
        Err(CogError::MissingTag(TiffTagId::Compression))
    } else if f(TiffTagId::PhotometricInterpretation) is None {
        Err(CogError::MissingTag(TiffTagId::PhotometricInterpretation))
    } else if f(TiffTagId::SamplesPerPixel) is None {
        Err(CogError::MissingTag(TiffTagId::SamplesPerPixel))
    } else if f(TiffTagId::SampleFormat) is None {
        Err(CogError::MissingTag(TiffTagId::SampleFormat))
    } else if f(TiffTagId::PlanarConfiguration) is None {
        Err(CogError::MissingTag(TiffTagId::PlanarConfiguration))
    } else if f(TiffTagId::TileWidth) is None {
        Err(CogError::MissingTag(TiffTagId::TileWidth))
    } else if f(TiffTagId::TileLength) is None {
        Err(CogError::MissingTag(TiffTagId::TileLength))
    } else if f(TiffTagId::TileOffsets) is None {
        Err(CogError::MissingTag(TiffTagId::TileOffsets))
    } else if f(TiffTagId::TileByteCounts) is None {
        Err(CogError::MissingTag(TiffTagId::TileByteCounts))
    } else {
        Ok(RequiredTags {
            width: f(TiffTagId::ImageWidth)->0,
            height: f(TiffTagId::ImageLength)->0,
            bits_per_sample: f(TiffTagId::BitsPerSample)->0,
            compression: f(TiffTagId::Compression)->0,
            photometrics: f(TiffTagId::PhotometricInterpretation)->0,
            samples_per_pixel: f(TiffTagId::SamplesPerPixel)->0,
            sample_format: f(TiffTagId::SampleFormat)->0,
            planar: f(TiffTagId::PlanarConfiguration)->0,
            tile_width: f(TiffTagId::TileWidth)->0,
            tile_height: f(TiffTagId::TileLength)->0,
            tile_offsets: f(TiffTagId::TileOffsets)->0,
            tile_nbytes: f(TiffTagId::TileByteCounts)->0,
        })
    }
}

fn find_required(id: TiffTagId, tags: &[IFDTag]) -> (r: Result<IFDTag, CogError>)
    ensures
        match r {
            Ok(t) => IFDTag::spec_find(id, tags@) == Some(t),
            Err(e) => IFDTag::spec_find(id, tags@) is None && e == CogError::MissingTag(id),
        },
{
    match IFDTag::find(id, tags) {
        Some(t) => Ok(*t),
        None => Err(CogError::MissingTag(id)),
    }
}

/// Pulls out the entries every overview directory must carry.
pub fn required_tags(tags: &[IFDTag]) -> (r: Result<RequiredTags, CogError>)
    ensures
        r == spec_required_tags(tags@),
{
    let width = find_required(TiffTagId::ImageWidth, tags)?;
    let height = find_required(TiffTagId::ImageLength, tags)?;
    let bits_per_sample = find_required(TiffTagId::BitsPerSample, tags)?;
    let compression = find_required(TiffTagId::Compression, tags)?;
    let photometrics = find_required(TiffTagId::PhotometricInterpretation, tags)?;
    let samples_per_pixel = find_required(TiffTagId::SamplesPerPixel, tags)?;
    let sample_format = find_required(TiffTagId::SampleFormat, tags)?;
    let planar = find_required(TiffTagId::PlanarConfiguration, tags)?;
    let tile_width = find_required(TiffTagId::TileWidth, tags)?;
    let tile_height = find_required(TiffTagId::TileLength, tags)?;
    let tile_offsets = find_required(TiffTagId::TileOffsets, tags)?;
    let tile_nbytes = find_required(TiffTagId::TileByteCounts, tags)?;
    Ok(RequiredTags {
        width,
        height,
        bits_per_sample,
        compression,
        photometrics,
        samples_per_pixel,
        sample_format,
        planar,
        tile_width,
        tile_height,
        tile_offsets,
        tile_nbytes,
    })
}

/// The first format expectation, in reading order, that the directory
/// fails: LZMA compression, chunky planes, 512 pixel tiles, Long8 tile
/// offsets, then the sample layout of the map kind (16-bit signed single
/// samples with black-is-zero for heights; three unsigned 8-bit samples in
/// RGB for colors).
pub open spec fn spec_check_format(req: RequiredTags, kind: MapKind) -> Result<(), CogError> {
    if req.compression.inline_data != 34925 {
        Err(CogError::ExpectedLzma)
    } else if req.planar.inline_data != 1 {
        Err(CogError::ExpectedChunkedPlanes)
    } else if req.tile_width.inline_data != 512 {
        Err(CogError::ExpectedTileWidth)
    } else if req.tile_height.inline_data != 512 {
        Err(CogError::ExpectedTileHeight)
    } else if req.tile_offsets.field_type != TiffType::Long8 {
        Err(CogError::ExpectedLong8Offsets)
    } else {
        let (bps, spp, fmt, photo) = match kind {
            MapKind::Heights => (16u64, 1u64, 2u64, 1u64),
            MapKind::Colors => (8u64, 3u64, 1u64, 2u64),
        };
        if req.bits_per_sample.inline_data != bps {
            Err(CogError::ExpectedBitsPerSample)
        } else if req.samples_per_pixel.inline_data != spp {
            Err(CogError::ExpectedSamplesPerPixel)
        } else if req.sample_format.inline_data != fmt {
            Err(CogError::ExpectedSampleFormat)
        } else if req.photometrics.inline_data != photo {
            Err(CogError::ExpectedPhotometric)
        } else {
            Ok(())
        }
    }
}

/// Checks the directory against the layout this database reads.
pub fn check_format(req: &RequiredTags, kind: MapKind) -> (r: Result<(), CogError>)
    ensures
        r == spec_check_format(*req, kind),
{
    if req.compression.inline_data != 34925 {
        return Err(CogError::ExpectedLzma);
    }
    if req.planar.inline_data != 1 {
        return Err(CogError::ExpectedChunkedPlanes);
    }
    if req.tile_width.inline_data != MAP_SIZE as u64 {
        return Err(CogError::ExpectedTileWidth);
    }
    if req.tile_height.inline_data != MAP_SIZE as u64 {
        return Err(CogError::ExpectedTileHeight);
    }
    if req.tile_offsets.field_type != TiffType::Long8 {
        return Err(CogError::ExpectedLong8Offsets);
    }
    let (bps, spp, fmt, photo) = match kind {
        MapKind::Heights => (16u64, 1u64, 2u64, 1u64),
        MapKind::Colors => (8u64, 3u64, 1u64, 2u64),
    };
    if req.bits_per_sample.inline_data != bps {
        return Err(CogError::ExpectedBitsPerSample);
    }
    if req.samples_per_pixel.inline_data != spp {
        return Err(CogError::ExpectedSamplesPerPixel);
    }
    if req.sample_format.inline_data != fmt {
        return Err(CogError::ExpectedSampleFormat);
    }
    if req.photometrics.inline_data != photo {
        return Err(CogError::ExpectedPhotometric);
    }
    Ok(())
}

/// Number of tiles needed to cover `n` pixels.
pub open spec fn tiles_for(n: u32) -> u32 {
    ((n + 511) / 512) as u32
}

/// The overview described by the required entries: where its tile index
/// lives, how many tiles it has, and its size in pixels and in tiles. The
/// tile index must have as many offsets as byte counts, and as many as the
/// tile grid has cells.
pub open spec fn spec_layer_info(req: RequiredTags) -> Option<Result<GeoTiffOverviewInfo, CogError>> {
    let o = req.tile_offsets;
    let nb = req.tile_nbytes;
    if !o.data_size_fits() {
        None
    } else if o.spec_data_pointer() is Err {
        Some(Err(o.spec_data_pointer()->Err_0))
    } else if !nb.data_size_fits() {
        None
    } else if nb.spec_data_pointer() is Err {
        Some(Err(nb.spec_data_pointer()->Err_0))
    } else {
        let osize = o.spec_data_size()->Ok_0;
        let nsize = nb.spec_data_size()->Ok_0;
        let count0 = (osize as nat) / o.field_type.spec_size_of();
        let count1 = (nsize as nat) / nb.field_type.spec_size_of();
        if count0 != count1 {
            Some(Err(CogError::TileCountMismatch))
        } else if req.width.inline_data > u32::MAX {
            Some(Err(CogError::IntConversion))
        } else if req.height.inline_data > u32::MAX {
            Some(Err(CogError::IntConversion))
        } else {
            let width = req.width.inline_data as u32;
            let height = req.height.inline_data as u32;
            let stride = tiles_for(width);
            let rows = tiles_for(height);
            if rows * stride > usize::MAX {
                None
            } else if count0 != rows * stride {
                Some(Err(CogError::TileCountSizeMismatch))
            } else {
                Some(Ok(GeoTiffOverviewInfo {
                    width,
                    height,
                    tile_stride: stride,
                    tile_rows: rows,
                    tile_count: count0 as u32,
                    tile_offsets_offset: o.spec_data_pointer()->Ok_0,
                    tile_offsets_size: osize,
                    tile_offsets_type: o.field_type,
                    tile_nbytes_offset: nb.spec_data_pointer()->Ok_0,
                    tile_nbytes_size: nsize,
                    tile_nbytes_type: nb.field_type,
                }))
            }
        }
    }
}

proof fn lemma_fits_by_division(c: int, s: int, m: int)
    requires
        s > 0,
        c >= 0,
        m >= 0,
    ensures
        (c <= m / s) <==> (c * s <= m),
{
    assert((c <= m / s) ==> (c * s <= m)) by (nonlinear_arith)
        requires s > 0, c >= 0, m >= 0;
    assert((c * s <= m) ==> (c <= m / s)) by (nonlinear_arith)
        requires s > 0, c >= 0, m >= 0;
}

fn tiles_covering(n: u32) -> (r: u32)
    ensures
        r == tiles_for(n),
        r <= 0x80_0000,
{
    ((n as u64 + 511) / 512) as u32
}

/// Works out the overview described by the required entries.
pub fn layer_info(req: &RequiredTags) -> (r: Option<Result<GeoTiffOverviewInfo, CogError>>)
    ensures
        r == spec_layer_info(*req),
{
    let o = req.tile_offsets;
    let nb = req.tile_nbytes;
    proof {
        lemma_fits_by_division(o.count as int, o.field_type.spec_size_of() as int, usize::MAX as int);
        lemma_fits_by_division(nb.count as int, nb.field_type.spec_size_of() as int, usize::MAX as int);
    }
    if o.count <= usize::MAX as u64 && o.count > (usize::MAX / o.field_type.size_of()) as u64 {
        return None;
    }
    let tile_offsets_offset = match o.data_pointer() {
        Ok(p) => p,
        Err(e) => return Some(Err(e)),
    };
    let tile_offsets_size = match o.data_size() {
        Ok(s) => s,
        Err(e) => return Some(Err(e)),
    };
    if nb.count <= usize::MAX as u64 && nb.count > (usize::MAX / nb.field_type.size_of()) as u64 {
        return None;
    }
    let tile_nbytes_offset = match nb.data_pointer() {
        Ok(p) => p,
        Err(e) => return Some(Err(e)),
    };
    let tile_nbytes_size = match nb.data_size() {
        Ok(s) => s,
        Err(e) => return Some(Err(e)),
    };
    let tile_count0 = tile_offsets_size / o.field_type.size_of();
    let tile_count1 = tile_nbytes_size / nb.field_type.size_of();
    if tile_count0 != tile_count1 {
        return Some(Err(CogError::TileCountMismatch));
    }
    if req.width.inline_data > u32::MAX as u64 {
        return Some(Err(CogError::IntConversion));
    }
    let width = req.width.inline_data as u32;
    if req.height.inline_data > u32::MAX as u64 {
        return Some(Err(CogError::IntConversion));
    }
    let height = req.height.inline_data as u32;
    let tile_stride = tiles_covering(width);
    let tile_rows = tiles_covering(height);
    assert(tile_rows as u64 * tile_stride as u64 <= 0x80_0000 * 0x80_0000) by (nonlinear_arith)
        requires
            tile_rows <= 0x80_0000,
            tile_stride <= 0x80_0000,
    ;
    let cells = tile_rows as u64 * tile_stride as u64;
    if cells > usize::MAX as u64 {
        return None;
    }
    let tile_count2 = tile_rows as usize * tile_stride as usize;
    if tile_count0 != tile_count2 {
        return Some(Err(CogError::TileCountSizeMismatch));
    }
    Some(Ok(GeoTiffOverviewInfo {
        width,
        height,
        tile_stride,
        tile_rows,
        tile_count: #[verifier::truncate] (tile_count0 as u32),
        tile_offsets_offset,
        tile_offsets_size,
        tile_offsets_type: o.field_type,
        tile_nbytes_offset,
        tile_nbytes_size,
        tile_nbytes_type: nb.field_type,
    }))
}

/// The raw entry `i` of the directory at `off`.
pub open spec fn raw_tag_at(b: Seq<u8>, off: int, i: int) -> BigIFDTag {
    BigIFDTag::at(b, off + 8 + 20 * i)
}

/// The decoded entries of the directory at `off`, if every one of its `n`
/// entries has a known type and tag.
pub open spec fn spec_ifd_tags(b: Seq<u8>, off: int, n: nat) -> Option<Seq<IFDTag>> {
    if forall|i: int| 0 <= i < n ==> #[trigger] IFDTag::spec_from_big(raw_tag_at(b, off, i)) is Ok {
        Some(Seq::new(n, |i: int| IFDTag::spec_from_big(raw_tag_at(b, off, i))->Ok_0))
    } else {
        None
    }
}

/// What reading the directory at `off` gives: its entry count, its entries,
/// the offset of the next directory stored after them, and the overview the
/// entries describe.
pub open spec fn spec_parse_ifd_common(b: Seq<u8>, off: int, kind: MapKind)
    -> Option<Result<(u64, Seq<IFDTag>, GeoTiffOverviewInfo), CogError>> {
    if off + 8 > b.len() {
        None
    } else {
        let n = le64(b, off);
        if n > usize::MAX {
            Some(Err(CogError::IntConversion))
        } else if off + 16 + 20 * n > b.len() {
            None
        } else {
            match spec_ifd_tags(b, off, n as nat) {
                None => None,
                Some(tags) => {
                    let next = le64(b, off + 8 + 20 * n) as u64;
                    match spec_required_tags(tags) {
                        Err(e) => Some(Err(e)),
                        Ok(req) => match spec_check_format(req, kind) {
                            Err(e) => Some(Err(e)),
                            Ok(_) => match spec_layer_info(req) {
                                None => None,
                                Some(Err(e)) => Some(Err(e)),
                                Some(Ok(l)) => Some(Ok((next, tags, l))),
                            },
                        },
                    }
                },
            }
        }
    }
}

/// The result of reading a directory with its entries seen as a sequence.
pub open spec fn view_ifd(r: Option<Result<(u64, Vec<IFDTag>, GeoTiffOverviewInfo), CogError>>)
    -> Option<Result<(u64, Seq<IFDTag>, GeoTiffOverviewInfo), CogError>> {
    match r {
        None => None,
        Some(Err(e)) => Some(Err(e)),
        Some(Ok((next, tags, l))) => Some(Ok((next, tags@, l))),
    }
}

fn decode_tags(data: &[u8], off: usize, n: usize) -> (r: Option<Vec<IFDTag>>)
    requires
        off + 8 + 20 * n <= data@.len(),
    ensures
        match r {
            Some(v) => spec_ifd_tags(data@, off as int, n as nat) == Some(v@),
            None => spec_ifd_tags(data@, off as int, n as nat) is None,
        },
{
    let len = data.len();
    let mut tags: Vec<IFDTag> = Vec::new();
    let mut i: usize = 0;
    let mut pos: usize = off + 8;
    while i < n
        invariant
            i <= n,
            len == data@.len(),
            off + 8 + 20 * n <= len,
            pos == off + 8 + 20 * i,
            tags@.len() == i,
            forall|j: int| 0 <= j < i ==> #[trigger] IFDTag::spec_from_big(raw_tag_at(data@, off as int, j)) == Ok::<IFDTag, CogError>(tags@[j]),
        decreases n - i,
    {
        let raw = BigIFDTag::overlay(data, pos);
        match IFDTag::from_big(&raw) {
            Ok(t) => tags.push(t),
            Err(_) => {
                assert(!(IFDTag::spec_from_big(raw_tag_at(data@, off as int, i as int)) is Ok));
                return None;
            },
        }
        i = i + 1;
        pos = pos + 20;
    }
    assert(tags@ =~= Seq::new(n as nat, |i: int| IFDTag::spec_from_big(raw_tag_at(data@, off as int, i))->Ok_0));
    Some(tags)
}

/// Reads the directory at `offset`: its entries, the offset of the next
/// directory, and the overview its entries describe, checked against the
/// layout this database reads.
pub fn parse_ifd_common(offset: usize, data: &[u8], kind: MapKind)
    -> (r: Option<Result<(u64, Vec<IFDTag>, GeoTiffOverviewInfo), CogError>>)
    ensures
        view_ifd(r) == spec_parse_ifd_common(data@, offset as int, kind),
{
    let len = data.len();
    if offset > len || len - offset < 8 {
        return None;
    }
    let tag_count = read_u64(data, offset);
    if tag_count > usize::MAX as u64 {
        return Some(Err(CogError::IntConversion));
    }
    let ntags = tag_count as usize;
    let room = (len - offset - 8) as u64;
    if (ntags as u64) > room / 20 || room - 20 * (ntags as u64) < 8 {
        return None;
    }
    let tags = match decode_tags(data, offset, ntags) {
        Some(t) => t,
        None => return None,
    };
    let next_ifd = read_u64(data, offset + 8 + 20 * ntags);
    let req = match required_tags(tags.as_slice()) {
        Ok(r) => r,
        Err(e) => return Some(Err(e)),
    };
    match check_format(&req, kind) {
        Ok(()) => {},
        Err(e) => return Some(Err(e)),
    }
    match layer_info(&req) {
        None => None,
        Some(Err(e)) => Some(Err(e)),
        Some(Ok(layer)) => Some(Ok((next_ifd, tags, layer))),
    }
}

/// What reading an overview directory at `off` gives: the offset of the
/// next directory and the overview, which must be marked as a reduced
/// resolution subfile.
pub open spec fn spec_parse_overview_ifd(b: Seq<u8>, off: int, kind: MapKind)
    -> Option<Result<(u64, GeoTiffOverviewInfo), CogError>> {
    match spec_parse_ifd_common(b, off, kind) {
        None => None,
        Some(Err(e)) => Some(Err(e)),
        Some(Ok((next, tags, layer))) => match IFDTag::spec_find(TiffTagId::NewSubfileType, tags) {
            None => Some(Err(CogError::MissingTag(TiffTagId::NewSubfileType))),
            Some(t) => if t.inline_data != 1 {
                Some(Err(CogError::SubfileType))
            } else {
                Some(Ok((next, layer)))
            },
        },
    }
}

/// Reads an overview directory.
pub fn parse_overview_ifd(offset: usize, data: &[u8], kind: MapKind)
    -> (r: Option<Result<(u64, GeoTiffOverviewInfo), CogError>>)
    ensures
        r == spec_parse_overview_ifd(data@, offset as int, kind),
{
    let (next_ifd, tags, layer) = match parse_ifd_common(offset, data, kind) {
        None => return None,
        Some(Err(e)) => return Some(Err(e)),
        Some(Ok(v)) => v,
    };
    match IFDTag::find(TiffTagId::NewSubfileType, tags.as_slice()) {
        None => Some(Err(CogError::MissingTag(TiffTagId::NewSubfileType))),
        Some(t) => if t.inline_data != 1 {
            Some(Err(CogError::SubfileType))
        } else {
            Some(Ok((next_ifd, layer)))
        },
    }
}

/// What walking the chain of overview directories that starts at `next`
/// gives, following at most `fuel` links: the overviews in file order.
pub open spec fn spec_overview_chain(b: Seq<u8>, kind: MapKind, next: u64, fuel: nat)
    -> Option<Result<Seq<GeoTiffOverviewInfo>, CogError>>
    decreases fuel,
{
    if next == 0 {
        Some(Ok(Seq::empty()))
    } else if fuel == 0 {
        None
    } else if next > usize::MAX {
        Some(Err(CogError::IntConversion))
    } else {
        match spec_parse_overview_ifd(b, next as int, kind) {
            None => None,
            Some(Err(e)) => Some(Err(e)),
            Some(Ok((n2, layer))) => prepend_layers(
                seq![layer],
                spec_overview_chain(b, kind, n2, (fuel - 1) as nat),
            ),
        }
    }
}

/// `r` with `p` put in front of the overviews it holds, if it holds any.
pub open spec fn prepend_layers(
    p: Seq<GeoTiffOverviewInfo>,
    r: Option<Result<Seq<GeoTiffOverviewInfo>, CogError>>,
) -> Option<Result<Seq<GeoTiffOverviewInfo>, CogError>> {
    match r {
        Some(Ok(s)) => Some(Ok(p + s)),
        other => other,
    }
}

/// The result of walking the overview chain with the overviews seen as a
/// sequence.
pub open spec fn view_layers(r: Option<Result<Vec<GeoTiffOverviewInfo>, CogError>>)
    -> Option<Result<Seq<GeoTiffOverviewInfo>, CogError>> {
    match r {
        None => None,
        Some(Err(e)) => Some(Err(e)),
        Some(Ok(v)) => Some(Ok(v@)),
    }
}

/// Walking the overview chain with more links allowed than it needs gives
/// the same result.
pub proof fn overview_chain_fuel_monotone(b: Seq<u8>, kind: MapKind, next: u64, fuel: nat, more: nat)
    requires
        spec_overview_chain(b, kind, next, fuel) is Some,
        fuel <= more,
    ensures
        spec_overview_chain(b, kind, next, more) == spec_overview_chain(b, kind, next, fuel),
    decreases fuel,
{
    if next != 0 && fuel > 0 && next <= usize::MAX {
        match spec_parse_overview_ifd(b, next as int, kind) {
            Some(Ok((n2, _))) => {
                overview_chain_fuel_monotone(b, kind, n2, (fuel - 1) as nat, (more - 1) as nat);
            },
            _ => {},
        }
    }
}

proof fn lemma_chain_step(
    b: Seq<u8>,
    kind: MapKind,
    cur: u64,
    fuel: nat,
    n2: u64,
    layer: GeoTiffOverviewInfo,
)
    requires
        cur != 0,
        cur <= usize::MAX,
        spec_parse_overview_ifd(b, cur as int, kind) == Some(Ok::<(u64, GeoTiffOverviewInfo), CogError>((n2, layer))),
    ensures
        spec_overview_chain(b, kind, cur, fuel + 1)
            == prepend_layers(seq![layer], spec_overview_chain(b, kind, n2, fuel)),
{
}

proof fn lemma_prepend_twice(
    a: Seq<GeoTiffOverviewInfo>,
    layer: GeoTiffOverviewInfo,
    r: Option<Result<Seq<GeoTiffOverviewInfo>, CogError>>,
)
    ensures
        prepend_layers(a, prepend_layers(seq![layer], r)) == prepend_layers(a.push(layer), r),
{
    match r {
        Some(Ok(s)) => {
            assert(a + (seq![layer] + s) =~= a.push(layer) + s);
        },
        _ => {},
    }
}

/// Walks the chain of overview directories that starts at `next`, until a
/// directory links to offset 0. A chain that is still going after
/// `data.len() + 1` links revisits a directory and would never end; that,
/// and any directory that cannot be read, gives `None`.
pub fn parse_overview_chain(next: u64, data: &[u8], kind: MapKind)
    -> (r: Option<Result<Vec<GeoTiffOverviewInfo>, CogError>>)
    ensures
        view_layers(r) == spec_overview_chain(data@, kind, next, (data@.len() + 1) as nat),
{
    let ghost total: nat = (data@.len() + 1) as nat;
    let mut fuel: usize = data.len();
    let mut cur = next;
    let mut layers: Vec<GeoTiffOverviewInfo> = Vec::new();
    proof {
        match spec_overview_chain(data@, kind, next, total) {
            Some(Ok(s)) => { assert(Seq::<GeoTiffOverviewInfo>::empty() + s =~= s); },
            _ => {},
        }
    }
    loop
        invariant
            fuel < total,
            total == data@.len() + 1,
            spec_overview_chain(data@, kind, next, total)
                == prepend_layers(layers@, spec_overview_chain(data@, kind, cur, (fuel + 1) as nat)),
        decreases fuel,
    {
        if cur == 0 {
            proof {
                assert(spec_overview_chain(data@, kind, cur, (fuel + 1) as nat) == Some(Ok::<Seq<GeoTiffOverviewInfo>, CogError>(Seq::empty())));
                assert(layers@ + Seq::<GeoTiffOverviewInfo>::empty() =~= layers@);
            }
            return Some(Ok(layers));
        }
        if cur > usize::MAX as u64 {
            return Some(Err(CogError::IntConversion));
        }
        let step = parse_overview_ifd(cur as usize, data, kind);
        match step {
            None => {
                return None;
            },
            Some(Err(e)) => {
                return Some(Err(e));
            },
            Some(Ok((n2, layer))) => {
                proof {
                    lemma_chain_step(data@, kind, cur, fuel as nat, n2, layer);
                    lemma_prepend_twice(layers@, layer, spec_overview_chain(data@, kind, n2, fuel as nat));
                }
                layers.push(layer);
                if fuel == 0 {
                    if n2 != 0 {
                        return None;
                    }
                    proof {
                        assert(layers@ + Seq::<GeoTiffOverviewInfo>::empty() =~= layers@);
                    }
                    return Some(Ok(layers));
                }
                cur = n2;
                fuel = fuel - 1;
            },
        }
    }
}

/// What the main directory adds to an overview directory: the entries that
/// locate the pixel scale, the tie point and the GeoTIFF key directory.
#[derive(Clone, Copy, Debug, PartialEq, Eq)]
pub struct MainIfd {
    pub next_ifd: u64,
    pub layer: GeoTiffOverviewInfo,
    pub scale_tag: IFDTag,
    pub tie_point_tag: IFDTag,
    pub geo_dir_tag: IFDTag,
}

/// What reading the main directory at `off` gives.
pub open spec fn spec_parse_main_ifd(b: Seq<u8>, off: int, kind: MapKind) -> Option<Result<MainIfd, CogError>> {
    match spec_parse_ifd_common(b, off, kind) {
        None => None,
        Some(Err(e)) => Some(Err(e)),
        Some(Ok((next, tags, layer))) => {
            let f = |id: TiffTagId| IFDTag::spec_find(id, tags);
            if f(TiffTagId::ModelPixelScale) is None {
                Some(Err(CogError::MissingTag(TiffTagId::ModelPixelScale)))
            } else if f(TiffTagId::ModelTiePoint) is None {
                Some(Err(CogError::MissingTag(TiffTagId::ModelTiePoint)))
            } else if f(TiffTagId::GeoKeyDirectoryTag) is None {
                Some(Err(CogError::MissingTag(TiffTagId::GeoKeyDirectoryTag)))
            } else {
                Some(Ok(MainIfd {
                    next_ifd: next,
                    layer,
                    scale_tag: f(TiffTagId::ModelPixelScale)->0,
                    tie_point_tag: f(TiffTagId::ModelTiePoint)->0,
                    geo_dir_tag: f(TiffTagId::GeoKeyDirectoryTag)->0,
                }))
            }
        },
    }
}

/// Reads the main (full resolution) directory at `offset`, which must also
/// carry the georeferencing entries.
pub fn parse_main_ifd(offset: u64, data: &[u8], kind: MapKind) -> (r: Option<Result<MainIfd, CogError>>)
    ensures
        offset > usize::MAX ==> r == Some(Err::<MainIfd, CogError>(CogError::IntConversion)),
        offset <= usize::MAX ==> r == spec_parse_main_ifd(data@, offset as int, kind),
{
    if offset > usize::MAX as u64 {
        return Some(Err(CogError::IntConversion));
    }
    let (next_ifd, tags, layer) = match parse_ifd_common(offset as usize, data, kind) {
        None => return None,
        Some(Err(e)) => return Some(Err(e)),
        Some(Ok(v)) => v,
    };
    let scale_tag = match find_required(TiffTagId::ModelPixelScale, tags.as_slice()) {
        Ok(t) => t,
        Err(e) => return Some(Err(e)),
    };
    let tie_point_tag = match find_required(TiffTagId::ModelTiePoint, tags.as_slice()) {
        Ok(t) => t,
        Err(e) => return Some(Err(e)),
    };
    let geo_dir_tag = match find_required(TiffTagId::GeoKeyDirectoryTag, tags.as_slice()) {
        Ok(t) => t,
        Err(e) => return Some(Err(e)),
    };
    Some(Ok(MainIfd { next_ifd, layer, scale_tag, tie_point_tag, geo_dir_tag }))
}

/// Where a block of `size` bytes stored at offset `at` starts, if the
/// offset is a `usize` and the block lies within `b`.
pub open spec fn spec_locate_block(b: Seq<u8>, at: u64, size: nat) -> Option<Result<usize, CogError>> {
    if at > usize::MAX {
        Some(Err(CogError::IntConversion))
    } else if at + size > b.len() {
        None
    } else {
        Some(Ok(at as usize))
    }
}

/// Checks that the block of `size` bytes at offset `at` lies within `data`
/// and returns its start.
pub fn locate_block(at: u64, size: usize, data: &[u8]) -> (r: Option<Result<usize, CogError>>)
    ensures
        r == spec_locate_block(data@, at, size as nat),
{
    if at > usize::MAX as u64 {
        return Some(Err(CogError::IntConversion));
    }
    let off = at as usize;
    let len = data.len();
    if off > len || len - off < size {
        return None;
    }
    Some(Ok(off))
}

/// The first expectation a GeoTIFF key fails: its value must be stored in
/// the key itself, be a single value, and say lat/lon model space,
/// pixel-is-area rasters and WGS 84 coordinates.
pub open spec fn spec_check_key(k: GeoTiffDirKey) -> Result<(), CogError> {
    if k.tiff_tag_location != 0 {
        Err(CogError::GeoKeyNotInline)
    } else if k.count != 1 {
        Err(CogError::GeoKeyCount)
    } else {
        match GeoTiffKeyId::from_code(k.id) {
            None => Err(CogError::UnknownGeoKey(k.id)),
            Some(GeoTiffKeyId::GtModel) => if k.value_offset != 2 { Err(CogError::GeoKeyModel) } else { Ok(()) },
            Some(GeoTiffKeyId::GtRaster) => if k.value_offset != 1 { Err(CogError::GeoKeyRaster) } else { Ok(()) },
            Some(GeoTiffKeyId::Geographic) => if k.value_offset != 4326 { Err(CogError::GeoKeyGeographic) } else { Ok(()) },
        }
    }
}

fn check_key(k: &GeoTiffDirKey) -> (r: Result<(), CogError>)
    ensures
        r == spec_check_key(*k),
{
    if k.tiff_tag_location != 0 {
        return Err(CogError::GeoKeyNotInline);
    }
    if k.count != 1 {
        return Err(CogError::GeoKeyCount);
    }
    match GeoTiffKeyId::try_from(k.id)? {
        GeoTiffKeyId::GtModel => if k.value_offset != 2 { Err(CogError::GeoKeyModel) } else { Ok(()) },
        GeoTiffKeyId::GtRaster => if k.value_offset != 1 { Err(CogError::GeoKeyRaster) } else { Ok(()) },
        GeoTiffKeyId::Geographic => if k.value_offset != 4326 { Err(CogError::GeoKeyGeographic) } else { Ok(()) },
    }
}

/// The first of keys `i..n` stored from `off` that fails its check.
pub open spec fn spec_check_keys(b: Seq<u8>, off: int, i: int, n: int) -> Result<(), CogError>
    decreases n - i,
{
    if i >= n {
        Ok(())
    } else {
        match spec_check_key(GeoTiffDirKey::at(b, off + 8 * i)) {
            Err(e) => Err(e),
            Ok(_) => spec_check_keys(b, off, i + 1, n),
        }
    }
}

/// What checking the GeoTIFF key directory located by `tag` gives: its
/// header must be version 1.1.1, its size must match its key count, and
/// every key must pass its check, in order.
pub open spec fn spec_check_geo_key_directory(b: Seq<u8>, tag: IFDTag) -> Option<Result<(), CogError>> {
    let off = tag.inline_data;
    if off > usize::MAX {
        Some(Err(CogError::IntConversion))
    } else if off + 8 > b.len() {
        None
    } else {
        let h = GeoTiffDirHeader::at(b, off as int);
        if h.version != 1 {
            Some(Err(CogError::GeoDirVersion))
        } else if h.key_revision != 1 {
            Some(Err(CogError::GeoDirKeyRevision))
        } else if h.minor_revision != 1 {
            Some(Err(CogError::GeoDirMinorRevision))
        } else if tag.count > usize::MAX {
            Some(Err(CogError::IntConversion))
        } else if tag.count * 2 > usize::MAX {
            None
        } else if 8 + 8 * h.number_of_keys != tag.count * 2 {
            Some(Err(CogError::GeoDirSizeMismatch))
        } else if off + 8 + 8 * h.number_of_keys > b.len() {
            None
        } else {
            Some(spec_check_keys(b, off + 8, 0, h.number_of_keys as int))
        }
    }
}

/// Checks the GeoTIFF key directory that `tag` locates.
pub fn check_geo_key_directory(tag: &IFDTag, data: &[u8]) -> (r: Option<Result<(), CogError>>)
    ensures
        r == spec_check_geo_key_directory(data@, *tag),
{
    if tag.inline_data > usize::MAX as u64 {
        return Some(Err(CogError::IntConversion));
    }
    let off = tag.inline_data as usize;
    let len = data.len();
    if off > len || len - off < 8 {
        return None;
    }
    let h = GeoTiffDirHeader::overlay(data, off);
    if h.version != 1 {
        return Some(Err(CogError::GeoDirVersion));
    }
    if h.key_revision != 1 {
        return Some(Err(CogError::GeoDirKeyRevision));
    }
    if h.minor_revision != 1 {
        return Some(Err(CogError::GeoDirMinorRevision));
    }
    let key_count = h.number_of_keys as usize;
    if tag.count > usize::MAX as u64 {
        return Some(Err(CogError::IntConversion));
    }
    if tag.count > (usize::MAX / 2) as u64 {
        return None;
    }
    if 8 + 8 * (key_count as u64) != tag.count * 2 {
        return Some(Err(CogError::GeoDirSizeMismatch));
    }
    if len - off - 8 < 8 * key_count {
        return None;
    }
    let key_offset = off + 8;
    assert(spec_check_geo_key_directory(data@, *tag) == Some(spec_check_keys(data@, key_offset as int, 0, key_count as int)));
    let mut i: usize = 0;
    let mut pos: usize = key_offset;
    while i < key_count
        invariant
            i <= key_count,
            len == data@.len(),
            key_offset + 8 * key_count <= len,
            pos == key_offset + 8 * i,
            spec_check_keys(data@, key_offset as int, 0, key_count as int)
                == spec_check_keys(data@, key_offset as int, i as int, key_count as int),
            spec_check_geo_key_directory(data@, *tag) == Some(spec_check_keys(data@, key_offset as int, 0, key_count as int)),
        decreases key_count - i,
    {
        let k = GeoTiffDirKey::overlay(data, pos);
        assert(k == GeoTiffDirKey::at(data@, key_offset + 8 * i));
        match check_key(&k) {
            Err(e) => {
                assert(spec_check_keys(data@, key_offset as int, i as int, key_count as int) == Err::<(), CogError>(e));
                assert(spec_check_keys(data@, key_offset as int, 0, key_count as int) == Err::<(), CogError>(e));
                return Some(Err(e));
            },
            Ok(()) => {},
        }
        i = i + 1;
        pos = pos + 8;
    }
    Some(Ok(()))
}

} // verus!
