//! Reading the whole header of a cloud-optimised GeoTIFF: the file header,
//! the main directory with the blocks it points to, the GeoTIFF key
//! directory and the chain of overview directories.
use vstd::prelude::*;
use crate::cog::{
    check_geo_key_directory, locate_block, parse_main_ifd, parse_overview_chain, prepend_layers,
    spec_check_geo_key_directory, spec_locate_block, spec_overview_chain, spec_parse_main_ifd,
    view_layers, GeoTiffOverviewInfo, MainIfd,
};
use crate::names::MapKind;
use crate::tiff::{BigTiffFileHeader, CogError, BIG_TIFF_HEADER_SIZE};

verus! {

/// Byte size of the model pixel scale block: three doubles.
pub const PIXEL_SCALE_SIZE: usize = 24;

/// Byte size of the model tie point block: six doubles.
pub const TIE_POINT_SIZE: usize = 48;

/// The first part of a header: the main directory, and where its pixel
/// scale block starts. (The tie point block is located with `locate_block`
/// only once the pixel scale has been checked.)
#[derive(Clone, Copy, Debug, PartialEq, Eq)]
pub struct CogMain {
    pub main: MainIfd,
    pub scale_at: usize,
}

/// What reading the file header and the main directory of the header bytes
/// `b` gives.
pub open spec fn spec_parse_cog_main(b: Seq<u8>, kind: MapKind) -> Option<Result<CogMain, CogError>> {
    if b.len() < 16 {
        None
    } else {
        let h = BigTiffFileHeader::at(b, 0);
        match h.spec_validate() {
            Err(e) => Some(Err(e)),
            Ok(_) => if h.offset_to_first_ifd > usize::MAX {
                Some(Err(CogError::IntConversion))
            } else {
                match spec_parse_main_ifd(b, h.offset_to_first_ifd as int, kind) {
                    None => None,
                    Some(Err(e)) => Some(Err(e)),
                    Some(Ok(m)) => match spec_locate_block(b, m.scale_tag.inline_data, 24) {
                        None => None,
                        Some(Err(e)) => Some(Err(e)),
                        Some(Ok(s)) => Some(Ok(CogMain { main: m, scale_at: s })),
                    },
                }
            },
        }
    }
}

/// Reads the file header at the start of the header bytes `data`, checks
/// it, reads the main directory it points to and locates its pixel scale.
pub fn parse_cog_main(data: &[u8], kind: MapKind) -> (r: Option<Result<CogMain, CogError>>)
    ensures
        r == spec_parse_cog_main(data@, kind),
{
    if data.len() < BIG_TIFF_HEADER_SIZE {
        return None;
    }
    let header = BigTiffFileHeader::overlay(data);
    match header.validate_support() {
        Ok(()) => {},
        Err(e) => return Some(Err(e)),
    }
    let main = match parse_main_ifd(header.offset_to_first_ifd, data, kind) {
        None => return None,
        Some(Err(e)) => return Some(Err(e)),
        Some(Ok(m)) => m,
    };
    let scale_at = match locate_block(main.scale_tag.inline_data, PIXEL_SCALE_SIZE, data) {
        None => return None,
        Some(Err(e)) => return Some(Err(e)),
        Some(Ok(s)) => s,
    };
    Some(Ok(CogMain { main, scale_at }))
}

/// What the rest of the header gives once the main directory has been read:
/// the key directory is checked, then the overview chain is walked; the
/// overviews come after the main level, in file order.
pub open spec fn spec_parse_cog_rest(b: Seq<u8>, kind: MapKind, m: MainIfd)
    -> Option<Result<Seq<GeoTiffOverviewInfo>, CogError>> {
    match spec_check_geo_key_directory(b, m.geo_dir_tag) {
        None => None,
        Some(Err(e)) => Some(Err(e)),
        Some(Ok(_)) => prepend_layers(
            seq![m.layer],
            spec_overview_chain(b, kind, m.next_ifd, (b.len() + 1) as nat),
        ),
    }
}

/// Checks the key directory of the main directory `m`, then reads the
/// chain of overviews; returns every level, the main level first.
pub fn parse_cog_rest(data: &[u8], kind: MapKind, m: &MainIfd)
    -> (r: Option<Result<Vec<GeoTiffOverviewInfo>, CogError>>)
    ensures
        view_layers(r) == spec_parse_cog_rest(data@, kind, *m),
{
    match check_geo_key_directory(&m.geo_dir_tag, data) {
        None => return None,
        Some(Err(e)) => return Some(Err(e)),
        Some(Ok(())) => {},
    }
    let rest = match parse_overview_chain(m.next_ifd, data, kind) {
        None => return None,
        Some(Err(e)) => return Some(Err(e)),
        Some(Ok(v)) => v,
    };
    let mut layers: Vec<GeoTiffOverviewInfo> = Vec::new();
    layers.push(m.layer);
    let mut i: usize = 0;
    while i < rest.len()
        invariant
            i <= rest@.len(),
            layers@ =~= seq![m.layer] + rest@.take(i as int),
        decreases rest@.len() - i,
    {
        layers.push(rest[i]);
        i = i + 1;
        assert(layers@ =~= seq![m.layer] + rest@.take(i as int));
    }
    assert(rest@.take(rest@.len() as int) =~= rest@);
    Some(Ok(layers))
}

} // verus!
