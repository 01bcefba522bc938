//! Decisions the database takes each frame: what to do once a data set has
//! been checked, which level serves the tiles of a region, and which levels
//! a stack of tiles spans.
use vstd::prelude::*;
use crate::geotiff::LoadState;
use crate::levels::{spec_bmng_level, spec_srtm_level, OverviewLevel, TileSubdivisionLevel};
use crate::names::MapKind;

verus! {

/// What follows a check of a data set's start-up.
#[derive(Clone, Copy, Debug, PartialEq, Eq, Structural)]
pub enum DownloadAction {
    /// Start-up is still running; there is nothing to take in.
    Wait,
    /// Start-up has just finished: the tile indices are handed to the cache.
    InstallIndices,
    /// Running normally: finished tile loads are taken in.
    RealizeLoads,
}

/// The action for a data set in the state that its check left it in.
pub fn download_action(state: LoadState) -> (r: DownloadAction)
    ensures
        r == match state {
            LoadState::Starting | LoadState::Preparing(_, _) => DownloadAction::Wait,
            LoadState::Finished => DownloadAction::InstallIndices,
            LoadState::Complete => DownloadAction::RealizeLoads,
        },
{
    match state {
        LoadState::Starting => DownloadAction::Wait,
        LoadState::Preparing(_, _) => DownloadAction::Wait,
        LoadState::Finished => DownloadAction::InstallIndices,
        LoadState::Complete => DownloadAction::RealizeLoads,
    }
}

/// The overview level that serves tiles of `kind` at `depth`.
pub open spec fn best_level(kind: MapKind, depth: nat) -> u8 {
    match kind {
        MapKind::Heights => spec_srtm_level(depth),
        MapKind::Colors => spec_bmng_level(depth),
    }
}

/// The level to load a region's tiles of `kind` from for tiles at `depth`:
/// none while the data set is not ready or when it has no such level.
pub fn region_level(ready: bool, depth: TileSubdivisionLevel, kind: MapKind, num_layers: usize)
    -> (r: Option<OverviewLevel>)
    ensures
        r is Some <==> (ready && best_level(kind, depth.spec_depth() as nat) < num_layers),
        r matches Some(l) ==> l.spec_level() == best_level(kind, depth.spec_depth() as nat),
{
    if !ready {
        return None;
    }
    let level = depth.best_overview_level(kind);
    if level.offset() < num_layers {
        Some(level)
    } else {
        None
    }
}

/// Why a stack of tiles cannot be loaded.
#[derive(Clone, Copy, Debug, PartialEq, Eq, Structural)]
pub enum StackError {
    /// The lowest level asked for is not one of the data set's levels.
    LevelOutOfRange,
}

/// The levels of a stack of tiles from `min_level` up to the coarsest level,
/// 12; refused when the data set has no level `min_level`.
pub fn tile_stack_levels(min_level: OverviewLevel, num_layers: usize) -> (r: Result<Vec<OverviewLevel>, StackError>)
    ensures
        r is Err <==> min_level.spec_level() >= num_layers,
        r matches Err(e) ==> e == StackError::LevelOutOfRange,
        r matches Ok(v) ==> {
            &&& v@.len() == if min_level.spec_level() <= 12 { 13 - min_level.spec_level() } else { 0 }
            &&& forall|i: int| 0 <= i < v@.len() ==> #[trigger] v@[i].spec_level() == min_level.spec_level() + i
        },
{
    if min_level.offset() >= num_layers {
        return Err(StackError::LevelOutOfRange);
    }
    let mut out: Vec<OverviewLevel> = Vec::new();
    let mut level: u8 = min_level.level();
    if level > 12 {
        return Ok(out);
    }
    while level <= 12
        invariant
            min_level.spec_level() <= level <= 13,
            out@.len() == level - min_level.spec_level(),
            forall|i: int| 0 <= i < out@.len() ==> #[trigger] out@[i].spec_level() == min_level.spec_level() + i,
        decreases 13 - level,
    {
        out.push(OverviewLevel::new(level as usize));
        level = level + 1;
    }
    Ok(out)
}

} // verus!
