//! What the database keeps for the things placed on the ground: patches of
//! ground to flatten, foundations that follow the ground as more precise
//! heights arrive, things that keep their height over the ground while
//! they move, and airports with their buildings.
//!
//! Angles are of type `A` and lengths of type `L`, as in the geodetic types.
use vstd::prelude::*;
use std::collections::HashSet;
use crate::geodesy::GeodeBB;
use crate::levels::OverviewLevel;
use crate::names::MapName;
use crate::lru::{Lru, MapState};

verus! {

broadcast use vstd::std_specs::hash::group_hash_axioms;

/// The keys of `maps`.
pub open spec fn keys_of(maps: Seq<MapName>) -> Set<u64>
    decreases maps.len(),
{
    if maps.len() == 0 {
        Set::empty()
    } else {
        keys_of(maps.drop_last()).insert(maps.last().spec_key())
    }
}

/// The set of the keys of `maps`.
fn key_set(maps: &[MapName]) -> (r: HashSet<u64>)
    ensures
        r@ == keys_of(maps@),
{
    let mut set: HashSet<u64> = HashSet::new();
    let mut i: usize = 0;
    while i < maps.len()
        invariant
            i <= maps@.len(),
            set@ == keys_of(maps@.take(i as int)),
        decreases maps@.len() - i,
    {
        proof {
            assert(maps@.take(i as int + 1).drop_last() =~= maps@.take(i as int));
        }
        set.insert(maps[i].key());
        i = i + 1;
    }
    assert(maps@.take(maps@.len() as int) =~= maps@);
    set
}

/// The keys of the tiles that a thing overlaps, if they have been worked out.
pub open spec fn cached_keys(s: Option<HashSet<u64>>) -> Option<Set<u64>> {
    match s {
        Some(h) => Some(h@),
        None => None,
    }
}

/// A copy of a box.
fn copy_box<A: Copy>(b: &GeodeBB<A>) -> (r: GeodeBB<A>)
    ensures
        r.spec_low() == b.spec_low(),
        r.spec_high() == b.spec_high(),
{
    GeodeBB::from_bounds(*b.low(), *b.high())
}

/// A patch of ground to flatten to one height.
#[derive(Debug)]
pub struct Flatten<A, L> {
    // The tiles the patch overlaps, worked out once the data set's layout is known.
    intersecting_maps: Option<HashSet<u64>>,
    // Chosen on the first load of adequate precision, so that later loads
    // flatten to the same height.
    target_height: Option<L>,
    bounds: GeodeBB<A>,
}

impl<A: Copy, L: Copy> Flatten<A, L> {
    pub closed spec fn spec_intersecting(self) -> Option<Set<u64>> {
        cached_keys(self.intersecting_maps)
    }

    pub closed spec fn spec_target_height(self) -> Option<L> {
        self.target_height
    }

    pub closed spec fn spec_bounds(self) -> GeodeBB<A> {
        self.bounds
    }

    /// A patch over `bounds`, with no height chosen and its tiles not yet
    /// worked out.
    pub fn new(bounds: &GeodeBB<A>) -> (r: Self)
        ensures
            r.spec_intersecting() is None,
            r.spec_target_height() is None,
            r.spec_bounds().spec_low() == bounds.spec_low(),
            r.spec_bounds().spec_high() == bounds.spec_high(),
    {
        Flatten { intersecting_maps: None, target_height: None, bounds: copy_box(bounds) }
    }

    pub fn bounds(&self) -> (r: &GeodeBB<A>)
        ensures
            *r == self.spec_bounds(),
    {
        &self.bounds
    }

    pub fn target_height(&self) -> (r: Option<L>)
        ensures
            r == self.spec_target_height(),
    {
        self.target_height
    }

    pub fn set_target_height(&mut self, height: L)
        ensures
            final(self).spec_target_height() == Some(height),
            final(self).spec_intersecting() == old(self).spec_intersecting(),
            final(self).spec_bounds() == old(self).spec_bounds(),
    {
        self.target_height = Some(height);
    }

    pub fn has_cached_intersections(&self) -> (r: bool)
        ensures
            r == self.spec_intersecting() is Some,
    {
        self.intersecting_maps.is_some()
    }

    /// Records the tiles the patch overlaps, if the data set could say
    /// (`None` while its layout is not known); done once.
    pub fn cache_intersections(&mut self, maps: Option<&[MapName]>)
        requires
            old(self).spec_intersecting() is None,
        ensures
            final(self).spec_intersecting() == match maps {
                Some(m) => Some(keys_of(m@)),
                None => None::<Set<u64>>,
            },
            final(self).spec_target_height() == old(self).spec_target_height(),
            final(self).spec_bounds() == old(self).spec_bounds(),
    {
        self.intersecting_maps = match maps {
            Some(m) => Some(key_set(m)),
            None => None,
        };
    }

    /// Whether the loaded tile `name` overlaps the patch.
    pub fn intersects_with_map_load(&self, name: &MapName) -> (r: bool)
        requires
            self.spec_intersecting() is Some,
        ensures
            r == self.spec_intersecting()->0.contains(name.spec_key()),
    {
        match &self.intersecting_maps {
            Some(s) => s.contains(&name.key()),
            None => false,
        }
    }
}

/// The notified tiles `ns` that a patch must be flattened on again: none
/// until the patch has its height; then those among `keys` (the tiles under
/// it) that are loaded in the cache `m`, in order.
pub open spec fn reflatten(keys: Set<u64>, has_height: bool, m: Map<u64, MapState>, ns: Seq<MapName>) -> Seq<MapName>
    decreases ns.len(),
{
    if ns.len() == 0 || !has_height {
        Seq::empty()
    } else {
        let n = ns.last();
        reflatten(keys, has_height, m, ns.drop_last()) + if keys.contains(n.spec_key()) && m.contains_key(n.spec_key())
            && m[n.spec_key()] is Ready {
            seq![n]
        } else {
            Seq::empty()
        }
    }
}

impl<A: Copy, L: Copy> Flatten<A, L> {
    /// The notified tiles this patch must be flattened on again.
    pub fn maps_to_reflatten(&self, lru: &Lru, notifications: &[MapName]) -> (r: Vec<MapName>)
        requires
            self.spec_target_height() is Some ==> self.spec_intersecting() is Some,
        ensures
            r@ == reflatten(
                match self.spec_intersecting() {
                    Some(k) => k,
                    None => Set::empty(),
                },
                self.spec_target_height() is Some,
                lru@,
                notifications@,
            ),
    {
        let ghost keys = match self.spec_intersecting() {
            Some(k) => k,
            None => Set::<u64>::empty(),
        };
        let mut out: Vec<MapName> = Vec::new();
        if self.target_height.is_none() {
            return out;
        }
        let mut i: usize = 0;
        while i < notifications.len()
            invariant
                i <= notifications@.len(),
                self.spec_target_height() is Some,
                self.spec_intersecting() == Some(keys),
                out@ == reflatten(keys, true, lru@, notifications@.take(i as int)),
            decreases notifications@.len() - i,
        {
            proof {
                assert(notifications@.take(i as int + 1).drop_last() =~= notifications@.take(i as int));
            }
            let n = notifications[i];
            if self.intersects_with_map_load(&n) && lru.map_is_ready(&n) {
                out.push(n);
            }
            i = i + 1;
            assert(out@ =~= reflatten(keys, true, lru@, notifications@.take(i as int)));
        }
        assert(notifications@.take(notifications@.len() as int) =~= notifications@);
        out
    }
}

/// Whether a tile at `level` gives a foundation that was last placed on
/// tiles at `current` (if ever) more precise ground: a finer level.
pub open spec fn improves(current: Option<OverviewLevel>, level: OverviewLevel) -> bool {
    match current {
        Some(l) => level.spec_level() < l.spec_level(),
        None => true,
    }
}

/// Keeps a thing on the ground: when tiles of finer levels arrive under
/// it, it is placed on the new ground.
#[derive(Debug)]
pub struct Foundation<A, L> {
    // The tiles the foundation overlaps, worked out once the layout is known.
    intersecting_maps: Option<HashSet<u64>>,
    bounds: GeodeBB<A>,
    // Height of the thing's origin over its lowest point on the ground.
    offset_to_ground: L,
    // The level of the tiles it was last placed on.
    current_refinement: Option<OverviewLevel>,
    last_refined_at_step: (u64, u64),
}

impl<A: Copy, L: Copy> Foundation<A, L> {
    pub closed spec fn spec_intersecting(self) -> Option<Set<u64>> {
        cached_keys(self.intersecting_maps)
    }

    pub closed spec fn spec_bounds(self) -> GeodeBB<A> {
        self.bounds
    }

    pub closed spec fn spec_offset_to_ground(self) -> L {
        self.offset_to_ground
    }

    pub closed spec fn spec_refinement(self) -> Option<OverviewLevel> {
        self.current_refinement
    }

    pub closed spec fn spec_last_refined_at_step(self) -> (u64, u64) {
        self.last_refined_at_step
    }

    /// A foundation over `bounds` (which already include the margin around
    /// the thing), never yet placed.
    pub fn new(offset_to_ground: L, bounds: &GeodeBB<A>) -> (r: Self)
        ensures
            r.spec_intersecting() is None,
            r.spec_bounds().spec_low() == bounds.spec_low(),
            r.spec_bounds().spec_high() == bounds.spec_high(),
            r.spec_offset_to_ground() == offset_to_ground,
            r.spec_refinement() is None,
            r.spec_last_refined_at_step() == (0u64, 0u64),
    {
        Foundation {
            intersecting_maps: None,
            bounds: copy_box(bounds),
            offset_to_ground,
            current_refinement: None,
            last_refined_at_step: (0, 0),
        }
    }

    pub fn offset_to_ground(&self) -> (r: L)
        ensures
            r == self.spec_offset_to_ground(),
    {
        self.offset_to_ground
    }

    pub fn bounds(&self) -> (r: &GeodeBB<A>)
        ensures
            *r == self.spec_bounds(),
    {
        &self.bounds
    }

    /// Whether the tile `name` would place the foundation on more precise
    /// ground than it stands on.
    pub fn improves_refinement(&self, name: &MapName) -> (r: bool)
        ensures
            r == improves(self.spec_refinement(), name.spec_level()),
    {
        match self.current_refinement {
            Some(level) => name.level().is_more_refined_than(level),
            None => true,
        }
    }

    pub fn last_refined_at_step(&self) -> (r: (u64, u64))
        ensures
            r == self.spec_last_refined_at_step(),
    {
        self.last_refined_at_step
    }

    /// Records that the foundation was placed on the tile `name` at step `rt`.
    pub fn note_refinement(&mut self, name: &MapName, rt: (u64, u64))
        requires
            improves(old(self).spec_refinement(), name.spec_level()),
        ensures
            final(self).spec_refinement() == Some(name.spec_level()),
            final(self).spec_last_refined_at_step() == rt,
            final(self).spec_intersecting() == old(self).spec_intersecting(),
            final(self).spec_bounds() == old(self).spec_bounds(),
            final(self).spec_offset_to_ground() == old(self).spec_offset_to_ground(),
    {
        self.current_refinement = Some(name.level());
        self.last_refined_at_step = rt;
    }

    pub fn has_cached_intersections(&self) -> (r: bool)
        ensures
            r == self.spec_intersecting() is Some,
    {
        self.intersecting_maps.is_some()
    }

    /// Records the tiles the foundation overlaps, if the data set could say;
    /// done once.
    pub fn cache_intersections(&mut self, maps: Option<&[MapName]>)
        requires
            old(self).spec_intersecting() is None,
        ensures
            final(self).spec_intersecting() == match maps {
                Some(m) => Some(keys_of(m@)),
                None => None::<Set<u64>>,
            },
            final(self).spec_bounds() == old(self).spec_bounds(),
            final(self).spec_offset_to_ground() == old(self).spec_offset_to_ground(),
            final(self).spec_refinement() == old(self).spec_refinement(),
            final(self).spec_last_refined_at_step() == old(self).spec_last_refined_at_step(),
    {
        self.intersecting_maps = match maps {
            Some(m) => Some(key_set(m)),
            None => None,
        };
    }

    /// Whether the loaded tile `name` lies under the foundation.
    pub fn intersects_with_map_load(&self, name: &MapName) -> (r: bool)
        requires
            self.spec_intersecting() is Some,
        ensures
            r == self.spec_intersecting()->0.contains(name.spec_key()),
    {
        match &self.intersecting_maps {
            Some(s) => s.contains(&name.key()),
            None => false,
        }
    }
}

/// A foundation is placed on each level at most once and only ever on finer
/// levels: once placed on tiles of a level, tiles of that level or coarser
/// no longer improve it, and tiles of every finer level still do.
pub proof fn refinement_only_gets_finer(current: Option<OverviewLevel>, placed: OverviewLevel, next: OverviewLevel)
    requires
        improves(current, placed),
    ensures
        improves(Some(placed), next) <==> next.spec_level() < placed.spec_level(),
        !improves(Some(placed), placed),
        current matches Some(l) ==> placed.spec_level() < l.spec_level(),
{
}

/// Keeps a moving thing's height over the ground as new tiles arrive.
#[derive(Debug, Default)]
pub struct GroundStabilizer<L> {
    current_height: L,
}

impl<L: Copy> GroundStabilizer<L> {
    pub closed spec fn spec_current_height(self) -> L {
        self.current_height
    }

    /// The ground height under the thing when last looked up.
    pub fn current_height(&self) -> (r: L)
        ensures
            r == self.spec_current_height(),
    {
        self.current_height
    }

    pub fn set_current_height(&mut self, next: L)
        ensures
            final(self).spec_current_height() == next,
    {
        self.current_height = next;
    }
}

/// A building placed on an airport.
#[derive(Debug)]
pub struct TarmacBuilding<L> {
    offset_to_ground: L,
}

impl<L: Copy> TarmacBuilding<L> {
    pub closed spec fn spec_offset_to_ground(self) -> L {
        self.offset_to_ground
    }

    pub fn new(offset_to_ground: L) -> (r: Self)
        ensures
            r.spec_offset_to_ground() == offset_to_ground,
    {
        TarmacBuilding { offset_to_ground }
    }

    pub fn offset_to_ground(&self) -> (r: L)
        ensures
            r == self.spec_offset_to_ground(),
    {
        self.offset_to_ground
    }
}

/// An airport: ground flattened to one level, with the buildings `E` that
/// stand on it.
#[derive(Debug)]
pub struct Tarmac<L, E> {
    offset_to_ground: L,
    buildings: Vec<E>,
}

impl<L: Copy, E: Copy> Tarmac<L, E> {
    pub closed spec fn spec_offset_to_ground(self) -> L {
        self.offset_to_ground
    }

    pub closed spec fn spec_buildings(self) -> Seq<E> {
        self.buildings@
    }

    pub fn new(offset_to_ground: L, buildings: &[E]) -> (r: Self)
        ensures
            r.spec_offset_to_ground() == offset_to_ground,
            r.spec_buildings() == buildings@,
    {
        let mut v: Vec<E> = Vec::new();
        let mut i: usize = 0;
        while i < buildings.len()
            invariant
                i <= buildings@.len(),
                v@ == buildings@.take(i as int),
            decreases buildings@.len() - i,
        {
            v.push(buildings[i]);
            i = i + 1;
            assert(v@ =~= buildings@.take(i as int));
        }
        assert(buildings@.take(buildings@.len() as int) =~= buildings@);
        Tarmac { offset_to_ground, buildings: v }
    }

    pub fn offset_to_ground(&self) -> (r: L)
        ensures
            r == self.spec_offset_to_ground(),
    {
        self.offset_to_ground
    }

    pub fn buildings(&self) -> (r: &[E])
        ensures
            r@ == self.spec_buildings(),
    {
        self.buildings.as_slice()
    }
}

} // verus!
