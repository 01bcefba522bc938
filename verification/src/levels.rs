//! Overview levels of the tile pyramid and the choice of level for a tile
//! subdivision depth or a wanted precision.
//!
//! Level 0 is full resolution: 30 m, or one arcsecond, per pixel. Each level
//! above it halves the resolution, doubling the extent of a pixel.
use vstd::prelude::*;
use vstd::arithmetic::power2::{pow2, lemma_pow2_unfold, lemma_pow2_strictly_increases, lemma2_to64, lemma2_to64_rest};
use crate::names::MapKind;
use std::cmp::Ordering;

verus! {

/// The SRTM height overview level that serves a tile at `depth`:
/// `(10 - depth)` clamped to the levels 0 to 9 of the data set. Full
/// resolution, level 0, serves depth 10 and every deeper tile; each
/// shallower depth is one level coarser, up to the coarsest level, 9.
pub open spec fn spec_srtm_level(depth: nat) -> u8 {
    if depth >= 10 {
        0
    } else if depth == 0 {
        9
    } else {
        (10 - depth) as u8
    }
}

/// The BMNG color overview level that serves a tile at `depth`: six levels
/// above it, never below level 0.
pub open spec fn spec_bmng_level(depth: nat) -> u8 {
    if depth >= 6 { 0 } else { (6 - depth) as u8 }
}

fn tile_depth_to_srtm_overview_level(depth: usize) -> (r: u8)
    ensures
        r == spec_srtm_level(depth as nat),
{
    if depth >= 10 {
        0
    } else if depth == 0 {
        9
    } else {
        (10 - depth) as u8
    }
}

fn tile_depth_to_bmng_overview_level(depth: usize) -> (r: u8)
    ensures
        r == spec_bmng_level(depth as nat),
{
    if depth >= 6 { 0 } else { (6 - depth) as u8 }
}

/// Overview Level; full resolution at level 0, halving resolution and
/// doubling pixel angular extent at each subsequent level.
#[derive(Copy, Clone, Debug, Eq, PartialEq, Hash, Ord, Structural)]
pub struct OverviewLevel(u8);

/// The level chosen for a precision of `p` whole meters: the number of the
/// doubling thresholds 30 m, 60 m, ... 7680 m that `p` reaches.
pub open spec fn level_for_meters(p: u64, r: u8) -> bool {
    &&& r <= 9
    &&& r < 9 ==> p < 30 * pow2(r as nat)
    &&& r > 0 ==> p >= 30 * pow2((r - 1) as nat)
}

/// The level chosen for a precision of `p` whole arcseconds: the number of
/// the doubling thresholds 1", 2", ... 2048" that `p` reaches.
pub open spec fn level_for_arcseconds(p: u64, r: u8) -> bool {
    &&& r <= 12
    &&& r < 12 ==> p < pow2(r as nat)
    &&& r > 0 ==> p >= pow2((r - 1) as nat)
}

impl OverviewLevel {
    /// The level number.
    pub closed spec fn spec_level(self) -> u8 {
        self.0
    }

    #[inline]
    pub fn level(&self) -> (r: u8)
        ensures
            r == self.spec_level(),
    {
        self.0
    }

    /// Position of this level in the list of overviews.
    #[inline]
    pub fn offset(&self) -> (r: usize)
        ensures
            r == self.spec_level(),
    {
        self.0 as usize
    }

    /// The level numbered `level`, as laid out in the file.
    #[inline]
    pub fn new(level: usize) -> (r: Self)
        requires
            level < 256,
        ensures
            r.spec_level() == level,
    {
        OverviewLevel(level as u8)
    }

    /// Given a desired precision, find the best overview level to query
    /// from. The precision is given in whole meters (rounded down), which
    /// decides the same level as the exact precision since every threshold
    /// is a whole number of meters.
    pub fn from_precision(precision_meters: u64) -> (r: Self)
        ensures
            level_for_meters(precision_meters, r.spec_level()),
    {
        proof {
            lemma2_to64();
        }
        let p = precision_meters;
        if p < 30 {
            return OverviewLevel(0);
        } else if p < 60 {
            return OverviewLevel(1);
        } else if p < 120 {
            return OverviewLevel(2);
        } else if p < 240 {
            return OverviewLevel(3);
        } else if p < 480 {
            return OverviewLevel(4);
        } else if p < 960 {
            return OverviewLevel(5);
        } else if p < 1920 {
            return OverviewLevel(6);
        } else if p < 3840 {
            return OverviewLevel(7);
        } else if p < 7680 {
            return OverviewLevel(8);
        } else if p < 15360 {
            return OverviewLevel(9);
        }
        OverviewLevel(9)
    }

    /// Given a desired angular precision in whole arcseconds (rounded down),
    /// find the best overview level to query from.
    pub fn from_angular_precision(precision_arcseconds: u64) -> (r: Self)
        ensures
            level_for_arcseconds(precision_arcseconds, r.spec_level()),
    {
        let mut arcsec: u64 = 1;
        let mut i: u8 = 1;
        proof {
            lemma2_to64();
        }
        while i <= 12
            invariant
                1 <= i <= 13,
                arcsec == pow2((i - 1) as nat),
                i > 1 ==> precision_arcseconds >= pow2((i - 2) as nat),
            decreases 13 - i,
        {
            proof {
                lemma2_to64();
            }
            if precision_arcseconds < arcsec {
                return OverviewLevel(i - 1);
            }
            proof {
                lemma_pow2_unfold(i as nat);
            }
            arcsec = arcsec * 2;
            i = i + 1;
        }
        OverviewLevel(12)
    }

    /// Pixel extent factor at this level: 2 to the power of the level (a
    /// shift of 1 that must stay within 64 bits).
    pub open spec fn spec_extent_factor(self) -> nat {
        pow2(self.spec_level() as nat)
    }

    /// The width of a pixel at this level, in meters.
    pub fn pixel_extent(&self) -> (r: u128)
        requires
            self.spec_level() < 64,
        ensures
            r == 30 * self.spec_extent_factor(),
    {
        let f = self.extent_factor();
        proof {
            lemma_pow2_fits(self.0 as nat, 123);
            lemma_pow2_123();
        }
        30 * f
    }

    /// The angle a pixel covers at this level, in arcseconds.
    pub fn pixel_angle(&self) -> (r: u128)
        requires
            self.spec_level() < 64,
        ensures
            r == self.spec_extent_factor(),
    {
        self.extent_factor()
    }

    /// Expand by 2x for each overview level above 0: the pixel coverage of
    /// an index at this level, relative to level 0.
    pub fn extent_factor(&self) -> (r: u128)
        requires
            self.spec_level() < 64,
        ensures
            r == self.spec_extent_factor(),
    {
        let mut f: u128 = 1;
        let mut i: u8 = 0;
        proof {
            lemma2_to64();
            lemma_pow2_127();
        }
        while i < self.0
            invariant
                i <= self.0 <= 127,
                f == pow2(i as nat),
                pow2(127) == 0x8000_0000_0000_0000_0000_0000_0000_0000,
            decreases self.0 - i,
        {
            proof {
                lemma_pow2_unfold((i + 1) as nat);
                lemma_pow2_fits((i + 1) as nat, 127);
            }
            f = f * 2;
            i = i + 1;
        }
        f
    }

    /// Levels from this one up to the coarsest, level 12.
    pub fn ascending(&self) -> (r: std::ops::RangeInclusive<u8>)
        ensures
            r@.start == self.spec_level(),
            r@.end == 12,
            !r@.exhausted,
    {
        std::ops::RangeInclusive::new(self.0, 12)
    }

    /// Levels from this one up to `other`.
    pub fn up_to(&self, other: &Self) -> (r: std::ops::RangeInclusive<u8>)
        ensures
            r@.start == self.spec_level(),
            r@.end == other.spec_level(),
            !r@.exhausted,
    {
        std::ops::RangeInclusive::new(self.0, other.0)
    }

    /// Whether this level has finer pixels than `other`.
    pub fn is_more_refined_than(&self, other: Self) -> (r: bool)
        ensures
            r == (self.spec_level() < other.spec_level()),
    {
        self.0 < other.0
    }
}

/// External interface to map to overviews
#[derive(Copy, Clone, Debug, Eq, PartialEq, Hash, Structural)]
pub struct TileSubdivisionLevel(usize);

impl TileSubdivisionLevel {
    /// The subdivision depth.
    pub closed spec fn spec_depth(self) -> usize {
        self.0
    }

    #[inline]
    pub fn new(depth: usize) -> (r: Self)
        ensures
            r.spec_depth() == depth,
    {
        TileSubdivisionLevel(depth)
    }

    /// The overview level to load for tiles at this depth. Height maps reach
    /// full resolution at depth 10; deeper tiles use it too.
    pub fn best_overview_level(&self, kind: MapKind) -> (r: OverviewLevel)
        ensures
            kind == MapKind::Heights ==> r.spec_level() == spec_srtm_level(self.spec_depth() as nat),
            kind == MapKind::Colors ==> r.spec_level() == spec_bmng_level(self.spec_depth() as nat),
    {
        match kind {
            MapKind::Heights => OverviewLevel(tile_depth_to_srtm_overview_level(self.0)),
            MapKind::Colors => OverviewLevel(tile_depth_to_bmng_overview_level(self.0)),
        }
    }
}

/// Color tiles one depth deeper load the next finer color level: depth 0
/// loads level 6, each further depth one level finer, and from depth 6 on
/// every tile loads full resolution, level 0.
pub proof fn color_level_per_depth(d: nat)
    ensures
        spec_bmng_level(0) == 6,
        d < 6 ==> spec_bmng_level(d + 1) + 1 == spec_bmng_level(d),
        d >= 6 ==> spec_bmng_level(d) == 0,
        spec_bmng_level(d) + (if d < 6 { d } else { 6 }) == 6,
        spec_bmng_level(d + 1) <= spec_bmng_level(d),
{
}

/// Height tiles one depth deeper load the next finer height level: depths 0
/// and 1 load the coarsest level, 9, each further depth one level finer, and
/// from depth 10 on every tile loads full resolution, level 0.
pub proof fn height_level_per_depth(d: nat)
    ensures
        spec_srtm_level(0) == 9,
        spec_srtm_level(1) == 9,
        1 <= d < 10 ==> spec_srtm_level(d + 1) + 1 == spec_srtm_level(d),
        d >= 10 ==> spec_srtm_level(d) == 0,
        d >= 1 ==> spec_srtm_level(d) + (if d < 10 { d } else { 10 }) == 10,
        spec_srtm_level(d + 1) <= spec_srtm_level(d),
        spec_srtm_level(d) <= 9,
{
}

/// A coarser precision never selects a finer level.
pub proof fn from_precision_monotone(p: u64, q: u64, a: u8, b: u8)
    requires
        p <= q,
        level_for_meters(p, a),
        level_for_meters(q, b),
    ensures
        a <= b,
{
    if a > b {
        lemma_pow2_strictly_increases(b as nat, (a - 1) as nat);
        if b + 1 < a {
            lemma_pow2_strictly_increases(b as nat, (a - 1) as nat);
        }
    }
}

/// Each overview level covers exactly twice the ground of the level below it.
pub proof fn pixel_extent_doubles(level: OverviewLevel, next: OverviewLevel)
    requires
        next.spec_level() == level.spec_level() + 1,
    ensures
        30 * next.spec_extent_factor() == 2 * (30 * level.spec_extent_factor()),
        next.spec_extent_factor() == 2 * level.spec_extent_factor(),
{
    lemma_pow2_unfold(next.spec_level() as nat);
}

proof fn lemma_pow2_127()
    ensures
        pow2(127) == 0x8000_0000_0000_0000_0000_0000_0000_0000,
{
    lemma2_to64();
    lemma2_to64_rest();
    vstd::arithmetic::power2::lemma_pow2_adds(64, 63);
    assert(pow2(64) * pow2(63) == 0x8000_0000_0000_0000_0000_0000_0000_0000) by (nonlinear_arith)
        requires pow2(64) == 0x1_0000_0000_0000_0000, pow2(63) == 0x8000_0000_0000_0000;
}

proof fn lemma_pow2_123()
    ensures
        pow2(123) == 0x0800_0000_0000_0000_0000_0000_0000_0000,
{
    lemma2_to64();
    lemma2_to64_rest();
    vstd::arithmetic::power2::lemma_pow2_adds(64, 59);
    assert(pow2(64) * pow2(59) == 0x0800_0000_0000_0000_0000_0000_0000_0000) by (nonlinear_arith)
        requires pow2(64) == 0x1_0000_0000_0000_0000, pow2(59) == 0x0800_0000_0000_0000;
}

proof fn lemma_pow2_fits(e: nat, top: nat)
    requires
        e <= top,
    ensures
        pow2(e) <= pow2(top),
{
    if e < top {
        lemma_pow2_strictly_increases(e, top);
    }
}

/// Levels compare by their numbers; a smaller number is a finer level.
impl PartialOrd for OverviewLevel {
    fn partial_cmp(&self, other: &Self) -> (r: Option<Ordering>) {
        if self.0 < other.0 {
            Some(Ordering::Less)
        } else if self.0 == other.0 {
            Some(Ordering::Equal)
        } else {
            Some(Ordering::Greater)
        }
    }
}

impl vstd::std_specs::cmp::PartialOrdSpecImpl for OverviewLevel {
    open spec fn obeys_partial_cmp_spec() -> bool {
        true
    }

    open spec fn partial_cmp_spec(&self, other: &Self) -> Option<Ordering> {
        if self.spec_level() < other.spec_level() {
            Some(Ordering::Less)
        } else if self.spec_level() == other.spec_level() {
            Some(Ordering::Equal)
        } else {
            Some(Ordering::Greater)
        }
    }
}

/// A level is its number: two levels are equal exactly when their numbers
/// are, and they are ordered as their numbers are (lower is more refined).
pub proof fn levels_are_their_numbers(a: OverviewLevel, b: OverviewLevel)
    ensures
        (a == b) <==> (a.spec_level() == b.spec_level()),
        (vstd::std_specs::cmp::PartialOrdSpec::partial_cmp_spec(&a, &b) == Some(Ordering::Less)) <==> (a.spec_level() < b.spec_level()),
        (vstd::std_specs::cmp::PartialOrdSpec::partial_cmp_spec(&a, &b) == Some(Ordering::Equal)) <==> (a == b),
        (vstd::std_specs::cmp::PartialOrdSpec::partial_cmp_spec(&a, &b) == Some(Ordering::Greater)) <==> (a.spec_level() > b.spec_level()),
{
}

} // verus!
