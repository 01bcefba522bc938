//! Naming of map tiles: which data set a tile belongs to, its overview level
//! and its position in the tile grid of that level.
use vstd::prelude::*;
use crate::levels::OverviewLevel;

verus! {

/// The two data sets the database serves.
#[derive(Clone, Copy, Debug, PartialEq, Eq, Hash, PartialOrd, Ord, Structural)]
pub enum MapKind {
    Heights,
    Colors,
}

/// Position of a tile in the row-major tile grid of an overview level.
/// Tiles are row major, top to bottom, whereas the coordinate space (WGS84)
/// is bottom to top.
#[derive(Copy, Clone, Debug, PartialEq, Eq, Hash, PartialOrd, Ord, Structural)]
pub struct MapRef {
    stride: u16,
    offset: u32,
}

impl MapRef {
    /// Tiles per row of the grid.
    pub closed spec fn spec_stride(self) -> u16 {
        self.stride
    }

    /// Row-major index of the tile.
    pub closed spec fn spec_offset(self) -> u32 {
        self.offset
    }

    /// The tile at column `lon` and row `lat` of a grid `stride` tiles wide.
    pub open spec fn spec_new(lon: u32, lat: u32, stride: u32) -> (u16, u32) {
        (stride as u16, (lat * stride + lon) as u32)
    }

    /// The tile at column `lon`, row `lat` of a grid `stride` tiles wide.
    pub fn new(lon: u32, lat: u32, stride: u32) -> (r: Self)
        requires
            stride < 65_536,
            lat * stride + lon <= u32::MAX,
        ensures
            (r.spec_stride(), r.spec_offset()) == Self::spec_new(lon, lat, stride),
    {
        assert(lat * stride <= u32::MAX);
        MapRef { stride: stride as u16, offset: lat * stride + lon }
    }

    pub fn stride(&self) -> (r: u16)
        ensures
            r == self.spec_stride(),
    {
        self.stride
    }

    pub fn offset(&self) -> (r: u32)
        ensures
            r == self.spec_offset(),
    {
        self.offset
    }

    pub fn index(&self) -> (r: usize)
        ensures
            r == self.spec_offset(),
    {
        self.offset as usize
    }

    /// longitude (column)
    pub fn x(&self) -> (r: u32)
        requires
            self.spec_stride() > 0,
        ensures
            r == self.spec_offset() % (self.spec_stride() as u32),
    {
        self.offset % self.stride as u32
    }

    /// latitude (row)
    pub fn y(&self) -> (r: u32)
        requires
            self.spec_stride() > 0,
        ensures
            r == self.spec_offset() / (self.spec_stride() as u32),
    {
        self.offset / self.stride as u32
    }
}

/// A tile placed at column `lon` and row `lat` is found again there: its
/// column and row read back as `lon` and `lat`.
pub proof fn map_ref_position_round_trip(lon: u32, lat: u32, stride: u32)
    requires
        0 < stride < 65_536,
        lon < stride,
        lat * stride + lon <= u32::MAX,
    ensures
        ({
            let (s, o) = MapRef::spec_new(lon, lat, stride);
            &&& s == stride
            &&& o % (s as u32) == lon
            &&& o / (s as u32) == lat
        }),
{
    let o: int = lat * stride + lon;
    vstd::arithmetic::div_mod::lemma_fundamental_div_mod_converse(o, stride as int, lat as int, lon as int);
}

/// The name of one tile: data set, overview level and grid position.
#[derive(Copy, Clone, Debug, PartialEq, Eq, Hash, PartialOrd, Ord, Structural)]
pub struct MapName {
    kind: MapKind,
    level: OverviewLevel,
    position: MapRef,
}

/// A 64-bit key that identifies a tile name: the kind in the lowest byte,
/// the level in the next, the grid stride in the next two and the grid
/// offset in the upper four.
pub open spec fn key_of(kind: MapKind, level: u8, stride: u16, offset: u32) -> u64 {
    let k: int = match kind {
        MapKind::Heights => 0,
        MapKind::Colors => 1,
    };
    (k + 0x100 * level + 0x1_0000 * stride + 0x1_0000_0000 * offset) as u64
}

impl MapName {
    pub closed spec fn spec_kind(self) -> MapKind {
        self.kind
    }

    pub closed spec fn spec_level(self) -> OverviewLevel {
        self.level
    }

    pub closed spec fn spec_position(self) -> MapRef {
        self.position
    }

    /// The key that identifies this name.
    pub open spec fn spec_key(self) -> u64 {
        key_of(
            self.spec_kind(),
            self.spec_level().spec_level(),
            self.spec_position().spec_stride(),
            self.spec_position().spec_offset(),
        )
    }

    #[inline]
    pub fn new(kind: MapKind, level: OverviewLevel, position: MapRef) -> (r: Self)
        ensures
            r.spec_kind() == kind,
            r.spec_level() == level,
            r.spec_position() == position,
    {
        MapName { kind, level, position }
    }

    /// The data set and level whose tile index locates this tile.
    #[inline]
    pub fn tiff_index_index(&self) -> (r: (MapKind, OverviewLevel))
        ensures
            r == (self.spec_kind(), self.spec_level()),
    {
        (self.kind, self.level)
    }

    #[inline]
    pub fn kind(&self) -> (r: MapKind)
        ensures
            r == self.spec_kind(),
    {
        self.kind
    }

    #[inline]
    pub fn level(&self) -> (r: OverviewLevel)
        ensures
            r == self.spec_level(),
    {
        self.level
    }

    #[inline]
    pub fn position(&self) -> (r: MapRef)
        ensures
            r == self.spec_position(),
    {
        self.position
    }

    /// Packs the name into its 64-bit key.
    pub fn key(&self) -> (r: u64)
        ensures
            r == self.spec_key(),
    {
        let k: u64 = match self.kind {
            MapKind::Heights => 0,
            MapKind::Colors => 1,
        };
        k + 0x100 * (self.level.level() as u64) + 0x1_0000 * (self.position.stride as u64)
            + 0x1_0000_0000 * (self.position.offset as u64)
    }
}

/// Different tile names have different keys, so a key identifies its name.
pub proof fn map_name_key_injective(a: MapName, b: MapName)
    requires
        a.spec_key() == b.spec_key(),
    ensures
        a.spec_kind() == b.spec_kind(),
        a.spec_level().spec_level() == b.spec_level().spec_level(),
        a.spec_position().spec_stride() == b.spec_position().spec_stride(),
        a.spec_position().spec_offset() == b.spec_position().spec_offset(),
{
    let ka: int = match a.spec_kind() { MapKind::Heights => 0, MapKind::Colors => 1 };
    let kb: int = match b.spec_kind() { MapKind::Heights => 0, MapKind::Colors => 1 };
    let la = a.spec_level().spec_level() as int;
    let lb = b.spec_level().spec_level() as int;
    let sa = a.spec_position().spec_stride() as int;
    let sb = b.spec_position().spec_stride() as int;
    let oa = a.spec_position().spec_offset() as int;
    let ob = b.spec_position().spec_offset() as int;
    let va = ka + 0x100 * la + 0x1_0000 * sa + 0x1_0000_0000 * oa;
    let vb = kb + 0x100 * lb + 0x1_0000 * sb + 0x1_0000_0000 * ob;
    assert(va == vb);
    assert(ka == kb && la == lb && sa == sb && oa == ob) by (nonlinear_arith)
        requires
            va == ka + 0x100 * la + 0x1_0000 * sa + 0x1_0000_0000 * oa,
            vb == kb + 0x100 * lb + 0x1_0000 * sb + 0x1_0000_0000 * ob,
            va == vb,
            0 <= ka < 0x100, 0 <= kb < 0x100,
            0 <= la < 0x100, 0 <= lb < 0x100,
            0 <= sa < 0x1_0000, 0 <= sb < 0x1_0000,
            0 <= oa, 0 <= ob,
    ;
}

} // verus!
