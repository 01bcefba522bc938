//! The in-memory tile cache: which tiles are loading, loaded or known to be
//! empty, and the reads and writes of height samples in loaded tiles.
//!
//! Loads run elsewhere; the cache decides which tiles must be requested and
//! takes in the results.
use vstd::prelude::*;
use std::collections::HashMap;
use std::sync::Arc;
use crate::le::{le16, read_u16};
use vstd::std_specs::iter::IteratorSpec;
use crate::names::MapName;
use crate::tiles::{tile_states, StateList};

verus! {

broadcast use vstd::std_specs::hash::group_hash_axioms;

/// Tracking of one tile.
#[derive(Debug)]
pub enum MapState {
    /// Requested, not yet delivered.
    Loading,
    /// Delivered with data; `last_use` is the (frame, sim) step of the last
    /// request for it.
    Ready { data: Arc<Vec<u8>>, last_use: (u64, u64) },
    /// Delivered, but the data set has no data for this tile.
    Empty,
}

/// Shares the bytes of a loaded tile. `Arc::clone` gives another handle to
/// the same allocation, so the contents are those of `a`.
#[verifier::external_body]
fn share_bytes(a: &Arc<Vec<u8>>) -> (r: Arc<Vec<u8>>)
    ensures
        r == *a,
{
    Arc::clone(a)
}

impl Clone for MapState {
    fn clone(&self) -> (r: Self)
        ensures
            r == *self,
    {
        match self {
            MapState::Loading => MapState::Loading,
            MapState::Ready { data, last_use } => MapState::Ready { data: share_bytes(data), last_use: *last_use },
            MapState::Empty => MapState::Empty,
        }
    }
}

/// The outcome of loading one tile, handed back from the loader.
#[derive(Debug)]
pub struct MapLoadResult {
    /// The (frame, sim) step at which the load was requested.
    pub rt_state: (u64, u64),
    pub map: MapName,
    /// The decompressed tile bytes, or `None` when the load failed.
    pub status: Option<Vec<u8>>,
}

/// The tile cache.
#[derive(Debug)]
pub struct Lru {
    tiles: HashMap<u64, MapState>,
}

/// The state a tile moves to when it is asked for at step `rt`: a tile not
/// yet known starts loading; a loaded tile records the step; others stay.
pub open spec fn next_available_state(m: Map<u64, MapState>, key: u64, rt: (u64, u64)) -> MapState {
    if !m.contains_key(key) {
        MapState::Loading
    } else {
        match m[key] {
            MapState::Loading => MapState::Loading,
            MapState::Empty => MapState::Empty,
            MapState::Ready { data, last_use } => MapState::Ready { data, last_use: rt },
        }
    }
}

/// The cache after asking for each of `maps` in turn.
pub open spec fn after_available(m: Map<u64, MapState>, maps: Seq<MapName>, rt: (u64, u64)) -> Map<u64, MapState>
    decreases maps.len(),
{
    if maps.len() == 0 {
        m
    } else {
        let prev = after_available(m, maps.drop_last(), rt);
        let k = maps.last().spec_key();
        prev.insert(k, next_available_state(prev, k, rt))
    }
}

/// The names among `maps` that must be requested from the loader, in order:
/// those not known to the cache when they are asked for.
pub open spec fn requested(m: Map<u64, MapState>, maps: Seq<MapName>, rt: (u64, u64)) -> Seq<MapName>
    decreases maps.len(),
{
    if maps.len() == 0 {
        Seq::empty()
    } else {
        let prev = maps.drop_last();
        requested(m, prev, rt) + if after_available(m, prev, rt).contains_key(maps.last().spec_key()) {
            Seq::empty()
        } else {
            seq![maps.last()]
        }
    }
}

/// Total bytes of loaded tiles, visiting keys in the order `ks`.
pub open spec fn ready_bytes(m: Map<u64, MapState>, ks: Seq<u64>) -> nat
    decreases ks.len(),
{
    if ks.len() == 0 {
        0
    } else {
        ready_bytes(m, ks.drop_last()) + match m[ks.last()] {
            MapState::Ready { data, .. } => data@.len(),
            _ => 0,
        }
    }
}

/// The height sample at column `x`, row `y` of tile bytes `b`: a
/// little-endian signed 16-bit value.
pub open spec fn height_at(b: Seq<u8>, x: int, y: int) -> i16 {
    le16(b, 2 * (y * 512 + x)) as i16
}

/// Whether word `w` of a tile lies in rows `y1..y0` and columns `x0..x1`.
pub open spec fn in_blit_region(w: int, x0: int, y0: int, x1: int, y1: int) -> bool {
    &&& y1 <= w / 512 < y0
    &&& x0 <= w % 512 < x1
}

/// Tile bytes `old` with every 16-bit word in rows `y1..y0` and columns
/// `x0..x1` set to `h` (stored little-endian).
pub open spec fn blitted(old: Seq<u8>, new: Seq<u8>, x0: int, y0: int, x1: int, y1: int, h: u16) -> bool {
    &&& new.len() == old.len()
    &&& forall|i: int| 0 <= i < new.len() ==> #[trigger] new[i] == if in_blit_region(i / 2, x0, y0, x1, y1) {
        if i % 2 == 0 { (h % 256) as u8 } else { (h / 256) as u8 }
    } else {
        old[i]
    }
}

proof fn lemma_word_position(q: int, row: int, col: int)
    requires
        0 <= q,
        0 <= row,
        0 <= col < 512,
    ensures
        (q == row * 512 + col) <==> (q / 512 == row && q % 512 == col),
{
    if q == row * 512 + col {
        vstd::arithmetic::div_mod::lemma_fundamental_div_mod_converse(q, 512, row, col);
    }
}

/// Reads the height sample at column `x`, row `y` of a tile.
/// Note: this always collapses to the *South* West corner.
pub fn sample_nearest(data: &[u8], x: usize, y: usize) -> (r: i16)
    requires
        x < 512,
        y < 512,
        2 * (y * 512 + x) + 2 <= data@.len(),
    ensures
        r == height_at(data@, x as int, y as int),
{
    let offset = y * 512 + x;
    read_u16(data, 2 * offset) as i16
}

/// The nearest height sample of tile `map` in the cache `m`: nothing while
/// the tile is not delivered, 0 for a tile without data, else the stored
/// sample.
pub open spec fn height_lookup(m: Map<u64, MapState>, map: MapName, x: int, y: int) -> Option<i16> {
    if !m.contains_key(map.spec_key()) {
        None
    } else {
        match m[map.spec_key()] {
            MapState::Loading => None,
            MapState::Empty => Some(0i16),
            MapState::Ready { data, .. } => Some(height_at(data@, x, y)),
        }
    }
}

/// One sample of a grid as the cache sees it: the tile and pixel it falls
/// in, and whether it lies outside the data set.
#[derive(Clone, Copy, Debug)]
pub struct GridSample {
    pub map: MapName,
    pub x: usize,
    pub y: usize,
    pub oob: bool,
}

/// The height of a grid sample: 0 outside the data set, else the nearest
/// sample of its tile, if that is delivered.
pub open spec fn sample_height(m: Map<u64, MapState>, s: GridSample) -> Option<i16> {
    if s.oob {
        Some(0i16)
    } else {
        height_lookup(m, s.map, s.x as int, s.y as int)
    }
}

impl View for Lru {
    type V = Map<u64, MapState>;

    closed spec fn view(&self) -> Map<u64, MapState> {
        self.tiles@
    }
}

impl Lru {
    /// An empty cache.
    pub fn new() -> (r: Lru)
        ensures
            r@ == Map::<u64, MapState>::empty(),
    {
        Lru { tiles: HashMap::new() }
    }

    /// Whether the tile is loaded with data.
    pub fn map_is_ready(&self, map: &MapName) -> (r: bool)
        ensures
            r == (self@.contains_key(map.spec_key()) && self@[map.spec_key()] is Ready),
    {
        match self.tiles.get(&map.key()) {
            Some(MapState::Ready { .. }) => true,
            _ => false,
        }
    }

    /// Whether the tile has been requested and not yet delivered.
    pub fn map_is_loading(&self, map: &MapName) -> (r: bool)
        ensures
            r == (self@.contains_key(map.spec_key()) && self@[map.spec_key()] is Loading),
    {
        match self.tiles.get(&map.key()) {
            Some(MapState::Loading) => true,
            _ => false,
        }
    }

    /// Whether a height sample can be read at column `x`, row `y` of the
    /// tile: a loaded tile must hold whole 16-bit words and reach that
    /// sample.
    pub open spec fn sample_in_bounds(self, map: MapName, x: int, y: int) -> bool {
        let k = map.spec_key();
        self@.contains_key(k) && self@[k] is Ready ==> {
            let d = self@[k]->Ready_data@;
            &&& d.len() % 2 == 0
            &&& 2 * (y * 512 + x) + 2 <= d.len()
        }
    }

    /// Tests `sample_in_bounds`.
    pub fn can_sample_height(&self, map: &MapName, x: usize, y: usize) -> (r: bool)
        requires
            x < 512,
            y < 512,
        ensures
            r == self.sample_in_bounds(*map, x as int, y as int),
    {
        match self.tiles.get(&map.key()) {
            Some(MapState::Ready { data, .. }) => {
                let n = data.len();
                n % 2 == 0 && 2 * (y * 512 + x) + 2 <= n
            },
            _ => true,
        }
    }

    /// The nearest height sample of a tile: nothing while the tile is not
    /// delivered, 0 for a tile without data, else the stored sample.
    pub fn get_height_nearest(&self, map: &MapName, x: usize, y: usize) -> (r: Option<i16>)
        requires
            x < 512,
            y < 512,
            self.sample_in_bounds(*map, x as int, y as int),
        ensures
            !self@.contains_key(map.spec_key()) ==> r is None,
            self@.contains_key(map.spec_key()) ==> match self@[map.spec_key()] {
                MapState::Loading => r is None,
                MapState::Empty => r == Some(0i16),
                MapState::Ready { data, .. } => r == Some(height_at(data@, x as int, y as int)),
            },
    {
        match self.tiles.get(&map.key()) {
            None => None,
            Some(MapState::Loading) => None,
            Some(MapState::Empty) => Some(0),
            Some(MapState::Ready { data, .. }) => Some(sample_nearest(data.as_slice(), x, y)),
        }
    }

    /// The heights of every sample of a grid, or nothing if a sample inside
    /// the data set falls in a tile that has not been delivered.
    pub fn grid_heights(&self, samples: &[GridSample]) -> (r: Option<Vec<i16>>)
        requires
            forall|i: int| 0 <= i < samples@.len() ==> {
                let s = #[trigger] samples@[i];
                &&& s.x < 512
                &&& s.y < 512
                &&& !s.oob ==> self.sample_in_bounds(s.map, s.x as int, s.y as int)
            },
        ensures
            r is None <==> exists|i: int| 0 <= i < samples@.len() && (#[trigger] sample_height(self@, samples@[i])) is None,
            r matches Some(v) ==> {
                &&& v@.len() == samples@.len()
                &&& forall|i: int| 0 <= i < samples@.len() ==> Some(#[trigger] v@[i]) == sample_height(self@, samples@[i])
            },
    {
        let mut out: Vec<i16> = Vec::new();
        let mut i: usize = 0;
        while i < samples.len()
            invariant
                i <= samples@.len(),
                out@.len() == i,
                forall|j: int| 0 <= j < samples@.len() ==> {
                    let s = #[trigger] samples@[j];
                    &&& s.x < 512
                    &&& s.y < 512
                    &&& !s.oob ==> self.sample_in_bounds(s.map, s.x as int, s.y as int)
                },
                forall|j: int| 0 <= j < i ==> Some(#[trigger] out@[j]) == sample_height(self@, samples@[j]),
            decreases samples@.len() - i,
        {
            let s = samples[i];
            let h = if s.oob {
                0i16
            } else {
                match self.get_height_nearest(&s.map, s.x, s.y) {
                    Some(h) => h,
                    None => {
                        assert(sample_height(self@, samples@[i as int]) is None);
                        return None;
                    },
                }
            };
            out.push(h);
            i = i + 1;
        }
        assert forall|j: int| 0 <= j < samples@.len() implies (#[trigger] sample_height(self@, samples@[j])) is Some by {
            assert(Some(out@[j]) == sample_height(self@, samples@[j]));
        }
        Some(out)
    }

    /// Whether flattening rows `y1..y0`, columns `x0..x1` of the tile stays
    /// inside it.
    pub open spec fn blit_in_bounds(self, map: MapName, x0: int, y0: int, x1: int, y1: int) -> bool {
        let k = map.spec_key();
        self@.contains_key(k) && self@[k] is Ready ==> {
            let d = self@[k]->Ready_data@;
            &&& d.len() % 2 == 0
            &&& (y1 < y0 && x0 < x1) ==> 2 * ((y0 - 1) * 512 + x1) <= d.len()
        }
    }

    /// Tests `blit_in_bounds`.
    pub fn can_blit(&self, map: &MapName, x0: usize, y0: usize, x1: usize, y1: usize) -> (r: bool)
        requires
            x1 <= 512,
            y0 <= 512,
        ensures
            r == self.blit_in_bounds(*map, x0 as int, y0 as int, x1 as int, y1 as int),
    {
        match self.tiles.get(&map.key()) {
            Some(MapState::Ready { data, .. }) => {
                let n = data.len();
                n % 2 == 0 && (!(y1 < y0 && x0 < x1) || 2 * ((y0 - 1) * 512 + x1) <= n)
            },
            _ => true,
        }
    }

    /// Sets the heights of a loaded tile in rows `y1..y0` and columns
    /// `x0..x1` to `h`, replacing its bytes with a fresh copy (the old ones
    /// may be shared with a renderer). Tiles that are not loaded stay as
    /// they are.
    pub fn blit_height_for_grid(&mut self, map: &MapName, x0: usize, y0: usize, x1: usize, y1: usize, h: u16)
        requires
            x1 <= 512,
            y0 <= 512,
            old(self).blit_in_bounds(*map, x0 as int, y0 as int, x1 as int, y1 as int),
        ensures
            !(old(self)@.contains_key(map.spec_key()) && old(self)@[map.spec_key()] is Ready)
                ==> final(self)@ == old(self)@,
            old(self)@.contains_key(map.spec_key()) && old(self)@[map.spec_key()] is Ready ==> {
                let k = map.spec_key();
                let st = final(self)@[k];
                &&& final(self)@.dom() == old(self)@.dom()
                &&& forall|j: u64| j != k && old(self)@.contains_key(j) ==> final(self)@[j] == old(self)@[j]
                &&& st is Ready
                &&& st->Ready_last_use == old(self)@[k]->Ready_last_use
                &&& blitted(old(self)@[k]->Ready_data@, st->Ready_data@, x0 as int, y0 as int, x1 as int, y1 as int, h)
            },
    {
        let key = map.key();
        let (mut data, last_use) = match self.tiles.get(&key) {
            Some(MapState::Ready { data, last_use }) => {
                let v: &Vec<u8> = data;
                let copy: Vec<u8> = v.clone();
                (copy, *last_use)
            },
            _ => return,
        };
        let ghost orig = data@;
        let lo = (h % 256) as u8;
        let hi = (h / 256) as u8;
        let mut row = y1;
        while row < y0
            invariant
                y0 <= 512,
                x1 <= 512,
                y1 <= row,
                row <= y0 || row == y1,
                data@.len() == orig.len(),
                orig.len() % 2 == 0,
                (y1 < y0 && x0 < x1) ==> 2 * ((y0 - 1) * 512 + x1) <= orig.len(),
                lo == (h % 256) as u8,
                hi == (h / 256) as u8,
                forall|i: int| 0 <= i < data@.len() ==> #[trigger] data@[i] == if in_blit_region(i / 2, x0 as int, row as int, x1 as int, y1 as int) {
                    if i % 2 == 0 { lo } else { hi }
                } else {
                    orig[i]
                },
            decreases y0 - row,
        {
            let base = row * 512;
            let mut col = x0;
            while col < x1
                invariant
                    y1 <= row < y0 <= 512,
                    x1 <= 512,
                    x0 <= col,
                    col <= x1 || col == x0,
                    base == row * 512,
                    data@.len() == orig.len(),
                    2 * ((y0 - 1) * 512 + x1) <= orig.len() || x1 <= x0,
                    lo == (h % 256) as u8,
                    hi == (h / 256) as u8,
                    forall|i: int| 0 <= i < data@.len() ==> #[trigger] data@[i] == if in_blit_region(i / 2, x0 as int, row as int, x1 as int, y1 as int)
                        || (i / 2 / 512 == row && x0 <= i / 2 % 512 < col) {
                        if i % 2 == 0 { lo } else { hi }
                    } else {
                        orig[i]
                    },
                decreases x1 - col,
            {
                let w = base + col;
                assert(2 * w + 2 <= orig.len()) by (nonlinear_arith)
                    requires
                        w == row * 512 + col,
                        row <= y0 - 1,
                        col < x1,
                        2 * ((y0 - 1) * 512 + x1) <= orig.len(),
                ;
                let ghost before = data@;
                data.set(2 * w, lo);
                data.set(2 * w + 1, hi);
                proof {
                    assert forall|i: int| 0 <= i < data@.len() implies #[trigger] data@[i] == if in_blit_region(i / 2, x0 as int, row as int, x1 as int, y1 as int)
                        || (i / 2 / 512 == row && x0 <= i / 2 % 512 < col + 1) {
                        if i % 2 == 0 { lo } else { hi }
                    } else {
                        orig[i]
                    } by {
                        lemma_word_position(i / 2, row as int, col as int);
                        assert(before[i] == if in_blit_region(i / 2, x0 as int, row as int, x1 as int, y1 as int)
                            || (i / 2 / 512 == row && x0 <= i / 2 % 512 < col) {
                            if i % 2 == 0 { lo } else { hi }
                        } else {
                            orig[i]
                        });
                    }
                }
                col = col + 1;
            }
            proof {
                assert forall|i: int| 0 <= i < data@.len() implies #[trigger] data@[i] == if in_blit_region(i / 2, x0 as int, (row + 1) as int, x1 as int, y1 as int) {
                    if i % 2 == 0 { lo } else { hi }
                } else {
                    orig[i]
                } by {
                    assert(in_blit_region(i / 2, x0 as int, (row + 1) as int, x1 as int, y1 as int)
                        == (in_blit_region(i / 2, x0 as int, row as int, x1 as int, y1 as int)
                        || (i / 2 / 512 == row && x0 <= i / 2 % 512 < col)));
                }
            }
            row = row + 1;
        }
        proof {
            assert forall|i: int| 0 <= i < data@.len() implies #[trigger] data@[i] == if in_blit_region(i / 2, x0 as int, y0 as int, x1 as int, y1 as int) {
                if i % 2 == 0 { lo } else { hi }
            } else {
                orig[i]
            } by {
                assert(in_blit_region(i / 2, x0 as int, row as int, x1 as int, y1 as int)
                    == in_blit_region(i / 2, x0 as int, y0 as int, x1 as int, y1 as int));
            }
        }
        self.tiles.insert(key, MapState::Ready { data: Arc::new(data), last_use });
    }

    /// Asks for a tile at step `rt`: returns its new state and whether it
    /// must be requested from the loader (it was not known before).
    pub fn make_map_available(&mut self, name: &MapName, rt: (u64, u64)) -> (r: (MapState, bool))
        ensures
            r.0 == next_available_state(old(self)@, name.spec_key(), rt),
            r.1 == !old(self)@.contains_key(name.spec_key()),
            final(self)@ == old(self)@.insert(name.spec_key(), r.0),
    {
        let key = name.key();
        let (next, request) = match self.tiles.get(&key) {
            None => (MapState::Loading, true),
            Some(MapState::Loading) => (MapState::Loading, false),
            Some(MapState::Empty) => (MapState::Empty, false),
            Some(MapState::Ready { data, .. }) => (MapState::Ready { data: share_bytes(data), last_use: rt }, false),
        };
        let out = next.clone();
        self.tiles.insert(key, next);
        (out, request)
    }

    /// Asks for each of `maps` in turn at step `rt`: returns each name with
    /// its new state, and the names that must be requested from the loader.
    pub fn make_available(&mut self, maps: &[MapName], rt: (u64, u64)) -> (r: (StateList, Vec<MapName>))
        ensures
            final(self)@ == after_available(old(self)@, maps@, rt),
            tile_states(r.0).len() == maps@.len(),
            forall|i: int| 0 <= i < maps@.len() ==> #[trigger] tile_states(r.0)[i] == (maps@[i],
                next_available_state(after_available(old(self)@, maps@.take(i), rt), maps@[i].spec_key(), rt)),
            r.1@ == requested(old(self)@, maps@, rt),
    {
        let ghost start = self@;
        let mut out = StateList::new();
        let mut requests: Vec<MapName> = Vec::new();
        let mut i: usize = 0;
        while i < maps.len()
            invariant
                i <= maps@.len(),
                self@ == after_available(start, maps@.take(i as int), rt),
                tile_states(out).len() == i,
                forall|j: int| 0 <= j < i ==> #[trigger] tile_states(out)[j] == (maps@[j],
                    next_available_state(after_available(start, maps@.take(j), rt), maps@[j].spec_key(), rt)),
                requests@ == requested(start, maps@.take(i as int), rt),
            decreases maps@.len() - i,
        {
            let name = maps[i];
            let ghost before = self@;
            let (state, request) = self.make_map_available(&name, rt);
            proof {
                assert(maps@.take(i as int + 1).drop_last() =~= maps@.take(i as int));
                assert(maps@.take(i as int + 1).last() == maps@[i as int]);
            }
            out.push((name, state));
            let ghost old_requests = requests@;
            if request {
                requests.push(name);
            }
            proof {
                assert(requests@ =~= requested(start, maps@.take(i as int + 1), rt));
            }
            i = i + 1;
        }
        assert(maps@.take(maps@.len() as int) =~= maps@);
        (out, requests)
    }

    /// Takes in the outcome of a requested load: a delivered tile becomes
    /// loaded (empty when it has no bytes) and its name is added to
    /// `notifications`; a failed load leaves the tile loading.
    pub fn realize_load(&mut self, result: MapLoadResult, notifications: &mut Vec<MapName>)
        requires
            result.status is Some ==> old(self)@.contains_key(result.map.spec_key())
                && old(self)@[result.map.spec_key()] is Loading,
        ensures
            result.status is None ==> final(self)@ == old(self)@ && final(notifications)@ == old(notifications)@,
            result.status matches Some(d) ==> {
                &&& final(notifications)@ == old(notifications)@.push(result.map)
                &&& final(self)@ == old(self)@.insert(result.map.spec_key(), if d@.len() > 0 {
                    MapState::Ready { data: Arc::new(d), last_use: result.rt_state }
                } else {
                    MapState::Empty
                })
            },
    {
        let MapLoadResult { rt_state, map, status } = result;
        match status {
            None => {},
            Some(data) => {
                let value = if data.len() > 0 {
                    MapState::Ready { data: Arc::new(data), last_use: rt_state }
                } else {
                    MapState::Empty
                };
                notifications.push(map);
                self.tiles.insert(map.key(), value);
            },
        }
    }

    /// Total bytes held by loaded tiles.
    pub fn memory_cache_size(&self) -> (r: u128)
        ensures
            exists|ks: Seq<u64>| ks.no_duplicates() && ks.to_set() == self@.dom() && r == ready_bytes(self@, ks),
    {
        let n = self.tiles.len();
        let ghost m = self@;
        let ghost all = vstd::std_specs::hash::spec_keys_iter(&self.tiles).remaining().unref();
        let ghost mut count: int = 0;
        let mut total: u128 = 0;
        for k in it: self.tiles.keys()
            invariant
                m == self@,
                n == m.dom().len(),
                it.seq() == vstd::std_specs::hash::spec_keys_iter(&self.tiles).remaining(),
                all == it.seq().unref(),
                count == it.index(),
                0 <= it.index() <= n,
                total == ready_bytes(m, all.take(count)),
                total <= it.index() * 0xFFFF_FFFF_FFFF_FFFF,
        {
            let add = match self.tiles.get(k) {
                Some(MapState::Ready { data, .. }) => data.len(),
                _ => 0,
            };
            proof {
                assert(all.take(count + 1).drop_last() =~= all.take(count));
                assert(all.take(count + 1).last() == *k);
                count = count + 1;
            }
            total = total + add as u128;
        }
        proof {
            assert(count == all.len());
            assert(all.take(count) =~= all);
            assert(all.to_set() =~= m.dom());
            assert(all.no_duplicates());
        }
        total
    }
}

proof fn lemma_after_available_keeps_keys(m: Map<u64, MapState>, maps: Seq<MapName>, rt: (u64, u64), k: u64)
    requires
        m.contains_key(k),
    ensures
        after_available(m, maps, rt).contains_key(k),
    decreases maps.len(),
{
    if maps.len() > 0 {
        lemma_after_available_keeps_keys(m, maps.drop_last(), rt, k);
    }
}

proof fn lemma_requested_are_known(m: Map<u64, MapState>, maps: Seq<MapName>, rt: (u64, u64))
    ensures
        forall|i: int| 0 <= i < requested(m, maps, rt).len()
            ==> after_available(m, maps, rt).contains_key(#[trigger] requested(m, maps, rt)[i].spec_key()),
    decreases maps.len(),
{
    if maps.len() > 0 {
        let prev = maps.drop_last();
        lemma_requested_are_known(m, prev, rt);
        let r0 = requested(m, prev, rt);
        let r = requested(m, maps, rt);
        let a0 = after_available(m, prev, rt);
        assert forall|i: int| 0 <= i < r.len() implies after_available(m, maps, rt).contains_key(#[trigger] r[i].spec_key()) by {
            if i < r0.len() {
                assert(r[i] == r0[i]);
                assert(a0.contains_key(r0[i].spec_key()));
            } else {
                assert(r[i] == maps.last());
            }
        }
    }
}

/// Each tile is requested from the loader at most once: however often and
/// in whatever order tiles are asked for, no two requests name the same
/// tile.
pub proof fn each_tile_requested_once(m: Map<u64, MapState>, maps: Seq<MapName>, rt: (u64, u64))
    ensures
        forall|i: int, j: int| 0 <= i < j < requested(m, maps, rt).len()
            ==> #[trigger] requested(m, maps, rt)[i].spec_key() != #[trigger] requested(m, maps, rt)[j].spec_key(),
    decreases maps.len(),
{
    if maps.len() > 0 {
        let prev = maps.drop_last();
        each_tile_requested_once(m, prev, rt);
        lemma_requested_are_known(m, prev, rt);
        let r0 = requested(m, prev, rt);
        let r = requested(m, maps, rt);
        assert forall|i: int, j: int| 0 <= i < j < r.len() implies #[trigger] r[i].spec_key() != #[trigger] r[j].spec_key() by {
            assert(r[i] == r0[i]);
            if j < r0.len() {
                assert(r[j] == r0[j]);
            } else {
                assert(after_available(m, prev, rt).contains_key(r0[i].spec_key()));
            }
        }
    }
}

/// A tile that has been asked for is known to the cache afterwards, so
/// asking for it again requests nothing.
pub proof fn asked_tiles_are_known(m: Map<u64, MapState>, maps: Seq<MapName>, rt: (u64, u64), i: int)
    requires
        0 <= i < maps.len(),
    ensures
        after_available(m, maps, rt).contains_key(maps[i].spec_key()),
    decreases maps.len(),
{
    let prev = maps.drop_last();
    if i == maps.len() - 1 {
    } else {
        asked_tiles_are_known(m, prev, rt, i);
        lemma_after_available_keeps_keys(after_available(m, prev, rt), seq![maps.last()], rt, maps[i].spec_key());
        assert(seq![maps.last()].drop_last() =~= Seq::<MapName>::empty());
    }
}

/// Asking for a tile never changes what is known of it: a loading tile
/// stays loading, an empty tile stays empty, and a loaded tile keeps its
/// bytes and records the step it was asked for at. Only a tile the cache
/// does not know starts loading.
pub proof fn asking_keeps_tile_state(m: Map<u64, MapState>, key: u64, rt: (u64, u64))
    ensures
        !m.contains_key(key) ==> next_available_state(m, key, rt) is Loading,
        m.contains_key(key) && m[key] is Loading ==> next_available_state(m, key, rt) is Loading,
        m.contains_key(key) && m[key] is Empty ==> next_available_state(m, key, rt) is Empty,
        m.contains_key(key) && m[key] is Ready ==> {
            &&& next_available_state(m, key, rt) is Ready
            &&& next_available_state(m, key, rt)->Ready_data == m[key]->Ready_data
            &&& next_available_state(m, key, rt)->Ready_last_use == rt
        },
{
}

/// However often and in whatever order tiles are asked for, every tile the
/// cache knew keeps its kind (loading, empty, or loaded with the same
/// bytes), every tile it did not know is requested from the loader, and a
/// tile that is loading afterwards was loading before or has been
/// requested.
pub proof fn asked_tiles_keep_state_or_are_requested(m: Map<u64, MapState>, maps: Seq<MapName>, rt: (u64, u64))
    ensures
        forall|k: u64| #[trigger] m.contains_key(k) ==> {
            let a = after_available(m, maps, rt);
            &&& a.contains_key(k)
            &&& m[k] is Loading ==> a[k] is Loading
            &&& m[k] is Empty ==> a[k] is Empty
            &&& m[k] is Ready ==> a[k] is Ready && a[k]->Ready_data == m[k]->Ready_data
        },
        forall|k: u64| #[trigger] after_available(m, maps, rt).contains_key(k) && !m.contains_key(k) ==> {
            &&& after_available(m, maps, rt)[k] is Loading
            &&& exists|i: int| 0 <= i < requested(m, maps, rt).len() && (#[trigger] requested(m, maps, rt)[i]).spec_key() == k
        },
        forall|k: u64| #[trigger] after_available(m, maps, rt).contains_key(k) && after_available(m, maps, rt)[k] is Loading ==> {
            ||| m.contains_key(k) && m[k] is Loading
            ||| exists|i: int| 0 <= i < requested(m, maps, rt).len() && (#[trigger] requested(m, maps, rt)[i]).spec_key() == k
        },
    decreases maps.len(),
{
    if maps.len() > 0 {
        let prev = maps.drop_last();
        asked_tiles_keep_state_or_are_requested(m, prev, rt);
        let p = after_available(m, prev, rt);
        let a = after_available(m, maps, rt);
        let r0 = requested(m, prev, rt);
        let r = requested(m, maps, rt);
        let key = maps.last().spec_key();
        assert(a == p.insert(key, next_available_state(p, key, rt)));
        assert forall|i: int| 0 <= i < r0.len() implies r[i] == r0[i] by {}
        if !p.contains_key(key) {
            assert(r[r0.len() as int] == maps.last());
        }
        assert forall|k: u64| #[trigger] a.contains_key(k) && a[k] is Loading implies {
            ||| m.contains_key(k) && m[k] is Loading
            ||| exists|i: int| 0 <= i < r.len() && (#[trigger] r[i]).spec_key() == k
        } by {
            if k != key || p.contains_key(k) {
                assert(p.contains_key(k) && p[k] is Loading);
                if !(m.contains_key(k) && m[k] is Loading) {
                    let i = choose|i: int| 0 <= i < r0.len() && (#[trigger] r0[i]).spec_key() == k;
                    assert(r[i] == r0[i]);
                }
            } else {
                assert(r[r0.len() as int].spec_key() == k);
            }
        }
        assert forall|k: u64| #[trigger] a.contains_key(k) && !m.contains_key(k) implies {
            &&& a[k] is Loading
            &&& exists|i: int| 0 <= i < r.len() && (#[trigger] r[i]).spec_key() == k
        } by {
            if k != key || p.contains_key(k) {
                assert(p.contains_key(k));
                let i = choose|i: int| 0 <= i < r0.len() && (#[trigger] r0[i]).spec_key() == k;
                assert(r[i] == r0[i]);
            } else {
                assert(r[r0.len() as int].spec_key() == k);
            }
        }
    }
}

/// A loaded tile can be sampled exactly where the 16-bit word of the sample
/// lies inside its bytes: a sample at column `x`, row `y` is in bounds when
/// its word number `y * 512 + x` is below the number of words in the tile.
/// Every sample of a full 512 by 512 tile is in bounds, and so is every
/// sample of a tile that is not loaded.
pub proof fn samples_in_bounds_are_words_of_the_tile(lru: Lru, map: MapName, x: int, y: int)
    requires
        0 <= x < 512,
        0 <= y < 512,
    ensures
        !(lru@.contains_key(map.spec_key()) && lru@[map.spec_key()] is Ready) ==> lru.sample_in_bounds(map, x, y),
        lru@.contains_key(map.spec_key()) && lru@[map.spec_key()] is Ready
            && lru@[map.spec_key()]->Ready_data@.len() % 2 == 0 ==> (lru.sample_in_bounds(map, x, y)
            <==> y * 512 + x < lru@[map.spec_key()]->Ready_data@.len() / 2),
        lru@.contains_key(map.spec_key()) && lru@[map.spec_key()] is Ready
            && lru@[map.spec_key()]->Ready_data@.len() == 512 * 512 * 2 ==> lru.sample_in_bounds(map, x, y),
{
    assert(0 <= y * 512 + x < 512 * 512) by (nonlinear_arith)
        requires 0 <= x < 512, 0 <= y < 512;
}

/// Flattening writes exactly its region: a sample inside the region reads
/// back as the new height, and a sample outside it reads as before.
pub proof fn blit_sets_region_only(
    before: Seq<u8>,
    after: Seq<u8>,
    x0: int,
    y0: int,
    x1: int,
    y1: int,
    h: u16,
    x: int,
    y: int,
)
    requires
        blitted(before, after, x0, y0, x1, y1, h),
        0 <= x < 512,
        0 <= y,
        2 * (y * 512 + x) + 2 <= after.len(),
    ensures
        (y1 <= y < y0 && x0 <= x < x1) ==> height_at(after, x, y) == h as i16,
        !(y1 <= y < y0 && x0 <= x < x1) ==> height_at(after, x, y) == height_at(before, x, y),
{
    let w = y * 512 + x;
    lemma_word_position(w, y, x);
    assert((2 * w) / 2 == w && (2 * w + 1) / 2 == w);
    assert((2 * w) % 2 == 0 && (2 * w + 1) % 2 == 1);
    assert(in_blit_region(w, x0, y0, x1, y1) == (y1 <= y < y0 && x0 <= x < x1));
    assert(after[2 * w] == if in_blit_region(w, x0, y0, x1, y1) { (h % 256) as u8 } else { before[2 * w] });
    assert(after[2 * w + 1] == if in_blit_region(w, x0, y0, x1, y1) { (h / 256) as u8 } else { before[2 * w + 1] });
}

/// A delivered tile reads back what was delivered: once the cache takes in
/// a load with bytes `d` for a tile, the tile is loaded, holds exactly `d`,
/// and every sample read from it is the sample stored in `d`.
pub proof fn delivered_tile_reads_back(m: Map<u64, MapState>, name: MapName, d: Vec<u8>, rt: (u64, u64), x: int, y: int)
    requires
        d@.len() > 0,
    ensures
        ({
            let after = m.insert(name.spec_key(), MapState::Ready { data: Arc::new(d), last_use: rt });
            &&& after.contains_key(name.spec_key())
            &&& after[name.spec_key()] is Ready
            &&& after[name.spec_key()]->Ready_data@ == d@
            &&& height_at(after[name.spec_key()]->Ready_data@, x, y) == height_at(d@, x, y)
            &&& forall|k: u64| k != name.spec_key() && m.contains_key(k) ==> after.contains_key(k) && after[k] == m[k]
        }),
{
}

} // verus!
