//! Short lists of tiles, kept inline (as a `SmallVec`) for the usual
//! handful of entries: the tiles covering a region, and the tiles asked for
//! with their states.
use vstd::prelude::*;
use smallvec::SmallVec;
use crate::lru::MapState;
use crate::names::MapName;

verus! {

/// A list of tiles.
#[verifier::external_body]
#[derive(Debug)]
pub struct TileList {
    v: SmallVec<[MapName; 9]>,
}

/// The tiles a tile list holds, in order.
pub uninterp spec fn tile_names(l: TileList) -> Seq<MapName>;

impl TileList {
    /// An empty list, by `SmallVec::new`, which constructs an empty vector.
    #[verifier::external_body]
    pub(crate) fn new() -> (r: TileList)
        ensures
            tile_names(r) == Seq::<MapName>::empty(),
    {
        TileList { v: SmallVec::new() }
    }

    /// Appends `n` with `SmallVec::push`, which appends an item to the end
    /// of the vector.
    #[verifier::external_body]
    pub(crate) fn push(&mut self, n: MapName)
        ensures
            tile_names(*final(self)) == tile_names(*old(self)).push(n),
    {
        self.v.push(n);
    }

    /// The tiles, by `SmallVec::as_slice`, which gives a slice of the whole
    /// vector.
    #[verifier::external_body]
    pub(crate) fn as_slice(&self) -> (r: &[MapName])
        ensures
            r@ == tile_names(*self),
    {
        self.v.as_slice()
    }

    /// The tiles, in order.
    pub fn to_vec(&self) -> (r: Vec<MapName>)
        ensures
            r@ == tile_names(*self),
    {
        let s = self.as_slice();
        let mut out: Vec<MapName> = Vec::new();
        let mut i: usize = 0;
        while i < s.len()
            invariant
                i <= s@.len(),
                out@ == s@.take(i as int),
            decreases s@.len() - i,
        {
            out.push(s[i]);
            i = i + 1;
            assert(out@ =~= s@.take(i as int));
        }
        assert(s@.take(s@.len() as int) =~= s@);
        out
    }

    /// Number of tiles.
    pub fn len(&self) -> (r: usize)
        ensures
            r == tile_names(*self).len(),
    {
        self.as_slice().len()
    }
}

/// A list of tiles with their states.
#[verifier::external_body]
#[derive(Debug)]
pub struct StateList {
    v: SmallVec<[(MapName, MapState); 9]>,
}

/// The tiles and states a state list holds, in order.
pub uninterp spec fn tile_states(l: StateList) -> Seq<(MapName, MapState)>;

impl StateList {
    /// An empty list, by `SmallVec::new`.
    #[verifier::external_body]
    pub(crate) fn new() -> (r: StateList)
        ensures
            tile_states(r) == Seq::<(MapName, MapState)>::empty(),
    {
        StateList { v: SmallVec::new() }
    }

    /// Appends `e` with `SmallVec::push`.
    #[verifier::external_body]
    pub(crate) fn push(&mut self, e: (MapName, MapState))
        ensures
            tile_states(*final(self)) == tile_states(*old(self)).push(e),
    {
        self.v.push(e);
    }

    /// The tiles and states, by `SmallVec::as_slice`.
    #[verifier::external_body]
    pub(crate) fn as_slice(&self) -> (r: &[(MapName, MapState)])
        ensures
            r@ == tile_states(*self),
    {
        self.v.as_slice()
    }

    /// Number of entries.
    pub fn len(&self) -> (r: usize)
        ensures
            r == tile_states(*self).len(),
    {
        self.as_slice().len()
    }

    /// The tiles and states, in order.
    pub fn into_vec(self) -> (r: Vec<(MapName, MapState)>)
        ensures
            r@.len() == tile_states(self).len(),
            forall|i: int| 0 <= i < r@.len() ==> #[trigger] r@[i] == tile_states(self)[i],
    {
        let s = self.as_slice();
        let mut out: Vec<(MapName, MapState)> = Vec::new();
        let mut i: usize = 0;
        while i < s.len()
            invariant
                i <= s@.len(),
                out@.len() == i,
                forall|j: int| 0 <= j < i ==> #[trigger] out@[j] == s@[j],
            decreases s@.len() - i,
        {
            let (n, st) = &s[i];
            out.push((*n, st.clone()));
            i = i + 1;
        }
        out
    }
}

} // verus!
