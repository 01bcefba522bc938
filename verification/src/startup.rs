//! The last steps of a data set's start-up: how much index data there is to
//! read, and, once every table has been read in the background, which table
//! belongs to which overview level.
use vstd::prelude::*;
use crate::cog::GeoTiffOverviewInfo;
use crate::index::{GeoTiffMapIndex, Memory};
use crate::levels::OverviewLevel;
use crate::names::MapKind;

verus! {

/// Bytes of tile index tables (offsets and byte counts) of `layers`.
pub open spec fn index_bytes(layers: Seq<GeoTiffOverviewInfo>) -> int
    decreases layers.len(),
{
    if layers.len() == 0 {
        0
    } else {
        index_bytes(layers.drop_last()) + layers.last().tile_offsets_size
            + layers.last().tile_nbytes_size
    }
}

proof fn lemma_index_bytes_prefix(layers: Seq<GeoTiffOverviewInfo>, i: int)
    requires
        0 <= i <= layers.len(),
    ensures
        0 <= index_bytes(layers.take(i)) <= index_bytes(layers),
    decreases layers.len(),
{
    if i == layers.len() {
        assert(layers.take(i) =~= layers);
        if layers.len() > 0 {
            lemma_index_bytes_prefix(layers.drop_last(), 0);
        }
    } else {
        assert(layers.drop_last().take(i) =~= layers.take(i));
        lemma_index_bytes_prefix(layers.drop_last(), i);
    }
}

/// The amount of start-up work that progress is reported against: every
/// table counts twice, once as it downloads and once as it is stored.
pub fn startup_total(layers: &[GeoTiffOverviewInfo]) -> (r: usize)
    requires
        2 * index_bytes(layers@) <= usize::MAX,
    ensures
        r == 2 * index_bytes(layers@),
{
    let mut sum: usize = 0;
    let mut i: usize = 0;
    while i < layers.len()
        invariant
            i <= layers@.len(),
            sum == index_bytes(layers@.take(i as int)),
            2 * index_bytes(layers@) <= usize::MAX,
        decreases layers@.len() - i,
    {
        proof {
            assert(layers@.take(i as int + 1).drop_last() =~= layers@.take(i as int));
            lemma_index_bytes_prefix(layers@, i as int + 1);
        }
        sum = sum + layers[i].tile_offsets_size + layers[i].tile_nbytes_size;
        i = i + 1;
    }
    assert(layers@.take(layers@.len() as int) =~= layers@);
    sum * 2
}

/// Which of the two tables of a level's tile index.
#[derive(Clone, Copy, Debug, PartialEq, Eq, Structural)]
pub enum IndexPart {
    Offsets,
    NumBytes,
}

/// One table as it came back from the background reads; `map` is `None`
/// where reading it failed.
#[derive(Debug)]
pub struct LoadedPart {
    pub layer: usize,
    pub part: IndexPart,
    pub map: Option<Memory>,
}

/// `p` is the table `k` of level `i`.
pub open spec fn part_key(p: LoadedPart, i: int, k: IndexPart) -> bool {
    p.layer == i && p.part == k
}

/// The table `k` of level `i` is among `parts`.
pub open spec fn has_part(parts: Seq<LoadedPart>, i: int, k: IndexPart) -> bool {
    exists|j: int| 0 <= j < parts.len() && #[trigger] part_key(parts[j], i, k)
}

/// Each of the two tables of each of the levels `0..n` came back exactly
/// once, and nothing else did.
pub open spec fn parts_complete(parts: Seq<LoadedPart>, n: int) -> bool {
    &&& forall|j: int| 0 <= j < parts.len() ==> #[trigger] parts[j].layer < n
    &&& forall|i: int, k: IndexPart| 0 <= i < n ==> #[trigger] has_part(parts, i, k)
    &&& forall|j1: int, j2: int|
        0 <= j1 < parts.len() && 0 <= j2 < parts.len() && j1 != j2
            ==> !part_key(#[trigger] parts[j1], parts[j2].layer as int, #[trigger] parts[j2].part)
}

fn find_part(parts: &[LoadedPart], i: usize, k: IndexPart) -> (r: bool)
    ensures
        r == has_part(parts@, i as int, k),
{
    let mut j: usize = 0;
    while j < parts.len()
        invariant
            j <= parts@.len(),
            forall|j2: int| 0 <= j2 < j ==> !#[trigger] part_key(parts@[j2], i as int, k),
        decreases parts@.len() - j,
    {
        if parts[j].layer == i && parts[j].part == k {
            assert(part_key(parts@[j as int], i as int, k));
            return true;
        }
        j = j + 1;
    }
    false
}

/// Tests `parts_complete`: each table of the levels `0..n` is present
/// exactly once and nothing else is.
pub fn check_parts(parts: &[LoadedPart], n: usize) -> (r: bool)
    ensures
        r == parts_complete(parts@, n as int),
{
    let len = parts.len();
    let mut j: usize = 0;
    while j < len
        invariant
            len == parts@.len(),
            j <= len,
            forall|j2: int| 0 <= j2 < j ==> #[trigger] parts@[j2].layer < n,
        decreases len - j,
    {
        if parts[j].layer >= n {
            return false;
        }
        j = j + 1;
    }
    let mut j1: usize = 0;
    while j1 < len
        invariant
            len == parts@.len(),
            j1 <= len,
            forall|a: int, b: int| 0 <= a < j1 && 0 <= b < len && a != b
                ==> !part_key(#[trigger] parts@[a], parts@[b].layer as int, #[trigger] parts@[b].part),
        decreases len - j1,
    {
        let mut j2: usize = 0;
        while j2 < len
            invariant
                len == parts@.len(),
                j1 < len,
                j2 <= len,
                forall|a: int, b: int| 0 <= a < j1 && 0 <= b < len && a != b
                    ==> !part_key(#[trigger] parts@[a], parts@[b].layer as int, #[trigger] parts@[b].part),
                forall|b: int| 0 <= b < j2 && b != j1
                    ==> !part_key(parts@[j1 as int], parts@[b].layer as int, #[trigger] parts@[b].part),
            decreases len - j2,
        {
            if j1 != j2 && parts[j1].layer == parts[j2].layer && parts[j1].part == parts[j2].part {
                assert(part_key(parts@[j1 as int], parts@[j2 as int].layer as int, parts@[j2 as int].part));
                return false;
            }
            j2 = j2 + 1;
        }
        j1 = j1 + 1;
    }
    let mut i: usize = 0;
    while i < n
        invariant
            i <= n,
            forall|i2: int, k: IndexPart| 0 <= i2 < i ==> #[trigger] has_part(parts@, i2, k),
        decreases n - i,
    {
        if !find_part(parts, i, IndexPart::Offsets) {
            return false;
        }
        if !find_part(parts, i, IndexPart::NumBytes) {
            return false;
        }
        assert forall|i2: int, k: IndexPart| 0 <= i2 < i + 1 implies #[trigger] has_part(parts@, i2, k) by {
            if i2 == i {
                match k {
                    IndexPart::Offsets => {},
                    IndexPart::NumBytes => {},
                }
            }
        }
        i = i + 1;
    }
    true
}

/// Reading the table `k` of level `i` failed.
pub open spec fn part_failed(parts: Seq<LoadedPart>, i: int, k: IndexPart) -> bool {
    exists|j: int| 0 <= j < parts.len() && #[trigger] part_key(parts[j], i, k) && parts[j].map is None
}

/// The table `k` of level `i` was read, and holds `m`.
pub open spec fn part_loaded(parts: Seq<LoadedPart>, i: int, k: IndexPart, m: Memory) -> bool {
    exists|j: int| 0 <= j < parts.len() && #[trigger] part_key(parts[j], i, k) && parts[j].map == Some(m)
}

/// Some table that comes before table `k` of level `i` failed; tables are
/// taken level by level, offsets before byte counts.
pub open spec fn failed_before(parts: Seq<LoadedPart>, i: int, k: IndexPart) -> bool {
    ||| exists|i2: int, k2: IndexPart| 0 <= i2 < i && #[trigger] part_failed(parts, i2, k2)
    ||| (k == IndexPart::NumBytes && part_failed(parts, i, IndexPart::Offsets))
}

/// What a slot holds after the tables `parts[from..]` have been sorted into
/// the slots of their kind `k`: the map of the one table of level `i`, or
/// nothing if it is not among them.
spec fn slot_holds(parts: Seq<LoadedPart>, from: int, i: int, k: IndexPart, s: Option<Option<Memory>>) -> bool {
    match s {
        Some(m) => exists|j: int| from <= j < parts.len() && #[trigger] part_key(parts[j], i, k) && parts[j].map == m,
        None => forall|j: int| from <= j < parts.len() ==> !#[trigger] part_key(parts[j], i, k),
    }
}

/// The tile indices of the levels described by `layers`, built from the
/// tables read for them, or the first table (level by level, offsets first)
/// that could not be read.
pub fn assemble_indices(kind: MapKind, layers: &[GeoTiffOverviewInfo], parts: Vec<LoadedPart>)
    -> (r: Result<Vec<GeoTiffMapIndex>, (usize, IndexPart)>)
    requires
        layers@.len() <= 256,
        parts_complete(parts@, layers@.len() as int),
    ensures
        match r {
            Ok(v) => {
                &&& v@.len() == layers@.len()
                &&& forall|i: int, k: IndexPart| 0 <= i < layers@.len() ==> !#[trigger] part_failed(parts@, i, k)
                &&& forall|i: int| 0 <= i < layers@.len() ==> {
                    let x = #[trigger] v@[i];
                    &&& x.kind == kind
                    &&& x.level.spec_level() == i
                    &&& x.offsets_type == layers@[i].tile_offsets_type
                    &&& x.nbytes_type == layers@[i].tile_nbytes_type
                    &&& part_loaded(parts@, i, IndexPart::Offsets, x.offsets)
                    &&& part_loaded(parts@, i, IndexPart::NumBytes, x.nbytes)
                }
            },
            Err((i, k)) => {
                &&& i < layers@.len()
                &&& part_failed(parts@, i as int, k)
                &&& !failed_before(parts@, i as int, k)
            },
        },
{
    let n = layers.len();
    let ghost orig = parts@;
    let mut offs: Vec<Option<Option<Memory>>> = Vec::new();
    let mut nbs: Vec<Option<Option<Memory>>> = Vec::new();
    let mut c: usize = 0;
    while c < n
        invariant
            c <= n,
            n == layers@.len(),
            offs@.len() == c,
            nbs@.len() == c,
            forall|i: int| 0 <= i < c ==> (#[trigger] offs@[i]) is None,
            forall|i: int| 0 <= i < c ==> (#[trigger] nbs@[i]) is None,
        decreases n - c,
    {
        offs.push(None);
        nbs.push(None);
        c = c + 1;
    }
    let mut pending = parts;
    while pending.len() > 0
        invariant
            n == layers@.len(),
            parts_complete(orig, n as int),
            orig == parts@,
            pending@.len() <= orig.len(),
            pending@ =~= orig.take(pending@.len() as int),
            offs@.len() == n,
            nbs@.len() == n,
            forall|i: int| 0 <= i < n ==> slot_holds(orig, pending@.len() as int, i, IndexPart::Offsets, #[trigger] offs@[i]),
            forall|i: int| 0 <= i < n ==> slot_holds(orig, pending@.len() as int, i, IndexPart::NumBytes, #[trigger] nbs@[i]),
        decreases pending@.len(),
    {
        let ghost from = pending@.len() as int - 1;
        let p = match pending.pop() {
            Some(p) => p,
            None => { return Err((0, IndexPart::Offsets)); },
        };
        assert(orig[from] == p);
        assert(p.layer < n);
        let ghost old_offs = offs@;
        let ghost old_nbs = nbs@;
        let layer = p.layer;
        let mut slot = Some(p.map);
        match p.part {
            IndexPart::Offsets => { offs.set_and_swap(layer, &mut slot); },
            IndexPart::NumBytes => { nbs.set_and_swap(layer, &mut slot); },
        }
        proof {
            assert(part_key(orig[from], layer as int, p.part));
            assert forall|i: int| 0 <= i < n implies slot_holds(orig, from, i, IndexPart::Offsets, #[trigger] offs@[i]) by {
                if i == layer && p.part == IndexPart::Offsets {
                } else {
                    assert(offs@[i] == old_offs[i]);
                    match offs@[i] {
                        Some(m) => {
                            let j = choose|j: int| from + 1 <= j < orig.len() && #[trigger] part_key(orig[j], i, IndexPart::Offsets) && orig[j].map == m;
                            assert(from <= j);
                        },
                        None => {
                            assert forall|j: int| from <= j < orig.len() implies !#[trigger] part_key(orig[j], i, IndexPart::Offsets) by {
                                if j == from {
                                } else {
                                    assert(!part_key(orig[j], i, IndexPart::Offsets));
                                }
                            }
                        },
                    }
                }
            }
            assert forall|i: int| 0 <= i < n implies slot_holds(orig, from, i, IndexPart::NumBytes, #[trigger] nbs@[i]) by {
                if i == layer && p.part == IndexPart::NumBytes {
                } else {
                    assert(nbs@[i] == old_nbs[i]);
                    match nbs@[i] {
                        Some(m) => {
                            let j = choose|j: int| from + 1 <= j < orig.len() && #[trigger] part_key(orig[j], i, IndexPart::NumBytes) && orig[j].map == m;
                            assert(from <= j);
                        },
                        None => {
                            assert forall|j: int| from <= j < orig.len() implies !#[trigger] part_key(orig[j], i, IndexPart::NumBytes) by {
                                if j == from {
                                } else {
                                    assert(!part_key(orig[j], i, IndexPart::NumBytes));
                                }
                            }
                        },
                    }
                }
            }
        }
    }
    let mut out: Vec<GeoTiffMapIndex> = Vec::new();
    let mut i: usize = 0;
    while i < n
        invariant
            i <= n,
            n == layers@.len(),
            n <= 256,
            parts_complete(orig, n as int),
            orig == parts@,
            offs@.len() == n,
            nbs@.len() == n,
            forall|i2: int| i <= i2 < n ==> slot_holds(orig, 0, i2, IndexPart::Offsets, #[trigger] offs@[i2]),
            forall|i2: int| i <= i2 < n ==> slot_holds(orig, 0, i2, IndexPart::NumBytes, #[trigger] nbs@[i2]),
            out@.len() == i,
            forall|i2: int, k: IndexPart| 0 <= i2 < i ==> !#[trigger] part_failed(orig, i2, k),
            forall|i2: int| 0 <= i2 < i ==> {
                let x = #[trigger] out@[i2];
                &&& x.kind == kind
                &&& x.level.spec_level() == i2
                &&& x.offsets_type == layers@[i2].tile_offsets_type
                &&& x.nbytes_type == layers@[i2].tile_nbytes_type
                &&& part_loaded(orig, i2, IndexPart::Offsets, x.offsets)
                &&& part_loaded(orig, i2, IndexPart::NumBytes, x.nbytes)
            },
        decreases n - i,
    {
        let ghost old_offs = offs@;
        let ghost old_nbs = nbs@;
        let mut o: Option<Option<Memory>> = None;
        offs.set_and_swap(i, &mut o);
        let mut b: Option<Option<Memory>> = None;
        nbs.set_and_swap(i, &mut b);
        assert(slot_holds(orig, 0, i as int, IndexPart::Offsets, old_offs[i as int]));
        assert(slot_holds(orig, 0, i as int, IndexPart::NumBytes, old_nbs[i as int]));
        assert(has_part(orig, i as int, IndexPart::Offsets));
        assert(has_part(orig, i as int, IndexPart::NumBytes));
        assert(!failed_before(orig, i as int, IndexPart::Offsets));
        let om = match o {
            Some(Some(m)) => m,
            Some(None) => {
                proof {
                    let j = choose|j: int| 0 <= j < orig.len() && #[trigger] part_key(orig[j], i as int, IndexPart::Offsets) && orig[j].map == None::<Memory>;
                    assert(part_key(orig[j], i as int, IndexPart::Offsets) && orig[j].map is None);
                    assert(part_failed(orig, i as int, IndexPart::Offsets));
                }
                return Err((i, IndexPart::Offsets));
            },
            None => {
                return Err((i, IndexPart::Offsets));
            },
        };
        let ghost jo = choose|j: int| 0 <= j < orig.len() && #[trigger] part_key(orig[j], i as int, IndexPart::Offsets) && orig[j].map == Some(om);
        assert(!part_failed(orig, i as int, IndexPart::Offsets)) by {
            assert forall|j: int| 0 <= j < orig.len() && #[trigger] part_key(orig[j], i as int, IndexPart::Offsets) implies orig[j].map is Some by {
                if j != jo {
                    assert(!part_key(orig[j], orig[jo].layer as int, orig[jo].part));
                }
            }
        }
        assert(!failed_before(orig, i as int, IndexPart::NumBytes));
        let bm = match b {
            Some(Some(m)) => m,
            Some(None) => {
                proof {
                    let j = choose|j: int| 0 <= j < orig.len() && #[trigger] part_key(orig[j], i as int, IndexPart::NumBytes) && orig[j].map == None::<Memory>;
                    assert(part_key(orig[j], i as int, IndexPart::NumBytes) && orig[j].map is None);
                    assert(part_failed(orig, i as int, IndexPart::NumBytes));
                }
                return Err((i, IndexPart::NumBytes));
            },
            None => {
                return Err((i, IndexPart::NumBytes));
            },
        };
        let ghost jb = choose|j: int| 0 <= j < orig.len() && #[trigger] part_key(orig[j], i as int, IndexPart::NumBytes) && orig[j].map == Some(bm);
        assert(!part_failed(orig, i as int, IndexPart::NumBytes)) by {
            assert forall|j: int| 0 <= j < orig.len() && #[trigger] part_key(orig[j], i as int, IndexPart::NumBytes) implies orig[j].map is Some by {
                if j != jb {
                    assert(!part_key(orig[j], orig[jb].layer as int, orig[jb].part));
                }
            }
        }
        let index = GeoTiffMapIndex {
            kind,
            level: OverviewLevel::new(i),
            offsets: om,
            offsets_type: layers[i].tile_offsets_type,
            nbytes: bm,
            nbytes_type: layers[i].tile_nbytes_type,
        };
        out.push(index);
        proof {
            assert forall|i2: int, k: IndexPart| 0 <= i2 < i + 1 implies !#[trigger] part_failed(orig, i2, k) by {
                if i2 == i {
                    match k {
                        IndexPart::Offsets => {},
                        IndexPart::NumBytes => {},
                    }
                }
            }
            assert forall|i2: int| i + 1 <= i2 < n implies slot_holds(orig, 0, i2, IndexPart::Offsets, #[trigger] offs@[i2]) by {
                assert(offs@[i2] == old_offs[i2]);
            }
            assert forall|i2: int| i + 1 <= i2 < n implies slot_holds(orig, 0, i2, IndexPart::NumBytes, #[trigger] nbs@[i2]) by {
                assert(nbs@[i2] == old_nbs[i2]);
            }
        }
        i = i + 1;
    }
    Ok(out)
}

} // verus!
