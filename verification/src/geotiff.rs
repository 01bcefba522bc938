//! The tiled layout of an overview level: the start-up state of a data set,
//! the tiles that cover a range of the tile grid, the grid of samples taken
//! over an area and its triangulation, and the pixel layout of loaded color
//! tiles.
use vstd::prelude::*;
use crate::levels::OverviewLevel;
use crate::names::{MapKind, MapName, MapRef};
use crate::tiles::{tile_names, TileList};

verus! {

/// Start-up state of a data set. All tile layer extents must be downloaded
/// before heights can be served; that happens in the background.
#[derive(Clone, Copy, Debug, PartialEq, Eq, Structural)]
pub enum LoadState {
    /// Loading geotiff info has not yet begun.
    Starting,
    /// Progress is being made: (done, total) bytes.
    Preparing(usize, usize),
    /// Start-up finished; one more check moves to `Complete`.
    Finished,
    /// Running normally.
    Complete,
}

/// A report from the background start-up.
#[derive(Clone, Copy, Debug, PartialEq, Eq, Structural)]
pub enum StartupEvent {
    /// (done, total) bytes downloaded.
    Status(usize, usize),
    /// Start-up failed; the data set will serve nothing.
    Failed,
    /// Start-up delivered the overview layers.
    Finished,
}

/// The state after one report.
pub open spec fn after_event(state: LoadState, e: StartupEvent) -> LoadState {
    match e {
        StartupEvent::Status(n, d) => LoadState::Preparing(n, d),
        StartupEvent::Failed => LoadState::Finished,
        StartupEvent::Finished => LoadState::Finished,
    }
}

/// The state after a check that sees `events` in order: a finished start-up
/// becomes complete first, then each report applies.
pub open spec fn after_check(state: LoadState, events: Seq<StartupEvent>) -> LoadState
    decreases events.len(),
{
    if events.len() == 0 {
        if state == LoadState::Finished { LoadState::Complete } else { state }
    } else {
        after_event(after_check(state, events.drop_last()), events.last())
    }
}

/// One start-up check: moves `Finished` to `Complete`, then applies each
/// report in turn.
pub fn check_downloads(state: LoadState, events: &[StartupEvent]) -> (r: LoadState)
    ensures
        r == after_check(state, events@),
{
    let mut s = if state == LoadState::Finished { LoadState::Complete } else { state };
    let mut i: usize = 0;
    while i < events.len()
        invariant
            i <= events@.len(),
            s == after_check(state, events@.take(i as int)),
        decreases events@.len() - i,
    {
        proof {
            assert(events@.take(i as int + 1).drop_last() =~= events@.take(i as int));
        }
        s = match events[i] {
            StartupEvent::Status(n, d) => LoadState::Preparing(n, d),
            StartupEvent::Failed => LoadState::Finished,
            StartupEvent::Finished => LoadState::Finished,
        };
        i = i + 1;
    }
    assert(events@.take(events@.len() as int) =~= events@);
    s
}

/// Whether the data set can serve: its start-up has finished.
pub fn is_ready(state: LoadState) -> (r: bool)
    ensures
        r == (state == LoadState::Finished || state == LoadState::Complete),
{
    match state {
        LoadState::Finished | LoadState::Complete => true,
        _ => false,
    }
}

/// A finished start-up is complete after the next check that brings no
/// reports, and stays complete through checks without reports.
pub proof fn finished_becomes_complete(state: LoadState)
    requires
        state == LoadState::Finished || state == LoadState::Complete,
    ensures
        after_check(state, Seq::empty()) == LoadState::Complete,
        after_check(LoadState::Complete, Seq::empty()) == LoadState::Complete,
{
}

/// The tile grid of one overview level.
#[derive(Clone, Copy, Debug)]
pub struct OverviewGrid {
    pub kind: MapKind,
    pub level: OverviewLevel,
    pub tile_stride: u32,
    pub tile_rows: u32,
    pub tile_count: u32,
}

/// Number of integers in `lo..=hi`.
pub open spec fn span(lo: int, hi: int) -> int {
    if hi >= lo { hi - lo + 1 } else { 0 }
}

impl OverviewGrid {
    /// The tiles in columns `min.x()..=max.x()` and rows `max.y()..=min.y()`
    /// (rows count top to bottom, so the south-west tile `min` has the
    /// larger row), column by column, each column from top to bottom.
    pub fn find_tiles_in_range(&self, min: &MapRef, max: &MapRef) -> (r: TileList)
        requires
            0 < self.tile_stride < 65_536,
            min.spec_stride() == self.tile_stride,
            max.spec_stride() == self.tile_stride,
            ({
                let s = self.tile_stride as int;
                let x0 = (min.spec_offset() as int) % s;
                let x1 = (max.spec_offset() as int) % s;
                let y0 = (max.spec_offset() as int) / s;
                let y1 = (min.spec_offset() as int) / s;
                (x0 <= x1 && y0 <= y1) ==> y1 * s + x1 < self.tile_count
            }),
        ensures
            ({
                let s = self.tile_stride as int;
                let x0 = (min.spec_offset() as int) % s;
                let x1 = (max.spec_offset() as int) % s;
                let y0 = (max.spec_offset() as int) / s;
                let y1 = (min.spec_offset() as int) / s;
                let ny = span(y0, y1);
                &&& tile_names(r).len() == span(x0, x1) * ny
                &&& forall|i: int, j: int| 0 <= i < span(x0, x1) && 0 <= j < ny ==> {
                    let n = #[trigger] tile_names(r)[i * ny + j];
                    &&& n.spec_kind() == self.kind
                    &&& n.spec_level() == self.level
                    &&& n.spec_position().spec_stride() == self.tile_stride
                    &&& n.spec_position().spec_offset() == (y0 + j) * s + (x0 + i)
                }
            }),
    {
        let ghost s = self.tile_stride as int;
        let x0 = min.x();
        let x1 = max.x();
        let y0 = max.y();
        let y1 = min.y();
        let ghost ny = span(y0 as int, y1 as int);
        let mut out = TileList::new();
        if x0 > x1 || y0 > y1 {
            assert(span(x0 as int, x1 as int) * span(y0 as int, y1 as int) == 0) by (nonlinear_arith)
                requires span(x0 as int, x1 as int) == 0 || span(y0 as int, y1 as int) == 0;
            return out;
        }
        let mut x: u64 = x0 as u64;
        while x <= x1 as u64
            invariant
                x0 <= x <= x1 + 1,
                y0 <= y1,
                x1 < s,
                s == self.tile_stride,
                0 < self.tile_stride < 65_536,
                ny == y1 - y0 + 1,
                y1 * s + x1 < self.tile_count,
                tile_names(out).len() == (x - x0) * ny,
                forall|i: int, j: int| 0 <= i < x - x0 && 0 <= j < ny ==> {
                    let n = #[trigger] tile_names(out)[i * ny + j];
                    &&& n.spec_kind() == self.kind
                    &&& n.spec_level() == self.level
                    &&& n.spec_position().spec_stride() == self.tile_stride
                    &&& n.spec_position().spec_offset() == (y0 + j) * s + (x0 + i)
                },
            decreases x1 + 1 - x,
        {
            let ghost start = tile_names(out).len() as int;
            let mut y: u64 = y0 as u64;
            while y <= y1 as u64
                invariant
                    x0 <= x <= x1,
                    y0 <= y <= y1 + 1,
                    x1 < s,
                    s == self.tile_stride,
                    0 < self.tile_stride < 65_536,
                    ny == y1 - y0 + 1,
                    y1 * s + x1 < self.tile_count,
                    start == (x - x0) * ny,
                    tile_names(out).len() == start + (y - y0),
                    forall|i: int, j: int| 0 <= i < x - x0 && 0 <= j < ny ==> {
                        let n = #[trigger] tile_names(out)[i * ny + j];
                        &&& n.spec_kind() == self.kind
                        &&& n.spec_level() == self.level
                        &&& n.spec_position().spec_stride() == self.tile_stride
                        &&& n.spec_position().spec_offset() == (y0 + j) * s + (x0 + i)
                    },
                    forall|j: int| 0 <= j < y - y0 ==> {
                        let n = #[trigger] tile_names(out)[start + j];
                        &&& n.spec_kind() == self.kind
                        &&& n.spec_level() == self.level
                        &&& n.spec_position().spec_stride() == self.tile_stride
                        &&& n.spec_position().spec_offset() == (y0 + j) * s + x
                    },
                decreases y1 + 1 - y,
            {
                assert(y * s + x <= y1 * s + x1) by (nonlinear_arith)
                    requires y <= y1, x <= x1, s > 0;
                let position = MapRef::new(x as u32, y as u32, self.tile_stride);
                let ghost before = tile_names(out);
                out.push(MapName::new(self.kind, self.level, position));
                proof {
                    assert forall|i: int, j: int| 0 <= i < x - x0 && 0 <= j < ny implies #[trigger] tile_names(out)[i * ny + j] == before[i * ny + j] by {
                        assert(i * ny + j < (x - x0) * ny) by (nonlinear_arith)
                            requires i < x - x0, j < ny, 0 <= j, 0 <= i;
                    }
                    assert forall|j: int| 0 <= j < y + 1 - y0 implies {
                        let n = #[trigger] tile_names(out)[start + j];
                        &&& n.spec_kind() == self.kind
                        &&& n.spec_level() == self.level
                        &&& n.spec_position().spec_stride() == self.tile_stride
                        &&& n.spec_position().spec_offset() == (y0 + j) * s + x
                    } by {
                        if j < y - y0 {
                            assert(tile_names(out)[start + j] == before[start + j]);
                        }
                    }
                }
                y = y + 1;
            }
            proof {
                assert forall|i: int, j: int| 0 <= i < x + 1 - x0 && 0 <= j < ny implies {
                    let n = #[trigger] tile_names(out)[i * ny + j];
                    &&& n.spec_kind() == self.kind
                    &&& n.spec_level() == self.level
                    &&& n.spec_position().spec_stride() == self.tile_stride
                    &&& n.spec_position().spec_offset() == (y0 + j) * s + (x0 + i)
                } by {
                    if i == x - x0 {
                        assert(i * ny + j == start + j) by (nonlinear_arith)
                            requires i == x - x0, start == (x - x0) * ny;
                    }
                }
                assert(tile_names(out).len() == (x + 1 - x0) * ny) by (nonlinear_arith)
                    requires tile_names(out).len() == start + ny, start == (x - x0) * ny;
            }
            x = x + 1;
        }
        out
    }
}

/// A grid of samples taken over an area: `width + 1` samples from west to
/// east in each of `height + 1` rows from south to north.
#[derive(Debug)]
pub struct SampleGrid<S> {
    samples: Vec<S>,
    level: OverviewLevel,
    width: u32,
    height: u32,
}

impl<S> SampleGrid<S> {
    pub closed spec fn spec_samples(self) -> Seq<S> {
        self.samples@
    }

    pub closed spec fn spec_width(self) -> u32 {
        self.width
    }

    pub closed spec fn spec_height(self) -> u32 {
        self.height
    }

    pub closed spec fn spec_level(self) -> OverviewLevel {
        self.level
    }

    /// The grid holds `(width + 1) * (height + 1)` samples.
    pub closed spec fn wf(self) -> bool {
        self.samples@.len() == (self.width + 1) * (self.height + 1)
    }

    /// A grid over `width` by `height` sample areas; it holds one more
    /// sample than areas in each direction.
    pub fn new(samples: Vec<S>, level: OverviewLevel, width: u32, height: u32) -> (r: Self)
        requires
            samples@.len() == (width + 1) * (height + 1),
        ensures
            r.wf(),
            r.spec_samples() == samples@,
            r.spec_level() == level,
            r.spec_width() == width,
            r.spec_height() == height,
    {
        SampleGrid { samples, level, width, height }
    }

    /// The sample in column `x` and row `y`.
    pub fn sample(&self, x: usize, y: usize) -> (r: &S)
        requires
            self.wf(),
            y * (self.spec_width() + 1) + x < self.spec_samples().len(),
        ensures
            *r == self.spec_samples()[y * (self.spec_width() + 1) + x],
    {
        let n = self.samples.len();
        assert(self.width + 1 <= n) by (nonlinear_arith)
            requires n == (self.width + 1) * (self.height + 1);
        let s = self.width as usize + 1;
        assert(y * s <= y * s + x);
        &self.samples[y * s + x]
    }

    pub fn samples(&self) -> (r: &[S])
        ensures
            r@ == self.spec_samples(),
    {
        self.samples.as_slice()
    }

    /// Replaces sample `i`.
    pub fn set_sample(&mut self, i: usize, sample: S)
        requires
            i < old(self).spec_samples().len(),
        ensures
            old(self).wf() ==> final(self).wf(),
            final(self).spec_samples() == old(self).spec_samples().update(i as int, sample),
            final(self).spec_width() == old(self).spec_width(),
            final(self).spec_height() == old(self).spec_height(),
            final(self).spec_level() == old(self).spec_level(),
    {
        self.samples.set(i, sample);
    }

    pub fn width(&self) -> (r: u32)
        ensures
            r == self.spec_width(),
    {
        self.width
    }

    pub fn height(&self) -> (r: u32)
        ensures
            r == self.spec_height(),
    {
        self.height
    }

    pub fn level(&self) -> (r: OverviewLevel)
        ensures
            r == self.spec_level(),
    {
        self.level
    }

    /// Takes the samples out of the grid.
    pub fn into_samples(self) -> (r: Vec<S>)
        ensures
            r@ == self.spec_samples(),
    {
        self.samples
    }
}

/// Index in the sample list of the sample at column `x`, row `y` of a grid
/// `stride` samples wide.
pub open spec fn grid_index(stride: int, x: int, y: int) -> int {
    y * stride + x
}

/// Index of the first of the two triangles of cell (`x`, `y`) of a grid
/// `w` cells wide.
pub open spec fn tri_index(w: int, x: int, y: int) -> int {
    2 * (y * w + x)
}

/// Number of edges of the triangulation of a `w` by `h` grid: three per
/// cell, plus the east edge of the last column and the north edge of the
/// last row.
pub open spec fn mesh_edge_count(w: int, h: int) -> int {
    if w == 0 || h == 0 { 0 } else { 3 * w * h + h + w }
}

/// The edges contributed by cell (`x`, `y`) of a `w` by `h` grid: its south,
/// west and diagonal edges, its east edge in the last column and its north
/// edge in the last row.
pub open spec fn cell_edges(w: int, h: int, x: int, y: int) -> Seq<[usize; 2]> {
    let s = w + 1;
    let sw = grid_index(s, x, y) as usize;
    let se = grid_index(s, x + 1, y) as usize;
    let nw = grid_index(s, x, y + 1) as usize;
    let ne = grid_index(s, x + 1, y + 1) as usize;
    seq![[sw, se], [sw, nw], [sw, ne]]
        + (if x == w - 1 { seq![[se, ne]] } else { Seq::empty() })
        + (if y == h - 1 { seq![[nw, ne]] } else { Seq::empty() })
}

/// The edges of the first `c` cells of a `w` by `h` grid, in row order.
pub open spec fn mesh_edges(w: int, h: int, c: nat) -> Seq<[usize; 2]>
    decreases c,
{
    if c == 0 || w <= 0 {
        Seq::empty()
    } else {
        mesh_edges(w, h, (c - 1) as nat) + cell_edges(w, h, (c - 1) % w, (c - 1) / w)
    }
}

/// The triangles and edges of a `width` by `height` grid of sample areas,
/// as indices into the row-major list of its `(width + 1) * (height + 1)`
/// samples. Each cell gives the triangles (sw, se, ne) and (sw, ne, nw), in
/// row order; every edge of the cells appears once.
pub fn mesh_topology(width: u32, height: u32) -> (r: (Vec<[usize; 3]>, Vec<[usize; 2]>))
    requires
        (width as int + 1) * (height as int + 1) <= usize::MAX,
    ensures
        r.0@.len() == 2 * width * height,
        r.1@ == mesh_edges(width as int, height as int, (width * height) as nat),
        r.1@.len() == mesh_edge_count(width as int, height as int),
        forall|y: int, x: int| #![trigger r.0@[tri_index(width as int, x, y)]] 0 <= y < height && 0 <= x < width ==> {
            let c = tri_index(width as int, x, y);
            &&& r.0@[c] == cell_triangle(width as int, x, y, false)
            &&& r.0@[c + 1] == cell_triangle(width as int, x, y, true)
        },
        forall|k: int| 0 <= k < r.0@.len() ==> #[trigger] r.0@[k][0] < (width + 1) * (height + 1)
            && r.0@[k][1] < (width + 1) * (height + 1) && r.0@[k][2] < (width + 1) * (height + 1),
        forall|k: int| 0 <= k < r.1@.len() ==> #[trigger] r.1@[k][0] < (width + 1) * (height + 1)
            && r.1@[k][1] < (width + 1) * (height + 1),
{
    let ghost n = (width as int + 1) * (height as int + 1);
    assert(width + 1 <= n) by (nonlinear_arith)
        requires n == (width as int + 1) * (height as int + 1);
    let stride: usize = width as usize + 1;
    let mut tris: Vec<[usize; 3]> = Vec::new();
    let mut y: u32 = 0;
    while y < height
        invariant
            y <= height,
            stride == width + 1,
            n == (width as int + 1) * (height as int + 1),
            n <= usize::MAX,
            tris@.len() == 2 * width * y,
            forall|yy: int, x: int| #![trigger tris@[tri_index(width as int, x, yy)]] 0 <= yy < y && 0 <= x < width ==> {
                let c = tri_index(width as int, x, yy);
                &&& tris@[c] == [grid_index(stride as int, x, yy) as usize, grid_index(stride as int, x + 1, yy) as usize, grid_index(stride as int, x + 1, yy + 1) as usize]
                &&& tris@[c + 1] == [grid_index(stride as int, x, yy) as usize, grid_index(stride as int, x + 1, yy + 1) as usize, grid_index(stride as int, x, yy + 1) as usize]
            },
            forall|k: int| 0 <= k < tris@.len() ==> #[trigger] tris@[k][0] < n && tris@[k][1] < n && tris@[k][2] < n,
        decreases height - y,
    {
        let mut x: u32 = 0;
        while x < width
            invariant
                y < height,
                x <= width,
                stride == width + 1,
                n == (width as int + 1) * (height as int + 1),
                n <= usize::MAX,
                tris@.len() == 2 * width * y + 2 * x,
                forall|yy: int, xx: int| #![trigger tris@[tri_index(width as int, xx, yy)]] (0 <= yy < y && 0 <= xx < width) || (yy == y && 0 <= xx < x) ==> {
                    let c = tri_index(width as int, xx, yy);
                    &&& tris@[c] == [grid_index(stride as int, xx, yy) as usize, grid_index(stride as int, xx + 1, yy) as usize, grid_index(stride as int, xx + 1, yy + 1) as usize]
                    &&& tris@[c + 1] == [grid_index(stride as int, xx, yy) as usize, grid_index(stride as int, xx + 1, yy + 1) as usize, grid_index(stride as int, xx, yy + 1) as usize]
                },
                forall|k: int| 0 <= k < tris@.len() ==> #[trigger] tris@[k][0] < n && tris@[k][1] < n && tris@[k][2] < n,
            decreases width - x,
        {
            assert((y as int + 1) * stride + x + 1 < n) by (nonlinear_arith)
                requires
                    y < height,
                    x < width,
                    stride == width + 1,
                    n == (width as int + 1) * (height as int + 1),
            ;
            assert(y * stride + stride == (y as int + 1) * stride) by (nonlinear_arith);
            assert(y * stride <= (y as int + 1) * stride) by (nonlinear_arith)
                requires stride > 0;
            let row = y as usize * stride;
            let sw = row + x as usize;
            let se = sw + 1;
            let nw = row + stride + x as usize;
            let ne = nw + 1;
            let ghost before = tris@;
            tris.push([sw, se, ne]);
            tris.push([sw, ne, nw]);
            proof {
                assert forall|yy: int, xx: int| #![trigger tris@[tri_index(width as int, xx, yy)]] (0 <= yy < y && 0 <= xx < width) || (yy == y && 0 <= xx < x + 1) implies {
                    let c = tri_index(width as int, xx, yy);
                    &&& tris@[c] == [grid_index(stride as int, xx, yy) as usize, grid_index(stride as int, xx + 1, yy) as usize, grid_index(stride as int, xx + 1, yy + 1) as usize]
                    &&& tris@[c + 1] == [grid_index(stride as int, xx, yy) as usize, grid_index(stride as int, xx + 1, yy + 1) as usize, grid_index(stride as int, xx, yy + 1) as usize]
                } by {
                    let c = tri_index(width as int, xx, yy);
                    if yy == y && xx == x {
                        assert(c == 2 * width * y + 2 * x) by (nonlinear_arith)
                            requires c == tri_index(width as int, xx, yy), yy == y, xx == x;
                        assert(tris@[c] == [sw, se, ne]);
                        assert(tris@[c + 1] == [sw, ne, nw]);
                        assert(sw == grid_index(stride as int, xx, yy) as usize);
                        assert(se == grid_index(stride as int, xx + 1, yy) as usize);
                        assert(ne == grid_index(stride as int, xx + 1, yy + 1) as usize);
                        assert(nw == grid_index(stride as int, xx, yy + 1) as usize);
                    } else {
                        assert(c + 1 < 2 * width * y + 2 * x) by (nonlinear_arith)
                            requires
                                c == 2 * (yy * width + xx),
                                (0 <= yy < y && 0 <= xx < width) || (yy == y && 0 <= xx < x),
                        ;
                        assert(tris@[c] == before[c] && tris@[c + 1] == before[c + 1]);
                    }
                }
            }
            assert(sw < n && se < n && nw < n && ne < n);
            assert forall|k: int| 0 <= k < tris@.len() implies #[trigger] tris@[k][0] < n && tris@[k][1] < n && tris@[k][2] < n by {
                if k < before.len() {
                    assert(tris@[k] == before[k]);
                }
            }
            x = x + 1;
        }
        assert(2 * width * y + 2 * width == 2 * width * (y + 1)) by (nonlinear_arith);
        y = y + 1;
    }
    proof {
        if width > 0 && height > 0 {
            assert(3 * width * height + height + width == mesh_edge_count(width as int, height as int));
        }
    }
    let edges = grid_edges(width, height);
    (tris, edges)
}

fn push_cell_edges(edges: &mut Vec<[usize; 2]>, sw: usize, se: usize, nw: usize, ne: usize, east: bool, north: bool)
    ensures
        final(edges)@ == old(edges)@ + (seq![[sw, se], [sw, nw], [sw, ne]]
            + (if east { seq![[se, ne]] } else { Seq::empty() })
            + (if north { seq![[nw, ne]] } else { Seq::empty() })),
{
    let ghost e0 = edges@;
    edges.push([sw, se]);
    edges.push([sw, nw]);
    edges.push([sw, ne]);
    if east {
        edges.push([se, ne]);
    }
    if north {
        edges.push([nw, ne]);
    }
    assert(edges@ =~= e0 + (seq![[sw, se], [sw, nw], [sw, ne]]
        + (if east { seq![[se, ne]] } else { Seq::empty() })
        + (if north { seq![[nw, ne]] } else { Seq::empty() })));
}

proof fn lemma_mesh_edges_bounded(w: int, h: int, c: nat)
    requires
        w > 0,
        h >= 0,
        c <= w * h,
        (w + 1) * (h + 1) <= usize::MAX,
    ensures
        forall|k: int| 0 <= k < mesh_edges(w, h, c).len() ==> #[trigger] mesh_edges(w, h, c)[k][0] < (w + 1) * (h + 1)
            && mesh_edges(w, h, c)[k][1] < (w + 1) * (h + 1),
    decreases c,
{
    if c > 0 {
        lemma_mesh_edges_bounded(w, h, (c - 1) as nat);
        let i = c - 1;
        let x = i % w;
        let y = i / w;
        vstd::arithmetic::div_mod::lemma_fundamental_div_mod(i, w);
        assert(0 <= x < w);
        assert(0 <= y < h) by (nonlinear_arith)
            requires i == w * y + x, 0 <= x < w, 0 <= i < w * h, w > 0;
        let n = (w + 1) * (h + 1);
        assert((y + 1) * (w + 1) + x + 1 < n) by (nonlinear_arith)
            requires 0 <= y < h, 0 <= x < w, n == (w + 1) * (h + 1);
        assert(y * (w + 1) + x + 1 <= (y + 1) * (w + 1) + x + 1) by (nonlinear_arith)
            requires y >= 0, w >= 0;
        assert(0 <= y * (w + 1)) by (nonlinear_arith)
            requires y >= 0, w >= 0;
        let prev = mesh_edges(w, h, (c - 1) as nat);
        let cell = cell_edges(w, h, x, y);
        assert(mesh_edges(w, h, c) == prev + cell);
        assert forall|k: int| 0 <= k < cell.len() implies #[trigger] cell[k][0] < n && cell[k][1] < n by {}
        assert forall|k: int| 0 <= k < mesh_edges(w, h, c).len() implies #[trigger] mesh_edges(w, h, c)[k][0] < n
            && mesh_edges(w, h, c)[k][1] < n by {
            if k < prev.len() {
                assert(mesh_edges(w, h, c)[k] == prev[k]);
            } else {
                assert(mesh_edges(w, h, c)[k] == cell[k - prev.len()]);
            }
        }
    }
}

/// The edges of a `width` by `height` grid, cell by cell in row order, as
/// indices into its row-major list of samples.
pub fn grid_edges(width: u32, height: u32) -> (r: Vec<[usize; 2]>)
    requires
        (width as int + 1) * (height as int + 1) <= usize::MAX,
    ensures
        r@ == mesh_edges(width as int, height as int, (width * height) as nat),
        r@.len() == mesh_edge_count(width as int, height as int),
        forall|k: int| 0 <= k < r@.len() ==> #[trigger] r@[k][0] < (width + 1) * (height + 1)
            && r@[k][1] < (width + 1) * (height + 1),
{
    let ghost n = (width as int + 1) * (height as int + 1);
    assert(width + 1 <= n) by (nonlinear_arith)
        requires n == (width as int + 1) * (height as int + 1);
    let stride: usize = width as usize + 1;
    let mut edges: Vec<[usize; 2]> = Vec::new();
    let mut y: u32 = 0;
    while y < height
        invariant
            y <= height,
            stride == width + 1,
            n == (width as int + 1) * (height as int + 1),
            n <= usize::MAX,
            edges@ == mesh_edges(width as int, height as int, (y * width) as nat),
            edges@.len() == (if width == 0 { 0 } else { 3 * width * y + y })
                + (if y == height && height > 0 { width as int } else { 0 }),
        decreases height - y,
    {
        let mut x: u32 = 0;
        while x < width
            invariant
                y < height,
                x <= width,
                stride == width + 1,
                n == (width as int + 1) * (height as int + 1),
                n <= usize::MAX,
                edges@ == mesh_edges(width as int, height as int, (y * width + x) as nat),
                edges@.len() == (if width == 0 { 0 } else { 3 * width * y + y }) + 3 * x
                    + (if x == width && width > 0 { 1int } else { 0 })
                    + (if y == height - 1 { x as int } else { 0 }),
            decreases width - x,
        {
            assert((y as int + 1) * stride + x + 1 < n) by (nonlinear_arith)
                requires
                    y < height,
                    x < width,
                    stride == width + 1,
                    n == (width as int + 1) * (height as int + 1),
            ;
            assert(y * stride + stride == (y as int + 1) * stride) by (nonlinear_arith);
            assert(y * stride <= (y as int + 1) * stride) by (nonlinear_arith)
                requires stride > 0;
            let row = y as usize * stride;
            let sw = row + x as usize;
            let se = sw + 1;
            let nw = row + stride + x as usize;
            let ne = nw + 1;
            let ghost e0 = edges@;
            push_cell_edges(&mut edges, sw, se, nw, ne, x == width - 1, y == height - 1);
            proof {
                let c: int = y * width + x;
                assert(c >= 0) by (nonlinear_arith) requires y >= 0, width >= 0, x >= 0, c == y * width + x;
                vstd::arithmetic::div_mod::lemma_fundamental_div_mod_converse(c, width as int, y as int, x as int);
                assert(nw == grid_index(stride as int, x as int, y + 1)) by (nonlinear_arith)
                    requires nw == row + stride + x, row == y * stride;
                assert(cell_edges(width as int, height as int, x as int, y as int)
                    == seq![[sw, se], [sw, nw], [sw, ne]]
                        + (if x == width - 1 { seq![[se, ne]] } else { Seq::empty() })
                        + (if y == height - 1 { seq![[nw, ne]] } else { Seq::empty() }));
                assert(edges@ == e0 + cell_edges(width as int, height as int, x as int, y as int));
            }
            x = x + 1;
        }
        assert(3 * width * y + 3 * width == 3 * width * (y + 1)) by (nonlinear_arith);
        assert(y * width + width == (y + 1) * width) by (nonlinear_arith);
        y = y + 1;
    }
    proof {
        if width > 0 && height > 0 {
            assert(3 * width * height + height + width == mesh_edge_count(width as int, height as int));
        }
        assert(height * width == width * height) by (nonlinear_arith);
        if width > 0 {
            lemma_mesh_edges_bounded(width as int, height as int, (width * height) as nat);
        }
    }
    edges
}

/// Triangle `second` of cell (`x`, `y`) of a grid `w` cells wide, as sample
/// indices: (sw, se, ne) for the first, (sw, ne, nw) for the second.
pub open spec fn cell_triangle(w: int, x: int, y: int, second: bool) -> [usize; 3] {
    let s = w + 1;
    let sw = grid_index(s, x, y) as usize;
    let se = grid_index(s, x + 1, y) as usize;
    let nw = grid_index(s, x, y + 1) as usize;
    let ne = grid_index(s, x + 1, y + 1) as usize;
    if second { [sw, ne, nw] } else { [sw, se, ne] }
}

/// Whether `e` joins two corners of the triangle `t`, in either direction.
pub open spec fn is_side(t: [usize; 3], e: [usize; 2]) -> bool {
    ||| e[0] == t[0] && e[1] == t[1]
    ||| e[0] == t[1] && e[1] == t[0]
    ||| e[0] == t[1] && e[1] == t[2]
    ||| e[0] == t[2] && e[1] == t[1]
    ||| e[0] == t[0] && e[1] == t[2]
    ||| e[0] == t[2] && e[1] == t[0]
}

/// The cell that lists edge `e` of a `w` by `h` grid, by its index in row
/// order: a south, west or diagonal edge belongs to the cell at its first
/// corner, the north edge of the last row and the east edge of the last
/// column to the cell beside them.
spec fn edge_owner(w: int, h: int, e: [usize; 2]) -> int {
    let s = w + 1;
    let a = e[0] as int;
    let x = a % s;
    let y = a / s;
    let d = e[1] as int - a;
    if d == 1 {
        (if y >= h { h - 1 } else { y }) * w + x
    } else if d == s {
        y * w + (if x >= w { w - 1 } else { x })
    } else {
        y * w + x
    }
}

proof fn lemma_cell_edges_owned(w: int, h: int, x: int, y: int)
    requires
        0 <= x < w,
        0 <= y < h,
        (w + 1) * (h + 1) <= usize::MAX,
    ensures
        forall|k: int| 0 <= k < cell_edges(w, h, x, y).len() ==> {
            let e = #[trigger] cell_edges(w, h, x, y)[k];
            &&& edge_owner(w, h, e) == y * w + x
            &&& e[0] < e[1]
            &&& is_side(cell_triangle(w, x, y, false), e) || is_side(cell_triangle(w, x, y, true), e)
        },
        cell_edges(w, h, x, y).no_duplicates(),
        cell_edges(w, h, x, y)[0] == [grid_index(w + 1, x, y) as usize, grid_index(w + 1, x + 1, y) as usize],
        cell_edges(w, h, x, y)[1] == [grid_index(w + 1, x, y) as usize, grid_index(w + 1, x, y + 1) as usize],
        cell_edges(w, h, x, y)[2] == [grid_index(w + 1, x, y) as usize, grid_index(w + 1, x + 1, y + 1) as usize],
        x == w - 1 ==> cell_edges(w, h, x, y)[3] == [grid_index(w + 1, x + 1, y) as usize, grid_index(w + 1, x + 1, y + 1) as usize],
        y == h - 1 ==> cell_edges(w, h, x, y)[if x == w - 1 { 4int } else { 3int }]
            == [grid_index(w + 1, x, y + 1) as usize, grid_index(w + 1, x + 1, y + 1) as usize],
        y == h - 1 ==> cell_edges(w, h, x, y).len() == (if x == w - 1 { 5int } else { 4int }),
{
    let s = w + 1;
    let n = (w + 1) * (h + 1);
    let sw = y * s + x;
    assert((y + 1) * s + x + 1 < n) by (nonlinear_arith)
        requires 0 <= y < h, 0 <= x < w, n == (w + 1) * (h + 1), s == w + 1;
    assert(y * s + s == (y + 1) * s) by (nonlinear_arith);
    assert(0 <= y * s) by (nonlinear_arith) requires y >= 0, s >= 0;
    let se = sw + 1;
    let nw = sw + s;
    let ne = nw + 1;
    vstd::arithmetic::div_mod::lemma_fundamental_div_mod_converse(sw, s, y, x);
    vstd::arithmetic::div_mod::lemma_fundamental_div_mod_converse(se, s, y, x + 1);
    vstd::arithmetic::div_mod::lemma_fundamental_div_mod_converse(nw, s, y + 1, x);
    vstd::arithmetic::div_mod::lemma_fundamental_div_mod_converse(ne, s, y + 1, x + 1);
    let ce = cell_edges(w, h, x, y);
    assert(ce[0][0] == sw && ce[0][1] == se);
    assert(ce[1][0] == sw && ce[1][1] == nw);
    assert(ce[2][0] == sw && ce[2][1] == ne);
    if x == w - 1 {
        assert(ce[3][0] == se && ce[3][1] == ne);
    }
    if y == h - 1 {
        let j: int = if x == w - 1 { 4 } else { 3 };
        assert(ce[j][0] == nw && ce[j][1] == ne);
    }
    assert(cell_triangle(w, x, y, false)[0] == sw && cell_triangle(w, x, y, false)[1] == se && cell_triangle(w, x, y, false)[2] == ne);
    assert(cell_triangle(w, x, y, true)[0] == sw && cell_triangle(w, x, y, true)[1] == ne && cell_triangle(w, x, y, true)[2] == nw);
    assert forall|i: int, j: int| 0 <= i < ce.len() && 0 <= j < ce.len() && i != j implies ce[i] != ce[j] by {
        if ce[i] == ce[j] {
            assert(ce[i][0] == ce[j][0] && ce[i][1] == ce[j][1]);
        }
    }
}

proof fn lemma_mesh_edges_facts(w: int, h: int, c: nat)
    requires
        w > 0,
        h >= 0,
        c <= w * h,
        (w + 1) * (h + 1) <= usize::MAX,
    ensures
        forall|k: int| 0 <= k < mesh_edges(w, h, c).len() ==> {
            let e = #[trigger] mesh_edges(w, h, c)[k];
            let o = edge_owner(w, h, e);
            &&& 0 <= o < c
            &&& e[0] < e[1]
            &&& is_side(cell_triangle(w, o % w, o / w, false), e) || is_side(cell_triangle(w, o % w, o / w, true), e)
        },
        mesh_edges(w, h, c).no_duplicates(),
        forall|d: int, j: int| 0 <= d < c && 0 <= j < cell_edges(w, h, d % w, d / w).len()
            ==> mesh_edges(w, h, c).contains(#[trigger] cell_edges(w, h, d % w, d / w)[j]),
    decreases c,
{
    if c > 0 {
        lemma_mesh_edges_facts(w, h, (c - 1) as nat);
        let i = c - 1;
        let x = i % w;
        let y = i / w;
        vstd::arithmetic::div_mod::lemma_fundamental_div_mod(i, w);
        assert(0 <= x < w);
        assert(0 <= y < h) by (nonlinear_arith)
            requires i == w * y + x, 0 <= x < w, 0 <= i < w * h, w > 0;
        assert(y * w + x == i) by (nonlinear_arith) requires i == w * y + x;
        lemma_cell_edges_owned(w, h, x, y);
        let p = mesh_edges(w, h, (c - 1) as nat);
        let ce = cell_edges(w, h, x, y);
        let e = mesh_edges(w, h, c);
        assert(e == p + ce);
        assert forall|k: int| 0 <= k < e.len() implies {
            let v = #[trigger] e[k];
            let o = edge_owner(w, h, v);
            &&& 0 <= o < c
            &&& v[0] < v[1]
            &&& is_side(cell_triangle(w, o % w, o / w, false), v) || is_side(cell_triangle(w, o % w, o / w, true), v)
        } by {
            if k < p.len() {
                assert(e[k] == p[k]);
            } else {
                assert(e[k] == ce[k - p.len()]);
            }
        }
        assert forall|a: int, b: int| 0 <= a < e.len() && 0 <= b < e.len() && a != b implies e[a] != e[b] by {
            if a < p.len() && b < p.len() {
                assert(e[a] == p[a] && e[b] == p[b]);
            } else if a >= p.len() && b >= p.len() {
                assert(e[a] == ce[a - p.len()] && e[b] == ce[b - p.len()]);
            } else if a < p.len() {
                assert(e[a] == p[a] && e[b] == ce[b - p.len()]);
                assert(edge_owner(w, h, e[b]) == i);
                assert(edge_owner(w, h, e[a]) < i);
            } else {
                assert(e[b] == p[b] && e[a] == ce[a - p.len()]);
                assert(edge_owner(w, h, e[a]) == i);
                assert(edge_owner(w, h, e[b]) < i);
            }
        }
        assert forall|d: int, j: int| 0 <= d < c && 0 <= j < cell_edges(w, h, d % w, d / w).len()
            implies e.contains(#[trigger] cell_edges(w, h, d % w, d / w)[j]) by {
            let v = cell_edges(w, h, d % w, d / w)[j];
            if d < i {
                assert(p.contains(v));
                let q = choose|q: int| 0 <= q < p.len() && p[q] == v;
                assert(e[q] == v);
            } else {
                assert(e[p.len() + j] == v);
            }
        }
    }
}

proof fn lemma_side_is_edge(wi: int, hi: int, x: int, y: int, second: bool, v: [usize; 2])
    requires
        0 <= x < wi,
        0 <= y < hi,
        (wi + 1) * (hi + 1) <= usize::MAX,
        is_side(cell_triangle(wi, x, y, second), v),
        v[0] < v[1],
    ensures
        mesh_edges(wi, hi, (wi * hi) as nat).contains(v),
{
    lemma_mesh_edges_facts(wi, hi, (wi * hi) as nat);
    let d = y * wi + x;
    assert(0 <= d < wi * hi) by (nonlinear_arith)
        requires d == y * wi + x, 0 <= x < wi, 0 <= y < hi;
    vstd::arithmetic::div_mod::lemma_fundamental_div_mod_converse(d, wi, y, x);
    lemma_cell_edges_owned(wi, hi, x, y);
    let s = wi + 1;
    let sw = grid_index(s, x, y);
    assert(y * s + s == (y + 1) * s) by (nonlinear_arith);
    assert(0 <= y * s) by (nonlinear_arith) requires y >= 0, s >= 0;
    assert((y + 1) * s + x + 1 < s * (hi + 1)) by (nonlinear_arith)
        requires 0 <= y < hi, 0 <= x < wi, s == wi + 1;
    let se = sw + 1;
    let nw = sw + s;
    let ne = nw + 1;
    let t0 = cell_triangle(wi, x, y, false);
    let t1 = cell_triangle(wi, x, y, true);
    assert(t0[0] == sw && t0[1] == se && t0[2] == ne);
    assert(t1[0] == sw && t1[1] == ne && t1[2] == nw);
    let ce = cell_edges(wi, hi, x, y);
    assert(ce.len() >= 3);
    if v[0] == sw && v[1] == se {
        assert(v == ce[0]);
    } else if v[0] == sw && v[1] == nw {
        assert(v == ce[1]);
    } else if v[0] == sw && v[1] == ne {
        assert(v == ce[2]);
    } else if v[0] == se && v[1] == ne {
        if x == wi - 1 {
            assert(v == ce[3]);
        } else {
            let d2 = y * wi + x + 1;
            assert(0 <= d2 < wi * hi) by (nonlinear_arith)
                requires d2 == y * wi + x + 1, 0 <= x < wi - 1, 0 <= y < hi;
            vstd::arithmetic::div_mod::lemma_fundamental_div_mod_converse(d2, wi, y, x + 1);
            lemma_cell_edges_owned(wi, hi, x + 1, y);
            assert(v == cell_edges(wi, hi, d2 % wi, d2 / wi)[1]);
        }
    } else {
        assert(v[0] == nw && v[1] == ne);
        if y == hi - 1 {
            assert(v == ce[if x == wi - 1 { 4int } else { 3int }]);
        } else {
            let d2 = (y + 1) * wi + x;
            assert(0 <= d2 < wi * hi) by (nonlinear_arith)
                requires d2 == (y + 1) * wi + x, 0 <= x < wi, 0 <= y < hi - 1;
            vstd::arithmetic::div_mod::lemma_fundamental_div_mod_converse(d2, wi, y + 1, x);
            lemma_cell_edges_owned(wi, hi, x, y + 1);
            assert(grid_index(s, x, y + 1) == nw) by (nonlinear_arith)
                requires nw == y * s + x + s, s == wi + 1;
            assert(v == cell_edges(wi, hi, d2 % wi, d2 / wi)[0]);
        }
    }
}

/// The edges of the triangulation of a `w` by `h` grid are exactly the
/// sides of its triangles, each listed once with its smaller sample index
/// first: every side of a triangle of a cell is an edge, every edge is a
/// side of a triangle of some cell, and no edge appears twice.
pub proof fn mesh_edges_are_triangle_sides(w: u32, h: u32)
    requires
        (w as int + 1) * (h as int + 1) <= usize::MAX,
    ensures
        forall|x: int, y: int, second: bool, e: [usize; 2]|
            0 <= x < w && 0 <= y < h && #[trigger] is_side(cell_triangle(w as int, x, y, second), e) && e[0] < e[1]
            ==> mesh_edges(w as int, h as int, (w * h) as nat).contains(e),
        forall|k: int| 0 <= k < mesh_edges(w as int, h as int, (w * h) as nat).len() ==> {
            let e = #[trigger] mesh_edges(w as int, h as int, (w * h) as nat)[k];
            &&& e[0] < e[1]
            &&& exists|x: int, y: int, second: bool| 0 <= x < w && 0 <= y < h && is_side(cell_triangle(w as int, x, y, second), e)
        },
        mesh_edges(w as int, h as int, (w * h) as nat).no_duplicates(),
{
    let wi = w as int;
    let hi = h as int;
    let c = (w * h) as nat;
    if w == 0 {
        assert(mesh_edges(wi, hi, c) =~= Seq::<[usize; 2]>::empty());
        return;
    }
    lemma_mesh_edges_facts(wi, hi, c);
    let e = mesh_edges(wi, hi, c);
    assert forall|k: int| 0 <= k < e.len() implies {
        let v = #[trigger] e[k];
        &&& v[0] < v[1]
        &&& exists|x: int, y: int, second: bool| 0 <= x < w && 0 <= y < h && is_side(cell_triangle(wi, x, y, second), v)
    } by {
        let v = e[k];
        let o = edge_owner(wi, hi, v);
        vstd::arithmetic::div_mod::lemma_fundamental_div_mod(o, wi);
        assert(0 <= o / wi < hi) by (nonlinear_arith)
            requires o == wi * (o / wi) + o % wi, 0 <= o % wi < wi, 0 <= o < wi * hi, wi > 0;
        if is_side(cell_triangle(wi, o % wi, o / wi, false), v) {
            assert(is_side(cell_triangle(wi, o % wi, o / wi, false), v));
        } else {
            assert(is_side(cell_triangle(wi, o % wi, o / wi, true), v));
        }
    }
    assert forall|x: int, y: int, second: bool, v: [usize; 2]|
        0 <= x < w && 0 <= y < h && #[trigger] is_side(cell_triangle(wi, x, y, second), v) && v[0] < v[1]
        implies e.contains(v) by {
        lemma_side_is_edge(wi, hi, x, y, second, v);
    }
}

/// Positions of the first and the last of `names` equal to `name`. When a
/// grid is scanned south to north, west to east, these are the lowest and
/// the highest sample of that tile.
pub fn samples_extent_for(names: &[MapName], name: &MapName) -> (r: (usize, usize))
    requires
        exists|i: int| 0 <= i < names@.len() && names@[i] == *name,
    ensures
        r.0 <= r.1 < names@.len(),
        names@[r.0 as int] == *name,
        names@[r.1 as int] == *name,
        forall|i: int| 0 <= i < r.0 ==> names@[i] != *name,
        forall|i: int| r.1 < i < names@.len() ==> names@[i] != *name,
{
    let mut lo: usize = 0;
    while lo < names.len() && names[lo] != *name
        invariant
            lo <= names@.len(),
            forall|i: int| 0 <= i < lo ==> names@[i] != *name,
            exists|i: int| 0 <= i < names@.len() && names@[i] == *name,
        decreases names@.len() - lo,
    {
        lo = lo + 1;
    }
    let mut hi: usize = names.len();
    while hi > lo + 1 && names[hi - 1] != *name
        invariant
            lo < names@.len(),
            names@[lo as int] == *name,
            lo < hi <= names@.len(),
            forall|i: int| hi <= i < names@.len() ==> names@[i] != *name,
        decreases hi,
    {
        hi = hi - 1;
    }
    (lo, hi - 1)
}

/// Pixel `j` of RGBA bytes `out` is pixel `j` of RGB bytes `v`, made opaque.
pub open spec fn pixel_copied(out: Seq<u8>, v: Seq<u8>, j: int) -> bool {
    &&& out[4 * j] == v[3 * j]
    &&& out[4 * j + 1] == v[3 * j + 1]
    &&& out[4 * j + 2] == v[3 * j + 2]
    &&& out[4 * j + 3] == 255
}

/// Expands a loaded tile for display: color tiles (512 by 512 RGB pixels)
/// gain an opaque alpha byte per pixel; empty tiles and height tiles are
/// kept as they are.
pub fn expand_loaded_tile(kind: MapKind, v: Vec<u8>) -> (r: Vec<u8>)
    requires
        v@.len() > 0 && kind == MapKind::Colors ==> v@.len() >= 512 * 512 * 3,
    ensures
        (v@.len() == 0 || kind != MapKind::Colors) ==> r@ == v@,
        (v@.len() > 0 && kind == MapKind::Colors) ==> {
            &&& r@.len() == 512 * 512 * 4
            &&& forall|i: int| 0 <= i < 512 * 512 ==> #[trigger] pixel_copied(r@, v@, i)
        },
{
    if v.len() == 0 || kind != MapKind::Colors {
        return v;
    }
    let mut out: Vec<u8> = Vec::new();
    let mut i: usize = 0;
    while i < 512 * 512
        invariant
            i <= 512 * 512,
            v@.len() >= 512 * 512 * 3,
            out@.len() == 4 * i,
            forall|j: int| 0 <= j < i ==> #[trigger] pixel_copied(out@, v@, j),
        decreases 512 * 512 - i,
    {
        let ghost before = out@;
        out.push(v[i * 3]);
        out.push(v[i * 3 + 1]);
        out.push(v[i * 3 + 2]);
        out.push(255);
        proof {
            assert forall|j: int| 0 <= j < i + 1 implies #[trigger] pixel_copied(out@, v@, j) by {
                if j < i {
                    assert(pixel_copied(before, v@, j));
                }
            }
        }
        i = i + 1;
    }
    out
}

} // verus!
