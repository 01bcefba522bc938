//! A loose triangle mesh for collision: a pile of points, with index lists
//! for its triangles and edges.
use vstd::prelude::*;
use crate::geotiff::{grid_index, mesh_edges, mesh_topology, tri_index};

verus! {

#[derive(Debug)]
pub struct TriMesh<P> {
    points: Vec<P>,
    tris: Vec<[usize; 3]>,
    edges: Vec<[usize; 2]>,
}

impl<P: Copy> TriMesh<P> {
    pub closed spec fn spec_points(self) -> Seq<P> {
        self.points@
    }

    pub closed spec fn spec_tris(self) -> Seq<[usize; 3]> {
        self.tris@
    }

    pub closed spec fn spec_edges(self) -> Seq<[usize; 2]> {
        self.edges@
    }

    /// Every index of every triangle and edge names one of the points.
    pub open spec fn wf(self) -> bool {
        let n = self.spec_points().len();
        &&& forall|i: int| 0 <= i < self.spec_tris().len() ==> #[trigger] self.spec_tris()[i][0] < n
            && self.spec_tris()[i][1] < n && self.spec_tris()[i][2] < n
        &&& forall|i: int| 0 <= i < self.spec_edges().len() ==> #[trigger] self.spec_edges()[i][0] < n
            && self.spec_edges()[i][1] < n
    }

    pub fn new(points: Vec<P>, tris: Vec<[usize; 3]>, edges: Vec<[usize; 2]>) -> (r: Self)
        ensures
            r.spec_points() == points@,
            r.spec_tris() == tris@,
            r.spec_edges() == edges@,
    {
        TriMesh { points, tris, edges }
    }

    /// The corners of each triangle.
    pub fn tris(&self) -> (r: Vec<[P; 3]>)
        requires
            self.wf(),
        ensures
            r@.len() == self.spec_tris().len(),
            forall|i: int| 0 <= i < r@.len() ==> {
                let t = self.spec_tris()[i];
                #[trigger] r@[i] == [self.spec_points()[t[0] as int], self.spec_points()[t[1] as int], self.spec_points()[t[2] as int]]
            },
    {
        let mut out: Vec<[P; 3]> = Vec::new();
        let mut i: usize = 0;
        while i < self.tris.len()
            invariant
                self.wf(),
                i <= self.tris@.len(),
                out@.len() == i,
                forall|j: int| 0 <= j < i ==> {
                    let t = self.spec_tris()[j];
                    #[trigger] out@[j] == [self.spec_points()[t[0] as int], self.spec_points()[t[1] as int], self.spec_points()[t[2] as int]]
                },
            decreases self.tris@.len() - i,
        {
            let t = self.tris[i];
            assert(t == self.spec_tris()[i as int]);
            out.push([self.points[t[0]], self.points[t[1]], self.points[t[2]]]);
            i = i + 1;
        }
        out
    }

    /// The ends of each edge.
    pub fn edges(&self) -> (r: Vec<[P; 2]>)
        requires
            self.wf(),
        ensures
            r@.len() == self.spec_edges().len(),
            forall|i: int| 0 <= i < r@.len() ==> {
                let e = self.spec_edges()[i];
                #[trigger] r@[i] == [self.spec_points()[e[0] as int], self.spec_points()[e[1] as int]]
            },
    {
        let mut out: Vec<[P; 2]> = Vec::new();
        let mut i: usize = 0;
        while i < self.edges.len()
            invariant
                self.wf(),
                i <= self.edges@.len(),
                out@.len() == i,
                forall|j: int| 0 <= j < i ==> {
                    let e = self.spec_edges()[j];
                    #[trigger] out@[j] == [self.spec_points()[e[0] as int], self.spec_points()[e[1] as int]]
                },
            decreases self.edges@.len() - i,
        {
            let e = self.edges[i];
            assert(e == self.spec_edges()[i as int]);
            out.push([self.points[e[0]], self.points[e[1]]]);
            i = i + 1;
        }
        out
    }

    pub fn points(&self) -> (r: &[P])
        ensures
            r@ == self.spec_points(),
    {
        self.points.as_slice()
    }

    /// Replaces point `i`.
    pub fn set_point(&mut self, i: usize, p: P)
        requires
            i < old(self).spec_points().len(),
        ensures
            final(self).spec_points() == old(self).spec_points().update(i as int, p),
            final(self).spec_tris() == old(self).spec_tris(),
            final(self).spec_edges() == old(self).spec_edges(),
    {
        self.points.set(i, p);
    }
}

/// The mesh of a `width` by `height` grid of sample areas whose samples sit
/// at `points` (row by row, `width + 1` to a row): two triangles per cell
/// and the cells' edges, every index naming one of the points.
pub fn grid_mesh<P: Copy>(points: Vec<P>, width: u32, height: u32) -> (r: TriMesh<P>)
    requires
        points@.len() == (width as int + 1) * (height as int + 1),
    ensures
        r.wf(),
        r.spec_points() == points@,
        r.spec_tris().len() == 2 * width * height,
        forall|y: int, x: int| #![trigger r.spec_tris()[tri_index(width as int, x, y)]] 0 <= y < height && 0 <= x < width ==> {
            let s = width + 1;
            let c = tri_index(width as int, x, y);
            &&& r.spec_tris()[c] == [grid_index(s, x, y) as usize, grid_index(s, x + 1, y) as usize, grid_index(s, x + 1, y + 1) as usize]
            &&& r.spec_tris()[c + 1] == [grid_index(s, x, y) as usize, grid_index(s, x + 1, y + 1) as usize, grid_index(s, x, y + 1) as usize]
        },
        r.spec_edges() == mesh_edges(width as int, height as int, (width * height) as nat),
{
    let n = points.len();
    assert(n == (width as int + 1) * (height as int + 1));
    let (tris, edges) = mesh_topology(width, height);
    TriMesh::new(points, tris, edges)
}

} // verus!
