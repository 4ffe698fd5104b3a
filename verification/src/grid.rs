//! The integer layout of a voxel grid: x-fastest linear indexing, the
//! inverse mapping back to coordinates, and bounded neighbour offsets.

use vstd::arithmetic::div_mod::{
    lemma_fundamental_div_mod, lemma_fundamental_div_mod_converse, lemma_mod_bound,
};
use vstd::arithmetic::mul::{
    lemma_mul_inequality, lemma_mul_is_distributive_add_other_way, lemma_mul_nonnegative,
    lemma_mul_strictly_positive,
};
use vstd::prelude::*;

verus! {

/// The discrete shape of a voxel grid: the number of voxels along x, y and z.
///
/// Voxels are stored x-fastest: `index = x + y * dims[0] + z * dims[0] * dims[1]`.
#[derive(Clone, Copy, Debug)]
pub struct Grid {
    pub dims: [usize; 3],
}

/// Linear index of voxel `(x, y, z)` in a grid with extents `d0`, `d1`.
pub open spec fn index_of(d0: int, d1: int, x: int, y: int, z: int) -> int {
    x + y * d0 + z * (d0 * d1)
}

/// Whether `(x, y, z)` lies inside a grid of extents `(d0, d1, d2)`.
pub open spec fn in_bounds(d0: int, d1: int, d2: int, x: int, y: int, z: int) -> bool {
    0 <= x < d0 && 0 <= y < d1 && 0 <= z < d2
}

/// The grid cell offset that each of the six face neighbours lies at.
pub open spec fn face_offset(k: int) -> (int, int, int) {
    if k == 0 {
        (-1, 0, 0)
    } else if k == 1 {
        (1, 0, 0)
    } else if k == 2 {
        (0, -1, 0)
    } else if k == 3 {
        (0, 1, 0)
    } else if k == 4 {
        (0, 0, -1)
    } else {
        (0, 0, 1)
    }
}

/// The face direction opposite to direction `k`.
pub open spec fn opposite_face(k: int) -> int {
    if k % 2 == 0 {
        k + 1
    } else {
        k - 1
    }
}

impl Grid {
    pub open spec fn d0(self) -> int {
        self.dims[0] as int
    }

    pub open spec fn d1(self) -> int {
        self.dims[1] as int
    }

    pub open spec fn d2(self) -> int {
        self.dims[2] as int
    }

    /// Number of voxels in one z slice.
    pub open spec fn spec_slice_len(self) -> int {
        self.d0() * self.d1()
    }

    /// Total number of voxels.
    pub open spec fn spec_voxel_count(self) -> int {
        self.d0() * self.d1() * self.d2()
    }

    /// The slice length and the voxel count fit in `usize`.
    pub open spec fn wf(self) -> bool {
        self.spec_slice_len() <= usize::MAX && self.spec_voxel_count() <= usize::MAX
    }

    pub open spec fn spec_index(self, x: int, y: int, z: int) -> int {
        index_of(self.d0(), self.d1(), x, y, z)
    }

    pub open spec fn cx(self, i: int) -> int {
        (i % self.spec_slice_len()) % self.d0()
    }

    pub open spec fn cy(self, i: int) -> int {
        (i % self.spec_slice_len()) / self.d0()
    }

    pub open spec fn cz(self, i: int) -> int {
        i / self.spec_slice_len()
    }

    pub open spec fn contains(self, x: int, y: int, z: int) -> bool {
        in_bounds(self.d0(), self.d1(), self.d2(), x, y, z)
    }

    /// The voxel reached from voxel `i` by moving `(dx, dy, dz)`, if it is inside the grid.
    pub open spec fn neighbor(self, i: int, dx: int, dy: int, dz: int) -> Option<int> {
        let (nx, ny, nz) = (self.cx(i) + dx, self.cy(i) + dy, self.cz(i) + dz);
        if self.contains(nx, ny, nz) {
            Some(self.spec_index(nx, ny, nz))
        } else {
            None
        }
    }

    /// The face neighbour of voxel `i` in direction `k` (`0..6`), if inside the grid.
    pub open spec fn face_neighbor(self, i: int, k: int) -> Option<int> {
        let (dx, dy, dz) = face_offset(k);
        self.neighbor(i, dx, dy, dz)
    }

    /// Number of voxels in one z slice.
    pub fn slice_len(&self) -> (r: usize)
        requires
            self.wf(),
        ensures
            r == self.spec_slice_len(),
    {
        proof {
            lemma_slice_le_count(*self);
        }
        self.dims[0] * self.dims[1]
    }

    /// Total number of voxels.
    pub fn voxel_count(&self) -> (r: usize)
        requires
            self.wf(),
        ensures
            r == self.spec_voxel_count(),
    {
        proof {
            lemma_slice_le_count(*self);
        }
        self.dims[0] * self.dims[1] * self.dims[2]
    }

    /// Linear index of `(x, y, z)`.
    pub fn index(&self, x: usize, y: usize, z: usize) -> (r: usize)
        requires
            self.wf(),
            self.contains(x as int, y as int, z as int),
        ensures
            r == self.spec_index(x as int, y as int, z as int),
            r < self.spec_voxel_count(),
    {
        proof {
            lemma_index_coords(*self, x as int, y as int, z as int);
            lemma_slice_le_count(*self);
        }
        let s = self.dims[0] * self.dims[1];
        x + y * self.dims[0] + z * s
    }

    /// The `[x, y, z]` coordinates of voxel `index`.
    pub fn coords(&self, index: usize) -> (r: [usize; 3])
        requires
            self.wf(),
            index < self.spec_voxel_count(),
        ensures
            r[0] == self.cx(index as int),
            r[1] == self.cy(index as int),
            r[2] == self.cz(index as int),
            self.contains(r[0] as int, r[1] as int, r[2] as int),
            self.spec_index(r[0] as int, r[1] as int, r[2] as int) == index,
    {
        proof {
            lemma_coords_index(*self, index as int);
            lemma_slice_le_count(*self);
        }
        let slice_len = self.dims[0] * self.dims[1];
        let z = index / slice_len;
        let remainder = index % slice_len;
        let y = remainder / self.dims[0];
        let x = remainder % self.dims[0];
        [x, y, z]
    }

    /// The voxel reached from `index` by moving `offset`, or `None` when the
    /// move leaves the grid.
    pub fn offset_index(&self, index: usize, offset: [isize; 3]) -> (r: Option<usize>)
        requires
            self.wf(),
            index < self.spec_voxel_count(),
        ensures
            r == (match self.neighbor(index as int, offset[0] as int, offset[1] as int, offset[2] as int) {
                Some(j) => Some(j as usize),
                None => None,
            }),
            r matches Some(j) ==> j < self.spec_voxel_count(),
            self.neighbor(index as int, offset[0] as int, offset[1] as int, offset[2] as int) matches Some(j)
                ==> 0 <= j < self.spec_voxel_count(),
    {
        let c = self.coords(index);
        proof {
            let (nx, ny, nz) = (c[0] + offset[0], c[1] + offset[1], c[2] + offset[2]);
            if self.contains(nx, ny, nz) {
                lemma_index_coords(*self, nx, ny, nz);
            }
        }
        let nx = shift_coordinate(c[0], offset[0], self.dims[0]);
        let ny = shift_coordinate(c[1], offset[1], self.dims[1]);
        let nz = shift_coordinate(c[2], offset[2], self.dims[2]);
        match (nx, ny, nz) {
            (Some(x), Some(y), Some(z)) => Some(self.index(x, y, z)),
            _ => None,
        }
    }
}

/// `value + delta` when it lies in `0..limit`.
fn shift_coordinate(value: usize, delta: isize, limit: usize) -> (r: Option<usize>)
    requires
        value < limit,
    ensures
        r == (if 0 <= value + delta < limit {
            Some((value + delta) as usize)
        } else {
            None
        }),
{
    if delta < 0 {
        let magnitude = ((-(delta + 1)) as usize) + 1;
        if magnitude <= value {
            Some(value - magnitude)
        } else {
            None
        }
    } else {
        let magnitude = delta as usize;
        if magnitude < limit - value {
            Some(value + magnitude)
        } else {
            None
        }
    }
}

/// The slice length is at most the voxel count when the grid has voxels,
/// and all products are non-negative.
pub proof fn lemma_slice_le_count(g: Grid)
    ensures
        g.spec_slice_len() >= 0,
        g.spec_voxel_count() >= 0,
        g.d2() > 0 ==> g.spec_slice_len() <= g.spec_voxel_count(),
        g.d0() * g.d1() * g.d2() == g.spec_slice_len() * g.d2(),
{
    lemma_mul_nonnegative(g.d0(), g.d1());
    lemma_mul_nonnegative(g.spec_slice_len(), g.d2());
    if g.d2() > 0 {
        lemma_mul_inequality(1, g.d2(), g.spec_slice_len());
        assert(g.spec_slice_len() * 1 <= g.spec_slice_len() * g.d2()) by (nonlinear_arith)
            requires g.spec_slice_len() >= 0, g.d2() >= 1;
    }
}

/// Decoding the index of an in-bounds voxel gives back its coordinates, and
/// the index lies below the voxel count.
pub proof fn lemma_index_coords(g: Grid, x: int, y: int, z: int)
    requires
        g.contains(x, y, z),
    ensures
        g.cx(g.spec_index(x, y, z)) == x,
        g.cy(g.spec_index(x, y, z)) == y,
        g.cz(g.spec_index(x, y, z)) == z,
        0 <= g.spec_index(x, y, z) < g.spec_voxel_count(),
{
    let d0 = g.d0();
    let d1 = g.d1();
    let s = d0 * d1;
    let r = x + y * d0;
    lemma_mul_nonnegative(y, d0);
    assert(r < s) by (nonlinear_arith)
        requires 0 <= x < d0, 0 <= y < d1, r == x + y * d0, s == d0 * d1;
    assert(s > 0) by (nonlinear_arith)
        requires d0 > 0, d1 > 0, s == d0 * d1;
    lemma_mul_nonnegative(z, s);
    assert(g.spec_index(x, y, z) == z * s + r) by (nonlinear_arith)
        requires r == x + y * d0, s == d0 * d1, g.spec_index(x, y, z) == x + y * d0 + z * (d0 * d1);
    lemma_fundamental_div_mod_converse(g.spec_index(x, y, z), s, z, r);
    assert(r == y * d0 + x);
    lemma_fundamental_div_mod_converse(r, d0, y, x);
    assert(g.spec_index(x, y, z) < g.spec_voxel_count()) by (nonlinear_arith)
        requires
            g.spec_index(x, y, z) == z * s + r,
            r < s,
            0 <= z < g.d2(),
            g.spec_voxel_count() == s * g.d2(),
            s > 0;
}

/// Every index below the voxel count decodes to in-bounds coordinates that
/// encode back to the same index.
pub proof fn lemma_coords_index(g: Grid, i: int)
    requires
        0 <= i < g.spec_voxel_count(),
    ensures
        g.contains(g.cx(i), g.cy(i), g.cz(i)),
        g.spec_index(g.cx(i), g.cy(i), g.cz(i)) == i,
        g.spec_slice_len() > 0,
        g.d0() > 0,
{
    let d0 = g.d0();
    let d1 = g.d1();
    let s = d0 * d1;
    assert(s > 0 && d0 > 0 && d1 > 0 && g.d2() > 0) by (nonlinear_arith)
        requires 0 <= i < d0 * d1 * g.d2(), d0 >= 0, d1 >= 0, g.d2() >= 0, s == d0 * d1;
    lemma_fundamental_div_mod(i, s);
    lemma_mod_bound(i, s);
    let r = i % s;
    let z = i / s;
    lemma_fundamental_div_mod(r, d0);
    lemma_mod_bound(r, d0);
    let y = r / d0;
    let x = r % d0;
    assert(0 <= y < d1) by (nonlinear_arith)
        requires r == d0 * y + x, 0 <= x < d0, 0 <= r < s, s == d0 * d1, d0 > 0;
    assert(0 <= z < g.d2()) by (nonlinear_arith)
        requires i == s * z + r, 0 <= r < s, 0 <= i < s * g.d2(), s > 0;
    assert(g.spec_index(x, y, z) == i) by (nonlinear_arith)
        requires
            i == s * z + r,
            r == d0 * y + x,
            s == d0 * d1,
            g.spec_index(x, y, z) == x + y * d0 + z * (d0 * d1);
}

/// Moving from `i` by a delta and back again returns to `i`.
pub proof fn lemma_neighbor_symmetric(g: Grid, i: int, dx: int, dy: int, dz: int)
    requires
        0 <= i < g.spec_voxel_count(),
        g.neighbor(i, dx, dy, dz) is Some,
    ensures
        g.neighbor(g.neighbor(i, dx, dy, dz)->0, -dx, -dy, -dz) == Some(i),
        0 <= g.neighbor(i, dx, dy, dz)->0 < g.spec_voxel_count(),
{
    lemma_coords_index(g, i);
    let (nx, ny, nz) = (g.cx(i) + dx, g.cy(i) + dy, g.cz(i) + dz);
    lemma_index_coords(g, nx, ny, nz);
}

/// Face adjacency is symmetric: the opposite face of a face neighbour leads back.
pub proof fn lemma_face_neighbor_symmetric(g: Grid, i: int, k: int)
    requires
        0 <= i < g.spec_voxel_count(),
        0 <= k < 6,
        g.face_neighbor(i, k) is Some,
    ensures
        g.face_neighbor(g.face_neighbor(i, k)->0, opposite_face(k)) == Some(i),
        0 <= opposite_face(k) < 6,
        0 <= g.face_neighbor(i, k)->0 < g.spec_voxel_count(),
{
    let (dx, dy, dz) = face_offset(k);
    lemma_neighbor_symmetric(g, i, dx, dy, dz);
    assert(face_offset(opposite_face(k)) == (-dx, -dy, -dz));
}

/// Linear index of cell `(x, y, z)` in a block of cells with extents
/// `cell_dims`, x fastest.
pub fn cell_index(cell_dims: [usize; 3], x: usize, y: usize, z: usize) -> (r: usize)
    requires
        z * cell_dims[0] <= usize::MAX,
        index_of(cell_dims[0] as int, cell_dims[1] as int, x as int, y as int, z as int) <= usize::MAX,
    ensures
        r == index_of(cell_dims[0] as int, cell_dims[1] as int, x as int, y as int, z as int),
{
    let d0 = cell_dims[0];
    let d1 = cell_dims[1];
    proof {
        lemma_mul_nonnegative(y as int, d0 as int);
        lemma_mul_nonnegative(z as int, (d0 * d1) as int);
        vstd::arithmetic::mul::lemma_mul_is_associative(z as int, d0 as int, d1 as int);
    }
    let zd0 = z * d0;
    x + y * d0 + zd0 * d1
}

} // verus!
