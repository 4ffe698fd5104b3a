//! Analysis of voxel occupancy: the lowest occupied slice, the seed voxels
//! that field propagation starts from, and the face-connected components of
//! the occupied volume.

use crate::grid::{face_offset, lemma_coords_index, lemma_face_neighbor_symmetric, opposite_face, Grid};
use vstd::prelude::*;

verus! {

/// Voxel `i` exists and is occupied.
pub open spec fn is_occupied(occ: Seq<u8>, i: int) -> bool {
    0 <= i < occ.len() && occ[i] != 0
}

/// Some voxel with an index in `lo..hi` is occupied.
pub open spec fn range_occupied(occ: Seq<u8>, lo: int, hi: int) -> bool {
    exists|i: int| lo <= i < hi && #[trigger] is_occupied(occ, i)
}

/// Some voxel of z slice `z` is occupied.
pub open spec fn slice_occupied(occ: Seq<u8>, g: Grid, z: int) -> bool {
    range_occupied(occ, z * g.spec_slice_len(), (z + 1) * g.spec_slice_len())
}

/// The indices in `lo..hi` of the occupied voxels, in increasing order.
pub open spec fn occupied_indices(occ: Seq<u8>, lo: int, hi: int) -> Seq<usize>
    decreases hi - lo,
{
    if hi <= lo {
        Seq::empty()
    } else {
        let prefix = occupied_indices(occ, lo, hi - 1);
        if is_occupied(occ, hi - 1) {
            prefix.push((hi - 1) as usize)
        } else {
            prefix
        }
    }
}

/// The lowest z slice that holds an occupied voxel, if any.
pub open spec fn is_lowest_occupied_slice(occ: Seq<u8>, g: Grid, z: int) -> bool {
    &&& 0 <= z < g.d2()
    &&& slice_occupied(occ, g, z)
    &&& forall|w: int| 0 <= w < z ==> !#[trigger] slice_occupied(occ, g, w)
}

proof fn lemma_occupied_indices_empty(occ: Seq<u8>, lo: int, hi: int)
    ensures
        (occupied_indices(occ, lo, hi).len() == 0) <==> !range_occupied(occ, lo, hi),
    decreases hi - lo,
{
    if hi > lo {
        lemma_occupied_indices_empty(occ, lo, hi - 1);
        if is_occupied(occ, hi - 1) {
            assert(range_occupied(occ, lo, hi));
        } else if range_occupied(occ, lo, hi) {
            let i = choose|i: int| lo <= i < hi && #[trigger] is_occupied(occ, i);
            assert(lo <= i < hi - 1);
            assert(range_occupied(occ, lo, hi - 1));
        }
    }
}

/// The bounds of slice `z` in index space: `(z + 1) * s == z * s + s` and
/// both fit under the voxel count.
proof fn lemma_slice_bounds(g: Grid, z: int)
    requires
        0 <= z < g.d2(),
    ensures
        (z + 1) * g.spec_slice_len() == z * g.spec_slice_len() + g.spec_slice_len(),
        0 <= z * g.spec_slice_len(),
        (z + 1) * g.spec_slice_len() <= g.spec_voxel_count(),
{
    let s = g.spec_slice_len();
    assert((z + 1) * s == z * s + s) by (nonlinear_arith);
    assert(0 <= z * s) by (nonlinear_arith)
        requires 0 <= z, s == g.d0() * g.d1(), g.d0() >= 0, g.d1() >= 0;
    assert((z + 1) * s <= s * g.d2()) by (nonlinear_arith)
        requires 0 <= z < g.d2(), s == g.d0() * g.d1(), g.d0() >= 0, g.d1() >= 0;
    assert(g.spec_voxel_count() == s * g.d2()) by (nonlinear_arith)
        requires s == g.d0() * g.d1(), g.spec_voxel_count() == g.d0() * g.d1() * g.d2();
}

/// Whether any voxel with index in `lo..hi` is occupied.
fn any_occupied_in(occupancy: &[u8], lo: usize, hi: usize) -> (r: bool)
    requires
        lo <= hi <= occupancy@.len(),
    ensures
        r == range_occupied(occupancy@, lo as int, hi as int),
{
    let mut i = lo;
    while i < hi
        invariant
            lo <= i <= hi <= occupancy@.len(),
            !range_occupied(occupancy@, lo as int, i as int),
        decreases hi - i,
    {
        if occupancy[i] != 0 {
            assert(is_occupied(occupancy@, i as int));
            return true;
        }
        assert(!range_occupied(occupancy@, lo as int, i + 1)) by {
            if range_occupied(occupancy@, lo as int, i + 1) {
                let j = choose|j: int| lo <= j < i + 1 && #[trigger] is_occupied(occupancy@, j);
                assert(j < i);
            }
        }
        i += 1;
    }
    false
}

/// The occupied voxel indices in `lo..hi`, in increasing order.
fn collect_occupied_in(occupancy: &[u8], lo: usize, hi: usize) -> (r: Vec<usize>)
    requires
        lo <= hi <= occupancy@.len(),
    ensures
        r@ == occupied_indices(occupancy@, lo as int, hi as int),
{
    let mut seeds = Vec::new();
    let mut i = lo;
    while i < hi
        invariant
            lo <= i <= hi <= occupancy@.len(),
            seeds@ == occupied_indices(occupancy@, lo as int, i as int),
        decreases hi - i,
    {
        if occupancy[i] != 0 {
            seeds.push(i);
        }
        i += 1;
    }
    seeds
}

/// The lowest z slice that contains an occupied voxel, or `None` when the
/// grid holds no occupied voxel.
pub fn lowest_occupied_z(occupancy: &[u8], grid: &Grid) -> (r: Option<usize>)
    requires
        grid.wf(),
        occupancy@.len() >= grid.spec_voxel_count(),
    ensures
        r matches Some(z) ==> is_lowest_occupied_slice(occupancy@, *grid, z as int),
        r is None ==> forall|z: int| 0 <= z < grid.d2() ==> !#[trigger] slice_occupied(occupancy@, *grid, z),
{
    let slice_len = grid.slice_len();
    let mut z: usize = 0;
    while z < grid.dims[2]
        invariant
            grid.wf(),
            occupancy@.len() >= grid.spec_voxel_count(),
            slice_len == grid.spec_slice_len(),
            0 <= z <= grid.d2(),
            forall|w: int| 0 <= w < z ==> !#[trigger] slice_occupied(occupancy@, *grid, w),
        decreases grid.d2() - z,
    {
        proof {
            lemma_slice_bounds(*grid, z as int);
        }
        let lo = z * slice_len;
        if any_occupied_in(occupancy, lo, lo + slice_len) {
            return Some(z);
        }
        z += 1;
    }
    None
}

/// The seed voxels of field propagation: every occupied voxel of the lowest
/// occupied z slice, in increasing index order; empty when nothing is occupied.
pub fn seeds(occupancy: &[u8], grid: &Grid) -> (r: Vec<usize>)
    requires
        grid.wf(),
        occupancy@.len() >= grid.spec_voxel_count(),
    ensures
        forall|z: int| is_lowest_occupied_slice(occupancy@, *grid, z) ==> r@ == occupied_indices(
            occupancy@,
            z * grid.spec_slice_len(),
            (z + 1) * grid.spec_slice_len(),
        ),
        r@.len() == 0 <==> forall|z: int|
            0 <= z < grid.d2() ==> !#[trigger] slice_occupied(occupancy@, *grid, z),
{
    let slice_len = grid.slice_len();
    let mut z: usize = 0;
    while z < grid.dims[2]
        invariant
            grid.wf(),
            occupancy@.len() >= grid.spec_voxel_count(),
            slice_len == grid.spec_slice_len(),
            0 <= z <= grid.d2(),
            forall|w: int| 0 <= w < z ==> !#[trigger] slice_occupied(occupancy@, *grid, w),
        decreases grid.d2() - z,
    {
        proof {
            lemma_slice_bounds(*grid, z as int);
        }
        let lo = z * slice_len;
        let slice_seeds = collect_occupied_in(occupancy, lo, lo + slice_len);
        proof {
            lemma_occupied_indices_empty(occupancy@, lo as int, lo + slice_len);
        }
        if slice_seeds.len() > 0 {
            proof {
                assert(is_lowest_occupied_slice(occupancy@, *grid, z as int));
                assert forall|w: int| is_lowest_occupied_slice(occupancy@, *grid, w) implies w == z by {
                    if w < z {
                        assert(!slice_occupied(occupancy@, *grid, w));
                    } else if w > z {
                        assert(!slice_occupied(occupancy@, *grid, z as int));
                    }
                }
            }
            return slice_seeds;
        }
        z += 1;
    }
    Vec::new()
}

// ---------------------------------------------------------------------------
// Face-connected components
// ---------------------------------------------------------------------------

/// `j` is a face neighbour of `i` and both are occupied.
pub open spec fn face_adjacent(g: Grid, occ: Seq<u8>, i: int, j: int) -> bool {
    &&& is_occupied(occ, i)
    &&& is_occupied(occ, j)
    &&& {
        ||| g.face_neighbor(i, 0) == Some(j)
        ||| g.face_neighbor(i, 1) == Some(j)
        ||| g.face_neighbor(i, 2) == Some(j)
        ||| g.face_neighbor(i, 3) == Some(j)
        ||| g.face_neighbor(i, 4) == Some(j)
        ||| g.face_neighbor(i, 5) == Some(j)
    }
}

/// `p` is a walk through occupied voxels in which consecutive voxels share a face.
pub open spec fn is_face_path(g: Grid, occ: Seq<u8>, p: Seq<int>) -> bool {
    &&& p.len() >= 1
    &&& forall|t: int| 0 <= t < p.len() ==> #[trigger] is_occupied(occ, p[t])
    &&& forall|t: int| 0 <= t < p.len() - 1 ==> face_adjacent(g, occ, #[trigger] p[t], p[t + 1])
}

/// Voxels `a` and `b` are joined by a walk of face-sharing occupied voxels.
pub open spec fn face_connected(g: Grid, occ: Seq<u8>, a: int, b: int) -> bool {
    exists|p: Seq<int>| #[trigger] is_face_path(g, occ, p) && p[0] == a && p.last() == b
}

/// The label that marks a voxel as unoccupied.
pub open spec fn no_component() -> usize {
    usize::MAX
}

/// Every occupied face neighbour of `i` in direction `k` carries the label of `i`.
pub open spec fn closed_in(g: Grid, occ: Seq<u8>, comps: Seq<usize>, i: int, k: int) -> bool {
    match g.face_neighbor(i, k) {
        Some(j) => is_occupied(occ, j) ==> comps[j] == comps[i],
        None => true,
    }
}

/// All occupied face neighbours of `i` carry the label of `i`.
pub open spec fn closed(g: Grid, occ: Seq<u8>, comps: Seq<usize>, i: int) -> bool {
    &&& closed_in(g, occ, comps, i, 0)
    &&& closed_in(g, occ, comps, i, 1)
    &&& closed_in(g, occ, comps, i, 2)
    &&& closed_in(g, occ, comps, i, 3)
    &&& closed_in(g, occ, comps, i, 4)
    &&& closed_in(g, occ, comps, i, 5)
}

/// The labelling of the occupied voxels by face-connected component: the
/// unoccupied voxels carry `usize::MAX`, and two occupied voxels carry the
/// same label exactly when a face-sharing walk through occupied voxels joins them.
pub open spec fn is_component_labelling(g: Grid, occ: Seq<u8>, comps: Seq<usize>) -> bool {
    &&& comps.len() == occ.len()
    &&& forall|i: int| 0 <= i < occ.len() ==> (#[trigger] comps[i] == no_component()) == (occ[i] == 0)
    &&& forall|i: int, j: int|
        #![trigger comps[i], comps[j]]
        is_occupied(occ, i) && is_occupied(occ, j) ==> ((comps[i] == comps[j]) <==> face_connected(
            g,
            occ,
            i,
            j,
        ))
}

proof fn lemma_connected_refl(g: Grid, occ: Seq<u8>, a: int)
    requires
        is_occupied(occ, a),
    ensures
        face_connected(g, occ, a, a),
{
    let p = seq![a];
    assert(is_face_path(g, occ, p));
}

proof fn lemma_connected_extend(g: Grid, occ: Seq<u8>, a: int, b: int, c: int)
    requires
        face_connected(g, occ, a, b),
        face_adjacent(g, occ, b, c),
    ensures
        face_connected(g, occ, a, c),
{
    let p = choose|p: Seq<int>| #[trigger] is_face_path(g, occ, p) && p[0] == a && p.last() == b;
    let q = p.push(c);
    assert forall|t: int| 0 <= t < q.len() - 1 implies face_adjacent(g, occ, #[trigger] q[t], q[t + 1]) by {
        if t < p.len() - 1 {
            assert(q[t] == p[t] && q[t + 1] == p[t + 1]);
        } else {
            assert(q[t] == b && q[t + 1] == c);
        }
    }
    assert forall|t: int| 0 <= t < q.len() implies #[trigger] is_occupied(occ, q[t]) by {
        if t < p.len() {
            assert(q[t] == p[t]);
        }
    }
    assert(is_face_path(g, occ, q));
}

proof fn lemma_adjacent_symmetric(g: Grid, occ: Seq<u8>, a: int, b: int)
    requires
        occ.len() == g.spec_voxel_count(),
        face_adjacent(g, occ, a, b),
    ensures
        face_adjacent(g, occ, b, a),
{
    let k = if g.face_neighbor(a, 0) == Some(b) {
        0
    } else if g.face_neighbor(a, 1) == Some(b) {
        1
    } else if g.face_neighbor(a, 2) == Some(b) {
        2
    } else if g.face_neighbor(a, 3) == Some(b) {
        3
    } else if g.face_neighbor(a, 4) == Some(b) {
        4
    } else {
        5
    };
    lemma_face_neighbor_symmetric(g, a, k);
}

proof fn lemma_connected_symmetric(g: Grid, occ: Seq<u8>, a: int, b: int)
    requires
        occ.len() == g.spec_voxel_count(),
        face_connected(g, occ, a, b),
    ensures
        face_connected(g, occ, b, a),
{
    let p = choose|p: Seq<int>| #[trigger] is_face_path(g, occ, p) && p[0] == a && p.last() == b;
    let q = p.reverse();
    assert forall|t: int| 0 <= t < q.len() - 1 implies face_adjacent(g, occ, #[trigger] q[t], q[t + 1]) by {
        let u = p.len() - 2 - t;
        assert(q[t] == p[u + 1] && q[t + 1] == p[u]);
        assert(face_adjacent(g, occ, p[u], p[u + 1]));
        lemma_adjacent_symmetric(g, occ, p[u], p[u + 1]);
    }
    assert forall|t: int| 0 <= t < q.len() implies #[trigger] is_occupied(occ, q[t]) by {
        assert(q[t] == p[p.len() - 1 - t]);
    }
    assert(is_face_path(g, occ, q));
}

proof fn lemma_connected_trans(g: Grid, occ: Seq<u8>, a: int, b: int, c: int)
    requires
        face_connected(g, occ, a, b),
        face_connected(g, occ, b, c),
    ensures
        face_connected(g, occ, a, c),
{
    let p = choose|p: Seq<int>| #[trigger] is_face_path(g, occ, p) && p[0] == a && p.last() == b;
    let q = choose|q: Seq<int>| #[trigger] is_face_path(g, occ, q) && q[0] == b && q.last() == c;
    let r = p + q.drop_first();
    assert forall|t: int| 0 <= t < r.len() implies #[trigger] is_occupied(occ, r[t]) by {
        if t < p.len() {
            assert(r[t] == p[t]);
        } else {
            assert(r[t] == q[t - p.len() + 1]);
        }
    }
    assert forall|t: int| 0 <= t < r.len() - 1 implies face_adjacent(g, occ, #[trigger] r[t], r[t + 1]) by {
        if t < p.len() - 1 {
            assert(r[t] == p[t] && r[t + 1] == p[t + 1]);
        } else if t == p.len() - 1 {
            assert(r[t] == b && r[t + 1] == q[1]);
            assert(face_adjacent(g, occ, q[0], q[1]));
        } else {
            let u = t - p.len() + 1;
            assert(r[t] == q[u] && r[t + 1] == q[u + 1]);
        }
    }
    assert(is_face_path(g, occ, r));
    if q.len() == 1 {
        assert(r =~= p);
    } else {
        assert(r.last() == q.last());
    }
}

/// Along a face path through closed voxels every voxel carries the label of the first.
proof fn lemma_path_same_label(g: Grid, occ: Seq<u8>, comps: Seq<usize>, p: Seq<int>, t: int)
    requires
        is_face_path(g, occ, p),
        0 <= t < p.len(),
        comps.len() == occ.len(),
        forall|i: int| is_occupied(occ, i) ==> #[trigger] closed(g, occ, comps, i),
    ensures
        comps[p[t]] == comps[p[0]],
    decreases t,
{
    if t > 0 {
        lemma_path_same_label(g, occ, comps, p, t - 1);
        let a = p[t - 1];
        let b = p[t];
        assert(face_adjacent(g, occ, p[t - 1], p[t]));
        assert(is_occupied(occ, a));
        assert(closed(g, occ, comps, a));
    }
}

/// Along a face path that starts at a labelled voxel, when every labelled
/// voxel is closed, every voxel carries the label of the first.
proof fn lemma_path_keeps_label(g: Grid, occ: Seq<u8>, comps: Seq<usize>, p: Seq<int>, t: int)
    requires
        is_face_path(g, occ, p),
        0 <= t < p.len(),
        comps.len() == occ.len(),
        comps[p[0]] != no_component(),
        forall|i: int| 0 <= i < occ.len() && #[trigger] comps[i] != no_component() ==> closed(g, occ, comps, i),
    ensures
        comps[p[t]] == comps[p[0]],
    decreases t,
{
    if t > 0 {
        lemma_path_keeps_label(g, occ, comps, p, t - 1);
        let a = p[t - 1];
        assert(face_adjacent(g, occ, p[t - 1], p[t]));
        assert(is_occupied(occ, a));
        assert(comps[a] != no_component());
        assert(closed(g, occ, comps, a));
    }
}

/// Voxel `i` is the first voxel of its component: it is occupied and no
/// voxel with a smaller index is face-connected to it.
pub open spec fn is_first_of_component(g: Grid, occ: Seq<u8>, i: int) -> bool {
    is_occupied(occ, i) && forall|j: int| 0 <= j < i ==> !#[trigger] face_connected(g, occ, j, i)
}

/// `roots[c]` is the first voxel of the `c`-th component in index order,
/// for every `c` below `count`, and lies below `bound`.
pub open spec fn numbered_roots(g: Grid, occ: Seq<u8>, roots: Seq<int>, count: int, bound: int) -> bool {
    forall|c: int|
        0 <= c < count ==> #[trigger] roots[c] < bound && is_first_of_component(g, occ, roots[c]) && components_before(
            g,
            occ,
            roots[c],
        ) == c
}

/// The number of components whose first voxel has an index below `n`.
pub open spec fn components_before(g: Grid, occ: Seq<u8>, n: int) -> nat
    decreases n,
{
    if n <= 0 {
        0
    } else {
        components_before(g, occ, n - 1) + if is_first_of_component(g, occ, n - 1) {
            1nat
        } else {
            0nat
        }
    }
}

/// Number of labelled voxels among the first `n`.
pub open spec fn labelled_count(comps: Seq<usize>, n: int) -> int
    decreases n,
{
    if n <= 0 {
        0
    } else {
        labelled_count(comps, n - 1) + if comps[n - 1] != no_component() {
            1int
        } else {
            0int
        }
    }
}

proof fn lemma_labelled_count_bounds(comps: Seq<usize>, n: int)
    requires
        0 <= n,
    ensures
        0 <= labelled_count(comps, n) <= n,
    decreases n,
{
    if n > 0 {
        lemma_labelled_count_bounds(comps, n - 1);
    }
}

proof fn lemma_labelled_count_update(comps: Seq<usize>, i: int, v: usize, n: int)
    requires
        0 <= i < n <= comps.len(),
        comps[i] == no_component(),
        v != no_component(),
    ensures
        labelled_count(comps.update(i, v), n) == labelled_count(comps, n) + 1,
    decreases n,
{
    if n - 1 > i {
        lemma_labelled_count_update(comps, i, v, n - 1);
    } else {
        lemma_labelled_count_same(comps, comps.update(i, v), n - 1);
    }
}

proof fn lemma_labelled_count_same(a: Seq<usize>, b: Seq<usize>, n: int)
    requires
        0 <= n <= a.len(),
        n <= b.len(),
        forall|j: int| 0 <= j < n ==> a[j] == b[j],
    ensures
        labelled_count(a, n) == labelled_count(b, n),
    decreases n,
{
    if n > 0 {
        lemma_labelled_count_same(a, b, n - 1);
    }
}

/// The face direction `k` as a grid offset.
fn face_offset_of(k: usize) -> (r: [isize; 3])
    requires
        k < 6,
    ensures
        (r[0] as int, r[1] as int, r[2] as int) == face_offset(k as int),
{
    if k == 0 {
        [-1, 0, 0]
    } else if k == 1 {
        [1, 0, 0]
    } else if k == 2 {
        [0, -1, 0]
    } else if k == 3 {
        [0, 1, 0]
    } else if k == 4 {
        [0, 0, -1]
    } else {
        [0, 0, 1]
    }
}

/// The invariant of the flood fill while label `label` is being spread.
pub open spec fn fill_invariant(
    g: Grid,
    occ: Seq<u8>,
    comps: Seq<usize>,
    stack: Seq<usize>,
    roots: Seq<int>,
    label: int,
) -> bool {
    &&& comps.len() == occ.len()
    &&& occ.len() == g.spec_voxel_count()
    &&& roots.len() == label + 1
    &&& forall|c: int| 0 <= c <= label ==> 0 <= #[trigger] roots[c] < occ.len() && comps[roots[c]] == c
    &&& forall|i: int|
        0 <= i < occ.len() && #[trigger] comps[i] != no_component() ==> {
            &&& is_occupied(occ, i)
            &&& comps[i] <= label
            &&& face_connected(g, occ, roots[comps[i] as int], i)
            &&& (stack.contains(i as usize) || closed(g, occ, comps, i))
        }
    &&& forall|t: int|
        0 <= t < stack.len() ==> #[trigger] stack[t] < occ.len() && comps[stack[t] as int] == label
}

/// Labels the occupied, still unlabelled face neighbour of `current` in
/// direction `k` with `label` and pushes it on the stack.
fn label_face_neighbor(
    grid: &Grid,
    occupancy: &[u8],
    components: &mut Vec<usize>,
    stack: &mut Vec<usize>,
    Ghost(roots): Ghost<Seq<int>>,
    current: usize,
    k: usize,
    label: usize,
)
    requires
        grid.wf(),
        k < 6,
        current < occupancy@.len(),
        old(components)@[current as int] == label,
        label < no_component(),
        fill_invariant(*grid, occupancy@, old(components)@, old(stack)@.push(current), roots, label as int),
        forall|k2: int| 0 <= k2 < k ==> closed_in(*grid, occupancy@, old(components)@, current as int, k2),
    ensures
        final(components)@[current as int] == label,
        final(components)@.len() == old(components)@.len(),
        forall|j: int|
            0 <= j < old(components)@.len() && old(components)@[j] != no_component()
                ==> #[trigger] final(components)@[j] == old(components)@[j],
        labelled_count(final(components)@, occupancy@.len() as int) >= labelled_count(old(components)@, occupancy@.len() as int),
        final(stack)@.len() + labelled_count(old(components)@, occupancy@.len() as int)
            == old(stack)@.len() + labelled_count(final(components)@, occupancy@.len() as int),
        fill_invariant(*grid, occupancy@, final(components)@, final(stack)@.push(current), roots, label as int),
        forall|k2: int| 0 <= k2 <= k ==> closed_in(*grid, occupancy@, final(components)@, current as int, k2),
{
    let ghost old_comps = components@;
    let ghost old_stack = stack@;
    let offset = face_offset_of(k);
    assert(face_offset(k as int) == (offset[0] as int, offset[1] as int, offset[2] as int));
    if let Some(neighbor) = grid.offset_index(current, offset) {
        assert(grid.face_neighbor(current as int, k as int) == Some(neighbor as int));
        if occupancy[neighbor] != 0 && components[neighbor] == usize::MAX {
            components.set(neighbor, label);
            stack.push(neighbor);
            proof {
                lemma_labelled_count_update(old_comps, neighbor as int, label, occupancy@.len() as int);
                let occ = occupancy@;
                let comps = components@;
                let g = *grid;
                assert(face_adjacent(g, occ, current as int, neighbor as int));
                assert(face_connected(g, occ, roots[label as int], current as int));
                lemma_connected_extend(g, occ, roots[label as int], current as int, neighbor as int);
                assert forall|i: int|
                    0 <= i < occ.len() && #[trigger] comps[i] != no_component() implies {
                    &&& is_occupied(occ, i)
                    &&& comps[i] <= label
                    &&& face_connected(g, occ, roots[comps[i] as int], i)
                    &&& (stack@.push(current).contains(i as usize) || closed(g, occ, comps, i))
                } by {
                    if i == neighbor {
                        assert(stack@.push(current)[stack@.len() - 1] == neighbor);
                    } else {
                        assert(old_comps[i] == comps[i]);
                        if old_stack.push(current).contains(i as usize) {
                            let t = choose|t: int| 0 <= t < old_stack.push(current).len() && old_stack.push(current)[t] == i as usize;
                            if t < old_stack.len() {
                                assert(stack@.push(current)[t] == i as usize);
                            } else {
                                assert(stack@.push(current)[stack@.len() as int] == i as usize);
                            }
                        } else {
                            assert(closed(g, occ, old_comps, i));
                            assert forall|k3: int| 0 <= k3 < 6 implies closed_in(g, occ, comps, i, k3) by {
                                assert(closed_in(g, occ, old_comps, i, k3));
                                if let Some(j) = g.face_neighbor(i, k3) {
                                    if is_occupied(occ, j) {
                                        assert(old_comps[j] == old_comps[i]);
                                        assert(j != neighbor);
                                    }
                                }
                            }
                        }
                    }
                }
                assert forall|t: int| 0 <= t < stack@.push(current).len() implies #[trigger] stack@.push(current)[t] < occ.len()
                    && comps[stack@.push(current)[t] as int] == label by {
                    if t < old_stack.len() {
                        assert(stack@.push(current)[t] == old_stack.push(current)[t]);
                    } else if t == old_stack.len() {
                        assert(stack@.push(current)[t] == neighbor);
                    } else {
                        assert(stack@.push(current)[t] == current);
                    }
                }
                assert forall|k2: int| 0 <= k2 <= k implies closed_in(g, occ, comps, current as int, k2) by {
                    if k2 < k {
                        assert(closed_in(g, occ, old_comps, current as int, k2));
                        if let Some(j) = g.face_neighbor(current as int, k2) {
                            if is_occupied(occ, j) {
                                assert(j != neighbor);
                            }
                        }
                    }
                }
            }
        } else {
            proof {
                let occ = occupancy@;
                if occ[neighbor as int] != 0 {
                    let c = components@[neighbor as int];
                    assert(c != no_component());
                    // The neighbour already carries a label; it must be `label`.
                    if c != label {
                        assert(c < label);
                        assert(!stack@.push(current).contains(neighbor)) by {
                            if stack@.push(current).contains(neighbor) {
                                let t = choose|t: int| 0 <= t < stack@.push(current).len() && stack@.push(current)[t] == neighbor;
                                assert(components@[stack@.push(current)[t] as int] == label);
                            }
                        }
                        assert(closed(*grid, occ, components@, neighbor as int));
                        lemma_face_neighbor_symmetric(*grid, current as int, k as int);
                        let back = opposite_face(k as int);
                        assert(closed_in(*grid, occ, components@, neighbor as int, back));
                        assert(false);
                    }
                }
            }
        }
    }
}

/// The face-connected components of the occupied voxels: entry `i` is
/// `usize::MAX` for an unoccupied voxel and otherwise a component label, with
/// two occupied voxels sharing a label exactly when a face-sharing walk
/// through occupied voxels joins them.
pub fn occupied_components(occupancy: &[u8], grid: &Grid) -> (r: Vec<usize>)
    requires
        grid.wf(),
        occupancy@.len() == grid.spec_voxel_count(),
    ensures
        is_component_labelling(*grid, occupancy@, r@),
        forall|i: int|
            0 <= i < occupancy@.len() && is_first_of_component(*grid, occupancy@, i) ==> #[trigger] r@[i]
                == components_before(*grid, occupancy@, i),
{
    let n = occupancy.len();
    let mut components: Vec<usize> = Vec::new();
    let mut i: usize = 0;
    while i < n
        invariant
            i <= n,
            components@.len() == i,
            forall|j: int| 0 <= j < i ==> components@[j] == no_component(),
        decreases n - i,
    {
        components.push(usize::MAX);
        i += 1;
    }
    let mut next_component: usize = 0;
    let mut stack: Vec<usize> = Vec::new();
    let ghost mut roots: Seq<int> = Seq::empty();
    let ghost occ = occupancy@;
    let ghost g = *grid;

    let mut index: usize = 0;
    while index < n
        invariant
            grid.wf(),
            n == occ.len(),
            occ == occupancy@,
            g == *grid,
            occ.len() == g.spec_voxel_count(),
            components@.len() == n,
            index <= n,
            next_component <= index,
            stack@.len() == 0,
            roots.len() == next_component,
            forall|c: int| 0 <= c < next_component ==> 0 <= #[trigger] roots[c] < n && components@[roots[c]] == c,
            forall|j: int|
                0 <= j < n && #[trigger] components@[j] != no_component() ==> {
                    &&& is_occupied(occ, j)
                    &&& components@[j] < next_component
                    &&& face_connected(g, occ, roots[components@[j] as int], j)
                    &&& closed(g, occ, components@, j)
                },
            forall|j: int| 0 <= j < index && is_occupied(occ, j) ==> #[trigger] components@[j] != no_component(),
            numbered_roots(g, occ, roots, next_component as int, index as int),
            components_before(g, occ, index as int) == next_component,
        decreases n - index,
    {
        if occupancy[index] == 0 || components[index] != usize::MAX {
            proof {
                if is_occupied(occ, index as int) {
                    let c = components@[index as int] as int;
                    assert(components@[index as int] != no_component());
                    assert(face_connected(g, occ, roots[c], index as int));
                    assert(roots[c] < index);
                }
                assert(!is_first_of_component(g, occ, index as int));
            }
            index += 1;
            continue;
        }
        proof {
            assert forall|j: int| 0 <= j < index implies !#[trigger] face_connected(g, occ, j, index as int) by {
                if face_connected(g, occ, j, index as int) {
                    let p = choose|p: Seq<int>| #[trigger] is_face_path(g, occ, p) && p[0] == j && p.last() == index as int;
                    assert(is_occupied(occ, p[0]));
                    assert(components@[j] != no_component());
                    lemma_path_keeps_label(g, occ, components@, p, p.len() - 1);
                }
            }
            assert(is_first_of_component(g, occ, index as int));
        }
        let label = next_component;
        components.set(index, label);
        stack.push(index);
        proof {
            let old_roots = roots;
            roots = roots.push(index as int);
            assert forall|c: int| 0 <= c < label + 1 implies #[trigger] roots[c] < index + 1
                && is_first_of_component(g, occ, roots[c]) && components_before(g, occ, roots[c]) == c by {
                if c < label {
                    assert(roots[c] == old_roots[c]);
                }
            }
            lemma_connected_refl(g, occ, index as int);
            assert(fill_invariant(g, occ, components@, stack@, roots, label as int)) by {
                assert forall|j: int|
                    0 <= j < occ.len() && #[trigger] components@[j] != no_component() implies {
                    &&& is_occupied(occ, j)
                    &&& components@[j] <= label
                    &&& face_connected(g, occ, roots[components@[j] as int], j)
                    &&& (stack@.contains(j as usize) || closed(g, occ, components@, j))
                } by {
                    if j == index {
                        assert(stack@[0] == index);
                    } else {
                        let old_comps = components@.update(index as int, no_component());
                        assert(closed(g, occ, old_comps, j));
                        assert forall|k3: int| 0 <= k3 < 6 implies closed_in(g, occ, components@, j, k3) by {
                            assert(closed_in(g, occ, old_comps, j, k3));
                        }
                    }
                }
            }
        }
        while stack.len() > 0
            invariant
                grid.wf(),
                occ == occupancy@,
                g == *grid,
                label < no_component(),
                fill_invariant(g, occ, components@, stack@, roots, label as int),
                forall|j: int| 0 <= j <= index && is_occupied(occ, j) ==> #[trigger] components@[j] != no_component(),
                forall|j: int| 0 <= j < index && is_occupied(occ, j) ==> #[trigger] components@[j] != no_component(),
                numbered_roots(g, occ, roots, label + 1, index + 1),
                components_before(g, occ, index as int) == label,
                is_first_of_component(g, occ, index as int),
            decreases occ.len() - labelled_count(components@, occ.len() as int), stack@.len(),
        {
            let ghost before = components@;
            let ghost before_len = stack@.len();
            let ghost before_stack = stack@;
            let current = stack.pop().unwrap();
            assert(stack@.push(current) =~= before_stack);
            let mut k: usize = 0;
            while k < 6
                invariant
                    grid.wf(),
                    occ == occupancy@,
                    g == *grid,
                    label < no_component(),
                    current < occ.len(),
                    k <= 6,
                    components@[current as int] == label,
                    fill_invariant(g, occ, components@, stack@.push(current), roots, label as int),
                    forall|k2: int| 0 <= k2 < k ==> closed_in(g, occ, components@, current as int, k2),
                    forall|j: int| 0 <= j <= index && is_occupied(occ, j) ==> #[trigger] components@[j] != no_component(),
                    numbered_roots(g, occ, roots, label + 1, index + 1),
                    components_before(g, occ, index as int) == label,
                    is_first_of_component(g, occ, index as int),
                    labelled_count(components@, occ.len() as int) >= labelled_count(before, occ.len() as int),
                    stack@.len() + labelled_count(before, occ.len() as int) + 1
                        == before_len + labelled_count(components@, occ.len() as int),
                decreases 6 - k,
            {
                label_face_neighbor(grid, occupancy, &mut components, &mut stack, Ghost(roots), current, k, label);
                k += 1;
            }
            proof {
                lemma_labelled_count_bounds(components@, occ.len() as int);
                assert(closed(g, occ, components@, current as int));
                assert forall|j: int|
                    0 <= j < occ.len() && #[trigger] components@[j] != no_component() implies
                    (stack@.contains(j as usize) || closed(g, occ, components@, j)) by {
                    if j != current as int && stack@.push(current).contains(j as usize) {
                        let t = choose|t: int| 0 <= t < stack@.push(current).len() && stack@.push(current)[t] == j as usize;
                        assert(t < stack@.len());
                        assert(stack@[t] == j as usize);
                    }
                }
                assert forall|t: int| 0 <= t < stack@.len() implies #[trigger] stack@[t] < occ.len()
                    && components@[stack@[t] as int] == label by {
                    assert(stack@[t] == stack@.push(current)[t]);
                }
            }
        }
        proof {
            assert forall|j: int|
                0 <= j < n && #[trigger] components@[j] != no_component() implies closed(g, occ, components@, j) by {
                assert(!stack@.contains(j as usize));
            }
        }
        assert(components_before(g, occ, index + 1) == components_before(g, occ, index as int) + 1);
        next_component = next_component + 1;
        index += 1;
    }
    proof {
        assert forall|i: int| 0 <= i < occ.len() && is_first_of_component(g, occ, i) implies #[trigger] components@[i]
            == components_before(g, occ, i) by {
            assert(is_occupied(occ, i));
            assert(components@[i] != no_component());
            let c = components@[i] as int;
            let r = roots[c];
            assert(face_connected(g, occ, r, i));
            assert(is_first_of_component(g, occ, r));
            if r < i {
                assert(!face_connected(g, occ, r, i));
            } else if r > i {
                lemma_connected_symmetric(g, occ, r, i);
                assert(!face_connected(g, occ, i, r));
            }
        }
        assert forall|i: int| 0 <= i < occ.len() implies (#[trigger] components@[i] == no_component()) == (occ[i] == 0) by {
            if occ[i] != 0 {
                assert(is_occupied(occ, i));
            }
        }
        assert forall|i: int, j: int|
            #![trigger components@[i], components@[j]]
            is_occupied(occ, i) && is_occupied(occ, j) implies ((components@[i] == components@[j]) <==> face_connected(
                g,
                occ,
                i,
                j,
            )) by {
            assert(components@[i] != no_component());
            assert(components@[j] != no_component());
            if components@[i] == components@[j] {
                let root = roots[components@[i] as int];
                lemma_connected_symmetric(g, occ, root, i);
                lemma_connected_trans(g, occ, i, root, j);
            }
            if face_connected(g, occ, i, j) {
                let p = choose|p: Seq<int>| #[trigger] is_face_path(g, occ, p) && p[0] == i && p.last() == j;
                assert forall|v: int| is_occupied(occ, v) implies #[trigger] closed(g, occ, components@, v) by {
                    assert(components@[v] != no_component());
                }
                lemma_path_same_label(g, occ, components@, p, p.len() - 1);
            }
        }
    }
    components
}

/// Face-connectivity through occupied voxels is an equivalence relation on
/// the occupied voxels, so the component labels partition them: every
/// occupied voxel is connected to itself, connection is symmetric, and it
/// is transitive.
pub proof fn lemma_face_connected_equivalence(g: Grid, occ: Seq<u8>, a: int, b: int, c: int)
    requires
        occ.len() == g.spec_voxel_count(),
    ensures
        is_occupied(occ, a) ==> face_connected(g, occ, a, a),
        face_connected(g, occ, a, b) ==> face_connected(g, occ, b, a),
        face_connected(g, occ, a, b) && face_connected(g, occ, b, c) ==> face_connected(g, occ, a, c),
{
    if is_occupied(occ, a) {
        lemma_connected_refl(g, occ, a);
    }
    if face_connected(g, occ, a, b) {
        lemma_connected_symmetric(g, occ, a, b);
        if face_connected(g, occ, b, c) {
            lemma_connected_trans(g, occ, a, b, c);
        }
    }
}

} // verus!
