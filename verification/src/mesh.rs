//! Mesh topology: the boundary edges of a triangle mesh (edges used by
//! exactly one triangle side), the vertices on them, and the neighbour
//! lists of the vertices along the triangle sides.

use vstd::multiset::Multiset;
use vstd::prelude::*;

verus! {

/// A mesh triangle refers to a vertex that does not exist.
#[derive(Clone, Copy, Debug, PartialEq, Eq, Structural)]
pub enum MeshError {
    VertexOutOfBounds,
}

impl MeshError {
    /// The human-readable description of the error.
    pub fn message(&self) -> (r: String)
        ensures
            r@ == "mesh triangle references an out-of-bounds vertex"@,
    {
        String::from_str("mesh triangle references an out-of-bounds vertex")
    }
}

/// The undirected edge `{a, b}` with its smaller end first.
pub open spec fn spec_ordered_edge(a: usize, b: usize) -> [usize; 2] {
    if a < b {
        [a, b]
    } else {
        [b, a]
    }
}

/// The three edges of every triangle, in triangle order.
pub open spec fn triangle_edge_list(triangles: Seq<[usize; 3]>) -> Seq<[usize; 2]>
    decreases triangles.len(),
{
    if triangles.len() == 0 {
        Seq::empty()
    } else {
        let t = triangles.last();
        triangle_edge_list(triangles.drop_last()) + seq![
            spec_ordered_edge(t[0], t[1]),
            spec_ordered_edge(t[1], t[2]),
            spec_ordered_edge(t[2], t[0]),
        ]
    }
}

/// How often `e` occurs in `s`.
pub open spec fn occurrences(s: Seq<[usize; 2]>, e: [usize; 2]) -> nat
    decreases s.len(),
{
    if s.len() == 0 {
        0
    } else {
        occurrences(s.drop_last(), e) + if s.last() == e {
            1nat
        } else {
            0nat
        }
    }
}

/// `e` is used by exactly one triangle side.
pub open spec fn is_boundary_edge(triangles: Seq<[usize; 3]>, e: [usize; 2]) -> bool {
    occurrences(triangle_edge_list(triangles), e) == 1
}

/// Every triangle refers only to vertices below `vertex_count`.
pub open spec fn triangles_in_bounds(vertex_count: int, triangles: Seq<[usize; 3]>) -> bool {
    forall|t: int, c: int| 0 <= t < triangles.len() && 0 <= c < 3 ==> #[trigger] triangles[t][c] < vertex_count
}

/// Lexicographic order on edges.
pub open spec fn edge_lt(a: [usize; 2], b: [usize; 2]) -> bool {
    a[0] < b[0] || (a[0] == b[0] && a[1] < b[1])
}

/// Lexicographic order on edges, or equality.
pub open spec fn edge_le(a: [usize; 2], b: [usize; 2]) -> bool {
    edge_lt(a, b) || a == b
}

/// `s` is in non-decreasing lexicographic order.
pub open spec fn edges_sorted(s: Seq<[usize; 2]>) -> bool {
    forall|i: int, j: int| 0 <= i < j < s.len() ==> edge_le(#[trigger] s[i], #[trigger] s[j])
}

/// `s` is in strictly increasing lexicographic order.
pub open spec fn edges_strictly_sorted(s: Seq<[usize; 2]>) -> bool {
    forall|i: int, j: int| 0 <= i < j < s.len() ==> edge_lt(#[trigger] s[i], #[trigger] s[j])
}

/// The edge `{a, b}` with its smaller end first.
pub fn ordered_edge(a: usize, b: usize) -> (r: [usize; 2])
    ensures
        r == spec_ordered_edge(a, b),
{
    if a < b {
        [a, b]
    } else {
        [b, a]
    }
}

/// Records one more use of the edge between `a` and `b`.
pub fn count_edge(edges: &mut Vec<[usize; 2]>, a: usize, b: usize)
    ensures
        final(edges)@ == old(edges)@.push(spec_ordered_edge(a, b)),
{
    edges.push(ordered_edge(a, b));
}

/// Sorts `edges` in place with `slice::sort_unstable`.
///
/// The standard library documents that the slice ends up a permutation of its
/// input in ascending `Ord` order, and that arrays compare lexicographically;
/// this is what the contract states.
#[verifier::external_body]
fn sort_edges(edges: &mut Vec<[usize; 2]>)
    ensures
        final(edges)@.to_multiset() == old(edges)@.to_multiset(),
        edges_sorted(final(edges)@),
{
    edges.sort_unstable();
}

proof fn lemma_occurrences_concat(a: Seq<[usize; 2]>, b: Seq<[usize; 2]>, e: [usize; 2])
    ensures
        occurrences(a + b, e) == occurrences(a, e) + occurrences(b, e),
    decreases b.len(),
{
    if b.len() > 0 {
        lemma_occurrences_concat(a, b.drop_last(), e);
        assert((a + b).drop_last() =~= a + b.drop_last());
    } else {
        assert(a + b =~= a);
    }
}

proof fn lemma_occurrences_none(s: Seq<[usize; 2]>, e: [usize; 2])
    requires
        forall|k: int| 0 <= k < s.len() ==> s[k] != e,
    ensures
        occurrences(s, e) == 0,
    decreases s.len(),
{
    if s.len() > 0 {
        lemma_occurrences_none(s.drop_last(), e);
    }
}

proof fn lemma_occurrences_all(s: Seq<[usize; 2]>, e: [usize; 2])
    requires
        forall|k: int| 0 <= k < s.len() ==> s[k] == e,
    ensures
        occurrences(s, e) == s.len(),
    decreases s.len(),
{
    if s.len() > 0 {
        lemma_occurrences_all(s.drop_last(), e);
    }
}

proof fn lemma_occurrences_multiset(s: Seq<[usize; 2]>, e: [usize; 2])
    ensures
        occurrences(s, e) == s.to_multiset().count(e),
    decreases s.len(),
{
    broadcast use vstd::seq_lib::group_to_multiset_ensures;
    if s.len() > 0 {
        lemma_occurrences_multiset(s.drop_last(), e);
        assert(s =~= s.drop_last().push(s.last()));
        assert(s.to_multiset() =~= s.drop_last().to_multiset().insert(s.last()));
    } else {
        assert(s.to_multiset() =~= Multiset::empty());
    }
}

/// In a sorted sequence, the occurrences of the value of a maximal run are
/// the run's length, and values strictly between two runs do not occur.
proof fn lemma_run_occurrences(s: Seq<[usize; 2]>, i: int, j: int)
    requires
        edges_sorted(s),
        0 <= i < j <= s.len(),
        forall|k: int| i <= k < j ==> s[k] == s[i],
        i == 0 || s[i - 1] != s[i],
        j == s.len() || s[j] != s[i],
    ensures
        occurrences(s, s[i]) == j - i,
        forall|e: [usize; 2]|
            edge_lt(s[i], e) && (j == s.len() || edge_lt(e, s[j])) ==> occurrences(s, e) == 0,
{
    let e0 = s[i];
    let a = s.subrange(0, i);
    let b = s.subrange(i, j);
    let c = s.subrange(j, s.len() as int);
    assert(s =~= a + b + c);
    assert forall|k: int| 0 <= k < a.len() implies a[k] != e0 by {
        assert(a[k] == s[k]);
        assert(edge_le(s[k], s[i - 1]) || k == i - 1);
        assert(edge_le(s[i - 1], s[i]));
    }
    assert forall|k: int| 0 <= k < c.len() implies c[k] != e0 by {
        assert(c[k] == s[j + k]);
        assert(edge_le(s[j], s[j + k]) || k == 0);
        assert(edge_le(s[i], s[j]));
    }
    lemma_occurrences_none(a, e0);
    lemma_occurrences_all(b, e0);
    lemma_occurrences_none(c, e0);
    lemma_occurrences_concat(a + b, c, e0);
    lemma_occurrences_concat(a, b, e0);
    assert forall|e: [usize; 2]|
        edge_lt(s[i], e) && (j == s.len() || edge_lt(e, s[j])) implies occurrences(s, e) == 0 by {
        assert forall|k: int| 0 <= k < s.len() implies s[k] != e by {
            if k < j {
                if k < i {
                    assert(edge_le(s[k], s[i]));
                } else {
                    assert(s[k] == s[i]);
                }
            } else {
                assert(edge_le(s[j], s[k]) || k == j);
            }
        }
        lemma_occurrences_none(s, e);
    }
}

/// Checks that every triangle refers to existing vertices.
fn check_triangles(vertex_count: usize, triangles: &[[usize; 3]]) -> (r: Result<(), MeshError>)
    ensures
        r is Ok <==> triangles_in_bounds(vertex_count as int, triangles@),
{
    let mut t: usize = 0;
    while t < triangles.len()
        invariant
            t <= triangles@.len(),
            forall|u: int, c: int| 0 <= u < t && 0 <= c < 3 ==> #[trigger] triangles@[u][c] < vertex_count,
        decreases triangles@.len() - t,
    {
        let triangle = triangles[t];
        if triangle[0] >= vertex_count || triangle[1] >= vertex_count || triangle[2] >= vertex_count {
            assert(!triangles_in_bounds(vertex_count as int, triangles@)) by {
                if triangle[0] >= vertex_count {
                    assert(triangles@[t as int][0] >= vertex_count);
                } else if triangle[1] >= vertex_count {
                    assert(triangles@[t as int][1] >= vertex_count);
                } else {
                    assert(triangles@[t as int][2] >= vertex_count);
                }
            }
            return Err(MeshError::VertexOutOfBounds);
        }
        assert forall|u: int, c: int| 0 <= u < t + 1 && 0 <= c < 3 implies #[trigger] triangles@[u][c] < vertex_count by {
            if u == t {
                if c == 0 {
                } else if c == 1 {
                } else {
                }
            }
        }
        t += 1;
    }
    Ok(())
}

/// The edges of `triangles` that belong to exactly one triangle side, in
/// increasing lexicographic order, each with its smaller vertex first.
pub fn boundary_edges(vertex_count: usize, triangles: &[[usize; 3]]) -> (r: Result<Vec<[usize; 2]>, MeshError>)
    ensures
        r is Err <==> !triangles_in_bounds(vertex_count as int, triangles@),
        r matches Ok(edges) ==> {
            &&& edges_strictly_sorted(edges@)
            &&& forall|e: [usize; 2]| edges@.contains(e) <==> is_boundary_edge(triangles@, e)
        },
{
    check_triangles(vertex_count, triangles)?;

    let mut edges: Vec<[usize; 2]> = Vec::new();
    let mut t: usize = 0;
    while t < triangles.len()
        invariant
            t <= triangles@.len(),
            edges@ == triangle_edge_list(triangles@.subrange(0, t as int)),
        decreases triangles@.len() - t,
    {
        let triangle = triangles[t];
        count_edge(&mut edges, triangle[0], triangle[1]);
        count_edge(&mut edges, triangle[1], triangle[2]);
        count_edge(&mut edges, triangle[2], triangle[0]);
        proof {
            let prefix = triangles@.subrange(0, t + 1);
            assert(prefix.drop_last() =~= triangles@.subrange(0, t as int));
            assert(prefix.last() == triangle);
            assert(edges@ =~= triangle_edge_list(prefix));
        }
        t += 1;
    }
    assert(triangles@.subrange(0, triangles@.len() as int) =~= triangles@);
    let ghost all_edges = edges@;
    sort_edges(&mut edges);
    proof {
        assert forall|e: [usize; 2]| occurrences(edges@, e) == occurrences(all_edges, e) by {
            lemma_occurrences_multiset(edges@, e);
            lemma_occurrences_multiset(all_edges, e);
        }
    }

    let n = edges.len();
    let mut boundary: Vec<[usize; 2]> = Vec::new();
    proof {
        assert forall|e: [usize; 2]| !(occurrences(edges@, e) == 1 && (0 == n || edge_lt(e, edges@[0]))) by {
            if n > 0 && edge_lt(e, edges@[0]) {
                assert forall|k: int| 0 <= k < edges@.len() implies edges@[k] != e by {
                    assert(edge_le(edges@[0], edges@[k]) || k == 0);
                }
                lemma_occurrences_none(edges@, e);
            }
        }
    }
    let mut i: usize = 0;
    while i < n
        invariant
            n == edges@.len(),
            edges_sorted(edges@),
            i <= n,
            i == 0 || i == n || edges@[i - 1] != edges@[i as int],
            edges_strictly_sorted(boundary@),
            i < n ==> forall|a: int| 0 <= a < boundary@.len() ==> edge_lt(#[trigger] boundary@[a], edges@[i as int]),
            forall|e: [usize; 2]|
                boundary@.contains(e) <==> (occurrences(edges@, e) == 1 && (i == n || edge_lt(e, edges@[i as int]))),
        decreases n - i,
    {
        let current = edges[i];
        let mut j = i + 1;
        while j < n && edges[j][0] == current[0] && edges[j][1] == current[1]
            invariant
                n == edges@.len(),
                i < j <= n,
                current == edges@[i as int],
                forall|k: int| i <= k < j ==> edges@[k] == current,
            decreases n - j,
        {
            j += 1;
        }
        proof {
            if j < n {
                assert(edges@[j as int] != current);
            }
            lemma_run_occurrences(edges@, i as int, j as int);
        }
        let ghost old_boundary = boundary@;
        if j - i == 1 {
            boundary.push(current);
        }
        proof {
            if j < n {
                assert(edge_le(current, edges@[j as int]));
                assert(edge_lt(current, edges@[j as int]));
            }
            assert forall|e: [usize; 2]|
                boundary@.contains(e) <==> (occurrences(edges@, e) == 1 && (j == n || edge_lt(e, edges@[j as int]))) by {
                if boundary@.contains(e) && !old_boundary.contains(e) {
                    assert(e == current);
                }
                if old_boundary.contains(e) {
                    assert(boundary@.contains(e)) by {
                        let a = choose|a: int| 0 <= a < old_boundary.len() && old_boundary[a] == e;
                        assert(boundary@[a] == e);
                    }
                }
                if e == current && j - i == 1 {
                    assert(boundary@[boundary@.len() - 1] == e);
                }
                if occurrences(edges@, e) == 1 && (j == n || edge_lt(e, edges@[j as int])) {
                    if !edge_lt(e, current) && e != current {
                        if e[0] == current[0] && e[1] == current[1] {
                            assert(e =~= current);
                        }
                        assert(edge_lt(current, e));
                    }
                }
            }
        }
        i = j;
    }
    proof {
        assert forall|e: [usize; 2]| boundary@.contains(e) <==> is_boundary_edge(triangles@, e) by {
            assert(occurrences(edges@, e) == occurrences(all_edges, e));
        }
    }
    Ok(boundary)
}

/// `v` is an end of some boundary edge.
pub open spec fn on_boundary(triangles: Seq<[usize; 3]>, v: int) -> bool {
    exists|e: [usize; 2]| #[trigger] is_boundary_edge(triangles, e) && (e[0] == v || e[1] == v)
}

proof fn lemma_edge_list_in_bounds(vertex_count: int, triangles: Seq<[usize; 3]>)
    requires
        triangles_in_bounds(vertex_count, triangles),
    ensures
        forall|k: int|
            0 <= k < triangle_edge_list(triangles).len() ==> #[trigger] triangle_edge_list(triangles)[k][0]
                < vertex_count && triangle_edge_list(triangles)[k][1] < vertex_count,
        triangle_edge_list(triangles).len() == 3 * triangles.len(),
    decreases triangles.len(),
{
    if triangles.len() > 0 {
        let init = triangles.drop_last();
        assert forall|t: int, c: int| 0 <= t < init.len() && 0 <= c < 3 implies #[trigger] init[t][c] < vertex_count by {
            assert(init[t] == triangles[t]);
        }
        lemma_edge_list_in_bounds(vertex_count, init);
        let last = triangles.last();
        assert(last[0] < vertex_count && last[1] < vertex_count && last[2] < vertex_count) by {
            assert(triangles[triangles.len() - 1][0] < vertex_count);
            assert(triangles[triangles.len() - 1][1] < vertex_count);
            assert(triangles[triangles.len() - 1][2] < vertex_count);
        }
        let list = triangle_edge_list(triangles);
        let prev = triangle_edge_list(init);
        assert forall|k: int| 0 <= k < list.len() implies #[trigger] list[k][0] < vertex_count && list[k][1]
            < vertex_count by {
            if k < prev.len() {
                assert(list[k] == prev[k]);
            }
        }
    }
}

proof fn lemma_occurring_is_element(s: Seq<[usize; 2]>, e: [usize; 2])
    requires
        occurrences(s, e) > 0,
    ensures
        exists|k: int| 0 <= k < s.len() && s[k] == e,
    decreases s.len(),
{
    if s.last() != e {
        lemma_occurring_is_element(s.drop_last(), e);
        let k = choose|k: int| 0 <= k < s.drop_last().len() && s.drop_last()[k] == e;
        assert(s[k] == e);
    } else {
        assert(s[s.len() - 1] == e);
    }
}

/// The vertices that lie on a boundary edge, in increasing order.
pub fn boundary_vertices(vertex_count: usize, triangles: &[[usize; 3]]) -> (r: Result<Vec<usize>, MeshError>)
    ensures
        r is Err <==> !triangles_in_bounds(vertex_count as int, triangles@),
        r matches Ok(vertices) ==> {
            &&& forall|a: int, b: int| 0 <= a < b < vertices@.len() ==> #[trigger] vertices@[a] < #[trigger] vertices@[b]
            &&& forall|v: usize| vertices@.contains(v) <==> on_boundary(triangles@, v as int)
        },
{
    let edges = boundary_edges(vertex_count, triangles)?;
    proof {
        lemma_edge_list_in_bounds(vertex_count as int, triangles@);
    }
    let mut is_boundary: Vec<bool> = Vec::new();
    let mut v: usize = 0;
    while v < vertex_count
        invariant
            v <= vertex_count,
            is_boundary@.len() == v,
            forall|u: int| 0 <= u < v ==> !is_boundary@[u],
        decreases vertex_count - v,
    {
        is_boundary.push(false);
        v += 1;
    }
    let mut a: usize = 0;
    while a < edges.len()
        invariant
            a <= edges@.len(),
            is_boundary@.len() == vertex_count,
            forall|e: [usize; 2]| edges@.contains(e) <==> is_boundary_edge(triangles@, e),
            forall|k: int|
                0 <= k < triangle_edge_list(triangles@).len() ==> #[trigger] triangle_edge_list(triangles@)[k][0]
                    < vertex_count && triangle_edge_list(triangles@)[k][1] < vertex_count,
            forall|u: int|
                0 <= u < vertex_count ==> (#[trigger] is_boundary@[u] <==> exists|b: int|
                    0 <= b < a && (edges@[b][0] == u || edges@[b][1] == u)),
        decreases edges@.len() - a,
    {
        let edge = edges[a];
        proof {
            assert(edges@.contains(edge));
            lemma_occurring_is_element(triangle_edge_list(triangles@), edge);
        }
        let ghost before = is_boundary@;
        is_boundary.set(edge[0], true);
        is_boundary.set(edge[1], true);
        proof {
            assert forall|u: int| 0 <= u < vertex_count implies (#[trigger] is_boundary@[u] <==> exists|b: int|
                0 <= b < a + 1 && (edges@[b][0] == u || edges@[b][1] == u)) by {
                if is_boundary@[u] && !before[u] {
                    assert(edges@[a as int][0] == u || edges@[a as int][1] == u);
                }
                if exists|b: int| 0 <= b < a + 1 && (edges@[b][0] == u || edges@[b][1] == u) {
                    let b = choose|b: int| 0 <= b < a + 1 && (edges@[b][0] == u || edges@[b][1] == u);
                    if b < a {
                        assert(before[u]);
                    }
                }
            }
        }
        a += 1;
    }
    let mut vertices: Vec<usize> = Vec::new();
    let mut u: usize = 0;
    while u < vertex_count
        invariant
            u <= vertex_count,
            is_boundary@.len() == vertex_count,
            forall|a: int, b: int| 0 <= a < b < vertices@.len() ==> #[trigger] vertices@[a] < #[trigger] vertices@[b],
            forall|b: int| 0 <= b < vertices@.len() ==> #[trigger] vertices@[b] < u,
            forall|w: usize| vertices@.contains(w) <==> (w < u && is_boundary@[w as int]),
        decreases vertex_count - u,
    {
        let ghost before = vertices@;
        if is_boundary[u] {
            vertices.push(u);
        }
        proof {
            assert forall|w: usize| vertices@.contains(w) <==> (w < u + 1 && is_boundary@[w as int]) by {
                if before.contains(w) {
                    let b = choose|b: int| 0 <= b < before.len() && before[b] == w;
                    assert(vertices@[b] == w);
                }
                if w == u && is_boundary@[w as int] {
                    assert(vertices@[vertices@.len() - 1] == w);
                }
            }
        }
        u += 1;
    }
    proof {
        assert forall|w: usize| vertices@.contains(w) <==> on_boundary(triangles@, w as int) by {
            if vertices@.contains(w) {
                let b = choose|b: int| 0 <= b < edges@.len() && (edges@[b][0] == w || edges@[b][1] == w);
                assert(edges@.contains(edges@[b]));
                assert(is_boundary_edge(triangles@, edges@[b]));
            }
            if on_boundary(triangles@, w as int) {
                let e = choose|e: [usize; 2]| #[trigger] is_boundary_edge(triangles@, e) && (e[0] == w || e[1] == w);
                assert(edges@.contains(e));
                let b = choose|b: int| 0 <= b < edges@.len() && edges@[b] == e;
                lemma_occurring_is_element(triangle_edge_list(triangles@), e);
                let k = choose|k: int| 0 <= k < triangle_edge_list(triangles@).len() && triangle_edge_list(triangles@)[k] == e;
                assert(triangle_edge_list(triangles@)[k][0] < vertex_count);
                assert(w < vertex_count);
                assert(is_boundary@[w as int]);
            }
        }
    }
    Ok(vertices)
}

/// The neighbours that the side `{a, b}` gives vertex `v`: `b` when `v` is
/// `a`, then `a` when `v` is `b`.
pub open spec fn side_neighbors(a: usize, b: usize, v: int) -> Seq<usize> {
    (if a == v {
        seq![b]
    } else {
        Seq::empty()
    }) + (if b == v {
        seq![a]
    } else {
        Seq::empty()
    })
}

/// The neighbours of vertex `v` along the sides of `triangles`, in triangle
/// order and, within a triangle, in the order of its sides `(0, 1)`,
/// `(1, 2)`, `(2, 0)`; a vertex appears once for every side it shares.
pub open spec fn neighbor_list(triangles: Seq<[usize; 3]>, v: int) -> Seq<usize>
    decreases triangles.len(),
{
    if triangles.len() == 0 {
        Seq::empty()
    } else {
        let t = triangles.last();
        neighbor_list(triangles.drop_last(), v) + side_neighbors(t[0], t[1], v) + side_neighbors(t[1], t[2], v)
            + side_neighbors(t[2], t[0], v)
    }
}

fn add_side(adjacency: &mut Vec<Vec<usize>>, a: usize, b: usize)
    requires
        a < old(adjacency)@.len(),
        b < old(adjacency)@.len(),
    ensures
        final(adjacency)@.len() == old(adjacency)@.len(),
        forall|v: int|
            0 <= v < old(adjacency)@.len() ==> #[trigger] final(adjacency)@[v]@ == old(adjacency)@[v]@
                + side_neighbors(a, b, v),
{
    let ghost before = adjacency@;
    adjacency[a].push(b);
    let ghost middle = adjacency@;
    adjacency[b].push(a);
    assert forall|v: int| 0 <= v < before.len() implies #[trigger] adjacency@[v]@ == before[v]@ + side_neighbors(a, b, v) by {
        if v == a as int && v == b as int {
            assert(adjacency@[v]@ =~= before[v]@ + seq![b] + seq![a]);
        } else if v == a as int {
            assert(adjacency@[v]@ =~= before[v]@ + seq![b]);
        } else if v == b as int {
            assert(adjacency@[v]@ =~= before[v]@ + seq![a]);
        } else {
            assert(adjacency@[v]@ =~= before[v]@);
        }
    }
}

/// The neighbour lists of the vertices of a mesh with `vertex_count`
/// vertices: entry `v` lists the vertices that share a triangle side with
/// `v` (see `neighbor_list`). A triangle with a vertex outside the mesh is
/// an error.
pub fn vertex_neighbors(vertex_count: usize, triangles: &[[usize; 3]]) -> (r: Result<Vec<Vec<usize>>, MeshError>)
    ensures
        r is Err <==> !triangles_in_bounds(vertex_count as int, triangles@),
        r matches Ok(adjacency) ==> {
            &&& adjacency@.len() == vertex_count
            &&& forall|v: int| 0 <= v < vertex_count ==> #[trigger] adjacency@[v]@ == neighbor_list(triangles@, v)
        },
{
    match check_triangles(vertex_count, triangles) {
        Ok(()) => {},
        Err(e) => return Err(e),
    }
    let mut adjacency: Vec<Vec<usize>> = Vec::new();
    let mut v: usize = 0;
    while v < vertex_count
        invariant
            v <= vertex_count,
            adjacency@.len() == v,
            forall|w: int| 0 <= w < v ==> #[trigger] adjacency@[w]@ == Seq::<usize>::empty(),
        decreases vertex_count - v,
    {
        adjacency.push(Vec::new());
        v += 1;
    }
    let mut t: usize = 0;
    while t < triangles.len()
        invariant
            t <= triangles@.len(),
            triangles_in_bounds(vertex_count as int, triangles@),
            adjacency@.len() == vertex_count,
            forall|w: int|
                0 <= w < vertex_count ==> #[trigger] adjacency@[w]@ == neighbor_list(triangles@.take(t as int), w),
        decreases triangles@.len() - t,
    {
        let triangle = triangles[t];
        assert(triangle[0] < vertex_count && triangle[1] < vertex_count && triangle[2] < vertex_count) by {
            assert(triangles@[t as int][0] < vertex_count);
            assert(triangles@[t as int][1] < vertex_count);
            assert(triangles@[t as int][2] < vertex_count);
        }
        add_side(&mut adjacency, triangle[0], triangle[1]);
        add_side(&mut adjacency, triangle[1], triangle[2]);
        add_side(&mut adjacency, triangle[2], triangle[0]);
        proof {
            let prefix = triangles@.take(t + 1);
            assert(prefix.drop_last() =~= triangles@.take(t as int));
            assert(prefix.last() == triangle);
        }
        t += 1;
    }
    assert(triangles@.take(t as int) =~= triangles@);
    Ok(adjacency)
}

/// How many times `x` occurs in `s`.
pub open spec fn times(s: Seq<usize>, x: usize) -> nat
    decreases s.len(),
{
    if s.len() == 0 {
        0
    } else {
        times(s.drop_last(), x) + if s.last() == x {
            1nat
        } else {
            0nat
        }
    }
}

proof fn lemma_times_concat(a: Seq<usize>, b: Seq<usize>, x: usize)
    ensures
        times(a + b, x) == times(a, x) + times(b, x),
    decreases b.len(),
{
    if b.len() > 0 {
        lemma_times_concat(a, b.drop_last(), x);
        assert((a + b).drop_last() =~= a + b.drop_last());
    } else {
        assert(a + b =~= a);
    }
}

proof fn lemma_side_times(a: usize, b: usize, v: usize, w: usize)
    ensures
        times(side_neighbors(a, b, v as int), w) == times(side_neighbors(a, b, w as int), v),
{
    let first = if a == v as int { seq![b] } else { Seq::<usize>::empty() };
    let second = if b == v as int { seq![a] } else { Seq::<usize>::empty() };
    let first_w = if a == w as int { seq![b] } else { Seq::<usize>::empty() };
    let second_w = if b == w as int { seq![a] } else { Seq::<usize>::empty() };
    lemma_times_concat(first, second, w);
    lemma_times_concat(first_w, second_w, v);
    lemma_times_single(a, v);
    lemma_times_single(a, w);
    lemma_times_single(b, v);
    lemma_times_single(b, w);
    assert(times(Seq::<usize>::empty(), v) == 0);
    assert(times(Seq::<usize>::empty(), w) == 0);
    assert(side_neighbors(a, b, v as int) == first + second);
    assert(side_neighbors(a, b, w as int) == first_w + second_w);
}

proof fn lemma_times_single(x: usize, y: usize)
    ensures
        times(seq![x], y) == if x == y {
            1nat
        } else {
            0nat
        },
{
    assert(times(Seq::<usize>::empty(), y) == 0);
    assert(seq![x].drop_last() =~= Seq::<usize>::empty());
    assert(seq![x].last() == x);
    assert(times(seq![x], y) == times(seq![x].drop_last(), y) + if seq![x].last() == y {
        1nat
    } else {
        0nat
    });
}

/// Side-sharing is symmetric: `w` occurs in the neighbour list of `v` as
/// often as `v` occurs in the neighbour list of `w`.
pub proof fn lemma_neighbors_symmetric(triangles: Seq<[usize; 3]>, v: usize, w: usize)
    ensures
        times(neighbor_list(triangles, v as int), w) == times(neighbor_list(triangles, w as int), v),
    decreases triangles.len(),
{
    if triangles.len() > 0 {
        let t = triangles.last();
        let rest = triangles.drop_last();
        lemma_neighbors_symmetric(rest, v, w);
        let s0v = side_neighbors(t[0], t[1], v as int);
        let s1v = side_neighbors(t[1], t[2], v as int);
        let s2v = side_neighbors(t[2], t[0], v as int);
        let s0w = side_neighbors(t[0], t[1], w as int);
        let s1w = side_neighbors(t[1], t[2], w as int);
        let s2w = side_neighbors(t[2], t[0], w as int);
        lemma_times_concat(neighbor_list(rest, v as int) + s0v + s1v, s2v, w);
        lemma_times_concat(neighbor_list(rest, v as int) + s0v, s1v, w);
        lemma_times_concat(neighbor_list(rest, v as int), s0v, w);
        lemma_times_concat(neighbor_list(rest, w as int) + s0w + s1w, s2w, v);
        lemma_times_concat(neighbor_list(rest, w as int) + s0w, s1w, v);
        lemma_times_concat(neighbor_list(rest, w as int), s0w, v);
        lemma_side_times(t[0], t[1], v, w);
        lemma_side_times(t[1], t[2], v, w);
        lemma_side_times(t[2], t[0], v, w);
    }
}

} // verus!
