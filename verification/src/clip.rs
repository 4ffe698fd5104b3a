//! The decisions of clipping a layer mesh against the part's solid: how a
//! ray-cast count classifies a point, and how a triangle is classified from
//! whether it touches the solid's surface and where its centroid lies.

use vstd::prelude::*;

verus! {

/// Where a point lies relative to a closed solid.
#[derive(Clone, Copy, Debug, PartialEq, Eq, Structural)]
pub enum PointClassification {
    Inside,
    Outside,
    Boundary,
}

/// Whether two triangles meet.
#[derive(Clone, Copy, Debug, PartialEq, Eq, Structural)]
pub enum TriangleIntersection {
    Disjoint,
    Intersects,
}

/// Where a layer triangle lies relative to the solid.
#[derive(Clone, Copy, Debug, PartialEq, Eq, Structural)]
pub enum ClippingState {
    Inside,
    Outside,
    Boundary,
}

/// The classification of the triangle at `triangle_index` of a mesh.
#[derive(Clone, Copy, Debug, PartialEq, Eq, Structural)]
pub struct MeshTriangleClassification {
    pub triangle_index: usize,
    pub state: ClippingState,
}

/// The even-odd rule: a ray from the point that meets the surface at the
/// point itself marks it as on the boundary; otherwise an odd number of
/// distinct crossings ahead of it marks it as inside.
pub open spec fn classified_point(on_surface: bool, crossings: nat) -> PointClassification {
    if on_surface {
        PointClassification::Boundary
    } else if crossings % 2 == 1 {
        PointClassification::Inside
    } else {
        PointClassification::Outside
    }
}

/// Classifies a point from a ray cast: whether the ray met the surface at
/// the point, and how many distinct crossings lie ahead of it.
pub fn classify_point_from_ray(on_surface: bool, crossings: usize) -> (r: PointClassification)
    ensures
        r == classified_point(on_surface, crossings as nat),
        on_surface <==> r == PointClassification::Boundary,
        !on_surface ==> (r == PointClassification::Inside <==> crossings % 2 == 1),
{
    if on_surface {
        PointClassification::Boundary
    } else if crossings % 2 == 1 {
        PointClassification::Inside
    } else {
        PointClassification::Outside
    }
}

/// A point that is kept by clipping: inside the solid or on its surface.
pub open spec fn kept(c: PointClassification) -> bool {
    c is Inside || c is Boundary
}

/// Whether clipping keeps a piece whose centroid is classified `c`.
pub fn keeps_point(c: PointClassification) -> (r: bool)
    ensures
        r == kept(c),
        r <==> c != PointClassification::Outside,
{
    match c {
        PointClassification::Inside | PointClassification::Boundary => true,
        PointClassification::Outside => false,
    }
}

/// The state of a triangle: on the boundary when it meets any triangle of
/// the solid's surface, and otherwise inside or outside as its centroid is
/// (a centroid on the surface counts as inside).
pub open spec fn triangle_state(meets_surface: bool, centroid: PointClassification) -> ClippingState {
    if meets_surface {
        ClippingState::Boundary
    } else if kept(centroid) {
        ClippingState::Inside
    } else {
        ClippingState::Outside
    }
}

/// Classifies a triangle from whether it meets the solid's surface and
/// where its centroid lies.
pub fn classify_triangle_state(meets_surface: bool, centroid: PointClassification) -> (r: ClippingState)
    ensures
        r == triangle_state(meets_surface, centroid),
        meets_surface ==> r == ClippingState::Boundary,
        !meets_surface ==> r != ClippingState::Boundary,
        !meets_surface ==> (r == ClippingState::Outside <==> centroid == PointClassification::Outside),
{
    if meets_surface {
        return ClippingState::Boundary;
    }
    if keeps_point(centroid) {
        ClippingState::Inside
    } else {
        ClippingState::Outside
    }
}

/// Pairs each triangle state with its position in the mesh.
pub fn indexed_classifications(states: &Vec<ClippingState>) -> (r: Vec<MeshTriangleClassification>)
    ensures
        r@.len() == states@.len(),
        forall|i: int|
            0 <= i < states@.len() ==> #[trigger] r@[i] == (MeshTriangleClassification {
                triangle_index: i as usize,
                state: states@[i],
            }),
{
    let mut result: Vec<MeshTriangleClassification> = Vec::new();
    let mut i: usize = 0;
    while i < states.len()
        invariant
            i <= states@.len(),
            result@.len() == i,
            forall|j: int|
                0 <= j < i ==> #[trigger] result@[j] == (MeshTriangleClassification {
                    triangle_index: j as usize,
                    state: states@[j],
                }),
        decreases states@.len() - i,
    {
        result.push(MeshTriangleClassification { triangle_index: i, state: states[i] });
        i += 1;
    }
    result
}

/// The even-odd rule as laws of the point classification: a point on the
/// surface is on the boundary whatever the count; off the surface, no
/// crossing means outside, one crossing means inside, and two more crossings
/// never change the answer (a ray that enters and leaves the solid once
/// more, as through a cavity or a second lobe, leaves the point where it
/// was).
pub proof fn lemma_even_odd_rule(crossings: nat)
    ensures
        classified_point(true, crossings) == PointClassification::Boundary,
        classified_point(false, 0) == PointClassification::Outside,
        classified_point(false, 1) == PointClassification::Inside,
        classified_point(false, crossings + 2) == classified_point(false, crossings),
        classified_point(false, crossings) != PointClassification::Boundary,
{
}

/// Off the surface, a point is inside exactly when its ray crosses the
/// surface an odd number of times, and outside exactly when the count is
/// even.
pub proof fn lemma_inside_iff_odd(crossings: nat)
    ensures
        classified_point(false, crossings) == PointClassification::Inside <==> crossings % 2 == 1,
        classified_point(false, crossings) == PointClassification::Outside <==> crossings % 2 == 0,
    decreases crossings,
{
    lemma_even_odd_rule(crossings);
    if crossings >= 2 {
        lemma_inside_iff_odd((crossings - 2) as nat);
        lemma_even_odd_rule((crossings - 2) as nat);
    }
}

/// Clipping keeps every point but the outside ones.
pub proof fn lemma_kept_unless_outside(c: PointClassification)
    ensures
        kept(c) <==> c != PointClassification::Outside,
{
}

/// A triangle that meets the solid's surface is on the boundary; any other
/// triangle is outside exactly when its centroid is outside, and inside
/// otherwise.
pub proof fn lemma_triangle_state_follows_centroid(meets_surface: bool, centroid: PointClassification)
    ensures
        meets_surface ==> triangle_state(meets_surface, centroid) == ClippingState::Boundary,
        !meets_surface ==> (triangle_state(meets_surface, centroid) == ClippingState::Outside <==> centroid
            == PointClassification::Outside),
        !meets_surface ==> (triangle_state(meets_surface, centroid) == ClippingState::Inside <==> centroid
            != PointClassification::Outside),
{
}

} // verus!
