//! Clipping a triangle against a half-space.
//!
//! The half-space is given by a boundary (a plane in space, a line on the screen)
//! and the side that is kept. A caller measures the signed distance of each corner
//! from the boundary, positive on the kept side, and gets back how the part of the
//! triangle on the kept side is built: from corners of the triangle and from the
//! points where its edges cross the boundary. The same rule serves the near plane
//! in view space and the four edges of the viewport.

use vstd::prelude::*;
use crate::frame::in_frame;

verus! {

/// A corner of a clipped triangle.
#[derive(Clone, Copy, Debug, PartialEq, Eq, Structural)]
pub enum ClipVertex {
    /// Corner number `0`, `1` or `2` of the triangle that was clipped.
    Kept(usize),
    /// The point where the edge that leaves the kept corner `inside` for the
    /// rejected corner `outside` crosses the boundary.
    Crossing { inside: usize, outside: usize },
}

/// One triangle of the clipped result, its corners in drawing order.
#[derive(Clone, Copy, Debug, PartialEq, Eq, Structural)]
pub struct ClippedTriangle {
    pub a: ClipVertex,
    pub b: ClipVertex,
    pub c: ClipVertex,
}

/// A corner is on the kept side if and only if its signed distance is not negative.
pub open spec fn is_inside(distance: int) -> bool {
    distance >= 0
}

/// The crossing point on the edge from the kept corner `i` to the rejected corner `o`.
pub open spec fn crossing(i: usize, o: usize) -> ClipVertex {
    ClipVertex::Crossing { inside: i, outside: o }
}

/// The triangle with corners `a`, `b`, `c`.
pub open spec fn tri(a: ClipVertex, b: ClipVertex, c: ClipVertex) -> ClippedTriangle {
    ClippedTriangle { a, b, c }
}

/// The triangles that remain of a triangle whose corners have the signed distances
/// `d0`, `d1`, `d2`.
///
/// With no corner inside nothing remains; with all three inside the triangle
/// itself remains. One corner inside leaves that corner and the two crossings of
/// its edges. Two corners inside leave a quadrilateral, split along the diagonal
/// from the second kept corner to the crossing nearer the first.
pub open spec fn clip_plan(d0: int, d1: int, d2: int) -> Seq<ClippedTriangle> {
    let k0 = ClipVertex::Kept(0);
    let k1 = ClipVertex::Kept(1);
    let k2 = ClipVertex::Kept(2);
    match (is_inside(d0), is_inside(d1), is_inside(d2)) {
        (false, false, false) => seq![],
        (true, true, true) => seq![tri(k0, k1, k2)],
        (true, false, false) => seq![tri(k0, crossing(0, 1), crossing(0, 2))],
        (false, true, false) => seq![tri(k1, crossing(1, 0), crossing(1, 2))],
        (false, false, true) => seq![tri(k2, crossing(2, 0), crossing(2, 1))],
        (true, true, false) => seq![
            tri(k0, k1, crossing(0, 2)),
            tri(k1, crossing(0, 2), crossing(1, 2)),
        ],
        (true, false, true) => seq![
            tri(k0, k2, crossing(0, 1)),
            tri(k2, crossing(0, 1), crossing(2, 1)),
        ],
        (false, true, true) => seq![
            tri(k1, k2, crossing(1, 0)),
            tri(k2, crossing(1, 0), crossing(2, 0)),
        ],
    }
}

/// The signed distance of corner `i`.
pub open spec fn distance_of(d0: int, d1: int, d2: int, i: int) -> int {
    if i == 0 {
        d0
    } else if i == 1 {
        d1
    } else {
        d2
    }
}

/// How many of the three corners are on the kept side.
pub open spec fn inside_count(d0: int, d1: int, d2: int) -> int {
    (if is_inside(d0) {
        1int
    } else {
        0
    }) + (if is_inside(d1) {
        1int
    } else {
        0
    }) + (if is_inside(d2) {
        1int
    } else {
        0
    })
}

/// A corner of the result that stands where it may: a corner of the triangle on
/// the kept side, or a crossing on an edge that joins a kept corner to a rejected one.
pub open spec fn vertex_sound(v: ClipVertex, d0: int, d1: int, d2: int) -> bool {
    match v {
        ClipVertex::Kept(i) => i < 3 && is_inside(distance_of(d0, d1, d2, i as int)),
        ClipVertex::Crossing { inside, outside } => {
            &&& inside < 3
            &&& outside < 3
            &&& is_inside(distance_of(d0, d1, d2, inside as int))
            &&& !is_inside(distance_of(d0, d1, d2, outside as int))
        },
    }
}

/// Whether `v` is one of the corners of `t`.
pub open spec fn has_corner(t: ClippedTriangle, v: ClipVertex) -> bool {
    t.a == v || t.b == v || t.c == v
}

/// Whether `v` is a corner of some triangle of `plan`.
pub open spec fn plan_has(plan: Seq<ClippedTriangle>, v: ClipVertex) -> bool {
    exists|k: int| 0 <= k < plan.len() && has_corner(#[trigger] plan[k], v)
}

/// Whether some triangle of `plan` has the side from `v` to `w`.
pub open spec fn plan_has_side(plan: Seq<ClippedTriangle>, v: ClipVertex, w: ClipVertex) -> bool {
    exists|k: int|
        0 <= k < plan.len() && has_corner(#[trigger] plan[k], v) && has_corner(plan[k], w)
}

/// Splits a triangle along a boundary, given the signed distance of each corner.
pub fn triangle_clip_against_plane(d0: i64, d1: i64, d2: i64) -> (out: Vec<ClippedTriangle>)
    ensures
        out@ == clip_plan(d0 as int, d1 as int, d2 as int),
{
    let mut inside_points: [usize; 3] = [0, 0, 0];
    let mut n_inside: usize = 0;
    let mut outside_points: [usize; 3] = [0, 0, 0];
    let mut n_outside: usize = 0;

    if d0 >= 0 {
        inside_points[n_inside] = 0;
        n_inside += 1;
    } else {
        outside_points[n_outside] = 0;
        n_outside += 1;
    }
    if d1 >= 0 {
        inside_points[n_inside] = 1;
        n_inside += 1;
    } else {
        outside_points[n_outside] = 1;
        n_outside += 1;
    }
    if d2 >= 0 {
        inside_points[n_inside] = 2;
        n_inside += 1;
    } else {
        outside_points[n_outside] = 2;
        n_outside += 1;
    }

    let mut out: Vec<ClippedTriangle> = Vec::new();
    if n_inside == 3 {
        out.push(
            ClippedTriangle {
                a: ClipVertex::Kept(0),
                b: ClipVertex::Kept(1),
                c: ClipVertex::Kept(2),
            },
        );
    } else if n_inside == 1 {
        let i = inside_points[0];
        out.push(
            ClippedTriangle {
                a: ClipVertex::Kept(i),
                b: ClipVertex::Crossing { inside: i, outside: outside_points[0] },
                c: ClipVertex::Crossing { inside: i, outside: outside_points[1] },
            },
        );
    } else if n_inside == 2 {
        let i0 = inside_points[0];
        let i1 = inside_points[1];
        let o = outside_points[0];
        let shared = ClipVertex::Crossing { inside: i0, outside: o };
        out.push(ClippedTriangle { a: ClipVertex::Kept(i0), b: ClipVertex::Kept(i1), c: shared });
        out.push(
            ClippedTriangle {
                a: ClipVertex::Kept(i1),
                b: shared,
                c: ClipVertex::Crossing { inside: i1, outside: o },
            },
        );
    }
    assert(out@ =~= clip_plan(d0 as int, d1 as int, d2 as int));
    out
}

/// A triangle that lies wholly on the kept side comes back unchanged, its corners
/// in their order; one that lies wholly on the other side leaves nothing.
pub proof fn lemma_clip_one_side(d0: int, d1: int, d2: int)
    ensures
        is_inside(d0) && is_inside(d1) && is_inside(d2) ==> clip_plan(d0, d1, d2) == seq![
            tri(ClipVertex::Kept(0), ClipVertex::Kept(1), ClipVertex::Kept(2)),
        ],
        !is_inside(d0) && !is_inside(d1) && !is_inside(d2) ==> clip_plan(d0, d1, d2)
            == Seq::<ClippedTriangle>::empty(),
{
}

/// The number of triangles that remain: none, one, one or two, by the number of
/// corners on the kept side.
pub proof fn lemma_clip_count(d0: int, d1: int, d2: int)
    ensures
        inside_count(d0, d1, d2) == 0 ==> clip_plan(d0, d1, d2).len() == 0,
        inside_count(d0, d1, d2) == 1 ==> clip_plan(d0, d1, d2).len() == 1,
        inside_count(d0, d1, d2) == 2 ==> clip_plan(d0, d1, d2).len() == 2,
        inside_count(d0, d1, d2) == 3 ==> clip_plan(d0, d1, d2).len() == 1,
{
}

/// Every corner of the result is a kept corner of the triangle or a crossing on an
/// edge between a kept and a rejected corner.
pub proof fn lemma_clip_sound(d0: int, d1: int, d2: int, k: int)
    requires
        0 <= k < clip_plan(d0, d1, d2).len(),
    ensures
        vertex_sound(clip_plan(d0, d1, d2)[k].a, d0, d1, d2),
        vertex_sound(clip_plan(d0, d1, d2)[k].b, d0, d1, d2),
        vertex_sound(clip_plan(d0, d1, d2)[k].c, d0, d1, d2),
{
}

/// A triangle that straddles the boundary is rebuilt without a gap: every kept
/// corner and the crossing of every edge that leaves the kept side are corners of
/// the result.
pub proof fn lemma_clip_complete(d0: int, d1: int, d2: int, i: usize, o: usize)
    requires
        i < 3,
        o < 3,
        is_inside(distance_of(d0, d1, d2, i as int)),
    ensures
        plan_has(clip_plan(d0, d1, d2), ClipVertex::Kept(i)),
        !is_inside(distance_of(d0, d1, d2, o as int)) ==> plan_has(
            clip_plan(d0, d1, d2),
            crossing(i, o),
        ),
{
    let plan = clip_plan(d0, d1, d2);
    let kept = ClipVertex::Kept(i);
    let last = plan.len() - 1;
    assert(has_corner(plan[0], kept) || has_corner(plan[last], kept));
    if !is_inside(distance_of(d0, d1, d2, o as int)) {
        assert(has_corner(plan[0], crossing(i, o)) || has_corner(plan[last], crossing(i, o)));
    }
}

/// Any two crossings of a triangle that straddles the boundary are corners of one
/// triangle of the result: the piece of the boundary between them is one of its
/// sides, so the result closes along the boundary.
pub proof fn lemma_clip_boundary_side(d0: int, d1: int, d2: int, i: usize, o: usize, j: usize, p: usize)
    requires
        i < 3 && o < 3 && j < 3 && p < 3,
        is_inside(distance_of(d0, d1, d2, i as int)),
        !is_inside(distance_of(d0, d1, d2, o as int)),
        is_inside(distance_of(d0, d1, d2, j as int)),
        !is_inside(distance_of(d0, d1, d2, p as int)),
    ensures
        plan_has_side(clip_plan(d0, d1, d2), crossing(i, o), crossing(j, p)),
{
    let plan = clip_plan(d0, d1, d2);
    let last = plan.len() - 1;
    assert(has_corner(plan[last], crossing(i, o)) && has_corner(plan[last], crossing(j, p)));
}

/// Where two triangles remain they are the halves of one quadrilateral: they share
/// the side from the second kept corner to the first crossing, and the four
/// corners they have between them are the two kept corners and the two crossings.
pub proof fn lemma_clip_quad(d0: int, d1: int, d2: int)
    requires
        inside_count(d0, d1, d2) == 2,
    ensures
        clip_plan(d0, d1, d2).len() == 2,
        clip_plan(d0, d1, d2)[0].b == clip_plan(d0, d1, d2)[1].a,
        clip_plan(d0, d1, d2)[0].c == clip_plan(d0, d1, d2)[1].b,
        clip_plan(d0, d1, d2)[0].a is Kept,
        clip_plan(d0, d1, d2)[0].b is Kept,
        clip_plan(d0, d1, d2)[0].a != clip_plan(d0, d1, d2)[0].b,
        clip_plan(d0, d1, d2)[1].b is Crossing,
        clip_plan(d0, d1, d2)[1].c is Crossing,
        clip_plan(d0, d1, d2)[1].b != clip_plan(d0, d1, d2)[1].c,
{
}

/// An edge of the viewport: a pixel on it, and the step that leads from it into
/// the viewport.
#[derive(Clone, Copy, Debug, PartialEq, Eq, Structural)]
pub struct Edge {
    pub px: i128,
    pub py: i128,
    pub nx: i128,
    pub ny: i128,
}

/// The signed distance of the pixel at column `x`, row `y` from an edge, counted
/// in pixels and positive inside.
pub open spec fn edge_distance(e: Edge, x: int, y: int) -> int {
    e.nx * (x - e.px) + e.ny * (y - e.py)
}

/// The four edges of a viewport of `width` by `height` pixels, in the order in
/// which a triangle is cut along them: top, bottom, left, right.
pub open spec fn viewport(width: int, height: int) -> Seq<Edge> {
    seq![
        Edge { px: 0, py: 0, nx: 0, ny: 1 },
        Edge { px: 0, py: (height - 1) as i128, nx: 0, ny: -1i128 },
        Edge { px: 0, py: 0, nx: 1, ny: 0 },
        Edge { px: (width - 1) as i128, py: 0, nx: -1i128, ny: 0 },
    ]
}

/// The four edges of the viewport.
pub fn viewport_edges(width: usize, height: usize) -> (edges: Vec<Edge>)
    ensures
        edges@ == viewport(width as int, height as int),
{
    let mut edges: Vec<Edge> = Vec::new();
    edges.push(Edge { px: 0, py: 0, nx: 0, ny: 1 });
    edges.push(Edge { px: 0, py: height as i128 - 1, nx: 0, ny: -1i128 });
    edges.push(Edge { px: 0, py: 0, nx: 1, ny: 0 });
    edges.push(Edge { px: width as i128 - 1, py: 0, nx: -1i128, ny: 0 });
    assert(edges@ =~= viewport(width as int, height as int));
    edges
}

/// The pixels on the inner side of all four edges are the pixels of the frame:
/// what is cut along the edges of the viewport loses exactly what the frame
/// does not hold.
pub proof fn lemma_viewport_is_frame(width: int, height: int, x: int, y: int)
    requires
        0 <= width <= usize::MAX,
        0 <= height <= usize::MAX,
    ensures
        in_frame(x, y, width, height) <==> (forall|k: int|
            0 <= k < 4 ==> is_inside(edge_distance(#[trigger] viewport(width, height)[k], x, y))),
{
    let edges = viewport(width, height);
    assert(edge_distance(edges[0], x, y) == y) by (nonlinear_arith)
        requires
            edges[0] == (Edge { px: 0, py: 0, nx: 0, ny: 1 }),
    ;
    assert(edge_distance(edges[1], x, y) == height - 1 - y) by (nonlinear_arith)
        requires
            edges[1] == (Edge { px: 0, py: (height - 1) as i128, nx: 0, ny: -1i128 }),
            -1 <= height - 1 <= usize::MAX,
    ;
    assert(edge_distance(edges[2], x, y) == x) by (nonlinear_arith)
        requires
            edges[2] == (Edge { px: 0, py: 0, nx: 1, ny: 0 }),
    ;
    assert(edge_distance(edges[3], x, y) == width - 1 - x) by (nonlinear_arith)
        requires
            edges[3] == (Edge { px: (width - 1) as i128, py: 0, nx: -1i128, ny: 0 }),
            -1 <= width - 1 <= usize::MAX,
    ;
    if in_frame(x, y, width, height) {
        assert forall|k: int| 0 <= k < 4 implies is_inside(
            edge_distance(#[trigger] viewport(width, height)[k], x, y),
        ) by {}
    }
}

} // verus!
