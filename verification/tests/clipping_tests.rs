use aim_trainer::clipping::{triangle_clip_against_plane, viewport_edges, ClipVertex, ClippedTriangle, Edge};

fn kept(i: usize) -> ClipVertex {
    ClipVertex::Kept(i)
}

fn cross(inside: usize, outside: usize) -> ClipVertex {
    ClipVertex::Crossing { inside, outside }
}

fn tri(a: ClipVertex, b: ClipVertex, c: ClipVertex) -> ClippedTriangle {
    ClippedTriangle { a, b, c }
}

fn corners(t: &ClippedTriangle) -> [ClipVertex; 3] {
    [t.a, t.b, t.c]
}

#[test]
fn clip_all_inside_returns_the_triangle_unchanged() {
    assert_eq!(triangle_clip_against_plane(1, 2, 3), vec![tri(kept(0), kept(1), kept(2))]);
    assert_eq!(triangle_clip_against_plane(0, 0, 0), vec![tri(kept(0), kept(1), kept(2))]);
    assert_eq!(
        triangle_clip_against_plane(i64::MAX, 0, 7),
        vec![tri(kept(0), kept(1), kept(2))]
    );
}

#[test]
fn clip_all_outside_returns_nothing() {
    assert!(triangle_clip_against_plane(-1, -2, -3).is_empty());
    assert!(triangle_clip_against_plane(i64::MIN, -1, -1).is_empty());
}

#[test]
fn clip_a_corner_on_the_boundary_counts_as_inside() {
    assert_eq!(
        triangle_clip_against_plane(0, -1, -1),
        vec![tri(kept(0), cross(0, 1), cross(0, 2))]
    );
}

#[test]
fn clip_one_inside_leaves_one_smaller_triangle() {
    assert_eq!(
        triangle_clip_against_plane(5, -1, -1),
        vec![tri(kept(0), cross(0, 1), cross(0, 2))]
    );
    assert_eq!(
        triangle_clip_against_plane(-1, 5, -1),
        vec![tri(kept(1), cross(1, 0), cross(1, 2))]
    );
    assert_eq!(
        triangle_clip_against_plane(-1, -1, 5),
        vec![tri(kept(2), cross(2, 0), cross(2, 1))]
    );
}

#[test]
fn clip_two_inside_leaves_a_split_quadrilateral() {
    assert_eq!(
        triangle_clip_against_plane(1, 1, -1),
        vec![tri(kept(0), kept(1), cross(0, 2)), tri(kept(1), cross(0, 2), cross(1, 2))]
    );
    assert_eq!(
        triangle_clip_against_plane(1, -1, 1),
        vec![tri(kept(0), kept(2), cross(0, 1)), tri(kept(2), cross(0, 1), cross(2, 1))]
    );
    assert_eq!(
        triangle_clip_against_plane(-1, 1, 1),
        vec![tri(kept(1), kept(2), cross(1, 0)), tri(kept(2), cross(1, 0), cross(2, 0))]
    );
}

#[test]
fn clip_straddling_triangles_close_along_the_boundary() {
    let distances: [i64; 3] = [-3, 0, 4];
    for d0 in distances.iter() {
        for d1 in distances.iter() {
            for d2 in distances.iter() {
                let d = [*d0, *d1, *d2];
                let inside: Vec<usize> = (0..3).filter(|i| d[*i] >= 0).collect();
                let outside: Vec<usize> = (0..3).filter(|i| d[*i] < 0).collect();
                let plan = triangle_clip_against_plane(d[0], d[1], d[2]);
                let all: Vec<ClipVertex> = plan.iter().flat_map(|t| corners(t)).collect();
                // Every corner stands where it may.
                for v in all.iter() {
                    match v {
                        ClipVertex::Kept(i) => assert!(inside.contains(i)),
                        ClipVertex::Crossing { inside: i, outside: o } => {
                            assert!(inside.contains(i));
                            assert!(outside.contains(o));
                        }
                    }
                }
                if inside.is_empty() {
                    assert!(plan.is_empty());
                    continue;
                }
                // Every kept corner and every crossing of an edge is there.
                for i in inside.iter() {
                    assert!(all.contains(&kept(*i)));
                    for o in outside.iter() {
                        assert!(all.contains(&cross(*i, *o)));
                    }
                }
                // The piece of the boundary between two crossings is a side of one triangle.
                let crossings: Vec<ClipVertex> = inside
                    .iter()
                    .flat_map(|i| outside.iter().map(move |o| cross(*i, *o)))
                    .collect();
                if crossings.len() == 2 {
                    assert!(plan.iter().any(|t| {
                        corners(t).contains(&crossings[0]) && corners(t).contains(&crossings[1])
                    }));
                }
                // Two triangles share the diagonal of the quadrilateral.
                if plan.len() == 2 {
                    assert_eq!(plan[0].b, plan[1].a);
                    assert_eq!(plan[0].c, plan[1].b);
                }
                assert_eq!(plan.len(), [0, 1, 2, 1][inside.len()]);
            }
        }
    }
}

#[test]
fn viewport_edges_in_cutting_order() {
    assert_eq!(
        viewport_edges(640, 480),
        vec![
            Edge { px: 0, py: 0, nx: 0, ny: 1 },
            Edge { px: 0, py: 479, nx: 0, ny: -1 },
            Edge { px: 0, py: 0, nx: 1, ny: 0 },
            Edge { px: 639, py: 0, nx: -1, ny: 0 },
        ]
    );
    let none = viewport_edges(0, 0);
    assert_eq!((none[1].py, none[3].px), (-1, -1));
}

#[test]
fn viewport_edges_bound_the_frame() {
    let (width, height) = (5usize, 3usize);
    let edges = viewport_edges(width, height);
    for y in -2i128..6 {
        for x in -2i128..8 {
            let inside = edges.iter().all(|e| e.nx * (x - e.px) + e.ny * (y - e.py) >= 0);
            let in_frame = 0 <= x && x < width as i128 && 0 <= y && y < height as i128;
            assert_eq!(inside, in_frame);
        }
    }
}
