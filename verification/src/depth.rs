//! The painter's order: far triangles are drawn first so that near ones overdraw them.

use vstd::prelude::*;
use crate::frame::clear_frame;
use crate::raster::{render_triangles, rendered, TriToRaster};

verus! {

/// Whether entry `i` is drawn before entry `j`: it lies deeper, or as deep and
/// earlier in the list.
pub open spec fn drawn_before(depths: Seq<i64>, i: int, j: int) -> bool {
    depths[i] > depths[j] || (depths[i] == depths[j] && i < j)
}

/// Whether position `i` stands somewhere in `order`.
pub open spec fn occurs(order: Seq<usize>, i: int) -> bool {
    exists|k: int| 0 <= k < order.len() && #[trigger] order[k] == i
}

/// Whether `order` lists every position of `depths` once, each drawn before all
/// that follow it.
pub open spec fn is_painter_order(depths: Seq<i64>, order: Seq<usize>) -> bool {
    &&& order.len() == depths.len()
    &&& forall|k: int| 0 <= k < order.len() ==> (#[trigger] order[k]) < depths.len()
    &&& forall|i: int| 0 <= i < depths.len() ==> #[trigger] occurs(order, i)
    &&& forall|k: int, l: int|
        0 <= k < l < order.len() ==> drawn_before(depths, #[trigger] order[k] as int, #[trigger] order[l] as int)
}

/// The depths of the entries of a draw list.
pub open spec fn depths_of(list: Seq<TriToRaster>) -> Seq<i64> {
    Seq::new(list.len(), |i: int| list[i].avg_z)
}

/// `items` taken in the order that `order` gives.
pub open spec fn arranged<T>(items: Seq<T>, order: Seq<usize>) -> Seq<T> {
    Seq::new(order.len(), |k: int| items[order[k] as int])
}

/// The positions of `depths` from the deepest to the shallowest; equal depths keep
/// the order in which they were given.
pub fn depth_order(depths: &Vec<i64>) -> (order: Vec<usize>)
    ensures
        is_painter_order(depths@, order@),
{
    let n = depths.len();
    let mut order: Vec<usize> = Vec::new();
    let mut m: usize = 0;
    while m < n
        invariant
            m <= n,
            n == depths.len(),
            is_painter_order(depths@.take(m as int), order@),
        decreases n - m,
    {
        let ghost prev = order@;
        let ghost head = depths@.take(m as int);
        let d = depths[m];
        let mut p: usize = order.len();
        while p > 0 && depths[order[p - 1]] < d
            invariant
                p <= order.len(),
                order.len() == m,
                m < n,
                n == depths.len(),
                d == depths[m as int],
                order@ == prev,
                forall|k: int| 0 <= k < order.len() ==> (#[trigger] order[k]) < m,
                forall|k: int| p <= k < order.len() ==> depths[(#[trigger] order[k]) as int] < d,
            decreases p,
        {
            p = p - 1;
        }
        order.insert(p, m);
        proof {
            let next = depths@.take(m + 1);
            assert(order@ == prev.insert(p as int, m));
            assert forall|k: int| 0 <= k < order.len() implies (#[trigger] order[k]) < next.len() by {
                if k < p {
                    assert(order[k] == prev[k]);
                } else if k > p {
                    assert(order[k] == prev[k - 1]);
                }
            }
            assert forall|i: int| 0 <= i < next.len() implies #[trigger] occurs(order@, i) by {
                if i == m {
                    assert(order[p as int] == i);
                } else {
                    assert(occurs(prev, i));
                    let k0 = choose|k: int| 0 <= k < prev.len() && #[trigger] prev[k] == i;
                    if k0 < p {
                        assert(order[k0] == i);
                    } else {
                        assert(order[k0 + 1] == i);
                    }
                }
            }
            assert forall|k: int, l: int| 0 <= k < l < order.len() implies drawn_before(
                next,
                #[trigger] order[k] as int,
                #[trigger] order[l] as int,
            ) by {
                let a = if k < p {
                    prev[k]
                } else if k == p {
                    m
                } else {
                    prev[k - 1]
                };
                let b = if l < p {
                    prev[l]
                } else if l == p {
                    m
                } else {
                    prev[l - 1]
                };
                assert(order[k] == a && order[l] == b);
                if l == p {
                    if p > 0 {
                        assert(depths[prev[p - 1] as int] >= d);
                        if k < p - 1 {
                            assert(drawn_before(head, prev[k] as int, prev[p - 1] as int));
                        }
                    }
                    assert(a < m);
                } else if k == p {
                    assert(depths[prev[l - 1] as int] < d);
                } else if k < p && l > p {
                    assert(drawn_before(head, prev[k] as int, prev[l - 1] as int));
                } else if l < p {
                    assert(drawn_before(head, prev[k] as int, prev[l] as int));
                } else {
                    assert(drawn_before(head, prev[k - 1] as int, prev[l - 1] as int));
                }
            }
        }
        m = m + 1;
    }
    proof {
        assert(depths@.take(n as int) =~= depths@);
    }
    order
}

/// The draw list from the farthest entry to the nearest; entries of equal depth
/// keep the order in which they were given.
pub fn sort_far_to_near(list: &Vec<TriToRaster>) -> (out: Vec<TriToRaster>)
    ensures
        exists|order: Seq<usize>|
            is_painter_order(depths_of(list@), order) && out@ == arranged(list@, order),
{
    let mut depths: Vec<i64> = Vec::new();
    let mut i: usize = 0;
    while i < list.len()
        invariant
            i <= list.len(),
            depths@ == depths_of(list@.take(i as int)),
        decreases list.len() - i,
    {
        depths.push(list[i].avg_z);
        proof {
            assert(depths@ =~= depths_of(list@.take(i + 1)));
        }
        i = i + 1;
    }
    proof {
        assert(list@.take(i as int) =~= list@);
    }
    let order = depth_order(&depths);
    let mut out: Vec<TriToRaster> = Vec::new();
    let mut k: usize = 0;
    while k < order.len()
        invariant
            k <= order.len(),
            is_painter_order(depths_of(list@), order@),
            out@ == arranged(list@, order@.take(k as int)),
        decreases order.len() - k,
    {
        out.push(list[order[k]]);
        proof {
            assert(out@ =~= arranged(list@, order@.take(k + 1)));
        }
        k = k + 1;
    }
    proof {
        assert(order@.take(k as int) =~= order@);
    }
    out
}

/// The frame of one scene: cleared, then the room drawn as it was given, then the
/// targets drawn from the farthest to the nearest.
pub open spec fn scene_drawn(
    cells: nat,
    room: Seq<TriToRaster>,
    targets: Seq<TriToRaster>,
    order: Seq<usize>,
    width: int,
    height: int,
) -> Seq<u32> {
    rendered(
        rendered(Seq::new(cells, |i: int| 0u32), room, width, height),
        arranged(targets, order),
        width,
        height,
    )
}

/// Draws one scene into the frame: clears it, fills the triangles of the room in
/// the order given, and fills the triangles of the targets over them, far ones
/// before near ones.
pub fn draw_scene(
    buffer: &mut [u32],
    room: &Vec<TriToRaster>,
    targets: &Vec<TriToRaster>,
    width: usize,
    height: usize,
)
    requires
        old(buffer)@.len() >= width * height,
    ensures
        exists|order: Seq<usize>|
            is_painter_order(depths_of(targets@), order) && final(buffer)@ == scene_drawn(
                old(buffer)@.len(),
                room@,
                targets@,
                order,
                width as int,
                height as int,
            ),
{
    clear_frame(buffer);
    render_triangles(buffer, room, width, height);
    let sorted = sort_far_to_near(targets);
    render_triangles(buffer, &sorted, width, height);
    proof {
        let order = choose|order: Seq<usize>|
            is_painter_order(depths_of(targets@), order) && sorted@ == arranged(targets@, order);
        assert(buffer@ == scene_drawn(
            old(buffer)@.len(),
            room@,
            targets@,
            order,
            width as int,
            height as int,
        ));
    }
}

/// A painter's order is settled by the depths alone: two orders of the same
/// depths are the same order.
pub proof fn lemma_painter_order_unique(depths: Seq<i64>, first: Seq<usize>, second: Seq<usize>)
    requires
        is_painter_order(depths, first),
        is_painter_order(depths, second),
    ensures
        first == second,
    decreases depths.len(),
{
    if depths.len() > 0 {
        assert forall|k: int| 0 <= k < first.len() implies first[k] == second[k] by {
            lemma_same_position(depths, first, second, k);
        }
    }
    assert(first =~= second);
}

proof fn lemma_same_position(depths: Seq<i64>, first: Seq<usize>, second: Seq<usize>, k: int)
    requires
        is_painter_order(depths, first),
        is_painter_order(depths, second),
        0 <= k < first.len(),
    ensures
        first[k] == second[k],
    decreases k,
{
    // Both orders agree below `k`; the entry at `k` is the one drawn before all the
    // rest, and only one entry can be that.
    assert forall|j: int| 0 <= j < k implies first[j] == second[j] by {
        lemma_same_position_below(depths, first, second, k, j);
    }
    let a = first[k];
    let b = second[k];
    if a != b {
        assert(occurs(second, a as int));
        assert(occurs(first, b as int));
        let ka = choose|x: int| 0 <= x < second.len() && #[trigger] second[x] == a;
        let kb = choose|x: int| 0 <= x < first.len() && #[trigger] first[x] == b;
        if ka < k {
            assert(first[ka] == second[ka]);
            assert(drawn_before(depths, first[ka] as int, first[k] as int));
        } else if kb < k {
            assert(first[kb] == second[kb]);
            assert(drawn_before(depths, second[kb] as int, second[k] as int));
        } else {
            assert(drawn_before(depths, second[k] as int, second[ka] as int));
            assert(drawn_before(depths, first[k] as int, first[kb] as int));
        }
    }
}

proof fn lemma_same_position_below(
    depths: Seq<i64>,
    first: Seq<usize>,
    second: Seq<usize>,
    k: int,
    j: int,
)
    requires
        is_painter_order(depths, first),
        is_painter_order(depths, second),
        0 <= j < k <= first.len(),
    ensures
        first[j] == second[j],
    decreases k, 0int,
{
    lemma_same_position(depths, first, second, j);
}

} // verus!
