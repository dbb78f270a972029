use aim_trainer::depth::{depth_order, draw_scene, sort_far_to_near};
use aim_trainer::raster::{TriToRaster, Triangle2d, Vec2d};

fn entry(color: u32, avg_z: i64) -> TriToRaster {
    let p = Vec2d { x: 0, y: 0 };
    TriToRaster { tri: Triangle2d { a: p, b: p, c: p }, color, avg_z }
}

#[test]
fn depth_order_of_nothing_is_empty() {
    assert!(depth_order(&Vec::new()).is_empty());
}

#[test]
fn depth_order_lists_the_farthest_first() {
    assert_eq!(depth_order(&vec![3, 9, 1, 5]), vec![1, 3, 0, 2]);
    assert_eq!(depth_order(&vec![1, 2, 3]), vec![2, 1, 0]);
    assert_eq!(depth_order(&vec![3, 2, 1]), vec![0, 1, 2]);
    assert_eq!(depth_order(&vec![-5, i64::MAX, i64::MIN]), vec![1, 0, 2]);
}

#[test]
fn depth_order_keeps_equal_depths_in_their_order() {
    assert_eq!(depth_order(&vec![4, 4, 4]), vec![0, 1, 2]);
    assert_eq!(depth_order(&vec![1, 7, 1, 7, 1]), vec![1, 3, 0, 2, 4]);
}

#[test]
fn depth_order_is_a_permutation() {
    let depths: Vec<i64> = vec![5, -2, 9, 9, 0, 3, -2, 7, 5, 5, 1];
    let order = depth_order(&depths);
    let mut seen = vec![false; depths.len()];
    for i in order.iter() {
        assert!(!seen[*i]);
        seen[*i] = true;
    }
    assert!(seen.iter().all(|s| *s));
    for w in order.windows(2) {
        let (i, j) = (w[0], w[1]);
        assert!(depths[i] > depths[j] || (depths[i] == depths[j] && i < j));
    }
}

#[test]
fn sort_far_to_near_is_stable() {
    let list = vec![entry(1, 10), entry(2, 30), entry(3, 10), entry(4, 20), entry(5, 30)];
    let sorted = sort_far_to_near(&list);
    let colors: Vec<u32> = sorted.iter().map(|e| e.color).collect();
    assert_eq!(colors, vec![2, 5, 4, 1, 3]);
    let depths: Vec<i64> = sorted.iter().map(|e| e.avg_z).collect();
    assert_eq!(depths, vec![30, 30, 20, 10, 10]);
}

#[test]
fn draw_scene_clears_then_draws_room_and_targets_far_to_near() {
    let tri = |p: [(i32, i32); 3], color: u32, avg_z: i64| TriToRaster {
        tri: Triangle2d {
            a: Vec2d { x: p[0].0, y: p[0].1 },
            b: Vec2d { x: p[1].0, y: p[1].1 },
            c: Vec2d { x: p[2].0, y: p[2].1 },
        },
        color,
        avg_z,
    };
    let room = vec![tri([(0, 0), (3, 0), (0, 3)], 1, 0), tri([(3, 0), (0, 3), (3, 3)], 2, 99)];
    // The near target is listed first and must still be drawn last.
    let targets = vec![tri([(0, 0), (1, 0), (0, 1)], 8, 2), tri([(0, 0), (2, 0), (0, 2)], 9, 7)];
    let mut buf = vec![0xDEADu32; 18];
    draw_scene(&mut buf, &room, &targets, 4, 4);
    let expect: Vec<u32> = vec![
        8, 8, 9, 2, //
        8, 9, 2, 2, //
        9, 2, 2, 2, //
        2, 2, 2, 2, //
        0, 0,
    ];
    assert_eq!(buf, expect);
}

#[test]
fn draw_scene_of_nothing_is_a_clear_frame() {
    let mut buf = vec![5u32; 6];
    draw_scene(&mut buf, &Vec::new(), &Vec::new(), 3, 2);
    assert_eq!(buf, vec![0u32; 6]);
}
