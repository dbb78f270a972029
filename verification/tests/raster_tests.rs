use aim_trainer::frame::{clear_frame, fill_cells, fill_rect, pack_rgb, put_pixel, resize_frame};
use aim_trainer::raster::{
    fill_triangle, fill_triangle_optimized, render_triangles, TriToRaster, Triangle2d, Vec2d,
};

fn entry(p: [(i32, i32); 3], color: u32, avg_z: i64) -> TriToRaster {
    TriToRaster {
        tri: Triangle2d {
            a: Vec2d { x: p[0].0, y: p[0].1 },
            b: Vec2d { x: p[1].0, y: p[1].1 },
            c: Vec2d { x: p[2].0, y: p[2].1 },
        },
        color,
        avg_z,
    }
}

#[test]
fn put_pixel_writes_inside_and_ignores_outside() {
    let mut buf = vec![0u32; 12];
    put_pixel(&mut buf, 1, 2, 0xFF00FF00, 4, 3);
    assert_eq!(buf[2 * 4 + 1], 0xFF00FF00);
    let before = buf.clone();
    put_pixel(&mut buf, 4, 0, 7, 4, 3);
    put_pixel(&mut buf, -1, 0, 7, 4, 3);
    put_pixel(&mut buf, 0, 3, 7, 4, 3);
    put_pixel(&mut buf, 0, -1, 7, 4, 3);
    assert_eq!(buf, before);
}

#[test]
fn put_pixel_corners_of_the_frame() {
    let mut buf = vec![0u32; 6];
    put_pixel(&mut buf, 0, 0, 1, 3, 2);
    put_pixel(&mut buf, 2, 0, 2, 3, 2);
    put_pixel(&mut buf, 0, 1, 3, 3, 2);
    put_pixel(&mut buf, 2, 1, 4, 3, 2);
    assert_eq!(buf, vec![1, 0, 2, 3, 0, 4]);
}

#[test]
fn fill_cells_writes_exactly_the_run() {
    let mut buf = vec![0u32; 8];
    fill_cells(&mut buf, 2, 3, 5);
    assert_eq!(buf, vec![0, 0, 5, 5, 5, 0, 0, 0]);
    fill_cells(&mut buf, 7, 0, 9);
    assert_eq!(buf, vec![0, 0, 5, 5, 5, 0, 0, 0]);
}

#[test]
fn clear_frame_zeroes_every_cell() {
    let mut buf = vec![7u32; 5];
    clear_frame(&mut buf);
    assert_eq!(buf, vec![0u32; 5]);
}

#[test]
fn resize_frame_fits_and_clears() {
    let mut buf = vec![7u32; 5];
    resize_frame(&mut buf, 4, 3);
    assert_eq!(buf, vec![0u32; 12]);
    resize_frame(&mut buf, 2, 1);
    assert_eq!(buf, vec![0u32; 2]);
    resize_frame(&mut buf, 0, 9);
    assert!(buf.is_empty());
}

#[test]
fn pack_rgb_is_solid_with_channels_in_place() {
    assert_eq!(pack_rgb(0x12, 0x34, 0x56), 0xFF123456);
    assert_eq!(pack_rgb(0, 0, 0), 0xFF000000);
    assert_eq!(pack_rgb(255, 255, 255), 0xFFFFFFFF);
}

#[test]
fn fill_rect_is_cut_to_the_frame() {
    let mut buf = vec![0u32; 12];
    fill_rect(&mut buf, -5, 1, 1, 7, 3, 4, 3);
    let expect: Vec<u32> = vec![
        0, 0, 0, 0, //
        3, 3, 0, 0, //
        3, 3, 0, 0,
    ];
    assert_eq!(buf, expect);
    fill_rect(&mut buf, 2, 1, 0, 2, 9, 4, 3);
    assert_eq!(buf, expect);
    fill_rect(&mut buf, 4, 9, 0, 2, 9, 4, 3);
    assert_eq!(buf, expect);
}

#[test]
fn fill_triangle_right_angle_rows() {
    let mut buf = vec![0u32; 25];
    fill_triangle_optimized(&mut buf, 0, 0, 0, 4, 4, 4, 9, 5, 5);
    let expect: Vec<u32> = vec![
        9, 0, 0, 0, 0, //
        9, 9, 0, 0, 0, //
        9, 9, 9, 0, 0, //
        9, 9, 9, 9, 0, //
        9, 9, 9, 9, 9,
    ];
    assert_eq!(buf, expect);
    let mut other = vec![0u32; 25];
    fill_triangle(&mut other, 0, 0, 0, 4, 4, 4, 9, 5, 5);
    assert_eq!(other, expect);
}

#[test]
fn fill_triangle_does_not_depend_on_corner_order() {
    let corners = [(1, 0), (5, 3), (0, 6)];
    let orders = [[0, 1, 2], [0, 2, 1], [1, 0, 2], [1, 2, 0], [2, 0, 1], [2, 1, 0]];
    let mut first = vec![0u32; 49];
    fill_triangle_optimized(&mut first, 1, 0, 5, 3, 0, 6, 1, 7, 7);
    let expect: Vec<u32> = vec![
        0, 1, 0, 0, 0, 0, 0, //
        1, 1, 1, 0, 0, 0, 0, //
        1, 1, 1, 1, 0, 0, 0, //
        1, 1, 1, 1, 1, 1, 0, //
        1, 1, 1, 1, 0, 0, 0, //
        1, 1, 0, 0, 0, 0, 0, //
        1, 0, 0, 0, 0, 0, 0,
    ];
    assert_eq!(first, expect);
    for order in orders.iter() {
        let a = corners[order[0]];
        let b = corners[order[1]];
        let c = corners[order[2]];
        let mut buf = vec![0u32; 49];
        fill_triangle(&mut buf, a.0, a.1, b.0, b.1, c.0, c.1, 1, 7, 7);
        assert_eq!(buf, expect);
    }
}

#[test]
fn fill_triangle_on_one_row_draws_nothing() {
    let mut buf = vec![0u32; 16];
    fill_triangle_optimized(&mut buf, 0, 2, 3, 2, 1, 2, 9, 4, 4);
    assert_eq!(buf, vec![0u32; 16]);
    fill_triangle(&mut buf, 0, 2, 3, 2, 1, 2, 9, 4, 4);
    assert_eq!(buf, vec![0u32; 16]);
}

#[test]
fn fill_triangle_flat_top_and_flat_bottom() {
    let mut buf = vec![0u32; 16];
    fill_triangle_optimized(&mut buf, 0, 0, 3, 0, 0, 3, 2, 4, 4);
    let flat_top: Vec<u32> = vec![
        2, 2, 2, 2, //
        2, 2, 2, 0, //
        2, 2, 0, 0, //
        2, 0, 0, 0,
    ];
    assert_eq!(buf, flat_top);
    let mut buf = vec![0u32; 16];
    fill_triangle_optimized(&mut buf, 3, 0, 0, 3, 3, 3, 2, 4, 4);
    let flat_bottom: Vec<u32> = vec![
        0, 0, 0, 2, //
        0, 0, 2, 2, //
        0, 2, 2, 2, //
        2, 2, 2, 2,
    ];
    assert_eq!(buf, flat_bottom);
}

#[test]
fn fill_triangle_is_cut_to_the_frame() {
    let mut buf = vec![0u32; 9];
    fill_triangle_optimized(&mut buf, -4, -4, 8, -4, -4, 8, 6, 3, 3);
    assert_eq!(buf, vec![6u32; 9]);
    let mut buf = vec![0u32; 9];
    fill_triangle(&mut buf, -4, -4, 8, -4, -4, 8, 6, 3, 3);
    assert_eq!(buf, vec![6u32; 9]);
    let mut buf = vec![0u32; 9];
    fill_triangle_optimized(&mut buf, 10, 10, 20, 10, 10, 20, 6, 3, 3);
    assert_eq!(buf, vec![0u32; 9]);
    fill_triangle_optimized(&mut buf, -20, -20, -10, -20, -20, -10, 6, 3, 3);
    assert_eq!(buf, vec![0u32; 9]);
}

#[test]
fn fill_triangle_rounds_edges_toward_zero() {
    // Long edge from (0, 0) to (3, 4): columns 0, 0.75, 1.5, 2.25, 3 round to 0, 0, 1, 2, 3.
    let mut buf = vec![0u32; 20];
    fill_triangle_optimized(&mut buf, 0, 0, 3, 4, 0, 4, 1, 4, 5);
    let expect: Vec<u32> = vec![
        1, 0, 0, 0, //
        1, 0, 0, 0, //
        1, 1, 0, 0, //
        1, 1, 1, 0, //
        1, 1, 1, 1,
    ];
    assert_eq!(buf, expect);
}

#[test]
fn fill_triangle_in_an_empty_frame() {
    let mut buf: Vec<u32> = Vec::new();
    fill_triangle_optimized(&mut buf, 0, 0, 3, 4, 0, 4, 1, 0, 0);
    fill_triangle(&mut buf, 0, 0, 3, 4, 0, 4, 1, 0, 5);
    assert!(buf.is_empty());
}

#[test]
fn fill_triangle_with_extreme_corners() {
    let mut buf = vec![0u32; 4];
    fill_triangle_optimized(&mut buf, i32::MIN, i32::MIN, i32::MAX, i32::MIN, i32::MIN, i32::MAX, 5, 2, 2);
    assert_eq!(buf, vec![0u32; 4]);
    fill_triangle_optimized(&mut buf, i32::MIN, i32::MIN, i32::MAX, i32::MIN, i32::MAX, i32::MAX, 5, 2, 2);
    assert_eq!(buf, vec![5, 5, 0, 5]);
    let mut buf = vec![0u32; 4];
    fill_triangle(&mut buf, i32::MIN, i32::MIN, i32::MAX, i32::MAX, i32::MIN, i32::MAX, 5, 2, 2);
    assert_eq!(buf, vec![5, 0, 5, 5]);
}

#[test]
fn render_triangles_draws_in_order() {
    let mut buf = vec![0u32; 16];
    let list = vec![
        entry([(0, 0), (3, 0), (0, 3)], 1, 10),
        entry([(3, 0), (0, 3), (3, 3)], 2, 5),
    ];
    render_triangles(&mut buf, &list, 4, 4);
    let expect: Vec<u32> = vec![
        1, 1, 1, 2, //
        1, 1, 2, 2, //
        1, 2, 2, 2, //
        2, 2, 2, 2,
    ];
    assert_eq!(buf, expect);
    let mut buf = vec![0u32; 16];
    let reversed = vec![list[1], list[0]];
    render_triangles(&mut buf, &reversed, 4, 4);
    let expect: Vec<u32> = vec![
        1, 1, 1, 1, //
        1, 1, 1, 2, //
        1, 1, 2, 2, //
        1, 2, 2, 2,
    ];
    assert_eq!(buf, expect);
}

#[test]
fn render_triangles_of_an_empty_list_changes_nothing() {
    let mut buf = vec![3u32; 6];
    render_triangles(&mut buf, &Vec::new(), 3, 2);
    assert_eq!(buf, vec![3u32; 6]);
}

/// The same fill with the columns of each row found in single precision.
fn fill_in_single_precision(buf: &mut Vec<u32>, p: [(i32, i32); 3], color: u32, width: usize, height: usize) {
    let (mut x0, mut y0, mut x1, mut y1, mut x2, mut y2) = (p[0].0, p[0].1, p[1].0, p[1].1, p[2].0, p[2].1);
    if y0 > y1 {
        std::mem::swap(&mut y0, &mut y1);
        std::mem::swap(&mut x0, &mut x1);
    }
    if y0 > y2 {
        std::mem::swap(&mut y0, &mut y2);
        std::mem::swap(&mut x0, &mut x2);
    }
    if y1 > y2 {
        std::mem::swap(&mut y1, &mut y2);
        std::mem::swap(&mut x1, &mut x2);
    }
    let total_height = y2 - y0;
    if total_height == 0 {
        return;
    }
    for i in 0..=total_height {
        let y = y0 + i;
        if y < 0 {
            continue;
        }
        if y >= height as i32 {
            break;
        }
        let second_half = i > (y1 - y0) || y1 == y0;
        let segment_height = if second_half { y2 - y1 } else { y1 - y0 };
        if segment_height == 0 {
            continue;
        }
        let alpha = i as f32 / total_height as f32;
        let beta = (i - if second_half { y1 - y0 } else { 0 }) as f32 / segment_height as f32;
        let ax = x0 as f32 + (x2 - x0) as f32 * alpha;
        let bx = if second_half {
            x1 as f32 + (x2 - x1) as f32 * beta
        } else {
            x0 as f32 + (x1 - x0) as f32 * beta
        };
        let mut minx = if ax < bx { ax as i32 } else { bx as i32 };
        let mut maxx = if ax < bx { bx as i32 } else { ax as i32 };
        minx = minx.max(0);
        maxx = maxx.min(width as i32 - 1);
        if minx > maxx {
            continue;
        }
        let row_start = (y as usize) * width + (minx as usize);
        let span_length = (maxx - minx + 1) as usize;
        buf[row_start..row_start + span_length].fill(color);
    }
}

#[test]
fn fill_triangle_agrees_with_single_precision_on_small_triangles() {
    let side = 5usize;
    let mut corners: Vec<(i32, i32)> = Vec::new();
    for y in -1..=(side as i32) {
        for x in -1..=(side as i32) {
            corners.push((x, y));
        }
    }
    let mut checked = 0u32;
    for (i, a) in corners.iter().enumerate() {
        for (j, b) in corners.iter().enumerate() {
            if (i + 3 * j) % 5 != 0 {
                continue;
            }
            for c in corners.iter() {
                let mut exact = vec![0u32; side * side];
                fill_triangle_optimized(&mut exact, a.0, a.1, b.0, b.1, c.0, c.1, 1, side, side);
                let mut single = vec![0u32; side * side];
                fill_in_single_precision(&mut single, [*a, *b, *c], 1, side, side);
                assert_eq!(exact, single);
                checked += 1;
            }
        }
    }
    assert!(checked > 10_000);
}
