use rust_3d_rendering::color::Color;
use rust_3d_rendering::display::{Display, SCREEN_HEIGHT, SCREEN_WIDTH};
use rust_3d_rendering::fixed::FIXED_ONE;
use rust_3d_rendering::line::{coord_distance, line_coord_at};
use rust_3d_rendering::triangle::{
    barycentric_weights, draw_filled_triangle, draw_textured_triangle, edge_x_at, sort_vertices,
    Vertex, Weights, COORD_LIMIT,
};

const BLANK: Color = Color { r: 0, g: 0, b: 0, a: 0 };
const INK: Color = Color { r: 200, g: 100, b: 50, a: 255 };

fn color_at(display: &Display, x: usize, y: usize) -> Color {
    let bytes = display.render_color_buffer();
    let base = 4 * (SCREEN_WIDTH * y + x);
    Color { r: bytes[base + 2], g: bytes[base + 1], b: bytes[base], a: bytes[base + 3] }
}

fn changed(display: &Display) -> Vec<(usize, usize)> {
    let mut found = Vec::new();
    for y in 0..SCREEN_HEIGHT {
        for x in 0..SCREEN_WIDTH {
            if color_at(display, x, y) != BLANK {
                found.push((x, y));
            }
        }
    }
    found
}

fn texture_of(count: usize) -> Vec<Color> {
    let mut texture = Vec::new();
    for i in 0..count {
        texture.push(Color { r: (i + 1) as u8, g: (2 * i + 1) as u8, b: 7, a: 255 });
    }
    texture
}

fn at(x: usize, y: usize) -> Vertex {
    Vertex { x, y, u: 0, v: 0 }
}

#[test]
fn coord_distance_is_symmetric() {
    assert_eq!(coord_distance(3, 10), 7);
    assert_eq!(coord_distance(10, 3), 7);
    assert_eq!(coord_distance(4, 4), 0);
    assert_eq!(coord_distance(0, usize::MAX), usize::MAX);
}

#[test]
fn line_coord_at_rounds_to_nearest() {
    assert_eq!(line_coord_at(0, 2, 6, 0), 0);
    assert_eq!(line_coord_at(0, 2, 6, 1), 0);
    assert_eq!(line_coord_at(0, 2, 6, 2), 1);
    assert_eq!(line_coord_at(0, 2, 6, 4), 1);
    assert_eq!(line_coord_at(0, 2, 6, 5), 2);
    assert_eq!(line_coord_at(0, 2, 6, 6), 2);
}

#[test]
fn line_coord_at_puts_a_half_upward_in_both_directions() {
    assert_eq!(line_coord_at(0, 1, 2, 1), 1);
    assert_eq!(line_coord_at(1, 0, 2, 1), 1);
    assert_eq!(line_coord_at(10, 7, 6, 1), 10);
    assert_eq!(line_coord_at(10, 7, 6, 2), 9);
}

#[test]
fn line_coord_at_without_steps_is_the_start() {
    assert_eq!(line_coord_at(9, 9, 0, 0), 9);
}

#[test]
fn line_coord_at_takes_the_largest_coordinates() {
    assert_eq!(line_coord_at(0, usize::MAX, usize::MAX, usize::MAX), usize::MAX);
    assert_eq!(line_coord_at(usize::MAX, 0, usize::MAX, usize::MAX), 0);
    assert_eq!(line_coord_at(usize::MAX, 0, usize::MAX, 1), usize::MAX - 1);
}

#[test]
fn edge_x_at_rounds_down() {
    assert_eq!(edge_x_at(0, 4, 4, 3), 3);
    assert_eq!(edge_x_at(0, 1, 3, 1), 0);
    assert_eq!(edge_x_at(0, 1, 3, 2), 0);
    assert_eq!(edge_x_at(0, 1, 3, 3), 1);
    assert_eq!(edge_x_at(0, 7, 2, 1), 3);
}

#[test]
fn edge_x_at_rounds_down_on_a_falling_edge() {
    assert_eq!(edge_x_at(4, 0, 4, 1), 3);
    assert_eq!(edge_x_at(1, 0, 3, 1), 0);
    assert_eq!(edge_x_at(1, 0, 3, 0), 1);
    assert_eq!(edge_x_at(7, 0, 2, 1), 3);
    assert_eq!(edge_x_at(usize::MAX, 0, usize::MAX, usize::MAX), 0);
}

#[test]
fn edge_x_at_stays_when_the_edge_spans_no_row() {
    assert_eq!(edge_x_at(5, 9, 0, 0), 5);
}

#[test]
fn sort_vertices_orders_by_row() {
    let a = Vertex { x: 1, y: 9, u: 10, v: 11 };
    let b = Vertex { x: 2, y: 3, u: 20, v: 21 };
    let c = Vertex { x: 3, y: 6, u: 30, v: 31 };
    assert_eq!(sort_vertices(a, b, c), (b, c, a));
    assert_eq!(sort_vertices(c, b, a), (b, c, a));
    assert_eq!(sort_vertices(b, c, a), (b, c, a));
    assert_eq!(sort_vertices(a, c, b), (b, c, a));
}

#[test]
fn sort_vertices_keeps_the_order_within_a_row() {
    let a = Vertex { x: 1, y: 5, u: 1, v: 1 };
    let b = Vertex { x: 2, y: 5, u: 2, v: 2 };
    let c = Vertex { x: 3, y: 5, u: 3, v: 3 };
    assert_eq!(sort_vertices(a, b, c), (a, b, c));
    let top = Vertex { x: 0, y: 1, u: 0, v: 0 };
    assert_eq!(sort_vertices(a, b, top), (top, a, b));
}

#[test]
fn solid_fill_of_the_right_triangle() {
    let mut display = Display::new();
    draw_filled_triangle(&mut display, 0, 0, 4, 0, 0, 4, INK);
    for y in 0..SCREEN_HEIGHT {
        for x in 0..SCREEN_WIDTH {
            let expected = if x + y <= 4 { INK } else { BLANK };
            assert_eq!(color_at(&display, x, y), expected, "pixel ({}, {})", x, y);
        }
    }
}

#[test]
fn solid_fill_does_not_depend_on_the_order_of_the_corners() {
    let mut first = Display::new();
    draw_filled_triangle(&mut first, 0, 0, 4, 0, 0, 4, INK);
    let mut second = Display::new();
    draw_filled_triangle(&mut second, 0, 4, 0, 0, 4, 0, INK);
    assert_eq!(changed(&first), changed(&second));
}

#[test]
fn solid_fill_with_a_flat_lower_edge() {
    let mut display = Display::new();
    draw_filled_triangle(&mut display, 2, 0, 0, 2, 4, 2, INK);
    assert_eq!(
        changed(&display),
        vec![(2, 0), (1, 1), (2, 1), (3, 1), (0, 2), (1, 2), (2, 2), (3, 2), (4, 2)]
    );
}

#[test]
fn solid_fill_is_cut_at_the_row_of_the_middle_corner() {
    let mut display = Display::new();
    draw_filled_triangle(&mut display, 0, 0, 4, 2, 0, 4, INK);
    assert_eq!(
        changed(&display),
        vec![
            (0, 0),
            (0, 1),
            (1, 1),
            (2, 1),
            (0, 2),
            (1, 2),
            (2, 2),
            (3, 2),
            (4, 2),
            (0, 3),
            (1, 3),
            (2, 3),
            (0, 4)
        ]
    );
}

#[test]
fn solid_fill_of_a_triangle_on_one_row_marks_its_first_corner() {
    let mut display = Display::new();
    draw_filled_triangle(&mut display, 3, 5, 0, 5, 7, 5, INK);
    assert_eq!(changed(&display), vec![(3, 5)]);
}

#[test]
fn solid_fill_of_one_point() {
    let mut display = Display::new();
    draw_filled_triangle(&mut display, 6, 6, 6, 6, 6, 6, INK);
    assert_eq!(changed(&display), vec![(6, 6)]);
}

#[test]
fn solid_fill_across_the_edge_of_the_surface_is_cut() {
    let mut display = Display::new();
    draw_filled_triangle(&mut display, 798, 598, 802, 598, 798, 602, INK);
    assert_eq!(changed(&display), vec![(798, 598), (799, 598), (798, 599), (799, 599)]);
}

#[test]
fn solid_fill_outside_the_surface_draws_nothing() {
    let mut display = Display::new();
    draw_filled_triangle(&mut display, 900, 700, 910, 700, 900, 710, INK);
    assert!(changed(&display).is_empty());
}

#[test]
fn barycentric_weights_of_the_corners() {
    let a = at(0, 0);
    let b = at(4, 0);
    let c = at(0, 4);
    assert_eq!(
        barycentric_weights(&a, &b, &c, 0, 0),
        Weights { alpha: -16, beta: 0, gamma: 0, area: -16 }
    );
    assert_eq!(
        barycentric_weights(&a, &b, &c, 4, 0),
        Weights { alpha: 0, beta: -16, gamma: 0, area: -16 }
    );
    assert_eq!(
        barycentric_weights(&a, &b, &c, 0, 4),
        Weights { alpha: 0, beta: 0, gamma: -16, area: -16 }
    );
}

#[test]
fn barycentric_weights_inside_and_outside() {
    let a = at(0, 0);
    let b = at(4, 0);
    let c = at(0, 4);
    assert_eq!(
        barycentric_weights(&a, &b, &c, 1, 2),
        Weights { alpha: -4, beta: -4, gamma: -8, area: -16 }
    );
    assert_eq!(
        barycentric_weights(&a, &b, &c, 4, 4),
        Weights { alpha: 16, beta: -16, gamma: -16, area: -16 }
    );
}

#[test]
fn barycentric_weights_add_up_to_the_area() {
    let a = at(3, 17);
    let b = at(40, 2);
    let c = at(11, 29);
    for px in 0..45 {
        for py in 0..30 {
            let w = barycentric_weights(&a, &b, &c, px, py);
            assert_eq!(w.alpha + w.beta + w.gamma, w.area);
            assert_eq!(w.area, -564);
        }
    }
}

#[test]
fn barycentric_weights_of_a_triangle_without_area() {
    let w = barycentric_weights(&at(0, 0), &at(2, 2), &at(4, 4), 1, 3);
    assert_eq!(w.area, 0);
    assert_eq!(w.alpha + w.beta + w.gamma, 0);
}

#[test]
fn barycentric_weights_at_the_limit() {
    let m = COORD_LIMIT - 1;
    let w = barycentric_weights(&at(0, 0), &at(m, 0), &at(0, m), m, m);
    let mm = (m as i128) * (m as i128);
    assert_eq!(w, Weights { alpha: mm, beta: -mm, gamma: -mm, area: -mm });
}

#[test]
fn textured_fill_copies_the_texel_under_each_pixel() {
    let mut display = Display::new();
    let texture = texture_of(16);
    draw_textured_triangle(
        &mut display,
        0, 0, 0, 0,
        4, 0, FIXED_ONE, 0,
        0, 4, 0, FIXED_ONE,
        &texture, 4, 4,
    );
    for y in 0..SCREEN_HEIGHT {
        for x in 0..SCREEN_WIDTH {
            let expected = if x + y < 4 { texture[4 * y + x] } else { BLANK };
            assert_eq!(color_at(&display, x, y), expected, "pixel ({}, {})", x, y);
        }
    }
}

#[test]
fn textured_fill_carries_the_texture_coordinates_with_the_corners() {
    let texture = texture_of(16);
    let mut first = Display::new();
    draw_textured_triangle(
        &mut first,
        0, 0, 0, 0,
        4, 0, FIXED_ONE, 0,
        0, 4, 0, FIXED_ONE,
        &texture, 4, 4,
    );
    let mut second = Display::new();
    draw_textured_triangle(
        &mut second,
        0, 4, 0, FIXED_ONE,
        0, 0, 0, 0,
        4, 0, FIXED_ONE, 0,
        &texture, 4, 4,
    );
    assert_eq!(first.render_color_buffer(), second.render_color_buffer());
    assert_eq!(changed(&first).len(), 10);
}

#[test]
fn textured_fill_walks_both_halves() {
    let mut display = Display::new();
    let texture = vec![INK];
    draw_textured_triangle(
        &mut display,
        0, 0, 0, 0,
        4, 2, 0, 0,
        0, 4, 0, 0,
        &texture, 1, 1,
    );
    assert_eq!(
        changed(&display),
        vec![(0, 1), (1, 1), (0, 2), (1, 2), (2, 2), (3, 2), (0, 3), (1, 3)]
    );
}

#[test]
fn textured_fill_skips_texels_outside_the_texture() {
    let mut display = Display::new();
    let texture = texture_of(6);
    draw_textured_triangle(
        &mut display,
        0, 0, 0, 0,
        4, 0, FIXED_ONE, 0,
        0, 4, 0, FIXED_ONE,
        &texture, 4, 4,
    );
    assert_eq!(changed(&display), vec![(0, 0), (1, 0), (2, 0), (3, 0), (0, 1), (1, 1)]);
    assert_eq!(color_at(&display, 1, 1), texture[5]);
}

#[test]
fn textured_fill_with_an_empty_texture_draws_nothing() {
    let mut display = Display::new();
    let texture: Vec<Color> = Vec::new();
    draw_textured_triangle(
        &mut display,
        0, 0, 0, 0,
        4, 0, FIXED_ONE, 0,
        0, 4, 0, FIXED_ONE,
        &texture, 4, 4,
    );
    assert!(changed(&display).is_empty());
}

#[test]
fn textured_fill_takes_the_size_of_negative_coordinates() {
    let mut display = Display::new();
    let texture = texture_of(16);
    draw_textured_triangle(
        &mut display,
        0, 0, 0, 0,
        4, 0, -FIXED_ONE, 0,
        0, 4, 0, -FIXED_ONE,
        &texture, 4, 4,
    );
    assert_eq!(color_at(&display, 2, 1), texture[6]);
    assert_eq!(changed(&display).len(), 10);
}

#[test]
fn textured_fill_of_one_point_draws_nothing() {
    let mut display = Display::new();
    let texture = texture_of(16);
    draw_textured_triangle(
        &mut display,
        5, 5, 0, 0,
        5, 5, FIXED_ONE, 0,
        5, 5, 0, FIXED_ONE,
        &texture, 4, 4,
    );
    assert!(changed(&display).is_empty());
}

#[test]
fn textured_fill_of_corners_on_one_line_draws_nothing() {
    let texture = texture_of(16);
    let mut display = Display::new();
    draw_textured_triangle(
        &mut display,
        0, 0, 0, 0,
        2, 2, FIXED_ONE, 0,
        4, 4, 0, FIXED_ONE,
        &texture, 4, 4,
    );
    assert!(changed(&display).is_empty());
    draw_textured_triangle(
        &mut display,
        1, 7, 0, 0,
        9, 7, FIXED_ONE, 0,
        4, 7, 0, FIXED_ONE,
        &texture, 4, 4,
    );
    assert!(changed(&display).is_empty());
    draw_textured_triangle(
        &mut display,
        3, 1, 0, 0,
        3, 9, FIXED_ONE, 0,
        3, 4, 0, FIXED_ONE,
        &texture, 4, 4,
    );
    assert!(changed(&display).is_empty());
    draw_textured_triangle(
        &mut display,
        0, 0, 0, 0,
        7, 3, FIXED_ONE, 0,
        14, 6, 0, FIXED_ONE,
        &texture, 4, 4,
    );
    assert!(changed(&display).is_empty());
}

#[test]
fn textured_fill_outside_the_surface_draws_nothing() {
    let mut display = Display::new();
    let texture = texture_of(16);
    draw_textured_triangle(
        &mut display,
        900, 700, 0, 0,
        904, 700, FIXED_ONE, 0,
        900, 704, 0, FIXED_ONE,
        &texture, 4, 4,
    );
    assert!(changed(&display).is_empty());
}

#[test]
fn solid_fill_of_corner_triangles_of_other_sizes() {
    for n in [0usize, 1, 7, 20] {
        let mut display = Display::new();
        draw_filled_triangle(&mut display, 0, 0, n, 0, 0, n, INK);
        let mut expected = Vec::new();
        for y in 0..=n {
            for x in 0..=(n - y) {
                expected.push((x, y));
            }
        }
        assert_eq!(changed(&display), expected);
    }
}
