use rust_3d_rendering::color::Color;
use rust_3d_rendering::display::{Display, RenderMode, SCREEN_HEIGHT, SCREEN_WIDTH};
use rust_3d_rendering::swap::swap;

fn pixel(display: &Display, x: usize, y: usize) -> Color {
    let bytes = display.render_color_buffer();
    let base = 4 * (SCREEN_WIDTH * y + x);
    Color { r: bytes[base + 2], g: bytes[base + 1], b: bytes[base], a: bytes[base + 3] }
}

fn painted_pixels(display: &Display, background: Color) -> Vec<(usize, usize)> {
    let mut found = Vec::new();
    for y in 0..SCREEN_HEIGHT {
        for x in 0..SCREEN_WIDTH {
            if pixel(display, x, y) != background {
                found.push((x, y));
            }
        }
    }
    found
}

const BLANK: Color = Color { r: 0, g: 0, b: 0, a: 0 };
const INK: Color = Color { r: 10, g: 20, b: 30, a: 40 };

#[test]
fn swap_exchanges_two_values() {
    let mut a: usize = 3;
    let mut b: usize = 7;
    swap(&mut a, &mut b);
    assert_eq!(a, 7);
    assert_eq!(b, 3);
}

#[test]
fn swap_of_equal_values_keeps_them() {
    let mut a = 'x';
    let mut b = 'x';
    swap(&mut a, &mut b);
    assert_eq!((a, b), ('x', 'x'));
}

#[test]
fn color_rgba_sets_each_channel() {
    let c = Color::rgba(1, 2, 3, 4);
    assert_eq!(c, Color { r: 1, g: 2, b: 3, a: 4 });
}

#[test]
fn surface_has_the_documented_size() {
    assert_eq!(SCREEN_WIDTH, 800);
    assert_eq!(SCREEN_HEIGHT, 600);
    let display = Display::new();
    assert_eq!(display.render_color_buffer().len(), 800 * 600 * 4);
}

#[test]
fn new_surface_is_all_zero() {
    let display = Display::new();
    assert!(display.render_color_buffer().iter().all(|b| *b == 0));
}

#[test]
fn draw_pixel_stores_blue_green_red_alpha() {
    let mut display = Display::new();
    display.draw_pixel(5, 2, INK);
    let bytes = display.render_color_buffer();
    let base = 4 * (800 * 2 + 5);
    assert_eq!(&bytes[base..base + 4], &[30, 20, 10, 40]);
    assert_eq!(painted_pixels(&display, BLANK), vec![(5, 2)]);
}

#[test]
fn draw_pixel_reaches_the_last_pixel() {
    let mut display = Display::new();
    display.draw_pixel(SCREEN_WIDTH - 1, SCREEN_HEIGHT - 1, INK);
    assert_eq!(pixel(&display, 799, 599), INK);
    assert_eq!(painted_pixels(&display, BLANK).len(), 1);
}

#[test]
fn draw_pixel_outside_the_surface_changes_nothing() {
    let mut display = Display::new();
    display.clear_color_buffer(Color::rgba(9, 9, 9, 9));
    let before = display.render_color_buffer().to_vec();
    display.draw_pixel(SCREEN_WIDTH, 0, INK);
    display.draw_pixel(0, SCREEN_HEIGHT, INK);
    display.draw_pixel(SCREEN_WIDTH, SCREEN_HEIGHT, INK);
    display.draw_pixel(SCREEN_WIDTH + 5, 3, INK);
    display.draw_pixel(3, SCREEN_HEIGHT + 5, INK);
    display.draw_pixel(usize::MAX, usize::MAX, INK);
    assert_eq!(display.render_color_buffer(), &before[..]);
}

#[test]
fn clear_sets_every_pixel() {
    let mut display = Display::new();
    display.draw_pixel(1, 1, INK);
    let c = Color::rgba(1, 2, 3, 255);
    display.clear_color_buffer(c);
    let bytes = display.render_color_buffer();
    assert!(bytes.chunks(4).all(|p| p == [3, 2, 1, 255]));
}

#[test]
fn draw_rect_fills_width_by_height() {
    let mut display = Display::new();
    display.draw_rect(10, 20, 2, 3, INK);
    assert_eq!(
        painted_pixels(&display, BLANK),
        vec![(10, 20), (11, 20), (12, 20), (10, 21), (11, 21), (12, 21)]
    );
}

#[test]
fn draw_rect_is_cut_at_the_edge_of_the_surface() {
    let mut display = Display::new();
    display.draw_rect(798, 598, 6, 6, INK);
    assert_eq!(painted_pixels(&display, BLANK), vec![(798, 598), (799, 598), (798, 599), (799, 599)]);
}

#[test]
fn draw_rect_of_no_extent_or_outside_draws_nothing() {
    let mut display = Display::new();
    display.draw_rect(5, 5, 0, 4, INK);
    display.draw_rect(5, 5, 4, 0, INK);
    display.draw_rect(800, 0, 4, 4, INK);
    display.draw_rect(0, 600, 4, 4, INK);
    display.draw_rect(usize::MAX, usize::MAX, usize::MAX, usize::MAX, INK);
    assert!(painted_pixels(&display, BLANK).is_empty());
}

#[test]
fn draw_rect_takes_huge_extents() {
    let mut display = Display::new();
    display.draw_rect(799, 599, usize::MAX, usize::MAX, INK);
    assert_eq!(painted_pixels(&display, BLANK), vec![(799, 599)]);
}

#[test]
fn draw_grid_marks_every_tenth_pixel_in_white() {
    let mut display = Display::new();
    display.draw_grid();
    let white = Color::rgba(255, 255, 255, 255);
    for y in 0..SCREEN_HEIGHT {
        for x in 0..SCREEN_WIDTH {
            let expected = if x % 10 == 0 && y % 10 == 0 { white } else { BLANK };
            assert_eq!(pixel(&display, x, y), expected);
        }
    }
}

#[test]
fn draw_line_horizontal() {
    let mut display = Display::new();
    display.draw_line(2, 3, 5, 3, INK);
    assert_eq!(painted_pixels(&display, BLANK), vec![(2, 3), (3, 3), (4, 3), (5, 3)]);
}

#[test]
fn draw_line_horizontal_backwards() {
    let mut display = Display::new();
    display.draw_line(5, 3, 2, 3, INK);
    assert_eq!(painted_pixels(&display, BLANK), vec![(2, 3), (3, 3), (4, 3), (5, 3)]);
}

#[test]
fn draw_line_vertical() {
    let mut display = Display::new();
    display.draw_line(7, 4, 7, 1, INK);
    assert_eq!(painted_pixels(&display, BLANK), vec![(7, 1), (7, 2), (7, 3), (7, 4)]);
}

#[test]
fn draw_line_diagonal() {
    let mut display = Display::new();
    display.draw_line(0, 0, 3, 3, INK);
    assert_eq!(painted_pixels(&display, BLANK), vec![(0, 0), (1, 1), (2, 2), (3, 3)]);
}

#[test]
fn draw_line_of_one_point() {
    let mut display = Display::new();
    display.draw_line(4, 4, 4, 4, INK);
    assert_eq!(painted_pixels(&display, BLANK), vec![(4, 4)]);
}

#[test]
fn draw_line_rounds_a_half_upward() {
    let mut display = Display::new();
    display.draw_line(0, 0, 2, 1, INK);
    assert_eq!(painted_pixels(&display, BLANK), vec![(0, 0), (1, 1), (2, 1)]);
}

#[test]
fn draw_line_rounds_a_half_upward_when_descending() {
    let mut display = Display::new();
    display.draw_line(2, 1, 0, 0, INK);
    assert_eq!(painted_pixels(&display, BLANK), vec![(0, 0), (1, 1), (2, 1)]);
}

#[test]
fn draw_line_shallow_slope() {
    let mut display = Display::new();
    display.draw_line(0, 0, 6, 2, INK);
    assert_eq!(
        painted_pixels(&display, BLANK),
        vec![(0, 0), (1, 0), (2, 1), (3, 1), (4, 1), (5, 2), (6, 2)]
    );
}

#[test]
fn draw_line_steep_slope() {
    let mut display = Display::new();
    display.draw_line(1, 0, 0, 3, INK);
    assert_eq!(painted_pixels(&display, BLANK), vec![(1, 0), (1, 1), (0, 2), (0, 3)]);
}

#[test]
fn draw_line_leaving_the_surface_is_cut() {
    let mut display = Display::new();
    display.draw_line(797, 0, 803, 0, INK);
    assert_eq!(painted_pixels(&display, BLANK), vec![(797, 0), (798, 0), (799, 0)]);
}

#[test]
fn draw_triangle_draws_three_sides() {
    let mut display = Display::new();
    display.draw_triangle(0, 0, 3, 0, 0, 3, INK);
    assert_eq!(
        painted_pixels(&display, BLANK),
        vec![(0, 0), (1, 0), (2, 0), (3, 0), (0, 1), (2, 1), (0, 2), (1, 2), (0, 3)]
    );
}

#[test]
fn render_modes_are_distinct() {
    assert_ne!(RenderMode::Wireframe, RenderMode::WireframeWithDot);
    assert_ne!(RenderMode::FilledTriangles, RenderMode::FilledTrianglesAndWireframe);
    assert_ne!(RenderMode::Textured, RenderMode::TexturedAndWireframe);
}
