use vstd::prelude::*;
use crate::color::Color;
use crate::line::{coord_distance, distance, line_coord_at, line_point, line_steps, on_line, on_line_prefix};

verus! {

/// Width of the drawable surface, in pixels.
pub const SCREEN_WIDTH: usize = 800;

/// Height of the drawable surface, in pixels.
pub const SCREEN_HEIGHT: usize = 600;

/// What is drawn for each triangle of a frame.
#[derive(Debug, Clone, Copy, PartialEq, Eq, Structural)]
pub enum RenderMode {
    WireframeWithDot,
    Wireframe,
    FilledTriangles,
    FilledTrianglesAndWireframe,
    Textured,
    TexturedAndWireframe,
}

/// Whether `(x, y)` names a pixel of the surface.
pub open spec fn in_bounds(x: int, y: int) -> bool {
    0 <= x < SCREEN_WIDTH && 0 <= y < SCREEN_HEIGHT
}

/// The place of pixel `(x, y)` in the row-major sequence of pixels.
pub open spec fn pixel_index(x: int, y: int) -> int {
    SCREEN_WIDTH * y + x
}

/// Whether `after` is `before` with the pixels of `region` set to `color`
/// and every other pixel of the surface as it was.
pub open spec fn painted(
    before: Seq<Color>,
    after: Seq<Color>,
    region: spec_fn(int, int) -> bool,
    color: Color,
) -> bool {
    &&& after.len() == before.len()
    &&& forall|x: int, y: int|
        in_bounds(x, y) ==> #[trigger] after[pixel_index(x, y)] == if region(x, y) {
            color
        } else {
            before[pixel_index(x, y)]
        }
}

/// Whether `after` is `before` with each pixel of `region` set to what
/// `paint` gives for it and every other pixel of the surface as it was.
pub open spec fn repainted(
    before: Seq<Color>,
    after: Seq<Color>,
    region: spec_fn(int, int) -> bool,
    paint: spec_fn(int, int) -> Color,
) -> bool {
    &&& after.len() == before.len()
    &&& forall|x: int, y: int|
        in_bounds(x, y) ==> #[trigger] after[pixel_index(x, y)] == if region(x, y) {
            paint(x, y)
        } else {
            before[pixel_index(x, y)]
        }
}

/// `before` with each pixel of `region` set to what `paint` gives for it.
pub open spec fn overlay(
    before: Seq<Color>,
    region: spec_fn(int, int) -> bool,
    paint: spec_fn(int, int) -> Color,
) -> Seq<Color> {
    Seq::new(
        before.len(),
        |i: int|
            if region(i % (SCREEN_WIDTH as int), i / (SCREEN_WIDTH as int)) {
                paint(i % (SCREEN_WIDTH as int), i / (SCREEN_WIDTH as int))
            } else {
                before[i]
            },
    )
}

/// A surface repainted on a region is the overlay of the paint on it.
pub proof fn lemma_repainted_is_overlay(
    before: Seq<Color>,
    after: Seq<Color>,
    region: spec_fn(int, int) -> bool,
    paint: spec_fn(int, int) -> Color,
)
    requires
        before.len() == SCREEN_WIDTH * SCREEN_HEIGHT,
        repainted(before, after, region, paint),
    ensures
        after == overlay(before, region, paint),
{
    assert forall|i: int| 0 <= i < after.len() implies after[i] == overlay(
        before,
        region,
        paint,
    )[i] by {
        let x = i % (SCREEN_WIDTH as int);
        let y = i / (SCREEN_WIDTH as int);
        assert(in_bounds(x, y));
        assert(pixel_index(x, y) == i);
        assert(after[pixel_index(x, y)] == if region(x, y) {
            paint(x, y)
        } else {
            before[pixel_index(x, y)]
        });
    }
    assert(after =~= overlay(before, region, paint));
}

/// A surface repainted on a region without pixels is as it was.
pub proof fn lemma_repainted_nowhere(
    before: Seq<Color>,
    after: Seq<Color>,
    region: spec_fn(int, int) -> bool,
    paint: spec_fn(int, int) -> Color,
)
    requires
        before.len() == SCREEN_WIDTH * SCREEN_HEIGHT,
        repainted(before, after, region, paint),
        forall|x: int, y: int| in_bounds(x, y) ==> !region(x, y),
    ensures
        after == before,
{
    lemma_repainted_is_overlay(before, after, region, paint);
    assert forall|i: int| 0 <= i < before.len() implies overlay(before, region, paint)[i]
        == before[i] by {
        assert(in_bounds(i % (SCREEN_WIDTH as int), i / (SCREEN_WIDTH as int)));
    }
    assert(overlay(before, region, paint) =~= before);
}

/// The bytes that hold `pixels`: four for each, in the order blue, green,
/// red, alpha.
pub open spec fn encode(pixels: Seq<Color>) -> Seq<u8> {
    Seq::new(
        4 * pixels.len(),
        |k: int|
            if k % 4 == 0 {
                pixels[k / 4].b
            } else if k % 4 == 1 {
                pixels[k / 4].g
            } else if k % 4 == 2 {
                pixels[k / 4].r
            } else {
                pixels[k / 4].a
            },
    )
}

/// Two pixels of the surface with the same place in the sequence are the
/// same pixel.
pub proof fn lemma_pixel_index_injective()
    ensures
        forall|x: int, y: int, px: int, py: int|
            in_bounds(x, y) && in_bounds(px, py) && #[trigger] pixel_index(x, y)
                == #[trigger] pixel_index(px, py) ==> x == px && y == py,
        forall|x: int, y: int|
            in_bounds(x, y) ==> 0 <= #[trigger] pixel_index(x, y) < SCREEN_WIDTH * SCREEN_HEIGHT,
{
}

/// The frame buffer: one colour for each pixel of the surface, held as four
/// bytes per pixel in the order blue, green, red, alpha.
pub struct Display {
    color_buffer: Vec<u8>,
}

impl View for Display {
    type V = Seq<Color>;

    /// The pixels, row by row from the top.
    closed spec fn view(&self) -> Seq<Color> {
        Seq::new(
            (SCREEN_WIDTH * SCREEN_HEIGHT) as nat,
            |i: int|
                Color {
                    r: self.color_buffer@[4 * i + 2],
                    g: self.color_buffer@[4 * i + 1],
                    b: self.color_buffer@[4 * i],
                    a: self.color_buffer@[4 * i + 3],
                },
        )
    }
}

impl Display {
    #[verifier::type_invariant]
    spec fn inv(self) -> bool {
        self.color_buffer@.len() == SCREEN_WIDTH * SCREEN_HEIGHT * 4
    }

    /// The colour of pixel `(x, y)`.
    pub open spec fn pixel(&self, x: int, y: int) -> Color {
        self@[pixel_index(x, y)]
    }

    /// A surface has one colour for each of its pixels.
    pub proof fn lemma_len(&self)
        ensures
            self@.len() == SCREEN_WIDTH * SCREEN_HEIGHT,
    {
    }

    /// A surface whose every channel is zero.
    pub fn new() -> (d: Display)
        ensures
            d@ == Seq::new(
                (SCREEN_WIDTH * SCREEN_HEIGHT) as nat,
                |i: int| Color { r: 0, g: 0, b: 0, a: 0 },
            ),
    {
        let d = Display { color_buffer: vec![0u8; SCREEN_WIDTH * SCREEN_HEIGHT * 4] };
        assert(d@ =~= Seq::new(
            (SCREEN_WIDTH * SCREEN_HEIGHT) as nat,
            |i: int| Color { r: 0, g: 0, b: 0, a: 0 },
        ));
        d
    }

    /// The bytes of the frame, as the presentation layer takes them.
    pub fn render_color_buffer(&self) -> (bytes: &[u8])
        ensures
            bytes@ == encode(self@),
    {
        proof {
            use_type_invariant(self);
        }
        let bytes = self.color_buffer.as_slice();
        assert(bytes@ =~= encode(self@));
        bytes
    }

    /// Writes one pixel. A pixel outside the surface is discarded.
    pub fn draw_pixel(&mut self, x: usize, y: usize, color: Color)
        ensures
            old(self)@.len() == SCREEN_WIDTH * SCREEN_HEIGHT,
            final(self)@.len() == SCREEN_WIDTH * SCREEN_HEIGHT,
            in_bounds(x as int, y as int) ==> final(self)@ == old(self)@.update(
                pixel_index(x as int, y as int),
                color,
            ),
            !in_bounds(x as int, y as int) ==> final(self)@ == old(self)@,
    {
        proof {
            use_type_invariant(&*self);
        }
        if !(x < SCREEN_WIDTH && y < SCREEN_HEIGHT) {
            return ;
        }
        let base: usize = (SCREEN_WIDTH * y + x) * 4;
        self.color_buffer[base] = color.b;
        self.color_buffer[base + 1] = color.g;
        self.color_buffer[base + 2] = color.r;
        self.color_buffer[base + 3] = color.a;
        assert(self@ =~= old(self)@.update(pixel_index(x as int, y as int), color));
    }

    /// Sets every pixel of the surface to `color`.
    pub fn clear_color_buffer(&mut self, color: Color)
        ensures
            final(self)@ == Seq::new((SCREEN_WIDTH * SCREEN_HEIGHT) as nat, |i: int| color),
    {
        let mut y: usize = 0;
        while y < SCREEN_HEIGHT
            invariant
                y <= SCREEN_HEIGHT,
                self@.len() == SCREEN_WIDTH * SCREEN_HEIGHT,
                forall|i: int| 0 <= i < SCREEN_WIDTH * y ==> self@[i] == color,
            decreases SCREEN_HEIGHT - y,
        {
            let mut x: usize = 0;
            while x < SCREEN_WIDTH
                invariant
                    y < SCREEN_HEIGHT,
                    x <= SCREEN_WIDTH,
                    self@.len() == SCREEN_WIDTH * SCREEN_HEIGHT,
                    forall|i: int| 0 <= i < SCREEN_WIDTH * y + x ==> self@[i] == color,
                decreases SCREEN_WIDTH - x,
            {
                self.draw_pixel(x, y, color);
                x += 1;
            }
            y += 1;
        }
        assert(self@ =~= Seq::new((SCREEN_WIDTH * SCREEN_HEIGHT) as nat, |i: int| color));
    }

    /// Marks every tenth pixel of every tenth row in opaque white.
    pub fn draw_grid(&mut self)
        ensures
            painted(
                old(self)@,
                final(self)@,
                |x: int, y: int| x % 10 == 0 && y % 10 == 0,
                Color { r: 255, g: 255, b: 255, a: 255 },
            ),
    {
        let white = Color::rgba(255, 255, 255, 255);
        let mut y: usize = 0;
        while y < SCREEN_HEIGHT
            invariant
                y % 10 == 0,
                white == (Color { r: 255, g: 255, b: 255, a: 255 }),
                painted(
                    old(self)@,
                    self@,
                    |px: int, py: int| px % 10 == 0 && py % 10 == 0 && py < y,
                    white,
                ),
            decreases SCREEN_HEIGHT + 10 - y,
        {
            let mut x: usize = 0;
            while x < SCREEN_WIDTH
                invariant
                    y < SCREEN_HEIGHT,
                    y % 10 == 0,
                    x % 10 == 0,
                    painted(
                        old(self)@,
                        self@,
                        |px: int, py: int|
                            px % 10 == 0 && py % 10 == 0 && (py < y || (py == y && px < x)),
                        white,
                    ),
                decreases SCREEN_WIDTH + 10 - x,
            {
                self.draw_pixel(x, y, white);
                x += 10;
            }
            y += 10;
        }
    }

    /// Fills the rectangle whose top-left pixel is `(x, y)`, `width` pixels
    /// wide and `height` pixels high.
    pub fn draw_rect(&mut self, x: usize, y: usize, height: usize, width: usize, color: Color)
        ensures
            painted(
                old(self)@,
                final(self)@,
                |px: int, py: int| x <= px < x + width && y <= py < y + height,
                color,
            ),
    {
        let x_end: usize = if x >= SCREEN_WIDTH {
            x
        } else if width > SCREEN_WIDTH - x {
            SCREEN_WIDTH
        } else {
            x + width
        };
        let y_end: usize = if y >= SCREEN_HEIGHT {
            y
        } else if height > SCREEN_HEIGHT - y {
            SCREEN_HEIGHT
        } else {
            y + height
        };
        let mut x_val: usize = x;
        while x_val < x_end
            invariant
                x <= x_val <= x_end || x_end <= x == x_val,
                painted(
                    old(self)@,
                    self@,
                    |px: int, py: int| x <= px < x_val && y <= py < y_end,
                    color,
                ),
            decreases x_end - x_val,
        {
            let mut y_val: usize = y;
            while y_val < y_end
                invariant
                    x <= x_val < x_end,
                    y <= y_val <= y_end || y_end <= y == y_val,
                    painted(
                        old(self)@,
                        self@,
                        |px: int, py: int|
                            (x <= px < x_val && y <= py < y_end) || (px == x_val && y <= py
                                < y_val),
                        color,
                    ),
                decreases y_end - y_val,
            {
                self.draw_pixel(x_val, y_val, color);
                y_val += 1;
            }
            x_val += 1;
        }
    }

    /// Draws the line from `(x0, y0)` to `(x1, y1)`, both ends included: one
    /// pixel for each step along its longer extent.
    pub fn draw_line(&mut self, x0: usize, y0: usize, x1: usize, y1: usize, color: Color)
        ensures
            painted(
                old(self)@,
                final(self)@,
                |px: int, py: int| on_line(x0 as int, y0 as int, x1 as int, y1 as int, px, py),
                color,
            ),
    {
        let delta_x: usize = coord_distance(x0, x1);
        let delta_y: usize = coord_distance(y0, y1);
        let steps: usize = if delta_x >= delta_y {
            delta_x
        } else {
            delta_y
        };
        let mut i: usize = 0;
        loop
            invariant_except_break
                i <= steps,
                painted(
                    old(self)@,
                    self@,
                    |px: int, py: int|
                        on_line_prefix(x0 as int, y0 as int, x1 as int, y1 as int, i as int, px, py),
                    color,
                ),
            invariant
                steps == line_steps(x0 as int, y0 as int, x1 as int, y1 as int),
                distance(x0 as int, x1 as int) <= steps,
                distance(y0 as int, y1 as int) <= steps,
            ensures
                painted(
                    old(self)@,
                    self@,
                    |px: int, py: int|
                        on_line(x0 as int, y0 as int, x1 as int, y1 as int, px, py),
                    color,
                ),
            decreases steps - i,
        {
            let x: usize = line_coord_at(x0, x1, steps, i);
            let y: usize = line_coord_at(y0, y1, steps, i);
            let ghost before = self@;
            self.draw_pixel(x, y, color);
            proof {
                let p = line_point(x0 as int, y0 as int, x1 as int, y1 as int, i as int);
                assert(p == (x as int, y as int));
                assert forall|px: int, py: int|
                    on_line_prefix(
                        x0 as int,
                        y0 as int,
                        x1 as int,
                        y1 as int,
                        i + 1,
                        px,
                        py,
                    ) <==> (on_line_prefix(
                        x0 as int,
                        y0 as int,
                        x1 as int,
                        y1 as int,
                        i as int,
                        px,
                        py,
                    ) || (px, py) == p) by {
                    if on_line_prefix(x0 as int, y0 as int, x1 as int, y1 as int, i + 1, px, py) {
                        let j = choose|j: int|
                            0 <= j < i + 1 && #[trigger] line_point(
                                x0 as int,
                                y0 as int,
                                x1 as int,
                                y1 as int,
                                j,
                            ) == (px, py);
                        if j < i {
                            assert(on_line_prefix(
                                x0 as int,
                                y0 as int,
                                x1 as int,
                                y1 as int,
                                i as int,
                                px,
                                py,
                            ));
                        }
                    }
                    if on_line_prefix(x0 as int, y0 as int, x1 as int, y1 as int, i as int, px, py) {
                        let j = choose|j: int|
                            0 <= j < i && #[trigger] line_point(
                                x0 as int,
                                y0 as int,
                                x1 as int,
                                y1 as int,
                                j,
                            ) == (px, py);
                        assert(0 <= j < i + 1);
                    }
                }
                lemma_pixel_index_injective();
            }
            if i == steps {
                break ;
            }
            i += 1;
        }
    }

    /// Draws the outline of the triangle with the three given corners.
    pub fn draw_triangle(
        &mut self,
        x0: usize,
        y0: usize,
        x1: usize,
        y1: usize,
        x2: usize,
        y2: usize,
        color: Color,
    )
        ensures
            painted(
                old(self)@,
                final(self)@,
                |px: int, py: int|
                    on_line(x0 as int, y0 as int, x1 as int, y1 as int, px, py) || on_line(
                        x1 as int,
                        y1 as int,
                        x2 as int,
                        y2 as int,
                        px,
                        py,
                    ) || on_line(x2 as int, y2 as int, x0 as int, y0 as int, px, py),
                color,
            ),
    {
        self.draw_line(x0, y0, x1, y1, color);
        self.draw_line(x1, y1, x2, y2, color);
        self.draw_line(x2, y2, x0, y0, color);
    }
}

} // verus!
