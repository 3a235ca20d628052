//! The decisions of a frame: what the input changes, which faces are
//! drawn, in which order, and what is drawn for each.

use vstd::prelude::*;
use crate::color::Color;
use crate::display::{
    in_bounds, lemma_repainted_is_overlay, overlay, pixel_index, Display, RenderMode, SCREEN_HEIGHT,
    SCREEN_WIDTH,
};
use crate::light::{light_apply_intensity, scale_channel};
use crate::line::on_line;
use crate::mesh::Face;
use crate::texture::Tex2;
use crate::triangle::{
    draw_filled_triangle, draw_textured_triangle, has_texel, in_filled_triangle,
    in_textured_triangle, texel_index, top_to_bottom, within_limit, Vertex, COORD_LIMIT,
};

verus! {

/// A pixel position on the surface.
#[derive(Debug, Clone, Copy, PartialEq, Eq, Structural)]
pub struct ScreenPoint {
    pub x: usize,
    pub y: usize,
}

/// A face made ready for drawing: its three corners on the surface, their
/// texture coordinates, its shaded colour and the key of its mean depth, by
/// which a frame's triangles are ordered: the farther, the larger.
#[derive(Debug, Clone, Copy, PartialEq, Eq)]
pub struct Triangle {
    pub points: [ScreenPoint; 3],
    pub texcoords: [Tex2; 3],
    pub color: Color,
    pub avg_depth: i32,
}

impl Triangle {
    /// The triangle to draw for a face that is seen: the corners where they
    /// fall on the surface, the texture coordinates of the face, its colour
    /// under light of the given intensity, and the key of its depth.
    pub fn from_face(
        face: &Face,
        points: [ScreenPoint; 3],
        light_intensity: i32,
        avg_depth: i32,
    ) -> (triangle: Triangle)
        ensures
            triangle.points == points,
            triangle.texcoords[0] == face.a_uv,
            triangle.texcoords[1] == face.b_uv,
            triangle.texcoords[2] == face.c_uv,
            triangle.color.r == scale_channel(face.color.r, light_intensity as int),
            triangle.color.g == scale_channel(face.color.g, light_intensity as int),
            triangle.color.b == scale_channel(face.color.b, light_intensity as int),
            triangle.color.a == face.color.a,
            triangle.avg_depth == avg_depth,
    {
        Triangle {
            points,
            texcoords: [face.a_uv, face.b_uv, face.c_uv],
            color: light_apply_intensity(&face.color, light_intensity),
            avg_depth,
        }
    }

    /// Whether texture mapping can take the triangle, with a texture of the
    /// given width and height.
    pub fn fits_texture_mapping(&self, texture_width: usize, texture_height: usize) -> (fits: bool)
        ensures
            fits == within_limit(
                self.vertex(0),
                self.vertex(1),
                self.vertex(2),
                texture_width,
                texture_height,
            ),
    {
        self.points[0].x < COORD_LIMIT && self.points[0].y < COORD_LIMIT && self.points[1].x
            < COORD_LIMIT && self.points[1].y < COORD_LIMIT && self.points[2].x < COORD_LIMIT
            && self.points[2].y < COORD_LIMIT && texture_width < COORD_LIMIT && texture_height
            < COORD_LIMIT
    }

    /// The `i`-th corner with its texture coordinates.
    pub open spec fn vertex(&self, i: int) -> Vertex {
        Vertex {
            x: self.points[i].x,
            y: self.points[i].y,
            u: self.texcoords[i].u,
            v: self.texcoords[i].v,
        }
    }
}

/// What the user asks for during one frame: to leave, and the keys held
/// down.
#[derive(Debug, Clone, Copy, PartialEq, Eq, Structural)]
pub struct Input {
    pub quit: bool,
    pub escape: bool,
    pub c: bool,
    pub d: bool,
    pub num1: bool,
    pub num2: bool,
    pub num3: bool,
    pub num5: bool,
    pub num6: bool,
    pub num7: bool,
}

/// The settings that the user changes between frames.
#[derive(Debug, Clone, Copy, PartialEq, Eq, Structural)]
pub struct RenderState {
    pub is_running: bool,
    pub render_mode: RenderMode,
    pub backface_culling_enabled: bool,
}

/// The render mode after the number keys of `input`: each key held down
/// selects its mode, and of several the highest number wins.
pub open spec fn mode_after(mode: RenderMode, input: Input) -> RenderMode {
    if input.num7 {
        RenderMode::TexturedAndWireframe
    } else if input.num6 {
        RenderMode::Textured
    } else if input.num5 {
        RenderMode::FilledTrianglesAndWireframe
    } else if input.num3 {
        RenderMode::FilledTriangles
    } else if input.num2 {
        RenderMode::Wireframe
    } else if input.num1 {
        RenderMode::WireframeWithDot
    } else {
        mode
    }
}

impl RenderState {
    /// The settings at the start: running, faces filled, culling on.
    pub fn new() -> (state: RenderState)
        ensures
            state == (RenderState {
                is_running: true,
                render_mode: RenderMode::FilledTriangles,
                backface_culling_enabled: true,
            }),
    {
        RenderState {
            is_running: true,
            render_mode: RenderMode::FilledTriangles,
            backface_culling_enabled: true,
        }
    }

    /// Applies one frame's input. A request to leave or the escape key
    /// stops the loop; `c` turns culling on and `d` turns it off, `d`
    /// winning over `c`; the number keys select the render mode.
    pub fn process_input(&mut self, input: &Input)
        ensures
            final(self).is_running == (old(self).is_running && !input.quit && !input.escape),
            final(self).backface_culling_enabled == if input.d {
                false
            } else if input.c {
                true
            } else {
                old(self).backface_culling_enabled
            },
            final(self).render_mode == mode_after(old(self).render_mode, *input),
    {
        if input.quit {
            self.is_running = false;
        }
        if input.escape {
            self.is_running = false;
        }
        if input.c {
            self.backface_culling_enabled = true;
        }
        if input.d {
            self.backface_culling_enabled = false;
        }
        if input.num1 {
            self.render_mode = RenderMode::WireframeWithDot;
        }
        if input.num2 {
            self.render_mode = RenderMode::Wireframe;
        }
        if input.num3 {
            self.render_mode = RenderMode::FilledTriangles;
        }
        if input.num5 {
            self.render_mode = RenderMode::FilledTrianglesAndWireframe;
        }
        if input.num6 {
            self.render_mode = RenderMode::Textured;
        }
        if input.num7 {
            self.render_mode = RenderMode::TexturedAndWireframe;
        }
    }

    /// Whether a face is left out of the frame: it faces away from the
    /// camera and culling is on.
    pub fn culls(&self, faces_away: bool) -> (culled: bool)
        ensures
            culled == (faces_away && self.backface_culling_enabled),
    {
        faces_away && self.backface_culling_enabled
    }
}

/// The place of a depth among all depths, for a depth given as the 32 bits
/// of a binary floating-point number: the highest bit is its sign, the
/// other bits are its size, and a larger number has the larger place. Both
/// zeros have the place zero.
pub open spec fn depth_place(bits: u32) -> int {
    if bits >= 0x8000_0000 {
        -(bits - 0x8000_0000)
    } else {
        bits as int
    }
}

/// The key by which a triangle of the given depth is ordered.
pub fn depth_key(bits: u32) -> (key: i32)
    ensures
        key == depth_place(bits),
{
    if bits >= 0x8000_0000 {
        let size: u32 = bits - 0x8000_0000;
        -(size as i32)
    } else {
        bits as i32
    }
}

/// Whether the triangles stand from the farthest to the nearest.
pub open spec fn far_to_near(triangles: Seq<Triangle>) -> bool {
    forall|i: int, j: int|
        0 <= i < j < triangles.len() ==> triangles[i].avg_depth >= triangles[j].avg_depth
}

/// Orders the triangles of a frame from the farthest to the nearest, so
/// that drawing them in order lets the nearer cover the farther.
pub fn sort_by_depth(triangles: &mut Vec<Triangle>)
    ensures
        far_to_near(final(triangles)@),
        final(triangles)@.to_multiset() == old(triangles)@.to_multiset(),
{
    let n: usize = triangles.len();
    let mut i: usize = 1;
    while i < n
        invariant
            triangles@.len() == n,
            1 <= i,
            far_to_near(triangles@.subrange(0, if i <= n { i as int } else { n as int })),
            triangles@.to_multiset() == old(triangles)@.to_multiset(),
        decreases n - i,
    {
        let ghost before = triangles@;
        let moved: Triangle = triangles.remove(i);
        let mut j: usize = i;
        while j > 0 && triangles[j - 1].avg_depth < moved.avg_depth
            invariant
                j <= i,
                i < n,
                before.len() == n,
                triangles@ == before.remove(i as int),
                forall|k: int| j <= k < i ==> (#[trigger] triangles@[k]).avg_depth < moved.avg_depth,
            decreases j,
        {
            j -= 1;
        }
        triangles.insert(j, moved);
        proof {
            vstd::seq_lib::to_multiset_remove(before, i as int);
            vstd::seq_lib::to_multiset_insert(before.remove(i as int), j as int, moved);
            assert(before.to_multiset().remove(moved).insert(moved) =~= before.to_multiset()) by {
                before.to_multiset_ensures();
                assert(before.contains(moved)) by {
                    assert(before[i as int] == moved);
                }
            }
            let prefix = before.subrange(0, i as int);
            let sorted = triangles@.subrange(0, i + 1);
            assert forall|p: int, q: int| 0 <= p < q < sorted.len() implies sorted[p].avg_depth
                >= sorted[q].avg_depth by {
                let pp = if p < j { p } else { p - 1 };
                let qq = if q < j { q } else { q - 1 };
                if p != j && q != j {
                    assert(prefix[pp].avg_depth >= prefix[qq].avg_depth);
                } else if p == j {
                    assert(triangles@[q] == before.remove(i as int)[q - 1]);
                } else {
                    if j > 0 {
                        assert(prefix[p].avg_depth >= prefix[j - 1].avg_depth);
                    }
                }
            }
        }
        i += 1;
    }
    proof {
        if n >= 1 {
            assert(triangles@.subrange(0, n as int) =~= triangles@);
        } else {
            assert(far_to_near(triangles@));
        }
    }
}

/// Whether the mode fills each triangle in its colour.
pub open spec fn wants_fill(mode: RenderMode) -> bool {
    mode == RenderMode::FilledTriangles || mode == RenderMode::FilledTrianglesAndWireframe
}

/// Whether the mode maps the texture onto each triangle.
pub open spec fn wants_texture(mode: RenderMode) -> bool {
    mode == RenderMode::Textured || mode == RenderMode::TexturedAndWireframe
}

/// Whether the mode draws the outline of each triangle.
pub open spec fn wants_outline(mode: RenderMode) -> bool {
    mode == RenderMode::Wireframe || mode == RenderMode::WireframeWithDot || mode
        == RenderMode::FilledTrianglesAndWireframe || mode == RenderMode::TexturedAndWireframe
}

/// Whether the mode marks the corners of each triangle.
pub open spec fn wants_dots(mode: RenderMode) -> bool {
    mode == RenderMode::WireframeWithDot
}

/// The colour of outlines: opaque blue.
pub open spec fn outline_color() -> Color {
    Color { r: 0, g: 0, b: 255, a: 255 }
}

/// The colour of corner marks: red, with alpha zero.
pub open spec fn dot_color() -> Color {
    Color { r: 255, g: 0, b: 0, a: 0 }
}

/// The paint that is `color` everywhere.
pub open spec fn plain(color: Color) -> spec_fn(int, int) -> Color {
    |px: int, py: int| color
}

/// The pixels that solid filling colours for the triangle.
pub open spec fn fill_region(t: Triangle) -> spec_fn(int, int) -> bool {
    |px: int, py: int|
        in_filled_triangle(
            t.points[0].x,
            t.points[0].y,
            t.points[1].x,
            t.points[1].y,
            t.points[2].x,
            t.points[2].y,
            px,
            py,
        )
}

/// The pixels that take a texel for the triangle.
pub open spec fn texture_region(t: Triangle, width: usize, height: usize, len: nat) -> spec_fn(
    int,
    int,
) -> bool {
    |px: int, py: int|
        {
            let (a, b, c) = top_to_bottom(t.vertex(0), t.vertex(1), t.vertex(2));
            in_textured_triangle(a, b, c, px, py) && has_texel(
                a,
                b,
                c,
                width as int,
                height as int,
                len as int,
                px,
                py,
            )
        }
}

/// The texel that each pixel takes for the triangle.
pub open spec fn texture_paint(t: Triangle, texture: Seq<Color>, width: usize, height: usize)
    -> spec_fn(int, int) -> Color {
    |px: int, py: int|
        {
            let (a, b, c) = top_to_bottom(t.vertex(0), t.vertex(1), t.vertex(2));
            texture[texel_index(a, b, c, width as int, height as int, px, py)]
        }
}

/// The pixels of the three sides of the triangle.
pub open spec fn outline_region(t: Triangle) -> spec_fn(int, int) -> bool {
    |px: int, py: int|
        on_line(
            t.points[0].x as int,
            t.points[0].y as int,
            t.points[1].x as int,
            t.points[1].y as int,
            px,
            py,
        ) || on_line(
            t.points[1].x as int,
            t.points[1].y as int,
            t.points[2].x as int,
            t.points[2].y as int,
            px,
            py,
        ) || on_line(
            t.points[2].x as int,
            t.points[2].y as int,
            t.points[0].x as int,
            t.points[0].y as int,
            px,
            py,
        )
}

/// A coordinate moved three pixels towards zero, and no further than zero.
pub open spec fn back_three(c: usize) -> int {
    if c >= 3 {
        c - 3
    } else {
        0
    }
}

/// The pixels of the mark of a corner: a square of six pixels a side that
/// starts three pixels before the corner on each axis, or at the edge of
/// the surface where the corner is nearer to it.
pub open spec fn dot_region(p: ScreenPoint) -> spec_fn(int, int) -> bool {
    |px: int, py: int|
        back_three(p.x) <= px < back_three(p.x) + 6 && back_three(p.y) <= py < back_three(p.y) + 6
}

/// The surface after one triangle is drawn on `before` in the given mode:
/// first its solid fill, then its texture, then its outline, then the
/// marks of its three corners, each where the mode asks for it.
pub open spec fn rendered(
    before: Seq<Color>,
    t: Triangle,
    mode: RenderMode,
    texture: Seq<Color>,
    width: usize,
    height: usize,
) -> Seq<Color> {
    let filled = if wants_fill(mode) {
        overlay(before, fill_region(t), plain(t.color))
    } else {
        before
    };
    let textured = if wants_texture(mode) {
        overlay(
            filled,
            texture_region(t, width, height, texture.len()),
            texture_paint(t, texture, width, height),
        )
    } else {
        filled
    };
    let outlined = if wants_outline(mode) {
        overlay(textured, outline_region(t), plain(outline_color()))
    } else {
        textured
    };
    if wants_dots(mode) {
        overlay(
            overlay(
                overlay(outlined, dot_region(t.points[0]), plain(dot_color())),
                dot_region(t.points[1]),
                plain(dot_color()),
            ),
            dot_region(t.points[2]),
            plain(dot_color()),
        )
    } else {
        outlined
    }
}

/// Draws the mark of a corner.
fn draw_dot(display: &mut Display, p: ScreenPoint)
    ensures
        final(display)@ == overlay(old(display)@, dot_region(p), plain(dot_color())),
{
    let x: usize = if p.x >= 3 {
        p.x - 3
    } else {
        0
    };
    let y: usize = if p.y >= 3 {
        p.y - 3
    } else {
        0
    };
    display.draw_rect(x, y, 6, 6, Color::rgba(255, 0, 0, 0));
    proof {
        old(display).lemma_len();
        lemma_repainted_is_overlay(
            old(display)@,
            display@,
            dot_region(p),
            plain(dot_color()),
        );
    }
}

/// Draws one triangle of a frame as the render mode asks.
pub fn render_triangle(
    display: &mut Display,
    triangle: &Triangle,
    render_mode: RenderMode,
    texture: &Vec<Color>,
    texture_width: usize,
    texture_height: usize,
)
    requires
        wants_texture(render_mode) ==> within_limit(
            triangle.vertex(0),
            triangle.vertex(1),
            triangle.vertex(2),
            texture_width,
            texture_height,
        ),
    ensures
        final(display)@ == rendered(
            old(display)@,
            *triangle,
            render_mode,
            texture@,
            texture_width,
            texture_height,
        ),
{
    let first = triangle.points[0];
    let second = triangle.points[1];
    let third = triangle.points[2];
    match render_mode {
        RenderMode::FilledTriangles | RenderMode::FilledTrianglesAndWireframe => {
            let ghost before = display@;
            draw_filled_triangle(display, first.x, first.y, second.x, second.y, third.x, third.y, triangle.color);
            proof {
                old(display).lemma_len();
                lemma_repainted_is_overlay(
                    before,
                    display@,
                    fill_region(*triangle),
                    plain(triangle.color),
                );
            }
        },
        _ => {},
    }
    match render_mode {
        RenderMode::Textured | RenderMode::TexturedAndWireframe => {
            let ghost before = display@;
            draw_textured_triangle(
                display,
                first.x,
                first.y,
                triangle.texcoords[0].u,
                triangle.texcoords[0].v,
                second.x,
                second.y,
                triangle.texcoords[1].u,
                triangle.texcoords[1].v,
                third.x,
                third.y,
                triangle.texcoords[2].u,
                triangle.texcoords[2].v,
                texture,
                texture_width,
                texture_height,
            );
            proof {
                old(display).lemma_len();
                lemma_repainted_is_overlay(
                    before,
                    display@,
                    texture_region(*triangle, texture_width, texture_height, texture@.len()),
                    texture_paint(*triangle, texture@, texture_width, texture_height),
                );
            }
        },
        _ => {},
    }
    match render_mode {
        RenderMode::Wireframe
        | RenderMode::WireframeWithDot
        | RenderMode::FilledTrianglesAndWireframe
        | RenderMode::TexturedAndWireframe => {
            let ghost before = display@;
            display.draw_triangle(first.x, first.y, second.x, second.y, third.x, third.y, Color::rgba(0, 0, 255, 255));
            proof {
                old(display).lemma_len();
                lemma_repainted_is_overlay(
                    before,
                    display@,
                    outline_region(*triangle),
                    plain(outline_color()),
                );
            }
        },
        _ => {},
    }
    match render_mode {
        RenderMode::WireframeWithDot => {
            draw_dot(display, first);
            draw_dot(display, second);
            draw_dot(display, third);
        },
        _ => {},
    }
}

/// Whether texture mapping can take every triangle of the frame.
pub open spec fn all_within_limit(triangles: Seq<Triangle>, width: usize, height: usize) -> bool {
    forall|i: int|
        0 <= i < triangles.len() ==> within_limit(
            (#[trigger] triangles[i]).vertex(0),
            triangles[i].vertex(1),
            triangles[i].vertex(2),
            width,
            height,
        )
}

/// The surface after the triangles are drawn on `before` one after
/// another, so that a later one covers an earlier one.
pub open spec fn rendered_all(
    before: Seq<Color>,
    triangles: Seq<Triangle>,
    mode: RenderMode,
    texture: Seq<Color>,
    width: usize,
    height: usize,
) -> Seq<Color>
    decreases triangles.len(),
{
    if triangles.len() == 0 {
        before
    } else {
        rendered(
            rendered_all(before, triangles.drop_last(), mode, texture, width, height),
            triangles.last(),
            mode,
            texture,
            width,
            height,
        )
    }
}

/// Where triangles are filled, the one drawn last shows its own colour on
/// every pixel of the surface that its fill covers, whatever was drawn
/// before it.
pub proof fn lemma_last_triangle_on_top(
    before: Seq<Color>,
    triangles: Seq<Triangle>,
    last: Triangle,
    texture: Seq<Color>,
    width: usize,
    height: usize,
    x: int,
    y: int,
)
    requires
        before.len() == SCREEN_WIDTH * SCREEN_HEIGHT,
        in_bounds(x, y),
        fill_region(last)(x, y),
    ensures
        rendered_all(
            before,
            triangles.push(last),
            RenderMode::FilledTriangles,
            texture,
            width,
            height,
        )[pixel_index(x, y)] == last.color,
{
    let mode = RenderMode::FilledTriangles;
    let all = triangles.push(last);
    assert(all.drop_last() =~= triangles);
    assert(all.last() == last);
    let under = rendered_all(before, triangles, mode, texture, width, height);
    lemma_rendered_all_len(before, triangles, mode, texture, width, height);
    let i = pixel_index(x, y);
    assert(i % (SCREEN_WIDTH as int) == x && i / (SCREEN_WIDTH as int) == y);
    assert(rendered(under, last, mode, texture, width, height) == overlay(
        under,
        fill_region(last),
        plain(last.color),
    ));
}

/// Drawing triangles keeps the number of pixels of the surface.
pub proof fn lemma_rendered_all_len(
    before: Seq<Color>,
    triangles: Seq<Triangle>,
    mode: RenderMode,
    texture: Seq<Color>,
    width: usize,
    height: usize,
)
    ensures
        rendered_all(before, triangles, mode, texture, width, height).len() == before.len(),
    decreases triangles.len(),
{
    if triangles.len() > 0 {
        lemma_rendered_all_len(before, triangles.drop_last(), mode, texture, width, height);
    }
}

/// Draws the triangles of a frame in their order.
pub fn render_triangles(
    display: &mut Display,
    triangles: &Vec<Triangle>,
    render_mode: RenderMode,
    texture: &Vec<Color>,
    texture_width: usize,
    texture_height: usize,
)
    requires
        wants_texture(render_mode) ==> all_within_limit(
            triangles@,
            texture_width,
            texture_height,
        ),
    ensures
        final(display)@ == rendered_all(
            old(display)@,
            triangles@,
            render_mode,
            texture@,
            texture_width,
            texture_height,
        ),
{
    let mut i: usize = 0;
    while i < triangles.len()
        invariant
            i <= triangles@.len(),
            wants_texture(render_mode) ==> all_within_limit(
                triangles@,
                texture_width,
                texture_height,
            ),
            display@ == rendered_all(
                old(display)@,
                triangles@.subrange(0, i as int),
                render_mode,
                texture@,
                texture_width,
                texture_height,
            ),
        decreases triangles@.len() - i,
    {
        render_triangle(
            display,
            &triangles[i],
            render_mode,
            texture,
            texture_width,
            texture_height,
        );
        proof {
            let next = triangles@.subrange(0, i + 1);
            assert(next.drop_last() =~= triangles@.subrange(0, i as int));
            assert(next.last() == triangles@[i as int]);
        }
        i += 1;
    }
    proof {
        assert(triangles@.subrange(0, triangles@.len() as int) =~= triangles@);
    }
}

} // verus!
