//! Triangle rasterization: solid scanline fill and affine texture mapping.

use vstd::prelude::*;
use crate::color::Color;
use crate::fixed::{lemma_mul_bound, FIXED_ONE};
use crate::display::{
    lemma_pixel_index_injective, lemma_repainted_nowhere, painted, repainted, Display,
};
use crate::line::{coord_distance, in_span, lemma_horizontal_line, lemma_product_fits, on_line};
use crate::swap::swap;

verus! {

/// A corner of a triangle on the surface: its pixel and the texture
/// coordinates attached to it, in fixed point. Solid filling ignores the
/// texture coordinates.
#[derive(Debug, Clone, Copy, PartialEq, Eq, Structural)]
pub struct Vertex {
    pub x: usize,
    pub y: usize,
    pub u: i32,
    pub v: i32,
}

/// The two corners with the one on the higher row of the surface first.
/// Corners of one row keep their order.
pub open spec fn upper_first(a: Vertex, b: Vertex) -> (Vertex, Vertex) {
    if a.y > b.y {
        (b, a)
    } else {
        (a, b)
    }
}

/// The three corners from the top of the surface downwards. Corners of one
/// row keep their order.
pub open spec fn top_to_bottom(a: Vertex, b: Vertex, c: Vertex) -> (Vertex, Vertex, Vertex) {
    let (a1, b1) = upper_first(a, b);
    let (b2, c2) = upper_first(b1, c);
    let (a3, b3) = upper_first(a1, b2);
    (a3, b3, c2)
}

/// `top_to_bottom` yields the same three corners, by ascending row.
pub proof fn lemma_top_to_bottom(a: Vertex, b: Vertex, c: Vertex)
    ensures
        ({
            let (p, q, r) = top_to_bottom(a, b, c);
            &&& p.y <= q.y <= r.y
            &&& ((p, q, r) == (a, b, c) || (p, q, r) == (a, c, b) || (p, q, r) == (b, a, c) || (
            p,
            q,
            r,
            ) == (b, c, a) || (p, q, r) == (c, a, b) || (p, q, r) == (c, b, a))
        }),
{
}

/// Orders three corners from the top of the surface downwards.
pub fn sort_vertices(a: Vertex, b: Vertex, c: Vertex) -> (sorted: (Vertex, Vertex, Vertex))
    ensures
        sorted == top_to_bottom(a, b, c),
        sorted.0.y <= sorted.1.y <= sorted.2.y,
{
    let mut v0 = a;
    let mut v1 = b;
    let mut v2 = c;
    if v0.y > v1.y {
        swap(&mut v0, &mut v1);
    }
    if v1.y > v2.y {
        swap(&mut v1, &mut v2);
    }
    if v0.y > v1.y {
        swap(&mut v0, &mut v1);
    }
    (v0, v1, v2)
}

/// The column at which the edge from column `xa` to column `xb`, which
/// spans `dy` rows, stands `k` rows away from `xa`: the exact position
/// rounded down. An edge that spans no row stays at `xa`.
pub open spec fn edge_x(xa: int, xb: int, dy: int, k: int) -> int {
    if dy <= 0 {
        xa
    } else {
        (xa * dy + k * (xb - xa)) / dy
    }
}

/// Computes `edge_x` for a row of the edge.
pub fn edge_x_at(xa: usize, xb: usize, dy: usize, k: usize) -> (c: usize)
    requires
        k <= dy,
    ensures
        c == edge_x(xa as int, xb as int, dy as int, k as int),
        in_span(xa as int, xb as int, c as int),
{
    if dy == 0 {
        return xa;
    }
    let d: usize = coord_distance(xa, xb);
    proof {
        lemma_product_fits(k as int, d as int);
    }
    let n: u128 = (k as u128) * (d as u128);
    let q: u128 = n / (dy as u128);
    let r: u128 = n % (dy as u128);
    proof {
        vstd::arithmetic::div_mod::lemma_fundamental_div_mod(n as int, dy as int);
        assert(q <= d && (q == d ==> r == 0)) by (nonlinear_arith)
            requires
                n == dy * q + r,
                n == k * d,
                0 <= r < dy,
                0 <= k <= dy,
                0 <= d,
                0 <= q,
        ;
        let num = xa * dy + k * (xb - xa);
        if xa <= xb {
            assert(num == (xa + q) * dy + r) by (nonlinear_arith)
                requires
                    num == xa * dy + k * (xb - xa),
                    n == dy * q + r,
                    n == k * d,
                    d == xb - xa,
            ;
            vstd::arithmetic::div_mod::lemma_fundamental_div_mod_converse(
                num,
                dy as int,
                xa + q,
                r as int,
            );
        } else if r == 0 {
            assert(num == (xa - q) * dy + 0) by (nonlinear_arith)
                requires
                    num == xa * dy + k * (xb - xa),
                    n == dy * q + r,
                    n == k * d,
                    d == xa - xb,
                    r == 0,
            ;
            vstd::arithmetic::div_mod::lemma_fundamental_div_mod_converse(
                num,
                dy as int,
                xa - q,
                0,
            );
        } else {
            assert(num == (xa - q - 1) * dy + (dy - r)) by (nonlinear_arith)
                requires
                    num == xa * dy + k * (xb - xa),
                    n == dy * q + r,
                    n == k * d,
                    d == xa - xb,
            ;
            vstd::arithmetic::div_mod::lemma_fundamental_div_mod_converse(
                num,
                dy as int,
                xa - q - 1,
                dy - r,
            );
        }
    }
    if xa <= xb {
        xa + (q as usize)
    } else if r == 0 {
        xa - (q as usize)
    } else {
        xa - (q as usize) - 1
    }
}

/// Whether `(px, py)` is filled for the triangle with its apex at
/// `(x0, y0)` and a horizontal lower edge from `(x1, y2)` to `(x2, y2)`.
pub open spec fn in_flat_bottom(
    x0: int,
    y0: int,
    x1: int,
    x2: int,
    y2: int,
    px: int,
    py: int,
) -> bool {
    y0 <= py <= y2 && in_span(
        edge_x(x0, x1, y2 - y0, py - y0),
        edge_x(x0, x2, y2 - y0, py - y0),
        px,
    )
}

/// Whether `(px, py)` is filled for the triangle with a horizontal upper
/// edge from `(x0, y0)` to `(x1, y0)` and its apex at `(x2, y2)`.
pub open spec fn in_flat_top(
    x0: int,
    x1: int,
    y0: int,
    x2: int,
    y2: int,
    px: int,
    py: int,
) -> bool {
    y0 <= py <= y2 && in_span(
        edge_x(x2, x0, y2 - y0, y2 - py),
        edge_x(x2, x1, y2 - y0, y2 - py),
        px,
    )
}

/// Fills a triangle whose lower edge is horizontal, row by row from its
/// apex `(x0, y0)` down to the edge from `(x1, y1)` to `(x2, y2)`.
fn fill_flat_bottom_triangle(
    display: &mut Display,
    x0: usize,
    y0: usize,
    x1: usize,
    y1: usize,
    x2: usize,
    y2: usize,
    color: Color,
)
    requires
        y0 <= y1,
        y1 == y2,
    ensures
        painted(
            old(display)@,
            final(display)@,
            |px: int, py: int|
                in_flat_bottom(x0 as int, y0 as int, x1 as int, x2 as int, y2 as int, px, py),
            color,
        ),
{
    let dy: usize = y2 - y0;
    let mut k: usize = 0;
    loop
        invariant_except_break
            k <= dy,
            painted(
                old(display)@,
                display@,
                |px: int, py: int|
                    py < y0 + k && in_flat_bottom(
                        x0 as int,
                        y0 as int,
                        x1 as int,
                        x2 as int,
                        y2 as int,
                        px,
                        py,
                    ),
                color,
            ),
        invariant
            dy == y2 - y0,
        ensures
            painted(
                old(display)@,
                display@,
                |px: int, py: int|
                    in_flat_bottom(x0 as int, y0 as int, x1 as int, x2 as int, y2 as int, px, py),
                color,
            ),
        decreases dy - k,
    {
        let y: usize = y0 + k;
        let x_start: usize = edge_x_at(x0, x1, dy, k);
        let x_end: usize = edge_x_at(x0, x2, dy, k);
        display.draw_line(x_start, y, x_end, y, color);
        proof {
            assert forall|px: int, py: int|
                on_line(x_start as int, y as int, x_end as int, y as int, px, py) <==> (py == y
                    && in_span(x_start as int, x_end as int, px)) by {
                lemma_horizontal_line(x_start as int, x_end as int, y as int, px, py);
            }
        }
        if k == dy {
            break ;
        }
        k += 1;
    }
}

/// Fills a triangle whose upper edge is horizontal, row by row from its
/// apex `(x2, y2)` up to the edge from `(x0, y0)` to `(x1, y1)`.
fn fill_flat_top_triangle(
    display: &mut Display,
    x0: usize,
    y0: usize,
    x1: usize,
    y1: usize,
    x2: usize,
    y2: usize,
    color: Color,
)
    requires
        y0 == y1,
        y1 <= y2,
    ensures
        painted(
            old(display)@,
            final(display)@,
            |px: int, py: int|
                in_flat_top(x0 as int, x1 as int, y0 as int, x2 as int, y2 as int, px, py),
            color,
        ),
{
    let dy: usize = y2 - y0;
    let mut k: usize = 0;
    loop
        invariant_except_break
            k <= dy,
            painted(
                old(display)@,
                display@,
                |px: int, py: int|
                    py > y2 - k && in_flat_top(
                        x0 as int,
                        x1 as int,
                        y0 as int,
                        x2 as int,
                        y2 as int,
                        px,
                        py,
                    ),
                color,
            ),
        invariant
            dy == y2 - y0,
        ensures
            painted(
                old(display)@,
                display@,
                |px: int, py: int|
                    in_flat_top(x0 as int, x1 as int, y0 as int, x2 as int, y2 as int, px, py),
                color,
            ),
        decreases dy - k,
    {
        let y: usize = y2 - k;
        let x_start: usize = edge_x_at(x2, x0, dy, k);
        let x_end: usize = edge_x_at(x2, x1, dy, k);
        display.draw_line(x_start, y, x_end, y, color);
        proof {
            assert forall|px: int, py: int|
                on_line(x_start as int, y as int, x_end as int, y as int, px, py) <==> (py == y
                    && in_span(x_start as int, x_end as int, px)) by {
                lemma_horizontal_line(x_start as int, x_end as int, y as int, px, py);
            }
        }
        if k == dy {
            break ;
        }
        k += 1;
    }
}

/// Whether solid filling colours `(px, py)` for the triangle whose corners,
/// from the top downwards, are `a`, `b` and `c`.
pub open spec fn in_sorted_triangle(a: Vertex, b: Vertex, c: Vertex, px: int, py: int) -> bool {
    if b.y == c.y {
        in_flat_bottom(a.x as int, a.y as int, b.x as int, c.x as int, c.y as int, px, py)
    } else if a.y == b.y {
        in_flat_top(a.x as int, b.x as int, a.y as int, c.x as int, c.y as int, px, py)
    } else {
        let mx = edge_x(a.x as int, c.x as int, c.y - a.y, b.y - a.y);
        in_flat_bottom(a.x as int, a.y as int, b.x as int, mx, b.y as int, px, py) || in_flat_top(
            b.x as int,
            mx,
            b.y as int,
            c.x as int,
            c.y as int,
            px,
            py,
        )
    }
}

/// The corner at pixel `(x, y)` with the texture coordinates `(u, v)`.
pub open spec fn vertex(x: usize, y: usize, u: i32, v: i32) -> Vertex {
    Vertex { x, y, u, v }
}

/// Whether solid filling colours `(px, py)` for the triangle with the three
/// given corners, in any order.
pub open spec fn in_filled_triangle(
    x0: usize,
    y0: usize,
    x1: usize,
    y1: usize,
    x2: usize,
    y2: usize,
    px: int,
    py: int,
) -> bool {
    let (a, b, c) = top_to_bottom(vertex(x0, y0, 0, 0), vertex(x1, y1, 0, 0), vertex(x2, y2, 0, 0));
    in_sorted_triangle(a, b, c, px, py)
}

/// Solid filling of the triangle with the corners `(0, 0)`, `(n, 0)` and
/// `(0, n)` colours the pixels `(x, y)` with `x + y <= n`, and no other.
pub proof fn lemma_corner_triangle_fill(n: usize, px: int, py: int)
    ensures
        in_filled_triangle(0, 0, n, 0, 0, n, px, py) <==> (0 <= px && 0 <= py && px + py <= n),
{
    let side = n as int;
    if side > 0 && 0 <= py <= side {
        assert(edge_x(0, 0, side, side - py) == 0);
        assert(0 * side + (side - py) * (side - 0) == (side - py) * side) by (nonlinear_arith);
        vstd::arithmetic::div_mod::lemma_div_multiples_vanish(side - py, side);
        assert(edge_x(0, side, side, side - py) == side - py);
    }
}

/// Fills the triangle with the three given corners in one colour. A
/// triangle with a horizontal edge is filled as it is; any other is cut at
/// the row of its middle corner into one with a horizontal lower edge and
/// one with a horizontal upper edge. Pixels outside the surface are
/// discarded.
pub fn draw_filled_triangle(
    display: &mut Display,
    x0: usize,
    y0: usize,
    x1: usize,
    y1: usize,
    x2: usize,
    y2: usize,
    color: Color,
)
    ensures
        painted(
            old(display)@,
            final(display)@,
            |px: int, py: int|
                in_filled_triangle(x0, y0, x1, y1, x2, y2, px, py),
            color,
        ),
{
    let (a, b, c) = sort_vertices(
        Vertex { x: x0, y: y0, u: 0, v: 0 },
        Vertex { x: x1, y: y1, u: 0, v: 0 },
        Vertex { x: x2, y: y2, u: 0, v: 0 },
    );
    if b.y == c.y {
        fill_flat_bottom_triangle(display, a.x, a.y, b.x, b.y, c.x, c.y, color);
    } else if a.y == b.y {
        fill_flat_top_triangle(display, a.x, a.y, b.x, b.y, c.x, c.y, color);
    } else {
        let my: usize = b.y;
        let mx: usize = edge_x_at(a.x, c.x, c.y - a.y, b.y - a.y);
        fill_flat_bottom_triangle(display, a.x, a.y, b.x, b.y, mx, my, color);
        fill_flat_top_triangle(display, b.x, b.y, mx, my, c.x, c.y, color);
    }
}

/// Corners and texture extents below this limit keep every intermediate
/// value of texture mapping within 128 bits.
pub const COORD_LIMIT: usize = 0x4000_0000;

/// The third component of the cross product of `(ax, ay)` and `(bx, by)`:
/// the signed area of the parallelogram that they span.
pub open spec fn cross(ax: int, ay: int, bx: int, by: int) -> int {
    ax * by - ay * bx
}

/// The signed area of the parallelogram spanned by the edges from `a` to
/// `c` and from `a` to `b`.
pub open spec fn signed_area(a: Vertex, b: Vertex, c: Vertex) -> int {
    cross(c.x - a.x, c.y - a.y, b.x - a.x, b.y - a.y)
}

/// The weight of corner `a` at `(px, py)`, times `signed_area`.
pub open spec fn alpha_part(b: Vertex, c: Vertex, px: int, py: int) -> int {
    cross(c.x - px, c.y - py, b.x - px, b.y - py)
}

/// The weight of corner `b` at `(px, py)`, times `signed_area`.
pub open spec fn beta_part(a: Vertex, c: Vertex, px: int, py: int) -> int {
    cross(c.x - a.x, c.y - a.y, px - a.x, py - a.y)
}

/// The weight of corner `c` at `(px, py)`, times `signed_area`: what the
/// other two weights leave of one.
pub open spec fn gamma_part(a: Vertex, b: Vertex, c: Vertex, px: int, py: int) -> int {
    signed_area(a, b, c) - alpha_part(b, c, px, py) - beta_part(a, c, px, py)
}

/// The barycentric weights of a point against a triangle, as three
/// numerators over the common denominator `area`.
#[derive(Debug, Clone, Copy, PartialEq, Eq, Structural)]
pub struct Weights {
    pub alpha: i128,
    pub beta: i128,
    pub gamma: i128,
    pub area: i128,
}

impl Weights {
    /// Whether the numerators and the denominator are as small as corners
    /// below `COORD_LIMIT` make them.
    pub open spec fn bounded(&self) -> bool {
        &&& -0x2000_0000_0000_0000 <= self.alpha <= 0x2000_0000_0000_0000
        &&& -0x2000_0000_0000_0000 <= self.beta <= 0x2000_0000_0000_0000
        &&& -0x2000_0000_0000_0000 <= self.area <= 0x2000_0000_0000_0000
        &&& self.gamma == self.area - self.alpha - self.beta
    }
}

/// Computes `cross` for components of bounded size.
fn cross_of(ax: i128, ay: i128, bx: i128, by: i128) -> (r: i128)
    requires
        -COORD_LIMIT <= ax <= COORD_LIMIT,
        -COORD_LIMIT <= ay <= COORD_LIMIT,
        -COORD_LIMIT <= bx <= COORD_LIMIT,
        -COORD_LIMIT <= by <= COORD_LIMIT,
    ensures
        r == cross(ax as int, ay as int, bx as int, by as int),
        -0x2000_0000_0000_0000 <= r <= 0x2000_0000_0000_0000,
{
    proof {
        lemma_mul_bound(ax as int, by as int, COORD_LIMIT as int, COORD_LIMIT as int);
        lemma_mul_bound(ay as int, bx as int, COORD_LIMIT as int, COORD_LIMIT as int);
        assert(COORD_LIMIT * COORD_LIMIT == 0x1000_0000_0000_0000) by (nonlinear_arith);
    }
    ax * by - ay * bx
}

/// The barycentric weights of the pixel `(px, py)` against the triangle
/// `a`, `b`, `c`. The three numerators add up to the denominator, which is
/// zero for a triangle without area.
pub fn barycentric_weights(a: &Vertex, b: &Vertex, c: &Vertex, px: usize, py: usize) -> (w:
    Weights)
    requires
        a.x < COORD_LIMIT,
        a.y < COORD_LIMIT,
        b.x < COORD_LIMIT,
        b.y < COORD_LIMIT,
        c.x < COORD_LIMIT,
        c.y < COORD_LIMIT,
        px < COORD_LIMIT,
        py < COORD_LIMIT,
    ensures
        w.area == signed_area(*a, *b, *c),
        w.alpha == alpha_part(*b, *c, px as int, py as int),
        w.beta == beta_part(*a, *c, px as int, py as int),
        w.gamma == gamma_part(*a, *b, *c, px as int, py as int),
        w.alpha + w.beta + w.gamma == w.area,
        w.bounded(),
{
    let ax: i128 = a.x as i128;
    let ay: i128 = a.y as i128;
    let bx: i128 = b.x as i128;
    let by: i128 = b.y as i128;
    let cx: i128 = c.x as i128;
    let cy: i128 = c.y as i128;
    let qx: i128 = px as i128;
    let qy: i128 = py as i128;
    let area: i128 = cross_of(cx - ax, cy - ay, bx - ax, by - ay);
    let alpha: i128 = cross_of(cx - qx, cy - qy, bx - qx, by - qy);
    let beta: i128 = cross_of(cx - ax, cy - ay, qx - ax, qy - ay);
    let gamma: i128 = area - alpha - beta;
    Weights { alpha, beta, gamma, area }
}

/// A texture coordinate interpolated at `(px, py)` from the values `t0`,
/// `t1`, `t2` at the corners `a`, `b`, `c`, times `signed_area`.
pub open spec fn interpolated(
    t0: int,
    t1: int,
    t2: int,
    a: Vertex,
    b: Vertex,
    c: Vertex,
    px: int,
    py: int,
) -> int {
    t0 * alpha_part(b, c, px, py) + t1 * beta_part(a, c, px, py) + t2 * gamma_part(
        a,
        b,
        c,
        px,
        py,
    )
}

/// The texel along one axis of a texture of `extent` texels: the size of
/// the interpolated coordinate, scaled to the texture and rounded down.
pub open spec fn texel_coord(
    t0: int,
    t1: int,
    t2: int,
    a: Vertex,
    b: Vertex,
    c: Vertex,
    px: int,
    py: int,
    extent: int,
) -> int {
    vstd::math::abs(interpolated(t0, t1, t2, a, b, c, px, py)) * extent / (vstd::math::abs(
        signed_area(a, b, c),
    ) * FIXED_ONE)
}

/// The place in the texture of the texel that `(px, py)` takes.
pub open spec fn texel_index(
    a: Vertex,
    b: Vertex,
    c: Vertex,
    width: int,
    height: int,
    px: int,
    py: int,
) -> int {
    width * texel_coord(a.v as int, b.v as int, c.v as int, a, b, c, px, py, height)
        + texel_coord(a.u as int, b.u as int, c.u as int, a, b, c, px, py, width)
}

/// Whether `(px, py)` has a texel: the triangle has an area and the texel's
/// place lies within a texture of `len` texels.
pub open spec fn has_texel(
    a: Vertex,
    b: Vertex,
    c: Vertex,
    width: int,
    height: int,
    len: int,
    px: int,
    py: int,
) -> bool {
    signed_area(a, b, c) != 0 && texel_index(a, b, c, width, height, px, py) < len
}

/// Exchanging the first two corners, each with its texture value, negates
/// the area and the interpolated value alike.
pub proof fn lemma_exchange_first_two(
    t0: int,
    t1: int,
    t2: int,
    a: Vertex,
    b: Vertex,
    c: Vertex,
    px: int,
    py: int,
)
    ensures
        signed_area(b, a, c) == -signed_area(a, b, c),
        interpolated(t1, t0, t2, b, a, c, px, py) == -interpolated(t0, t1, t2, a, b, c, px, py),
{
    let (ax, ay) = (a.x as int, a.y as int);
    let (bx, by) = (b.x as int, b.y as int);
    let (cx, cy) = (c.x as int, c.y as int);
    assert(cross(cx - bx, cy - by, ax - bx, ay - by) == -cross(cx - ax, cy - ay, bx - ax, by - ay))
        by (nonlinear_arith);
    assert(cross(cx - px, cy - py, ax - px, ay - py) == -cross(cx - ax, cy - ay, px - ax, py - ay))
        by (nonlinear_arith);
    assert(cross(cx - bx, cy - by, px - bx, py - by) == -cross(cx - px, cy - py, bx - px, by - py))
        by (nonlinear_arith);
    let alpha = alpha_part(b, c, px, py);
    let beta = beta_part(a, c, px, py);
    let gamma = gamma_part(a, b, c, px, py);
    assert(alpha_part(a, c, px, py) == -beta);
    assert(beta_part(b, c, px, py) == -alpha);
    assert(gamma_part(b, a, c, px, py) == -gamma);
    assert(t1 * (-beta) + t0 * (-alpha) + t2 * (-gamma) == -(t0 * alpha + t1 * beta + t2 * gamma))
        by (nonlinear_arith);
}

/// Exchanging the last two corners, each with its texture value, negates
/// the area and the interpolated value alike.
pub proof fn lemma_exchange_last_two(
    t0: int,
    t1: int,
    t2: int,
    a: Vertex,
    b: Vertex,
    c: Vertex,
    px: int,
    py: int,
)
    ensures
        signed_area(a, c, b) == -signed_area(a, b, c),
        interpolated(t0, t2, t1, a, c, b, px, py) == -interpolated(t0, t1, t2, a, b, c, px, py),
{
    let (ax, ay) = (a.x as int, a.y as int);
    let (bx, by) = (b.x as int, b.y as int);
    let (cx, cy) = (c.x as int, c.y as int);
    assert(cross(bx - ax, by - ay, cx - ax, cy - ay) == -cross(cx - ax, cy - ay, bx - ax, by - ay))
        by (nonlinear_arith);
    assert(cross(bx - px, by - py, cx - px, cy - py) == -cross(cx - px, cy - py, bx - px, by - py))
        by (nonlinear_arith);
    let alpha = alpha_part(b, c, px, py);
    let beta = beta_part(a, c, px, py);
    let gamma = gamma_part(a, b, c, px, py);
    assert(cross(bx - ax, by - ay, px - ax, py - ay) == -(cross(
        cx - ax,
        cy - ay,
        bx - ax,
        by - ay,
    ) - cross(cx - px, cy - py, bx - px, by - py) - cross(cx - ax, cy - ay, px - ax, py - ay)))
        by (nonlinear_arith);
    assert(alpha_part(c, b, px, py) == -alpha);
    assert(beta_part(a, b, px, py) == -gamma);
    assert(gamma_part(a, c, b, px, py) == -beta);
    assert(t0 * (-alpha) + t2 * (-gamma) + t1 * (-beta) == -(t0 * alpha + t1 * beta + t2 * gamma))
        by (nonlinear_arith);
}

/// The texel of a pixel does not depend on the order in which the corners
/// are given: exchanging two corners, each with its texture coordinates,
/// leaves it as it is.
pub proof fn lemma_texel_ignores_order(
    a: Vertex,
    b: Vertex,
    c: Vertex,
    width: int,
    height: int,
    px: int,
    py: int,
)
    ensures
        texel_index(b, a, c, width, height, px, py) == texel_index(a, b, c, width, height, px, py),
        texel_index(a, c, b, width, height, px, py) == texel_index(a, b, c, width, height, px, py),
{
    lemma_exchange_first_two(a.u as int, b.u as int, c.u as int, a, b, c, px, py);
    lemma_exchange_first_two(a.v as int, b.v as int, c.v as int, a, b, c, px, py);
    lemma_exchange_last_two(a.u as int, b.u as int, c.u as int, a, b, c, px, py);
    lemma_exchange_last_two(a.v as int, b.v as int, c.v as int, a, b, c, px, py);
}

/// Computes `texel_coord` from the weights of the pixel.
fn texel_coord_at(t0: i32, t1: i32, t2: i32, w: &Weights, extent: usize) -> (t: u128)
    requires
        w.bounded(),
        w.area != 0,
        extent < COORD_LIMIT,
    ensures
        t == vstd::math::abs(t0 * w.alpha + t1 * w.beta + t2 * w.gamma) * extent / (
        vstd::math::abs(w.area as int) * FIXED_ONE),
{
    proof {
        lemma_mul_bound(t0 as int, w.alpha as int, 0x8000_0000, 0x2000_0000_0000_0000);
        lemma_mul_bound(t1 as int, w.beta as int, 0x8000_0000, 0x2000_0000_0000_0000);
        lemma_mul_bound(t2 as int, w.gamma as int, 0x8000_0000, 0x6000_0000_0000_0000);
        assert(0x8000_0000 * 0x2000_0000_0000_0000 == 0x1000_0000_0000_0000_0000_0000)
            by (nonlinear_arith);
        assert(0x8000_0000 * 0x6000_0000_0000_0000 == 0x3000_0000_0000_0000_0000_0000)
            by (nonlinear_arith);
    }
    let sum: i128 = (t0 as i128) * w.alpha + (t1 as i128) * w.beta + (t2 as i128) * w.gamma;
    let size: u128 = if sum < 0 {
        (-sum) as u128
    } else {
        sum as u128
    };
    let area: u128 = if w.area < 0 {
        (-w.area) as u128
    } else {
        w.area as u128
    };
    proof {
        lemma_mul_bound(
            size as int,
            extent as int,
            0x5000_0000_0000_0000_0000_0000,
            COORD_LIMIT as int,
        );
        assert(0x5000_0000_0000_0000_0000_0000 * COORD_LIMIT
            == 0x1400_0000_0000_0000_0000_0000_0000_0000) by (nonlinear_arith);
    }
    (size * (extent as u128)) / (area * 0x1_0000)
}

/// The texel of the pixel `(x, y)`, if it has one.
fn texel_index_at(
    a: &Vertex,
    b: &Vertex,
    c: &Vertex,
    texture_width: usize,
    texture_height: usize,
    len: usize,
    x: usize,
    y: usize,
) -> (index: Option<usize>)
    requires
        a.x < COORD_LIMIT,
        a.y < COORD_LIMIT,
        b.x < COORD_LIMIT,
        b.y < COORD_LIMIT,
        c.x < COORD_LIMIT,
        c.y < COORD_LIMIT,
        x < COORD_LIMIT,
        y < COORD_LIMIT,
        texture_width < COORD_LIMIT,
        texture_height < COORD_LIMIT,
    ensures
        index.is_some() == has_texel(
            *a,
            *b,
            *c,
            texture_width as int,
            texture_height as int,
            len as int,
            x as int,
            y as int,
        ),
        index.is_some() ==> index.unwrap() == texel_index(
            *a,
            *b,
            *c,
            texture_width as int,
            texture_height as int,
            x as int,
            y as int,
        ),
{
    let w = barycentric_weights(a, b, c, x, y);
    if w.area == 0 {
        return None;
    }
    let tex_x: u128 = texel_coord_at(a.u, b.u, c.u, &w, texture_width);
    let tex_y: u128 = texel_coord_at(a.v, b.v, c.v, &w, texture_height);
    if tex_x >= len as u128 {
        return None;
    }
    if tex_y >= len as u128 {
        if texture_width == 0 {
            proof {
                assert(texture_width * tex_y == 0) by (nonlinear_arith)
                    requires
                        texture_width == 0,
                ;
            }
            return Some(tex_x as usize);
        }
        proof {
            assert(texture_width * tex_y + tex_x >= len) by (nonlinear_arith)
                requires
                    tex_y >= len,
                    tex_x >= 0,
                    texture_width >= 1,
            ;
        }
        return None;
    }
    proof {
        lemma_mul_bound(
            texture_width as int,
            tex_y as int,
            COORD_LIMIT as int,
            0xffff_ffff_ffff_ffff,
        );
        assert(COORD_LIMIT * 0xffff_ffff_ffff_ffff < 0x4000_0000_0000_0000_0000_0000)
            by (nonlinear_arith);
    }
    let index: u128 = (texture_width as u128) * tex_y + tex_x;
    if index < len as u128 {
        Some(index as usize)
    } else {
        None
    }
}

/// The column of the edge from `p` down to `q` at row `y`, rounded down.
pub open spec fn edge_at_row(p: Vertex, q: Vertex, y: int) -> int {
    edge_x(p.x as int, q.x as int, q.y - p.y, y - p.y)
}

/// Whether `x` lies between `s` and `e`, from the smaller of them up to
/// but not including the larger.
pub open spec fn in_half_open(s: int, e: int, x: int) -> bool {
    (s <= x < e) || (e <= x < s)
}

/// Whether `(px, py)` lies on a row of the edge from `p` down to `q`,
/// between that edge and the edge from `a` down to `c`.
pub open spec fn in_textured_rows(
    p: Vertex,
    q: Vertex,
    a: Vertex,
    c: Vertex,
    px: int,
    py: int,
) -> bool {
    p.y < q.y && p.y <= py <= q.y && in_half_open(
        edge_at_row(p, q, py),
        edge_at_row(a, c, py),
        px,
    )
}

/// Whether texture mapping visits `(px, py)` for the triangle whose
/// corners, from the top downwards, are `a`, `b` and `c`: on the rows of
/// each short edge, the pixels between it and the long edge.
pub open spec fn in_textured_triangle(a: Vertex, b: Vertex, c: Vertex, px: int, py: int) -> bool {
    in_textured_rows(a, b, a, c, px, py) || in_textured_rows(b, c, a, c, px, py)
}

/// Fractions of equal value have the same whole part.
pub proof fn lemma_equal_fractions(n1: int, d1: int, n2: int, d2: int)
    requires
        d1 > 0,
        d2 > 0,
        n1 * d2 == n2 * d1,
    ensures
        n1 / d1 == n2 / d2,
{
    let q = n1 / d1;
    let r = n1 % d1;
    vstd::arithmetic::div_mod::lemma_fundamental_div_mod(n1, d1);
    let r2 = n2 - q * d2;
    assert(r2 * d1 == r * d2) by (nonlinear_arith)
        requires
            n1 == d1 * q + r,
            r2 == n2 - q * d2,
            n1 * d2 == n2 * d1,
    ;
    assert(0 <= r2 < d2) by (nonlinear_arith)
        requires
            r2 * d1 == r * d2,
            0 <= r < d1,
            d1 > 0,
            d2 > 0,
    ;
    vstd::arithmetic::div_mod::lemma_fundamental_div_mod_converse(n2, d2, q, r2);
}

/// The two upper edges of a triangle without area stand at the same
/// column on every row.
pub proof fn lemma_flat_upper_edges(a: Vertex, b: Vertex, c: Vertex, py: int)
    requires
        a.y < b.y <= c.y,
        signed_area(a, b, c) == 0,
    ensures
        edge_at_row(a, b, py) == edge_at_row(a, c, py),
{
    let d1 = b.y - a.y;
    let d2 = c.y - a.y;
    let k = py - a.y;
    let xb = b.x - a.x;
    let xc = c.x - a.x;
    let n1 = a.x * d1 + k * xb;
    let n2 = a.x * d2 + k * xc;
    assert(xc * d1 == d2 * xb);
    assert(n1 * d2 == n2 * d1) by (nonlinear_arith)
        requires
            n1 == a.x * d1 + k * xb,
            n2 == a.x * d2 + k * xc,
            xc * d1 == d2 * xb,
    ;
    lemma_equal_fractions(n1, d1, n2, d2);
}

/// The lower edge and the long edge of a triangle without area stand at
/// the same column on every row.
pub proof fn lemma_flat_lower_edges(a: Vertex, b: Vertex, c: Vertex, py: int)
    requires
        a.y <= b.y < c.y,
        signed_area(a, b, c) == 0,
    ensures
        edge_at_row(b, c, py) == edge_at_row(a, c, py),
{
    let d1 = b.y - a.y;
    let d2 = c.y - a.y;
    let d3 = c.y - b.y;
    let k = py - a.y;
    let k3 = py - b.y;
    let xb = b.x - a.x;
    let xc = c.x - a.x;
    let n1 = b.x * d3 + k3 * (c.x - b.x);
    let n2 = a.x * d2 + k * xc;
    assert(xc * d1 == d2 * xb);
    let ax = a.x as int;
    let up = xc * d1;
    let down = xc * d3;
    let both = d3 * d2;
    assert(xc * d2 == up + down) by (nonlinear_arith)
        requires
            d2 == d1 + d3,
            up == xc * d1,
            down == xc * d3,
    ;
    assert(xb * both == d3 * up) by (nonlinear_arith)
        requires
            both == d3 * d2,
            up == d2 * xb,
    ;
    let kx = k3 * xc;
    let kb = k3 * xb;
    assert(n1 == ax * d3 + xb * d3 + kx - kb) by (nonlinear_arith)
        requires
            n1 == (ax + xb) * d3 + k3 * (xc - xb),
            kx == k3 * xc,
            kb == k3 * xb,
    ;
    assert(n1 * d2 == (ax * d3) * d2 + (xb * d3) * d2 + kx * d2 - kb * d2) by (nonlinear_arith)
        requires
            n1 == ax * d3 + xb * d3 + kx - kb,
    ;
    assert((ax * d3) * d2 == ax * both) by (nonlinear_arith)
        requires
            both == d3 * d2,
    ;
    assert((xb * d3) * d2 == xb * both) by (nonlinear_arith)
        requires
            both == d3 * d2,
    ;
    assert(kx * d2 == k3 * (up + down)) by (nonlinear_arith)
        requires
            kx == k3 * xc,
            xc * d2 == up + down,
    ;
    assert(kb * d2 == k3 * up) by (nonlinear_arith)
        requires
            kb == k3 * xb,
            up == d2 * xb,
    ;
    assert(k3 * (up + down) == k3 * up + k3 * down) by (nonlinear_arith);
    assert(n2 == ax * d2 + kx + up) by (nonlinear_arith)
        requires
            n2 == ax * d2 + (k3 + d1) * xc,
            kx == k3 * xc,
            up == xc * d1,
    ;
    assert(n2 * d3 == (ax * d2) * d3 + kx * d3 + up * d3) by (nonlinear_arith)
        requires
            n2 == ax * d2 + kx + up,
    ;
    assert((ax * d2) * d3 == ax * both) by (nonlinear_arith)
        requires
            both == d3 * d2,
    ;
    assert(kx * d3 == k3 * down) by (nonlinear_arith)
        requires
            kx == k3 * xc,
            down == xc * d3,
    ;
    assert(up * d3 == d3 * up) by (nonlinear_arith);
    assert(n1 * d2 == n2 * d3);
    lemma_equal_fractions(n1, d3, n2, d2);
}

/// Texture mapping visits no pixel of a triangle without area: on every
/// row its edges meet, and nothing lies between them.
pub proof fn lemma_no_area_no_pixel(a: Vertex, b: Vertex, c: Vertex, px: int, py: int)
    requires
        a.y <= b.y <= c.y,
        signed_area(a, b, c) == 0,
    ensures
        !in_textured_triangle(a, b, c, px, py),
{
    if a.y < b.y {
        lemma_flat_upper_edges(a, b, c, py);
    }
    if b.y < c.y {
        lemma_flat_lower_edges(a, b, c, py);
    }
}

/// Whether all that texture mapping reads lies below `COORD_LIMIT`.
pub open spec fn within_limit(a: Vertex, b: Vertex, c: Vertex, width: usize, height: usize) -> bool {
    &&& a.x < COORD_LIMIT
    &&& a.y < COORD_LIMIT
    &&& b.x < COORD_LIMIT
    &&& b.y < COORD_LIMIT
    &&& c.x < COORD_LIMIT
    &&& c.y < COORD_LIMIT
    &&& width < COORD_LIMIT
    &&& height < COORD_LIMIT
}

/// Copies the texel of the pixel `(x, y)` to the surface, if it has one.
fn draw_texel(
    display: &mut Display,
    x: usize,
    y: usize,
    texture: &Vec<Color>,
    texture_width: usize,
    texture_height: usize,
    a: &Vertex,
    b: &Vertex,
    c: &Vertex,
)
    requires
        within_limit(*a, *b, *c, texture_width, texture_height),
        x < COORD_LIMIT,
        y < COORD_LIMIT,
    ensures
        repainted(
            old(display)@,
            final(display)@,
            |px: int, py: int|
                px == x && py == y && has_texel(
                    *a,
                    *b,
                    *c,
                    texture_width as int,
                    texture_height as int,
                    texture@.len() as int,
                    px,
                    py,
                ),
            |px: int, py: int|
                texture@[texel_index(
                    *a,
                    *b,
                    *c,
                    texture_width as int,
                    texture_height as int,
                    px,
                    py,
                )],
        ),
{
    let found = texel_index_at(a, b, c, texture_width, texture_height, texture.len(), x, y);
    if let Some(texture_index) = found {
        display.draw_pixel(x, y, texture[texture_index]);
        proof {
            lemma_pixel_index_injective();
        }
    }
}

/// Maps the texture onto the rows of the edge from `p` down to `q`: on
/// each, the pixels between that edge and the edge from `a` down to `c`.
fn draw_textured_rows(
    display: &mut Display,
    p: &Vertex,
    q: &Vertex,
    a: &Vertex,
    b: &Vertex,
    c: &Vertex,
    texture: &Vec<Color>,
    texture_width: usize,
    texture_height: usize,
)
    requires
        within_limit(*a, *b, *c, texture_width, texture_height),
        p.x < COORD_LIMIT,
        q.x < COORD_LIMIT,
        p.y < q.y,
        a.y <= p.y,
        q.y <= c.y,
    ensures
        repainted(
            old(display)@,
            final(display)@,
            |px: int, py: int|
                in_textured_rows(*p, *q, *a, *c, px, py) && has_texel(
                    *a,
                    *b,
                    *c,
                    texture_width as int,
                    texture_height as int,
                    texture@.len() as int,
                    px,
                    py,
                ),
            |px: int, py: int|
                texture@[texel_index(
                    *a,
                    *b,
                    *c,
                    texture_width as int,
                    texture_height as int,
                    px,
                    py,
                )],
        ),
{
    let mut y: usize = p.y;
    loop
        invariant_except_break
            p.y <= y <= q.y,
            repainted(
                old(display)@,
                display@,
                |px: int, py: int|
                    py < y && in_textured_rows(*p, *q, *a, *c, px, py) && has_texel(
                        *a,
                        *b,
                        *c,
                        texture_width as int,
                        texture_height as int,
                        texture@.len() as int,
                        px,
                        py,
                    ),
                |px: int, py: int|
                    texture@[texel_index(
                        *a,
                        *b,
                        *c,
                        texture_width as int,
                        texture_height as int,
                        px,
                        py,
                    )],
            ),
        invariant
            within_limit(*a, *b, *c, texture_width, texture_height),
            p.x < COORD_LIMIT,
            q.x < COORD_LIMIT,
            p.y < q.y,
            a.y <= p.y,
            q.y <= c.y,
        ensures
            repainted(
                old(display)@,
                display@,
                |px: int, py: int|
                    in_textured_rows(*p, *q, *a, *c, px, py) && has_texel(
                        *a,
                        *b,
                        *c,
                        texture_width as int,
                        texture_height as int,
                        texture@.len() as int,
                        px,
                        py,
                    ),
                |px: int, py: int|
                    texture@[texel_index(
                        *a,
                        *b,
                        *c,
                        texture_width as int,
                        texture_height as int,
                        px,
                        py,
                    )],
            ),
        decreases q.y - y,
    {
        let mut x_start: usize = edge_x_at(p.x, q.x, q.y - p.y, y - p.y);
        let mut x_end: usize = edge_x_at(a.x, c.x, c.y - a.y, y - a.y);
        if x_end < x_start {
            swap(&mut x_start, &mut x_end);
        }
        let mut x: usize = x_start;
        while x < x_end
            invariant
                x_start <= x <= x_end,
                x_end < COORD_LIMIT,
                p.y < q.y,
                p.y <= y <= q.y,
                q.y <= c.y,
                within_limit(*a, *b, *c, texture_width, texture_height),
                forall|px: int|
                    in_half_open(edge_at_row(*p, *q, y as int), edge_at_row(*a, *c, y as int), px)
                        <==> x_start <= px < x_end,
                repainted(
                    old(display)@,
                    display@,
                    |px: int, py: int|
                        (py < y || (py == y && px < x)) && in_textured_rows(
                            *p,
                            *q,
                            *a,
                            *c,
                            px,
                            py,
                        ) && has_texel(
                            *a,
                            *b,
                            *c,
                            texture_width as int,
                            texture_height as int,
                            texture@.len() as int,
                            px,
                            py,
                        ),
                    |px: int, py: int|
                        texture@[texel_index(
                            *a,
                            *b,
                            *c,
                            texture_width as int,
                            texture_height as int,
                            px,
                            py,
                        )],
                ),
            decreases x_end - x,
        {
            draw_texel(display, x, y, texture, texture_width, texture_height, a, b, c);
            x += 1;
        }
        if y == q.y {
            break ;
        }
        y += 1;
    }
}

/// Maps a texture onto the triangle with the three given corners, each
/// with its texture coordinates in fixed point. With the corners ordered
/// from the top downwards, the rows of the upper short edge are walked
/// first and those of the lower short edge second; on each row the pixels
/// between the short edge and the long edge take the texel that the
/// barycentric weights of the pixel select. A pixel outside the surface, or
/// whose texel lies outside the texture, is left as it was, and so is every
/// pixel when the triangle has no area.
pub fn draw_textured_triangle(
    display: &mut Display,
    x0: usize,
    y0: usize,
    u0: i32,
    v0: i32,
    x1: usize,
    y1: usize,
    u1: i32,
    v1: i32,
    x2: usize,
    y2: usize,
    u2: i32,
    v2: i32,
    texture: &Vec<Color>,
    texture_width: usize,
    texture_height: usize,
)
    requires
        within_limit(
            vertex(x0, y0, u0, v0),
            vertex(x1, y1, u1, v1),
            vertex(x2, y2, u2, v2),
            texture_width,
            texture_height,
        ),
    ensures
        ({
            let (a, b, c) = top_to_bottom(
                vertex(x0, y0, u0, v0),
                vertex(x1, y1, u1, v1),
                vertex(x2, y2, u2, v2),
            );
            repainted(
                old(display)@,
                final(display)@,
                |px: int, py: int|
                    in_textured_triangle(a, b, c, px, py) && has_texel(
                        a,
                        b,
                        c,
                        texture_width as int,
                        texture_height as int,
                        texture@.len() as int,
                        px,
                        py,
                    ),
                |px: int, py: int|
                    texture@[texel_index(
                        a,
                        b,
                        c,
                        texture_width as int,
                        texture_height as int,
                        px,
                        py,
                    )],
            ) && (signed_area(a, b, c) == 0 ==> final(display)@ == old(display)@)
        }),
{
    let (a, b, c) = sort_vertices(
        Vertex { x: x0, y: y0, u: u0, v: v0 },
        Vertex { x: x1, y: y1, u: u1, v: v1 },
        Vertex { x: x2, y: y2, u: u2, v: v2 },
    );
    if b.y != a.y {
        draw_textured_rows(display, &a, &b, &a, &b, &c, texture, texture_width, texture_height);
    }
    if c.y != b.y {
        draw_textured_rows(display, &b, &c, &a, &b, &c, texture, texture_width, texture_height);
    }
    proof {
        if signed_area(a, b, c) == 0 {
            old(display).lemma_len();
            lemma_repainted_nowhere(
                old(display)@,
                display@,
                |px: int, py: int|
                    in_textured_triangle(a, b, c, px, py) && has_texel(
                        a,
                        b,
                        c,
                        texture_width as int,
                        texture_height as int,
                        texture@.len() as int,
                        px,
                        py,
                    ),
                |px: int, py: int|
                    texture@[texel_index(
                        a,
                        b,
                        c,
                        texture_width as int,
                        texture_height as int,
                        px,
                        py,
                    )],
            );
        }
    }
}

} // verus!
