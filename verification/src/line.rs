//! The pixels of a straight line between two pixels.

use vstd::prelude::*;

verus! {

/// The distance between two coordinates.
pub open spec fn distance(a: int, b: int) -> int {
    if a <= b {
        b - a
    } else {
        a - b
    }
}

/// The number of steps of the line from `(x0, y0)` to `(x1, y1)`: the longer
/// of its two extents.
pub open spec fn line_steps(x0: int, y0: int, x1: int, y1: int) -> int {
    if distance(x0, x1) >= distance(y0, y1) {
        distance(x0, x1)
    } else {
        distance(y0, y1)
    }
}

/// The coordinate reached after `i` of `steps` equal steps from `a` to `b`,
/// rounded to the nearest integer, a half upward. With no step to take it
/// is `a`.
pub open spec fn line_coord(a: int, b: int, steps: int, i: int) -> int {
    if steps <= 0 {
        a
    } else {
        (2 * (a * steps + i * (b - a)) + steps) / (2 * steps)
    }
}

/// The `i`-th pixel of the line from `(x0, y0)` to `(x1, y1)`.
pub open spec fn line_point(x0: int, y0: int, x1: int, y1: int, i: int) -> (int, int) {
    let steps = line_steps(x0, y0, x1, y1);
    (line_coord(x0, x1, steps, i), line_coord(y0, y1, steps, i))
}

/// Whether `(px, py)` is among the first `n` pixels of the line from
/// `(x0, y0)` to `(x1, y1)`.
pub open spec fn on_line_prefix(
    x0: int,
    y0: int,
    x1: int,
    y1: int,
    n: int,
    px: int,
    py: int,
) -> bool {
    exists|i: int| 0 <= i < n && #[trigger] line_point(x0, y0, x1, y1, i) == (px, py)
}

/// Whether `(px, py)` is a pixel of the line from `(x0, y0)` to `(x1, y1)`,
/// both ends included.
pub open spec fn on_line(x0: int, y0: int, x1: int, y1: int, px: int, py: int) -> bool {
    on_line_prefix(x0, y0, x1, y1, line_steps(x0, y0, x1, y1) + 1, px, py)
}

/// `line_coord` by quotient and remainder, towards a larger coordinate.
pub proof fn lemma_line_coord_up(a: int, b: int, steps: int, i: int, q: int, r: int)
    requires
        steps > 0,
        a <= b,
        i * (b - a) == q * steps + r,
        0 <= r < steps,
    ensures
        line_coord(a, b, steps, i) == a + q + if 2 * r >= steps {
            1int
        } else {
            0int
        },
{
    let n = 2 * (a * steps + i * (b - a)) + steps;
    let d = 2 * steps;
    if 2 * r >= steps {
        assert(n == d * (a + q + 1) + (2 * r - steps)) by (nonlinear_arith)
            requires
                n == 2 * (a * steps + i * (b - a)) + steps,
                d == 2 * steps,
                i * (b - a) == q * steps + r,
        ;
        vstd::arithmetic::div_mod::lemma_fundamental_div_mod_converse(
            n,
            d,
            a + q + 1,
            2 * r - steps,
        );
    } else {
        assert(n == d * (a + q) + (2 * r + steps)) by (nonlinear_arith)
            requires
                n == 2 * (a * steps + i * (b - a)) + steps,
                d == 2 * steps,
                i * (b - a) == q * steps + r,
        ;
        vstd::arithmetic::div_mod::lemma_fundamental_div_mod_converse(
            n,
            d,
            a + q,
            2 * r + steps,
        );
    }
}

/// `line_coord` by quotient and remainder, towards a smaller coordinate.
pub proof fn lemma_line_coord_down(a: int, b: int, steps: int, i: int, q: int, r: int)
    requires
        steps > 0,
        b <= a,
        i * (a - b) == q * steps + r,
        0 <= r < steps,
    ensures
        line_coord(a, b, steps, i) == a - q - if 2 * r > steps {
            1int
        } else {
            0int
        },
{
    let n = 2 * (a * steps + i * (b - a)) + steps;
    let d = 2 * steps;
    assert(i * (b - a) == -(q * steps + r)) by (nonlinear_arith)
        requires
            i * (a - b) == q * steps + r,
    ;
    if 2 * r > steps {
        assert(n == d * (a - q - 1) + (3 * steps - 2 * r)) by (nonlinear_arith)
            requires
                n == 2 * (a * steps + i * (b - a)) + steps,
                d == 2 * steps,
                i * (b - a) == -(q * steps + r),
        ;
        vstd::arithmetic::div_mod::lemma_fundamental_div_mod_converse(
            n,
            d,
            a - q - 1,
            3 * steps - 2 * r,
        );
    } else {
        assert(n == d * (a - q) + (steps - 2 * r)) by (nonlinear_arith)
            requires
                n == 2 * (a * steps + i * (b - a)) + steps,
                d == 2 * steps,
                i * (b - a) == -(q * steps + r),
        ;
        vstd::arithmetic::div_mod::lemma_fundamental_div_mod_converse(
            n,
            d,
            a - q,
            steps - 2 * r,
        );
    }
}

/// A line holds both of its ends.
pub proof fn lemma_line_ends(x0: int, y0: int, x1: int, y1: int)
    ensures
        on_line(x0, y0, x1, y1, x0, y0),
        on_line(x0, y0, x1, y1, x1, y1),
{
    let steps = line_steps(x0, y0, x1, y1);
    if steps > 0 {
        assert(0 * (x1 - x0) == 0 * steps + 0 && 0 * (x0 - x1) == 0 * steps + 0
            && 0 * (y1 - y0) == 0 * steps + 0 && 0 * (y0 - y1) == 0 * steps + 0)
            by (nonlinear_arith);
        assert(steps * (x1 - x0) == (x1 - x0) * steps + 0 && steps * (x0 - x1) == (x0 - x1)
            * steps + 0 && steps * (y1 - y0) == (y1 - y0) * steps + 0 && steps * (y0 - y1) == (y0
            - y1) * steps + 0) by (nonlinear_arith);
        if x0 <= x1 {
            lemma_line_coord_up(x0, x1, steps, 0, 0, 0);
            lemma_line_coord_up(x0, x1, steps, steps, x1 - x0, 0);
        } else {
            lemma_line_coord_down(x0, x1, steps, 0, 0, 0);
            lemma_line_coord_down(x0, x1, steps, steps, x0 - x1, 0);
        }
        if y0 <= y1 {
            lemma_line_coord_up(y0, y1, steps, 0, 0, 0);
            lemma_line_coord_up(y0, y1, steps, steps, y1 - y0, 0);
        } else {
            lemma_line_coord_down(y0, y1, steps, 0, 0, 0);
            lemma_line_coord_down(y0, y1, steps, steps, y0 - y1, 0);
        }
    }
    assert(line_point(x0, y0, x1, y1, 0) == (x0, y0));
    assert(line_point(x0, y0, x1, y1, steps) == (x1, y1));
}

/// The product of two machine-sized numbers fits in 128 bits.
pub proof fn lemma_product_fits(a: int, b: int)
    requires
        0 <= a <= usize::MAX,
        0 <= b <= usize::MAX,
    ensures
        0 <= a * b <= u128::MAX,
{
    assert(0 <= a * b <= 0xffff_ffff_ffff_ffff * 0xffff_ffff_ffff_ffff) by (nonlinear_arith)
        requires
            0 <= a <= 0xffff_ffff_ffff_ffff,
            0 <= b <= 0xffff_ffff_ffff_ffff,
    ;
}

/// The distance between two coordinates.
pub fn coord_distance(a: usize, b: usize) -> (d: usize)
    ensures
        d == distance(a as int, b as int),
{
    if a <= b {
        b - a
    } else {
        a - b
    }
}

/// The coordinate of the `i`-th pixel of a line of `steps` steps that runs
/// from `a` to `b` along this axis.
pub fn line_coord_at(a: usize, b: usize, steps: usize, i: usize) -> (c: usize)
    requires
        i <= steps,
        distance(a as int, b as int) <= steps,
    ensures
        c == line_coord(a as int, b as int, steps as int, i as int),
        a <= c <= b || b <= c <= a,
{
    if steps == 0 {
        return a;
    }
    let d: usize = coord_distance(a, b);
    proof {
        lemma_product_fits(i as int, d as int);
    }
    let n: u128 = (i as u128) * (d as u128);
    let q: u128 = n / (steps as u128);
    let r: u128 = n % (steps as u128);
    proof {
        vstd::arithmetic::div_mod::lemma_fundamental_div_mod(n as int, steps as int);
        assert(q <= d && (q == d ==> r == 0)) by (nonlinear_arith)
            requires
                n == steps * q + r,
                n == i * d,
                0 <= r < steps,
                0 <= i <= steps,
                0 <= d,
                0 <= q,
        ;
        assert(i * d == q * steps + r) by (nonlinear_arith)
            requires
                n == steps * q + r,
                n == i * d,
        ;
        if a <= b {
            lemma_line_coord_up(a as int, b as int, steps as int, i as int, q as int, r as int);
        } else {
            lemma_line_coord_down(a as int, b as int, steps as int, i as int, q as int, r as int);
        }
    }
    if a <= b {
        let bump: usize = if 2 * r >= steps as u128 {
            1
        } else {
            0
        };
        a + (q as usize) + bump
    } else {
        let bump: usize = if 2 * r > steps as u128 {
            1
        } else {
            0
        };
        a - (q as usize) - bump
    }
}

/// Whether `x` lies between `a` and `b`, whichever of them is the smaller,
/// both included.
pub open spec fn in_span(a: int, b: int, x: int) -> bool {
    (a <= x <= b) || (b <= x <= a)
}

/// A horizontal line covers the pixels of its row between its two ends.
pub proof fn lemma_horizontal_line(xs: int, xe: int, y: int, px: int, py: int)
    requires
        0 <= xs,
        0 <= xe,
        0 <= y,
    ensures
        on_line(xs, y, xe, y, px, py) <==> (py == y && in_span(xs, xe, px)),
{
    let steps = line_steps(xs, y, xe, y);
    assert(steps == distance(xs, xe));
    assert forall|i: int| 0 <= i <= steps implies #[trigger] line_point(xs, y, xe, y, i) == (
        if xs <= xe {
            xs + i
        } else {
            xs - i
        },
        y,
    ) by {
        if steps > 0 {
            assert(0 * steps + 0 == 0);
            assert(i * (y - y) == 0 * steps + 0) by (nonlinear_arith);
            lemma_line_coord_up(y, y, steps, i, 0, 0);
            if xs <= xe {
                assert(i * (xe - xs) == i * steps + 0) by (nonlinear_arith)
                    requires
                        steps == xe - xs,
                ;
                lemma_line_coord_up(xs, xe, steps, i, i, 0);
            } else {
                assert(i * (xs - xe) == i * steps + 0) by (nonlinear_arith)
                    requires
                        steps == xs - xe,
                ;
                lemma_line_coord_down(xs, xe, steps, i, i, 0);
            }
        }
    }
    if on_line(xs, y, xe, y, px, py) {
        let i = choose|i: int|
            0 <= i < steps + 1 && #[trigger] line_point(xs, y, xe, y, i) == (px, py);
        assert(py == y && in_span(xs, xe, px));
    }
    if py == y && in_span(xs, xe, px) {
        let i = if xs <= xe {
            px - xs
        } else {
            xs - px
        };
        assert(0 <= i < steps + 1);
        assert(line_point(xs, y, xe, y, i) == (px, py));
    }
}

} // verus!
