//! RGB colors and a fixed piecewise-linear heat-map gradient.
//!
//! The gradient maps a normalized capacity in `[0, 1]` to a color by linear
//! interpolation over four fixed control points (dark red at 0, orange at
//! 1/5, yellow at 3/5, green at 1). Inputs below the range take the first
//! color, inputs at or above the last control point take the last color.

use vstd::prelude::*;
use vstd::string::StrSliceExecFns;
use vstd::string::StringExecFns;

use crate::ratio::Ratio;

verus! {

/// A color as three 8-bit channels.
#[derive(Clone, Copy, Debug, PartialEq, Eq, Structural)]
pub struct RGB {
    pub r: u8,
    pub g: u8,
    pub b: u8,
}

/// The uppercase hexadecimal digit for `d` in `0..16`.
pub open spec fn spec_hex_digit(d: int) -> char {
    "0123456789ABCDEF"@[d]
}

/// The two uppercase hexadecimal digits of a byte `b` in `0..256`.
pub open spec fn spec_hex_byte(b: int) -> Seq<char> {
    seq![spec_hex_digit(b / 16), spec_hex_digit(b % 16)]
}

/// The canonical rendering of a color: `#RRGGBB`, uppercase.
pub open spec fn spec_hex_color(c: RGB) -> Seq<char> {
    seq!['#'] + spec_hex_byte(c.r as int) + spec_hex_byte(c.g as int) + spec_hex_byte(c.b as int)
}

/// The one-character string holding the uppercase hexadecimal digit for `d`.
fn hex_digit_str(d: u8) -> (r: &'static str)
    requires
        d < 16,
    ensures
        r@ == seq![spec_hex_digit(d as int)],
{
    let digits = "0123456789ABCDEF";
    proof {
        reveal_strlit("0123456789ABCDEF");
    }
    let r = digits.substring_char(d as usize, d as usize + 1);
    proof {
        assert(r@ =~= seq![spec_hex_digit(d as int)]);
    }
    r
}

/// A control point of the gradient: a position in the normalized range,
/// measured in fifths (the fixed table only needs positions 0, 1/5, 3/5
/// and 1), and the color anchored there.
#[derive(Clone, Copy, Debug, PartialEq, Eq, Structural)]
pub struct GradientPoint {
    pub pos_fifths: u8,
    pub color: RGB,
}

/// The fixed heat-map control points: dark red at 0, orange at 1/5,
/// yellow at 3/5, green at 1, sorted by ascending position.
pub open spec fn spec_control_points() -> Seq<GradientPoint> {
    seq![
        GradientPoint { pos_fifths: 0, color: RGB { r: 0x66, g: 0x00, b: 0x00 } },
        GradientPoint { pos_fifths: 1, color: RGB { r: 0xff, g: 0x66, b: 0x33 } },
        GradientPoint { pos_fifths: 3, color: RGB { r: 0xff, g: 0xff, b: 0x66 } },
        GradientPoint { pos_fifths: 5, color: RGB { r: 0x33, g: 0xff, b: 0x66 } },
    ]
}

/// Whether the rational `x` (with `x.den > 0`) lies strictly below `k`
/// fifths, i.e. `x < k / 5`.
pub open spec fn spec_below(x: Ratio, k: int) -> bool {
    5 * (x.num as int) < k * (x.den as int)
}

/// `a + (b - a) * (n / d)` rounded half away from zero, for `0 <= n < d`:
/// the value of one channel interpolated between `a` and `b` at the
/// fraction `n / d` of the way.
pub open spec fn spec_interp(a: int, b: int, n: int, d: int) -> int {
    (2 * (a * d + (b - a) * n) + d) / (2 * d)
}

/// The color interpolated between adjacent control points `p` and `q` at
/// `x`, where `p.pos <= x < q.pos`: each channel is interpolated
/// independently at the fraction `(x - p.pos) / (q.pos - p.pos)`.
pub open spec fn spec_segment_color(p: GradientPoint, q: GradientPoint, x: Ratio) -> RGB {
    let n = 5 * (x.num as int) - (p.pos_fifths as int) * (x.den as int);
    let d = ((q.pos_fifths - p.pos_fifths) as int) * (x.den as int);
    RGB {
        r: spec_interp(p.color.r as int, q.color.r as int, n, d) as u8,
        g: spec_interp(p.color.g as int, q.color.g as int, n, d) as u8,
        b: spec_interp(p.color.b as int, q.color.b as int, n, d) as u8,
    }
}

/// The heat-map color for `x`: flat below the first control point, linear
/// interpolation between the two control points enclosing `x` (choosing
/// the segment that *ends* at a position equal to `x`, so an exact hit on
/// a control point yields that point's color), and flat at the last
/// control point's color from its position on. A `Ratio` with a zero
/// denominator is an out-of-range magnitude and takes the flat color of
/// the side its sign points to.
pub open spec fn spec_colorize(x: Ratio) -> RGB {
    let pts = spec_control_points();
    if x.den == 0 {
        if x.num < 0 {
            pts[0].color
        } else {
            pts[3].color
        }
    } else if spec_below(x, 0) {
        pts[0].color
    } else if spec_below(x, 1) {
        spec_segment_color(pts[0], pts[1], x)
    } else if spec_below(x, 3) {
        spec_segment_color(pts[1], pts[2], x)
    } else if spec_below(x, 5) {
        spec_segment_color(pts[2], pts[3], x)
    } else {
        pts[3].color
    }
}

impl RGB {
    /// The canonical `#RRGGBB` hex rendering, uppercase.
    pub fn hex_string(&self) -> (s: String)
        ensures
            s@ == spec_hex_color(*self),
    {
        proof {
            reveal_strlit("#");
        }
        let mut s = String::from_str("#");
        s.append(hex_digit_str(self.r / 16));
        s.append(hex_digit_str(self.r % 16));
        s.append(hex_digit_str(self.g / 16));
        s.append(hex_digit_str(self.g % 16));
        s.append(hex_digit_str(self.b / 16));
        s.append(hex_digit_str(self.b % 16));
        proof {
            assert(s@ =~= spec_hex_color(*self));
        }
        s
    }
}

/// Whether `x < k / 5`, decided without overflow: a negative numerator is
/// below every control point, and `x >= 1` is below none of them.
fn below_fifths(x: Ratio, k: u8) -> (b: bool)
    requires
        x.den > 0,
        k <= 5,
    ensures
        b == spec_below(x, k as int),
{
    if x.num < 0 {
        proof {
            assert(0 <= (k as int) * (x.den as int)) by (nonlinear_arith)
                requires
                    k >= 0,
                    x.den >= 0,
            ;
        }
        true
    } else if x.num >= x.den as i128 {
        proof {
            assert((k as int) * (x.den as int) <= 5 * (x.den as int)) by (nonlinear_arith)
                requires
                    k <= 5,
                    x.den >= 0,
            ;
        }
        false
    } else {
        proof {
            assert(0 <= (k as int) * (x.den as int) <= 5 * (x.den as int)) by (nonlinear_arith)
                requires
                    0 <= k <= 5,
                    x.den >= 0,
            ;
        }
        5 * x.num < (k as i128) * (x.den as i128)
    }
}

/// `a + (b - a) * (n / d)` rounded half away from zero, computed exactly
/// in integers.
fn interpolate(a: u8, b: u8, n: i128, d: i128) -> (c: u8)
    requires
        0 <= n < d,
        d <= 0x8_0000_0000_0000_0000,
    ensures
        c as int == spec_interp(a as int, b as int, n as int, d as int),
{
    proof {
        lemma_interp_bounds(a as int, b as int, n as int, d as int);
    }
    let nn = n as u128;
    let dd = d as u128;
    let q: u128 = if b >= a {
        let diff = (b - a) as u128;
        proof {
            assert((a as u128) * dd + diff * nn <= 255 * dd + 255 * dd) by (nonlinear_arith)
                requires
                    a <= 255,
                    diff <= 255,
                    0 <= nn <= dd,
            ;
        }
        let num = (a as u128) * dd + diff * nn;
        proof {
            assert((a as int) * (d as int) + (diff as int) * (n as int) == (a as int) * (
            d as int) + ((b as int) - (a as int)) * (n as int)) by (nonlinear_arith)
                requires
                    diff == b - a,
            ;
        }
        (2 * num + dd) / (2 * dd)
    } else {
        let diff = (a - b) as u128;
        proof {
            assert(diff * nn <= (a as u128) * dd) by (nonlinear_arith)
                requires
                    diff <= a,
                    0 <= nn <= dd,
            ;
            assert((a as u128) * dd <= 255 * dd) by (nonlinear_arith)
                requires
                    a <= 255,
            ;
        }
        let num = (a as u128) * dd - diff * nn;
        proof {
            assert((a as int) * (d as int) - ((a as int) - (b as int)) * (n as int) == (
            a as int) * (d as int) + ((b as int) - (a as int)) * (n as int)) by (nonlinear_arith);
        }
        (2 * num + dd) / (2 * dd)
    };
    proof {
        assert(q == spec_interp(a as int, b as int, n as int, d as int));
    }
    q as u8
}

impl GradientPoint {
    /// The color at `x` by linear interpolation from `self` to `oth`, for
    /// `self.pos <= x < oth.pos`.
    fn interpolate(&self, oth: &GradientPoint, x: Ratio) -> (c: RGB)
        requires
            x.den > 0,
            self.pos_fifths < oth.pos_fifths,
            oth.pos_fifths <= 5,
            !spec_below(x, self.pos_fifths as int),
            spec_below(x, oth.pos_fifths as int),
        ensures
            c == spec_segment_color(*self, *oth, x),
    {
        proof {
            assert(0 <= (self.pos_fifths as int) * (x.den as int)) by (nonlinear_arith)
                requires
                    self.pos_fifths >= 0,
                    x.den >= 0,
            ;
            assert((oth.pos_fifths as int) * (x.den as int) <= 5 * (x.den as int))
                by (nonlinear_arith)
                requires
                    oth.pos_fifths <= 5,
                    x.den >= 0,
            ;
            assert(((oth.pos_fifths - self.pos_fifths) as int) * (x.den as int) == (
            oth.pos_fifths as int) * (x.den as int) - (self.pos_fifths as int) * (x.den as int))
                by (nonlinear_arith);
        }
        let den = x.den as i128;
        let n = 5 * x.num - (self.pos_fifths as i128) * den;
        let d = ((oth.pos_fifths - self.pos_fifths) as i128) * den;
        RGB {
            r: interpolate(self.color.r, oth.color.r, n, d),
            g: interpolate(self.color.g, oth.color.g, n, d),
            b: interpolate(self.color.b, oth.color.b, n, d),
        }
    }
}

/// The fixed gradient: the control-point table, built once and read-only.
pub struct Gradient {
    points: Vec<GradientPoint>,
}

impl Gradient {
    /// The table holds exactly the fixed heat-map control points.
    pub closed spec fn wf(&self) -> bool {
        self.points@ == spec_control_points()
    }

    /// The heat-map gradient over the fixed control points.
    pub fn new() -> (g: Gradient)
        ensures
            g.wf(),
    {
        let mut points: Vec<GradientPoint> = Vec::new();
        points.push(GradientPoint { pos_fifths: 0, color: RGB { r: 0x66, g: 0x00, b: 0x00 } });
        points.push(GradientPoint { pos_fifths: 1, color: RGB { r: 0xff, g: 0x66, b: 0x33 } });
        points.push(GradientPoint { pos_fifths: 3, color: RGB { r: 0xff, g: 0xff, b: 0x66 } });
        points.push(GradientPoint { pos_fifths: 5, color: RGB { r: 0x33, g: 0xff, b: 0x66 } });
        let g = Gradient { points };
        proof {
            assert(g.points@ =~= spec_control_points());
        }
        g
    }

    /// The color for `x`: scan the control points in ascending order and
    /// interpolate within the first segment whose end lies strictly above
    /// `x`; flat below the range and from the last point on.
    pub fn get(&self, x: Ratio) -> (c: RGB)
        requires
            self.wf(),
        ensures
            c == spec_colorize(x),
    {
        if x.den == 0 {
            if x.num < 0 {
                return self.points[0].color;
            }
            return self.points[3].color;
        }
        if below_fifths(x, self.points[0].pos_fifths) {
            return self.points[0].color;
        }
        let mut i: usize = 1;
        while i < self.points.len()
            invariant
                self.wf(),
                x.den > 0,
                1 <= i <= self.points@.len(),
                forall|j: int|
                    0 <= j < i ==> !spec_below(x, spec_control_points()[j].pos_fifths as int),
            decreases self.points@.len() - i,
        {
            if below_fifths(x, self.points[i].pos_fifths) {
                return self.points[i - 1].interpolate(&self.points[i], x);
            }
            i += 1;
        }
        self.points[3].color
    }
}

/// The heat-map color for a normalized capacity `x`: piecewise-linear
/// interpolation over the fixed control points.
pub fn colorize(x: Ratio) -> (c: RGB)
    ensures
        c == spec_colorize(x),
{
    Gradient::new().get(x)
}

/// For `0 <= n < d`, the interpolated channel lies between its endpoints.
pub proof fn lemma_interp_bounds(a: int, b: int, n: int, d: int)
    requires
        0 <= a <= 255,
        0 <= b <= 255,
        0 <= n < d,
    ensures
        a <= b ==> a <= spec_interp(a, b, n, d) <= b,
        b <= a ==> b <= spec_interp(a, b, n, d) <= a,
{
    let v = a * d + (b - a) * n;
    let lo = if a <= b {
        a
    } else {
        b
    };
    let hi = if a <= b {
        b
    } else {
        a
    };
    assert(lo * d <= v && v <= hi * d) by (nonlinear_arith)
        requires
            0 <= n < d,
            lo <= a <= hi,
            lo <= b <= hi,
            v == a * d + (b - a) * n,
            (a <= b ==> lo == a && hi == b),
            (b < a ==> lo == b && hi == a),
    ;
    assert((2 * (lo * d) + d) / (2 * d) == lo) by (nonlinear_arith)
        requires
            d > 0,
            0 <= lo,
    ;
    assert((2 * (hi * d) + d) / (2 * d) == hi) by (nonlinear_arith)
        requires
            d > 0,
            0 <= hi,
    ;
    vstd::arithmetic::div_mod::lemma_div_is_ordered(2 * (lo * d) + d, 2 * v + d, 2 * d);
    vstd::arithmetic::div_mod::lemma_div_is_ordered(2 * v + d, 2 * (hi * d) + d, 2 * d);
}

/// Interpolating at fraction 0 yields the lower endpoint exactly.
proof fn lemma_interp_at_zero(a: int, b: int, d: int)
    requires
        0 < d,
    ensures
        spec_interp(a, b, 0, d) == a,
{
    assert(2 * (a * d + (b - a) * 0) + d == (2 * d) * a + d) by (nonlinear_arith);
    vstd::arithmetic::div_mod::lemma_div_multiples_vanish_fancy(a, d, 2 * d);
}

/// If the fraction `n / d` is within half a channel step of 0, the
/// rounded channel equals its lower endpoint `a` exactly.
proof fn lemma_interp_near_a(a: int, b: int, n: int, d: int)
    requires
        0 <= a <= 255,
        0 <= b <= 255,
        0 <= n < d,
        510 * n < d,
    ensures
        spec_interp(a, b, n, d) == a,
{
    lemma_interp_bounds(a, b, n, d);
    let v = a * d + (b - a) * n;
    if a <= b {
        assert(2 * v + d < (2 * d) * (a + 1)) by (nonlinear_arith)
            requires
                v == a * d + (b - a) * n,
                0 <= b - a <= 255,
                n >= 0,
                510 * n < d,
        ;
        vstd::arithmetic::div_mod::lemma_multiply_divide_lt(2 * v + d, 2 * d, a + 1);
    } else {
        assert(2 * v + d >= (2 * d) * a) by (nonlinear_arith)
            requires
                v == a * d + (b - a) * n,
                0 <= a - b <= 255,
                n >= 0,
                510 * n < d,
        ;
        vstd::arithmetic::div_mod::lemma_div_is_ordered((2 * d) * a, 2 * v + d, 2 * d);
        vstd::arithmetic::div_mod::lemma_div_multiples_vanish(a, 2 * d);
    }
}

/// If the fraction `n / d` is within half a channel step of 1, the
/// rounded channel equals its upper endpoint `b` exactly.
proof fn lemma_interp_near_b(a: int, b: int, n: int, d: int)
    requires
        0 <= a <= 255,
        0 <= b <= 255,
        0 <= n < d,
        510 * (d - n) < d,
    ensures
        spec_interp(a, b, n, d) == b,
{
    lemma_interp_bounds(a, b, n, d);
    let v = a * d + (b - a) * n;
    if a <= b {
        assert(2 * v + d >= (2 * d) * b) by (nonlinear_arith)
            requires
                v == a * d + (b - a) * n,
                0 <= b - a <= 255,
                0 <= n < d,
                510 * (d - n) < d,
        ;
        vstd::arithmetic::div_mod::lemma_div_is_ordered((2 * d) * b, 2 * v + d, 2 * d);
        vstd::arithmetic::div_mod::lemma_div_multiples_vanish(b, 2 * d);
    } else {
        assert(2 * v + d < (2 * d) * (b + 1)) by (nonlinear_arith)
            requires
                v == a * d + (b - a) * n,
                0 <= a - b <= 255,
                0 <= n < d,
                510 * (d - n) < d,
        ;
        vstd::arithmetic::div_mod::lemma_multiply_divide_lt(2 * v + d, 2 * d, b + 1);
    }
}

/// The control-point table spelled out entry by entry.
proof fn lemma_control_points()
    ensures
        spec_control_points().len() == 4,
        spec_control_points()[0] == (GradientPoint {
            pos_fifths: 0,
            color: RGB { r: 0x66, g: 0x00, b: 0x00 },
        }),
        spec_control_points()[1] == (GradientPoint {
            pos_fifths: 1,
            color: RGB { r: 0xff, g: 0x66, b: 0x33 },
        }),
        spec_control_points()[2] == (GradientPoint {
            pos_fifths: 3,
            color: RGB { r: 0xff, g: 0xff, b: 0x66 },
        }),
        spec_control_points()[3] == (GradientPoint {
            pos_fifths: 5,
            color: RGB { r: 0x33, g: 0xff, b: 0x66 },
        }),
{
}

/// The floors of two non-negative fractions are ordered as the
/// fractions themselves.
proof fn lemma_div_cross_monotone(a1: int, b1: int, a2: int, b2: int)
    requires
        b1 > 0,
        b2 > 0,
        a1 >= 0,
        a2 >= 0,
        a1 * b2 <= a2 * b1,
    ensures
        a1 / b1 <= a2 / b2,
{
    let q1 = a1 / b1;
    vstd::arithmetic::div_mod::lemma_fundamental_div_mod(a1, b1);
    vstd::arithmetic::div_mod::lemma_div_pos_is_pos(a1, b1);
    assert(q1 * b1 <= a1);
    assert(q1 * b2 <= a2) by (nonlinear_arith)
        requires
            q1 * b1 <= a1,
            a1 * b2 <= a2 * b1,
            b1 > 0,
            b2 > 0,
    ;
    vstd::arithmetic::div_mod::lemma_div_is_ordered(q1 * b2, a2, b2);
    vstd::arithmetic::div_mod::lemma_div_by_multiple(q1, b2);
}

/// A channel interpolated at a smaller fraction lies no further toward
/// `b` than one interpolated at a larger fraction.
proof fn lemma_interp_cross_monotone(a: int, b: int, nx: int, dx: int, ny: int, dy: int)
    requires
        0 <= a <= 255,
        0 <= b <= 255,
        0 <= nx < dx,
        0 <= ny < dy,
        nx * dy <= ny * dx,
    ensures
        a <= b ==> spec_interp(a, b, nx, dx) <= spec_interp(a, b, ny, dy),
        b <= a ==> spec_interp(a, b, ny, dy) <= spec_interp(a, b, nx, dx),
{
    let vx = a * dx + (b - a) * nx;
    let vy = a * dy + (b - a) * ny;
    if a == b {
        assert(vx == a * dx && vy == a * dy) by (nonlinear_arith)
            requires
                vx == a * dx + (b - a) * nx,
                vy == a * dy + (b - a) * ny,
                a == b,
        ;
        assert(2 * vx + dx == (2 * dx) * a + dx) by (nonlinear_arith)
            requires
                vx == a * dx,
        ;
        assert(2 * vy + dy == (2 * dy) * a + dy) by (nonlinear_arith)
            requires
                vy == a * dy,
        ;
        vstd::arithmetic::div_mod::lemma_div_multiples_vanish_fancy(a, dx, 2 * dx);
        vstd::arithmetic::div_mod::lemma_div_multiples_vanish_fancy(a, dy, 2 * dy);
    } else if a < b {
        assert((2 * vx + dx) * (2 * dy) <= (2 * vy + dy) * (2 * dx)) by (nonlinear_arith)
            requires
                vx == a * dx + (b - a) * nx,
                vy == a * dy + (b - a) * ny,
                nx * dy <= ny * dx,
                a <= b,
                dx > 0,
                dy > 0,
        ;
        assert(2 * vx + dx >= 0) by (nonlinear_arith)
            requires
                vx == a * dx + (b - a) * nx,
                0 <= a <= b,
                0 <= nx < dx,
        ;
        assert(2 * vy + dy >= 0) by (nonlinear_arith)
            requires
                vy == a * dy + (b - a) * ny,
                0 <= a <= b,
                0 <= ny < dy,
        ;
        lemma_div_cross_monotone(2 * vx + dx, 2 * dx, 2 * vy + dy, 2 * dy);
    } else {
        assert((2 * vy + dy) * (2 * dx) <= (2 * vx + dx) * (2 * dy)) by (nonlinear_arith)
            requires
                vx == a * dx + (b - a) * nx,
                vy == a * dy + (b - a) * ny,
                nx * dy <= ny * dx,
                b < a,
                dx > 0,
                dy > 0,
        ;
        assert(2 * vx + dx >= 0 && 2 * vy + dy >= 0) by (nonlinear_arith)
            requires
                vx == a * dx + (b - a) * nx,
                vy == a * dy + (b - a) * ny,
                0 <= b < a,
                0 <= nx < dx,
                0 <= ny < dy,
        ;
        lemma_div_cross_monotone(2 * vy + dy, 2 * dy, 2 * vx + dx, 2 * dx);
    }
}

/// Whether moving a channel from `c1` to `c2` goes in the direction that
/// leads from `a` to `b`.
pub open spec fn spec_chan_toward(a: int, b: int, c1: int, c2: int) -> bool {
    if a <= b {
        c1 <= c2
    } else {
        c2 <= c1
    }
}

/// Whether `c` lies between `a` and `b`, whichever order they are in.
pub open spec fn spec_chan_between(a: int, b: int, c: int) -> bool {
    if a <= b {
        a <= c <= b
    } else {
        b <= c <= a
    }
}

/// How far `x` has travelled into segment `i`: the numerator of
/// `x - p_i.pos` over the common denominator `5 * x.den`.
pub open spec fn spec_seg_num(x: Ratio, i: int) -> int {
    5 * (x.num as int) - (spec_control_points()[i].pos_fifths as int) * (x.den as int)
}

/// The span of segment `i` (from control point `i` to `i + 1`) over the
/// same common denominator `5 * x.den`.
pub open spec fn spec_seg_den(x: Ratio, i: int) -> int {
    ((spec_control_points()[i + 1].pos_fifths - spec_control_points()[i].pos_fifths) as int) * (
    x.den as int)
}

/// The gradient is flat below its range: every `x < 0` has exactly the
/// color of `0`.
pub proof fn lemma_colorize_flat_below(x: Ratio)
    requires
        x.den > 0,
        x.num < 0,
    ensures
        spec_colorize(x) == spec_colorize(Ratio { num: 0, den: 1 }),
{
    assert(spec_colorize(x) == spec_control_points()[0].color);
    let z = Ratio { num: 0, den: 1 };
    assert(!spec_below(z, 0) && spec_below(z, 1));
    lemma_interp_at_zero(0x66, 0xff, 1);
    lemma_interp_at_zero(0x00, 0x66, 1);
    lemma_interp_at_zero(0x00, 0x33, 1);
    assert(spec_colorize(z) == spec_control_points()[0].color);
}

/// The gradient is flat from the last control point on: every `x >= 1`
/// has exactly the last control point's color.
pub proof fn lemma_colorize_flat_above(x: Ratio)
    requires
        x.den > 0,
        x.num >= x.den,
    ensures
        spec_colorize(x) == spec_control_points()[3].color,
{
}

/// Between two adjacent control points the gradient interpolates: the
/// color is the segment's interpolation, and each channel lies between
/// the two endpoint channels.
pub proof fn lemma_colorize_segment(x: Ratio, i: int)
    requires
        x.den > 0,
        0 <= i < 3,
        !spec_below(x, spec_control_points()[i].pos_fifths as int),
        spec_below(x, spec_control_points()[i + 1].pos_fifths as int),
    ensures
        spec_colorize(x) == spec_segment_color(
            spec_control_points()[i],
            spec_control_points()[i + 1],
            x,
        ),
        spec_chan_between(
            spec_control_points()[i].color.r as int,
            spec_control_points()[i + 1].color.r as int,
            spec_colorize(x).r as int,
        ),
        spec_chan_between(
            spec_control_points()[i].color.g as int,
            spec_control_points()[i + 1].color.g as int,
            spec_colorize(x).g as int,
        ),
        spec_chan_between(
            spec_control_points()[i].color.b as int,
            spec_control_points()[i + 1].color.b as int,
            spec_colorize(x).b as int,
        ),
        0 <= spec_seg_num(x, i) < spec_seg_den(x, i),
{
    lemma_control_points();
    let p = spec_control_points()[i];
    let q = spec_control_points()[i + 1];
    let n = spec_seg_num(x, i);
    let d = spec_seg_den(x, i);
    if i == 0 {
        assert(0 <= n < d);
        assert(spec_colorize(x) == spec_segment_color(p, q, x));
    } else if i == 1 {
        assert(n == 5 * (x.num as int) - 1 * (x.den as int));
        assert(d == 2 * (x.den as int));
        assert(5 * (x.num as int) >= 1 * (x.den as int));
        assert(5 * (x.num as int) < 3 * (x.den as int));
        assert(0 <= n < d);
        assert(spec_colorize(x) == spec_segment_color(p, q, x));
    } else {
        assert(n == 5 * (x.num as int) - 3 * (x.den as int));
        assert(d == 2 * (x.den as int));
        assert(5 * (x.num as int) >= 3 * (x.den as int));
        assert(5 * (x.num as int) < 5 * (x.den as int));
        assert(0 <= n < d);
        assert(spec_colorize(x) == spec_segment_color(p, q, x));
    }
    lemma_interp_bounds(p.color.r as int, q.color.r as int, n, d);
    lemma_interp_bounds(p.color.g as int, q.color.g as int, n, d);
    lemma_interp_bounds(p.color.b as int, q.color.b as int, n, d);
}

/// Continuity at a segment's lower control point: within half a channel
/// step above control point `i`, the color is exactly that point's color.
pub proof fn lemma_colorize_near_lower(x: Ratio, i: int)
    requires
        x.den > 0,
        0 <= i < 3,
        !spec_below(x, spec_control_points()[i].pos_fifths as int),
        spec_below(x, spec_control_points()[i + 1].pos_fifths as int),
        510 * spec_seg_num(x, i) < spec_seg_den(x, i),
    ensures
        spec_colorize(x) == spec_control_points()[i].color,
{
    let p = spec_control_points()[i];
    let q = spec_control_points()[i + 1];
    let n = spec_seg_num(x, i);
    let d = spec_seg_den(x, i);
    lemma_colorize_segment(x, i);
    lemma_interp_near_a(p.color.r as int, q.color.r as int, n, d);
    lemma_interp_near_a(p.color.g as int, q.color.g as int, n, d);
    lemma_interp_near_a(p.color.b as int, q.color.b as int, n, d);
}

/// Continuity at a segment's upper control point: within half a channel
/// step below control point `i + 1`, the color is exactly that point's
/// color (and at the point itself the next segment starts there exactly).
pub proof fn lemma_colorize_near_upper(x: Ratio, i: int)
    requires
        x.den > 0,
        0 <= i < 3,
        !spec_below(x, spec_control_points()[i].pos_fifths as int),
        spec_below(x, spec_control_points()[i + 1].pos_fifths as int),
        510 * (spec_seg_den(x, i) - spec_seg_num(x, i)) < spec_seg_den(x, i),
    ensures
        spec_colorize(x) == spec_control_points()[i + 1].color,
{
    let p = spec_control_points()[i];
    let q = spec_control_points()[i + 1];
    let n = spec_seg_num(x, i);
    let d = spec_seg_den(x, i);
    lemma_colorize_segment(x, i);
    lemma_interp_near_b(p.color.r as int, q.color.r as int, n, d);
    lemma_interp_near_b(p.color.g as int, q.color.g as int, n, d);
    lemma_interp_near_b(p.color.b as int, q.color.b as int, n, d);
}

/// Within one segment the gradient is monotone channel-wise: of two
/// points of the segment with `x <= y` (compared as fractions), the
/// color at `y` lies at least as far toward the upper control point's
/// color as the color at `x`, in every channel.
pub proof fn lemma_colorize_monotone(x: Ratio, y: Ratio, i: int)
    requires
        x.den > 0,
        y.den > 0,
        0 <= i < 3,
        !spec_below(x, spec_control_points()[i].pos_fifths as int),
        spec_below(x, spec_control_points()[i + 1].pos_fifths as int),
        !spec_below(y, spec_control_points()[i].pos_fifths as int),
        spec_below(y, spec_control_points()[i + 1].pos_fifths as int),
        (x.num as int) * (y.den as int) <= (y.num as int) * (x.den as int),
    ensures
        spec_chan_toward(
            spec_control_points()[i].color.r as int,
            spec_control_points()[i + 1].color.r as int,
            spec_colorize(x).r as int,
            spec_colorize(y).r as int,
        ),
        spec_chan_toward(
            spec_control_points()[i].color.g as int,
            spec_control_points()[i + 1].color.g as int,
            spec_colorize(x).g as int,
            spec_colorize(y).g as int,
        ),
        spec_chan_toward(
            spec_control_points()[i].color.b as int,
            spec_control_points()[i + 1].color.b as int,
            spec_colorize(x).b as int,
            spec_colorize(y).b as int,
        ),
{
    lemma_control_points();
    lemma_colorize_segment(x, i);
    lemma_colorize_segment(y, i);
    let p = spec_control_points()[i];
    let q = spec_control_points()[i + 1];
    let nx = spec_seg_num(x, i);
    let dx = spec_seg_den(x, i);
    let ny = spec_seg_num(y, i);
    let dy = spec_seg_den(y, i);
    if i == 0 {
        assert(p.pos_fifths < q.pos_fifths);
    } else if i == 1 {
        assert(p.pos_fifths < q.pos_fifths);
    } else {
        assert(p.pos_fifths < q.pos_fifths);
    }
    assert(nx * dy <= ny * dx) by (nonlinear_arith)
        requires
            nx == 5 * (x.num as int) - (p.pos_fifths as int) * (x.den as int),
            dx == ((q.pos_fifths - p.pos_fifths) as int) * (x.den as int),
            ny == 5 * (y.num as int) - (p.pos_fifths as int) * (y.den as int),
            dy == ((q.pos_fifths - p.pos_fifths) as int) * (y.den as int),
            p.pos_fifths < q.pos_fifths,
            (x.num as int) * (y.den as int) <= (y.num as int) * (x.den as int),
            x.den > 0,
            y.den > 0,
    ;
    lemma_interp_bounds(p.color.r as int, q.color.r as int, nx, dx);
    lemma_interp_bounds(p.color.g as int, q.color.g as int, nx, dx);
    lemma_interp_bounds(p.color.b as int, q.color.b as int, nx, dx);
    lemma_interp_bounds(p.color.r as int, q.color.r as int, ny, dy);
    lemma_interp_bounds(p.color.g as int, q.color.g as int, ny, dy);
    lemma_interp_bounds(p.color.b as int, q.color.b as int, ny, dy);
    lemma_interp_cross_monotone(p.color.r as int, q.color.r as int, nx, dx, ny, dy);
    lemma_interp_cross_monotone(p.color.g as int, q.color.g as int, nx, dx, ny, dy);
    lemma_interp_cross_monotone(p.color.b as int, q.color.b as int, nx, dx, ny, dy);
}

} // verus!
