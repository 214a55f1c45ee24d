//! Rotations of the plane, held exactly.
//!
//! A rotation is held as the direction it turns the positive x axis into:
//! the cosine and the sine of its angle, each as a count of millionths.
//! Adding two angles is composing two rotations, negating an angle is taking
//! the inverse, and the angle of a vector is the rotation toward it, so the
//! editor never needs the angle itself.

use vstd::prelude::*;
use crate::fixed::{
    UNIT, magnitude, trunc_div, floor_sqrt, is_floor_sqrt, lemma_trunc_div_bounds,
    lemma_trunc_div_exact, lemma_trunc_div_remainder, lemma_floor_sqrt_exists,
    lemma_floor_sqrt_is, integer_sqrt, div_toward_zero,
};

verus! {

/// A vector with both components below this is short: before its direction
/// is taken it is made this many times longer, so that rounding its length
/// to a whole number matters as little as for a long one.
pub const ZOOM: i64 = 0x8000_0000;

/// How far the square of the length of a rotation may be from one: five
/// millionths.
pub const NORM_SLACK: i64 = 5_000_000;

/// A rotation about an object's position.
#[derive(Clone, Copy, Debug, PartialEq, Eq, Structural)]
pub struct Rotation {
    /// Cosine of the angle, in millionths.
    pub cos: i64,
    /// Sine of the angle, in millionths.
    pub sin: i64,
}

/// The mathematical value of a [`Rotation`].
pub struct Direction {
    pub cos: int,
    pub sin: int,
}

impl View for Rotation {
    type V = Direction;

    open spec fn view(&self) -> Direction {
        Direction { cos: self.cos as int, sin: self.sin as int }
    }
}

impl Direction {
    /// The square of the length, in millionths of millionths.
    pub open spec fn norm_squared(self) -> int {
        self.cos * self.cos + self.sin * self.sin
    }

    /// Neither component exceeds one in magnitude, and the length is one
    /// as far as millionths can tell.
    pub open spec fn wf(self) -> bool {
        &&& -UNIT <= self.cos <= UNIT
        &&& -UNIT <= self.sin <= UNIT
        &&& UNIT * UNIT - NORM_SLACK <= self.norm_squared() <= UNIT * UNIT + NORM_SLACK
    }

    /// The rotation by no angle.
    pub open spec fn identity() -> Direction {
        Direction { cos: UNIT as int, sin: 0 }
    }

    /// The rotation by the opposite angle.
    pub open spec fn inverse(self) -> Direction {
        Direction { cos: self.cos, sin: -self.sin }
    }

    /// By how much the vector `(dx, dy)` is made longer before its
    /// direction is taken.
    pub open spec fn zoom(dx: int, dy: int) -> int {
        if magnitude(dx) < ZOOM && magnitude(dy) < ZOOM {
            ZOOM as int
        } else {
            1
        }
    }

    /// The rotation that turns the positive x axis toward the vector
    /// `(dx, dy)`: the vector divided by its length. The zero vector has no
    /// direction and gives the identity.
    pub open spec fn toward(dx: int, dy: int) -> Direction {
        if dx == 0 && dy == 0 {
            Direction::identity()
        } else {
            let x = Direction::zoom(dx, dy) * dx;
            let y = Direction::zoom(dx, dy) * dy;
            let length = floor_sqrt(x * x + y * y);
            Direction { cos: trunc_div(x * UNIT, length), sin: trunc_div(y * UNIT, length) }
        }
    }

    /// The rotation by the sum of both angles: the direction of the complex
    /// product of the two.
    pub open spec fn compose(self, other: Direction) -> Direction {
        Direction::toward(
            self.cos * other.cos - self.sin * other.sin,
            self.sin * other.cos + self.cos * other.sin,
        )
    }

    /// The vector `(dx, dy)` turned by the opposite angle.
    pub open spec fn unrotate(self, dx: int, dy: int) -> (int, int) {
        (
            trunc_div(dx * self.cos + dy * self.sin, UNIT as int),
            trunc_div(dy * self.cos - dx * self.sin, UNIT as int),
        )
    }
}

/// The length of a vector that is not zero is at least one and at least the
/// magnitude of either component.
pub proof fn lemma_length_dominates(dx: int, dy: int, length: int)
    requires
        dx != 0 || dy != 0,
        is_floor_sqrt(dx * dx + dy * dy, length),
    ensures
        length >= 1,
        -length <= dx <= length,
        -length <= dy <= length,
{
    assert(dx * dx >= 0 && dy * dy >= 0) by (nonlinear_arith);
    assert(dx * dx + dy * dy >= 1) by (nonlinear_arith)
        requires
            dx != 0 || dy != 0,
    ;
    let l1 = length + 1;
    assert(-l1 < dx < l1) by (nonlinear_arith)
        requires
            l1 >= 1,
            l1 * l1 > dx * dx,
    ;
    assert(-l1 < dy < l1) by (nonlinear_arith)
        requires
            l1 >= 1,
            l1 * l1 > dy * dy,
    ;
}

/// A component no longer than the length, scaled by one and divided by the
/// length, is at most one in magnitude.
pub proof fn lemma_scaled_quotient_bounds(d: int, length: int)
    requires
        length >= 1,
        -length <= d <= length,
    ensures
        -UNIT <= trunc_div(d * UNIT, length) <= UNIT,
{
    assert(-(UNIT as int) * length <= d * UNIT <= UNIT * length) by (nonlinear_arith)
        requires
            -length <= d <= length,
    ;
    lemma_trunc_div_bounds(d * UNIT, length, UNIT as int);
}

/// Of two numbers that are not negative, the larger has the larger square.
pub proof fn lemma_square_is_monotonic(a: int, b: int)
    requires
        0 <= a <= b,
    ensures
        a * a <= b * b,
{
    assert(a * a <= b * b) by (nonlinear_arith)
        requires
            0 <= a <= b,
    ;
}

/// Of two different numbers that are not negative, the larger has the
/// larger square.
pub proof fn lemma_square_is_strictly_monotonic(a: int, b: int)
    requires
        0 <= a < b,
    ensures
        a * a < b * b,
{
    assert(a * a < b * b) by (nonlinear_arith)
        requires
            0 <= a < b,
    ;
}

/// A vector divided by its rounded length is the direction of the vector,
/// as far as millionths can tell: its components lie on the same side of
/// zero as those of the vector; it is parallel to the vector, the cross
/// product of the two being less than the rounding of one component
/// allows; it is no longer than the vector is against the rounded length;
/// and it is longer than one once each component is a millionth larger.
pub proof fn lemma_quotient_is_the_direction(x: int, y: int, length: int)
    requires
        x != 0 || y != 0,
        is_floor_sqrt(x * x + y * y, length),
    ensures
        ({
            let c = trunc_div(x * UNIT, length);
            let s = trunc_div(y * UNIT, length);
            &&& -UNIT <= c <= UNIT
            &&& -UNIT <= s <= UNIT
            &&& x >= 0 ==> c >= 0
            &&& x <= 0 ==> c <= 0
            &&& y >= 0 ==> s >= 0
            &&& y <= 0 ==> s <= 0
            &&& magnitude(c * y - s * x) < magnitude(x) + magnitude(y)
            &&& length * length * (c * c + s * s) <= UNIT * UNIT * (x * x + y * y)
            &&& (magnitude(c) + 1) * (magnitude(c) + 1) + (magnitude(s) + 1) * (magnitude(s) + 1)
                > UNIT * UNIT
        }),
{
    let n = length;
    let u = UNIT as int;
    lemma_length_dominates(x, y, n);
    lemma_scaled_quotient_bounds(x, n);
    lemma_scaled_quotient_bounds(y, n);
    let c = trunc_div(x * u, n);
    let s = trunc_div(y * u, n);
    lemma_trunc_div_remainder(x * u, n);
    lemma_trunc_div_remainder(y * u, n);
    let r1 = x * u - c * n;
    let r2 = y * u - s * n;
    // Parallel: n * (c * y - s * x) == r2 * x - r1 * y.
    let cross = c * y - s * x;
    assert(n * cross == r2 * x - r1 * y) by (nonlinear_arith)
        requires
            cross == c * y - s * x,
            r1 == x * u - c * n,
            r2 == y * u - s * n,
    ;
    let mx = magnitude(x);
    let my = magnitude(y);
    assert(-(n * mx) <= r2 * x <= n * mx) by (nonlinear_arith)
        requires
            -n < r2 < n,
            mx >= 0,
            x == mx || x == -mx,
    ;
    assert(-(n * my) <= r1 * y <= n * my) by (nonlinear_arith)
        requires
            -n < r1 < n,
            my >= 0,
            y == my || y == -my,
    ;
    if x == 0 {
        assert(r2 * x == 0) by (nonlinear_arith)
            requires
                x == 0,
        ;
        assert(-(n * my) < r1 * y < n * my) by (nonlinear_arith)
            requires
                -n < r1 < n,
                my > 0,
                y == my || y == -my,
        ;
    } else {
        assert(-(n * mx) < r2 * x < n * mx) by (nonlinear_arith)
            requires
                -n < r2 < n,
                mx > 0,
                x == mx || x == -mx,
        ;
    }
    assert(-(mx + my) < cross < mx + my) by (nonlinear_arith)
        requires
            n >= 1,
            -(n * mx) - n * my < n * cross < n * mx + n * my,
    ;
    // No longer than the vector against the rounded length.
    let mc = magnitude(c);
    let ms = magnitude(s);
    assert(c * c == mc * mc && s * s == ms * ms) by (nonlinear_arith)
        requires
            c == mc || c == -mc,
            s == ms || s == -ms,
    ;
    assert(x * x == mx * mx && y * y == my * my) by (nonlinear_arith)
        requires
            x == mx || x == -mx,
            y == my || y == -my,
    ;
    assert(mc * n <= mx * u < (mc + 1) * n) by (nonlinear_arith)
        requires
            n >= 1,
            mc >= 0,
            mx >= 0,
            (x >= 0 && c >= 0 && mc == c && mx == x && 0 <= x * u - c * n < n) || (x <= 0 && c <= 0
                && mc == -c && mx == -x && -n < x * u - c * n <= 0),
    ;
    assert(ms * n <= my * u < (ms + 1) * n) by (nonlinear_arith)
        requires
            n >= 1,
            ms >= 0,
            my >= 0,
            (y >= 0 && s >= 0 && ms == s && my == y && 0 <= y * u - s * n < n) || (y <= 0 && s <= 0
                && ms == -s && my == -y && -n < y * u - s * n <= 0),
    ;
    lemma_square_is_monotonic(mc * n, mx * u);
    lemma_square_is_monotonic(ms * n, my * u);
    lemma_square_is_strictly_monotonic(mx * u, (mc + 1) * n);
    lemma_square_is_strictly_monotonic(my * u, (ms + 1) * n);
    assert(n * n * (c * c + s * s) == (mc * n) * (mc * n) + (ms * n) * (ms * n))
        by (nonlinear_arith)
        requires
            c * c == mc * mc,
            s * s == ms * ms,
    ;
    assert(u * u * (x * x + y * y) == (mx * u) * (mx * u) + (my * u) * (my * u))
        by (nonlinear_arith)
        requires
            x * x == mx * mx,
            y * y == my * my,
    ;
    // Longer than one once each component is a millionth larger.
    let big = (mc + 1) * (mc + 1) + (ms + 1) * (ms + 1);
    assert(n * n * big == ((mc + 1) * n) * ((mc + 1) * n) + ((ms + 1) * n) * ((ms + 1) * n))
        by (nonlinear_arith)
        requires
            big == (mc + 1) * (mc + 1) + (ms + 1) * (ms + 1),
    ;
    assert(n * n * big > u * u * (x * x + y * y));
    assert(u * u * (x * x + y * y) >= u * u * (n * n)) by (nonlinear_arith)
        requires
            x * x + y * y >= n * n,
            u >= 0,
    ;
    assert(big > u * u) by (nonlinear_arith)
        requires
            n >= 1,
            n * n * big > u * u * (n * n),
    ;
}

/// A vector of a rounded length of `ZOOM` or more, divided by that length,
/// has the length one within the slack.
pub proof fn lemma_quotient_is_unit(x: int, y: int, length: int)
    requires
        is_floor_sqrt(x * x + y * y, length),
        length >= ZOOM,
    ensures
        ({
            let c = trunc_div(x * UNIT, length);
            let s = trunc_div(y * UNIT, length);
            UNIT * UNIT - NORM_SLACK <= c * c + s * s <= UNIT * UNIT + NORM_SLACK
        }),
{
    let n = length;
    let u = UNIT as int;
    let c = trunc_div(x * u, n);
    let s = trunc_div(y * u, n);
    let q = c * c + s * s;
    if x == 0 && y == 0 {
        assert(x * x + y * y == 0) by (nonlinear_arith)
            requires
                x == 0,
                y == 0,
        ;
        assert(n * n > 0) by (nonlinear_arith)
            requires
                n >= 1,
        ;
    }
    lemma_quotient_is_the_direction(x, y, n);
    let mc = magnitude(c);
    let ms = magnitude(s);
    // From below.
    assert((mc + 1) * (mc + 1) + (ms + 1) * (ms + 1) == q + 2 * mc + 2 * ms + 2)
        by (nonlinear_arith)
        requires
            q == c * c + s * s,
            c == mc || c == -mc,
            s == ms || s == -ms,
    ;
    // From above.
    let total = x * x + y * y;
    assert((n + 1) * (n + 1) == n * n + 2 * n + 1) by (nonlinear_arith);
    assert(u * u * total <= u * u * (n * n + 2 * n)) by (nonlinear_arith)
        requires
            total <= n * n + 2 * n,
            u >= 0,
    ;
    assert(n * (n * (q - u * u)) <= n * (2 * (u * u))) by (nonlinear_arith)
        requires
            n * n * q <= u * u * total,
            u * u * total <= u * u * (n * n + 2 * n),
    ;
    assert(n * (q - u * u) <= 2 * (u * u)) by (nonlinear_arith)
        requires
            n >= 1,
            n * (n * (q - u * u)) <= n * (2 * (u * u)),
    ;
    assert(q - u * u <= 5_000_000) by (nonlinear_arith)
        requires
            n >= 0x8000_0000,
            u == 1_000_000,
            n * (q - u * u) <= 2 * (u * u),
    ;
}

/// The vector whose direction is taken, after it was made longer, has a
/// rounded length of `ZOOM` or more.
pub proof fn lemma_zoomed_is_long(dx: int, dy: int)
    requires
        dx != 0 || dy != 0,
    ensures
        ({
            let x = Direction::zoom(dx, dy) * dx;
            let y = Direction::zoom(dx, dy) * dy;
            let length = floor_sqrt(x * x + y * y);
            &&& x != 0 || y != 0
            &&& is_floor_sqrt(x * x + y * y, length)
            &&& length >= ZOOM
            &&& magnitude(x) == Direction::zoom(dx, dy) * magnitude(dx)
            &&& magnitude(y) == Direction::zoom(dx, dy) * magnitude(dy)
            &&& Direction::zoom(dx, dy) >= 1
            &&& dx >= 0 ==> x >= 0
            &&& dx <= 0 ==> x <= 0
            &&& dy >= 0 ==> y >= 0
            &&& dy <= 0 ==> y <= 0
        }),
{
    let k = Direction::zoom(dx, dy);
    let x = k * dx;
    let y = k * dy;
    if magnitude(dx) < ZOOM && magnitude(dy) < ZOOM {
        assert(x == 0x8000_0000 * dx && y == 0x8000_0000 * dy);
    } else {
        assert(x == dx && y == dy);
    }
    assert(x * x + y * y >= 0) by (nonlinear_arith);
    lemma_floor_sqrt_exists(x * x + y * y);
    lemma_length_dominates(x, y, floor_sqrt(x * x + y * y));
}

/// The rotation toward a vector is the direction of that vector, as far as
/// millionths can tell: its cosine and sine lie on the same side of zero
/// as the components of the vector; it is parallel to the vector, the
/// cross product of the two being less than the rounding of one component
/// allows; and its length is one within the slack.
pub proof fn lemma_toward_is_the_direction(dx: int, dy: int)
    requires
        dx != 0 || dy != 0,
    ensures
        ({
            let r = Direction::toward(dx, dy);
            &&& dx >= 0 ==> r.cos >= 0
            &&& dx <= 0 ==> r.cos <= 0
            &&& dy >= 0 ==> r.sin >= 0
            &&& dy <= 0 ==> r.sin <= 0
            &&& magnitude(r.cos * dy - r.sin * dx) < magnitude(dx) + magnitude(dy)
            &&& UNIT * UNIT - NORM_SLACK <= r.norm_squared() <= UNIT * UNIT + NORM_SLACK
        }),
{
    let k = Direction::zoom(dx, dy);
    let x = k * dx;
    let y = k * dy;
    let n = floor_sqrt(x * x + y * y);
    lemma_zoomed_is_long(dx, dy);
    lemma_quotient_is_the_direction(x, y, n);
    lemma_quotient_is_unit(x, y, n);
    let r = Direction::toward(dx, dy);
    let cross = r.cos * dy - r.sin * dx;
    let zoomed_cross = r.cos * y - r.sin * x;
    assert(zoomed_cross == k * cross) by (nonlinear_arith)
        requires
            x == k * dx,
            y == k * dy,
            cross == r.cos * dy - r.sin * dx,
            zoomed_cross == r.cos * y - r.sin * x,
    ;
    let reach = magnitude(dx) + magnitude(dy);
    assert(magnitude(x) + magnitude(y) == k * reach) by (nonlinear_arith)
        requires
            magnitude(x) == k * magnitude(dx),
            magnitude(y) == k * magnitude(dy),
            reach == magnitude(dx) + magnitude(dy),
    ;
    assert(-reach < cross < reach) by (nonlinear_arith)
        requires
            k >= 1,
            -(k * reach) < k * cross < k * reach,
    ;
}

/// The rotation toward any vector is well formed.
pub proof fn lemma_toward_wf(dx: int, dy: int)
    ensures
        Direction::toward(dx, dy).wf(),
{
    if dx != 0 || dy != 0 {
        let k = Direction::zoom(dx, dy);
        lemma_zoomed_is_long(dx, dy);
        let x = k * dx;
        let y = k * dy;
        lemma_quotient_is_the_direction(x, y, floor_sqrt(x * x + y * y));
        lemma_toward_is_the_direction(dx, dy);
    }
}

/// The inverse of a well-formed rotation is well formed.
pub proof fn lemma_inverse_wf(r: Direction)
    requires
        r.wf(),
    ensures
        r.inverse().wf(),
        r.inverse().norm_squared() == r.norm_squared(),
{
    assert((-r.sin) * (-r.sin) == r.sin * r.sin) by (nonlinear_arith);
}

/// Turning by an angle and then by the opposite angle is not turning at all.
pub proof fn lemma_compose_with_inverse(r: Direction)
    requires
        r.wf(),
    ensures
        r.compose(r.inverse()) == Direction::identity(),
        r.inverse().compose(r) == Direction::identity(),
{
    let x = r.norm_squared();
    assert(r.cos * r.cos - r.sin * (-r.sin) == x) by (nonlinear_arith)
        requires
            x == r.cos * r.cos + r.sin * r.sin,
    ;
    assert(r.sin * r.cos + r.cos * (-r.sin) == 0) by (nonlinear_arith);
    assert((-r.sin) * r.cos + r.cos * r.sin == 0) by (nonlinear_arith);
    lemma_toward_the_positive_x_axis(x);
}

/// The rotation toward a point on the positive x axis is the identity.
pub proof fn lemma_toward_the_positive_x_axis(x: int)
    requires
        x > 0,
    ensures
        Direction::toward(x, 0) == Direction::identity(),
{
    let k = Direction::zoom(x, 0);
    let zoomed = k * x;
    assert(zoomed > 0 && k * 0 == 0) by (nonlinear_arith)
        requires
            k >= 1,
            x > 0,
            zoomed == k * x,
    ;
    assert(zoomed * zoomed + 0 * 0 == zoomed * zoomed);
    assert(is_floor_sqrt(zoomed * zoomed, zoomed)) by (nonlinear_arith)
        requires
            zoomed > 0,
    ;
    lemma_floor_sqrt_is(zoomed * zoomed, zoomed);
    lemma_trunc_div_exact(UNIT as int, zoomed);
    assert(zoomed * UNIT == UNIT * zoomed) by (nonlinear_arith);
    assert(trunc_div(0 * UNIT, zoomed) == 0) by (nonlinear_arith)
        requires
            zoomed > 0,
    ;
}

/// Turning a vector keeps its length: before the millionths are rounded
/// away, the square of the length of the turned vector is that of the
/// vector times that of the rotation, which is one within the slack.
pub proof fn lemma_unrotate_keeps_length(r: Direction, dx: int, dy: int)
    requires
        r.wf(),
    ensures
        ({
            let along = dx * r.cos + dy * r.sin;
            let across = dy * r.cos - dx * r.sin;
            let square = dx * dx + dy * dy;
            &&& r.unrotate(dx, dy) == (
                trunc_div(along, UNIT as int),
                trunc_div(across, UNIT as int),
            )
            &&& along * along + across * across == square * r.norm_squared()
            &&& (UNIT * UNIT - NORM_SLACK) * square <= along * along + across * across <= (UNIT
                * UNIT + NORM_SLACK) * square
        }),
{
    let c = r.cos;
    let s = r.sin;
    let along = dx * c + dy * s;
    let across = dy * c - dx * s;
    let square = dx * dx + dy * dy;
    let norm = c * c + s * s;
    let p = dx * c;
    let q = dy * s;
    let t = dy * c;
    let w = dx * s;
    assert(along * along == p * p + 2 * (p * q) + q * q) by (nonlinear_arith)
        requires
            along == p + q,
    ;
    assert(across * across == t * t - 2 * (t * w) + w * w) by (nonlinear_arith)
        requires
            across == t - w,
    ;
    assert(p * q == t * w) by (nonlinear_arith)
        requires
            p == dx * c,
            q == dy * s,
            t == dy * c,
            w == dx * s,
    ;
    assert(p * p == (dx * dx) * (c * c)) by (nonlinear_arith)
        requires
            p == dx * c,
    ;
    assert(q * q == (dy * dy) * (s * s)) by (nonlinear_arith)
        requires
            q == dy * s,
    ;
    assert(t * t == (dy * dy) * (c * c)) by (nonlinear_arith)
        requires
            t == dy * c,
    ;
    assert(w * w == (dx * dx) * (s * s)) by (nonlinear_arith)
        requires
            w == dx * s,
    ;
    let xx = dx * dx;
    let yy = dy * dy;
    let cc = c * c;
    let ss = s * s;
    assert((xx + yy) * (cc + ss) == xx * cc + yy * ss + yy * cc + xx * ss) by (nonlinear_arith);
    assert(along * along + across * across == square * norm);
    assert(square >= 0) by (nonlinear_arith)
        requires
            square == dx * dx + dy * dy,
    ;
    let low = UNIT * UNIT - NORM_SLACK;
    let high = UNIT * UNIT + NORM_SLACK;
    assert(low * square <= square * norm <= high * square) by (nonlinear_arith)
        requires
            square >= 0,
            low <= norm <= high,
    ;
}

/// Every rotation leaves the zero vector where it is.
pub proof fn lemma_unrotate_zero(r: Direction)
    ensures
        r.unrotate(0, 0) == (0int, 0int),
{
}

/// Under the identity a vector stays as it is.
pub proof fn lemma_unrotate_identity(dx: int, dy: int)
    ensures
        Direction::identity().unrotate(dx, dy) == (dx, dy),
{
    let u = UNIT as int;
    lemma_trunc_div_exact(dx, u);
    lemma_trunc_div_exact(dy, u);
}

/// The product of two components is at most one (in millionths of
/// millionths) in magnitude.
pub proof fn lemma_product_bounds(a: int, b: int)
    requires
        -UNIT <= a <= UNIT,
        -UNIT <= b <= UNIT,
    ensures
        -UNIT * UNIT <= a * b <= UNIT * UNIT,
{
    assert(-1_000_000 * 1_000_000 <= a * b <= 1_000_000 * 1_000_000) by (nonlinear_arith)
        requires
            -1_000_000 <= a <= 1_000_000,
            -1_000_000 <= b <= 1_000_000,
    ;
}

/// A length times a cosine or sine is at most the length in magnitude.
pub proof fn lemma_component_product(v: int, k: int)
    requires
        -UNIT <= k <= UNIT,
    ensures
        -(magnitude(v) * UNIT) <= v * k <= magnitude(v) * UNIT,
{
    let a = magnitude(v);
    assert(-(a * 1_000_000) <= v * k <= a * 1_000_000) by (nonlinear_arith)
        requires
            -1_000_000 <= k <= 1_000_000,
            a >= 0,
            v == a || v == -a,
    ;
}

impl Rotation {
    /// Neither component exceeds one in magnitude, and the length is one
    /// as far as millionths can tell.
    pub open spec fn wf(&self) -> bool {
        self@.wf()
    }

    /// Whether the rotation is well formed.
    pub fn is_wf(&self) -> (ok: bool)
        ensures
            ok == self.wf(),
    {
        if -UNIT <= self.cos && self.cos <= UNIT && -UNIT <= self.sin && self.sin <= UNIT {
            proof {
                lemma_product_bounds(self.cos as int, self.cos as int);
                lemma_product_bounds(self.sin as int, self.sin as int);
            }
            let square: i64 = self.cos * self.cos + self.sin * self.sin;
            UNIT * UNIT - NORM_SLACK <= square && square <= UNIT * UNIT + NORM_SLACK
        } else {
            false
        }
    }

    /// The rotation by no angle.
    pub fn identity() -> (r: Rotation)
        ensures
            r@ == Direction::identity(),
            r.wf(),
    {
        Rotation { cos: UNIT, sin: 0 }
    }

    /// The rotation by the opposite angle.
    pub fn inverse(&self) -> (r: Rotation)
        requires
            self.wf(),
        ensures
            r@ == self@.inverse(),
            r.wf(),
    {
        proof {
            lemma_inverse_wf(self@);
        }
        Rotation { cos: self.cos, sin: -self.sin }
    }

    /// The rotation that turns the positive x axis toward `(dx, dy)`.
    pub fn toward(dx: i64, dy: i64) -> (r: Rotation)
        ensures
            r@ == Direction::toward(dx as int, dy as int),
            r.wf(),
    {
        if dx == 0 && dy == 0 {
            return Rotation::identity();
        }
        let short: bool = -ZOOM < dx && dx < ZOOM && -ZOOM < dy && dy < ZOOM;
        let x: i128 = if short {
            dx as i128 * 0x8000_0000
        } else {
            dx as i128
        };
        let y: i128 = if short {
            dy as i128 * 0x8000_0000
        } else {
            dy as i128
        };
        proof {
            if short {
                assert(Direction::zoom(dx as int, dy as int) == 0x8000_0000);
            } else {
                assert(Direction::zoom(dx as int, dy as int) == 1);
            }
            lemma_toward_wf(dx as int, dy as int);
        }
        assert(0 <= x * x <= 0x8000_0000_0000_0000 * 0x8000_0000_0000_0000) by (nonlinear_arith)
            requires
                -0x8000_0000_0000_0000 <= x <= 0x8000_0000_0000_0000,
        ;
        assert(0 <= y * y <= 0x8000_0000_0000_0000 * 0x8000_0000_0000_0000) by (nonlinear_arith)
            requires
                -0x8000_0000_0000_0000 <= y <= 0x8000_0000_0000_0000,
        ;
        let xx: u128 = (x * x) as u128;
        let yy: u128 = (y * y) as u128;
        let length: u128 = integer_sqrt(xx + yy);
        proof {
            lemma_length_dominates(x as int, y as int, length as int);
            lemma_scaled_quotient_bounds(x as int, length as int);
            lemma_scaled_quotient_bounds(y as int, length as int);
        }
        let c: i128 = div_toward_zero(x * 1_000_000, length as i128);
        let s: i128 = div_toward_zero(y * 1_000_000, length as i128);
        Rotation { cos: c as i64, sin: s as i64 }
    }

    /// The rotation by the sum of both angles.
    pub fn compose(&self, other: &Rotation) -> (r: Rotation)
        requires
            self.wf(),
            other.wf(),
        ensures
            r@ == self@.compose(other@),
            r.wf(),
    {
        let a: i64 = self.cos;
        let b: i64 = self.sin;
        let c: i64 = other.cos;
        let d: i64 = other.sin;
        proof {
            lemma_product_bounds(a as int, c as int);
            lemma_product_bounds(b as int, d as int);
            lemma_product_bounds(b as int, c as int);
            lemma_product_bounds(a as int, d as int);
        }
        Rotation::toward(a * c - b * d, b * c + a * d)
    }

    /// The vector `(dx, dy)` turned by the opposite angle.
    pub fn unrotate(&self, dx: i64, dy: i64) -> (r: (i64, i64))
        requires
            self.wf(),
            -0x2000_0000_0000_0000 <= dx <= 0x2000_0000_0000_0000,
            -0x2000_0000_0000_0000 <= dy <= 0x2000_0000_0000_0000,
        ensures
            (r.0 as int, r.1 as int) == self@.unrotate(dx as int, dy as int),
            magnitude(r.0 as int) <= magnitude(dx as int) + magnitude(dy as int),
            magnitude(r.1 as int) <= magnitude(dx as int) + magnitude(dy as int),
    {
        let x: i128 = dx as i128;
        let y: i128 = dy as i128;
        let c: i128 = self.cos as i128;
        let s: i128 = self.sin as i128;
        proof {
            lemma_component_product(x as int, c as int);
            lemma_component_product(y as int, s as int);
            lemma_component_product(y as int, c as int);
            lemma_component_product(x as int, s as int);
            let m = magnitude(x as int) + magnitude(y as int);
            lemma_trunc_div_bounds(x * c + y * s, UNIT as int, m);
            lemma_trunc_div_bounds(y * c - x * s, UNIT as int, m);
        }
        let along: i128 = x * c + y * s;
        let across: i128 = y * c - x * s;
        let lx: i128 = div_toward_zero(along, UNIT as i128);
        let ly: i128 = div_toward_zero(across, UNIT as i128);
        (lx as i64, ly as i64)
    }
}

} // verus!
