//! Fixed-point plane vectors.
//!
//! A [`Vec2`] holds its components in thousandths, so a vector of length one
//! has a length of `UNIT`. Scaling a `Vec2` by a factor, itself in
//! thousandths, gives an [`Actuation`] in millionths: products are kept
//! exact instead of being rounded back.

use vstd::prelude::*;

verus! {

/// The fixed-point representation of one.
pub const UNIT: i32 = 1000;

/// A vector of the mathematical plane with integer components.
pub struct Vector {
    pub x: int,
    pub y: int,
}

/// `r` is the integer square root of `n`: the largest integer whose square
/// does not exceed `n`.
pub open spec fn is_int_sqrt(r: int, n: int) -> bool {
    0 <= r && r * r <= n < (r + 1) * (r + 1)
}

/// The integer square root of `n`, for `n >= 0`.
pub open spec fn int_sqrt(n: int) -> int {
    choose|r: int| is_int_sqrt(r, n)
}

/// The quotient of `a` by a positive `b`, rounded towards zero.
pub open spec fn div_towards_zero(a: int, b: int) -> int {
    if a >= 0 {
        a / b
    } else {
        -((-a) / b)
    }
}

impl Vector {
    /// The vector without length.
    pub open spec fn zero() -> Vector {
        Vector { x: 0, y: 0 }
    }

    /// Both components are zero.
    pub open spec fn is_zero(self) -> bool {
        self.x == 0 && self.y == 0
    }

    /// Both components multiplied by `factor`.
    pub open spec fn scale(self, factor: int) -> Vector {
        Vector { x: self.x * factor, y: self.y * factor }
    }

    /// The square of the length.
    pub open spec fn norm_squared(self) -> int {
        self.x * self.x + self.y * self.y
    }

    /// The length in thousandths of the vector's own unit, rounded down.
    pub open spec fn norm_in_thousandths(self) -> int {
        int_sqrt(self.norm_squared() * UNIT * UNIT)
    }

    /// The vector of length `UNIT` that points the same way, each component
    /// rounded towards zero; the zero vector stays as it is.
    pub open spec fn normalize(self) -> Vector {
        if self.is_zero() {
            self
        } else {
            Vector {
                x: div_towards_zero(self.x * UNIT * UNIT, self.norm_in_thousandths()),
                y: div_towards_zero(self.y * UNIT * UNIT, self.norm_in_thousandths()),
            }
        }
    }

    /// A direction: a vector of length `UNIT`, up to the rounding of its
    /// components. It is shorter than `UNIT + 1`, and with each component
    /// one step further from zero it would be longer than `UNIT`. So it is
    /// not zero, and no component lies beyond `UNIT`.
    pub open spec fn is_direction(self) -> bool {
        &&& !self.is_zero()
        &&& -UNIT <= self.x <= UNIT
        &&& -UNIT <= self.y <= UNIT
        &&& self.norm_squared() < (UNIT + 1) * (UNIT + 1)
        &&& (abs(self.x) + 1) * (abs(self.x) + 1) + (abs(self.y) + 1) * (abs(self.y) + 1) > UNIT
            * UNIT
    }
}

/// Every natural number has an integer square root.
pub proof fn lemma_int_sqrt_exists(n: int)
    requires
        n >= 0,
    ensures
        is_int_sqrt(int_sqrt(n), n),
    decreases n,
{
    if n == 0 {
        assert(is_int_sqrt(0, n));
    } else {
        lemma_int_sqrt_exists(n - 1);
        let r = int_sqrt(n - 1);
        if n < (r + 1) * (r + 1) {
            assert(is_int_sqrt(r, n));
        } else {
            assert((r + 1) * (r + 1) <= n < (r + 2) * (r + 2)) by (nonlinear_arith)
                requires
                    0 <= r,
                    n - 1 < (r + 1) * (r + 1),
                    n >= (r + 1) * (r + 1),
            ;
            assert(is_int_sqrt(r + 1, n));
        }
    }
}

/// No number has two integer square roots.
pub proof fn lemma_int_sqrt_unique(r: int, n: int)
    requires
        is_int_sqrt(r, n),
    ensures
        int_sqrt(n) == r,
{
    let s = int_sqrt(n);
    assert(s == r) by (nonlinear_arith)
        requires
            0 <= r,
            r * r <= n < (r + 1) * (r + 1),
            0 <= s,
            s * s <= n < (s + 1) * (s + 1),
    ;
}

/// The integer square root grows with its argument.
pub proof fn lemma_int_sqrt_at_least(r: int, n: int)
    requires
        0 <= r,
        r * r <= n,
    ensures
        r <= int_sqrt(n),
{
    lemma_int_sqrt_exists(n);
    let s = int_sqrt(n);
    assert(r <= s) by (nonlinear_arith)
        requires
            0 <= r,
            r * r <= n,
            0 <= s,
            n < (s + 1) * (s + 1),
    ;
}

/// The integer square root of `n`.
pub fn isqrt(n: u128) -> (root: u64)
    ensures
        is_int_sqrt(root as int, n as int),
        root == int_sqrt(n as int),
{
    let mut low: u128 = 0;
    let mut high: u128 = 0x1_0000_0000_0000_0000;
    assert(n < high * high) by (nonlinear_arith)
        requires
            high == 0x1_0000_0000_0000_0000,
            n <= u128::MAX,
    ;
    while high - low > 1
        invariant
            low < high <= 0x1_0000_0000_0000_0000,
            low * low <= n < high * high,
        decreases high - low,
    {
        let middle: u128 = low + (high - low) / 2;
        assert(middle * middle <= u128::MAX) by (nonlinear_arith)
            requires
                middle < 0x1_0000_0000_0000_0000,
        ;
        if middle * middle <= n {
            low = middle;
        } else {
            high = middle;
        }
    }
    proof {
        lemma_int_sqrt_unique(low as int, n as int);
    }
    low as u64
}

/// The size of `value`, as an unsigned number.
fn magnitude(value: i32) -> (size: u128)
    ensures
        size == abs(value as int),
{
    if value < 0 {
        (-(value as i64)) as u128
    } else {
        value as u128
    }
}

/// A vector in thousandths: a direction of length one, a stick position, or
/// a velocity.
#[derive(Clone, Copy, Debug, PartialEq, Eq, Structural)]
pub struct Vec2 {
    pub x: i32,
    pub y: i32,
}

impl View for Vec2 {
    type V = Vector;

    open spec fn view(&self) -> Vector {
        Vector { x: self.x as int, y: self.y as int }
    }
}

/// An impulse or a force to apply, in millionths: the product of a `Vec2`
/// and a factor in thousandths.
#[derive(Clone, Copy, Debug, PartialEq, Eq, Structural)]
pub struct Actuation {
    pub x: i64,
    pub y: i64,
}

impl View for Actuation {
    type V = Vector;

    open spec fn view(&self) -> Vector {
        Vector { x: self.x as int, y: self.y as int }
    }
}

impl Actuation {
    /// No impulse, no force.
    pub fn zero() -> (actuation: Actuation)
        ensures
            actuation@ == Vector::zero(),
    {
        Actuation { x: 0, y: 0 }
    }
}

impl Vec2 {
    /// The `Vec2` with the components of `v`, for components that fit.
    pub open spec fn from_vector(v: Vector) -> Vec2 {
        Vec2 { x: v.x as i32, y: v.y as i32 }
    }

    /// The vector of length `UNIT` that points the same way, or zero.
    pub open spec fn normalized(self) -> Vec2 {
        Vec2::from_vector(self@.normalize())
    }

    /// The vector with the given components, in thousandths.
    pub fn new(x: i32, y: i32) -> (vector: Vec2)
        ensures
            vector.x == x,
            vector.y == y,
    {
        Vec2 { x, y }
    }

    /// The zero vector.
    pub fn zero() -> (vector: Vec2)
        ensures
            vector@ == Vector::zero(),
    {
        Vec2 { x: 0, y: 0 }
    }

    /// Whether both components are zero.
    pub fn is_zero(&self) -> (zero: bool)
        ensures
            zero == self@.is_zero(),
    {
        self.x == 0 && self.y == 0
    }

    /// The vector times `factor`. With both in thousandths the product is in
    /// millionths.
    pub fn scaled(&self, factor: i32) -> (product: Actuation)
        ensures
            product@ == self@.scale(factor as int),
    {
        assert(i64::MIN <= self.x * factor <= i64::MAX && i64::MIN <= self.y * factor
            <= i64::MAX) by (nonlinear_arith);
        Actuation { x: self.x as i64 * factor as i64, y: self.y as i64 * factor as i64 }
    }

    /// The vector of length `UNIT` that points the same way, or zero for the
    /// zero vector.
    pub fn normalize_or_zero(&self) -> (unit: Vec2)
        ensures
            unit == self.normalized(),
            unit@ == self@.normalize(),
            self@.is_zero() ==> unit@.is_zero(),
            !self@.is_zero() ==> unit@.is_direction(),
    {
        if self.x == 0 && self.y == 0 {
            return *self;
        }
        let x_size: u128 = magnitude(self.x);
        let y_size: u128 = magnitude(self.y);
        proof {
            lemma_normalize_components(self@);
            lemma_normalize_gives_direction(self@);
            assert(x_size * x_size <= 0x4000_0000_0000_0000 && x_size * x_size == self.x * self.x)
                by (nonlinear_arith)
                requires
                    x_size == abs(self.x as int),
                    x_size <= 0x8000_0000,
            ;
            assert(y_size * y_size <= 0x4000_0000_0000_0000 && y_size * y_size == self.y * self.y)
                by (nonlinear_arith)
                requires
                    y_size == abs(self.y as int),
                    y_size <= 0x8000_0000,
            ;
        }
        let unit_squared: u128 = UNIT as u128 * UNIT as u128;
        let norm: u128 = isqrt((x_size * x_size + y_size * y_size) * unit_squared) as u128;
        let x_part: u128 = x_size * unit_squared / norm;
        let y_part: u128 = y_size * unit_squared / norm;
        Vec2 {
            x: if self.x < 0 {
                -(x_part as i32)
            } else {
                x_part as i32
            },
            y: if self.y < 0 {
                -(y_part as i32)
            } else {
                y_part as i32
            },
        }
    }
}

/// The size of `value`.
pub open spec fn abs(value: int) -> int {
    if value < 0 {
        -value
    } else {
        value
    }
}

/// What normalising does to a vector that is not zero: the length it divides
/// by is at least `UNIT`, each component of the result keeps its sign and
/// stays within `UNIT`, and the result is not zero.
pub proof fn lemma_normalize_components(v: Vector)
    requires
        !v.is_zero(),
    ensures
        v.norm_in_thousandths() >= UNIT,
        is_int_sqrt(v.norm_in_thousandths(), v.norm_squared() * UNIT * UNIT),
        !v.normalize().is_zero(),
        v.normalize().x == if v.x < 0 {
            -(abs(v.x) * UNIT * UNIT / v.norm_in_thousandths())
        } else {
            abs(v.x) * UNIT * UNIT / v.norm_in_thousandths()
        },
        v.normalize().y == if v.y < 0 {
            -(abs(v.y) * UNIT * UNIT / v.norm_in_thousandths())
        } else {
            abs(v.y) * UNIT * UNIT / v.norm_in_thousandths()
        },
        0 <= abs(v.x) * UNIT * UNIT / v.norm_in_thousandths() <= UNIT,
        0 <= abs(v.y) * UNIT * UNIT / v.norm_in_thousandths() <= UNIT,
{
    let n = v.norm_squared() * UNIT * UNIT;
    let ax = abs(v.x);
    let ay = abs(v.y);
    assert(n == (ax * ax + ay * ay) * 1_000_000 && n >= 1_000_000 && (ax * 1000) * (ax * 1000)
        <= n && (ay * 1000) * (ay * 1000) <= n) by (nonlinear_arith)
        requires
            n == (v.x * v.x + v.y * v.y) * 1000 * 1000,
            ax == abs(v.x),
            ay == abs(v.y),
            v.x != 0 || v.y != 0,
    ;
    lemma_int_sqrt_exists(n);
    let norm = int_sqrt(n);
    lemma_int_sqrt_at_least(1000, n);
    lemma_int_sqrt_at_least(ax * 1000, n);
    lemma_int_sqrt_at_least(ay * 1000, n);
    lemma_quotient_bounds(ax, ay, norm, n);
    lemma_quotient_bounds(ay, ax, norm, n);
}

/// With `norm` the integer square root of `(a * a + b * b) * UNIT * UNIT`,
/// the quotient `a * UNIT * UNIT / norm` is at most `UNIT`, and at least half
/// of `UNIT` where `a` is the larger of the two.
proof fn lemma_quotient_bounds(a: int, b: int, norm: int, n: int)
    requires
        0 <= a,
        0 <= b,
        n == (a * a + b * b) * 1_000_000,
        is_int_sqrt(norm, n),
        norm >= 1000,
        a * 1000 <= norm,
    ensures
        0 <= a * 1000 * 1000 / norm <= 1000,
        a >= b && a > 0 ==> a * 1000 * 1000 / norm >= 500,
{
    let q = a * 1000 * 1000 / norm;
    assert(0 <= q <= 1000) by (nonlinear_arith)
        requires
            q == a * 1000 * 1000 / norm,
            0 <= a,
            norm >= 1000,
            a * 1000 <= norm,
    ;
    if a >= b && a > 0 {
        assert(norm < 2 * a * 1000) by (nonlinear_arith)
            requires
                0 <= b <= a,
                a > 0,
                0 <= norm,
                norm * norm <= n,
                n == (a * a + b * b) * 1_000_000,
        ;
        assert(q >= 500) by (nonlinear_arith)
            requires
                q == a * 1000 * 1000 / norm,
                norm >= 1000,
                norm < 2 * a * 1000,
        ;
    }
}

/// Normalising a vector that is not zero gives a direction.
pub proof fn lemma_normalize_gives_direction(v: Vector)
    requires
        !v.is_zero(),
    ensures
        v.normalize().is_direction(),
{
    lemma_normalize_components(v);
    lemma_normalize_length(v);
}

/// Normalising gives a vector of length `UNIT`, up to the rounding of its
/// components: the result is shorter than `UNIT + 1`, and with each
/// component one step further from zero it would be longer than `UNIT`.
pub proof fn lemma_normalize_length(v: Vector)
    requires
        !v.is_zero(),
    ensures
        v.normalize().norm_squared() < (UNIT + 1) * (UNIT + 1),
        (abs(v.normalize().x) + 1) * (abs(v.normalize().x) + 1) + (abs(v.normalize().y) + 1) * (abs(
            v.normalize().y,
        ) + 1) > UNIT * UNIT,
{
    lemma_normalize_components(v);
    let a = abs(v.x);
    let b = abs(v.y);
    let norm = v.norm_in_thousandths();
    let n = v.norm_squared() * UNIT * UNIT;
    let p = a * UNIT * UNIT / norm;
    let q = b * UNIT * UNIT / norm;
    assert(v.normalize().norm_squared() == p * p + q * q) by (nonlinear_arith)
        requires
            abs(v.normalize().x) == p,
            abs(v.normalize().y) == q,
    ;
    assert(n == (a * a + b * b) * 1_000_000) by (nonlinear_arith)
        requires
            n == (v.x * v.x + v.y * v.y) * 1000 * 1000,
            a == abs(v.x),
            b == abs(v.y),
    ;
    lemma_quotient_squares(a, p, norm);
    lemma_quotient_squares(b, q, norm);
    let below = p * p + q * q;
    let above = (p + 1) * (p + 1) + (q + 1) * (q + 1);
    assert(below * (norm * norm) < (norm + 1) * (norm + 1) * 1_000_000) by (nonlinear_arith)
        requires
            p * p * (norm * norm) <= a * a * 1_000_000_000_000,
            q * q * (norm * norm) <= b * b * 1_000_000_000_000,
            below == p * p + q * q,
            n == (a * a + b * b) * 1_000_000,
            n < (norm + 1) * (norm + 1),
    ;
    assert(below < 1001 * 1001) by (nonlinear_arith)
        requires
            below * (norm * norm) < (norm + 1) * (norm + 1) * 1_000_000,
            norm >= 1000,
    ;
    assert(above * (norm * norm) > 1_000_000 * (norm * norm)) by (nonlinear_arith)
        requires
            (p + 1) * (p + 1) * (norm * norm) > a * a * 1_000_000_000_000,
            (q + 1) * (q + 1) * (norm * norm) > b * b * 1_000_000_000_000,
            above == (p + 1) * (p + 1) + (q + 1) * (q + 1),
            n == (a * a + b * b) * 1_000_000,
            norm * norm <= n,
    ;
    assert(above > 1_000_000) by (nonlinear_arith)
        requires
            above * (norm * norm) > 1_000_000 * (norm * norm),
            norm >= 1000,
    ;
}

/// The squares on both sides of a quotient: with `quotient` the whole part
/// of `a * UNIT * UNIT / norm`.
proof fn lemma_quotient_squares(a: int, quotient: int, norm: int)
    requires
        0 <= a,
        norm >= 1000,
        quotient == a * 1000 * 1000 / norm,
    ensures
        quotient * quotient * (norm * norm) <= a * a * 1_000_000_000_000,
        (quotient + 1) * (quotient + 1) * (norm * norm) > a * a * 1_000_000_000_000,
{
    let top = a * 1_000_000;
    assert(0 <= quotient * norm <= top < (quotient + 1) * norm && quotient >= 0)
        by (nonlinear_arith)
        requires
            0 <= a,
            norm >= 1000,
            top == a * 1_000_000,
            quotient == a * 1000 * 1000 / norm,
    ;
    let low = quotient * norm;
    let high = (quotient + 1) * norm;
    assert(low * low <= top * top && top * top < high * high) by (nonlinear_arith)
        requires
            0 <= low <= top < high,
    ;
    assert(low * low == quotient * quotient * (norm * norm)) by (nonlinear_arith)
        requires
            low == quotient * norm,
    ;
    assert(high * high == (quotient + 1) * (quotient + 1) * (norm * norm)) by (nonlinear_arith)
        requires
            high == (quotient + 1) * norm,
    ;
    assert(top * top == a * a * 1_000_000_000_000) by (nonlinear_arith)
        requires
            top == a * 1_000_000,
    ;
}

} // verus!
