use super::fixed::Fixed;
use super::vec2::Vec2;
use super::dist::Distance;
use super::fixed::{
    ceil_root, is_root_up, lemma_quotient_magnitude, lemma_root_unique, magnitude, quotient, ratio,
    root_up, scaled, LIMIT,
};
use super::span::{seconds, whole_seconds};
use crate::clock::Span;
use std::ops::{Add, AddAssign, Div, Mul, MulAssign};
use vstd::prelude::*;
use vstd::std_specs::convert::FromSpecImpl;
use vstd::std_specs::ops::{AddSpecImpl, DivSpecImpl, MulSpecImpl};

verus! {

/// A displacement per second.
#[derive(Debug, Copy, Clone, PartialEq, Eq, Structural)]
pub struct Velocity(pub Vec2);

impl Velocity {
    /// The sum of two velocities.
    pub open spec fn plus(self, rhs: Velocity) -> Velocity {
        Velocity(self.0.plus(rhs.0))
    }

    /// The displacement covered at this velocity in `secs` fixed-point seconds.
    pub open spec fn travelled(self, secs: Fixed) -> Distance {
        Distance(self.0.times(secs))
    }

    /// The velocity multiplied by the fixed-point factor `rhs`.
    pub open spec fn times(self, rhs: Fixed) -> Velocity {
        Velocity(self.0.times(rhs))
    }

    /// The velocity divided by the fixed-point divisor `rhs`.
    pub open spec fn over(self, rhs: Fixed) -> Velocity {
        Velocity(self.0.over(rhs))
    }

    /// The cap that [`Velocity::clamp`] applies for the argument `max`: a negative
    /// argument admits no motion at all.
    pub open spec fn cap(max: Fixed) -> int {
        if max < 0 {
            0
        } else {
            max as int
        }
    }

    /// Whether the speed is above `max`.
    pub open spec fn exceeds(self, max: Fixed) -> bool {
        self.0.square_sum() > Self::cap(max) * Self::cap(max)
    }

    /// This velocity where its speed is at most `max`; otherwise the velocity of
    /// the same direction shortened to `max`, each component rounded toward zero.
    pub open spec fn clamped(self, max: Fixed) -> Velocity {
        if self.exceeds(max) {
            Velocity(
                self.0.stretched(Self::cap(max), ceil_root(self.0.square_sum() as nat) as int),
            )
        } else {
            self
        }
    }

    /// The velocity with these components, in thousandths per second.
    pub fn new(x: Fixed, y: Fixed) -> (r: Velocity)
        ensures
            r == Velocity(Vec2 { x, y }),
    {
        Velocity(Vec2 { x, y })
    }

    /// Caps the speed at `max` and keeps the direction.
    pub fn clamp(self, max: Fixed) -> (r: Velocity)
        ensures
            r == self.clamped(max),
    {
        let cap: Fixed = if max < 0 { 0 } else { max };
        let total: u128 = self.0.raw_square_sum();
        assert((cap as u128) * (cap as u128) <= 0x4000_0000_0000_0000_0000_0000_0000_0000)
            by (nonlinear_arith)
            requires
                0 <= cap <= 0x7fff_ffff_ffff_ffff,
        ;
        if total > (cap as u128) * (cap as u128) {
            let length: u128 = root_up(total);
            assert(length > 0);
            let den: i128 = length as i128;
            Velocity(Vec2 { x: ratio(self.0.x, cap, den), y: ratio(self.0.y, cap, den) })
        } else {
            self
        }
    }
}

impl Default for Velocity {
    fn default() -> (r: Velocity)
        ensures
            r == Velocity(Vec2 { x: 0, y: 0 }),
    {
        Velocity(Vec2 { x: 0, y: 0 })
    }
}

impl FromSpecImpl<Vec2> for Velocity {
    open spec fn obeys_from_spec() -> bool {
        true
    }

    open spec fn from_spec(v: Vec2) -> Velocity {
        Velocity(v)
    }
}

impl From<Vec2> for Velocity {
    fn from(v: Vec2) -> (r: Velocity) {
        Velocity(v)
    }
}

impl FromSpecImpl<(Fixed, Fixed)> for Velocity {
    open spec fn obeys_from_spec() -> bool {
        true
    }

    open spec fn from_spec(pair: (Fixed, Fixed)) -> Velocity {
        Velocity(Vec2 { x: pair.0, y: pair.1 })
    }
}

impl From<(Fixed, Fixed)> for Velocity {
    fn from(pair: (Fixed, Fixed)) -> (r: Velocity) {
        Velocity(Vec2 { x: pair.0, y: pair.1 })
    }
}

impl AddSpecImpl<Velocity> for Velocity {
    open spec fn obeys_add_spec() -> bool {
        true
    }

    open spec fn add_req(self, rhs: Velocity) -> bool {
        true
    }

    open spec fn add_spec(self, rhs: Velocity) -> Velocity {
        self.plus(rhs)
    }
}

impl Add<Velocity> for Velocity {
    type Output = Velocity;

    fn add(self, rhs: Velocity) -> (r: Velocity) {
        Velocity(self.0 + rhs.0)
    }
}

impl AddAssign<Velocity> for Velocity {
    fn add_assign(&mut self, rhs: Velocity)
        ensures
            *final(self) == old(self).plus(rhs),
    {
        *self = *self + rhs;
    }
}

impl MulSpecImpl<Span> for Velocity {
    open spec fn obeys_mul_spec() -> bool {
        true
    }

    open spec fn mul_req(self, rhs: Span) -> bool {
        true
    }

    open spec fn mul_spec(self, rhs: Span) -> Distance {
        self.travelled(whole_seconds(rhs))
    }
}

impl Mul<Span> for Velocity {
    type Output = Distance;

    fn mul(self, rhs: Span) -> (r: Distance) {
        Distance(self.0 * seconds(rhs))
    }
}

impl MulSpecImpl<Fixed> for Velocity {
    open spec fn obeys_mul_spec() -> bool {
        true
    }

    open spec fn mul_req(self, rhs: Fixed) -> bool {
        true
    }

    open spec fn mul_spec(self, rhs: Fixed) -> Velocity {
        self.times(rhs)
    }
}

impl Mul<Fixed> for Velocity {
    type Output = Velocity;

    fn mul(self, rhs: Fixed) -> (r: Velocity) {
        Velocity(self.0 * rhs)
    }
}

impl MulAssign<Fixed> for Velocity {
    fn mul_assign(&mut self, rhs: Fixed)
        ensures
            *final(self) == old(self).times(rhs),
    {
        *self = *self * rhs;
    }
}

impl DivSpecImpl<Fixed> for Velocity {
    open spec fn obeys_div_spec() -> bool {
        true
    }

    open spec fn div_req(self, rhs: Fixed) -> bool {
        rhs != 0
    }

    open spec fn div_spec(self, rhs: Fixed) -> Velocity {
        self.over(rhs)
    }
}

impl Div<Fixed> for Velocity {
    type Output = Velocity;

    fn div(self, rhs: Fixed) -> (r: Velocity) {
        Velocity(self.0 / rhs)
    }
}

/// What one component of a clamped velocity is: the magnitude of `v * cap /
/// root` is at most `cap` and at most that of `v`, it has the sign of `v`, and
/// its square times the square of `root` is at most the square of `v * cap`.
proof fn lemma_shortened(v: Fixed, cap: int, root: int)
    requires
        0 <= cap <= LIMIT,
        root > 0,
        magnitude(v as int) <= root,
    ensures
        scaled(v as int, cap, root) == quotient(v * cap, root),
        magnitude(scaled(v as int, cap, root) as int) <= cap,
        v >= 0 ==> scaled(v as int, cap, root) >= 0,
        v <= 0 ==> scaled(v as int, cap, root) <= 0,
        scaled(v as int, cap, root) * scaled(v as int, cap, root) * (root * root) <= (v * v) * (cap
            * cap),
        magnitude(v * cap) % root == 0 ==> scaled(v as int, cap, root) * root == v * cap,
{
    let n = v * cap;
    let a = magnitude(v as int);
    lemma_magnitude_of_product(v as int, cap);
    assert(v >= 0 ==> n >= 0) by (nonlinear_arith)
        requires
            n == v * cap,
            cap >= 0,
    ;
    assert(v <= 0 ==> n <= 0) by (nonlinear_arith)
        requires
            n == v * cap,
            cap >= 0,
    ;
    lemma_quotient_magnitude(n, root);
    let q = quotient(n, root);
    let p = magnitude(q);
    assert(p <= cap) by (nonlinear_arith)
        requires
            p * root <= a * cap,
            0 <= a <= root,
            root > 0,
            cap >= 0,
            p >= 0,
    ;
    lemma_square_of_magnitude(q);
    lemma_square_of_magnitude(v as int);
    assert(0 <= p * root) by (nonlinear_arith)
        requires
            p >= 0,
            root > 0,
    ;
    assert((p * root) * (p * root) <= (a * cap) * (a * cap)) by (nonlinear_arith)
        requires
            0 <= p * root <= a * cap,
    ;
    assert((p * root) * (p * root) == (p * p) * (root * root)) by (nonlinear_arith);
    assert((a * cap) * (a * cap) == (a * a) * (cap * cap)) by (nonlinear_arith);
}

/// A number and its magnitude have the same square.
proof fn lemma_square_of_magnitude(v: int)
    ensures
        magnitude(v) * magnitude(v) == v * v,
{
    assert(magnitude(v) * magnitude(v) == v * v) by (nonlinear_arith)
        requires
            magnitude(v) == v || magnitude(v) == -v,
    ;
}

/// The magnitude of a product with a factor that is not negative.
proof fn lemma_magnitude_of_product(v: int, cap: int)
    requires
        cap >= 0,
    ensures
        magnitude(v * cap) == magnitude(v) * cap,
{
    assert(magnitude(v * cap) == magnitude(v) * cap) by (nonlinear_arith)
        requires
            cap >= 0,
            magnitude(v) == v && v >= 0 || magnitude(v) == -v && v < 0,
            magnitude(v * cap) == v * cap && v * cap >= 0 || magnitude(v * cap) == -(v * cap) && v
                * cap < 0,
    ;
}

/// A clamped velocity is no faster than the cap, and each of its components
/// points the way it pointed before or has vanished.
pub proof fn lemma_clamp_caps(v: Velocity, max: Fixed)
    ensures
        v.clamped(max).0.square_sum() <= Velocity::cap(max) * Velocity::cap(max),
        v.0.x >= 0 ==> v.clamped(max).0.x >= 0,
        v.0.x <= 0 ==> v.clamped(max).0.x <= 0,
        v.0.y >= 0 ==> v.clamped(max).0.y >= 0,
        v.0.y <= 0 ==> v.clamped(max).0.y <= 0,
        magnitude(v.clamped(max).0.x as int) <= magnitude(v.0.x as int),
        magnitude(v.clamped(max).0.y as int) <= magnitude(v.0.y as int),
{
    if v.exceeds(max) {
        let cap = Velocity::cap(max);
        let total = v.0.square_sum();
        let x = v.0.x as int;
        let y = v.0.y as int;
        assert(total >= 0) by (nonlinear_arith)
            requires
                total == x * x + y * y,
        ;
        let root = ceil_root(total as nat) as int;
        lemma_root_exists(total as nat);
        assert(root * root >= total);
        assert(root > 0) by (nonlinear_arith)
            requires
                root * root >= total,
                total > cap * cap,
                root >= 0,
        ;
        lemma_component_below_root(x, y, root);
        lemma_component_below_root(y, x, root);
        lemma_shortened(v.0.x, cap, root);
        lemma_shortened(v.0.y, cap, root);
        let rx = scaled(x, cap, root) as int;
        let ry = scaled(y, cap, root) as int;
        assert(rx * rx + ry * ry <= cap * cap) by (nonlinear_arith)
            requires
                rx * rx * (root * root) <= (x * x) * (cap * cap),
                ry * ry * (root * root) <= (y * y) * (cap * cap),
                x * x + y * y <= root * root,
                root > 0,
        {
            assert((rx * rx + ry * ry) * (root * root) <= (cap * cap) * (root * root));
        }
        assert(cap < root) by (nonlinear_arith)
            requires
                root * root >= total,
                total > cap * cap,
                root >= 0,
                cap >= 0,
        ;
        lemma_quotient_magnitude(x * cap, root);
        lemma_quotient_magnitude(y * cap, root);
        lemma_magnitude_of_product(x, cap);
        lemma_magnitude_of_product(y, cap);
        assert(magnitude(rx) <= magnitude(x)) by (nonlinear_arith)
            requires
                magnitude(rx) * root <= magnitude(x * cap),
                magnitude(x * cap) == magnitude(x) * cap,
                0 <= cap < root,
                magnitude(rx) >= 0,
                magnitude(x) >= 0,
        ;
        assert(magnitude(ry) <= magnitude(y)) by (nonlinear_arith)
            requires
                magnitude(ry) * root <= magnitude(y * cap),
                magnitude(y * cap) == magnitude(y) * cap,
                0 <= cap < root,
                magnitude(ry) >= 0,
                magnitude(y) >= 0,
        ;
    }
}

/// The square of a number that falls short of `full` by less than `step` is
/// not less than the square of `full` by more than twice `full` times `step`.
proof fn lemma_square_of_shortfall(part: int, full: int, step: int)
    requires
        0 <= part <= full,
        full - part < step,
    ensures
        part * part >= full * full - 2 * (full * step),
{
    let gap = full - part;
    assert(part * part == full * full - 2 * (full * gap) + gap * gap) by (nonlinear_arith)
        requires
            part == full - gap,
    ;
    assert(full * gap <= full * step) by (nonlinear_arith)
        requires
            0 <= full,
            0 <= gap < step,
    ;
    assert(gap * gap >= 0) by (nonlinear_arith);
}

/// A velocity that was faster than a cap of nine thousandths or more is, once
/// clamped, slower than the cap by less than three thousandths.
pub proof fn lemma_clamp_reaches(v: Velocity, max: Fixed)
    requires
        v.exceeds(max),
        max >= 9,
    ensures
        v.clamped(max).0.square_sum() >= (max - 3) * (max - 3),
{
    let c = Velocity::cap(max);
    let total = v.0.square_sum();
    let x = v.0.x as int;
    let y = v.0.y as int;
    let a = magnitude(x);
    let b = magnitude(y);
    lemma_square_of_magnitude(x);
    lemma_square_of_magnitude(y);
    let m = ceil_root(total as nat) as int;
    assert(total >= 0) by (nonlinear_arith)
        requires
            total == x * x + y * y,
    ;
    lemma_root_exists(total as nat);
    assert(m > c) by (nonlinear_arith)
        requires
            m * m >= total,
            total > c * c,
            m >= 0,
            c >= 0,
    ;
    lemma_component_below_root(x, y, m);
    lemma_component_below_root(y, x, m);
    lemma_shortened(v.0.x, c, m);
    lemma_shortened(v.0.y, c, m);
    lemma_magnitude_of_product(x, c);
    lemma_magnitude_of_product(y, c);
    lemma_quotient_magnitude(x * c, m);
    lemma_quotient_magnitude(y * c, m);
    let rx = scaled(x, c, m) as int;
    let ry = scaled(y, c, m) as int;
    let p = magnitude(rx);
    let q = magnitude(ry);
    lemma_square_of_magnitude(rx);
    lemma_square_of_magnitude(ry);
    // What the two components come to before they are divided by the length.
    let full_x = a * c;
    let full_y = b * c;
    let part_x = p * m;
    let part_y = q * m;
    assert(0 <= part_x && 0 <= part_y) by (nonlinear_arith)
        requires
            part_x == p * m,
            part_y == q * m,
            p >= 0,
            q >= 0,
            m > 0,
    ;
    lemma_square_of_shortfall(part_x, full_x, m);
    lemma_square_of_shortfall(part_y, full_y, m);
    let mm = m * m;
    assert(part_x * part_x == (p * p) * mm && part_y * part_y == (q * q) * mm)
        by (nonlinear_arith)
        requires
            part_x == p * m,
            part_y == q * m,
            mm == m * m,
    ;
    assert(full_x * full_x + full_y * full_y == (c * c) * total) by (nonlinear_arith)
        requires
            full_x == a * c,
            full_y == b * c,
            total == a * a + b * b,
    ;
    assert(full_x * m + full_y * m == (c * m) * (a + b)) by (nonlinear_arith)
        requires
            full_x == a * c,
            full_y == b * c,
    ;
    // The two components together are at most half as long again as the vector.
    assert((a + b) * (a + b) <= 2 * mm) by (nonlinear_arith)
        requires
            a * a + b * b <= mm,
    {
        assert((a - b) * (a - b) >= 0);
        assert((a + b) * (a + b) + (a - b) * (a - b) == 2 * (a * a + b * b));
    }
    assert(2 * (a + b) <= 3 * m) by (nonlinear_arith)
        requires
            (a + b) * (a + b) <= 2 * mm,
            mm == m * m,
            m > 0,
            a + b >= 0,
    {
        if 2 * (a + b) > 3 * m {
            assert((2 * (a + b)) * (2 * (a + b)) > (3 * m) * (3 * m));
        }
    }
    assert(2 * ((c * m) * (a + b)) <= 3 * (c * mm)) by (nonlinear_arith)
        requires
            2 * (a + b) <= 3 * m,
            mm == m * m,
            c >= 0,
            m > 0,
    {
        assert((c * m) * (2 * (a + b)) <= (c * m) * (3 * m));
    }
    // The vector is longer than its length rounded up, less one.
    assert((c * c) * total >= (c * c) * mm - 2 * (c * mm)) by (nonlinear_arith)
        requires
            total > (m - 1) * (m - 1),
            mm == m * m,
            0 <= c < m,
    {
        assert(total >= mm - 2 * m);
        assert((c * c) * total >= (c * c) * (mm - 2 * m));
        assert((c * c) * m <= c * mm);
    }
    let sq = p * p + q * q;
    assert(sq * mm == part_x * part_x + part_y * part_y) by (nonlinear_arith)
        requires
            sq == p * p + q * q,
            part_x * part_x == (p * p) * mm,
            part_y * part_y == (q * q) * mm,
    ;
    assert(sq * mm >= ((c - 3) * (c - 3)) * mm) by (nonlinear_arith)
        requires
            sq * mm == part_x * part_x + part_y * part_y,
            part_x * part_x >= full_x * full_x - 2 * (full_x * m),
            part_y * part_y >= full_y * full_y - 2 * (full_y * m),
            full_x * full_x + full_y * full_y == (c * c) * total,
            full_x * m + full_y * m == (c * m) * (a + b),
            2 * ((c * m) * (a + b)) <= 3 * (c * mm),
            (c * c) * total >= (c * c) * mm - 2 * (c * mm),
            c >= 9,
            mm > 0,
    {
        assert(sq * mm >= (c * c) * mm - 5 * (c * mm));
        assert(((c - 3) * (c - 3)) * mm == (c * c) * mm - 6 * (c * mm) + 9 * mm);
        assert(c * mm >= 9 * mm);
    }
    assert(sq >= (c - 3) * (c - 3)) by (nonlinear_arith)
        requires
            sq * mm >= ((c - 3) * (c - 3)) * mm,
            mm > 0,
    ;
}

/// Every natural number has a rounded-up root.
proof fn lemma_root_exists(n: nat)
    ensures
        is_root_up(n, ceil_root(n)),
    decreases n,
{
    if n == 0 {
        assert(is_root_up(0, 0));
    } else {
        lemma_root_exists((n - 1) as nat);
        let r = ceil_root((n - 1) as nat);
        if r * r >= n {
            assert(is_root_up(n, r));
        } else {
            assert(r * r == n - 1);
            assert((r + 1) * (r + 1) >= n) by (nonlinear_arith)
                requires
                    r * r == n - 1,
                    r >= 0,
            ;
            assert(is_root_up(n, r + 1));
        }
    }
}

/// A component of a vector is no longer than the vector.
proof fn lemma_component_below_root(x: int, y: int, root: int)
    requires
        root >= 0,
        root * root >= x * x + y * y,
    ensures
        magnitude(x) <= root,
{
    let a = magnitude(x);
    lemma_square_of_magnitude(x);
    assert(a <= root) by (nonlinear_arith)
        requires
            a * a == x * x,
            root * root >= x * x + y * y,
            root >= 0,
            a >= 0,
    ;
}

/// Where the length of a velocity above the cap is a whole number that divides
/// both components times the cap, the clamped velocity is exactly as fast as
/// the cap and points exactly the same way.
pub proof fn lemma_clamp_exact(v: Velocity, max: Fixed, length: nat)
    requires
        v.exceeds(max),
        v.0.square_sum() == length * length,
        magnitude(v.0.x * Velocity::cap(max)) % (length as int) == 0,
        magnitude(v.0.y * Velocity::cap(max)) % (length as int) == 0,
    ensures
        v.clamped(max).0.square_sum() == Velocity::cap(max) * Velocity::cap(max),
        v.clamped(max).0.x * length == v.0.x * Velocity::cap(max),
        v.clamped(max).0.y * length == v.0.y * Velocity::cap(max),
{
    let cap = Velocity::cap(max);
    let total = v.0.square_sum();
    let x = v.0.x as int;
    let y = v.0.y as int;
    let root = length as int;
    assert(root > 0) by (nonlinear_arith)
        requires
            root * root > cap * cap,
            root >= 0,
    ;
    assert((root - 1) * (root - 1) < root * root) by (nonlinear_arith)
        requires
            root > 0,
    ;
    lemma_root_unique(total as nat, length);
    assert(root * root > 0) by (nonlinear_arith)
        requires
            root > 0,
    ;
    lemma_component_below_root(x, y, root);
    lemma_component_below_root(y, x, root);
    lemma_shortened(v.0.x, cap, root);
    lemma_shortened(v.0.y, cap, root);
    let rx = scaled(x, cap, root) as int;
    let ry = scaled(y, cap, root) as int;
    let rr = root * root;
    let cc = cap * cap;
    assert((rx * rx) * rr == (x * x) * cc) by (nonlinear_arith)
        requires
            rx * root == x * cap,
            rr == root * root,
            cc == cap * cap,
    {
        assert((rx * root) * (rx * root) == (x * cap) * (x * cap));
        assert((rx * root) * (rx * root) == (rx * rx) * (root * root));
        assert((x * cap) * (x * cap) == (x * x) * (cap * cap));
    }
    assert((ry * ry) * rr == (y * y) * cc) by (nonlinear_arith)
        requires
            ry * root == y * cap,
            rr == root * root,
            cc == cap * cap,
    {
        assert((ry * root) * (ry * root) == (y * cap) * (y * cap));
        assert((ry * root) * (ry * root) == (ry * ry) * (root * root));
        assert((y * cap) * (y * cap) == (y * y) * (cap * cap));
    }
    let sq = rx * rx + ry * ry;
    assert(sq * rr == cc * rr) by (nonlinear_arith)
        requires
            (rx * rx) * rr == (x * x) * cc,
            (ry * ry) * rr == (y * y) * cc,
            x * x + y * y == rr,
            sq == rx * rx + ry * ry,
    ;
    assert(sq == cc) by (nonlinear_arith)
        requires
            sq * rr == cc * rr,
            rr > 0,
    ;
}

} // verus!
