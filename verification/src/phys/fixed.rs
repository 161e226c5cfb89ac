use vstd::prelude::*;

verus! {

/// A fixed-point number: a signed count of thousandths.
pub type Fixed = i64;

/// The fixed-point representation of one.
pub const UNIT: Fixed = 1000;

/// The largest magnitude that arithmetic on [`Fixed`] produces. The range of
/// results is symmetric, so that the opposite of a result is exact.
pub const LIMIT: Fixed = i64::MAX;

/// Whether `v` is a fixed-point number as arithmetic produces them: none is
/// below `-LIMIT`. The one number of the machine below that stands for nothing.
pub open spec fn tame(v: Fixed) -> bool {
    -LIMIT <= v
}

/// Whether `v` is a fixed-point number as arithmetic produces them.
pub fn is_tame(v: Fixed) -> (r: bool)
    ensures
        r == tame(v),
{
    -LIMIT <= v
}

/// `v`, or the nearest of `-LIMIT` and `LIMIT` where `v` lies beyond them.
/// The result is tame, and a tame number is left as it is.
pub open spec fn saturate(v: int) -> Fixed {
    if v < -LIMIT {
        (-LIMIT) as i64
    } else if v > LIMIT {
        LIMIT
    } else {
        v as i64
    }
}

/// The absolute value of `v`.
pub open spec fn magnitude(v: int) -> int {
    if v < 0 {
        -v
    } else {
        v
    }
}

/// `n / d` rounded toward zero.
pub open spec fn quotient(n: int, d: int) -> int
    recommends
        d != 0,
{
    if n >= 0 {
        n / d
    } else {
        -((-n) / d)
    }
}

/// `v * num / den`, rounded toward zero and saturated.
pub open spec fn scaled(v: int, num: int, den: int) -> Fixed
    recommends
        den != 0,
{
    saturate(quotient(v * num, den))
}

/// Brings a wide intermediate result back into [`Fixed`], saturating.
pub fn narrow(v: i128) -> (r: Fixed)
    ensures
        r == saturate(v as int),
{
    if v < -(LIMIT as i128) {
        -LIMIT
    } else if v > LIMIT as i128 {
        LIMIT
    } else {
        v as i64
    }
}

/// Computes `v * num / den` without intermediate overflow.
pub fn scale(v: Fixed, num: Fixed, den: Fixed) -> (r: Fixed)
    requires
        den != 0,
    ensures
        r == scaled(v as int, num as int, den as int),
{
    ratio(v, num, den as i128)
}

/// Computes `v * num / den` for a divisor that may exceed [`Fixed`].
pub fn ratio(v: Fixed, num: Fixed, den: i128) -> (r: Fixed)
    requires
        den != 0,
    ensures
        r == scaled(v as int, num as int, den as int),
{
    let wide: i128 = v as i128;
    let factor: i128 = num as i128;
    assert(-0x4000_0000_0000_0000_0000_0000_0000_0000 <= wide * factor
        <= 0x4000_0000_0000_0000_0000_0000_0000_0000) by (nonlinear_arith)
        requires
            -0x8000_0000_0000_0000 <= wide < 0x8000_0000_0000_0000,
            -0x8000_0000_0000_0000 <= factor < 0x8000_0000_0000_0000,
    ;
    let product: i128 = wide * factor;
    proof {
        lemma_quotient_bounded(product as int, den as int);
    }
    let q: i128 = product / den;
    narrow(q)
}

/// Whether `r` is the least natural number whose square reaches `n`.
pub open spec fn is_root_up(n: nat, r: nat) -> bool {
    &&& r * r >= n
    &&& r == 0 || (r - 1) * (r - 1) < n
}

/// The square root of `n`, rounded up.
pub open spec fn ceil_root(n: nat) -> nat {
    choose|r: nat| is_root_up(n, r)
}

/// Squares grow with their base.
pub proof fn lemma_square_monotone(a: nat, b: nat)
    requires
        a <= b,
    ensures
        a * a <= b * b,
{
    assert(a * a <= b * b) by (nonlinear_arith)
        requires
            0 <= a <= b,
    ;
}

/// At most one number is the rounded-up root of `n`, so [`ceil_root`] is that number.
pub proof fn lemma_root_unique(n: nat, r: nat)
    requires
        is_root_up(n, r),
    ensures
        ceil_root(n) == r,
{
    let c = ceil_root(n);
    assert(is_root_up(n, c));
    if c < r {
        lemma_square_monotone(c, (r - 1) as nat);
    } else if r < c {
        lemma_square_monotone(r, (c - 1) as nat);
    }
}

/// Computes the square root of `n`, rounded up.
pub fn root_up(n: u128) -> (r: u128)
    requires
        n <= 0x8000_0000_0000_0000_0000_0000_0000_0000,
    ensures
        r == ceil_root(n as nat),
        is_root_up(n as nat, r as nat),
        r <= 0xffff_ffff_ffff_ffff,
{
    let mut lo: u128 = 0;
    let mut hi: u128 = 0xffff_ffff_ffff_ffff;
    assert(hi * hi >= n) by (nonlinear_arith)
        requires
            hi == 0xffff_ffff_ffff_ffff,
            n <= 0x8000_0000_0000_0000_0000_0000_0000_0000,
    ;
    while lo < hi
        invariant
            lo <= hi <= 0xffff_ffff_ffff_ffff,
            hi * hi >= n,
            lo == 0 || (lo - 1) * (lo - 1) < n,
        decreases hi - lo,
    {
        let mid: u128 = lo + (hi - lo) / 2;
        assert(mid * mid <= 0xffff_ffff_ffff_fffe_0000_0000_0000_0001) by (nonlinear_arith)
            requires
                mid <= 0xffff_ffff_ffff_ffff,
        ;
        if mid * mid >= n {
            hi = mid;
        } else {
            lo = mid + 1;
        }
    }
    proof {
        lemma_root_unique(n as nat, lo as nat);
    }
    lo
}

/// Rounding toward zero never moves a quotient away from zero past its dividend.
pub proof fn lemma_quotient_bounded(n: int, d: int)
    requires
        d != 0,
    ensures
        magnitude(quotient(n, d)) <= magnitude(n),
        n >= 0 ==> n / d == quotient(n, d) && magnitude(n / d) <= n,
        n < 0 ==> magnitude((-n) / d) <= -n,
{
    let m = magnitude(n);
    assert(magnitude(m / d) <= m) by (nonlinear_arith)
        requires
            m >= 0,
            d != 0,
    ;
}

/// The opposite of a number saturates to the opposite of what the number
/// saturates to.
pub proof fn lemma_saturate_odd(v: int)
    ensures
        saturate(-v) == -saturate(v),
{
}

/// Scaling the opposite of a number gives the opposite of scaling the number.
pub proof fn lemma_scaled_odd(v: int, num: int, den: int)
    requires
        den != 0,
    ensures
        scaled(-v, num, den) == -scaled(v, num, den),
{
    assert((-v) * num == -(v * num)) by (nonlinear_arith);
    let n = v * num;
    if n == 0 {
        assert(0int / den == 0) by (nonlinear_arith)
            requires
                den != 0,
        ;
    }
    assert(quotient(-n, den) == -quotient(n, den));
    lemma_saturate_odd(quotient(n, den));
}

/// The magnitude of a quotient by a positive divisor is the quotient of the
/// magnitude, so that it times the divisor does not exceed the magnitude of
/// the dividend.
pub proof fn lemma_quotient_magnitude(n: int, d: int)
    requires
        d > 0,
    ensures
        magnitude(quotient(n, d)) == magnitude(n) / d,
        magnitude(quotient(n, d)) * d <= magnitude(n),
        magnitude(n) < magnitude(quotient(n, d)) * d + d,
        magnitude(n) % d == 0 ==> quotient(n, d) * d == n,
        n >= 0 ==> quotient(n, d) >= 0,
        n <= 0 ==> quotient(n, d) <= 0,
{
    let m = magnitude(n);
    assert(0 <= m / d && (m / d) * d <= m && m < (m / d) * d + d && (m % d == 0 ==> (m / d) * d
        == m)) by (nonlinear_arith)
        requires
            m >= 0,
            d > 0,
    ;
    if n < 0 {
        assert((-(m / d)) * d == -((m / d) * d)) by (nonlinear_arith);
    }
}

} // verus!
