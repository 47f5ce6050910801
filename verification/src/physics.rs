//! Fixed-point arithmetic for deterministic physics.
//!
//! A [`Fixed`] holds a signed 64-bit raw value: the upper 32 bits are the
//! integer part and the lower 32 bits the fractional part, so the number it
//! stands for is `raw / 2^32`. Contracts speak of the raw values.
use vstd::prelude::*;

verus! {

/// Number of fractional bits.
pub const FIXED_POINT_SHIFT: u32 = 32;

/// `2^FIXED_POINT_SHIFT`, the raw value of `1.0`.
pub const FIXED_POINT_SCALE: i64 = 4294967296;

/// `FIXED_POINT_SCALE - 1`, the mask of the fractional bits.
pub const FIXED_POINT_MASK: i64 = 4294967295;

pub open spec fn scale() -> int {
    4294967296
}

pub open spec fn in_i64(v: int) -> bool {
    i64::MIN <= v <= i64::MAX
}

/// Raw result of a fixed-point product: the exact product of the raw values
/// divided by `2^32`, rounded toward negative infinity (an arithmetic shift
/// of the full-width product).
pub open spec fn fixed_mul(a: int, b: int) -> int {
    (a * b) / scale()
}

/// A fixed-point product is defined when its result fits in `i64`.
pub open spec fn mul_ok(a: int, b: int) -> bool {
    in_i64(fixed_mul(a, b))
}

/// Rust's signed division, which rounds toward zero.
pub open spec fn trunc_div(a: int, b: int) -> int {
    if a >= 0 {
        a / b
    } else {
        -((-a) / b)
    }
}

/// Raw result of a fixed-point quotient: the raw dividend times `2^32`,
/// divided by the raw divisor and rounded toward zero.
pub open spec fn fixed_div(a: int, b: int) -> int {
    trunc_div(a * scale(), b)
}

/// A fixed-point quotient is defined when the divisor is not zero and the
/// result fits in `i64`.
pub open spec fn div_ok(a: int, b: int) -> bool {
    b != 0 && in_i64(fixed_div(a, b))
}

pub open spec fn is_floor_sqrt(s: int, n: int) -> bool {
    0 <= s && s * s <= n && n < (s + 1) * (s + 1)
}

/// The integer square root: the largest `s` with `s * s <= n`.
pub open spec fn floor_sqrt(n: int) -> int {
    choose|s: int| is_floor_sqrt(s, n)
}

/// Raw result of [`Fixed::sqrt`]: the square root of the fixed-point value,
/// `floor(sqrt(raw / 2^32) * 2^32)`, that is the integer square root of
/// `raw * 2^32`; a negative value gives zero.
pub open spec fn fixed_sqrt(a: int) -> int {
    if a < 0 {
        0
    } else {
        floor_sqrt(a * scale())
    }
}

proof fn lemma_square_monotonic(a: int, b: int)
    requires
        0 <= a <= b,
    ensures
        a * a <= b * b,
{
    assert(a * a <= b * b) by (nonlinear_arith)
        requires
            0 <= a <= b,
    ;
}

proof fn lemma_floor_sqrt_unique(s: int, t: int, n: int)
    requires
        is_floor_sqrt(s, n),
        is_floor_sqrt(t, n),
    ensures
        s == t,
{
    if s < t {
        lemma_square_monotonic(s + 1, t);
    } else if t < s {
        lemma_square_monotonic(t + 1, s);
    }
}

proof fn lemma_floor_sqrt_exists(n: int)
    requires
        0 <= n,
    ensures
        is_floor_sqrt(floor_sqrt(n), n),
    decreases n,
{
    if n == 0 {
        assert(is_floor_sqrt(0, 0));
    } else {
        lemma_floor_sqrt_exists(n - 1);
        let s = floor_sqrt(n - 1);
        if n < (s + 1) * (s + 1) {
            assert(is_floor_sqrt(s, n));
        } else {
            assert((s + 1) * (s + 1) <= n);
            assert(n < (s + 2) * (s + 2)) by (nonlinear_arith)
                requires
                    n - 1 < (s + 1) * (s + 1),
                    0 <= s,
            ;
            assert(is_floor_sqrt(s + 1, n));
        }
    }
}

proof fn lemma_floor_sqrt_is(s: int, n: int)
    requires
        is_floor_sqrt(s, n),
    ensures
        floor_sqrt(n) == s,
{
    let t = floor_sqrt(n);
    assert(is_floor_sqrt(t, n));
    lemma_floor_sqrt_unique(s, t, n);
}

/// The full-width product of two raw values fits in `i128`.
proof fn lemma_raw_product_bound(a: i64, b: i64)
    ensures
        -0x4000_0000_0000_0000_0000_0000_0000_0000 <= a * b <= 0x4000_0000_0000_0000_0000_0000_0000_0000,
{
    let x = a as int;
    let y = b as int;
    assert(-0x8000_0000_0000_0000 <= x <= 0x7fff_ffff_ffff_ffff);
    assert(-0x8000_0000_0000_0000 <= y <= 0x7fff_ffff_ffff_ffff);
    assert(-0x4000_0000_0000_0000_0000_0000_0000_0000 <= x * y
        <= 0x4000_0000_0000_0000_0000_0000_0000_0000) by (nonlinear_arith)
        requires
            -0x8000_0000_0000_0000 <= x <= 0x7fff_ffff_ffff_ffff,
            -0x8000_0000_0000_0000 <= y <= 0x7fff_ffff_ffff_ffff,
    ;
}

/// Dividing by a negative number negates the quotient by its magnitude.
pub proof fn lemma_div_neg_divisor(x: int, b: int)
    requires
        x >= 0,
        b > 0,
    ensures
        x / (-b) == -(x / b),
{
    vstd::arithmetic::div_mod::lemma_fundamental_div_mod(x, b);
    vstd::arithmetic::div_mod::lemma_fundamental_div_mod(x, -b);
    let k = x / b;
    let r = x % b;
    let q = x / (-b);
    let r2 = x % (-b);
    assert(q == -k) by (nonlinear_arith)
        requires
            x == b * k + r,
            0 <= r < b,
            x == (-b) * q + r2,
            0 <= r2 < b,
    ;
}

/// Rust's signed division on values far from the ends of `i128`, done on
/// the magnitudes so that its meaning is plain.
fn trunc_div_i128(n: i128, d: i128) -> (q: i128)
    requires
        d != 0,
        -0x1_0000_0000_0000_0000_0000_0000 < n < 0x1_0000_0000_0000_0000_0000_0000,
        -0x1_0000_0000_0000_0000 <= d <= 0x1_0000_0000_0000_0000,
    ensures
        q == trunc_div(n as int, d as int),
{
    let na: u128 = if n < 0 { (-n) as u128 } else { n as u128 };
    let da: u128 = if d < 0 { (-d) as u128 } else { d as u128 };
    let qa: u128 = na / da;
    proof {
        vstd::arithmetic::div_mod::lemma_div_is_ordered_by_denominator(na as int, 1, da as int);
        if d < 0 {
            lemma_div_neg_divisor(na as int, da as int);
        }
    }
    assert(qa <= na);
    if (n < 0) != (d < 0) {
        -(qa as i128)
    } else {
        qa as i128
    }
}

/// A fixed-point number with 32 integer and 32 fractional bits.
#[derive(Debug, Clone, Copy, PartialEq, Eq, Structural, PartialOrd, Ord)]
pub struct Fixed(pub i64);

impl Fixed {
    /// The fixed-point number equal to the integer `n`.
    pub fn from_i32(n: i32) -> (r: Fixed)
        ensures
            r.0 == n * scale(),
    {
        assert((n as i64) << 32u32 == n * 4294967296) by (bit_vector);
        Fixed((n as i64) << FIXED_POINT_SHIFT)
    }

    /// The integer part, rounded toward negative infinity.
    pub fn to_i32(self) -> (r: i32)
        ensures
            r as int == self.0 as int / scale(),
    {
        let x = self.0;
        assert(x >> 32u32 == x / 4294967296i64) by (bit_vector);
        (x >> FIXED_POINT_SHIFT) as i32
    }

    /// The absolute value. `i64::MIN` has none (Rust's `abs` panics there).
    pub fn abs(self) -> (r: Fixed)
        requires
            self.0 != i64::MIN,
        ensures
            r.0 == vstd::math::abs(self.0 as int),
    {
        if self.0 < 0 {
            Fixed(-self.0)
        } else {
            Fixed(self.0)
        }
    }

    /// The square root of the fixed-point value, computed exactly: the raw
    /// result is `floor(sqrt(raw * 2^32))`, and zero for a negative value.
    pub fn sqrt(self) -> (r: Fixed)
        ensures
            r.0 == fixed_sqrt(self.0 as int),
    {
        if self.0 < 0 {
            return Fixed(0);
        }
        let raw: u128 = self.0 as u128;
        let n: u128 = raw * 0x1_0000_0000u128;
        let mut lo: u128 = 0;
        let mut hi: u128 = 0x1_0000_0000_0000u128;
        proof {
            assert(n < 0x8000_0000_0000_0000 * 0x1_0000_0000int);
            assert(0x1_0000_0000_0000int * 0x1_0000_0000_0000int
                == 0x8000_0000_0000_0000int * 0x2_0000_0000int);
        }
        while hi - lo > 1
            invariant
                lo < hi <= 0x1_0000_0000_0000u128,
                lo * lo <= n,
                n < hi * hi,
                n == raw * 0x1_0000_0000int,
            decreases hi - lo,
        {
            let mid: u128 = lo + (hi - lo) / 2;
            assert(mid * mid < 0x1_0000_0000_0000int * 0x1_0000_0000_0000int) by {
                lemma_square_monotonic(mid as int, 0xffff_ffff_ffff);
            }
            if mid * mid <= n {
                lo = mid;
            } else {
                hi = mid;
            }
        }
        proof {
            assert(hi == lo + 1);
            lemma_floor_sqrt_is(lo as int, n as int);
        }
        Fixed(lo as i64)
    }

    /// Multiplies the raw value by an integer.
    pub fn mul_i32(self, n: i32) -> (r: Fixed)
        requires
            in_i64(self.0 * n),
        ensures
            r.0 == self.0 * n,
    {
        Fixed(self.0 * (n as i64))
    }

    pub fn add(self, other: Fixed) -> (r: Fixed)
        requires
            in_i64(self.0 + other.0),
        ensures
            r.0 == self.0 + other.0,
    {
        Fixed(self.0 + other.0)
    }

    pub fn sub(self, other: Fixed) -> (r: Fixed)
        requires
            in_i64(self.0 - other.0),
        ensures
            r.0 == self.0 - other.0,
    {
        Fixed(self.0 - other.0)
    }

    /// The product: the full-width product of the raw values shifted right
    /// by the fractional bits. Defined wherever the result fits.
    pub fn mul(self, other: Fixed) -> (r: Fixed)
        requires
            mul_ok(self.0 as int, other.0 as int),
        ensures
            r.0 == fixed_mul(self.0 as int, other.0 as int),
    {
        proof {
            lemma_raw_product_bound(self.0, other.0);
        }
        let p: i128 = (self.0 as i128) * (other.0 as i128);
        assert(p >> 32u32 == p / 4294967296i128) by (bit_vector);
        let q: i128 = p >> 32u32;
        Fixed(q as i64)
    }

    /// The quotient: the raw dividend widened and shifted left by the
    /// fractional bits, then divided by the raw divisor, rounding toward
    /// zero. Defined wherever the divisor is not zero and the result fits.
    pub fn div(self, other: Fixed) -> (r: Fixed)
        requires
            div_ok(self.0 as int, other.0 as int),
        ensures
            r.0 == fixed_div(self.0 as int, other.0 as int),
    {
        let n: i128 = (self.0 as i128) * 4294967296i128;
        let d: i128 = other.0 as i128;
        let q: i128 = trunc_div_i128(n, d);
        Fixed(q as i64)
    }
}

impl Fixed {
    /// The sum, or `None` where it does not fit.
    pub fn checked_add(self, other: Fixed) -> (r: Option<Fixed>)
        ensures
            r.is_some() == in_i64(self.0 + other.0),
            r matches Some(v) ==> v.0 == self.0 + other.0,
    {
        match self.0.checked_add(other.0) {
            Some(v) => Some(Fixed(v)),
            None => None,
        }
    }

    /// The difference, or `None` where it does not fit.
    pub fn checked_sub(self, other: Fixed) -> (r: Option<Fixed>)
        ensures
            r.is_some() == in_i64(self.0 - other.0),
            r matches Some(v) ==> v.0 == self.0 - other.0,
    {
        match self.0.checked_sub(other.0) {
            Some(v) => Some(Fixed(v)),
            None => None,
        }
    }

    /// The product of [`Fixed::mul`], or `None` where it does not fit.
    pub fn checked_mul(self, other: Fixed) -> (r: Option<Fixed>)
        ensures
            r.is_some() == mul_ok(self.0 as int, other.0 as int),
            r matches Some(v) ==> v.0 == fixed_mul(self.0 as int, other.0 as int),
    {
        proof {
            lemma_raw_product_bound(self.0, other.0);
        }
        let p: i128 = (self.0 as i128) * (other.0 as i128);
        assert(p >> 32u32 == p / 4294967296i128) by (bit_vector);
        let q: i128 = p >> 32u32;
        if i64::MIN as i128 <= q && q <= i64::MAX as i128 {
            Some(Fixed(q as i64))
        } else {
            None
        }
    }

    /// The quotient of [`Fixed::div`], or `None` for a zero divisor or where
    /// it does not fit.
    pub fn checked_div(self, other: Fixed) -> (r: Option<Fixed>)
        ensures
            r.is_some() == div_ok(self.0 as int, other.0 as int),
            r matches Some(v) ==> v.0 == fixed_div(self.0 as int, other.0 as int),
    {
        if other.0 == 0 {
            return None;
        }
        let n: i128 = (self.0 as i128) * 4294967296i128;
        let d: i128 = other.0 as i128;
        let q: i128 = trunc_div_i128(n, d);
        if i64::MIN as i128 <= q && q <= i64::MAX as i128 {
            Some(Fixed(q as i64))
        } else {
            None
        }
    }
}

impl Fixed {
    /// Scales both components of a vector by this number.
    pub fn mul_vec2(self, v: Vec2) -> (r: Vec2)
        requires
            mul_ok(self.0 as int, v.x.0 as int),
            mul_ok(self.0 as int, v.y.0 as int),
        ensures
            r.x.0 == fixed_mul(self.0 as int, v.x.0 as int),
            r.y.0 == fixed_mul(self.0 as int, v.y.0 as int),
    {
        Vec2 { x: self.mul(v.x), y: self.mul(v.y) }
    }
}

/// The vector with the given raw components.
pub open spec fn vec_of(x: int, y: int) -> Vec2 {
    Vec2 { x: Fixed(x as i64), y: Fixed(y as i64) }
}

/// A two-dimensional vector of fixed-point components.
#[derive(Debug, Clone, Copy)]
pub struct Vec2 {
    pub x: Fixed,
    pub y: Fixed,
}

impl Vec2 {
    /// Raw squared length: the fixed-point squares of the components added.
    pub open spec fn mag_sq(self) -> int {
        fixed_mul(self.x.0 as int, self.x.0 as int) + fixed_mul(self.y.0 as int, self.y.0 as int)
    }

    /// The squared length can be computed without overflow.
    pub open spec fn mag_sq_ok(self) -> bool {
        &&& mul_ok(self.x.0 as int, self.x.0 as int)
        &&& mul_ok(self.y.0 as int, self.y.0 as int)
        &&& in_i64(self.mag_sq())
    }

    /// Raw length.
    pub open spec fn mag(self) -> int {
        fixed_sqrt(self.mag_sq())
    }

    /// The difference `b - a` can be computed without overflow.
    pub open spec fn sub_ok(a: Vec2, b: Vec2) -> bool {
        in_i64(b.x.0 - a.x.0) && in_i64(b.y.0 - a.y.0)
    }

    pub open spec fn diff(a: Vec2, b: Vec2) -> Vec2 {
        Vec2 { x: Fixed((b.x.0 - a.x.0) as i64), y: Fixed((b.y.0 - a.y.0) as i64) }
    }

    /// The quotients of [`Vec2::unit`] fit in `i64`.
    pub open spec fn unit_ok(self) -> bool {
        self.mag() != 0 ==> div_ok(self.x.0 as int, self.mag()) && div_ok(self.y.0 as int, self.mag())
    }

    /// The vector divided by its length, or zero for a zero length.
    pub open spec fn unit(self) -> Vec2 {
        if self.mag() == 0 {
            vec_of(0, 0)
        } else {
            vec_of(fixed_div(self.x.0 as int, self.mag()), fixed_div(self.y.0 as int, self.mag()))
        }
    }

    /// Both components multiplied by the raw fixed-point factor `k`.
    pub open spec fn scaled(self, k: int) -> Vec2 {
        vec_of(fixed_mul(self.x.0 as int, k), fixed_mul(self.y.0 as int, k))
    }

    /// [`Vec2::scaled`] can be computed without overflow.
    pub open spec fn scale_ok(self, k: int) -> bool {
        mul_ok(self.x.0 as int, k) && mul_ok(self.y.0 as int, k)
    }

    /// The sum `a + b` can be computed without overflow.
    pub open spec fn add_ok(a: Vec2, b: Vec2) -> bool {
        in_i64(a.x.0 + b.x.0) && in_i64(a.y.0 + b.y.0)
    }

    pub fn new(x: Fixed, y: Fixed) -> (r: Vec2)
        ensures
            r.x == x,
            r.y == y,
    {
        Vec2 { x, y }
    }

    pub fn zero() -> (r: Vec2)
        ensures
            r.x.0 == 0,
            r.y.0 == 0,
    {
        Vec2 { x: Fixed::from_i32(0), y: Fixed::from_i32(0) }
    }

    pub fn magnitude_squared(self) -> (r: Fixed)
        requires
            self.mag_sq_ok(),
        ensures
            r.0 == self.mag_sq(),
    {
        self.x.mul(self.x).add(self.y.mul(self.y))
    }

    pub fn magnitude(self) -> (r: Fixed)
        requires
            self.mag_sq_ok(),
        ensures
            r.0 == self.mag(),
    {
        self.magnitude_squared().sqrt()
    }

    /// `self - other`, or `None` where a component does not fit.
    pub fn checked_sub(self, other: Vec2) -> (r: Option<Vec2>)
        ensures
            r.is_some() == Vec2::sub_ok(other, self),
            r matches Some(v) ==> v == Vec2::diff(other, self),
    {
        let x = match self.x.checked_sub(other.x) {
            Some(v) => v,
            None => return None,
        };
        let y = match self.y.checked_sub(other.y) {
            Some(v) => v,
            None => return None,
        };
        Some(Vec2 { x, y })
    }

    /// The length, or `None` where the squared length does not fit.
    pub fn checked_magnitude(self) -> (r: Option<Fixed>)
        ensures
            r.is_some() == self.mag_sq_ok(),
            r matches Some(m) ==> m.0 == self.mag(),
    {
        let xx = match self.x.checked_mul(self.x) {
            Some(v) => v,
            None => return None,
        };
        let yy = match self.y.checked_mul(self.y) {
            Some(v) => v,
            None => return None,
        };
        match xx.checked_add(yy) {
            Some(s) => Some(s.sqrt()),
            None => None,
        }
    }

    /// The vector divided by its length, or the zero vector when the length
    /// is zero.
    pub fn normalize(self) -> (r: Vec2)
        requires
            self.mag_sq_ok(),
        ensures
            self.mag() == 0 ==> r.x.0 == 0 && r.y.0 == 0,
            self.mag() != 0 ==> r.x.0 == fixed_div(self.x.0 as int, self.mag()) && r.y.0
                == fixed_div(self.y.0 as int, self.mag()),
            r == self.unit(),
    {
        let mag = self.magnitude();
        proof {
            lemma_unit_fits(self);
        }
        if mag.0 == 0 {
            Vec2::zero()
        } else {
            Vec2 { x: self.x.div(mag), y: self.y.div(mag) }
        }
    }

    pub fn dot(self, other: Vec2) -> (r: Fixed)
        requires
            mul_ok(self.x.0 as int, other.x.0 as int),
            mul_ok(self.y.0 as int, other.y.0 as int),
            in_i64(fixed_mul(self.x.0 as int, other.x.0 as int) + fixed_mul(self.y.0 as int, other.y.0 as int)),
        ensures
            r.0 == fixed_mul(self.x.0 as int, other.x.0 as int) + fixed_mul(self.y.0 as int, other.y.0 as int),
    {
        self.x.mul(other.x).add(self.y.mul(other.y))
    }

    /// The length of `other - self`.
    pub fn distance_to(self, other: Vec2) -> (r: Fixed)
        requires
            Vec2::sub_ok(self, other),
            Vec2::diff(self, other).mag_sq_ok(),
        ensures
            r.0 == Vec2::diff(self, other).mag(),
    {
        other.sub(self).magnitude()
    }

    pub fn add(self, other: Vec2) -> (r: Vec2)
        requires
            in_i64(self.x.0 + other.x.0),
            in_i64(self.y.0 + other.y.0),
        ensures
            r.x.0 == self.x.0 + other.x.0,
            r.y.0 == self.y.0 + other.y.0,
    {
        Vec2 { x: self.x.add(other.x), y: self.y.add(other.y) }
    }

    pub fn sub(self, other: Vec2) -> (r: Vec2)
        requires
            in_i64(self.x.0 - other.x.0),
            in_i64(self.y.0 - other.y.0),
        ensures
            r.x.0 == self.x.0 - other.x.0,
            r.y.0 == self.y.0 - other.y.0,
    {
        Vec2 { x: self.x.sub(other.x), y: self.y.sub(other.y) }
    }

    /// Scales both components by a fixed-point number.
    pub fn mul(self, scale: Fixed) -> (r: Vec2)
        requires
            mul_ok(self.x.0 as int, scale.0 as int),
            mul_ok(self.y.0 as int, scale.0 as int),
        ensures
            r.x.0 == fixed_mul(self.x.0 as int, scale.0 as int),
            r.y.0 == fixed_mul(self.y.0 as int, scale.0 as int),
            r == self.scaled(scale.0 as int),
    {
        Vec2 { x: self.x.mul(scale), y: self.y.mul(scale) }
    }
}

/// A quotient by a positive number below `k` times it is below `k`.
proof fn lemma_div_below(a: int, m: int, k: int)
    requires
        0 <= a < k * m,
        m > 0,
    ensures
        0 <= a / m < k,
{
    vstd::arithmetic::div_mod::lemma_fundamental_div_mod(a, m);
    let q = a / m;
    let r = a % m;
    assert(0 <= q < k) by (nonlinear_arith)
        requires
            a == m * q + r,
            0 <= r < m,
            0 <= a < k * m,
            m > 0,
    ;
}

/// A component `x` of a vector whose squared length is `s`, and whose
/// length `m` is not zero, divided by that length fits: `|x| < 2^31 * m`.
proof fn lemma_component_div_fits(x: int, s: int, m: int)
    requires
        in_i64(x),
        fixed_mul(x, x) <= s,
        m == fixed_sqrt(s),
        m != 0,
    ensures
        div_ok(x, m),
{
    vstd::arithmetic::div_mod::lemma_fundamental_div_mod(x * x, scale());
    let xx = fixed_mul(x, x);
    assert(x * x >= 0) by (nonlinear_arith);
    assert(x * x < scale() * xx + scale());
    assert(s >= 0) by {
        vstd::arithmetic::div_mod::lemma_div_pos_is_pos(x * x, scale());
    }
    lemma_floor_sqrt_exists(s * scale());
    assert(m >= 1);
    assert(s * scale() < (m + 1) * (m + 1));
    assert(xx * scale() <= s * scale()) by (nonlinear_arith)
        requires
            xx <= s,
    ;
    let k = 0x8000_0000int * m;
    assert(x * x < k * k) by (nonlinear_arith)
        requires
            x * x < scale() * xx + scale(),
            xx * scale() < (m + 1) * (m + 1),
            m >= 1,
            k == 0x8000_0000int * m,
            scale() == 4294967296,
    ;
    let ax = if x >= 0 { x } else { -x };
    assert(ax * ax == x * x) by (nonlinear_arith)
        requires
            ax == x || ax == -x,
    ;
    if ax >= k {
        lemma_square_monotonic(k, ax);
    }
    assert(ax < k);
    assert(ax * scale() < 0x8000_0000_0000_0000int * m) by (nonlinear_arith)
        requires
            ax < k,
            k == 0x8000_0000int * m,
            scale() == 4294967296,
            m >= 1,
            ax >= 0,
    ;
    lemma_div_below(ax * scale(), m, 0x8000_0000_0000_0000int);
    if x < 0 {
        assert(-(x * scale()) == ax * scale());
    }
}

/// The quotients of [`Vec2::unit`] always fit: a vector whose squared
/// length can be computed can be normalised.
pub proof fn lemma_unit_fits(v: Vec2)
    requires
        v.mag_sq_ok(),
    ensures
        v.unit_ok(),
{
    let x = v.x.0 as int;
    let y = v.y.0 as int;
    assert(x * x >= 0 && y * y >= 0) by (nonlinear_arith);
    vstd::arithmetic::div_mod::lemma_div_pos_is_pos(x * x, scale());
    vstd::arithmetic::div_mod::lemma_div_pos_is_pos(y * y, scale());
    if v.mag() != 0 {
        lemma_component_div_fits(x, v.mag_sq(), v.mag());
        lemma_component_div_fits(y, v.mag_sq(), v.mag());
    }
}

/// A square root is never negative.
pub proof fn lemma_fixed_sqrt_nonneg(a: int)
    ensures
        fixed_sqrt(a) >= 0,
{
    if 0 <= a {
        lemma_floor_sqrt_exists(a * scale());
    }
}

/// An integer made a fixed-point number and read back is itself:
/// `Fixed::from_i32(n).to_i32() == n`.
pub proof fn law_int_roundtrip(n: i32)
    ensures
        (n * scale()) / scale() == n,
{
    vstd::arithmetic::div_mod::lemma_div_multiples_vanish(n as int, scale());
    assert(scale() * n == n * scale()) by (nonlinear_arith);
}

/// Adding a number and subtracting it again gives the first one back.
pub proof fn law_add_sub(a: Fixed, b: Fixed)
    requires
        in_i64(a.0 + b.0),
    ensures
        in_i64((a.0 + b.0) - b.0),
        (a.0 + b.0) - b.0 == a.0,
{
}

/// Multiplying by one changes nothing.
pub proof fn law_mul_one(a: Fixed)
    ensures
        fixed_mul(a.0 as int, scale()) == a.0,
{
    vstd::arithmetic::div_mod::lemma_div_multiples_vanish(a.0 as int, scale());
    assert(scale() * a.0 == a.0 * scale()) by (nonlinear_arith);
}

/// Multiplication commutes.
pub proof fn law_mul_commutes(a: Fixed, b: Fixed)
    ensures
        fixed_mul(a.0 as int, b.0 as int) == fixed_mul(b.0 as int, a.0 as int),
        mul_ok(a.0 as int, b.0 as int) == mul_ok(b.0 as int, a.0 as int),
{
    assert(a.0 * b.0 == b.0 * a.0) by (nonlinear_arith);
}

/// The dot product is symmetric.
pub proof fn law_dot_symmetric(u: Vec2, v: Vec2)
    ensures
        fixed_mul(u.x.0 as int, v.x.0 as int) + fixed_mul(u.y.0 as int, v.y.0 as int) == fixed_mul(
            v.x.0 as int,
            u.x.0 as int,
        ) + fixed_mul(v.y.0 as int, u.y.0 as int),
{
    law_mul_commutes(u.x, v.x);
    law_mul_commutes(u.y, v.y);
}

/// The square root never decreases as its argument grows.
pub proof fn law_sqrt_monotonic(a: int, b: int)
    requires
        a <= b,
    ensures
        0 <= fixed_sqrt(a) <= fixed_sqrt(b),
{
    lemma_fixed_sqrt_nonneg(a);
    lemma_fixed_sqrt_nonneg(b);
    if 0 <= a {
        let na = a * scale();
        let nb = b * scale();
        lemma_floor_sqrt_exists(na);
        lemma_floor_sqrt_exists(nb);
        let sa = floor_sqrt(na);
        let sb = floor_sqrt(nb);
        assert(na <= nb) by (nonlinear_arith)
            requires
                a <= b,
                na == a * scale(),
                nb == b * scale(),
        ;
        if sa > sb {
            lemma_square_monotonic(sb + 1, sa);
        }
    }
}

/// A point is at distance zero from itself.
pub proof fn law_distance_to_self(v: Vec2)
    ensures
        Vec2::sub_ok(v, v),
        Vec2::diff(v, v).mag_sq_ok(),
        Vec2::diff(v, v).mag() == 0,
{
    let d = Vec2::diff(v, v);
    assert(d.x.0 == 0 && d.y.0 == 0);
    assert(fixed_mul(0, 0) == 0);
    assert(d.mag_sq() == 0);
    lemma_floor_sqrt_exists(0);
    lemma_floor_sqrt_is(0, 0);
}

} // verus!
