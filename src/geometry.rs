use vstd::prelude::*;

verus! {

/// One world unit, in the micro-units that coordinates are stored in.
pub const UNIT: i64 = 1_000_000;

/// One second, in the microseconds that durations are stored in.
pub const SECOND: i64 = 1_000_000;

/// Largest magnitude of a vector component, a mass or a duration (2^40).
pub const LIMIT: i64 = 1_099_511_627_776;

/// `v` held inside `[lo, hi]`.
pub open spec fn clamp_spec(v: int, lo: int, hi: int) -> int {
    if v < lo {
        lo
    } else if v > hi {
        hi
    } else {
        v
    }
}

/// `v` held inside `[-LIMIT, LIMIT]`.
pub open spec fn bounded(v: int) -> int {
    clamp_spec(v, -LIMIT as int, LIMIT as int)
}

/// `v` held inside `[-m, m]`.
pub open spec fn clamp_abs_spec(v: int, m: int) -> int {
    clamp_spec(v, -m, m)
}

/// Division that rounds toward zero, as machine integer division does.
pub open spec fn div_trunc(a: int, b: int) -> int {
    if a >= 0 {
        a / b
    } else {
        -((-a) / b)
    }
}

pub open spec fn abs_spec(v: int) -> int {
    if v < 0 {
        -v
    } else {
        v
    }
}

pub open spec fn sign_spec(v: int) -> int {
    if v < 0 {
        -1
    } else {
        1
    }
}

/// `r` is the integer square root of `n`.
pub open spec fn is_isqrt(n: int, r: int) -> bool {
    0 <= r && r * r <= n < (r + 1) * (r + 1)
}

/// The integer square root of a non-negative `n`.
pub open spec fn isqrt_spec(n: int) -> int {
    choose|r: int| is_isqrt(n, r)
}

pub proof fn lemma_isqrt_unique(n: int, a: int, b: int)
    requires
        is_isqrt(n, a),
        is_isqrt(n, b),
    ensures
        a == b,
{
    if a < b {
        assert((a + 1) * (a + 1) <= b * b) by (nonlinear_arith)
            requires
                0 <= a,
                a + 1 <= b,
        ;
    } else if b < a {
        assert((b + 1) * (b + 1) <= a * a) by (nonlinear_arith)
            requires
                0 <= b,
                b + 1 <= a,
        ;
    }
}

pub proof fn lemma_isqrt_is(n: int, r: int)
    requires
        is_isqrt(n, r),
    ensures
        isqrt_spec(n) == r,
{
    let c = isqrt_spec(n);
    assert(is_isqrt(n, c));
    lemma_isqrt_unique(n, r, c);
}

/// The integer square root, for values up to 2^82.
pub fn isqrt(n: u128) -> (r: u64)
    requires
        n <= 0x4_0000_0000_0000_0000_0000u128,
    ensures
        is_isqrt(n as int, r as int),
        r as int == isqrt_spec(n as int),
        r <= 0x800_0000_0000u64,
{
    let mut lo: u128 = 0;
    let mut hi: u128 = 0x800_0000_0001u128;
    assert(hi * hi > 0x4_0000_0000_0000_0000_0000u128) by (nonlinear_arith)
        requires
            hi == 0x800_0000_0001u128,
    ;
    while hi - lo > 1
        invariant
            lo < hi <= 0x800_0000_0001u128,
            lo * lo <= n,
            n < hi * hi,
        decreases hi - lo,
    {
        let mid: u128 = lo + (hi - lo) / 2;
        assert(mid * mid <= 0x800_0000_0001u128 * 0x800_0000_0001u128) by (nonlinear_arith)
            requires
                mid < 0x800_0000_0001u128,
        ;
        if mid * mid <= n {
            lo = mid;
        } else {
            hi = mid;
        }
    }
    assert(is_isqrt(n as int, lo as int));
    proof {
        lemma_isqrt_is(n as int, lo as int);
    }
    lo as u64
}

/// `v` held inside `[lo, hi]`.
pub fn clamp_i128(v: i128, lo: i64, hi: i64) -> (r: i64)
    requires
        lo <= hi,
    ensures
        r as int == clamp_spec(v as int, lo as int, hi as int),
{
    if v < lo as i128 {
        lo
    } else if v > hi as i128 {
        hi
    } else {
        v as i64
    }
}

/// `v` held inside `[-m, m]`.
pub fn clamp_abs(v: i64, m: i64) -> (r: i64)
    requires
        0 <= m,
    ensures
        r as int == clamp_abs_spec(v as int, m as int),
{
    clamp_i128(v as i128, -m, m)
}

/// Division rounding toward zero.
pub fn div_toward_zero(a: i128, b: i128) -> (r: i128)
    requires
        b > 0,
        a > i128::MIN,
    ensures
        r as int == div_trunc(a as int, b as int),
        abs_spec(r as int) <= abs_spec(a as int),
{
    if a >= 0 {
        a / b
    } else {
        let m = (-a) / b;
        -m
    }
}

/// The product of two machine integers fits in 128 bits.
pub proof fn lemma_product_fits(a: i64, b: i64)
    ensures
        i128::MIN < a * b <= i128::MAX,
{
    assert(-0x4000_0000_0000_0000_0000_0000_0000_0000 <= a * b <= 0x4000_0000_0000_0000_0000_0000_0000_0000) by (nonlinear_arith)
        requires
            -0x8000_0000_0000_0000 <= a < 0x8000_0000_0000_0000,
            -0x8000_0000_0000_0000 <= b < 0x8000_0000_0000_0000,
    ;
}

/// Taking a fraction of at most one never makes a value larger.
pub proof fn lemma_fraction_bound(a: int, num: int, den: int)
    requires
        0 <= num <= den,
        0 < den,
    ensures
        abs_spec(div_trunc(a * num, den)) <= abs_spec(a),
        a <= 0 ==> a <= div_trunc(a * num, den) <= 0,
        a <= 0 ==> div_trunc(a * num, den) * den >= a * num,
{
    let b = abs_spec(a);
    assert(0 <= b * num <= b * den) by (nonlinear_arith)
        requires
            0 <= num <= den,
            0 <= b,
    ;
    vstd::arithmetic::div_mod::lemma_fundamental_div_mod(b * num, den);
    let q = (b * num) / den;
    assert(q <= b) by (nonlinear_arith)
        requires
            b * num == den * q + (b * num) % den,
            0 <= (b * num) % den,
            b * num <= b * den,
            0 < den,
    ;
    assert(q >= 0) by (nonlinear_arith)
        requires
            b * num == den * q + (b * num) % den,
            (b * num) % den < den,
            0 <= b * num,
            0 < den,
    ;
    if a < 0 {
        assert(-a * num == b * num);
        assert(a * num == -(b * num)) by (nonlinear_arith)
            requires
                b == -a,
        ;
        assert(q * den <= b * num) by (nonlinear_arith)
            requires
                b * num == den * q + (b * num) % den,
                0 <= (b * num) % den,
        ;
        if num == 0 {
            assert(a * num == 0);
            assert(div_trunc(a * num, den) == 0);
        } else {
            assert(a * num < 0) by (nonlinear_arith)
                requires
                    a < 0,
                    num > 0,
            ;
            assert(div_trunc(a * num, den) == -q);
            assert((-q) * den >= a * num) by (nonlinear_arith)
                requires
                    q * den <= b * num,
                    a * num == -(b * num),
            ;
        }
    }
}

/// A displacement, velocity or direction in the plane, in micro-units.
#[derive(Clone, Copy, Debug, PartialEq, Eq, Structural)]
pub struct Vec2 {
    pub x: i64,
    pub y: i64,
}

impl Vec2 {
    /// Both components lie within `[-LIMIT, LIMIT]`.
    pub open spec fn wf(self) -> bool {
        -LIMIT <= self.x <= LIMIT && -LIMIT <= self.y <= LIMIT
    }

    pub open spec fn len_sq(self) -> int {
        self.x * self.x + self.y * self.y
    }

    pub open spec fn plus(self, o: Vec2) -> Vec2 {
        Vec2 { x: bounded(self.x + o.x) as i64, y: bounded(self.y + o.y) as i64 }
    }

    pub open spec fn minus(self, o: Vec2) -> Vec2 {
        Vec2 { x: bounded(self.x - o.x) as i64, y: bounded(self.y - o.y) as i64 }
    }

    /// `self * num / den`, each component rounded toward zero.
    pub open spec fn times(self, num: int, den: int) -> Vec2 {
        Vec2 {
            x: bounded(div_trunc(self.x * num, den)) as i64,
            y: bounded(div_trunc(self.y * num, den)) as i64,
        }
    }

    pub open spec fn length(self) -> int {
        isqrt_spec(self.len_sq())
    }

    /// At most `max` long: scaled down along its own direction when longer.
    pub open spec fn clamped_len(self, max: int) -> Vec2 {
        if self.len_sq() <= max * max {
            self
        } else {
            self.times(max, self.length())
        }
    }

    /// Pointing as `self` does, one unit long; zero for zero.
    pub open spec fn unit_dir(self) -> Vec2 {
        if self.len_sq() == 0 {
            Vec2 { x: 0, y: 0 }
        } else {
            self.times(UNIT as int, self.length())
        }
    }

    pub fn new(x: i64, y: i64) -> (r: Vec2)
        ensures
            r == (Vec2 { x, y }),
    {
        Vec2 { x, y }
    }

    pub fn zero() -> (r: Vec2)
        ensures
            r == (Vec2 { x: 0, y: 0 }),
            r.wf(),
    {
        Vec2 { x: 0, y: 0 }
    }

    pub fn add(self, o: Vec2) -> (r: Vec2)
        ensures
            r == self.plus(o),
            r.wf(),
    {
        Vec2 {
            x: clamp_i128(self.x as i128 + o.x as i128, -LIMIT, LIMIT),
            y: clamp_i128(self.y as i128 + o.y as i128, -LIMIT, LIMIT),
        }
    }

    pub fn sub(self, o: Vec2) -> (r: Vec2)
        ensures
            r == self.minus(o),
            r.wf(),
    {
        Vec2 {
            x: clamp_i128(self.x as i128 - o.x as i128, -LIMIT, LIMIT),
            y: clamp_i128(self.y as i128 - o.y as i128, -LIMIT, LIMIT),
        }
    }

    /// `self * num / den`, rounded toward zero and held within the limit.
    pub fn scale(self, num: i64, den: i64) -> (r: Vec2)
        requires
            self.wf(),
            -LIMIT <= num <= LIMIT,
            0 < den,
        ensures
            r == self.times(num as int, den as int),
            r.wf(),
    {
        assert(-LIMIT * LIMIT <= self.x * num <= LIMIT * LIMIT) by (nonlinear_arith)
            requires
                -LIMIT <= self.x <= LIMIT,
                -LIMIT <= num <= LIMIT,
        ;
        assert(-LIMIT * LIMIT <= self.y * num <= LIMIT * LIMIT) by (nonlinear_arith)
            requires
                -LIMIT <= self.y <= LIMIT,
                -LIMIT <= num <= LIMIT,
        ;
        let x = div_toward_zero(self.x as i128 * num as i128, den as i128);
        let y = div_toward_zero(self.y as i128 * num as i128, den as i128);
        Vec2 { x: clamp_i128(x, -LIMIT, LIMIT), y: clamp_i128(y, -LIMIT, LIMIT) }
    }

    pub fn dot(self, o: Vec2) -> (r: i128)
        requires
            self.wf(),
            o.wf(),
        ensures
            r == self.x * o.x + self.y * o.y,
    {
        assert(-LIMIT * LIMIT <= self.x * o.x <= LIMIT * LIMIT) by (nonlinear_arith)
            requires
                -LIMIT <= self.x <= LIMIT,
                -LIMIT <= o.x <= LIMIT,
        ;
        assert(-LIMIT * LIMIT <= self.y * o.y <= LIMIT * LIMIT) by (nonlinear_arith)
            requires
                -LIMIT <= self.y <= LIMIT,
                -LIMIT <= o.y <= LIMIT,
        ;
        self.x as i128 * o.x as i128 + self.y as i128 * o.y as i128
    }

    pub fn len_squared(self) -> (r: u128)
        requires
            self.wf(),
        ensures
            r == self.len_sq(),
            r <= 2 * LIMIT * LIMIT,
    {
        assert(0 <= self.x * self.x <= LIMIT * LIMIT) by (nonlinear_arith)
            requires
                -LIMIT <= self.x <= LIMIT,
        ;
        assert(0 <= self.y * self.y <= LIMIT * LIMIT) by (nonlinear_arith)
            requires
                -LIMIT <= self.y <= LIMIT,
        ;
        (self.x as i128 * self.x as i128 + self.y as i128 * self.y as i128) as u128
    }

    /// Euclidean length, rounded down.
    pub fn len(self) -> (r: i64)
        requires
            self.wf(),
        ensures
            r == self.length(),
            is_isqrt(self.len_sq(), r as int),
            0 <= r <= 2 * LIMIT,
    {
        let n = self.len_squared();
        let r = isqrt(n);
        assert(r <= 2 * LIMIT) by (nonlinear_arith)
            requires
                r * r <= n,
                n <= 2 * LIMIT * LIMIT,
                r >= 0,
        ;
        r as i64
    }

    /// Scaled down to at most `max` long.
    pub fn clamp_len(self, max: i64) -> (r: Vec2)
        requires
            self.wf(),
            0 <= max <= LIMIT,
        ensures
            r == self.clamped_len(max as int),
            r.wf(),
    {
        let n = self.len_squared();
        assert(max * max <= LIMIT * LIMIT) by (nonlinear_arith)
            requires
                0 <= max <= LIMIT,
        ;
        if n <= max as u128 * max as u128 {
            self
        } else {
            let l = self.len();
            assert(l > 0) by (nonlinear_arith)
                requires
                    n > max * max,
                    n < (l + 1) * (l + 1),
                    0 <= max,
                    0 <= l,
            ;
            self.scale(max, l)
        }
    }

    /// One unit long in the direction of `self`, or zero.
    pub fn normalize_or_zero(self) -> (r: Vec2)
        requires
            self.wf(),
        ensures
            r == self.unit_dir(),
            r.wf(),
    {
        let n = self.len_squared();
        if n == 0 {
            Vec2 { x: 0, y: 0 }
        } else {
            let l = self.len();
            assert(l > 0) by (nonlinear_arith)
                requires
                    n > 0,
                    n < (l + 1) * (l + 1),
                    0 <= l,
            ;
            self.scale(UNIT, l)
        }
    }
}

} // verus!
