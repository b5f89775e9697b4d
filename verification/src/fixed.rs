//! Fixed-point arithmetic used throughout the engine.
//!
//! Every price, currency amount, rate and ratio in this crate is an integer
//! number of units of `1 / SCALE`, so `1.5` is stored as `15_000`.
//! Intermediate products are taken in `i128`; the bounds below keep every
//! intermediate result representable.

use vstd::prelude::*;

verus! {

/// One currency unit (or a ratio of exactly 1) in fixed-point form.
pub const SCALE: i128 = 10_000;

/// Largest admissible price, `10^8` currency units.
pub const MAX_PRICE: i64 = 1_000_000_000_000;

/// Largest admissible initial capital or position size, `10^8` currency units.
pub const MAX_AMOUNT: i64 = 1_000_000_000_000;

/// Largest admissible commission rate, 100 times the position size.
pub const MAX_RATE: i64 = 1_000_000;

/// Largest admissible number of ticks in one run.
pub const MAX_TICKS: usize = 100_000_000;

/// Period-over-period equity returns saturate at this magnitude
/// (a ratio of `10^9`), which keeps every variance computation in range.
pub const RET_CAP: i128 = 100_000_000_000_000;

/// Magnitude of a mathematical integer.
pub open spec fn abs_i(a: int) -> int {
    if a < 0 {
        -a
    } else {
        a
    }
}

/// Division rounding toward zero, total (zero divisor yields zero).
pub open spec fn div_trunc(a: int, b: int) -> int {
    if b == 0 {
        0
    } else {
        let q = abs_i(a) / abs_i(b);
        if (a < 0) != (b < 0) {
            -q
        } else {
            q
        }
    }
}

/// `x` clamped into `[-RET_CAP, RET_CAP]`.
pub open spec fn clamp_ret(x: int) -> int {
    if x > RET_CAP {
        RET_CAP as int
    } else if x < -RET_CAP {
        -RET_CAP as int
    } else {
        x
    }
}

/// Floor of the square root of a natural number.
pub open spec fn sqrt_floor(x: nat) -> nat
    decreases x,
{
    if x == 0 {
        0
    } else {
        let r = sqrt_floor((x - 1) as nat);
        if (r + 1) * (r + 1) <= x {
            r + 1
        } else {
            r
        }
    }
}

/// `sqrt_floor` really is the floor of the square root.
pub proof fn lemma_sqrt_floor_bounds(x: nat)
    ensures
        sqrt_floor(x) * sqrt_floor(x) <= x,
        x < (sqrt_floor(x) + 1) * (sqrt_floor(x) + 1),
    decreases x,
{
    if x == 0 {
        let s = sqrt_floor(x);
        assert(s == 0);
        assert((s + 1) * (s + 1) == 1) by (nonlinear_arith)
            requires
                s == 0,
        ;
    } else {
        lemma_sqrt_floor_bounds((x - 1) as nat);
        let r = sqrt_floor((x - 1) as nat);
        assert(r * r <= x - 1);
        assert(x - 1 < (r + 1) * (r + 1));
        if (r + 1) * (r + 1) <= x {
            assert(sqrt_floor(x) == r + 1);
            assert((r + 2) * (r + 2) > (r + 1) * (r + 1)) by (nonlinear_arith)
                requires
                    r >= 0,
            ;
            assert(x < (r + 2) * (r + 2));
        } else {
            assert(sqrt_floor(x) == r);
            assert(x < (r + 1) * (r + 1));
        }
    }
}

/// Any integer square-root bracket pins down `sqrt_floor`.
pub proof fn lemma_sqrt_floor_unique(x: nat, r: nat)
    requires
        r * r <= x,
        x < (r + 1) * (r + 1),
    ensures
        r == sqrt_floor(x),
{
    let s = sqrt_floor(x);
    lemma_sqrt_floor_bounds(x);
    if r < s {
        assert((r + 1) * (r + 1) <= s * s) by (nonlinear_arith)
            requires
                r + 1 <= s,
        ;
    }
    if s < r {
        assert((s + 1) * (s + 1) <= r * r) by (nonlinear_arith)
            requires
                s + 1 <= r,
        ;
    }
}

/// Truncating division of a non-negative value by a positive one is plain
/// integer division, and shrinks.
pub proof fn lemma_div_trunc_nonneg(a: int, b: int)
    requires
        a >= 0,
        b >= 1,
    ensures
        div_trunc(a, b) == a / b,
        0 <= div_trunc(a, b) <= a,
{
    assert(0 <= a / b <= a) by (nonlinear_arith)
        requires
            a >= 0,
            b >= 1,
    ;
}

/// A quotient's magnitude is bounded by any `cap` with `|a| <= b * cap`.
pub proof fn lemma_div_trunc_bound(a: int, b: int, cap: int)
    requires
        b >= 1,
        cap >= 0,
        abs_i(a) <= b * cap,
    ensures
        abs_i(div_trunc(a, b)) <= cap,
{
    assert(abs_i(a) / b <= cap) by (nonlinear_arith)
        requires
            abs_i(a) <= b * cap,
            b >= 1,
            cap >= 0,
            abs_i(a) >= 0,
    ;
}

/// Truncating signed division on `i128`.
pub fn div_i128(a: i128, b: i128) -> (q: i128)
    requires
        b != 0,
        a != i128::MIN,
        b != i128::MIN,
    ensures
        q == div_trunc(a as int, b as int),
        abs_i(q as int) <= abs_i(a as int),
{
    let ua: u128 = if a < 0 {
        (-a) as u128
    } else {
        a as u128
    };
    let ub: u128 = if b < 0 {
        (-b) as u128
    } else {
        b as u128
    };
    let uq: u128 = ua / ub;
    assert(uq <= ua) by (nonlinear_arith)
        requires
            ub >= 1,
            uq == ua as int / ub as int,
    ;
    if (a < 0) != (b < 0) {
        -(uq as i128)
    } else {
        uq as i128
    }
}

/// Floor of the square root, executable form (binary search).
pub fn isqrt_u128(x: u128) -> (r: u128)
    ensures
        r == sqrt_floor(x as nat),
        r * r <= x,
{
    let mut lo: u128 = 0;
    let mut hi: u128 = 0xFFFF_FFFF_FFFF_FFFF;
    assert((hi + 1) * (hi + 1) > x) by (nonlinear_arith)
        requires
            hi == 0xFFFF_FFFF_FFFF_FFFFu128,
            x <= u128::MAX,
    ;
    while lo < hi
        invariant
            lo <= hi,
            hi <= 0xFFFF_FFFF_FFFF_FFFF,
            lo * lo <= x,
            (hi + 1) * (hi + 1) > x,
        decreases hi - lo,
    {
        let mid: u128 = lo + (hi - lo + 1) / 2;
        assert(lo < mid <= hi);
        assert(mid * mid < 0x1_0000_0000_0000_0000_0000_0000_0000_0000) by (nonlinear_arith)
            requires
                mid <= 0xFFFF_FFFF_FFFF_FFFFu128,
        ;
        if mid * mid <= x {
            lo = mid;
        } else {
            hi = mid - 1;
        }
    }
    proof {
        lemma_sqrt_floor_unique(x as nat, lo as nat);
    }
    lo
}

} // verus!
