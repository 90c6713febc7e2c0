use vstd::arithmetic::div_mod::{lemma_div_nonincreasing, lemma_div_pos_is_pos};
use vstd::prelude::*;

verus! {

/// One distance unit, held in thousandths: positions, speeds and time deltas
/// are fixed-point values at this scale.
pub const MILLI_ONE: i64 = 1000;

/// Fixed-point scale of trigonometric values: `TRIG_ONE` stands for 1.0.
pub const TRIG_ONE: i64 = 1024;

/// Fixed-point scale of direction vectors: a vector whose length is `DIR_ONE`
/// has unit length.  `DIR_ONE` is `TRIG_ONE` squared, so the product of two
/// trigonometric values is already at direction scale.
pub const DIR_ONE: i64 = 1048576;

/// Division that rounds towards zero, as the hardware division instruction
/// does on signed operands.
pub open spec fn div_towards_zero(a: int, b: int) -> int
    recommends
        b > 0,
{
    if a >= 0 {
        a / b
    } else {
        -((-a) / b)
    }
}

/// The magnitude of a quotient never exceeds the magnitude of the dividend
/// (for divisors of at least one).
pub proof fn lemma_div_towards_zero_bounds(a: int, b: int)
    requires
        b >= 1,
    ensures
        a >= 0 ==> 0 <= div_towards_zero(a, b) <= a,
        a < 0 ==> a <= div_towards_zero(a, b) <= 0,
{
    if a >= 0 {
        lemma_div_nonincreasing(a, b);
        lemma_div_pos_is_pos(a, b);
    } else {
        lemma_div_nonincreasing(-a, b);
        lemma_div_pos_is_pos(-a, b);
    }
}

/// Truncating division is odd in its dividend.
pub proof fn lemma_div_towards_zero_neg(a: int, b: int)
    requires
        b >= 1,
    ensures
        div_towards_zero(-a, b) == -div_towards_zero(a, b),
{
    if a > 0 {
        assert(div_towards_zero(-a, b) == -((a) / b));
    } else if a == 0 {
        assert(div_towards_zero(0, b) == 0);
    }
}

/// Truncating signed division, computed on magnitudes so that the unsigned
/// division of the machine realises exactly `div_towards_zero`.
pub fn div_trunc_i64(a: i64, b: i64) -> (r: i64)
    requires
        b > 0,
        a > i64::MIN,
    ensures
        r as int == div_towards_zero(a as int, b as int),
{
    proof {
        lemma_div_towards_zero_bounds(a as int, b as int);
    }
    if a >= 0 {
        ((a as u64) / (b as u64)) as i64
    } else {
        -((((-a) as u64) / (b as u64)) as i64)
    }
}

/// Truncating signed division on wide intermediates.
pub fn div_trunc_i128(a: i128, b: i128) -> (r: i128)
    requires
        b > 0,
        a > i128::MIN,
    ensures
        r as int == div_towards_zero(a as int, b as int),
{
    proof {
        lemma_div_towards_zero_bounds(a as int, b as int);
    }
    if a >= 0 {
        ((a as u128) / (b as u128)) as i128
    } else {
        -((((-a) as u128) / (b as u128)) as i128)
    }
}

/// The integer square root: the largest `r` with `r * r <= n`.
pub open spec fn isqrt_of(n: nat) -> nat
    decreases n,
{
    if n == 0 {
        0
    } else {
        let p = isqrt_of((n - 1) as nat);
        if (p + 1) * (p + 1) <= n {
            p + 1
        } else {
            p
        }
    }
}

/// `isqrt_of(n)` is indeed the integer square root of `n`.
pub proof fn lemma_isqrt_bounds(n: nat)
    ensures
        isqrt_of(n) * isqrt_of(n) <= n,
        n < (isqrt_of(n) + 1) * (isqrt_of(n) + 1),
    decreases n,
{
    if n == 0 {
        assert(isqrt_of(0) == 0);
        assert(n < (isqrt_of(n) + 1) * (isqrt_of(n) + 1)) by (nonlinear_arith)
            requires
                n == 0,
                isqrt_of(n) == 0,
        ;
    } else {
        let p = isqrt_of((n - 1) as nat);
        lemma_isqrt_bounds((n - 1) as nat);
        assert(p * p <= n - 1 && n - 1 < (p + 1) * (p + 1));
        if (p + 1) * (p + 1) <= n {
            assert(isqrt_of(n) == p + 1);
            assert((p + 1) * (p + 1) < (p + 2) * (p + 2)) by (nonlinear_arith);
            assert(isqrt_of(n) * isqrt_of(n) <= n);
            assert(n < (isqrt_of(n) + 1) * (isqrt_of(n) + 1));
        } else {
            assert(isqrt_of(n) == p);
            assert(isqrt_of(n) * isqrt_of(n) <= n);
            assert(n < (isqrt_of(n) + 1) * (isqrt_of(n) + 1));
        }
    }
}

/// Any `r` whose square brackets `n` is the integer square root of `n`.
pub proof fn lemma_isqrt_unique(n: nat, r: nat)
    requires
        r * r <= n,
        n < (r + 1) * (r + 1),
    ensures
        r == isqrt_of(n),
{
    let q = isqrt_of(n);
    lemma_isqrt_bounds(n);
    if r < q {
        assert((r + 1) * (r + 1) <= q * q) by (nonlinear_arith)
            requires
                r + 1 <= q,
        ;
    } else if q < r {
        assert((q + 1) * (q + 1) <= r * r) by (nonlinear_arith)
            requires
                q + 1 <= r,
        ;
    }
}

/// Any number whose square fits under `n` bounds the integer square root
/// of `n` from below.
pub proof fn lemma_isqrt_at_least(n: nat, t: nat)
    requires
        t * t <= n,
    ensures
        isqrt_of(n) >= t,
{
    lemma_isqrt_bounds(n);
    let q = isqrt_of(n);
    if q < t {
        assert((q + 1) * (q + 1) <= t * t) by (nonlinear_arith)
            requires
                q + 1 <= t,
        ;
    }
}

/// The integer square root, computed by binary search on wide operands.
pub fn isqrt_u128(n: u128) -> (r: u128)
    requires
        (n as int) < 0x40000000000000000000000000000000,
    ensures
        r as nat == isqrt_of(n as nat),
        r < 0x8000000000000000,
        (r as int) * (r as int) <= n as int,
        (n as int) < ((r + 1) as int) * ((r + 1) as int),
{
    let mut lo: u128 = 0;
    let mut hi: u128 = 0x8000000000000000;
    proof {
        assert((0x8000000000000000 as int) * (0x8000000000000000 as int)
            == 0x40000000000000000000000000000000);
    }
    while lo + 1 < hi
        invariant
            lo < hi,
            hi <= 0x8000000000000000,
            (lo as int) * (lo as int) <= n as int,
            (n as int) < (hi as int) * (hi as int),
        decreases hi - lo,
    {
        let mid = lo + (hi - lo) / 2;
        proof {
            assert((mid as int) * (mid as int) < 0x40000000000000000000000000000000)
                by (nonlinear_arith)
                requires
                    0 <= (mid as int) < 0x8000000000000000,
            ;
        }
        if mid * mid <= n {
            lo = mid;
        } else {
            hi = mid;
        }
    }
    proof {
        lemma_isqrt_unique(n as nat, lo as nat);
    }
    lo
}

} // verus!
