use crate::fixed::{isqrt_of, isqrt_u128, lemma_isqrt_bounds, TRIG_ONE};
use vstd::arithmetic::div_mod::{
    lemma_div_multiples_vanish, lemma_div_pos_is_pos, lemma_fundamental_div_mod,
    lemma_fundamental_div_mod_converse_mod, lemma_multiply_divide_le, lemma_multiply_divide_lt,
};
use vstd::prelude::*;

verus! {

/// A full turn, in thousandths of a degree.
pub const FULL_TURN_MDEG: u32 = 360000;

/// Half a turn, in thousandths of a degree.
pub const HALF_TURN_MDEG: u32 = 180000;

/// A quarter turn, in thousandths of a degree.
pub const QUARTER_TURN_MDEG: u32 = 90000;

/// Numerator of the rational sine approximation on the first half turn.
pub open spec fn sine_quot_num(x: int) -> int {
    4 * x * (180000 - x) * (TRIG_ONE as int)
}

/// Denominator of the rational sine approximation on the first half turn.
pub open spec fn sine_quot_den(x: int) -> int {
    40500000000 - x * (180000 - x)
}

/// Sine on `[0, 180000]` millidegrees, at scale `TRIG_ONE`, as the floor of
/// a rational approximation that is exact at 0, 90 and 180 degrees.
pub open spec fn sine_half_turn(x: int) -> int {
    sine_quot_num(x) / sine_quot_den(x)
}

/// Sine of an angle in `[0, 360000)` millidegrees, at scale `TRIG_ONE`,
/// by odd symmetry from the first half turn.
pub open spec fn sin_mdeg(a: int) -> int {
    if a <= 180000 {
        sine_half_turn(a)
    } else {
        -sine_half_turn(a - 180000)
    }
}

/// Cosine of an angle in `[0, 360000)` millidegrees, at scale `TRIG_ONE`:
/// the magnitude completes the sine on the unit circle, the sign follows
/// the quadrant.
pub open spec fn cos_mdeg(a: int) -> int {
    let s = sin_mdeg(a);
    let m = isqrt_of((1048576 - s * s) as nat) as int;
    if 90000 < a && a < 270000 {
        -m
    } else {
        m
    }
}

/// On the first half turn the sine approximation stays within `[0, TRIG_ONE]`.
pub proof fn lemma_sine_half_turn_bounds(x: int)
    requires
        0 <= x <= 180000,
    ensures
        0 <= sine_half_turn(x) <= TRIG_ONE,
{
    let t = x * (180000 - x);
    assert(0 <= t <= 8100000000) by (nonlinear_arith)
        requires
            0 <= x <= 180000,
            t == x * (180000 - x),
    ;
    assert(4 * x * (180000 - x) * 1024 == 4096 * t) by (nonlinear_arith)
        requires
            t == x * (180000 - x),
    ;
    assert(sine_quot_num(x) == 4096 * t);
    let den = sine_quot_den(x);
    lemma_div_pos_is_pos(4096 * t, den);
    assert(4096 * t <= den * 1024) by (nonlinear_arith)
        requires
            t <= 8100000000,
            den == 40500000000 - t,
    ;
    lemma_multiply_divide_le(4096 * t, den, 1024);
}

/// Everywhere but at the quarter turn itself the sine approximation stays
/// strictly below `TRIG_ONE`.
pub proof fn lemma_sine_peak_only_at_quarter(x: int)
    requires
        0 <= x <= 180000,
        x != 90000,
    ensures
        0 <= sine_half_turn(x) <= TRIG_ONE - 1,
{
    let t = x * (180000 - x);
    assert(0 <= t <= 8099999999) by (nonlinear_arith)
        requires
            0 <= x <= 180000,
            x != 90000,
            t == x * (180000 - x),
    ;
    assert(4 * x * (180000 - x) * 1024 == 4096 * t) by (nonlinear_arith)
        requires
            t == x * (180000 - x),
    ;
    assert(sine_quot_num(x) == 4096 * t);
    let den = sine_quot_den(x);
    lemma_div_pos_is_pos(4096 * t, den);
    assert(4096 * t < den * 1024) by (nonlinear_arith)
        requires
            t <= 8099999999,
            den == 40500000000 - t,
    ;
    lemma_multiply_divide_lt(4096 * t, den, 1024);
}

/// The sine approximation is exact at the cardinal angles of the first
/// half turn.
pub proof fn lemma_sine_cardinal()
    ensures
        sine_half_turn(0) == 0,
        sine_half_turn(90000) == TRIG_ONE,
        sine_half_turn(180000) == 0,
{
    assert(sine_quot_num(0) == 0);
    assert(sine_quot_num(180000) == 0);
    assert(sine_quot_den(0) == 40500000000);
    assert(sine_quot_den(180000) == 40500000000);
    assert(0int / 40500000000 == 0);
    assert(sine_quot_num(90000) == 33177600000000);
    assert(sine_quot_den(90000) == 32400000000);
    lemma_div_multiples_vanish(1024, 32400000000);
    assert(32400000000int * 1024 == 33177600000000);
}

/// The sine of any angle lies within `[-TRIG_ONE, TRIG_ONE]`.
pub proof fn lemma_sin_mdeg_range(a: int)
    requires
        0 <= a < 360000,
    ensures
        -TRIG_ONE <= sin_mdeg(a) <= TRIG_ONE,
{
    if a <= 180000 {
        lemma_sine_half_turn_bounds(a);
    } else {
        lemma_sine_half_turn_bounds(a - 180000);
    }
}

/// The cosine of any angle lies within `[-TRIG_ONE, TRIG_ONE]`, and its
/// square completes the sine on the unit circle up to the rounding of the
/// square root.
pub proof fn lemma_cos_mdeg_range(a: int)
    requires
        0 <= a < 360000,
    ensures
        -TRIG_ONE <= cos_mdeg(a) <= TRIG_ONE,
        cos_mdeg(a) * cos_mdeg(a) + sin_mdeg(a) * sin_mdeg(a) <= 1048576,
        cos_mdeg(a) * cos_mdeg(a) + sin_mdeg(a) * sin_mdeg(a) > 1048576 - 2049,
{
    let s = sin_mdeg(a);
    let c = cos_mdeg(a);
    lemma_sin_mdeg_range(a);
    assert(0 <= s * s <= 1048576) by (nonlinear_arith)
        requires
            -1024 <= s <= 1024,
    ;
    let rem = (1048576 - s * s) as nat;
    let m = isqrt_of(rem);
    lemma_isqrt_bounds(rem);
    assert(m <= 1024) by (nonlinear_arith)
        requires
            m * m <= rem,
            rem <= 1048576,
    ;
    assert(c == m || c == -(m as int));
    assert(c * c == m * m) by (nonlinear_arith)
        requires
            c == m || c == -(m as int),
    ;
    assert(rem < m * m + 2 * m + 1) by (nonlinear_arith)
        requires
            rem < (m + 1) * (m + 1),
    ;
}

/// Sine on the first half turn, computed with unsigned machine words.
fn sine_half_turn_exec(x: u32) -> (s: i64)
    requires
        x <= 180000,
    ensures
        s as int == sine_half_turn(x as int),
        0 <= s <= TRIG_ONE,
{
    proof {
        lemma_sine_half_turn_bounds(x as int);
    }
    let xi = x as u64;
    proof {
        assert((xi as int) * (180000 - xi as int) <= 8100000000) by (nonlinear_arith)
            requires
                0 <= xi <= 180000,
        ;
    }
    let t: u64 = xi * (180000 - xi);
    let num: u64 = 4096 * t;
    let den: u64 = 40500000000 - t;
    proof {
        assert(4 * (xi as int) * (180000 - xi as int) * 1024 == 4096 * ((xi as int) * (180000
            - xi as int))) by (nonlinear_arith);
        assert(num as int == sine_quot_num(x as int));
        assert(den as int == sine_quot_den(x as int));
    }
    (num / den) as i64
}

/// Sine and cosine of an angle in millidegrees, at scale `TRIG_ONE`.
pub fn sin_cos_mdeg(a: u32) -> (sc: (i64, i64))
    requires
        a < 360000,
    ensures
        sc.0 as int == sin_mdeg(a as int),
        sc.1 as int == cos_mdeg(a as int),
        -TRIG_ONE <= sc.0 <= TRIG_ONE,
        -TRIG_ONE <= sc.1 <= TRIG_ONE,
{
    let s: i64 = if a <= 180000 {
        sine_half_turn_exec(a)
    } else {
        -sine_half_turn_exec(a - 180000)
    };
    proof {
        assert(0 <= s * s <= 1048576) by (nonlinear_arith)
            requires
                -1024 <= s <= 1024,
        ;
    }
    let s_sq: i64 = s * s;
    let rem: u64 = (1048576 - s_sq) as u64;
    let m_wide = isqrt_u128(rem as u128);
    proof {
        assert(m_wide <= 1024) by (nonlinear_arith)
            requires
                (m_wide as int) * (m_wide as int) <= rem,
                rem <= 1048576,
        ;
    }
    let m: i64 = m_wide as i64;
    let c: i64 = if 90000 < a && a < 270000 {
        -m
    } else {
        m
    };
    (s, c)
}

/// Folds any accumulated angle into `[0, 360000)` millidegrees; the result
/// is the mathematical (Euclidean) remainder of the input.
pub fn wrap_angle_mdeg(raw: i64) -> (a: u32)
    requires
        raw > i64::MIN,
    ensures
        a < 360000,
        a as int == (raw as int) % 360000,
{
    if raw >= 0 {
        ((raw as u64) % 360000) as u32
    } else {
        let neg = (-raw) as u64;
        let m = neg % 360000;
        proof {
            lemma_fundamental_div_mod(neg as int, 360000);
            let q = neg as int / 360000;
            if m == 0 {
                assert(raw as int == (-q) * 360000 + 0);
                lemma_fundamental_div_mod_converse_mod(raw as int, 360000, -q, 0);
            } else {
                assert(raw as int == (-q - 1) * 360000 + (360000 - m));
                lemma_fundamental_div_mod_converse_mod(raw as int, 360000, -q - 1, 360000 - m);
            }
        }
        if m == 0 {
            0
        } else {
            (360000 - m) as u32
        }
    }
}

} // verus!
