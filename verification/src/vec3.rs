use crate::fixed::{
    div_towards_zero, div_trunc_i128, isqrt_of, isqrt_u128, lemma_div_towards_zero_bounds,
    DIR_ONE,
};
use vstd::arithmetic::div_mod::lemma_multiply_divide_le;
use vstd::prelude::*;

verus! {

/// A three-component integer vector.  The fixed-point scale of the
/// components is assigned by the holder: positions are held in thousandths
/// of a unit, directions at scale `DIR_ONE`.
#[derive(Clone, Copy, Debug, PartialEq, Eq, Structural)]
pub struct Vec3 {
    pub x: i64,
    pub y: i64,
    pub z: i64,
}

/// Every component of `v` lies within `[-bound, bound]`.
pub open spec fn in_range(v: Vec3, bound: int) -> bool {
    &&& -bound <= v.x <= bound
    &&& -bound <= v.y <= bound
    &&& -bound <= v.z <= bound
}

/// The dot product of `a` and `b`.
pub open spec fn dot_spec(a: Vec3, b: Vec3) -> int {
    a.x * b.x + a.y * b.y + a.z * b.z
}

/// The squared Euclidean length of `v`.
pub open spec fn norm_sq_spec(v: Vec3) -> int {
    dot_spec(v, v)
}

/// The first component of the cross product of `a` and `b`.
pub open spec fn cross_x_spec(a: Vec3, b: Vec3) -> int {
    a.y * b.z - a.z * b.y
}

/// The second component of the cross product of `a` and `b`.
pub open spec fn cross_y_spec(a: Vec3, b: Vec3) -> int {
    a.z * b.x - a.x * b.z
}

/// The third component of the cross product of `a` and `b`.
pub open spec fn cross_z_spec(a: Vec3, b: Vec3) -> int {
    a.x * b.y - a.y * b.x
}

/// A component of `v`, normalised to scale `DIR_ONE`, rounded towards zero:
/// the component times `DIR_ONE` over the integer square root of the squared
/// length of `v`.
pub open spec fn unit_x_spec(v: Vec3) -> int {
    div_towards_zero(v.x * (DIR_ONE as int), isqrt_of(norm_sq_spec(v) as nat) as int)
}

/// See `unit_x_spec`.
pub open spec fn unit_y_spec(v: Vec3) -> int {
    div_towards_zero(v.y * (DIR_ONE as int), isqrt_of(norm_sq_spec(v) as nat) as int)
}

/// See `unit_x_spec`.
pub open spec fn unit_z_spec(v: Vec3) -> int {
    div_towards_zero(v.z * (DIR_ONE as int), isqrt_of(norm_sq_spec(v) as nat) as int)
}

/// A cross product stands exactly perpendicular on both of its factors.
pub proof fn lemma_cross_orthogonal(a: Vec3, b: Vec3)
    ensures
        a.x * cross_x_spec(a, b) + a.y * cross_y_spec(a, b) + a.z * cross_z_spec(a, b) == 0,
        b.x * cross_x_spec(a, b) + b.y * cross_y_spec(a, b) + b.z * cross_z_spec(a, b) == 0,
{
    assert(a.x * (a.y * b.z - a.z * b.y) + a.y * (a.z * b.x - a.x * b.z) + a.z * (a.x * b.y
        - a.y * b.x) == 0) by (nonlinear_arith);
    assert(b.x * (a.y * b.z - a.z * b.y) + b.y * (a.z * b.x - a.x * b.z) + b.z * (a.x * b.y
        - a.y * b.x) == 0) by (nonlinear_arith);
}

/// The cross product of two vectors, exact in integer arithmetic.
pub fn cross(a: &Vec3, b: &Vec3) -> (r: Vec3)
    requires
        in_range(*a, 0x10000000000),
        in_range(*b, 0x200000),
    ensures
        r.x as int == cross_x_spec(*a, *b),
        r.y as int == cross_y_spec(*a, *b),
        r.z as int == cross_z_spec(*a, *b),
        in_range(r, 0x4000000000000000),
{
    proof {
        assert forall|p: i64, q: i64|
            -0x10000000000 <= p <= 0x10000000000 && -0x200000 <= q <= 0x200000
                implies -0x2000000000000000 <= #[trigger] (p * q) <= 0x2000000000000000 by {
            assert(-0x2000000000000000 <= p * q <= 0x2000000000000000) by (nonlinear_arith)
                requires
                    -0x10000000000 <= p <= 0x10000000000,
                    -0x200000 <= q <= 0x200000,
            ;
        }
    }
    Vec3 {
        x: a.y * b.z - a.z * b.y,
        y: a.z * b.x - a.x * b.z,
        z: a.x * b.y - a.y * b.x,
    }
}

/// The squared length of a vector, on wide unsigned words.
pub fn norm_sq_u128(v: &Vec3) -> (n: u128)
    requires
        in_range(*v, 0x2000000000000000),
    ensures
        n as int == norm_sq_spec(*v),
        n < 0x40000000000000000000000000000000,
{
    proof {
        assert forall|p: i64| -0x2000000000000000 <= p <= 0x2000000000000000
            implies 0 <= #[trigger] ((p as i128) * (p as i128)) <= 0x4000000000000000000000000000000
            by {
            assert(0 <= (p as i128) * (p as i128) <= 0x4000000000000000000000000000000)
                by (nonlinear_arith)
                requires
                    -0x2000000000000000 <= (p as i128) <= 0x2000000000000000,
            ;
        }
    }
    let xx: i128 = (v.x as i128) * (v.x as i128);
    let yy: i128 = (v.y as i128) * (v.y as i128);
    let zz: i128 = (v.z as i128) * (v.z as i128);
    (xx + yy + zz) as u128
}

/// A number whose square is at most `n` is bounded by the integer square
/// root of `n`.
pub proof fn lemma_abs_le_isqrt(p: int, n: nat)
    requires
        p * p <= n,
    ensures
        -(isqrt_of(n) as int) <= p <= isqrt_of(n),
{
    crate::fixed::lemma_isqrt_bounds(n);
    let l = isqrt_of(n) as int;
    if p > l {
        assert((l + 1) * (l + 1) <= p * p) by (nonlinear_arith)
            requires
                0 <= l + 1 <= p,
        ;
    }
    if p < -l {
        assert((l + 1) * (l + 1) <= p * p) by (nonlinear_arith)
            requires
                p <= -(l + 1) <= 0,
        ;
    }
}

/// Each component of a vector is bounded by the integer square root of
/// the vector's squared length.
pub proof fn lemma_component_le_norm(v: Vec3)
    ensures
        -(isqrt_of(norm_sq_spec(v) as nat) as int) <= v.x <= isqrt_of(norm_sq_spec(v) as nat),
        -(isqrt_of(norm_sq_spec(v) as nat) as int) <= v.y <= isqrt_of(norm_sq_spec(v) as nat),
        -(isqrt_of(norm_sq_spec(v) as nat) as int) <= v.z <= isqrt_of(norm_sq_spec(v) as nat),
{
    let n = norm_sq_spec(v);
    assert(v.x * v.x <= n && v.y * v.y <= n && v.z * v.z <= n && n >= 0) by (nonlinear_arith)
        requires
            n == v.x * v.x + v.y * v.y + v.z * v.z,
    ;
    lemma_abs_le_isqrt(v.x as int, n as nat);
    lemma_abs_le_isqrt(v.y as int, n as nat);
    lemma_abs_le_isqrt(v.z as int, n as nat);
}

/// Scales a non-zero vector to nominal length `DIR_ONE`, rounding each
/// component towards zero.
pub fn normalize_dir(v: &Vec3) -> (r: Vec3)
    requires
        in_range(*v, 0x2000000000000000),
        norm_sq_spec(*v) > 0,
    ensures
        r.x as int == unit_x_spec(*v),
        r.y as int == unit_y_spec(*v),
        r.z as int == unit_z_spec(*v),
        in_range(r, DIR_ONE as int),
{
    let n = norm_sq_u128(v);
    let l = isqrt_u128(n);
    proof {
        crate::fixed::lemma_isqrt_bounds(n as nat);
        if l == 0 {
            assert(n < 1);
        }
        lemma_component_le_norm(*v);
        lemma_unit_component_bounds(v.x as int, l as int);
        lemma_unit_component_bounds(v.y as int, l as int);
        lemma_unit_component_bounds(v.z as int, l as int);
    }
    let li = l as i128;
    let rx = div_trunc_i128((v.x as i128) * (DIR_ONE as i128), li);
    let ry = div_trunc_i128((v.y as i128) * (DIR_ONE as i128), li);
    let rz = div_trunc_i128((v.z as i128) * (DIR_ONE as i128), li);
    Vec3 { x: rx as i64, y: ry as i64, z: rz as i64 }
}

/// A component no larger than the vector's length scales to at most
/// `DIR_ONE` under normalisation.
proof fn lemma_unit_component_bounds(p: int, l: int)
    requires
        1 <= l <= 0x8000000000000000,
        -l <= p <= l,
    ensures
        -0x800000000000000000000 <= p * (DIR_ONE as int) <= 0x800000000000000000000,
        -(DIR_ONE as int) <= div_towards_zero(p * (DIR_ONE as int), l) <= DIR_ONE as int,
{
    let d = p * (DIR_ONE as int);
    assert(d == p * 1048576);
    assert(-0x800000000000000000000 <= d <= 0x800000000000000000000);
    lemma_div_towards_zero_bounds(d, l);
    if p >= 0 {
        assert(d <= l * (DIR_ONE as int)) by (nonlinear_arith)
            requires
                d == p * (DIR_ONE as int),
                0 <= p <= l,
                DIR_ONE > 0,
        ;
        lemma_multiply_divide_le(d, l, DIR_ONE as int);
    } else {
        assert(-d <= l * (DIR_ONE as int)) by (nonlinear_arith)
            requires
                d == p * (DIR_ONE as int),
                -l <= p <= 0,
                DIR_ONE > 0,
        ;
        lemma_multiply_divide_le(-d, l, DIR_ONE as int);
    }
}


/// One truncated-division component, scaled back up by the divisor, has a
/// square between the original square and that square less twice the
/// magnitude times the divisor.
proof fn lemma_scaled_component_sq(a: int, l: int)
    requires
        l >= 1,
    ensures
        (div_towards_zero(a, l) * l) * (div_towards_zero(a, l) * l) <= a * a,
        (div_towards_zero(a, l) * l) * (div_towards_zero(a, l) * l) >= a * a - 2 * (
        vstd::math::abs(a) as int) * l,
{
    vstd::arithmetic::div_mod::lemma_fundamental_div_mod(vstd::math::abs(a) as int, l);
    vstd::arithmetic::div_mod::lemma_mod_division_less_than_divisor(
        vstd::math::abs(a) as int,
        l,
    );
    vstd::arithmetic::div_mod::lemma_div_pos_is_pos(vstd::math::abs(a) as int, l);
    let b = vstd::math::abs(a) as int;
    let qb = b / l;
    let e = b % l;
    assert(qb * l == b - e) by (nonlinear_arith)
        requires
            b == l * qb + e,
    ;
    assert(0 <= e <= b) by (nonlinear_arith)
        requires
            b == l * qb + e,
            0 <= e,
            0 <= qb,
            l >= 1,
    ;
    let q = div_towards_zero(a, l);
    if a >= 0 {
        assert(q * l == b - e);
    } else {
        assert(q == -qb);
        assert(q * l == -(b - e)) by (nonlinear_arith)
            requires
                q == -qb,
                qb * l == b - e,
        ;
    }
    assert((q * l) * (q * l) == (b - e) * (b - e) && a * a == b * b) by (nonlinear_arith)
        requires
            q * l == b - e || q * l == -(b - e),
            a == b || a == -b,
    ;
    assert((b - e) * (b - e) <= b * b && (b - e) * (b - e) >= b * b - 2 * b * l)
        by (nonlinear_arith)
        requires
            0 <= e <= b,
            e < l,
    ;
}

/// A normalised vector has unit length at scale `DIR_ONE` up to the
/// rounding of the divisions: its squared length lies within a few parts
/// per million of `DIR_ONE` squared, whenever the vector is at least half
/// the nominal length.
pub proof fn lemma_unit_length(v: Vec3)
    requires
        norm_sq_spec(v) > 0,
        isqrt_of(norm_sq_spec(v) as nat) >= 524288,
    ensures
        unit_x_spec(v) * unit_x_spec(v) + unit_y_spec(v) * unit_y_spec(v) + unit_z_spec(v)
            * unit_z_spec(v) <= 1048576 * 1048576 + 4 * 1048576,
        unit_x_spec(v) * unit_x_spec(v) + unit_y_spec(v) * unit_y_spec(v) + unit_z_spec(v)
            * unit_z_spec(v) >= 1048576 * 1048576 - 6 * 1048576,
{
    let n = norm_sq_spec(v);
    let l = isqrt_of(n as nat) as int;
    crate::fixed::lemma_isqrt_bounds(n as nat);
    assert(l * l <= n < l * l + 2 * l + 1) by (nonlinear_arith)
        requires
            l * l <= n,
            n < (l + 1) * (l + 1),
    ;
    lemma_component_le_norm(v);
    let ax = v.x * 1048576;
    let ay = v.y * 1048576;
    let az = v.z * 1048576;
    let qx = unit_x_spec(v);
    let qy = unit_y_spec(v);
    let qz = unit_z_spec(v);
    lemma_scaled_component_sq(ax, l);
    lemma_scaled_component_sq(ay, l);
    lemma_scaled_component_sq(az, l);
    assert(ax * ax + ay * ay + az * az == 1048576 * 1048576 * n) by (nonlinear_arith)
        requires
            ax == v.x * 1048576,
            ay == v.y * 1048576,
            az == v.z * 1048576,
            n == v.x * v.x + v.y * v.y + v.z * v.z,
    ;
    assert((vstd::math::abs(ax) as int) <= 1048576 * l && (vstd::math::abs(ay) as int)
        <= 1048576 * l && (vstd::math::abs(az) as int) <= 1048576 * l) by (nonlinear_arith)
        requires
            ax == v.x * 1048576,
            ay == v.y * 1048576,
            az == v.z * 1048576,
            -l <= v.x <= l,
            -l <= v.y <= l,
            -l <= v.z <= l,
            vstd::math::abs(ax) == (if ax >= 0 { ax } else { -ax }),
            vstd::math::abs(ay) == (if ay >= 0 { ay } else { -ay }),
            vstd::math::abs(az) == (if az >= 0 { az } else { -az }),
    ;
    let s = qx * qx + qy * qy + qz * qz;
    assert((qx * l) * (qx * l) == l * l * (qx * qx)) by (nonlinear_arith);
    assert((qy * l) * (qy * l) == l * l * (qy * qy)) by (nonlinear_arith);
    assert((qz * l) * (qz * l) == l * l * (qz * qz)) by (nonlinear_arith);
    assert(l * l * s == l * l * (qx * qx) + l * l * (qy * qy) + l * l * (qz * qz))
        by (nonlinear_arith)
        requires
            s == qx * qx + qy * qy + qz * qz,
    ;
    assert(s <= 1048576 * 1048576 + 4 * 1048576) by (nonlinear_arith)
        requires
            l * l * s <= ax * ax + ay * ay + az * az,
            ax * ax + ay * ay + az * az == 1048576 * 1048576 * n,
            n < l * l + 2 * l + 1,
            n <= l * l + 2 * l,
            l >= 524288,
    ;
    assert(2 * (vstd::math::abs(ax) as int) * l <= 2 * (1048576 * l) * l && 2 * (
    vstd::math::abs(ay) as int) * l <= 2 * (1048576 * l) * l && 2 * (vstd::math::abs(az)
        as int) * l <= 2 * (1048576 * l) * l) by (nonlinear_arith)
        requires
            (vstd::math::abs(ax) as int) <= 1048576 * l,
            (vstd::math::abs(ay) as int) <= 1048576 * l,
            (vstd::math::abs(az) as int) <= 1048576 * l,
            l >= 1,
    ;
    assert(s >= 1048576 * 1048576 - 6 * 1048576) by (nonlinear_arith)
        requires
            l * l * s >= ax * ax + ay * ay + az * az - 2 * (1048576 * l) * l - 2 * (1048576
                * l) * l - 2 * (1048576 * l) * l,
            ax * ax + ay * ay + az * az == 1048576 * 1048576 * n,
            n >= l * l,
            l >= 1,
    ;
}

} // verus!
