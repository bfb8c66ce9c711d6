//! Exact rational scalars.
//!
//! A `Rat` holds a numerator and a positive denominator, both
//! arbitrary-precision integers. Its mathematical value is the spec-level
//! pair `Q`: two unbounded integers `n`, `d` standing for the rational
//! `n / d`. Two pairs denote the same rational exactly when they satisfy
//! `q_eq` (equality of the cross products), and the order of values with
//! positive denominators is `q_lt` / `q_le`, again by cross products.

use vstd::prelude::*;
use crate::bigint::{big_int_of, big_from_i64, big_add, big_sub, big_mul, big_neg, big_clone, big_lt, big_eq};

verus! {

/// The mathematical value of a rational: the fraction `n / d`.
pub ghost struct Q {
    pub n: int,
    pub d: int,
}

/// A well-formed rational value has a positive denominator.
pub open spec fn q_wf(a: Q) -> bool {
    a.d > 0
}

/// The rational holding the integer `i`.
pub open spec fn q_int(i: int) -> Q {
    Q { n: i, d: 1 }
}

pub open spec fn q_add(a: Q, b: Q) -> Q {
    Q { n: a.n * b.d + b.n * a.d, d: a.d * b.d }
}

pub open spec fn q_sub(a: Q, b: Q) -> Q {
    Q { n: a.n * b.d - b.n * a.d, d: a.d * b.d }
}

pub open spec fn q_neg(a: Q) -> Q {
    Q { n: -a.n, d: a.d }
}

pub open spec fn q_mul(a: Q, b: Q) -> Q {
    Q { n: a.n * b.n, d: a.d * b.d }
}

/// Division, with the sign moved into the numerator so that a division
/// of well-formed values by a nonzero value is well-formed again.
pub open spec fn q_div(a: Q, b: Q) -> Q {
    if b.n >= 0 {
        Q { n: a.n * b.d, d: a.d * b.n }
    } else {
        Q { n: -(a.n * b.d), d: -(a.d * b.n) }
    }
}

/// Value equality of two fractions (for well-formed denominators).
pub open spec fn q_eq(a: Q, b: Q) -> bool {
    a.n * b.d == b.n * a.d
}

pub open spec fn q_le(a: Q, b: Q) -> bool {
    a.n * b.d <= b.n * a.d
}

pub open spec fn q_lt(a: Q, b: Q) -> bool {
    a.n * b.d < b.n * a.d
}

/// The sign of a well-formed fraction: -1, 0 or 1.
pub open spec fn q_sign(a: Q) -> int {
    if a.n > 0 {
        1
    } else if a.n < 0 {
        -1
    } else {
        0
    }
}

pub broadcast proof fn lemma_q_eq_zero(a: Q)
    ensures
        #[trigger] q_eq(a, q_int(0)) <==> a.n == 0,
{
    assert(a.n * 1 == a.n) by (nonlinear_arith);
    assert(0 * a.d == 0) by (nonlinear_arith);
}

pub broadcast proof fn lemma_q_le_zero_left(a: Q)
    ensures
        #[trigger] q_le(q_int(0), a) <==> 0 <= a.n,
{
    assert(a.n * 1 == a.n) by (nonlinear_arith);
    assert(0 * a.d == 0) by (nonlinear_arith);
}

pub broadcast proof fn lemma_q_le_zero_right(a: Q)
    ensures
        #[trigger] q_le(a, q_int(0)) <==> a.n <= 0,
{
    assert(a.n * 1 == a.n) by (nonlinear_arith);
    assert(0 * a.d == 0) by (nonlinear_arith);
}

pub broadcast proof fn lemma_q_lt_zero_left(a: Q)
    ensures
        #[trigger] q_lt(q_int(0), a) <==> 0 < a.n,
{
    assert(a.n * 1 == a.n) by (nonlinear_arith);
    assert(0 * a.d == 0) by (nonlinear_arith);
}

pub broadcast proof fn lemma_q_lt_zero_right(a: Q)
    ensures
        #[trigger] q_lt(a, q_int(0)) <==> a.n < 0,
{
    assert(a.n * 1 == a.n) by (nonlinear_arith);
    assert(0 * a.d == 0) by (nonlinear_arith);
}

/// The bridges between comparisons against the zero rational and the
/// sign of the numerator.
pub broadcast group group_q_zero {
    lemma_q_eq_zero,
    lemma_q_le_zero_left,
    lemma_q_le_zero_right,
    lemma_q_lt_zero_left,
    lemma_q_lt_zero_right,
}

pub proof fn lemma_pos_mul(a: int, b: int)
    by (nonlinear_arith)
    requires
        a > 0,
        b > 0,
    ensures
        a * b > 0,
{
}

pub proof fn lemma_pos_neg_mul(a: int, b: int)
    by (nonlinear_arith)
    requires
        a > 0,
        b < 0,
    ensures
        a * b < 0,
{
}

pub proof fn lemma_q_eq_refl(a: Q)
    ensures
        q_eq(a, a),
{
}

pub proof fn lemma_q_eq_sym(a: Q, b: Q)
    requires
        q_eq(a, b),
    ensures
        q_eq(b, a),
{
}

pub proof fn lemma_q_eq_trans(a: Q, b: Q, c: Q)
    by (nonlinear_arith)
    requires
        q_wf(a),
        q_wf(b),
        q_wf(c),
        q_eq(a, b),
        q_eq(b, c),
    ensures
        q_eq(a, c),
{
}

/// Replacing both operands of a subtraction by equal values keeps the
/// difference equal.
pub proof fn lemma_q_sub_congr(a: Q, b: Q, a2: Q, b2: Q)
    by (nonlinear_arith)
    requires
        q_wf(a),
        q_wf(b),
        q_wf(a2),
        q_wf(b2),
        q_eq(a, a2),
        q_eq(b, b2),
    ensures
        q_eq(q_sub(a, b), q_sub(a2, b2)),
{
}

/// Replacing both operands of an addition by equal values keeps the
/// sum equal.
pub proof fn lemma_q_add_congr(a: Q, b: Q, a2: Q, b2: Q)
    by (nonlinear_arith)
    requires
        q_wf(a),
        q_wf(b),
        q_wf(a2),
        q_wf(b2),
        q_eq(a, a2),
        q_eq(b, b2),
    ensures
        q_eq(q_add(a, b), q_add(a2, b2)),
{
}

/// The arithmetic operations keep denominators positive.
pub proof fn lemma_q_ops_wf(a: Q, b: Q)
    requires
        q_wf(a),
        q_wf(b),
    ensures
        q_wf(q_add(a, b)),
        q_wf(q_sub(a, b)),
        q_wf(q_mul(a, b)),
{
    lemma_pos_mul(a.d, b.d);
}

/// Replacing both operands of a product by equal values keeps the
/// product equal.
pub proof fn lemma_q_mul_congr(a: Q, b: Q, a2: Q, b2: Q)
    by (nonlinear_arith)
    requires
        q_wf(a),
        q_wf(b),
        q_wf(a2),
        q_wf(b2),
        q_eq(a, a2),
        q_eq(b, b2),
    ensures
        q_eq(q_mul(a, b), q_mul(a2, b2)),
{
}

pub proof fn lemma_q_mul_one(a: Q)
    by (nonlinear_arith)
    ensures
        q_eq(q_mul(a, q_int(1)), a),
{
}

proof fn lemma_int_mul_sub(xn: int, xd: int, yn: int, yd: int, zn: int, zd: int)
    ensures
        (xn * zn) * (yd * zd) - (yn * zn) * (xd * zd) == ((xn * yd - yn * xd) * zn) * zd,
        (xd * zd) * (yd * zd) == ((xd * yd) * zd) * zd,
{
    assert((xn * yd - yn * xd) * zn == (xn * yd) * zn - (yn * xd) * zn) by (nonlinear_arith);
    assert(((xn * yd) * zn - (yn * xd) * zn) * zd == ((xn * yd) * zn) * zd - ((yn * xd) * zn)
        * zd) by (nonlinear_arith);
    assert((xn * zn) * (yd * zd) == ((xn * yd) * zn) * zd) by (nonlinear_arith);
    assert((yn * zn) * (xd * zd) == ((yn * xd) * zn) * zd) by (nonlinear_arith);
    assert((xd * zd) * (yd * zd) == ((xd * yd) * zd) * zd) by (nonlinear_arith);
}

proof fn lemma_int_mul_add(sn: int, sd: int, an: int, ad: int, bn: int, bd: int)
    ensures
        (sn * an) * (sd * bd) + (sn * bn) * (sd * ad) == (sn * (an * bd + bn * ad)) * sd,
        (sd * ad) * (sd * bd) == (sd * (ad * bd)) * sd,
{
    assert((sn * an) * (sd * bd) == (sn * (an * bd)) * sd) by (nonlinear_arith);
    assert((sn * bn) * (sd * ad) == (sn * (bn * ad)) * sd) by (nonlinear_arith);
    assert((sn * (an * bd)) * sd + (sn * (bn * ad)) * sd == (sn * (an * bd) + sn * (bn * ad))
        * sd) by (nonlinear_arith);
    assert(sn * (an * bd) + sn * (bn * ad) == sn * (an * bd + bn * ad)) by (nonlinear_arith);
    assert((sn * (an * bd) + sn * (bn * ad)) * sd == (sn * (an * bd + bn * ad)) * sd);
    assert((sd * ad) * (sd * bd) == (sd * (ad * bd)) * sd) by (nonlinear_arith);
}

proof fn lemma_int_add_sub_exchange(
    xn: int,
    xd: int,
    yn: int,
    yd: int,
    un: int,
    ud: int,
    vn: int,
    vd: int,
)
    ensures
        (xn * yd - yn * xd) * (ud * vd) + (un * vd - vn * ud) * (xd * yd) == (xn * ud + un * xd)
            * (yd * vd) - (yn * vd + vn * yd) * (xd * ud),
        (xd * yd) * (ud * vd) == (xd * ud) * (yd * vd),
{
    assert((xn * yd - yn * xd) * (ud * vd) == (xn * yd) * (ud * vd) - (yn * xd) * (ud * vd))
        by (nonlinear_arith);
    assert((un * vd - vn * ud) * (xd * yd) == (un * vd) * (xd * yd) - (vn * ud) * (xd * yd))
        by (nonlinear_arith);
    assert((xn * ud + un * xd) * (yd * vd) == (xn * ud) * (yd * vd) + (un * xd) * (yd * vd))
        by (nonlinear_arith);
    assert((yn * vd + vn * yd) * (xd * ud) == (yn * vd) * (xd * ud) + (vn * yd) * (xd * ud))
        by (nonlinear_arith);
    assert((xn * yd) * (ud * vd) == (xn * ud) * (yd * vd)) by (nonlinear_arith);
    assert((yn * xd) * (ud * vd) == (yn * vd) * (xd * ud)) by (nonlinear_arith);
    assert((un * vd) * (xd * yd) == (un * xd) * (yd * vd)) by (nonlinear_arith);
    assert((vn * ud) * (xd * yd) == (vn * yd) * (xd * ud)) by (nonlinear_arith);
    assert((xd * yd) * (ud * vd) == (xd * ud) * (yd * vd)) by (nonlinear_arith);
}

/// Multiplying by the rational one leaves the pair unchanged.
pub proof fn lemma_q_mul_int1(a: Q)
    ensures
        q_mul(q_int(1), a) == a,
        q_mul(a, q_int(1)) == a,
{
    assert(1 * a.n == a.n && 1 * a.d == a.d && a.n * 1 == a.n && a.d * 1 == a.d)
        by (nonlinear_arith);
}

/// Multiplying by the rational zero gives a zero numerator over the
/// other denominator.
pub proof fn lemma_q_mul_int0(a: Q)
    ensures
        q_mul(q_int(0), a) == (Q { n: 0, d: a.d }),
{
    assert(0 * a.n == 0 && 1 * a.d == a.d) by (nonlinear_arith);
}

/// Adding a zero-numerator fraction does not change the value.
pub proof fn lemma_q_add_zero_left(z: Q, a: Q)
    requires
        z.n == 0,
    ensures
        q_eq(q_add(z, a), a),
{
    assert(q_add(z, a).n == a.n * z.d) by (nonlinear_arith)
        requires
            z.n == 0,
    ;
    assert(q_add(z, a).d == a.d * z.d) by (nonlinear_arith);
    lemma_q_eq_scaled(a, q_add(z, a), z.d);
    lemma_q_eq_sym(a, q_add(z, a));
}

/// Adding a zero-numerator fraction does not change the value.
pub proof fn lemma_q_add_zero_right(a: Q, z: Q)
    requires
        z.n == 0,
    ensures
        q_eq(q_add(a, z), a),
{
    assert(q_add(a, z).n == a.n * z.d) by (nonlinear_arith)
        requires
            z.n == 0,
    ;
    assert(q_add(a, z).d == a.d * z.d) by (nonlinear_arith);
    lemma_q_eq_scaled(a, q_add(a, z), z.d);
    lemma_q_eq_sym(a, q_add(a, z));
}

/// Adding a value and then subtracting it again changes nothing:
/// `(a + b) + (-b)` equals `a`.
pub proof fn lemma_q_add_cancel(a: Q, b: Q)
    ensures
        q_eq(q_add(q_add(a, b), q_neg(b)), a),
{
    assert(q_add(q_add(a, b), q_neg(b)).n == a.n * (b.d * b.d)) by (nonlinear_arith);
    assert(q_add(q_add(a, b), q_neg(b)).d == a.d * (b.d * b.d)) by (nonlinear_arith);
    lemma_q_eq_scaled(a, q_add(q_add(a, b), q_neg(b)), b.d * b.d);
    lemma_q_eq_sym(a, q_add(q_add(a, b), q_neg(b)));
}

/// Two fractions whose parts differ by one common integer factor are
/// equal as values.
pub proof fn lemma_q_eq_scaled(a: Q, r: Q, k: int)
    requires
        r.n == a.n * k,
        r.d == a.d * k,
    ensures
        q_eq(a, r),
{
    assert(a.n * (a.d * k) == (a.n * k) * a.d) by (nonlinear_arith);
}

/// Multiplication distributes over subtraction, as values.
pub proof fn lemma_q_mul_sub(x: Q, y: Q, z: Q)
    requires
        q_wf(x),
        q_wf(y),
        q_wf(z),
    ensures
        q_eq(q_mul(q_sub(x, y), z), q_sub(q_mul(x, z), q_mul(y, z))),
{
    lemma_int_mul_sub(x.n, x.d, y.n, y.d, z.n, z.d);
    lemma_q_eq_scaled(q_mul(q_sub(x, y), z), q_sub(q_mul(x, z), q_mul(y, z)), z.d);
}

/// Multiplication distributes over addition, as values.
pub proof fn lemma_q_mul_add(s: Q, a: Q, b: Q)
    requires
        q_wf(s),
        q_wf(a),
        q_wf(b),
    ensures
        q_eq(q_mul(s, q_add(a, b)), q_add(q_mul(s, a), q_mul(s, b))),
{
    lemma_int_mul_add(s.n, s.d, a.n, a.d, b.n, b.d);
    lemma_q_eq_scaled(q_mul(s, q_add(a, b)), q_add(q_mul(s, a), q_mul(s, b)), s.d);
}

proof fn lemma_int_add_add_exchange(
    xn: int,
    xd: int,
    yn: int,
    yd: int,
    un: int,
    ud: int,
    vn: int,
    vd: int,
)
    ensures
        (xn * yd + yn * xd) * (ud * vd) + (un * vd + vn * ud) * (xd * yd) == (xn * ud + un * xd)
            * (yd * vd) + (yn * vd + vn * yd) * (xd * ud),
        (xd * yd) * (ud * vd) == (xd * ud) * (yd * vd),
{
    assert((xn * yd + yn * xd) * (ud * vd) == (xn * yd) * (ud * vd) + (yn * xd) * (ud * vd))
        by (nonlinear_arith);
    assert((un * vd + vn * ud) * (xd * yd) == (un * vd) * (xd * yd) + (vn * ud) * (xd * yd))
        by (nonlinear_arith);
    assert((xn * ud + un * xd) * (yd * vd) == (xn * ud) * (yd * vd) + (un * xd) * (yd * vd))
        by (nonlinear_arith);
    assert((yn * vd + vn * yd) * (xd * ud) == (yn * vd) * (xd * ud) + (vn * yd) * (xd * ud))
        by (nonlinear_arith);
    assert((xn * yd) * (ud * vd) == (xn * ud) * (yd * vd)) by (nonlinear_arith);
    assert((yn * xd) * (ud * vd) == (yn * vd) * (xd * ud)) by (nonlinear_arith);
    assert((un * vd) * (xd * yd) == (un * xd) * (yd * vd)) by (nonlinear_arith);
    assert((vn * ud) * (xd * yd) == (vn * yd) * (xd * ud)) by (nonlinear_arith);
    assert((xd * yd) * (ud * vd) == (xd * ud) * (yd * vd)) by (nonlinear_arith);
}

/// Sums of sums regroup pairwise, as values.
pub proof fn lemma_q_add_add_exchange(x: Q, y: Q, u: Q, v: Q)
    requires
        q_wf(x),
        q_wf(y),
        q_wf(u),
        q_wf(v),
    ensures
        q_eq(q_add(q_add(x, y), q_add(u, v)), q_add(q_add(x, u), q_add(y, v))),
{
    lemma_int_add_add_exchange(x.n, x.d, y.n, y.d, u.n, u.d, v.n, v.d);
    lemma_q_eq_scaled(q_add(q_add(x, y), q_add(u, v)), q_add(q_add(x, u), q_add(y, v)), 1);
}

/// Products commute, structurally.
pub proof fn lemma_q_mul_comm(a: Q, b: Q)
    ensures
        q_mul(a, b) == q_mul(b, a),
{
    assert(a.n * b.n == b.n * a.n && a.d * b.d == b.d * a.d) by (nonlinear_arith);
}

/// Dividing by a nonzero value and multiplying by it again recovers
/// the dividend, as values.
pub proof fn lemma_q_div_mul_cancel(a: Q, b: Q)
    requires
        q_wf(a),
        q_wf(b),
        b.n != 0,
    ensures
        q_eq(q_mul(q_div(a, b), b), a),
{
    if b.n >= 0 {
        assert(q_mul(q_div(a, b), b).n == a.n * (b.d * b.n)) by (nonlinear_arith)
            requires
                b.n >= 0,
        ;
        assert(q_mul(q_div(a, b), b).d == a.d * (b.d * b.n)) by (nonlinear_arith)
            requires
                b.n >= 0,
        ;
        lemma_q_eq_scaled(a, q_mul(q_div(a, b), b), b.d * b.n);
        lemma_q_eq_sym(a, q_mul(q_div(a, b), b));
    } else {
        assert(q_mul(q_div(a, b), b).n == a.n * (-(b.d * b.n))) by (nonlinear_arith)
            requires
                b.n < 0,
        ;
        assert(q_mul(q_div(a, b), b).d == a.d * (-(b.d * b.n))) by (nonlinear_arith)
            requires
                b.n < 0,
        ;
        lemma_q_eq_scaled(a, q_mul(q_div(a, b), b), -(b.d * b.n));
        lemma_q_eq_sym(a, q_mul(q_div(a, b), b));
    }
}

/// Addition commutes, structurally.
pub proof fn lemma_q_add_comm(a: Q, b: Q)
    ensures
        q_add(a, b) == q_add(b, a),
{
    assert(a.d * b.d == b.d * a.d) by (nonlinear_arith);
}

/// A negated factor negates the product, structurally.
pub proof fn lemma_q_mul_neg(a: Q, b: Q)
    ensures
        q_mul(a, q_neg(b)) == q_neg(q_mul(a, b)),
{
    assert(a.n * (-b.n) == -(a.n * b.n)) by (nonlinear_arith);
}

/// Negation distributes over addition, structurally.
pub proof fn lemma_q_neg_add(a: Q, b: Q)
    ensures
        q_add(q_neg(a), q_neg(b)) == q_neg(q_add(a, b)),
{
    assert((-a.n) * b.d == -(a.n * b.d)) by (nonlinear_arith);
    assert((-b.n) * a.d == -(b.n * a.d)) by (nonlinear_arith);
}

/// Negation preserves value equality.
pub proof fn lemma_q_neg_congr(a: Q, b: Q)
    requires
        q_eq(a, b),
    ensures
        q_eq(q_neg(a), q_neg(b)),
{
    assert((-a.n) * b.d == -(a.n * b.d)) by (nonlinear_arith);
    assert((-b.n) * a.d == -(b.n * a.d)) by (nonlinear_arith);
}

/// Multiplication distributes over subtraction from the left, as
/// values.
pub proof fn lemma_q_mul_sub_left(s: Q, x: Q, y: Q)
    requires
        q_wf(s),
        q_wf(x),
        q_wf(y),
    ensures
        q_eq(q_mul(s, q_sub(x, y)), q_sub(q_mul(s, x), q_mul(s, y))),
{
    lemma_q_mul_comm(s, q_sub(x, y));
    lemma_q_mul_comm(s, x);
    lemma_q_mul_comm(s, y);
    lemma_q_mul_sub(x, y, s);
}

/// A factor moves into a division's numerator, structurally.
pub proof fn lemma_q_mul_div_assoc(a: Q, b: Q, d: Q)
    ensures
        q_mul(a, q_div(b, d)) == q_div(q_mul(a, b), d),
{
    if d.n >= 0 {
        assert(a.n * (b.n * d.d) == (a.n * b.n) * d.d) by (nonlinear_arith);
        assert(a.d * (b.d * d.n) == (a.d * b.d) * d.n) by (nonlinear_arith);
    } else {
        assert(a.n * (-(b.n * d.d)) == -((a.n * b.n) * d.d)) by (nonlinear_arith);
        assert(a.d * (-(b.d * d.n)) == -((a.d * b.d) * d.n)) by (nonlinear_arith);
    }
}

/// Divisions over one divisor add into a division of the sum, as
/// values.
pub proof fn lemma_q_add_div(x: Q, y: Q, d: Q)
    requires
        q_wf(x),
        q_wf(y),
        q_wf(d),
        d.n != 0,
    ensures
        q_eq(q_add(q_div(x, d), q_div(y, d)), q_div(q_add(x, y), d)),
{
    assert(((x.n * y.d + y.n * x.d) * d.d) * d.n == ((x.n * y.d) * d.d) * d.n + ((y.n * x.d)
        * d.d) * d.n) by (nonlinear_arith);
    if d.n >= 0 {
        assert((x.n * d.d) * (y.d * d.n) == ((x.n * y.d) * d.d) * d.n) by (nonlinear_arith);
        assert((y.n * d.d) * (x.d * d.n) == ((y.n * x.d) * d.d) * d.n) by (nonlinear_arith);
        assert(q_add(q_div(x, d), q_div(y, d)).d == q_div(q_add(x, y), d).d * d.n)
            by (nonlinear_arith)
            requires
                d.n >= 0,
        ;
        lemma_q_eq_scaled(q_div(q_add(x, y), d), q_add(q_div(x, d), q_div(y, d)), d.n);
        lemma_q_eq_sym(q_div(q_add(x, y), d), q_add(q_div(x, d), q_div(y, d)));
    } else {
        assert((-(x.n * d.d)) * (-(y.d * d.n)) == ((x.n * y.d) * d.d) * d.n)
            by (nonlinear_arith);
        assert((-(y.n * d.d)) * (-(x.d * d.n)) == ((y.n * x.d) * d.d) * d.n)
            by (nonlinear_arith);
        assert((-(((x.n * y.d + y.n * x.d)) * d.d)) * (-d.n) == ((x.n * y.d + y.n * x.d) * d.d)
            * d.n) by (nonlinear_arith);
        assert(q_add(q_div(x, d), q_div(y, d)).d == q_div(q_add(x, y), d).d * (-d.n))
            by (nonlinear_arith)
            requires
                d.n < 0,
        ;
        lemma_q_eq_scaled(q_div(q_add(x, y), d), q_add(q_div(x, d), q_div(y, d)), -d.n);
        lemma_q_eq_sym(q_div(q_add(x, y), d), q_add(q_div(x, d), q_div(y, d)));
    }
}

/// Division preserves value equality of the numerators.
pub proof fn lemma_q_div_congr(x: Q, y: Q, d: Q)
    requires
        q_eq(x, y),
    ensures
        q_eq(q_div(x, d), q_div(y, d)),
{
    if d.n >= 0 {
        assert((x.n * d.d) * (y.d * d.n) == (y.n * d.d) * (x.d * d.n)) by (nonlinear_arith)
            requires
                x.n * y.d == y.n * x.d,
        ;
    } else {
        assert((-(x.n * d.d)) * (-(y.d * d.n)) == (-(y.n * d.d)) * (-(x.d * d.n)))
            by (nonlinear_arith)
            requires
                x.n * y.d == y.n * x.d,
        ;
    }
}

/// A value divided by itself is one.
pub proof fn lemma_q_div_self(d: Q)
    requires
        d.n != 0,
    ensures
        q_eq(q_div(d, d), q_int(1)),
{
    lemma_q_eq_one(q_div(d, d));
    if d.n >= 0 {
        assert(d.n * d.d == d.d * d.n) by (nonlinear_arith);
    } else {
        assert(-(d.n * d.d) == -(d.d * d.n)) by (nonlinear_arith);
    }
}

/// A zero-numerator value stays zero under division.
pub proof fn lemma_q_div_zero_num(x: Q, d: Q)
    requires
        x.n == 0,
    ensures
        q_eq(q_div(x, d), q_int(0)),
{
    if d.n >= 0 {
        assert(q_div(x, d).n == 0) by (nonlinear_arith)
            requires
                x.n == 0,
                d.n >= 0,
        ;
    } else {
        assert(q_div(x, d).n == 0) by (nonlinear_arith)
            requires
                x.n == 0,
                d.n < 0,
        ;
    }
    lemma_q_eq_zero(q_div(x, d));
}

/// Adding a sum's parts and then removing one of them leaves a
/// difference: `(x + y) - (z + x)` equals `y - z`, as values.
pub proof fn lemma_q_sub_add_cancel(x: Q, y: Q, z: Q)
    requires
        q_wf(x),
        q_wf(y),
        q_wf(z),
    ensures
        q_eq(q_sub(q_add(x, y), q_add(z, x)), q_sub(y, z)),
{
    assert((x.n * y.d + y.n * x.d) * (z.d * x.d) == (x.n * y.d) * (z.d * x.d) + (y.n * x.d)
        * (z.d * x.d)) by (nonlinear_arith);
    assert((z.n * x.d + x.n * z.d) * (x.d * y.d) == (z.n * x.d) * (x.d * y.d) + (x.n * z.d)
        * (x.d * y.d)) by (nonlinear_arith);
    assert((x.n * y.d) * (z.d * x.d) == (x.n * z.d) * (x.d * y.d)) by (nonlinear_arith);
    assert((y.n * x.d) * (z.d * x.d) == (y.n * z.d) * (x.d * x.d)) by (nonlinear_arith);
    assert((z.n * x.d) * (x.d * y.d) == (z.n * y.d) * (x.d * x.d)) by (nonlinear_arith);
    assert((y.n * z.d - z.n * y.d) * (x.d * x.d) == (y.n * z.d) * (x.d * x.d) - (z.n * y.d)
        * (x.d * x.d)) by (nonlinear_arith);
    assert(q_sub(q_add(x, y), q_add(z, x)).d == q_sub(y, z).d * (x.d * x.d))
        by (nonlinear_arith);
    lemma_q_eq_scaled(q_sub(y, z), q_sub(q_add(x, y), q_add(z, x)), x.d * x.d);
    lemma_q_eq_sym(q_sub(y, z), q_sub(q_add(x, y), q_add(z, x)));
}

/// Opposite differences cancel, as values.
pub proof fn lemma_q_opp_cancel(y: Q, z: Q)
    ensures
        q_eq(q_add(q_sub(y, z), q_sub(z, y)), q_int(0)),
{
    assert(q_add(q_sub(y, z), q_sub(z, y)).n == 0) by (nonlinear_arith);
    lemma_q_eq_zero(q_add(q_sub(y, z), q_sub(z, y)));
}

/// A cyclic chain of differences sums to zero, as values.
pub proof fn lemma_q_cycle_cancel(x: Q, y: Q, z: Q)
    requires
        q_wf(x),
        q_wf(y),
        q_wf(z),
    ensures
        q_eq(q_add(q_add(q_sub(x, z), q_sub(y, x)), q_sub(z, y)), q_int(0)),
{
    lemma_q_add_sub_exchange(x, z, y, x);
    lemma_q_sub_add_cancel(x, y, z);
    lemma_q_ops_wf(x, z);
    lemma_q_ops_wf(y, x);
    lemma_q_ops_wf(z, y);
    lemma_q_ops_wf(q_sub(x, z), q_sub(y, x));
    lemma_q_ops_wf(x, y);
    lemma_q_ops_wf(q_add(x, y), q_add(z, x));
    lemma_q_ops_wf(q_sub(q_add(x, y), q_add(z, x)), q_sub(z, y));
    lemma_q_ops_wf(q_sub(y, z), q_sub(z, y));
    lemma_q_eq_trans(
        q_add(q_sub(x, z), q_sub(y, x)),
        q_sub(q_add(x, y), q_add(z, x)),
        q_sub(y, z),
    );
    lemma_q_eq_refl(q_sub(z, y));
    lemma_q_add_congr(
        q_add(q_sub(x, z), q_sub(y, x)),
        q_sub(z, y),
        q_sub(y, z),
        q_sub(z, y),
    );
    lemma_q_opp_cancel(y, z);
    lemma_q_ops_wf(q_add(q_sub(x, z), q_sub(y, x)), q_sub(z, y));
    lemma_q_eq_trans(
        q_add(q_add(q_sub(x, z), q_sub(y, x)), q_sub(z, y)),
        q_add(q_sub(y, z), q_sub(z, y)),
        q_int(0),
    );
}

/// The reverse cyclic chain of differences also sums to zero.
pub proof fn lemma_q_cycle_cancel2(x: Q, y: Q, z: Q)
    requires
        q_wf(x),
        q_wf(y),
        q_wf(z),
    ensures
        q_eq(q_add(q_add(q_sub(x, y), q_sub(y, z)), q_sub(z, x)), q_int(0)),
{
    lemma_q_add_sub_exchange(x, y, y, z);
    lemma_q_add_comm(x, y);
    lemma_q_add_comm(y, z);
    lemma_q_sub_add_cancel(y, x, z);
    lemma_q_ops_wf(x, y);
    lemma_q_ops_wf(y, z);
    lemma_q_ops_wf(q_sub(x, y), q_sub(y, z));
    lemma_q_ops_wf(q_add(x, y), q_add(y, z));
    lemma_q_ops_wf(z, x);
    lemma_q_ops_wf(q_sub(q_add(x, y), q_add(y, z)), q_sub(z, x));
    lemma_q_ops_wf(x, z);
    lemma_q_ops_wf(q_sub(x, z), q_sub(z, x));
    lemma_q_eq_trans(
        q_add(q_sub(x, y), q_sub(y, z)),
        q_sub(q_add(x, y), q_add(y, z)),
        q_sub(x, z),
    );
    lemma_q_eq_refl(q_sub(z, x));
    lemma_q_add_congr(
        q_add(q_sub(x, y), q_sub(y, z)),
        q_sub(z, x),
        q_sub(x, z),
        q_sub(z, x),
    );
    lemma_q_opp_cancel(x, z);
    lemma_q_ops_wf(q_add(q_sub(x, y), q_sub(y, z)), q_sub(z, x));
    lemma_q_eq_trans(
        q_add(q_add(q_sub(x, y), q_sub(y, z)), q_sub(z, x)),
        q_add(q_sub(x, z), q_sub(z, x)),
        q_int(0),
    );
}

/// A product of three factors is the same under every regrouping and
/// reordering, structurally.
pub proof fn lemma_q_mul3_perms(p: Q, q: Q, r: Q)
    ensures
        q_mul(r, q_mul(p, q)) == q_mul(p, q_mul(q, r)),
        q_mul(q, q_mul(r, p)) == q_mul(p, q_mul(q, r)),
        q_mul(p, q_mul(r, q)) == q_mul(p, q_mul(q, r)),
        q_mul(q, q_mul(p, r)) == q_mul(p, q_mul(q, r)),
        q_mul(r, q_mul(q, p)) == q_mul(p, q_mul(q, r)),
{
    assert(r.n * (p.n * q.n) == p.n * (q.n * r.n)) by (nonlinear_arith);
    assert(r.d * (p.d * q.d) == p.d * (q.d * r.d)) by (nonlinear_arith);
    assert(q.n * (r.n * p.n) == p.n * (q.n * r.n)) by (nonlinear_arith);
    assert(q.d * (r.d * p.d) == p.d * (q.d * r.d)) by (nonlinear_arith);
    assert(p.n * (r.n * q.n) == p.n * (q.n * r.n)) by (nonlinear_arith);
    assert(p.d * (r.d * q.d) == p.d * (q.d * r.d)) by (nonlinear_arith);
    assert(q.n * (p.n * r.n) == p.n * (q.n * r.n)) by (nonlinear_arith);
    assert(q.d * (p.d * r.d) == p.d * (q.d * r.d)) by (nonlinear_arith);
    assert(r.n * (q.n * p.n) == p.n * (q.n * r.n)) by (nonlinear_arith);
    assert(r.d * (q.d * p.d) == p.d * (q.d * r.d)) by (nonlinear_arith);
}

/// A three-term sum keeps its value when rotated.
pub proof fn lemma_q_add3_rotate(a: Q, b: Q, c: Q)
    requires
        q_wf(a),
        q_wf(b),
        q_wf(c),
    ensures
        q_eq(q_add(q_add(a, b), c), q_add(q_add(b, c), a)),
{
    lemma_q_add_assoc(a, b, c);
    lemma_q_add_comm(a, q_add(b, c));
}

/// A three-term sum keeps its value when its last two terms swap.
pub proof fn lemma_q_add3_swap23(a: Q, b: Q, c: Q)
    requires
        q_wf(a),
        q_wf(b),
        q_wf(c),
    ensures
        q_eq(q_add(q_add(a, b), c), q_add(q_add(a, c), b)),
{
    lemma_q_add_assoc(a, b, c);
    lemma_q_add_comm(b, c);
    lemma_q_add_assoc(a, c, b);
    lemma_q_ops_wf(a, b);
    lemma_q_ops_wf(q_add(a, b), c);
    lemma_q_ops_wf(b, c);
    lemma_q_ops_wf(a, q_add(b, c));
    lemma_q_ops_wf(a, c);
    lemma_q_ops_wf(q_add(a, c), b);
    lemma_q_eq_sym(q_add(q_add(a, c), b), q_add(a, q_add(c, b)));
    lemma_q_eq_trans(q_add(q_add(a, b), c), q_add(a, q_add(b, c)), q_add(q_add(a, c), b));
}

/// Three differences merge into one difference of three-term sums.
pub proof fn lemma_q_sub3_merge(a: Q, b: Q, c: Q, d: Q, e: Q, f: Q)
    requires
        q_wf(a),
        q_wf(b),
        q_wf(c),
        q_wf(d),
        q_wf(e),
        q_wf(f),
    ensures
        q_eq(
            q_add(q_add(q_sub(a, b), q_sub(c, d)), q_sub(e, f)),
            q_sub(q_add(q_add(a, c), e), q_add(q_add(b, d), f)),
        ),
{
    lemma_q_add_sub_exchange(a, b, c, d);
    lemma_q_ops_wf(a, b);
    lemma_q_ops_wf(c, d);
    lemma_q_ops_wf(e, f);
    lemma_q_ops_wf(q_sub(a, b), q_sub(c, d));
    lemma_q_ops_wf(a, c);
    lemma_q_ops_wf(b, d);
    lemma_q_ops_wf(q_add(a, c), q_add(b, d));
    lemma_q_eq_refl(q_sub(e, f));
    lemma_q_add_congr(
        q_add(q_sub(a, b), q_sub(c, d)),
        q_sub(e, f),
        q_sub(q_add(a, c), q_add(b, d)),
        q_sub(e, f),
    );
    lemma_q_add_sub_exchange(q_add(a, c), q_add(b, d), e, f);
    lemma_q_ops_wf(q_add(q_sub(a, b), q_sub(c, d)), q_sub(e, f));
    lemma_q_ops_wf(q_sub(q_add(a, c), q_add(b, d)), q_sub(e, f));
    lemma_q_ops_wf(q_add(a, c), e);
    lemma_q_ops_wf(q_add(b, d), f);
    lemma_q_ops_wf(q_add(q_add(a, c), e), q_add(q_add(b, d), f));
    lemma_q_eq_trans(
        q_add(q_add(q_sub(a, b), q_sub(c, d)), q_sub(e, f)),
        q_add(q_sub(q_add(a, c), q_add(b, d)), q_sub(e, f)),
        q_sub(q_add(q_add(a, c), e), q_add(q_add(b, d), f)),
    );
}

/// A fraction holds one exactly when its numerator equals its
/// denominator.
pub proof fn lemma_q_eq_one(a: Q)
    ensures
        q_eq(a, q_int(1)) <==> a.n == a.d,
{
    assert(a.n * 1 == a.n) by (nonlinear_arith);
    assert(1 * a.d == a.d) by (nonlinear_arith);
}

/// Multiplying by a value equal to one changes nothing.
pub proof fn lemma_q_mul_one_val(a: Q, w: Q)
    requires
        q_eq(w, q_int(1)),
    ensures
        q_eq(q_mul(a, w), a),
{
    lemma_q_eq_one(w);
    assert(q_mul(a, w).n == a.n * w.d) by (nonlinear_arith)
        requires
            w.n == w.d,
    ;
    lemma_q_eq_scaled(a, q_mul(a, w), w.d);
    lemma_q_eq_sym(a, q_mul(a, w));
}

/// Multiplying by a value equal to zero gives a value equal to zero,
/// on either side.
pub proof fn lemma_q_mul_zero_val(a: Q, z: Q)
    requires
        q_eq(z, q_int(0)),
    ensures
        q_eq(q_mul(a, z), q_int(0)),
        q_eq(q_mul(z, a), q_int(0)),
{
    lemma_q_eq_zero(z);
    assert(q_mul(a, z).n == 0 && q_mul(z, a).n == 0) by (nonlinear_arith)
        requires
            z.n == 0,
    ;
    lemma_q_eq_zero(q_mul(a, z));
    lemma_q_eq_zero(q_mul(z, a));
}

/// Addition reassociates, as values.
pub proof fn lemma_q_add_assoc(x: Q, y: Q, z: Q)
    requires
        q_wf(x),
        q_wf(y),
        q_wf(z),
    ensures
        q_eq(q_add(q_add(x, y), z), q_add(x, q_add(y, z))),
{
    assert((x.n * y.d + y.n * x.d) * z.d == (x.n * y.d) * z.d + (y.n * x.d) * z.d)
        by (nonlinear_arith);
    assert((y.n * z.d + z.n * y.d) * x.d == (y.n * z.d) * x.d + (z.n * y.d) * x.d)
        by (nonlinear_arith);
    assert((x.n * y.d) * z.d == x.n * (y.d * z.d)) by (nonlinear_arith);
    assert((y.n * x.d) * z.d == (y.n * z.d) * x.d) by (nonlinear_arith);
    assert(z.n * (x.d * y.d) == (z.n * y.d) * x.d) by (nonlinear_arith);
    assert(q_add(q_add(x, y), z).d == q_add(x, q_add(y, z)).d) by (nonlinear_arith);
    lemma_q_eq_scaled(q_add(q_add(x, y), z), q_add(x, q_add(y, z)), 1);
}

/// Adding a difference and then removing the subtrahend leaves
/// nothing: `(x + (y - x)) - y` is zero.
pub proof fn lemma_q_add_sub_round(x: Q, y: Q)
    ensures
        q_sub(q_add(x, q_sub(y, x)), y).n == 0,
{
    assert(q_sub(q_add(x, q_sub(y, x)), y).n == 0) by (nonlinear_arith);
}

/// Sums of differences regroup into a difference of sums, as values.
pub proof fn lemma_q_add_sub_exchange(x: Q, y: Q, u: Q, v: Q)
    requires
        q_wf(x),
        q_wf(y),
        q_wf(u),
        q_wf(v),
    ensures
        q_eq(q_add(q_sub(x, y), q_sub(u, v)), q_sub(q_add(x, u), q_add(y, v))),
{
    lemma_int_add_sub_exchange(x.n, x.d, y.n, y.d, u.n, u.d, v.n, v.d);
    lemma_q_eq_scaled(
        q_add(q_sub(x, y), q_sub(u, v)),
        q_sub(q_add(x, u), q_add(y, v)),
        1,
    );
}

/// Products reassociate, structurally.
pub proof fn lemma_q_mul_assoc(s: Q, a: Q, b: Q)
    ensures
        q_mul(q_mul(s, a), b) == q_mul(s, q_mul(a, b)),
{
    assert((s.n * a.n) * b.n == s.n * (a.n * b.n)) by (nonlinear_arith);
    assert((s.d * a.d) * b.d == s.d * (a.d * b.d)) by (nonlinear_arith);
}

/// Subtracting what was subtracted leaves nothing: if `c` equals
/// `a - b`, then `(a - c) - b` is zero.
pub proof fn lemma_q_sub_cancel(a: Q, b: Q, c: Q)
    by (nonlinear_arith)
    requires
        q_wf(a),
        q_wf(b),
        q_wf(c),
        q_eq(c, q_sub(a, b)),
    ensures
        q_eq(q_sub(q_sub(a, c), b), q_int(0)),
{
}

/// An exact rational number: numerator `n` over positive denominator `d`.
pub struct Rat {
    pub n: num_bigint::BigInt,
    pub d: num_bigint::BigInt,
}

impl View for Rat {
    type V = Q;

    open spec fn view(&self) -> Q {
        Q { n: big_int_of(self.n), d: big_int_of(self.d) }
    }
}

impl Rat {
    /// A positive denominator; every operation preserves this.
    pub open spec fn wf(&self) -> bool {
        q_wf(self@)
    }

    /// The rational holding the integer `i`.
    pub fn from_int(i: i64) -> (r: Rat)
        ensures
            r.wf(),
            r@ == q_int(i as int),
    {
        Rat { n: big_from_i64(i), d: big_from_i64(1) }
    }

    /// The fraction `n / d`, as a well-formed value.
    pub fn ratio(n: i64, d: i64) -> (r: Rat)
        requires
            d != 0,
        ensures
            r.wf(),
            q_eq(r@, Q { n: n as int, d: d as int }),
    {
        let bn = big_from_i64(n);
        let bd = big_from_i64(d);
        let zero = big_from_i64(0);
        if big_lt(&bd, &zero) {
            proof {
                assert((-(n as int)) * (d as int) == (n as int) * (-(d as int)))
                    by (nonlinear_arith);
            }
            Rat { n: big_neg(&bn), d: big_neg(&bd) }
        } else {
            Rat { n: bn, d: bd }
        }
    }

    /// An exact copy.
    pub fn dup(&self) -> (r: Rat)
        ensures
            r@ == self@,
    {
        Rat { n: big_clone(&self.n), d: big_clone(&self.d) }
    }

    pub fn add(&self, other: &Rat) -> (r: Rat)
        requires
            self.wf(),
            other.wf(),
        ensures
            r.wf(),
            r@ == q_add(self@, other@),
    {
        let n = big_add(&big_mul(&self.n, &other.d), &big_mul(&other.n, &self.d));
        let d = big_mul(&self.d, &other.d);
        proof {
            lemma_pos_mul(self@.d, other@.d);
        }
        Rat { n, d }
    }

    pub fn sub(&self, other: &Rat) -> (r: Rat)
        requires
            self.wf(),
            other.wf(),
        ensures
            r.wf(),
            r@ == q_sub(self@, other@),
    {
        let n = big_sub(&big_mul(&self.n, &other.d), &big_mul(&other.n, &self.d));
        let d = big_mul(&self.d, &other.d);
        proof {
            lemma_pos_mul(self@.d, other@.d);
        }
        Rat { n, d }
    }

    pub fn neg(&self) -> (r: Rat)
        requires
            self.wf(),
        ensures
            r.wf(),
            r@ == q_neg(self@),
    {
        Rat { n: big_neg(&self.n), d: big_clone(&self.d) }
    }

    pub fn mul(&self, other: &Rat) -> (r: Rat)
        requires
            self.wf(),
            other.wf(),
        ensures
            r.wf(),
            r@ == q_mul(self@, other@),
    {
        let n = big_mul(&self.n, &other.n);
        let d = big_mul(&self.d, &other.d);
        proof {
            lemma_pos_mul(self@.d, other@.d);
        }
        Rat { n, d }
    }

    pub fn div(&self, other: &Rat) -> (r: Rat)
        requires
            self.wf(),
            other.wf(),
            !q_eq(other@, q_int(0)),
        ensures
            r.wf(),
            r@ == q_div(self@, other@),
    {
        let zero = big_from_i64(0);
        let n = big_mul(&self.n, &other.d);
        let d = big_mul(&self.d, &other.n);
        if big_lt(&other.n, &zero) {
            proof {
                lemma_pos_neg_mul(self@.d, other@.n);
            }
            Rat { n: big_neg(&n), d: big_neg(&d) }
        } else {
            proof {
                lemma_pos_mul(self@.d, other@.n);
            }
            Rat { n, d }
        }
    }

    /// The sign of the value: -1, 0 or 1.
    pub fn sign(&self) -> (r: i8)
        requires
            self.wf(),
        ensures
            r as int == q_sign(self@),
    {
        let zero = big_from_i64(0);
        if big_lt(&zero, &self.n) {
            1
        } else if big_lt(&self.n, &zero) {
            -1
        } else {
            0
        }
    }

    pub fn le(&self, other: &Rat) -> (r: bool)
        requires
            self.wf(),
            other.wf(),
        ensures
            r == q_le(self@, other@),
    {
        !big_lt(&big_mul(&other.n, &self.d), &big_mul(&self.n, &other.d))
    }

    pub fn lt(&self, other: &Rat) -> (r: bool)
        requires
            self.wf(),
            other.wf(),
        ensures
            r == q_lt(self@, other@),
    {
        big_lt(&big_mul(&self.n, &other.d), &big_mul(&other.n, &self.d))
    }

    pub fn eq_val(&self, other: &Rat) -> (r: bool)
        requires
            self.wf(),
            other.wf(),
        ensures
            r == q_eq(self@, other@),
    {
        big_eq(&big_mul(&self.n, &other.d), &big_mul(&other.n, &self.d))
    }
}

} // verus!
