//! Exact three-component vectors and points over rational scalars.

use vstd::prelude::*;
use crate::rat::{Rat, Q, q_wf, q_int, q_add, q_sub, q_neg, q_mul, q_eq, lemma_q_eq_trans,
    lemma_q_add_congr, lemma_q_mul_sub, lemma_q_mul_add, lemma_q_mul_assoc,
    lemma_q_add_sub_exchange, lemma_q_add_add_exchange, lemma_q_eq_sym, lemma_q_ops_wf};

verus! {

/// The mathematical value of a vector: three rationals.
pub ghost struct QV3 {
    pub x: Q,
    pub y: Q,
    pub z: Q,
}

pub open spec fn qv_wf(v: QV3) -> bool {
    q_wf(v.x) && q_wf(v.y) && q_wf(v.z)
}

pub open spec fn qv_int(x: int, y: int, z: int) -> QV3 {
    QV3 { x: q_int(x), y: q_int(y), z: q_int(z) }
}

pub open spec fn qv_add(u: QV3, v: QV3) -> QV3 {
    QV3 { x: q_add(u.x, v.x), y: q_add(u.y, v.y), z: q_add(u.z, v.z) }
}

pub open spec fn qv_sub(u: QV3, v: QV3) -> QV3 {
    QV3 { x: q_sub(u.x, v.x), y: q_sub(u.y, v.y), z: q_sub(u.z, v.z) }
}

pub open spec fn qv_neg(u: QV3) -> QV3 {
    QV3 { x: q_neg(u.x), y: q_neg(u.y), z: q_neg(u.z) }
}

/// The vector `s * u`, componentwise.
pub open spec fn qv_scale(s: Q, u: QV3) -> QV3 {
    QV3 { x: q_mul(s, u.x), y: q_mul(s, u.y), z: q_mul(s, u.z) }
}

pub open spec fn qv_dot(u: QV3, v: QV3) -> Q {
    q_add(q_add(q_mul(u.x, v.x), q_mul(u.y, v.y)), q_mul(u.z, v.z))
}

pub open spec fn qv_cross(u: QV3, v: QV3) -> QV3 {
    QV3 {
        x: q_sub(q_mul(u.y, v.z), q_mul(u.z, v.y)),
        y: q_sub(q_mul(u.z, v.x), q_mul(u.x, v.z)),
        z: q_sub(q_mul(u.x, v.y), q_mul(u.y, v.x)),
    }
}

/// Componentwise value equality.
pub open spec fn qv_eq(u: QV3, v: QV3) -> bool {
    q_eq(u.x, v.x) && q_eq(u.y, v.y) && q_eq(u.z, v.z)
}

/// The dot product of well-formed vectors is well-formed.
pub proof fn lemma_qv_dot_wf(u: QV3, v: QV3)
    requires
        qv_wf(u),
        qv_wf(v),
    ensures
        q_wf(qv_dot(u, v)),
{
    lemma_q_ops_wf(u.x, v.x);
    lemma_q_ops_wf(u.y, v.y);
    lemma_q_ops_wf(u.z, v.z);
    lemma_q_ops_wf(q_mul(u.x, v.x), q_mul(u.y, v.y));
    lemma_q_ops_wf(q_add(q_mul(u.x, v.x), q_mul(u.y, v.y)), q_mul(u.z, v.z));
}

pub proof fn lemma_qv_add_wf(a: QV3, b: QV3)
    requires
        qv_wf(a),
        qv_wf(b),
    ensures
        qv_wf(qv_add(a, b)),
{
    lemma_q_ops_wf(a.x, b.x);
    lemma_q_ops_wf(a.y, b.y);
    lemma_q_ops_wf(a.z, b.z);
}

pub proof fn lemma_qv_sub_wf(a: QV3, b: QV3)
    requires
        qv_wf(a),
        qv_wf(b),
    ensures
        qv_wf(qv_sub(a, b)),
{
    lemma_q_ops_wf(a.x, b.x);
    lemma_q_ops_wf(a.y, b.y);
    lemma_q_ops_wf(a.z, b.z);
}

pub proof fn lemma_qv_scale_wf(s: Q, u: QV3)
    requires
        q_wf(s),
        qv_wf(u),
    ensures
        qv_wf(qv_scale(s, u)),
{
    lemma_q_ops_wf(s, u.x);
    lemma_q_ops_wf(s, u.y);
    lemma_q_ops_wf(s, u.z);
}

/// The dot product distributes over vector subtraction, as values.
pub proof fn lemma_qv_dot_sub(a: QV3, b: QV3, n: QV3)
    requires
        qv_wf(a),
        qv_wf(b),
        qv_wf(n),
    ensures
        q_eq(qv_dot(qv_sub(a, b), n), q_sub(qv_dot(a, n), qv_dot(b, n))),
{
    let c1 = q_mul(q_sub(a.x, b.x), n.x);
    let c2 = q_mul(q_sub(a.y, b.y), n.y);
    let c3 = q_mul(q_sub(a.z, b.z), n.z);
    let p1 = q_mul(a.x, n.x);
    let p2 = q_mul(a.y, n.y);
    let p3 = q_mul(a.z, n.z);
    let w1 = q_mul(b.x, n.x);
    let w2 = q_mul(b.y, n.y);
    let w3 = q_mul(b.z, n.z);
    lemma_q_mul_sub(a.x, b.x, n.x);
    lemma_q_mul_sub(a.y, b.y, n.y);
    lemma_q_mul_sub(a.z, b.z, n.z);
    lemma_qv_wf_ops(a, b, n);
    lemma_q_add_congr(c1, c2, q_sub(p1, w1), q_sub(p2, w2));
    lemma_q_add_sub_exchange(p1, w1, p2, w2);
    lemma_q_eq_trans(
        q_add(c1, c2),
        q_add(q_sub(p1, w1), q_sub(p2, w2)),
        q_sub(q_add(p1, p2), q_add(w1, w2)),
    );
    lemma_q_add_congr(q_add(c1, c2), c3, q_sub(q_add(p1, p2), q_add(w1, w2)), q_sub(p3, w3));
    lemma_q_add_sub_exchange(q_add(p1, p2), q_add(w1, w2), p3, w3);
    lemma_q_ops_wf(q_sub(q_add(p1, p2), q_add(w1, w2)), q_sub(p3, w3));
    lemma_q_ops_wf(q_add(q_add(p1, p2), p3), q_add(q_add(w1, w2), w3));
    lemma_q_eq_trans(
        q_add(q_add(c1, c2), c3),
        q_add(q_sub(q_add(p1, p2), q_add(w1, w2)), q_sub(p3, w3)),
        q_sub(q_add(q_add(p1, p2), p3), q_add(q_add(w1, w2), w3)),
    );
}

/// The well-formedness facts the dot-product proofs lean on.
proof fn lemma_qv_wf_ops(a: QV3, b: QV3, n: QV3)
    requires
        qv_wf(a),
        qv_wf(b),
        qv_wf(n),
    ensures
        q_wf(q_mul(q_sub(a.x, b.x), n.x)),
        q_wf(q_mul(q_sub(a.y, b.y), n.y)),
        q_wf(q_mul(q_sub(a.z, b.z), n.z)),
        q_wf(q_mul(a.x, n.x)),
        q_wf(q_mul(a.y, n.y)),
        q_wf(q_mul(a.z, n.z)),
        q_wf(q_mul(b.x, n.x)),
        q_wf(q_mul(b.y, n.y)),
        q_wf(q_mul(b.z, n.z)),
        q_wf(q_add(q_mul(q_sub(a.x, b.x), n.x), q_mul(q_sub(a.y, b.y), n.y))),
        q_wf(q_sub(q_mul(a.x, n.x), q_mul(b.x, n.x))),
        q_wf(q_sub(q_mul(a.y, n.y), q_mul(b.y, n.y))),
        q_wf(q_sub(q_mul(a.z, n.z), q_mul(b.z, n.z))),
        q_wf(q_add(q_sub(q_mul(a.x, n.x), q_mul(b.x, n.x)), q_sub(q_mul(a.y, n.y), q_mul(b.y, n.y)))),
        q_wf(q_add(q_mul(a.x, n.x), q_mul(a.y, n.y))),
        q_wf(q_add(q_mul(b.x, n.x), q_mul(b.y, n.y))),
        q_wf(q_sub(q_add(q_mul(a.x, n.x), q_mul(a.y, n.y)), q_add(q_mul(b.x, n.x), q_mul(b.y, n.y)))),
        q_wf(qv_dot(a, n)),
        q_wf(qv_dot(b, n)),
        q_wf(qv_dot(qv_sub(a, b), n)),
        q_wf(q_sub(qv_dot(a, n), qv_dot(b, n))),
    {
    lemma_q_ops_wf(a.x, b.x);
    lemma_q_ops_wf(a.y, b.y);
    lemma_q_ops_wf(a.z, b.z);
    lemma_q_ops_wf(q_sub(a.x, b.x), n.x);
    lemma_q_ops_wf(q_sub(a.y, b.y), n.y);
    lemma_q_ops_wf(q_sub(a.z, b.z), n.z);
    lemma_q_ops_wf(a.x, n.x);
    lemma_q_ops_wf(a.y, n.y);
    lemma_q_ops_wf(a.z, n.z);
    lemma_q_ops_wf(b.x, n.x);
    lemma_q_ops_wf(b.y, n.y);
    lemma_q_ops_wf(b.z, n.z);
    lemma_q_ops_wf(q_mul(q_sub(a.x, b.x), n.x), q_mul(q_sub(a.y, b.y), n.y));
    lemma_q_ops_wf(
        q_add(q_mul(q_sub(a.x, b.x), n.x), q_mul(q_sub(a.y, b.y), n.y)),
        q_mul(q_sub(a.z, b.z), n.z),
    );
    lemma_q_ops_wf(q_mul(a.x, n.x), q_mul(b.x, n.x));
    lemma_q_ops_wf(q_mul(a.y, n.y), q_mul(b.y, n.y));
    lemma_q_ops_wf(q_mul(a.z, n.z), q_mul(b.z, n.z));
    lemma_q_ops_wf(
        q_sub(q_mul(a.x, n.x), q_mul(b.x, n.x)),
        q_sub(q_mul(a.y, n.y), q_mul(b.y, n.y)),
    );
    lemma_q_ops_wf(q_mul(a.x, n.x), q_mul(a.y, n.y));
    lemma_q_ops_wf(q_mul(b.x, n.x), q_mul(b.y, n.y));
    lemma_q_ops_wf(
        q_add(q_mul(a.x, n.x), q_mul(a.y, n.y)),
        q_add(q_mul(b.x, n.x), q_mul(b.y, n.y)),
    );
    lemma_q_ops_wf(q_add(q_mul(a.x, n.x), q_mul(a.y, n.y)), q_mul(a.z, n.z));
    lemma_q_ops_wf(q_add(q_mul(b.x, n.x), q_mul(b.y, n.y)), q_mul(b.z, n.z));
    lemma_qv_dot_wf(a, n);
    lemma_qv_dot_wf(b, n);
    lemma_qv_dot_wf(qv_sub(a, b), n);
    lemma_q_ops_wf(qv_dot(a, n), qv_dot(b, n));
}

/// Negating one factor of a dot product negates it, structurally.
pub proof fn lemma_qv_dot_neg(u: QV3, v: QV3)
    ensures
        qv_dot(u, qv_neg(v)) == q_neg(qv_dot(u, v)),
{
    crate::rat::lemma_q_mul_neg(u.x, v.x);
    crate::rat::lemma_q_mul_neg(u.y, v.y);
    crate::rat::lemma_q_mul_neg(u.z, v.z);
    crate::rat::lemma_q_neg_add(q_mul(u.x, v.x), q_mul(u.y, v.y));
    crate::rat::lemma_q_neg_add(q_add(q_mul(u.x, v.x), q_mul(u.y, v.y)), q_mul(u.z, v.z));
}

/// The scalar triple product written out: six signed products, grouped
/// by the first vector's components.
pub open spec fn qv_triple_terms(u: QV3, v: QV3, w: QV3) -> Q {
    q_add(
        q_add(
            q_sub(q_mul(u.x, q_mul(v.y, w.z)), q_mul(u.x, q_mul(v.z, w.y))),
            q_sub(q_mul(u.y, q_mul(v.z, w.x)), q_mul(u.y, q_mul(v.x, w.z))),
        ),
        q_sub(q_mul(u.z, q_mul(v.x, w.y)), q_mul(u.z, q_mul(v.y, w.x))),
    )
}

pub proof fn lemma_triple_terms_wf(u: QV3, v: QV3, w: QV3)
    requires
        qv_wf(u),
        qv_wf(v),
        qv_wf(w),
    ensures
        q_wf(q_mul(u.x, q_mul(v.y, w.z))),
        q_wf(q_mul(u.x, q_mul(v.z, w.y))),
        q_wf(q_mul(u.y, q_mul(v.z, w.x))),
        q_wf(q_mul(u.y, q_mul(v.x, w.z))),
        q_wf(q_mul(u.z, q_mul(v.x, w.y))),
        q_wf(q_mul(u.z, q_mul(v.y, w.x))),
        q_wf(q_sub(q_mul(u.x, q_mul(v.y, w.z)), q_mul(u.x, q_mul(v.z, w.y)))),
        q_wf(q_sub(q_mul(u.y, q_mul(v.z, w.x)), q_mul(u.y, q_mul(v.x, w.z)))),
        q_wf(q_sub(q_mul(u.z, q_mul(v.x, w.y)), q_mul(u.z, q_mul(v.y, w.x)))),
        q_wf(
            q_add(
                q_sub(q_mul(u.x, q_mul(v.y, w.z)), q_mul(u.x, q_mul(v.z, w.y))),
                q_sub(q_mul(u.y, q_mul(v.z, w.x)), q_mul(u.y, q_mul(v.x, w.z))),
            ),
        ),
        q_wf(qv_triple_terms(u, v, w)),
{
    lemma_q_ops_wf(v.y, w.z);
    lemma_q_ops_wf(v.z, w.y);
    lemma_q_ops_wf(v.z, w.x);
    lemma_q_ops_wf(v.x, w.z);
    lemma_q_ops_wf(v.x, w.y);
    lemma_q_ops_wf(v.y, w.x);
    lemma_q_ops_wf(u.x, q_mul(v.y, w.z));
    lemma_q_ops_wf(u.x, q_mul(v.z, w.y));
    lemma_q_ops_wf(u.y, q_mul(v.z, w.x));
    lemma_q_ops_wf(u.y, q_mul(v.x, w.z));
    lemma_q_ops_wf(u.z, q_mul(v.x, w.y));
    lemma_q_ops_wf(u.z, q_mul(v.y, w.x));
    lemma_q_ops_wf(q_mul(u.x, q_mul(v.y, w.z)), q_mul(u.x, q_mul(v.z, w.y)));
    lemma_q_ops_wf(q_mul(u.y, q_mul(v.z, w.x)), q_mul(u.y, q_mul(v.x, w.z)));
    lemma_q_ops_wf(q_mul(u.z, q_mul(v.x, w.y)), q_mul(u.z, q_mul(v.y, w.x)));
    lemma_q_ops_wf(
        q_sub(q_mul(u.x, q_mul(v.y, w.z)), q_mul(u.x, q_mul(v.z, w.y))),
        q_sub(q_mul(u.y, q_mul(v.z, w.x)), q_mul(u.y, q_mul(v.x, w.z))),
    );
    lemma_q_ops_wf(
        q_add(
            q_sub(q_mul(u.x, q_mul(v.y, w.z)), q_mul(u.x, q_mul(v.z, w.y))),
            q_sub(q_mul(u.y, q_mul(v.z, w.x)), q_mul(u.y, q_mul(v.x, w.z))),
        ),
        q_sub(q_mul(u.z, q_mul(v.x, w.y)), q_mul(u.z, q_mul(v.y, w.x))),
    );
}

pub proof fn lemma_qv_cross_wf(v: QV3, w: QV3)
    requires
        qv_wf(v),
        qv_wf(w),
    ensures
        qv_wf(qv_cross(v, w)),
{
    lemma_q_ops_wf(v.y, w.z);
    lemma_q_ops_wf(v.z, w.y);
    lemma_q_ops_wf(v.z, w.x);
    lemma_q_ops_wf(v.x, w.z);
    lemma_q_ops_wf(v.x, w.y);
    lemma_q_ops_wf(v.y, w.x);
    lemma_q_ops_wf(q_mul(v.y, w.z), q_mul(v.z, w.y));
    lemma_q_ops_wf(q_mul(v.z, w.x), q_mul(v.x, w.z));
    lemma_q_ops_wf(q_mul(v.x, w.y), q_mul(v.y, w.x));
}

/// The dot of a vector with a cross product expands into the six
/// signed triple products.
pub proof fn lemma_qv_triple_expand(u: QV3, v: QV3, w: QV3)
    requires
        qv_wf(u),
        qv_wf(v),
        qv_wf(w),
    ensures
        q_eq(qv_dot(u, qv_cross(v, w)), qv_triple_terms(u, v, w)),
{
    lemma_triple_terms_wf(u, v, w);
    lemma_q_ops_wf(v.y, w.z);
    lemma_q_ops_wf(v.z, w.y);
    lemma_q_ops_wf(v.z, w.x);
    lemma_q_ops_wf(v.x, w.z);
    lemma_q_ops_wf(v.x, w.y);
    lemma_q_ops_wf(v.y, w.x);
    crate::rat::lemma_q_mul_sub_left(u.x, q_mul(v.y, w.z), q_mul(v.z, w.y));
    crate::rat::lemma_q_mul_sub_left(u.y, q_mul(v.z, w.x), q_mul(v.x, w.z));
    crate::rat::lemma_q_mul_sub_left(u.z, q_mul(v.x, w.y), q_mul(v.y, w.x));
    let c = qv_cross(v, w);
    lemma_qv_cross_wf(v, w);
    lemma_q_ops_wf(u.x, c.x);
    lemma_q_ops_wf(u.y, c.y);
    lemma_q_ops_wf(u.z, c.z);
    lemma_q_add_congr(
        q_mul(u.x, c.x),
        q_mul(u.y, c.y),
        q_sub(q_mul(u.x, q_mul(v.y, w.z)), q_mul(u.x, q_mul(v.z, w.y))),
        q_sub(q_mul(u.y, q_mul(v.z, w.x)), q_mul(u.y, q_mul(v.x, w.z))),
    );
    lemma_q_ops_wf(q_mul(u.x, c.x), q_mul(u.y, c.y));
    lemma_q_ops_wf(
        q_sub(q_mul(u.x, q_mul(v.y, w.z)), q_mul(u.x, q_mul(v.z, w.y))),
        q_sub(q_mul(u.y, q_mul(v.z, w.x)), q_mul(u.y, q_mul(v.x, w.z))),
    );
    lemma_q_add_congr(
        q_add(q_mul(u.x, c.x), q_mul(u.y, c.y)),
        q_mul(u.z, c.z),
        q_add(
            q_sub(q_mul(u.x, q_mul(v.y, w.z)), q_mul(u.x, q_mul(v.z, w.y))),
            q_sub(q_mul(u.y, q_mul(v.z, w.x)), q_mul(u.y, q_mul(v.x, w.z))),
        ),
        q_sub(q_mul(u.z, q_mul(v.x, w.y)), q_mul(u.z, q_mul(v.y, w.x))),
    );
}

/// A vector is orthogonal to its own cross product with another, on
/// either side: both triple products with a repeated vector vanish.
pub proof fn lemma_qv_cross_orthogonal(a: QV3, b: QV3)
    requires
        qv_wf(a),
        qv_wf(b),
    ensures
        q_eq(qv_dot(a, qv_cross(a, b)), q_int(0)),
        q_eq(qv_dot(b, qv_cross(a, b)), q_int(0)),
{
    lemma_qv_triple_expand(a, a, b);
    lemma_qv_triple_expand(b, a, b);
    lemma_triple_terms_wf(a, a, b);
    lemma_triple_terms_wf(b, a, b);
    lemma_qv_cross_wf(a, b);
    lemma_qv_dot_wf(a, qv_cross(a, b));
    lemma_qv_dot_wf(b, qv_cross(a, b));

    // With the first vector repeated, the six products pair off into a
    // cycle of cancelling differences.
    let a1 = q_mul(a.x, q_mul(a.y, b.z));
    let a2 = q_mul(a.y, q_mul(a.z, b.x));
    let a3 = q_mul(a.z, q_mul(a.x, b.y));
    assert(q_mul(a.x, q_mul(a.z, b.y)) == q_mul(a.z, q_mul(a.x, b.y))) by {
        assert(a.x.n * (a.z.n * b.y.n) == a.z.n * (a.x.n * b.y.n)) by (nonlinear_arith);
        assert(a.x.d * (a.z.d * b.y.d) == a.z.d * (a.x.d * b.y.d)) by (nonlinear_arith);
    }
    assert(q_mul(a.y, q_mul(a.x, b.z)) == q_mul(a.x, q_mul(a.y, b.z))) by {
        assert(a.y.n * (a.x.n * b.z.n) == a.x.n * (a.y.n * b.z.n)) by (nonlinear_arith);
        assert(a.y.d * (a.x.d * b.z.d) == a.x.d * (a.y.d * b.z.d)) by (nonlinear_arith);
    }
    assert(q_mul(a.z, q_mul(a.y, b.x)) == q_mul(a.y, q_mul(a.z, b.x))) by {
        assert(a.z.n * (a.y.n * b.x.n) == a.y.n * (a.z.n * b.x.n)) by (nonlinear_arith);
        assert(a.z.d * (a.y.d * b.x.d) == a.y.d * (a.z.d * b.x.d)) by (nonlinear_arith);
    }
    crate::rat::lemma_q_cycle_cancel(a1, a2, a3);
    lemma_q_eq_trans(
        qv_dot(a, qv_cross(a, b)),
        qv_triple_terms(a, a, b),
        q_int(0),
    );

    // With the second vector repeated, the pairing is the reverse
    // cycle.
    let b1 = q_mul(b.x, q_mul(a.y, b.z));
    let b2 = q_mul(b.y, q_mul(a.z, b.x));
    let b3 = q_mul(b.z, q_mul(a.x, b.y));
    assert(q_mul(b.x, q_mul(a.z, b.y)) == q_mul(b.y, q_mul(a.z, b.x))) by {
        assert(b.x.n * (a.z.n * b.y.n) == b.y.n * (a.z.n * b.x.n)) by (nonlinear_arith);
        assert(b.x.d * (a.z.d * b.y.d) == b.y.d * (a.z.d * b.x.d)) by (nonlinear_arith);
    }
    assert(q_mul(b.y, q_mul(a.x, b.z)) == q_mul(b.z, q_mul(a.x, b.y))) by {
        assert(b.y.n * (a.x.n * b.z.n) == b.z.n * (a.x.n * b.y.n)) by (nonlinear_arith);
        assert(b.y.d * (a.x.d * b.z.d) == b.z.d * (a.x.d * b.y.d)) by (nonlinear_arith);
    }
    assert(q_mul(b.z, q_mul(a.y, b.x)) == q_mul(b.x, q_mul(a.y, b.z))) by {
        assert(b.z.n * (a.y.n * b.x.n) == b.x.n * (a.y.n * b.z.n)) by (nonlinear_arith);
        assert(b.z.d * (a.y.d * b.x.d) == b.x.d * (a.y.d * b.z.d)) by (nonlinear_arith);
    }
    crate::rat::lemma_q_cycle_cancel2(b1, b2, b3);
    lemma_q_eq_trans(
        qv_dot(b, qv_cross(a, b)),
        qv_triple_terms(b, a, b),
        q_int(0),
    );
}
pub proof fn lemma_qv_dot_comm(u: QV3, v: QV3)
    ensures
        qv_dot(u, v) == qv_dot(v, u),
{
    crate::rat::lemma_q_mul_comm(u.x, v.x);
    crate::rat::lemma_q_mul_comm(u.y, v.y);
    crate::rat::lemma_q_mul_comm(u.z, v.z);
}

/// Replacing one factor of a dot product by a componentwise equal
/// vector keeps the value equal.
pub proof fn lemma_qv_dot_congr_left(u: QV3, u2: QV3, v: QV3)
    requires
        qv_wf(u),
        qv_wf(u2),
        qv_wf(v),
        q_eq(u.x, u2.x),
        q_eq(u.y, u2.y),
        q_eq(u.z, u2.z),
    ensures
        q_eq(qv_dot(u, v), qv_dot(u2, v)),
{
    crate::rat::lemma_q_eq_refl(v.x);
    crate::rat::lemma_q_eq_refl(v.y);
    crate::rat::lemma_q_eq_refl(v.z);
    crate::rat::lemma_q_mul_congr(u.x, v.x, u2.x, v.x);
    crate::rat::lemma_q_mul_congr(u.y, v.y, u2.y, v.y);
    crate::rat::lemma_q_mul_congr(u.z, v.z, u2.z, v.z);
    lemma_q_ops_wf(u.x, v.x);
    lemma_q_ops_wf(u.y, v.y);
    lemma_q_ops_wf(u.z, v.z);
    lemma_q_ops_wf(u2.x, v.x);
    lemma_q_ops_wf(u2.y, v.y);
    lemma_q_ops_wf(u2.z, v.z);
    lemma_q_add_congr(q_mul(u.x, v.x), q_mul(u.y, v.y), q_mul(u2.x, v.x), q_mul(u2.y, v.y));
    lemma_q_ops_wf(q_mul(u.x, v.x), q_mul(u.y, v.y));
    lemma_q_ops_wf(q_mul(u2.x, v.x), q_mul(u2.y, v.y));
    lemma_q_add_congr(
        q_add(q_mul(u.x, v.x), q_mul(u.y, v.y)),
        q_mul(u.z, v.z),
        q_add(q_mul(u2.x, v.x), q_mul(u2.y, v.y)),
        q_mul(u2.z, v.z),
    );
}

/// Merging a triple-product expansion into one difference of sums.
pub proof fn lemma_triple_merge(u: QV3, v: QV3, w: QV3)
    requires
        qv_wf(u),
        qv_wf(v),
        qv_wf(w),
    ensures
        q_eq(
            qv_triple_terms(u, v, w),
            q_sub(
                q_add(
                    q_add(q_mul(u.x, q_mul(v.y, w.z)), q_mul(u.y, q_mul(v.z, w.x))),
                    q_mul(u.z, q_mul(v.x, w.y)),
                ),
                q_add(
                    q_add(q_mul(u.x, q_mul(v.z, w.y)), q_mul(u.y, q_mul(v.x, w.z))),
                    q_mul(u.z, q_mul(v.y, w.x)),
                ),
            ),
        ),
{
    lemma_triple_terms_wf(u, v, w);
    crate::rat::lemma_q_sub3_merge(
        q_mul(u.x, q_mul(v.y, w.z)),
        q_mul(u.x, q_mul(v.z, w.y)),
        q_mul(u.y, q_mul(v.z, w.x)),
        q_mul(u.y, q_mul(v.x, w.z)),
        q_mul(u.z, q_mul(v.x, w.y)),
        q_mul(u.z, q_mul(v.y, w.x)),
    );
}

/// The scalar triple product is invariant under a cyclic rotation of
/// its three vectors.
pub proof fn lemma_qv_triple_rotate(u: QV3, v: QV3, w: QV3)
    requires
        qv_wf(u),
        qv_wf(v),
        qv_wf(w),
    ensures
        q_eq(qv_dot(w, qv_cross(u, v)), qv_dot(u, qv_cross(v, w))),
{
    lemma_qv_triple_expand(u, v, w);
    lemma_qv_triple_expand(w, u, v);
    lemma_triple_merge(u, v, w);
    lemma_triple_merge(w, u, v);
    crate::rat::lemma_q_mul3_perms(u.y, v.z, w.x);
    crate::rat::lemma_q_mul3_perms(u.z, v.x, w.y);
    crate::rat::lemma_q_mul3_perms(u.x, v.y, w.z);
    crate::rat::lemma_q_mul3_perms(u.z, v.y, w.x);
    crate::rat::lemma_q_mul3_perms(u.x, v.z, w.y);
    crate::rat::lemma_q_mul3_perms(u.y, v.x, w.z);
    let m1 = q_mul(u.x, q_mul(v.y, w.z));
    let m2 = q_mul(u.y, q_mul(v.z, w.x));
    let m3 = q_mul(u.z, q_mul(v.x, w.y));
    let n1 = q_mul(u.x, q_mul(v.z, w.y));
    let n2 = q_mul(u.y, q_mul(v.x, w.z));
    let n3 = q_mul(u.z, q_mul(v.y, w.x));
    lemma_triple_terms_wf(u, v, w);
    lemma_triple_terms_wf(w, u, v);
    crate::rat::lemma_q_add3_rotate(m1, m2, m3);
    crate::rat::lemma_q_add3_rotate(n3, n1, n2);
    crate::rat::lemma_q_ops_wf(m1, m2);
    crate::rat::lemma_q_ops_wf(q_add(m1, m2), m3);
    crate::rat::lemma_q_ops_wf(m2, m3);
    crate::rat::lemma_q_ops_wf(q_add(m2, m3), m1);
    crate::rat::lemma_q_ops_wf(n1, n2);
    crate::rat::lemma_q_ops_wf(q_add(n1, n2), n3);
    crate::rat::lemma_q_ops_wf(n3, n1);
    crate::rat::lemma_q_ops_wf(q_add(n3, n1), n2);
    crate::rat::lemma_q_eq_sym(q_add(q_add(m2, m3), m1), q_add(q_add(m1, m2), m3));
    crate::rat::lemma_q_sub_congr(
        q_add(q_add(m2, m3), m1),
        q_add(q_add(n3, n1), n2),
        q_add(q_add(m1, m2), m3),
        q_add(q_add(n1, n2), n3),
    );
    crate::rat::lemma_q_ops_wf(q_add(q_add(m2, m3), m1), q_add(q_add(n3, n1), n2));
    crate::rat::lemma_q_ops_wf(q_add(q_add(m1, m2), m3), q_add(q_add(n1, n2), n3));
    crate::rat::lemma_q_eq_trans(
        qv_triple_terms(w, u, v),
        q_sub(q_add(q_add(m2, m3), m1), q_add(q_add(n3, n1), n2)),
        q_sub(q_add(q_add(m1, m2), m3), q_add(q_add(n1, n2), n3)),
    );
    crate::rat::lemma_q_eq_sym(
        qv_triple_terms(u, v, w),
        q_sub(q_add(q_add(m1, m2), m3), q_add(q_add(n1, n2), n3)),
    );
    lemma_qv_cross_wf(u, v);
    lemma_qv_cross_wf(v, w);
    lemma_qv_dot_wf(w, qv_cross(u, v));
    lemma_qv_dot_wf(u, qv_cross(v, w));
    crate::rat::lemma_q_ops_wf(
        q_add(q_add(m1, m2), m3),
        q_add(q_add(n1, n2), n3),
    );
    crate::rat::lemma_q_eq_trans(
        qv_dot(w, qv_cross(u, v)),
        qv_triple_terms(w, u, v),
        q_sub(q_add(q_add(m1, m2), m3), q_add(q_add(n1, n2), n3)),
    );
    crate::rat::lemma_q_eq_trans(
        qv_dot(w, qv_cross(u, v)),
        q_sub(q_add(q_add(m1, m2), m3), q_add(q_add(n1, n2), n3)),
        qv_triple_terms(u, v, w),
    );
    crate::rat::lemma_q_eq_sym(qv_dot(u, qv_cross(v, w)), qv_triple_terms(u, v, w));
    crate::rat::lemma_q_eq_trans(
        qv_dot(w, qv_cross(u, v)),
        qv_triple_terms(u, v, w),
        qv_dot(u, qv_cross(v, w)),
    );
}

/// Dividing every component of the second factor by one divisor
/// divides the dot product by it, as values.
pub proof fn lemma_qv_dot_div3(u: QV3, v: QV3, d: Q)
    requires
        qv_wf(u),
        qv_wf(v),
        q_wf(d),
        d.n != 0,
    ensures
        q_eq(
            qv_dot(u, QV3 { x: crate::rat::q_div(v.x, d), y: crate::rat::q_div(v.y, d), z: crate::rat::q_div(v.z, d) }),
            crate::rat::q_div(qv_dot(u, v), d),
        ),
{
    crate::rat::lemma_q_mul_div_assoc(u.x, v.x, d);
    crate::rat::lemma_q_mul_div_assoc(u.y, v.y, d);
    crate::rat::lemma_q_mul_div_assoc(u.z, v.z, d);
    lemma_q_ops_wf(u.x, v.x);
    lemma_q_ops_wf(u.y, v.y);
    lemma_q_ops_wf(u.z, v.z);
    crate::rat::lemma_q_add_div(q_mul(u.x, v.x), q_mul(u.y, v.y), d);
    lemma_q_ops_wf(q_mul(u.x, v.x), q_mul(u.y, v.y));
    crate::rat::lemma_q_add_div(q_add(q_mul(u.x, v.x), q_mul(u.y, v.y)), q_mul(u.z, v.z), d);
    let dx = crate::rat::q_div(q_mul(u.x, v.x), d);
    let dy = crate::rat::q_div(q_mul(u.y, v.y), d);
    let dz = crate::rat::q_div(q_mul(u.z, v.z), d);
    lemma_q_div_wf(q_mul(u.x, v.x), d);
    lemma_q_div_wf(q_mul(u.y, v.y), d);
    lemma_q_div_wf(q_mul(u.z, v.z), d);
    lemma_q_ops_wf(dx, dy);
    lemma_q_div_wf(q_add(q_mul(u.x, v.x), q_mul(u.y, v.y)), d);
    lemma_qv_dot_wf(u, v);
    crate::rat::lemma_q_eq_refl(dz);
    crate::rat::lemma_q_add_congr(
        q_add(dx, dy),
        dz,
        crate::rat::q_div(q_add(q_mul(u.x, v.x), q_mul(u.y, v.y)), d),
        dz,
    );
    lemma_q_ops_wf(dx, dy);
    lemma_q_div_wf(q_add(q_mul(u.x, v.x), q_mul(u.y, v.y)), d);
    crate::rat::lemma_q_ops_wf(q_add(dx, dy), dz);
    crate::rat::lemma_q_ops_wf(
        crate::rat::q_div(q_add(q_mul(u.x, v.x), q_mul(u.y, v.y)), d),
        dz,
    );
    lemma_q_div_wf(qv_dot(u, v), d);
    crate::rat::lemma_q_eq_trans(
        q_add(q_add(dx, dy), dz),
        q_add(crate::rat::q_div(q_add(q_mul(u.x, v.x), q_mul(u.y, v.y)), d), dz),
        crate::rat::q_div(qv_dot(u, v), d),
    );
}

/// Division by a nonzero value keeps denominators positive.
pub proof fn lemma_q_div_wf(x: Q, d: Q)
    requires
        q_wf(x),
        q_wf(d),
        d.n != 0,
    ensures
        q_wf(crate::rat::q_div(x, d)),
{
    if d.n > 0 {
        crate::rat::lemma_pos_mul(x.d, d.n);
    } else {
        crate::rat::lemma_pos_neg_mul(x.d, d.n);
    }
}

/// The dot product distributes over vector addition, as values.
pub proof fn lemma_qv_dot_add(a: QV3, b: QV3, n: QV3)
    requires
        qv_wf(a),
        qv_wf(b),
        qv_wf(n),
    ensures
        q_eq(qv_dot(qv_add(a, b), n), q_add(qv_dot(a, n), qv_dot(b, n))),
{
    let c1 = q_mul(q_add(a.x, b.x), n.x);
    let c2 = q_mul(q_add(a.y, b.y), n.y);
    let c3 = q_mul(q_add(a.z, b.z), n.z);
    let p1 = q_mul(a.x, n.x);
    let p2 = q_mul(a.y, n.y);
    let p3 = q_mul(a.z, n.z);
    let w1 = q_mul(b.x, n.x);
    let w2 = q_mul(b.y, n.y);
    let w3 = q_mul(b.z, n.z);
    crate::rat::lemma_q_mul_comm(q_add(a.x, b.x), n.x);
    crate::rat::lemma_q_mul_comm(q_add(a.y, b.y), n.y);
    crate::rat::lemma_q_mul_comm(q_add(a.z, b.z), n.z);
    crate::rat::lemma_q_mul_comm(n.x, a.x);
    crate::rat::lemma_q_mul_comm(n.y, a.y);
    crate::rat::lemma_q_mul_comm(n.z, a.z);
    crate::rat::lemma_q_mul_comm(n.x, b.x);
    crate::rat::lemma_q_mul_comm(n.y, b.y);
    crate::rat::lemma_q_mul_comm(n.z, b.z);
    lemma_q_mul_add(n.x, a.x, b.x);
    lemma_q_mul_add(n.y, a.y, b.y);
    lemma_q_mul_add(n.z, a.z, b.z);
    lemma_q_ops_wf(a.x, b.x);
    lemma_q_ops_wf(a.y, b.y);
    lemma_q_ops_wf(a.z, b.z);
    lemma_q_ops_wf(q_add(a.x, b.x), n.x);
    lemma_q_ops_wf(q_add(a.y, b.y), n.y);
    lemma_q_ops_wf(q_add(a.z, b.z), n.z);
    lemma_q_ops_wf(a.x, n.x);
    lemma_q_ops_wf(a.y, n.y);
    lemma_q_ops_wf(a.z, n.z);
    lemma_q_ops_wf(b.x, n.x);
    lemma_q_ops_wf(b.y, n.y);
    lemma_q_ops_wf(b.z, n.z);
    lemma_q_ops_wf(p1, w1);
    lemma_q_ops_wf(p2, w2);
    lemma_q_ops_wf(p3, w3);
    lemma_q_add_congr(c1, c2, q_add(p1, w1), q_add(p2, w2));
    lemma_q_add_add_exchange(p1, w1, p2, w2);
    lemma_q_ops_wf(c1, c2);
    lemma_q_ops_wf(q_add(p1, w1), q_add(p2, w2));
    lemma_q_ops_wf(p1, p2);
    lemma_q_ops_wf(w1, w2);
    lemma_q_ops_wf(q_add(p1, p2), q_add(w1, w2));
    lemma_q_eq_trans(
        q_add(c1, c2),
        q_add(q_add(p1, w1), q_add(p2, w2)),
        q_add(q_add(p1, p2), q_add(w1, w2)),
    );
    lemma_q_add_congr(q_add(c1, c2), c3, q_add(q_add(p1, p2), q_add(w1, w2)), q_add(p3, w3));
    lemma_q_add_add_exchange(q_add(p1, p2), q_add(w1, w2), p3, w3);
    lemma_q_ops_wf(q_add(c1, c2), c3);
    lemma_q_ops_wf(q_add(q_add(p1, p2), q_add(w1, w2)), q_add(p3, w3));
    lemma_q_ops_wf(q_add(p1, p2), p3);
    lemma_q_ops_wf(q_add(w1, w2), w3);
    lemma_q_ops_wf(q_add(q_add(p1, p2), p3), q_add(q_add(w1, w2), w3));
    lemma_q_eq_trans(
        q_add(q_add(c1, c2), c3),
        q_add(q_add(q_add(p1, p2), q_add(w1, w2)), q_add(p3, w3)),
        q_add(q_add(q_add(p1, p2), p3), q_add(q_add(w1, w2), w3)),
    );
}

/// Scaling one factor of a dot product scales its value.
pub proof fn lemma_qv_dot_scale(s: Q, u: QV3, v: QV3)
    requires
        q_wf(s),
        qv_wf(u),
        qv_wf(v),
    ensures
        q_eq(qv_dot(qv_scale(s, u), v), q_mul(s, qv_dot(u, v))),
{
    let w1 = q_mul(u.x, v.x);
    let w2 = q_mul(u.y, v.y);
    let w3 = q_mul(u.z, v.z);
    lemma_q_mul_assoc(s, u.x, v.x);
    lemma_q_mul_assoc(s, u.y, v.y);
    lemma_q_mul_assoc(s, u.z, v.z);
    lemma_q_ops_wf(u.x, v.x);
    lemma_q_ops_wf(u.y, v.y);
    lemma_q_ops_wf(u.z, v.z);
    lemma_q_ops_wf(s, w1);
    lemma_q_ops_wf(s, w2);
    lemma_q_ops_wf(s, w3);
    lemma_q_ops_wf(q_mul(s, w1), q_mul(s, w2));
    lemma_q_ops_wf(w1, w2);
    lemma_q_ops_wf(s, q_add(w1, w2));
    lemma_q_mul_add(s, w1, w2);
    lemma_q_eq_sym(q_mul(s, q_add(w1, w2)), q_add(q_mul(s, w1), q_mul(s, w2)));
    lemma_q_add_congr(
        q_add(q_mul(s, w1), q_mul(s, w2)),
        q_mul(s, w3),
        q_mul(s, q_add(w1, w2)),
        q_mul(s, w3),
    );
    lemma_q_mul_add(s, q_add(w1, w2), w3);
    lemma_q_eq_sym(q_mul(s, q_add(q_add(w1, w2), w3)), q_add(q_mul(s, q_add(w1, w2)), q_mul(s, w3)));
    lemma_q_ops_wf(q_add(w1, w2), w3);
    lemma_q_ops_wf(q_mul(s, q_add(w1, w2)), q_mul(s, w3));
    lemma_q_ops_wf(s, q_add(q_add(w1, w2), w3));
    lemma_q_ops_wf(q_add(q_mul(s, w1), q_mul(s, w2)), q_mul(s, w3));
    lemma_q_eq_trans(
        q_add(q_add(q_mul(s, w1), q_mul(s, w2)), q_mul(s, w3)),
        q_add(q_mul(s, q_add(w1, w2)), q_mul(s, w3)),
        q_mul(s, q_add(q_add(w1, w2), w3)),
    );
}

/// A vector (or point) with exact rational components.
pub struct Vec3 {
    pub x: Rat,
    pub y: Rat,
    pub z: Rat,
}

impl View for Vec3 {
    type V = QV3;

    open spec fn view(&self) -> QV3 {
        QV3 { x: self.x@, y: self.y@, z: self.z@ }
    }
}

impl Vec3 {
    pub open spec fn wf(&self) -> bool {
        qv_wf(self@)
    }

    /// The vector of three integer components.
    pub fn ints(x: i64, y: i64, z: i64) -> (r: Vec3)
        ensures
            r.wf(),
            r@ == qv_int(x as int, y as int, z as int),
    {
        Vec3 { x: Rat::from_int(x), y: Rat::from_int(y), z: Rat::from_int(z) }
    }

    /// An exact copy.
    pub fn dup(&self) -> (r: Vec3)
        ensures
            r@ == self@,
    {
        Vec3 { x: self.x.dup(), y: self.y.dup(), z: self.z.dup() }
    }

    pub fn add(&self, other: &Vec3) -> (r: Vec3)
        requires
            self.wf(),
            other.wf(),
        ensures
            r.wf(),
            r@ == qv_add(self@, other@),
    {
        Vec3 { x: self.x.add(&other.x), y: self.y.add(&other.y), z: self.z.add(&other.z) }
    }

    pub fn sub(&self, other: &Vec3) -> (r: Vec3)
        requires
            self.wf(),
            other.wf(),
        ensures
            r.wf(),
            r@ == qv_sub(self@, other@),
    {
        Vec3 { x: self.x.sub(&other.x), y: self.y.sub(&other.y), z: self.z.sub(&other.z) }
    }

    pub fn neg(&self) -> (r: Vec3)
        requires
            self.wf(),
        ensures
            r.wf(),
            r@ == qv_neg(self@),
    {
        Vec3 { x: self.x.neg(), y: self.y.neg(), z: self.z.neg() }
    }

    /// The vector scaled by `s`.
    pub fn scale(&self, s: &Rat) -> (r: Vec3)
        requires
            self.wf(),
            s.wf(),
        ensures
            r.wf(),
            r@ == qv_scale(s@, self@),
    {
        Vec3 { x: s.mul(&self.x), y: s.mul(&self.y), z: s.mul(&self.z) }
    }

    pub fn dot(&self, other: &Vec3) -> (r: Rat)
        requires
            self.wf(),
            other.wf(),
        ensures
            r.wf(),
            r@ == qv_dot(self@, other@),
    {
        self.x.mul(&other.x).add(&self.y.mul(&other.y)).add(&self.z.mul(&other.z))
    }

    pub fn cross(&self, other: &Vec3) -> (r: Vec3)
        requires
            self.wf(),
            other.wf(),
        ensures
            r.wf(),
            r@ == qv_cross(self@, other@),
    {
        Vec3 {
            x: self.y.mul(&other.z).sub(&self.z.mul(&other.y)),
            y: self.z.mul(&other.x).sub(&self.x.mul(&other.z)),
            z: self.x.mul(&other.y).sub(&self.y.mul(&other.x)),
        }
    }

    /// Componentwise value equality.
    pub fn eq_val(&self, other: &Vec3) -> (r: bool)
        requires
            self.wf(),
            other.wf(),
        ensures
            r == qv_eq(self@, other@),
    {
        self.x.eq_val(&other.x) && self.y.eq_val(&other.y) && self.z.eq_val(&other.z)
    }
}

} // verus!
