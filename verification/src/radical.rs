//! Exact quadratic-radical scalars and vectors.
//!
//! Ray/sphere intersection produces coordinates of the form
//! `a + b * sqrt(k)` with `a`, `b`, `k` rational and `k >= 0`. A
//! `Radical` carries such a value symbolically; a `RadVec3` carries a
//! point or vector whose three components share one radicand `k`.
//!
//! A triple `(a, b, k)` denotes the real number `a + b * s`, where `s`
//! is the nonnegative square root of `k`. The sign and comparison
//! functions below decide the sign of such values exactly, by reducing
//! each decision to rational comparisons: the sign of `c + b * sqrt(k)`
//! with `c` and `b` of opposite signs is settled by comparing `c * c`
//! against `b * b * k`, and a sum with two live radicals is settled by
//! one more squaring of the same kind. Every identity stated about these
//! triples holds componentwise, so it holds for every real denotation.

use vstd::prelude::*;
use crate::rat::{Rat, Q, q_wf, q_int, q_add, q_sub, q_neg, q_mul, q_le, q_lt, q_sign};
use crate::vec3::{Vec3, QV3, qv_wf};
use crate::mat::{Mat3, QM3};

verus! {

/// The mathematical value of a radical scalar: `a + b * sqrt(k)`.
pub ghost struct QR {
    pub a: Q,
    pub b: Q,
    pub k: Q,
}

pub open spec fn qr_wf(x: QR) -> bool {
    q_wf(x.a) && q_wf(x.b) && q_wf(x.k) && q_le(q_int(0), x.k)
}

/// The radical holding the rational `a`.
pub open spec fn qr_of_q(a: Q) -> QR {
    QR { a: a, b: q_int(0), k: q_int(0) }
}

pub open spec fn qr_add(x: QR, y: QR) -> QR {
    QR { a: q_add(x.a, y.a), b: q_add(x.b, y.b), k: x.k }
}

pub open spec fn qr_add_q(x: QR, c: Q) -> QR {
    QR { a: q_add(x.a, c), b: x.b, k: x.k }
}

pub open spec fn qr_sub_q(x: QR, c: Q) -> QR {
    QR { a: q_sub(x.a, c), b: x.b, k: x.k }
}

pub open spec fn qr_scale_q(s: Q, x: QR) -> QR {
    QR { a: q_mul(s, x.a), b: q_mul(s, x.b), k: x.k }
}

pub open spec fn qr_neg(x: QR) -> QR {
    QR { a: q_neg(x.a), b: q_neg(x.b), k: x.k }
}

/// The product of two values over the same radicand:
/// `(a + b s)(a' + b' s) = aa' + bb'k + (ab' + a'b) s`.
pub open spec fn qr_mul(x: QR, y: QR) -> QR {
    QR {
        a: q_add(q_mul(x.a, y.a), q_mul(q_mul(x.b, y.b), x.k)),
        b: q_add(q_mul(x.a, y.b), q_mul(y.a, x.b)),
        k: x.k,
    }
}

/// The sign of `c + b * sqrt(k)` for `k >= 0`, by exact case analysis.
pub open spec fn qr_sign1(c: Q, b: Q, k: Q) -> int {
    if q_sign(k) == 0 || q_sign(b) == 0 {
        q_sign(c)
    } else if q_sign(c) == 0 {
        q_sign(b)
    } else if q_sign(c) == q_sign(b) {
        q_sign(c)
    } else if q_lt(q_mul(q_mul(b, b), k), q_mul(c, c)) {
        q_sign(c)
    } else if q_lt(q_mul(c, c), q_mul(q_mul(b, b), k)) {
        q_sign(b)
    } else {
        0
    }
}

/// The sign of `c + b1 * sqrt(k1) + b2 * sqrt(k2)`, by reducing the
/// two-radical sum to one-radical signs: compare `X = c + b1 sqrt(k1)`
/// against `-Y = -b2 sqrt(k2)` through the sign of `X^2 - Y^2`, itself a
/// one-radical value.
pub open spec fn qr_sign2(c: Q, b1: Q, k1: Q, b2: Q, k2: Q) -> int {
    if q_sign(k1) == 0 || q_sign(b1) == 0 {
        qr_sign1(c, b2, k2)
    } else if q_sign(k2) == 0 || q_sign(b2) == 0 {
        qr_sign1(c, b1, k1)
    } else {
        let sx = qr_sign1(c, b1, k1);
        let sy = q_sign(b2);
        if sx == 0 {
            sy
        } else if sx == sy {
            sx
        } else {
            let s = qr_sign1(
                q_sub(q_add(q_mul(c, c), q_mul(q_mul(b1, b1), k1)), q_mul(q_mul(b2, b2), k2)),
                q_mul(q_int(2), q_mul(c, b1)),
                k1,
            );
            if s > 0 {
                sx
            } else if s < 0 {
                sy
            } else {
                0
            }
        }
    }
}

/// The sign of a radical value.
pub open spec fn qr_sign(x: QR) -> int {
    qr_sign1(x.a, x.b, x.k)
}

/// Whether `x <= y` as real values, across possibly different radicands:
/// the sign of `(x.a - y.a) + x.b sqrt(x.k) - y.b sqrt(y.k)`.
pub open spec fn qr_le(x: QR, y: QR) -> bool {
    qr_sign2(q_sub(x.a, y.a), x.b, x.k, q_neg(y.b), y.k) <= 0
}

pub open spec fn qr_lt(x: QR, y: QR) -> bool {
    qr_sign2(q_sub(x.a, y.a), x.b, x.k, q_neg(y.b), y.k) < 0
}

/// On purely rational values (no live radical part), the one-radical
/// sign is the rational sign.
pub proof fn lemma_qr_sign1_rational(c: Q, b: Q, k: Q)
    requires
        q_sign(k) == 0 || q_sign(b) == 0,
    ensures
        qr_sign1(c, b, k) == q_sign(c),
{
}

/// Whether `x < y` for two values over one radicand: the sign of the
/// single-radical difference `(x.a - y.a) + (x.b - y.b) sqrt(k)`.
pub open spec fn qr_lt_same_k(x: QR, y: QR) -> bool {
    qr_sign1(q_sub(x.a, y.a), q_sub(x.b, y.b), x.k) < 0
}

pub open spec fn qr_le_same_k(x: QR, y: QR) -> bool {
    qr_sign1(q_sub(x.a, y.a), q_sub(x.b, y.b), x.k) <= 0
}

/// Negating both parts of a one-radical value negates its sign.
pub proof fn lemma_qr_sign1_neg(c: Q, b: Q, k: Q)
    ensures
        qr_sign1(q_neg(c), q_neg(b), k) == -qr_sign1(c, b, k),
{
    assert((-c.n) * (-c.n) == c.n * c.n) by (nonlinear_arith);
    assert((-b.n) * (-b.n) == b.n * b.n) by (nonlinear_arith);
    assert((-c.d) * (-c.d) == c.d * c.d) by (nonlinear_arith);
    assert((-b.d) * (-b.d) == b.d * b.d) by (nonlinear_arith);
}

/// The same-radicand order is antisymmetric: exactly one of `x < y`,
/// `y <= x` holds.
pub proof fn lemma_qr_same_k_total(x: QR, y: QR)
    requires
        x.k == y.k,
    ensures
        qr_lt_same_k(x, y) <==> !qr_le_same_k(y, x),
{
    let c1 = q_sub(x.a, y.a);
    let b1 = q_sub(x.b, y.b);
    let c2 = q_sub(y.a, x.a);
    let b2 = q_sub(y.b, x.b);
    assert(x.a.d * y.a.d == y.a.d * x.a.d) by (nonlinear_arith);
    assert(x.b.d * y.b.d == y.b.d * x.b.d) by (nonlinear_arith);
    assert(c1 == q_neg(c2) && b1 == q_neg(b2));
    lemma_qr_sign1_neg(c2, b2, y.k);
}

/// An exact scalar of the form `a + b * sqrt(k)`.
pub struct Radical {
    pub a: Rat,
    pub b: Rat,
    pub k: Rat,
}

impl View for Radical {
    type V = QR;

    open spec fn view(&self) -> QR {
        QR { a: self.a@, b: self.b@, k: self.k@ }
    }
}

/// The sign of `c + b * sqrt(k)`, computed exactly.
fn rad_sign1(c: &Rat, b: &Rat, k: &Rat) -> (r: i8)
    requires
        c.wf(),
        b.wf(),
        k.wf(),
        q_le(q_int(0), k@),
    ensures
        r as int == qr_sign1(c@, b@, k@),
{
    if k.sign() == 0 || b.sign() == 0 {
        c.sign()
    } else if c.sign() == 0 {
        b.sign()
    } else if c.sign() == b.sign() {
        c.sign()
    } else {
        let c2 = c.mul(c);
        let b2k = b.mul(b).mul(k);
        if b2k.lt(&c2) {
            c.sign()
        } else if c2.lt(&b2k) {
            b.sign()
        } else {
            0
        }
    }
}

/// The sign of `c + b1 * sqrt(k1) + b2 * sqrt(k2)`, computed exactly.
fn rad_sign2(c: &Rat, b1: &Rat, k1: &Rat, b2: &Rat, k2: &Rat) -> (r: i8)
    requires
        c.wf(),
        b1.wf(),
        k1.wf(),
        b2.wf(),
        k2.wf(),
        q_le(q_int(0), k1@),
        q_le(q_int(0), k2@),
    ensures
        r as int == qr_sign2(c@, b1@, k1@, b2@, k2@),
{
    if k1.sign() == 0 || b1.sign() == 0 {
        rad_sign1(c, b2, k2)
    } else if k2.sign() == 0 || b2.sign() == 0 {
        rad_sign1(c, b1, k1)
    } else {
        let sx = rad_sign1(c, b1, k1);
        let sy = b2.sign();
        if sx == 0 {
            sy
        } else if sx == sy {
            sx
        } else {
            let two = Rat::from_int(2);
            let s = rad_sign1(
                &c.mul(c).add(&b1.mul(b1).mul(k1)).sub(&b2.mul(b2).mul(k2)),
                &two.mul(&c.mul(b1)),
                k1,
            );
            if s > 0 {
                sx
            } else if s < 0 {
                sy
            } else {
                0
            }
        }
    }
}

impl Radical {
    pub open spec fn wf(&self) -> bool {
        qr_wf(self@)
    }

    /// The radical holding the rational `r`.
    pub fn from_rat(r: &Rat) -> (res: Radical)
        ensures
            res@ == qr_of_q(r@),
    {
        Radical { a: r.dup(), b: Rat::from_int(0), k: Rat::from_int(0) }
    }

    /// An exact copy.
    pub fn dup(&self) -> (r: Radical)
        ensures
            r@ == self@,
    {
        Radical { a: self.a.dup(), b: self.b.dup(), k: self.k.dup() }
    }

    /// The sum of two values over the same radicand.
    pub fn add(&self, other: &Radical) -> (r: Radical)
        requires
            self.wf(),
            other.wf(),
            self@.k == other@.k,
        ensures
            r.wf(),
            r@ == qr_add(self@, other@),
    {
        Radical { a: self.a.add(&other.a), b: self.b.add(&other.b), k: self.k.dup() }
    }

    pub fn add_rat(&self, c: &Rat) -> (r: Radical)
        requires
            self.wf(),
            c.wf(),
        ensures
            r.wf(),
            r@ == qr_add_q(self@, c@),
    {
        Radical { a: self.a.add(c), b: self.b.dup(), k: self.k.dup() }
    }

    pub fn sub_rat(&self, c: &Rat) -> (r: Radical)
        requires
            self.wf(),
            c.wf(),
        ensures
            r.wf(),
            r@ == qr_sub_q(self@, c@),
    {
        Radical { a: self.a.sub(c), b: self.b.dup(), k: self.k.dup() }
    }

    /// The value scaled by the rational `s`.
    pub fn scale_rat(&self, s: &Rat) -> (r: Radical)
        requires
            self.wf(),
            s.wf(),
        ensures
            r.wf(),
            r@ == qr_scale_q(s@, self@),
    {
        Radical { a: s.mul(&self.a), b: s.mul(&self.b), k: self.k.dup() }
    }

    pub fn neg(&self) -> (r: Radical)
        requires
            self.wf(),
        ensures
            r.wf(),
            r@ == qr_neg(self@),
    {
        Radical { a: self.a.neg(), b: self.b.neg(), k: self.k.dup() }
    }

    /// The product of two values over the same radicand.
    pub fn mul(&self, other: &Radical) -> (r: Radical)
        requires
            self.wf(),
            other.wf(),
            self@.k == other@.k,
        ensures
            r.wf(),
            r@ == qr_mul(self@, other@),
    {
        Radical {
            a: self.a.mul(&other.a).add(&self.b.mul(&other.b).mul(&self.k)),
            b: self.a.mul(&other.b).add(&other.a.mul(&self.b)),
            k: self.k.dup(),
        }
    }

    /// The sign of the value: -1, 0 or 1.
    pub fn sign(&self) -> (r: i8)
        requires
            self.wf(),
        ensures
            r as int == qr_sign(self@),
    {
        rad_sign1(&self.a, &self.b, &self.k)
    }

    /// Whether `self < other` for two values over one radicand.
    pub fn lt_same_k(&self, other: &Radical) -> (r: bool)
        requires
            self.wf(),
            other.wf(),
            self@.k == other@.k,
        ensures
            r == qr_lt_same_k(self@, other@),
    {
        rad_sign1(&self.a.sub(&other.a), &self.b.sub(&other.b), &self.k) < 0
    }

    /// Whether `self <= other` for two values over one radicand.
    pub fn le_same_k(&self, other: &Radical) -> (r: bool)
        requires
            self.wf(),
            other.wf(),
            self@.k == other@.k,
        ensures
            r == qr_le_same_k(self@, other@),
    {
        rad_sign1(&self.a.sub(&other.a), &self.b.sub(&other.b), &self.k) <= 0
    }

    /// Whether `self <= other` as real values; the radicands may differ.
    pub fn le(&self, other: &Radical) -> (r: bool)
        requires
            self.wf(),
            other.wf(),
        ensures
            r == qr_le(self@, other@),
    {
        rad_sign2(&self.a.sub(&other.a), &self.b, &self.k, &other.b.neg(), &other.k) <= 0
    }

    /// Whether `self < other` as real values; the radicands may differ.
    pub fn lt(&self, other: &Radical) -> (r: bool)
        requires
            self.wf(),
            other.wf(),
        ensures
            r == qr_lt(self@, other@),
    {
        rad_sign2(&self.a.sub(&other.a), &self.b, &self.k, &other.b.neg(), &other.k) < 0
    }
}

/// The mathematical value of a radical vector.
pub ghost struct QRV3 {
    pub x: QR,
    pub y: QR,
    pub z: QR,
}

pub open spec fn qrv_wf(v: QRV3) -> bool {
    qr_wf(v.x) && qr_wf(v.y) && qr_wf(v.z) && v.x.k == v.y.k && v.x.k == v.z.k
}

pub open spec fn qrv_of_qv(v: QV3) -> QRV3 {
    QRV3 { x: qr_of_q(v.x), y: qr_of_q(v.y), z: qr_of_q(v.z) }
}

pub open spec fn qrv_add_qv(u: QRV3, v: QV3) -> QRV3 {
    QRV3 { x: qr_add_q(u.x, v.x), y: qr_add_q(u.y, v.y), z: qr_add_q(u.z, v.z) }
}

pub open spec fn qrv_sub_qv(u: QRV3, v: QV3) -> QRV3 {
    QRV3 { x: qr_sub_q(u.x, v.x), y: qr_sub_q(u.y, v.y), z: qr_sub_q(u.z, v.z) }
}

/// The dot product of a radical vector with a rational vector.
pub open spec fn qrv_dot_qv(u: QRV3, v: QV3) -> QR {
    qr_add(qr_add(qr_scale_q(v.x, u.x), qr_scale_q(v.y, u.y)), qr_scale_q(v.z, u.z))
}

/// The squared Euclidean distance from the radical point `u` to the
/// rational point `p`.
pub open spec fn qrv_dist_sq(u: QRV3, p: QV3) -> QR {
    let d = qrv_sub_qv(u, p);
    qr_add(qr_add(qr_mul(d.x, d.x), qr_mul(d.y, d.y)), qr_mul(d.z, d.z))
}

/// The radical vector scaled by a rational.
pub open spec fn qrv_scale_q(s: Q, u: QRV3) -> QRV3 {
    QRV3 { x: qr_scale_q(s, u.x), y: qr_scale_q(s, u.y), z: qr_scale_q(s, u.z) }
}

/// A rational matrix applied to a radical vector.
pub open spec fn qrv_apply_qm3(m: QM3, u: QRV3) -> QRV3 {
    QRV3 { x: qrv_dot_qv(u, m.rx), y: qrv_dot_qv(u, m.ry), z: qrv_dot_qv(u, m.rz) }
}

/// A point or vector whose components share one radicand.
pub struct RadVec3 {
    pub x: Radical,
    pub y: Radical,
    pub z: Radical,
}

impl View for RadVec3 {
    type V = QRV3;

    open spec fn view(&self) -> QRV3 {
        QRV3 { x: self.x@, y: self.y@, z: self.z@ }
    }
}

impl RadVec3 {
    pub open spec fn wf(&self) -> bool {
        qrv_wf(self@)
    }

    /// The radical vector holding the rational vector `v`.
    pub fn from_vec3(v: &Vec3) -> (r: RadVec3)
        ensures
            r@ == qrv_of_qv(v@),
    {
        RadVec3 {
            x: Radical::from_rat(&v.x),
            y: Radical::from_rat(&v.y),
            z: Radical::from_rat(&v.z),
        }
    }

    /// An exact copy.
    pub fn dup(&self) -> (r: RadVec3)
        ensures
            r@ == self@,
    {
        RadVec3 { x: self.x.dup(), y: self.y.dup(), z: self.z.dup() }
    }

    pub fn add_vec3(&self, v: &Vec3) -> (r: RadVec3)
        requires
            self.wf(),
            v.wf(),
        ensures
            r.wf(),
            r@ == qrv_add_qv(self@, v@),
    {
        RadVec3 { x: self.x.add_rat(&v.x), y: self.y.add_rat(&v.y), z: self.z.add_rat(&v.z) }
    }

    pub fn sub_vec3(&self, v: &Vec3) -> (r: RadVec3)
        requires
            self.wf(),
            v.wf(),
        ensures
            r.wf(),
            r@ == qrv_sub_qv(self@, v@),
    {
        RadVec3 { x: self.x.sub_rat(&v.x), y: self.y.sub_rat(&v.y), z: self.z.sub_rat(&v.z) }
    }

    /// The vector scaled by the rational `s`.
    pub fn scale_rat(&self, s: &Rat) -> (r: RadVec3)
        requires
            self.wf(),
            s.wf(),
        ensures
            r.wf(),
            r@ == qrv_scale_q(s@, self@),
    {
        RadVec3 { x: self.x.scale_rat(s), y: self.y.scale_rat(s), z: self.z.scale_rat(s) }
    }

    /// The dot product with a rational vector.
    pub fn dot_vec3(&self, v: &Vec3) -> (r: Radical)
        requires
            self.wf(),
            v.wf(),
        ensures
            r.wf(),
            r@ == qrv_dot_qv(self@, v@),
    {
        self.x.scale_rat(&v.x).add(&self.y.scale_rat(&v.y)).add(&self.z.scale_rat(&v.z))
    }

    /// The squared Euclidean distance to the rational point `p`.
    pub fn dist_sq(&self, p: &Vec3) -> (r: Radical)
        requires
            self.wf(),
            p.wf(),
        ensures
            r.wf(),
            r@ == qrv_dist_sq(self@, p@),
    {
        let d = self.sub_vec3(p);
        d.x.mul(&d.x).add(&d.y.mul(&d.y)).add(&d.z.mul(&d.z))
    }

    /// The rational matrix `m` applied to this vector.
    pub fn apply_mat3(&self, m: &Mat3) -> (r: RadVec3)
        requires
            self.wf(),
            m.wf(),
        ensures
            r.wf(),
            r@ == qrv_apply_qm3(m@, self@),
    {
        RadVec3 {
            x: self.dot_vec3(&m.rx),
            y: self.dot_vec3(&m.ry),
            z: self.dot_vec3(&m.rz),
        }
    }
}

} // verus!
