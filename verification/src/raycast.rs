//! Rays, surface hits, half-space clipping, and the closed-form
//! ray/plane and ray/sphere solvers.
//!
//! Positions and normals of hits are carried as radical vectors, since a
//! ray/sphere hit generally involves the square root of the quadratic's
//! discriminant. A plane hit is rational and is embedded with a zero
//! radical part. Returned normals are exact direction vectors: a ball's
//! normal is the hit position divided by the radius (so it has unit
//! length), a plane returns its own normal or its negation, and the
//! normal of a transformed hit is the exact image under the normal
//! matrix, left unnormalized because its length is irrational in
//! general.

use vstd::prelude::*;
use crate::rat::{Rat, Q, q_int, q_add, q_sub, q_neg, q_mul, q_div, q_eq, q_le, q_lt, q_sign, q_wf, lemma_pos_mul};
use crate::vec3::{Vec3, QV3, qv_wf, qv_add, qv_sub, qv_neg, qv_scale, qv_dot, qv_eq};
use crate::mat::{Mat4, QM4, qm4_wf, qv4_dot, QV4};
use crate::radical::{Radical, RadVec3, QR, QRV3, qr_wf, qrv_wf, qr_of_q, qrv_of_qv, qr_sign,
    qrv_dot_qv, qrv_sub_qv, qrv_dist_sq, qrv_scale_q, qr_lt_same_k, qr_le_same_k,
    lemma_qr_same_k_total};

verus! {

broadcast use crate::rat::group_q_zero;

/// The classification of a point against the half-space of a plane.
#[derive(Debug)]
pub enum Clipped<T> {
    Inside(T),
    Outside(T),
}

/// The mathematical value of a ray: two points, with the direction
/// derived as `target - eye`.
pub ghost struct QRay {
    pub eye: QV3,
    pub target: QV3,
}

pub open spec fn qray_wf(r: QRay) -> bool {
    qv_wf(r.eye) && qv_wf(r.target)
}

pub open spec fn qray_delta(r: QRay) -> QV3 {
    qv_sub(r.target, r.eye)
}

pub open spec fn qray_eq(a: QRay, b: QRay) -> bool {
    qv_eq(a.eye, b.eye) && qv_eq(a.target, b.target)
}

/// The rational point `eye + t * delta` on a ray.
pub open spec fn qray_at_q(r: QRay, t: Q) -> QV3 {
    qv_add(r.eye, qv_scale(t, qray_delta(r)))
}

/// The radical point `eye + t * delta` on a ray, for a radical `t`.
pub open spec fn qray_at_qr(r: QRay, t: QR) -> QRV3 {
    crate::radical::qrv_add_qv(qrv_scale_delta(t, qray_delta(r)), r.eye)
}

/// The ray direction scaled componentwise by a radical parameter.
pub open spec fn qrv_scale_delta(t: QR, d: QV3) -> QRV3 {
    QRV3 {
        x: crate::radical::qr_scale_q(d.x, t),
        y: crate::radical::qr_scale_q(d.y, t),
        z: crate::radical::qr_scale_q(d.z, t),
    }
}

/// The signed distance of a point from a plane, along the plane's
/// normal.
pub open spec fn qv_clip_dist(p: QV3, pl: QPlane) -> Q {
    qv_dot(qv_sub(p, pl.position), pl.normal)
}

pub open spec fn qr_clip_dist(p: QRV3, pl: QPlane) -> QR {
    qrv_dot_qv(qrv_sub_qv(p, pl.position), pl.normal)
}

/// The mathematical value of a plane: a point on it and its normal; the
/// half-space of points `p` with `(p - position) . normal >= 0` counts
/// as inside.
pub ghost struct QPlane {
    pub position: QV3,
    pub normal: QV3,
}

pub open spec fn qplane_wf(p: QPlane) -> bool {
    qv_wf(p.position) && qv_wf(p.normal)
}

/// The mathematical value of a surface hit.
pub ghost struct QI {
    pub position: QRV3,
    pub normal: QRV3,
}

pub open spec fn qi_wf(i: QI) -> bool {
    qrv_wf(i.position) && qrv_wf(i.normal)
}

/// The mathematical value of a primitive's answer to a ray query.
pub ghost enum QHit {
    Miss,
    Once(QI),
    Twice(QI, QI),
}

pub open spec fn qhit_wf(h: QHit) -> bool {
    match h {
        QHit::Miss => true,
        QHit::Once(i) => qi_wf(i),
        QHit::Twice(i, j) => qi_wf(i) && qi_wf(j),
    }
}

/// A ray, directed from `eye` through `target`.
pub struct Ray {
    pub eye: Vec3,
    pub target: Vec3,
}

impl View for Ray {
    type V = QRay;

    open spec fn view(&self) -> QRay {
        QRay { eye: self.eye@, target: self.target@ }
    }
}

/// The homogeneous weight of a point mapped through a 4x4 matrix.
pub open spec fn qhom_w(m: QM4, p: QV3) -> Q {
    qv4_dot(m.rw, QV4 { x: p.x, y: p.y, z: p.z, w: q_int(1) })
}

/// A point mapped through a 4x4 matrix, with the homogeneous divide.
pub open spec fn qhom_apply(m: QM4, p: QV3) -> QV3 {
    let h = QV4 { x: p.x, y: p.y, z: p.z, w: q_int(1) };
    let w = qv4_dot(m.rw, h);
    QV3 {
        x: q_div(qv4_dot(m.rx, h), w),
        y: q_div(qv4_dot(m.ry, h), w),
        z: q_div(qv4_dot(m.rz, h), w),
    }
}

impl Ray {
    pub open spec fn wf(&self) -> bool {
        qray_wf(self@)
    }

    /// The direction `target - eye`; its magnitude carries the
    /// parametric scale used by the solvers.
    pub fn delta(&self) -> (r: Vec3)
        requires
            self.wf(),
        ensures
            r.wf(),
            r@ == qray_delta(self@),
    {
        self.target.sub(&self.eye)
    }

    /// An exact copy.
    pub fn dup(&self) -> (r: Ray)
        ensures
            r@ == self@,
    {
        Ray { eye: self.eye.dup(), target: self.target.dup() }
    }

    /// Componentwise value equality of the two defining points.
    pub fn eq_val(&self, other: &Ray) -> (r: bool)
        requires
            self.wf(),
            other.wf(),
        ensures
            r == qray_eq(self@, other@),
    {
        self.eye.eq_val(&other.eye) && self.target.eq_val(&other.target)
    }

    /// Both defining points mapped through a 4x4 matrix with the
    /// homogeneous divide; the matrix must not map either point to
    /// infinity.
    pub fn transform(&self, matrix: &Mat4) -> (r: Ray)
        requires
            self.wf(),
            matrix.wf(),
            !q_eq(qhom_w(matrix@, self@.eye), q_int(0)),
            !q_eq(qhom_w(matrix@, self@.target), q_int(0)),
        ensures
            r.wf(),
            r@.eye == qhom_apply(matrix@, self@.eye),
            r@.target == qhom_apply(matrix@, self@.target),
    {
        Ray { eye: hom_apply(matrix, &self.eye), target: hom_apply(matrix, &self.target) }
    }
}

/// One point mapped through a 4x4 matrix with the homogeneous divide.
fn hom_apply(m: &Mat4, p: &Vec3) -> (r: Vec3)
    requires
        m.wf(),
        p.wf(),
        !q_eq(qhom_w(m@, p@), q_int(0)),
    ensures
        r.wf(),
        r@ == qhom_apply(m@, p@),
{
    let h = crate::mat::Vec4 { x: p.x.dup(), y: p.y.dup(), z: p.z.dup(), w: Rat::from_int(1) };
    let w = m.rw.dot(&h);
    Vec3 { x: m.rx.dot(&h).div(&w), y: m.ry.dot(&h).div(&w), z: m.rz.dot(&h).div(&w) }
}

/// The first row's contribution to a translation matrix's homogeneous
/// application: the sum collapses to `p.x + w`.
proof fn lemma_unit_row_x(px: Q, py: Q, pz: Q, w: Q)
    requires
        q_wf(px),
        q_wf(py),
        q_wf(pz),
        q_wf(w),
    ensures
        q_eq(
            q_add(
                q_add(q_add(q_mul(q_int(1), px), q_mul(q_int(0), py)), q_mul(q_int(0), pz)),
                q_mul(w, q_int(1)),
            ),
            q_add(px, w),
        ),
        q_wf(
            q_add(
                q_add(q_add(q_mul(q_int(1), px), q_mul(q_int(0), py)), q_mul(q_int(0), pz)),
                q_mul(w, q_int(1)),
            ),
        ),
{
    crate::rat::lemma_q_mul_int1(px);
    crate::rat::lemma_q_mul_int0(py);
    crate::rat::lemma_q_mul_int0(pz);
    crate::rat::lemma_q_mul_int1(w);
    let zy = Q { n: 0, d: py.d };
    let zz = Q { n: 0, d: pz.d };
    let s1 = q_add(px, zy);
    let s2 = q_add(s1, zz);
    crate::rat::lemma_q_add_zero_right(px, zy);
    crate::rat::lemma_q_add_zero_right(s1, zz);
    crate::rat::lemma_q_ops_wf(px, zy);
    crate::rat::lemma_q_ops_wf(s1, zz);
    crate::rat::lemma_q_eq_trans(s2, s1, px);
    crate::rat::lemma_q_eq_refl(w);
    crate::rat::lemma_q_add_congr(s2, w, px, w);
    crate::rat::lemma_q_ops_wf(s2, w);
}

/// The second row's contribution: the sum collapses to `p.y + w`.
proof fn lemma_unit_row_y(px: Q, py: Q, pz: Q, w: Q)
    requires
        q_wf(px),
        q_wf(py),
        q_wf(pz),
        q_wf(w),
    ensures
        q_eq(
            q_add(
                q_add(q_add(q_mul(q_int(0), px), q_mul(q_int(1), py)), q_mul(q_int(0), pz)),
                q_mul(w, q_int(1)),
            ),
            q_add(py, w),
        ),
        q_wf(
            q_add(
                q_add(q_add(q_mul(q_int(0), px), q_mul(q_int(1), py)), q_mul(q_int(0), pz)),
                q_mul(w, q_int(1)),
            ),
        ),
{
    crate::rat::lemma_q_mul_int0(px);
    crate::rat::lemma_q_mul_int1(py);
    crate::rat::lemma_q_mul_int0(pz);
    crate::rat::lemma_q_mul_int1(w);
    let zx = Q { n: 0, d: px.d };
    let zz = Q { n: 0, d: pz.d };
    let s1 = q_add(zx, py);
    let s2 = q_add(s1, zz);
    crate::rat::lemma_q_add_zero_left(zx, py);
    crate::rat::lemma_q_add_zero_right(s1, zz);
    crate::rat::lemma_q_ops_wf(zx, py);
    crate::rat::lemma_q_ops_wf(s1, zz);
    crate::rat::lemma_q_eq_trans(s2, s1, py);
    crate::rat::lemma_q_eq_refl(w);
    crate::rat::lemma_q_add_congr(s2, w, py, w);
    crate::rat::lemma_q_ops_wf(s2, w);
}

/// The third row's contribution: the sum collapses to `p.z + w`.
proof fn lemma_unit_row_z(px: Q, py: Q, pz: Q, w: Q)
    requires
        q_wf(px),
        q_wf(py),
        q_wf(pz),
        q_wf(w),
    ensures
        q_eq(
            q_add(
                q_add(q_add(q_mul(q_int(0), px), q_mul(q_int(0), py)), q_mul(q_int(1), pz)),
                q_mul(w, q_int(1)),
            ),
            q_add(pz, w),
        ),
        q_wf(
            q_add(
                q_add(q_add(q_mul(q_int(0), px), q_mul(q_int(0), py)), q_mul(q_int(1), pz)),
                q_mul(w, q_int(1)),
            ),
        ),
{
    crate::rat::lemma_q_mul_int0(px);
    crate::rat::lemma_q_mul_int0(py);
    crate::rat::lemma_q_mul_int1(pz);
    crate::rat::lemma_q_mul_int1(w);
    let zx = Q { n: 0, d: px.d };
    let zy = Q { n: 0, d: py.d };
    let s1 = q_add(zx, zy);
    assert(q_add(Q { n: 0, d: px.d }, Q { n: 0, d: py.d }).n == 0) by (nonlinear_arith);
    let s2 = q_add(s1, pz);
    crate::rat::lemma_q_add_zero_left(s1, pz);
    crate::rat::lemma_q_ops_wf(zx, zy);
    crate::rat::lemma_q_ops_wf(s1, pz);
    crate::rat::lemma_q_eq_refl(w);
    crate::rat::lemma_q_add_congr(s2, w, pz, w);
    crate::rat::lemma_q_ops_wf(s2, w);
}

/// The last row's contribution: a fraction equal to one, with a
/// positive denominator.
proof fn lemma_unit_row_w(px: Q, py: Q, pz: Q)
    requires
        q_wf(px),
        q_wf(py),
        q_wf(pz),
    ensures
        q_add(
            q_add(q_add(q_mul(q_int(0), px), q_mul(q_int(0), py)), q_mul(q_int(0), pz)),
            q_mul(q_int(1), q_int(1)),
        ).n == q_add(
            q_add(q_add(q_mul(q_int(0), px), q_mul(q_int(0), py)), q_mul(q_int(0), pz)),
            q_mul(q_int(1), q_int(1)),
        ).d,
        q_add(
            q_add(q_add(q_mul(q_int(0), px), q_mul(q_int(0), py)), q_mul(q_int(0), pz)),
            q_mul(q_int(1), q_int(1)),
        ).d > 0,
{
    crate::rat::lemma_q_mul_int0(px);
    crate::rat::lemma_q_mul_int0(py);
    crate::rat::lemma_q_mul_int0(pz);
    crate::rat::lemma_q_mul_int1(q_int(1));
    assert(q_add(
        q_add(q_add(Q { n: 0, d: px.d }, Q { n: 0, d: py.d }), Q { n: 0, d: pz.d }),
        q_int(1),
    ).n == (px.d * py.d) * pz.d) by (nonlinear_arith);
    assert(q_add(
        q_add(q_add(Q { n: 0, d: px.d }, Q { n: 0, d: py.d }), Q { n: 0, d: pz.d }),
        q_int(1),
    ).d == (px.d * py.d) * pz.d) by (nonlinear_arith);
    lemma_pos_mul(px.d, py.d);
    lemma_pos_mul(px.d * py.d, pz.d);
}

/// A denominator equal to its numerator divides away: dividing by a
/// fraction holding one changes nothing, as values.
proof fn lemma_q_div_one_val(a: Q, w: Q)
    requires
        w.n == w.d,
        w.d > 0,
    ensures
        q_eq(q_div(a, w), a),
        q_wf(a) ==> q_wf(q_div(a, w)),
{
    assert(q_div(a, w) == (Q { n: a.n * w.d, d: a.d * w.n }));
    crate::rat::lemma_q_eq_scaled(a, q_div(a, w), w.d);
    crate::rat::lemma_q_eq_sym(a, q_div(a, w));
    if q_wf(a) {
        lemma_pos_mul(a.d, w.n);
    }
}

/// A translation matrix applied homogeneously adds its translation
/// column: the point `p` goes to `p + v`, as values.
pub proof fn lemma_hom_translation_apply(v: QV3, p: QV3)
    requires
        qv_wf(v),
        qv_wf(p),
    ensures
        qv_eq(qhom_apply(crate::mat::qm4_from_translation(v), p), qv_add(p, v)),
        qv_wf(qhom_apply(crate::mat::qm4_from_translation(v), p)),
{
    let m = crate::mat::qm4_from_translation(v);
    let h = QV4 { x: p.x, y: p.y, z: p.z, w: q_int(1) };
    let xx = qv4_dot(m.rx, h);
    let yy = qv4_dot(m.ry, h);
    let zz = qv4_dot(m.rz, h);
    let ww = qv4_dot(m.rw, h);
    lemma_unit_row_x(p.x, p.y, p.z, v.x);
    lemma_unit_row_y(p.x, p.y, p.z, v.y);
    lemma_unit_row_z(p.x, p.y, p.z, v.z);
    lemma_unit_row_w(p.x, p.y, p.z);
    lemma_q_div_one_val(xx, ww);
    lemma_q_div_one_val(yy, ww);
    lemma_q_div_one_val(zz, ww);
    crate::rat::lemma_q_ops_wf(p.x, v.x);
    crate::rat::lemma_q_ops_wf(p.y, v.y);
    crate::rat::lemma_q_ops_wf(p.z, v.z);
    crate::rat::lemma_q_eq_trans(q_div(xx, ww), xx, q_add(p.x, v.x));
    crate::rat::lemma_q_eq_trans(q_div(yy, ww), yy, q_add(p.y, v.y));
    crate::rat::lemma_q_eq_trans(q_div(zz, ww), zz, q_add(p.z, v.z));
}

/// Translating a point and then translating it back recovers the point
/// exactly.
pub proof fn lemma_hom_translation_round_trip(v: QV3, p: QV3)
    requires
        qv_wf(v),
        qv_wf(p),
    ensures
        qv_eq(
            qhom_apply(
                crate::mat::qm4_from_translation(qv_neg(v)),
                qhom_apply(crate::mat::qm4_from_translation(v), p),
            ),
            p,
        ),
{
    let p1 = qhom_apply(crate::mat::qm4_from_translation(v), p);
    lemma_hom_translation_apply(v, p);
    assert(qv_wf(qv_neg(v)));
    lemma_hom_translation_apply(qv_neg(v), p1);
    let q1 = qhom_apply(crate::mat::qm4_from_translation(qv_neg(v)), p1);
    crate::rat::lemma_q_eq_refl(q_neg(v.x));
    crate::rat::lemma_q_eq_refl(q_neg(v.y));
    crate::rat::lemma_q_eq_refl(q_neg(v.z));
    crate::rat::lemma_q_ops_wf(p.x, v.x);
    crate::rat::lemma_q_ops_wf(p.y, v.y);
    crate::rat::lemma_q_ops_wf(p.z, v.z);
    crate::rat::lemma_q_add_congr(p1.x, q_neg(v.x), q_add(p.x, v.x), q_neg(v.x));
    crate::rat::lemma_q_add_congr(p1.y, q_neg(v.y), q_add(p.y, v.y), q_neg(v.y));
    crate::rat::lemma_q_add_congr(p1.z, q_neg(v.z), q_add(p.z, v.z), q_neg(v.z));
    crate::rat::lemma_q_add_cancel(p.x, v.x);
    crate::rat::lemma_q_add_cancel(p.y, v.y);
    crate::rat::lemma_q_add_cancel(p.z, v.z);
    crate::rat::lemma_q_ops_wf(p1.x, q_neg(v.x));
    crate::rat::lemma_q_ops_wf(p1.y, q_neg(v.y));
    crate::rat::lemma_q_ops_wf(p1.z, q_neg(v.z));
    crate::rat::lemma_q_ops_wf(q_add(p.x, v.x), q_neg(v.x));
    crate::rat::lemma_q_ops_wf(q_add(p.y, v.y), q_neg(v.y));
    crate::rat::lemma_q_ops_wf(q_add(p.z, v.z), q_neg(v.z));
    crate::rat::lemma_q_eq_trans(q1.x, q_add(p1.x, q_neg(v.x)), q_add(q_add(p.x, v.x), q_neg(v.x)));
    crate::rat::lemma_q_eq_trans(q1.y, q_add(p1.y, q_neg(v.y)), q_add(q_add(p.y, v.y), q_neg(v.y)));
    crate::rat::lemma_q_eq_trans(q1.z, q_add(p1.z, q_neg(v.z)), q_add(q_add(p.z, v.z), q_neg(v.z)));
    crate::rat::lemma_q_eq_trans(q1.x, q_add(q_add(p.x, v.x), q_neg(v.x)), p.x);
    crate::rat::lemma_q_eq_trans(q1.y, q_add(q_add(p.y, v.y), q_neg(v.y)), p.y);
    crate::rat::lemma_q_eq_trans(q1.z, q_add(q_add(p.z, v.z), q_neg(v.z)), p.z);
}

/// Mapping a point through an affine matrix and then through an exact
/// inverse of it recovers the point, through the homogeneous
/// application used by `Ray::transform`.
pub proof fn lemma_hom_affine_round_trip_point(a: QM4, ia: QM4, p: QV3)
    requires
        qm4_wf(a),
        qm4_wf(ia),
        crate::mat::qm4_affine(a),
        crate::mat::qm4_affine(ia),
        crate::mat::qm4_is_id(crate::mat::qm4_mul(ia, a)),
        qv_wf(p),
    ensures
        qv_eq(qhom_apply(ia, qhom_apply(a, p)), p),
{
    lemma_hom_affine_apply(a, p);
    let p1 = qhom_apply(a, p);
    let ap = crate::mat::qm4_affine_apply(a, p);
    lemma_hom_affine_apply(ia, p1);
    crate::mat::lemma_qm4_affine_round_trip(a, ia, p);
    let li = crate::mat::qm4_linear3(ia);
    let la = crate::mat::qm4_linear3(a);

    // The affine image of the homogeneous image equals the affine image
    // of the affine image, coordinate by coordinate.
    crate::vec3::lemma_qv_dot_wf(la.rx, p);
    crate::vec3::lemma_qv_dot_wf(la.ry, p);
    crate::vec3::lemma_qv_dot_wf(la.rz, p);
    crate::rat::lemma_q_ops_wf(qv_dot(la.rx, p), a.rx.w);
    crate::rat::lemma_q_ops_wf(qv_dot(la.ry, p), a.ry.w);
    crate::rat::lemma_q_ops_wf(qv_dot(la.rz, p), a.rz.w);
    assert(qv_wf(ap));
    crate::vec3::lemma_qv_dot_comm(p1, li.rx);
    crate::vec3::lemma_qv_dot_comm(p1, li.ry);
    crate::vec3::lemma_qv_dot_comm(p1, li.rz);
    crate::vec3::lemma_qv_dot_comm(ap, li.rx);
    crate::vec3::lemma_qv_dot_comm(ap, li.ry);
    crate::vec3::lemma_qv_dot_comm(ap, li.rz);
    crate::vec3::lemma_qv_dot_congr_left(p1, ap, li.rx);
    crate::vec3::lemma_qv_dot_congr_left(p1, ap, li.ry);
    crate::vec3::lemma_qv_dot_congr_left(p1, ap, li.rz);
    crate::rat::lemma_q_eq_refl(ia.rx.w);
    crate::rat::lemma_q_eq_refl(ia.ry.w);
    crate::rat::lemma_q_eq_refl(ia.rz.w);
    crate::vec3::lemma_qv_dot_wf(li.rx, p1);
    crate::vec3::lemma_qv_dot_wf(li.ry, p1);
    crate::vec3::lemma_qv_dot_wf(li.rz, p1);
    crate::vec3::lemma_qv_dot_wf(li.rx, ap);
    crate::vec3::lemma_qv_dot_wf(li.ry, ap);
    crate::vec3::lemma_qv_dot_wf(li.rz, ap);
    crate::rat::lemma_q_add_congr(qv_dot(li.rx, p1), ia.rx.w, qv_dot(li.rx, ap), ia.rx.w);
    crate::rat::lemma_q_add_congr(qv_dot(li.ry, p1), ia.ry.w, qv_dot(li.ry, ap), ia.ry.w);
    crate::rat::lemma_q_add_congr(qv_dot(li.rz, p1), ia.rz.w, qv_dot(li.rz, ap), ia.rz.w);

    // Chain: homogeneous image of p1, affine image of p1, affine image
    // of the affine image, and finally p itself.
    crate::rat::lemma_q_ops_wf(qv_dot(li.rx, p1), ia.rx.w);
    crate::rat::lemma_q_ops_wf(qv_dot(li.ry, p1), ia.ry.w);
    crate::rat::lemma_q_ops_wf(qv_dot(li.rz, p1), ia.rz.w);
    crate::rat::lemma_q_ops_wf(qv_dot(li.rx, ap), ia.rx.w);
    crate::rat::lemma_q_ops_wf(qv_dot(li.ry, ap), ia.ry.w);
    crate::rat::lemma_q_ops_wf(qv_dot(li.rz, ap), ia.rz.w);
    let h1 = qhom_apply(ia, p1);
    let f1 = crate::mat::qm4_affine_apply(ia, p1);
    let f2 = crate::mat::qm4_affine_apply(ia, ap);
    crate::rat::lemma_q_eq_trans(h1.x, f1.x, f2.x);
    crate::rat::lemma_q_eq_trans(h1.y, f1.y, f2.y);
    crate::rat::lemma_q_eq_trans(h1.z, f1.z, f2.z);
    crate::rat::lemma_q_eq_trans(h1.x, f2.x, p.x);
    crate::rat::lemma_q_eq_trans(h1.y, f2.y, p.y);
    crate::rat::lemma_q_eq_trans(h1.z, f2.z, p.z);
}

/// The round-trip law of the ray transform: an affine matrix applied
/// and then undone by an exact inverse returns every ray's defining
/// points unchanged, as values.
pub proof fn lemma_ray_affine_round_trip(r: QRay, a: QM4, ia: QM4)
    requires
        qray_wf(r),
        qm4_wf(a),
        qm4_wf(ia),
        crate::mat::qm4_affine(a),
        crate::mat::qm4_affine(ia),
        crate::mat::qm4_is_id(crate::mat::qm4_mul(ia, a)),
    ensures
        qray_eq(
            QRay {
                eye: qhom_apply(ia, qhom_apply(a, r.eye)),
                target: qhom_apply(ia, qhom_apply(a, r.target)),
            },
            r,
        ),
{
    lemma_hom_affine_round_trip_point(a, ia, r.eye);
    lemma_hom_affine_round_trip_point(a, ia, r.target);
}

/// A ray mapped by a translation and then by the opposite translation
/// comes back with its defining points unchanged, as values.
pub proof fn lemma_ray_translation_round_trip(r: QRay, v: QV3)
    requires
        qray_wf(r),
        qv_wf(v),
    ensures
        qray_eq(
            QRay {
                eye: qhom_apply(
                    crate::mat::qm4_from_translation(qv_neg(v)),
                    qhom_apply(crate::mat::qm4_from_translation(v), r.eye),
                ),
                target: qhom_apply(
                    crate::mat::qm4_from_translation(qv_neg(v)),
                    qhom_apply(crate::mat::qm4_from_translation(v), r.target),
                ),
            },
            r,
        ),
{
    lemma_hom_translation_round_trip(v, r.eye);
    lemma_hom_translation_round_trip(v, r.target);
}

/// On an affine matrix the homogeneous application is the affine one:
/// the weight of every mapped point equals one, so the divide changes
/// nothing.
pub proof fn lemma_hom_affine_apply(m: QM4, p: QV3)
    requires
        qm4_wf(m),
        crate::mat::qm4_affine(m),
        qv_wf(p),
    ensures
        qv_eq(qhom_apply(m, p), crate::mat::qm4_affine_apply(m, p)),
        qv_wf(qhom_apply(m, p)),
{
    let h = QV4 { x: p.x, y: p.y, z: p.z, w: q_int(1) };
    crate::rat::lemma_q_mul_int1(m.rx.w);
    crate::rat::lemma_q_mul_int1(m.ry.w);
    crate::rat::lemma_q_mul_int1(m.rz.w);
    crate::rat::lemma_q_mul_int1(m.rw.w);
    let w3 = QV3 { x: m.rw.x, y: m.rw.y, z: m.rw.z };
    let ww = qv4_dot(m.rw, h);
    assert(ww == q_add(qv_dot(w3, p), m.rw.w));

    // The weight is one: the last row's linear part contributes zero.
    crate::rat::lemma_q_mul_zero_val(p.x, m.rw.x);
    crate::rat::lemma_q_mul_zero_val(p.y, m.rw.y);
    crate::rat::lemma_q_mul_zero_val(p.z, m.rw.z);
    let t1 = q_mul(m.rw.x, p.x);
    let t2 = q_mul(m.rw.y, p.y);
    let t3 = q_mul(m.rw.z, p.z);
    assert(q_add(t1, t2).n == 0) by (nonlinear_arith)
        requires
            t1.n == 0,
            t2.n == 0,
    ;
    assert(q_add(q_add(t1, t2), t3).n == 0) by (nonlinear_arith)
        requires
            q_add(t1, t2).n == 0,
            t3.n == 0,
    ;
    crate::rat::lemma_q_eq_one(m.rw.w);
    assert(q_add(qv_dot(QV3 { x: m.rw.x, y: m.rw.y, z: m.rw.z }, p), m.rw.w).n == q_add(
        qv_dot(QV3 { x: m.rw.x, y: m.rw.y, z: m.rw.z }, p), m.rw.w).d) by (nonlinear_arith)
        requires
            qv_dot(QV3 { x: m.rw.x, y: m.rw.y, z: m.rw.z }, p).n == 0,
            m.rw.w.n == m.rw.w.d,
    ;
    crate::vec3::lemma_qv_dot_wf(w3, p);
    assert(q_add(qv_dot(QV3 { x: m.rw.x, y: m.rw.y, z: m.rw.z }, p), m.rw.w).d > 0)
        by (nonlinear_arith)
        requires
            qv_dot(QV3 { x: m.rw.x, y: m.rw.y, z: m.rw.z }, p).d > 0,
            m.rw.w.d > 0,
    ;
    assert(ww.n == ww.d && ww.d > 0);

    // Each coordinate is the affine value divided by that weight.
    let l3 = crate::mat::qm4_linear3(m);
    let xx = qv4_dot(m.rx, h);
    let yy = qv4_dot(m.ry, h);
    let zz = qv4_dot(m.rz, h);
    assert(xx == q_add(qv_dot(l3.rx, p), m.rx.w));
    assert(yy == q_add(qv_dot(l3.ry, p), m.ry.w));
    assert(zz == q_add(qv_dot(l3.rz, p), m.rz.w));
    crate::vec3::lemma_qv_dot_wf(l3.rx, p);
    crate::vec3::lemma_qv_dot_wf(l3.ry, p);
    crate::vec3::lemma_qv_dot_wf(l3.rz, p);
    crate::rat::lemma_q_ops_wf(qv_dot(l3.rx, p), m.rx.w);
    crate::rat::lemma_q_ops_wf(qv_dot(l3.ry, p), m.ry.w);
    crate::rat::lemma_q_ops_wf(qv_dot(l3.rz, p), m.rz.w);
    lemma_q_div_one_val(xx, ww);
    lemma_q_div_one_val(yy, ww);
    lemma_q_div_one_val(zz, ww);
}

/// A surface hit: the hit point and an exact normal direction there,
/// pointing away from the solid's interior.
pub struct Intersection {
    pub position: RadVec3,
    pub normal: RadVec3,
}

impl View for Intersection {
    type V = QI;

    open spec fn view(&self) -> QI {
        QI { position: self.position@, normal: self.normal@ }
    }
}

impl Intersection {
    pub open spec fn wf(&self) -> bool {
        qi_wf(self@)
    }

    /// An exact copy.
    pub fn dup(&self) -> (r: Intersection)
        ensures
            r@ == self@,
    {
        Intersection { position: self.position.dup(), normal: self.normal.dup() }
    }

    /// The squared distance of the hit point from the ray's eye.
    pub fn distance_sq(&self, ray: &Ray) -> (r: Radical)
        requires
            self.wf(),
            ray.wf(),
        ensures
            r.wf(),
            r@ == qrv_dist_sq(self@.position, ray@.eye),
    {
        self.position.dist_sq(&ray.eye)
    }

    /// The hit mapped by an affine position matrix and a normal matrix.
    /// The position matrix must be affine: on that domain its affine
    /// reading coincides with the homogeneous application, with no
    /// divide. The image of the normal is the exact direction under the
    /// normal matrix, left unnormalized because its length is
    /// irrational in general.
    pub fn transform(&self, position_transform: &Mat4, normal_transform: &crate::mat::Mat3) -> (r:
        Intersection)
        requires
            self.wf(),
            position_transform.wf(),
            crate::mat::qm4_affine(position_transform@),
            normal_transform.wf(),
        ensures
            r.wf(),
            r@ == qi_transform(position_transform@, normal_transform@, self@),
    {
        Intersection {
            position: self.position.apply_mat3(&position_transform.linear3()).add_vec3(
                &position_transform.translation(),
            ),
            normal: self.normal.apply_mat3(normal_transform),
        }
    }
}

/// A hit mapped to another frame: the position by the affine reading of
/// a 4x4 matrix, the normal by a 3x3 matrix.
pub open spec fn qi_transform(pm: QM4, nm: crate::mat::QM3, i: QI) -> QI {
    QI {
        position: crate::radical::qrv_add_qv(
            crate::radical::qrv_apply_qm3(crate::mat::qm4_linear3(pm), i.position),
            crate::mat::qm4_translation(pm),
        ),
        normal: crate::radical::qrv_apply_qm3(nm, i.normal),
    }
}

/// A primitive's answer to a ray query: no hit, a grazing hit, or an
/// entry and an exit ordered by distance from the ray's eye.
pub enum IntersectResult {
    Miss,
    HitOnce(Intersection),
    HitTwice(Intersection, Intersection),
}

impl View for IntersectResult {
    type V = QHit;

    open spec fn view(&self) -> QHit {
        match self {
            IntersectResult::Miss => QHit::Miss,
            IntersectResult::HitOnce(i) => QHit::Once(i@),
            IntersectResult::HitTwice(i, j) => QHit::Twice(i@, j@),
        }
    }
}

/// The nearest hit of a result, if any.
pub open spec fn qhit_closest(h: QHit) -> Option<QI> {
    match h {
        QHit::Miss => None,
        QHit::Once(i) => Some(i),
        QHit::Twice(i, _) => Some(i),
    }
}

/// The farthest hit of a result, if any.
pub open spec fn qhit_farthest(h: QHit) -> Option<QI> {
    match h {
        QHit::Miss => None,
        QHit::Once(i) => Some(i),
        QHit::Twice(_, j) => Some(j),
    }
}

impl IntersectResult {
    pub open spec fn wf(&self) -> bool {
        qhit_wf(self@)
    }

    /// The nearest hit, if any.
    pub fn closest(self) -> (r: Option<Intersection>)
        ensures
            (r matches Some(i) && qhit_closest(self@) matches Some(q) && i@ == q) || (r is None
                && qhit_closest(self@) is None),
    {
        match self {
            IntersectResult::HitOnce(hit) => Some(hit),
            IntersectResult::HitTwice(hit, _) => Some(hit),
            IntersectResult::Miss => None,
        }
    }

    /// The farthest hit, if any.
    pub fn farthest(self) -> (r: Option<Intersection>)
        ensures
            (r matches Some(i) && qhit_farthest(self@) matches Some(q) && i@ == q) || (r is None
                && qhit_farthest(self@) is None),
    {
        match self {
            IntersectResult::HitOnce(hit) => Some(hit),
            IntersectResult::HitTwice(_, hit) => Some(hit),
            IntersectResult::Miss => None,
        }
    }
}

/// A plane, with the half-space on its normal's side accepted by `clip`.
pub struct Plane {
    pub position: Vec3,
    pub normal: Vec3,
}

impl View for Plane {
    type V = QPlane;

    open spec fn view(&self) -> QPlane {
        QPlane { position: self.position@, normal: self.normal@ }
    }
}

impl Plane {
    pub open spec fn wf(&self) -> bool {
        qplane_wf(self@)
    }

    /// An exact copy.
    pub fn dup(&self) -> (r: Plane)
        ensures
            r@ == self@,
    {
        Plane { position: self.position.dup(), normal: self.normal.dup() }
    }
}

/// The denominator of the ray/plane solution: how fast the ray
/// approaches the plane.
pub open spec fn plane_denom(pl: QPlane, r: QRay) -> Q {
    qv_dot(qray_delta(r), pl.normal)
}

/// The parameter along the ray at which it meets the plane, for a
/// nonzero denominator.
pub open spec fn plane_t(pl: QPlane, r: QRay) -> Q {
    q_div(q_sub(qv_dot(pl.position, pl.normal), qv_dot(r.eye, pl.normal)), plane_denom(pl, r))
}

/// The answer a plane gives to a ray query: a miss when the ray is
/// exactly parallel or the solution lies behind the eye, else the single
/// hit `eye + t * delta`, its normal chosen to face back toward the eye.
pub open spec fn plane_qhit(pl: QPlane, r: QRay) -> QHit {
    let denom = plane_denom(pl, r);
    if q_eq(denom, q_int(0)) {
        QHit::Miss
    } else {
        let t = plane_t(pl, r);
        if q_le(q_int(0), t) {
            QHit::Once(
                QI {
                    position: qrv_of_qv(qray_at_q(r, t)),
                    normal: qrv_of_qv(
                        if q_lt(denom, q_int(0)) {
                            pl.normal
                        } else {
                            qv_neg(pl.normal)
                        },
                    ),
                },
            )
        } else {
            QHit::Miss
        }
    }
}

impl Plane {
    /// The closed-form ray/plane solution.
    #[verifier::rlimit(30)]
    pub fn intersect(&self, ray: &Ray) -> (r: IntersectResult)
        requires
            self.wf(),
            ray.wf(),
        ensures
            r.wf(),
            r@ == plane_qhit(self@, ray@),
    {
        let delta = ray.delta();
        let denom = delta.dot(&self.normal);
        if denom.sign() == 0 {
            IntersectResult::Miss
        } else {
            let t = self.position.dot(&self.normal).sub(&ray.eye.dot(&self.normal)).div(&denom);
            if t.sign() >= 0 {
                let position = ray.eye.add(&delta.scale(&t));
                let normal = if denom.sign() < 0 {
                    self.normal.dup()
                } else {
                    self.normal.neg()
                };
                IntersectResult::HitOnce(
                    Intersection {
                        position: RadVec3::from_vec3(&position),
                        normal: RadVec3::from_vec3(&normal),
                    },
                )
            } else {
                IntersectResult::Miss
            }
        }
    }
}

/// A plane's answer to a well-formed query is well-formed.
pub proof fn lemma_plane_qhit_wf(pl: QPlane, r: QRay)
    requires
        qplane_wf(pl),
        qray_wf(r),
    ensures
        qhit_wf(plane_qhit(pl, r)),
{
    let n = pl.normal;
    let d = qray_delta(r);
    let den = plane_denom(pl, r);
    let num = q_sub(qv_dot(pl.position, n), qv_dot(r.eye, n));
    let t = plane_t(pl, r);
    crate::vec3::lemma_qv_sub_wf(r.target, r.eye);
    crate::vec3::lemma_qv_dot_wf(d, n);
    crate::vec3::lemma_qv_dot_wf(pl.position, n);
    crate::vec3::lemma_qv_dot_wf(r.eye, n);
    crate::rat::lemma_q_ops_wf(qv_dot(pl.position, n), qv_dot(r.eye, n));
    if !q_eq(den, q_int(0)) {
        assert(q_wf(t)) by {
            if den.n > 0 {
                crate::rat::lemma_pos_mul(num.d, den.n);
            } else {
                crate::rat::lemma_pos_neg_mul(num.d, den.n);
            }
        }
        crate::vec3::lemma_qv_scale_wf(t, d);
        crate::vec3::lemma_qv_add_wf(r.eye, qv_scale(t, d));
    }
}

/// The point where a non-parallel ray meets a plane lies exactly on the
/// plane: its signed distance from the plane is zero.
pub proof fn lemma_plane_hit_on_plane(pl: QPlane, r: QRay)
    requires
        qplane_wf(pl),
        qray_wf(r),
        !q_eq(plane_denom(pl, r), q_int(0)),
    ensures
        q_eq(qv_clip_dist(qray_at_q(r, plane_t(pl, r)), pl), q_int(0)),
{
    let n = pl.normal;
    let pp = pl.position;
    let e = r.eye;
    let d = qray_delta(r);
    let den = plane_denom(pl, r);
    let num = q_sub(qv_dot(pp, n), qv_dot(e, n));
    let t = plane_t(pl, r);
    let pos = qv_add(e, qv_scale(t, d));

    crate::vec3::lemma_qv_sub_wf(r.target, r.eye);
    crate::vec3::lemma_qv_dot_wf(d, n);
    crate::vec3::lemma_qv_dot_wf(pp, n);
    crate::vec3::lemma_qv_dot_wf(e, n);
    crate::rat::lemma_q_ops_wf(qv_dot(pp, n), qv_dot(e, n));
    assert(q_wf(t)) by {
        if den.n > 0 {
            crate::rat::lemma_pos_mul(num.d, den.n);
        } else {
            crate::rat::lemma_pos_neg_mul(num.d, den.n);
        }
    }
    crate::vec3::lemma_qv_scale_wf(t, d);
    crate::vec3::lemma_qv_add_wf(e, qv_scale(t, d));
    crate::vec3::lemma_qv_sub_wf(pos, pp);
    crate::vec3::lemma_qv_dot_wf(qv_sub(pos, pp), n);
    crate::vec3::lemma_qv_dot_wf(qv_scale(t, d), n);
    crate::vec3::lemma_qv_sub_wf(qv_add(e, qv_scale(t, d)), pp);
    crate::vec3::lemma_qv_dot_wf(pos, n);

    // Split the signed distance over the difference of points.
    crate::vec3::lemma_qv_dot_sub(pos, pp, n);

    // The hit point's dot with the normal: the eye's part plus the
    // scaled direction's part, which is exactly the numerator again.
    crate::vec3::lemma_qv_dot_add(e, qv_scale(t, d), n);
    crate::vec3::lemma_qv_dot_scale(t, d, n);
    crate::rat::lemma_q_div_mul_cancel(num, den);
    crate::rat::lemma_q_ops_wf(t, den);
    crate::rat::lemma_q_eq_refl(qv_dot(e, n));
    crate::rat::lemma_q_eq_trans(qv_dot(qv_scale(t, d), n), q_mul(t, den), num);
    crate::rat::lemma_q_add_congr(qv_dot(e, n), qv_dot(qv_scale(t, d), n), qv_dot(e, n), num);
    crate::rat::lemma_q_ops_wf(qv_dot(e, n), qv_dot(qv_scale(t, d), n));
    crate::rat::lemma_q_ops_wf(qv_dot(e, n), num);
    crate::rat::lemma_q_eq_trans(
        qv_dot(pos, n),
        q_add(qv_dot(e, n), qv_dot(qv_scale(t, d), n)),
        q_add(qv_dot(e, n), num),
    );

    // Put the pieces together and cancel.
    crate::rat::lemma_q_eq_refl(qv_dot(pp, n));
    crate::rat::lemma_q_sub_congr(
        qv_dot(pos, n),
        qv_dot(pp, n),
        q_add(qv_dot(e, n), num),
        qv_dot(pp, n),
    );
    crate::rat::lemma_q_ops_wf(qv_dot(pos, n), qv_dot(pp, n));
    crate::rat::lemma_q_ops_wf(q_add(qv_dot(e, n), num), qv_dot(pp, n));
    crate::rat::lemma_q_eq_trans(
        qv_dot(qv_sub(pos, pp), n),
        q_sub(qv_dot(pos, n), qv_dot(pp, n)),
        q_sub(q_add(qv_dot(e, n), num), qv_dot(pp, n)),
    );
    crate::rat::lemma_q_add_sub_round(qv_dot(e, n), qv_dot(pp, n));
    crate::rat::lemma_q_eq_trans(
        qv_dot(qv_sub(pos, pp), n),
        q_sub(q_add(qv_dot(e, n), num), qv_dot(pp, n)),
        q_int(0),
    );
}

/// A point classified against a plane's half-space: `Inside` keeps the
/// point, `Outside` carries its projection onto the plane instead.
pub open spec fn qv_clip(p: QV3, pl: QPlane) -> Clipped<QV3> {
    let dist = qv_clip_dist(p, pl);
    if q_le(q_int(0), dist) {
        Clipped::Inside(p)
    } else {
        Clipped::Outside(qv_sub(p, qv_scale(dist, pl.normal)))
    }
}

impl Vec3 {
    /// The half-space test of this point against a plane. An inside
    /// point comes back unchanged; an outside point comes back projected
    /// onto the plane along the normal.
    pub fn clip(self, plane: &Plane) -> (r: Clipped<Vec3>)
        requires
            self.wf(),
            plane.wf(),
        ensures
            (r matches Clipped::Inside(p) && qv_clip(self@, plane@) matches Clipped::Inside(q)
                && p@ == q && p.wf()) || (r matches Clipped::Outside(p) && qv_clip(self@, plane@)
                matches Clipped::Outside(q) && p@ == q && p.wf()),
    {
        let dist = self.sub(&plane.position).dot(&plane.normal);
        if dist.sign() >= 0 {
            Clipped::Inside(self)
        } else {
            let moved = self.sub(&plane.normal.scale(&dist));
            Clipped::Outside(moved)
        }
    }
}

/// For a plane whose normal has exact unit length, the point handed
/// back by an `Outside` clip lies exactly on the plane: its signed
/// distance from the plane is zero.
pub proof fn lemma_clip_outside_on_plane(p: QV3, pl: QPlane)
    requires
        qv_wf(p),
        qplane_wf(pl),
        q_eq(qv_dot(pl.normal, pl.normal), q_int(1)),
    ensures
        qv_clip(p, pl) matches Clipped::Outside(q) ==> q_eq(qv_clip_dist(q, pl), q_int(0)),
{
    let n = pl.normal;
    let pp = pl.position;
    let dist = qv_clip_dist(p, pl);
    crate::vec3::lemma_qv_sub_wf(p, pp);
    crate::vec3::lemma_qv_dot_wf(qv_sub(p, pp), n);
    if !q_le(q_int(0), dist) {
        let q = qv_sub(p, qv_scale(dist, n));
        crate::vec3::lemma_qv_scale_wf(dist, n);
        crate::vec3::lemma_qv_sub_wf(p, qv_scale(dist, n));
        crate::vec3::lemma_qv_sub_wf(q, pp);
        crate::vec3::lemma_qv_dot_wf(q, n);
        crate::vec3::lemma_qv_dot_wf(pp, n);
        crate::vec3::lemma_qv_dot_wf(p, n);
        crate::vec3::lemma_qv_dot_wf(n, n);
        crate::vec3::lemma_qv_dot_wf(qv_scale(dist, n), n);
        crate::vec3::lemma_qv_dot_wf(qv_sub(q, pp), n);

        // The distance of the projected point splits over the difference.
        crate::vec3::lemma_qv_dot_sub(q, pp, n);

        // The projected point's dot with the normal: remove the scaled
        // normal's contribution, which is exactly `dist`.
        crate::vec3::lemma_qv_dot_sub(p, qv_scale(dist, n), n);
        crate::vec3::lemma_qv_dot_scale(dist, n, n);
        crate::rat::lemma_q_eq_refl(dist);
        crate::rat::lemma_q_ops_wf(dist, qv_dot(n, n));
        crate::rat::lemma_q_ops_wf(dist, q_int(1));
        crate::rat::lemma_q_mul_congr(dist, qv_dot(n, n), dist, q_int(1));
        crate::rat::lemma_q_mul_one(dist);
        crate::rat::lemma_q_eq_trans(
            qv_dot(qv_scale(dist, n), n),
            q_mul(dist, qv_dot(n, n)),
            q_mul(dist, q_int(1)),
        );
        crate::rat::lemma_q_eq_trans(
            qv_dot(qv_scale(dist, n), n),
            q_mul(dist, q_int(1)),
            dist,
        );
        crate::rat::lemma_q_eq_refl(qv_dot(p, n));
        crate::rat::lemma_q_sub_congr(
            qv_dot(p, n),
            qv_dot(qv_scale(dist, n), n),
            qv_dot(p, n),
            dist,
        );
        crate::rat::lemma_q_ops_wf(qv_dot(p, n), qv_dot(qv_scale(dist, n), n));
        crate::rat::lemma_q_ops_wf(qv_dot(p, n), dist);
        crate::rat::lemma_q_eq_trans(
            qv_dot(q, n),
            q_sub(qv_dot(p, n), qv_dot(qv_scale(dist, n), n)),
            q_sub(qv_dot(p, n), dist),
        );

        // Put the pieces together and cancel.
        crate::rat::lemma_q_eq_refl(qv_dot(pp, n));
        crate::rat::lemma_q_sub_congr(
            qv_dot(q, n),
            qv_dot(pp, n),
            q_sub(qv_dot(p, n), dist),
            qv_dot(pp, n),
        );
        crate::rat::lemma_q_ops_wf(qv_dot(q, n), qv_dot(pp, n));
        crate::rat::lemma_q_ops_wf(q_sub(qv_dot(p, n), dist), qv_dot(pp, n));
        crate::rat::lemma_q_eq_trans(
            qv_dot(qv_sub(q, pp), n),
            q_sub(qv_dot(q, n), qv_dot(pp, n)),
            q_sub(q_sub(qv_dot(p, n), dist), qv_dot(pp, n)),
        );
        crate::vec3::lemma_qv_dot_sub(p, pp, n);
        crate::rat::lemma_q_sub_cancel(qv_dot(p, n), qv_dot(pp, n), dist);
        crate::rat::lemma_q_eq_trans(
            qv_dot(qv_sub(q, pp), n),
            q_sub(q_sub(qv_dot(p, n), dist), qv_dot(pp, n)),
            q_int(0),
        );
    }
}

/// A radical point classified against a plane's half-space.
pub open spec fn qrv_clip(p: QRV3, pl: QPlane) -> Clipped<QRV3> {
    let dist = qr_clip_dist(p, pl);
    if qr_sign(dist) >= 0 {
        Clipped::Inside(p)
    } else {
        Clipped::Outside(qrv_sub_radscale(p, dist, pl.normal))
    }
}

pub open spec fn qrv_sub_radscale(p: QRV3, s: QR, n: QV3) -> QRV3 {
    QRV3 {
        x: crate::radical::qr_add(p.x, crate::radical::qr_neg(crate::radical::qr_scale_q(n.x, s))),
        y: crate::radical::qr_add(p.y, crate::radical::qr_neg(crate::radical::qr_scale_q(n.y, s))),
        z: crate::radical::qr_add(p.z, crate::radical::qr_neg(crate::radical::qr_scale_q(n.z, s))),
    }
}

impl RadVec3 {
    /// The half-space test of a radical point against a plane.
    pub fn clip(self, plane: &Plane) -> (r: Clipped<RadVec3>)
        requires
            self.wf(),
            plane.wf(),
        ensures
            (r matches Clipped::Inside(p) && qrv_clip(self@, plane@) matches Clipped::Inside(q)
                && p@ == q && p.wf()) || (r matches Clipped::Outside(p) && qrv_clip(self@,
                plane@) matches Clipped::Outside(q) && p@ == q && p.wf()),
    {
        let dist = self.sub_vec3(&plane.position).dot_vec3(&plane.normal);
        if dist.sign() >= 0 {
            Clipped::Inside(self)
        } else {
            let moved = RadVec3 {
                x: self.x.add(&dist.scale_rat(&plane.normal.x).neg()),
                y: self.y.add(&dist.scale_rat(&plane.normal.y).neg()),
                z: self.z.add(&dist.scale_rat(&plane.normal.z).neg()),
            };
            Clipped::Outside(moved)
        }
    }
}

/// A sphere of the given radius, centered at the local origin; its
/// placement in the world is a transform node's business.
pub struct Ball {
    pub radius: Rat,
}

impl View for Ball {
    type V = Q;

    open spec fn view(&self) -> Q {
        self.radius@
    }
}

impl Ball {
    /// A positive radius.
    pub open spec fn wf(&self) -> bool {
        q_wf(self@) && q_lt(q_int(0), self@)
    }

    pub fn new(radius: Rat) -> (r: Ball)
        requires
            radius.wf(),
            q_lt(q_int(0), radius@),
        ensures
            r.wf(),
            r@ == radius@,
    {
        Ball { radius }
    }

    /// An exact copy.
    pub fn dup(&self) -> (r: Ball)
        ensures
            r@ == self@,
    {
        Ball { radius: self.radius.dup() }
    }
}

/// The hit of a ball at the rational ray parameter `t`: the position on
/// the ray, with its normal the position divided by the radius.
pub open spec fn ball_qhit_at_q(radius: Q, r: QRay, t: Q) -> QI {
    QI {
        position: qrv_of_qv(qray_at_q(r, t)),
        normal: qrv_of_qv(qv_scale(q_div(q_int(1), radius), qray_at_q(r, t))),
    }
}

/// The hit of a ball at the radical ray parameter `t`.
pub open spec fn ball_qhit_at_qr(radius: Q, r: QRay, t: QR) -> QI {
    QI {
        position: qray_at_qr(r, t),
        normal: qrv_scale_q(q_div(q_int(1), radius), qray_at_qr(r, t)),
    }
}

/// The answer a ball gives to a ray query, from the quadratic
/// `a t^2 + b t + c = 0` with `a = delta.delta`, `b = 2 eye.delta`,
/// `c = eye.eye - radius^2`: a miss for a negative discriminant, one
/// grazing hit for a zero discriminant, two hits ordered by distance
/// from the eye for a positive one. A degenerate ray (`delta = 0`)
/// degrades to the linear or constant equation.
pub open spec fn ball_qhit(radius: Q, r: QRay) -> QHit {
    let a = qv_dot(qray_delta(r), qray_delta(r));
    let b = q_mul(q_int(2), qv_dot(r.eye, qray_delta(r)));
    let c = q_sub(qv_dot(r.eye, r.eye), q_mul(radius, radius));
    if q_sign(a) == 0 {
        if q_sign(b) == 0 {
            if q_sign(c) == 0 {
                QHit::Once(ball_qhit_at_q(radius, r, q_int(0)))
            } else {
                QHit::Miss
            }
        } else {
            QHit::Once(ball_qhit_at_q(radius, r, q_div(q_neg(c), b)))
        }
    } else {
        let disc = q_sub(q_mul(b, b), q_mul(q_int(4), q_mul(a, c)));
        if q_sign(disc) < 0 {
            QHit::Miss
        } else if q_sign(disc) == 0 {
            QHit::Once(ball_qhit_at_q(radius, r, q_div(q_neg(b), q_mul(q_int(2), a))))
        } else {
            let inv2a = q_div(q_int(1), q_mul(q_int(2), a));
            let t1 = QR { a: q_mul(q_neg(b), inv2a), b: q_neg(inv2a), k: disc };
            let t2 = QR { a: q_mul(q_neg(b), inv2a), b: inv2a, k: disc };
            let h1 = ball_qhit_at_qr(radius, r, t1);
            let h2 = ball_qhit_at_qr(radius, r, t2);
            if qr_lt_same_k(qrv_dist_sq(h2.position, r.eye), qrv_dist_sq(h1.position, r.eye)) {
                QHit::Twice(h2, h1)
            } else {
                QHit::Twice(h1, h2)
            }
        }
    }
}

/// The square of any rational is nonnegative.
proof fn lemma_q_square_nonneg(x: Q)
    requires
        q_wf(x),
    ensures
        q_le(q_int(0), q_mul(x, x)),
{
    assert(x.n * x.n >= 0) by (nonlinear_arith);
}

/// Nonnegative rationals are closed under addition.
proof fn lemma_q_add_nonneg(x: Q, y: Q)
    requires
        q_wf(x),
        q_wf(y),
        q_le(q_int(0), x),
        q_le(q_int(0), y),
    ensures
        q_le(q_int(0), q_add(x, y)),
{
    assert(x.n >= 0 && y.n >= 0 && x.d > 0 && y.d > 0 ==> x.n * y.d + y.n * x.d >= 0)
        by (nonlinear_arith);
}

/// A vector's dot product with itself is nonnegative.
pub proof fn lemma_qv_dot_self_nonneg(v: QV3)
    requires
        qv_wf(v),
    ensures
        q_le(q_int(0), qv_dot(v, v)),
{
    lemma_q_square_nonneg(v.x);
    lemma_q_square_nonneg(v.y);
    lemma_q_square_nonneg(v.z);
    lemma_pos_mul(v.x.d, v.x.d);
    lemma_pos_mul(v.y.d, v.y.d);
    lemma_pos_mul(v.z.d, v.z.d);
    lemma_q_add_nonneg(q_mul(v.x, v.x), q_mul(v.y, v.y));
    lemma_pos_mul(q_mul(v.x, v.x).d, q_mul(v.y, v.y).d);
    lemma_q_add_nonneg(q_add(q_mul(v.x, v.x), q_mul(v.y, v.y)), q_mul(v.z, v.z));
}

impl Ball {
    /// The hit at a rational ray parameter.
    fn hit_at(&self, ray: &Ray, t: &Rat) -> (r: Intersection)
        requires
            self.wf(),
            ray.wf(),
            t.wf(),
        ensures
            r.wf(),
            r@ == ball_qhit_at_q(self@, ray@, t@),
    {
        let position = ray.eye.add(&ray.delta().scale(t));
        let inv_r = Rat::from_int(1).div(&self.radius);
        let normal = position.scale(&inv_r);
        Intersection {
            position: RadVec3::from_vec3(&position),
            normal: RadVec3::from_vec3(&normal),
        }
    }

    /// The hit at a radical ray parameter.
    fn hit_at_rad(&self, ray: &Ray, t: &Radical) -> (r: Intersection)
        requires
            self.wf(),
            ray.wf(),
            t.wf(),
        ensures
            r.wf(),
            r@ == ball_qhit_at_qr(self@, ray@, t@),
            r@.position.x.k == t@.k,
    {
        let delta = ray.delta();
        let position = RadVec3 {
            x: t.scale_rat(&delta.x),
            y: t.scale_rat(&delta.y),
            z: t.scale_rat(&delta.z),
        }.add_vec3(&ray.eye);
        let inv_r = Rat::from_int(1).div(&self.radius);
        let normal = position.scale_rat(&inv_r);
        Intersection { position, normal }
    }

    /// The closed-form ray/sphere solution.
    pub fn intersect(&self, ray: &Ray) -> (r: IntersectResult)
        requires
            self.wf(),
            ray.wf(),
        ensures
            r.wf(),
            r@ == ball_qhit(self@, ray@),
    {
        let delta = ray.delta();
        let a = delta.dot(&delta);
        let two = Rat::from_int(2);
        let b = two.mul(&ray.eye.dot(&delta));
        let c = ray.eye.dot(&ray.eye).sub(&self.radius.mul(&self.radius));
        proof {
            lemma_qv_dot_self_nonneg(qray_delta(ray@));
        }
        if a.sign() == 0 {
            if b.sign() == 0 {
                if c.sign() == 0 {
                    IntersectResult::HitOnce(self.hit_at(ray, &Rat::from_int(0)))
                } else {
                    IntersectResult::Miss
                }
            } else {
                IntersectResult::HitOnce(self.hit_at(ray, &c.neg().div(&b)))
            }
        } else {
            let four = Rat::from_int(4);
            let disc = b.mul(&b).sub(&four.mul(&a.mul(&c)));
            let sd = disc.sign();
            if sd < 0 {
                IntersectResult::Miss
            } else if sd == 0 {
                IntersectResult::HitOnce(self.hit_at(ray, &b.neg().div(&two.mul(&a))))
            } else {
                let inv2a = Rat::from_int(1).div(&two.mul(&a));
                let t1 = Radical { a: b.neg().mul(&inv2a), b: inv2a.neg(), k: disc.dup() };
                let t2 = Radical { a: b.neg().mul(&inv2a), b: inv2a.dup(), k: disc.dup() };
                let h1 = self.hit_at_rad(ray, &t1);
                let h2 = self.hit_at_rad(ray, &t2);
                let d1 = h1.position.dist_sq(&ray.eye);
                let d2 = h2.position.dist_sq(&ray.eye);
                if d2.lt_same_k(&d1) {
                    IntersectResult::HitTwice(h2, h1)
                } else {
                    IntersectResult::HitTwice(h1, h2)
                }
            }
        }
    }
}

/// A double hit of a ball is ordered: the first hit is no farther from
/// the eye than the second.
pub proof fn lemma_ball_twice_ordered(radius: Q, r: QRay, h1: QI, h2: QI)
    requires
        ball_qhit(radius, r) == QHit::Twice(h1, h2),
    ensures
        h1.position.x.k == h2.position.x.k,
        qr_le_same_k(qrv_dist_sq(h1.position, r.eye), qrv_dist_sq(h2.position, r.eye)),
{
    let a = qv_dot(qray_delta(r), qray_delta(r));
    let b = q_mul(q_int(2), qv_dot(r.eye, qray_delta(r)));
    let c = q_sub(qv_dot(r.eye, r.eye), q_mul(radius, radius));
    let disc = q_sub(q_mul(b, b), q_mul(q_int(4), q_mul(a, c)));
    let inv2a = q_div(q_int(1), q_mul(q_int(2), a));
    let t1 = QR { a: q_mul(q_neg(b), inv2a), b: q_neg(inv2a), k: disc };
    let t2 = QR { a: q_mul(q_neg(b), inv2a), b: inv2a, k: disc };
    let g1 = ball_qhit_at_qr(radius, r, t1);
    let g2 = ball_qhit_at_qr(radius, r, t2);
    let e1 = qrv_dist_sq(g1.position, r.eye);
    let e2 = qrv_dist_sq(g2.position, r.eye);
    if qr_lt_same_k(e2, e1) {
    } else {
        lemma_qr_same_k_total(e2, e1);
    }
}

} // verus!
