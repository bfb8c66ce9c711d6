//! The virtual trackball: a sphere placed in the world, against which a
//! pair of picking rays is resolved to two exact surface points.
//!
//! A drag is given as two rays. Each ray is mapped to a point of the
//! trackball's sphere: the nearest hit of the wrapped model when the ray
//! meets the sphere, else the hit of the plane through the center facing
//! the ray's eye, pushed radially out onto the sphere. `compute` returns
//! the two center-relative arc vectors exactly; turning them into a
//! rotation axis and angle takes a square root and an arc cosine, which
//! have no exact form here and are left to the caller's floating-point
//! presentation.

use vstd::prelude::*;
use crate::rat::{Rat, Q, q_int, q_div, q_mul, q_lt, q_sign, q_eq};
use crate::vec3::{Vec3, QV3, qv_sub, qv_dot, qv_wf};
use crate::mat::{Mat4, qm4_from_translation};
use crate::radical::{Radical, RadVec3, QR, QRV3, qrv_sub_qv};
use crate::raycast::{Ray, QRay, qray_eq, qray_wf, Plane, QPlane, plane_qhit, QHit, Ball,
    lemma_qv_dot_self_nonneg};
use crate::model::{Model, Transform, Primitive, model_wf, model_hit};

verus! {

broadcast use crate::rat::group_q_zero;

/// A stateless trackball: a center, a radius, and the wrapped model
/// holding the translated sphere.
pub struct VirtualTrackball {
    pub position: Vec3,
    pub radius: Rat,
    pub model: Model,
}

impl VirtualTrackball {
    /// The wrapped model is exactly the translated sphere of this
    /// center and radius.
    pub open spec fn wf(&self) -> bool {
        &&& self.position.wf()
        &&& self.radius.wf()
        &&& q_lt(q_int(0), self.radius@)
        &&& model_wf(self.model)
        &&& (self.model matches Model::Transform(t, child) && t@.affine
            == qm4_from_translation(self.position@) && (*child matches Model::Object(p)
            && p matches Primitive::Ball(b) && b@ == self.radius@))
    }

    /// Builds the trackball's sphere model: a ball of the given radius
    /// under a translation to `position`. A translation always inverts
    /// exactly, so construction always succeeds.
    pub fn new(position: Vec3, radius: Rat) -> (r: Option<VirtualTrackball>)
        requires
            position.wf(),
            radius.wf(),
            q_lt(q_int(0), radius@),
        ensures
            r is Some,
            (r matches Some(tb) ==> tb.wf() && tb.position@ == position@ && tb.radius@
                == radius@),
    {
        let matrix = Mat4::from_translation(&position);
        proof {
            assert(crate::mat::qm3_det(
                crate::mat::qm4_linear3(qm4_from_translation(position@)),
            ).n == 1) by (nonlinear_arith);
        }
        match Transform::new(matrix) {
            Some(transform) => {
                let ball = Ball::new(radius.dup());
                let child = Model::Object(Primitive::Ball(ball));
                proof {
                    assert(model_wf(child));
                }
                let model = Model::Transform(transform, Box::new(child));
                proof {
                    assert(model_wf(model));
                }
                Some(VirtualTrackball { position, radius, model })
            },
            None => None,
        }
    }

    /// The trackball's center.
    pub fn position(&self) -> (r: Vec3)
        ensures
            r@ == self.position@,
    {
        self.position.dup()
    }
}

/// The surface point a ray picks on the trackball's sphere: the model's
/// hit position when the ray meets the sphere; else the ray's hit on the
/// plane through the center that faces the eye, pushed radially onto the
/// sphere. The fallback fails (`None`) when the ray misses that plane
/// too, or degenerately hits it at the center itself.
pub open spec fn trackball_point(tb: VirtualTrackball, r: QRay) -> Option<QRV3> {
    match model_hit(tb.model, r) {
        Some(h) => Some(h.position),
        None => {
            let pl = QPlane {
                position: tb.position@,
                normal: qv_sub(tb.position@, r.eye),
            };
            match plane_qhit(pl, r) {
                QHit::Once(h) => {
                    let dv = qv_sub(
                        QV3 { x: h.position.x.a, y: h.position.y.a, z: h.position.z.a },
                        tb.position@,
                    );
                    if q_sign(qv_dot(dv, dv)) == 0 {
                        None
                    } else {
                        Some(radial_point(tb.position@, dv, tb.radius@))
                    }
                },
                _ => None,
            }
        },
    }
}

/// What `compute` returns: nothing for a no-op drag (equal rays) or
/// when either ray resolves to no surface point; else the two exact
/// center-relative arc vectors, start first.
pub open spec fn trackball_arc(tb: VirtualTrackball, s: QRay, e: QRay) -> Option<(QRV3, QRV3)> {
    if qray_eq(s, e) {
        None
    } else {
        match (trackball_point(tb, s), trackball_point(tb, e)) {
            (Some(sp), Some(ep)) => Some(
                (qrv_sub_qv(sp, tb.position@), qrv_sub_qv(ep, tb.position@)),
            ),
            _ => None,
        }
    }
}

/// The radial pushout of a nonzero offset `dv` from the center `c`
/// lands exactly on the sphere of radius `rad` about `c`: the squared
/// distance of the pushed-out point from `c` has rational part
/// `rad * rad` and no radical part.
proof fn lemma_radial_point_dist(c: QV3, dv: QV3, rad: Q)
    requires
        qv_wf(c),
        qv_wf(dv),
        crate::rat::q_wf(rad),
        q_sign(qv_dot(dv, dv)) != 0,
    ensures
        q_eq(
            crate::radical::qrv_dist_sq(radial_point(c, dv, rad), c).a,
            q_mul(rad, rad),
        ),
        q_eq(crate::radical::qrv_dist_sq(radial_point(c, dv, rad), c).b, q_int(0)),
{
    let kk = qv_dot(dv, dv);
    let coef = q_div(rad, kk);
    crate::vec3::lemma_qv_dot_wf(dv, dv);
    assert(crate::rat::q_wf(coef)) by {
        if kk.n > 0 {
            crate::rat::lemma_pos_mul(rad.d, kk.n);
        } else {
            crate::rat::lemma_pos_neg_mul(rad.d, kk.n);
        }
    }
    crate::rat::lemma_q_ops_wf(c.x, c.x);
    crate::rat::lemma_q_ops_wf(c.y, c.y);
    crate::rat::lemma_q_ops_wf(c.z, c.z);
    crate::rat::lemma_q_ops_wf(coef, dv.x);
    crate::rat::lemma_q_ops_wf(coef, dv.y);
    crate::rat::lemma_q_ops_wf(coef, dv.z);
    let ax = crate::rat::q_sub(c.x, c.x);
    let ay = crate::rat::q_sub(c.y, c.y);
    let az = crate::rat::q_sub(c.z, c.z);
    let bx = q_mul(coef, dv.x);
    let by = q_mul(coef, dv.y);
    let bz = q_mul(coef, dv.z);
    assert(ax.n == 0 && ay.n == 0 && az.n == 0);

    // The radical part of the squared distance vanishes: every cross
    // term carries a zero factor.
    assert(q_mul(crate::rat::q_sub(c.x, c.x), q_mul(q_div(rad, qv_dot(dv, dv)), dv.x)).n == 0)
        by (nonlinear_arith);
    assert(q_mul(crate::rat::q_sub(c.y, c.y), q_mul(q_div(rad, qv_dot(dv, dv)), dv.y)).n == 0)
        by (nonlinear_arith);
    assert(q_mul(crate::rat::q_sub(c.z, c.z), q_mul(q_div(rad, qv_dot(dv, dv)), dv.z)).n == 0)
        by (nonlinear_arith);
    let crx = q_mul(ax, bx);
    let cry = q_mul(ay, by);
    let crz = q_mul(az, bz);
    assert(crate::rat::q_add(crx, crx).n == 0) by (nonlinear_arith)
        requires
            crx.n == 0,
    ;
    assert(crate::rat::q_add(cry, cry).n == 0) by (nonlinear_arith)
        requires
            cry.n == 0,
    ;
    assert(crate::rat::q_add(crz, crz).n == 0) by (nonlinear_arith)
        requires
            crz.n == 0,
    ;
    let dbx = crate::rat::q_add(crx, crx);
    let dby = crate::rat::q_add(cry, cry);
    let dbz = crate::rat::q_add(crz, crz);
    assert(crate::rat::q_add(crate::rat::q_add(dbx, dby), dbz).n == 0) by (nonlinear_arith)
        requires
            dbx.n == 0,
            dby.n == 0,
            dbz.n == 0,
    ;

    // The rational part: the zero squares drop away and the scaled
    // squares sum back to the radicand, leaving the squared radius.
    let mx = q_mul(q_mul(bx, bx), kk);
    let my = q_mul(q_mul(by, by), kk);
    let mz = q_mul(q_mul(bz, bz), kk);
    assert(q_mul(ax, ax).n == 0) by (nonlinear_arith)
        requires
            ax.n == 0,
    ;
    assert(q_mul(ay, ay).n == 0) by (nonlinear_arith)
        requires
            ay.n == 0,
    ;
    assert(q_mul(az, az).n == 0) by (nonlinear_arith)
        requires
            az.n == 0,
    ;
    crate::rat::lemma_q_add_zero_left(q_mul(ax, ax), mx);
    crate::rat::lemma_q_add_zero_left(q_mul(ay, ay), my);
    crate::rat::lemma_q_add_zero_left(q_mul(az, az), mz);

    // Each scaled square regroups so that the common factor can be
    // pulled out of the sum.
    let ee = q_mul(q_mul(coef, coef), kk);
    let wx = q_mul(dv.x, dv.x);
    let wy = q_mul(dv.y, dv.y);
    let wz = q_mul(dv.z, dv.z);
    assert(q_mul(q_mul(coef, dv.x), q_mul(coef, dv.x)).n == q_mul(q_mul(coef, coef), q_mul(dv.x, dv.x)).n
        && q_mul(q_mul(coef, dv.x), q_mul(coef, dv.x)).d == q_mul(q_mul(coef, coef), q_mul(dv.x, dv.x)).d)
        by (nonlinear_arith);
    assert(q_mul(q_mul(coef, dv.y), q_mul(coef, dv.y)).n == q_mul(q_mul(coef, coef), q_mul(dv.y, dv.y)).n
        && q_mul(q_mul(coef, dv.y), q_mul(coef, dv.y)).d == q_mul(q_mul(coef, coef), q_mul(dv.y, dv.y)).d)
        by (nonlinear_arith);
    assert(q_mul(q_mul(coef, dv.z), q_mul(coef, dv.z)).n == q_mul(q_mul(coef, coef), q_mul(dv.z, dv.z)).n
        && q_mul(q_mul(coef, dv.z), q_mul(coef, dv.z)).d == q_mul(q_mul(coef, coef), q_mul(dv.z, dv.z)).d)
        by (nonlinear_arith);
    assert(q_mul(q_mul(q_mul(coef, coef), q_mul(dv.x, dv.x)), qv_dot(dv, dv)).n == q_mul(
        q_mul(q_mul(coef, coef), qv_dot(dv, dv)), q_mul(dv.x, dv.x)).n && q_mul(
        q_mul(q_mul(coef, coef), q_mul(dv.x, dv.x)), qv_dot(dv, dv)).d == q_mul(
        q_mul(q_mul(coef, coef), qv_dot(dv, dv)), q_mul(dv.x, dv.x)).d) by (nonlinear_arith);
    assert(q_mul(q_mul(q_mul(coef, coef), q_mul(dv.y, dv.y)), qv_dot(dv, dv)).n == q_mul(
        q_mul(q_mul(coef, coef), qv_dot(dv, dv)), q_mul(dv.y, dv.y)).n && q_mul(
        q_mul(q_mul(coef, coef), q_mul(dv.y, dv.y)), qv_dot(dv, dv)).d == q_mul(
        q_mul(q_mul(coef, coef), qv_dot(dv, dv)), q_mul(dv.y, dv.y)).d) by (nonlinear_arith);
    assert(q_mul(q_mul(q_mul(coef, coef), q_mul(dv.z, dv.z)), qv_dot(dv, dv)).n == q_mul(
        q_mul(q_mul(coef, coef), qv_dot(dv, dv)), q_mul(dv.z, dv.z)).n && q_mul(
        q_mul(q_mul(coef, coef), q_mul(dv.z, dv.z)), qv_dot(dv, dv)).d == q_mul(
        q_mul(q_mul(coef, coef), qv_dot(dv, dv)), q_mul(dv.z, dv.z)).d) by (nonlinear_arith);
    assert(mx == q_mul(ee, wx));
    assert(my == q_mul(ee, wy));
    assert(mz == q_mul(ee, wz));

    // Pull the factor out and collapse the sum of squares to the
    // radicand itself.
    crate::rat::lemma_q_ops_wf(dv.x, dv.x);
    crate::rat::lemma_q_ops_wf(dv.y, dv.y);
    crate::rat::lemma_q_ops_wf(dv.z, dv.z);
    crate::rat::lemma_q_ops_wf(coef, coef);
    crate::rat::lemma_q_ops_wf(q_mul(coef, coef), kk);
    crate::rat::lemma_q_mul_add(ee, wx, wy);
    crate::rat::lemma_q_ops_wf(wx, wy);
    crate::rat::lemma_q_ops_wf(crate::rat::q_add(wx, wy), wz);
    crate::rat::lemma_q_mul_add(ee, crate::rat::q_add(wx, wy), wz);
    crate::rat::lemma_q_ops_wf(ee, wx);
    crate::rat::lemma_q_ops_wf(ee, wy);
    crate::rat::lemma_q_ops_wf(ee, wz);
    crate::rat::lemma_q_ops_wf(q_mul(ee, wx), q_mul(ee, wy));
    crate::rat::lemma_q_ops_wf(ee, crate::rat::q_add(wx, wy));
    crate::rat::lemma_q_eq_sym(q_mul(ee, crate::rat::q_add(wx, wy)), crate::rat::q_add(q_mul(ee, wx), q_mul(ee, wy)));
    crate::rat::lemma_q_eq_refl(q_mul(ee, wz));
    crate::rat::lemma_q_add_congr(
        crate::rat::q_add(q_mul(ee, wx), q_mul(ee, wy)),
        q_mul(ee, wz),
        q_mul(ee, crate::rat::q_add(wx, wy)),
        q_mul(ee, wz),
    );
    crate::rat::lemma_q_eq_sym(
        q_mul(ee, crate::rat::q_add(crate::rat::q_add(wx, wy), wz)),
        crate::rat::q_add(q_mul(ee, crate::rat::q_add(wx, wy)), q_mul(ee, wz)),
    );
    crate::rat::lemma_q_ops_wf(q_mul(ee, crate::rat::q_add(wx, wy)), q_mul(ee, wz));
    crate::rat::lemma_q_ops_wf(ee, crate::rat::q_add(crate::rat::q_add(wx, wy), wz));
    crate::rat::lemma_q_ops_wf(
        crate::rat::q_add(q_mul(ee, wx), q_mul(ee, wy)),
        q_mul(ee, wz),
    );
    crate::rat::lemma_q_eq_trans(
        crate::rat::q_add(crate::rat::q_add(q_mul(ee, wx), q_mul(ee, wy)), q_mul(ee, wz)),
        crate::rat::q_add(q_mul(ee, crate::rat::q_add(wx, wy)), q_mul(ee, wz)),
        q_mul(ee, crate::rat::q_add(crate::rat::q_add(wx, wy), wz)),
    );
    assert(crate::rat::q_add(crate::rat::q_add(wx, wy), wz) == kk);

    // Finally, the factor times the radicand is the squared radius.
    assert(q_mul(q_mul(q_mul(coef, coef), qv_dot(dv, dv)), qv_dot(dv, dv)).n == q_mul(
        q_mul(coef, qv_dot(dv, dv)), q_mul(coef, qv_dot(dv, dv))).n && q_mul(
        q_mul(q_mul(coef, coef), qv_dot(dv, dv)), qv_dot(dv, dv)).d == q_mul(
        q_mul(coef, qv_dot(dv, dv)), q_mul(coef, qv_dot(dv, dv))).d) by (nonlinear_arith);
    crate::rat::lemma_q_div_mul_cancel(rad, kk);
    crate::rat::lemma_q_ops_wf(coef, kk);
    crate::rat::lemma_q_ops_wf(rad, rad);
    crate::rat::lemma_q_mul_congr(q_mul(coef, kk), q_mul(coef, kk), rad, rad);
    crate::rat::lemma_q_ops_wf(q_mul(coef, kk), q_mul(coef, kk));
    crate::rat::lemma_q_eq_trans(
        q_mul(ee, kk),
        q_mul(q_mul(coef, kk), q_mul(coef, kk)),
        q_mul(rad, rad),
    );

    // Stitch the per-component values into the squared distance.
    let sx = q_mul(ax, ax);
    let sy = q_mul(ay, ay);
    let sz = q_mul(az, az);
    crate::rat::lemma_q_ops_wf(ax, ax);
    crate::rat::lemma_q_ops_wf(ay, ay);
    crate::rat::lemma_q_ops_wf(az, az);
    crate::rat::lemma_q_ops_wf(bx, bx);
    crate::rat::lemma_q_ops_wf(by, by);
    crate::rat::lemma_q_ops_wf(bz, bz);
    crate::rat::lemma_q_ops_wf(q_mul(bx, bx), kk);
    crate::rat::lemma_q_ops_wf(q_mul(by, by), kk);
    crate::rat::lemma_q_ops_wf(q_mul(bz, bz), kk);
    crate::rat::lemma_q_ops_wf(sx, mx);
    crate::rat::lemma_q_ops_wf(sy, my);
    crate::rat::lemma_q_ops_wf(sz, mz);
    crate::rat::lemma_q_add_congr(crate::rat::q_add(sx, mx), crate::rat::q_add(sy, my), mx, my);
    crate::rat::lemma_q_ops_wf(crate::rat::q_add(sx, mx), crate::rat::q_add(sy, my));
    crate::rat::lemma_q_ops_wf(mx, my);
    crate::rat::lemma_q_add_congr(
        crate::rat::q_add(crate::rat::q_add(sx, mx), crate::rat::q_add(sy, my)),
        crate::rat::q_add(sz, mz),
        crate::rat::q_add(mx, my),
        mz,
    );
    crate::rat::lemma_q_ops_wf(crate::rat::q_add(crate::rat::q_add(sx, mx), crate::rat::q_add(sy, my)), crate::rat::q_add(sz, mz));
    crate::rat::lemma_q_ops_wf(crate::rat::q_add(mx, my), mz);
    crate::rat::lemma_q_ops_wf(q_mul(ee, wx), q_mul(ee, wy));
    crate::rat::lemma_q_eq_trans(
        crate::rat::q_add(crate::rat::q_add(sx, mx), crate::rat::q_add(sy, my)),
        crate::rat::q_add(mx, my),
        crate::rat::q_add(q_mul(ee, wx), q_mul(ee, wy)),
    );
    crate::rat::lemma_q_eq_trans(
        crate::rat::q_add(crate::rat::q_add(crate::rat::q_add(sx, mx), crate::rat::q_add(sy, my)), crate::rat::q_add(sz, mz)),
        crate::rat::q_add(crate::rat::q_add(mx, my), mz),
        crate::rat::q_add(crate::rat::q_add(q_mul(ee, wx), q_mul(ee, wy)), q_mul(ee, wz)),
    );
    crate::rat::lemma_q_ops_wf(crate::rat::q_add(mx, my), mz);
    crate::rat::lemma_q_ops_wf(crate::rat::q_add(q_mul(ee, wx), q_mul(ee, wy)), q_mul(ee, wz));
    crate::rat::lemma_q_ops_wf(ee, kk);
    crate::rat::lemma_q_eq_trans(
        crate::rat::q_add(crate::rat::q_add(crate::rat::q_add(sx, mx), crate::rat::q_add(sy, my)), crate::rat::q_add(sz, mz)),
        crate::rat::q_add(crate::rat::q_add(q_mul(ee, wx), q_mul(ee, wy)), q_mul(ee, wz)),
        q_mul(ee, kk),
    );
    crate::rat::lemma_q_eq_trans(
        crate::rat::q_add(crate::rat::q_add(crate::rat::q_add(sx, mx), crate::rat::q_add(sy, my)), crate::rat::q_add(sz, mz)),
        q_mul(ee, kk),
        q_mul(rad, rad),
    );
}

/// The point `c + (rad / |dv|) * dv`, written as a radical vector over
/// the radicand `|dv|^2`.
pub open spec fn radial_point(c: QV3, dv: QV3, rad: Q) -> QRV3 {
    let kk = qv_dot(dv, dv);
    let coef = q_div(rad, kk);
    QRV3 {
        x: QR { a: c.x, b: q_mul(coef, dv.x), k: kk },
        y: QR { a: c.y, b: q_mul(coef, dv.y), k: kk },
        z: QR { a: c.z, b: q_mul(coef, dv.z), k: kk },
    }
}

/// The fallback surface point really lies on the trackball's sphere:
/// when the wrapped model misses the ray but a surface point is still
/// returned, that point's squared distance from the center is exactly
/// the squared radius (its radical part vanishes).
pub proof fn lemma_trackball_fallback_on_sphere(tb: VirtualTrackball, r: QRay)
    requires
        tb.wf(),
        qray_wf(r),
        model_hit(tb.model, r) is None,
    ensures
        trackball_point(tb, r) matches Some(p) ==> q_eq(
            crate::radical::qrv_dist_sq(p, tb.position@).a,
            q_mul(tb.radius@, tb.radius@),
        ) && q_eq(crate::radical::qrv_dist_sq(p, tb.position@).b, q_int(0)),
{
    let c = tb.position@;
    let pl = QPlane { position: c, normal: qv_sub(c, r.eye) };
    crate::vec3::lemma_qv_sub_wf(c, r.eye);
    crate::raycast::lemma_plane_qhit_wf(pl, r);
    if let QHit::Once(h) = plane_qhit(pl, r) {
        let dv = qv_sub(QV3 { x: h.position.x.a, y: h.position.y.a, z: h.position.z.a }, c);
        crate::vec3::lemma_qv_sub_wf(
            QV3 { x: h.position.x.a, y: h.position.y.a, z: h.position.z.a },
            c,
        );
        if q_sign(qv_dot(dv, dv)) != 0 {
            lemma_radial_point_dist(c, dv, tb.radius@);
        }
    }
}

impl VirtualTrackball {
    /// The surface point a ray picks on the sphere, if any. A ray that
    /// meets the sphere always gets a point; a ray that misses it gets
    /// the fallback point unless the fallback plane is missed too (the
    /// ray runs parallel to it or its hit lies behind the eye) or the
    /// planar hit degenerates to the center itself.
    pub fn intersect(&self, ray: &Ray) -> (r: Option<RadVec3>)
        requires
            self.wf(),
            ray.wf(),
        ensures
            model_hit(self.model, ray@) is Some ==> r is Some,
            (r matches Some(p) && trackball_point(*self, ray@) matches Some(q) && p@ == q
                && p.wf()) || (r is None && trackball_point(*self, ray@) is None),
    {
        match self.model.intersect(ray) {
            Some(intersect) => Some(intersect.position),
            None => {
                let plane = Plane {
                    position: self.position.dup(),
                    normal: self.position.sub(&ray.eye),
                };
                match plane.intersect(ray).closest() {
                    Some(h) => {
                        let hit_rat = Vec3 {
                            x: h.position.x.a.dup(),
                            y: h.position.y.a.dup(),
                            z: h.position.z.a.dup(),
                        };
                        let dv = hit_rat.sub(&self.position);
                        let kk = dv.dot(&dv);
                        if kk.sign() == 0 {
                            None
                        } else {
                            proof {
                                lemma_qv_dot_self_nonneg(dv@);
                            }
                            let coef = self.radius.div(&kk);
                            Some(
                                RadVec3 {
                                    x: Radical {
                                        a: self.position.x.dup(),
                                        b: coef.mul(&dv.x),
                                        k: kk.dup(),
                                    },
                                    y: Radical {
                                        a: self.position.y.dup(),
                                        b: coef.mul(&dv.y),
                                        k: kk.dup(),
                                    },
                                    z: Radical {
                                        a: self.position.z.dup(),
                                        b: coef.mul(&dv.z),
                                        k: kk.dup(),
                                    },
                                },
                            )
                        }
                    },
                    None => None,
                }
            },
        }
    }

    /// The two exact center-relative arc vectors of a drag from `start`
    /// to `end`; a drag with equal rays is a no-op and yields nothing.
    pub fn compute(&self, start: &Ray, end: &Ray) -> (r: Option<(RadVec3, RadVec3)>)
        requires
            self.wf(),
            start.wf(),
            end.wf(),
        ensures
            qray_eq(start@, end@) ==> r is None,
            (r matches Some(p) && trackball_arc(*self, start@, end@) matches Some(q) && p.0@
                == q.0 && p.1@ == q.1 && p.0.wf() && p.1.wf()) || (r is None && trackball_arc(
                *self, start@, end@) is None),
    {
        if start.eq_val(end) {
            None
        } else {
            match (self.intersect(start), self.intersect(end)) {
                (Some(start_point), Some(end_point)) => Some(
                    (
                        start_point.sub_vec3(&self.position),
                        end_point.sub_vec3(&self.position),
                    ),
                ),
                _ => None,
            }
        }
    }

    /// Whether the ray meets the trackball's sphere model at all.
    pub fn test(&self, ray: &Ray) -> (r: bool)
        requires
            self.wf(),
            ray.wf(),
        ensures
            r == (model_hit(self.model, ray@) is Some),
    {
        self.model.intersect(ray).is_some()
    }
}

} // verus!
