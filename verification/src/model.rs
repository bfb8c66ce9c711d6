//! The scene algebra: affine transform nodes and the recursive model
//! tree, evaluated per ray by structural descent.

use vstd::prelude::*;
use crate::rat::{Rat, Q, q_int, q_eq};
use crate::vec3::{Vec3, QV3};
use crate::mat::{Mat3, Mat4, QM3, QM4, qm4_wf, qm3_wf, qm4_affine, qm4_is_id, qm4_mul,
    qm4_linear3, qm4_translation, qm3_transpose, qm4_affine_apply, qm3_det,
    qm4_cramer_inverse, lemma_cramer_inverse_identity};
use crate::raycast::{Ray, QRay, qray_wf, Intersection, QI, qi_wf, IntersectResult, QHit,
    qhit_closest, Plane, QPlane, Ball, plane_qhit, ball_qhit, qi_transform, qr_clip_dist,
    Clipped};
use crate::radical::{qr_sign, qr_lt, qrv_dist_sq};

verus! {

broadcast use
    crate::rat::group_q_zero,
    vstd::std_specs::vec::group_vec_axioms,
    vstd::seq::group_seq_axioms,
;

/// The mathematical value of a transform node: the forward affine
/// matrix, its inverse, and the normal matrix (the transpose of the
/// inverse's linear block).
pub ghost struct QTransform {
    pub affine: QM4,
    pub inverse_affine: QM4,
    pub normal: QM3,
}

/// A well-formed transform holds two affine matrices that are exact
/// inverses of each other, and the matching normal matrix.
pub open spec fn qtransform_wf(t: QTransform) -> bool {
    &&& qm4_wf(t.affine)
    &&& qm4_wf(t.inverse_affine)
    &&& qm3_wf(t.normal)
    &&& qm4_affine(t.affine)
    &&& qm4_affine(t.inverse_affine)
    &&& qm4_is_id(qm4_mul(t.affine, t.inverse_affine))
    &&& qm4_is_id(qm4_mul(t.inverse_affine, t.affine))
    &&& t.normal == qm3_transpose(qm4_linear3(t.inverse_affine))
}

/// A precomputed affine map: the forward matrix, its inverse for moving
/// rays into the local frame, and the inverse-transpose of the linear
/// block for moving normals back out.
pub struct Transform {
    pub affine: Mat4,
    pub normal: Mat3,
    pub inverse_affine: Mat4,
}

impl View for Transform {
    type V = QTransform;

    open spec fn view(&self) -> QTransform {
        QTransform {
            affine: self.affine@,
            inverse_affine: self.inverse_affine@,
            normal: self.normal@,
        }
    }
}

/// A ray moved into a transform's local frame by the inverse matrix.
pub open spec fn qtransform_fwd_ray(t: QTransform, r: QRay) -> QRay {
    QRay {
        eye: qm4_affine_apply(t.inverse_affine, r.eye),
        target: qm4_affine_apply(t.inverse_affine, r.target),
    }
}

/// A local hit moved back to the outer frame: the position by the
/// forward matrix, the normal by the normal matrix.
pub open spec fn qtransform_bwd_hit(t: QTransform, i: QI) -> QI {
    qi_transform(t.affine, t.normal, i)
}

impl Transform {
    pub open spec fn wf(&self) -> bool {
        qtransform_wf(self@)
    }

    /// Derives a transform from a single affine matrix by Cramer's
    /// rule: the inverse's columns are cross products of the linear
    /// block's rows over the determinant. Construction fails exactly on
    /// a singular linear block, and on a matrix whose last row is not
    /// `(0, 0, 0, 1)`; on every other input it succeeds, and the stored
    /// matrices are exact two-sided inverses of each other.
    pub fn new(transform: Mat4) -> (r: Option<Transform>)
        requires
            transform.wf(),
        ensures
            (r matches Some(t) ==> t.wf() && t@.affine == transform@),
            !qm4_affine(transform@) ==> r is None,
            q_eq(qm3_det(qm4_linear3(transform@)), q_int(0)) ==> r is None,
            qm4_affine(transform@) && !q_eq(qm3_det(qm4_linear3(transform@)), q_int(0))
                ==> r is Some,
    {
        if !transform.is_affine_val() {
            return None;
        }
        let l = transform.linear3();
        let c0 = l.ry.cross(&l.rz);
        let c1 = l.rz.cross(&l.rx);
        let c2 = l.rx.cross(&l.ry);
        let det = l.rx.dot(&c0);
        if det.sign() == 0 {
            return None;
        }
        let inv_l = Mat3 {
            rx: Vec3 { x: c0.x.div(&det), y: c1.x.div(&det), z: c2.x.div(&det) },
            ry: Vec3 { x: c0.y.div(&det), y: c1.y.div(&det), z: c2.y.div(&det) },
            rz: Vec3 { x: c0.z.div(&det), y: c1.z.div(&det), z: c2.z.div(&det) },
        };
        let t_inv = inv_l.apply(&transform.translation()).neg();
        let inverse_affine = Mat4 {
            rx: crate::mat::Vec4 {
                x: inv_l.rx.x.dup(),
                y: inv_l.rx.y.dup(),
                z: inv_l.rx.z.dup(),
                w: t_inv.x,
            },
            ry: crate::mat::Vec4 {
                x: inv_l.ry.x.dup(),
                y: inv_l.ry.y.dup(),
                z: inv_l.ry.z.dup(),
                w: t_inv.y,
            },
            rz: crate::mat::Vec4 {
                x: inv_l.rz.x.dup(),
                y: inv_l.rz.y.dup(),
                z: inv_l.rz.z.dup(),
                w: t_inv.z,
            },
            rw: crate::mat::Vec4 {
                x: Rat::from_int(0),
                y: Rat::from_int(0),
                z: Rat::from_int(0),
                w: Rat::from_int(1),
            },
        };
        proof {
            lemma_cramer_inverse_identity(transform@);
            assert(inverse_affine@ == qm4_cramer_inverse(transform@));
        }
        let normal = inv_l.transpose();
        Some(Transform { affine: transform, normal, inverse_affine })
    }

    /// The ray moved into the local frame by the inverse matrix.
    pub fn apply_forward(&self, ray: &Ray) -> (r: Ray)
        requires
            self.wf(),
            ray.wf(),
        ensures
            r.wf(),
            r@ == qtransform_fwd_ray(self@, ray@),
    {
        Ray {
            eye: self.inverse_affine.affine_apply(&ray.eye),
            target: self.inverse_affine.affine_apply(&ray.target),
        }
    }

    /// The local hit moved back out: the position by the forward
    /// matrix, the normal direction by the normal matrix, exactly and
    /// without renormalization.
    pub fn apply_backward(&self, intersection: &Intersection) -> (r: Intersection)
        requires
            self.wf(),
            intersection.wf(),
        ensures
            r.wf(),
            r@ == qtransform_bwd_hit(self@, intersection@),
    {
        intersection.transform(&self.affine, &self.normal)
    }
}

/// The round-trip law for a constructed transform: a ray mapped by the
/// transform's matrix and then by its stored inverse comes back with
/// its defining points unchanged, as values.
pub proof fn lemma_transform_ray_round_trip(t: Transform, r: QRay)
    requires
        t.wf(),
        qray_wf(r),
    ensures
        crate::raycast::qray_eq(
            QRay {
                eye: crate::raycast::qhom_apply(
                    t@.inverse_affine,
                    crate::raycast::qhom_apply(t@.affine, r.eye),
                ),
                target: crate::raycast::qhom_apply(
                    t@.inverse_affine,
                    crate::raycast::qhom_apply(t@.affine, r.target),
                ),
            },
            r,
        ),
{
    crate::raycast::lemma_ray_affine_round_trip(r, t@.affine, t@.inverse_affine);
}

/// A single geometric primitive of the fixed, closed set.
pub enum Primitive {
    Plane(Plane),
    Ball(Ball),
}

/// The mathematical value of a primitive.
pub ghost enum QPrimitive {
    Plane(QPlane),
    Ball(Q),
}

impl View for Primitive {
    type V = QPrimitive;

    open spec fn view(&self) -> QPrimitive {
        match self {
            Primitive::Plane(p) => QPrimitive::Plane(p@),
            Primitive::Ball(b) => QPrimitive::Ball(b@),
        }
    }
}

pub open spec fn qprim_wf(p: Primitive) -> bool {
    match p {
        Primitive::Plane(pl) => pl.wf(),
        Primitive::Ball(b) => b.wf(),
    }
}

/// A primitive's full answer to a ray query.
pub open spec fn prim_qhit(p: Primitive, r: QRay) -> QHit {
    match p {
        Primitive::Plane(pl) => plane_qhit(pl@, r),
        Primitive::Ball(b) => ball_qhit(b@, r),
    }
}

impl Primitive {
    pub open spec fn wf(&self) -> bool {
        qprim_wf(*self)
    }

    /// The primitive's answer to a ray query.
    pub fn intersect(&self, ray: &Ray) -> (r: IntersectResult)
        requires
            self.wf(),
            ray.wf(),
        ensures
            r.wf(),
            r@ == prim_qhit(*self, ray@),
    {
        match self {
            Primitive::Plane(p) => p.intersect(ray),
            Primitive::Ball(b) => b.intersect(ray),
        }
    }
}

/// A recursive, owned scene tree: primitives combined by grouping,
/// affine transformation, half-space clipping, and the boolean
/// combinators.
pub enum Model {
    Object(Primitive),
    Scene(Vec<Model>),
    Transform(Transform, Box<Model>),
    Clip(Plane, Box<Model>),
    And(Box<Model>, Box<Model>),
    Or(Box<Model>, Box<Model>),
}

/// Whether every node of a model tree is well-formed.
pub open spec fn model_wf(m: Model) -> bool
    decreases m,
{
    match m {
        Model::Object(p) => p.wf(),
        Model::Scene(list) => forall|i: int| 0 <= i < list@.len() ==> model_wf(#[trigger] list@[i]),
        Model::Transform(t, child) => t.wf() && model_wf(*child),
        Model::Clip(p, child) => p.wf() && model_wf(*child),
        Model::And(a, b) => model_wf(*a) && model_wf(*b),
        Model::Or(a, b) => model_wf(*a) && model_wf(*b),
    }
}

/// Both children must hit; the nearer of the two hits is returned.
pub open spec fn and_hit(h1: Option<QI>, h2: Option<QI>, eye: QV3) -> Option<QI> {
    match (h1, h2) {
        (Some(a), Some(b)) => if qr_lt(qrv_dist_sq(a.position, eye), qrv_dist_sq(b.position, eye)) {
            Some(a)
        } else {
            Some(b)
        },
        _ => None,
    }
}

/// The nearer hit if both children hit, else whichever child hit.
pub open spec fn or_hit(h1: Option<QI>, h2: Option<QI>, eye: QV3) -> Option<QI> {
    match (h1, h2) {
        (Some(a), Some(b)) => if qr_lt(qrv_dist_sq(a.position, eye), qrv_dist_sq(b.position, eye)) {
            Some(a)
        } else {
            Some(b)
        },
        (Some(a), None) => Some(a),
        (None, Some(b)) => Some(b),
        (None, None) => None,
    }
}

/// A running best hit folded with one more child's answer: the new hit
/// replaces the best only when it is strictly nearer, so the first of
/// several equally near children wins.
pub open spec fn scene_combine(best: Option<QI>, h: Option<QI>, eye: QV3) -> Option<QI> {
    match (best, h) {
        (None, x) => x,
        (Some(a), None) => Some(a),
        (Some(a), Some(b)) => if qr_lt(qrv_dist_sq(b.position, eye), qrv_dist_sq(a.position, eye)) {
            Some(b)
        } else {
            Some(a)
        },
    }
}

/// The nearest hit among a list of children, each queried with the
/// original ray.
pub open spec fn scene_hit(s: Seq<Model>, r: QRay) -> Option<QI>
    decreases s,
{
    if s.len() == 0 {
        None
    } else {
        scene_combine(scene_hit(s.drop_last(), r), model_hit(s.last(), r), r.eye)
    }
}

/// The nearest qualifying hit of a model tree for a ray, by structural
/// recursion: primitives answer directly; a scene takes the nearest
/// child hit; a transform node queries its child in the local frame and
/// maps the hit back; a clip node discards hits outside its half-space;
/// `And` needs both children to hit and `Or` either, both returning the
/// nearer hit when both are present.
pub open spec fn model_hit(m: Model, r: QRay) -> Option<QI>
    decreases m,
{
    match m {
        Model::Object(p) => qhit_closest(prim_qhit(p, r)),
        Model::Scene(list) => scene_hit(list@, r),
        Model::Transform(t, child) => match model_hit(*child, qtransform_fwd_ray(t@, r)) {
            Some(h) => Some(qtransform_bwd_hit(t@, h)),
            None => None,
        },
        Model::Clip(p, child) => match model_hit(*child, r) {
            Some(h) => if qr_sign(qr_clip_dist(h.position, p@)) >= 0 {
                Some(h)
            } else {
                None
            },
            None => None,
        },
        Model::And(a, b) => and_hit(model_hit(*a, r), model_hit(*b, r), r.eye),
        Model::Or(a, b) => or_hit(model_hit(*a, r), model_hit(*b, r), r.eye),
    }
}

/// The view of an optional exec hit.
pub open spec fn opt_hit_view(r: Option<Intersection>) -> Option<QI> {
    match r {
        Some(i) => Some(i@),
        None => None,
    }
}

pub open spec fn opt_hit_wf(r: Option<Intersection>) -> bool {
    match r {
        Some(i) => i.wf(),
        None => true,
    }
}

impl Model {
    pub open spec fn wf(&self) -> bool {
        model_wf(*self)
    }

    /// The nearest qualifying hit of the tree for the ray, if any.
    pub fn intersect(&self, ray: &Ray) -> (r: Option<Intersection>)
        requires
            self.wf(),
            ray.wf(),
        ensures
            opt_hit_wf(r),
            opt_hit_view(r) == model_hit(*self, ray@),
        decreases *self,
    {
        match self {
            Model::Object(object) => object.intersect(ray).closest(),
            Model::Scene(list) => {
                let mut best: Option<Intersection> = None;
                let ghost s = list@;
                let mut i: usize = 0;
                proof {
                    assert(s.subrange(0, 0) =~= Seq::<Model>::empty());
                }
                while i < list.len()
                    invariant
                        0 <= i <= list.len(),
                        s == list@,
                        self.wf(),
                        ray.wf(),
                        *self == Model::Scene(*list),
                        opt_hit_wf(best),
                        opt_hit_view(best) == scene_hit(s.subrange(0, i as int), ray@),
                    decreases list.len() - i,
                {
                    proof {
                        assert(*self == Model::Scene(*list));
                        assert(model_wf(Model::Scene(*list)));
                        assert(self->Scene_0 == *list);
                        assert(forall|j: int| 0 <= j < list@.len() ==> model_wf(
                            #[trigger] list@[j],
                        ));
                        assert(model_wf(list@[i as int]));
                        assert(decreases_to!(*self => self->Scene_0));
                        assert(decreases_to!(*list => list@));
                        assert(decreases_to!(list@ => list@[i as int]));
                        assert(decreases_to!(*self => list@[i as int]));
                    }
                    let h = list[i].intersect(ray);
                    let replace = match (&best, &h) {
                        (None, _) => true,
                        (Some(_), None) => false,
                        (Some(a), Some(b)) => b.distance_sq(ray).lt(&a.distance_sq(ray)),
                    };
                    proof {
                        let pre = s.subrange(0, i as int);
                        let post = s.subrange(0, i + 1 as int);
                        assert(post.drop_last() =~= pre);
                        assert(post.last() == s[i as int]);
                    }
                    if replace {
                        best = h;
                    }
                    i = i + 1;
                }
                proof {
                    assert(s.subrange(0, s.len() as int) =~= s);
                }
                best
            },
            Model::Transform(transform, model) => {
                let transformed = transform.apply_forward(ray);
                match model.intersect(&transformed) {
                    Some(h) => Some(transform.apply_backward(&h)),
                    None => None,
                }
            },
            Model::Clip(plane, model) => {
                match model.intersect(ray) {
                    Some(intersect) => {
                        if let Clipped::Inside(_) = intersect.position.dup().clip(plane) {
                            Some(intersect)
                        } else {
                            None
                        }
                    },
                    None => None,
                }
            },
            Model::And(a, b) => {
                let h1 = a.intersect(ray);
                let h2 = b.intersect(ray);
                match (h1, h2) {
                    (Some(i1), Some(i2)) => {
                        if i1.distance_sq(ray).lt(&i2.distance_sq(ray)) {
                            Some(i1)
                        } else {
                            Some(i2)
                        }
                    },
                    _ => None,
                }
            },
            Model::Or(a, b) => {
                let h1 = a.intersect(ray);
                let h2 = b.intersect(ray);
                match (h1, h2) {
                    (Some(i1), Some(i2)) => {
                        if i1.distance_sq(ray).lt(&i2.distance_sq(ray)) {
                            Some(i1)
                        } else {
                            Some(i2)
                        }
                    },
                    (Some(i1), None) => Some(i1),
                    (None, Some(i2)) => Some(i2),
                    (None, None) => None,
                }
            },
        }
    }
}

/// When both children hit, `And` and `Or` agree: both return the nearer
/// of the two hits, so `And` never returns a farther hit than `Or`.
pub proof fn lemma_and_no_farther_than_or(m_and: Model, m_or: Model, a: Model, b: Model, r: QRay)
    requires
        (m_and matches Model::And(x, y) && *x == a && *y == b),
        (m_or matches Model::Or(x, y) && *x == a && *y == b),
        model_hit(a, r) is Some,
        model_hit(b, r) is Some,
    ensures
        model_hit(m_and, r) == model_hit(m_or, r),
        model_hit(m_and, r) is Some,
{
}

/// `Or` never misses when at least one child hits.
pub proof fn lemma_or_hits_when_either_hits(m_or: Model, a: Model, b: Model, r: QRay)
    requires
        (m_or matches Model::Or(x, y) && *x == a && *y == b),
        model_hit(a, r) is Some || model_hit(b, r) is Some,
    ensures
        model_hit(m_or, r) is Some,
{
}

} // verus!
