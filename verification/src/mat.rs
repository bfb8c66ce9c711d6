//! Exact 3x3 and 4x4 matrices, stored row by row.
//!
//! A `Mat4` is read as an affine map by splitting it into its upper-left
//! 3x3 linear block and the translation column; its fourth row only
//! matters for the full homogeneous application used by `Ray::transform`
//! and for the affinity test of `Transform`.

use vstd::prelude::*;
use crate::rat::{Rat, Q, q_wf, q_int, q_add, q_mul, q_eq, q_div, q_neg};
use crate::vec3::{Vec3, QV3, qv_wf, qv_add, qv_dot, qv_cross, qv_neg, lemma_q_div_wf,
    lemma_qv_cross_wf, lemma_qv_dot_wf, lemma_qv_dot_div3, lemma_qv_dot_neg,
    lemma_qv_cross_orthogonal, lemma_qv_triple_rotate};

verus! {

/// The mathematical value of a four-component row.
pub ghost struct QV4 {
    pub x: Q,
    pub y: Q,
    pub z: Q,
    pub w: Q,
}

pub open spec fn qv4_wf(v: QV4) -> bool {
    q_wf(v.x) && q_wf(v.y) && q_wf(v.z) && q_wf(v.w)
}

pub open spec fn qv4_dot(u: QV4, v: QV4) -> Q {
    q_add(q_add(q_add(q_mul(u.x, v.x), q_mul(u.y, v.y)), q_mul(u.z, v.z)), q_mul(u.w, v.w))
}

pub ghost struct QM3 {
    pub rx: QV3,
    pub ry: QV3,
    pub rz: QV3,
}

pub open spec fn qm3_wf(m: QM3) -> bool {
    qv_wf(m.rx) && qv_wf(m.ry) && qv_wf(m.rz)
}

/// The matrix applied to a column vector.
pub open spec fn qm3_apply(m: QM3, v: QV3) -> QV3 {
    QV3 { x: qv_dot(m.rx, v), y: qv_dot(m.ry, v), z: qv_dot(m.rz, v) }
}

pub open spec fn qm3_transpose(m: QM3) -> QM3 {
    QM3 {
        rx: QV3 { x: m.rx.x, y: m.ry.x, z: m.rz.x },
        ry: QV3 { x: m.rx.y, y: m.ry.y, z: m.rz.y },
        rz: QV3 { x: m.rx.z, y: m.ry.z, z: m.rz.z },
    }
}

pub ghost struct QM4 {
    pub rx: QV4,
    pub ry: QV4,
    pub rz: QV4,
    pub rw: QV4,
}

pub open spec fn qm4_wf(m: QM4) -> bool {
    qv4_wf(m.rx) && qv4_wf(m.ry) && qv4_wf(m.rz) && qv4_wf(m.rw)
}

/// The upper-left 3x3 linear block.
pub open spec fn qm4_linear3(m: QM4) -> QM3 {
    QM3 {
        rx: QV3 { x: m.rx.x, y: m.rx.y, z: m.rx.z },
        ry: QV3 { x: m.ry.x, y: m.ry.y, z: m.ry.z },
        rz: QV3 { x: m.rz.x, y: m.rz.y, z: m.rz.z },
    }
}

/// The translation column.
pub open spec fn qm4_translation(m: QM4) -> QV3 {
    QV3 { x: m.rx.w, y: m.ry.w, z: m.rz.w }
}

/// Whether the last row holds, as values, `(0, 0, 0, 1)`: the matrix is
/// then an affine map of points.
pub open spec fn qm4_affine(m: QM4) -> bool {
    q_eq(m.rw.x, q_int(0)) && q_eq(m.rw.y, q_int(0)) && q_eq(m.rw.z, q_int(0))
        && q_eq(m.rw.w, q_int(1))
}

/// The affine reading of the matrix applied to a point: the linear block
/// times the point, plus the translation column.
pub open spec fn qm4_affine_apply(m: QM4, p: QV3) -> QV3 {
    qv_add(qm3_apply(qm4_linear3(m), p), qm4_translation(m))
}

pub open spec fn qm4_transpose(m: QM4) -> QM4 {
    QM4 {
        rx: QV4 { x: m.rx.x, y: m.ry.x, z: m.rz.x, w: m.rw.x },
        ry: QV4 { x: m.rx.y, y: m.ry.y, z: m.rz.y, w: m.rw.y },
        rz: QV4 { x: m.rx.z, y: m.ry.z, z: m.rz.z, w: m.rw.z },
        rw: QV4 { x: m.rx.w, y: m.ry.w, z: m.rz.w, w: m.rw.w },
    }
}

pub open spec fn qm4_mul_row(r: QV4, bt: QM4) -> QV4 {
    QV4 { x: qv4_dot(r, bt.rx), y: qv4_dot(r, bt.ry), z: qv4_dot(r, bt.rz), w: qv4_dot(r, bt.rw) }
}

pub open spec fn qm4_mul(a: QM4, b: QM4) -> QM4 {
    QM4 {
        rx: qm4_mul_row(a.rx, qm4_transpose(b)),
        ry: qm4_mul_row(a.ry, qm4_transpose(b)),
        rz: qm4_mul_row(a.rz, qm4_transpose(b)),
        rw: qm4_mul_row(a.rw, qm4_transpose(b)),
    }
}

/// Whether the matrix holds, as values, the identity.
pub open spec fn qm4_is_id(m: QM4) -> bool {
    q_eq(m.rx.x, q_int(1)) && q_eq(m.rx.y, q_int(0)) && q_eq(m.rx.z, q_int(0)) && q_eq(m.rx.w, q_int(0))
        && q_eq(m.ry.x, q_int(0)) && q_eq(m.ry.y, q_int(1)) && q_eq(m.ry.z, q_int(0)) && q_eq(m.ry.w, q_int(0))
        && q_eq(m.rz.x, q_int(0)) && q_eq(m.rz.y, q_int(0)) && q_eq(m.rz.z, q_int(1)) && q_eq(m.rz.w, q_int(0))
        && q_eq(m.rw.x, q_int(0)) && q_eq(m.rw.y, q_int(0)) && q_eq(m.rw.z, q_int(0)) && q_eq(m.rw.w, q_int(1))
}

/// The affine matrix translating every point by `v`.
pub open spec fn qm4_from_translation(v: QV3) -> QM4 {
    QM4 {
        rx: QV4 { x: q_int(1), y: q_int(0), z: q_int(0), w: v.x },
        ry: QV4 { x: q_int(0), y: q_int(1), z: q_int(0), w: v.y },
        rz: QV4 { x: q_int(0), y: q_int(0), z: q_int(1), w: v.z },
        rw: QV4 { x: q_int(0), y: q_int(0), z: q_int(0), w: q_int(1) },
    }
}

/// A matrix applied to a point is the combination of its columns
/// weighted by the point's components, structurally.
pub proof fn lemma_qm3_apply_columns(m: QM3, p: QV3)
    ensures
        qm3_apply(m, p) == crate::vec3::qv_add(
            crate::vec3::qv_add(
                crate::vec3::qv_scale(p.x, qm3_transpose(m).rx),
                crate::vec3::qv_scale(p.y, qm3_transpose(m).ry),
            ),
            crate::vec3::qv_scale(p.z, qm3_transpose(m).rz),
        ),
{
    crate::rat::lemma_q_mul_comm(m.rx.x, p.x);
    crate::rat::lemma_q_mul_comm(m.rx.y, p.y);
    crate::rat::lemma_q_mul_comm(m.rx.z, p.z);
    crate::rat::lemma_q_mul_comm(m.ry.x, p.x);
    crate::rat::lemma_q_mul_comm(m.ry.y, p.y);
    crate::rat::lemma_q_mul_comm(m.ry.z, p.z);
    crate::rat::lemma_q_mul_comm(m.rz.x, p.x);
    crate::rat::lemma_q_mul_comm(m.rz.y, p.y);
    crate::rat::lemma_q_mul_comm(m.rz.z, p.z);
}

/// A row dotted with a matrix-applied point expands into the point's
/// components weighted by the row's dots with the matrix's columns.
pub proof fn lemma_dot_apply_expand(r: QV3, la: QM3, p: QV3)
    requires
        qv_wf(r),
        qm3_wf(la),
        qv_wf(p),
    ensures
        q_eq(
            qv_dot(r, qm3_apply(la, p)),
            q_add(
                q_add(
                    q_mul(p.x, qv_dot(r, qm3_transpose(la).rx)),
                    q_mul(p.y, qv_dot(r, qm3_transpose(la).ry)),
                ),
                q_mul(p.z, qv_dot(r, qm3_transpose(la).rz)),
            ),
        ),
{
    let cx = qm3_transpose(la).rx;
    let cy = qm3_transpose(la).ry;
    let cz = qm3_transpose(la).rz;
    let s1 = crate::vec3::qv_scale(p.x, cx);
    let s2 = crate::vec3::qv_scale(p.y, cy);
    let s3 = crate::vec3::qv_scale(p.z, cz);
    lemma_qm3_apply_columns(la, p);
    crate::vec3::lemma_qv_scale_wf(p.x, cx);
    crate::vec3::lemma_qv_scale_wf(p.y, cy);
    crate::vec3::lemma_qv_scale_wf(p.z, cz);
    crate::vec3::lemma_qv_add_wf(s1, s2);
    crate::vec3::lemma_qv_dot_add(crate::vec3::qv_add(s1, s2), s3, r);
    crate::vec3::lemma_qv_dot_add(s1, s2, r);
    crate::vec3::lemma_qv_dot_scale(p.x, cx, r);
    crate::vec3::lemma_qv_dot_scale(p.y, cy, r);
    crate::vec3::lemma_qv_dot_scale(p.z, cz, r);
    crate::vec3::lemma_qv_dot_comm(cx, r);
    crate::vec3::lemma_qv_dot_comm(cy, r);
    crate::vec3::lemma_qv_dot_comm(cz, r);
    crate::vec3::lemma_qv_dot_comm(crate::vec3::qv_add(crate::vec3::qv_add(s1, s2), s3), r);
    crate::vec3::lemma_qv_dot_wf(s1, r);
    crate::vec3::lemma_qv_dot_wf(s2, r);
    crate::vec3::lemma_qv_dot_wf(s3, r);
    crate::vec3::lemma_qv_dot_wf(cx, r);
    crate::vec3::lemma_qv_dot_wf(cy, r);
    crate::vec3::lemma_qv_dot_wf(cz, r);
    crate::vec3::lemma_qv_add_wf(crate::vec3::qv_add(s1, s2), s3);
    crate::vec3::lemma_qv_dot_wf(crate::vec3::qv_add(s1, s2), r);
    crate::vec3::lemma_qv_dot_wf(crate::vec3::qv_add(crate::vec3::qv_add(s1, s2), s3), r);
    crate::rat::lemma_q_ops_wf(p.x, qv_dot(cx, r));
    crate::rat::lemma_q_ops_wf(p.y, qv_dot(cy, r));
    crate::rat::lemma_q_ops_wf(p.z, qv_dot(cz, r));
    crate::rat::lemma_q_add_congr(
        qv_dot(s1, r),
        qv_dot(s2, r),
        q_mul(p.x, qv_dot(cx, r)),
        q_mul(p.y, qv_dot(cy, r)),
    );
    crate::rat::lemma_q_ops_wf(qv_dot(s1, r), qv_dot(s2, r));
    crate::rat::lemma_q_ops_wf(q_mul(p.x, qv_dot(cx, r)), q_mul(p.y, qv_dot(cy, r)));
    crate::rat::lemma_q_eq_trans(
        qv_dot(crate::vec3::qv_add(s1, s2), r),
        q_add(qv_dot(s1, r), qv_dot(s2, r)),
        q_add(q_mul(p.x, qv_dot(cx, r)), q_mul(p.y, qv_dot(cy, r))),
    );
    crate::rat::lemma_q_add_congr(
        qv_dot(crate::vec3::qv_add(s1, s2), r),
        qv_dot(s3, r),
        q_add(q_mul(p.x, qv_dot(cx, r)), q_mul(p.y, qv_dot(cy, r))),
        q_mul(p.z, qv_dot(cz, r)),
    );
    crate::rat::lemma_q_ops_wf(qv_dot(crate::vec3::qv_add(s1, s2), r), qv_dot(s3, r));
    crate::rat::lemma_q_ops_wf(
        q_add(q_mul(p.x, qv_dot(cx, r)), q_mul(p.y, qv_dot(cy, r))),
        q_mul(p.z, qv_dot(cz, r)),
    );
    crate::rat::lemma_q_eq_trans(
        qv_dot(crate::vec3::qv_add(crate::vec3::qv_add(s1, s2), s3), r),
        q_add(qv_dot(crate::vec3::qv_add(s1, s2), r), qv_dot(s3, r)),
        q_add(
            q_add(q_mul(p.x, qv_dot(cx, r)), q_mul(p.y, qv_dot(cy, r))),
            q_mul(p.z, qv_dot(cz, r)),
        ),
    );
}

/// A four-component product entry whose last factor pairs with a
/// zero-valued weight reduces to its three-component part.
proof fn lemma_entry_drop_zero_w(u3: QV3, c3: QV3, uw: Q, cw: Q, target: Q)
    requires
        qv_wf(u3),
        qv_wf(c3),
        q_wf(uw),
        q_wf(cw),
        q_wf(target),
        q_eq(cw, q_int(0)),
        q_eq(q_add(qv_dot(u3, c3), q_mul(uw, cw)), target),
    ensures
        q_eq(qv_dot(u3, c3), target),
{
    crate::rat::lemma_q_mul_zero_val(uw, cw);
    crate::rat::lemma_q_eq_zero(q_mul(uw, cw));
    crate::rat::lemma_q_add_zero_right(qv_dot(u3, c3), q_mul(uw, cw));
    crate::vec3::lemma_qv_dot_wf(u3, c3);
    crate::rat::lemma_q_ops_wf(uw, cw);
    crate::rat::lemma_q_ops_wf(qv_dot(u3, c3), q_mul(uw, cw));
    crate::rat::lemma_q_eq_sym(q_add(qv_dot(u3, c3), q_mul(uw, cw)), qv_dot(u3, c3));
    crate::rat::lemma_q_eq_trans(
        qv_dot(u3, c3),
        q_add(qv_dot(u3, c3), q_mul(uw, cw)),
        target,
    );
}

/// A four-component product entry whose last factor pairs with a
/// one-valued weight reduces to its three-component part plus the
/// weight's partner.
proof fn lemma_entry_keep_w(u3: QV3, c3: QV3, uw: Q, cw: Q, target: Q)
    requires
        qv_wf(u3),
        qv_wf(c3),
        q_wf(uw),
        q_wf(cw),
        q_wf(target),
        q_eq(cw, q_int(1)),
        q_eq(q_add(qv_dot(u3, c3), q_mul(uw, cw)), target),
    ensures
        q_eq(q_add(qv_dot(u3, c3), uw), target),
{
    crate::rat::lemma_q_mul_one_val(uw, cw);
    crate::vec3::lemma_qv_dot_wf(u3, c3);
    crate::rat::lemma_q_eq_refl(qv_dot(u3, c3));
    crate::rat::lemma_q_ops_wf(uw, cw);
    crate::rat::lemma_q_add_congr(qv_dot(u3, c3), q_mul(uw, cw), qv_dot(u3, c3), uw);
    crate::rat::lemma_q_ops_wf(qv_dot(u3, c3), q_mul(uw, cw));
    crate::rat::lemma_q_ops_wf(qv_dot(u3, c3), uw);
    crate::rat::lemma_q_eq_sym(
        q_add(qv_dot(u3, c3), q_mul(uw, cw)),
        q_add(qv_dot(u3, c3), uw),
    );
    crate::rat::lemma_q_eq_trans(
        q_add(qv_dot(u3, c3), uw),
        q_add(qv_dot(u3, c3), q_mul(uw, cw)),
        target,
    );
}

/// What an exact identity product of two affine matrices says about
/// their linear blocks and translations: the rows of one block against
/// the columns of the other give the identity pattern, and each row
/// against the other's translation cancels that row's own translation
/// entry.
pub proof fn lemma_affine_product_facts(ia: QM4, a: QM4)
    requires
        qm4_wf(ia),
        qm4_wf(a),
        qm4_affine(ia),
        qm4_affine(a),
        qm4_is_id(qm4_mul(ia, a)),
    ensures
        q_eq(qv_dot(qm4_linear3(ia).rx, qm3_transpose(qm4_linear3(a)).rx), q_int(1)),
        q_eq(qv_dot(qm4_linear3(ia).rx, qm3_transpose(qm4_linear3(a)).ry), q_int(0)),
        q_eq(qv_dot(qm4_linear3(ia).rx, qm3_transpose(qm4_linear3(a)).rz), q_int(0)),
        q_eq(qv_dot(qm4_linear3(ia).ry, qm3_transpose(qm4_linear3(a)).rx), q_int(0)),
        q_eq(qv_dot(qm4_linear3(ia).ry, qm3_transpose(qm4_linear3(a)).ry), q_int(1)),
        q_eq(qv_dot(qm4_linear3(ia).ry, qm3_transpose(qm4_linear3(a)).rz), q_int(0)),
        q_eq(qv_dot(qm4_linear3(ia).rz, qm3_transpose(qm4_linear3(a)).rx), q_int(0)),
        q_eq(qv_dot(qm4_linear3(ia).rz, qm3_transpose(qm4_linear3(a)).ry), q_int(0)),
        q_eq(qv_dot(qm4_linear3(ia).rz, qm3_transpose(qm4_linear3(a)).rz), q_int(1)),
        q_eq(q_add(qv_dot(qm4_linear3(ia).rx, qm4_translation(a)), ia.rx.w), q_int(0)),
        q_eq(q_add(qv_dot(qm4_linear3(ia).ry, qm4_translation(a)), ia.ry.w), q_int(0)),
        q_eq(q_add(qv_dot(qm4_linear3(ia).rz, qm4_translation(a)), ia.rz.w), q_int(0)),
{
    let li = qm4_linear3(ia);
    let ca = qm3_transpose(qm4_linear3(a));
    let ta = qm4_translation(a);
    lemma_entry_drop_zero_w(li.rx, ca.rx, ia.rx.w, a.rw.x, q_int(1));
    lemma_entry_drop_zero_w(li.rx, ca.ry, ia.rx.w, a.rw.y, q_int(0));
    lemma_entry_drop_zero_w(li.rx, ca.rz, ia.rx.w, a.rw.z, q_int(0));
    lemma_entry_drop_zero_w(li.ry, ca.rx, ia.ry.w, a.rw.x, q_int(0));
    lemma_entry_drop_zero_w(li.ry, ca.ry, ia.ry.w, a.rw.y, q_int(1));
    lemma_entry_drop_zero_w(li.ry, ca.rz, ia.ry.w, a.rw.z, q_int(0));
    lemma_entry_drop_zero_w(li.rz, ca.rx, ia.rz.w, a.rw.x, q_int(0));
    lemma_entry_drop_zero_w(li.rz, ca.ry, ia.rz.w, a.rw.y, q_int(0));
    lemma_entry_drop_zero_w(li.rz, ca.rz, ia.rz.w, a.rw.z, q_int(1));
    lemma_entry_keep_w(li.rx, ta, ia.rx.w, a.rw.w, q_int(0));
    lemma_entry_keep_w(li.ry, ta, ia.ry.w, a.rw.w, q_int(0));
    lemma_entry_keep_w(li.rz, ta, ia.rz.w, a.rw.w, q_int(0));
}

/// The determinant of a 3x3 matrix: the scalar triple product of its
/// rows.
pub open spec fn qm3_det(m: QM3) -> Q {
    qv_dot(m.rx, qv_cross(m.ry, m.rz))
}

/// The inverse of a 3x3 block by Cramer's rule: its columns are the
/// cross products of pairs of the block's rows, divided by the
/// determinant.
pub open spec fn qm3_cramer_inverse(l: QM3) -> QM3 {
    let c0 = qv_cross(l.ry, l.rz);
    let c1 = qv_cross(l.rz, l.rx);
    let c2 = qv_cross(l.rx, l.ry);
    let det = qv_dot(l.rx, c0);
    QM3 {
        rx: QV3 { x: q_div(c0.x, det), y: q_div(c1.x, det), z: q_div(c2.x, det) },
        ry: QV3 { x: q_div(c0.y, det), y: q_div(c1.y, det), z: q_div(c2.y, det) },
        rz: QV3 { x: q_div(c0.z, det), y: q_div(c1.z, det), z: q_div(c2.z, det) },
    }
}

/// The affine inverse built from the Cramer inverse of the linear
/// block, with the counter-translation and an exact affine last row.
pub open spec fn qm4_cramer_inverse(m: QM4) -> QM4 {
    let inv = qm3_cramer_inverse(qm4_linear3(m));
    let t = qv_neg(qm3_apply(inv, qm4_translation(m)));
    QM4 {
        rx: QV4 { x: inv.rx.x, y: inv.rx.y, z: inv.rx.z, w: t.x },
        ry: QV4 { x: inv.ry.x, y: inv.ry.y, z: inv.ry.z, w: t.y },
        rz: QV4 { x: inv.rz.x, y: inv.rz.y, z: inv.rz.z, w: t.z },
        rw: QV4 { x: q_int(0), y: q_int(0), z: q_int(0), w: q_int(1) },
    }
}

/// The determinant is invariant under transposition.
pub proof fn lemma_qm3_det_transpose(l: QM3)
    requires
        qm3_wf(l),
    ensures
        q_eq(qm3_det(qm3_transpose(l)), qm3_det(l)),
{
    let t = qm3_transpose(l);
    crate::vec3::lemma_qv_triple_expand(t.rx, t.ry, t.rz);
    crate::vec3::lemma_qv_triple_expand(l.rx, l.ry, l.rz);
    crate::vec3::lemma_triple_merge(t.rx, t.ry, t.rz);
    crate::vec3::lemma_triple_merge(l.rx, l.ry, l.rz);
    crate::rat::lemma_q_mul3_perms(l.rx.z, l.ry.x, l.rz.y);
    crate::rat::lemma_q_mul3_perms(l.rx.y, l.ry.z, l.rz.x);
    crate::rat::lemma_q_mul3_perms(l.rx.x, l.ry.z, l.rz.y);
    crate::rat::lemma_q_mul3_perms(l.rx.y, l.ry.x, l.rz.z);
    crate::rat::lemma_q_mul3_perms(l.rx.z, l.ry.y, l.rz.x);
    let m1 = q_mul(l.rx.x, q_mul(l.ry.y, l.rz.z));
    let m2 = q_mul(l.rx.y, q_mul(l.ry.z, l.rz.x));
    let m3 = q_mul(l.rx.z, q_mul(l.ry.x, l.rz.y));
    let n1 = q_mul(l.rx.x, q_mul(l.ry.z, l.rz.y));
    let n2 = q_mul(l.rx.y, q_mul(l.ry.x, l.rz.z));
    let n3 = q_mul(l.rx.z, q_mul(l.ry.y, l.rz.x));
    crate::vec3::lemma_triple_terms_wf(l.rx, l.ry, l.rz);
    crate::vec3::lemma_triple_terms_wf(t.rx, t.ry, t.rz);
    crate::rat::lemma_q_add3_swap23(m1, m3, m2);
    crate::rat::lemma_q_ops_wf(m1, m2);
    crate::rat::lemma_q_ops_wf(q_add(m1, m2), m3);
    crate::rat::lemma_q_ops_wf(m1, m3);
    crate::rat::lemma_q_ops_wf(q_add(m1, m3), m2);
    crate::rat::lemma_q_ops_wf(n1, n2);
    crate::rat::lemma_q_ops_wf(q_add(n1, n2), n3);
    crate::rat::lemma_q_eq_refl(q_add(q_add(n1, n2), n3));
    crate::rat::lemma_q_sub_congr(
        q_add(q_add(m1, m3), m2),
        q_add(q_add(n1, n2), n3),
        q_add(q_add(m1, m2), m3),
        q_add(q_add(n1, n2), n3),
    );
    crate::rat::lemma_q_ops_wf(q_add(q_add(m1, m3), m2), q_add(q_add(n1, n2), n3));
    crate::rat::lemma_q_ops_wf(q_add(q_add(m1, m2), m3), q_add(q_add(n1, n2), n3));
    crate::rat::lemma_q_eq_trans(
        crate::vec3::qv_triple_terms(t.rx, t.ry, t.rz),
        crate::rat::q_sub(q_add(q_add(m1, m3), m2), q_add(q_add(n1, n2), n3)),
        crate::rat::q_sub(q_add(q_add(m1, m2), m3), q_add(q_add(n1, n2), n3)),
    );
    crate::rat::lemma_q_eq_sym(
        crate::vec3::qv_triple_terms(l.rx, l.ry, l.rz),
        crate::rat::q_sub(q_add(q_add(m1, m2), m3), q_add(q_add(n1, n2), n3)),
    );
    lemma_qv_cross_wf(t.ry, t.rz);
    lemma_qv_cross_wf(l.ry, l.rz);
    lemma_qv_dot_wf(t.rx, qv_cross(t.ry, t.rz));
    lemma_qv_dot_wf(l.rx, qv_cross(l.ry, l.rz));
    crate::rat::lemma_q_eq_trans(
        qm3_det(t),
        crate::vec3::qv_triple_terms(t.rx, t.ry, t.rz),
        crate::rat::q_sub(q_add(q_add(m1, m2), m3), q_add(q_add(n1, n2), n3)),
    );
    crate::rat::lemma_q_eq_trans(
        qm3_det(t),
        crate::rat::q_sub(q_add(q_add(m1, m2), m3), q_add(q_add(n1, n2), n3)),
        crate::vec3::qv_triple_terms(l.rx, l.ry, l.rz),
    );
    crate::rat::lemma_q_eq_sym(qm3_det(l), crate::vec3::qv_triple_terms(l.rx, l.ry, l.rz));
    crate::rat::lemma_q_eq_trans(
        qm3_det(t),
        crate::vec3::qv_triple_terms(l.rx, l.ry, l.rz),
        qm3_det(l),
    );
}

/// The rows of the Cramer inverse's numerator, read across the three
/// cross products, are themselves cross products of the block's
/// columns, structurally.
proof fn lemma_cramer_rows_are_column_crosses(l: QM3)
    ensures
        (QV3 {
            x: qv_cross(l.ry, l.rz).x,
            y: qv_cross(l.rz, l.rx).x,
            z: qv_cross(l.rx, l.ry).x,
        }) == qv_cross(qm3_transpose(l).ry, qm3_transpose(l).rz),
        (QV3 {
            x: qv_cross(l.ry, l.rz).y,
            y: qv_cross(l.rz, l.rx).y,
            z: qv_cross(l.rx, l.ry).y,
        }) == qv_cross(qm3_transpose(l).rz, qm3_transpose(l).rx),
        (QV3 {
            x: qv_cross(l.ry, l.rz).z,
            y: qv_cross(l.rz, l.rx).z,
            z: qv_cross(l.rx, l.ry).z,
        }) == qv_cross(qm3_transpose(l).rx, qm3_transpose(l).ry),
{
    crate::rat::lemma_q_mul_comm(l.ry.z, l.rz.y);
    crate::rat::lemma_q_mul_comm(l.rz.z, l.rx.y);
    crate::rat::lemma_q_mul_comm(l.rx.z, l.ry.y);
    crate::rat::lemma_q_mul_comm(l.ry.x, l.rz.z);
    crate::rat::lemma_q_mul_comm(l.rz.x, l.rx.z);
    crate::rat::lemma_q_mul_comm(l.rx.x, l.ry.z);
    crate::rat::lemma_q_mul_comm(l.ry.y, l.rz.x);
    crate::rat::lemma_q_mul_comm(l.rz.y, l.rx.x);
    crate::rat::lemma_q_mul_comm(l.rx.y, l.ry.x);
    crate::rat::lemma_q_mul_comm(l.ry.z, l.rz.x);
    crate::rat::lemma_q_mul_comm(l.rz.z, l.rx.x);
    crate::rat::lemma_q_mul_comm(l.rx.z, l.ry.x);
    crate::rat::lemma_q_mul_comm(l.ry.x, l.rz.y);
    crate::rat::lemma_q_mul_comm(l.rz.x, l.rx.y);
    crate::rat::lemma_q_mul_comm(l.rx.x, l.ry.y);
    crate::rat::lemma_q_mul_comm(l.ry.y, l.rz.z);
    crate::rat::lemma_q_mul_comm(l.rz.y, l.rx.z);
    crate::rat::lemma_q_mul_comm(l.rx.y, l.ry.z);
}

/// A forward product entry against a Cramer column: the divided dot
/// plus a vanishing exact-zero weight.
proof fn lemma_fwd_entry(u3: QV3, uw: Q, cv: QV3, det: Q)
    requires
        qv_wf(u3),
        q_wf(uw),
        qv_wf(cv),
        q_wf(det),
        det.n != 0,
    ensures
        q_eq(
            q_add(
                qv_dot(
                    u3,
                    QV3 { x: q_div(cv.x, det), y: q_div(cv.y, det), z: q_div(cv.z, det) },
                ),
                q_mul(uw, q_int(0)),
            ),
            q_div(qv_dot(u3, cv), det),
        ),
        q_wf(q_div(qv_dot(u3, cv), det)),
        q_wf(
            q_add(
                qv_dot(
                    u3,
                    QV3 { x: q_div(cv.x, det), y: q_div(cv.y, det), z: q_div(cv.z, det) },
                ),
                q_mul(uw, q_int(0)),
            ),
        ),
{
    lemma_qv_dot_div3(u3, cv, det);
    assert(q_mul(uw, q_int(0)).n == 0) by (nonlinear_arith);
    lemma_q_div_wf(cv.x, det);
    lemma_q_div_wf(cv.y, det);
    lemma_q_div_wf(cv.z, det);
    let dv = QV3 { x: q_div(cv.x, det), y: q_div(cv.y, det), z: q_div(cv.z, det) };
    lemma_qv_dot_wf(u3, dv);
    lemma_qv_dot_wf(u3, cv);
    lemma_q_div_wf(qv_dot(u3, cv), det);
    crate::rat::lemma_q_add_zero_right(qv_dot(u3, dv), q_mul(uw, q_int(0)));
    crate::rat::lemma_q_ops_wf(uw, q_int(0));
    crate::rat::lemma_q_ops_wf(qv_dot(u3, dv), q_mul(uw, q_int(0)));
    crate::rat::lemma_q_eq_trans(
        q_add(qv_dot(u3, dv), q_mul(uw, q_int(0))),
        qv_dot(u3, dv),
        q_div(qv_dot(u3, cv), det),
    );
}

/// A reverse product entry against a Cramer row: the divided dot plus
/// a vanishing affine-zero weight.
proof fn lemma_rev_entry(v3: QV3, w3: QV3, tw: Q, wj: Q, det: Q)
    requires
        qv_wf(v3),
        qv_wf(w3),
        q_wf(tw),
        q_wf(wj),
        q_wf(det),
        det.n != 0,
        q_eq(wj, q_int(0)),
    ensures
        q_eq(
            q_add(
                q_add(
                    q_add(q_mul(q_div(w3.x, det), v3.x), q_mul(q_div(w3.y, det), v3.y)),
                    q_mul(q_div(w3.z, det), v3.z),
                ),
                q_mul(tw, wj),
            ),
            q_div(qv_dot(v3, w3), det),
        ),
        q_wf(
            q_add(
                q_add(
                    q_add(q_mul(q_div(w3.x, det), v3.x), q_mul(q_div(w3.y, det), v3.y)),
                    q_mul(q_div(w3.z, det), v3.z),
                ),
                q_mul(tw, wj),
            ),
        ),
{
    crate::rat::lemma_q_mul_comm(q_div(w3.x, det), v3.x);
    crate::rat::lemma_q_mul_comm(q_div(w3.y, det), v3.y);
    crate::rat::lemma_q_mul_comm(q_div(w3.z, det), v3.z);
    lemma_qv_dot_div3(v3, w3, det);
    crate::rat::lemma_q_mul_zero_val(tw, wj);
    crate::rat::lemma_q_eq_zero(q_mul(tw, wj));
    lemma_q_div_wf(w3.x, det);
    lemma_q_div_wf(w3.y, det);
    lemma_q_div_wf(w3.z, det);
    let dv = QV3 { x: q_div(w3.x, det), y: q_div(w3.y, det), z: q_div(w3.z, det) };
    lemma_qv_dot_wf(v3, dv);
    lemma_qv_dot_wf(v3, w3);
    lemma_q_div_wf(qv_dot(v3, w3), det);
    crate::rat::lemma_q_add_zero_right(qv_dot(v3, dv), q_mul(tw, wj));
    crate::rat::lemma_q_ops_wf(tw, wj);
    crate::rat::lemma_q_ops_wf(qv_dot(v3, dv), q_mul(tw, wj));
    crate::rat::lemma_q_eq_trans(
        q_add(qv_dot(v3, dv), q_mul(tw, wj)),
        qv_dot(v3, dv),
        q_div(qv_dot(v3, w3), det),
    );
}

/// A dot that holds the determinant divides to one.
proof fn lemma_div_det_one(x: Q, det: Q)
    requires
        q_wf(x),
        q_wf(det),
        det.n != 0,
        q_eq(x, det),
    ensures
        q_eq(q_div(x, det), q_int(1)),
{
    crate::rat::lemma_q_div_congr(x, det, det);
    crate::rat::lemma_q_div_self(det);
    lemma_q_div_wf(x, det);
    lemma_q_div_wf(det, det);
    crate::rat::lemma_q_eq_trans(q_div(x, det), q_div(det, det), q_int(1));
}

/// A dot that holds zero divides to zero.
proof fn lemma_div_det_zero(x: Q, det: Q)
    requires
        q_eq(x, q_int(0)),
    ensures
        q_eq(q_div(x, det), q_int(0)),
{
    crate::rat::lemma_q_eq_zero(x);
    crate::rat::lemma_q_div_zero_num(x, det);
}

/// Four zero-numerator terms sum to zero.
proof fn lemma_add4_zero(a: Q, b: Q, c: Q, d: Q)
    requires
        a.n == 0,
        b.n == 0,
        c.n == 0,
        d.n == 0,
    ensures
        q_eq(q_add(q_add(q_add(a, b), c), d), q_int(0)),
{
    assert(q_add(a, b).n == 0) by (nonlinear_arith)
        requires
            a.n == 0,
            b.n == 0,
    ;
    assert(q_add(q_add(a, b), c).n == 0) by (nonlinear_arith)
        requires
            q_add(a, b).n == 0,
            c.n == 0,
    ;
    assert(q_add(q_add(q_add(a, b), c), d).n == 0) by (nonlinear_arith)
        requires
            q_add(q_add(a, b), c).n == 0,
            d.n == 0,
    ;
    crate::rat::lemma_q_eq_zero(q_add(q_add(q_add(a, b), c), d));
}

/// Three zero-numerator terms drop away before a final summand.
proof fn lemma_add3_zero_keep(a: Q, b: Q, c: Q, w: Q)
    requires
        a.n == 0,
        b.n == 0,
        c.n == 0,
        q_wf(a),
        q_wf(b),
        q_wf(c),
        q_wf(w),
    ensures
        q_eq(q_add(q_add(q_add(a, b), c), w), w),
        q_wf(q_add(q_add(q_add(a, b), c), w)),
{
    assert(q_add(a, b).n == 0) by (nonlinear_arith)
        requires
            a.n == 0,
            b.n == 0,
    ;
    assert(q_add(q_add(a, b), c).n == 0) by (nonlinear_arith)
        requires
            q_add(a, b).n == 0,
            c.n == 0,
    ;
    crate::rat::lemma_q_ops_wf(a, b);
    crate::rat::lemma_q_ops_wf(q_add(a, b), c);
    crate::rat::lemma_q_ops_wf(q_add(q_add(a, b), c), w);
    crate::rat::lemma_q_add_zero_left(q_add(q_add(a, b), c), w);
}

/// A value plus something equal to its negation is zero.
proof fn lemma_dot_minus_self(dd: Q, last: Q)
    requires
        q_wf(dd),
        q_wf(last),
        q_eq(last, q_neg(dd)),
    ensures
        q_eq(q_add(dd, last), q_int(0)),
{
    crate::rat::lemma_q_eq_refl(dd);
    crate::rat::lemma_q_add_congr(dd, last, dd, q_neg(dd));
    assert(q_add(dd, q_neg(dd)).n == 0) by (nonlinear_arith);
    crate::rat::lemma_q_eq_zero(q_add(dd, q_neg(dd)));
    crate::rat::lemma_q_ops_wf(dd, last);
    crate::rat::lemma_q_ops_wf(dd, q_neg(dd));
    crate::rat::lemma_q_eq_trans(q_add(dd, last), q_add(dd, q_neg(dd)), q_int(0));
}

/// A row dotted with a negated matrix application cancels a matching
/// translation entry: the general counter-translation fact.
proof fn lemma_neg_apply_cancel(r3: QV3, la: QM3, p: QV3, ti: Q, e0: Q, e1: Q, e2: Q)
    requires
        qv_wf(r3),
        qm3_wf(la),
        qv_wf(p),
        q_wf(ti),
        q_wf(e0),
        q_wf(e1),
        q_wf(e2),
        q_eq(qv_dot(r3, qm3_transpose(la).rx), e0),
        q_eq(qv_dot(r3, qm3_transpose(la).ry), e1),
        q_eq(qv_dot(r3, qm3_transpose(la).rz), e2),
        q_eq(q_add(q_add(q_mul(p.x, e0), q_mul(p.y, e1)), q_mul(p.z, e2)), ti),
    ensures
        q_eq(q_add(qv_dot(r3, qv_neg(qm3_apply(la, p))), ti), q_int(0)),
{
    lemma_dot_apply_expand(r3, la, p);
    let cx = qm3_transpose(la).rx;
    let cy = qm3_transpose(la).ry;
    let cz = qm3_transpose(la).rz;
    lemma_qv_dot_wf(r3, cx);
    lemma_qv_dot_wf(r3, cy);
    lemma_qv_dot_wf(r3, cz);
    crate::rat::lemma_q_eq_refl(p.x);
    crate::rat::lemma_q_eq_refl(p.y);
    crate::rat::lemma_q_eq_refl(p.z);
    crate::rat::lemma_q_mul_congr(p.x, qv_dot(r3, cx), p.x, e0);
    crate::rat::lemma_q_mul_congr(p.y, qv_dot(r3, cy), p.y, e1);
    crate::rat::lemma_q_mul_congr(p.z, qv_dot(r3, cz), p.z, e2);
    crate::rat::lemma_q_ops_wf(p.x, qv_dot(r3, cx));
    crate::rat::lemma_q_ops_wf(p.y, qv_dot(r3, cy));
    crate::rat::lemma_q_ops_wf(p.z, qv_dot(r3, cz));
    crate::rat::lemma_q_ops_wf(p.x, e0);
    crate::rat::lemma_q_ops_wf(p.y, e1);
    crate::rat::lemma_q_ops_wf(p.z, e2);
    crate::rat::lemma_q_add_congr(
        q_mul(p.x, qv_dot(r3, cx)),
        q_mul(p.y, qv_dot(r3, cy)),
        q_mul(p.x, e0),
        q_mul(p.y, e1),
    );
    crate::rat::lemma_q_ops_wf(q_mul(p.x, qv_dot(r3, cx)), q_mul(p.y, qv_dot(r3, cy)));
    crate::rat::lemma_q_ops_wf(q_mul(p.x, e0), q_mul(p.y, e1));
    crate::rat::lemma_q_add_congr(
        q_add(q_mul(p.x, qv_dot(r3, cx)), q_mul(p.y, qv_dot(r3, cy))),
        q_mul(p.z, qv_dot(r3, cz)),
        q_add(q_mul(p.x, e0), q_mul(p.y, e1)),
        q_mul(p.z, e2),
    );
    crate::vec3::lemma_qv_dot_wf(la.rx, p);
    crate::vec3::lemma_qv_dot_wf(la.ry, p);
    crate::vec3::lemma_qv_dot_wf(la.rz, p);
    lemma_qv_dot_wf(r3, qm3_apply(la, p));
    crate::rat::lemma_q_ops_wf(
        q_add(q_mul(p.x, qv_dot(r3, cx)), q_mul(p.y, qv_dot(r3, cy))),
        q_mul(p.z, qv_dot(r3, cz)),
    );
    crate::rat::lemma_q_ops_wf(q_add(q_mul(p.x, e0), q_mul(p.y, e1)), q_mul(p.z, e2));
    crate::rat::lemma_q_eq_trans(
        qv_dot(r3, qm3_apply(la, p)),
        q_add(
            q_add(q_mul(p.x, qv_dot(r3, cx)), q_mul(p.y, qv_dot(r3, cy))),
            q_mul(p.z, qv_dot(r3, cz)),
        ),
        q_add(q_add(q_mul(p.x, e0), q_mul(p.y, e1)), q_mul(p.z, e2)),
    );
    crate::rat::lemma_q_eq_trans(
        qv_dot(r3, qm3_apply(la, p)),
        q_add(q_add(q_mul(p.x, e0), q_mul(p.y, e1)), q_mul(p.z, e2)),
        ti,
    );
    lemma_qv_dot_neg(r3, qm3_apply(la, p));
    crate::rat::lemma_q_neg_congr(qv_dot(r3, qm3_apply(la, p)), ti);
    crate::rat::lemma_q_ops_wf(qv_dot(r3, qm3_apply(la, p)), ti);
    lemma_dot_minus_self(ti, q_neg(qv_dot(r3, qm3_apply(la, p))));
    crate::rat::lemma_q_add_comm(q_neg(qv_dot(r3, qm3_apply(la, p))), ti);
}

/// The Cramer inverse of an invertible affine matrix is well-formed
/// and affine.
proof fn lemma_cramer_wf(m: QM4)
    requires
        qm4_wf(m),
        qm4_affine(m),
        qm3_det(qm4_linear3(m)).n != 0,
    ensures
        qm4_wf(qm4_cramer_inverse(m)),
        qm4_affine(qm4_cramer_inverse(m)),
        qm3_wf(qm3_cramer_inverse(qm4_linear3(m))),
        qv_wf(qv_neg(qm3_apply(qm3_cramer_inverse(qm4_linear3(m)), qm4_translation(m)))),
{
    let l = qm4_linear3(m);
    let c0 = qv_cross(l.ry, l.rz);
    let c1 = qv_cross(l.rz, l.rx);
    let c2 = qv_cross(l.rx, l.ry);
    let det = qv_dot(l.rx, c0);
    let inv = qm3_cramer_inverse(l);
    let tt = qm4_translation(m);
    lemma_qv_cross_wf(l.ry, l.rz);
    lemma_qv_cross_wf(l.rz, l.rx);
    lemma_qv_cross_wf(l.rx, l.ry);
    lemma_qv_dot_wf(l.rx, c0);
    lemma_q_div_wf(c0.x, det);
    lemma_q_div_wf(c0.y, det);
    lemma_q_div_wf(c0.z, det);
    lemma_q_div_wf(c1.x, det);
    lemma_q_div_wf(c1.y, det);
    lemma_q_div_wf(c1.z, det);
    lemma_q_div_wf(c2.x, det);
    lemma_q_div_wf(c2.y, det);
    lemma_q_div_wf(c2.z, det);
    lemma_qv_dot_wf(inv.rx, tt);
    lemma_qv_dot_wf(inv.ry, tt);
    lemma_qv_dot_wf(inv.rz, tt);
}

/// An invertible affine matrix times its Cramer inverse is exactly the
/// identity.
proof fn lemma_cramer_fwd(m: QM4)
    requires
        qm4_wf(m),
        qm4_affine(m),
        qm3_det(qm4_linear3(m)).n != 0,
    ensures
        qm4_is_id(qm4_mul(m, qm4_cramer_inverse(m))),
{
    let l = qm4_linear3(m);
    let c0 = qv_cross(l.ry, l.rz);
    let c1 = qv_cross(l.rz, l.rx);
    let c2 = qv_cross(l.rx, l.ry);
    let det = qv_dot(l.rx, c0);
    let inv = qm3_cramer_inverse(l);
    let tt = qm4_translation(m);
    let tinv = qv_neg(qm3_apply(inv, tt));
    lemma_cramer_wf(m);
    lemma_qv_cross_wf(l.ry, l.rz);
    lemma_qv_cross_wf(l.rz, l.rx);
    lemma_qv_cross_wf(l.rx, l.ry);
    lemma_qv_dot_wf(l.rx, c0);

    // The nine row identities: each row against each cross column.
    lemma_qv_cross_orthogonal(l.ry, l.rz);
    lemma_qv_cross_orthogonal(l.rz, l.rx);
    lemma_qv_cross_orthogonal(l.rx, l.ry);
    lemma_qv_triple_rotate(l.rx, l.ry, l.rz);
    lemma_qv_triple_rotate(l.rz, l.rx, l.ry);
    lemma_qv_dot_wf(l.ry, c1);
    lemma_qv_dot_wf(l.rz, c2);
    crate::rat::lemma_q_eq_trans(qv_dot(l.ry, c1), qv_dot(l.rz, c2), det);

    // The linear block of the product.
    lemma_fwd_entry(l.rx, m.rx.w, c0, det);
    lemma_fwd_entry(l.rx, m.rx.w, c1, det);
    lemma_fwd_entry(l.rx, m.rx.w, c2, det);
    lemma_fwd_entry(l.ry, m.ry.w, c0, det);
    lemma_fwd_entry(l.ry, m.ry.w, c1, det);
    lemma_fwd_entry(l.ry, m.ry.w, c2, det);
    lemma_fwd_entry(l.rz, m.rz.w, c0, det);
    lemma_fwd_entry(l.rz, m.rz.w, c1, det);
    lemma_fwd_entry(l.rz, m.rz.w, c2, det);
    lemma_div_det_one(qv_dot(l.rx, c0), det);
    lemma_div_det_zero(qv_dot(l.rx, c1), det);
    lemma_div_det_zero(qv_dot(l.rx, c2), det);
    lemma_div_det_zero(qv_dot(l.ry, c0), det);
    lemma_div_det_one(qv_dot(l.ry, c1), det);
    lemma_div_det_zero(qv_dot(l.ry, c2), det);
    lemma_div_det_zero(qv_dot(l.rz, c0), det);
    lemma_div_det_zero(qv_dot(l.rz, c1), det);
    lemma_div_det_one(qv_dot(l.rz, c2), det);
    let dv0 = QV3 { x: q_div(c0.x, det), y: q_div(c0.y, det), z: q_div(c0.z, det) };
    let dv1 = QV3 { x: q_div(c1.x, det), y: q_div(c1.y, det), z: q_div(c1.z, det) };
    let dv2 = QV3 { x: q_div(c2.x, det), y: q_div(c2.y, det), z: q_div(c2.z, det) };
    crate::rat::lemma_q_eq_trans(
        q_add(qv_dot(l.rx, dv0), q_mul(m.rx.w, q_int(0))),
        q_div(qv_dot(l.rx, c0), det),
        q_int(1),
    );
    crate::rat::lemma_q_eq_trans(
        q_add(qv_dot(l.rx, dv1), q_mul(m.rx.w, q_int(0))),
        q_div(qv_dot(l.rx, c1), det),
        q_int(0),
    );
    crate::rat::lemma_q_eq_trans(
        q_add(qv_dot(l.rx, dv2), q_mul(m.rx.w, q_int(0))),
        q_div(qv_dot(l.rx, c2), det),
        q_int(0),
    );
    crate::rat::lemma_q_eq_trans(
        q_add(qv_dot(l.ry, dv0), q_mul(m.ry.w, q_int(0))),
        q_div(qv_dot(l.ry, c0), det),
        q_int(0),
    );
    crate::rat::lemma_q_eq_trans(
        q_add(qv_dot(l.ry, dv1), q_mul(m.ry.w, q_int(0))),
        q_div(qv_dot(l.ry, c1), det),
        q_int(1),
    );
    crate::rat::lemma_q_eq_trans(
        q_add(qv_dot(l.ry, dv2), q_mul(m.ry.w, q_int(0))),
        q_div(qv_dot(l.ry, c2), det),
        q_int(0),
    );
    crate::rat::lemma_q_eq_trans(
        q_add(qv_dot(l.rz, dv0), q_mul(m.rz.w, q_int(0))),
        q_div(qv_dot(l.rz, c0), det),
        q_int(0),
    );
    crate::rat::lemma_q_eq_trans(
        q_add(qv_dot(l.rz, dv1), q_mul(m.rz.w, q_int(0))),
        q_div(qv_dot(l.rz, c1), det),
        q_int(0),
    );
    crate::rat::lemma_q_eq_trans(
        q_add(qv_dot(l.rz, dv2), q_mul(m.rz.w, q_int(0))),
        q_div(qv_dot(l.rz, c2), det),
        q_int(1),
    );

    // The translation column cancels against the counter-translation.
    lemma_qv_dot_wf(l.rx, c1);
    lemma_qv_dot_wf(l.rx, c2);
    lemma_qv_dot_wf(l.ry, c0);
    lemma_qv_dot_wf(l.ry, c2);
    lemma_qv_dot_wf(l.rz, c0);
    lemma_qv_dot_wf(l.rz, c1);
    lemma_qv_dot_div3(l.rx, c0, det);
    lemma_qv_dot_div3(l.rx, c1, det);
    lemma_qv_dot_div3(l.rx, c2, det);
    lemma_qv_dot_div3(l.ry, c0, det);
    lemma_qv_dot_div3(l.ry, c1, det);
    lemma_qv_dot_div3(l.ry, c2, det);
    lemma_qv_dot_div3(l.rz, c0, det);
    lemma_qv_dot_div3(l.rz, c1, det);
    lemma_qv_dot_div3(l.rz, c2, det);
    lemma_qv_dot_wf(l.rx, dv0);
    lemma_qv_dot_wf(l.rx, dv1);
    lemma_qv_dot_wf(l.rx, dv2);
    lemma_qv_dot_wf(l.ry, dv0);
    lemma_qv_dot_wf(l.ry, dv1);
    lemma_qv_dot_wf(l.ry, dv2);
    lemma_qv_dot_wf(l.rz, dv0);
    lemma_qv_dot_wf(l.rz, dv1);
    lemma_qv_dot_wf(l.rz, dv2);
    lemma_q_div_wf(qv_dot(l.rx, c0), det);
    lemma_q_div_wf(qv_dot(l.rx, c1), det);
    lemma_q_div_wf(qv_dot(l.rx, c2), det);
    lemma_q_div_wf(qv_dot(l.ry, c0), det);
    lemma_q_div_wf(qv_dot(l.ry, c1), det);
    lemma_q_div_wf(qv_dot(l.ry, c2), det);
    lemma_q_div_wf(qv_dot(l.rz, c0), det);
    lemma_q_div_wf(qv_dot(l.rz, c1), det);
    lemma_q_div_wf(qv_dot(l.rz, c2), det);
    crate::rat::lemma_q_eq_trans(qv_dot(l.rx, dv0), q_div(qv_dot(l.rx, c0), det), q_int(1));
    crate::rat::lemma_q_eq_trans(qv_dot(l.rx, dv1), q_div(qv_dot(l.rx, c1), det), q_int(0));
    crate::rat::lemma_q_eq_trans(qv_dot(l.rx, dv2), q_div(qv_dot(l.rx, c2), det), q_int(0));
    crate::rat::lemma_q_eq_trans(qv_dot(l.ry, dv0), q_div(qv_dot(l.ry, c0), det), q_int(0));
    crate::rat::lemma_q_eq_trans(qv_dot(l.ry, dv1), q_div(qv_dot(l.ry, c1), det), q_int(1));
    crate::rat::lemma_q_eq_trans(qv_dot(l.ry, dv2), q_div(qv_dot(l.ry, c2), det), q_int(0));
    crate::rat::lemma_q_eq_trans(qv_dot(l.rz, dv0), q_div(qv_dot(l.rz, c0), det), q_int(0));
    crate::rat::lemma_q_eq_trans(qv_dot(l.rz, dv1), q_div(qv_dot(l.rz, c1), det), q_int(0));
    crate::rat::lemma_q_eq_trans(qv_dot(l.rz, dv2), q_div(qv_dot(l.rz, c2), det), q_int(1));
    lemma_combo_collapse(tt.x, tt.y, tt.z);
    lemma_neg_apply_cancel(l.rx, inv, tt, tt.x, q_int(1), q_int(0), q_int(0));
    lemma_neg_apply_cancel(l.ry, inv, tt, tt.y, q_int(0), q_int(1), q_int(0));
    lemma_neg_apply_cancel(l.rz, inv, tt, tt.z, q_int(0), q_int(0), q_int(1));
    crate::rat::lemma_q_mul_int1(m.rx.w);
    crate::rat::lemma_q_mul_int1(m.ry.w);
    crate::rat::lemma_q_mul_int1(m.rz.w);
    crate::rat::lemma_q_mul_int1(m.rw.w);

    // The last row: the affine weights wipe out every term but the
    // final one.
    crate::rat::lemma_q_mul_zero_val(dv0.x, m.rw.x);
    crate::rat::lemma_q_mul_zero_val(dv0.y, m.rw.y);
    crate::rat::lemma_q_mul_zero_val(dv0.z, m.rw.z);
    crate::rat::lemma_q_mul_zero_val(dv1.x, m.rw.x);
    crate::rat::lemma_q_mul_zero_val(dv1.y, m.rw.y);
    crate::rat::lemma_q_mul_zero_val(dv1.z, m.rw.z);
    crate::rat::lemma_q_mul_zero_val(dv2.x, m.rw.x);
    crate::rat::lemma_q_mul_zero_val(dv2.y, m.rw.y);
    crate::rat::lemma_q_mul_zero_val(dv2.z, m.rw.z);
    crate::rat::lemma_q_mul_zero_val(m.rw.w, q_int(0));
    crate::rat::lemma_q_eq_zero(q_mul(m.rw.x, dv0.x));
    crate::rat::lemma_q_eq_zero(q_mul(m.rw.y, dv0.y));
    crate::rat::lemma_q_eq_zero(q_mul(m.rw.z, dv0.z));
    crate::rat::lemma_q_eq_zero(q_mul(m.rw.x, dv1.x));
    crate::rat::lemma_q_eq_zero(q_mul(m.rw.y, dv1.y));
    crate::rat::lemma_q_eq_zero(q_mul(m.rw.z, dv1.z));
    crate::rat::lemma_q_eq_zero(q_mul(m.rw.x, dv2.x));
    crate::rat::lemma_q_eq_zero(q_mul(m.rw.y, dv2.y));
    crate::rat::lemma_q_eq_zero(q_mul(m.rw.z, dv2.z));
    crate::rat::lemma_q_eq_zero(q_mul(m.rw.w, q_int(0)));
    lemma_add4_zero(
        q_mul(m.rw.x, dv0.x),
        q_mul(m.rw.y, dv0.y),
        q_mul(m.rw.z, dv0.z),
        q_mul(m.rw.w, q_int(0)),
    );
    lemma_add4_zero(
        q_mul(m.rw.x, dv1.x),
        q_mul(m.rw.y, dv1.y),
        q_mul(m.rw.z, dv1.z),
        q_mul(m.rw.w, q_int(0)),
    );
    lemma_add4_zero(
        q_mul(m.rw.x, dv2.x),
        q_mul(m.rw.y, dv2.y),
        q_mul(m.rw.z, dv2.z),
        q_mul(m.rw.w, q_int(0)),
    );
    crate::rat::lemma_q_mul_zero_val(tinv.x, m.rw.x);
    crate::rat::lemma_q_mul_zero_val(tinv.y, m.rw.y);
    crate::rat::lemma_q_mul_zero_val(tinv.z, m.rw.z);
    crate::rat::lemma_q_eq_zero(q_mul(m.rw.x, tinv.x));
    crate::rat::lemma_q_eq_zero(q_mul(m.rw.y, tinv.y));
    crate::rat::lemma_q_eq_zero(q_mul(m.rw.z, tinv.z));
    crate::rat::lemma_q_ops_wf(m.rw.x, tinv.x);
    crate::rat::lemma_q_ops_wf(m.rw.y, tinv.y);
    crate::rat::lemma_q_ops_wf(m.rw.z, tinv.z);
    lemma_add3_zero_keep(
        q_mul(m.rw.x, tinv.x),
        q_mul(m.rw.y, tinv.y),
        q_mul(m.rw.z, tinv.z),
        m.rw.w,
    );
    crate::rat::lemma_q_eq_trans(
        q_add(
            q_add(
                q_add(q_mul(m.rw.x, tinv.x), q_mul(m.rw.y, tinv.y)),
                q_mul(m.rw.z, tinv.z),
            ),
            m.rw.w,
        ),
        m.rw.w,
        q_int(1),
    );
}
/// The Cramer inverse of an invertible affine matrix times the matrix
/// is exactly the identity.
proof fn lemma_cramer_rev(m: QM4)
    requires
        qm4_wf(m),
        qm4_affine(m),
        qm3_det(qm4_linear3(m)).n != 0,
    ensures
        qm4_is_id(qm4_mul(qm4_cramer_inverse(m), m)),
{
    let l = qm4_linear3(m);
    let tl = qm3_transpose(l);
    let c0 = qv_cross(l.ry, l.rz);
    let c1 = qv_cross(l.rz, l.rx);
    let c2 = qv_cross(l.rx, l.ry);
    let det = qv_dot(l.rx, c0);
    let inv = qm3_cramer_inverse(l);
    let tt = qm4_translation(m);
    let tinv = qv_neg(qm3_apply(inv, tt));
    lemma_cramer_wf(m);
    lemma_qv_cross_wf(l.ry, l.rz);
    lemma_qv_cross_wf(l.rz, l.rx);
    lemma_qv_cross_wf(l.rx, l.ry);
    lemma_qv_dot_wf(l.rx, c0);

    // The rows of the inverse's numerator are cross products of the
    // block's columns.
    lemma_cramer_rows_are_column_crosses(l);
    let w0 = QV3 { x: c0.x, y: c1.x, z: c2.x };
    let w1 = QV3 { x: c0.y, y: c1.y, z: c2.y };
    let w2 = QV3 { x: c0.z, y: c1.z, z: c2.z };

    // The column identities: orthogonality, rotation, and the
    // transposed determinant.
    lemma_qv_cross_orthogonal(tl.ry, tl.rz);
    lemma_qv_cross_orthogonal(tl.rz, tl.rx);
    lemma_qv_cross_orthogonal(tl.rx, tl.ry);
    lemma_qv_triple_rotate(tl.rx, tl.ry, tl.rz);
    lemma_qv_triple_rotate(tl.rz, tl.rx, tl.ry);
    lemma_qm3_det_transpose(l);
    lemma_qv_cross_wf(tl.ry, tl.rz);
    lemma_qv_cross_wf(tl.rz, tl.rx);
    lemma_qv_cross_wf(tl.rx, tl.ry);
    lemma_qv_dot_wf(tl.rx, qv_cross(tl.ry, tl.rz));
    lemma_qv_dot_wf(tl.ry, qv_cross(tl.rz, tl.rx));
    lemma_qv_dot_wf(tl.rz, qv_cross(tl.rx, tl.ry));
    crate::rat::lemma_q_eq_trans(
        qv_dot(tl.ry, qv_cross(tl.rz, tl.rx)),
        qv_dot(tl.rz, qv_cross(tl.rx, tl.ry)),
        qv_dot(tl.rx, qv_cross(tl.ry, tl.rz)),
    );
    crate::rat::lemma_q_eq_trans(
        qv_dot(tl.ry, qv_cross(tl.rz, tl.rx)),
        qv_dot(tl.rx, qv_cross(tl.ry, tl.rz)),
        det,
    );
    crate::rat::lemma_q_eq_trans(
        qv_dot(tl.rz, qv_cross(tl.rx, tl.ry)),
        qv_dot(tl.rx, qv_cross(tl.ry, tl.rz)),
        det,
    );

    // The linear block of the product.
    lemma_rev_entry(tl.rx, w0, tinv.x, m.rw.x, det);
    lemma_rev_entry(tl.ry, w0, tinv.x, m.rw.y, det);
    lemma_rev_entry(tl.rz, w0, tinv.x, m.rw.z, det);
    lemma_rev_entry(tl.rx, w1, tinv.y, m.rw.x, det);
    lemma_rev_entry(tl.ry, w1, tinv.y, m.rw.y, det);
    lemma_rev_entry(tl.rz, w1, tinv.y, m.rw.z, det);
    lemma_rev_entry(tl.rx, w2, tinv.z, m.rw.x, det);
    lemma_rev_entry(tl.ry, w2, tinv.z, m.rw.y, det);
    lemma_rev_entry(tl.rz, w2, tinv.z, m.rw.z, det);
    lemma_div_det_one(qv_dot(tl.rx, w0), det);
    lemma_div_det_zero(qv_dot(tl.ry, w0), det);
    lemma_div_det_zero(qv_dot(tl.rz, w0), det);
    lemma_div_det_zero(qv_dot(tl.rx, w1), det);
    lemma_div_det_one(qv_dot(tl.ry, w1), det);
    lemma_div_det_zero(qv_dot(tl.rz, w1), det);
    lemma_div_det_zero(qv_dot(tl.rx, w2), det);
    lemma_div_det_zero(qv_dot(tl.ry, w2), det);
    lemma_div_det_one(qv_dot(tl.rz, w2), det);
    lemma_qv_dot_wf(tl.rx, w0);
    lemma_qv_dot_wf(tl.ry, w0);
    lemma_qv_dot_wf(tl.rz, w0);
    lemma_qv_dot_wf(tl.rx, w1);
    lemma_qv_dot_wf(tl.ry, w1);
    lemma_qv_dot_wf(tl.rz, w1);
    lemma_qv_dot_wf(tl.rx, w2);
    lemma_qv_dot_wf(tl.ry, w2);
    lemma_qv_dot_wf(tl.rz, w2);
    lemma_q_div_wf(qv_dot(tl.rx, w0), det);
    lemma_q_div_wf(qv_dot(tl.ry, w0), det);
    lemma_q_div_wf(qv_dot(tl.rz, w0), det);
    lemma_q_div_wf(qv_dot(tl.rx, w1), det);
    lemma_q_div_wf(qv_dot(tl.ry, w1), det);
    lemma_q_div_wf(qv_dot(tl.rz, w1), det);
    lemma_q_div_wf(qv_dot(tl.rx, w2), det);
    lemma_q_div_wf(qv_dot(tl.ry, w2), det);
    lemma_q_div_wf(qv_dot(tl.rz, w2), det);
    crate::rat::lemma_q_eq_trans(
        q_add(
            q_add(
                q_add(q_mul(q_div(w0.x, det), tl.rx.x), q_mul(q_div(w0.y, det), tl.rx.y)),
                q_mul(q_div(w0.z, det), tl.rx.z),
            ),
            q_mul(tinv.x, m.rw.x),
        ),
        q_div(qv_dot(tl.rx, w0), det),
        q_int(1),
    );
    crate::rat::lemma_q_eq_trans(
        q_add(
            q_add(
                q_add(q_mul(q_div(w0.x, det), tl.ry.x), q_mul(q_div(w0.y, det), tl.ry.y)),
                q_mul(q_div(w0.z, det), tl.ry.z),
            ),
            q_mul(tinv.x, m.rw.y),
        ),
        q_div(qv_dot(tl.ry, w0), det),
        q_int(0),
    );
    crate::rat::lemma_q_eq_trans(
        q_add(
            q_add(
                q_add(q_mul(q_div(w0.x, det), tl.rz.x), q_mul(q_div(w0.y, det), tl.rz.y)),
                q_mul(q_div(w0.z, det), tl.rz.z),
            ),
            q_mul(tinv.x, m.rw.z),
        ),
        q_div(qv_dot(tl.rz, w0), det),
        q_int(0),
    );
    crate::rat::lemma_q_eq_trans(
        q_add(
            q_add(
                q_add(q_mul(q_div(w1.x, det), tl.rx.x), q_mul(q_div(w1.y, det), tl.rx.y)),
                q_mul(q_div(w1.z, det), tl.rx.z),
            ),
            q_mul(tinv.y, m.rw.x),
        ),
        q_div(qv_dot(tl.rx, w1), det),
        q_int(0),
    );
    crate::rat::lemma_q_eq_trans(
        q_add(
            q_add(
                q_add(q_mul(q_div(w1.x, det), tl.ry.x), q_mul(q_div(w1.y, det), tl.ry.y)),
                q_mul(q_div(w1.z, det), tl.ry.z),
            ),
            q_mul(tinv.y, m.rw.y),
        ),
        q_div(qv_dot(tl.ry, w1), det),
        q_int(1),
    );
    crate::rat::lemma_q_eq_trans(
        q_add(
            q_add(
                q_add(q_mul(q_div(w1.x, det), tl.rz.x), q_mul(q_div(w1.y, det), tl.rz.y)),
                q_mul(q_div(w1.z, det), tl.rz.z),
            ),
            q_mul(tinv.y, m.rw.z),
        ),
        q_div(qv_dot(tl.rz, w1), det),
        q_int(0),
    );
    crate::rat::lemma_q_eq_trans(
        q_add(
            q_add(
                q_add(q_mul(q_div(w2.x, det), tl.rx.x), q_mul(q_div(w2.y, det), tl.rx.y)),
                q_mul(q_div(w2.z, det), tl.rx.z),
            ),
            q_mul(tinv.z, m.rw.x),
        ),
        q_div(qv_dot(tl.rx, w2), det),
        q_int(0),
    );
    crate::rat::lemma_q_eq_trans(
        q_add(
            q_add(
                q_add(q_mul(q_div(w2.x, det), tl.ry.x), q_mul(q_div(w2.y, det), tl.ry.y)),
                q_mul(q_div(w2.z, det), tl.ry.z),
            ),
            q_mul(tinv.z, m.rw.y),
        ),
        q_div(qv_dot(tl.ry, w2), det),
        q_int(0),
    );
    crate::rat::lemma_q_eq_trans(
        q_add(
            q_add(
                q_add(q_mul(q_div(w2.x, det), tl.rz.x), q_mul(q_div(w2.y, det), tl.rz.y)),
                q_mul(q_div(w2.z, det), tl.rz.z),
            ),
            q_mul(tinv.z, m.rw.z),
        ),
        q_div(qv_dot(tl.rz, w2), det),
        q_int(1),
    );

    // The translation column: each row's dot with the translation
    // meets its own negation.
    lemma_qv_dot_wf(inv.rx, tt);
    lemma_qv_dot_wf(inv.ry, tt);
    lemma_qv_dot_wf(inv.rz, tt);
    crate::rat::lemma_q_mul_one_val(tinv.x, m.rw.w);
    crate::rat::lemma_q_mul_one_val(tinv.y, m.rw.w);
    crate::rat::lemma_q_mul_one_val(tinv.z, m.rw.w);
    crate::rat::lemma_q_ops_wf(tinv.x, m.rw.w);
    crate::rat::lemma_q_ops_wf(tinv.y, m.rw.w);
    crate::rat::lemma_q_ops_wf(tinv.z, m.rw.w);
    lemma_dot_minus_self(qv_dot(inv.rx, tt), q_mul(tinv.x, m.rw.w));
    lemma_dot_minus_self(qv_dot(inv.ry, tt), q_mul(tinv.y, m.rw.w));
    lemma_dot_minus_self(qv_dot(inv.rz, tt), q_mul(tinv.z, m.rw.w));

    // The last row is the exact affine row read through the matrix.
    crate::rat::lemma_q_mul_int0(m.rx.x);
    crate::rat::lemma_q_mul_int0(m.ry.x);
    crate::rat::lemma_q_mul_int0(m.rz.x);
    crate::rat::lemma_q_mul_int0(m.rx.y);
    crate::rat::lemma_q_mul_int0(m.ry.y);
    crate::rat::lemma_q_mul_int0(m.rz.y);
    crate::rat::lemma_q_mul_int0(m.rx.z);
    crate::rat::lemma_q_mul_int0(m.ry.z);
    crate::rat::lemma_q_mul_int0(m.rz.z);
    crate::rat::lemma_q_mul_int0(m.rx.w);
    crate::rat::lemma_q_mul_int0(m.ry.w);
    crate::rat::lemma_q_mul_int0(m.rz.w);
    crate::rat::lemma_q_mul_int1(m.rw.x);
    crate::rat::lemma_q_mul_int1(m.rw.y);
    crate::rat::lemma_q_mul_int1(m.rw.z);
    crate::rat::lemma_q_mul_int1(m.rw.w);
    crate::rat::lemma_q_ops_wf(q_int(0), m.rx.x);
    crate::rat::lemma_q_ops_wf(q_int(0), m.ry.x);
    crate::rat::lemma_q_ops_wf(q_int(0), m.rz.x);
    crate::rat::lemma_q_ops_wf(q_int(0), m.rx.y);
    crate::rat::lemma_q_ops_wf(q_int(0), m.ry.y);
    crate::rat::lemma_q_ops_wf(q_int(0), m.rz.y);
    crate::rat::lemma_q_ops_wf(q_int(0), m.rx.z);
    crate::rat::lemma_q_ops_wf(q_int(0), m.ry.z);
    crate::rat::lemma_q_ops_wf(q_int(0), m.rz.z);
    crate::rat::lemma_q_ops_wf(q_int(0), m.rx.w);
    crate::rat::lemma_q_ops_wf(q_int(0), m.ry.w);
    crate::rat::lemma_q_ops_wf(q_int(0), m.rz.w);
    lemma_add3_zero_keep(
        q_mul(q_int(0), m.rx.x),
        q_mul(q_int(0), m.ry.x),
        q_mul(q_int(0), m.rz.x),
        m.rw.x,
    );
    lemma_add3_zero_keep(
        q_mul(q_int(0), m.rx.y),
        q_mul(q_int(0), m.ry.y),
        q_mul(q_int(0), m.rz.y),
        m.rw.y,
    );
    lemma_add3_zero_keep(
        q_mul(q_int(0), m.rx.z),
        q_mul(q_int(0), m.ry.z),
        q_mul(q_int(0), m.rz.z),
        m.rw.z,
    );
    lemma_add3_zero_keep(
        q_mul(q_int(0), m.rx.w),
        q_mul(q_int(0), m.ry.w),
        q_mul(q_int(0), m.rz.w),
        m.rw.w,
    );
    crate::rat::lemma_q_eq_trans(
        q_add(
            q_add(q_add(q_mul(q_int(0), m.rx.x), q_mul(q_int(0), m.ry.x)), q_mul(q_int(0), m.rz.x)),
            m.rw.x,
        ),
        m.rw.x,
        q_int(0),
    );
    crate::rat::lemma_q_eq_trans(
        q_add(
            q_add(q_add(q_mul(q_int(0), m.rx.y), q_mul(q_int(0), m.ry.y)), q_mul(q_int(0), m.rz.y)),
            m.rw.y,
        ),
        m.rw.y,
        q_int(0),
    );
    crate::rat::lemma_q_eq_trans(
        q_add(
            q_add(q_add(q_mul(q_int(0), m.rx.z), q_mul(q_int(0), m.ry.z)), q_mul(q_int(0), m.rz.z)),
            m.rw.z,
        ),
        m.rw.z,
        q_int(0),
    );
    crate::rat::lemma_q_eq_trans(
        q_add(
            q_add(q_add(q_mul(q_int(0), m.rx.w), q_mul(q_int(0), m.ry.w)), q_mul(q_int(0), m.rz.w)),
            m.rw.w,
        ),
        m.rw.w,
        q_int(1),
    );
}

/// The Cramer inverse of an invertible affine matrix is a two-sided
/// exact inverse: both products with the matrix are the identity, and
/// the inverse is well-formed and affine.
pub proof fn lemma_cramer_inverse_identity(m: QM4)
    requires
        qm4_wf(m),
        qm4_affine(m),
        qm3_det(qm4_linear3(m)).n != 0,
    ensures
        qm4_wf(qm4_cramer_inverse(m)),
        qm4_affine(qm4_cramer_inverse(m)),
        qm4_is_id(qm4_mul(m, qm4_cramer_inverse(m))),
        qm4_is_id(qm4_mul(qm4_cramer_inverse(m), m)),
{
    lemma_cramer_wf(m);
    lemma_cramer_fwd(m);
    lemma_cramer_rev(m);
}

/// A combination weighted by one one and two zeros collapses to the
/// component under the one.
proof fn lemma_combo_collapse(u: Q, v: Q, w: Q)
    requires
        q_wf(u),
        q_wf(v),
        q_wf(w),
    ensures
        q_eq(q_add(q_add(q_mul(u, q_int(1)), q_mul(v, q_int(0))), q_mul(w, q_int(0))), u),
        q_eq(q_add(q_add(q_mul(u, q_int(0)), q_mul(v, q_int(1))), q_mul(w, q_int(0))), v),
        q_eq(q_add(q_add(q_mul(u, q_int(0)), q_mul(v, q_int(0))), q_mul(w, q_int(1))), w),
{
    crate::rat::lemma_q_mul_one(u);
    crate::rat::lemma_q_mul_one(v);
    crate::rat::lemma_q_mul_one(w);
    crate::rat::lemma_q_mul_zero_val(u, q_int(0));
    crate::rat::lemma_q_mul_zero_val(v, q_int(0));
    crate::rat::lemma_q_mul_zero_val(w, q_int(0));
    crate::rat::lemma_q_eq_zero(q_mul(u, q_int(0)));
    crate::rat::lemma_q_eq_zero(q_mul(v, q_int(0)));
    crate::rat::lemma_q_eq_zero(q_mul(w, q_int(0)));
    crate::rat::lemma_q_ops_wf(u, q_int(1));
    crate::rat::lemma_q_ops_wf(v, q_int(1));
    crate::rat::lemma_q_ops_wf(w, q_int(1));
    crate::rat::lemma_q_ops_wf(u, q_int(0));
    crate::rat::lemma_q_ops_wf(v, q_int(0));
    crate::rat::lemma_q_ops_wf(w, q_int(0));

    crate::rat::lemma_q_add_zero_right(q_mul(u, q_int(1)), q_mul(v, q_int(0)));
    crate::rat::lemma_q_ops_wf(q_mul(u, q_int(1)), q_mul(v, q_int(0)));
    crate::rat::lemma_q_add_zero_right(
        q_add(q_mul(u, q_int(1)), q_mul(v, q_int(0))),
        q_mul(w, q_int(0)),
    );
    crate::rat::lemma_q_ops_wf(
        q_add(q_mul(u, q_int(1)), q_mul(v, q_int(0))),
        q_mul(w, q_int(0)),
    );
    crate::rat::lemma_q_eq_trans(
        q_add(q_add(q_mul(u, q_int(1)), q_mul(v, q_int(0))), q_mul(w, q_int(0))),
        q_add(q_mul(u, q_int(1)), q_mul(v, q_int(0))),
        q_mul(u, q_int(1)),
    );
    crate::rat::lemma_q_eq_trans(
        q_add(q_add(q_mul(u, q_int(1)), q_mul(v, q_int(0))), q_mul(w, q_int(0))),
        q_mul(u, q_int(1)),
        u,
    );

    crate::rat::lemma_q_add_zero_left(q_mul(u, q_int(0)), q_mul(v, q_int(1)));
    crate::rat::lemma_q_ops_wf(q_mul(u, q_int(0)), q_mul(v, q_int(1)));
    crate::rat::lemma_q_add_zero_right(
        q_add(q_mul(u, q_int(0)), q_mul(v, q_int(1))),
        q_mul(w, q_int(0)),
    );
    crate::rat::lemma_q_ops_wf(
        q_add(q_mul(u, q_int(0)), q_mul(v, q_int(1))),
        q_mul(w, q_int(0)),
    );
    crate::rat::lemma_q_eq_trans(
        q_add(q_add(q_mul(u, q_int(0)), q_mul(v, q_int(1))), q_mul(w, q_int(0))),
        q_add(q_mul(u, q_int(0)), q_mul(v, q_int(1))),
        q_mul(v, q_int(1)),
    );
    crate::rat::lemma_q_eq_trans(
        q_add(q_add(q_mul(u, q_int(0)), q_mul(v, q_int(1))), q_mul(w, q_int(0))),
        q_mul(v, q_int(1)),
        v,
    );

    assert(q_add(q_mul(u, q_int(0)), q_mul(v, q_int(0))).n == 0) by (nonlinear_arith)
        requires
            q_mul(u, q_int(0)).n == 0,
            q_mul(v, q_int(0)).n == 0,
    ;
    crate::rat::lemma_q_add_zero_left(
        q_add(q_mul(u, q_int(0)), q_mul(v, q_int(0))),
        q_mul(w, q_int(1)),
    );
    crate::rat::lemma_q_ops_wf(q_mul(u, q_int(0)), q_mul(v, q_int(0)));
    crate::rat::lemma_q_ops_wf(
        q_add(q_mul(u, q_int(0)), q_mul(v, q_int(0))),
        q_mul(w, q_int(1)),
    );
    crate::rat::lemma_q_eq_trans(
        q_add(q_add(q_mul(u, q_int(0)), q_mul(v, q_int(0))), q_mul(w, q_int(1))),
        q_mul(w, q_int(1)),
        w,
    );
}

/// One coordinate of an affine application dotted through a second
/// row: with the row's dots against the columns pinned to given values
/// and its translation entry cancelling, the coordinate reduces to the
/// pinned combination.
proof fn lemma_apply_coord(
    r3: QV3,
    rw: Q,
    la: QM3,
    ta: QV3,
    p: QV3,
    dx: Q,
    dy: Q,
    dz: Q,
    pi: Q,
)
    requires
        qv_wf(r3),
        q_wf(rw),
        qm3_wf(la),
        qv_wf(ta),
        qv_wf(p),
        q_wf(dx),
        q_wf(dy),
        q_wf(dz),
        q_wf(pi),
        q_eq(qv_dot(r3, qm3_transpose(la).rx), dx),
        q_eq(qv_dot(r3, qm3_transpose(la).ry), dy),
        q_eq(qv_dot(r3, qm3_transpose(la).rz), dz),
        q_eq(q_add(qv_dot(r3, ta), rw), q_int(0)),
        q_eq(q_add(q_add(q_mul(p.x, dx), q_mul(p.y, dy)), q_mul(p.z, dz)), pi),
    ensures
        q_eq(q_add(qv_dot(r3, crate::vec3::qv_add(qm3_apply(la, p), ta)), rw), pi),
{
    let mp = qm3_apply(la, p);
    crate::vec3::lemma_qv_dot_wf(la.rx, p);
    crate::vec3::lemma_qv_dot_wf(la.ry, p);
    crate::vec3::lemma_qv_dot_wf(la.rz, p);
    assert(crate::vec3::qv_wf(mp));
    crate::vec3::lemma_qv_dot_add(mp, ta, r3);
    crate::vec3::lemma_qv_dot_comm(crate::vec3::qv_add(mp, ta), r3);
    crate::vec3::lemma_qv_dot_comm(mp, r3);
    crate::vec3::lemma_qv_dot_comm(ta, r3);
    lemma_dot_apply_expand(r3, la, p);

    // Replace the dots against the columns by their pinned values.
    let cx = qm3_transpose(la).rx;
    let cy = qm3_transpose(la).ry;
    let cz = qm3_transpose(la).rz;
    crate::vec3::lemma_qv_dot_wf(r3, cx);
    crate::vec3::lemma_qv_dot_wf(r3, cy);
    crate::vec3::lemma_qv_dot_wf(r3, cz);
    crate::rat::lemma_q_eq_refl(p.x);
    crate::rat::lemma_q_eq_refl(p.y);
    crate::rat::lemma_q_eq_refl(p.z);
    crate::rat::lemma_q_mul_congr(p.x, qv_dot(r3, cx), p.x, dx);
    crate::rat::lemma_q_mul_congr(p.y, qv_dot(r3, cy), p.y, dy);
    crate::rat::lemma_q_mul_congr(p.z, qv_dot(r3, cz), p.z, dz);
    crate::rat::lemma_q_ops_wf(p.x, qv_dot(r3, cx));
    crate::rat::lemma_q_ops_wf(p.y, qv_dot(r3, cy));
    crate::rat::lemma_q_ops_wf(p.z, qv_dot(r3, cz));
    crate::rat::lemma_q_ops_wf(p.x, dx);
    crate::rat::lemma_q_ops_wf(p.y, dy);
    crate::rat::lemma_q_ops_wf(p.z, dz);
    crate::rat::lemma_q_add_congr(
        q_mul(p.x, qv_dot(r3, cx)),
        q_mul(p.y, qv_dot(r3, cy)),
        q_mul(p.x, dx),
        q_mul(p.y, dy),
    );
    crate::rat::lemma_q_ops_wf(q_mul(p.x, qv_dot(r3, cx)), q_mul(p.y, qv_dot(r3, cy)));
    crate::rat::lemma_q_ops_wf(q_mul(p.x, dx), q_mul(p.y, dy));
    crate::rat::lemma_q_add_congr(
        q_add(q_mul(p.x, qv_dot(r3, cx)), q_mul(p.y, qv_dot(r3, cy))),
        q_mul(p.z, qv_dot(r3, cz)),
        q_add(q_mul(p.x, dx), q_mul(p.y, dy)),
        q_mul(p.z, dz),
    );
    crate::vec3::lemma_qv_dot_wf(r3, mp);
    crate::rat::lemma_q_ops_wf(
        q_add(q_mul(p.x, qv_dot(r3, cx)), q_mul(p.y, qv_dot(r3, cy))),
        q_mul(p.z, qv_dot(r3, cz)),
    );
    crate::rat::lemma_q_ops_wf(
        q_add(q_mul(p.x, dx), q_mul(p.y, dy)),
        q_mul(p.z, dz),
    );
    crate::rat::lemma_q_eq_trans(
        qv_dot(r3, mp),
        q_add(
            q_add(q_mul(p.x, qv_dot(r3, cx)), q_mul(p.y, qv_dot(r3, cy))),
            q_mul(p.z, qv_dot(r3, cz)),
        ),
        q_add(q_add(q_mul(p.x, dx), q_mul(p.y, dy)), q_mul(p.z, dz)),
    );
    crate::rat::lemma_q_eq_trans(
        qv_dot(r3, mp),
        q_add(q_add(q_mul(p.x, dx), q_mul(p.y, dy)), q_mul(p.z, dz)),
        pi,
    );

    // Regroup the translation with the row's own entry and cancel.
    crate::vec3::lemma_qv_add_wf(mp, ta);
    crate::vec3::lemma_qv_dot_wf(r3, crate::vec3::qv_add(mp, ta));
    crate::vec3::lemma_qv_dot_wf(r3, ta);
    crate::rat::lemma_q_eq_refl(rw);
    crate::rat::lemma_q_ops_wf(qv_dot(r3, mp), qv_dot(r3, ta));
    crate::rat::lemma_q_add_congr(
        qv_dot(r3, crate::vec3::qv_add(mp, ta)),
        rw,
        q_add(qv_dot(r3, mp), qv_dot(r3, ta)),
        rw,
    );
    crate::rat::lemma_q_ops_wf(qv_dot(r3, crate::vec3::qv_add(mp, ta)), rw);
    crate::rat::lemma_q_ops_wf(q_add(qv_dot(r3, mp), qv_dot(r3, ta)), rw);
    crate::rat::lemma_q_add_assoc(qv_dot(r3, mp), qv_dot(r3, ta), rw);
    crate::rat::lemma_q_ops_wf(qv_dot(r3, ta), rw);
    crate::rat::lemma_q_ops_wf(qv_dot(r3, mp), q_add(qv_dot(r3, ta), rw));
    crate::rat::lemma_q_eq_trans(
        q_add(qv_dot(r3, crate::vec3::qv_add(mp, ta)), rw),
        q_add(q_add(qv_dot(r3, mp), qv_dot(r3, ta)), rw),
        q_add(qv_dot(r3, mp), q_add(qv_dot(r3, ta), rw)),
    );
    crate::rat::lemma_q_add_congr(
        qv_dot(r3, mp),
        q_add(qv_dot(r3, ta), rw),
        pi,
        q_int(0),
    );
    crate::rat::lemma_q_ops_wf(pi, q_int(0));
    crate::rat::lemma_q_eq_trans(
        q_add(qv_dot(r3, crate::vec3::qv_add(mp, ta)), rw),
        q_add(qv_dot(r3, mp), q_add(qv_dot(r3, ta), rw)),
        q_add(pi, q_int(0)),
    );
    crate::rat::lemma_q_add_zero_right(pi, q_int(0));
    crate::rat::lemma_q_eq_trans(
        q_add(qv_dot(r3, crate::vec3::qv_add(mp, ta)), rw),
        q_add(pi, q_int(0)),
        pi,
    );
}

/// Applying an affine matrix and then an exact inverse of it recovers
/// every point, as values.
pub proof fn lemma_qm4_affine_round_trip(a: QM4, ia: QM4, p: QV3)
    requires
        qm4_wf(a),
        qm4_wf(ia),
        qm4_affine(a),
        qm4_affine(ia),
        qm4_is_id(qm4_mul(ia, a)),
        qv_wf(p),
    ensures
        crate::vec3::qv_eq(qm4_affine_apply(ia, qm4_affine_apply(a, p)), p),
{
    lemma_affine_product_facts(ia, a);
    lemma_combo_collapse(p.x, p.y, p.z);
    let la = qm4_linear3(a);
    let ta = qm4_translation(a);
    let li = qm4_linear3(ia);
    lemma_apply_coord(li.rx, ia.rx.w, la, ta, p, q_int(1), q_int(0), q_int(0), p.x);
    lemma_apply_coord(li.ry, ia.ry.w, la, ta, p, q_int(0), q_int(1), q_int(0), p.y);
    lemma_apply_coord(li.rz, ia.rz.w, la, ta, p, q_int(0), q_int(0), q_int(1), p.z);
}

/// A four-component row of rationals.
pub struct Vec4 {
    pub x: Rat,
    pub y: Rat,
    pub z: Rat,
    pub w: Rat,
}

impl View for Vec4 {
    type V = QV4;

    open spec fn view(&self) -> QV4 {
        QV4 { x: self.x@, y: self.y@, z: self.z@, w: self.w@ }
    }
}

impl Vec4 {
    pub open spec fn wf(&self) -> bool {
        qv4_wf(self@)
    }

    pub fn dup(&self) -> (r: Vec4)
        ensures
            r@ == self@,
    {
        Vec4 { x: self.x.dup(), y: self.y.dup(), z: self.z.dup(), w: self.w.dup() }
    }

    pub fn dot(&self, other: &Vec4) -> (r: Rat)
        requires
            self.wf(),
            other.wf(),
        ensures
            r.wf(),
            r@ == qv4_dot(self@, other@),
    {
        self.x.mul(&other.x).add(&self.y.mul(&other.y)).add(&self.z.mul(&other.z)).add(
            &self.w.mul(&other.w),
        )
    }
}

/// An exact 3x3 matrix, stored as rows.
pub struct Mat3 {
    pub rx: Vec3,
    pub ry: Vec3,
    pub rz: Vec3,
}

impl View for Mat3 {
    type V = QM3;

    open spec fn view(&self) -> QM3 {
        QM3 { rx: self.rx@, ry: self.ry@, rz: self.rz@ }
    }
}

impl Mat3 {
    pub open spec fn wf(&self) -> bool {
        qm3_wf(self@)
    }

    pub fn dup(&self) -> (r: Mat3)
        ensures
            r@ == self@,
    {
        Mat3 { rx: self.rx.dup(), ry: self.ry.dup(), rz: self.rz.dup() }
    }

    /// The matrix applied to a column vector.
    pub fn apply(&self, v: &Vec3) -> (r: Vec3)
        requires
            self.wf(),
            v.wf(),
        ensures
            r.wf(),
            r@ == qm3_apply(self@, v@),
    {
        Vec3 { x: self.rx.dot(v), y: self.ry.dot(v), z: self.rz.dot(v) }
    }

    pub fn transpose(&self) -> (r: Mat3)
        requires
            self.wf(),
        ensures
            r.wf(),
            r@ == qm3_transpose(self@),
    {
        Mat3 {
            rx: Vec3 { x: self.rx.x.dup(), y: self.ry.x.dup(), z: self.rz.x.dup() },
            ry: Vec3 { x: self.rx.y.dup(), y: self.ry.y.dup(), z: self.rz.y.dup() },
            rz: Vec3 { x: self.rx.z.dup(), y: self.ry.z.dup(), z: self.rz.z.dup() },
        }
    }
}

/// An exact 4x4 matrix, stored as rows.
pub struct Mat4 {
    pub rx: Vec4,
    pub ry: Vec4,
    pub rz: Vec4,
    pub rw: Vec4,
}

impl View for Mat4 {
    type V = QM4;

    open spec fn view(&self) -> QM4 {
        QM4 { rx: self.rx@, ry: self.ry@, rz: self.rz@, rw: self.rw@ }
    }
}

impl Mat4 {
    pub open spec fn wf(&self) -> bool {
        qm4_wf(self@)
    }

    pub fn dup(&self) -> (r: Mat4)
        ensures
            r@ == self@,
    {
        Mat4 { rx: self.rx.dup(), ry: self.ry.dup(), rz: self.rz.dup(), rw: self.rw.dup() }
    }

    /// The identity matrix.
    pub fn identity() -> (r: Mat4)
        ensures
            r.wf(),
            qm4_affine(r@),
            qm4_is_id(r@),
    {
        Mat4 {
            rx: Vec4 { x: Rat::from_int(1), y: Rat::from_int(0), z: Rat::from_int(0), w: Rat::from_int(0) },
            ry: Vec4 { x: Rat::from_int(0), y: Rat::from_int(1), z: Rat::from_int(0), w: Rat::from_int(0) },
            rz: Vec4 { x: Rat::from_int(0), y: Rat::from_int(0), z: Rat::from_int(1), w: Rat::from_int(0) },
            rw: Vec4 { x: Rat::from_int(0), y: Rat::from_int(0), z: Rat::from_int(0), w: Rat::from_int(1) },
        }
    }

    /// The affine matrix translating every point by `v`.
    pub fn from_translation(v: &Vec3) -> (r: Mat4)
        requires
            v.wf(),
        ensures
            r.wf(),
            qm4_affine(r@),
            qm4_translation(r@) == v@,
            r@ == qm4_from_translation(v@),
    {
        Mat4 {
            rx: Vec4 { x: Rat::from_int(1), y: Rat::from_int(0), z: Rat::from_int(0), w: v.x.dup() },
            ry: Vec4 { x: Rat::from_int(0), y: Rat::from_int(1), z: Rat::from_int(0), w: v.y.dup() },
            rz: Vec4 { x: Rat::from_int(0), y: Rat::from_int(0), z: Rat::from_int(1), w: v.z.dup() },
            rw: Vec4 { x: Rat::from_int(0), y: Rat::from_int(0), z: Rat::from_int(0), w: Rat::from_int(1) },
        }
    }

    /// The affine matrix scaling each axis by the given factor.
    pub fn from_nonuniform_scale(sx: &Rat, sy: &Rat, sz: &Rat) -> (r: Mat4)
        requires
            sx.wf(),
            sy.wf(),
            sz.wf(),
        ensures
            r.wf(),
            qm4_affine(r@),
            qm4_linear3(r@).rx.x == sx@,
            qm4_linear3(r@).ry.y == sy@,
            qm4_linear3(r@).rz.z == sz@,
    {
        Mat4 {
            rx: Vec4 { x: sx.dup(), y: Rat::from_int(0), z: Rat::from_int(0), w: Rat::from_int(0) },
            ry: Vec4 { x: Rat::from_int(0), y: sy.dup(), z: Rat::from_int(0), w: Rat::from_int(0) },
            rz: Vec4 { x: Rat::from_int(0), y: Rat::from_int(0), z: sz.dup(), w: Rat::from_int(0) },
            rw: Vec4 { x: Rat::from_int(0), y: Rat::from_int(0), z: Rat::from_int(0), w: Rat::from_int(1) },
        }
    }

    /// The upper-left 3x3 linear block.
    pub fn linear3(&self) -> (r: Mat3)
        ensures
            r@ == qm4_linear3(self@),
    {
        Mat3 {
            rx: Vec3 { x: self.rx.x.dup(), y: self.rx.y.dup(), z: self.rx.z.dup() },
            ry: Vec3 { x: self.ry.x.dup(), y: self.ry.y.dup(), z: self.ry.z.dup() },
            rz: Vec3 { x: self.rz.x.dup(), y: self.rz.y.dup(), z: self.rz.z.dup() },
        }
    }

    /// The translation column.
    pub fn translation(&self) -> (r: Vec3)
        ensures
            r@ == qm4_translation(self@),
    {
        Vec3 { x: self.rx.w.dup(), y: self.ry.w.dup(), z: self.rz.w.dup() }
    }

    /// The affine reading of the matrix applied to a point.
    pub fn affine_apply(&self, p: &Vec3) -> (r: Vec3)
        requires
            self.wf(),
            p.wf(),
        ensures
            r.wf(),
            r@ == qm4_affine_apply(self@, p@),
    {
        self.linear3().apply(p).add(&self.translation())
    }

    pub fn transpose(&self) -> (r: Mat4)
        requires
            self.wf(),
        ensures
            r.wf(),
            r@ == qm4_transpose(self@),
    {
        Mat4 {
            rx: Vec4 { x: self.rx.x.dup(), y: self.ry.x.dup(), z: self.rz.x.dup(), w: self.rw.x.dup() },
            ry: Vec4 { x: self.rx.y.dup(), y: self.ry.y.dup(), z: self.rz.y.dup(), w: self.rw.y.dup() },
            rz: Vec4 { x: self.rx.z.dup(), y: self.ry.z.dup(), z: self.rz.z.dup(), w: self.rw.z.dup() },
            rw: Vec4 { x: self.rx.w.dup(), y: self.ry.w.dup(), z: self.rz.w.dup(), w: self.rw.w.dup() },
        }
    }

    pub fn mul(&self, other: &Mat4) -> (r: Mat4)
        requires
            self.wf(),
            other.wf(),
        ensures
            r.wf(),
            r@ == qm4_mul(self@, other@),
    {
        let bt = other.transpose();
        Mat4 {
            rx: Vec4 { x: self.rx.dot(&bt.rx), y: self.rx.dot(&bt.ry), z: self.rx.dot(&bt.rz), w: self.rx.dot(&bt.rw) },
            ry: Vec4 { x: self.ry.dot(&bt.rx), y: self.ry.dot(&bt.ry), z: self.ry.dot(&bt.rz), w: self.ry.dot(&bt.rw) },
            rz: Vec4 { x: self.rz.dot(&bt.rx), y: self.rz.dot(&bt.ry), z: self.rz.dot(&bt.rz), w: self.rz.dot(&bt.rw) },
            rw: Vec4 { x: self.rw.dot(&bt.rx), y: self.rw.dot(&bt.ry), z: self.rw.dot(&bt.rz), w: self.rw.dot(&bt.rw) },
        }
    }

    /// Whether every entry holds, as a value, the identity matrix's entry.
    pub fn is_id_val(&self) -> (r: bool)
        requires
            self.wf(),
        ensures
            r == qm4_is_id(self@),
    {
        let one = Rat::from_int(1);
        let zero = Rat::from_int(0);
        self.rx.x.eq_val(&one) && self.rx.y.eq_val(&zero) && self.rx.z.eq_val(&zero) && self.rx.w.eq_val(&zero)
            && self.ry.x.eq_val(&zero) && self.ry.y.eq_val(&one) && self.ry.z.eq_val(&zero) && self.ry.w.eq_val(&zero)
            && self.rz.x.eq_val(&zero) && self.rz.y.eq_val(&zero) && self.rz.z.eq_val(&one) && self.rz.w.eq_val(&zero)
            && self.rw.x.eq_val(&zero) && self.rw.y.eq_val(&zero) && self.rw.z.eq_val(&zero) && self.rw.w.eq_val(&one)
    }

    /// Whether the last row holds, as values, `(0, 0, 0, 1)`.
    pub fn is_affine_val(&self) -> (r: bool)
        requires
            self.wf(),
        ensures
            r == qm4_affine(self@),
    {
        let one = Rat::from_int(1);
        let zero = Rat::from_int(0);
        self.rw.x.eq_val(&zero) && self.rw.y.eq_val(&zero) && self.rw.z.eq_val(&zero)
            && self.rw.w.eq_val(&one)
    }
}

} // verus!
