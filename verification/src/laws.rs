//! Global properties of the core, stated and proved over the same
//! specification functions the executable contracts use.

use vstd::prelude::*;

use crate::bvh::{
    faces_ok, lemma_det3_bound, lemma_faces_visit_wf, lemma_polygon_update_wf, polygon_accepts,
    spec_faces_visit, spec_node_visit, spec_polygon_update, sv, sv_neg, sv_sub, tri_e1, tri_e2,
    tri_qualifies, tri_t, BvhNode,
};
use crate::rat::{dist_eq, dist_le, lt_dist, rat_le, rat_lt, rat_wf, Rat, RAT_LIMIT};
use crate::scene::{
    face_vert, isect_wf, mesh_wf, ray_in_range, slab_axis, slab_hit, Aabb, Intersection, Mesh,
    Ray,
};
use crate::vector::COORD_LIMIT;

verus! {

/// `x` is no bound at all, or a strictly negative finite bound.
pub open spec fn neg_or_none(x: Option<Rat>) -> bool {
    match x {
        Option::None => true,
        Option::Some(r) => r.num < 0 && r.den > 0,
    }
}

/// `x` is no bound at all, or a strictly positive finite bound.
pub open spec fn pos_or_none(x: Option<Rat>) -> bool {
    match x {
        Option::None => true,
        Option::Some(r) => r.num > 0 && r.den > 0,
    }
}

/// One slab axis keeps the running interval around zero when the origin
/// lies strictly inside the slab.
proof fn lemma_axis_inside(
    st: (bool, Option<Rat>, Option<Rat>),
    o: i64,
    d: i64,
    lo: i64,
    hi: i64,
)
    requires
        st.0,
        neg_or_none(st.1),
        pos_or_none(st.2),
        lo < o < hi,
    ensures
        slab_axis(st, o, d, lo, hi).0,
        neg_or_none(slab_axis(st, o, d, lo, hi).1),
        pos_or_none(slab_axis(st, o, d, lo, hi).2),
{
}

/// A ray whose origin lies strictly inside a box passes the box's slab
/// test: the parameter interval contains zero, so the box cannot be
/// rejected.
pub proof fn lemma_ray_inside_box_hits(b: Aabb, ray: Ray)
    requires
        b.left_bottom.x < ray.origin.x < b.right_top.x,
        b.left_bottom.y < ray.origin.y < b.right_top.y,
        b.left_bottom.z < ray.origin.z < b.right_top.z,
    ensures
        slab_hit(b, ray),
{
    let st0 = (true, Option::<Rat>::None, Option::<Rat>::None);
    let s1 = slab_axis(st0, ray.origin.x, ray.direction.x, b.left_bottom.x, b.right_top.x);
    let s2 = slab_axis(s1, ray.origin.y, ray.direction.y, b.left_bottom.y, b.right_top.y);
    let s3 = slab_axis(s2, ray.origin.z, ray.direction.z, b.left_bottom.z, b.right_top.z);
    lemma_axis_inside(st0, ray.origin.x, ray.direction.x, b.left_bottom.x, b.right_top.x);
    lemma_axis_inside(s1, ray.origin.y, ray.direction.y, b.left_bottom.y, b.right_top.y);
    lemma_axis_inside(s2, ray.origin.z, ray.direction.z, b.left_bottom.z, b.right_top.z);
    match (s3.1, s3.2) {
        (Option::Some(a), Option::Some(f)) => {
            assert(a.num * f.den <= f.num * a.den) by (nonlinear_arith)
                requires
                    a.num < 0,
                    a.den > 0,
                    f.num > 0,
                    f.den > 0,
            ;
        },
        _ => {},
    }
}

/// The nearest-hit query is deterministic: run twice over the same tree,
/// mesh and ray with equal fresh accumulators, it produces identical
/// records and identical answers.
pub proof fn lemma_query_deterministic(
    n: BvhNode,
    m: Mesh,
    ray: Ray,
    i1: Intersection,
    i2: Intersection,
)
    requires
        i1 == i2,
    ensures
        spec_node_visit(n, m, ray, i1) == spec_node_visit(n, m, ray, i2),
{
}

// --- order independence of the nearest-hit distance ---

/// The crossing of face `fi` qualifies, independent of any record.
pub open spec fn face_qualifies(m: Mesh, ray: Ray, fi: usize) -> bool {
    tri_qualifies(face_vert(m, fi, 0), face_vert(m, fi, 1), face_vert(m, fi, 2), ray)
}

/// The exact ray parameter of face `fi`'s crossing.
pub open spec fn face_t(m: Mesh, ray: Ray, fi: usize) -> Rat {
    tri_t(face_vert(m, fi, 0), face_vert(m, fi, 1), face_vert(m, fi, 2), ray)
}

/// `d` is the nearest distance over the face list `s` starting from the
/// record `i0`: no farther than the record's bound, no qualifying crossing
/// lies strictly below it, and it is the record's bound or an actual
/// qualifying crossing.
pub open spec fn is_nearest_distance(
    m: Mesh,
    ray: Ray,
    s: Seq<usize>,
    i0: Intersection,
    d: Option<Rat>,
) -> bool {
    &&& dist_le(d, i0.distance)
    &&& forall|j: int|
        0 <= j < s.len() && face_qualifies(m, ray, #[trigger] s[j]) ==> !lt_dist(
            face_t(m, ray, s[j]),
            d,
        )
    &&& (d == i0.distance || exists|j: int|
        0 <= j < s.len() && face_qualifies(m, ray, #[trigger] s[j]) && d == Option::Some(
            face_t(m, ray, s[j]),
        ))
}

/// A qualifying crossing's parameter is a well-formed rational.
proof fn lemma_face_t_wf(m: Mesh, ray: Ray, fi: usize)
    requires
        mesh_wf(m),
        fi < m.faces@.len(),
        ray_in_range(ray),
        face_qualifies(m, ray, fi),
    ensures
        rat_wf(face_t(m, ray, fi)),
        face_t(m, ray, fi).num > 0,
{
    let v0 = face_vert(m, fi, 0);
    let v1 = face_vert(m, fi, 1);
    let v2 = face_vert(m, fi, 2);
    let l: int = 2 * COORD_LIMIT as int;
    let e1 = tri_e1(v0, v1);
    let e2 = tri_e2(v0, v2);
    let dd = sv_sub(sv(ray.origin), sv(v0));
    let rv = sv_neg(sv(ray.direction));
    lemma_det3_bound(e1, e2, rv, l);
    lemma_det3_bound(e1, e2, dd, l);
    assert(6 * (l * (l * l)) == RAT_LIMIT as int) by (nonlinear_arith)
        requires
            l == 2 * (COORD_LIMIT as int),
    ;
}

/// Strict-below-or-equal chains stay strict.
proof fn lemma_rat_lt_le_trans(a: Rat, b: Rat, c: Rat)
    requires
        a.den > 0,
        b.den > 0,
        c.den > 0,
        rat_lt(a, b),
        rat_le(b, c),
    ensures
        rat_lt(a, c),
{
    assert(a.num * c.den < c.num * a.den) by (nonlinear_arith)
        requires
            a.den > 0,
            b.den > 0,
            c.den > 0,
            a.num * b.den < b.num * a.den,
            b.num * c.den <= c.num * b.den,
    ;
}

/// The distance left by folding a face list is exactly the nearest
/// qualifying distance over that list.
pub proof fn lemma_fold_distance_char(m: Mesh, ray: Ray, s: Seq<usize>, i0: Intersection)
    requires
        mesh_wf(m),
        faces_ok(s, m),
        ray_in_range(ray),
        isect_wf(i0),
    ensures
        is_nearest_distance(m, ray, s, i0, spec_faces_visit(m, ray, s, i0).0.distance),
    decreases s.len(),
{
    if s.len() > 0 {
        let pre = s.drop_last();
        assert(forall|j: int| 0 <= j < pre.len() ==> pre[j] == #[trigger] s[j]);
        lemma_fold_distance_char(m, ray, pre, i0);
        lemma_faces_visit_wf(m, ray, pre, i0);
        let prev = spec_faces_visit(m, ray, pre, i0).0;
        let fi = s.last();
        let v0 = face_vert(m, fi, 0);
        let v1 = face_vert(m, fi, 1);
        let v2 = face_vert(m, fi, 2);
        lemma_polygon_update_wf(v0, v1, v2, ray, prev);
        let cur = spec_polygon_update(v0, v1, v2, ray, prev);
        assert(spec_faces_visit(m, ray, s, i0).0 == cur);
        if polygon_accepts(v0, v1, v2, ray, prev) {
            let t = face_t(m, ray, fi);
            lemma_face_t_wf(m, ray, fi);
            assert(cur.distance == Option::Some(t));
            // no farther than the record's bound
            match (prev.distance, i0.distance) {
                (Option::Some(p), Option::Some(b)) => {
                    lemma_rat_lt_le_trans(t, p, b);
                },
                _ => {},
            }
            // no qualifying crossing lies strictly below the new distance
            assert forall|j: int|
                0 <= j < s.len() && face_qualifies(m, ray, #[trigger] s[j]) implies !lt_dist(
                face_t(m, ray, s[j]),
                cur.distance,
            ) by {
                if j < s.len() - 1 && lt_dist(face_t(m, ray, s[j]), cur.distance) {
                    lemma_face_t_wf(m, ray, s[j]);
                    match prev.distance {
                        Option::None => {},
                        Option::Some(p) => {
                            crate::rat::lemma_rat_lt_trans(face_t(m, ray, s[j]), t, p);
                        },
                    }
                }
            }
            assert(s[s.len() - 1] == fi);
        } else {
            assert(cur.distance == prev.distance);
            if !(prev.distance == i0.distance) {
                let w = choose|w: int|
                    0 <= w < pre.len() && face_qualifies(m, ray, #[trigger] pre[w])
                        && prev.distance == Option::Some(face_t(m, ray, pre[w]));
                assert(0 <= w < s.len() && face_qualifies(m, ray, s[w]) && cur.distance
                    == Option::Some(face_t(m, ray, s[w])));
            }
        }
    }
}

/// The nearest-hit distance of brute force does not depend on the order
/// faces are tested in: any two lists holding the same faces leave
/// numerically equal distances from equal fresh records.
pub proof fn lemma_brute_force_order_independent(
    m: Mesh,
    ray: Ray,
    s1: Seq<usize>,
    s2: Seq<usize>,
    i0: Intersection,
)
    requires
        mesh_wf(m),
        faces_ok(s1, m),
        faces_ok(s2, m),
        s2.to_multiset() == s1.to_multiset(),
        ray_in_range(ray),
        isect_wf(i0),
    ensures
        dist_eq(
            spec_faces_visit(m, ray, s1, i0).0.distance,
            spec_faces_visit(m, ray, s2, i0).0.distance,
        ),
{
    broadcast use vstd::seq_lib::to_multiset_contains;

    lemma_fold_distance_char(m, ray, s1, i0);
    lemma_fold_distance_char(m, ray, s2, i0);
    let d1 = spec_faces_visit(m, ray, s1, i0).0.distance;
    let d2 = spec_faces_visit(m, ray, s2, i0).0.distance;
    lemma_faces_visit_wf(m, ray, s1, i0);
    lemma_faces_visit_wf(m, ray, s2, i0);
    lemma_nearest_unique(m, ray, s1, s2, i0, d1, d2);
}

/// Any two nearest distances over multiset-equal face lists are equal.
proof fn lemma_nearest_unique(
    m: Mesh,
    ray: Ray,
    s1: Seq<usize>,
    s2: Seq<usize>,
    i0: Intersection,
    d1: Option<Rat>,
    d2: Option<Rat>,
)
    requires
        mesh_wf(m),
        faces_ok(s1, m),
        faces_ok(s2, m),
        s2.to_multiset() == s1.to_multiset(),
        ray_in_range(ray),
        isect_wf(i0),
        is_nearest_distance(m, ray, s1, i0, d1),
        is_nearest_distance(m, ray, s2, i0, d2),
    ensures
        dist_eq(d1, d2),
{
    broadcast use vstd::seq_lib::to_multiset_contains;

    lemma_nearest_le(m, ray, s1, s2, i0, d1, d2);
    lemma_nearest_le(m, ray, s2, s1, i0, d2, d1);
}

/// One direction of uniqueness: the nearest over `s1` is no larger than
/// the nearest over `s2` when `s1` holds every face of `s2`.
proof fn lemma_nearest_le(
    m: Mesh,
    ray: Ray,
    s1: Seq<usize>,
    s2: Seq<usize>,
    i0: Intersection,
    d1: Option<Rat>,
    d2: Option<Rat>,
)
    requires
        mesh_wf(m),
        faces_ok(s1, m),
        faces_ok(s2, m),
        s2.to_multiset() == s1.to_multiset(),
        ray_in_range(ray),
        isect_wf(i0),
        is_nearest_distance(m, ray, s1, i0, d1),
        is_nearest_distance(m, ray, s2, i0, d2),
    ensures
        dist_le(d2, d1),
{
    broadcast use vstd::seq_lib::to_multiset_contains;

    if d1 == i0.distance {
        // d2 never exceeds the record's bound
        assert(dist_le(d2, d1));
    } else {
        let j = choose|j: int|
            0 <= j < s1.len() && face_qualifies(m, ray, #[trigger] s1[j]) && d1 == Option::Some(
                face_t(m, ray, s1[j]),
            );
        let fi = s1[j];
        lemma_face_t_wf(m, ray, fi);
        // the same face occurs in s2, so d2 is at or below its crossing
        assert(s1.contains(fi));
        assert(s1.to_multiset().count(fi) > 0);
        assert(s2.to_multiset().count(fi) > 0);
        assert(s2.contains(fi));
        let w = choose|w: int| 0 <= w < s2.len() && s2[w] == fi;
        assert(face_qualifies(m, ray, s2[w]));
        assert(!lt_dist(face_t(m, ray, fi), d2));
        match d2 {
            Option::None => {
                assert(false);
            },
            Option::Some(x) => {
                assert(rat_le(x, face_t(m, ray, fi)));
            },
        }
    }
}

/// Whatever distance a subtree visit leaves is the incoming record's bound
/// or an actual qualifying crossing of a face held by the subtree.
proof fn lemma_node_visit_achieved(n: BvhNode, m: Mesh, ray: Ray, i0: Intersection)
    requires
        mesh_wf(m),
        crate::bvh::node_wf(n, m),
        ray_in_range(ray),
        isect_wf(i0),
    ensures
        ({
            let d = spec_node_visit(n, m, ray, i0).0.distance;
            d == i0.distance || exists|j: int|
                0 <= j < crate::bvh::subtree_faces(n).len() && face_qualifies(
                    m,
                    ray,
                    #[trigger] crate::bvh::subtree_faces(n)[j],
                ) && d == Option::Some(face_t(m, ray, crate::bvh::subtree_faces(n)[j]))
        }),
    decreases n,
{
    let sub = crate::bvh::subtree_faces(n);
    if slab_hit(n.aabb, ray) {
        match n.children {
            Option::None => {
                lemma_fold_distance_char(m, ray, n.face_indexes@, i0);
            },
            Option::Some(c) => {
                crate::bvh::lemma_node_visit_wf(*c.0, m, ray, i0);
                lemma_node_visit_achieved(*c.0, m, ray, i0);
                let l = spec_node_visit(*c.0, m, ray, i0);
                lemma_node_visit_achieved(*c.1, m, ray, l.0);
                let r = spec_node_visit(*c.1, m, ray, l.0);
                let s0 = crate::bvh::subtree_faces(*c.0);
                let s1 = crate::bvh::subtree_faces(*c.1);
                assert(sub == s0 + s1);
                assert(forall|j: int| 0 <= j < s0.len() ==> sub[j] == #[trigger] s0[j]);
                assert(forall|j: int|
                    0 <= j < s1.len() ==> sub[j + s0.len()] == #[trigger] s1[j]);
                if r.0.distance == l.0.distance {
                    if !(l.0.distance == i0.distance) {
                        let j = choose|j: int|
                            0 <= j < s0.len() && face_qualifies(m, ray, #[trigger] s0[j])
                                && l.0.distance == Option::Some(face_t(m, ray, s0[j]));
                        assert(face_qualifies(m, ray, sub[j]) && r.0.distance == Option::Some(
                            face_t(m, ray, sub[j]),
                        ));
                    }
                } else {
                    let j = choose|j: int|
                        0 <= j < s1.len() && face_qualifies(m, ray, #[trigger] s1[j])
                            && r.0.distance == Option::Some(face_t(m, ray, s1[j]));
                    assert(face_qualifies(m, ray, sub[j + s0.len()]) && r.0.distance
                        == Option::Some(face_t(m, ray, sub[j + s0.len()])));
                }
            },
        }
    }
}

/// The sound half of agreement between the tree and brute force: the
/// traversal never reports a spurious nearer hit.  Whatever the tree
/// leaves in the record, testing every face it holds directly leaves a
/// distance at or below it.
pub proof fn lemma_bvh_distance_sound(n: BvhNode, m: Mesh, ray: Ray, i0: Intersection)
    requires
        mesh_wf(m),
        crate::bvh::node_wf(n, m),
        ray_in_range(ray),
        isect_wf(i0),
    ensures
        dist_le(
            spec_faces_visit(m, ray, crate::bvh::subtree_faces(n), i0).0.distance,
            spec_node_visit(n, m, ray, i0).0.distance,
        ),
{
    let sub = crate::bvh::subtree_faces(n);
    lemma_fold_distance_char(m, ray, sub, i0);
    lemma_faces_visit_wf(m, ray, sub, i0);
    crate::bvh::lemma_node_visit_wf(n, m, ray, i0);
    lemma_node_visit_achieved(n, m, ray, i0);
    let db = spec_faces_visit(m, ray, sub, i0).0.distance;
    let dt = spec_node_visit(n, m, ray, i0).0.distance;
    if dt == i0.distance {
        assert(dist_le(db, dt));
    } else {
        let j = choose|j: int|
            0 <= j < sub.len() && face_qualifies(m, ray, #[trigger] sub[j]) && dt == Option::Some(
                face_t(m, ray, sub[j]),
            );
        lemma_face_t_wf(m, ray, sub[j]);
        assert(!lt_dist(face_t(m, ray, sub[j]), db));
        match db {
            Option::None => {
                assert(false);
            },
            Option::Some(x) => {
                assert(rat_le(x, face_t(m, ray, sub[j])));
            },
        }
    }
}

} // verus!
