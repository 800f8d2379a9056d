//! The bounding volume hierarchy: the exact ray/triangle test, recursive
//! construction by median splitting, and recursive nearest-hit traversal.

use vstd::prelude::*;

use crate::rat::{dist_le, dist_wf, lt_dist, lt_dist_exec, rat_wf, Rat, RatVec2, RatVec3,
    RAT_LIMIT};
use crate::scene::{
    aabb_contains, aabb_expand, aabb_in_range, aabb_sentinel, face_vert, isect_wf,
    mesh_wf, ray_in_range, slab_hit, Aabb, Intersection, Mesh, Ray,
};
use crate::vector::{v3_in_range, Vector3, COORD_LIMIT};

verus! {

// --- exact triangle intersection ---
//
// All quantities are scalar triple products of integer vectors, written over
// integer triples so that the specification is exact.

/// The integer triple of a vector's components.
pub open spec fn sv(v: Vector3) -> (int, int, int) {
    (v.x as int, v.y as int, v.z as int)
}

pub open spec fn sv_sub(a: (int, int, int), b: (int, int, int)) -> (int, int, int) {
    (a.0 - b.0, a.1 - b.1, a.2 - b.2)
}

pub open spec fn sv_neg(a: (int, int, int)) -> (int, int, int) {
    (-a.0, -a.1, -a.2)
}

/// Determinant of the 3x3 matrix with rows `a`, `b`, `c` (a scalar triple
/// product).
pub open spec fn det3(a: (int, int, int), b: (int, int, int), c: (int, int, int)) -> int {
    a.0 * (b.1 * c.2 - b.2 * c.1) - a.1 * (b.0 * c.2 - b.2 * c.0) + a.2 * (b.0 * c.1 - b.1 * c.0)
}

/// `x` with its sign flipped when `raw < 0`: brings every determinant ratio
/// to a positive denominator.
pub open spec fn flip(x: int, raw: int) -> int {
    if raw < 0 {
        -x
    } else {
        x
    }
}

pub open spec fn tri_e1(v0: Vector3, v1: Vector3) -> (int, int, int) {
    sv_sub(sv(v1), sv(v0))
}

pub open spec fn tri_e2(v0: Vector3, v2: Vector3) -> (int, int, int) {
    sv_sub(sv(v2), sv(v0))
}

/// The raw denominator `det(edge1, edge2, -direction)`; zero exactly when
/// the ray is parallel to the triangle's plane.
pub open spec fn tri_raw_denom(v0: Vector3, v1: Vector3, v2: Vector3, ray: Ray) -> int {
    det3(tri_e1(v0, v1), tri_e2(v0, v2), sv_neg(sv(ray.direction)))
}

/// Denominator brought positive.
pub open spec fn tri_dn(v0: Vector3, v1: Vector3, v2: Vector3, ray: Ray) -> int {
    flip(tri_raw_denom(v0, v1, v2, ray), tri_raw_denom(v0, v1, v2, ray))
}

/// Numerator of the barycentric coordinate `u`, over `tri_dn`.
pub open spec fn tri_un(v0: Vector3, v1: Vector3, v2: Vector3, ray: Ray) -> int {
    flip(
        det3(sv_sub(sv(ray.origin), sv(v0)), tri_e2(v0, v2), sv_neg(sv(ray.direction))),
        tri_raw_denom(v0, v1, v2, ray),
    )
}

/// Numerator of the barycentric coordinate `v`, over `tri_dn`.
pub open spec fn tri_vn(v0: Vector3, v1: Vector3, v2: Vector3, ray: Ray) -> int {
    flip(
        det3(tri_e1(v0, v1), sv_sub(sv(ray.origin), sv(v0)), sv_neg(sv(ray.direction))),
        tri_raw_denom(v0, v1, v2, ray),
    )
}

/// Numerator of the ray parameter `t`, over `tri_dn`.
pub open spec fn tri_tn(v0: Vector3, v1: Vector3, v2: Vector3, ray: Ray) -> int {
    flip(
        det3(tri_e1(v0, v1), tri_e2(v0, v2), sv_sub(sv(ray.origin), sv(v0))),
        tri_raw_denom(v0, v1, v2, ray),
    )
}

/// The flat face normal: `edge1 x edge2`, an exact integer direction.
pub open spec fn tri_normal(v0: Vector3, v1: Vector3, v2: Vector3) -> Vector3 {
    let a = tri_e1(v0, v1);
    let b = tri_e2(v0, v2);
    Vector3 {
        x: (a.1 * b.2 - a.2 * b.1) as i64,
        y: (a.2 * b.0 - a.0 * b.2) as i64,
        z: (a.0 * b.1 - a.1 * b.0) as i64,
    }
}

/// The ray meets the triangle at all, regardless of any record: it is not
/// parallel to the triangle's plane and the crossing lies inside the
/// triangle (`u >= 0`, `u <= 1`, `v >= 0`, `u + v <= 1`), strictly in
/// front of the origin.
pub open spec fn tri_qualifies(v0: Vector3, v1: Vector3, v2: Vector3, ray: Ray) -> bool {
    let dn = tri_dn(v0, v1, v2, ray);
    let un = tri_un(v0, v1, v2, ray);
    let vn = tri_vn(v0, v1, v2, ray);
    let tn = tri_tn(v0, v1, v2, ray);
    &&& tri_raw_denom(v0, v1, v2, ray) != 0
    &&& un >= 0
    &&& un <= dn
    &&& vn >= 0
    &&& un + vn <= dn
    &&& tn > 0
}

/// The ray parameter of a qualifying crossing, as an exact rational.
pub open spec fn tri_t(v0: Vector3, v1: Vector3, v2: Vector3, ray: Ray) -> Rat {
    Rat {
        num: tri_tn(v0, v1, v2, ray) as i128,
        den: tri_dn(v0, v1, v2, ray) as i128,
    }
}

/// The triangle test accepts exactly when the crossing qualifies and lies
/// strictly nearer than the best distance so far.
pub open spec fn polygon_accepts(
    v0: Vector3,
    v1: Vector3,
    v2: Vector3,
    ray: Ray,
    i0: Intersection,
) -> bool {
    tri_qualifies(v0, v1, v2, ray) && lt_dist(tri_t(v0, v1, v2, ray), i0.distance)
}

/// The record after one triangle test: unchanged on rejection; on
/// acceptance position, distance, the flat normal and the barycentric
/// surface coordinates are overwritten.  The hit flag is left to the
/// caller.
pub open spec fn spec_polygon_update(
    v0: Vector3,
    v1: Vector3,
    v2: Vector3,
    ray: Ray,
    i0: Intersection,
) -> Intersection {
    if !polygon_accepts(v0, v1, v2, ray, i0) {
        i0
    } else {
        let dn = tri_dn(v0, v1, v2, ray);
        let un = tri_un(v0, v1, v2, ray);
        let vn = tri_vn(v0, v1, v2, ray);
        let tn = tri_tn(v0, v1, v2, ray);
        Intersection {
            hit: i0.hit,
            position: RatVec3 {
                nx: (ray.origin.x * dn + ray.direction.x * tn) as i128,
                ny: (ray.origin.y * dn + ray.direction.y * tn) as i128,
                nz: (ray.origin.z * dn + ray.direction.z * tn) as i128,
                den: dn as i128,
            },
            distance: Option::Some(Rat { num: tn as i128, den: dn as i128 }),
            normal: tri_normal(v0, v1, v2),
            uv: RatVec2 { nu: un as i128, nv: vn as i128, den: dn as i128 },
        }
    }
}

/// Exact scalar triple product of three small integer vectors, with the
/// extremal bound that keeps later cross-multiplications in range.
fn det3_exec(a: &Vector3, b: &Vector3, c: &Vector3) -> (r: i128)
    requires
        v3_in_range(*a, 2 * COORD_LIMIT as int),
        v3_in_range(*b, 2 * COORD_LIMIT as int),
        v3_in_range(*c, 2 * COORD_LIMIT as int),
    ensures
        r as int == det3(sv(*a), sv(*b), sv(*c)),
        -RAT_LIMIT <= r <= RAT_LIMIT,
{
    proof {
        let l: int = 2 * COORD_LIMIT as int;
        crate::vector::lemma_mul_abs_bound(b.y as int, c.z as int, l, l);
        crate::vector::lemma_mul_abs_bound(b.z as int, c.y as int, l, l);
        crate::vector::lemma_mul_abs_bound(b.x as int, c.z as int, l, l);
        crate::vector::lemma_mul_abs_bound(b.z as int, c.x as int, l, l);
        crate::vector::lemma_mul_abs_bound(b.x as int, c.y as int, l, l);
        crate::vector::lemma_mul_abs_bound(b.y as int, c.x as int, l, l);
    }
    let m1: i128 = (b.y as i128) * (c.z as i128) - (b.z as i128) * (c.y as i128);
    let m2: i128 = (b.x as i128) * (c.z as i128) - (b.z as i128) * (c.x as i128);
    let m3: i128 = (b.x as i128) * (c.y as i128) - (b.y as i128) * (c.x as i128);
    proof {
        let l: int = 2 * COORD_LIMIT as int;
        crate::vector::lemma_mul_abs_bound(a.x as int, m1 as int, l, 2 * l * l);
        crate::vector::lemma_mul_abs_bound(a.y as int, m2 as int, l, 2 * l * l);
        crate::vector::lemma_mul_abs_bound(a.z as int, m3 as int, l, 2 * l * l);
    }
    (a.x as i128) * m1 - (a.y as i128) * m2 + (a.z as i128) * m3
}

/// Nearest-hit test of a ray against the triangle `v0 v1 v2`, tightening
/// `intersection` on success.  Returns whether this call improved the
/// record; the record's hit flag is left for the caller to maintain.
pub fn intersect_polygon(
    v0: &Vector3,
    v1: &Vector3,
    v2: &Vector3,
    ray: &Ray,
    intersection: &mut Intersection,
) -> (r: bool)
    requires
        v3_in_range(*v0, COORD_LIMIT as int),
        v3_in_range(*v1, COORD_LIMIT as int),
        v3_in_range(*v2, COORD_LIMIT as int),
        ray_in_range(*ray),
        isect_wf(*old(intersection)),
    ensures
        *final(intersection) == spec_polygon_update(*v0, *v1, *v2, *ray, *old(intersection)),
        r == polygon_accepts(*v0, *v1, *v2, *ray, *old(intersection)),
        isect_wf(*final(intersection)),
        dist_le(final(intersection).distance, old(intersection).distance),
{
    let ray_inv = ray.direction.neg();
    let edge1 = v1.sub(v0);
    let edge2 = v2.sub(v0);
    let d = ray.origin.sub(v0);
    let raw = det3_exec(&edge1, &edge2, &ray_inv);
    if raw == 0 {
        return false;
    }
    let un_raw = det3_exec(&d, &edge2, &ray_inv);
    let vn_raw = det3_exec(&edge1, &d, &ray_inv);
    let tn_raw = det3_exec(&edge1, &edge2, &d);
    let neg = raw < 0;
    let dn: i128 = if neg { -raw } else { raw };
    let un: i128 = if neg { -un_raw } else { un_raw };
    let vn: i128 = if neg { -vn_raw } else { vn_raw };
    let tn: i128 = if neg { -tn_raw } else { tn_raw };
    if un < 0 || un > dn {
        return false;
    }
    if vn < 0 || un + vn > dn {
        return false;
    }
    if tn <= 0 {
        return false;
    }
    let t = Rat { num: tn, den: dn };
    if !lt_dist_exec(&t, &intersection.distance) {
        return false;
    }
    proof {
        crate::vector::lemma_mul_abs_bound(ray.origin.x as int, dn as int, COORD_LIMIT as int, RAT_LIMIT as int);
        crate::vector::lemma_mul_abs_bound(ray.origin.y as int, dn as int, COORD_LIMIT as int, RAT_LIMIT as int);
        crate::vector::lemma_mul_abs_bound(ray.origin.z as int, dn as int, COORD_LIMIT as int, RAT_LIMIT as int);
        crate::vector::lemma_mul_abs_bound(ray.direction.x as int, tn as int, COORD_LIMIT as int, RAT_LIMIT as int);
        crate::vector::lemma_mul_abs_bound(ray.direction.y as int, tn as int, COORD_LIMIT as int, RAT_LIMIT as int);
        crate::vector::lemma_mul_abs_bound(ray.direction.z as int, tn as int, COORD_LIMIT as int, RAT_LIMIT as int);
    }
    intersection.position = RatVec3 {
        nx: (ray.origin.x as i128) * dn + (ray.direction.x as i128) * tn,
        ny: (ray.origin.y as i128) * dn + (ray.direction.y as i128) * tn,
        nz: (ray.origin.z as i128) * dn + (ray.direction.z as i128) * tn,
        den: dn,
    };
    intersection.distance = Option::Some(t);
    intersection.normal = edge1.cross(&edge2);
    intersection.uv = RatVec2 { nu: un, nv: vn, den: dn };
    true
}

// --- the tree ---

/// A node of the bounding volume hierarchy.  A leaf holds face indices and
/// no children; an internal node owns exactly two children and no face
/// indices, an invariant the `children` field carries at the type level.
#[derive(Debug)]
pub struct BvhNode {
    pub aabb: Aabb,
    pub children: Option<(Box<BvhNode>, Box<BvhNode>)>,
    pub face_indexes: Vec<usize>,
}

/// All face indices held by the subtree, leaves left to right.
pub open spec fn subtree_faces(n: BvhNode) -> Seq<usize>
    decreases n,
{
    match n.children {
        Option::None => n.face_indexes@,
        Option::Some(c) => subtree_faces(*c.0) + subtree_faces(*c.1),
    }
}

/// Every listed face index is a face of the mesh.
pub open spec fn faces_ok(faces: Seq<usize>, m: Mesh) -> bool {
    forall|i: int| 0 <= i < faces.len() ==> (#[trigger] faces[i]) < m.faces@.len()
}

/// The box contains every vertex of every listed face, componentwise.
pub open spec fn aabb_contains_faces(b: Aabb, m: Mesh, faces: Seq<usize>) -> bool {
    forall|i: int, k: int|
        0 <= i < faces.len() && 0 <= k < 3 ==> aabb_contains(
            b,
            #[trigger] face_vert(m, faces[i], k),
        )
}

/// Structural well-formedness of a tree over `m`: boxes are in range and
/// contain their whole subtree's vertices, internal nodes hold no face
/// indices of their own, and every face index is valid.
pub open spec fn node_wf(n: BvhNode, m: Mesh) -> bool
    decreases n,
{
    &&& aabb_in_range(n.aabb)
    &&& faces_ok(subtree_faces(n), m)
    &&& aabb_contains_faces(n.aabb, m, subtree_faces(n))
    &&& match n.children {
        Option::None => true,
        Option::Some(c) => n.face_indexes@.len() == 0 && node_wf(*c.0, m) && node_wf(*c.1, m),
    }
}

/// The box after folding every vertex of every listed face into `b`.
pub open spec fn aabb_fold_faces(b: Aabb, m: Mesh, faces: Seq<usize>) -> Aabb
    decreases faces.len(),
{
    if faces.len() == 0 {
        b
    } else {
        let prev = aabb_fold_faces(b, m, faces.drop_last());
        let fi = faces.last();
        aabb_expand(
            aabb_expand(aabb_expand(prev, face_vert(m, fi, 0)), face_vert(m, fi, 1)),
            face_vert(m, fi, 2),
        )
    }
}

/// The fold only grows the box, keeps it in range, and its result contains
/// every vertex of every listed face: the union box contains every point it
/// was built from.
pub proof fn lemma_fold_faces_contains(b: Aabb, m: Mesh, faces: Seq<usize>)
    requires
        mesh_wf(m),
        faces_ok(faces, m),
        aabb_in_range(b),
    ensures
        aabb_in_range(aabb_fold_faces(b, m, faces)),
        aabb_contains_faces(aabb_fold_faces(b, m, faces), m, faces),
        forall|v: Vector3|
            aabb_contains(b, v) ==> aabb_contains(#[trigger] aabb_fold_faces(b, m, faces), v),
    decreases faces.len(),
{
    if faces.len() > 0 {
        lemma_fold_faces_contains(b, m, faces.drop_last());
        assert(forall|i: int|
            0 <= i < faces.len() - 1 ==> faces.drop_last()[i] == #[trigger] faces[i]);
    }
}

fn aabb_expand_exec(b: Aabb, v: Vector3) -> (r: Aabb)
    ensures
        r == aabb_expand(b, v),
{
    Aabb {
        left_bottom: Vector3 {
            x: if v.x < b.left_bottom.x { v.x } else { b.left_bottom.x },
            y: if v.y < b.left_bottom.y { v.y } else { b.left_bottom.y },
            z: if v.z < b.left_bottom.z { v.z } else { b.left_bottom.z },
        },
        right_top: Vector3 {
            x: if v.x > b.right_top.x { v.x } else { b.right_top.x },
            y: if v.y > b.right_top.y { v.y } else { b.right_top.y },
            z: if v.z > b.right_top.z { v.z } else { b.right_top.z },
        },
    }
}

impl BvhNode {
    /// A childless, faceless node whose box is the empty sentinel.
    pub fn empty() -> (n: BvhNode)
        ensures
            n.aabb == aabb_sentinel(),
            n.children.is_none(),
            n.face_indexes@.len() == 0,
    {
        BvhNode { aabb: Aabb::empty(), children: Option::None, face_indexes: Vec::new() }
    }

    /// Grows this node's box to the union over every vertex referenced by
    /// the listed faces.
    pub fn set_aabb(&mut self, mesh: &Mesh, face_indexes: &Vec<usize>)
        requires
            mesh_wf(*mesh),
            faces_ok(old(self).face_indexes@, *mesh),
            faces_ok(face_indexes@, *mesh),
            aabb_in_range(old(self).aabb),
        ensures
            final(self).aabb == aabb_fold_faces(old(self).aabb, *mesh, face_indexes@),
            final(self).children == old(self).children,
            final(self).face_indexes == old(self).face_indexes,
            aabb_in_range(final(self).aabb),
            aabb_contains_faces(final(self).aabb, *mesh, face_indexes@),
    {
        let ghost b0 = self.aabb;
        let mut idx: usize = 0;
        while idx < face_indexes.len()
            invariant
                idx <= face_indexes@.len(),
                mesh_wf(*mesh),
                faces_ok(face_indexes@, *mesh),
                self.aabb == aabb_fold_faces(b0, *mesh, face_indexes@.take(idx as int)),
                self.children == old(self).children,
                self.face_indexes == old(self).face_indexes,
            decreases face_indexes@.len() - idx,
        {
            let fi = face_indexes[idx];
            let face = &mesh.faces[fi];
            let v0 = mesh.vertexes[face.v0];
            let v1 = mesh.vertexes[face.v1];
            let v2 = mesh.vertexes[face.v2];
            self.aabb = aabb_expand_exec(
                aabb_expand_exec(aabb_expand_exec(self.aabb, v0), v1),
                v2,
            );
            proof {
                let s = face_indexes@;
                assert(s.take(idx as int + 1).drop_last() =~= s.take(idx as int));
                assert(s.take(idx as int + 1).last() == s[idx as int]);
            }
            idx += 1;
        }
        proof {
            assert(face_indexes@.take(face_indexes@.len() as int) =~= face_indexes@);
            lemma_fold_faces_contains(b0, *mesh, face_indexes@);
        }
    }
}

// --- ordering faces along the split axis ---

/// Sort key of face `fi` on `axis` (0, 1 or 2): the sum of its three
/// vertices' coordinates on that axis — a monotone proxy for the centroid.
pub open spec fn face_key(m: Mesh, axis: u8, fi: usize) -> int {
    if axis == 0 {
        face_vert(m, fi, 0).x + face_vert(m, fi, 1).x + face_vert(m, fi, 2).x
    } else if axis == 1 {
        face_vert(m, fi, 0).y + face_vert(m, fi, 1).y + face_vert(m, fi, 2).y
    } else {
        face_vert(m, fi, 0).z + face_vert(m, fi, 1).z + face_vert(m, fi, 2).z
    }
}

/// The listed faces are in ascending key order on `axis`.
pub open spec fn sorted_by_key(m: Mesh, axis: u8, s: Seq<usize>) -> bool {
    forall|p: int, q: int|
        0 <= p < q < s.len() ==> face_key(m, axis, #[trigger] s[p]) <= face_key(
            m,
            axis,
            #[trigger] s[q],
        )
}

fn face_key_exec(mesh: &Mesh, axis: u8, fi: usize) -> (r: i64)
    requires
        mesh_wf(*mesh),
        fi < mesh.faces@.len(),
    ensures
        r as int == face_key(*mesh, axis, fi),
{
    let face = &mesh.faces[fi];
    let v0 = mesh.vertexes[face.v0];
    let v1 = mesh.vertexes[face.v1];
    let v2 = mesh.vertexes[face.v2];
    if axis == 0 {
        v0.x + v1.x + v2.x
    } else if axis == 1 {
        v0.y + v1.y + v2.y
    } else {
        v0.z + v1.z + v2.z
    }
}

/// Stable insertion sort of the face list by axis key: the result is a
/// permutation of the input (same multiset) in ascending key order.
fn sort_by_axis(mesh: &Mesh, v: &mut Vec<usize>, axis: u8)
    requires
        mesh_wf(*mesh),
        faces_ok(old(v)@, *mesh),
    ensures
        final(v)@.to_multiset() == old(v)@.to_multiset(),
        final(v)@.len() == old(v)@.len(),
        faces_ok(final(v)@, *mesh),
        sorted_by_key(*mesh, axis, final(v)@),
{
    let n = v.len();
    if n <= 1 {
        return ;
    }
    let mut i: usize = 1;
    while i < v.len()
        invariant
            1 <= i <= v@.len(),
            v@.len() == n,
            mesh_wf(*mesh),
            faces_ok(v@, *mesh),
            v@.to_multiset() == old(v)@.to_multiset(),
            sorted_by_key(*mesh, axis, v@.take(i as int)),
        decreases v@.len() - i,
    {
        let x = v[i];
        let mut j = i;
        while j > 0 && face_key_exec(mesh, axis, v[j - 1]) > face_key_exec(mesh, axis, x)
            invariant
                j <= i < v@.len(),
                mesh_wf(*mesh),
                faces_ok(v@, *mesh),
                x == v@[i as int],
                forall|p: int| j <= p < i ==> face_key(*mesh, axis, #[trigger] v@[p]) > face_key(*mesh, axis, x),
            decreases j,
        {
            j -= 1;
        }
        let ghost before = v@;
        v.remove(i);
        v.insert(j, x);
        proof {
            vstd::seq_lib::to_multiset_remove(before, i as int);
            vstd::seq_lib::to_multiset_insert(before.remove(i as int), j as int, x);
            broadcast use vstd::seq_lib::to_multiset_contains;
            assert(v@.to_multiset() == before.to_multiset().remove(x).insert(x));
            assert(v@.to_multiset() =~= before.to_multiset());
            // the new prefix is sorted: old entries keep their relative
            // order around the inserted element
            let now = v@;
            assert forall|p: int, q: int| 0 <= p < q < i + 1 implies face_key(*mesh, axis, now[p])
                <= face_key(*mesh, axis, now[q]) by {
                assert(forall|p2: int|
                    0 <= p2 < j ==> now[p2] == #[trigger] before[p2]);
                assert(now[j as int] == x);
                assert(forall|p2: int|
                    j < p2 <= i ==> now[p2] == #[trigger] before[p2 - 1]);
                assert(sorted_by_key(*mesh, axis, before.take(i as int)));
                assert(forall|p2: int|
                    0 <= p2 < i ==> before.take(i as int)[p2] == #[trigger] before[p2]);
            }
            assert(now.take(i as int + 1) =~= now.subrange(0, i as int + 1));
            assert(forall|p2: int|
                0 <= p2 < i + 1 ==> now.take(i as int + 1)[p2] == #[trigger] now[p2]);
        }
        i += 1;
    }
    proof {
        assert(v@.take(v@.len() as int) =~= v@);
    }
}

/// Validity and containment carry over to any sequence drawing its
/// elements from the same multiset.
proof fn lemma_faces_perm_transfer(b: Aabb, m: Mesh, s1: Seq<usize>, s2: Seq<usize>)
    requires
        faces_ok(s1, m),
        aabb_contains_faces(b, m, s1),
        s2.to_multiset() == s1.to_multiset(),
    ensures
        faces_ok(s2, m),
        aabb_contains_faces(b, m, s2),
{
    broadcast use vstd::seq_lib::to_multiset_contains;

    assert forall|i: int| 0 <= i < s2.len() implies (#[trigger] s2[i]) < m.faces@.len() by {
        assert(s2.contains(s2[i]));
        assert(s2.to_multiset().count(s2[i]) > 0);
        assert(s1.to_multiset().count(s2[i]) > 0);
        assert(s1.contains(s2[i]));
        let w = choose|w: int| 0 <= w < s1.len() && s1[w] == s2[i];
        assert(s1[w] < m.faces@.len());
    }
    assert forall|i: int, k: int| 0 <= i < s2.len() && 0 <= k < 3 implies aabb_contains(
        b,
        #[trigger] face_vert(m, s2[i], k),
    ) by {
        assert(s2.contains(s2[i]));
        assert(s2.to_multiset().count(s2[i]) > 0);
        assert(s1.to_multiset().count(s2[i]) > 0);
        assert(s1.contains(s2[i]));
        let w = choose|w: int| 0 <= w < s1.len() && s1[w] == s2[i];
        assert(aabb_contains(b, face_vert(m, s1[w], k)));
    }
}

impl BvhNode {
    /// Builds the subtree for the given face indices: box first, then
    /// either a leaf (small lists are kept verbatim) or a sorted median
    /// split into exactly two children.  The subtree holds exactly the
    /// given faces, and every box contains its subtree.
    pub fn from_face_indexes(mesh: &Mesh, face_indexes: Vec<usize>) -> (n: BvhNode)
        requires
            mesh_wf(*mesh),
            faces_ok(face_indexes@, *mesh),
        ensures
            node_wf(n, *mesh),
            subtree_faces(n).to_multiset() == face_indexes@.to_multiset(),
        decreases face_indexes@.len(),
    {
        let mut face_indexes = face_indexes;
        let mut node = BvhNode::empty();
        node.set_aabb(mesh, &face_indexes);
        let mid = face_indexes.len() / 2;
        if mid <= 2 {
            node.face_indexes = face_indexes;
            assert(subtree_faces(node) == node.face_indexes@);
            node
        } else {
            let lx = node.aabb.right_top.x - node.aabb.left_bottom.x;
            let ly = node.aabb.right_top.y - node.aabb.left_bottom.y;
            let lz = node.aabb.right_top.z - node.aabb.left_bottom.z;
            let axis: u8 = if lx > ly && lx > lz {
                0
            } else if ly > lx && ly > lz {
                1
            } else {
                2
            };
            let ghost given = face_indexes@;
            sort_by_axis(mesh, &mut face_indexes, axis);
            let ghost sorted = face_indexes@;
            let tail = face_indexes.split_off(mid);
            proof {
                assert(sorted =~= face_indexes@ + tail@);
                vstd::seq_lib::lemma_multiset_commutative(face_indexes@, tail@);
            }
            let left = BvhNode::from_face_indexes(mesh, face_indexes);
            let right = BvhNode::from_face_indexes(mesh, tail);
            proof {
                vstd::seq_lib::lemma_multiset_commutative(subtree_faces(left), subtree_faces(right));
            }
            node.children = Option::Some((Box::new(left), Box::new(right)));
            proof {
                assert(subtree_faces(node) =~= subtree_faces(left) + subtree_faces(right));
                assert(subtree_faces(node).to_multiset() == given.to_multiset());
                lemma_faces_perm_transfer(node.aabb, *mesh, given, subtree_faces(node));
            }
            node
        }
    }

    /// Builds the tree over every face of the mesh.
    pub fn from_mesh(mesh: &Mesh) -> (n: BvhNode)
        requires
            mesh_wf(*mesh),
        ensures
            node_wf(n, *mesh),
            subtree_faces(n).to_multiset() == Seq::new(
                mesh.faces@.len(),
                |i: int| i as usize,
            ).to_multiset(),
    {
        let n_faces = mesh.faces.len();
        let mut face_indexes: Vec<usize> = Vec::new();
        let mut i: usize = 0;
        while i < n_faces
            invariant
                i <= n_faces,
                n_faces == mesh.faces@.len(),
                face_indexes@ =~= Seq::new(i as nat, |k: int| k as usize),
            decreases n_faces - i,
        {
            face_indexes.push(i);
            proof {
                assert(face_indexes@ =~= Seq::new(i as nat + 1, |k: int| k as usize));
            }
            i += 1;
        }
        proof {
            assert(face_indexes@ =~= Seq::new(mesh.faces@.len(), |k: int| k as usize));
        }
        BvhNode::from_face_indexes(mesh, face_indexes)
    }
}

// --- traversal ---

/// The record and hit flag after testing the listed faces in order against
/// the record `i0`.
pub open spec fn spec_faces_visit(m: Mesh, ray: Ray, faces: Seq<usize>, i0: Intersection) -> (
    Intersection,
    bool,
)
    decreases faces.len(),
{
    if faces.len() == 0 {
        (i0, false)
    } else {
        let prev = spec_faces_visit(m, ray, faces.drop_last(), i0);
        let fi = faces.last();
        let v0 = face_vert(m, fi, 0);
        let v1 = face_vert(m, fi, 1);
        let v2 = face_vert(m, fi, 2);
        (
            spec_polygon_update(v0, v1, v2, ray, prev.0),
            prev.1 || polygon_accepts(v0, v1, v2, ray, prev.0),
        )
    }
}

/// The record and hit flag after a full traversal of the subtree: nothing
/// happens when the node's box rejects the ray; a leaf tests its faces in
/// order; an internal node always visits both children, left then right.
pub open spec fn spec_node_visit(n: BvhNode, m: Mesh, ray: Ray, i0: Intersection) -> (
    Intersection,
    bool,
)
    decreases n,
{
    if !slab_hit(n.aabb, ray) {
        (i0, false)
    } else {
        match n.children {
            Option::None => spec_faces_visit(m, ray, n.face_indexes@, i0),
            Option::Some(c) => {
                let l = spec_node_visit(*c.0, m, ray, i0);
                let r = spec_node_visit(*c.1, m, ray, l.0);
                (r.0, l.1 || r.1)
            },
        }
    }
}

/// The fold over a face list only ever tightens the record's distance and
/// keeps it well formed.
pub proof fn lemma_faces_visit_wf(m: Mesh, ray: Ray, faces: Seq<usize>, i0: Intersection)
    requires
        mesh_wf(m),
        faces_ok(faces, m),
        ray_in_range(ray),
        isect_wf(i0),
    ensures
        isect_wf(spec_faces_visit(m, ray, faces, i0).0),
        dist_le(spec_faces_visit(m, ray, faces, i0).0.distance, i0.distance),
    decreases faces.len(),
{
    if faces.len() > 0 {
        lemma_faces_visit_wf(m, ray, faces.drop_last(), i0);
        let prev = spec_faces_visit(m, ray, faces.drop_last(), i0);
        let fi = faces.last();
        assert(faces[faces.len() - 1] == fi);
        lemma_polygon_update_wf(
            face_vert(m, fi, 0),
            face_vert(m, fi, 1),
            face_vert(m, fi, 2),
            ray,
            prev.0,
        );
        let cur = spec_faces_visit(m, ray, faces, i0);
        lemma_dist_le_trans(cur.0.distance, prev.0.distance, i0.distance);
    }
}

/// Magnitude bound of a determinant of componentwise-bounded triples.
pub proof fn lemma_det3_bound(a: (int, int, int), b: (int, int, int), c: (int, int, int), l: int)
    requires
        0 <= l,
        -l <= a.0 <= l,
        -l <= a.1 <= l,
        -l <= a.2 <= l,
        -l <= b.0 <= l,
        -l <= b.1 <= l,
        -l <= b.2 <= l,
        -l <= c.0 <= l,
        -l <= c.1 <= l,
        -l <= c.2 <= l,
    ensures
        -(6 * (l * (l * l))) <= det3(a, b, c) <= 6 * (l * (l * l)),
{
    let ll = l * l;
    crate::vector::lemma_mul_abs_bound(b.1, c.2, l, l);
    crate::vector::lemma_mul_abs_bound(b.2, c.1, l, l);
    crate::vector::lemma_mul_abs_bound(b.0, c.2, l, l);
    crate::vector::lemma_mul_abs_bound(b.2, c.0, l, l);
    crate::vector::lemma_mul_abs_bound(b.0, c.1, l, l);
    crate::vector::lemma_mul_abs_bound(b.1, c.0, l, l);
    crate::vector::lemma_mul_abs_bound(a.0, b.1 * c.2 - b.2 * c.1, l, 2 * ll);
    crate::vector::lemma_mul_abs_bound(a.1, b.0 * c.2 - b.2 * c.0, l, 2 * ll);
    crate::vector::lemma_mul_abs_bound(a.2, b.0 * c.1 - b.1 * c.0, l, 2 * ll);
    assert(l * (2 * ll) == 2 * (l * ll)) by (nonlinear_arith);
}

/// One triangle test only ever tightens the record's distance and keeps it
/// well formed.
pub proof fn lemma_polygon_update_wf(
    v0: Vector3,
    v1: Vector3,
    v2: Vector3,
    ray: Ray,
    i0: Intersection,
)
    requires
        v3_in_range(v0, COORD_LIMIT as int),
        v3_in_range(v1, COORD_LIMIT as int),
        v3_in_range(v2, COORD_LIMIT as int),
        ray_in_range(ray),
        isect_wf(i0),
    ensures
        isect_wf(spec_polygon_update(v0, v1, v2, ray, i0)),
        dist_le(spec_polygon_update(v0, v1, v2, ray, i0).distance, i0.distance),
{
    if polygon_accepts(v0, v1, v2, ray, i0) {
        let l: int = 2 * COORD_LIMIT as int;
        let e1 = tri_e1(v0, v1);
        let e2 = tri_e2(v0, v2);
        let dd = sv_sub(sv(ray.origin), sv(v0));
        let rv = sv_neg(sv(ray.direction));
        lemma_det3_bound(e1, e2, rv, l);
        lemma_det3_bound(dd, e2, rv, l);
        lemma_det3_bound(e1, dd, rv, l);
        lemma_det3_bound(e1, e2, dd, l);
        assert(6 * (l * (l * l)) == RAT_LIMIT as int);
    }
}

/// A whole subtree visit only ever tightens the record's distance and
/// keeps it well formed.
pub proof fn lemma_node_visit_wf(n: BvhNode, m: Mesh, ray: Ray, i0: Intersection)
    requires
        mesh_wf(m),
        node_wf(n, m),
        ray_in_range(ray),
        isect_wf(i0),
    ensures
        isect_wf(spec_node_visit(n, m, ray, i0).0),
        dist_le(spec_node_visit(n, m, ray, i0).0.distance, i0.distance),
    decreases n,
{
    if slab_hit(n.aabb, ray) {
        match n.children {
            Option::None => {
                lemma_faces_visit_wf(m, ray, n.face_indexes@, i0);
            },
            Option::Some(c) => {
                lemma_node_visit_wf(*c.0, m, ray, i0);
                let l = spec_node_visit(*c.0, m, ray, i0);
                lemma_node_visit_wf(*c.1, m, ray, l.0);
                let r = spec_node_visit(*c.1, m, ray, l.0);
                lemma_dist_le_trans(r.0.distance, l.0.distance, i0.distance);
            },
        }
    }
}

/// Transitivity of the extended distance order.
pub proof fn lemma_dist_le_trans(a: Option<Rat>, b: Option<Rat>, c: Option<Rat>)
    requires
        dist_wf(a),
        dist_wf(b),
        dist_wf(c),
        dist_le(a, b),
        dist_le(b, c),
    ensures
        dist_le(a, c),
{
    match (a, b, c) {
        (Option::Some(x), Option::Some(y), Option::Some(z)) => {
            assert(x.num * z.den <= z.num * x.den) by (nonlinear_arith)
                requires
                    x.den > 0,
                    y.den > 0,
                    z.den > 0,
                    x.num * y.den <= y.num * x.den,
                    y.num * z.den <= z.num * y.den,
            ;
        },
        _ => {},
    }
}

impl BvhNode {
    /// Recursive nearest-hit query: prunes this subtree when its box's
    /// slab test rejects the ray, otherwise tests every leaf face below it,
    /// always visiting both children of an internal node.  Tightens
    /// `intersection` and returns whether this subtree improved it.
    pub fn intersect(&self, mesh: &Mesh, ray: &Ray, intersection: &mut Intersection) -> (r: bool)
        requires
            mesh_wf(*mesh),
            node_wf(*self, *mesh),
            ray_in_range(*ray),
            isect_wf(*old(intersection)),
        ensures
            (*final(intersection), r) == spec_node_visit(*self, *mesh, *ray, *old(intersection)),
            isect_wf(*final(intersection)),
            dist_le(final(intersection).distance, old(intersection).distance),
        decreases *self,
    {
        proof {
            lemma_node_visit_wf(*self, *mesh, *ray, *old(intersection));
        }
        if !self.aabb.intersect_ray(ray) {
            return false;
        }
        let mut any_hit = false;
        match &self.children {
            Option::None => {
                let ghost i0 = *intersection;
                let mut idx: usize = 0;
                while idx < self.face_indexes.len()
                    invariant
                        idx <= self.face_indexes@.len(),
                        mesh_wf(*mesh),
                        faces_ok(self.face_indexes@, *mesh),
                        ray_in_range(*ray),
                        isect_wf(*intersection),
                        (*intersection, any_hit) == spec_faces_visit(
                            *mesh,
                            *ray,
                            self.face_indexes@.take(idx as int),
                            i0,
                        ),
                    decreases self.face_indexes@.len() - idx,
                {
                    let fi = self.face_indexes[idx];
                    let face = &mesh.faces[fi];
                    let v0 = mesh.vertexes[face.v0];
                    let v1 = mesh.vertexes[face.v1];
                    let v2 = mesh.vertexes[face.v2];
                    if intersect_polygon(&v0, &v1, &v2, ray, intersection) {
                        any_hit = true;
                    }
                    proof {
                        let s = self.face_indexes@;
                        assert(s.take(idx as int + 1).drop_last() =~= s.take(idx as int));
                        assert(s.take(idx as int + 1).last() == s[idx as int]);
                        assert(face_vert(*mesh, fi, 0) == v0);
                        assert(face_vert(*mesh, fi, 1) == v1);
                        assert(face_vert(*mesh, fi, 2) == v2);
                    }
                    idx += 1;
                }
                proof {
                    assert(self.face_indexes@.take(self.face_indexes@.len() as int)
                        =~= self.face_indexes@);
                }
            },
            Option::Some(c) => {
                if c.0.intersect(mesh, ray, intersection) {
                    any_hit = true;
                }
                if c.1.intersect(mesh, ray, intersection) {
                    any_hit = true;
                }
            },
        }
        any_hit
    }
}

} // verus!
