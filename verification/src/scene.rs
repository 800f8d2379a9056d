//! Rays, triangle meshes, axis-aligned bounding boxes with the slab
//! rejection test, the per-query hit record, and the infinite-plane
//! primitive.

use vstd::prelude::*;

use crate::rat::{
    dist_le, dist_wf, lt_dist, lt_dist_exec, mod_euclid, rat_le, rat_lt, rat_norm, rat_wf, Rat,
    RatVec2, RatVec3, RAT_LIMIT,
};
use crate::vector::{v3_in_range, Vector3, COORD_LIMIT};

verus! {

#[derive(Clone, Copy, Debug, PartialEq, Eq, Structural)]
pub struct Ray {
    pub origin: Vector3,
    pub direction: Vector3,
}

/// Both endpoints of the ray description are in-range coordinates.
pub open spec fn ray_in_range(r: Ray) -> bool {
    v3_in_range(r.origin, COORD_LIMIT as int) && v3_in_range(r.direction, COORD_LIMIT as int)
}

/// A triangular face: three indices into the mesh's vertex list.
#[derive(Clone, Copy, Debug, PartialEq, Eq, Structural)]
pub struct Face {
    pub v0: usize,
    pub v1: usize,
    pub v2: usize,
}

/// An indexed triangle mesh, immutable once built.
#[derive(Debug)]
pub struct Mesh {
    pub vertexes: Vec<Vector3>,
    pub faces: Vec<Face>,
}

pub open spec fn face_ok(f: Face, n_verts: int) -> bool {
    f.v0 < n_verts && f.v1 < n_verts && f.v2 < n_verts
}

/// Every face refers to existing vertexes and every vertex coordinate is in
/// range.
pub open spec fn mesh_wf(m: Mesh) -> bool {
    &&& forall|i: int|
        0 <= i < m.faces@.len() ==> face_ok(#[trigger] m.faces@[i], m.vertexes@.len() as int)
    &&& forall|i: int|
        0 <= i < m.vertexes@.len() ==> v3_in_range(#[trigger] m.vertexes@[i], COORD_LIMIT as int)
}

/// Vertex `k` (0, 1 or 2) of face number `fi`.
pub open spec fn face_vert(m: Mesh, fi: usize, k: int) -> Vector3 {
    if k == 0 {
        m.vertexes@[m.faces@[fi as int].v0 as int]
    } else if k == 1 {
        m.vertexes@[m.faces@[fi as int].v1 as int]
    } else {
        m.vertexes@[m.faces@[fi as int].v2 as int]
    }
}

/// Axis-aligned bounding box, as its two corners.  An "empty" box is the
/// sentinel whose min corner exceeds its max corner on every axis, so that
/// expanding by any in-range point always lands on that point.
#[derive(Clone, Copy, Debug, PartialEq, Eq, Structural)]
pub struct Aabb {
    pub left_bottom: Vector3,
    pub right_top: Vector3,
}

/// The sentinel box that contains nothing.
pub open spec fn aabb_sentinel() -> Aabb {
    Aabb {
        left_bottom: Vector3 { x: COORD_LIMIT, y: COORD_LIMIT, z: COORD_LIMIT },
        right_top: Vector3 {
            x: (-COORD_LIMIT) as i64,
            y: (-COORD_LIMIT) as i64,
            z: (-COORD_LIMIT) as i64,
        },
    }
}

pub open spec fn aabb_in_range(b: Aabb) -> bool {
    v3_in_range(b.left_bottom, COORD_LIMIT as int) && v3_in_range(b.right_top, COORD_LIMIT as int)
}

/// `v` lies inside `b`, componentwise.
pub open spec fn aabb_contains(b: Aabb, v: Vector3) -> bool {
    &&& b.left_bottom.x <= v.x <= b.right_top.x
    &&& b.left_bottom.y <= v.y <= b.right_top.y
    &&& b.left_bottom.z <= v.z <= b.right_top.z
}

/// `b` grown just enough to contain `v`: the min corner takes the running
/// minimum, the max corner the running maximum, on every axis.
pub open spec fn aabb_expand(b: Aabb, v: Vector3) -> Aabb {
    Aabb {
        left_bottom: Vector3 {
            x: if v.x < b.left_bottom.x { v.x } else { b.left_bottom.x },
            y: if v.y < b.left_bottom.y { v.y } else { b.left_bottom.y },
            z: if v.z < b.left_bottom.z { v.z } else { b.left_bottom.z },
        },
        right_top: Vector3 {
            x: if v.x > b.right_top.x { v.x } else { b.right_top.x },
            y: if v.y > b.right_top.y { v.y } else { b.right_top.y },
            z: if v.z > b.right_top.z { v.z } else { b.right_top.z },
        },
    }
}

// --- the slab rejection test, in exact rational arithmetic ---
//
// The running state is (alive, t_near, t_far): `alive` falls when an axis
// with zero direction lies outside its slab; `t_near`/`t_far` are the
// intersection of the per-axis parameter intervals, `None` standing for
// minus/plus infinity.

/// The larger of an optional lower bound and a new finite one.
pub open spec fn bound_max(a: Option<Rat>, t: Rat) -> Option<Rat> {
    match a {
        Option::None => Option::Some(t),
        Option::Some(x) => if rat_lt(x, t) {
            Option::Some(t)
        } else {
            Option::Some(x)
        },
    }
}

/// The smaller of an optional upper bound and a new finite one.
pub open spec fn bound_min(a: Option<Rat>, t: Rat) -> Option<Rat> {
    match a {
        Option::None => Option::Some(t),
        Option::Some(x) => if rat_lt(t, x) {
            Option::Some(t)
        } else {
            Option::Some(x)
        },
    }
}

/// One axis of the slab test: `o` and `d` are the ray's origin and direction
/// components, `lo`/`hi` the slab.  With `d == 0` the axis constrains
/// nothing or everything; otherwise the parameter interval between the two
/// crossing times is intersected into the running interval.
pub open spec fn slab_axis(
    st: (bool, Option<Rat>, Option<Rat>),
    o: i64,
    d: i64,
    lo: i64,
    hi: i64,
) -> (bool, Option<Rat>, Option<Rat>) {
    if d == 0 {
        (st.0 && lo <= o && o <= hi, st.1, st.2)
    } else {
        let t1 = rat_norm((lo - o) as i128, d as i128);
        let t2 = rat_norm((hi - o) as i128, d as i128);
        let near = if d > 0 { t1 } else { t2 };
        let far = if d > 0 { t2 } else { t1 };
        (st.0, bound_max(st.1, near), bound_min(st.2, far))
    }
}

/// The whole slab test: a "possible hit" answer used purely to prune.
/// Rejects exactly when some zero-direction axis misses its slab, the
/// parameter interval is empty, or the interval lies entirely behind the
/// origin.
pub open spec fn slab_hit(b: Aabb, ray: Ray) -> bool {
    let s1 = slab_axis(
        (true, Option::None, Option::None),
        ray.origin.x,
        ray.direction.x,
        b.left_bottom.x,
        b.right_top.x,
    );
    let s2 = slab_axis(s1, ray.origin.y, ray.direction.y, b.left_bottom.y, b.right_top.y);
    let s3 = slab_axis(s2, ray.origin.z, ray.direction.z, b.left_bottom.z, b.right_top.z);
    s3.0 && interval_nonempty(s3.1, s3.2) && far_not_behind(s3.2)
}

pub open spec fn interval_nonempty(tn: Option<Rat>, tf: Option<Rat>) -> bool {
    match (tn, tf) {
        (Option::Some(a), Option::Some(b)) => rat_le(a, b),
        _ => true,
    }
}

pub open spec fn far_not_behind(tf: Option<Rat>) -> bool {
    match tf {
        Option::None => true,
        Option::Some(b) => b.num >= 0,
    }
}

pub open spec fn slab_st_wf(st: (bool, Option<Rat>, Option<Rat>)) -> bool {
    dist_wf(st.1) && dist_wf(st.2)
}

fn bound_max_exec(a: Option<Rat>, t: Rat) -> (r: Option<Rat>)
    requires
        dist_wf(a),
        rat_wf(t),
    ensures
        r == bound_max(a, t),
        dist_wf(r),
{
    match a {
        Option::None => Option::Some(t),
        Option::Some(x) => if x.lt(&t) {
            Option::Some(t)
        } else {
            Option::Some(x)
        },
    }
}

fn bound_min_exec(a: Option<Rat>, t: Rat) -> (r: Option<Rat>)
    requires
        dist_wf(a),
        rat_wf(t),
    ensures
        r == bound_min(a, t),
        dist_wf(r),
{
    match a {
        Option::None => Option::Some(t),
        Option::Some(x) => if t.lt(&x) {
            Option::Some(t)
        } else {
            Option::Some(x)
        },
    }
}

fn slab_axis_exec(st: (bool, Option<Rat>, Option<Rat>), o: i64, d: i64, lo: i64, hi: i64) -> (r: (
    bool,
    Option<Rat>,
    Option<Rat>,
))
    requires
        slab_st_wf(st),
        -COORD_LIMIT <= o <= COORD_LIMIT,
        -COORD_LIMIT <= d <= COORD_LIMIT,
        -COORD_LIMIT <= lo <= COORD_LIMIT,
        -COORD_LIMIT <= hi <= COORD_LIMIT,
    ensures
        r == slab_axis(st, o, d, lo, hi),
        slab_st_wf(r),
{
    if d == 0 {
        (st.0 && lo <= o && o <= hi, st.1, st.2)
    } else {
        let n1 = (lo - o) as i128;
        let n2 = (hi - o) as i128;
        let t1 = Rat::new(n1, d as i128);
        let t2 = Rat::new(n2, d as i128);
        let near = if d > 0 { t1 } else { t2 };
        let far = if d > 0 { t2 } else { t1 };
        (st.0, bound_max_exec(st.1, near), bound_min_exec(st.2, far))
    }
}

impl Aabb {
    /// The box that contains nothing: expanding it by any point lands on
    /// that point.
    pub fn empty() -> (b: Aabb)
        ensures
            b == aabb_sentinel(),
    {
        Aabb {
            left_bottom: Vector3 { x: COORD_LIMIT, y: COORD_LIMIT, z: COORD_LIMIT },
            right_top: Vector3 { x: -COORD_LIMIT, y: -COORD_LIMIT, z: -COORD_LIMIT },
        }
    }

    /// Slab-method ray rejection test: `true` when the ray may meet the box
    /// at some parameter `t >= 0`.  Used purely to prune; produces no hit
    /// record.
    pub fn intersect_ray(&self, ray: &Ray) -> (r: bool)
        requires
            aabb_in_range(*self),
            ray_in_range(*ray),
        ensures
            r == slab_hit(*self, *ray),
    {
        let st0: (bool, Option<Rat>, Option<Rat>) = (true, Option::None, Option::None);
        let s1 = slab_axis_exec(
            st0,
            ray.origin.x,
            ray.direction.x,
            self.left_bottom.x,
            self.right_top.x,
        );
        let s2 = slab_axis_exec(
            s1,
            ray.origin.y,
            ray.direction.y,
            self.left_bottom.y,
            self.right_top.y,
        );
        let s3 = slab_axis_exec(
            s2,
            ray.origin.z,
            ray.direction.z,
            self.left_bottom.z,
            self.right_top.z,
        );
        let nonempty: bool = match (s3.1, s3.2) {
            (Option::Some(a), Option::Some(b)) => a.le(&b),
            _ => true,
        };
        let far_ok: bool = match s3.2 {
            Option::None => true,
            Option::Some(b) => b.num >= 0,
        };
        s3.0 && nonempty && far_ok
    }
}

/// The per-query nearest-hit accumulator.  `distance` is the best (smallest)
/// ray parameter found so far, `None` until a first hit bounds it; it only
/// ever shrinks.  `normal` is reported as an exact integer direction, not
/// normalized (unit scaling belongs to real arithmetic, which the caller
/// owns).  A material slot is the caller's affair and deliberately absent.
#[derive(Clone, Copy, Debug, PartialEq, Eq)]
pub struct Intersection {
    pub hit: bool,
    pub position: RatVec3,
    pub distance: Option<Rat>,
    pub normal: Vector3,
    pub uv: RatVec2,
}

pub open spec fn isect_wf(i: Intersection) -> bool {
    i.position.den > 0 && i.uv.den > 0 && dist_wf(i.distance)
}

impl Intersection {
    /// A fresh accumulator: no hit yet, distance unbounded.
    pub fn empty() -> (i: Intersection)
        ensures
            i == spec_isect_empty(),
            isect_wf(i),
    {
        Intersection {
            hit: false,
            position: RatVec3 { nx: 0, ny: 0, nz: 0, den: 1 },
            distance: Option::None,
            normal: Vector3 { x: 0, y: 0, z: 0 },
            uv: RatVec2 { nu: 0, nv: 0, den: 1 },
        }
    }
}

pub open spec fn spec_isect_empty() -> Intersection {
    Intersection {
        hit: false,
        position: RatVec3 { nx: 0, ny: 0, nz: 0, den: 1 },
        distance: Option::None,
        normal: Vector3 { x: 0, y: 0, z: 0 },
        uv: RatVec2 { nu: 0, nv: 0, den: 1 },
    }
}

/// An infinite plane through `center` with the given normal direction.  The
/// tiled surface coordinates are only geometrically meaningful when the
/// normal is the vertical axis; with any other normal the test is still
/// exact but the tiling is not.
#[derive(Clone, Copy, Debug, PartialEq, Eq, Structural)]
pub struct Plane {
    pub center: Vector3,
    pub normal: Vector3,
}

pub open spec fn plane_in_range(p: Plane) -> bool {
    v3_in_range(p.center, COORD_LIMIT as int) && v3_in_range(p.normal, COORD_LIMIT as int)
}

/// Ray parameter of the ray/plane crossing, as numerator and denominator:
/// `t = ((center - origin) . normal) / (direction . normal)`.
pub open spec fn plane_t_num(p: Plane, ray: Ray) -> int {
    (p.center.x - ray.origin.x) * p.normal.x + (p.center.y - ray.origin.y) * p.normal.y + (
    p.center.z - ray.origin.z) * p.normal.z
}

pub open spec fn plane_t_den(p: Plane, ray: Ray) -> int {
    ray.direction.x * p.normal.x + ray.direction.y * p.normal.y + ray.direction.z * p.normal.z
}

/// The plane test accepts exactly when the ray is not parallel to the plane
/// and the crossing lies strictly in front of the origin and strictly nearer
/// than the best distance so far.
pub open spec fn plane_accepts(p: Plane, ray: Ray, i0: Intersection) -> bool {
    let den = plane_t_den(p, ray);
    let t = rat_norm(plane_t_num(p, ray) as i128, den as i128);
    den != 0 && t.num > 0 && lt_dist(t, i0.distance)
}

/// The record after one plane test: unchanged on rejection; on acceptance
/// the hit flag is raised and position, distance, normal and the tiled
/// surface coordinates (each position component orthogonal to the vertical
/// axis, reduced modulo one) are overwritten.
pub open spec fn spec_plane_update(p: Plane, ray: Ray, i0: Intersection) -> Intersection {
    if !plane_accepts(p, ray, i0) {
        i0
    } else {
        let t = rat_norm(plane_t_num(p, ray) as i128, plane_t_den(p, ray) as i128);
        let px = ray.origin.x * (t.den as int) + ray.direction.x * (t.num as int);
        let py = ray.origin.y * (t.den as int) + ray.direction.y * (t.num as int);
        let pz = ray.origin.z * (t.den as int) + ray.direction.z * (t.num as int);
        Intersection {
            hit: true,
            position: RatVec3 { nx: px as i128, ny: py as i128, nz: pz as i128, den: t.den },
            distance: Option::Some(t),
            normal: p.normal,
            uv: RatVec2 {
                nu: (px % (t.den as int)) as i128,
                nv: (pz % (t.den as int)) as i128,
                den: t.den,
            },
        }
    }
}

impl Plane {
    /// Nearest-hit test against the plane, tightening `intersection` on
    /// success.  Returns whether this call improved the record.
    pub fn intersect(&self, ray: &Ray, intersection: &mut Intersection) -> (r: bool)
        requires
            plane_in_range(*self),
            ray_in_range(*ray),
            isect_wf(*old(intersection)),
        ensures
            *final(intersection) == spec_plane_update(*self, *ray, *old(intersection)),
            r == plane_accepts(*self, *ray, *old(intersection)),
            isect_wf(*final(intersection)),
            dist_le(final(intersection).distance, old(intersection).distance),
    {
        let diff = self.center.sub(&ray.origin);
        let num = diff.dot(&self.normal);
        let den = ray.direction.dot(&self.normal);
        if den == 0 {
            return false;
        }
        proof {
            crate::vector::lemma_mul_abs_bound(
                diff.x as int,
                self.normal.x as int,
                2 * COORD_LIMIT as int,
                COORD_LIMIT as int,
            );
            crate::vector::lemma_mul_abs_bound(
                diff.y as int,
                self.normal.y as int,
                2 * COORD_LIMIT as int,
                COORD_LIMIT as int,
            );
            crate::vector::lemma_mul_abs_bound(
                diff.z as int,
                self.normal.z as int,
                2 * COORD_LIMIT as int,
                COORD_LIMIT as int,
            );
            crate::vector::lemma_mul_abs_bound(
                ray.direction.x as int,
                self.normal.x as int,
                COORD_LIMIT as int,
                COORD_LIMIT as int,
            );
            crate::vector::lemma_mul_abs_bound(
                ray.direction.y as int,
                self.normal.y as int,
                COORD_LIMIT as int,
                COORD_LIMIT as int,
            );
            crate::vector::lemma_mul_abs_bound(
                ray.direction.z as int,
                self.normal.z as int,
                COORD_LIMIT as int,
                COORD_LIMIT as int,
            );
        }
        let t = Rat::new(num as i128, den as i128);
        if !(t.num > 0) {
            return false;
        }
        if !lt_dist_exec(&t, &intersection.distance) {
            return false;
        }
        proof {
            crate::vector::lemma_mul_abs_bound(
                ray.origin.x as int,
                t.den as int,
                COORD_LIMIT as int,
                RAT_LIMIT as int,
            );
            crate::vector::lemma_mul_abs_bound(
                ray.origin.y as int,
                t.den as int,
                COORD_LIMIT as int,
                RAT_LIMIT as int,
            );
            crate::vector::lemma_mul_abs_bound(
                ray.origin.z as int,
                t.den as int,
                COORD_LIMIT as int,
                RAT_LIMIT as int,
            );
            crate::vector::lemma_mul_abs_bound(
                ray.direction.x as int,
                t.num as int,
                COORD_LIMIT as int,
                RAT_LIMIT as int,
            );
            crate::vector::lemma_mul_abs_bound(
                ray.direction.y as int,
                t.num as int,
                COORD_LIMIT as int,
                RAT_LIMIT as int,
            );
            crate::vector::lemma_mul_abs_bound(
                ray.direction.z as int,
                t.num as int,
                COORD_LIMIT as int,
                RAT_LIMIT as int,
            );
        }
        let px = (ray.origin.x as i128) * t.den + (ray.direction.x as i128) * t.num;
        let py = (ray.origin.y as i128) * t.den + (ray.direction.y as i128) * t.num;
        let pz = (ray.origin.z as i128) * t.den + (ray.direction.z as i128) * t.num;
        let nu = mod_euclid(px, t.den);
        let nv = mod_euclid(pz, t.den);
        intersection.hit = true;
        intersection.position = RatVec3 { nx: px, ny: py, nz: pz, den: t.den };
        intersection.distance = Option::Some(t);
        intersection.normal = self.normal;
        intersection.uv = RatVec2 { nu, nv, den: t.den };
        true
    }
}

} // verus!
