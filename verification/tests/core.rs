use raycore::bvh::{intersect_polygon, BvhNode};
use raycore::rat::{mod_euclid, Rat};
use raycore::scene::{Aabb, Face, Intersection, Mesh, Plane, Ray};
use raycore::vector::{Vector2, Vector3};

fn v(x: i64, y: i64, z: i64) -> Vector3 {
    Vector3::new(x, y, z)
}

fn quantized_mesh() -> Mesh {
    // eight separated triangles strung out along the x axis, so the builder
    // actually splits (more than four faces)
    let mut vertexes = Vec::new();
    let mut faces = Vec::new();
    for i in 0..8i64 {
        let base = 10 * i;
        let n = vertexes.len();
        vertexes.push(v(base, 0, 0));
        vertexes.push(v(base + 3, 0, 0));
        vertexes.push(v(base, 3, 0));
        faces.push(Face { v0: n, v1: n + 1, v2: n + 2 });
    }
    Mesh { vertexes, faces }
}

#[test]
fn vector3_arithmetic_is_exact() {
    let a = v(1, 2, 3);
    let b = v(4, -5, 6);
    assert_eq!(a.add(&b), v(5, -3, 9));
    assert_eq!(a.sub(&b), v(-3, 7, -3));
    assert_eq!(a.mul(&b), v(4, -10, 18));
    assert_eq!(a.neg(), v(-1, -2, -3));
    assert_eq!(a.dot(&b), 4 - 10 + 18);
    assert_eq!(a.cross(&b), v(2 * 6 - 3 * (-5), 3 * 4 - 1 * 6, 1 * (-5) - 2 * 4));
    assert_eq!(a.norm(), 1 + 4 + 9);
    assert_eq!(Vector3::zero(), v(0, 0, 0));
    assert_eq!(Vector3::one(), v(1, 1, 1));
    assert_eq!(Vector3::from_one(7), v(7, 7, 7));
}

#[test]
fn vector3_reflect_about_axis() {
    // reflecting (1, -1, 0) about the unit y axis flips the y component
    let d = v(1, -1, 0);
    let n = v(0, 1, 0);
    assert_eq!(d.reflect(&n), v(1, 1, 0));
}

#[test]
fn vector2_arithmetic_is_exact() {
    let a = Vector2::new(3, 4);
    let b = Vector2::new(-1, 2);
    assert_eq!(a.add(&b), Vector2::new(2, 6));
    assert_eq!(a.sub(&b), Vector2::new(4, 2));
    assert_eq!(a.neg(), Vector2::new(-3, -4));
    assert_eq!(a.dot(&b), -3 + 8);
    assert_eq!(a.cross(&b), 3 * 2 - (-1) * 4);
    assert_eq!(a.norm(), 25);
    assert_eq!(Vector2::zero(), Vector2::new(0, 0));
    assert_eq!(Vector2::from_one(5), Vector2::new(5, 5));
}

#[test]
fn rational_comparisons() {
    let half = Rat::new(1, 2);
    let third = Rat::new(1, 3);
    assert!(third.lt(&half));
    assert!(!half.lt(&third));
    assert!(half.le(&half));
    // a negative denominator is normalized away
    let mhalf = Rat::new(1, -2);
    assert_eq!(mhalf, Rat { num: -1, den: 2 });
    assert!(mhalf.lt(&third));
    assert!(Rat::from_int(2).lt(&Rat::from_int(3)));
}

#[test]
fn euclidean_remainder() {
    assert_eq!(mod_euclid(7, 3), 1);
    assert_eq!(mod_euclid(-7, 3), 2);
    assert_eq!(mod_euclid(-6, 3), 0);
    assert_eq!(mod_euclid(0, 5), 0);
}

#[test]
fn union_box_contains_its_points() {
    let mesh = quantized_mesh();
    let mut node = BvhNode::empty();
    let all: Vec<usize> = (0..mesh.faces.len()).collect();
    node.set_aabb(&mesh, &all);
    assert_eq!(node.aabb.left_bottom, v(0, 0, 0));
    assert_eq!(node.aabb.right_top, v(73, 3, 0));
    for p in &mesh.vertexes {
        assert!(node.aabb.left_bottom.x <= p.x && p.x <= node.aabb.right_top.x);
        assert!(node.aabb.left_bottom.y <= p.y && p.y <= node.aabb.right_top.y);
        assert!(node.aabb.left_bottom.z <= p.z && p.z <= node.aabb.right_top.z);
    }
}

#[test]
fn union_over_no_faces_keeps_the_sentinel() {
    let mesh = quantized_mesh();
    let mut node = BvhNode::empty();
    let none: Vec<usize> = Vec::new();
    node.set_aabb(&mesh, &none);
    assert_eq!(node.aabb, Aabb::empty());
}

#[test]
fn union_box_grows_monotonically() {
    let mesh = quantized_mesh();
    let mut node = BvhNode::empty();
    node.set_aabb(&mesh, &vec![0]);
    let first = node.aabb;
    node.set_aabb(&mesh, &vec![7]);
    // the box only ever grows: the first face's span is still covered
    assert!(node.aabb.left_bottom.x <= first.left_bottom.x);
    assert!(node.aabb.right_top.x >= first.right_top.x);
    assert_eq!(node.aabb.left_bottom, v(0, 0, 0));
    assert_eq!(node.aabb.right_top, v(73, 3, 0));
}

#[test]
fn empty_box_is_recognizable() {
    let b = Aabb::empty();
    assert!(b.left_bottom.x > b.right_top.x);
    assert!(b.left_bottom.y > b.right_top.y);
    assert!(b.left_bottom.z > b.right_top.z);
}

#[test]
fn ray_from_inside_box_hits() {
    let b = Aabb {
        left_bottom: v(-10, -10, -10),
        right_top: v(10, 10, 10),
    };
    let ray = Ray { origin: v(1, 2, 3), direction: v(5, -7, 11) };
    assert!(b.intersect_ray(&ray));
    // a zero direction from inside also passes
    let still = Ray { origin: v(0, 0, 0), direction: v(0, 0, 0) };
    assert!(b.intersect_ray(&still));
}

#[test]
fn box_behind_ray_is_rejected() {
    let b = Aabb {
        left_bottom: v(5, -1, -1),
        right_top: v(7, 1, 1),
    };
    let away = Ray { origin: v(0, 0, 0), direction: v(-1, 0, 0) };
    assert!(!b.intersect_ray(&away));
    let towards = Ray { origin: v(0, 0, 0), direction: v(1, 0, 0) };
    assert!(b.intersect_ray(&towards));
    // parallel to the box's slab and outside it
    let beside = Ray { origin: v(0, 5, 0), direction: v(1, 0, 0) };
    assert!(!b.intersect_ray(&beside));
}

#[test]
fn triangle_centroid_hit_along_normal() {
    let v0 = v(0, 0, 0);
    let v1 = v(3, 0, 0);
    let v2 = v(0, 3, 0);
    // centroid (1,1,0); the flat normal is +z, so aim from below it
    let ray = Ray { origin: v(1, 1, -5), direction: v(0, 0, 1) };
    let mut isect = Intersection::empty();
    assert!(intersect_polygon(&v0, &v1, &v2, &ray, &mut isect));
    // exact barycentric coordinates u = v = 1/3
    assert_eq!(isect.uv.nu, 3);
    assert_eq!(isect.uv.nv, 3);
    assert_eq!(isect.uv.den, 9);
    assert!(isect.uv.nu >= 0 && isect.uv.nv >= 0);
    assert!(isect.uv.nu + isect.uv.nv <= isect.uv.den);
    // distance 5, position exactly the centroid
    assert_eq!(isect.distance, Some(Rat { num: 45, den: 9 }));
    assert_eq!(isect.position.nx, 9);
    assert_eq!(isect.position.ny, 9);
    assert_eq!(isect.position.nz, 0);
    assert_eq!(isect.position.den, 9);
    // flat, unnormalized face normal edge1 x edge2
    assert_eq!(isect.normal, v(0, 0, 9));
    // the triangle test leaves the hit flag to the caller
    assert!(!isect.hit);
}

#[test]
fn triangle_rejects_parallel_and_behind() {
    let v0 = v(0, 0, 0);
    let v1 = v(3, 0, 0);
    let v2 = v(0, 3, 0);
    let mut isect = Intersection::empty();
    // direction lies in the triangle's plane: zero determinant, rejected
    let parallel = Ray { origin: v(1, 1, -5), direction: v(1, 1, 0) };
    assert!(!intersect_polygon(&v0, &v1, &v2, &parallel, &mut isect));
    assert_eq!(isect, Intersection::empty());
    // crossing strictly behind the origin, rejected
    let behind = Ray { origin: v(1, 1, 5), direction: v(0, 0, 1) };
    assert!(!intersect_polygon(&v0, &v1, &v2, &behind, &mut isect));
    // outside the triangle, rejected
    let outside = Ray { origin: v(10, 10, -5), direction: v(0, 0, 1) };
    assert!(!intersect_polygon(&v0, &v1, &v2, &outside, &mut isect));
}

#[test]
fn nearer_hit_tightens_farther_hit_keeps() {
    let v0 = v(0, 0, 0);
    let v1 = v(3, 0, 0);
    let v2 = v(0, 3, 0);
    let ray = Ray { origin: v(1, 1, -5), direction: v(0, 0, 1) };
    let mut isect = Intersection::empty();
    assert!(intersect_polygon(&v0, &v1, &v2, &ray, &mut isect));
    let first = isect;
    // the same triangle again: not strictly nearer, record kept
    assert!(!intersect_polygon(&v0, &v1, &v2, &ray, &mut isect));
    assert_eq!(isect, first);
    // a parallel copy one unit nearer tightens the record
    let w0 = v(0, 0, -1);
    let w1 = v(3, 0, -1);
    let w2 = v(0, 3, -1);
    assert!(intersect_polygon(&w0, &w1, &w2, &ray, &mut isect));
    assert_eq!(isect.distance, Some(Rat { num: 36, den: 9 }));
}

#[test]
fn plane_hit_with_tiled_surface_coordinates() {
    let plane = Plane { center: v(0, 0, 0), normal: v(0, 1, 0) };
    let ray = Ray { origin: v(0, 3, 0), direction: v(1, -2, 0) };
    let mut isect = Intersection::empty();
    assert!(plane.intersect(&ray, &mut isect));
    assert!(isect.hit);
    // t = 3/2, position (3/2, 0, 0), u the fractional part 1/2, v zero
    assert_eq!(isect.distance, Some(Rat { num: 3, den: 2 }));
    assert_eq!(isect.position.nx, 3);
    assert_eq!(isect.position.ny, 0);
    assert_eq!(isect.position.nz, 0);
    assert_eq!(isect.position.den, 2);
    assert_eq!(isect.normal, v(0, 1, 0));
    assert_eq!(isect.uv.nu, 1);
    assert_eq!(isect.uv.nv, 0);
    assert_eq!(isect.uv.den, 2);
}

#[test]
fn plane_rejects_parallel_and_behind() {
    let plane = Plane { center: v(0, 0, 0), normal: v(0, 1, 0) };
    let mut isect = Intersection::empty();
    let parallel = Ray { origin: v(0, 3, 0), direction: v(1, 0, 0) };
    assert!(!plane.intersect(&parallel, &mut isect));
    let away = Ray { origin: v(0, 3, 0), direction: v(0, 1, 0) };
    assert!(!plane.intersect(&away, &mut isect));
    assert_eq!(isect, Intersection::empty());
}

#[test]
fn bvh_build_splits_and_keeps_all_faces() {
    let mesh = quantized_mesh();
    let root = BvhNode::from_mesh(&mesh);
    // eight faces force a split: the root is internal and holds no faces
    assert!(root.children.is_some());
    assert!(root.face_indexes.is_empty());
    // every face index appears exactly once over the leaves
    let mut seen = vec![0usize; mesh.faces.len()];
    let mut stack = vec![&root];
    while let Some(n) = stack.pop() {
        match &n.children {
            None => {
                for fi in &n.face_indexes {
                    seen[*fi] += 1;
                }
            }
            Some(c) => {
                assert!(n.face_indexes.is_empty());
                stack.push(&c.0);
                stack.push(&c.1);
            }
        }
    }
    assert!(seen.iter().all(|c| *c == 1));
    // the root's box is the union over the whole mesh
    assert_eq!(root.aabb.left_bottom, v(0, 0, 0));
    assert_eq!(root.aabb.right_top, v(73, 3, 0));
}

#[test]
fn small_mesh_becomes_single_leaf() {
    let mut mesh = quantized_mesh();
    mesh.faces.truncate(4);
    let all: Vec<usize> = (0..mesh.faces.len()).collect();
    let node = BvhNode::from_face_indexes(&mesh, all);
    assert!(node.children.is_none());
    let mut held = node.face_indexes.clone();
    held.sort();
    assert_eq!(held, vec![0, 1, 2, 3]);
}

#[test]
fn empty_mesh_gives_degenerate_empty_box() {
    let mesh = Mesh { vertexes: Vec::new(), faces: Vec::new() };
    let root = BvhNode::from_mesh(&mesh);
    assert!(root.children.is_none());
    assert!(root.face_indexes.is_empty());
    assert!(root.aabb.left_bottom.x > root.aabb.right_top.x);
}

#[test]
fn bvh_matches_brute_force() {
    let mesh = quantized_mesh();
    let root = BvhNode::from_mesh(&mesh);
    // rays at several stations along x, pointing down the z axis from in
    // front of the triangles, plus some that miss everything
    for sx in -1..30i64 {
        let ray = Ray { origin: v(3 * sx, 1, -7), direction: v(0, 0, 1) };
        let mut via_bvh = Intersection::empty();
        let hit_bvh = root.intersect(&mesh, &ray, &mut via_bvh);
        let mut brute = Intersection::empty();
        let mut hit_brute = false;
        for f in &mesh.faces {
            if intersect_polygon(
                &mesh.vertexes[f.v0],
                &mesh.vertexes[f.v1],
                &mesh.vertexes[f.v2],
                &ray,
                &mut brute,
            ) {
                hit_brute = true;
            }
        }
        assert_eq!(hit_bvh, hit_brute);
        assert_eq!(via_bvh.distance, brute.distance);
        assert_eq!(via_bvh.position, brute.position);
    }
}

#[test]
fn repeated_query_is_deterministic() {
    let mesh = quantized_mesh();
    let root = BvhNode::from_mesh(&mesh);
    let ray = Ray { origin: v(1, 1, -9), direction: v(0, 0, 2) };
    let mut first = Intersection::empty();
    let r1 = root.intersect(&mesh, &ray, &mut first);
    let mut second = Intersection::empty();
    let r2 = root.intersect(&mesh, &ray, &mut second);
    assert_eq!(r1, r2);
    assert_eq!(first, second);
}
