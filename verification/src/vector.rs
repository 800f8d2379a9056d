//! Integer 3D and 2D vector types with the arithmetic, dot and cross
//! operations the rest of the core depends on.
//!
//! Components are fixed-point integers bounded by `COORD_LIMIT`; the bound
//! keeps every determinant and rational comparison downstream inside `i128`.

use vstd::prelude::*;

verus! {

/// Largest magnitude allowed for a scene coordinate (vertex, ray origin or
/// ray direction component).
pub const COORD_LIMIT: i64 = 262144;

/// Bound on a difference of two in-range coordinates (an edge component).
pub const COORD_LIMIT2: i64 = 524288;

#[derive(Clone, Copy, Debug, PartialEq, Eq, Structural)]
pub struct Vector3 {
    pub x: i64,
    pub y: i64,
    pub z: i64,
}

#[derive(Clone, Copy, Debug, PartialEq, Eq, Structural)]
pub struct Vector2 {
    pub x: i64,
    pub y: i64,
}

/// Every component of `v` has magnitude at most `b`.
pub open spec fn v3_in_range(v: Vector3, b: int) -> bool {
    -b <= v.x <= b && -b <= v.y <= b && -b <= v.z <= b
}

/// Mathematical dot product of two 3D vectors.
pub open spec fn dot3(a: Vector3, b: Vector3) -> int {
    a.x * b.x + a.y * b.y + a.z * b.z
}

/// Mathematical cross product of two 3D vectors, as an integer triple.
pub open spec fn cross3(a: Vector3, b: Vector3) -> (int, int, int) {
    (a.y * b.z - a.z * b.y, a.z * b.x - a.x * b.z, a.x * b.y - a.y * b.x)
}

/// `|a * b| <= ab * bb` whenever `|a| <= ab` and `|b| <= bb`.
pub proof fn lemma_mul_abs_bound(a: int, b: int, ab: int, bb: int)
    requires
        -ab <= a <= ab,
        -bb <= b <= bb,
    ensures
        -(ab * bb) <= a * b <= ab * bb,
{
    assert(-(ab * bb) <= a * b <= ab * bb) by (nonlinear_arith)
        requires
            -ab <= a <= ab,
            -bb <= b <= bb,
    ;
}

impl Vector3 {
    pub fn new(x: i64, y: i64, z: i64) -> (v: Vector3)
        ensures
            v == (Vector3 { x, y, z }),
    {
        Vector3 { x, y, z }
    }

    pub fn zero() -> (v: Vector3)
        ensures
            v == (Vector3 { x: 0i64, y: 0i64, z: 0i64 }),
    {
        Vector3 { x: 0, y: 0, z: 0 }
    }

    pub fn one() -> (v: Vector3)
        ensures
            v == (Vector3 { x: 1i64, y: 1i64, z: 1i64 }),
    {
        Vector3 { x: 1, y: 1, z: 1 }
    }

    pub fn from_one(v: i64) -> (r: Vector3)
        ensures
            r == (Vector3 { x: v, y: v, z: v }),
    {
        Vector3 { x: v, y: v, z: v }
    }

    pub fn add(&self, other: &Vector3) -> (r: Vector3)
        requires
            i64::MIN <= self.x + other.x <= i64::MAX,
            i64::MIN <= self.y + other.y <= i64::MAX,
            i64::MIN <= self.z + other.z <= i64::MAX,
        ensures
            r.x == self.x + other.x,
            r.y == self.y + other.y,
            r.z == self.z + other.z,
    {
        Vector3 { x: self.x + other.x, y: self.y + other.y, z: self.z + other.z }
    }

    pub fn sub(&self, other: &Vector3) -> (r: Vector3)
        requires
            i64::MIN <= self.x - other.x <= i64::MAX,
            i64::MIN <= self.y - other.y <= i64::MAX,
            i64::MIN <= self.z - other.z <= i64::MAX,
        ensures
            r.x == self.x - other.x,
            r.y == self.y - other.y,
            r.z == self.z - other.z,
    {
        Vector3 { x: self.x - other.x, y: self.y - other.y, z: self.z - other.z }
    }

    /// Componentwise product.
    pub fn mul(&self, other: &Vector3) -> (r: Vector3)
        requires
            i64::MIN <= self.x * other.x <= i64::MAX,
            i64::MIN <= self.y * other.y <= i64::MAX,
            i64::MIN <= self.z * other.z <= i64::MAX,
        ensures
            r.x == self.x * other.x,
            r.y == self.y * other.y,
            r.z == self.z * other.z,
    {
        Vector3 { x: self.x * other.x, y: self.y * other.y, z: self.z * other.z }
    }

    /// Product with a scalar.
    pub fn scale(&self, k: i64) -> (r: Vector3)
        requires
            i64::MIN <= self.x * k <= i64::MAX,
            i64::MIN <= self.y * k <= i64::MAX,
            i64::MIN <= self.z * k <= i64::MAX,
        ensures
            r.x == self.x * k,
            r.y == self.y * k,
            r.z == self.z * k,
    {
        Vector3 { x: self.x * k, y: self.y * k, z: self.z * k }
    }

    pub fn neg(&self) -> (r: Vector3)
        requires
            self.x != i64::MIN,
            self.y != i64::MIN,
            self.z != i64::MIN,
        ensures
            r.x == -self.x,
            r.y == -self.y,
            r.z == -self.z,
    {
        Vector3 { x: -self.x, y: -self.y, z: -self.z }
    }

    pub fn dot(&self, other: &Vector3) -> (r: i64)
        requires
            v3_in_range(*self, COORD_LIMIT2 as int),
            v3_in_range(*other, COORD_LIMIT2 as int),
        ensures
            r == dot3(*self, *other),
    {
        proof {
            lemma_mul_abs_bound(self.x as int, other.x as int, COORD_LIMIT2 as int, COORD_LIMIT2 as int);
            lemma_mul_abs_bound(self.y as int, other.y as int, COORD_LIMIT2 as int, COORD_LIMIT2 as int);
            lemma_mul_abs_bound(self.z as int, other.z as int, COORD_LIMIT2 as int, COORD_LIMIT2 as int);
        }
        self.x * other.x + self.y * other.y + self.z * other.z
    }

    pub fn cross(&self, other: &Vector3) -> (r: Vector3)
        requires
            v3_in_range(*self, COORD_LIMIT2 as int),
            v3_in_range(*other, COORD_LIMIT2 as int),
        ensures
            (r.x as int, r.y as int, r.z as int) == cross3(*self, *other),
    {
        proof {
            lemma_mul_abs_bound(self.y as int, other.z as int, COORD_LIMIT2 as int, COORD_LIMIT2 as int);
            lemma_mul_abs_bound(self.z as int, other.y as int, COORD_LIMIT2 as int, COORD_LIMIT2 as int);
            lemma_mul_abs_bound(self.z as int, other.x as int, COORD_LIMIT2 as int, COORD_LIMIT2 as int);
            lemma_mul_abs_bound(self.x as int, other.z as int, COORD_LIMIT2 as int, COORD_LIMIT2 as int);
            lemma_mul_abs_bound(self.x as int, other.y as int, COORD_LIMIT2 as int, COORD_LIMIT2 as int);
            lemma_mul_abs_bound(self.y as int, other.x as int, COORD_LIMIT2 as int, COORD_LIMIT2 as int);
        }
        Vector3 {
            x: self.y * other.z - self.z * other.y,
            y: self.z * other.x - self.x * other.z,
            z: self.x * other.y - self.y * other.x,
        }
    }

    /// Mirror of `self` about the plane orthogonal to `normal`, scaled so the
    /// formula stays exact: `self - 2 * (self . normal) * normal`.  The usual
    /// reflection of real geometry when `normal` has unit length in the
    /// caller's fixed-point scale.
    pub fn reflect(&self, normal: &Vector3) -> (r: Vector3)
        requires
            v3_in_range(*self, COORD_LIMIT as int),
            v3_in_range(*normal, COORD_LIMIT as int),
        ensures
            r.x == self.x - 2 * dot3(*self, *normal) * normal.x,
            r.y == self.y - 2 * dot3(*self, *normal) * normal.y,
            r.z == self.z - 2 * dot3(*self, *normal) * normal.z,
    {
        let d = self.dot(normal);
        proof {
            lemma_mul_abs_bound(self.x as int, normal.x as int, COORD_LIMIT2 as int, COORD_LIMIT2 as int);
            lemma_mul_abs_bound(self.y as int, normal.y as int, COORD_LIMIT2 as int, COORD_LIMIT2 as int);
            lemma_mul_abs_bound(self.z as int, normal.z as int, COORD_LIMIT2 as int, COORD_LIMIT2 as int);
            lemma_mul_abs_bound(
                2 * d as int,
                normal.x as int,
                6 * (COORD_LIMIT2 as int) * (COORD_LIMIT2 as int),
                COORD_LIMIT as int,
            );
            lemma_mul_abs_bound(
                2 * d as int,
                normal.y as int,
                6 * (COORD_LIMIT2 as int) * (COORD_LIMIT2 as int),
                COORD_LIMIT as int,
            );
            lemma_mul_abs_bound(
                2 * d as int,
                normal.z as int,
                6 * (COORD_LIMIT2 as int) * (COORD_LIMIT2 as int),
                COORD_LIMIT as int,
            );
        }
        Vector3 {
            x: self.x - 2 * d * normal.x,
            y: self.y - 2 * d * normal.y,
            z: self.z - 2 * d * normal.z,
        }
    }

    /// Squared Euclidean length.
    pub fn norm(&self) -> (r: i64)
        requires
            v3_in_range(*self, COORD_LIMIT2 as int),
        ensures
            r == dot3(*self, *self),
    {
        self.dot(self)
    }
}

impl Vector2 {
    pub fn new(x: i64, y: i64) -> (v: Vector2)
        ensures
            v == (Vector2 { x, y }),
    {
        Vector2 { x, y }
    }

    pub fn zero() -> (v: Vector2)
        ensures
            v == (Vector2 { x: 0i64, y: 0i64 }),
    {
        Vector2 { x: 0, y: 0 }
    }

    pub fn from_one(v: i64) -> (r: Vector2)
        ensures
            r == (Vector2 { x: v, y: v }),
    {
        Vector2 { x: v, y: v }
    }

    pub fn add(&self, other: &Vector2) -> (r: Vector2)
        requires
            i64::MIN <= self.x + other.x <= i64::MAX,
            i64::MIN <= self.y + other.y <= i64::MAX,
        ensures
            r.x == self.x + other.x,
            r.y == self.y + other.y,
    {
        Vector2 { x: self.x + other.x, y: self.y + other.y }
    }

    pub fn sub(&self, other: &Vector2) -> (r: Vector2)
        requires
            i64::MIN <= self.x - other.x <= i64::MAX,
            i64::MIN <= self.y - other.y <= i64::MAX,
        ensures
            r.x == self.x - other.x,
            r.y == self.y - other.y,
    {
        Vector2 { x: self.x - other.x, y: self.y - other.y }
    }

    pub fn neg(&self) -> (r: Vector2)
        requires
            self.x != i64::MIN,
            self.y != i64::MIN,
        ensures
            r.x == -self.x,
            r.y == -self.y,
    {
        Vector2 { x: -self.x, y: -self.y }
    }

    pub fn dot(&self, other: &Vector2) -> (r: i64)
        requires
            v2_in_range(*self, COORD_LIMIT2 as int),
            v2_in_range(*other, COORD_LIMIT2 as int),
        ensures
            r == self.x * other.x + self.y * other.y,
    {
        proof {
            lemma_mul_abs_bound(self.x as int, other.x as int, COORD_LIMIT2 as int, COORD_LIMIT2 as int);
            lemma_mul_abs_bound(self.y as int, other.y as int, COORD_LIMIT2 as int, COORD_LIMIT2 as int);
        }
        self.x * other.x + self.y * other.y
    }

    /// 2D cross product (the scalar `x1*y2 - x2*y1`).
    pub fn cross(&self, other: &Vector2) -> (r: i64)
        requires
            v2_in_range(*self, COORD_LIMIT2 as int),
            v2_in_range(*other, COORD_LIMIT2 as int),
        ensures
            r == self.x * other.y - other.x * self.y,
    {
        proof {
            lemma_mul_abs_bound(self.x as int, other.y as int, COORD_LIMIT2 as int, COORD_LIMIT2 as int);
            lemma_mul_abs_bound(other.x as int, self.y as int, COORD_LIMIT2 as int, COORD_LIMIT2 as int);
        }
        self.x * other.y - other.x * self.y
    }

    /// Squared Euclidean length.
    pub fn norm(&self) -> (r: i64)
        requires
            v2_in_range(*self, COORD_LIMIT2 as int),
        ensures
            r == self.x * self.x + self.y * self.y,
    {
        self.dot(self)
    }
}

/// Every component of `v` has magnitude at most `b`.
pub open spec fn v2_in_range(v: Vector2, b: int) -> bool {
    -b <= v.x <= b && -b <= v.y <= b
}

} // verus!
