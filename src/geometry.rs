use vstd::prelude::*;

verus! {

/// Fixed-point scale of a basis vector component: `UNIT` stands for 1.0.
pub const UNIT: i64 = 1_000_000_000;

/// `UNIT * UNIT`: the squared length of a unit vector.
pub const UNIT_SQ: i128 = 1_000_000_000_000_000_000;

/// How far a dot product of the basis may stray from its exact value
/// (one ten-millionth of `UNIT_SQ`), to absorb rounding of the components.
pub const TOLERANCE: i128 = 100_000_000_000;

/// A direction whose components are fixed-point numbers scaled by `UNIT`.
#[derive(Clone, Copy, Debug, PartialEq, Eq, Structural)]
pub struct Vec3 {
    pub x: i64,
    pub y: i64,
    pub z: i64,
}

/// A point in world space; the components are fixed-point numbers whose
/// scale is set by the camera.
#[derive(Clone, Copy, Debug, PartialEq, Eq, Structural)]
pub struct Point {
    pub x: i128,
    pub y: i128,
    pub z: i128,
}

/// Every component of `v` lies in `[-UNIT, UNIT]`.
pub open spec fn bounded(v: Vec3) -> bool {
    -UNIT <= v.x <= UNIT && -UNIT <= v.y <= UNIT && -UNIT <= v.z <= UNIT
}

pub open spec fn dot(a: Vec3, b: Vec3) -> int {
    a.x * b.x + a.y * b.y + a.z * b.z
}

/// `v` is within `TOLERANCE` of `target`.
pub open spec fn near(v: int, target: int) -> bool {
    target - TOLERANCE <= v <= target + TOLERANCE
}

/// The cross product `a x b`, whose components carry the scale `UNIT_SQ`.
pub open spec fn cross(a: Vec3, b: Vec3) -> (int, int, int) {
    (a.y * b.z - a.z * b.y, a.z * b.x - a.x * b.z, a.x * b.y - a.y * b.x)
}

/// `u` is `r x f` up to `TOLERANCE` on each component: the frame is
/// right-handed.
pub open spec fn right_handed(f: Vec3, r: Vec3, u: Vec3) -> bool {
    let c = cross(r, f);
    &&& near(u.x * UNIT, c.0)
    &&& near(u.y * UNIT, c.1)
    &&& near(u.z * UNIT, c.2)
}

/// The three vectors are unit-length and mutually perpendicular, up to
/// `TOLERANCE` on each dot product, and `up` is `right x forward` up to
/// `TOLERANCE` on each component.
pub open spec fn orthonormal(f: Vec3, r: Vec3, u: Vec3) -> bool {
    &&& bounded(f) && bounded(r) && bounded(u)
    &&& near(dot(f, f), UNIT_SQ as int)
    &&& near(dot(r, r), UNIT_SQ as int)
    &&& near(dot(u, u), UNIT_SQ as int)
    &&& near(dot(f, r), 0)
    &&& near(dot(f, u), 0)
    &&& near(dot(r, u), 0)
    &&& right_handed(f, r, u)
}

proof fn lemma_product_bounded(a: int, b: int)
    requires
        -UNIT <= a <= UNIT,
        -UNIT <= b <= UNIT,
    ensures
        -UNIT_SQ <= a * b <= UNIT_SQ,
{
    assert(-1_000_000_000_000_000_000 <= a * b <= 1_000_000_000_000_000_000) by (nonlinear_arith)
        requires
            -1_000_000_000 <= a <= 1_000_000_000,
            -1_000_000_000 <= b <= 1_000_000_000,
    ;
}

/// The dot product of two bounded vectors.
pub fn dot_product(a: Vec3, b: Vec3) -> (r: i128)
    requires
        bounded(a),
        bounded(b),
    ensures
        r == dot(a, b),
{
    proof {
        lemma_product_bounded(a.x as int, b.x as int);
        lemma_product_bounded(a.y as int, b.y as int);
        lemma_product_bounded(a.z as int, b.z as int);
    }
    (a.x as i128) * (b.x as i128) + (a.y as i128) * (b.y as i128) + (a.z as i128) * (b.z as i128)
}

/// The cross product of two bounded vectors, scaled by `UNIT_SQ`.
pub fn cross_product(a: Vec3, b: Vec3) -> (r: (i128, i128, i128))
    requires
        bounded(a),
        bounded(b),
    ensures
        (r.0 as int, r.1 as int, r.2 as int) == cross(a, b),
        -2 * UNIT_SQ <= r.0 <= 2 * UNIT_SQ,
        -2 * UNIT_SQ <= r.1 <= 2 * UNIT_SQ,
        -2 * UNIT_SQ <= r.2 <= 2 * UNIT_SQ,
{
    proof {
        lemma_product_bounded(a.y as int, b.z as int);
        lemma_product_bounded(a.z as int, b.y as int);
        lemma_product_bounded(a.z as int, b.x as int);
        lemma_product_bounded(a.x as int, b.z as int);
        lemma_product_bounded(a.x as int, b.y as int);
        lemma_product_bounded(a.y as int, b.x as int);
    }
    let (ax, ay, az) = (a.x as i128, a.y as i128, a.z as i128);
    let (bx, by, bz) = (b.x as i128, b.y as i128, b.z as i128);
    (ay * bz - az * by, az * bx - ax * bz, ax * by - ay * bx)
}

fn scaled(c: i64) -> (r: i128)
    requires
        -UNIT <= c <= UNIT,
    ensures
        r == c * UNIT,
{
    proof {
        lemma_product_bounded(c as int, UNIT as int);
    }
    (c as i128) * (UNIT as i128)
}

fn is_bounded(v: Vec3) -> (r: bool)
    ensures
        r == bounded(v),
{
    -UNIT <= v.x && v.x <= UNIT && -UNIT <= v.y && v.y <= UNIT && -UNIT <= v.z && v.z <= UNIT
}

fn is_near(v: i128, target: i128) -> (r: bool)
    requires
        -2 * UNIT_SQ <= target <= 2 * UNIT_SQ,
    ensures
        r == near(v as int, target as int),
{
    target - TOLERANCE <= v && v <= target + TOLERANCE
}

/// A camera's local frame: `forward`, `right` and `up`, orthonormal up to
/// rounding.
#[derive(Clone, Copy, Debug, PartialEq, Eq, Structural)]
pub struct Basis {
    pub forward: Vec3,
    pub right: Vec3,
    pub up: Vec3,
}

impl Basis {
    pub open spec fn wf(&self) -> bool {
        orthonormal(self.forward, self.right, self.up)
    }

    /// The frame that looks down -Z with +X to the right and +Y up.
    pub open spec fn spec_initial() -> Basis {
        Basis {
            forward: Vec3 { x: 0, y: 0, z: (-UNIT) as i64 },
            right: Vec3 { x: UNIT, y: 0, z: 0 },
            up: Vec3 { x: 0, y: UNIT, z: 0 },
        }
    }

    /// The frame that looks down -Z with +X to the right and +Y up.
    pub fn initial() -> (r: Basis)
        ensures
            r == Basis::spec_initial(),
            r.wf(),
    {
        let b = Basis {
            forward: Vec3 { x: 0, y: 0, z: -UNIT },
            right: Vec3 { x: UNIT, y: 0, z: 0 },
            up: Vec3 { x: 0, y: UNIT, z: 0 },
        };
        assert(dot(b.forward, b.forward) == UNIT_SQ) by (nonlinear_arith)
            requires
                b.forward == (Vec3 { x: 0, y: 0, z: (-UNIT) as i64 }),
        ;
        assert(dot(b.right, b.right) == UNIT_SQ) by (nonlinear_arith)
            requires
                b.right == (Vec3 { x: UNIT, y: 0, z: 0 }),
        ;
        assert(dot(b.up, b.up) == UNIT_SQ) by (nonlinear_arith)
            requires
                b.up == (Vec3 { x: 0, y: UNIT, z: 0 }),
        ;
        assert(cross(b.right, b.forward) == (0int, UNIT_SQ as int, 0int)) by (nonlinear_arith)
            requires
                b.forward == (Vec3 { x: 0, y: 0, z: (-UNIT) as i64 }),
                b.right == (Vec3 { x: UNIT, y: 0, z: 0 }),
        ;
        assert(b.up.y * UNIT == UNIT_SQ) by (nonlinear_arith)
            requires
                b.up == (Vec3 { x: 0, y: UNIT, z: 0 }),
        ;
        b
    }

    /// Builds a frame from three vectors, or `None` when they are not
    /// orthonormal within `TOLERANCE`.
    pub fn from_vectors(forward: Vec3, right: Vec3, up: Vec3) -> (r: Option<Basis>)
        ensures
            r.is_some() <==> orthonormal(forward, right, up),
            r matches Some(b) ==> b.forward == forward && b.right == right && b.up == up,
    {
        if !(is_bounded(forward) && is_bounded(right) && is_bounded(up)) {
            return None;
        }
        let ok = is_near(dot_product(forward, forward), UNIT_SQ)
            && is_near(dot_product(right, right), UNIT_SQ)
            && is_near(dot_product(up, up), UNIT_SQ)
            && is_near(dot_product(forward, right), 0)
            && is_near(dot_product(forward, up), 0)
            && is_near(dot_product(right, up), 0);
        let c = cross_product(right, forward);
        let ok = ok && is_near(scaled(up.x), c.0) && is_near(scaled(up.y), c.1) && is_near(
            scaled(up.z),
            c.2,
        );
        if ok {
            Some(Basis { forward, right, up })
        } else {
            None
        }
    }
}

} // verus!
