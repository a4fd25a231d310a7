use crate::error::GeometryError;
use crate::scalar::{
    frac_eq, frac_less, frac_lt, frac_same, lemma_frac_le_le, lemma_mul_bounds, wide_mul, Ratio,
};
use vstd::prelude::*;

verus! {

/// A point or a vector of the three-dimensional lattice.
#[derive(Clone, Copy, Debug, PartialEq, Eq, Structural)]
pub struct Vec3 {
    pub x: i32,
    pub y: i32,
    pub z: i32,
}

/// One of the three coordinate axes, in the order in which ties are resolved.
#[derive(Clone, Copy, Debug, PartialEq, Eq, Structural)]
pub enum Axis {
    X,
    Y,
    Z,
}

/// A half-line: the points `origin + t * direction` for `t >= 0`.
///
/// Distances along the ray are measured in multiples of `direction`; for a
/// direction of length one they are Euclidean distances.
#[derive(Clone, Copy, Debug, PartialEq, Eq, Structural)]
pub struct Ray3d {
    pub origin: Vec3,
    pub direction: Vec3,
}

/// A point with rational coordinates `x / den`, `y / den`, `z / den`.
#[derive(Clone, Copy, Debug, PartialEq, Eq, Structural)]
pub struct Point3 {
    pub x: i128,
    pub y: i128,
    pub z: i128,
    pub den: i64,
}

/// Where a ray meets a shape's surface.
#[derive(Clone, Copy, Debug, PartialEq, Eq, Structural)]
pub struct RayIntersection3d {
    /// The point of the surface that the ray reaches.
    pub position: Point3,
    /// The outward unit normal of the face that the ray crosses there.
    pub normal: Vec3,
    /// How far along the ray the point lies.
    pub distance: Ratio,
}

/// An axis-aligned box centred at the origin of its own frame.
#[derive(Clone, Copy, Debug, PartialEq, Eq, Structural)]
pub struct Cuboid {
    pub half_size: Vec3,
}

/// The crossing that a cast reports, before it is turned into coordinates:
/// the parameter `num / den` and the face, given by its axis and the sign of
/// its outward normal.
pub struct Crossing3 {
    pub num: int,
    pub den: int,
    pub axis: Axis,
    pub sign: int,
}

impl Vec3 {
    /// The component along `a`.
    pub open spec fn at(self, a: Axis) -> int {
        match a {
            Axis::X => self.x as int,
            Axis::Y => self.y as int,
            Axis::Z => self.z as int,
        }
    }

    /// The component along `a`.
    pub fn component(&self, a: Axis) -> (r: i32)
        ensures
            r == self.at(a),
    {
        match a {
            Axis::X => self.x,
            Axis::Y => self.y,
            Axis::Z => self.z,
        }
    }
}

/// The vector of length `|sign|` along `a`, pointing the way of `sign`.
pub open spec fn axis_vector(a: Axis, sign: int) -> (int, int, int) {
    match a {
        Axis::X => (sign, 0, 0),
        Axis::Y => (0, sign, 0),
        Axis::Z => (0, 0, sign),
    }
}

/// The ray never leaves the plane in which it starts on axis `a`.
pub open spec fn is_parallel(ray: Ray3d, a: Axis) -> bool {
    ray.direction.at(a) == 0
}

/// The ray's origin lies between the two bounding planes of axis `a`.
pub open spec fn within_slab(half: Vec3, ray: Ray3d, a: Axis) -> bool {
    -half.at(a) <= ray.origin.at(a) <= half.at(a)
}

/// The sign of the ray's travel along `a`.
pub open spec fn travel_sign(ray: Ray3d, a: Axis) -> int {
    if ray.direction.at(a) > 0 {
        1
    } else if ray.direction.at(a) < 0 {
        -1
    } else {
        0
    }
}

/// The common positive denominator of the two slab parameters of axis `a`.
pub open spec fn slab_den(ray: Ray3d, a: Axis) -> int {
    if ray.direction.at(a) < 0 {
        -ray.direction.at(a)
    } else {
        ray.direction.at(a)
    }
}

/// The origin's coordinate on `a`, counted in the direction of travel.
pub open spec fn origin_ahead(ray: Ray3d, a: Axis) -> int {
    if ray.direction.at(a) > 0 {
        ray.origin.at(a)
    } else if ray.direction.at(a) < 0 {
        -ray.origin.at(a)
    } else {
        0
    }
}

/// Numerator of the parameter at which the ray enters the slab of axis `a`.
pub open spec fn near_num(half: Vec3, ray: Ray3d, a: Axis) -> int {
    -half.at(a) - origin_ahead(ray, a)
}

/// Numerator of the parameter at which the ray leaves the slab of axis `a`.
pub open spec fn far_num(half: Vec3, ray: Ray3d, a: Axis) -> int {
    half.at(a) - origin_ahead(ray, a)
}

/// The later of two slab entries: `a` replaces `best` only where the ray
/// enters the slab of `a` strictly later.
pub open spec fn later_entry(half: Vec3, ray: Ray3d, best: Option<Axis>, a: Axis) -> Option<Axis> {
    if is_parallel(ray, a) {
        best
    } else {
        match best {
            None => Some(a),
            Some(b) => if frac_lt(
                near_num(half, ray, b),
                slab_den(ray, b),
                near_num(half, ray, a),
                slab_den(ray, a),
            ) {
                Some(a)
            } else {
                Some(b)
            },
        }
    }
}

/// The earlier of two slab exits: `a` replaces `best` only where the ray
/// leaves the slab of `a` strictly earlier.
pub open spec fn earlier_exit(half: Vec3, ray: Ray3d, best: Option<Axis>, a: Axis) -> Option<Axis> {
    if is_parallel(ray, a) {
        best
    } else {
        match best {
            None => Some(a),
            Some(b) => if frac_lt(
                far_num(half, ray, a),
                slab_den(ray, a),
                far_num(half, ray, b),
                slab_den(ray, b),
            ) {
                Some(a)
            } else {
                Some(b)
            },
        }
    }
}

/// The axis whose slab the ray enters last, the first of them on a tie.
pub open spec fn entry_axis(half: Vec3, ray: Ray3d) -> Option<Axis> {
    later_entry(
        half,
        ray,
        later_entry(half, ray, later_entry(half, ray, None, Axis::X), Axis::Y),
        Axis::Z,
    )
}

/// The axis whose slab the ray leaves first, the first of them on a tie.
pub open spec fn exit_axis(half: Vec3, ray: Ray3d) -> Option<Axis> {
    earlier_exit(
        half,
        ray,
        earlier_exit(half, ray, earlier_exit(half, ray, None, Axis::X), Axis::Y),
        Axis::Z,
    )
}

/// At parameter `num / den` the ray lies on the plane through which it enters
/// the slab of axis `a`.
pub open spec fn on_near_plane(half: Vec3, ray: Ray3d, a: Axis, num: int, den: int) -> bool {
    !is_parallel(ray, a) && frac_eq(num, den, near_num(half, ray, a), slab_den(ray, a))
}

/// At parameter `num / den` the ray lies on the plane through which it leaves
/// the slab of axis `a`.
pub open spec fn on_far_plane(half: Vec3, ray: Ray3d, a: Axis, num: int, den: int) -> bool {
    !is_parallel(ray, a) && frac_eq(num, den, far_num(half, ray, a), slab_den(ray, a))
}

/// At parameter `num / den` the ray lies on one of the two planes of axis `a`.
pub open spec fn on_plane(half: Vec3, ray: Ray3d, a: Axis, num: int, den: int) -> bool {
    on_near_plane(half, ray, a, num, den) || on_far_plane(half, ray, a, num, den)
}

/// The axis of the face that is reported for the parameter `num / den`: the
/// first axis, in the order x, y, z, one of whose planes the ray meets there.
pub open spec fn face_axis(half: Vec3, ray: Ray3d, num: int, den: int) -> Axis {
    if on_plane(half, ray, Axis::X, num, den) {
        Axis::X
    } else if on_plane(half, ray, Axis::Y, num, den) {
        Axis::Y
    } else {
        Axis::Z
    }
}

/// The sign of the outward normal of the plane of axis `a` that the ray meets
/// at `num / den`: against the ray's travel where it enters the slab, along it
/// where it leaves.
pub open spec fn face_sign(half: Vec3, ray: Ray3d, a: Axis, num: int, den: int) -> int {
    if on_near_plane(half, ray, a, num, den) {
        -travel_sign(ray, a)
    } else {
        travel_sign(ray, a)
    }
}

/// The ray runs beside the box: on some axis it keeps its coordinate, and
/// that coordinate lies outside the box.
pub open spec fn passes_beside(half: Vec3, ray: Ray3d) -> bool {
    ||| is_parallel(ray, Axis::X) && !within_slab(half, ray, Axis::X)
    ||| is_parallel(ray, Axis::Y) && !within_slab(half, ray, Axis::Y)
    ||| is_parallel(ray, Axis::Z) && !within_slab(half, ray, Axis::Z)
}

/// The slab test. The ray is inside the box for the parameters between its
/// last slab entry and its first slab exit; the reported parameter is the
/// entry where that is not negative, and otherwise the exit.
pub open spec fn cuboid_crossing(half: Vec3, ray: Ray3d, max_distance: Ratio) -> Option<Crossing3> {
    if passes_beside(half, ray) {
        None
    } else {
        match (entry_axis(half, ray), exit_axis(half, ray)) {
            (Some(e), Some(x)) => {
                let tmin_num = near_num(half, ray, e);
                let tmin_den = slab_den(ray, e);
                let tmax_num = far_num(half, ray, x);
                let tmax_den = slab_den(ray, x);
                if tmax_num < 0 || frac_lt(tmax_num, tmax_den, tmin_num, tmin_den) {
                    None
                } else {
                    let num = if tmin_num >= 0 { tmin_num } else { tmax_num };
                    let den = if tmin_num >= 0 { tmin_den } else { tmax_den };
                    if frac_lt(max_distance.num as int, max_distance.den as int, num, den) {
                        None
                    } else {
                        let axis = face_axis(half, ray, num, den);
                        Some(
                            Crossing3 { num, den, axis, sign: face_sign(half, ray, axis, num, den) },
                        )
                    }
                }
            },
            _ => None,
        }
    }
}

impl RayIntersection3d {
    /// This value is the crossing `c` of `ray`: the same distance, the point
    /// `origin + distance * direction`, and the unit normal of the face.
    pub open spec fn describes(self, ray: Ray3d, c: Crossing3) -> bool {
        &&& self.distance.num == c.num
        &&& self.distance.den == c.den
        &&& self.position.den == c.den
        &&& self.position.x == ray.origin.x * c.den + c.num * ray.direction.x
        &&& self.position.y == ray.origin.y * c.den + c.num * ray.direction.y
        &&& self.position.z == ray.origin.z * c.den + c.num * ray.direction.z
        &&& (self.normal.x as int, self.normal.y as int, self.normal.z as int) == axis_vector(
            c.axis,
            c.sign,
        )
    }
}

/// What the slab test needs of one axis.
#[derive(Clone, Copy)]
struct Slab {
    axis: Axis,
    parallel: bool,
    within: bool,
    near: i64,
    far: i64,
    den: i64,
    sign: i32,
}

impl Slab {
    /// The fields hold what the slab test says of `self.axis`.
    spec fn describes(self, half: Vec3, ray: Ray3d) -> bool {
        &&& self.parallel == is_parallel(ray, self.axis)
        &&& self.within == within_slab(half, ray, self.axis)
        &&& self.near == near_num(half, ray, self.axis)
        &&& self.far == far_num(half, ray, self.axis)
        &&& self.den == slab_den(ray, self.axis)
        &&& self.sign == travel_sign(ray, self.axis)
    }

    /// The two parameters at which `ray` crosses the planes of `axis`.
    fn of(half: &Vec3, ray: &Ray3d, axis: Axis) -> (s: Slab)
        ensures
            s.axis == axis,
            s.describes(*half, *ray),
    {
        let h: i64 = half.component(axis) as i64;
        let o: i64 = ray.origin.component(axis) as i64;
        let d: i64 = ray.direction.component(axis) as i64;
        let within = -h <= o && o <= h;
        if d > 0 {
            Slab { axis, parallel: false, within, near: -h - o, far: h - o, den: d, sign: 1 }
        } else if d < 0 {
            Slab { axis, parallel: false, within, near: o - h, far: h + o, den: -d, sign: -1 }
        } else {
            Slab { axis, parallel: true, within, near: -h, far: h, den: 0, sign: 0 }
        }
    }

    /// Keeps `best` unless the ray enters the slab `s` strictly later.
    fn later_entry(
        best: Option<Slab>,
        s: Slab,
        Ghost(half): Ghost<Vec3>,
        Ghost(ray): Ghost<Ray3d>,
    ) -> (r: Option<Slab>)
        requires
            s.describes(half, ray),
            best matches Some(b) ==> b.describes(half, ray),
        ensures
            r matches Some(c) ==> c.describes(half, ray),
            slab_axis(r) == later_entry(half, ray, slab_axis(best), s.axis),
    {
        if s.parallel {
            best
        } else {
            match best {
                None => Some(s),
                Some(b) => if frac_less(b.near, b.den, s.near, s.den) {
                    Some(s)
                } else {
                    Some(b)
                },
            }
        }
    }

    /// Keeps `best` unless the ray leaves the slab `s` strictly earlier.
    fn earlier_exit(
        best: Option<Slab>,
        s: Slab,
        Ghost(half): Ghost<Vec3>,
        Ghost(ray): Ghost<Ray3d>,
    ) -> (r: Option<Slab>)
        requires
            s.describes(half, ray),
            best matches Some(b) ==> b.describes(half, ray),
        ensures
            r matches Some(c) ==> c.describes(half, ray),
            slab_axis(r) == earlier_exit(half, ray, slab_axis(best), s.axis),
    {
        if s.parallel {
            best
        } else {
            match best {
                None => Some(s),
                Some(b) => if frac_less(s.far, s.den, b.far, b.den) {
                    Some(s)
                } else {
                    Some(b)
                },
            }
        }
    }

    /// Whether the ray meets the near plane, and whether it meets either
    /// plane, of this axis at `num / den`.
    fn meets(
        &self,
        num: i64,
        den: i64,
        Ghost(half): Ghost<Vec3>,
        Ghost(ray): Ghost<Ray3d>,
    ) -> (r: (bool, bool))
        requires
            self.describes(half, ray),
        ensures
            r.0 == on_near_plane(half, ray, self.axis, num as int, den as int),
            r.1 == on_plane(half, ray, self.axis, num as int, den as int),
    {
        if self.parallel {
            (false, false)
        } else {
            let near = frac_same(num, den, self.near, self.den);
            let far = frac_same(num, den, self.far, self.den);
            (near, near || far)
        }
    }
}

/// The axis of the slab that was kept, if one was.
spec fn slab_axis(s: Option<Slab>) -> Option<Axis> {
    match s {
        Some(b) => Some(b.axis),
        None => None,
    }
}

impl Cuboid {
    /// Every half-extent is positive.
    pub open spec fn valid(self) -> bool {
        self.half_size.x > 0 && self.half_size.y > 0 && self.half_size.z > 0
    }

    /// The box with the given half-extents, refused where one of them is not
    /// positive.
    pub fn new(half_size: Vec3) -> (r: Result<Cuboid, GeometryError>)
        ensures
            (Cuboid { half_size }).valid() ==> r == Ok::<Cuboid, GeometryError>(Cuboid { half_size }),
            !(Cuboid { half_size }).valid() ==> r == Err::<Cuboid, GeometryError>(
                GeometryError::NonPositiveHalfExtent,
            ),
    {
        if half_size.x > 0 && half_size.y > 0 && half_size.z > 0 {
            Ok(Cuboid { half_size })
        } else {
            Err(GeometryError::NonPositiveHalfExtent)
        }
    }

    /// Numerator of `o + (num / den) * d` over the denominator `den`.
    fn advance(o: i32, d: i32, num: i64, den: i64) -> (r: i128)
        ensures
            r == o * den + num * d,
    {
        let a = wide_mul(o as i64, den);
        let b = wide_mul(num, d as i64);
        proof {
            lemma_mul_bounds(o as int, den as int, 0x8000_0000, 0x8000_0000_0000_0000);
            lemma_mul_bounds(num as int, d as int, 0x8000_0000_0000_0000, 0x8000_0000);
        }
        a + b
    }
}

/// A shape of space against which a ray can be cast.
pub trait RayCast3d {
    /// What a cast of `ray` against this shape must return.
    spec fn cast_outcome(
        &self,
        ray: Ray3d,
        max_distance: Ratio,
        r: Result<Option<RayIntersection3d>, GeometryError>,
    ) -> bool;

    /// Casts `ray`, given in the shape's own frame, against the shape and
    /// reports the closest hit within `max_distance`, if there is one.
    fn cast_ray_local(&self, ray: Ray3d, max_distance: Ratio) -> (r: Result<
        Option<RayIntersection3d>,
        GeometryError,
    >)
        requires
            max_distance.wf(),
        ensures
            self.cast_outcome(ray, max_distance, r),
    ;
}

impl RayCast3d for Cuboid {
    /// A box that is not valid is refused; a valid one gives the crossing of
    /// the slab test, or no hit where there is none within `max_distance`.
    open spec fn cast_outcome(
        &self,
        ray: Ray3d,
        max_distance: Ratio,
        r: Result<Option<RayIntersection3d>, GeometryError>,
    ) -> bool {
        if !self.valid() {
            r == Err::<Option<RayIntersection3d>, GeometryError>(
                GeometryError::NonPositiveHalfExtent,
            )
        } else {
            match r {
                Ok(Some(hit)) => cuboid_crossing(self.half_size, ray, max_distance) matches Some(c)
                    && hit.describes(ray, c),
                Ok(None) => cuboid_crossing(self.half_size, ray, max_distance).is_none(),
                Err(_) => false,
            }
        }
    }

    fn cast_ray_local(&self, ray: Ray3d, max_distance: Ratio) -> (r: Result<
        Option<RayIntersection3d>,
        GeometryError,
    >)
    {
        let half = self.half_size;
        if half.x <= 0 || half.y <= 0 || half.z <= 0 {
            return Err(GeometryError::NonPositiveHalfExtent);
        }
        let sx = Slab::of(&half, &ray, Axis::X);
        let sy = Slab::of(&half, &ray, Axis::Y);
        let sz = Slab::of(&half, &ray, Axis::Z);
        if (sx.parallel && !sx.within) || (sy.parallel && !sy.within) || (sz.parallel && !sz.within) {
            return Ok(None);
        }
        let e0 = Slab::later_entry(None, sx, Ghost(half), Ghost(ray));
        let e1 = Slab::later_entry(e0, sy, Ghost(half), Ghost(ray));
        let entry = Slab::later_entry(e1, sz, Ghost(half), Ghost(ray));
        let x0 = Slab::earlier_exit(None, sx, Ghost(half), Ghost(ray));
        let x1 = Slab::earlier_exit(x0, sy, Ghost(half), Ghost(ray));
        let exit = Slab::earlier_exit(x1, sz, Ghost(half), Ghost(ray));
        match (entry, exit) {
            (Some(e), Some(x)) => {
                if x.far < 0 || frac_less(x.far, x.den, e.near, e.den) {
                    return Ok(None);
                }
                let inside = e.near < 0;
                let num: i64 = if inside { x.far } else { e.near };
                let den: i64 = if inside { x.den } else { e.den };
                if frac_less(max_distance.num, max_distance.den, num, den) {
                    return Ok(None);
                }
                let mx = sx.meets(num, den, Ghost(half), Ghost(ray));
                let my = sy.meets(num, den, Ghost(half), Ghost(ray));
                let mz = sz.meets(num, den, Ghost(half), Ghost(ray));
                let normal = if mx.1 {
                    Vec3 { x: if mx.0 { -sx.sign } else { sx.sign }, y: 0, z: 0 }
                } else if my.1 {
                    Vec3 { x: 0, y: if my.0 { -sy.sign } else { sy.sign }, z: 0 }
                } else {
                    Vec3 { x: 0, y: 0, z: if mz.0 { -sz.sign } else { sz.sign } }
                };
                let position = Point3 {
                    x: Cuboid::advance(ray.origin.x, ray.direction.x, num, den),
                    y: Cuboid::advance(ray.origin.y, ray.direction.y, num, den),
                    z: Cuboid::advance(ray.origin.z, ray.direction.z, num, den),
                    den,
                };
                Ok(Some(RayIntersection3d { position, normal, distance: Ratio { num, den } }))
            },
            _ => Ok(None),
        }
    }
}

/// Every crossing that the slab test reports lies ahead of the origin and
/// within the search distance, on a face of the box, and carries that face's
/// unit normal.
pub proof fn lemma_crossing_within_reach(cuboid: Cuboid, ray: Ray3d, max_distance: Ratio)
    requires
        cuboid.valid(),
        max_distance.wf(),
    ensures
        cuboid_crossing(cuboid.half_size, ray, max_distance) matches Some(c) ==> {
            &&& c.den > 0
            &&& c.num >= 0
            &&& c.num * max_distance.den <= max_distance.num * c.den
            &&& on_plane(cuboid.half_size, ray, c.axis, c.num, c.den)
            &&& (c.sign == 1 || c.sign == -1)
        },
{
    let half = cuboid.half_size;
    if let Some(c) = cuboid_crossing(half, ray, max_distance) {
        let e = entry_axis(half, ray).unwrap();
        let x = exit_axis(half, ray).unwrap();
        assert(!is_parallel(ray, e));
        assert(!is_parallel(ray, x));
        assert(on_near_plane(half, ray, e, near_num(half, ray, e), slab_den(ray, e)));
        assert(on_far_plane(half, ray, x, far_num(half, ray, x), slab_den(ray, x)));
        assert(on_plane(half, ray, e, c.num, c.den) || on_plane(half, ray, x, c.num, c.den));
    }
}

/// For every reported hit the position is the ray's origin advanced by the
/// distance along the direction, the distance is not negative and not beyond
/// the search distance, and the normal has length one.
pub proof fn lemma_hit_round_trip(
    cuboid: Cuboid,
    ray: Ray3d,
    max_distance: Ratio,
    hit: RayIntersection3d,
)
    requires
        max_distance.wf(),
        cuboid.cast_outcome(
            ray,
            max_distance,
            Ok::<Option<RayIntersection3d>, GeometryError>(Some(hit)),
        ),
    ensures
        hit.distance.wf(),
        hit.distance.num >= 0,
        !max_distance.lt(hit.distance),
        hit.position.den == hit.distance.den,
        hit.position.x == ray.origin.x * hit.distance.den + hit.distance.num * ray.direction.x,
        hit.position.y == ray.origin.y * hit.distance.den + hit.distance.num * ray.direction.y,
        hit.position.z == ray.origin.z * hit.distance.den + hit.distance.num * ray.direction.z,
        hit.normal.x * hit.normal.x + hit.normal.y * hit.normal.y + hit.normal.z * hit.normal.z == 1,
{
    lemma_crossing_within_reach(cuboid, ray, max_distance);
    let c = cuboid_crossing(cuboid.half_size, ray, max_distance).unwrap();
    assert(hit.distance.num * max_distance.den == c.num * max_distance.den);
    assert(max_distance.num * hit.distance.den == max_distance.num * c.den);
}

/// A ray that keeps its coordinate on some axis, and starts beyond the box's
/// half-extent on that axis, misses the box whatever else holds of it.
pub proof fn lemma_offset_ray_misses(
    cuboid: Cuboid,
    ray: Ray3d,
    max_distance: Ratio,
    a: Axis,
    r: Result<Option<RayIntersection3d>, GeometryError>,
)
    requires
        cuboid.valid(),
        is_parallel(ray, a),
        ray.origin.at(a) > cuboid.half_size.at(a) || ray.origin.at(a) < -cuboid.half_size.at(a),
        cuboid.cast_outcome(ray, max_distance, r),
    ensures
        r == Ok::<Option<RayIntersection3d>, GeometryError>(None),
{
}

/// A ray that travels one unit per step along axis `a` only, starts within
/// the box on the other two axes and `standoff` short of the box's centre on
/// `a`, outside the box, hits the facing side: at distance `standoff` less the
/// half-extent, with the normal pointing back against the ray, provided the
/// search distance reaches that far.
pub proof fn lemma_axis_ray_hits_facing_side(
    cuboid: Cuboid,
    ray: Ray3d,
    max_distance: Ratio,
    a: Axis,
    standoff: int,
    r: Result<Option<RayIntersection3d>, GeometryError>,
)
    requires
        cuboid.valid(),
        max_distance.wf(),
        ray.direction.at(a) == 1 || ray.direction.at(a) == -1,
        forall|b: Axis| b != a ==> is_parallel(ray, b) && within_slab(cuboid.half_size, ray, b),
        origin_ahead(ray, a) == -standoff,
        standoff > cuboid.half_size.at(a),
        (standoff - cuboid.half_size.at(a)) * max_distance.den <= max_distance.num,
        cuboid.cast_outcome(ray, max_distance, r),
    ensures
        r matches Ok(Some(hit)) && {
            &&& hit.distance.num == standoff - cuboid.half_size.at(a)
            &&& hit.distance.den == 1
            &&& hit.normal.x == -ray.direction.x
            &&& hit.normal.y == -ray.direction.y
            &&& hit.normal.z == -ray.direction.z
        },
{
    let half = cuboid.half_size;
    assert(a != Axis::X ==> is_parallel(ray, Axis::X) && within_slab(half, ray, Axis::X));
    assert(a != Axis::Y ==> is_parallel(ray, Axis::Y) && within_slab(half, ray, Axis::Y));
    assert(a != Axis::Z ==> is_parallel(ray, Axis::Z) && within_slab(half, ray, Axis::Z));
    assert(entry_axis(half, ray) == Some(a));
    assert(exit_axis(half, ray) == Some(a));
    assert(near_num(half, ray, a) == standoff - half.at(a));
    assert(far_num(half, ray, a) == standoff + half.at(a));
    assert(slab_den(ray, a) == 1);
    assert(cuboid_crossing(half, ray, max_distance) == Some(
        Crossing3 { num: standoff - half.at(a), den: 1, axis: a, sign: -ray.direction.at(a) },
    ));
}

/// At parameter `num / den` the ray is inside the box or on its surface.
pub open spec fn within_box_at(half: Vec3, ray: Ray3d, num: int, den: int) -> bool {
    forall|b: Axis|
        -half.at(b) * den <= #[trigger] ray.origin.at(b) * den + num * ray.direction.at(b)
            <= half.at(b) * den
}

/// Slab entries are ordered: where `a` is entered no later than `b`, and `b`
/// no later than `c`, there `a` is entered no later than `c`.
proof fn lemma_entries_ordered(half: Vec3, ray: Ray3d, a: Axis, b: Axis, c: Axis)
    requires
        !is_parallel(ray, a),
        !is_parallel(ray, b),
        !is_parallel(ray, c),
        !frac_lt(near_num(half, ray, b), slab_den(ray, b), near_num(half, ray, a), slab_den(ray, a)),
        !frac_lt(near_num(half, ray, c), slab_den(ray, c), near_num(half, ray, b), slab_den(ray, b)),
    ensures
        !frac_lt(near_num(half, ray, c), slab_den(ray, c), near_num(half, ray, a), slab_den(ray, a)),
{
    lemma_frac_le_le(
        near_num(half, ray, a),
        slab_den(ray, a),
        near_num(half, ray, b),
        slab_den(ray, b),
        near_num(half, ray, c),
        slab_den(ray, c),
    );
}

/// Slab exits are ordered in the same way.
proof fn lemma_exits_ordered(half: Vec3, ray: Ray3d, a: Axis, b: Axis, c: Axis)
    requires
        !is_parallel(ray, a),
        !is_parallel(ray, b),
        !is_parallel(ray, c),
        !frac_lt(far_num(half, ray, b), slab_den(ray, b), far_num(half, ray, a), slab_den(ray, a)),
        !frac_lt(far_num(half, ray, c), slab_den(ray, c), far_num(half, ray, b), slab_den(ray, b)),
    ensures
        !frac_lt(far_num(half, ray, c), slab_den(ray, c), far_num(half, ray, a), slab_den(ray, a)),
{
    lemma_frac_le_le(
        far_num(half, ray, a),
        slab_den(ray, a),
        far_num(half, ray, b),
        slab_den(ray, b),
        far_num(half, ray, c),
        slab_den(ray, c),
    );
}

/// The entry axis is the one whose slab the ray enters last, and the exit axis
/// the one whose slab it leaves first: no slab that the ray crosses is entered
/// later than the first, nor left earlier than the second.
pub proof fn lemma_entry_last_exit_first(half: Vec3, ray: Ray3d, b: Axis)
    requires
        !is_parallel(ray, b),
    ensures
        entry_axis(half, ray) matches Some(e) && !is_parallel(ray, e) && !frac_lt(
            near_num(half, ray, e),
            slab_den(ray, e),
            near_num(half, ray, b),
            slab_den(ray, b),
        ),
        exit_axis(half, ray) matches Some(x) && !is_parallel(ray, x) && !frac_lt(
            far_num(half, ray, b),
            slab_den(ray, b),
            far_num(half, ray, x),
            slab_den(ray, x),
        ),
{
    assert forall|p: Axis, q: Axis, r: Axis|
        !is_parallel(ray, p) && !is_parallel(ray, q) && !is_parallel(ray, r) && !frac_lt(
            near_num(half, ray, q),
            slab_den(ray, q),
            near_num(half, ray, p),
            slab_den(ray, p),
        ) && !frac_lt(
            near_num(half, ray, r),
            slab_den(ray, r),
            near_num(half, ray, q),
            slab_den(ray, q),
        ) implies !frac_lt(
        near_num(half, ray, r),
        slab_den(ray, r),
        near_num(half, ray, p),
        slab_den(ray, p),
    ) by {
        lemma_entries_ordered(half, ray, p, q, r);
    }
    assert forall|p: Axis, q: Axis, r: Axis|
        !is_parallel(ray, p) && !is_parallel(ray, q) && !is_parallel(ray, r) && !frac_lt(
            far_num(half, ray, q),
            slab_den(ray, q),
            far_num(half, ray, p),
            slab_den(ray, p),
        ) && !frac_lt(
            far_num(half, ray, r),
            slab_den(ray, r),
            far_num(half, ray, q),
            slab_den(ray, q),
        ) implies !frac_lt(
        far_num(half, ray, r),
        slab_den(ray, r),
        far_num(half, ray, p),
        slab_den(ray, p),
    ) by {
        lemma_exits_ordered(half, ray, p, q, r);
    }
}

/// Between the parameters at which a ray enters and leaves a slab, it lies
/// between the slab's two planes.
proof fn lemma_between_planes(h: int, o: int, d: int, num: int, den: int)
    requires
        d != 0,
        den > 0,
        d > 0 ==> (-h - o) * den <= num * d && num * d <= (h - o) * den,
        d < 0 ==> (o - h) * den <= num * (-d) && num * (-d) <= (o + h) * den,
    ensures
        -h * den <= o * den + num * d <= h * den,
{
    assert(-h * den <= o * den + num * d <= h * den) by (nonlinear_arith)
        requires
            d != 0,
            d > 0 ==> (-h - o) * den <= num * d && num * d <= (h - o) * den,
            d < 0 ==> (o - h) * den <= num * (-d) && num * (-d) <= (o + h) * den,
    ;
}

/// The point of every reported crossing is a point of the box's surface: it
/// lies within the box on every axis, and on the plane of the reported face.
pub proof fn lemma_crossing_on_surface(cuboid: Cuboid, ray: Ray3d, max_distance: Ratio)
    requires
        cuboid.valid(),
        max_distance.wf(),
    ensures
        cuboid_crossing(cuboid.half_size, ray, max_distance) matches Some(c) ==> {
            &&& within_box_at(cuboid.half_size, ray, c.num, c.den)
            &&& ray.origin.at(c.axis) * c.den + c.num * ray.direction.at(c.axis) == c.sign * (
            cuboid.half_size.at(c.axis) * c.den)
        },
{
    let half = cuboid.half_size;
    if let Some(c) = cuboid_crossing(half, ray, max_distance) {
        lemma_crossing_within_reach(cuboid, ray, max_distance);
        let e = entry_axis(half, ray).unwrap();
        let x = exit_axis(half, ray).unwrap();
        assert forall|b: Axis|
            -half.at(b) * c.den <= #[trigger] ray.origin.at(b) * c.den + c.num * ray.direction.at(b)
                <= half.at(b) * c.den by {
            let h = half.at(b);
            let o = ray.origin.at(b);
            let d = ray.direction.at(b);
            if is_parallel(ray, b) {
                assert(within_slab(half, ray, b));
                assert(-h * c.den <= o * c.den + c.num * d <= h * c.den) by (nonlinear_arith)
                    requires
                        -h <= o <= h,
                        d == 0,
                        c.den > 0,
                ;
            } else {
                lemma_entry_last_exit_first(half, ray, b);
                lemma_entry_last_exit_first(half, ray, e);
                lemma_entry_last_exit_first(half, ray, x);
                if near_num(half, ray, e) >= 0 {
                    lemma_frac_le_le(
                        near_num(half, ray, e),
                        slab_den(ray, e),
                        far_num(half, ray, x),
                        slab_den(ray, x),
                        far_num(half, ray, b),
                        slab_den(ray, b),
                    );
                } else {
                    lemma_frac_le_le(
                        near_num(half, ray, b),
                        slab_den(ray, b),
                        near_num(half, ray, e),
                        slab_den(ray, e),
                        far_num(half, ray, x),
                        slab_den(ray, x),
                    );
                }
                assert(near_num(half, ray, b) * c.den <= c.num * slab_den(ray, b));
                assert(c.num * slab_den(ray, b) <= far_num(half, ray, b) * c.den);
                lemma_between_planes(h, o, d, c.num, c.den);
            }
        }
        let a = c.axis;
        let h = half.at(a);
        let o = ray.origin.at(a);
        let d = ray.direction.at(a);
        assert(o * c.den + c.num * d == c.sign * (h * c.den)) by (nonlinear_arith)
            requires
                d != 0,
                (d > 0 && c.sign == -1 && c.num * d == (-h - o) * c.den) || (d > 0 && c.sign == 1
                    && c.num * d == (h - o) * c.den) || (d < 0 && c.sign == 1 && c.num * (-d) == (o
                    - h) * c.den) || (d < 0 && c.sign == -1 && c.num * (-d) == (o + h) * c.den),
        ;
    }
}

/// Every reported hit is a point of the box's surface: its position lies
/// within the box on every axis, and on the face whose normal is reported.
pub proof fn lemma_hit_on_surface(
    cuboid: Cuboid,
    ray: Ray3d,
    max_distance: Ratio,
    hit: RayIntersection3d,
)
    requires
        max_distance.wf(),
        cuboid.cast_outcome(
            ray,
            max_distance,
            Ok::<Option<RayIntersection3d>, GeometryError>(Some(hit)),
        ),
    ensures
        -cuboid.half_size.x * hit.position.den <= hit.position.x <= cuboid.half_size.x
            * hit.position.den,
        -cuboid.half_size.y * hit.position.den <= hit.position.y <= cuboid.half_size.y
            * hit.position.den,
        -cuboid.half_size.z * hit.position.den <= hit.position.z <= cuboid.half_size.z
            * hit.position.den,
        hit.normal.x != 0 ==> hit.position.x == hit.normal.x * (cuboid.half_size.x
            * hit.position.den),
        hit.normal.y != 0 ==> hit.position.y == hit.normal.y * (cuboid.half_size.y
            * hit.position.den),
        hit.normal.z != 0 ==> hit.position.z == hit.normal.z * (cuboid.half_size.z
            * hit.position.den),
{
    let half = cuboid.half_size;
    let c = cuboid_crossing(half, ray, max_distance).unwrap();
    lemma_crossing_within_reach(cuboid, ray, max_distance);
    lemma_crossing_on_surface(cuboid, ray, max_distance);
    assert(-half.at(Axis::X) * c.den <= ray.origin.at(Axis::X) * c.den + c.num * ray.direction.at(
        Axis::X,
    ) <= half.at(Axis::X) * c.den);
    assert(-half.at(Axis::Y) * c.den <= ray.origin.at(Axis::Y) * c.den + c.num * ray.direction.at(
        Axis::Y,
    ) <= half.at(Axis::Y) * c.den);
    assert(-half.at(Axis::Z) * c.den <= ray.origin.at(Axis::Z) * c.den + c.num * ray.direction.at(
        Axis::Z,
    ) <= half.at(Axis::Z) * c.den);
}

} // verus!
