use crate::error::GeometryError;
use crate::scalar::{frac_less, frac_lt, lemma_frac_lt_le, lemma_mul_bounds, Ratio};
use vstd::prelude::*;

verus! {

/// A point or a vector of the two-dimensional lattice.
#[derive(Clone, Copy, Debug, PartialEq, Eq, Structural)]
pub struct Vec2 {
    pub x: i16,
    pub y: i16,
}

/// A half-line: the points `origin + t * direction` for `t >= 0`.
///
/// Distances along the ray are measured in multiples of `direction`; for a
/// direction of length one they are Euclidean distances.
#[derive(Clone, Copy, Debug, PartialEq, Eq, Structural)]
pub struct Ray2d {
    pub origin: Vec2,
    pub direction: Vec2,
}

/// A point with rational coordinates `x / den`, `y / den`.
#[derive(Clone, Copy, Debug, PartialEq, Eq, Structural)]
pub struct Point2 {
    pub x: i64,
    pub y: i64,
    pub den: i64,
}

/// A direction of the plane, given by a vector of any positive length.
#[derive(Clone, Copy, Debug, PartialEq, Eq, Structural)]
pub struct Heading2 {
    pub x: i32,
    pub y: i32,
}

/// Where a ray meets a shape's outline.
#[derive(Clone, Copy, Debug, PartialEq, Eq, Structural)]
pub struct RayIntersection2d {
    /// The point of the outline that the ray reaches.
    pub position: Point2,
    /// The direction at right angles to the edge that is hit, on the side
    /// from which the ray comes. Its length is that of the edge.
    pub normal: Heading2,
    /// How far along the ray the point lies.
    pub distance: Ratio,
}

/// A closed polygon with a number of vertices that is fixed by its type.
/// The last vertex is joined to the first.
#[derive(Clone, Copy, Debug, PartialEq, Eq)]
pub struct Polygon<const N: usize> {
    pub vertices: [Vec2; N],
}

/// A closed polygon with any number of vertices. The last vertex is joined to
/// the first.
#[derive(Clone, Debug, PartialEq, Eq)]
pub struct BoxedPolygon {
    pub vertices: Vec<Vec2>,
}

/// The crossing of a ray with one edge, before it is turned into coordinates.
pub struct Crossing2 {
    /// The ray's parameter at the crossing is `num / den`.
    pub num: int,
    pub den: int,
    /// The crossing lies `along / den` of the way from the edge's start to
    /// its end.
    pub along: int,
    /// Positive where the edge turns left as seen along the ray.
    pub turn: int,
}

/// The cross product of the plane vectors `(ax, ay)` and `(bx, by)`.
pub open spec fn cross(ax: int, ay: int, bx: int, by: int) -> int {
    ax * by - ay * bx
}

/// The crossing of `ray` with the edge from `a` to `b`, if there is one within
/// `max_distance`. With `e = b - a` and `w = a - origin`, the ray meets the
/// edge's line at the parameter `(w x e) / (direction x e)`, at the fraction
/// `(w x direction) / (direction x e)` of the way from `a` to `b`. A ray that
/// runs parallel to the edge does not cross it.
pub open spec fn edge_crossing(a: Vec2, b: Vec2, ray: Ray2d, max_distance: Ratio) -> Option<
    Crossing2,
> {
    let ex = b.x - a.x;
    let ey = b.y - a.y;
    let wx = a.x - ray.origin.x;
    let wy = a.y - ray.origin.y;
    let turn = cross(ray.direction.x as int, ray.direction.y as int, ex, ey);
    let reach = cross(wx, wy, ex, ey);
    let along = cross(wx, wy, ray.direction.x as int, ray.direction.y as int);
    if turn == 0 {
        None
    } else {
        let den = if turn > 0 { turn } else { -turn };
        let num = if turn > 0 { reach } else { -reach };
        let along = if turn > 0 { along } else { -along };
        if num >= 0 && 0 <= along <= den && !frac_lt(
            max_distance.num as int,
            max_distance.den as int,
            num,
            den,
        ) {
            Some(Crossing2 { num, den, along, turn })
        } else {
            None
        }
    }
}

impl RayIntersection2d {
    /// This value is the crossing `c` of `ray` with the edge from `a` to `b`:
    /// the same distance, the point `origin + distance * direction`, and the
    /// edge's perpendicular on the side from which the ray comes.
    pub open spec fn describes(self, ray: Ray2d, a: Vec2, b: Vec2, c: Crossing2) -> bool {
        &&& self.distance.num == c.num
        &&& self.distance.den == c.den
        &&& self.position.den == c.den
        &&& self.position.x == ray.origin.x * c.den + c.num * ray.direction.x
        &&& self.position.y == ray.origin.y * c.den + c.num * ray.direction.y
        &&& self.normal.x == if c.turn > 0 { a.y - b.y } else { b.y - a.y }
        &&& self.normal.y == if c.turn > 0 { b.x - a.x } else { a.x - b.x }
    }
}

/// The cross product of two small vectors.
fn cross_product(ax: i64, ay: i64, bx: i64, by: i64) -> (r: i64)
    requires
        -0x2_0000 <= ax <= 0x2_0000,
        -0x2_0000 <= ay <= 0x2_0000,
        -0x2_0000 <= bx <= 0x2_0000,
        -0x2_0000 <= by <= 0x2_0000,
    ensures
        r == cross(ax as int, ay as int, bx as int, by as int),
        -0x8_0000_0000 <= r <= 0x8_0000_0000,
{
    proof {
        lemma_mul_bounds(ax as int, by as int, 0x2_0000, 0x2_0000);
        lemma_mul_bounds(ay as int, bx as int, 0x2_0000, 0x2_0000);
    }
    ax * by - ay * bx
}

/// Numerator of `o + (num / den) * d` over the denominator `den`.
fn advance(o: i16, d: i16, num: i64, den: i64) -> (r: i64)
    requires
        -0x8_0000_0000 <= num <= 0x8_0000_0000,
        -0x8_0000_0000 <= den <= 0x8_0000_0000,
    ensures
        r == o * den + num * d,
{
    proof {
        lemma_mul_bounds(o as int, den as int, 0x8000, 0x8_0000_0000);
        lemma_mul_bounds(num as int, d as int, 0x8_0000_0000, 0x8000);
    }
    (o as i64) * den + num * (d as i64)
}

/// Casts `ray` against the single edge from `a` to `b` and reports where it
/// crosses the edge, if it does so within `max_distance`.
pub fn cast_ray_segment(a: Vec2, b: Vec2, ray: Ray2d, max_distance: Ratio) -> (r: Option<
    RayIntersection2d,
>)
    requires
        max_distance.wf(),
    ensures
        match r {
            Some(hit) => edge_crossing(a, b, ray, max_distance) matches Some(c) && hit.describes(
                ray,
                a,
                b,
                c,
            ),
            None => edge_crossing(a, b, ray, max_distance).is_none(),
        },
{
    let ex: i64 = b.x as i64 - a.x as i64;
    let ey: i64 = b.y as i64 - a.y as i64;
    let wx: i64 = a.x as i64 - ray.origin.x as i64;
    let wy: i64 = a.y as i64 - ray.origin.y as i64;
    let dx: i64 = ray.direction.x as i64;
    let dy: i64 = ray.direction.y as i64;
    let turn = cross_product(dx, dy, ex, ey);
    let reach = cross_product(wx, wy, ex, ey);
    let along = cross_product(wx, wy, dx, dy);
    if turn == 0 {
        return None;
    }
    let left = turn > 0;
    let den: i64 = if left { turn } else { -turn };
    let num: i64 = if left { reach } else { -reach };
    let along: i64 = if left { along } else { -along };
    if num < 0 || along < 0 || along > den || frac_less(
        max_distance.num,
        max_distance.den,
        num,
        den,
    ) {
        return None;
    }
    let position = Point2 {
        x: advance(ray.origin.x, ray.direction.x, num, den),
        y: advance(ray.origin.y, ray.direction.y, num, den),
        den,
    };
    let normal = if left {
        Heading2 { x: a.y as i32 - b.y as i32, y: b.x as i32 - a.x as i32 }
    } else {
        Heading2 { x: b.y as i32 - a.y as i32, y: a.x as i32 - b.x as i32 }
    };
    Some(RayIntersection2d { position, normal, distance: Ratio { num, den } })
}

/// The vertex at which edge `i` of the closed polygon `v` ends.
pub open spec fn edge_end(v: Seq<Vec2>, i: int) -> Vec2 {
    if i + 1 == v.len() {
        v[0]
    } else {
        v[i + 1]
    }
}

/// Some edge of the closed polygon `v` joins a vertex to itself.
pub open spec fn has_degenerate_edge(v: Seq<Vec2>) -> bool {
    exists|i: int| 0 <= i < v.len() && v[i] == #[trigger] edge_end(v, i)
}

/// The crossing of `ray` with edge `i` of the closed polygon `v`.
pub open spec fn edge_hit(v: Seq<Vec2>, ray: Ray2d, max_distance: Ratio, i: int) -> Option<
    Crossing2,
> {
    edge_crossing(v[i], edge_end(v, i), ray, max_distance)
}

/// The edge, among the first `n`, that `ray` crosses at the least distance;
/// of several at that distance, the first.
pub open spec fn closest_edge(v: Seq<Vec2>, ray: Ray2d, max_distance: Ratio, n: int) -> Option<int>
    decreases n,
{
    if n <= 0 {
        None
    } else {
        let before = closest_edge(v, ray, max_distance, n - 1);
        match (edge_hit(v, ray, max_distance, n - 1), before) {
            (None, _) => before,
            (Some(_), None) => Some(n - 1),
            (Some(c), Some(j)) => {
                let d = edge_hit(v, ray, max_distance, j).unwrap();
                if frac_lt(c.num, c.den, d.num, d.den) {
                    Some(n - 1)
                } else {
                    before
                }
            },
        }
    }
}

/// What a cast against the closed polygon `v` must return: a refusal of an
/// outline with fewer than three vertices or with a degenerate edge, and
/// otherwise the crossing with the closest edge, or no hit where the ray
/// crosses no edge within `max_distance`.
pub open spec fn polygon_outcome(
    v: Seq<Vec2>,
    ray: Ray2d,
    max_distance: Ratio,
    r: Result<Option<RayIntersection2d>, GeometryError>,
) -> bool {
    if v.len() < 3 {
        r == Err::<Option<RayIntersection2d>, GeometryError>(GeometryError::TooFewVertices)
    } else if has_degenerate_edge(v) {
        r == Err::<Option<RayIntersection2d>, GeometryError>(GeometryError::DegenerateEdge)
    } else {
        match r {
            Ok(Some(hit)) => {
                &&& closest_edge(v, ray, max_distance, v.len() as int) matches Some(i)
                &&& edge_hit(v, ray, max_distance, i) matches Some(c)
                &&& hit.describes(ray, v[i], edge_end(v, i), c)
            },
            Ok(None) => closest_edge(v, ray, max_distance, v.len() as int).is_none(),
            Err(_) => false,
        }
    }
}

/// Tells whether some edge of the closed outline joins a vertex to itself.
fn find_degenerate_edge(vertices: &[Vec2]) -> (r: bool)
    ensures
        r == has_degenerate_edge(vertices@),
{
    let n = vertices.len();
    let mut i: usize = 0;
    while i < n
        invariant
            n == vertices@.len(),
            0 <= i <= n,
            forall|j: int| 0 <= j < i ==> vertices@[j] != #[trigger] edge_end(vertices@, j),
        decreases n - i,
    {
        let start = vertices[i];
        let end = if i == n - 1 { vertices[0] } else { vertices[i + 1] };
        if start.x == end.x && start.y == end.y {
            assert(vertices@[i as int] == edge_end(vertices@, i as int));
            return true;
        }
        i += 1;
    }
    false
}

/// Casts `ray` against the closed outline through `vertices`, edge by edge,
/// and keeps the closest crossing; the first found wins a tie.
pub fn cast_ray_outline(vertices: &[Vec2], ray: Ray2d, max_distance: Ratio) -> (r: Result<
    Option<RayIntersection2d>,
    GeometryError,
>)
    requires
        max_distance.wf(),
    ensures
        polygon_outcome(vertices@, ray, max_distance, r),
{
    let n = vertices.len();
    if n < 3 {
        return Err(GeometryError::TooFewVertices);
    }
    if find_degenerate_edge(vertices) {
        return Err(GeometryError::DegenerateEdge);
    }
    let mut closest: Option<RayIntersection2d> = None;
    let ghost v = vertices@;
    let mut i: usize = 0;
    while i < n
        invariant
            v == vertices@,
            n == v.len(),
            0 <= i <= n,
            max_distance.wf(),
            match closest {
                Some(hit) => {
                    &&& closest_edge(v, ray, max_distance, i as int) matches Some(j)
                    &&& 0 <= j < i
                    &&& edge_hit(v, ray, max_distance, j) matches Some(c)
                    &&& hit.describes(ray, v[j], edge_end(v, j), c)
                },
                None => closest_edge(v, ray, max_distance, i as int).is_none(),
            },
        decreases n - i,
    {
        let start = vertices[i];
        let end = if i == n - 1 { vertices[0] } else { vertices[i + 1] };
        assert(end == edge_end(v, i as int));
        if let Some(hit) = cast_ray_segment(start, end, ray, max_distance) {
            let nearer = match closest {
                Some(best) => frac_less(
                    hit.distance.num,
                    hit.distance.den,
                    best.distance.num,
                    best.distance.den,
                ),
                None => true,
            };
            if nearer {
                closest = Some(hit);
            }
        }
        i += 1;
    }
    Ok(closest)
}

/// A shape of the plane against which a ray can be cast.
pub trait RayCast2d {
    /// What a cast of `ray` against this shape must return.
    spec fn cast_outcome(
        &self,
        ray: Ray2d,
        max_distance: Ratio,
        r: Result<Option<RayIntersection2d>, GeometryError>,
    ) -> bool;

    /// Casts `ray`, given in the shape's own frame, against the shape and
    /// reports the closest hit within `max_distance`, if there is one.
    fn cast_ray_local(&self, ray: Ray2d, max_distance: Ratio) -> (r: Result<
        Option<RayIntersection2d>,
        GeometryError,
    >)
        requires
            max_distance.wf(),
        ensures
            self.cast_outcome(ray, max_distance, r),
    ;
}

impl<const N: usize> RayCast2d for Polygon<N> {
    open spec fn cast_outcome(
        &self,
        ray: Ray2d,
        max_distance: Ratio,
        r: Result<Option<RayIntersection2d>, GeometryError>,
    ) -> bool {
        polygon_outcome(self.vertices@, ray, max_distance, r)
    }

    fn cast_ray_local(&self, ray: Ray2d, max_distance: Ratio) -> (r: Result<
        Option<RayIntersection2d>,
        GeometryError,
    >) {
        cast_ray_outline(self.vertices.as_slice(), ray, max_distance)
    }
}

impl RayCast2d for BoxedPolygon {
    open spec fn cast_outcome(
        &self,
        ray: Ray2d,
        max_distance: Ratio,
        r: Result<Option<RayIntersection2d>, GeometryError>,
    ) -> bool {
        polygon_outcome(self.vertices@, ray, max_distance, r)
    }

    fn cast_ray_local(&self, ray: Ray2d, max_distance: Ratio) -> (r: Result<
        Option<RayIntersection2d>,
        GeometryError,
    >) {
        cast_ray_outline(self.vertices.as_slice(), ray, max_distance)
    }
}

/// A crossing lies ahead of the ray's origin and within the search distance,
/// and the point that the ray reaches there is a point of the edge: the same
/// point is found by going `along / den` of the way from `a` to `b`.
pub proof fn lemma_crossing_lies_on_edge(a: Vec2, b: Vec2, ray: Ray2d, max_distance: Ratio)
    requires
        max_distance.wf(),
    ensures
        edge_crossing(a, b, ray, max_distance) matches Some(c) ==> {
            &&& c.den > 0
            &&& c.num >= 0
            &&& c.num * max_distance.den <= max_distance.num * c.den
            &&& 0 <= c.along <= c.den
            &&& ray.origin.x * c.den + c.num * ray.direction.x == a.x * c.den + c.along * (b.x
                - a.x)
            &&& ray.origin.y * c.den + c.num * ray.direction.y == a.y * c.den + c.along * (b.y
                - a.y)
        },
{
    if let Some(c) = edge_crossing(a, b, ray, max_distance) {
        let ex = b.x - a.x;
        let ey = b.y - a.y;
        let wx = a.x - ray.origin.x;
        let wy = a.y - ray.origin.y;
        let dx = ray.direction.x as int;
        let dy = ray.direction.y as int;
        let ox = ray.origin.x as int;
        let oy = ray.origin.y as int;
        let turn = dx * ey - dy * ex;
        let reach = wx * ey - wy * ex;
        let along = wx * dy - wy * dx;
        assert(reach * dx - along * ex == wx * turn) by (nonlinear_arith)
            requires
                turn == dx * ey - dy * ex,
                reach == wx * ey - wy * ex,
                along == wx * dy - wy * dx,
        ;
        assert(reach * dy - along * ey == wy * turn) by (nonlinear_arith)
            requires
                turn == dx * ey - dy * ex,
                reach == wx * ey - wy * ex,
                along == wx * dy - wy * dx,
        ;
        assert(ox * c.den + c.num * dx == a.x * c.den + c.along * ex) by (nonlinear_arith)
            requires
                reach * dx - along * ex == wx * turn,
                wx == a.x - ox,
                (c.den == turn && c.num == reach && c.along == along) || (c.den == -turn && c.num
                    == -reach && c.along == -along),
        ;
        assert(oy * c.den + c.num * dy == a.y * c.den + c.along * ey) by (nonlinear_arith)
            requires
                reach * dy - along * ey == wy * turn,
                wy == a.y - oy,
                (c.den == turn && c.num == reach && c.along == along) || (c.den == -turn && c.num
                    == -reach && c.along == -along),
        ;
    }
}

/// The normal of a reported crossing stands at right angles to the edge and
/// faces the side from which the ray comes.
pub proof fn lemma_normal_faces_ray(
    a: Vec2,
    b: Vec2,
    ray: Ray2d,
    max_distance: Ratio,
    hit: RayIntersection2d,
)
    requires
        edge_crossing(a, b, ray, max_distance) matches Some(c) && hit.describes(ray, a, b, c),
    ensures
        hit.normal.x * (b.x - a.x) + hit.normal.y * (b.y - a.y) == 0,
        hit.normal.x * ray.direction.x + hit.normal.y * ray.direction.y < 0,
{
    let c = edge_crossing(a, b, ray, max_distance).unwrap();
    let ex = b.x - a.x;
    let ey = b.y - a.y;
    let dx = ray.direction.x as int;
    let dy = ray.direction.y as int;
    let nx = hit.normal.x as int;
    let ny = hit.normal.y as int;
    assert(c.turn == dx * ey - dy * ex);
    assert(nx * ex + ny * ey == 0) by (nonlinear_arith)
        requires
            (nx == -ey && ny == ex) || (nx == ey && ny == -ex),
    ;
    assert(nx * dx + ny * dy < 0) by (nonlinear_arith)
        requires
            (nx == -ey && ny == ex && dx * ey - dy * ex > 0) || (nx == ey && ny == -ex && dx * ey
                - dy * ex < 0),
    ;
}

/// The edge that `closest_edge` names is crossed, no edge among the first `n`
/// is crossed nearer, and every edge before it is crossed strictly farther;
/// it names none exactly where the ray crosses none of them.
pub proof fn lemma_closest_edge_is_least(v: Seq<Vec2>, ray: Ray2d, max_distance: Ratio, n: int)
    requires
        max_distance.wf(),
        0 <= n <= v.len(),
    ensures
        match closest_edge(v, ray, max_distance, n) {
            Some(i) => {
                &&& 0 <= i < n
                &&& edge_hit(v, ray, max_distance, i) matches Some(c)
                &&& forall|j: int|
                    0 <= j < n ==> (#[trigger] edge_hit(v, ray, max_distance, j) matches Some(d)
                        ==> !frac_lt(d.num, d.den, c.num, c.den) && (j < i ==> frac_lt(
                        c.num,
                        c.den,
                        d.num,
                        d.den,
                    )))
            },
            None => forall|j: int|
                0 <= j < n ==> (#[trigger] edge_hit(v, ray, max_distance, j)).is_none(),
        },
    decreases n,
{
    if n > 0 {
        lemma_closest_edge_is_least(v, ray, max_distance, n - 1);
        let before = closest_edge(v, ray, max_distance, n - 1);
        if let (Some(c), Some(p)) = (edge_hit(v, ray, max_distance, n - 1), before) {
            let b = edge_hit(v, ray, max_distance, p).unwrap();
            lemma_crossing_lies_on_edge(v[n - 1], edge_end(v, n - 1), ray, max_distance);
            lemma_crossing_lies_on_edge(v[p], edge_end(v, p), ray, max_distance);
            if frac_lt(c.num, c.den, b.num, b.den) {
                assert forall|j: int| 0 <= j < n - 1 implies (#[trigger] edge_hit(
                    v,
                    ray,
                    max_distance,
                    j,
                ) matches Some(d) ==> frac_lt(c.num, c.den, d.num, d.den)) by {
                    if let Some(d) = edge_hit(v, ray, max_distance, j) {
                        lemma_crossing_lies_on_edge(v[j], edge_end(v, j), ray, max_distance);
                        lemma_frac_lt_le(c.num, c.den, b.num, b.den, d.num, d.den);
                    }
                }
            }
        }
    }
}

/// Every hit that a cast against a well-formed polygon reports is the
/// crossing with one of its edges: the distance is that crossing's, the
/// position is a point of that edge, and the ray crosses no edge nearer.
pub proof fn lemma_hit_is_closest_crossing(
    v: Seq<Vec2>,
    ray: Ray2d,
    max_distance: Ratio,
    hit: RayIntersection2d,
)
    requires
        max_distance.wf(),
        v.len() >= 3,
        !has_degenerate_edge(v),
        polygon_outcome(
            v,
            ray,
            max_distance,
            Ok::<Option<RayIntersection2d>, GeometryError>(Some(hit)),
        ),
    ensures
        exists|i: int|
            {
                &&& 0 <= i < v.len()
                &&& #[trigger] edge_hit(v, ray, max_distance, i) matches Some(c)
                &&& hit.describes(ray, v[i], edge_end(v, i), c)
                &&& 0 <= c.along <= c.den
                &&& hit.position.x == v[i].x * c.den + c.along * (edge_end(v, i).x - v[i].x)
                &&& hit.position.y == v[i].y * c.den + c.along * (edge_end(v, i).y - v[i].y)
            },
        forall|j: int|
            0 <= j < v.len() ==> (#[trigger] edge_hit(v, ray, max_distance, j) matches Some(d)
                ==> !frac_lt(d.num, d.den, hit.distance.num as int, hit.distance.den as int)),
{
    let n = v.len() as int;
    lemma_closest_edge_is_least(v, ray, max_distance, n);
    let i = closest_edge(v, ray, max_distance, n).unwrap();
    lemma_crossing_lies_on_edge(v[i], edge_end(v, i), ray, max_distance);
    assert(edge_hit(v, ray, max_distance, i) is Some);
}

/// Where a ray crosses some edge of a well-formed polygon within the search
/// distance, the cast reports a hit, and none that lies beyond that crossing.
pub proof fn lemma_crossed_edge_is_reported(
    v: Seq<Vec2>,
    ray: Ray2d,
    max_distance: Ratio,
    i: int,
    r: Result<Option<RayIntersection2d>, GeometryError>,
)
    requires
        max_distance.wf(),
        v.len() >= 3,
        !has_degenerate_edge(v),
        0 <= i < v.len(),
        edge_hit(v, ray, max_distance, i) is Some,
        polygon_outcome(v, ray, max_distance, r),
    ensures
        r matches Ok(Some(hit)) && edge_hit(v, ray, max_distance, i) matches Some(d) && !frac_lt(
            d.num,
            d.den,
            hit.distance.num as int,
            hit.distance.den as int,
        ),
{
    lemma_closest_edge_is_least(v, ray, max_distance, v.len() as int);
}

/// A ray that crosses no edge of a well-formed polygon hits nothing.
pub proof fn lemma_no_crossing_no_hit(
    v: Seq<Vec2>,
    ray: Ray2d,
    max_distance: Ratio,
    r: Result<Option<RayIntersection2d>, GeometryError>,
)
    requires
        max_distance.wf(),
        v.len() >= 3,
        !has_degenerate_edge(v),
        forall|i: int| 0 <= i < v.len() ==> (#[trigger] edge_hit(v, ray, max_distance, i)).is_none(),
        polygon_outcome(v, ray, max_distance, r),
    ensures
        r == Ok::<Option<RayIntersection2d>, GeometryError>(None),
{
    lemma_closest_edge_is_least(v, ray, max_distance, v.len() as int);
}

/// A polygon of fixed size and a polygon of any size that hold the same
/// vertices give the same result for every ray: the same error, the same
/// miss, or the same position, normal and distance.
pub proof fn lemma_same_vertices_same_result<const N: usize>(
    fixed: Polygon<N>,
    boxed: BoxedPolygon,
    ray: Ray2d,
    max_distance: Ratio,
    of_fixed: Result<Option<RayIntersection2d>, GeometryError>,
    of_boxed: Result<Option<RayIntersection2d>, GeometryError>,
)
    requires
        fixed.vertices@ == boxed.vertices@,
        fixed.cast_outcome(ray, max_distance, of_fixed),
        boxed.cast_outcome(ray, max_distance, of_boxed),
    ensures
        of_fixed == of_boxed,
{
}

} // verus!
