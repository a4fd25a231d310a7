use vstd::prelude::*;

verus! {

/// Why a shape was refused before any ray was cast against it.
#[derive(Clone, Copy, Debug, PartialEq, Eq, Structural)]
pub enum GeometryError {
    /// A polygon needs at least three vertices.
    TooFewVertices,
    /// Two consecutive vertices of a polygon coincide, so the edge between
    /// them has no direction.
    DegenerateEdge,
    /// A cuboid's half-extent is zero or negative on some axis.
    NonPositiveHalfExtent,
}

impl GeometryError {
    /// The text of `message`.
    pub open spec fn message_text(self) -> Seq<char> {
        match self {
            GeometryError::TooFewVertices => "a polygon needs at least three vertices"@,
            GeometryError::DegenerateEdge => "two consecutive vertices of the polygon coincide"@,
            GeometryError::NonPositiveHalfExtent => "a half-extent of the cuboid is not positive"@,
        }
    }

    /// A sentence that says what is wrong with the shape.
    pub fn message(&self) -> (r: &'static str)
        ensures
            r@ == self.message_text(),
    {
        match self {
            GeometryError::TooFewVertices => "a polygon needs at least three vertices",
            GeometryError::DegenerateEdge => "two consecutive vertices of the polygon coincide",
            GeometryError::NonPositiveHalfExtent => "a half-extent of the cuboid is not positive",
        }
    }
}

} // verus!
