use vstd::prelude::*;

verus! {

/// The shape of a slider's path, as tagged on the object.
#[derive(Clone, Copy, Debug, PartialEq, Eq, Structural)]
pub enum PathKind {
    Linear,
    Bezier,
    Catmull,
    PerfectArc,
}

/// A path that no evaluator can handle.
#[derive(Clone, Copy, Debug, PartialEq, Eq, Structural)]
pub enum GeometryError {
    /// A path needs at least two control points.
    TooFewControlPoints,
}

/// The evaluator that a path tagged `kind` with `n_points` control points is
/// evaluated by: an arc through more than three points is a Bezier curve, and
/// any curve through exactly two points is a straight line.
pub open spec fn effective_kind(kind: PathKind, n_points: nat) -> PathKind {
    if kind == PathKind::PerfectArc && n_points > 3 {
        PathKind::Bezier
    } else if n_points == 2 {
        PathKind::Linear
    } else {
        kind
    }
}

/// Chooses the evaluator for a path; a path of fewer than two control points
/// is refused.
pub fn resolve_path_kind(kind: PathKind, n_points: usize) -> (r: Result<PathKind, GeometryError>)
    ensures
        n_points < 2 ==> r == Err::<PathKind, GeometryError>(GeometryError::TooFewControlPoints),
        n_points >= 2 ==> r == Ok::<PathKind, GeometryError>(effective_kind(kind, n_points as nat)),
{
    if n_points < 2 {
        Err(GeometryError::TooFewControlPoints)
    } else if kind == PathKind::PerfectArc && n_points > 3 {
        Ok(PathKind::Bezier)
    } else if n_points == 2 {
        Ok(PathKind::Linear)
    } else {
        Ok(kind)
    }
}

/// An arc tagged through four or more control points is evaluated exactly as
/// a Bezier curve through the same points.
pub proof fn lemma_many_point_arc_is_bezier(n_points: nat)
    requires
        n_points >= 4,
    ensures
        effective_kind(PathKind::PerfectArc, n_points) == effective_kind(PathKind::Bezier, n_points),
        effective_kind(PathKind::PerfectArc, n_points) == PathKind::Bezier,
{
}

/// Any path through exactly two control points is a straight line.
pub proof fn lemma_two_points_are_linear(kind: PathKind)
    ensures
        effective_kind(kind, 2) == PathKind::Linear,
{
}

} // verus!
