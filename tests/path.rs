use fruits::path::{resolve_path_kind, GeometryError, PathKind};

#[test]
fn arc_with_four_points_is_bezier() {
    assert_eq!(resolve_path_kind(PathKind::PerfectArc, 4), Ok(PathKind::Bezier));
    assert_eq!(
        resolve_path_kind(PathKind::PerfectArc, 4),
        resolve_path_kind(PathKind::Bezier, 4)
    );
    assert_eq!(
        resolve_path_kind(PathKind::PerfectArc, 9),
        resolve_path_kind(PathKind::Bezier, 9)
    );
}

#[test]
fn arc_with_three_points_stays_arc() {
    assert_eq!(resolve_path_kind(PathKind::PerfectArc, 3), Ok(PathKind::PerfectArc));
}

#[test]
fn two_points_make_a_line() {
    assert_eq!(resolve_path_kind(PathKind::Bezier, 2), Ok(PathKind::Linear));
    assert_eq!(resolve_path_kind(PathKind::Catmull, 2), Ok(PathKind::Linear));
    assert_eq!(resolve_path_kind(PathKind::PerfectArc, 2), Ok(PathKind::Linear));
    assert_eq!(resolve_path_kind(PathKind::Linear, 2), Ok(PathKind::Linear));
}

#[test]
fn other_kinds_are_kept() {
    assert_eq!(resolve_path_kind(PathKind::Bezier, 5), Ok(PathKind::Bezier));
    assert_eq!(resolve_path_kind(PathKind::Catmull, 4), Ok(PathKind::Catmull));
    assert_eq!(resolve_path_kind(PathKind::Linear, 3), Ok(PathKind::Linear));
}

#[test]
fn too_few_points_are_refused() {
    assert_eq!(
        resolve_path_kind(PathKind::Linear, 1),
        Err(GeometryError::TooFewControlPoints)
    );
    assert_eq!(
        resolve_path_kind(PathKind::PerfectArc, 0),
        Err(GeometryError::TooFewControlPoints)
    );
}
