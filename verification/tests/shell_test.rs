use monstertruck_ops::errors::TopologyError;
use monstertruck_ops::planar::PlanarError;
use monstertruck_ops::shell::{
    check_hollow, check_thicken, hollow_layout, thicken_layout, validate_thickness, wall_sides,
    FacePiece, HollowPlan, ShellCondition, ShellError,
};

/// Face ids of the unit cube: bottom, top, front (-y), right (+x),
/// back (+y), left (-x).
fn cube_face_ids() -> Vec<u64> {
    vec![100, 101, 102, 103, 104, 105]
}

/// Edge ids along each face of the unit cube. Bottom edges 200..203,
/// top edges 204..207, vertical edges 208..211.
fn cube_face_edges() -> Vec<Vec<u64>> {
    vec![
        vec![200, 201, 202, 203],
        vec![204, 205, 206, 207],
        vec![200, 209, 204, 208],
        vec![201, 210, 205, 209],
        vec![202, 211, 206, 210],
        vec![203, 208, 207, 211],
    ]
}

const TOP: u64 = 101;
const FRONT: u64 = 102;

fn bits(x: f64) -> u64 {
    x.to_bits()
}

#[test]
fn thicken_rejects_nonpositive_thickness() {
    assert_eq!(
        check_thicken(true, false, bits(0.0), true, ShellCondition::Oriented),
        Err(ShellError::NonPositiveThickness(bits(0.0)))
    );
    assert_eq!(
        check_thicken(true, false, bits(-0.5), true, ShellCondition::Oriented),
        Err(ShellError::NonPositiveThickness(bits(-0.5)))
    );
}

#[test]
fn hollow_rejects_unknown_face() {
    let foreign = 999;
    let r = check_hollow(
        1,
        &cube_face_ids(),
        &cube_face_edges(),
        &vec![foreign],
        true,
        true,
        bits(0.1),
        true,
        ShellCondition::Closed,
    );
    assert!(matches!(r, Err(ShellError::FaceNotFound)));
}

#[test]
fn hollow_rejects_adjacent_open_faces() {
    let r = check_hollow(
        1,
        &cube_face_ids(),
        &cube_face_edges(),
        &vec![TOP, FRONT],
        true,
        true,
        bits(0.1),
        true,
        ShellCondition::Closed,
    );
    assert!(matches!(r, Err(ShellError::AdjacentOpenFaces)));
}

#[test]
fn hollow_rejects_already_hollow_solid() {
    let r = check_hollow(
        2,
        &vec![],
        &vec![],
        &vec![],
        true,
        true,
        bits(0.01),
        true,
        ShellCondition::Closed,
    );
    assert!(matches!(r, Err(ShellError::UnsupportedSolidBoundaries(2))));
}

#[test]
fn thicken_rejects_curved_surface() {
    let r = check_thicken(false, true, bits(0.1), true, ShellCondition::Oriented);
    assert!(matches!(r, Err(ShellError::UnsupportedGeometry { .. })));
}

#[test]
fn thicken_rejects_disconnected_shell() {
    let r = check_thicken(true, true, bits(0.1), false, ShellCondition::Oriented);
    assert!(matches!(r, Err(ShellError::NotOrientable { .. })));
}

#[test]
fn hollow_open_top_layout_has_eleven_faces() {
    let r = check_hollow(
        1,
        &cube_face_ids(),
        &cube_face_edges(),
        &vec![TOP],
        true,
        true,
        bits(0.1),
        true,
        ShellCondition::Closed,
    );
    let open = match r {
        Ok(HollowPlan::Open { faces }) => faces,
        other => panic!("unexpected {other:?}"),
    };
    assert_eq!(open, vec![1]);
    let layout = hollow_layout(6, &open);
    assert_eq!(layout.len(), 11);
    assert_eq!(layout[2], FacePiece::Ring(1));
    assert_eq!(layout[0], FacePiece::Original(0));
    assert_eq!(layout[1], FacePiece::OffsetInverse(0));
}

#[test]
fn hollow_without_open_faces_thickens_closed_shell() {
    let r = check_hollow(
        1,
        &cube_face_ids(),
        &cube_face_edges(),
        &vec![],
        true,
        true,
        bits(0.1),
        true,
        ShellCondition::Closed,
    );
    assert_eq!(r, Ok(HollowPlan::Thicken { closed: true }));
    assert_eq!(check_thicken(true, true, bits(0.1), true, ShellCondition::Closed), Ok(true));
    let shells = thicken_layout(6, true, 0);
    assert_eq!(shells.len(), 2);
    assert_eq!(shells[0].len(), 6);
    assert_eq!(shells[1].len(), 6);
    assert_eq!(shells[1][3], FacePiece::OffsetInverse(3));
}

#[test]
fn hollow_without_open_faces_repeats_thicken_errors() {
    let r = check_hollow(
        1,
        &cube_face_ids(),
        &cube_face_edges(),
        &vec![],
        true,
        true,
        bits(0.1),
        true,
        ShellCondition::Irregular,
    );
    assert!(matches!(r, Err(ShellError::NotOrientable { .. })));
    let r = check_hollow(
        1,
        &cube_face_ids(),
        &cube_face_edges(),
        &vec![],
        true,
        false,
        bits(-1.0),
        true,
        ShellCondition::Closed,
    );
    assert_eq!(r, Err(ShellError::NonPositiveThickness(bits(-1.0))));
}

#[test]
fn hollow_with_open_faces_skips_orientation_checks() {
    // With open faces, connectivity and orientation are not examined.
    let r = check_hollow(
        1,
        &cube_face_ids(),
        &cube_face_edges(),
        &vec![TOP, TOP],
        true,
        true,
        bits(0.1),
        false,
        ShellCondition::Irregular,
    );
    assert_eq!(r, Ok(HollowPlan::Open { faces: vec![1] }));
}

#[test]
fn hollow_rejects_nonplanar_before_thickness() {
    let r = check_hollow(
        1,
        &cube_face_ids(),
        &cube_face_edges(),
        &vec![TOP],
        false,
        false,
        bits(0.0),
        true,
        ShellCondition::Closed,
    );
    assert_eq!(
        r,
        Err(ShellError::UnsupportedGeometry {
            context: "only planar surfaces and straight edges are supported"
        })
    );
}

#[test]
fn flat_sheet_thickens_into_six_faces() {
    assert_eq!(check_thicken(true, true, bits(0.25), true, ShellCondition::Oriented), Ok(false));
    let shells = thicken_layout(1, false, 4);
    assert_eq!(shells.len(), 1);
    assert_eq!(shells[0].len(), 6);
    assert_eq!(
        shells[0],
        vec![
            FacePiece::Original(0),
            FacePiece::OffsetInverse(0),
            FacePiece::Wall(0),
            FacePiece::Wall(1),
            FacePiece::Wall(2),
            FacePiece::Wall(3),
        ]
    );
}

#[test]
fn open_box_thickens_into_fourteen_faces() {
    let shells = thicken_layout(5, false, 4);
    assert_eq!(shells.len(), 1);
    assert_eq!(shells[0].len(), 14);
}

#[test]
fn closed_shell_thickens_into_two_boundaries() {
    assert_eq!(check_thicken(true, true, bits(0.1), true, ShellCondition::Closed), Ok(true));
    assert_eq!(thicken_layout(6, true, 0).len(), 2);
}

#[test]
fn validate_thickness_carries_bits() {
    assert_eq!(validate_thickness(true, bits(0.1)), Ok(()));
    assert_eq!(
        validate_thickness(false, bits(1e-9)),
        Err(ShellError::NonPositiveThickness(bits(1e-9)))
    );
}

#[test]
fn regular_but_unoriented_shell_is_rejected() {
    let r = check_thicken(true, true, bits(0.1), true, ShellCondition::Regular);
    assert_eq!(
        r,
        Err(ShellError::NotOrientable {
            context: "an edge is shared by more than two faces or with incompatible orientation"
        })
    );
}

#[test]
fn open_box_rim_walls_share_side_edges() {
    // The top rim of an open box: four edges around the vertices 304..307.
    let ends = vec![(304, 305), (305, 306), (306, 307), (307, 304)];
    let (sides, pairs) = wall_sides(&ends);
    assert_eq!(sides, vec![304, 305, 306, 307]);
    assert_eq!(pairs, vec![(0, 1), (1, 2), (2, 3), (3, 0)]);
}

#[test]
fn planar_errors_convert() {
    assert_eq!(ShellError::from(PlanarError::DegenerateVertex), ShellError::DegenerateVertex);
    assert_eq!(
        ShellError::from(PlanarError::UnsupportedVertexDegree(4)),
        ShellError::UnsupportedVertexDegree(4)
    );
    let e = ShellError::InvalidOutputTopology { source: TopologyError::NotManifold };
    assert_ne!(e, ShellError::DegenerateVertex);
}
