use monstertruck_ops::draft::{check_draft, DraftError};
use monstertruck_ops::planar::PlanarError;

fn cube_face_ids() -> Vec<u64> {
    vec![100, 101, 102, 103, 104, 105]
}

const FRONT: u64 = 102;

fn deg_bits(degrees: f64) -> u64 {
    degrees.to_radians().to_bits()
}

/// The caller's angle test: strictly between 0 and 90 degrees.
fn in_range(degrees: f64) -> bool {
    let r = degrees.to_radians();
    r > 0.0 && r < std::f64::consts::FRAC_PI_2
}

#[test]
fn draft_rejects_curved_surface() {
    let ids = cube_face_ids();
    let r = check_draft(true, deg_bits(5.0), true, 1, &ids, &ids, false);
    assert!(matches!(r, Err(DraftError::UnsupportedGeometry { .. })));
}

#[test]
fn draft_rejects_invalid_angle() {
    for degrees in [0.0, -5.0, 90.0] {
        let r = check_draft(
            in_range(degrees),
            deg_bits(degrees),
            true,
            1,
            &cube_face_ids(),
            &vec![FRONT],
            true,
        );
        assert!(matches!(r, Err(DraftError::InvalidAngle { .. })));
        assert_eq!(r, Err(DraftError::InvalidAngle { radians_bits: deg_bits(degrees) }));
    }
}

#[test]
fn draft_rejects_unknown_face() {
    let r = check_draft(true, deg_bits(5.0), true, 1, &cube_face_ids(), &vec![999], true);
    assert!(matches!(r, Err(DraftError::FaceNotFound)));
}

#[test]
fn draft_rejects_no_faces_selected() {
    let r = check_draft(true, deg_bits(5.0), true, 1, &cube_face_ids(), &vec![], true);
    assert!(matches!(r, Err(DraftError::NoFacesSelected)));
}

#[test]
fn draft_selects_side_faces() {
    let r = check_draft(
        true,
        deg_bits(5.0),
        true,
        1,
        &cube_face_ids(),
        &vec![103, 105, 104, 102],
        true,
    );
    assert_eq!(r, Ok(vec![2, 3, 4, 5]));
}

#[test]
fn draft_checks_pull_direction_before_faces() {
    let r = check_draft(true, deg_bits(5.0), false, 1, &cube_face_ids(), &vec![], true);
    assert_eq!(r, Err(DraftError::DegeneratePullDirection));
}

#[test]
fn draft_rejects_hollow_solid() {
    let r = check_draft(true, deg_bits(5.0), true, 2, &vec![], &vec![FRONT], true);
    assert_eq!(r, Err(DraftError::UnsupportedSolidBoundaries(2)));
}

#[test]
fn draft_planar_errors_convert() {
    assert_eq!(DraftError::from(PlanarError::DegenerateVertex), DraftError::DegenerateVertex);
    assert_eq!(
        DraftError::from(PlanarError::UnsupportedVertexDegree(5)),
        DraftError::UnsupportedVertexDegree(5)
    );
}
