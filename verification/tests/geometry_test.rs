use monstertruck_ops::geometry::{
    boundary_sources, curve_label, endpoint_hints, endpoint_slots, exact_supported,
    extruded_surface, include_test, set_endpoints, BoundarySource, Curve2DKind, CurveKind,
    CurveShape, EndpointSlots, IncludeTest, IncludedCurve, IncludingSurface, SurfaceKind,
    SurfaceShape,
};

#[test]
fn parameter_curves_compare_surfaces() {
    for surface in [
        SurfaceShape::Plane,
        SurfaceShape::TsplineSurface,
        SurfaceShape::RevolutionSurface(CurveShape::ParameterCurve),
    ] {
        assert_eq!(include_test(surface, CurveShape::ParameterCurve), IncludeTest::SameSurface);
    }
}

#[test]
fn lines_are_tested_as_bsplines_on_planes() {
    assert_eq!(
        include_test(SurfaceShape::Plane, CurveShape::Line),
        IncludeTest::Inclusion { surface: IncludingSurface::Plane, curve: IncludedCurve::LineAsBspline }
    );
    assert_eq!(
        include_test(SurfaceShape::NurbsSurface, CurveShape::IntersectionCurve(CurveKind::NurbsCurve)),
        IncludeTest::Inclusion { surface: IncludingSurface::NurbsSurface, curve: IncludedCurve::Nurbs }
    );
}

#[test]
fn intersection_with_parameter_leader_is_never_included() {
    assert_eq!(
        include_test(SurfaceShape::BsplineSurface, CurveShape::IntersectionCurve(CurveKind::ParameterCurve)),
        IncludeTest::Never
    );
    assert_eq!(
        include_test(SurfaceShape::Plane, CurveShape::IntersectionCurve(CurveKind::IntersectionCurve)),
        IncludeTest::Never
    );
}

#[test]
fn revolution_surfaces_revolve_their_curve() {
    assert_eq!(
        include_test(
            SurfaceShape::RevolutionSurface(CurveShape::IntersectionCurve(CurveKind::Line)),
            CurveShape::BsplineCurve
        ),
        IncludeTest::Inclusion { surface: IncludingSurface::RevolvedLine, curve: IncludedCurve::Bspline }
    );
    assert_eq!(
        include_test(SurfaceShape::RevolutionSurface(CurveShape::ParameterCurve), CurveShape::Line),
        IncludeTest::Never
    );
    assert_eq!(
        include_test(SurfaceShape::TsplineSurface, CurveShape::NurbsCurve),
        IncludeTest::TsplineControlPoints
    );
}

#[test]
fn exact_images_by_kind() {
    assert!(exact_supported(CurveKind::Line, SurfaceKind::Plane));
    assert!(exact_supported(CurveKind::Line, SurfaceKind::RevolutionSurface));
    assert!(!exact_supported(CurveKind::Line, SurfaceKind::BsplineSurface));
    assert!(exact_supported(CurveKind::NurbsCurve, SurfaceKind::NurbsSurface));
    assert!(!exact_supported(CurveKind::ParameterCurve, SurfaceKind::Plane));
}

#[test]
fn boundary_sources_in_order() {
    assert_eq!(
        boundary_sources(CurveKind::Line, false, false, false),
        vec![BoundarySource::Sampled, BoundarySource::Exact]
    );
    assert_eq!(boundary_sources(CurveKind::Line, false, false, true), vec![BoundarySource::Exact]);
    assert_eq!(
        boundary_sources(CurveKind::IntersectionCurve, false, true, false),
        vec![BoundarySource::StoredBoundary1, BoundarySource::Leader]
    );
    assert_eq!(
        boundary_sources(CurveKind::IntersectionCurve, false, false, false),
        vec![BoundarySource::SampledLeader]
    );
    assert_eq!(boundary_sources(CurveKind::IntersectionCurve, false, false, true), vec![]);
    assert_eq!(boundary_sources(CurveKind::ParameterCurve, false, false, false), vec![]);
}

#[test]
fn profiling_labels() {
    assert_eq!(curve_label(CurveShape::NurbsCurve), "NurbsCurve");
    assert_eq!(
        curve_label(CurveShape::IntersectionCurve(CurveKind::BsplineCurve)),
        "IntersectionCurve(BsplineCurve)"
    );
}

#[test]
fn single_point_polyline_ends_at_back() {
    let slots = endpoint_slots(Curve2DKind::Polyline, 1);
    assert_eq!(slots, EndpointSlots { front: Some(0), back: Some(0) });
    let mut points = vec![(0.0, 0.0)];
    set_endpoints(&mut points, slots, (1.0, 1.0), (2.0, 2.0));
    assert_eq!(points, vec![(2.0, 2.0)]);
}

#[test]
fn single_point_bspline_ends_at_front() {
    let slots = endpoint_slots(Curve2DKind::BsplineCurve, 1);
    assert_eq!(slots, EndpointSlots { front: Some(0), back: None });
    let mut points = vec![(0.0, 0.0)];
    set_endpoints(&mut points, slots, (1.0, 1.0), (2.0, 2.0));
    assert_eq!(points, vec![(1.0, 1.0)]);
}

#[test]
fn endpoints_of_longer_curves() {
    let mut points = vec![0, 1, 2, 3];
    set_endpoints(&mut points, endpoint_slots(Curve2DKind::NurbsCurve, 4), 10, 13);
    assert_eq!(points, vec![10, 1, 2, 13]);
    assert_eq!(endpoint_slots(Curve2DKind::Conic, 5), EndpointSlots { front: None, back: None });
    assert_eq!(endpoint_slots(Curve2DKind::Polyline, 0), EndpointSlots { front: None, back: None });
    assert_eq!(endpoint_slots(Curve2DKind::Line, 2), EndpointSlots { front: Some(0), back: Some(1) });
}

#[test]
fn endpoint_hint_positions() {
    assert_eq!(endpoint_hints(Curve2DKind::BsplineCurve, 5), Some((0, 4)));
    assert_eq!(endpoint_hints(Curve2DKind::Polyline, 0), None);
    assert_eq!(endpoint_hints(Curve2DKind::Conic, 3), None);
    assert_eq!(endpoint_hints(Curve2DKind::Line, 2), Some((0, 1)));
}

#[test]
fn extrusions_by_kind() {
    assert_eq!(extruded_surface(CurveKind::Line), SurfaceKind::Plane);
    assert_eq!(extruded_surface(CurveKind::BsplineCurve), SurfaceKind::BsplineSurface);
    assert_eq!(extruded_surface(CurveKind::NurbsCurve), SurfaceKind::NurbsSurface);
}
