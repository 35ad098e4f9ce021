//! Kind dispatch of the modeling geometry enums.
//!
//! The modeling curves and surfaces are enums over concrete geometry
//! (lines, B-splines, NURBS, parameter curves, intersection curves;
//! planes, B-spline and NURBS surfaces, revolution and T-spline surfaces).
//! Their operations first decide, from the variants alone, which concrete
//! computation applies; those decisions are made here, on the variants'
//! kinds. The computations themselves are floating point and belong to
//! the caller.

use vstd::prelude::*;

verus! {

/// The variants of a 3-dimensional modeling curve.
#[derive(Debug, Clone, Copy, PartialEq, Eq)]
pub enum CurveKind {
    /// Line.
    Line,
    /// 3-dimensional B-spline curve.
    BsplineCurve,
    /// 3-dimensional NURBS curve.
    NurbsCurve,
    /// Curve carried by a 2-dimensional parameter curve on a surface.
    ParameterCurve,
    /// Intersection curve of two surfaces.
    IntersectionCurve,
}

/// A modeling curve's variant, with the variant of the leader curve of an
/// intersection curve.
#[derive(Debug, Clone, Copy, PartialEq, Eq)]
pub enum CurveShape {
    /// Line.
    Line,
    /// 3-dimensional B-spline curve.
    BsplineCurve,
    /// 3-dimensional NURBS curve.
    NurbsCurve,
    /// Curve carried by a 2-dimensional parameter curve on a surface.
    ParameterCurve,
    /// Intersection curve, whose leader curve has the given variant.
    IntersectionCurve(CurveKind),
}

/// The variants of a 2-dimensional parameter-space curve.
#[derive(Debug, Clone, Copy, PartialEq, Eq)]
pub enum Curve2DKind {
    /// Line, with its two end points.
    Line,
    /// Polyline.
    Polyline,
    /// Ellipse, hyperbola or parabola.
    Conic,
    /// 2-dimensional B-spline curve.
    BsplineCurve,
    /// 2-dimensional NURBS curve.
    NurbsCurve,
}

/// The variants of a modeling surface.
#[derive(Debug, Clone, Copy, PartialEq, Eq)]
pub enum SurfaceKind {
    /// Plane.
    Plane,
    /// 3-dimensional B-spline surface.
    BsplineSurface,
    /// 3-dimensional NURBS surface.
    NurbsSurface,
    /// Surface of revolution of a curve.
    RevolutionSurface,
    /// T-spline surface.
    TsplineSurface,
}

/// A modeling surface's variant, with the shape of the revolved curve of a
/// revolution surface.
#[derive(Debug, Clone, Copy, PartialEq, Eq)]
pub enum SurfaceShape {
    /// Plane.
    Plane,
    /// 3-dimensional B-spline surface.
    BsplineSurface,
    /// 3-dimensional NURBS surface.
    NurbsSurface,
    /// Surface of revolution of a curve of the given shape.
    RevolutionSurface(CurveShape),
    /// T-spline surface.
    TsplineSurface,
}

/// The surface whose inclusion test decides whether a curve lies on a
/// surface.
#[derive(Debug, Clone, Copy, PartialEq, Eq)]
pub enum IncludingSurface {
    /// The B-spline surface itself.
    BsplineSurface,
    /// The NURBS surface itself.
    NurbsSurface,
    /// The plane itself.
    Plane,
    /// The revolution, about the surface's axis, of its line converted to a
    /// B-spline curve.
    RevolvedLine,
    /// The revolution, about the surface's axis, of its B-spline curve.
    RevolvedBspline,
    /// The revolution, about the surface's axis, of its NURBS curve.
    RevolvedNurbs,
}

/// The curve handed to a surface's inclusion test.
#[derive(Debug, Clone, Copy, PartialEq, Eq)]
pub enum IncludedCurve {
    /// The line (of the curve, or of its leader), as a B-spline curve.
    LineAsBspline,
    /// The B-spline curve (of the curve, or of its leader).
    Bspline,
    /// The NURBS curve (of the curve, or of its leader).
    Nurbs,
}

/// How to decide whether a surface includes a curve.
#[derive(Debug, Clone, Copy, PartialEq, Eq)]
pub enum IncludeTest {
    /// The curve is a parameter curve: it is included when its surface is
    /// the same surface.
    SameSurface,
    /// Hand the curve to the surface's inclusion test.
    Inclusion {
        /// The surface whose test applies.
        surface: IncludingSurface,
        /// The curve to test.
        curve: IncludedCurve,
    },
    /// Every control point of the lifted curve must have a parameter on
    /// the T-spline surface.
    TsplineControlPoints,
    /// The curve is never included.
    Never,
}

/// The curve a surface's inclusion test receives for a curve of kind
/// `kind`: lines, B-splines and NURBS themselves; nothing for the others.
pub open spec fn included_kind(kind: CurveKind) -> Option<IncludedCurve> {
    match kind {
        CurveKind::Line => Some(IncludedCurve::LineAsBspline),
        CurveKind::BsplineCurve => Some(IncludedCurve::Bspline),
        CurveKind::NurbsCurve => Some(IncludedCurve::Nurbs),
        _ => None,
    }
}

/// The curve a surface's inclusion test receives for a curve that is not
/// a parameter curve: the curve itself, or the leader of an intersection
/// curve.
pub open spec fn included_curve(curve: CurveShape) -> Option<IncludedCurve> {
    match curve {
        CurveShape::Line => included_kind(CurveKind::Line),
        CurveShape::BsplineCurve => included_kind(CurveKind::BsplineCurve),
        CurveShape::NurbsCurve => included_kind(CurveKind::NurbsCurve),
        CurveShape::ParameterCurve => None,
        CurveShape::IntersectionCurve(leader) => included_kind(leader),
    }
}

/// The surface that decides inclusion in a revolution surface of a curve
/// of shape `entity`: the revolution of the line, B-spline or NURBS curve
/// (itself, or the leader of an intersection curve); none otherwise.
pub open spec fn revolved_surface(entity: CurveShape) -> Option<IncludingSurface> {
    match included_curve(entity) {
        Some(IncludedCurve::LineAsBspline) => Some(IncludingSurface::RevolvedLine),
        Some(IncludedCurve::Bspline) => Some(IncludingSurface::RevolvedBspline),
        Some(IncludedCurve::Nurbs) => Some(IncludingSurface::RevolvedNurbs),
        None => None,
    }
}

fn included_kind_exec(kind: CurveKind) -> (r: Option<IncludedCurve>)
    ensures
        r == included_kind(kind),
{
    match kind {
        CurveKind::Line => Some(IncludedCurve::LineAsBspline),
        CurveKind::BsplineCurve => Some(IncludedCurve::Bspline),
        CurveKind::NurbsCurve => Some(IncludedCurve::Nurbs),
        _ => None,
    }
}

fn included_curve_exec(curve: CurveShape) -> (r: Option<IncludedCurve>)
    ensures
        r == included_curve(curve),
{
    match curve {
        CurveShape::Line => Some(IncludedCurve::LineAsBspline),
        CurveShape::BsplineCurve => Some(IncludedCurve::Bspline),
        CurveShape::NurbsCurve => Some(IncludedCurve::Nurbs),
        CurveShape::ParameterCurve => None,
        CurveShape::IntersectionCurve(leader) => included_kind_exec(leader),
    }
}

/// Decides how to test whether a surface of shape `surface` includes a
/// curve of shape `curve`.
///
/// A parameter curve is included when it lies on the same surface. Other
/// curves go to the surface's own inclusion test, as a B-spline (lines),
/// B-spline or NURBS curve, the leader standing for an intersection curve;
/// a revolution surface is first rebuilt as the revolution of its own
/// curve in the same way; a T-spline surface tests the control points of
/// the lifted curve. Where no such curve or surface exists, the curve is
/// never included.
pub fn include_test(surface: SurfaceShape, curve: CurveShape) -> (r: IncludeTest)
    ensures
        curve == CurveShape::ParameterCurve ==> r == IncludeTest::SameSurface,
        curve != CurveShape::ParameterCurve ==> r == match surface {
            SurfaceShape::TsplineSurface => IncludeTest::TsplineControlPoints,
            SurfaceShape::RevolutionSurface(entity) => match (
                revolved_surface(entity),
                included_curve(curve),
            ) {
                (Some(s), Some(c)) => IncludeTest::Inclusion { surface: s, curve: c },
                _ => IncludeTest::Never,
            },
            _ => match included_curve(curve) {
                Some(c) => IncludeTest::Inclusion {
                    surface: match surface {
                        SurfaceShape::BsplineSurface => IncludingSurface::BsplineSurface,
                        SurfaceShape::NurbsSurface => IncludingSurface::NurbsSurface,
                        _ => IncludingSurface::Plane,
                    },
                    curve: c,
                },
                None => IncludeTest::Never,
            },
        },
{
    if let CurveShape::ParameterCurve = curve {
        return IncludeTest::SameSurface;
    }
    let including = match surface {
        SurfaceShape::TsplineSurface => {
            return IncludeTest::TsplineControlPoints;
        },
        SurfaceShape::BsplineSurface => IncludingSurface::BsplineSurface,
        SurfaceShape::NurbsSurface => IncludingSurface::NurbsSurface,
        SurfaceShape::Plane => IncludingSurface::Plane,
        SurfaceShape::RevolutionSurface(entity) => match included_curve_exec(entity) {
            Some(IncludedCurve::LineAsBspline) => IncludingSurface::RevolvedLine,
            Some(IncludedCurve::Bspline) => IncludingSurface::RevolvedBspline,
            Some(IncludedCurve::Nurbs) => IncludingSurface::RevolvedNurbs,
            None => {
                return IncludeTest::Never;
            },
        },
    };
    match included_curve_exec(curve) {
        Some(c) => IncludeTest::Inclusion { surface: including, curve: c },
        None => IncludeTest::Never,
    }
}

/// Where the parameter-space image of a curve on a surface can come from.
#[derive(Debug, Clone, Copy, PartialEq, Eq)]
pub enum BoundarySource {
    /// Sample the curve and project the samples onto the surface.
    Sampled,
    /// Sample the leader of an intersection curve and project the samples.
    SampledLeader,
    /// The exact image of a line, B-spline or NURBS curve (see
    /// [`exact_supported`]).
    Exact,
    /// The curve's own parameter curve (the surface is its surface).
    OwnParameterCurve,
    /// The stored boundary curve of an intersection curve on its first
    /// surface (the surface is that one), if it has one.
    StoredBoundary0,
    /// The stored boundary curve of an intersection curve on its second
    /// surface (the surface is that one), if it has one.
    StoredBoundary1,
    /// The image of the leader of an intersection curve, found the same
    /// way.
    Leader,
}

/// Whether the exact image on a surface of kind `surface` is computed for
/// a curve of kind `curve`: lines on planes, B-splines on B-spline
/// surfaces, NURBS on NURBS surfaces, and each of them on revolution
/// surfaces.
pub open spec fn exact_supported_spec(curve: CurveKind, surface: SurfaceKind) -> bool {
    match curve {
        CurveKind::Line => surface == SurfaceKind::Plane || surface == SurfaceKind::RevolutionSurface,
        CurveKind::BsplineCurve => surface == SurfaceKind::BsplineSurface || surface
            == SurfaceKind::RevolutionSurface,
        CurveKind::NurbsCurve => surface == SurfaceKind::NurbsSurface || surface
            == SurfaceKind::RevolutionSurface,
        _ => false,
    }
}

/// See [`exact_supported_spec`].
pub fn exact_supported(curve: CurveKind, surface: SurfaceKind) -> (r: bool)
    ensures
        r == exact_supported_spec(curve, surface),
{
    match (curve, surface) {
        (CurveKind::Line, SurfaceKind::Plane) => true,
        (CurveKind::BsplineCurve, SurfaceKind::BsplineSurface) => true,
        (CurveKind::NurbsCurve, SurfaceKind::NurbsSurface) => true,
        (CurveKind::Line, SurfaceKind::RevolutionSurface) => true,
        (CurveKind::BsplineCurve, SurfaceKind::RevolutionSurface) => true,
        (CurveKind::NurbsCurve, SurfaceKind::RevolutionSurface) => true,
        _ => false,
    }
}

/// The sources to try, in order, for the parameter-space image of a curve
/// of kind `curve` on a surface; the first that yields an image is used.
///
/// `on_surface0` tells whether the surface is the curve's own surface (for
/// a parameter curve) or the first surface of an intersection curve;
/// `on_surface1` whether it is the second surface of an intersection
/// curve. With `exact_only`, only exact images are sought (no sampling);
/// the leader of an intersection curve is then asked for an exact image
/// too.
pub open spec fn boundary_sources_spec(
    curve: CurveKind,
    on_surface0: bool,
    on_surface1: bool,
    exact_only: bool,
) -> Seq<BoundarySource> {
    match curve {
        CurveKind::ParameterCurve => if on_surface0 {
            seq![BoundarySource::OwnParameterCurve]
        } else {
            Seq::empty()
        },
        CurveKind::IntersectionCurve => if on_surface0 {
            seq![BoundarySource::StoredBoundary0, BoundarySource::Leader]
        } else if on_surface1 {
            seq![BoundarySource::StoredBoundary1, BoundarySource::Leader]
        } else if exact_only {
            Seq::empty()
        } else {
            seq![BoundarySource::SampledLeader]
        },
        _ => if exact_only {
            seq![BoundarySource::Exact]
        } else {
            seq![BoundarySource::Sampled, BoundarySource::Exact]
        },
    }
}

/// See [`boundary_sources_spec`].
pub fn boundary_sources(curve: CurveKind, on_surface0: bool, on_surface1: bool, exact_only: bool) -> (r:
    Vec<BoundarySource>)
    ensures
        r@ == boundary_sources_spec(curve, on_surface0, on_surface1, exact_only),
{
    let mut out: Vec<BoundarySource> = Vec::new();
    match curve {
        CurveKind::ParameterCurve => {
            if on_surface0 {
                out.push(BoundarySource::OwnParameterCurve);
            }
        },
        CurveKind::IntersectionCurve => {
            if on_surface0 {
                out.push(BoundarySource::StoredBoundary0);
                out.push(BoundarySource::Leader);
            } else if on_surface1 {
                out.push(BoundarySource::StoredBoundary1);
                out.push(BoundarySource::Leader);
            } else if !exact_only {
                out.push(BoundarySource::SampledLeader);
            }
        },
        _ => {
            if !exact_only {
                out.push(BoundarySource::Sampled);
            }
            out.push(BoundarySource::Exact);
        },
    }
    assert(out@ =~= boundary_sources_spec(curve, on_surface0, on_surface1, exact_only));
    out
}

/// The name under which a curve is reported when profiling curve
/// division and trimming.
pub open spec fn curve_label_spec(curve: CurveShape) -> &'static str {
    match curve {
        CurveShape::Line => "Line",
        CurveShape::BsplineCurve => "BsplineCurve",
        CurveShape::NurbsCurve => "NurbsCurve",
        CurveShape::ParameterCurve => "ParameterCurve",
        CurveShape::IntersectionCurve(leader) => match leader {
            CurveKind::Line => "IntersectionCurve(Line)",
            CurveKind::BsplineCurve => "IntersectionCurve(BsplineCurve)",
            CurveKind::NurbsCurve => "IntersectionCurve(NurbsCurve)",
            CurveKind::ParameterCurve => "IntersectionCurve(ParameterCurve)",
            CurveKind::IntersectionCurve => "IntersectionCurve(IntersectionCurve)",
        },
    }
}

/// See [`curve_label_spec`].
pub fn curve_label(curve: CurveShape) -> (r: &'static str)
    ensures
        r == curve_label_spec(curve),
{
    match curve {
        CurveShape::Line => "Line",
        CurveShape::BsplineCurve => "BsplineCurve",
        CurveShape::NurbsCurve => "NurbsCurve",
        CurveShape::ParameterCurve => "ParameterCurve",
        CurveShape::IntersectionCurve(leader) => match leader {
            CurveKind::Line => "IntersectionCurve(Line)",
            CurveKind::BsplineCurve => "IntersectionCurve(BsplineCurve)",
            CurveKind::NurbsCurve => "IntersectionCurve(NurbsCurve)",
            CurveKind::ParameterCurve => "IntersectionCurve(ParameterCurve)",
            CurveKind::IntersectionCurve => "IntersectionCurve(IntersectionCurve)",
        },
    }
}

/// Which points of a parameter-space curve receive new end points.
#[derive(Debug, Clone, Copy, PartialEq, Eq)]
pub struct EndpointSlots {
    /// The index of the point set to the new front end, if any.
    pub front: Option<usize>,
    /// The index of the point set to the new back end, if any; it is set
    /// after the front one.
    pub back: Option<usize>,
}

/// Where the new end points of a parameter-space curve of kind `kind`
/// with `len` points go (for a line, its two end points count as points 0
/// and 1; a NURBS curve keeps the weights of the points it replaces).
///
/// A polyline sets its first and last points whenever it has any, so a
/// one-point polyline ends up at the back end; B-spline and NURBS curves
/// set their last control point only when it is not also the first, so a
/// one-point control polygon ends up at the front end. Conics are left
/// unchanged.
pub open spec fn endpoint_slots_spec(kind: Curve2DKind, len: nat) -> EndpointSlots {
    match kind {
        Curve2DKind::Line => EndpointSlots { front: Some(0), back: Some(1) },
        Curve2DKind::Polyline => if len >= 1 {
            EndpointSlots { front: Some(0), back: Some((len - 1) as usize) }
        } else {
            EndpointSlots { front: None, back: None }
        },
        Curve2DKind::Conic => EndpointSlots { front: None, back: None },
        _ => EndpointSlots {
            front: if len >= 1 {
                Some(0)
            } else {
                None
            },
            back: if len > 1 {
                Some((len - 1) as usize)
            } else {
                None
            },
        },
    }
}

/// See [`endpoint_slots_spec`].
pub fn endpoint_slots(kind: Curve2DKind, len: usize) -> (r: EndpointSlots)
    ensures
        r == endpoint_slots_spec(kind, len as nat),
{
    match kind {
        Curve2DKind::Line => EndpointSlots { front: Some(0), back: Some(1) },
        Curve2DKind::Polyline => {
            if len >= 1 {
                EndpointSlots { front: Some(0), back: Some(len - 1) }
            } else {
                EndpointSlots { front: None, back: None }
            }
        },
        Curve2DKind::Conic => EndpointSlots { front: None, back: None },
        _ => {
            let front = if len >= 1 {
                Some(0)
            } else {
                None
            };
            let back = if len > 1 {
                Some(len - 1)
            } else {
                None
            };
            EndpointSlots { front, back }
        },
    }
}

/// Writes new end points into the points of a curve, as `slots` says:
/// first the front one, then the back one.
pub fn set_endpoints<T: Copy>(points: &mut Vec<T>, slots: EndpointSlots, front: T, back: T)
    requires
        slots.front matches Some(i) ==> i < old(points)@.len(),
        slots.back matches Some(i) ==> i < old(points)@.len(),
    ensures
        final(points)@ == {
            let with_front = match slots.front {
                Some(i) => old(points)@.update(i as int, front),
                None => old(points)@,
            };
            match slots.back {
                Some(i) => with_front.update(i as int, back),
                None => with_front,
            }
        },
{
    if let Some(i) = slots.front {
        points.set(i, front);
    }
    if let Some(i) = slots.back {
        points.set(i, back);
    }
}

/// The points of a parameter-space curve of kind `kind` with `len` points
/// that hint where its ends lie on the surface: its first and last points
/// (a line's two end points), or none for a conic or an empty curve.
pub open spec fn endpoint_hints_spec(kind: Curve2DKind, len: nat) -> Option<(usize, usize)> {
    match kind {
        Curve2DKind::Line => Some((0usize, 1usize)),
        Curve2DKind::Conic => None,
        _ => if len >= 1 {
            Some((0usize, (len - 1) as usize))
        } else {
            None
        },
    }
}

/// See [`endpoint_hints_spec`].
pub fn endpoint_hints(kind: Curve2DKind, len: usize) -> (r: Option<(usize, usize)>)
    ensures
        r == endpoint_hints_spec(kind, len as nat),
{
    match kind {
        Curve2DKind::Line => Some((0, 1)),
        Curve2DKind::Conic => None,
        _ => {
            if len >= 1 {
                Some((0, len - 1))
            } else {
                None
            }
        },
    }
}

/// The surface an extrusion of a curve of kind `kind` becomes: a plane
/// for a line, the ruled B-spline or NURBS surface between the curve and
/// its translate otherwise. Parameter and intersection curves are not
/// extruded.
pub fn extruded_surface(kind: CurveKind) -> (r: SurfaceKind)
    requires
        kind == CurveKind::Line || kind == CurveKind::BsplineCurve || kind == CurveKind::NurbsCurve,
    ensures
        kind == CurveKind::Line ==> r == SurfaceKind::Plane,
        kind == CurveKind::BsplineCurve ==> r == SurfaceKind::BsplineSurface,
        kind == CurveKind::NurbsCurve ==> r == SurfaceKind::NurbsSurface,
{
    match kind {
        CurveKind::Line => SurfaceKind::Plane,
        CurveKind::BsplineCurve => SurfaceKind::BsplineSurface,
        _ => SurfaceKind::NurbsSurface,
    }
}

/// A line, B-spline or NURBS curve is handed to an inclusion test as a
/// curve of its own kind (a line as a B-spline), an intersection curve as
/// its leader, and a parameter curve is not handed over at all.
pub proof fn law_included_curve_keeps_kind(leader: CurveKind)
    ensures
        included_curve(CurveShape::Line) == Some(IncludedCurve::LineAsBspline),
        included_curve(CurveShape::BsplineCurve) == Some(IncludedCurve::Bspline),
        included_curve(CurveShape::NurbsCurve) == Some(IncludedCurve::Nurbs),
        included_curve(CurveShape::ParameterCurve) is None,
        included_curve(CurveShape::IntersectionCurve(leader)) == match leader {
            CurveKind::Line => Some(IncludedCurve::LineAsBspline),
            CurveKind::BsplineCurve => Some(IncludedCurve::Bspline),
            CurveKind::NurbsCurve => Some(IncludedCurve::Nurbs),
            _ => None::<IncludedCurve>,
        },
{
}

/// A revolution surface tests inclusion on the revolution of its entity
/// curve, of the same kind as that curve: a line's revolution for a line,
/// a B-spline's for a B-spline, a NURBS curve's for a NURBS curve (the
/// leader standing for an intersection curve), and none for the others.
pub proof fn law_revolved_surface_keeps_kind(entity: CurveShape)
    ensures
        revolved_surface(entity) == Some(IncludingSurface::RevolvedLine) <==> included_curve(entity)
            == Some(IncludedCurve::LineAsBspline),
        revolved_surface(entity) == Some(IncludingSurface::RevolvedBspline) <==> included_curve(
            entity,
        ) == Some(IncludedCurve::Bspline),
        revolved_surface(entity) == Some(IncludingSurface::RevolvedNurbs) <==> included_curve(
            entity,
        ) == Some(IncludedCurve::Nurbs),
        revolved_surface(entity) is None <==> included_curve(entity) is None,
        revolved_surface(entity) is Some ==> revolved_surface(entity) != Some(
            IncludingSurface::Plane,
        ) && revolved_surface(entity) != Some(IncludingSurface::BsplineSurface) && revolved_surface(
            entity,
        ) != Some(IncludingSurface::NurbsSurface),
        entity == CurveShape::Line ==> revolved_surface(entity) == Some(
            IncludingSurface::RevolvedLine,
        ),
        entity == CurveShape::BsplineCurve ==> revolved_surface(entity) == Some(
            IncludingSurface::RevolvedBspline,
        ),
        entity == CurveShape::NurbsCurve ==> revolved_surface(entity) == Some(
            IncludingSurface::RevolvedNurbs,
        ),
{
}

/// The parameter-space image of a curve: a parameter curve on its own
/// surface is its own parameter curve, in exact and in sampled mode, and
/// on any other surface it has none; an intersection curve on one of its
/// surfaces first tries the boundary stored for that surface, then its
/// leader; a line, B-spline or NURBS curve always ends with its exact
/// image, which in sampled mode is tried after sampling. In exact mode
/// nothing is sampled.
pub proof fn law_boundary_sources_by_kind(
    curve: CurveKind,
    on_surface0: bool,
    on_surface1: bool,
    exact_only: bool,
)
    ensures
        curve == CurveKind::ParameterCurve && on_surface0 ==> boundary_sources_spec(
            curve,
            on_surface0,
            on_surface1,
            exact_only,
        ) == seq![BoundarySource::OwnParameterCurve],
        curve == CurveKind::ParameterCurve && !on_surface0 ==> boundary_sources_spec(
            curve,
            on_surface0,
            on_surface1,
            exact_only,
        ).len() == 0,
        curve == CurveKind::IntersectionCurve && on_surface0 ==> boundary_sources_spec(
            curve,
            on_surface0,
            on_surface1,
            exact_only,
        ) == seq![BoundarySource::StoredBoundary0, BoundarySource::Leader],
        curve == CurveKind::IntersectionCurve && !on_surface0 && on_surface1
            ==> boundary_sources_spec(curve, on_surface0, on_surface1, exact_only) == seq![
            BoundarySource::StoredBoundary1,
            BoundarySource::Leader,
        ],
        curve == CurveKind::IntersectionCurve && !on_surface0 && !on_surface1 && !exact_only
            ==> boundary_sources_spec(curve, on_surface0, on_surface1, exact_only) == seq![
            BoundarySource::SampledLeader,
        ],
        (curve == CurveKind::Line || curve == CurveKind::BsplineCurve || curve
            == CurveKind::NurbsCurve) ==> {
            let s = boundary_sources_spec(curve, on_surface0, on_surface1, exact_only);
            &&& s.len() >= 1 && s.last() == BoundarySource::Exact
            &&& exact_only ==> s == seq![BoundarySource::Exact]
            &&& !exact_only ==> s == seq![BoundarySource::Sampled, BoundarySource::Exact]
        },
        exact_only ==> !boundary_sources_spec(curve, on_surface0, on_surface1, exact_only).contains(
            BoundarySource::Sampled,
        ) && !boundary_sources_spec(curve, on_surface0, on_surface1, exact_only).contains(
            BoundarySource::SampledLeader,
        ),
{
    let s = boundary_sources_spec(curve, on_surface0, on_surface1, exact_only);
    if exact_only {
        assert(!s.contains(BoundarySource::Sampled) && !s.contains(BoundarySource::SampledLeader)) by {
            if s.contains(BoundarySource::Sampled) || s.contains(BoundarySource::SampledLeader) {
                let t = choose|t: int|
                    0 <= t < s.len() && (s[t] == BoundarySource::Sampled || s[t]
                        == BoundarySource::SampledLeader);
                assert(false);
            }
        }
    }
}

/// Exact images exist for each of lines, B-splines and NURBS curves on the
/// surface of the same kind (lines on planes) and on revolution surfaces,
/// and never for parameter or intersection curves.
pub proof fn law_exact_supported_by_kind(curve: CurveKind, surface: SurfaceKind)
    ensures
        exact_supported_spec(CurveKind::Line, SurfaceKind::Plane),
        exact_supported_spec(CurveKind::BsplineCurve, SurfaceKind::BsplineSurface),
        exact_supported_spec(CurveKind::NurbsCurve, SurfaceKind::NurbsSurface),
        (curve == CurveKind::Line || curve == CurveKind::BsplineCurve || curve
            == CurveKind::NurbsCurve) ==> exact_supported_spec(curve, SurfaceKind::RevolutionSurface),
        (curve == CurveKind::ParameterCurve || curve == CurveKind::IntersectionCurve)
            ==> !exact_supported_spec(curve, surface),
        surface == SurfaceKind::TsplineSurface ==> !exact_supported_spec(curve, surface),
{
}

/// New end points go to the ends of a curve: the front one to its first
/// point and the back one to its last; for a line to its two end points.
/// On a polyline, B-spline or NURBS curve of at least two points, the two
/// slots are the first and the last point and so differ; a curve with no
/// point, and a conic, gets none.
pub proof fn law_endpoint_slots_at_the_ends(kind: Curve2DKind, len: nat)
    requires
        len <= usize::MAX,
    ensures
        kind == Curve2DKind::Line ==> endpoint_slots_spec(kind, len) == (EndpointSlots {
            front: Some(0),
            back: Some(1),
        }),
        kind == Curve2DKind::Conic || len == 0 && kind != Curve2DKind::Line ==> endpoint_slots_spec(
            kind,
            len,
        ) == (EndpointSlots { front: None, back: None }),
        kind != Curve2DKind::Line && kind != Curve2DKind::Conic && len >= 2 ==> endpoint_slots_spec(
            kind,
            len,
        ) == (EndpointSlots { front: Some(0), back: Some((len - 1) as usize) }),
        kind == Curve2DKind::Polyline && len >= 1 ==> endpoint_slots_spec(kind, len) == (
        EndpointSlots { front: Some(0), back: Some((len - 1) as usize) }),
        (kind == Curve2DKind::BsplineCurve || kind == Curve2DKind::NurbsCurve) && len == 1
            ==> endpoint_slots_spec(kind, len) == (EndpointSlots { front: Some(0), back: None }),
        kind != Curve2DKind::Line ==> (endpoint_slots_spec(kind, len).front matches Some(i) ==> i
            < len) && (endpoint_slots_spec(kind, len).back matches Some(i) ==> i < len),
{
}

/// Setting the end points of a polyline, B-spline or NURBS curve of at
/// least two points puts the front end first and the back end last, and
/// leaves every point between them in place.
pub proof fn law_set_endpoints_moves_only_the_ends<T>(
    kind: Curve2DKind,
    points: Seq<T>,
    front: T,
    back: T,
)
    requires
        kind != Curve2DKind::Line && kind != Curve2DKind::Conic,
        2 <= points.len() <= usize::MAX,
    ensures
        ({
            let slots = endpoint_slots_spec(kind, points.len());
            let with_front = match slots.front {
                Some(i) => points.update(i as int, front),
                None => points,
            };
            let result = match slots.back {
                Some(i) => with_front.update(i as int, back),
                None => with_front,
            };
            &&& result.len() == points.len()
            &&& result[0] == front
            &&& result[points.len() - 1] == back
            &&& forall|t: int| 0 < t < points.len() - 1 ==> #[trigger] result[t] == points[t]
        }),
{
    law_endpoint_slots_at_the_ends(kind, points.len());
}

/// The points that hint where a curve's ends lie are its first and last
/// points (a line's two end points); a conic or an empty curve gives none.
pub proof fn law_endpoint_hints_at_the_ends(kind: Curve2DKind, len: nat)
    requires
        len <= usize::MAX,
    ensures
        kind == Curve2DKind::Line ==> endpoint_hints_spec(kind, len) == Some((0usize, 1usize)),
        kind == Curve2DKind::Conic ==> endpoint_hints_spec(kind, len) is None,
        kind != Curve2DKind::Line && kind != Curve2DKind::Conic && len >= 1 ==> endpoint_hints_spec(
            kind,
            len,
        ) == Some((0usize, (len - 1) as usize)),
        kind != Curve2DKind::Line && len == 0 ==> endpoint_hints_spec(kind, len) is None,
{
}

} // verus!
