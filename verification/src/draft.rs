//! Planar draft (mold taper) about a neutral plane: the checks of the
//! operation.
//!
//! Drafting tilts selected planar faces of a solid about their
//! intersection line with a neutral plane and rebuilds shared vertices and
//! edges by intersecting the adjacent planes, with the same incidence
//! bookkeeping and plane merging as shell/thicken
//! ([`topology`](crate::topology), [`planar`](crate::planar)). The faces
//! are rebuilt one for one on the new edges by
//! [`map_face_wires`](crate::topology::map_face_wires), so drafting never
//! adds or removes a face and keeps the connectivity of the shell. The
//! rotated planes are computed by the caller.

use crate::errors::TopologyError;
use crate::planar::PlanarError;
use crate::topology::{resolution, resolve_face_indices};
use vstd::prelude::*;

verus! {

/// Errors that can occur during draft (mold-taper) operations.
#[derive(Debug, Clone, Copy, PartialEq, Eq)]
pub enum DraftError {
    /// A surface is not a plane or an edge curve is not a line.
    UnsupportedGeometry {
        /// Description of which piece of geometry could not be handled.
        context: &'static str,
    },
    /// One of the requested faces was not found in the solid.
    FaceNotFound,
    /// Drafting requires a solid with exactly one boundary shell.
    UnsupportedSolidBoundaries(usize),
    /// No faces were selected to draft.
    NoFacesSelected,
    /// The requested angle is not strictly between 0 and 90 degrees.
    InvalidAngle {
        /// The requested angle in radians, as the bits of its `f64`.
        radians_bits: u64,
    },
    /// The pull direction was the zero vector.
    DegeneratePullDirection,
    /// A selected face's plane is parallel to the neutral plane.
    ParallelToNeutralPlane,
    /// The pull direction is too close to parallel with a selected face's
    /// hinge line to determine which way the face should tilt.
    AmbiguousPullDirection,
    /// The requested angle collapses or inverts at least one edge.
    ExcessiveAngle {
        /// The requested angle in radians, as the bits of its `f64`.
        radians_bits: u64,
    },
    /// The adjacent drafted planes of a vertex do not intersect in a single
    /// well-defined point.
    DegenerateVertex,
    /// A vertex is adjacent to more distinct face planes than supported
    /// (more than 3).
    UnsupportedVertexDegree(usize),
    /// A geometry computation failed unexpectedly.
    GeometryFailed {
        /// Description of which step failed.
        context: &'static str,
    },
    /// The generated shell or solid is topologically invalid.
    InvalidOutputTopology {
        /// Topology validation error.
        source: TopologyError,
    },
}

impl From<PlanarError> for DraftError {
    fn from(error: PlanarError) -> (r: Self) {
        match error {
            PlanarError::DegenerateVertex => DraftError::DegenerateVertex,
            PlanarError::UnsupportedVertexDegree(degree) => DraftError::UnsupportedVertexDegree(
                degree,
            ),
        }
    }
}

impl vstd::std_specs::convert::FromSpecImpl<PlanarError> for DraftError {
    open spec fn obeys_from_spec() -> bool {
        true
    }

    open spec fn from_spec(error: PlanarError) -> Self {
        match error {
            PlanarError::DegenerateVertex => DraftError::DegenerateVertex,
            PlanarError::UnsupportedVertexDegree(degree) => DraftError::UnsupportedVertexDegree(
                degree,
            ),
        }
    }
}

/// The error when a surface is not a plane or a curve is not a line.
pub open spec fn draft_planar_only_error() -> DraftError {
    DraftError::UnsupportedGeometry {
        context: "only planar surfaces and straight edges are supported",
    }
}

/// The checks of drafting, in the order they are made: the angle lies
/// strictly between 0 and 90 degrees (`angle_in_range`, tested by the
/// caller), the pull direction is nonzero, some face is selected, the
/// solid has exactly one boundary shell, every selected id names a face of
/// it, and its surfaces and curves are planes and lines. Returns the
/// indices of the selected faces, in increasing order, each once.
///
/// `face_ids` are the ids of the faces of the boundary shell, `selected`
/// the ids of the faces to draft.
pub fn check_draft(
    angle_in_range: bool,
    angle_bits: u64,
    pull_nonzero: bool,
    boundary_count: usize,
    face_ids: &Vec<u64>,
    selected: &Vec<u64>,
    planar: bool,
) -> (r: Result<Vec<usize>, DraftError>)
    ensures
        !angle_in_range ==> r == Err::<Vec<usize>, DraftError>(
            DraftError::InvalidAngle { radians_bits: angle_bits },
        ),
        angle_in_range && !pull_nonzero ==> r == Err::<Vec<usize>, DraftError>(
            DraftError::DegeneratePullDirection,
        ),
        angle_in_range && pull_nonzero && selected@.len() == 0 ==> r == Err::<
            Vec<usize>,
            DraftError,
        >(DraftError::NoFacesSelected),
        angle_in_range && pull_nonzero && selected@.len() > 0 && boundary_count != 1 ==> r == Err::<
            Vec<usize>,
            DraftError,
        >(DraftError::UnsupportedSolidBoundaries(boundary_count)),
        angle_in_range && pull_nonzero && selected@.len() > 0 && boundary_count == 1 ==> {
            &&& (exists|j: int|
                0 <= j < selected@.len() && !face_ids@.contains(#[trigger] selected@[j])) ==> r
                == Err::<Vec<usize>, DraftError>(DraftError::FaceNotFound)
            &&& (forall|j: int|
                0 <= j < selected@.len() ==> face_ids@.contains(#[trigger] selected@[j])) ==> {
                &&& !planar ==> r == Err::<Vec<usize>, DraftError>(draft_planar_only_error())
                &&& planar ==> (r matches Ok(faces) && faces@ == resolution(face_ids@, selected@))
            }
        },
{
    if !angle_in_range {
        return Err(DraftError::InvalidAngle { radians_bits: angle_bits });
    }
    if !pull_nonzero {
        return Err(DraftError::DegeneratePullDirection);
    }
    if selected.len() == 0 {
        return Err(DraftError::NoFacesSelected);
    }
    if boundary_count != 1 {
        return Err(DraftError::UnsupportedSolidBoundaries(boundary_count));
    }
    let faces = match resolve_face_indices(face_ids, selected) {
        None => {
            return Err(DraftError::FaceNotFound);
        },
        Some(faces) => faces,
    };
    if !planar {
        return Err(
            DraftError::UnsupportedGeometry {
                context: "only planar surfaces and straight edges are supported",
            },
        );
    }
    Ok(faces)
}

} // verus!
