//! Error types shared by the modeling operations.

use vstd::prelude::*;

verus! {

/// The topological errors that constructing or validating shells and
/// solids can report, one variant for each of
/// `monstertruck_topology::errors::Error`.
#[derive(Debug, Clone, Copy, PartialEq, Eq)]
pub enum TopologyError {
    /// Two same vertices cannot construct an edge.
    SameVertex,
    /// The empty wire cannot construct a face.
    EmptyWire,
    /// The boundary of a face must be closed.
    NotClosedWire,
    /// The boundary of a face must be simple.
    NotSimpleWire,
    /// Some boundaries have a shared vertex.
    NotDisjointWires,
    /// The empty shell cannot construct a solid.
    EmptyShell,
    /// The boundary shells of a solid must be connected.
    NotConnected,
    /// The boundary shells of a solid must be closed.
    NotClosedShell,
    /// The boundary shells of a solid must be manifold.
    NotManifold,
}

/// Modeling errors.
#[derive(Debug, Clone, Copy, PartialEq, Eq)]
pub enum Error {
    /// Wrapper of topological error.
    FromTopology(TopologyError),
    /// Tried to attach a plane to a wire that was not on one plane.
    WireNotInOnePlane,
    /// Tried to create homotopy for two wires with different numbers of edges.
    NotSameNumberOfEdges,
    /// One or more wires are not closed.
    OpenWire,
    /// Ambiguous nesting: a loop is not clearly inside or outside another.
    AmbiguousNesting,
    /// No outer loop found among the provided wires.
    NoOuterLoop,
    /// A circular-arc tangent vector is zero or near zero, so it cannot
    /// define a direction.
    DegenerateCircularArcTangent,
    /// A circular-arc tangent is parallel (or anti-parallel) to the chord
    /// between the endpoints, so the plane of the arc is under-determined.
    CircularArcTangentParallelToChord,
    /// A path sweep was requested with zero divisions.
    TooFewDivisions,
    /// A path sweep's tangent vector is zero or near-zero at some sample
    /// parameter, so a sweep frame could not be computed.
    DegenerateSweepTangent,
    /// A path sweep was requested along a periodic (closed) path, which is
    /// not yet supported.
    ClosedPathNotSupported,
}

} // verus!
