//! Shell/thicken and hollow of planar-faced shells and solids: the
//! decisions of the operations and the layout of their results.
//!
//! Every face is offset against its oriented normal and shared vertices
//! and edges are rebuilt by intersecting the adjacent offset planes; the
//! plane geometry is computed by the caller, which hands the results of
//! its tests to the functions here as plain values.

use crate::errors::TopologyError;
use crate::planar::PlanarError;
use crate::topology::{
    concat_faces, intern_ids, is_first_position, lemma_resolution_upto, names_face,
    repeats_an_edge, resolution, resolve_face_indices, strictly_increasing,
};
use vstd::prelude::*;

verus! {

/// Errors that can occur during shell/thicken operations.
#[derive(Debug, Clone, Copy, PartialEq, Eq)]
pub enum ShellError {
    /// The shell contains geometry that cannot be handled by the planar-only
    /// implementation: a surface that is not a plane or an edge whose curve
    /// is not a straight line.
    UnsupportedGeometry {
        /// Description of which piece of geometry could not be handled.
        context: &'static str,
    },
    /// The shell is not a single connected, orientable surface.
    NotOrientable {
        /// Description of the offending condition.
        context: &'static str,
    },
    /// One of the requested open faces was not found in the solid.
    FaceNotFound,
    /// Hollowing requires a solid with exactly one boundary shell.
    UnsupportedSolidBoundaries(usize),
    /// The requested thickness is not positive; it is carried as the bits
    /// of its `f64` (`f64::to_bits`).
    NonPositiveThickness(u64),
    /// The requested thickness collapses or inverts at least one edge.
    ThicknessTooLarge {
        /// The requested thickness, as the bits of its `f64`.
        thickness_bits: u64,
    },
    /// The adjacent offset planes of a vertex do not intersect in a single
    /// well-defined point.
    DegenerateVertex,
    /// A vertex is adjacent to more distinct face planes than supported
    /// (more than 3).
    UnsupportedVertexDegree(usize),
    /// Two of the requested open faces share an edge.
    AdjacentOpenFaces,
    /// A geometry computation failed unexpectedly.
    GeometryFailed {
        /// Description of which step failed.
        context: &'static str,
    },
    /// The generated shell or solid is topologically invalid.
    InvalidOutputTopology {
        /// Topology validation error.
        source: TopologyError,
    },
}

impl From<PlanarError> for ShellError {
    fn from(error: PlanarError) -> (r: Self) {
        match error {
            PlanarError::DegenerateVertex => ShellError::DegenerateVertex,
            PlanarError::UnsupportedVertexDegree(degree) => ShellError::UnsupportedVertexDegree(
                degree,
            ),
        }
    }
}

impl vstd::std_specs::convert::FromSpecImpl<PlanarError> for ShellError {
    open spec fn obeys_from_spec() -> bool {
        true
    }

    open spec fn from_spec(error: PlanarError) -> Self {
        match error {
            PlanarError::DegenerateVertex => ShellError::DegenerateVertex,
            PlanarError::UnsupportedVertexDegree(degree) => ShellError::UnsupportedVertexDegree(
                degree,
            ),
        }
    }
}

/// How the edges of a shell are shared by its faces, as the topology
/// library classifies it.
#[derive(Debug, Clone, Copy, PartialEq, Eq)]
pub enum ShellCondition {
    /// Some edge is shared by more than two faces.
    Irregular,
    /// Every edge is shared by at most two faces.
    Regular,
    /// Regular, and adjacent faces agree on orientation.
    Oriented,
    /// Oriented, and every edge is shared by exactly two faces.
    Closed,
}

/// What hollowing a solid builds, once every check has passed.
#[derive(Debug, Clone, PartialEq, Eq)]
pub enum HollowPlan {
    /// No open faces: thicken the boundary shell; `closed` tells whether it
    /// is closed (two boundary shells) or open (side walls).
    Thicken {
        /// Whether the boundary shell is closed.
        closed: bool,
    },
    /// Open the faces at these indices (increasing, each once).
    Open {
        /// Indices of the faces to open.
        faces: Vec<usize>,
    },
}

/// What hollowing a solid builds, as a mathematical value (the view of a
/// [`HollowPlan`]).
pub enum HollowModel {
    /// Thicken the boundary shell, which is closed or not.
    Thicken(bool),
    /// Open the faces at these indices.
    Open(Seq<usize>),
}

impl View for HollowPlan {
    type V = HollowModel;

    open spec fn view(&self) -> HollowModel {
        match self {
            HollowPlan::Thicken { closed } => HollowModel::Thicken(*closed),
            HollowPlan::Open { faces } => HollowModel::Open(faces@),
        }
    }
}

/// The error when a surface is not a plane or a curve is not a line.
pub open spec fn planar_only_error() -> ShellError {
    ShellError::UnsupportedGeometry {
        context: "only planar surfaces and straight edges are supported",
    }
}

/// Checks the thickness: it must be greater than the tolerance, which the
/// caller tests (`thickness_positive`); `thickness_bits` is what the error
/// carries.
pub fn validate_thickness(thickness_positive: bool, thickness_bits: u64) -> (r: Result<(), ShellError>)
    ensures
        thickness_positive <==> r is Ok,
        !thickness_positive ==> r == Err::<(), ShellError>(
            ShellError::NonPositiveThickness(thickness_bits),
        ),
{
    if !thickness_positive {
        Err(ShellError::NonPositiveThickness(thickness_bits))
    } else {
        Ok(())
    }
}

/// The outcome of the checks of thickening a shell, in the order they are
/// made: the surfaces and curves must be planes and lines (`planar`), the
/// thickness positive, the shell connected, and its condition closed or
/// oriented. `Ok(closed)` tells whether the shell is closed: a closed
/// shell thickens into a solid with two boundary shells, an open one gets
/// side walls.
pub open spec fn thicken_outcome(
    planar: bool,
    thickness_positive: bool,
    thickness_bits: u64,
    connected: bool,
    condition: ShellCondition,
) -> Result<bool, ShellError> {
    if !planar {
        Err(planar_only_error())
    } else if !thickness_positive {
        Err(ShellError::NonPositiveThickness(thickness_bits))
    } else if !connected {
        Err(ShellError::NotOrientable { context: "shell is not connected" })
    } else {
        match condition {
            ShellCondition::Closed => Ok(true),
            ShellCondition::Oriented => Ok(false),
            _ => Err(
                ShellError::NotOrientable {
                    context: "an edge is shared by more than two faces or with incompatible orientation",
                },
            ),
        }
    }
}

/// The checks of thickening a shell (see [`thicken_outcome`]).
pub fn check_thicken(
    planar: bool,
    thickness_positive: bool,
    thickness_bits: u64,
    connected: bool,
    condition: ShellCondition,
) -> (r: Result<bool, ShellError>)
    ensures
        r == thicken_outcome(planar, thickness_positive, thickness_bits, connected, condition),
{
    if !planar {
        return Err(
            ShellError::UnsupportedGeometry {
                context: "only planar surfaces and straight edges are supported",
            },
        );
    }
    thicken_internal(thickness_positive, thickness_bits, connected, condition)
}

/// The checks of thickening a shell already known to be planar.
fn thicken_internal(
    thickness_positive: bool,
    thickness_bits: u64,
    connected: bool,
    condition: ShellCondition,
) -> (r: Result<bool, ShellError>)
    ensures
        r == thicken_outcome(true, thickness_positive, thickness_bits, connected, condition),
{
    validate_thickness(thickness_positive, thickness_bits)?;
    if !connected {
        return Err(ShellError::NotOrientable { context: "shell is not connected" });
    }
    match condition {
        ShellCondition::Closed => Ok(true),
        ShellCondition::Oriented => Ok(false),
        _ => Err(
            ShellError::NotOrientable {
                context: "an edge is shared by more than two faces or with incompatible orientation",
            },
        ),
    }
}

/// The outcome of the checks of hollowing a solid (see [`check_hollow`]).
pub open spec fn hollow_outcome(
    boundary_count: usize,
    face_ids: Seq<u64>,
    face_edges: Seq<Vec<u64>>,
    open_ids: Seq<u64>,
    planar: bool,
    thickness_positive: bool,
    thickness_bits: u64,
    connected: bool,
    condition: ShellCondition,
) -> Result<HollowModel, ShellError> {
    let open = resolution(face_ids, open_ids);
    if boundary_count != 1 {
        Err(ShellError::UnsupportedSolidBoundaries(boundary_count))
    } else if exists|j: int| 0 <= j < open_ids.len() && !face_ids.contains(#[trigger] open_ids[j]) {
        Err(ShellError::FaceNotFound)
    } else if !planar {
        Err(planar_only_error())
    } else if open_ids.len() == 0 {
        match thicken_outcome(true, thickness_positive, thickness_bits, connected, condition) {
            Ok(closed) => Ok(HollowModel::Thicken(closed)),
            Err(e) => Err(e),
        }
    } else if !thickness_positive {
        Err(ShellError::NonPositiveThickness(thickness_bits))
    } else if !concat_faces(face_edges, open).no_duplicates() {
        Err(ShellError::AdjacentOpenFaces)
    } else {
        Ok(HollowModel::Open(open))
    }
}

/// Hollowing a solid with a single boundary shell and no open faces
/// decides exactly as thickening that shell does: the same error, or a
/// thickened shell that is closed exactly when thickening finds it closed.
pub proof fn law_hollow_without_open_faces_is_thicken(
    face_ids: Seq<u64>,
    face_edges: Seq<Vec<u64>>,
    planar: bool,
    thickness_positive: bool,
    thickness_bits: u64,
    connected: bool,
    condition: ShellCondition,
)
    ensures
        hollow_outcome(
            1,
            face_ids,
            face_edges,
            Seq::empty(),
            planar,
            thickness_positive,
            thickness_bits,
            connected,
            condition,
        ) == match thicken_outcome(
            planar,
            thickness_positive,
            thickness_bits,
            connected,
            condition,
        ) {
            Ok(closed) => Ok::<HollowModel, ShellError>(HollowModel::Thicken(closed)),
            Err(e) => Err::<HollowModel, ShellError>(e),
        },
{
}

/// A hollow that opens faces opens distinct faces of the solid, at least
/// one, and builds `2 * n - k` faces from a solid of `n` faces with `k`
/// open faces (see [`law_hollow_face_count`]).
pub proof fn law_hollow_opens_distinct_faces(
    face_ids: Seq<u64>,
    face_edges: Seq<Vec<u64>>,
    open_ids: Seq<u64>,
    planar: bool,
    thickness_positive: bool,
    thickness_bits: u64,
    connected: bool,
    condition: ShellCondition,
    faces: Seq<usize>,
)
    requires
        face_ids.len() <= usize::MAX,
        hollow_outcome(
            1,
            face_ids,
            face_edges,
            open_ids,
            planar,
            thickness_positive,
            thickness_bits,
            connected,
            condition,
        ) == Ok::<HollowModel, ShellError>(HollowModel::Open(faces)),
    ensures
        faces.len() >= 1,
        strictly_increasing(faces),
        forall|t: int| 0 <= t < faces.len() ==> #[trigger] faces[t] < face_ids.len(),
        hollow_pieces(faces, face_ids.len()).len() == 2 * face_ids.len() - faces.len(),
{
    lemma_resolution_upto(face_ids, open_ids, face_ids.len());
    assert(face_ids.contains(open_ids[0]));
    let p = choose|p: int| 0 <= p < face_ids.len() && face_ids[p] == open_ids[0];
    lemma_first_position_exists(face_ids, open_ids[0], p);
    let q = choose|q: int| is_first_position(face_ids, open_ids[0], q);
    assert(names_face(face_ids, open_ids, q));
    assert(faces.contains(q as usize));
    law_hollow_face_count(faces, face_ids.len());
}

/// The checks of hollowing a solid, in the order they are made: the solid
/// has exactly one boundary shell, every open face id names a face of it,
/// its surfaces and curves are planes and lines; then, with no open face,
/// the checks of [`check_thicken`]; with open faces, a positive thickness
/// and no edge shared among the open faces.
///
/// `face_ids` are the ids of the faces of the boundary shell and
/// `face_edges[i]` the edge ids along the boundary of face `i`; the
/// remaining arguments are the caller's tests, as in [`check_thicken`].
pub fn check_hollow(
    boundary_count: usize,
    face_ids: &Vec<u64>,
    face_edges: &Vec<Vec<u64>>,
    open_ids: &Vec<u64>,
    planar: bool,
    thickness_positive: bool,
    thickness_bits: u64,
    connected: bool,
    condition: ShellCondition,
) -> (r: Result<HollowPlan, ShellError>)
    requires
        face_edges@.len() == face_ids@.len(),
    ensures
        match hollow_outcome(
            boundary_count,
            face_ids@,
            face_edges@,
            open_ids@,
            planar,
            thickness_positive,
            thickness_bits,
            connected,
            condition,
        ) {
            Ok(plan) => r matches Ok(p) && p@ == plan,
            Err(e) => r == Err::<HollowPlan, ShellError>(e),
        },
{
    if boundary_count != 1 {
        return Err(ShellError::UnsupportedSolidBoundaries(boundary_count));
    }
    let open = match resolve_face_indices(face_ids, open_ids) {
        None => {
            return Err(ShellError::FaceNotFound);
        },
        Some(open) => open,
    };
    if !planar {
        return Err(
            ShellError::UnsupportedGeometry {
                context: "only planar surfaces and straight edges are supported",
            },
        );
    }
    if open.len() == 0 {
        proof {
            if open_ids@.len() > 0 {
                assert(face_ids@.contains(open_ids@[0]));
                let p = choose|p: int| 0 <= p < face_ids@.len() && face_ids@[p] == open_ids@[0];
                lemma_first_position_exists(face_ids@, open_ids@[0], p);
                let q = choose|q: int| crate::topology::is_first_position(face_ids@, open_ids@[0], q);
                assert(crate::topology::names_face(face_ids@, open_ids@, q));
                assert(open@.contains(q as usize));
            }
        }
        let closed = thicken_internal(thickness_positive, thickness_bits, connected, condition)?;
        return Ok(HollowPlan::Thicken { closed });
    }
    proof {
        if open_ids@.len() == 0 {
            assert(open@[0] < face_ids@.len());
            assert(open@.contains(open@[0]));
            assert(crate::topology::names_face(face_ids@, open_ids@, open@[0] as int));
        }
    }
    validate_thickness(thickness_positive, thickness_bits)?;
    if repeats_an_edge(face_edges, &open) {
        return Err(ShellError::AdjacentOpenFaces);
    }
    Ok(HollowPlan::Open { faces: open })
}

/// An id that occurs in a sequence has a first position.
proof fn lemma_first_position_exists(s: Seq<u64>, x: u64, p: int)
    requires
        0 <= p < s.len(),
        s[p] == x,
    ensures
        exists|q: int| crate::topology::is_first_position(s, x, q),
    decreases p,
{
    if forall|q: int| 0 <= q < p ==> s[q] != x {
        assert(crate::topology::is_first_position(s, x, p));
    } else {
        let q = choose|q: int| 0 <= q < p && s[q] == x;
        lemma_first_position_exists(s, x, q);
    }
}

/// Where a face of a thickened or hollowed result comes from.
#[derive(Debug, Clone, Copy, PartialEq, Eq)]
pub enum FacePiece {
    /// Face `i` of the original shell, unchanged.
    Original(usize),
    /// The offset image of face `i`, inverted: it faces the other side of
    /// the material.
    OffsetInverse(usize),
    /// The ring that replaces open face `i`: its boundary, with the offset
    /// boundary as holes.
    Ring(usize),
    /// The side wall along boundary edge `k` of an open shell.
    Wall(usize),
}

/// The original faces `0..n`, in order.
pub open spec fn original_pieces(n: nat) -> Seq<FacePiece> {
    Seq::new(n, |i: int| FacePiece::Original(i as usize))
}

/// The inverted offset faces `0..n`, in order.
pub open spec fn offset_pieces(n: nat) -> Seq<FacePiece> {
    Seq::new(n, |i: int| FacePiece::OffsetInverse(i as usize))
}

/// The side walls `0..w`, in order.
pub open spec fn wall_pieces(w: nat) -> Seq<FacePiece> {
    Seq::new(w, |k: int| FacePiece::Wall(k as usize))
}

/// The boundary shells of a thickened shell of `n` faces: a closed shell
/// gives the original shell and the inverted offset shell; an open one
/// gives a single shell of the original faces, the inverted offset faces
/// and `w` side walls.
pub open spec fn thicken_shells(n: nat, closed: bool, w: nat) -> Seq<Seq<FacePiece>> {
    if closed {
        seq![original_pieces(n), offset_pieces(n)]
    } else {
        seq![original_pieces(n) + offset_pieces(n) + wall_pieces(w)]
    }
}

/// The faces of a hollowed solid, from its faces `0..n` with the faces
/// `open` opened: each open face becomes a ring, each other face is kept
/// and followed by its inverted offset.
pub open spec fn hollow_pieces(open: Seq<usize>, n: nat) -> Seq<FacePiece>
    decreases n,
{
    if n == 0 {
        Seq::<FacePiece>::empty()
    } else {
        let prev = hollow_pieces(open, (n - 1) as nat);
        let i = (n - 1) as usize;
        if open.contains(i) {
            prev.push(FacePiece::Ring(i))
        } else {
            prev.push(FacePiece::Original(i)).push(FacePiece::OffsetInverse(i))
        }
    }
}

/// Appends the pieces `0..count` of one kind: originals (`kind == 0`),
/// inverted offsets (`kind == 1`) or walls.
fn push_pieces(out: &mut Vec<FacePiece>, count: usize, kind: u8)
    requires
        kind < 3,
    ensures
        final(out)@ == old(out)@ + (if kind == 0 {
            original_pieces(count as nat)
        } else if kind == 1 {
            offset_pieces(count as nat)
        } else {
            wall_pieces(count as nat)
        }),
{
    let ghost start = out@;
    let ghost run = if kind == 0 {
        original_pieces(count as nat)
    } else if kind == 1 {
        offset_pieces(count as nat)
    } else {
        wall_pieces(count as nat)
    };
    let mut i: usize = 0;
    while i < count
        invariant
            kind < 3,
            i <= count,
            run == (if kind == 0 {
                original_pieces(count as nat)
            } else if kind == 1 {
                offset_pieces(count as nat)
            } else {
                wall_pieces(count as nat)
            }),
            out@ == start + run.take(i as int),
        decreases count - i,
    {
        let piece = if kind == 0 {
            FacePiece::Original(i)
        } else if kind == 1 {
            FacePiece::OffsetInverse(i)
        } else {
            FacePiece::Wall(i)
        };
        out.push(piece);
        assert(run.take(i + 1) =~= run.take(i as int).push(piece));
        i = i + 1;
    }
    assert(run.take(count as int) =~= run);
}

/// The layout of a thickened shell of `face_count` faces (see
/// [`thicken_shells`]).
pub fn thicken_layout(face_count: usize, closed: bool, wall_count: usize) -> (r: Vec<Vec<FacePiece>>)
    ensures
        r@.len() == thicken_shells(face_count as nat, closed, wall_count as nat).len(),
        forall|s: int|
            0 <= s < r@.len() ==> (#[trigger] r@[s])@ == thicken_shells(
                face_count as nat,
                closed,
                wall_count as nat,
            )[s],
{
    let mut shells: Vec<Vec<FacePiece>> = Vec::new();
    if closed {
        let mut outer: Vec<FacePiece> = Vec::new();
        push_pieces(&mut outer, face_count, 0);
        let mut inner: Vec<FacePiece> = Vec::new();
        push_pieces(&mut inner, face_count, 1);
        assert(outer@ =~= original_pieces(face_count as nat));
        assert(inner@ =~= offset_pieces(face_count as nat));
        shells.push(outer);
        shells.push(inner);
    } else {
        let mut combined: Vec<FacePiece> = Vec::new();
        push_pieces(&mut combined, face_count, 0);
        push_pieces(&mut combined, face_count, 1);
        push_pieces(&mut combined, wall_count, 2);
        assert(combined@ =~= original_pieces(face_count as nat) + offset_pieces(face_count as nat)
            + wall_pieces(wall_count as nat));
        shells.push(combined);
    }
    shells
}

/// The layout of a hollowed solid with faces `0..face_count`, opening the
/// faces `open` (see [`hollow_pieces`]).
pub fn hollow_layout(face_count: usize, open: &Vec<usize>) -> (r: Vec<FacePiece>)
    ensures
        r@ == hollow_pieces(open@, face_count as nat),
{
    let mut out: Vec<FacePiece> = Vec::new();
    let mut i: usize = 0;
    while i < face_count
        invariant
            i <= face_count,
            out@ == hollow_pieces(open@, i as nat),
        decreases face_count - i,
    {
        if contains_index(open, i) {
            out.push(FacePiece::Ring(i));
        } else {
            out.push(FacePiece::Original(i));
            out.push(FacePiece::OffsetInverse(i));
        }
        i = i + 1;
    }
    out
}

/// Whether `x` is one of `items`.
fn contains_index(items: &Vec<usize>, x: usize) -> (found: bool)
    ensures
        found == items@.contains(x),
{
    let mut i: usize = 0;
    while i < items.len()
        invariant
            i <= items@.len(),
            forall|t: int| 0 <= t < i ==> items@[t] != x,
        decreases items@.len() - i,
    {
        if items[i] == x {
            return true;
        }
        i = i + 1;
    }
    false
}

/// The number of items of `s` below `n`, counted through `0..n`.
pub open spec fn count_below(s: Seq<usize>, n: nat) -> nat
    decreases n,
{
    if n == 0 {
        0
    } else {
        count_below(s, (n - 1) as nat) + if s.contains((n - 1) as usize) {
            1nat
        } else {
            0nat
        }
    }
}

proof fn lemma_count_below_drop_last(s: Seq<usize>, n: nat)
    requires
        strictly_increasing(s),
        s.len() > 0,
        n <= usize::MAX + 1,
    ensures
        count_below(s, n) == count_below(s.drop_last(), n) + if s.last() < n {
            1nat
        } else {
            0nat
        },
    decreases n,
{
    if n > 0 {
        lemma_count_below_drop_last(s, (n - 1) as nat);
        let x = (n - 1) as usize;
        assert(x as int == n - 1);
        let d = s.drop_last();
        if s.contains(x) {
            let t = choose|t: int| 0 <= t < s.len() && s[t] == x;
            if t < s.len() - 1 {
                assert(d[t] == x);
                assert(s[t] < s[s.len() - 1]);
            }
        }
        if d.contains(x) {
            let t = choose|t: int| 0 <= t < d.len() && d[t] == x;
            assert(s[t] == x);
            assert(s[t] < s[s.len() - 1]);
        }
        if s.last() == x {
            assert(s[s.len() - 1] == x);
            assert(s.contains(x));
        }
    }
}

/// A strictly increasing sequence of items below `n` has `count_below`
/// equal to its length.
pub proof fn lemma_count_below_all(s: Seq<usize>, n: nat)
    requires
        strictly_increasing(s),
        n <= usize::MAX + 1,
        forall|t: int| 0 <= t < s.len() ==> #[trigger] s[t] < n,
    ensures
        count_below(s, n) == s.len(),
    decreases s.len(),
{
    if s.len() == 0 {
        lemma_count_below_empty(s, n);
    } else {
        lemma_count_below_drop_last(s, n);
        lemma_count_below_all(s.drop_last(), n);
    }
}

proof fn lemma_count_below_empty(s: Seq<usize>, n: nat)
    requires
        s.len() == 0,
    ensures
        count_below(s, n) == 0,
    decreases n,
{
    if n > 0 {
        lemma_count_below_empty(s, (n - 1) as nat);
    }
}

proof fn lemma_hollow_pieces_len(open: Seq<usize>, n: nat)
    ensures
        hollow_pieces(open, n).len() + count_below(open, n) == 2 * n,
    decreases n,
{
    if n > 0 {
        lemma_hollow_pieces_len(open, (n - 1) as nat);
    }
}

/// Hollowing a solid of `n` faces with `open` faces opened gives
/// `2 * n - open.len()` faces: every kept face and its offset, and one
/// ring per open face.
pub proof fn law_hollow_face_count(open: Seq<usize>, n: nat)
    requires
        n <= usize::MAX,
        strictly_increasing(open),
        forall|t: int| 0 <= t < open.len() ==> #[trigger] open[t] < n,
    ensures
        hollow_pieces(open, n).len() == 2 * n - open.len(),
{
    lemma_hollow_pieces_len(open, n);
    lemma_count_below_all(open, n);
}

/// Thickening a closed shell of `n` faces gives two boundary shells of `n`
/// faces each; thickening an open one gives one boundary shell of
/// `2 * n + w` faces, `w` being the number of its boundary edges.
pub proof fn law_thicken_face_count(n: nat, closed: bool, w: nat)
    ensures
        closed ==> thicken_shells(n, closed, w).len() == 2 && thicken_shells(n, closed, w)[0].len()
            == n && thicken_shells(n, closed, w)[1].len() == n,
        !closed ==> thicken_shells(n, closed, w).len() == 1 && thicken_shells(n, closed, w)[0].len()
            == 2 * n + w,
{
}

/// Side edges of the walls of an open shell: one per boundary vertex.
///
/// `ends[k]` are the two vertices of boundary edge `k`, in wire order.
/// Returns the distinct boundary vertices (one side edge each) and, for
/// every boundary edge, the side edges at its two ends; walls that meet at
/// a vertex share its side edge.
pub fn wall_sides(ends: &Vec<(u64, u64)>) -> (r: (Vec<u64>, Vec<(usize, usize)>))
    requires
        ends@.len() <= usize::MAX / 2,
    ensures
        r.0@.no_duplicates(),
        r.1@.len() == ends@.len(),
        forall|k: int|
            0 <= k < ends@.len() ==> {
                let (a, b) = #[trigger] r.1@[k];
                &&& a < r.0@.len() && r.0@[a as int] == ends@[k].0
                &&& b < r.0@.len() && r.0@[b as int] == ends@[k].1
            },
        forall|x: u64|
            r.0@.contains(x) <==> exists|k: int|
                0 <= k < ends@.len() && ((#[trigger] ends@[k]).0 == x || ends@[k].1 == x),
{
    let mut flat: Vec<u64> = Vec::new();
    let mut k: usize = 0;
    while k < ends.len()
        invariant
            ends@.len() <= usize::MAX / 2,
            k <= ends@.len(),
            flat@.len() == 2 * k,
            forall|t: int|
                0 <= t < k ==> flat@[2 * t] == (#[trigger] ends@[t]).0 && flat@[2 * t + 1]
                    == ends@[t].1,
        decreases ends@.len() - k,
    {
        flat.push(ends[k].0);
        flat.push(ends[k].1);
        k = k + 1;
    }
    let (sides, index) = intern_ids(&flat);
    let mut pairs: Vec<(usize, usize)> = Vec::new();
    let mut k: usize = 0;
    while k < ends.len()
        invariant
            ends@.len() <= usize::MAX / 2,
            k <= ends@.len(),
            flat@.len() == 2 * ends@.len(),
            index@.len() == flat@.len(),
            forall|t: int|
                0 <= t < ends@.len() ==> flat@[2 * t] == (#[trigger] ends@[t]).0 && flat@[2 * t + 1]
                    == ends@[t].1,
            forall|q: int|
                0 <= q < flat@.len() ==> #[trigger] index@[q] < sides@.len() && sides@[index@[q] as int]
                    == flat@[q],
            pairs@.len() == k,
            forall|t: int|
                0 <= t < k ==> (#[trigger] pairs@[t]).0 == index@[2 * t] && pairs@[t].1 == index@[2
                    * t + 1],
        decreases ends@.len() - k,
    {
        pairs.push((index[2 * k], index[2 * k + 1]));
        k = k + 1;
    }
    assert forall|x: u64|
        sides@.contains(x) <==> exists|k: int|
            0 <= k < ends@.len() && ((#[trigger] ends@[k]).0 == x || ends@[k].1 == x) by {
        if flat@.contains(x) {
            let q = choose|q: int| 0 <= q < flat@.len() && flat@[q] == x;
            let t = q / 2;
            assert(ends@[t] == ends@[t]);
            if q % 2 == 0 {
                assert(q == 2 * t);
            } else {
                assert(q == 2 * t + 1);
            }
        }
        if exists|k: int| 0 <= k < ends@.len() && ((#[trigger] ends@[k]).0 == x || ends@[k].1 == x) {
            let t = choose|k: int| 0 <= k < ends@.len() && ((#[trigger] ends@[k]).0 == x || ends@[k].1 == x);
            if ends@[t].0 == x {
                assert(flat@[2 * t] == x);
            } else {
                assert(flat@[2 * t + 1] == x);
            }
        }
    }
    (sides, pairs)
}

/// Thickening fails unless the geometry is planar, the thickness positive
/// and the shell connected; it succeeds on a closed shell exactly when
/// the shell's condition is `Closed` (two boundary shells), and on an open
/// one exactly when it is `Oriented`.
pub proof fn law_thicken_requires_valid_input(
    planar: bool,
    thickness_positive: bool,
    thickness_bits: u64,
    connected: bool,
    condition: ShellCondition,
)
    ensures
        thicken_outcome(planar, thickness_positive, thickness_bits, connected, condition) is Ok
            ==> planar && thickness_positive && connected,
        planar && !thickness_positive ==> thicken_outcome(
            planar,
            thickness_positive,
            thickness_bits,
            connected,
            condition,
        ) == Err::<bool, ShellError>(ShellError::NonPositiveThickness(thickness_bits)),
        planar && thickness_positive && connected ==> (thicken_outcome(
            planar,
            thickness_positive,
            thickness_bits,
            connected,
            condition,
        ) == Ok::<bool, ShellError>(true) <==> condition == ShellCondition::Closed),
        planar && thickness_positive && connected ==> (thicken_outcome(
            planar,
            thickness_positive,
            thickness_bits,
            connected,
            condition,
        ) == Ok::<bool, ShellError>(false) <==> condition == ShellCondition::Oriented),
{
}

/// Hollowing with a thickness that is not positive fails with
/// `NonPositiveThickness`, whether or not faces are opened, once the
/// solid has one boundary shell, every open id names one of its faces and
/// its geometry is planar; and a hollow that opens faces only goes ahead
/// on a single planar boundary shell, with a positive thickness, opening
/// faces none of which shares an edge with another.
pub proof fn law_hollow_requires_positive_thickness(
    face_ids: Seq<u64>,
    face_edges: Seq<Vec<u64>>,
    open_ids: Seq<u64>,
    boundary_count: usize,
    planar: bool,
    thickness_positive: bool,
    thickness_bits: u64,
    connected: bool,
    condition: ShellCondition,
)
    ensures
        boundary_count == 1 && (forall|j: int|
            0 <= j < open_ids.len() ==> face_ids.contains(#[trigger] open_ids[j])) && planar
            && !thickness_positive ==> hollow_outcome(
            boundary_count,
            face_ids,
            face_edges,
            open_ids,
            planar,
            thickness_positive,
            thickness_bits,
            connected,
            condition,
        ) == Err::<HollowModel, ShellError>(ShellError::NonPositiveThickness(thickness_bits)),
        hollow_outcome(
            boundary_count,
            face_ids,
            face_edges,
            open_ids,
            planar,
            thickness_positive,
            thickness_bits,
            connected,
            condition,
        ) is Ok ==> boundary_count == 1 && planar && thickness_positive,
        hollow_outcome(
            boundary_count,
            face_ids,
            face_edges,
            open_ids,
            planar,
            thickness_positive,
            thickness_bits,
            connected,
            condition,
        ) matches Ok(HollowModel::Open(faces)) ==> open_ids.len() > 0 && concat_faces(
            face_edges,
            faces,
        ).no_duplicates(),
        hollow_outcome(
            boundary_count,
            face_ids,
            face_edges,
            open_ids,
            planar,
            thickness_positive,
            thickness_bits,
            connected,
            condition,
        ) matches Ok(HollowModel::Thicken(_)) ==> open_ids.len() == 0,
{
}

/// Thickening a closed shell of `n` faces gives the shell itself, faces
/// `0..n` in order, and then the inverted offset faces `0..n` in order;
/// thickening an open one gives a single shell of the faces `0..n`, then
/// their inverted offsets `0..n`, then the walls `0..w`, in order.
pub proof fn law_thicken_layout_pieces(n: nat, closed: bool, w: nat)
    requires
        n <= usize::MAX,
        w <= usize::MAX,
    ensures
        closed ==> thicken_shells(n, closed, w).len() == 2,
        closed ==> thicken_shells(n, closed, w)[0].len() == n && thicken_shells(n, closed, w)[1].len()
            == n,
        closed ==> forall|i: int|
            0 <= i < n ==> #[trigger] thicken_shells(n, closed, w)[0][i] == FacePiece::Original(
                i as usize,
            ) && thicken_shells(n, closed, w)[1][i] == FacePiece::OffsetInverse(i as usize),
        !closed ==> thicken_shells(n, closed, w).len() == 1,
        !closed ==> thicken_shells(n, closed, w)[0].len() == 2 * n + w,
        !closed ==> forall|i: int|
            0 <= i < n ==> #[trigger] thicken_shells(n, closed, w)[0][i] == FacePiece::Original(
                i as usize,
            ) && thicken_shells(n, closed, w)[0][n + i] == FacePiece::OffsetInverse(i as usize),
        !closed ==> forall|k: int|
            0 <= k < w ==> #[trigger] thicken_shells(n, closed, w)[0][2 * n + k] == FacePiece::Wall(
                k as usize,
            ),
{
    if !closed {
        let s = thicken_shells(n, closed, w)[0];
        assert forall|i: int| 0 <= i < n implies #[trigger] s[i] == FacePiece::Original(i as usize)
            && s[n + i] == FacePiece::OffsetInverse(i as usize) by {
        }
        assert forall|k: int| 0 <= k < w implies #[trigger] s[2 * n + k] == FacePiece::Wall(
            k as usize,
        ) by {
        }
    }
}

/// In a hollowed solid with faces `0..n`, every open face `i` appears as
/// its ring and as nothing else, and every other face `i` appears itself
/// and as its inverted offset, and not as a ring; no wall appears and no
/// piece names a face outside `0..n`.
pub proof fn law_hollow_pieces_per_face(open: Seq<usize>, n: nat)
    requires
        n <= usize::MAX + 1,
    ensures
        forall|i: int|
            0 <= i < n && open.contains(i as usize) ==> #[trigger] hollow_pieces(open, n).contains(
                FacePiece::Ring(i as usize),
            ) && !hollow_pieces(open, n).contains(FacePiece::Original(i as usize))
                && !hollow_pieces(open, n).contains(FacePiece::OffsetInverse(i as usize)),
        forall|i: int|
            0 <= i < n && !open.contains(i as usize) ==> #[trigger] hollow_pieces(
                open,
                n,
            ).contains(FacePiece::Original(i as usize)) && hollow_pieces(open, n).contains(
                FacePiece::OffsetInverse(i as usize),
            ) && !hollow_pieces(open, n).contains(FacePiece::Ring(i as usize)),
        forall|t: int|
            0 <= t < hollow_pieces(open, n).len() ==> match #[trigger] hollow_pieces(open, n)[t] {
                FacePiece::Original(i) => i < n,
                FacePiece::OffsetInverse(i) => i < n,
                FacePiece::Ring(i) => i < n,
                FacePiece::Wall(_) => false,
            },
    decreases n,
{
    if n > 0 {
        law_hollow_pieces_per_face(open, (n - 1) as nat);
        let prev = hollow_pieces(open, (n - 1) as nat);
        let now = hollow_pieces(open, n);
        let j = (n - 1) as usize;
        assert(j as int == n - 1);
        assert forall|t: int| 0 <= t < now.len() implies match #[trigger] now[t] {
            FacePiece::Original(i) => i < n,
            FacePiece::OffsetInverse(i) => i < n,
            FacePiece::Ring(i) => i < n,
            FacePiece::Wall(_) => false,
        } by {
            if t < prev.len() {
                assert(now[t] == prev[t]);
            }
        }
        assert forall|p: FacePiece| now.contains(p) <==> (prev.contains(p) || (open.contains(j) && p
            == FacePiece::Ring(j)) || (!open.contains(j) && (p == FacePiece::Original(j) || p
            == FacePiece::OffsetInverse(j)))) by {
            if now.contains(p) {
                let t = choose|t: int| 0 <= t < now.len() && now[t] == p;
                if t < prev.len() {
                    assert(now[t] == prev[t]);
                }
            }
            if prev.contains(p) {
                let t = choose|t: int| 0 <= t < prev.len() && prev[t] == p;
                assert(now[t] == prev[t]);
            }
            if open.contains(j) && p == FacePiece::Ring(j) {
                assert(now[now.len() - 1] == p);
            }
            if !open.contains(j) && p == FacePiece::Original(j) {
                assert(now[now.len() - 2] == p);
            }
            if !open.contains(j) && p == FacePiece::OffsetInverse(j) {
                assert(now[now.len() - 1] == p);
            }
        }
        assert forall|p: FacePiece| prev.contains(p) implies match p {
            FacePiece::Original(i) => i < j,
            FacePiece::OffsetInverse(i) => i < j,
            FacePiece::Ring(i) => i < j,
            FacePiece::Wall(_) => false,
        } by {
            let t = choose|t: int| 0 <= t < prev.len() && prev[t] == p;
            assert(match prev[t] {
                FacePiece::Original(i) => i < n - 1,
                FacePiece::OffsetInverse(i) => i < n - 1,
                FacePiece::Ring(i) => i < n - 1,
                FacePiece::Wall(_) => false,
            });
        }
        assert forall|i: int|
            0 <= i < n && open.contains(i as usize) implies #[trigger] now.contains(
            FacePiece::Ring(i as usize),
        ) && !now.contains(FacePiece::Original(i as usize)) && !now.contains(
            FacePiece::OffsetInverse(i as usize),
        ) by {
            if i < n - 1 {
                assert(prev.contains(FacePiece::Ring(i as usize)));
                assert((i as usize) != j);
            }
        }
        assert forall|i: int|
            0 <= i < n && !open.contains(i as usize) implies #[trigger] now.contains(
            FacePiece::Original(i as usize),
        ) && now.contains(FacePiece::OffsetInverse(i as usize)) && !now.contains(
            FacePiece::Ring(i as usize),
        ) by {
            if i < n - 1 {
                assert(prev.contains(FacePiece::Original(i as usize)));
                assert((i as usize) != j);
            }
        }
    }
}

/// The face of the original shell that a piece stands for (for a wall,
/// its boundary edge).
pub open spec fn piece_index(p: FacePiece) -> usize {
    match p {
        FacePiece::Original(i) => i,
        FacePiece::OffsetInverse(i) => i,
        FacePiece::Ring(i) => i,
        FacePiece::Wall(k) => k,
    }
}

/// The faces of a hollowed solid come in the order of the faces they stand
/// for, and a kept face comes right before its inverted offset.
pub proof fn law_hollow_pieces_in_face_order(open: Seq<usize>, n: nat)
    requires
        n <= usize::MAX + 1,
    ensures
        forall|t: int, u: int|
            0 <= t < u < hollow_pieces(open, n).len() ==> piece_index(
                #[trigger] hollow_pieces(open, n)[t],
            ) <= piece_index(#[trigger] hollow_pieces(open, n)[u]),
        forall|t: int|
            0 <= t < hollow_pieces(open, n).len() && #[trigger] hollow_pieces(open, n)[t] is Original
                ==> t + 1 < hollow_pieces(open, n).len() && hollow_pieces(open, n)[t + 1]
                == FacePiece::OffsetInverse(piece_index(hollow_pieces(open, n)[t])),
    decreases n,
{
    law_hollow_pieces_per_face(open, n);
    if n > 0 {
        law_hollow_pieces_in_face_order(open, (n - 1) as nat);
        law_hollow_pieces_per_face(open, (n - 1) as nat);
        let prev = hollow_pieces(open, (n - 1) as nat);
        let now = hollow_pieces(open, n);
        let j = (n - 1) as usize;
        assert(j as int == n - 1);
        assert forall|t: int| 0 <= t < now.len() && t >= prev.len() implies piece_index(
            #[trigger] now[t],
        ) == j by {}
        assert forall|t: int| 0 <= t < prev.len() implies piece_index(#[trigger] now[t]) <= j && now[t]
            == prev[t] by {
            assert(now[t] == prev[t]);
            assert(match prev[t] {
                FacePiece::Original(i) => i < n - 1,
                FacePiece::OffsetInverse(i) => i < n - 1,
                FacePiece::Ring(i) => i < n - 1,
                FacePiece::Wall(_) => false,
            });
        }
        assert forall|t: int, u: int| 0 <= t < u < now.len() implies piece_index(
            #[trigger] now[t],
        ) <= piece_index(#[trigger] now[u]) by {
            if u < prev.len() {
                assert(now[t] == prev[t] && now[u] == prev[u]);
            } else if t < prev.len() {
                assert(piece_index(now[t]) <= j);
            }
        }
        assert forall|t: int| 0 <= t < now.len() && #[trigger] now[t] is Original implies t + 1
            < now.len() && now[t + 1] == FacePiece::OffsetInverse(piece_index(now[t])) by {
            if t + 1 < prev.len() {
                assert(now[t] == prev[t]);
                assert(now[t + 1] == prev[t + 1]);
            } else if t + 1 == prev.len() {
                assert(now[t] == prev[t]);
                assert(prev[t] is Original);
                assert(prev.len() == t + 1);
                assert(false);
            }
        }
    }
}

/// The checks of hollowing, in order: one boundary shell, every open id a
/// face of it, planar geometry; then, with open faces, a positive
/// thickness and open faces that share no edge. A hollow that opens faces
/// opens exactly the faces whose ids were requested.
pub proof fn law_hollow_error_order(
    face_ids: Seq<u64>,
    face_edges: Seq<Vec<u64>>,
    open_ids: Seq<u64>,
    boundary_count: usize,
    planar: bool,
    thickness_positive: bool,
    thickness_bits: u64,
    connected: bool,
    condition: ShellCondition,
)
    ensures
        boundary_count != 1 ==> hollow_outcome(
            boundary_count,
            face_ids,
            face_edges,
            open_ids,
            planar,
            thickness_positive,
            thickness_bits,
            connected,
            condition,
        ) == Err::<HollowModel, ShellError>(ShellError::UnsupportedSolidBoundaries(boundary_count)),
        boundary_count == 1 && (exists|j: int|
            0 <= j < open_ids.len() && !face_ids.contains(#[trigger] open_ids[j])) ==> hollow_outcome(
            boundary_count,
            face_ids,
            face_edges,
            open_ids,
            planar,
            thickness_positive,
            thickness_bits,
            connected,
            condition,
        ) == Err::<HollowModel, ShellError>(ShellError::FaceNotFound),
        boundary_count == 1 && (forall|j: int|
            0 <= j < open_ids.len() ==> face_ids.contains(#[trigger] open_ids[j])) && !planar
            ==> hollow_outcome(
            boundary_count,
            face_ids,
            face_edges,
            open_ids,
            planar,
            thickness_positive,
            thickness_bits,
            connected,
            condition,
        ) matches Err(ShellError::UnsupportedGeometry { .. }),
        boundary_count == 1 && (forall|j: int|
            0 <= j < open_ids.len() ==> face_ids.contains(#[trigger] open_ids[j])) && planar
            && thickness_positive && open_ids.len() > 0 && !concat_faces(
            face_edges,
            resolution(face_ids, open_ids),
        ).no_duplicates() ==> hollow_outcome(
            boundary_count,
            face_ids,
            face_edges,
            open_ids,
            planar,
            thickness_positive,
            thickness_bits,
            connected,
            condition,
        ) == Err::<HollowModel, ShellError>(ShellError::AdjacentOpenFaces),
        hollow_outcome(
            boundary_count,
            face_ids,
            face_edges,
            open_ids,
            planar,
            thickness_positive,
            thickness_bits,
            connected,
            condition,
        ) matches Ok(HollowModel::Open(faces)) ==> faces == resolution(face_ids, open_ids),
{
}

} // verus!
