//! Reconciling a vertex against the planes of the faces around it.
//!
//! Every face adjacent to a vertex contributes a plane equation
//! `normal . x = distance`. Before the vertex is moved to the intersection
//! of those planes, near-equal normals are merged (coplanar neighbours),
//! and coplanar neighbours asking for different distances are rejected.
//! Whether two normals or two distances are near is a floating-point
//! tolerance test made by the caller; the merge itself is decided here.

use crate::small::{IndexList, index_list_items, index_list_limit};
use crate::topology::{lemma_increasing_len_bound, strictly_increasing};
use vstd::prelude::*;

verus! {

/// A vertex's plane reconciliation failed.
#[derive(Debug, Clone, Copy, PartialEq, Eq)]
pub enum PlanarError {
    /// The adjacent planes do not intersect in a single well-defined point
    /// (nearly parallel or anti-parallel planes, or coplanar faces that
    /// request conflicting planes).
    DegenerateVertex,
    /// A vertex is adjacent to more distinct face planes than the solver
    /// supports (more than 3).
    UnsupportedVertexDegree(usize),
}

/// The shape of the linear system that places a vertex, by the number of
/// distinct planes around it.
#[derive(Debug, Clone, Copy, PartialEq, Eq)]
pub enum PlaneSystem {
    /// One plane: project the vertex onto it.
    Single,
    /// Two planes: move the vertex within the span of their normals.
    Pair,
    /// Three planes: their unique common point.
    Triple,
}

/// `m` is an `n` by `n` table.
pub open spec fn is_square(m: Seq<Vec<bool>>, n: nat) -> bool {
    &&& m.len() == n
    &&& forall|i: int| 0 <= i < n ==> (#[trigger] m[i])@.len() == n
}

/// `t` is the first position in `kept` whose constraint has a normal near
/// the normal of constraint `j`.
pub open spec fn is_first_near(normal_near: Seq<Vec<bool>>, kept: Seq<usize>, j: int, t: int) -> bool {
    &&& 0 <= t < kept.len()
    &&& normal_near[kept[t] as int]@[j]
    &&& forall|u: int| 0 <= u < t ==> !normal_near[kept[u] as int]@[j]
}

/// Merging the first `m` constraints, one after the other: a constraint
/// whose normal is near none kept so far is kept; one near a kept
/// constraint (the first such) is dropped when their distances are near
/// too, and makes the merge fail (`None`) otherwise.
pub open spec fn merged(normal_near: Seq<Vec<bool>>, distance_near: Seq<Vec<bool>>, m: nat) -> Option<
    Seq<usize>,
>
    decreases m,
{
    if m == 0 {
        Some(Seq::<usize>::empty())
    } else {
        match merged(normal_near, distance_near, (m - 1) as nat) {
            None => None,
            Some(kept) => {
                let j = m - 1;
                if exists|t: int| is_first_near(normal_near, kept, j, t) {
                    let t = choose|t: int| is_first_near(normal_near, kept, j, t);
                    if distance_near[kept[t] as int]@[j] {
                        Some(kept)
                    } else {
                        None
                    }
                } else {
                    Some(kept.push(j as usize))
                }
            },
        }
    }
}

/// Constraint `j` is represented in `kept` by an earlier kept constraint
/// whose normal and distance are both near its own.
pub open spec fn represented(
    normal_near: Seq<Vec<bool>>,
    distance_near: Seq<Vec<bool>>,
    kept: Seq<usize>,
    j: int,
) -> bool {
    exists|t: int|
        0 <= t < kept.len() && kept[t] < j && normal_near[kept[t] as int]@[j]
            && #[trigger] distance_near[kept[t] as int]@[j]
}

/// The first near kept constraint is unique.
proof fn lemma_first_near_unique(normal_near: Seq<Vec<bool>>, kept: Seq<usize>, j: int, a: int, b: int)
    requires
        is_first_near(normal_near, kept, j, a),
        is_first_near(normal_near, kept, j, b),
    ensures
        a == b,
{
    if a < b {
        assert(!normal_near[kept[a] as int]@[j]);
    } else if b < a {
        assert(!normal_near[kept[b] as int]@[j]);
    }
}

/// A successful merge of the first `m` constraints keeps indices below `m`,
/// in increasing order.
pub proof fn lemma_merged_increasing(
    normal_near: Seq<Vec<bool>>,
    distance_near: Seq<Vec<bool>>,
    m: nat,
)
    requires
        m <= usize::MAX,
        merged(normal_near, distance_near, m) is Some,
    ensures
        strictly_increasing(merged(normal_near, distance_near, m).unwrap()),
        forall|t: int|
            0 <= t < merged(normal_near, distance_near, m).unwrap().len() ==> #[trigger] merged(
                normal_near,
                distance_near,
                m,
            ).unwrap()[t] < m,
    decreases m,
{
    if m > 0 {
        lemma_merged_increasing(normal_near, distance_near, (m - 1) as nat);
        let kept = merged(normal_near, distance_near, (m - 1) as nat).unwrap();
        let j = m - 1;
        assert((j as usize) as int == j);
        if !exists|t: int| is_first_near(normal_near, kept, j, t) {
            let grown = kept.push(j as usize);
            assert(merged(normal_near, distance_near, m).unwrap() == grown);
            assert forall|a: int, b: int| 0 <= a < b < grown.len() implies grown[a] < grown[b] by {
                if b == grown.len() - 1 {
                    assert(kept[a] < m - 1);
                }
            }
        }
    }
}

/// No kept constraint has a normal near that of a constraint kept after
/// it.
pub proof fn lemma_merged_distant(normal_near: Seq<Vec<bool>>, distance_near: Seq<Vec<bool>>, m: nat)
    requires
        m <= usize::MAX,
        merged(normal_near, distance_near, m) is Some,
    ensures
        forall|a: int, b: int|
            0 <= a < b < merged(normal_near, distance_near, m).unwrap().len() ==> !normal_near[merged(
                normal_near,
                distance_near,
                m,
            ).unwrap()[a] as int]@[merged(normal_near, distance_near, m).unwrap()[b] as int],
    decreases m,
{
    if m > 0 {
        lemma_merged_distant(normal_near, distance_near, (m - 1) as nat);
        let kept = merged(normal_near, distance_near, (m - 1) as nat).unwrap();
        let j = m - 1;
        assert((j as usize) as int == j);
        if !exists|t: int| is_first_near(normal_near, kept, j, t) {
            let grown = kept.push(j as usize);
            assert(merged(normal_near, distance_near, m).unwrap() == grown);
            assert forall|a: int, b: int|
                0 <= a < b < grown.len() implies !normal_near[grown[a] as int]@[grown[b] as int] by {
                if b == grown.len() - 1 && normal_near[kept[a] as int]@[j] {
                    lemma_some_first_near(normal_near, kept, j, a);
                }
            }
        }
    }
}

/// A kept constraint with a near normal yields a first such one.
proof fn lemma_some_first_near(normal_near: Seq<Vec<bool>>, kept: Seq<usize>, j: int, a: int)
    requires
        0 <= a < kept.len(),
        normal_near[kept[a] as int]@[j],
    ensures
        exists|t: int| is_first_near(normal_near, kept, j, t),
    decreases a,
{
    if forall|u: int| 0 <= u < a ==> !normal_near[kept[u] as int]@[j] {
        assert(is_first_near(normal_near, kept, j, a));
    } else {
        let u = choose|u: int| 0 <= u < a && normal_near[kept[u] as int]@[j];
        lemma_some_first_near(normal_near, kept, j, u);
    }
}

/// Every constraint left out of a successful merge is represented by an
/// earlier kept one whose normal and distance are both near its own.
pub proof fn lemma_merged_represented(
    normal_near: Seq<Vec<bool>>,
    distance_near: Seq<Vec<bool>>,
    m: nat,
)
    requires
        m <= usize::MAX,
        merged(normal_near, distance_near, m) is Some,
    ensures
        forall|j: int|
            0 <= j < m && !merged(normal_near, distance_near, m).unwrap().contains(j as usize)
                ==> #[trigger] represented(
                normal_near,
                distance_near,
                merged(normal_near, distance_near, m).unwrap(),
                j,
            ),
    decreases m,
{
    if m > 0 {
        lemma_merged_represented(normal_near, distance_near, (m - 1) as nat);
        lemma_merged_increasing(normal_near, distance_near, (m - 1) as nat);
        let kept = merged(normal_near, distance_near, (m - 1) as nat).unwrap();
        let now = merged(normal_near, distance_near, m).unwrap();
        let j = m - 1;
        assert((j as usize) as int == j);
        if exists|t: int| is_first_near(normal_near, kept, j, t) {
            let t = choose|t: int| is_first_near(normal_near, kept, j, t);
            assert(now == kept);
            assert(kept[t] < m - 1);
            assert forall|i: int|
                0 <= i < m && !now.contains(i as usize) implies #[trigger] represented(
                normal_near,
                distance_near,
                now,
                i,
            ) by {
                if i == j {
                    assert(distance_near[kept[t] as int]@[i]);
                }
            }
        } else {
            assert(now == kept.push(j as usize));
            assert forall|i: int|
                0 <= i < m && !now.contains(i as usize) implies #[trigger] represented(
                normal_near,
                distance_near,
                now,
                i,
            ) by {
                if i == j {
                    assert(now[now.len() - 1] == j as usize);
                }
                assert((i as usize) as int == i);
                if kept.contains(i as usize) {
                    let t = choose|t: int| 0 <= t < kept.len() && kept[t] == i as usize;
                    assert(now[t] == i as usize);
                }
                assert(represented(normal_near, distance_near, kept, i));
                let t = choose|t: int|
                    0 <= t < kept.len() && kept[t] < i && normal_near[kept[t] as int]@[i]
                        && #[trigger] distance_near[kept[t] as int]@[i];
                assert(now[t] == kept[t]);
            }
        }
    }
}

/// Merging fails only on a conflict: two constraints, the earlier one
/// kept, whose normals are near and whose distances are not. So when
/// every pair of near normals has near distances, merging succeeds.
pub proof fn law_merge_fails_only_on_conflict(
    normal_near: Seq<Vec<bool>>,
    distance_near: Seq<Vec<bool>>,
    m: nat,
)
    requires
        m <= usize::MAX,
    ensures
        merged(normal_near, distance_near, m) is None ==> exists|a: int, b: int|
            0 <= a < b < m && #[trigger] normal_near[a]@[b] && !#[trigger] distance_near[a]@[b],
    decreases m,
{
    if m > 0 {
        law_merge_fails_only_on_conflict(normal_near, distance_near, (m - 1) as nat);
        if merged(normal_near, distance_near, (m - 1) as nat) is Some && merged(
            normal_near,
            distance_near,
            m,
        ) is None {
            lemma_merged_increasing(normal_near, distance_near, (m - 1) as nat);
            let kept = merged(normal_near, distance_near, (m - 1) as nat).unwrap();
            let j = m - 1;
            let t = choose|t: int| is_first_near(normal_near, kept, j, t);
            let a = kept[t] as int;
            assert(a < j);
            assert(normal_near[a]@[j] && !distance_near[a]@[j]);
        }
    }
}

/// A successful merge of at least one constraint keeps the first one: no
/// earlier constraint can stand for it.
pub proof fn law_merge_keeps_the_first(normal_near: Seq<Vec<bool>>, distance_near: Seq<Vec<bool>>, m: nat)
    requires
        0 < m <= usize::MAX,
        merged(normal_near, distance_near, m) is Some,
    ensures
        merged(normal_near, distance_near, m).unwrap().len() >= 1,
        merged(normal_near, distance_near, m).unwrap()[0] == 0,
{
    lemma_merged_represented(normal_near, distance_near, m);
    lemma_merged_increasing(normal_near, distance_near, m);
    let kept = merged(normal_near, distance_near, m).unwrap();
    if !kept.contains(0usize) {
        assert(represented(normal_near, distance_near, kept, 0));
        let t = choose|t: int|
            0 <= t < kept.len() && kept[t] < 0 && normal_near[kept[t] as int]@[0]
                && #[trigger] distance_near[kept[t] as int]@[0];
        assert(false);
    }
    let t = choose|t: int| 0 <= t < kept.len() && kept[t] == 0usize;
    if t > 0 {
        assert(kept[0] < kept[t]);
    }
}

/// The first position in `kept` whose constraint has a normal near that of
/// constraint `j`, if any.
fn first_near(normal_near: &Vec<Vec<bool>>, kept: &IndexList, j: usize) -> (r: Option<usize>)
    requires
        is_square(normal_near@, normal_near@.len()),
        j < normal_near@.len(),
        forall|t: int|
            0 <= t < index_list_items(*kept).len() ==> #[trigger] index_list_items(*kept)[t]
                < normal_near@.len(),
    ensures
        r matches Some(t) ==> is_first_near(normal_near@, index_list_items(*kept), j as int, t as int),
        r is None ==> !exists|t: int| is_first_near(normal_near@, index_list_items(*kept), j as int, t),
{
    let ghost items = index_list_items(*kept);
    let len = kept.len();
    let mut t: usize = 0;
    while t < len
        invariant
            is_square(normal_near@, normal_near@.len()),
            j < normal_near@.len(),
            items == index_list_items(*kept),
            len == items.len(),
            t <= len,
            forall|u: int| 0 <= u < items.len() ==> #[trigger] items[u] < normal_near@.len(),
            forall|u: int| 0 <= u < t ==> !normal_near@[items[u] as int]@[j as int],
        decreases len - t,
    {
        let k = kept.get(t);
        if normal_near[k][j] {
            return Some(t);
        }
        t = t + 1;
    }
    None
}

/// Merges the plane constraints around a vertex (see [`merged`]): keeps
/// the constraints whose normals are near no earlier kept one, and fails
/// with [`PlanarError::DegenerateVertex`] when coplanar neighbours ask for
/// distances that are not near. `normal_near[a][b]` and
/// `distance_near[a][b]` are the caller's tolerance tests between
/// constraints `a` and `b`. Returns the indices of the kept constraints.
pub fn dedup_constraints(normal_near: &Vec<Vec<bool>>, distance_near: &Vec<Vec<bool>>) -> (r: Result<
    IndexList,
    PlanarError,
>)
    requires
        is_square(normal_near@, normal_near@.len()),
        is_square(distance_near@, normal_near@.len()),
        normal_near@.len() < index_list_limit(),
    ensures
        match r {
            Ok(kept) => merged(normal_near@, distance_near@, normal_near@.len()) == Some(
                index_list_items(kept),
            ),
            Err(e) => e == PlanarError::DegenerateVertex && merged(
                normal_near@,
                distance_near@,
                normal_near@.len(),
            ) is None,
        },
        r matches Ok(kept) ==> {
            let items = index_list_items(kept);
            &&& strictly_increasing(items)
            &&& forall|t: int| 0 <= t < items.len() ==> #[trigger] items[t] < normal_near@.len()
            &&& forall|a: int, b: int|
                0 <= a < b < items.len() ==> !normal_near@[items[a] as int]@[items[b] as int]
            &&& forall|j: int|
                0 <= j < normal_near@.len() && !items.contains(j as usize) ==> #[trigger] represented(
                    normal_near@,
                    distance_near@,
                    items,
                    j,
                )
        },
{
    let n = normal_near.len();
    let mut kept = IndexList::new();
    let mut j: usize = 0;
    while j < n
        invariant
            n == normal_near@.len(),
            n < index_list_limit(),
            is_square(normal_near@, n as nat),
            is_square(distance_near@, n as nat),
            j <= n,
            merged(normal_near@, distance_near@, j as nat) == Some(index_list_items(kept)),
        decreases n - j,
    {
        proof {
            lemma_merged_increasing(normal_near@, distance_near@, j as nat);
        }
        let ghost items = index_list_items(kept);
        match first_near(normal_near, &kept, j) {
            Some(t) => {
                let k = kept.get(t);
                proof {
                    let c = choose|c: int| is_first_near(normal_near@, items, j as int, c);
                    lemma_first_near_unique(normal_near@, items, j as int, c, t as int);
                }
                if !distance_near[k][j] {
                    assert(merged(normal_near@, distance_near@, (j + 1) as nat) is None);
                    proof {
                        lemma_merged_none_stays(normal_near@, distance_near@, (j + 1) as nat, n as nat);
                    }
                    return Err(PlanarError::DegenerateVertex);
                }
            },
            None => {
                proof {
                    lemma_increasing_len_bound(items, j as nat);
                }
                kept.push(j);
            },
        }
        j = j + 1;
    }
    proof {
        lemma_merged_increasing(normal_near@, distance_near@, n as nat);
        lemma_merged_distant(normal_near@, distance_near@, n as nat);
        lemma_merged_represented(normal_near@, distance_near@, n as nat);
    }
    Ok(kept)
}

/// Once a merge has failed, merging more constraints fails too.
proof fn lemma_merged_none_stays(
    normal_near: Seq<Vec<bool>>,
    distance_near: Seq<Vec<bool>>,
    m: nat,
    n: nat,
)
    requires
        m <= n,
        merged(normal_near, distance_near, m) is None,
    ensures
        merged(normal_near, distance_near, n) is None,
    decreases n - m,
{
    if m < n {
        lemma_merged_none_stays(normal_near, distance_near, m + 1, n);
    }
}

/// The system that places a vertex adjacent to `count` distinct planes;
/// only one, two or three planes are supported.
pub fn plane_system(count: usize) -> (r: Result<PlaneSystem, PlanarError>)
    ensures
        r == plane_system_spec(count as nat),
        count == 1 <==> r == Ok::<PlaneSystem, PlanarError>(PlaneSystem::Single),
        count == 2 <==> r == Ok::<PlaneSystem, PlanarError>(PlaneSystem::Pair),
        count == 3 <==> r == Ok::<PlaneSystem, PlanarError>(PlaneSystem::Triple),
        (count == 0 || count > 3) <==> r == Err::<PlaneSystem, PlanarError>(
            PlanarError::UnsupportedVertexDegree(count),
        ),
{
    match count {
        1 => Ok(PlaneSystem::Single),
        2 => Ok(PlaneSystem::Pair),
        3 => Ok(PlaneSystem::Triple),
        _ => Err(PlanarError::UnsupportedVertexDegree(count)),
    }
}

/// The system for `count` distinct planes (see [`plane_system`]).
pub open spec fn plane_system_spec(count: nat) -> Result<PlaneSystem, PlanarError> {
    if count == 1 {
        Ok(PlaneSystem::Single)
    } else if count == 2 {
        Ok(PlaneSystem::Pair)
    } else if count == 3 {
        Ok(PlaneSystem::Triple)
    } else {
        Err(PlanarError::UnsupportedVertexDegree(count as usize))
    }
}

/// Reconciles a vertex: merges the plane constraints of its faces (see
/// [`dedup_constraints`]) and picks the system that places it (see
/// [`plane_system`]). Returns the kept constraints and the system.
pub fn vertex_system(normal_near: &Vec<Vec<bool>>, distance_near: &Vec<Vec<bool>>) -> (r: Result<
    (IndexList, PlaneSystem),
    PlanarError,
>)
    requires
        is_square(normal_near@, normal_near@.len()),
        is_square(distance_near@, normal_near@.len()),
        normal_near@.len() < index_list_limit(),
    ensures
        match merged(normal_near@, distance_near@, normal_near@.len()) {
            None => r == Err::<(IndexList, PlaneSystem), PlanarError>(PlanarError::DegenerateVertex),
            Some(kept) => match plane_system_spec(kept.len()) {
                Ok(system) => r matches Ok((list, sys)) && index_list_items(list) == kept && sys
                    == system,
                Err(e) => r == Err::<(IndexList, PlaneSystem), PlanarError>(e),
            },
        },
{
    let kept = dedup_constraints(normal_near, distance_near)?;
    let system = plane_system(kept.len())?;
    Ok((kept, system))
}

} // verus!
