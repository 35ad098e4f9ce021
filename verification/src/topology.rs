//! Incidence bookkeeping of a shell, on integer ids.
//!
//! A shell is seen here through the ids of its faces, edges and vertices
//! only: which vertices and edges each face's boundary wires run through,
//! in order. Offsetting and drafting map every original vertex and edge to
//! exactly one new vertex and edge; the functions here decide that mapping.

use crate::small::{IndexList, index_list_items, index_list_limit};
use vstd::prelude::*;

verus! {

/// `p` is the first position of `x` in `s`.
pub open spec fn is_first_position(s: Seq<u64>, x: u64, p: int) -> bool {
    &&& 0 <= p < s.len()
    &&& s[p] == x
    &&& forall|q: int| 0 <= q < p ==> s[q] != x
}

/// Every item of `s` is smaller than the next.
pub open spec fn strictly_increasing(s: Seq<usize>) -> bool {
    forall|a: int, b: int| 0 <= a < b < s.len() ==> s[a] < s[b]
}

/// The id sequences of the faces `faces` (indices into `face_ids`), one
/// after the other.
pub open spec fn concat_faces(face_ids: Seq<Vec<u64>>, faces: Seq<usize>) -> Seq<u64>
    decreases faces.len(),
{
    if faces.len() == 0 {
        Seq::<u64>::empty()
    } else {
        concat_faces(face_ids, faces.drop_last()) + face_ids[faces.last() as int]@
    }
}

/// A strictly increasing sequence of naturals below `m` has at most `m`
/// items.
pub proof fn lemma_increasing_len_bound(s: Seq<usize>, m: nat)
    requires
        strictly_increasing(s),
        forall|t: int| 0 <= t < s.len() ==> s[t] < m,
    ensures
        s.len() <= m,
    decreases s.len(),
{
    if s.len() > 0 {
        let last = s[s.len() - 1];
        let s2 = s.drop_last();
        assert forall|t: int| 0 <= t < s2.len() implies s2[t] < last as nat by {
            assert(s[t] < s[s.len() - 1]);
        }
        lemma_increasing_len_bound(s2, last as nat);
    }
}

/// The concatenation over a prefix of `faces` is a prefix of the
/// concatenation over all of `faces`.
proof fn lemma_concat_prefix(face_ids: Seq<Vec<u64>>, faces: Seq<usize>, m: int)
    requires
        0 <= m <= faces.len(),
    ensures
        concat_faces(face_ids, faces.take(m)).len() <= concat_faces(face_ids, faces).len(),
        forall|t: int|
            0 <= t < concat_faces(face_ids, faces.take(m)).len() ==> concat_faces(
                face_ids,
                faces.take(m),
            )[t] == concat_faces(face_ids, faces)[t],
    decreases faces.len(),
{
    if m == faces.len() {
        assert(faces.take(m) =~= faces);
    } else {
        let shorter = faces.drop_last();
        assert(faces.take(m) =~= shorter.take(m));
        lemma_concat_prefix(face_ids, shorter, m);
    }
}

/// The first position of `id` in `ids`, if any.
pub fn position_of(ids: &Vec<u64>, id: u64) -> (r: Option<usize>)
    ensures
        r matches Some(p) ==> is_first_position(ids@, id, p as int),
        r is None <==> !ids@.contains(id),
{
    let mut i: usize = 0;
    while i < ids.len()
        invariant
            i <= ids.len(),
            forall|q: int| 0 <= q < i ==> ids@[q] != id,
        decreases ids.len() - i,
    {
        if ids[i] == id {
            return Some(i);
        }
        i = i + 1;
    }
    None
}

/// Interns a sequence of ids: returns the distinct ids, and for every
/// position of `ids` the index of its id among them. This is how every
/// occurrence of an edge (or vertex) in a shell is tied to a single new
/// edge (or vertex).
pub fn intern_ids(ids: &Vec<u64>) -> (r: (Vec<u64>, Vec<usize>))
    ensures
        r.0@.no_duplicates(),
        r.1@.len() == ids@.len(),
        forall|k: int|
            0 <= k < ids@.len() ==> #[trigger] r.1@[k] < r.0@.len() && r.0@[r.1@[k] as int]
                == ids@[k],
        forall|x: u64| r.0@.contains(x) <==> ids@.contains(x),
{
    let mut distinct: Vec<u64> = Vec::new();
    let mut index: Vec<usize> = Vec::new();
    let mut k: usize = 0;
    while k < ids.len()
        invariant
            k <= ids.len(),
            distinct@.no_duplicates(),
            index@.len() == k,
            forall|t: int|
                0 <= t < k ==> #[trigger] index@[t] < distinct@.len() && distinct@[index@[t] as int]
                    == ids@[t],
            forall|x: u64| distinct@.contains(x) <==> ids@.take(k as int).contains(x),
        decreases ids.len() - k,
    {
        let id = ids[k];
        assert(ids@.take(k + 1) =~= ids@.take(k as int).push(id));
        match position_of(&distinct, id) {
            Some(p) => {
                index.push(p);
            },
            None => {
                index.push(distinct.len());
                distinct.push(id);
            },
        }
        assert forall|x: u64| distinct@.contains(x) <==> ids@.take(k + 1).contains(x) by {
            broadcast use vstd::seq_lib::group_seq_properties;
        }
        k = k + 1;
    }
    assert(ids@.take(ids@.len() as int) =~= ids@);
    (distinct, index)
}

/// Collects, for every vertex of a shell, the faces it lies on.
///
/// `face_vertices[i]` lists the vertices met along the boundary wires of
/// face `i`. Returns the distinct vertices, and for each of them the
/// indices of the faces it lies on, in increasing order and each once.
/// These are the faces whose planes a vertex must be reconciled against.
pub fn vertex_face_incidence(face_vertices: &Vec<Vec<u64>>) -> (r: (Vec<u64>, Vec<IndexList>))
    requires
        face_vertices.len() < index_list_limit(),
    ensures
        r.0@.no_duplicates(),
        r.1@.len() == r.0@.len(),
        forall|v: u64|
            r.0@.contains(v) <==> exists|i: int|
                0 <= i < face_vertices@.len() && (#[trigger] face_vertices@[i])@.contains(v),
        forall|j: int|
            0 <= j < r.1@.len() ==> strictly_increasing(index_list_items(#[trigger] r.1@[j])),
        forall|j: int, i: int|
            0 <= j < r.1@.len() && 0 <= i < face_vertices@.len() ==> (index_list_items(
                #[trigger] r.1@[j],
            ).contains(i as usize) <==> (#[trigger] face_vertices@[i])@.contains(r.0@[j])),
        forall|j: int, t: int|
            #![trigger index_list_items(r.1@[j])[t]]
            0 <= j < r.1@.len() && 0 <= t < index_list_items(r.1@[j]).len()
                ==> index_list_items(r.1@[j])[t] < face_vertices@.len(),
{
    let n = face_vertices.len();
    let mut vertices: Vec<u64> = Vec::new();
    let mut lists: Vec<IndexList> = Vec::new();
    let mut i: usize = 0;
    while i < n
        invariant
            n == face_vertices@.len(),
            n < index_list_limit(),
            i <= n,
            vertices@.no_duplicates(),
            lists@.len() == vertices@.len(),
            forall|v: u64|
                vertices@.contains(v) <==> exists|f: int|
                    0 <= f < i && (#[trigger] face_vertices@[f])@.contains(v),
            forall|j: int|
                0 <= j < lists@.len() ==> strictly_increasing(index_list_items(#[trigger] lists@[j])),
            forall|j: int, t: int|
                #![trigger index_list_items(lists@[j])[t]]
                0 <= j < lists@.len() && 0 <= t < index_list_items(lists@[j]).len()
                    ==> index_list_items(lists@[j])[t] < i,
            forall|j: int, f: int|
                0 <= j < lists@.len() && 0 <= f < n ==> (index_list_items(
                    #[trigger] lists@[j],
                ).contains(f as usize) <==> (f < i && (#[trigger] face_vertices@[f])@.contains(
                    vertices@[j],
                ))),
        decreases n - i,
    {
        let face = &face_vertices[i];
        let mut q: usize = 0;
        while q < face.len()
            invariant
                n == face_vertices@.len(),
                n < index_list_limit(),
                i < n,
                face@ == face_vertices@[i as int]@,
                q <= face@.len(),
                vertices@.no_duplicates(),
                lists@.len() == vertices@.len(),
                forall|v: u64|
                    vertices@.contains(v) <==> (exists|f: int|
                        0 <= f < i && (#[trigger] face_vertices@[f])@.contains(v)) || face@.take(
                        q as int,
                    ).contains(v),
                forall|j: int|
                    0 <= j < lists@.len() ==> strictly_increasing(
                        index_list_items(#[trigger] lists@[j]),
                    ),
                forall|j: int, t: int|
                    #![trigger index_list_items(lists@[j])[t]]
                    0 <= j < lists@.len() && 0 <= t < index_list_items(lists@[j]).len()
                        ==> index_list_items(lists@[j])[t] <= i,
                forall|j: int, f: int|
                    0 <= j < lists@.len() && 0 <= f < n ==> (index_list_items(
                        #[trigger] lists@[j],
                    ).contains(f as usize) <==> ((f < i && (#[trigger] face_vertices@[f])@.contains(
                        vertices@[j],
                    )) || (f == i && face@.take(q as int).contains(vertices@[j])))),
            decreases face@.len() - q,
        {
            let v = face[q];
            assert(face@.take(q + 1) =~= face@.take(q as int).push(v));
            let ghost old_vertices = vertices@;
            let ghost old_lists = lists@;
            match position_of(&vertices, v) {
                Some(k) => {
                    if !lists[k].contains(i) {
                        let ghost before = index_list_items(lists@[k as int]);
                        assert forall|t: int| 0 <= t < before.len() implies before[t] < i by {
                            assert(before[t] <= i);
                            if before[t] == i {
                                assert(before.contains(i));
                            }
                        }
                        proof {
                            lemma_increasing_len_bound(before, i as nat);
                        }
                        let mut entry = lists.remove(k);
                        entry.push(i);
                        lists.insert(k, entry);
                        assert(index_list_items(lists@[k as int]) == before.push(i));
                    }
                },
                None => {
                    let mut entry = IndexList::new();
                    entry.push(i);
                    vertices.push(v);
                    lists.push(entry);
                    assert(index_list_items(entry) =~= seq![i]);
                },
            }
            assert forall|j: int|
                0 <= j < lists@.len() implies strictly_increasing(
                index_list_items(#[trigger] lists@[j]),
            ) by {
                if j < old_lists.len() && lists@[j] != old_lists[j] {
                    let items = index_list_items(lists@[j]);
                    assert forall|a: int, b: int| 0 <= a < b < items.len() implies items[a]
                        < items[b] by {
                        let before = index_list_items(old_lists[j]);
                        if b == items.len() - 1 {
                            assert(before[a] <= i);
                            if before[a] == i {
                                assert(before.contains(i));
                            }
                        }
                    }
                }
            }
            assert forall|u: u64|
                vertices@.contains(u) <==> (exists|f: int|
                    0 <= f < i && (#[trigger] face_vertices@[f])@.contains(u)) || face@.take(
                    q + 1,
                ).contains(u) by {
                broadcast use vstd::seq_lib::group_seq_properties;

                assert(old_vertices.contains(u) <==> (exists|f: int|
                    0 <= f < i && (#[trigger] face_vertices@[f])@.contains(u)) || face@.take(
                    q as int,
                ).contains(u));
            }
            assert forall|j: int, f: int|
                0 <= j < lists@.len() && 0 <= f < n implies (index_list_items(
                #[trigger] lists@[j],
            ).contains(f as usize) <==> ((f < i && (#[trigger] face_vertices@[f])@.contains(
                vertices@[j],
            )) || (f == i && face@.take(q + 1).contains(vertices@[j])))) by {
                broadcast use vstd::seq_lib::group_seq_properties;

                if j < old_lists.len() {
                    assert(vertices@[j] == old_vertices[j]);
                    assert(index_list_items(old_lists[j]).contains(f as usize) <==> ((f < i
                        && face_vertices@[f]@.contains(old_vertices[j])) || (f == i && face@.take(
                        q as int,
                    ).contains(old_vertices[j]))));
                }
            }
            q = q + 1;
        }
        assert(face@.take(face@.len() as int) =~= face@);
        assert forall|v: u64|
            vertices@.contains(v) <==> exists|f: int|
                0 <= f < i + 1 && (#[trigger] face_vertices@[f])@.contains(v) by {
            if vertices@.contains(v) && !(exists|f: int|
                0 <= f < i && (#[trigger] face_vertices@[f])@.contains(v)) {
                assert(face_vertices@[i as int]@.contains(v));
            }
        }
        i = i + 1;
    }
    (vertices, lists)
}

/// `p` is the index of the face that the id `requested[j]` names, for
/// some `j`.
pub open spec fn names_face(face_ids: Seq<u64>, requested: Seq<u64>, p: int) -> bool {
    exists|j: int| 0 <= j < requested.len() && is_first_position(face_ids, requested[j], p)
}

/// The indices below `p` of the faces that `requested` names, in
/// increasing order.
pub open spec fn resolution_upto(face_ids: Seq<u64>, requested: Seq<u64>, p: nat) -> Seq<usize>
    decreases p,
{
    if p == 0 {
        Seq::<usize>::empty()
    } else {
        let prev = resolution_upto(face_ids, requested, (p - 1) as nat);
        if names_face(face_ids, requested, p - 1) {
            prev.push((p - 1) as usize)
        } else {
            prev
        }
    }
}

/// The indices of the faces that `requested` names, in increasing order.
pub open spec fn resolution(face_ids: Seq<u64>, requested: Seq<u64>) -> Seq<usize> {
    resolution_upto(face_ids, requested, face_ids.len())
}

/// The faces named below `p` come out in increasing order, each below `p`,
/// and each named face below `p` is among them.
pub proof fn lemma_resolution_upto(face_ids: Seq<u64>, requested: Seq<u64>, p: nat)
    requires
        p <= usize::MAX + 1,
    ensures
        strictly_increasing(resolution_upto(face_ids, requested, p)),
        forall|t: int|
            0 <= t < resolution_upto(face_ids, requested, p).len() ==> #[trigger] resolution_upto(
                face_ids,
                requested,
                p,
            )[t] < p,
        forall|q: int|
            0 <= q < p && names_face(face_ids, requested, q) ==> #[trigger] resolution_upto(
                face_ids,
                requested,
                p,
            ).contains(q as usize),
        forall|t: int|
            0 <= t < resolution_upto(face_ids, requested, p).len() ==> names_face(
                face_ids,
                requested,
                #[trigger] resolution_upto(face_ids, requested, p)[t] as int,
            ),
    decreases p,
{
    if p > 0 {
        lemma_resolution_upto(face_ids, requested, (p - 1) as nat);
        let prev = resolution_upto(face_ids, requested, (p - 1) as nat);
        let now = resolution_upto(face_ids, requested, p);
        assert(((p - 1) as usize) as int == p - 1);
        assert forall|q: int|
            0 <= q < p && names_face(face_ids, requested, q) implies #[trigger] now.contains(
            q as usize,
        ) by {
            if q == p - 1 {
                assert(now[now.len() - 1] == q as usize);
            } else {
                assert(prev.contains(q as usize));
                let t = choose|t: int| 0 <= t < prev.len() && prev[t] == q as usize;
                if names_face(face_ids, requested, p - 1) {
                    assert(now == prev.push((p - 1) as usize));
                } else {
                    assert(now == prev);
                }
                assert(now[t] == q as usize);
            }
        }
    }
}

/// Resolving face ids gives, in increasing order and each once, exactly
/// the faces whose ids are requested, a face being found at the first
/// position of its id.
pub proof fn law_resolution_is_the_requested_faces(face_ids: Seq<u64>, requested: Seq<u64>)
    requires
        face_ids.len() <= usize::MAX,
    ensures
        forall|a: int, b: int|
            0 <= a < b < resolution(face_ids, requested).len() ==> resolution(face_ids, requested)[a]
                < resolution(face_ids, requested)[b],
        forall|t: int|
            0 <= t < resolution(face_ids, requested).len() ==> {
                let p = #[trigger] resolution(face_ids, requested)[t] as int;
                &&& 0 <= p < face_ids.len()
                &&& requested.contains(face_ids[p])
                &&& forall|q: int| 0 <= q < p ==> face_ids[q] != face_ids[p]
            },
        forall|j: int, p: int|
            #![trigger requested[j], face_ids[p]]
            0 <= j < requested.len() && 0 <= p < face_ids.len() && face_ids[p] == requested[j] && (
            forall|q: int| 0 <= q < p ==> face_ids[q] != requested[j]) ==> resolution(
                face_ids,
                requested,
            ).contains(p as usize),
{
    lemma_resolution_upto(face_ids, requested, face_ids.len());
    let r = resolution(face_ids, requested);
    assert forall|t: int| 0 <= t < r.len() implies {
        let p = #[trigger] r[t] as int;
        &&& 0 <= p < face_ids.len()
        &&& requested.contains(face_ids[p])
        &&& forall|q: int| 0 <= q < p ==> face_ids[q] != face_ids[p]
    } by {
        assert(names_face(face_ids, requested, r[t] as int));
        let j = choose|j: int|
            0 <= j < requested.len() && is_first_position(face_ids, requested[j], r[t] as int);
        assert(requested[j] == face_ids[r[t] as int]);
    }
    assert forall|j: int, p: int|
        #![trigger requested[j], face_ids[p]]
        0 <= j < requested.len() && 0 <= p < face_ids.len() && face_ids[p] == requested[j] && (
        forall|q: int| 0 <= q < p ==> face_ids[q] != requested[j]) implies r.contains(
        p as usize,
    ) by {
        assert(is_first_position(face_ids, requested[j], p));
        assert(names_face(face_ids, requested, p));
    }
}

/// The image of an edge is the new edge recorded at its position among
/// the edges with images (at its first position, if it repeats), and an
/// edge occurrence keeps its orientation.
pub proof fn law_edge_image_at_position(
    edge_ids: Seq<u64>,
    images: Seq<usize>,
    p: int,
    occ: (u64, bool),
)
    requires
        0 <= p < edge_ids.len(),
        forall|q: int| 0 <= q < p ==> edge_ids[q] != edge_ids[p],
    ensures
        edge_image(edge_ids, images, edge_ids[p]) == images[p],
        mapped_occurrence(edge_ids, images, occ).1 == occ.1,
        occ.0 == edge_ids[p] ==> mapped_occurrence(edge_ids, images, occ).0 == images[p],
{
    assert(is_first_position(edge_ids, edge_ids[p], p));
    let c = choose|c: int| is_first_position(edge_ids, edge_ids[p], c);
    lemma_first_position_unique(edge_ids, edge_ids[p], c, p);
}

/// Resolves face ids to face indices: the index of a face is the first
/// position of its id among `face_ids`.
///
/// Returns `None` exactly when some requested id is not among `face_ids`;
/// otherwise the set of resolved indices, in increasing order, each once.
pub fn resolve_face_indices(face_ids: &Vec<u64>, requested: &Vec<u64>) -> (r: Option<Vec<usize>>)
    ensures
        r is None <==> exists|j: int|
            0 <= j < requested@.len() && !face_ids@.contains(#[trigger] requested@[j]),
        r matches Some(ix) ==> ix@ == resolution(face_ids@, requested@),
        r matches Some(ix) ==> strictly_increasing(ix@),
        r matches Some(ix) ==> forall|p: int|
            0 <= p < face_ids@.len() ==> (ix@.contains(p as usize) <==> names_face(
                face_ids@,
                requested@,
                p,
            )),
        r matches Some(ix) ==> forall|t: int| 0 <= t < ix@.len() ==> #[trigger] ix@[t] < face_ids@.len(),
{
    let n = face_ids.len();
    let mut mask: Vec<bool> = Vec::new();
    while mask.len() < n
        invariant
            mask@.len() <= n,
            forall|p: int| 0 <= p < mask@.len() ==> !mask@[p],
        decreases n - mask@.len(),
    {
        mask.push(false);
    }
    let mut k: usize = 0;
    while k < requested.len()
        invariant
            n == face_ids@.len(),
            mask@.len() == n,
            k <= requested@.len(),
            forall|j: int| 0 <= j < k ==> face_ids@.contains(#[trigger] requested@[j]),
            forall|p: int|
                0 <= p < n ==> (mask@[p] <==> exists|j: int|
                    0 <= j < k && is_first_position(face_ids@, #[trigger] requested@[j], p)),
        decreases requested@.len() - k,
    {
        match position_of(face_ids, requested[k]) {
            None => {
                return None;
            },
            Some(p) => {
                mask.set(p, true);
                assert forall|q: int|
                    0 <= q < n implies (mask@[q] <==> exists|j: int|
                    0 <= j < k + 1 && is_first_position(face_ids@, #[trigger] requested@[j], q)) by {
                    if q != p && exists|j: int|
                        0 <= j < k + 1 && is_first_position(face_ids@, #[trigger] requested@[j], q) {
                        let j = choose|j: int|
                            0 <= j < k + 1 && is_first_position(face_ids@, #[trigger] requested@[j], q);
                        if j == k {
                            assert(requested@[j] == face_ids@[p as int]);
                            if q < p {
                                assert(face_ids@[q] != requested@[k as int]);
                            } else {
                                assert(face_ids@[p as int] != requested@[k as int]);
                            }
                        }
                    }
                }
            },
        }
        k = k + 1;
    }
    let mut out: Vec<usize> = Vec::new();
    let mut p: usize = 0;
    while p < n
        invariant
            n == face_ids@.len(),
            mask@.len() == n,
            p <= n,
            strictly_increasing(out@),
            forall|t: int| 0 <= t < out@.len() ==> #[trigger] out@[t] < p,
            forall|q: int| 0 <= q < n ==> (out@.contains(q as usize) <==> (q < p && mask@[q])),
            out@ == resolution_upto(face_ids@, requested@, p as nat),
            forall|q: int|
                0 <= q < n ==> (mask@[q] <==> exists|j: int|
                    0 <= j < requested@.len() && is_first_position(
                        face_ids@,
                        #[trigger] requested@[j],
                        q,
                    )),
        decreases n - p,
    {
        proof {
            if mask@[p as int] {
                let j = choose|j: int|
                    0 <= j < requested@.len() && is_first_position(
                        face_ids@,
                        #[trigger] requested@[j],
                        p as int,
                    );
                assert(names_face(face_ids@, requested@, p as int));
            } else if names_face(face_ids@, requested@, p as int) {
                let j = choose|j: int|
                    0 <= j < requested@.len() && is_first_position(face_ids@, requested@[j], p as int);
                assert(is_first_position(face_ids@, requested@[j], p as int));
            }
        }
        if mask[p] {
            out.push(p);
        }
        assert forall|q: int| 0 <= q < n implies (out@.contains(q as usize) <==> (q < p + 1
            && mask@[q])) by {
            broadcast use vstd::seq_lib::group_seq_properties;

            if q == p && mask@[q] {
                assert(out@[out@.len() - 1] == p);
            }
            if out@.contains(q as usize) && q != p {
                let t = choose|t: int| 0 <= t < out@.len() && out@[t] == q as usize;
                if mask@[p as int] && t == out@.len() - 1 {
                } else {
                    assert(out@[t] < p);
                }
            }
        }
        p = p + 1;
    }
    assert forall|q: int|
        0 <= q < n implies (out@.contains(q as usize) <==> names_face(face_ids@, requested@, q)) by {
        assert(out@.contains(q as usize) <==> mask@[q]);
        if mask@[q] {
            let j = choose|j: int|
                0 <= j < requested@.len() && is_first_position(face_ids@, #[trigger] requested@[j], q);
            assert(names_face(face_ids@, requested@, q));
        }
        if names_face(face_ids@, requested@, q) {
            let j = choose|j: int|
                0 <= j < requested@.len() && is_first_position(face_ids@, requested@[j], q);
            assert(is_first_position(face_ids@, requested@[j], q));
        }
    }
    Some(out)
}

/// Whether an edge id repeats in the boundaries of the faces `faces`,
/// taken together: two of them share an edge, or one of them runs through
/// an edge twice. Hollowing with such open faces would collapse that edge
/// onto itself.
pub fn repeats_an_edge(face_edges: &Vec<Vec<u64>>, faces: &Vec<usize>) -> (r: bool)
    requires
        forall|k: int| 0 <= k < faces@.len() ==> #[trigger] faces@[k] < face_edges@.len(),
    ensures
        r == !concat_faces(face_edges@, faces@).no_duplicates(),
{
    let mut seen: Vec<u64> = Vec::new();
    let mut k: usize = 0;
    while k < faces.len()
        invariant
            forall|k: int| 0 <= k < faces@.len() ==> #[trigger] faces@[k] < face_edges@.len(),
            k <= faces@.len(),
            seen@ == concat_faces(face_edges@, faces@.take(k as int)),
            seen@.no_duplicates(),
        decreases faces@.len() - k,
    {
        let edges = &face_edges[faces[k]];
        assert(faces@.take(k + 1).drop_last() =~= faces@.take(k as int));
        let mut q: usize = 0;
        while q < edges.len()
            invariant
                forall|k: int| 0 <= k < faces@.len() ==> #[trigger] faces@[k] < face_edges@.len(),
                k < faces@.len(),
                edges@ == face_edges@[faces@[k as int] as int]@,
                q <= edges@.len(),
                seen@ == concat_faces(face_edges@, faces@.take(k as int)) + edges@.take(q as int),
                seen@.no_duplicates(),
            decreases edges@.len() - q,
        {
            let e = edges[q];
            if contains_id(&seen, e) {
                let ghost pre = seen@.push(e);
                let ghost whole = concat_faces(face_edges@, faces@);
                proof {
                    lemma_concat_prefix(face_edges@, faces@, k + 1);
                    assert(faces@.take(k + 1).drop_last() =~= faces@.take(k as int));
                    assert(faces@.take(k + 1).last() == faces@[k as int]);
                    assert(concat_faces(face_edges@, faces@.take(k + 1)) == concat_faces(
                        face_edges@,
                        faces@.take(k as int),
                    ) + edges@);
                    let a = choose|a: int| 0 <= a < seen@.len() && seen@[a] == e;
                    let b = seen@.len() as int;
                    assert(edges@.take(q + 1) =~= edges@.take(q as int).push(e));
                    assert(whole[a] == e);
                    assert(whole[b] == e);
                }
                return true;
            }
            assert(edges@.take(q + 1) =~= edges@.take(q as int).push(e));
            seen.push(e);
            q = q + 1;
        }
        assert(edges@.take(edges@.len() as int) =~= edges@);
        k = k + 1;
    }
    assert(faces@.take(faces@.len() as int) =~= faces@);
    false
}

/// The first position of an id in a sequence is unique.
proof fn lemma_first_position_unique(s: Seq<u64>, x: u64, a: int, b: int)
    requires
        is_first_position(s, x, a),
        is_first_position(s, x, b),
    ensures
        a == b,
{
    if a < b {
        assert(s[a] != x);
    } else if b < a {
        assert(s[b] != x);
    }
}

/// The image of edge `e`: the new edge recorded for the first occurrence
/// of `e` among `edge_ids`.
pub open spec fn edge_image(edge_ids: Seq<u64>, images: Seq<usize>, e: u64) -> usize {
    images[choose|p: int| is_first_position(edge_ids, e, p)]
}

/// An edge occurrence of a wire, an edge id with the orientation in which
/// the wire runs through it, mapped to the image of the edge in the same
/// orientation.
pub open spec fn mapped_occurrence(edge_ids: Seq<u64>, images: Seq<usize>, occ: (u64, bool)) -> (
    usize,
    bool,
) {
    (edge_image(edge_ids, images, occ.0), occ.1)
}

/// Every edge of `wire` has an image.
pub open spec fn wire_has_images(edge_ids: Seq<u64>, wire: Seq<(u64, bool)>) -> bool {
    forall|k: int| 0 <= k < wire.len() ==> edge_ids.contains(#[trigger] wire[k].0)
}

/// `out` is `wire` mapped edge for edge, in order and orientation.
pub open spec fn wire_mapped(
    edge_ids: Seq<u64>,
    images: Seq<usize>,
    wire: Seq<(u64, bool)>,
    out: Seq<(usize, bool)>,
) -> bool {
    &&& out.len() == wire.len()
    &&& forall|k: int|
        0 <= k < wire.len() ==> #[trigger] out[k] == mapped_occurrence(edge_ids, images, wire[k])
}

/// Every edge of every wire of `face` has an image.
pub open spec fn face_has_images(edge_ids: Seq<u64>, face: Seq<Vec<(u64, bool)>>) -> bool {
    forall|w: int| 0 <= w < face.len() ==> wire_has_images(edge_ids, (#[trigger] face[w])@)
}

/// `out` is `face` mapped wire for wire (see [`wire_mapped`]).
pub open spec fn face_mapped(
    edge_ids: Seq<u64>,
    images: Seq<usize>,
    face: Seq<Vec<(u64, bool)>>,
    out: Seq<Vec<(usize, bool)>>,
) -> bool {
    &&& out.len() == face.len()
    &&& forall|w: int|
        0 <= w < face.len() ==> wire_mapped(edge_ids, images, (#[trigger] face[w])@, out[w]@)
}

/// Maps one wire edge for edge; `None` if an edge has no image.
fn map_wire(wire: &Vec<(u64, bool)>, edge_ids: &Vec<u64>, images: &Vec<usize>) -> (r: Option<
    Vec<(usize, bool)>,
>)
    requires
        images@.len() == edge_ids@.len(),
    ensures
        r is None <==> !wire_has_images(edge_ids@, wire@),
        r matches Some(out) ==> wire_mapped(edge_ids@, images@, wire@, out@),
{
    let mut out: Vec<(usize, bool)> = Vec::new();
    let mut k: usize = 0;
    while k < wire.len()
        invariant
            images@.len() == edge_ids@.len(),
            k <= wire@.len(),
            forall|t: int| 0 <= t < k ==> edge_ids@.contains(#[trigger] wire@[t].0),
            out@.len() == k,
            forall|t: int|
                0 <= t < k ==> #[trigger] out@[t] == mapped_occurrence(edge_ids@, images@, wire@[t]),
        decreases wire@.len() - k,
    {
        let (e, forward) = wire[k];
        match position_of(edge_ids, e) {
            None => {
                assert(!edge_ids@.contains(wire@[k as int].0));
                return None;
            },
            Some(p) => {
                proof {
                    let c = choose|c: int| is_first_position(edge_ids@, e, c);
                    lemma_first_position_unique(edge_ids@, e, c, p as int);
                }
                out.push((images[p], forward));
            },
        }
        k = k + 1;
    }
    Some(out)
}

/// Maps the wires of one face; `None` if an edge has no image.
fn map_face(face: &Vec<Vec<(u64, bool)>>, edge_ids: &Vec<u64>, images: &Vec<usize>) -> (r: Option<
    Vec<Vec<(usize, bool)>>,
>)
    requires
        images@.len() == edge_ids@.len(),
    ensures
        r is None <==> !face_has_images(edge_ids@, face@),
        r matches Some(out) ==> face_mapped(edge_ids@, images@, face@, out@),
{
    let mut out: Vec<Vec<(usize, bool)>> = Vec::new();
    let mut w: usize = 0;
    while w < face.len()
        invariant
            images@.len() == edge_ids@.len(),
            w <= face@.len(),
            forall|t: int| 0 <= t < w ==> wire_has_images(edge_ids@, (#[trigger] face@[t])@),
            out@.len() == w,
            forall|t: int|
                0 <= t < w ==> wire_mapped(edge_ids@, images@, (#[trigger] face@[t])@, out@[t]@),
        decreases face@.len() - w,
    {
        match map_wire(&face[w], edge_ids, images) {
            None => {
                return None;
            },
            Some(mapped) => {
                out.push(mapped);
            },
        }
        w = w + 1;
    }
    Some(out)
}

/// Rebuilds the boundaries of the faces of a shell on the images of its
/// edges, as offsetting and drafting do: one face for every face, in the
/// same order, each wire for each wire, and each edge occurrence replaced
/// by the image of its edge, in the same orientation. No face is added or
/// dropped and the faces stay connected through the same edges.
///
/// `faces[i][w]` lists the edge occurrences of wire `w` of face `i`: the
/// edge id and whether the wire runs along the edge's own direction.
/// `images[p]` is the new edge of the edge `edge_ids[p]`. Returns `None`
/// exactly when some edge occurrence has no image.
pub fn map_face_wires(
    faces: &Vec<Vec<Vec<(u64, bool)>>>,
    edge_ids: &Vec<u64>,
    images: &Vec<usize>,
) -> (r: Option<Vec<Vec<Vec<(usize, bool)>>>>)
    requires
        images@.len() == edge_ids@.len(),
    ensures
        r is None <==> exists|i: int|
            0 <= i < faces@.len() && !face_has_images(edge_ids@, (#[trigger] faces@[i])@),
        r matches Some(out) ==> out@.len() == faces@.len(),
        r matches Some(out) ==> forall|i: int|
            0 <= i < faces@.len() ==> face_mapped(
                edge_ids@,
                images@,
                (#[trigger] faces@[i])@,
                out@[i]@,
            ),
{
    let mut out: Vec<Vec<Vec<(usize, bool)>>> = Vec::new();
    let mut i: usize = 0;
    while i < faces.len()
        invariant
            images@.len() == edge_ids@.len(),
            i <= faces@.len(),
            forall|t: int| 0 <= t < i ==> face_has_images(edge_ids@, (#[trigger] faces@[t])@),
            out@.len() == i,
            forall|t: int|
                0 <= t < i ==> face_mapped(edge_ids@, images@, (#[trigger] faces@[t])@, out@[t]@),
        decreases faces@.len() - i,
    {
        match map_face(&faces[i], edge_ids, images) {
            None => {
                return None;
            },
            Some(mapped) => {
                out.push(mapped);
            },
        }
        i = i + 1;
    }
    Some(out)
}

/// Whether `id` occurs in `ids`.
pub fn contains_id(ids: &Vec<u64>, id: u64) -> (found: bool)
    ensures
        found == ids@.contains(id),
{
    position_of(ids, id).is_some()
}

} // verus!
