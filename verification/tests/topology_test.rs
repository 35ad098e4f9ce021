use monstertruck_ops::planar::{dedup_constraints, plane_system, vertex_system, PlanarError, PlaneSystem};
use monstertruck_ops::small::IndexList;
use monstertruck_ops::topology::{
    contains_id, intern_ids, map_face_wires, position_of, repeats_an_edge,
    resolve_face_indices, vertex_face_incidence,
};

fn items(list: &IndexList) -> Vec<usize> {
    list.to_vec()
}

/// Vertices along each face of the unit cube (bottom, top, front, right,
/// back, left); vertices 300..303 at the bottom, 304..307 on top.
fn cube_face_vertices() -> Vec<Vec<u64>> {
    vec![
        vec![300, 301, 302, 303],
        vec![304, 305, 306, 307],
        vec![300, 301, 305, 304],
        vec![301, 302, 306, 305],
        vec![302, 303, 307, 306],
        vec![303, 300, 304, 307],
    ]
}

#[test]
fn cube_vertices_meet_three_faces_each() {
    let (vertices, lists) = vertex_face_incidence(&cube_face_vertices());
    assert_eq!(vertices.len(), 8);
    for (v, list) in vertices.iter().zip(lists.iter()) {
        let faces = items(list);
        assert_eq!(faces.len(), 3, "vertex {v}");
        assert!(faces.windows(2).all(|w| w[0] < w[1]));
    }
    let k = vertices.iter().position(|&v| v == 300).unwrap();
    assert_eq!(items(&lists[k]), vec![0, 2, 5]);
}

#[test]
fn repeated_vertex_in_one_face_is_counted_once() {
    let (vertices, lists) = vertex_face_incidence(&vec![vec![1, 2, 1], vec![2]]);
    assert_eq!(vertices, vec![1, 2]);
    assert_eq!(items(&lists[0]), vec![0]);
    assert_eq!(items(&lists[1]), vec![0, 1]);
}

#[test]
fn interning_edges_maps_each_occurrence() {
    let (distinct, index) = intern_ids(&vec![7, 9, 7, 8, 9]);
    assert_eq!(distinct, vec![7, 9, 8]);
    assert_eq!(index, vec![0, 1, 0, 2, 1]);
}

#[test]
fn positions_are_first_occurrences() {
    assert_eq!(position_of(&vec![5, 6, 5], 5), Some(0));
    assert_eq!(position_of(&vec![5, 6, 5], 4), None);
    assert!(contains_id(&vec![1, 2], 2));
    assert!(!contains_id(&vec![], 2));
}

#[test]
fn resolution_is_sorted_and_deduplicated() {
    let ids = vec![10, 11, 12, 11];
    assert_eq!(resolve_face_indices(&ids, &vec![12, 11, 12]), Some(vec![1, 2]));
    assert_eq!(resolve_face_indices(&ids, &vec![12, 13]), None);
    assert_eq!(resolve_face_indices(&ids, &vec![]), Some(vec![]));
}

#[test]
fn edge_repeats_detect_shared_and_seam_edges() {
    let face_edges = vec![vec![1, 2, 3], vec![3, 4, 5], vec![6, 6], vec![7, 8]];
    assert!(repeats_an_edge(&face_edges, &vec![0, 1]));
    assert!(!repeats_an_edge(&face_edges, &vec![0, 3]));
    assert!(repeats_an_edge(&face_edges, &vec![2]));
    assert!(!repeats_an_edge(&face_edges, &vec![]));
}

fn table(rows: &[&[bool]]) -> Vec<Vec<bool>> {
    rows.iter().map(|r| r.to_vec()).collect()
}

#[test]
fn coplanar_neighbours_merge() {
    // Constraints 0 and 2 are coplanar with equal distances; 1 is distinct.
    let normal = table(&[&[true, false, true], &[false, true, false], &[true, false, true]]);
    let distance = table(&[&[true, false, true], &[false, true, false], &[true, false, true]]);
    let kept = dedup_constraints(&normal, &distance).unwrap();
    assert_eq!(items(&kept), vec![0, 1]);
    let (kept, system) = vertex_system(&normal, &distance).unwrap();
    assert_eq!(items(&kept), vec![0, 1]);
    assert_eq!(system, PlaneSystem::Pair);
}

#[test]
fn coplanar_neighbours_with_different_distances_fail() {
    let normal = table(&[&[true, true], &[true, true]]);
    let distance = table(&[&[true, false], &[false, true]]);
    assert_eq!(dedup_constraints(&normal, &distance).err(), Some(PlanarError::DegenerateVertex));
}

#[test]
fn four_distinct_planes_are_unsupported() {
    let n = 4;
    let normal: Vec<Vec<bool>> = (0..n).map(|i| (0..n).map(|j| i == j).collect()).collect();
    let r = vertex_system(&normal, &normal);
    assert_eq!(r.err(), Some(PlanarError::UnsupportedVertexDegree(4)));
    assert_eq!(plane_system(0), Err(PlanarError::UnsupportedVertexDegree(0)));
    assert_eq!(plane_system(3), Ok(PlaneSystem::Triple));
    assert_eq!(plane_system(1), Ok(PlaneSystem::Single));
}

#[test]
fn faces_are_rebuilt_one_for_one_on_edge_images() {
    // Two triangles sharing edge 12, which the second runs backwards.
    let faces = vec![
        vec![vec![(10u64, true), (11, true), (12, true)]],
        vec![vec![(12u64, false), (13, true), (14, false)]],
    ];
    let edge_ids = vec![14u64, 13, 12, 11, 10];
    let images = vec![0usize, 1, 2, 3, 4];
    let mapped = map_face_wires(&faces, &edge_ids, &images).unwrap();
    assert_eq!(mapped.len(), 2);
    assert_eq!(mapped[0], vec![vec![(4usize, true), (3, true), (2, true)]]);
    assert_eq!(mapped[1], vec![vec![(2usize, false), (1, true), (0, false)]]);
}

#[test]
fn an_edge_without_image_fails_the_rebuild() {
    let faces = vec![vec![vec![(10u64, true)]], vec![vec![(99u64, true)]]];
    assert_eq!(map_face_wires(&faces, &vec![10u64], &vec![7usize]), None);
    let empty: Vec<Vec<Vec<(u64, bool)>>> = Vec::new();
    assert_eq!(map_face_wires(&empty, &vec![], &vec![]), Some(Vec::new()));
}
