use grafito_render::icosphere::{
    icosahedron_indices, icosphere_topology, subdivide_icosphere, ICOSAHEDRON_VERTICES,
};

#[test]
fn icosahedron_has_twenty_faces_over_twelve_vertices() {
    let faces = icosahedron_indices();
    assert_eq!(faces.len(), 60);
    assert!(faces.iter().all(|&v| v < ICOSAHEDRON_VERTICES));
}

#[test]
fn one_triangle_splits_into_four() {
    let (indices, edges) = subdivide_icosphere(&[0, 1, 2], 3);
    assert_eq!(indices, vec![0, 3, 5, 3, 1, 4, 5, 4, 2, 3, 4, 5]);
    assert_eq!(edges, vec![(0, 1), (1, 2), (0, 2)]);
}

#[test]
fn shared_edges_get_one_midpoint() {
    let (indices, edges) = subdivide_icosphere(&[0, 1, 2, 2, 1, 3], 4);
    assert_eq!(edges, vec![(0, 1), (1, 2), (0, 2), (1, 3), (2, 3)]);
    assert_eq!(&indices[12..], &[2, 5, 8, 5, 1, 7, 8, 7, 3, 5, 7, 8]);
}

#[test]
fn icosphere_levels_follow_the_euler_counts() {
    let (indices, vertices, levels) = icosphere_topology(0).expect("level 0");
    assert_eq!((indices.len(), vertices, levels.len()), (60, 12, 0));
    let (indices, vertices, levels) = icosphere_topology(1).expect("level 1");
    assert_eq!((indices.len(), vertices), (240, 42));
    assert_eq!(levels[0].len(), 30);
    let (indices, vertices, levels) = icosphere_topology(2).expect("level 2");
    assert_eq!((indices.len(), vertices), (960, 162));
    assert_eq!(levels[1].len(), 120);
    assert!(indices.iter().all(|&v| v < vertices));
}

#[test]
fn each_level_subdivides_the_previous_one() {
    let (level1, vertices1, levels) = icosphere_topology(1).expect("level 1");
    let (split, edges) = subdivide_icosphere(&icosahedron_indices(), ICOSAHEDRON_VERTICES);
    assert_eq!(level1, split);
    assert_eq!(levels[0], edges);
    assert_eq!(vertices1, ICOSAHEDRON_VERTICES + edges.len() as u32);
    let (level2, vertices2, levels) = icosphere_topology(2).expect("level 2");
    let (split2, edges2) = subdivide_icosphere(&level1, vertices1);
    assert_eq!(level2, split2);
    assert_eq!(levels[1], edges2);
    assert_eq!(vertices2, vertices1 + edges2.len() as u32);
}
