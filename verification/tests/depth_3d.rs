use grafito_render::depth_3d::{begin_world_mesh, world_mesh_step, WorldMeshStep};
use grafito_render::depth_3d::{generic_polytope_cache_slot, RegularPolytopeFamily};
use grafito_render::depth_3d::{
    generic_polytope_indices_are_valid, mesh_part_has_room, once_lock_slots,
    polychoron_cache_slot, polychoron_face_triangle_count, polychoron_indices_are_valid,
    polychoron_topology_usage, reserve_mesh_part, reserve_world_mesh_usage, rollback_world_mesh,
    solid_stream_triangles, surface_output_fits, surface_work_units, validate_part,
    wire_object_fits, world_mesh_checkpoint, world_mesh_is_output_exhausted, WorldMesh,
    world_mesh_output_usage, world_mesh_output_usage_for_quality, world_mesh_scene_fits_limits,
    world_mesh_usage_was_appended, PolytopeTopologyIndices, RegularPolychoron, SolidFill,
    WorldMeshCheckpoint, WorldMeshObject, WorldMeshOutputBudget, WorldMeshSceneObject,
    WorldMeshStreamUsage, WorldMeshWorkBudget, MAX_WORLD_MESH_ATTRACTORS,
    MAX_WORLD_MESH_INDICES, MAX_WORLD_MESH_VERTICES, MAX_WORLD_MESH_WORK_UNITS,
};
use grafito_render::RenderQuality;
use std::sync::OnceLock;

fn checkpoint(ov: usize, oi: usize, wv: usize, wi: usize) -> WorldMeshCheckpoint {
    WorldMeshCheckpoint {
        opaque_vertices: ov,
        opaque_indices: oi,
        wire_vertices: wv,
        wire_indices: wi,
    }
}

fn mesh(ov: usize, oi: usize, wv: usize, wi: usize) -> WorldMesh<u8> {
    let mut mesh = WorldMesh::new();
    mesh.opaque_vertices = vec![0; ov];
    mesh.opaque_indices = vec![0; oi];
    mesh.wire_vertices = vec![0; wv];
    mesh.wire_indices = vec![0; wi];
    mesh
}

fn visible(object: WorldMeshObject) -> WorldMeshSceneObject {
    WorldMeshSceneObject {
        visible: true,
        renderable: true,
        object,
    }
}

#[test]
fn stream_usage_counts_triangles_and_segment_quads() {
    let usage = WorldMeshStreamUsage::from_primitives(2, 3, 5).unwrap();
    let start = checkpoint(0, 0, 0, 0);
    assert!(world_mesh_usage_was_appended(&mesh(6, 6, 29, 39), start, usage));
    assert!(!world_mesh_usage_was_appended(&mesh(6, 6, 29, 40), start, usage));
    assert!(WorldMeshStreamUsage::from_primitives(usize::MAX, 0, 0).is_none());
    assert!(WorldMeshStreamUsage::from_primitives(0, 0, usize::MAX / 5).is_none());
}

#[test]
fn output_budget_fits_then_saturates_at_the_caps() {
    let mut budget = WorldMeshOutputBudget::default();
    let segments = WorldMeshStreamUsage::from_primitives(0, 0, MAX_WORLD_MESH_VERTICES / 4).unwrap();
    assert!(budget.fits(segments));
    budget.consume(segments);
    let one_more = WorldMeshStreamUsage::from_primitives(0, 0, 1).unwrap();
    assert!(!budget.fits(one_more));
    budget.consume(one_more);
    assert!(!budget.fits(one_more));
    let opaque = WorldMeshStreamUsage::from_primitives(1, 0, 0).unwrap();
    assert!(budget.fits(opaque));
}

#[test]
fn work_budget_reserves_only_what_is_left() {
    let mut work = WorldMeshWorkBudget::new();
    assert!(work.reserve(MAX_WORLD_MESH_WORK_UNITS - 1));
    assert!(!work.reserve(2));
    assert!(work.reserve(1));
    assert!(!work.reserve(1));
    assert!(work.reserve(0));
}

#[test]
fn surface_work_is_the_square_of_the_sample_side() {
    assert_eq!(surface_work_units(128), Some(129 * 129));
    assert_eq!(surface_work_units(0), Some(1));
    assert_eq!(surface_work_units(usize::MAX), None);
    assert_eq!(surface_work_units(usize::MAX / 2), None);
}

#[test]
fn solid_triangles_follow_their_fill() {
    assert_eq!(solid_stream_triangles(7, Some(SolidFill::Opaque)), (7, 0));
    assert_eq!(solid_stream_triangles(7, Some(SolidFill::Translucent)), (0, 7));
    assert_eq!(solid_stream_triangles(7, None), (0, 0));
}

#[test]
fn mesh_parts_have_room_up_to_their_caps() {
    let none: [u8; 0] = [];
    assert!(mesh_part_has_room(&none, &[], MAX_WORLD_MESH_VERTICES, MAX_WORLD_MESH_INDICES));
    assert!(!mesh_part_has_room(&[0u8], &[], MAX_WORLD_MESH_VERTICES, 0));
    assert!(!mesh_part_has_room(&none, &[0], 0, MAX_WORLD_MESH_INDICES));
    assert!(!mesh_part_has_room(&none, &[], usize::MAX, 0));
}

#[test]
fn reserving_a_mesh_part_returns_the_first_new_vertex() {
    let mut vertices = vec![7u8; 5];
    let mut indices = vec![0u32; 3];
    assert_eq!(reserve_mesh_part(&mut vertices, &mut indices, 3, 3), Some(5));
    assert_eq!(vertices, vec![7u8; 5]);
    assert_eq!(indices.len(), 3);
    assert_eq!(reserve_mesh_part(&mut vertices, &mut indices, MAX_WORLD_MESH_VERTICES, 0), None);
}

#[test]
fn rollback_undoes_a_partial_append() {
    let mut m = mesh(3, 3, 4, 6);
    let before = world_mesh_checkpoint(&m);
    assert_eq!(before, checkpoint(3, 3, 4, 6));
    m.opaque_vertices.extend([1, 2, 3]);
    m.wire_indices.extend([9; 6]);
    rollback_world_mesh(&mut m, before);
    assert_eq!(world_mesh_checkpoint(&m), before);
    assert_eq!(m.opaque_vertices, vec![0; 3]);
    assert_eq!(m.wire_indices, vec![0; 6]);
    // A checkpoint beyond the current length leaves the stream as it is.
    rollback_world_mesh(&mut m, checkpoint(10, 10, 10, 10));
    assert_eq!(world_mesh_checkpoint(&m), before);
    assert!(m.is_complete());
}

#[test]
fn world_mesh_keeps_world_coordinates_in_the_opaque_stream() {
    let vertex = ([1.0f32, -2.0, 3.5], [0.1f32, 0.2, 0.3, 1.0]);
    let mut mesh: WorldMesh<([f32; 3], [f32; 4])> = WorldMesh::new();
    mesh.opaque_vertices = vec![vertex];
    mesh.opaque_indices = vec![0, 0, 0];
    assert_eq!(mesh.opaque_vertices[0].0, [1.0, -2.0, 3.5]);
    assert_eq!(mesh.opaque_indices, vec![0, 0, 0]);
    assert!(mesh.validate(true, true).is_ok());
}

#[test]
fn validation_reports_the_first_broken_rule() {
    assert_eq!(
        validate_part(&[0u8; 3], true, &[0, 1]),
        Err("3D mesh indices must form triangles")
    );
    assert_eq!(
        validate_part(&[0u8; 3], false, &[0, 1, 2]),
        Err("3D mesh contains non-finite vertex data")
    );
    assert_eq!(
        validate_part(&[0u8; 3], true, &[0, 1, 3]),
        Err("3D mesh index is outside its vertex stream")
    );
    assert_eq!(validate_part(&[0u8; 3], true, &[0, 1, 2]), Ok(()));
    let mut broken = mesh(3, 3, 0, 0);
    broken.wire_indices = vec![0, 0, 0];
    assert!(broken.validate(true, true).is_err());
}

#[test]
fn exhausted_mesh_has_no_room_for_any_primitive() {
    assert!(!world_mesh_is_output_exhausted(&mesh(0, 0, 0, 0)));
    let full = mesh(
        MAX_WORLD_MESH_VERTICES,
        MAX_WORLD_MESH_INDICES,
        MAX_WORLD_MESH_VERTICES - 3,
        MAX_WORLD_MESH_INDICES,
    );
    assert!(world_mesh_is_output_exhausted(&full));
    let wire_room = mesh(MAX_WORLD_MESH_VERTICES, MAX_WORLD_MESH_INDICES, 0, 0);
    assert!(!world_mesh_is_output_exhausted(&wire_room));
}

#[test]
fn wire_objects_and_surfaces_check_their_streams() {
    let empty = mesh(0, 0, 0, 0);
    assert!(wire_object_fits(&empty, MAX_WORLD_MESH_VERTICES / 4));
    assert!(!wire_object_fits(&empty, MAX_WORLD_MESH_VERTICES / 4 + 1));
    assert!(!wire_object_fits(&empty, usize::MAX));
    assert!(surface_output_fits(&empty, true, false, 128));
    assert!(surface_output_fits(&empty, true, true, 128));
    assert!(!surface_output_fits(&empty, false, false, 300));
    let opaque_full = mesh(MAX_WORLD_MESH_VERTICES, 0, 0, 0);
    assert!(!surface_output_fits(&opaque_full, true, false, 2));
    assert!(surface_output_fits(&opaque_full, true, true, 2));
    assert!(surface_output_fits(&opaque_full, false, false, 2));
    assert!(!surface_output_fits(&empty, true, true, usize::MAX));
}

#[test]
fn room_for_a_usage_checks_all_four_streams() {
    let usage = WorldMeshStreamUsage::from_primitives(1, 0, 1).unwrap();
    let mut roomy = mesh(0, 0, 0, 0);
    assert!(reserve_world_mesh_usage(&mut roomy, usage));
    let mut tight = mesh(0, 0, 0, MAX_WORLD_MESH_INDICES - 5);
    assert!(!reserve_world_mesh_usage(&mut tight, usage));
    assert_eq!(tight.wire_indices.len(), MAX_WORLD_MESH_INDICES - 5);
}

#[test]
fn polytope_indices_must_address_projected_vertices() {
    let square = PolytopeTopologyIndices {
        vertex_count: 4,
        edges: vec![[0, 1], [1, 2], [2, 3], [3, 0]],
        faces: vec![vec![0, 1, 2, 3]],
    };
    assert!(polychoron_indices_are_valid(&square, 4));
    assert!(!polychoron_indices_are_valid(&square, 3));
    assert!(generic_polytope_indices_are_valid(&square, 4));
    let looped = PolytopeTopologyIndices {
        vertex_count: 2,
        edges: vec![[1, 1]],
        faces: vec![],
    };
    assert!(!generic_polytope_indices_are_valid(&looped, 2));
    let thin_face = PolytopeTopologyIndices {
        vertex_count: 3,
        edges: vec![[0, 1]],
        faces: vec![vec![0, 1]],
    };
    assert!(!polychoron_indices_are_valid(&thin_face, 3));
    assert!(generic_polytope_indices_are_valid(&thin_face, 3));
    let out_of_range_face = PolytopeTopologyIndices {
        vertex_count: 3,
        edges: vec![],
        faces: vec![vec![0, 1, 3]],
    };
    assert!(!polychoron_indices_are_valid(&out_of_range_face, 3));
}

#[test]
fn polychoron_usage_fans_faces_unless_previewing() {
    let topology = PolytopeTopologyIndices {
        vertex_count: 5,
        edges: vec![[0, 1], [1, 2]],
        faces: vec![vec![0, 1, 2, 3], vec![0, 1, 2]],
    };
    let usage = polychoron_topology_usage(&topology, Some(SolidFill::Opaque), RenderQuality::Normal)
        .unwrap();
    // Three triangles (two from the square, one from the triangle) and two segments.
    let expected = WorldMeshStreamUsage::from_primitives(3, 0, 2).unwrap();
    let start = checkpoint(0, 0, 0, 0);
    assert!(world_mesh_usage_was_appended(&mesh(9, 9, 8, 12), start, usage));
    assert!(world_mesh_usage_was_appended(&mesh(9, 9, 8, 12), start, expected));
    let preview =
        polychoron_topology_usage(&topology, Some(SolidFill::Opaque), RenderQuality::Preview).unwrap();
    assert!(world_mesh_usage_was_appended(&mesh(0, 0, 8, 12), start, preview));
    let degenerate = PolytopeTopologyIndices {
        vertex_count: 1,
        edges: vec![],
        faces: vec![vec![0]],
    };
    assert!(polychoron_topology_usage(&degenerate, Some(SolidFill::Opaque), RenderQuality::High).is_none());
    assert!(polychoron_topology_usage(&degenerate, None, RenderQuality::High).is_some());
}

#[test]
fn polychoron_counts_and_cache_slots() {
    assert_eq!(polychoron_face_triangle_count(RegularPolychoron::Tesseract), Some(48));
    assert_eq!(polychoron_face_triangle_count(RegularPolychoron::OneTwentyCell), Some(2160));
    assert_eq!(polychoron_face_triangle_count(RegularPolychoron::Pentachoron), Some(10));
    assert_eq!(polychoron_cache_slot(RegularPolychoron::Pentachoron), 0);
    assert_eq!(polychoron_cache_slot(RegularPolychoron::SixHundredCell), 5);
}

#[test]
fn object_usage_routes_translucent_solids_to_the_wire_stream() {
    let start = checkpoint(0, 0, 0, 0);
    let cube = world_mesh_output_usage(&WorldMeshObject::Cube {
        fill: Some(SolidFill::Opaque),
    })
    .unwrap();
    assert!(world_mesh_usage_was_appended(&mesh(36, 36, 48, 72), start, cube));
    let glass = world_mesh_output_usage(&WorldMeshObject::Cube {
        fill: Some(SolidFill::Translucent),
    })
    .unwrap();
    assert!(world_mesh_usage_was_appended(&mesh(0, 0, 84, 108), start, glass));
    let surface = world_mesh_output_usage(&WorldMeshObject::Surface {
        mesh_res: 1000,
        solid: false,
        fill: SolidFill::Opaque,
    })
    .unwrap();
    // 128² cells, two wire segments each.
    assert!(world_mesh_usage_was_appended(
        &mesh(0, 0, 8 * 16_384, 12 * 16_384),
        start,
        surface
    ));
    assert!(world_mesh_output_usage(&WorldMeshObject::Other).is_none());
    assert!(world_mesh_output_usage(&WorldMeshObject::PolytopeND { edges: None }).is_none());
    let tesseract_preview = world_mesh_output_usage_for_quality(
        &WorldMeshObject::Polychoron {
            kind: RegularPolychoron::Tesseract,
            fill: Some(SolidFill::Opaque),
        },
        RenderQuality::Preview,
    )
    .unwrap();
    assert!(world_mesh_usage_was_appended(&mesh(0, 0, 128, 192), start, tesseract_preview));
    let attractor = world_mesh_output_usage(&WorldMeshObject::Attractor { steps: 1_000_000 }).unwrap();
    assert!(world_mesh_usage_was_appended(&mesh(0, 0, 64_000, 96_000), start, attractor));
}

#[test]
fn scene_admission_caps_attractors_work_and_streams() {
    let attractor = visible(WorldMeshObject::Attractor { steps: 10 });
    let eight = vec![attractor; MAX_WORLD_MESH_ATTRACTORS];
    assert!(world_mesh_scene_fits_limits(&eight, RenderQuality::Normal));
    let nine = vec![attractor; MAX_WORLD_MESH_ATTRACTORS + 1];
    assert!(!world_mesh_scene_fits_limits(&nine, RenderQuality::Normal));

    // Each curve takes 4001 work units: sixteen fit, seventeen do not.
    let curve = visible(WorldMeshObject::ParametricCurve);
    assert!(world_mesh_scene_fits_limits(&vec![curve; 16], RenderQuality::Normal));
    assert!(!world_mesh_scene_fits_limits(&vec![curve; 17], RenderQuality::Normal));

    let mut hidden = curve;
    hidden.visible = false;
    let mut scene = vec![curve; 16];
    scene.push(hidden);
    assert!(world_mesh_scene_fits_limits(&scene, RenderQuality::Normal));

    let mut broken = visible(WorldMeshObject::Tetrahedron { fill: None });
    broken.renderable = false;
    assert!(!world_mesh_scene_fits_limits(&[broken], RenderQuality::Normal));

    // A sphere emits 96 segments (384 wire vertices); 1366 spheres exceed the stream.
    let sphere = visible(WorldMeshObject::Sphere { fill: None });
    assert!(world_mesh_scene_fits_limits(&vec![sphere; 1365], RenderQuality::Normal));
    assert!(!world_mesh_scene_fits_limits(&vec![sphere; 1366], RenderQuality::Normal));
    assert!(world_mesh_scene_fits_limits(&[], RenderQuality::Normal));
}

#[test]
fn once_lock_slots_are_empty_cells() {
    let slots: Vec<OnceLock<u32>> = once_lock_slots(6).unwrap();
    assert_eq!(slots.len(), 6);
    assert!(slots.iter().all(|slot| slot.get().is_none()));
}

#[test]
fn generic_topology_slots_are_per_family_and_dimension() {
    assert_eq!(generic_polytope_cache_slot(RegularPolytopeFamily::Simplex, 4, 4, 8), Some(0));
    assert_eq!(generic_polytope_cache_slot(RegularPolytopeFamily::Hypercube, 5, 4, 8), Some(6));
    assert_eq!(generic_polytope_cache_slot(RegularPolytopeFamily::CrossPolytope, 8, 4, 8), Some(14));
    assert_eq!(generic_polytope_cache_slot(RegularPolytopeFamily::Simplex, 3, 4, 8), None);
    assert_eq!(generic_polytope_cache_slot(RegularPolytopeFamily::Simplex, 9, 4, 8), None);
}

fn empty_lengths() -> WorldMeshCheckpoint {
    WorldMeshCheckpoint { opaque_vertices: 0, opaque_indices: 0, wire_vertices: 0, wire_indices: 0 }
}


#[test]
fn world_mesh_begins_empty_and_incomplete_only_for_an_oversized_scene() {
    let mesh: WorldMesh<u8> = begin_world_mesh(true, true);
    assert!(mesh.is_complete() && mesh.opaque_vertices.is_empty() && mesh.wire_indices.is_empty());
    let mesh: WorldMesh<u8> = begin_world_mesh(true, false);
    assert!(!mesh.is_complete());
    let mesh: WorldMesh<u8> = begin_world_mesh(false, false);
    assert!(mesh.is_complete());
}

#[test]
fn hidden_and_undrawable_objects_are_skipped() {
    let mut attractors = 0;
    let mut work = WorldMeshWorkBudget::new();
    let hidden = WorldMeshSceneObject { visible: false, renderable: true, object: WorldMeshObject::Segment };
    assert_eq!(world_mesh_step(empty_lengths(), hidden, &mut attractors, &mut work), WorldMeshStep::Skip);
    assert_eq!(
        world_mesh_step(empty_lengths(), visible(WorldMeshObject::Other), &mut attractors, &mut work),
        WorldMeshStep::Skip
    );
    assert_eq!(
        world_mesh_step(empty_lengths(), visible(WorldMeshObject::Segment), &mut attractors, &mut work),
        WorldMeshStep::Append
    );
}

#[test]
fn a_full_mesh_stops_the_scene() {
    let full = WorldMeshCheckpoint {
        opaque_vertices: MAX_WORLD_MESH_VERTICES,
        opaque_indices: MAX_WORLD_MESH_INDICES,
        wire_vertices: MAX_WORLD_MESH_VERTICES,
        wire_indices: MAX_WORLD_MESH_INDICES,
    };
    let mut attractors = 0;
    let mut work = WorldMeshWorkBudget::new();
    assert_eq!(
        world_mesh_step(full, visible(WorldMeshObject::Segment), &mut attractors, &mut work),
        WorldMeshStep::StopIncomplete
    );
}

#[test]
fn curves_charge_their_work_units() {
    let mut attractors = 0;
    let mut work = WorldMeshWorkBudget::new();
    assert_eq!(
        world_mesh_step(empty_lengths(), visible(WorldMeshObject::ParametricCurve), &mut attractors, &mut work),
        WorldMeshStep::Append
    );
    assert!(work.reserve(MAX_WORLD_MESH_WORK_UNITS - 4001));
    assert!(!work.reserve(1));
    assert_eq!(
        world_mesh_step(empty_lengths(), visible(WorldMeshObject::ParametricCurve), &mut attractors, &mut work),
        WorldMeshStep::SkipIncomplete
    );
}

#[test]
fn attractors_past_the_cap_are_left_out() {
    let mut attractors = MAX_WORLD_MESH_ATTRACTORS - 1;
    let mut work = WorldMeshWorkBudget::new();
    let attractor = visible(WorldMeshObject::Attractor { steps: 100 });
    assert_eq!(world_mesh_step(empty_lengths(), attractor, &mut attractors, &mut work), WorldMeshStep::Append);
    assert_eq!(attractors, MAX_WORLD_MESH_ATTRACTORS);
    assert_eq!(
        world_mesh_step(empty_lengths(), attractor, &mut attractors, &mut work),
        WorldMeshStep::SkipIncomplete
    );
    assert_eq!(attractors, MAX_WORLD_MESH_ATTRACTORS);
}
