use grafito_render::{gpu_2d_base_owns, GpuObjectKind};
use grafito_render::{
    append_fan_indices, append_rebased_indices, append_ring_strip_indices, quad_indices,
};
use grafito_render::fill_compute::{fill_canvas_pixels, fill_operator_code, MAX_PIXELS};
use grafito_render::{
    document_needs_fill_compute, geometry_scene_complete, object_index_range, reserve_geometry,
    RelationOperator,
};
use grafito_render::domain_coloring_compute::domain_cells_within_budget;
use grafito_render::{
    apply_quadric_axis_permutation, can_append_geometry, complex_grid_resolution,
    fractal_geometry_fits, fractal_geometry_requirements, ordered_visible_2d_objects,
    phase_portrait_capacity_for_density, polygon_geometry_is_within_limit,
    row_major_cell_coordinates, scene_layer_2d, vector_field_3d_sample_count, FractalGrid,
    ObjectKind2D, RenderQuality, SceneEntry2D, SceneLayer2D, MAX_GEOMETRY_INDICES,
    MAX_GEOMETRY_VERTICES, MAX_POLYGON_VERTICES, MAX_PRISM_BASE_VERTICES, TRANSFORMED_CACHE_CAP,
};

#[test]
fn geometry_growth_is_capped_before_indices_overflow() {
    assert!(can_append_geometry(0, 0, 4, 6));
    assert!(!can_append_geometry(MAX_GEOMETRY_VERTICES, 0, 1, 0));
    assert!(!can_append_geometry(u32::MAX as usize, 0, 1, 0));
}

#[test]
fn geometry_index_budget_is_capped_too() {
    assert!(can_append_geometry(0, MAX_GEOMETRY_INDICES - 6, 4, 6));
    assert!(!can_append_geometry(0, MAX_GEOMETRY_INDICES - 5, 4, 6));
    assert!(!can_append_geometry(0, usize::MAX, 0, 1));
    assert!(!can_append_geometry(usize::MAX, 0, 1, 0));
}

#[test]
fn polygon_geometry_has_a_per_object_vertex_limit() {
    assert!(polygon_geometry_is_within_limit(3));
    assert!(polygon_geometry_is_within_limit(MAX_POLYGON_VERTICES));
    assert!(!polygon_geometry_is_within_limit(MAX_POLYGON_VERTICES + 1));
}

#[test]
fn polygons_need_three_vertices() {
    assert!(!polygon_geometry_is_within_limit(2));
    assert!(!polygon_geometry_is_within_limit(0));
}

#[test]
fn row_major_domain_cells_keep_x_as_the_outer_dimension() {
    assert_eq!(row_major_cell_coordinates(1, 4), Some((0, 1)));
    assert_eq!(row_major_cell_coordinates(4, 4), Some((1, 0)));
    assert_eq!(row_major_cell_coordinates(16, 4), None);
}

#[test]
fn row_major_cells_round_trip_to_their_index() {
    for index in 0..25 {
        let (row, column) = row_major_cell_coordinates(index, 5).unwrap();
        assert_eq!(row * 5 + column, index);
    }
    assert_eq!(row_major_cell_coordinates(0, 0), None);
    assert_eq!(row_major_cell_coordinates(0, usize::MAX), None);
}

#[test]
fn r2_v6_density_u32_max_da_none_sin_panic() {
    assert!(phase_portrait_capacity_for_density(u32::MAX).is_none());
    assert_eq!(phase_portrait_capacity_for_density(40), Some(41 * 41));
    assert_eq!(phase_portrait_capacity_for_density(5), Some(36));
}

#[test]
fn r2_v7_perm_corrupta_da_none_sin_panic() {
    assert!(apply_quadric_axis_permutation([5, 0, 0], [1.0, 2.0, 3.0]).is_none());
    assert_eq!(
        apply_quadric_axis_permutation([0, 1, 2], [1.0, 2.0, 3.0]),
        Some([1.0, 2.0, 3.0])
    );
    assert_eq!(
        apply_quadric_axis_permutation([2, 0, 1], [1.0, 2.0, 3.0]),
        Some([2.0, 3.0, 1.0])
    );
}

#[test]
fn repeated_axes_are_not_a_permutation() {
    assert!(apply_quadric_axis_permutation([0, 0, 1], [1, 2, 3]).is_none());
    assert!(apply_quadric_axis_permutation([1, 2, 2], [1, 2, 3]).is_none());
    assert_eq!(apply_quadric_axis_permutation([1, 2, 0], [1, 2, 3]), Some([3, 1, 2]));
}

#[test]
fn presupuestos_render_pineados() {
    assert_eq!(TRANSFORMED_CACHE_CAP, 64);
    assert_eq!(MAX_GEOMETRY_VERTICES, 1_000_000);
    assert_eq!(MAX_GEOMETRY_INDICES, 3_000_000);
    assert_eq!(MAX_PRISM_BASE_VERTICES, 64);
    assert!(domain_cells_within_budget(250_000));
    assert!(!domain_cells_within_budget(250_001));
}

#[test]
fn second_fractal_is_a_partial_scene_when_geometry_capacity_is_exhausted() {
    let fractal = FractalGrid {
        resolution: 400,
        domain_valid: true,
    };
    let (vertices, indices) = fractal_geometry_requirements(&fractal).expect("valid fractal");

    assert!(fractal_geometry_fits(0, 0, &fractal));
    assert!(!fractal_geometry_fits(vertices, indices, &fractal));
}

#[test]
fn fractal_requirements_are_a_quad_per_pixel() {
    let fractal = FractalGrid {
        resolution: 400,
        domain_valid: true,
    };
    assert_eq!(fractal_geometry_requirements(&fractal), Some((640_000, 960_000)));
    let empty = FractalGrid {
        resolution: 0,
        domain_valid: true,
    };
    assert_eq!(fractal_geometry_requirements(&empty), None);
    let invalid = FractalGrid {
        resolution: 10,
        domain_valid: false,
    };
    assert_eq!(fractal_geometry_requirements(&invalid), None);
    assert!(!fractal_geometry_fits(0, 0, &invalid));
    let huge = FractalGrid {
        resolution: usize::MAX,
        domain_valid: true,
    };
    assert_eq!(fractal_geometry_requirements(&huge), None);
}

#[test]
fn complex_grid_resolution_clamps_by_mode_and_quality() {
    assert_eq!(complex_grid_resolution(0, 0, RenderQuality::High), 1);
    assert_eq!(complex_grid_resolution(0, 1000, RenderQuality::High), 128);
    assert_eq!(complex_grid_resolution(0, 100, RenderQuality::Preview), 32);
    assert_eq!(complex_grid_resolution(1, 10, RenderQuality::High), 50);
    assert_eq!(complex_grid_resolution(1, 1000, RenderQuality::High), 300);
    assert_eq!(complex_grid_resolution(1, 1000, RenderQuality::Normal), 200);
    assert_eq!(complex_grid_resolution(2, 1000, RenderQuality::Preview), 64);
    assert_eq!(complex_grid_resolution(2, 350, RenderQuality::High), 300);
}

#[test]
fn vector_field_samples_are_clamped_cubes() {
    assert_eq!(vector_field_3d_sample_count(0), Some(64));
    assert_eq!(vector_field_3d_sample_count(10), Some(1331));
    assert_eq!(vector_field_3d_sample_count(usize::MAX), Some(4096));
}

fn entry(id: u64, kind: ObjectKind2D) -> SceneEntry2D {
    layered_entry(id, 0, kind)
}

fn layered_entry(id: u64, layer: u32, kind: ObjectKind2D) -> SceneEntry2D {
    SceneEntry2D {
        id,
        layer,
        kind,
        visible: true,
        is_3d: false,
    }
}

#[test]
fn visible_2d_objects_are_ordered_by_explicit_layer_then_object_id() {
    let first_curve = entry(1, ObjectKind2D::OtherCurve);
    let marker = entry(2, ObjectKind2D::Point);
    let background = entry(3, ObjectKind2D::Fractal);
    let second_curve = entry(4, ObjectKind2D::OtherCurve);

    let ordered: Vec<u64> = ordered_visible_2d_objects(&[first_curve, marker, background, second_curve])
        .into_iter()
        .map(|e| e.id)
        .collect();

    assert_eq!(ordered[0], 3);
    assert_eq!(&ordered[1..3], &[1, 4]);
    assert_eq!(ordered[3], 2);
}

#[test]
fn hidden_and_3d_objects_are_not_painted() {
    let mut hidden = entry(1, ObjectKind2D::Circle);
    hidden.visible = false;
    let mut solid = entry(2, ObjectKind2D::OtherCurve);
    solid.is_3d = true;
    let text = entry(3, ObjectKind2D::Text);
    let region = entry(9, ObjectKind2D::Polygon);
    let ordered = ordered_visible_2d_objects(&[text, hidden, solid, region]);
    assert_eq!(ordered, vec![region, text]);
    assert!(ordered_visible_2d_objects(&[]).is_empty());
}

#[test]
fn layers_follow_object_kinds() {
    assert_eq!(scene_layer_2d(ObjectKind2D::ComplexGrid), SceneLayer2D::Background);
    assert_eq!(scene_layer_2d(ObjectKind2D::Sector), SceneLayer2D::Region);
    assert_eq!(scene_layer_2d(ObjectKind2D::ScatterPlot), SceneLayer2D::Marker);
    assert_eq!(scene_layer_2d(ObjectKind2D::ComplexIntegral), SceneLayer2D::Annotation);
    assert_eq!(scene_layer_2d(ObjectKind2D::OtherCurve), SceneLayer2D::Curve);
    assert!(SceneLayer2D::Background < SceneLayer2D::Annotation);
    assert_eq!(SceneLayer2D::Marker.rank(), 3);
}

#[test]
fn fill_compute_is_only_needed_when_a_document_has_a_fillable_implicit_curve() {
    assert!(!document_needs_fill_compute(&[]));
    assert!(
        !document_needs_fill_compute(&[RelationOperator::Eq]),
        "Eq es solo contorno — nunca necesita el pipeline de fill"
    );
    assert!(document_needs_fill_compute(&[RelationOperator::Less]));
    assert!(document_needs_fill_compute(&[RelationOperator::GreaterEq]));
}

#[test]
fn reserving_geometry_returns_the_first_new_vertex() {
    let mut vertices = vec![[0.0f32; 7]; 4];
    let mut indices = vec![0u32; 6];
    assert_eq!(reserve_geometry(&mut vertices, &mut indices, 4, 6), Some(4));
    assert_eq!(vertices.len(), 4);
    assert_eq!(reserve_geometry(&mut vertices, &mut indices, MAX_GEOMETRY_VERTICES, 0), None);
}

#[test]
fn fill_operators_and_canvas_budget() {
    assert_eq!(fill_operator_code(RelationOperator::Less), Some(0));
    assert_eq!(fill_operator_code(RelationOperator::GreaterEq), Some(3));
    assert_eq!(fill_operator_code(RelationOperator::Eq), None);
    assert_eq!(fill_canvas_pixels(800, 600), Some(480_000));
    assert_eq!(fill_canvas_pixels(4096, 4096), Some(MAX_PIXELS));
    assert_eq!(fill_canvas_pixels(4097, 4096), None);
    assert_eq!(fill_canvas_pixels(0, 600), None);
    assert_eq!(fill_canvas_pixels(u32::MAX, u32::MAX), None);
}

#[test]
fn object_ranges_cover_only_added_indices() {
    assert_eq!(object_index_range(6, 12), Some(6..12));
    assert_eq!(object_index_range(6, 6), None);
    assert_eq!(object_index_range(0, u32::MAX as usize + 1), None);
}

#[test]
fn scene_is_complete_while_a_quad_still_fits() {
    assert!(geometry_scene_complete(true, 0, 0));
    assert!(!geometry_scene_complete(false, 0, 0));
    assert!(!geometry_scene_complete(true, MAX_GEOMETRY_VERTICES - 3, 0));
    assert!(geometry_scene_complete(true, MAX_GEOMETRY_VERTICES - 4, MAX_GEOMETRY_INDICES - 6));
}

#[test]
fn quads_are_two_triangles_over_four_corners() {
    assert_eq!(quad_indices(10), [10, 11, 12, 10, 12, 13]);
}

#[test]
fn circle_fill_is_a_fan_around_its_center() {
    let mut indices = vec![99u32];
    append_fan_indices(&mut indices, 5, 3);
    assert_eq!(indices, vec![99, 5, 6, 7, 5, 7, 8, 5, 8, 9]);
    let mut empty = Vec::new();
    append_fan_indices(&mut empty, 0, 0);
    assert!(empty.is_empty());
}

#[test]
fn circle_stroke_is_a_strip_over_vertex_pairs() {
    let mut indices = Vec::new();
    append_ring_strip_indices(&mut indices, 0, 2);
    assert_eq!(indices, vec![0, 2, 1, 1, 2, 3, 2, 4, 3, 3, 4, 5]);
    let mut shifted = Vec::new();
    append_ring_strip_indices(&mut shifted, 10, 1);
    assert_eq!(shifted, vec![10, 12, 11, 11, 12, 13]);
}

#[test]
fn tessellated_indices_are_moved_past_existing_vertices() {
    let mut indices = vec![7u32];
    assert!(append_rebased_indices(&mut indices, 10, &[0, 1, 2, 2, 1, 3]));
    assert_eq!(indices, vec![7, 10, 11, 12, 12, 11, 13]);

    let mut near_cap = Vec::new();
    assert!(!append_rebased_indices(&mut near_cap, u32::MAX - 1, &[0, 1, 2, 0]));
    assert_eq!(near_cap, vec![u32::MAX - 1, u32::MAX]);
}

#[test]
fn document_layer_beats_type_layer_in_paint_order() {
    let curve = 1u64;
    let marker = 2u64;
    let ordered: Vec<u64> = ordered_visible_2d_objects(&[
        layered_entry(curve, 1, ObjectKind2D::OtherCurve),
        layered_entry(marker, 0, ObjectKind2D::Point),
    ])
    .iter()
    .map(|e| e.id)
    .collect();
    assert_eq!(ordered, vec![marker, curve]);
    let ordered: Vec<u64> = ordered_visible_2d_objects(&[
        layered_entry(curve, 0, ObjectKind2D::OtherCurve),
        layered_entry(marker, 0, ObjectKind2D::Point),
    ])
    .iter()
    .map(|e| e.id)
    .collect();
    assert_eq!(ordered, vec![curve, marker]);
}

#[test]
fn gpu_2d_pass_owns_plots_and_conformal_images_of_curves() {
    assert!(gpu_2d_base_owns(GpuObjectKind::Function, false, None));
    assert!(gpu_2d_base_owns(GpuObjectKind::Transformed, false, None));
    assert!(!gpu_2d_base_owns(GpuObjectKind::Point, true, None));
    assert!(gpu_2d_base_owns(GpuObjectKind::ComplexMapping, true, Some(GpuObjectKind::Circle)));
    assert!(!gpu_2d_base_owns(GpuObjectKind::ComplexMapping, false, Some(GpuObjectKind::Circle)));
    assert!(!gpu_2d_base_owns(GpuObjectKind::ComplexMapping, true, Some(GpuObjectKind::Other)));
    assert!(!gpu_2d_base_owns(GpuObjectKind::ComplexMapping, true, None));
}
