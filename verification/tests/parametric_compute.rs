use grafito_render::parametric_compute::{
    batch_output_offsets, batch_readback_results, curve_layout, parametric_values_capacity,
    parametric_workgroups, redistribute_batch_results, surface_layout, surface_res_within_budget,
    surface_value_index, CurveKind, MAX_CURVE_STEPS, MAX_SURFACE_RES, SURFACE_MODE,
};

#[test]
fn surface_resolution_budget_rejects_over_128_without_clamping() {
    assert!(surface_res_within_budget(1));
    assert!(surface_res_within_budget(MAX_SURFACE_RES));
    assert!(!surface_res_within_budget(MAX_SURFACE_RES + 1));
    assert!(
        !surface_res_within_budget(0),
        "res 0 se normaliza a 1 por el caller"
    );
}

#[test]
fn curve_steps_budget_is_4000() {
    assert_eq!(MAX_CURVE_STEPS, 4000);
    assert_eq!(MAX_SURFACE_RES, 128);
}


#[test]
fn curve_layout_clamps_steps_to_the_budget() {
    let layout = curve_layout(CurveKind::Curve2D, MAX_CURVE_STEPS + 500, MAX_CURVE_STEPS);
    assert_eq!(layout.n, (MAX_CURVE_STEPS + 1) as u32);
    assert_eq!(layout.m, 0);
    assert_eq!(layout.output_count, (MAX_CURVE_STEPS + 1) * 2);

    let layout = curve_layout(CurveKind::Curve3D, MAX_CURVE_STEPS + 500, MAX_CURVE_STEPS);
    assert_eq!(layout.output_count, 12003);

    let layout = curve_layout(CurveKind::Polar, 0, MAX_CURVE_STEPS);
    assert_eq!(layout.n, 2);
    assert_eq!(layout.output_count, 4);
}

#[test]
fn curve_kinds_have_distinct_shader_modes() {
    assert_eq!(CurveKind::Curve2D.mode(), 0);
    assert_eq!(CurveKind::Curve3D.mode(), 1);
    assert_eq!(CurveKind::Polar.mode(), 2);
    assert_eq!(SURFACE_MODE, 3);
    assert_eq!(CurveKind::Curve3D.components(), 3);
    assert_eq!(CurveKind::Polar.components(), 2);
}

#[test]
fn surface_layout_rejects_resolutions_over_the_budget() {
    let layout = surface_layout(0, MAX_SURFACE_RES).expect("res 0 is evaluated as 1");
    assert_eq!((layout.n, layout.m, layout.output_count), (2, 2, 4));
    let layout = surface_layout(MAX_SURFACE_RES, MAX_SURFACE_RES).expect("within budget");
    assert_eq!((layout.n, layout.m, layout.output_count), (129, 129, 16641));
    assert!(surface_layout(MAX_SURFACE_RES + 1, MAX_SURFACE_RES).is_none());
}

#[test]
fn values_buffer_holds_the_finest_surface() {
    assert_eq!(parametric_values_capacity(MAX_CURVE_STEPS, MAX_SURFACE_RES), 16641);
    assert_eq!(parametric_values_capacity(10_000, 16), 30003);
}

#[test]
fn surfaces_and_curves_use_different_workgroup_shapes() {
    assert_eq!(parametric_workgroups(SURFACE_MODE, 129, 129), (9, 9));
    assert_eq!(parametric_workgroups(0, 4001, 0), (63, 1));
    assert_eq!(parametric_workgroups(1, 0, 0), (1, 1));
    assert_eq!(parametric_workgroups(SURFACE_MODE, 16, 17), (1, 2));
}

#[test]
fn surface_values_are_read_row_by_row() {
    assert_eq!(surface_value_index(2, 1, 3), 6);
    assert_eq!(surface_value_index(3, 3, 3), 15);
    assert_eq!(surface_value_index(0, 0, 0), 0);
}

#[test]
fn batch_offsets_are_running_sums_of_outputs() {
    assert_eq!(batch_output_offsets(&[4, 0, 6]), vec![0, 4, 4, 10]);
    assert_eq!(batch_output_offsets(&[]), vec![0]);
}

#[test]
fn batch_readback_is_split_per_curve() {
    let values: Vec<u32> = (0..12).collect();
    let results = batch_readback_results(true, &values, &[4, 0, 6]);
    assert_eq!(
        results,
        vec![Some(vec![0, 1, 2, 3]), Some(vec![]), Some(vec![4, 5, 6, 7, 8, 9])]
    );
    let failed = batch_readback_results(false, &values, &[4, 0, 6]);
    assert_eq!(failed, vec![None, None, None]);
}

#[test]
fn batch_keeps_one_entry_per_input_curve() {
    let per_curve = redistribute_batch_results(&[true, false, true], vec![Some(10), Some(20)]);
    assert_eq!(per_curve, vec![Some(10), None, Some(20)]);

    let short = redistribute_batch_results(&[true, false, true], vec![Some(10)]);
    assert_eq!(short, vec![Some(10), None, None]);

    let failed = redistribute_batch_results(&[true, true], vec![None, Some(7)]);
    assert_eq!(failed, vec![None, Some(7)]);

    let none_prepared: Vec<Option<u8>> = redistribute_batch_results(&[false, false], vec![]);
    assert_eq!(none_prepared, vec![None, None]);
}
