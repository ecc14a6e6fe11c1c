use grafito_render::domain_coloring_compute::{
    domain_cells_within_budget, domain_coloring_bands, domain_evaluation_plan,
    domain_program_is_dispatchable, domain_rows_dispatch_shape, gpu_program_is_supported,
    DomainDispatchShape, DomainEvaluationPlan, DOMAIN_COLORING_WORKGROUP_SIZE, MAX_CELLS,
};
use grafito_render::dispatch::workgroup_count;

#[test]
fn cpu_only_complex_opcodes_are_rejected_before_domain_dispatch() {
    assert!(gpu_program_is_supported(&[1, 2, 3, 105]));
    assert!(!gpu_program_is_supported(&[28]));
    assert!(!gpu_program_is_supported(&[100]));
}

#[test]
fn domain_programs_deeper_than_the_wgsl_stack_are_rejected_before_dispatch() {
    let mut code = vec![2; 33];
    code.extend(vec![3; 32]);

    assert!(!gpu_program_is_supported(&code));
}

#[test]
fn domain_cell_budget_rejects_over_250k_without_clamping() {
    assert!(domain_cells_within_budget(250_000));
    assert!(domain_cells_within_budget(0));
    assert!(!domain_cells_within_budget(250_001));
}

#[test]
fn domain_bands_tile_over_budget_grids_without_clamping() {
    let bands = domain_coloring_bands(600).expect("res 600 debe tilar");
    assert!(bands.len() > 1);
    assert_eq!(bands.iter().map(|(_, count)| count).sum::<usize>(), 600);
    assert!(bands.iter().all(|(_, count)| 600 * count <= MAX_CELLS));
    assert_eq!(domain_coloring_bands(500), Some(vec![(0, 500)]));
    assert_eq!(domain_coloring_bands(1), Some(vec![(0, 1)]));
    assert_eq!(
        domain_coloring_bands(0),
        Some(Vec::new()),
        "res 0 no tiene filas que tilar"
    );
    assert_eq!(domain_coloring_bands(MAX_CELLS + 1), None);
}

#[test]
fn domain_workgroup_size_matches_the_wgsl_annotation() {
    assert_eq!(DOMAIN_COLORING_WORKGROUP_SIZE, 64);
}

#[test]
fn domain_bands_are_contiguous_and_end_at_the_last_row() {
    let bands = domain_coloring_bands(600).unwrap();
    // 250_000 / 600 = 416 rows per band.
    assert_eq!(bands, vec![(0, 416), (416, 184)]);
    let bands = domain_coloring_bands(MAX_CELLS).unwrap();
    assert_eq!(bands.len(), MAX_CELLS);
    assert_eq!(bands[0], (0, 1));
    assert_eq!(bands[MAX_CELLS - 1], (MAX_CELLS - 1, 1));
}

#[test]
fn domain_plan_picks_single_dispatch_or_bands() {
    assert!(matches!(domain_evaluation_plan(0), Some(DomainEvaluationPlan::Empty)));
    assert!(matches!(
        domain_evaluation_plan(500),
        Some(DomainEvaluationPlan::Single { cells: 250_000 })
    ));
    match domain_evaluation_plan(600) {
        Some(DomainEvaluationPlan::Bands(bands)) => assert_eq!(bands.len(), 2),
        other => panic!("expected bands, got {:?}", other),
    }
    assert!(domain_evaluation_plan(MAX_CELLS + 1).is_none());
    assert!(domain_evaluation_plan(usize::MAX).is_none());
}

#[test]
fn domain_rows_shape_respects_the_cell_budget() {
    assert_eq!(
        domain_rows_dispatch_shape(600, 416, 7),
        Some(DomainDispatchShape {
            cells: 249_600,
            grid_size: 249_600,
            grid_res: 600,
            code_len: 7,
        })
    );
    assert_eq!(domain_rows_dispatch_shape(600, 417, 7), None);
    assert_eq!(domain_rows_dispatch_shape(600, 0, 7), None);
    assert_eq!(domain_rows_dispatch_shape(usize::MAX, 2, 7), None);
}

#[test]
fn domain_interpreter_has_its_own_opcode_set() {
    // Min (16) and Floor (18) run in the vertex interpreter but not here.
    assert!(!gpu_program_is_supported(&[1, 2, 16]));
    assert!(!gpu_program_is_supported(&[1, 18]));
    assert!(gpu_program_is_supported(&[1, 31]));
    assert!(domain_program_is_dispatchable(&[1, 2, 3]));
    assert!(!domain_program_is_dispatchable(&vec![0u32; 4097]));
}

#[test]
fn workgroups_cover_every_cell() {
    assert_eq!(workgroup_count(0, DOMAIN_COLORING_WORKGROUP_SIZE), 1);
    assert_eq!(workgroup_count(1, DOMAIN_COLORING_WORKGROUP_SIZE), 1);
    assert_eq!(workgroup_count(64, DOMAIN_COLORING_WORKGROUP_SIZE), 1);
    assert_eq!(workgroup_count(65, DOMAIN_COLORING_WORKGROUP_SIZE), 2);
    assert_eq!(workgroup_count(250_000, DOMAIN_COLORING_WORKGROUP_SIZE), 3907);
    assert_eq!(workgroup_count(u32::MAX, 1), u32::MAX);
}
