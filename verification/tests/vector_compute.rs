use grafito_render::vector_compute::{
    vector_grid_fits, vector_grid_size, vector_sample_base, vector_values_len, vector_workgroups,
    MAX_VECTOR_GRID, MIN_VECTOR_GRID,
};

#[test]
fn vector_density_is_clamped_to_the_grid_range() {
    assert_eq!(vector_grid_size(1), MIN_VECTOR_GRID);
    assert_eq!(vector_grid_size(64), 64);
    assert_eq!(vector_grid_size(1000), MAX_VECTOR_GRID);
}

#[test]
fn vector_values_hold_four_per_sample() {
    assert_eq!(vector_values_len(128), 66564);
    assert_eq!(vector_values_len(0), 4);
}

#[test]
fn vector_grids_larger_than_the_pipeline_fall_back() {
    assert!(vector_grid_fits(128, 128));
    assert!(!vector_grid_fits(129, 128));
}

#[test]
fn vector_dispatch_covers_every_sample() {
    assert_eq!(vector_workgroups(128), 9);
    assert_eq!(vector_workgroups(15), 1);
    assert_eq!(vector_workgroups(16), 2);
}

#[test]
fn vector_samples_are_laid_out_row_by_row() {
    assert_eq!(vector_sample_base(2, 1, 4), 28);
    assert_eq!(vector_sample_base(4, 4, 4), 96);
    assert_eq!(vector_sample_base(0, 0, 4), 0);
}
