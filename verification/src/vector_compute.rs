//! Grid layout of the GPU pipeline that samples a 2D vector field.
//!
//! A field of grid size `g` is sampled at `(g + 1)²` points; each point
//! stores four values `(x, y, u, v)`, row by row with `y` outer, in one
//! storage buffer sized for the largest grid the pipeline accepts.

use vstd::prelude::*;
use crate::dispatch::{workgroup_count, workgroups_for};

verus! {

/// Coarsest grid a vector field is sampled on.
pub const MIN_VECTOR_GRID: usize = 5;

/// Finest grid a vector field is sampled on.
pub const MAX_VECTOR_GRID: usize = 128;

/// Values stored per sample: `x`, `y`, `u`, `v`.
pub const VECTOR_SAMPLE_VALUES: usize = 4;

/// Threads along each axis of one workgroup of the vector-field shader.
pub const VECTOR_WORKGROUP_SIDE: u32 = 16;

/// Values a grid of size `g` produces: `4 (g + 1)²`.
pub open spec fn vector_values(grid: int) -> int {
    4 * ((grid + 1) * (grid + 1))
}

/// Index of the first value of sample `(i, j)` (column `i`, row `j`).
pub open spec fn vector_sample_offset(i: int, j: int, grid: int) -> int {
    4 * (j * (grid + 1) + i)
}

/// The grid size of a field of the given density: the density clamped to
/// `MIN_VECTOR_GRID..=MAX_VECTOR_GRID`.
pub fn vector_grid_size(density: usize) -> (grid: usize)
    ensures
        grid == (if density < MIN_VECTOR_GRID {
            MIN_VECTOR_GRID
        } else if density > MAX_VECTOR_GRID {
            MAX_VECTOR_GRID
        } else {
            density
        }),
        MIN_VECTOR_GRID <= grid <= MAX_VECTOR_GRID,
{
    if density < MIN_VECTOR_GRID {
        MIN_VECTOR_GRID
    } else if density > MAX_VECTOR_GRID {
        MAX_VECTOR_GRID
    } else {
        density
    }
}

/// Values a grid of size `grid` writes, which is also the capacity of the
/// storage buffer of a pipeline built for `grid` as its largest grid.
pub fn vector_values_len(grid: usize) -> (len: usize)
    requires
        vector_values(grid as int) <= usize::MAX,
    ensures
        len == vector_values(grid as int),
{
    assert(grid + 1 <= vector_values(grid as int)) by (nonlinear_arith)
        requires
            grid >= 0,
    ;
    let side: usize = grid + 1;
    assert(side * side <= vector_values(grid as int)) by (nonlinear_arith)
        requires
            side == grid + 1,
    ;
    let cells: usize = side * side;
    cells * VECTOR_SAMPLE_VALUES
}

/// A pipeline built for grids up to `max_grid` evaluates a grid of size
/// `grid` only when it is not larger; a larger grid is left to the CPU.
pub fn vector_grid_fits(grid: usize, max_grid: usize) -> (fits: bool)
    ensures
        fits == (grid <= max_grid),
{
    grid <= max_grid
}

/// Workgroups along each axis of the dispatch for a grid of size `grid`.
pub fn vector_workgroups(grid: u32) -> (groups: u32)
    requires
        grid < u32::MAX,
    ensures
        groups == workgroups_for(grid + 1, VECTOR_WORKGROUP_SIDE as int),
        groups * VECTOR_WORKGROUP_SIDE >= grid + 1,
{
    workgroup_count(grid + 1, VECTOR_WORKGROUP_SIDE)
}

/// Index of the first of the four values of sample `(i, j)`.
pub fn vector_sample_base(i: usize, j: usize, grid: usize) -> (base: usize)
    requires
        i <= grid,
        j <= grid,
        vector_values(grid as int) <= usize::MAX,
    ensures
        base == vector_sample_offset(i as int, j as int, grid as int),
        base + VECTOR_SAMPLE_VALUES <= vector_values(grid as int),
{
    proof {
        lemma_vector_samples_in_range(i as int, j as int, grid as int);
    }
    assert(grid + 1 <= vector_values(grid as int)) by (nonlinear_arith)
        requires
            grid >= 0,
    ;
    let side: usize = grid + 1;
    assert(j * side + i < side * side) by (nonlinear_arith)
        requires
            i < side,
            j < side,
    ;
    (j * side + i) * VECTOR_SAMPLE_VALUES
}

/// The four values of every sample of a grid lie inside the values the grid
/// writes.
pub proof fn lemma_vector_samples_in_range(i: int, j: int, grid: int)
    requires
        0 <= i <= grid,
        0 <= j <= grid,
    ensures
        0 <= vector_sample_offset(i, j, grid),
        vector_sample_offset(i, j, grid) + 4 <= vector_values(grid),
{
    assert(0 <= j * (grid + 1) + i < (grid + 1) * (grid + 1)) by (nonlinear_arith)
        requires
            0 <= i <= grid,
            0 <= j <= grid,
    ;
}

/// Distinct samples of a grid own disjoint groups of four values.
pub proof fn lemma_vector_samples_disjoint(i1: int, j1: int, i2: int, j2: int, grid: int)
    requires
        0 <= i1 <= grid,
        0 <= j1 <= grid,
        0 <= i2 <= grid,
        0 <= j2 <= grid,
        i1 != i2 || j1 != j2,
    ensures
        vector_sample_offset(i1, j1, grid) + 4 <= vector_sample_offset(i2, j2, grid)
            || vector_sample_offset(i2, j2, grid) + 4 <= vector_sample_offset(i1, j1, grid),
{
    let a = j1 * (grid + 1) + i1;
    let b = j2 * (grid + 1) + i2;
    assert(a != b) by (nonlinear_arith)
        requires
            a == j1 * (grid + 1) + i1,
            b == j2 * (grid + 1) + i2,
            0 <= i1 <= grid,
            0 <= i2 <= grid,
            i1 != i2 || j1 != j2,
    ;
}

} // verus!
