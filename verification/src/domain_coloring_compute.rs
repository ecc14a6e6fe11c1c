//! Preflight of the GPU pipeline that colours a square grid of the complex
//! plane by the value of an expression.
//!
//! One dispatch evaluates at most `MAX_CELLS` cells. A grid above that budget
//! is split into bands of consecutive rows of the outer (x) index, each band a
//! dispatch of its own, so that the whole grid is covered without clamping.

use crate::bytecode::{apply_stack_effect, opcode_of, stack_run, StackEffect};
use crate::gpu_readback::{PendingGpuReadback, ReadbackPoll};
use vstd::prelude::*;

verus! {

/// Cells one dispatch evaluates (500 × 500).
pub const MAX_CELLS: usize = 250_000;

/// Threads per workgroup; matches the shader's `@workgroup_size(64)`.
pub const DOMAIN_COLORING_WORKGROUP_SIZE: u32 = 64;

/// Instructions the bytecode buffer holds.
pub const MAX_COMPLEX_CODE: usize = 4096;

/// Slots of the interpreter's value stack in the shader.
pub const GPU_COMPLEX_STACK_SIZE: usize = 32;

/// A grid of `cells` cells fits one dispatch.
pub fn domain_cells_within_budget(cells: usize) -> (ok: bool)
    ensures
        ok == (cells <= MAX_CELLS),
{
    cells <= MAX_CELLS
}

/// Rows of a band for a grid of `res` × `res` cells.
pub open spec fn rows_per_band(res: int) -> int {
    MAX_CELLS as int / res
}

/// Band `k` of a grid of side `res`: its first row and its row count.
pub open spec fn band_spec(res: int, k: int) -> (int, int) {
    let rows = rows_per_band(res);
    let start = k * rows;
    (start, if res - start < rows {
        res - start
    } else {
        rows
    })
}

/// `bands` are exactly the bands of a grid of side `res`: band `k` starts at
/// row `k * rows_per_band(res)`, and there are just enough bands to reach `res`.
pub open spec fn bands_match(res: int, bands: Seq<(usize, usize)>) -> bool {
    &&& forall|k: int|
        0 <= k < bands.len() ==> (#[trigger] bands[k].0 as int, bands[k].1 as int) == band_spec(
            res,
            k,
        )
    &&& bands.len() * rows_per_band(res) >= res
    &&& bands.len() > 0 ==> (bands.len() - 1) * rows_per_band(res) < res
}

/// `bands` tile the rows `0..res`: they start at row 0, each begins where the
/// previous ends, the last ends at `res`, none is empty, and each stays
/// within the per-dispatch cell budget.
pub open spec fn bands_tile(res: int, bands: Seq<(usize, usize)>) -> bool {
    &&& bands.len() > 0 ==> bands[0].0 == 0
    &&& forall|k: int|
        0 <= k < bands.len() - 1 ==> #[trigger] bands[k + 1].0 == bands[k].0 + bands[k].1
    &&& bands.len() > 0 ==> bands[bands.len() - 1].0 + bands[bands.len() - 1].1 == res
    &&& forall|k: int|
        0 <= k < bands.len() ==> 1 <= #[trigger] bands[k].1 && res * bands[k].1 <= MAX_CELLS
}

/// Bands of rows for a grid of side `res`: empty for `res == 0`, `None` when a
/// single row already exceeds the budget, otherwise consecutive bands of
/// `MAX_CELLS / res` rows (the last one possibly shorter).
pub fn domain_coloring_bands(res: usize) -> (bands: Option<Vec<(usize, usize)>>)
    ensures
        res == 0 ==> (bands matches Some(b) && b@.len() == 0),
        res > MAX_CELLS ==> bands is None,
        0 < res <= MAX_CELLS ==> (bands matches Some(b) && bands_match(res as int, b@)),
{
    if res == 0 {
        return Some(Vec::new());
    }
    let rows_per_band = MAX_CELLS / res;
    assert(res <= MAX_CELLS <==> rows_per_band >= 1) by (nonlinear_arith)
        requires
            res > 0,
            rows_per_band == MAX_CELLS as int / res as int,
    ;
    if rows_per_band == 0 {
        return None;
    }
    let ghost rows = rows_per_band as int;
    let mut bands: Vec<(usize, usize)> = Vec::new();
    let mut start: usize = 0;
    assert(0 * rows == 0);
    while start < res
        invariant
            0 < res <= MAX_CELLS,
            rows == rows_per_band,
            rows == crate::domain_coloring_compute::rows_per_band(res as int),
            rows >= 1,
            start <= res,
            start < res ==> start == bands.len() * rows,
            start == res ==> bands.len() * rows >= res,
            bands.len() > 0 ==> (bands.len() - 1) * rows < res,
            forall|k: int|
                0 <= k < bands.len() ==> (#[trigger] bands@[k].0 as int, bands@[k].1 as int)
                    == band_spec(res as int, k),
        decreases res - start,
    {
        let count = if res - start < rows_per_band {
            res - start
        } else {
            rows_per_band
        };
        let ghost n = bands.len() as int;
        proof {
            assert((n + 1) * rows == n * rows + rows) by (nonlinear_arith);
        }
        bands.push((start, count));
        start += count;
    }
    Some(bands)
}

/// Bands that match the band formula tile the grid.
pub proof fn lemma_domain_bands_tile(res: int, bands: Seq<(usize, usize)>)
    requires
        0 < res <= MAX_CELLS,
        bands_match(res, bands),
    ensures
        bands_tile(res, bands),
{
    let rows = rows_per_band(res);
    assert(rows >= 1 && res * rows <= MAX_CELLS) by (nonlinear_arith)
        requires
            0 < res <= MAX_CELLS,
            rows == MAX_CELLS as int / res,
    ;
    assert forall|k: int| 0 <= k < bands.len() implies 1 <= #[trigger] bands[k].1 && res
        * bands[k].1 <= MAX_CELLS by {
        assert((#[trigger] bands[k].0 as int, bands[k].1 as int) == band_spec(res, k));
        assert(k * rows <= (bands.len() - 1) * rows) by (nonlinear_arith)
            requires
                k <= bands.len() - 1,
                rows >= 1,
        ;
        let c = bands[k].1 as int;
        assert(c <= rows);
        assert(res * c <= res * rows) by (nonlinear_arith)
            requires
                c <= rows,
                res > 0,
        ;
    }
    assert forall|k: int| 0 <= k < bands.len() - 1 implies #[trigger] bands[k + 1].0 == bands[k].0
        + bands[k].1 by {
        assert((bands[k].0 as int, bands[k].1 as int) == band_spec(res, k));
        assert((bands[k + 1].0 as int, bands[k + 1].1 as int) == band_spec(res, k + 1));
        assert((k + 1) * rows == k * rows + rows) by (nonlinear_arith);
        assert((k + 1) * rows <= (bands.len() - 1) * rows) by (nonlinear_arith)
            requires
                k + 1 <= bands.len() - 1,
                rows >= 1,
        ;
    }
    if bands.len() > 0 {
        let last = bands.len() - 1;
        assert((bands[0].0 as int, bands[0].1 as int) == band_spec(res, 0));
        assert((bands[last].0 as int, bands[last].1 as int) == band_spec(res, last));
        assert(last * rows + rows == bands.len() * rows) by (nonlinear_arith)
            requires
                last == bands.len() - 1,
        ;
    }
}

/// Whether a dispatch of `rows` full rows of a grid of side `res` fits the
/// budget: `res * rows` cells, not zero and at most `MAX_CELLS`.
pub open spec fn rows_fit_spec(res: int, rows: int) -> bool {
    0 < res * rows <= MAX_CELLS
}

/// Integer shape of one grid dispatch, as the uniform block stores it.
#[derive(Debug, Clone, Copy, PartialEq, Eq, Structural)]
pub struct DomainDispatchShape {
    /// Cells evaluated by the dispatch.
    pub cells: usize,
    /// Cells as stored in the uniform block.
    pub grid_size: u32,
    /// Side of the grid in cells.
    pub grid_res: u32,
    /// Length of the program.
    pub code_len: u32,
}

/// Shape of a dispatch of `rows` full rows of a grid of side `res` with a
/// program of `code_len` instructions; `None` when the cell count is zero,
/// overflows or exceeds the budget, or a field does not fit its `u32`.
pub fn domain_rows_dispatch_shape(res: usize, rows: usize, code_len: usize) -> (shape: Option<
    DomainDispatchShape,
>)
    ensures
        shape is Some <==> (rows_fit_spec(res as int, rows as int) && code_len <= u32::MAX),
        shape matches Some(s) ==> s.cells == res * rows && s.grid_size == res * rows && s.grid_res
            == res && s.code_len == code_len,
{
    let cells = match res.checked_mul(rows) {
        Some(cells) => cells,
        None => {
            return None;
        },
    };
    if cells == 0 || cells > MAX_CELLS {
        return None;
    }
    if code_len > u32::MAX as usize {
        return None;
    }
    proof {
        assert(res <= res * rows) by (nonlinear_arith)
            requires
                res * rows > 0,
        ;
    }
    Some(DomainDispatchShape {
        cells,
        grid_size: cells as u32,
        grid_res: res as u32,
        code_len: code_len as u32,
    })
}

/// How a grid of side `res` is evaluated.
#[derive(Debug)]
pub enum DomainEvaluationPlan {
    /// No cells: nothing to dispatch.
    Empty,
    /// One dispatch of all `cells` cells.
    Single { cells: usize },
    /// One dispatch per band of rows.
    Bands(Vec<(usize, usize)>),
}

/// Evaluation plan of a grid of side `res`: `None` when `res * res`
/// overflows or a single row exceeds the budget; no dispatch for an empty
/// grid; one dispatch within the budget; bands of rows above it.
pub fn domain_evaluation_plan(res: usize) -> (plan: Option<DomainEvaluationPlan>)
    ensures
        res * res > usize::MAX ==> plan is None,
        res * res <= usize::MAX && res == 0 ==> plan == Some(DomainEvaluationPlan::Empty),
        res * res <= usize::MAX && 0 < res * res <= MAX_CELLS ==> plan == Some(
            DomainEvaluationPlan::Single { cells: (res * res) as usize },
        ),
        res * res <= usize::MAX && res * res > MAX_CELLS && res > MAX_CELLS ==> plan is None,
        res * res <= usize::MAX && res * res > MAX_CELLS && res <= MAX_CELLS ==> (plan matches Some(
            DomainEvaluationPlan::Bands(b),
        ) && bands_match(res as int, b@)),
{
    let cells = match res.checked_mul(res) {
        Some(cells) => cells,
        None => {
            return None;
        },
    };
    if cells == 0 {
        proof {
            assert(res == 0) by (nonlinear_arith)
                requires
                    res * res == 0,
            ;
        }
        return Some(DomainEvaluationPlan::Empty);
    }
    if domain_cells_within_budget(cells) {
        return Some(DomainEvaluationPlan::Single { cells });
    }
    match domain_coloring_bands(res) {
        Some(bands) => Some(DomainEvaluationPlan::Bands(bands)),
        None => None,
    }
}

/// Stack effect of each opcode of the grid interpreter.
pub open spec fn domain_effect(op: u32) -> StackEffect {
    if op == 0 {
        StackEffect::Nop
    } else if op == 1 || op == 2 {
        StackEffect::Push
    } else if 3 <= op <= 7 {
        StackEffect::Binary
    } else if (8 <= op <= 15) || (22 <= op <= 27) || (31 <= op <= 33) || (102 <= op <= 105) {
        StackEffect::Unary
    } else {
        StackEffect::Unsupported
    }
}

/// Stack effects of a whole program, one per instruction.
pub open spec fn domain_effects(code: Seq<u32>) -> Seq<StackEffect> {
    code.map_values(|instruction: u32| domain_effect(opcode_of(instruction)))
}

/// The grid interpreter runs `code` without stack underflow or overflow and
/// ends with exactly one value.
pub open spec fn domain_program_runs(code: Seq<u32>) -> bool {
    stack_run(domain_effects(code), 0, GPU_COMPLEX_STACK_SIZE as int) == Some(1int)
}

fn domain_opcode_effect(instruction: u32) -> (effect: StackEffect)
    ensures
        effect == domain_effect(opcode_of(instruction)),
{
    let op = instruction % 256;
    if op == 0 {
        StackEffect::Nop
    } else if op == 1 || op == 2 {
        StackEffect::Push
    } else if 3 <= op && op <= 7 {
        StackEffect::Binary
    } else if (8 <= op && op <= 15) || (22 <= op && op <= 27) || (31 <= op && op <= 33) || (102
        <= op && op <= 105) {
        StackEffect::Unary
    } else {
        StackEffect::Unsupported
    }
}

/// Whether the grid shader can run `code`: every opcode is one it implements,
/// the stack never underflows or exceeds its 32 slots, and the program leaves
/// exactly one value.
pub fn gpu_program_is_supported(code: &[u32]) -> (supported: bool)
    ensures
        supported == domain_program_runs(code@),
{
    let ghost effects = domain_effects(code@);
    let mut depth: usize = 0;
    let mut i: usize = 0;
    assert(effects.skip(0) =~= effects);
    while i < code.len()
        invariant
            0 <= i <= code.len(),
            depth <= GPU_COMPLEX_STACK_SIZE,
            effects == domain_effects(code@),
            stack_run(effects, 0, GPU_COMPLEX_STACK_SIZE as int) == stack_run(
                effects.skip(i as int),
                depth as int,
                GPU_COMPLEX_STACK_SIZE as int,
            ),
        decreases code.len() - i,
    {
        let effect = domain_opcode_effect(code[i]);
        assert(effects.skip(i as int).drop_first() =~= effects.skip(i as int + 1));
        assert(effects.skip(i as int)[0] == effect);
        match apply_stack_effect(depth, effect, GPU_COMPLEX_STACK_SIZE) {
            Some(next) => {
                depth = next;
            },
            None => {
                return false;
            },
        }
        i += 1;
    }
    assert(effects.skip(code.len() as int).len() == 0);
    depth == 1
}

/// Whether a compiled program can be dispatched: it fits the bytecode buffer
/// and the grid shader runs it.
pub fn domain_program_is_dispatchable(code: &[u32]) -> (ok: bool)
    ensures
        ok == (code@.len() <= MAX_COMPLEX_CODE && domain_program_runs(code@)),
{
    code.len() <= MAX_COMPLEX_CODE && gpu_program_is_supported(code)
}

/// A grid dispatch in flight: its cell count and the readback wait.
#[derive(Debug)]
pub struct PendingDomainColoringEval {
    cell_count: usize,
    wait: PendingGpuReadback,
}

impl PendingDomainColoringEval {
    /// Number of cells the dispatch colours.
    pub closed spec fn cell_count_spec(&self) -> usize {
        self.cell_count
    }

    /// The readback wait of the dispatch.
    pub closed spec fn wait_state(&self) -> PendingGpuReadback {
        self.wait
    }

    /// Pairs a dispatched cell count with its readback wait.
    pub fn new(cell_count: usize, wait: PendingGpuReadback) -> (pending: Self)
        ensures
            pending.cell_count_spec() == cell_count,
            pending.wait_state() == wait,
    {
        PendingDomainColoringEval { cell_count, wait }
    }

    /// Number of cells the dispatch colours.
    pub fn cell_count(&self) -> (count: usize)
        ensures
            count == self.cell_count_spec(),
    {
        self.cell_count
    }

    /// Non-blocking poll of the readback wait.
    pub fn poll(&mut self) -> (answer: ReadbackPoll)
        ensures
            PendingGpuReadback::polled(old(self).wait_state(), final(self).wait_state(), answer),
            final(self).cell_count_spec() == old(self).cell_count_spec(),
    {
        self.wait.poll()
    }
}

} // verus!
