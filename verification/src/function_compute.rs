//! Preflight of the GPU pipeline that samples `y = f(x)`.
//!
//! Function programs are compiled with the scalar compiler, which maps `x`
//! to operand 0 and `y` to operand 1; a function may only read `x`.

use crate::bytecode::opcode_of;
use crate::gpu_readback::{PendingGpuReadback, ReadbackPoll};
use crate::implicit_compute::CompileError;
use vstd::prelude::*;

verus! {

/// Opcode of `PushVar`.
pub const OP_PUSH_VAR_VALUE: u32 = 2;

/// Every `PushVar` of the program reads operand 0 (`x`).
pub open spec fn reads_only_x(code: Seq<u32>) -> bool {
    forall|k: int|
        0 <= k < code.len() && opcode_of(#[trigger] code[k]) == OP_PUSH_VAR_VALUE ==> code[k]
            / 256 == 0
}

/// Rejects a compiled function program that reads any variable but `x`.
pub fn check_function_program(code: &[u32]) -> (result: Result<(), CompileError>)
    ensures
        result is Ok <==> reads_only_x(code@),
        result matches Err(e) ==> (e matches CompileError::UnsupportedVariable(name) && name@ == "y"@),
{
    let mut k: usize = 0;
    while k < code.len()
        invariant
            k <= code.len(),
            forall|m: int|
                0 <= m < k && opcode_of(#[trigger] code@[m]) == OP_PUSH_VAR_VALUE ==> code@[m] / 256
                    == 0,
        decreases code.len() - k,
    {
        let instruction = code[k];
        let op = instruction % 256;
        let operand = instruction / 256;
        if op == OP_PUSH_VAR_VALUE && operand != 0 {
            return Err(CompileError::UnsupportedVariable("y".to_owned()));
        }
        k += 1;
    }
    Ok(())
}

/// A function-sampling dispatch in flight: its sample count and the
/// readback wait.
#[derive(Debug)]
pub struct PendingFunctionEval {
    grid_size: usize,
    wait: PendingGpuReadback,
}

impl PendingFunctionEval {
    /// Number of samples.
    pub closed spec fn grid_size_spec(&self) -> usize {
        self.grid_size
    }

    /// The readback wait of the dispatch.
    pub closed spec fn wait_state(&self) -> PendingGpuReadback {
        self.wait
    }

    /// Pairs a dispatched sample count with its readback wait.
    pub fn new(grid_size: usize, wait: PendingGpuReadback) -> (pending: Self)
        ensures
            pending.grid_size_spec() == grid_size,
            pending.wait_state() == wait,
    {
        PendingFunctionEval { grid_size, wait }
    }

    /// Number of samples.
    pub fn grid_size(&self) -> (size: usize)
        ensures
            size == self.grid_size_spec(),
    {
        self.grid_size
    }

    /// Non-blocking poll of the readback wait.
    pub fn poll(&mut self) -> (answer: ReadbackPoll)
        ensures
            PendingGpuReadback::polled(old(self).wait_state(), final(self).wait_state(), answer),
            final(self).grid_size_spec() == old(self).grid_size_spec(),
    {
        self.wait.poll()
    }
}

/// What a frame does with a function-sampling job whose readback may be ready.
#[derive(Debug, Clone, Copy, PartialEq, Eq, Structural)]
pub enum FunctionJobAction {
    /// The function or its variables changed since the dispatch: release the
    /// readback and report that nothing was cached.
    DiscardStale,
    /// Another frame already cached the same samples: release the readback
    /// and report the cache as populated.
    AlreadyCached,
    /// Resolve the readback; the cache is populated when it yields samples.
    ResolveReadback,
}

/// Decision for a function-sampling job.
pub open spec fn function_job_step_spec(key_is_fresh: bool, cache_has_key: bool) -> FunctionJobAction {
    if !key_is_fresh {
        FunctionJobAction::DiscardStale
    } else if cache_has_key {
        FunctionJobAction::AlreadyCached
    } else {
        FunctionJobAction::ResolveReadback
    }
}

/// Decides what to do with a function-sampling job: staleness is checked
/// first, then whether the cache already holds the same key.
pub fn function_job_step(key_is_fresh: bool, cache_has_key: bool) -> (action: FunctionJobAction)
    ensures
        action == function_job_step_spec(key_is_fresh, cache_has_key),
{
    if !key_is_fresh {
        FunctionJobAction::DiscardStale
    } else if cache_has_key {
        FunctionJobAction::AlreadyCached
    } else {
        FunctionJobAction::ResolveReadback
    }
}

/// Samples of a function evaluated on a grid of `grid_size` steps by a
/// pipeline built for grids up to `max_grid`: `grid_size + 1`, or `None`
/// above the pipeline's grid, which is left to the CPU.
pub fn function_sample_count(grid_size: usize, max_grid: usize) -> (samples: Option<u32>)
    requires
        max_grid < u32::MAX,
    ensures
        samples is Some <==> grid_size <= max_grid,
        samples matches Some(n) ==> n == grid_size + 1,
{
    if grid_size > max_grid {
        None
    } else {
        Some((grid_size + 1) as u32)
    }
}

} // verus!
