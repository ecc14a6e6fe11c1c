//! Preflight of the GPU pipeline that applies a complex expression to vertices.
//!
//! Everything here is decided before the GPU is touched: which compiled
//! programs the WGSL interpreter can run, how constants are addressed, how
//! many vertices one dispatch takes and how many workgroups it launches.

use crate::bytecode::{apply_stack_effect, opcode_of, stack_run, StackEffect};
use crate::gpu_readback::{PendingGpuReadback, ReadbackPoll};
use vstd::prelude::*;

verus! {

/// Vertices one dispatch can transform.
pub const MAX_VERTICES: usize = 65536;

/// Complex constants (pairs of reals) the constants buffer holds.
pub const MAX_COMPLEX_CONSTANTS: usize = 256;

/// Instructions the bytecode buffer holds.
pub const MAX_COMPLEX_CODE: usize = 4096;

/// Slots of the interpreter's value stack in the shader.
pub const GPU_COMPLEX_STACK_SIZE: usize = 32;

/// Threads per workgroup of the shader.
pub const COMPLEX_WORKGROUP_SIZE: u32 = 64;

/// Stack effect of each opcode of the vertex interpreter.
pub open spec fn complex_effect(op: u32) -> StackEffect {
    if op == 0 {
        StackEffect::Nop
    } else if op == 1 || op == 2 {
        StackEffect::Push
    } else if (3 <= op <= 7) || op == 16 || op == 17 {
        StackEffect::Binary
    } else if (8 <= op <= 15) || op == 18 || op == 19 || (22 <= op <= 33) || (102 <= op <= 105) {
        StackEffect::Unary
    } else {
        StackEffect::Unsupported
    }
}

/// Stack effects of a whole program, one per instruction.
pub open spec fn complex_effects(code: Seq<u32>) -> Seq<StackEffect> {
    code.map_values(|instruction: u32| complex_effect(opcode_of(instruction)))
}

/// The vertex interpreter runs `code` without stack underflow or overflow and
/// ends with exactly one value.
pub open spec fn complex_program_runs(code: Seq<u32>) -> bool {
    stack_run(complex_effects(code), 0, GPU_COMPLEX_STACK_SIZE as int) == Some(1int)
}

/// Constant operand `operand` of a push addresses the complex pair `operand / 2`.
pub fn complex_constant_pair_index(operand: u32) -> (index: usize)
    ensures
        index == operand / 2,
{
    (operand / 2) as usize
}

/// The real constants of a compiled program fit the constants buffer: they
/// come in (re, im) pairs, their count is a `u32`, and there are at most
/// `MAX_COMPLEX_CONSTANTS` pairs.
pub fn complex_constant_count_fits(len: usize) -> (fits: bool)
    ensures
        fits == (len <= u32::MAX && len % 2 == 0 && len / 2 <= MAX_COMPLEX_CONSTANTS),
{
    if len > u32::MAX as usize {
        return false;
    }
    let pair_count = complex_constant_pair_index(len as u32);
    len % 2 == 0 && pair_count <= MAX_COMPLEX_CONSTANTS
}

fn complex_opcode_effect(instruction: u32) -> (effect: StackEffect)
    ensures
        effect == complex_effect(opcode_of(instruction)),
{
    let op = instruction % 256;
    if op == 0 {
        StackEffect::Nop
    } else if op == 1 || op == 2 {
        StackEffect::Push
    } else if (3 <= op && op <= 7) || op == 16 || op == 17 {
        StackEffect::Binary
    } else if (8 <= op && op <= 15) || op == 18 || op == 19 || (22 <= op && op <= 33) || (102
        <= op && op <= 105) {
        StackEffect::Unary
    } else {
        StackEffect::Unsupported
    }
}

/// Whether the vertex shader can run `code`: every opcode is one it
/// implements, the stack never underflows or exceeds its 32 slots, and the
/// program leaves exactly one value. Programs that use CPU-only functions are
/// rejected here so the caller falls back to the CPU.
pub fn gpu_program_is_supported(code: &[u32]) -> (supported: bool)
    ensures
        supported == complex_program_runs(code@),
{
    let ghost effects = complex_effects(code@);
    let mut depth: usize = 0;
    let mut i: usize = 0;
    assert(effects.skip(0) =~= effects);
    while i < code.len()
        invariant
            0 <= i <= code.len(),
            depth <= GPU_COMPLEX_STACK_SIZE,
            effects == complex_effects(code@),
            stack_run(effects, 0, GPU_COMPLEX_STACK_SIZE as int) == stack_run(
                effects.skip(i as int),
                depth as int,
                GPU_COMPLEX_STACK_SIZE as int,
            ),
        decreases code.len() - i,
    {
        let effect = complex_opcode_effect(code[i]);
        assert(effects.skip(i as int).drop_first() =~= effects.skip(i as int + 1));
        assert(effects.skip(i as int)[0] == effect);
        match apply_stack_effect(depth, effect, GPU_COMPLEX_STACK_SIZE) {
            Some(next) => {
                depth = next;
            },
            None => {
                return false;
            },
        }
        i += 1;
    }
    assert(effects.skip(code.len() as int).len() == 0);
    depth == 1
}

/// Shape of one vertex dispatch: the vertex count and the program length as
/// the uniform block stores them.
pub open spec fn complex_dispatch_shape_spec(code: Seq<u32>, vertex_count: int) -> Option<
    (u32, u32),
> {
    if code.len() <= MAX_COMPLEX_CODE && complex_program_runs(code) && vertex_count
        <= MAX_VERTICES {
        Some((vertex_count as u32, code.len() as u32))
    } else {
        None
    }
}

/// Integer preflight of a vertex dispatch: the program must fit the bytecode
/// buffer and run on the shader, and the vertices must fit one dispatch.
pub fn complex_dispatch_shape(code: &[u32], vertex_count: usize) -> (shape: Option<(u32, u32)>)
    ensures
        shape == complex_dispatch_shape_spec(code@, vertex_count as int),
{
    if code.len() > MAX_COMPLEX_CODE || !gpu_program_is_supported(code) {
        return None;
    }
    if vertex_count > MAX_VERTICES {
        return None;
    }
    Some((vertex_count as u32, code.len() as u32))
}

/// A vertex dispatch in flight: its vertex count and the readback wait.
#[derive(Debug)]
pub struct PendingComplexEval {
    vertex_count: usize,
    wait: PendingGpuReadback,
}

impl PendingComplexEval {
    /// Number of vertices the dispatch transforms.
    pub closed spec fn vertex_count_spec(&self) -> usize {
        self.vertex_count
    }

    /// The readback wait of the dispatch.
    pub closed spec fn wait_state(&self) -> PendingGpuReadback {
        self.wait
    }

    /// Pairs a dispatched vertex count with its readback wait.
    pub fn new(vertex_count: usize, wait: PendingGpuReadback) -> (pending: Self)
        ensures
            pending.vertex_count_spec() == vertex_count,
            pending.wait_state() == wait,
    {
        PendingComplexEval { vertex_count, wait }
    }

    /// Number of vertices the dispatch transforms.
    pub fn vertex_count(&self) -> (count: usize)
        ensures
            count == self.vertex_count_spec(),
    {
        self.vertex_count
    }

    /// Non-blocking poll of the readback wait.
    pub fn poll(&mut self) -> (answer: ReadbackPoll)
        ensures
            PendingGpuReadback::polled(old(self).wait_state(), final(self).wait_state(), answer),
            final(self).vertex_count_spec() == old(self).vertex_count_spec(),
    {
        self.wait.poll()
    }
}

} // verus!
