//! Bytecode of the scalar compute shaders (implicit curves, functions and
//! parametric curves).
//!
//! The shaders interpret an RPN program of 32-bit words: the low byte is the
//! opcode, the upper 24 bits its operand. The compiler accepts a program only
//! when its value stack never grows past the shader's 32 slots and it fits
//! the 4096-word bytecode buffer.

use crate::bytecode::opcode_of;
use crate::gpu_readback::{PendingGpuReadback, ReadbackPoll};
use crate::RenderQuality;
use vstd::prelude::*;

verus! {

/// Slots of the value stack of each scalar WGSL interpreter.
pub const GPU_SCALAR_STACK_SIZE: usize = 32;

/// Words the bytecode buffer holds.
pub const MAX_SCALAR_CODE: usize = 4096;

/// Operand of a `Clamp` whose static bounds are not finite or are reversed:
/// the shader then yields an invalid value.
pub const CLAMP_FORCE_INVALID_OPERAND: u32 = 1;

/// Opcodes of the scalar interpreter.
#[derive(Debug, Clone, Copy, PartialEq, Eq, Structural)]
pub enum Op {
    Nop,
    PushConst,
    PushVar,
    Add,
    Sub,
    Mul,
    Div,
    Pow,
    Neg,
    Sin,
    Cos,
    Tan,
    Exp,
    Log,
    Sqrt,
    Abs,
    Min,
    Max,
    Floor,
    Ceil,
    Pi,
    E,
    Asin,
    Acos,
    Atan,
    Sinh,
    Cosh,
    Tanh,
    Asinh,
    Acosh,
    Atanh,
    Sec,
    Csc,
    Cot,
    Sign,
    Heaviside,
    Cbrt,
    Mod,
    Round,
    Log10,
    Log2,
    Exp2,
    Atan2,
    Clamp,
    Lt,
    Gt,
    Le,
    Ge,
    Eq,
    Ne,
}

/// Numeric code of each opcode, as the shaders decode it.
pub open spec fn op_code(op: Op) -> u32 {
    match op {
        Op::Nop => 0,
        Op::PushConst => 1,
        Op::PushVar => 2,
        Op::Add => 3,
        Op::Sub => 4,
        Op::Mul => 5,
        Op::Div => 6,
        Op::Pow => 7,
        Op::Neg => 8,
        Op::Sin => 9,
        Op::Cos => 10,
        Op::Tan => 11,
        Op::Exp => 12,
        Op::Log => 13,
        Op::Sqrt => 14,
        Op::Abs => 15,
        Op::Min => 16,
        Op::Max => 17,
        Op::Floor => 18,
        Op::Ceil => 19,
        Op::Pi => 20,
        Op::E => 21,
        Op::Asin => 22,
        Op::Acos => 23,
        Op::Atan => 24,
        Op::Sinh => 25,
        Op::Cosh => 26,
        Op::Tanh => 27,
        Op::Asinh => 28,
        Op::Acosh => 29,
        Op::Atanh => 30,
        Op::Sec => 31,
        Op::Csc => 32,
        Op::Cot => 33,
        Op::Sign => 34,
        Op::Heaviside => 35,
        Op::Cbrt => 36,
        Op::Mod => 37,
        Op::Round => 38,
        Op::Log10 => 39,
        Op::Log2 => 40,
        Op::Exp2 => 41,
        Op::Atan2 => 42,
        Op::Clamp => 43,
        Op::Lt => 44,
        Op::Gt => 45,
        Op::Le => 46,
        Op::Ge => 47,
        Op::Eq => 48,
        Op::Ne => 49,
    }
}

/// The instruction word of `op` with `operand`: the opcode in the low byte,
/// the operand's low 24 bits above it.
pub open spec fn encoded_word(op: Op, operand: u32) -> u32 {
    (op_code(op) + 256 * (operand % 0x100_0000)) as u32
}

/// The shader's decoder: which operation each instruction code stands for,
/// in the interpreter's fixed numbering.
pub open spec fn shader_op(code: u32) -> Option<Op> {
    if false {
        None
    } else if code == 0 {
        Some(Op::Nop)
    } else if code == 1 {
        Some(Op::PushConst)
    } else if code == 2 {
        Some(Op::PushVar)
    } else if code == 3 {
        Some(Op::Add)
    } else if code == 4 {
        Some(Op::Sub)
    } else if code == 5 {
        Some(Op::Mul)
    } else if code == 6 {
        Some(Op::Div)
    } else if code == 7 {
        Some(Op::Pow)
    } else if code == 8 {
        Some(Op::Neg)
    } else if code == 9 {
        Some(Op::Sin)
    } else if code == 10 {
        Some(Op::Cos)
    } else if code == 11 {
        Some(Op::Tan)
    } else if code == 12 {
        Some(Op::Exp)
    } else if code == 13 {
        Some(Op::Log)
    } else if code == 14 {
        Some(Op::Sqrt)
    } else if code == 15 {
        Some(Op::Abs)
    } else if code == 16 {
        Some(Op::Min)
    } else if code == 17 {
        Some(Op::Max)
    } else if code == 18 {
        Some(Op::Floor)
    } else if code == 19 {
        Some(Op::Ceil)
    } else if code == 20 {
        Some(Op::Pi)
    } else if code == 21 {
        Some(Op::E)
    } else if code == 22 {
        Some(Op::Asin)
    } else if code == 23 {
        Some(Op::Acos)
    } else if code == 24 {
        Some(Op::Atan)
    } else if code == 25 {
        Some(Op::Sinh)
    } else if code == 26 {
        Some(Op::Cosh)
    } else if code == 27 {
        Some(Op::Tanh)
    } else if code == 28 {
        Some(Op::Asinh)
    } else if code == 29 {
        Some(Op::Acosh)
    } else if code == 30 {
        Some(Op::Atanh)
    } else if code == 31 {
        Some(Op::Sec)
    } else if code == 32 {
        Some(Op::Csc)
    } else if code == 33 {
        Some(Op::Cot)
    } else if code == 34 {
        Some(Op::Sign)
    } else if code == 35 {
        Some(Op::Heaviside)
    } else if code == 36 {
        Some(Op::Cbrt)
    } else if code == 37 {
        Some(Op::Mod)
    } else if code == 38 {
        Some(Op::Round)
    } else if code == 39 {
        Some(Op::Log10)
    } else if code == 40 {
        Some(Op::Log2)
    } else if code == 41 {
        Some(Op::Exp2)
    } else if code == 42 {
        Some(Op::Atan2)
    } else if code == 43 {
        Some(Op::Clamp)
    } else if code == 44 {
        Some(Op::Lt)
    } else if code == 45 {
        Some(Op::Gt)
    } else if code == 46 {
        Some(Op::Le)
    } else if code == 47 {
        Some(Op::Ge)
    } else if code == 48 {
        Some(Op::Eq)
    } else if code == 49 {
        Some(Op::Ne)
    } else {
        None
    }
}

/// Values each operation takes off the interpreter's stack before pushing
/// its one result: none for the pushes, two for arithmetic, `min`, `max`,
/// `mod`, `atan2` and comparisons, three for `clamp`, one otherwise.
pub open spec fn op_arity(op: Op) -> int {
    match op {
        Op::Nop => 1,
        Op::PushConst => 0,
        Op::PushVar => 0,
        Op::Add => 2,
        Op::Sub => 2,
        Op::Mul => 2,
        Op::Div => 2,
        Op::Pow => 2,
        Op::Neg => 1,
        Op::Sin => 1,
        Op::Cos => 1,
        Op::Tan => 1,
        Op::Exp => 1,
        Op::Log => 1,
        Op::Sqrt => 1,
        Op::Abs => 1,
        Op::Min => 2,
        Op::Max => 2,
        Op::Floor => 1,
        Op::Ceil => 1,
        Op::Pi => 0,
        Op::E => 0,
        Op::Asin => 1,
        Op::Acos => 1,
        Op::Atan => 1,
        Op::Sinh => 1,
        Op::Cosh => 1,
        Op::Tanh => 1,
        Op::Asinh => 1,
        Op::Acosh => 1,
        Op::Atanh => 1,
        Op::Sec => 1,
        Op::Csc => 1,
        Op::Cot => 1,
        Op::Sign => 1,
        Op::Heaviside => 1,
        Op::Cbrt => 1,
        Op::Mod => 2,
        Op::Round => 1,
        Op::Log10 => 1,
        Op::Log2 => 1,
        Op::Exp2 => 1,
        Op::Atan2 => 2,
        Op::Clamp => 3,
        Op::Lt => 2,
        Op::Gt => 2,
        Op::Le => 2,
        Op::Ge => 2,
        Op::Eq => 2,
        Op::Ne => 2,
    }
}

/// Every operation is encoded with the code the shader's interpreter decodes
/// for it, in the fixed numbering `Nop = 0` … `Ne = 49`, so no two
/// operations share a code; and the stack effect the compiler's depth check
/// counts for an operation's code is what the operation does to the stack
/// (one result for its arguments).
pub proof fn lemma_op_codes_follow_the_shader_numbering(op: Op)
    ensures
        op_code(Op::Nop) == 0,
        op_code(Op::PushConst) == 1,
        op_code(Op::PushVar) == 2,
        op_code(Op::Add) == 3,
        op_code(Op::Sub) == 4,
        op_code(Op::Mul) == 5,
        op_code(Op::Div) == 6,
        op_code(Op::Pow) == 7,
        op_code(Op::Neg) == 8,
        op_code(Op::Sin) == 9,
        op_code(Op::Cos) == 10,
        op_code(Op::Tan) == 11,
        op_code(Op::Exp) == 12,
        op_code(Op::Log) == 13,
        op_code(Op::Sqrt) == 14,
        op_code(Op::Abs) == 15,
        op_code(Op::Min) == 16,
        op_code(Op::Max) == 17,
        op_code(Op::Floor) == 18,
        op_code(Op::Ceil) == 19,
        op_code(Op::Pi) == 20,
        op_code(Op::E) == 21,
        op_code(Op::Asin) == 22,
        op_code(Op::Acos) == 23,
        op_code(Op::Atan) == 24,
        op_code(Op::Sinh) == 25,
        op_code(Op::Cosh) == 26,
        op_code(Op::Tanh) == 27,
        op_code(Op::Asinh) == 28,
        op_code(Op::Acosh) == 29,
        op_code(Op::Atanh) == 30,
        op_code(Op::Sec) == 31,
        op_code(Op::Csc) == 32,
        op_code(Op::Cot) == 33,
        op_code(Op::Sign) == 34,
        op_code(Op::Heaviside) == 35,
        op_code(Op::Cbrt) == 36,
        op_code(Op::Mod) == 37,
        op_code(Op::Round) == 38,
        op_code(Op::Log10) == 39,
        op_code(Op::Log2) == 40,
        op_code(Op::Exp2) == 41,
        op_code(Op::Atan2) == 42,
        op_code(Op::Clamp) == 43,
        op_code(Op::Lt) == 44,
        op_code(Op::Gt) == 45,
        op_code(Op::Le) == 46,
        op_code(Op::Ge) == 47,
        op_code(Op::Eq) == 48,
        op_code(Op::Ne) == 49,
        shader_op(op_code(op)) == Some(op),
        op != Op::Nop ==> scalar_delta(op_code(op)) == 1 - op_arity(op),
{
}

impl Op {
    /// Numeric code of the opcode.
    pub fn code(self) -> (c: u32)
        ensures
            c == op_code(self),
            c < 256,
    {
        match self {
            Op::Nop => 0,
            Op::PushConst => 1,
            Op::PushVar => 2,
            Op::Add => 3,
            Op::Sub => 4,
            Op::Mul => 5,
            Op::Div => 6,
            Op::Pow => 7,
            Op::Neg => 8,
            Op::Sin => 9,
            Op::Cos => 10,
            Op::Tan => 11,
            Op::Exp => 12,
            Op::Log => 13,
            Op::Sqrt => 14,
            Op::Abs => 15,
            Op::Min => 16,
            Op::Max => 17,
            Op::Floor => 18,
            Op::Ceil => 19,
            Op::Pi => 20,
            Op::E => 21,
            Op::Asin => 22,
            Op::Acos => 23,
            Op::Atan => 24,
            Op::Sinh => 25,
            Op::Cosh => 26,
            Op::Tanh => 27,
            Op::Asinh => 28,
            Op::Acosh => 29,
            Op::Atanh => 30,
            Op::Sec => 31,
            Op::Csc => 32,
            Op::Cot => 33,
            Op::Sign => 34,
            Op::Heaviside => 35,
            Op::Cbrt => 36,
            Op::Mod => 37,
            Op::Round => 38,
            Op::Log10 => 39,
            Op::Log2 => 40,
            Op::Exp2 => 41,
            Op::Atan2 => 42,
            Op::Clamp => 43,
            Op::Lt => 44,
            Op::Gt => 45,
            Op::Le => 46,
            Op::Ge => 47,
            Op::Eq => 48,
            Op::Ne => 49,
        }
    }

    /// One instruction word: the opcode in the low byte and the operand in
    /// the upper 24 bits (higher operand bits are shifted out).
    pub fn encode(self, operand: u32) -> (word: u32)
        ensures
            word % 256 == op_code(self),
            word / 256 == operand % 0x100_0000,
            word == encoded_word(self, operand),
    {
        let c = self.code();
        let word = c | (operand << 8);
        assert(word % 256 == c && word / 256 == operand % 0x100_0000) by (bit_vector)
            requires
                c < 256,
                word == c | (operand << 8),
        ;

        proof {
            vstd::arithmetic::div_mod::lemma_fundamental_div_mod(word as int, 256);
        }
        word
    }
}

/// An encoded instruction is the opcode or-ed with the operand shifted past
/// the opcode's byte: its low byte is the opcode, and shifting it back gives
/// the operand whenever the operand fits in 24 bits.
pub proof fn lemma_encoded_word_bits(op: Op, operand: u32)
    ensures
        encoded_word(op, operand) == op_code(op) | (operand << 8u32),
        encoded_word(op, operand) & 0xff == op_code(op),
        operand < 0x100_0000 ==> encoded_word(op, operand) >> 8u32 == operand,
{
    let c = op_code(op);
    let w = encoded_word(op, operand);
    assert(c < 256);
    let bits = c | (operand << 8u32);
    assert(bits % 256 == c && bits / 256 == operand % 0x100_0000) by (bit_vector)
        requires
            c < 256,
            bits == c | (operand << 8u32),
    ;
    vstd::arithmetic::div_mod::lemma_fundamental_div_mod(bits as int, 256);
    assert(w == bits);
    assert(w & 0xff == c && (operand < 0x100_0000 ==> w >> 8u32 == operand)) by (bit_vector)
        requires
            c < 256,
            w == c | (operand << 8u32),
    ;
}

/// The opcode of an encoded instruction is the one it was encoded with, and
/// its operand survives when it fits in 24 bits.
pub proof fn lemma_encoded_word_decodes(op: Op, operand: u32, word: u32)
    requires
        word % 256 == op_code(op),
        word / 256 == operand % 0x100_0000,
    ensures
        opcode_of(word) == op_code(op),
        operand < 0x100_0000 ==> word / 256 == operand,
{
}

/// Net change of the stack depth by one opcode: pushes add one value,
/// binary operations and comparisons remove one, `Clamp` removes two, the
/// rest leave the depth unchanged.
pub open spec fn scalar_delta(op: u32) -> int {
    if op == 1 || op == 2 || op == 20 || op == 21 {
        1
    } else if (3 <= op <= 7) || op == 16 || op == 17 || op == 37 || op == 42 || (44 <= op <= 49) {
        -1
    } else if op == 43 {
        -2
    } else {
        0
    }
}

/// Depth after a program and the deepest depth it reaches (starting at 0).
pub open spec fn scalar_trace(code: Seq<u32>) -> (int, int)
    decreases code.len(),
{
    if code.len() == 0 {
        (0, 0)
    } else {
        let (depth, deepest) = scalar_trace(code.drop_last());
        let next = depth + scalar_delta(opcode_of(code.last()));
        (next, if next > deepest {
            next
        } else {
            deepest
        })
    }
}

/// A compiled program fits the shader: at most 4096 words, and its stack
/// never holds more than 32 values.
pub open spec fn scalar_program_fits_spec(code: Seq<u32>) -> bool {
    code.len() <= MAX_SCALAR_CODE && scalar_trace(code).1 <= GPU_SCALAR_STACK_SIZE
}

fn scalar_opcode_delta(instruction: u32) -> (delta: i64)
    ensures
        delta == scalar_delta(opcode_of(instruction)),
{
    let op = instruction % 256;
    if op == 1 || op == 2 || op == 20 || op == 21 {
        1
    } else if (3 <= op && op <= 7) || op == 16 || op == 17 || op == 37 || op == 42 || (44 <= op
        && op <= 49) {
        -1
    } else if op == 43 {
        -2
    } else {
        0
    }
}

/// Whether a compiled program fits the shader's stack and bytecode buffer;
/// the compiler rejects the others as too deep.
pub fn scalar_program_fits_stack(code: &[u32]) -> (ok: bool)
    ensures
        ok == scalar_program_fits_spec(code@),
{
    if code.len() > MAX_SCALAR_CODE {
        return false;
    }
    let mut depth: i64 = 0;
    let mut deepest: i64 = 0;
    let mut i: usize = 0;
    while i < code.len()
        invariant
            i <= code.len() <= MAX_SCALAR_CODE,
            scalar_trace(code@.take(i as int)) == (depth as int, deepest as int),
            -2 * i <= depth <= i,
            0 <= deepest <= i,
        decreases code.len() - i,
    {
        assert(code@.take(i as int + 1).drop_last() =~= code@.take(i as int));
        let delta = scalar_opcode_delta(code[i]);
        depth = depth + delta;
        if depth > deepest {
            deepest = depth;
        }
        i += 1;
    }
    assert(code@.take(code.len() as int) =~= code@);
    deepest <= GPU_SCALAR_STACK_SIZE as i64
}

/// Why an expression cannot be compiled to GPU bytecode.
#[derive(Debug)]
pub enum CompileError {
    /// An expression node the interpreter has no opcode for.
    UnsupportedNode(String),
    /// A variable that is neither mapped to an operand nor a document variable.
    UnsupportedVariable(String),
    /// A `clamp` whose bounds depend on variables.
    RuntimeClampBounds,
    /// Static `clamp` bounds that lose their order when narrowed to `f32`.
    PrecisionLoss,
    /// The program needs more stack slots or bytecode words than the shader has.
    StackTooDeep,
    /// More than 256 constants.
    TooManyConstants,
}

/// Final check of a compiled program: `Err(StackTooDeep)` when it does not
/// fit the shader's stack or bytecode buffer.
pub fn check_program_depth(code: &[u32]) -> (result: Result<(), CompileError>)
    ensures
        result is Ok <==> scalar_program_fits_spec(code@),
        result matches Err(e) ==> e is StackTooDeep,
{
    if scalar_program_fits_stack(code) {
        Ok(())
    } else {
        Err(CompileError::StackTooDeep)
    }
}

/// How the static bounds of a `clamp` behave once evaluated and narrowed to
/// `f32` (decided by the caller from the bounds' values).
#[derive(Debug, Clone, Copy, PartialEq, Eq, Structural)]
pub enum ClampBounds {
    /// A bound depends on a variable.
    Runtime,
    /// Finite ordered bounds that collapse or overflow when narrowed to `f32`.
    PrecisionLoss,
    /// A bound is not finite or the bounds are reversed: the shader yields an
    /// invalid value.
    ForceInvalid,
    /// Finite ordered bounds that keep their order in `f32`.
    Valid,
}

/// An expression as the scalar compiler reads it.
#[derive(Debug)]
pub enum ScalarExpr {
    /// A constant, as the bits of its `f32` narrowing.
    Const(u32),
    /// A named variable.
    Var(String),
    /// A one-argument operation with its opcode.
    Unary(Op, Box<ScalarExpr>),
    /// A two-argument operation or comparison with its opcode.
    Binary(Op, Box<ScalarExpr>, Box<ScalarExpr>),
    /// `clamp(value, lower, upper)` with the kind of its bounds.
    Clamp(Box<ScalarExpr>, Box<ScalarExpr>, Box<ScalarExpr>, ClampBounds),
    /// A node the interpreter has no opcode for, with its name.
    Unsupported(String),
}

/// A compiled program: its instruction words, and its constants as `f32`
/// bits, addressed by the operands of `PushConst`.
#[derive(Debug)]
pub struct BytecodeProgram {
    pub code: Vec<u32>,
    pub constants: Vec<u32>,
}

impl BytecodeProgram {
    /// An empty program.
    pub fn new() -> (prog: Self)
        ensures
            prog.code@.len() == 0,
            prog.constants@.len() == 0,
    {
        BytecodeProgram { code: Vec::new(), constants: Vec::new() }
    }
}

/// Most constants a program may hold.
pub const MAX_SCALAR_CONSTANTS: usize = 256;

/// The value bound to `name` by the first entry of `bindings` that names it.
pub open spec fn lookup_binding(bindings: Seq<(String, u32)>, name: Seq<char>) -> Option<u32>
    decreases bindings.len(),
{
    if bindings.len() == 0 {
        None
    } else if bindings[0].0@ == name {
        Some(bindings[0].1)
    } else {
        lookup_binding(bindings.drop_first(), name)
    }
}

/// What compiling `e` appends, with `held` constants already in the program:
/// its RPN code and its constants, or the first reason it cannot compile,
/// visiting the tree in evaluation order. A variable mapped to an operand is
/// read with `PushVar`; a document variable becomes a constant.
pub open spec fn compile_spec(
    e: ScalarExpr,
    document_vars: Seq<(String, u32)>,
    var_map: Seq<(String, u32)>,
    held: int,
) -> Result<(Seq<u32>, Seq<u32>), CompileError>
    decreases e,
{
    match e {
        ScalarExpr::Const(bits) => if held >= MAX_SCALAR_CONSTANTS {
            Err(CompileError::TooManyConstants)
        } else {
            Ok((seq![encoded_word(Op::PushConst, held as u32)], seq![bits]))
        },
        ScalarExpr::Var(name) => match lookup_binding(var_map, name@) {
            Some(operand) => Ok((seq![encoded_word(Op::PushVar, operand)], Seq::empty())),
            None => match lookup_binding(document_vars, name@) {
                Some(value) => if held >= MAX_SCALAR_CONSTANTS {
                    Err(CompileError::TooManyConstants)
                } else {
                    Ok((seq![encoded_word(Op::PushConst, held as u32)], seq![value]))
                },
                None => Err(CompileError::UnsupportedVariable(name)),
            },
        },
        ScalarExpr::Unary(op, a) => match compile_spec(*a, document_vars, var_map, held) {
            Ok((code, consts)) => Ok((code.push(encoded_word(op, 0)), consts)),
            Err(err) => Err(err),
        },
        ScalarExpr::Binary(op, a, b) => match compile_spec(*a, document_vars, var_map, held) {
            Ok((ca, ka)) => match compile_spec(*b, document_vars, var_map, held + ka.len()) {
                Ok((cb, kb)) => Ok(((ca + cb).push(encoded_word(op, 0)), ka + kb)),
                Err(err) => Err(err),
            },
            Err(err) => Err(err),
        },
        ScalarExpr::Clamp(a, lo, hi, bounds) => if bounds == ClampBounds::Runtime {
            Err(CompileError::RuntimeClampBounds)
        } else if bounds == ClampBounds::PrecisionLoss {
            Err(CompileError::PrecisionLoss)
        } else {
            match compile_spec(*a, document_vars, var_map, held) {
                Ok((ca, ka)) => match compile_spec(*lo, document_vars, var_map, held + ka.len()) {
                    Ok((cl, kl)) => match compile_spec(
                        *hi,
                        document_vars,
                        var_map,
                        held + ka.len() + kl.len(),
                    ) {
                        Ok((ch, kh)) => Ok(
                            (
                                (ca + cl + ch).push(
                                    encoded_word(
                                        Op::Clamp,
                                        if bounds == ClampBounds::ForceInvalid {
                                            CLAMP_FORCE_INVALID_OPERAND
                                        } else {
                                            0
                                        },
                                    ),
                                ),
                                ka + kl + kh,
                            ),
                        ),
                        Err(err) => Err(err),
                    },
                    Err(err) => Err(err),
                },
                Err(err) => Err(err),
            }
        },
        ScalarExpr::Unsupported(name) => Err(CompileError::UnsupportedNode(name)),
    }
}

proof fn lemma_trace_prefix(code: Seq<u32>, k: int)
    requires
        0 <= k <= code.len(),
    ensures
        scalar_trace(code.take(k)).1 <= scalar_trace(code).1,
    decreases code.len() - k,
{
    if k < code.len() {
        lemma_trace_prefix(code, k + 1);
        assert(code.take(k + 1).drop_last() =~= code.take(k));
    } else {
        assert(code.take(k) =~= code);
    }
}

/// A program whose whole code fits the shader fits at every point of its
/// emission.
proof fn lemma_fits_prefix(prefix: Seq<u32>, rest: Seq<u32>)
    requires
        scalar_program_fits_spec(prefix + rest),
    ensures
        scalar_program_fits_spec(prefix),
{
    lemma_trace_prefix(prefix + rest, prefix.len() as int);
    assert((prefix + rest).take(prefix.len() as int) =~= prefix);
}

/// A tree that compiles with constants adds at most up to the limit of 256.
proof fn lemma_compiled_constants_bounded(
    e: ScalarExpr,
    document_vars: Seq<(String, u32)>,
    var_map: Seq<(String, u32)>,
    held: int,
)
    ensures
        compile_spec(e, document_vars, var_map, held) matches Ok((code, consts)) ==> (consts.len()
            > 0 ==> held + consts.len() <= MAX_SCALAR_CONSTANTS),
    decreases e,
{
    match e {
        ScalarExpr::Unary(op, a) => {
            lemma_compiled_constants_bounded(*a, document_vars, var_map, held);
        },
        ScalarExpr::Binary(op, a, b) => {
            lemma_compiled_constants_bounded(*a, document_vars, var_map, held);
            if let Ok((ca, ka)) = compile_spec(*a, document_vars, var_map, held) {
                lemma_compiled_constants_bounded(*b, document_vars, var_map, held + ka.len());
            }
        },
        ScalarExpr::Clamp(a, lo, hi, bounds) => {
            lemma_compiled_constants_bounded(*a, document_vars, var_map, held);
            if let Ok((ca, ka)) = compile_spec(*a, document_vars, var_map, held) {
                lemma_compiled_constants_bounded(*lo, document_vars, var_map, held + ka.len());
                if let Ok((cl, kl)) = compile_spec(*lo, document_vars, var_map, held + ka.len()) {
                    lemma_compiled_constants_bounded(
                        *hi,
                        document_vars,
                        var_map,
                        held + ka.len() + kl.len(),
                    );
                }
            }
        },
        _ => {},
    }
}

fn find_binding(bindings: &[(String, u32)], name: &String) -> (found: Option<u32>)
    ensures
        found == lookup_binding(bindings@, name@),
{
    let mut k: usize = 0;
    assert(bindings@.skip(0) =~= bindings@);
    while k < bindings.len()
        invariant
            k <= bindings@.len(),
            lookup_binding(bindings@.skip(k as int), name@) == lookup_binding(bindings@, name@),
        decreases bindings@.len() - k,
    {
        assert(bindings@.skip(k as int).drop_first() =~= bindings@.skip(k as int + 1));
        if bindings[k].0 == *name {
            return Some(bindings[k].1);
        }
        k = k + 1;
    }
    assert(bindings@.skip(k as int) =~= Seq::<(String, u32)>::empty());
    None
}

/// Pushes a constant, or refuses when the program already holds 256.
fn push_constant(prog: &mut BytecodeProgram, value: u32) -> (r: Result<(), CompileError>)
    ensures
        old(prog).constants@.len() >= MAX_SCALAR_CONSTANTS ==> r == Err::<(), CompileError>(
            CompileError::TooManyConstants,
        ) && *final(prog) == *old(prog),
        old(prog).constants@.len() < MAX_SCALAR_CONSTANTS ==> r is Ok && final(prog).code@
            == old(prog).code@.push(encoded_word(Op::PushConst, old(prog).constants@.len() as u32))
            && final(prog).constants@ == old(prog).constants@.push(value),
{
    if prog.constants.len() >= MAX_SCALAR_CONSTANTS {
        return Err(CompileError::TooManyConstants);
    }
    let index: u32 = prog.constants.len() as u32;
    prog.constants.push(value);
    prog.code.push(Op::PushConst.encode(index));
    Ok(())
}

/// The outcome of the stack check the compiler makes after a node whose
/// emission is `res`, appended to `prefix`: a node that emitted code which,
/// with everything before it, does not fit the shader fails as too deep.
pub open spec fn checked_node(
    prefix: Seq<u32>,
    res: Result<(Seq<u32>, Seq<u32>), CompileError>,
) -> Result<(Seq<u32>, Seq<u32>), CompileError> {
    match res {
        Ok((code, consts)) => if scalar_program_fits_spec(prefix + code) {
            Ok((code, consts))
        } else {
            Err(CompileError::StackTooDeep)
        },
        Err(err) => Err(err),
    }
}

/// What the compiler does with `e` after the code `prefix`, with `held`
/// constants: the tree is visited in evaluation order and the whole program
/// is checked against the shader after each node, so the first failure on
/// the way is the one reported. On success, the code and constants the tree
/// appends.
pub open spec fn compile_run(
    e: ScalarExpr,
    document_vars: Seq<(String, u32)>,
    var_map: Seq<(String, u32)>,
    prefix: Seq<u32>,
    held: int,
) -> Result<(Seq<u32>, Seq<u32>), CompileError>
    decreases e,
{
    match e {
        ScalarExpr::Unary(op, a) => match compile_run(*a, document_vars, var_map, prefix, held) {
            Ok((code, consts)) => checked_node(prefix, Ok((code.push(encoded_word(op, 0)), consts))),
            Err(err) => Err(err),
        },
        ScalarExpr::Binary(op, a, b) => match compile_run(*a, document_vars, var_map, prefix, held) {
            Ok((ca, ka)) => match compile_run(
                *b,
                document_vars,
                var_map,
                prefix + ca,
                held + ka.len(),
            ) {
                Ok((cb, kb)) => checked_node(
                    prefix,
                    Ok(((ca + cb).push(encoded_word(op, 0)), ka + kb)),
                ),
                Err(err) => Err(err),
            },
            Err(err) => Err(err),
        },
        ScalarExpr::Clamp(a, lo, hi, bounds) => if bounds == ClampBounds::Runtime {
            Err(CompileError::RuntimeClampBounds)
        } else if bounds == ClampBounds::PrecisionLoss {
            Err(CompileError::PrecisionLoss)
        } else {
            match compile_run(*a, document_vars, var_map, prefix, held) {
                Ok((ca, ka)) => match compile_run(
                    *lo,
                    document_vars,
                    var_map,
                    prefix + ca,
                    held + ka.len(),
                ) {
                    Ok((cl, kl)) => match compile_run(
                        *hi,
                        document_vars,
                        var_map,
                        prefix + ca + cl,
                        held + ka.len() + kl.len(),
                    ) {
                        Ok((ch, kh)) => checked_node(
                            prefix,
                            Ok(
                                (
                                    (ca + cl + ch).push(
                                        encoded_word(
                                            Op::Clamp,
                                            if bounds == ClampBounds::ForceInvalid {
                                                CLAMP_FORCE_INVALID_OPERAND
                                            } else {
                                                0
                                            },
                                        ),
                                    ),
                                    ka + kl + kh,
                                ),
                            ),
                        ),
                        Err(err) => Err(err),
                    },
                    Err(err) => Err(err),
                },
                Err(err) => Err(err),
            }
        },
        _ => checked_node(prefix, compile_spec(e, document_vars, var_map, held)),
    }
}

/// The run of the compiler agrees with the tree's emission: it succeeds
/// exactly when the tree compiles and the whole program then fits, with the
/// same code and constants; when it fails, the stack overflowed on the way or
/// the tree's own first reason is reported.
pub proof fn lemma_run_agrees_with_emission(
    e: ScalarExpr,
    document_vars: Seq<(String, u32)>,
    var_map: Seq<(String, u32)>,
    prefix: Seq<u32>,
    held: int,
)
    ensures
        compile_run(e, document_vars, var_map, prefix, held) is Ok <==> (compile_spec(
            e,
            document_vars,
            var_map,
            held,
        ) matches Ok((code, _)) && scalar_program_fits_spec(prefix + code)),
        compile_run(e, document_vars, var_map, prefix, held) is Ok ==> compile_run(
            e,
            document_vars,
            var_map,
            prefix,
            held,
        ) == compile_spec(e, document_vars, var_map, held),
        compile_run(e, document_vars, var_map, prefix, held) matches Err(err) ==> (err is StackTooDeep
            || compile_spec(e, document_vars, var_map, held) == Err::<
            (Seq<u32>, Seq<u32>),
            CompileError,
        >(err)),
    decreases e, 1int,
{
    match e {
        ScalarExpr::Unary(op, a) => {
            lemma_run_agrees_with_emission(*a, document_vars, var_map, prefix, held);
            if let Ok((code, consts)) = compile_spec(e, document_vars, var_map, held) {
                let ca = compile_spec(*a, document_vars, var_map, held)->Ok_0.0;
                assert(prefix + code =~= (prefix + ca) + seq![encoded_word(op, 0)]);
                if scalar_program_fits_spec(prefix + code) {
                    lemma_fits_prefix(prefix + ca, seq![encoded_word(op, 0)]);
                }
            }
        },
        ScalarExpr::Binary(..) => {
            lemma_binary_run_agrees(e, document_vars, var_map, prefix, held);
        },
        ScalarExpr::Clamp(..) => {
            lemma_clamp_run_agrees(e, document_vars, var_map, prefix, held);
        },
        _ => {},
    }
}

proof fn lemma_binary_run_agrees(
    e: ScalarExpr,
    document_vars: Seq<(String, u32)>,
    var_map: Seq<(String, u32)>,
    prefix: Seq<u32>,
    held: int,
)
    requires
        e is Binary,
    ensures
        compile_run(e, document_vars, var_map, prefix, held) is Ok <==> (compile_spec(
            e,
            document_vars,
            var_map,
            held,
        ) matches Ok((code, _)) && scalar_program_fits_spec(prefix + code)),
        compile_run(e, document_vars, var_map, prefix, held) is Ok ==> compile_run(
            e,
            document_vars,
            var_map,
            prefix,
            held,
        ) == compile_spec(e, document_vars, var_map, held),
        compile_run(e, document_vars, var_map, prefix, held) matches Err(err) ==> (err is StackTooDeep
            || compile_spec(e, document_vars, var_map, held) == Err::<
            (Seq<u32>, Seq<u32>),
            CompileError,
        >(err)),
    decreases e, 0int,
{
    if let ScalarExpr::Binary(op, a, b) = e {
        lemma_run_agrees_with_emission(*a, document_vars, var_map, prefix, held);
        if let Ok((ca, ka)) = compile_spec(*a, document_vars, var_map, held) {
            lemma_run_agrees_with_emission(
                *b,
                document_vars,
                var_map,
                prefix + ca,
                held + ka.len(),
            );
            if let Ok((cb, kb)) = compile_spec(*b, document_vars, var_map, held + ka.len()) {
                let w = encoded_word(op, 0);
                let code = (ca + cb).push(w);
                assert(prefix + code =~= (prefix + ca) + cb.push(w));
                assert(prefix + code =~= ((prefix + ca) + cb) + seq![w]);
                if scalar_program_fits_spec(prefix + code) {
                    lemma_fits_prefix(prefix + ca, cb.push(w));
                    lemma_fits_prefix((prefix + ca) + cb, seq![w]);
                }
            }
        }
    }
}

proof fn lemma_clamp_run_agrees(
    e: ScalarExpr,
    document_vars: Seq<(String, u32)>,
    var_map: Seq<(String, u32)>,
    prefix: Seq<u32>,
    held: int,
)
    requires
        e is Clamp,
    ensures
        compile_run(e, document_vars, var_map, prefix, held) is Ok <==> (compile_spec(
            e,
            document_vars,
            var_map,
            held,
        ) matches Ok((code, _)) && scalar_program_fits_spec(prefix + code)),
        compile_run(e, document_vars, var_map, prefix, held) is Ok ==> compile_run(
            e,
            document_vars,
            var_map,
            prefix,
            held,
        ) == compile_spec(e, document_vars, var_map, held),
        compile_run(e, document_vars, var_map, prefix, held) matches Err(err) ==> (err is StackTooDeep
            || compile_spec(e, document_vars, var_map, held) == Err::<
            (Seq<u32>, Seq<u32>),
            CompileError,
        >(err)),
    decreases e, 0int,
{
    if let ScalarExpr::Clamp(a, lo, hi, bounds) = e {
        if bounds != ClampBounds::Runtime && bounds != ClampBounds::PrecisionLoss {
            lemma_run_agrees_with_emission(*a, document_vars, var_map, prefix, held);
            if let Ok((ca, ka)) = compile_spec(*a, document_vars, var_map, held) {
                lemma_run_agrees_with_emission(
                    *lo,
                    document_vars,
                    var_map,
                    prefix + ca,
                    held + ka.len(),
                );
                if let Ok((cl, kl)) = compile_spec(*lo, document_vars, var_map, held + ka.len()) {
                    lemma_run_agrees_with_emission(
                        *hi,
                        document_vars,
                        var_map,
                        prefix + ca + cl,
                        held + ka.len() + kl.len(),
                    );
                    if let Ok((ch, kh)) = compile_spec(
                        *hi,
                        document_vars,
                        var_map,
                        held + ka.len() + kl.len(),
                    ) {
                        let w = encoded_word(
                            Op::Clamp,
                            if bounds == ClampBounds::ForceInvalid {
                                CLAMP_FORCE_INVALID_OPERAND
                            } else {
                                0
                            },
                        );
                        let code = (ca + cl + ch).push(w);
                        assert(prefix + code =~= (prefix + ca) + (cl + ch).push(w));
                        assert(prefix + code =~= ((prefix + ca) + cl) + ch.push(w));
                        assert(prefix + code =~= (((prefix + ca) + cl) + ch) + seq![w]);
                        if scalar_program_fits_spec(prefix + code) {
                            lemma_fits_prefix(prefix + ca, (cl + ch).push(w));
                            lemma_fits_prefix((prefix + ca) + cl, ch.push(w));
                            lemma_fits_prefix(((prefix + ca) + cl) + ch, seq![w]);
                        }
                    }
                }
            }
        }
    }
}

/// `r` is what compiling a tree whose emission is `res` into `before` gave,
/// leaving `after`: `Ok` exactly when the tree compiles and the whole program
/// then fits the shader, in which case its code and constants were appended;
/// otherwise the stack check failed on the way or the tree's own first
/// reason is reported.
pub open spec fn compiled_as(
    res: Result<(Seq<u32>, Seq<u32>), CompileError>,
    before: BytecodeProgram,
    after: BytecodeProgram,
    r: Result<(), CompileError>,
) -> bool {
    &&& r is Ok <==> (res matches Ok((code, _)) && scalar_program_fits_spec(before.code@ + code))
    &&& r is Ok ==> (res matches Ok((code, consts)) && after.code@ == before.code@ + code
        && after.constants@ == before.constants@ + consts)
    &&& r matches Err(e) ==> (e is StackTooDeep || res == Err::<(Seq<u32>, Seq<u32>), CompileError>(
        e,
    ))
}

/// `r` is the outcome of the compiler's run `run` into `before`, leaving
/// `after`: the run's error exactly, or success with its code and constants
/// appended.
pub open spec fn ran_as(
    run: Result<(Seq<u32>, Seq<u32>), CompileError>,
    before: BytecodeProgram,
    after: BytecodeProgram,
    r: Result<(), CompileError>,
) -> bool {
    match run {
        Ok((code, consts)) => r is Ok && after.code@ == before.code@ + code && after.constants@
            == before.constants@ + consts,
        Err(err) => r == Err::<(), CompileError>(err),
    }
}

/// Compiles an expression into RPN bytecode for the scalar interpreter,
/// appending to `prog`. Variables listed in `var_map` are read from the
/// operand they map to; other variables must be document variables, whose
/// values are baked in as constants; constants are addressed by index, at
/// most 256 in all. After each node the whole program is checked against the
/// shader's stack and bytecode buffer, so the first failure in evaluation
/// order is reported. A failure leaves the caller to fall back to the CPU
/// evaluator.
#[verifier::rlimit(60)]
#[verifier::spinoff_prover]
pub fn compile_expr_with_mapping(
    expr: &ScalarExpr,
    document_vars: &[(String, u32)],
    var_map: &[(String, u32)],
    prog: &mut BytecodeProgram,
) -> (r: Result<(), CompileError>)
    ensures
        ran_as(
            compile_run(
                *expr,
                document_vars@,
                var_map@,
                old(prog).code@,
                old(prog).constants@.len() as int,
            ),
            *old(prog),
            *final(prog),
            r,
        ),
        compiled_as(
            compile_spec(*expr, document_vars@, var_map@, old(prog).constants@.len() as int),
            *old(prog),
            *final(prog),
            r,
        ),
        r is Ok ==> (compile_spec(*expr, document_vars@, var_map@, old(prog).constants@.len() as int)
            matches Ok((_, consts)) && (consts.len() > 0 ==> final(prog).constants@.len()
            <= MAX_SCALAR_CONSTANTS)),
    decreases expr,
{
    let ghost before = *prog;
    let ghost held = before.constants@.len() as int;
    proof {
        lemma_compiled_constants_bounded(*expr, document_vars@, var_map@, held);
        lemma_run_agrees_with_emission(*expr, document_vars@, var_map@, before.code@, held);
    }
    match expr {
        ScalarExpr::Const(bits) => {
            match push_constant(prog, *bits) {
                Err(e) => {
                    return Err(e);
                },
                Ok(()) => {},
            }
            proof {
                assert(prog.code@ =~= before.code@ + seq![encoded_word(Op::PushConst, held as u32)]);
                assert(prog.constants@ =~= before.constants@ + seq![*bits]);
            }
        },
        ScalarExpr::Var(name) => {
            match find_binding(var_map, name) {
                Some(operand) => {
                    prog.code.push(Op::PushVar.encode(operand));
                    proof {
                        assert(prog.code@ =~= before.code@ + seq![encoded_word(Op::PushVar, operand)]);
                        assert(prog.constants@ =~= before.constants@ + Seq::<u32>::empty());
                    }
                },
                None => match find_binding(document_vars, name) {
                    Some(value) => {
                        match push_constant(prog, value) {
                            Err(e) => {
                                return Err(e);
                            },
                            Ok(()) => {},
                        }
                        proof {
                            assert(prog.code@ =~= before.code@ + seq![
                                encoded_word(Op::PushConst, held as u32),
                            ]);
                            assert(prog.constants@ =~= before.constants@ + seq![value]);
                        }
                    },
                    None => {
                        return Err(CompileError::UnsupportedVariable(name.clone()));
                    },
                },
            }
        },
        ScalarExpr::Unary(op, a) => {
            let ra = compile_expr_with_mapping(a, document_vars, var_map, prog);
            if let Err(e) = ra {
                return Err(e);
            }
            let ghost ca = compile_run(**a, document_vars@, var_map@, before.code@, held)->Ok_0.0;
            prog.code.push(op.encode(0));
            proof {
                assert(prog.code@ =~= before.code@ + ca.push(encoded_word(*op, 0)));
            }
        },
        ScalarExpr::Binary(op, a, b) => {
            let ra = compile_expr_with_mapping(a, document_vars, var_map, prog);
            if let Err(e) = ra {
                return Err(e);
            }
            let ghost ca = compile_run(**a, document_vars@, var_map@, before.code@, held)->Ok_0.0;
            let ghost ka = compile_run(**a, document_vars@, var_map@, before.code@, held)->Ok_0.1;
            let rb = compile_expr_with_mapping(b, document_vars, var_map, prog);
            if let Err(e) = rb {
                return Err(e);
            }
            let ghost cb = compile_run(
                **b,
                document_vars@,
                var_map@,
                before.code@ + ca,
                held + ka.len(),
            )->Ok_0.0;
            let ghost kb = compile_run(
                **b,
                document_vars@,
                var_map@,
                before.code@ + ca,
                held + ka.len(),
            )->Ok_0.1;
            prog.code.push(op.encode(0));
            proof {
                assert(prog.code@ =~= before.code@ + (ca + cb).push(encoded_word(*op, 0)));
                assert(prog.constants@ =~= before.constants@ + (ka + kb));
            }
        },
        ScalarExpr::Clamp(a, lo, hi, bounds) => {
            match bounds {
                ClampBounds::Runtime => {
                    return Err(CompileError::RuntimeClampBounds);
                },
                ClampBounds::PrecisionLoss => {
                    return Err(CompileError::PrecisionLoss);
                },
                _ => {},
            }
            let operand: u32 = match bounds {
                ClampBounds::ForceInvalid => CLAMP_FORCE_INVALID_OPERAND,
                _ => 0,
            };
            let ghost w = encoded_word(Op::Clamp, operand);
            let ra = compile_expr_with_mapping(a, document_vars, var_map, prog);
            if let Err(e) = ra {
                return Err(e);
            }
            let ghost ca = compile_run(**a, document_vars@, var_map@, before.code@, held)->Ok_0.0;
            let ghost ka = compile_run(**a, document_vars@, var_map@, before.code@, held)->Ok_0.1;
            let rl = compile_expr_with_mapping(lo, document_vars, var_map, prog);
            if let Err(e) = rl {
                return Err(e);
            }
            let ghost cl = compile_run(
                **lo,
                document_vars@,
                var_map@,
                before.code@ + ca,
                held + ka.len(),
            )->Ok_0.0;
            let ghost kl = compile_run(
                **lo,
                document_vars@,
                var_map@,
                before.code@ + ca,
                held + ka.len(),
            )->Ok_0.1;
            let rh = compile_expr_with_mapping(hi, document_vars, var_map, prog);
            if let Err(e) = rh {
                return Err(e);
            }
            let ghost ch = compile_run(
                **hi,
                document_vars@,
                var_map@,
                before.code@ + ca + cl,
                held + ka.len() + kl.len(),
            )->Ok_0.0;
            let ghost kh = compile_run(
                **hi,
                document_vars@,
                var_map@,
                before.code@ + ca + cl,
                held + ka.len() + kl.len(),
            )->Ok_0.1;
            prog.code.push(Op::Clamp.encode(operand));
            proof {
                assert(prog.code@ =~= before.code@ + (ca + cl + ch).push(w));
                assert(prog.constants@ =~= before.constants@ + (ka + kl + kh));
            }
        },
        ScalarExpr::Unsupported(name) => {
            return Err(CompileError::UnsupportedNode(name.clone()));
        },
    }
    check_program_depth(prog.code.as_slice())
}

/// Cap on the implicit grid side at each render quality, below the limit of
/// the contouring code.
pub open spec fn implicit_quality_cap(quality: RenderQuality, max_implicit_grid: int) -> int {
    match quality {
        RenderQuality::Preview => 128,
        RenderQuality::Normal => 512,
        RenderQuality::High => max_implicit_grid,
    }
}

/// Side of the implicit grid for a view: the side recommended for the screen,
/// capped at 128 for a preview, 512 at normal quality and at the contouring
/// limit `max_implicit_grid` at high quality.
pub fn implicit_grid_size_for_quality(
    recommended: usize,
    quality: RenderQuality,
    max_implicit_grid: usize,
) -> (side: usize)
    ensures
        side == if recommended <= implicit_quality_cap(quality, max_implicit_grid as int) {
            recommended as int
        } else {
            implicit_quality_cap(quality, max_implicit_grid as int)
        },
{
    let cap: usize = match quality {
        RenderQuality::Preview => 128,
        RenderQuality::Normal => 512,
        RenderQuality::High => max_implicit_grid,
    };
    if recommended <= cap {
        recommended
    } else {
        cap
    }
}

/// The sampled shape of an implicit grid of side `grid_size`: `grid_size + 1`
/// samples per axis and their square in all.
#[derive(Debug, Clone, Copy, PartialEq, Eq, Structural)]
pub struct ImplicitGridShape {
    pub sample_axis: usize,
    pub sample_count: usize,
}

/// The shape of the grid an implicit pipeline built for `max_grid` evaluates:
/// `None` for an empty grid, one above `max_grid` or above the contouring
/// limit, or one whose sample count does not fit in `usize`.
pub fn implicit_grid_shape(grid_size: usize, max_grid: usize, max_implicit_grid: usize) -> (shape:
    Option<ImplicitGridShape>)
    ensures
        shape is Some <==> (1 <= grid_size && grid_size <= max_grid && grid_size
            <= max_implicit_grid && (grid_size + 1) * (grid_size + 1) <= usize::MAX),
        shape matches Some(s) ==> s.sample_axis == grid_size + 1 && s.sample_count == (grid_size
            + 1) * (grid_size + 1),
{
    if grid_size == 0 || grid_size > max_grid || grid_size > max_implicit_grid {
        return None;
    }
    let sample_axis: usize = match grid_size.checked_add(1) {
        Some(a) => a,
        None => {
            assert((grid_size + 1) * (grid_size + 1) > usize::MAX) by (nonlinear_arith)
                requires
                    grid_size + 1 > usize::MAX,
            ;
            return None;
        },
    };
    match sample_axis.checked_mul(sample_axis) {
        Some(count) => Some(ImplicitGridShape { sample_axis, sample_count: count }),
        None => None,
    }
}

/// The field read back row by row: row `j`, column `i` is the value at
/// `j * (grid_size + 1) + i`, and `missing` where the readback is too short.
pub open spec fn field_value<T>(values: Seq<T>, grid_size: int, i: int, j: int, missing: T) -> T {
    let index = j * (grid_size + 1) + i;
    if index < values.len() {
        values[index]
    } else {
        missing
    }
}

/// Gathers the `(grid_size + 1)²` field values of a readback into rows,
/// putting `missing` where the readback is too short instead of failing.
pub fn mapped_field_rows<T: Copy>(values: &[T], grid_size: usize, missing: T) -> (rows: Vec<
    Vec<T>,
>)
    requires
        (grid_size + 1) * (grid_size + 1) <= usize::MAX,
    ensures
        rows@.len() == grid_size + 1,
        forall|j: int|
            0 <= j <= grid_size ==> (#[trigger] rows@[j])@.len() == grid_size + 1,
        forall|j: int, i: int|
            #![trigger rows@[j]@[i]]
            0 <= j <= grid_size && 0 <= i <= grid_size ==> rows@[j]@[i] == field_value(
                values@,
                grid_size as int,
                i,
                j,
                missing,
            ),
{
    assert(grid_size + 1 <= (grid_size + 1) * (grid_size + 1)) by (nonlinear_arith)
        requires
            grid_size >= 0,
    ;
    let side: usize = grid_size + 1;
    let len: usize = values.len();
    let mut rows: Vec<Vec<T>> = Vec::new();
    let mut j: usize = 0;
    while j < side
        invariant
            side == grid_size + 1,
            side * side <= usize::MAX,
            len == values@.len(),
            j <= side,
            rows@.len() == j,
            forall|q: int| 0 <= q < j ==> (#[trigger] rows@[q])@.len() == side,
            forall|q: int, i: int|
                #![trigger rows@[q]@[i]]
                0 <= q < j && 0 <= i < side ==> rows@[q]@[i] == field_value(
                    values@,
                    grid_size as int,
                    i,
                    q,
                    missing,
                ),
        decreases side - j,
    {
        let mut row: Vec<T> = Vec::new();
        let mut i: usize = 0;
        while i < side
            invariant
                side == grid_size + 1,
                side * side <= usize::MAX,
                len == values@.len(),
                j < side,
                i <= side,
                row@.len() == i,
                forall|c: int|
                    0 <= c < i ==> #[trigger] row@[c] == field_value(
                        values@,
                        grid_size as int,
                        c,
                        j as int,
                        missing,
                    ),
            decreases side - i,
        {
            assert(j * side + i < side * side) by (nonlinear_arith)
                requires
                    j < side,
                    i < side,
            ;
            let index: usize = j * side + i;
            let value: T = if index < len {
                values[index]
            } else {
                missing
            };
            row.push(value);
            i = i + 1;
        }
        rows.push(row);
        j = j + 1;
    }
    rows
}

/// A scalar-field dispatch in flight: its grid side and the readback wait.
#[derive(Debug)]
pub struct PendingImplicitEval {
    grid_size: usize,
    wait: PendingGpuReadback,
}

impl PendingImplicitEval {
    /// Side of the evaluated grid.
    pub closed spec fn grid_size_spec(&self) -> usize {
        self.grid_size
    }

    /// The readback wait of the dispatch.
    pub closed spec fn wait_state(&self) -> PendingGpuReadback {
        self.wait
    }

    /// Pairs a dispatched grid side with its readback wait.
    pub fn new(grid_size: usize, wait: PendingGpuReadback) -> (pending: Self)
        ensures
            pending.grid_size_spec() == grid_size,
            pending.wait_state() == wait,
    {
        PendingImplicitEval { grid_size, wait }
    }

    /// Side of the evaluated grid.
    pub fn grid_size(&self) -> (size: usize)
        ensures
            size == self.grid_size_spec(),
    {
        self.grid_size
    }

    /// Non-blocking poll of the readback wait.
    pub fn poll(&mut self) -> (answer: ReadbackPoll)
        ensures
            PendingGpuReadback::polled(old(self).wait_state(), final(self).wait_state(), answer),
            final(self).grid_size_spec() == old(self).grid_size_spec(),
    {
        self.wait.poll()
    }
}

/// State of the background thread that extracts contours from a field.
#[derive(Debug, Clone, Copy, PartialEq, Eq, Structural)]
pub enum SegmentsPoll {
    /// The segments are ready.
    Ready,
    /// The thread is still running.
    Pending,
    /// The thread ended without sending segments.
    Gone,
}

/// What a frame observed of an implicit-curve job in flight.
#[derive(Debug, Clone, Copy, PartialEq, Eq, Structural)]
pub enum ImplicitObservation {
    /// The job was waiting for its readback: whether the field rows could be
    /// read back, and whether their non-finite cells match the CPU evaluator.
    Mapped { rows_ready: bool, field_matches_cpu: bool },
    /// The job was extracting contours on a background thread.
    Contour(SegmentsPoll),
}

/// What the frame does with the job.
#[derive(Debug, Clone, Copy, PartialEq, Eq, Structural)]
pub enum ImplicitJobAction {
    /// The object changed since the dispatch: release the readback and drop
    /// the job without writing the cache.
    DiscardStale,
    /// The GPU path failed: drop the job; the caller falls back to the CPU.
    GiveUp,
    /// Start contour extraction on a background thread and keep the job.
    SpawnContour,
    /// Keep the job for a later frame.
    KeepWaiting,
    /// Write the segments into the object's cache; the job is done.
    Publish,
}

/// Decision for one frame of an implicit-curve job.
pub open spec fn implicit_job_step_spec(key_is_fresh: bool, observation: ImplicitObservation) -> ImplicitJobAction {
    if !key_is_fresh {
        ImplicitJobAction::DiscardStale
    } else {
        match observation {
            ImplicitObservation::Mapped { rows_ready, field_matches_cpu } => if rows_ready
                && field_matches_cpu {
                ImplicitJobAction::SpawnContour
            } else {
                ImplicitJobAction::GiveUp
            },
            ImplicitObservation::Contour(poll) => match poll {
                SegmentsPoll::Ready => ImplicitJobAction::Publish,
                SegmentsPoll::Pending => ImplicitJobAction::KeepWaiting,
                SegmentsPoll::Gone => ImplicitJobAction::GiveUp,
            },
        }
    }
}

/// Whether the job ends with the action, and if so whether the cache was
/// populated (`None`: the job continues).
pub open spec fn job_outcome(action: ImplicitJobAction) -> Option<bool> {
    match action {
        ImplicitJobAction::DiscardStale | ImplicitJobAction::GiveUp => Some(false),
        ImplicitJobAction::Publish => Some(true),
        ImplicitJobAction::SpawnContour | ImplicitJobAction::KeepWaiting => None,
    }
}

/// Advances an implicit-curve job by one frame: a stale job is discarded
/// first; a read-back field whose non-finite cells match the CPU starts
/// contour extraction; ready segments are published; a running extraction
/// keeps waiting; every failure gives up.
pub fn implicit_job_step(key_is_fresh: bool, observation: ImplicitObservation) -> (action:
    ImplicitJobAction)
    ensures
        action == implicit_job_step_spec(key_is_fresh, observation),
{
    if !key_is_fresh {
        return ImplicitJobAction::DiscardStale;
    }
    match observation {
        ImplicitObservation::Mapped { rows_ready, field_matches_cpu } => {
            if rows_ready && field_matches_cpu {
                ImplicitJobAction::SpawnContour
            } else {
                ImplicitJobAction::GiveUp
            }
        },
        ImplicitObservation::Contour(poll) => match poll {
            SegmentsPoll::Ready => ImplicitJobAction::Publish,
            SegmentsPoll::Pending => ImplicitJobAction::KeepWaiting,
            SegmentsPoll::Gone => ImplicitJobAction::GiveUp,
        },
    }
}

/// The cache is written only for a fresh job whose segments are ready, and a
/// stale job never writes it.
pub proof fn lemma_only_fresh_ready_jobs_publish(key_is_fresh: bool, observation: ImplicitObservation)
    ensures
        job_outcome(implicit_job_step_spec(key_is_fresh, observation)) == Some(true) <==> (
        key_is_fresh && observation == ImplicitObservation::Contour(SegmentsPoll::Ready)),
        !key_is_fresh ==> job_outcome(implicit_job_step_spec(key_is_fresh, observation)) == Some(
            false,
        ),
{
}

} // verus!
