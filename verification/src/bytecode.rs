//! Stack discipline shared by the bytecode interpreters of the compute shaders.
//!
//! Each instruction word carries its opcode in the low byte. An interpreter
//! classifies the opcode by its effect on the value stack; a program is
//! accepted for the GPU only when no instruction underflows or overflows the
//! fixed-size stack and exactly one value is left at the end.

use vstd::prelude::*;

verus! {

/// Effect of one opcode on the interpreter's value stack.
#[derive(Debug, Clone, Copy, PartialEq, Eq, Structural)]
pub enum StackEffect {
    /// Leaves the stack unchanged and needs nothing on it.
    Nop,
    /// Pushes one value.
    Push,
    /// Pops two values and pushes one.
    Binary,
    /// Replaces the top value.
    Unary,
    /// Not executable by this interpreter.
    Unsupported,
}

/// Opcode held in the low byte of an instruction word.
pub open spec fn opcode_of(instruction: u32) -> u32 {
    instruction % 256
}

/// Stack depth after one instruction with effect `effect` at depth `depth`,
/// or `None` when the instruction cannot run there.
pub open spec fn stack_step(depth: int, effect: StackEffect, limit: int) -> Option<int> {
    match effect {
        StackEffect::Nop => Some(depth),
        StackEffect::Push => if depth == limit {
            None
        } else {
            Some(depth + 1)
        },
        StackEffect::Binary => if depth < 2 {
            None
        } else {
            Some(depth - 1)
        },
        StackEffect::Unary => if depth == 0 {
            None
        } else {
            Some(depth)
        },
        StackEffect::Unsupported => None,
    }
}

/// Stack depth after running `effects` from depth `depth`, or `None` when
/// some instruction cannot run.
pub open spec fn stack_run(effects: Seq<StackEffect>, depth: int, limit: int) -> Option<int>
    decreases effects.len(),
{
    if effects.len() == 0 {
        Some(depth)
    } else {
        match stack_step(depth, effects[0], limit) {
            Some(next) => stack_run(effects.drop_first(), next, limit),
            None => None,
        }
    }
}

/// Depth reached by one instruction, computed at run time.
pub fn apply_stack_effect(depth: usize, effect: StackEffect, limit: usize) -> (next: Option<usize>)
    requires
        depth <= limit,
    ensures
        match next {
            Some(d) => stack_step(depth as int, effect, limit as int) == Some(d as int) && d
                <= limit,
            None => stack_step(depth as int, effect, limit as int) is None,
        },
{
    match effect {
        StackEffect::Nop => Some(depth),
        StackEffect::Push => {
            if depth == limit {
                None
            } else {
                Some(depth + 1)
            }
        },
        StackEffect::Binary => {
            if depth < 2 {
                None
            } else {
                Some(depth - 1)
            }
        },
        StackEffect::Unary => {
            if depth == 0 {
                None
            } else {
                Some(depth)
            }
        },
        StackEffect::Unsupported => None,
    }
}

} // verus!
