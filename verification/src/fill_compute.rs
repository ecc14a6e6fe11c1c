//! Preflight of the GPU pipeline that rasterises the region of an implicit
//! inequality `lhs <op> rhs` into a fill mask.

use crate::RelationOperator;
use vstd::prelude::*;

verus! {

/// Pixels the mask buffers hold (4096 × 4096).
pub const MAX_PIXELS: usize = 16_777_216;

/// Code of each fillable operator in the shader; `Eq` is a contour, not a
/// region, and has none.
pub open spec fn fill_operator_code_spec(operator: RelationOperator) -> Option<u32> {
    match operator {
        RelationOperator::Less => Some(0u32),
        RelationOperator::LessEq => Some(1u32),
        RelationOperator::Greater => Some(2u32),
        RelationOperator::GreaterEq => Some(3u32),
        RelationOperator::Eq => None,
    }
}

/// Shader code of a fillable operator; `None` for `Eq`.
pub fn fill_operator_code(operator: RelationOperator) -> (code: Option<u32>)
    ensures
        code == fill_operator_code_spec(operator),
{
    match operator {
        RelationOperator::Less => Some(0),
        RelationOperator::LessEq => Some(1),
        RelationOperator::Greater => Some(2),
        RelationOperator::GreaterEq => Some(3),
        RelationOperator::Eq => None,
    }
}

/// Pixels of a `width` × `height` mask; `None` for an empty canvas or one
/// larger than the buffers.
pub fn fill_canvas_pixels(width: u32, height: u32) -> (pixels: Option<usize>)
    ensures
        pixels is Some <==> (width > 0 && height > 0 && width * height <= MAX_PIXELS),
        pixels matches Some(p) ==> p == width * height,
{
    if width == 0 || height == 0 {
        return None;
    }
    let w = width as u64;
    let h = height as u64;
    assert(w * h <= u64::MAX) by (nonlinear_arith)
        requires
            w <= u32::MAX,
            h <= u32::MAX,
    ;
    let pixels = w * h;
    if pixels > MAX_PIXELS as u64 {
        return None;
    }
    Some(pixels as usize)
}

/// Whether `lhs <op> rhs` holds, for a fillable operator.
pub open spec fn relation_holds(operator: RelationOperator, lhs: int, rhs: int) -> bool {
    match operator {
        RelationOperator::Less => lhs < rhs,
        RelationOperator::LessEq => lhs <= rhs,
        RelationOperator::Greater => lhs > rhs,
        RelationOperator::GreaterEq => lhs >= rhs,
        RelationOperator::Eq => lhs == rhs,
    }
}

/// Whether the fill shader marks a pixel with values `lhs`, `rhs` under
/// operator code `code`: 0 marks `lhs < rhs`, 1 `lhs <= rhs`, 2 `lhs > rhs`,
/// 3 `lhs >= rhs`.
pub open spec fn shader_fills(code: u32, lhs: int, rhs: int) -> bool {
    if code == 0 {
        lhs < rhs
    } else if code == 1 {
        lhs <= rhs
    } else if code == 2 {
        lhs > rhs
    } else if code == 3 {
        lhs >= rhs
    } else {
        false
    }
}

/// The shader fills exactly the region of the requested inequality: for
/// every fillable operator and all values, the code it is given marks a
/// pixel exactly when the inequality holds there. The codes are
/// `Less = 0`, `LessEq = 1`, `Greater = 2`, `GreaterEq = 3`, and `Eq` has
/// none.
pub proof fn lemma_fill_code_fills_the_requested_region(
    operator: RelationOperator,
    lhs: int,
    rhs: int,
)
    ensures
        operator is Eq <==> fill_operator_code_spec(operator) is None,
        fill_operator_code_spec(operator) matches Some(code) ==> (shader_fills(code, lhs, rhs)
            <==> relation_holds(operator, lhs, rhs)),
        fill_operator_code_spec(RelationOperator::Less) == Some(0u32),
        fill_operator_code_spec(RelationOperator::LessEq) == Some(1u32),
        fill_operator_code_spec(RelationOperator::Greater) == Some(2u32),
        fill_operator_code_spec(RelationOperator::GreaterEq) == Some(3u32),
{
}

} // verus!
