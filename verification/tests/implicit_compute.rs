use grafito_render::function_compute::{
    check_function_program, function_job_step, function_sample_count, FunctionJobAction,
};
use grafito_render::RenderQuality;
use grafito_render::implicit_compute::{
    compile_expr_with_mapping, BytecodeProgram, ClampBounds, ScalarExpr,
};
use grafito_render::implicit_compute::{
    check_program_depth, implicit_grid_shape, implicit_grid_size_for_quality, implicit_job_step,
    mapped_field_rows, scalar_program_fits_stack, CompileError, ImplicitGridShape,
    ImplicitJobAction, ImplicitObservation, Op, PendingImplicitEval, SegmentsPoll,
};
use grafito_render::function_compute::PendingFunctionEval;
use grafito_render::gpu_readback::{PendingGpuReadback, ReadbackPoll};
use std::sync::atomic::AtomicBool;
use std::sync::Arc;
use std::time::Duration;

#[test]
fn encoded_words_hold_opcode_and_operand() {
    assert_eq!(Op::PushConst.encode(5), 1 | (5 << 8));
    assert_eq!(Op::Ne.encode(0), 49);
    assert_eq!(Op::Clamp.encode(1), 43 | (1 << 8));
    assert_eq!(Op::PushVar.encode(0x0100_0001), 2 | (1 << 8));
    assert_eq!(Op::Atan2.code(), 42);
}

#[test]
fn stack_check_accepts_exactly_32_slots() {
    let mut code = vec![Op::PushVar.encode(0); 32];
    code.extend(vec![Op::Min.encode(0); 31]);
    assert!(scalar_program_fits_stack(&code));
    let mut deeper = vec![Op::PushVar.encode(0); 33];
    deeper.extend(vec![Op::Min.encode(0); 32]);
    assert!(!scalar_program_fits_stack(&deeper));
    assert!(matches!(check_program_depth(&deeper), Err(CompileError::StackTooDeep)));
    assert!(check_program_depth(&code).is_ok());
}

#[test]
fn clamp_frees_two_slots_and_long_programs_are_rejected() {
    let code = [
        Op::PushVar.encode(0),
        Op::PushConst.encode(0),
        Op::PushConst.encode(1),
        Op::Clamp.encode(0),
    ];
    assert!(scalar_program_fits_stack(&code));
    assert!(!scalar_program_fits_stack(&vec![Op::Sin.encode(0); 4097]));
    assert!(scalar_program_fits_stack(&vec![Op::Sin.encode(0); 4096]));
}

#[test]
fn function_programs_may_only_read_x() {
    assert!(check_function_program(&[Op::PushVar.encode(0), Op::Sin.encode(0)]).is_ok());
    match check_function_program(&[Op::PushVar.encode(1)]) {
        Err(CompileError::UnsupportedVariable(name)) => assert_eq!(name, "y"),
        other => panic!("unexpected {:?}", other),
    }
    // A constant with operand 1 is not a variable read.
    assert!(check_function_program(&[Op::PushConst.encode(1)]).is_ok());
}

#[test]
fn implicit_jobs_discard_stale_results_first() {
    let ready = ImplicitObservation::Contour(SegmentsPoll::Ready);
    assert_eq!(implicit_job_step(false, ready), ImplicitJobAction::DiscardStale);
    assert_eq!(implicit_job_step(true, ready), ImplicitJobAction::Publish);
    assert_eq!(
        implicit_job_step(true, ImplicitObservation::Contour(SegmentsPoll::Pending)),
        ImplicitJobAction::KeepWaiting
    );
    assert_eq!(
        implicit_job_step(true, ImplicitObservation::Contour(SegmentsPoll::Gone)),
        ImplicitJobAction::GiveUp
    );
    assert_eq!(
        implicit_job_step(
            true,
            ImplicitObservation::Mapped {
                rows_ready: true,
                field_matches_cpu: true
            }
        ),
        ImplicitJobAction::SpawnContour
    );
    assert_eq!(
        implicit_job_step(
            true,
            ImplicitObservation::Mapped {
                rows_ready: true,
                field_matches_cpu: false
            }
        ),
        ImplicitJobAction::GiveUp
    );
}

#[test]
fn function_jobs_check_staleness_then_cache() {
    assert_eq!(function_job_step(false, true), FunctionJobAction::DiscardStale);
    assert_eq!(function_job_step(true, true), FunctionJobAction::AlreadyCached);
    assert_eq!(function_job_step(true, false), FunctionJobAction::ResolveReadback);
}

#[test]
fn pending_scalar_evaluations_keep_their_grid_size() {
    let flag = Arc::new(AtomicBool::new(false));
    let mut implicit =
        PendingImplicitEval::new(513, PendingGpuReadback::submit_with_timeout(&flag, Duration::ZERO));
    assert_eq!(implicit.poll(), ReadbackPoll::Failed);
    assert_eq!(implicit.grid_size(), 513);
    let mut function =
        PendingFunctionEval::new(800, PendingGpuReadback::submit_with_timeout(&flag, Duration::ZERO));
    assert_eq!(function.poll(), ReadbackPoll::Failed);
    assert_eq!(function.grid_size(), 800);
}

#[test]
fn implicit_grid_is_capped_by_render_quality() {
    assert_eq!(implicit_grid_size_for_quality(300, RenderQuality::Preview, 1024), 128);
    assert_eq!(implicit_grid_size_for_quality(300, RenderQuality::Normal, 1024), 300);
    assert_eq!(implicit_grid_size_for_quality(900, RenderQuality::Normal, 1024), 512);
    assert_eq!(implicit_grid_size_for_quality(2000, RenderQuality::High, 1024), 1024);
    assert_eq!(implicit_grid_size_for_quality(64, RenderQuality::Preview, 1024), 64);
}

#[test]
fn implicit_grid_shape_rejects_empty_and_oversized_grids() {
    assert_eq!(
        implicit_grid_shape(4, 512, 1024),
        Some(ImplicitGridShape { sample_axis: 5, sample_count: 25 })
    );
    assert_eq!(implicit_grid_shape(0, 512, 1024), None);
    assert_eq!(implicit_grid_shape(513, 512, 1024), None);
    assert_eq!(implicit_grid_shape(600, 2048, 512), None);
    assert_eq!(implicit_grid_shape(usize::MAX, usize::MAX, usize::MAX), None);
    assert_eq!(implicit_grid_shape(1 << 40, usize::MAX, usize::MAX), None);
}

#[test]
fn short_field_readback_fills_missing_values() {
    let values = [0u8, 1, 2, 3, 4, 5, 6];
    let rows = mapped_field_rows(&values, 2, 99);
    assert_eq!(rows, vec![vec![0, 1, 2], vec![3, 4, 5], vec![6, 99, 99]]);
    let single = mapped_field_rows(&values, 0, 99);
    assert_eq!(single, vec![vec![0]]);
}

#[test]
fn function_grid_above_the_pipeline_falls_back() {
    assert_eq!(function_sample_count(100, 1000), Some(101));
    assert_eq!(function_sample_count(1000, 1000), Some(1001));
    assert_eq!(function_sample_count(1001, 1000), None);
}

fn var(name: &str) -> Box<ScalarExpr> {
    Box::new(ScalarExpr::Var(name.to_string()))
}

fn constant(value: f32) -> Box<ScalarExpr> {
    Box::new(ScalarExpr::Const(value.to_bits()))
}

fn xy_map() -> Vec<(String, u32)> {
    vec![("x".to_string(), 0), ("y".to_string(), 1)]
}

#[test]
fn compiler_emits_rpn_with_mapped_variables_and_constants() {
    let expr = ScalarExpr::Binary(Op::Add, var("x"), constant(2.0));
    let mut prog = BytecodeProgram::new();
    assert!(compile_expr_with_mapping(&expr, &[], &xy_map(), &mut prog).is_ok());
    assert_eq!(prog.code, vec![2, 1, 3]);
    assert_eq!(prog.constants, vec![2.0f32.to_bits()]);

    let expr = ScalarExpr::Unary(Op::Sin, var("y"));
    let mut prog = BytecodeProgram::new();
    assert!(compile_expr_with_mapping(&expr, &[], &xy_map(), &mut prog).is_ok());
    assert_eq!(prog.code, vec![2 + 256, 9]);
}

#[test]
fn document_variables_become_constants() {
    let expr = ScalarExpr::Binary(Op::Mul, var("a"), var("x"));
    let doc = vec![("a".to_string(), 3.0f32.to_bits())];
    let mut prog = BytecodeProgram::new();
    assert!(compile_expr_with_mapping(&expr, &doc, &xy_map(), &mut prog).is_ok());
    assert_eq!(prog.code, vec![1, 2, 5]);
    assert_eq!(prog.constants, vec![3.0f32.to_bits()]);
}

#[test]
fn compiler_rejects_unknown_variables_and_nodes() {
    let mut prog = BytecodeProgram::new();
    let err = compile_expr_with_mapping(&ScalarExpr::Var("z".to_string()), &[], &xy_map(), &mut prog);
    assert!(matches!(err, Err(CompileError::UnsupportedVariable(ref v)) if v == "z"));
    let mut prog = BytecodeProgram::new();
    let err = compile_expr_with_mapping(
        &ScalarExpr::Unsupported("Piecewise".to_string()),
        &[],
        &xy_map(),
        &mut prog,
    );
    assert!(matches!(err, Err(CompileError::UnsupportedNode(ref n)) if n == "Piecewise"));
}

#[test]
fn compiler_rejects_clamps_with_runtime_or_collapsing_bounds() {
    for (bounds, runtime) in [(ClampBounds::Runtime, true), (ClampBounds::PrecisionLoss, false)] {
        let expr = ScalarExpr::Clamp(var("x"), constant(0.0), constant(1.0), bounds);
        let mut prog = BytecodeProgram::new();
        let err = compile_expr_with_mapping(&expr, &[], &xy_map(), &mut prog);
        if runtime {
            assert!(matches!(err, Err(CompileError::RuntimeClampBounds)));
        } else {
            assert!(matches!(err, Err(CompileError::PrecisionLoss)));
        }
    }
    let expr = ScalarExpr::Clamp(var("x"), constant(1.0), constant(0.0), ClampBounds::ForceInvalid);
    let mut prog = BytecodeProgram::new();
    assert!(compile_expr_with_mapping(&expr, &[], &xy_map(), &mut prog).is_ok());
    assert_eq!(prog.code, vec![2, 1, 1 + 256, 43 + 256]);
}

fn right_nested_sum(leaves: usize) -> ScalarExpr {
    let mut expr = ScalarExpr::Var("x".to_string());
    for _ in 1..leaves {
        expr = ScalarExpr::Binary(Op::Add, var("x"), Box::new(expr));
    }
    expr
}

#[test]
fn nested_sum_of_32_leaves_fits_and_33_does_not() {
    let mut prog = BytecodeProgram::new();
    assert!(compile_expr_with_mapping(&right_nested_sum(32), &[], &xy_map(), &mut prog).is_ok());
    let mut prog = BytecodeProgram::new();
    let err = compile_expr_with_mapping(&right_nested_sum(33), &[], &xy_map(), &mut prog);
    assert!(matches!(err, Err(CompileError::StackTooDeep)));
}

#[test]
fn compiler_caps_constants_at_256() {
    let mut expr = ScalarExpr::Const(0);
    for k in 1..256u32 {
        expr = ScalarExpr::Binary(Op::Add, Box::new(expr), Box::new(ScalarExpr::Const(k)));
    }
    let mut prog = BytecodeProgram::new();
    assert!(compile_expr_with_mapping(&expr, &[], &xy_map(), &mut prog).is_ok());
    assert_eq!(prog.constants.len(), 256);
    let expr = ScalarExpr::Binary(Op::Add, Box::new(expr), Box::new(ScalarExpr::Const(7)));
    let mut prog = BytecodeProgram::new();
    let err = compile_expr_with_mapping(&expr, &[], &xy_map(), &mut prog);
    assert!(matches!(err, Err(CompileError::TooManyConstants)));
}

#[test]
fn compiler_accepts_an_expression_using_exactly_32_stack_slots() {
    let mut expression = ScalarExpr::Var("x".to_string());
    for _ in 1..32 {
        expression = ScalarExpr::Binary(Op::Min, var("x"), Box::new(expression));
    }
    let mut program = BytecodeProgram::new();
    assert!(
        compile_expr_with_mapping(&expression, &[], &xy_map(), &mut program).is_ok(),
        "the compiler must accept the shader's 32-slot stack limit"
    );
    assert_eq!(program.code.len(), 63);
}

#[test]
fn gpu_bytecode_rejects_bessel_expressions_for_cpu_domain_handling() {
    let expression = ScalarExpr::Unsupported("besselj".to_string());
    let mut program = BytecodeProgram::new();
    assert!(matches!(
        compile_expr_with_mapping(&expression, &[], &xy_map(), &mut program),
        Err(CompileError::UnsupportedNode(_))
    ));
}

#[test]
fn compiler_rejects_clamps_with_runtime_bounds() {
    let lower = Box::new(ScalarExpr::Binary(Op::Add, var("x"), constant(1.0)));
    let expression = ScalarExpr::Clamp(var("x"), lower, var("x"), ClampBounds::Runtime);
    let mut program = BytecodeProgram::new();
    assert!(matches!(
        compile_expr_with_mapping(&expression, &[], &xy_map(), &mut program),
        Err(CompileError::RuntimeClampBounds)
    ));
}

#[test]
fn compiler_rejects_valid_clamp_bounds_that_collapse_to_f32() {
    let expression = ScalarExpr::Clamp(
        var("x"),
        constant(1.0),
        Box::new(ScalarExpr::Const((1.00000001f64 as f32).to_bits())),
        ClampBounds::PrecisionLoss,
    );
    let mut program = BytecodeProgram::new();
    assert!(matches!(
        compile_expr_with_mapping(&expression, &[], &xy_map(), &mut program),
        Err(CompileError::PrecisionLoss)
    ));
}

#[test]
fn the_first_failure_in_evaluation_order_is_reported() {
    let clamp = || ScalarExpr::Clamp(var("x"), constant(0.0), var("x"), ClampBounds::Runtime);
    // The clamp is visited before the tree grows deep.
    let mut expression = clamp();
    for _ in 0..40 {
        expression = ScalarExpr::Binary(Op::Add, Box::new(expression), var("x"));
    }
    let mut program = BytecodeProgram::new();
    assert!(matches!(
        compile_expr_with_mapping(&expression, &[], &xy_map(), &mut program),
        Err(CompileError::RuntimeClampBounds)
    ));
    // Forty pushes come before the clamp: the stack overflows first.
    let mut expression = clamp();
    for _ in 0..40 {
        expression = ScalarExpr::Binary(Op::Add, var("x"), Box::new(expression));
    }
    let mut program = BytecodeProgram::new();
    assert!(matches!(
        compile_expr_with_mapping(&expression, &[], &xy_map(), &mut program),
        Err(CompileError::StackTooDeep)
    ));
}
