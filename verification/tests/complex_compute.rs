use grafito_render::complex_compute::{
    complex_constant_count_fits, complex_constant_pair_index, complex_dispatch_shape,
    gpu_program_is_supported, PendingComplexEval, MAX_VERTICES,
};
use grafito_render::gpu_readback::{PendingGpuReadback, ReadbackPoll};
use std::sync::atomic::{AtomicBool, Ordering};
use std::sync::Arc;
use std::time::Duration;

#[test]
fn constants_are_addressed_as_complex_pairs() {
    assert_eq!(complex_constant_pair_index(0), 0);
    assert_eq!(complex_constant_pair_index(1), 0);
    assert_eq!(complex_constant_pair_index(2), 1);
}

#[test]
fn cpu_only_complex_opcodes_are_rejected_before_gpu_dispatch() {
    assert!(gpu_program_is_supported(&[1, 2, 3, 105]));
    assert!(!gpu_program_is_supported(&[100]));
    assert!(!gpu_program_is_supported(&[109]));
}

#[test]
fn programs_deeper_than_the_wgsl_stack_are_rejected_before_dispatch() {
    let mut code = vec![2; 33];
    code.extend(vec![3; 32]);

    assert!(!gpu_program_is_supported(&code));
}

#[test]
fn programs_using_exactly_the_whole_stack_are_accepted() {
    let mut code = vec![2; 32];
    code.extend(vec![3; 31]);
    assert!(gpu_program_is_supported(&code));
}

#[test]
fn complex_programs_must_leave_exactly_one_value() {
    assert!(!gpu_program_is_supported(&[]));
    assert!(!gpu_program_is_supported(&[1, 2]));
    assert!(!gpu_program_is_supported(&[3]));
    assert!(!gpu_program_is_supported(&[8]));
    assert!(gpu_program_is_supported(&[0, 1, 0, 8]));
    // The operand lives above the low byte and does not change the opcode.
    assert!(gpu_program_is_supported(&[1 | (7 << 8), 2 | (1 << 8), 16]));
    // Min/Max (16/17) are binary in the vertex interpreter.
    assert!(gpu_program_is_supported(&[1, 2, 17]));
}

#[test]
fn complex_constants_come_in_bounded_pairs() {
    assert!(complex_constant_count_fits(0));
    assert!(complex_constant_count_fits(512));
    assert!(!complex_constant_count_fits(514));
    assert!(!complex_constant_count_fits(3));
}

#[test]
fn complex_dispatch_shape_checks_program_and_vertices() {
    assert_eq!(complex_dispatch_shape(&[1, 2, 3], 10), Some((10, 3)));
    assert_eq!(complex_dispatch_shape(&[1, 2, 3], MAX_VERTICES), Some((65536, 3)));
    assert_eq!(complex_dispatch_shape(&[1, 2, 3], MAX_VERTICES + 1), None);
    assert_eq!(complex_dispatch_shape(&[100], 10), None);
    let long = vec![0u32; 4097];
    assert_eq!(complex_dispatch_shape(&long, 10), None);
}

#[test]
fn pending_complex_eval_delegates_to_its_readback() {
    let flag = Arc::new(AtomicBool::new(false));
    let wait = PendingGpuReadback::submit_with_timeout(&flag, Duration::from_secs(60));
    let mut pending = PendingComplexEval::new(12, wait);
    assert_eq!(pending.vertex_count(), 12);
    assert_eq!(pending.poll(), ReadbackPoll::Pending);
    flag.store(true, Ordering::SeqCst);
    assert_eq!(pending.poll(), ReadbackPoll::Mapped);
    assert_eq!(pending.vertex_count(), 12);
}
