use grafito_render::gpu_readback::{
    gpu_readback_timeout, poll_outcome, readback_prefix, PendingGpuReadback, ReadbackPoll,
    GPU_READBACK_TIMEOUT_MS, MAX_GPU_READBACK_JOBS_IN_FLIGHT,
};
use std::sync::atomic::{AtomicBool, Ordering};
use std::sync::Arc;
use std::time::{Duration, Instant};

#[test]
fn submit_and_first_poll_never_block_while_gpu_is_slow() {
    let map_ok = Arc::new(AtomicBool::new(false));
    let mut pending = PendingGpuReadback::submit_with_timeout(&map_ok, Duration::from_millis(200));
    let start = Instant::now();
    assert_eq!(pending.poll(), ReadbackPoll::Pending);
    assert!(
        start.elapsed() < Duration::from_millis(50),
        "poll must not block the frame thread"
    );
}

#[test]
fn mapped_flag_is_visible_without_blocking() {
    let map_ok = Arc::new(AtomicBool::new(false));
    let mut pending = PendingGpuReadback::submit_with_timeout(&map_ok, Duration::from_millis(250));
    map_ok.store(true, Ordering::SeqCst);
    assert_eq!(pending.poll(), ReadbackPoll::Mapped);
    assert_eq!(pending.poll(), ReadbackPoll::Mapped);
}

#[test]
fn elapsed_deadline_reports_failed_without_callback() {
    let map_ok = Arc::new(AtomicBool::new(false));
    let mut pending = PendingGpuReadback::submit_with_timeout(&map_ok, Duration::ZERO);
    assert_eq!(pending.poll(), ReadbackPoll::Failed);
}

#[test]
fn in_flight_cap_is_one_by_budget() {
    assert_eq!(MAX_GPU_READBACK_JOBS_IN_FLIGHT, 1);
    assert_eq!(gpu_readback_timeout(), Duration::from_millis(250));
}

#[test]
fn failed_readback_stays_failed_after_the_flag_is_set() {
    let map_ok = Arc::new(AtomicBool::new(false));
    let mut pending = PendingGpuReadback::submit_with_timeout(&map_ok, Duration::ZERO);
    assert_eq!(pending.poll(), ReadbackPoll::Failed);
    map_ok.store(true, Ordering::SeqCst);
    assert_eq!(pending.poll(), ReadbackPoll::Failed);
}

#[test]
fn set_flag_wins_over_a_passed_deadline() {
    let map_ok = Arc::new(AtomicBool::new(true));
    let mut pending = PendingGpuReadback::submit_with_timeout(&map_ok, Duration::ZERO);
    assert_eq!(pending.poll(), ReadbackPoll::Mapped);
}

#[test]
fn default_submit_uses_the_budget_deadline() {
    assert_eq!(GPU_READBACK_TIMEOUT_MS, 250);
    let map_ok = Arc::new(AtomicBool::new(false));
    let mut pending = PendingGpuReadback::submit(&map_ok);
    assert_eq!(pending.poll(), ReadbackPoll::Pending);
    assert!(pending.elapsed() < Duration::from_millis(250));
}

#[test]
fn poll_outcome_table() {
    assert_eq!(poll_outcome(None, false, false), ReadbackPoll::Pending);
    assert_eq!(poll_outcome(None, true, false), ReadbackPoll::Mapped);
    assert_eq!(poll_outcome(None, true, true), ReadbackPoll::Mapped);
    assert_eq!(poll_outcome(None, false, true), ReadbackPoll::Failed);
    assert_eq!(
        poll_outcome(Some(ReadbackPoll::Failed), true, false),
        ReadbackPoll::Failed
    );
    assert_eq!(
        poll_outcome(Some(ReadbackPoll::Mapped), false, true),
        ReadbackPoll::Mapped
    );
}

#[test]
fn short_readback_is_reported_not_read_past() {
    let values = [1u32, 2, 3, 4];
    assert_eq!(readback_prefix(&values, 3), Some(vec![1, 2, 3]));
    assert_eq!(readback_prefix(&values, 4), Some(vec![1, 2, 3, 4]));
    assert_eq!(readback_prefix(&values, 5), None);
    assert_eq!(readback_prefix(&values, 0), Some(vec![]));
}
