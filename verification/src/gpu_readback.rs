//! Readback of GPU buffers spread over frames.
//!
//! A dispatch arms `map_async` and returns at once; the frame thread then asks,
//! once per frame and without blocking, whether the buffer has been mapped. A
//! deadline turns a readback that never completes into a failure, so the
//! caller falls back to the CPU instead of waiting forever. Once a readback has
//! settled on `Mapped` or `Failed`, every later poll repeats that answer.

use std::sync::atomic::AtomicBool;
use std::sync::Arc;
use std::time::{Duration, Instant};
use vstd::prelude::*;

verus! {

#[verifier::external_type_specification]
#[verifier::external_body]
pub struct ExInstant(Instant);

/// Milliseconds a readback may stay pending before it is reported as failed.
pub const GPU_READBACK_TIMEOUT_MS: u64 = 250;

/// At most one readback job is in flight; a newer dispatch replaces the older one.
pub const MAX_GPU_READBACK_JOBS_IN_FLIGHT: usize = 1;

/// Answer of a non-blocking poll.
#[derive(Debug, Clone, Copy, PartialEq, Eq, Structural)]
pub enum ReadbackPoll {
    /// The GPU has not finished yet.
    Pending,
    /// The buffer is mapped: copying it out does not wait for the GPU.
    Mapped,
    /// The map failed or the deadline passed: fall back to the CPU.
    Failed,
}

/// What one poll answers, given the answer it settled on earlier (if any),
/// whether the map flag is set, and whether the deadline has passed.
pub open spec fn poll_result(
    settled: Option<ReadbackPoll>,
    mapped: bool,
    deadline_passed: bool,
) -> ReadbackPoll {
    match settled {
        Some(answer) => answer,
        None => if mapped {
            ReadbackPoll::Mapped
        } else if deadline_passed {
            ReadbackPoll::Failed
        } else {
            ReadbackPoll::Pending
        },
    }
}

/// The settled answer kept after a poll that answered `answer`.
pub open spec fn settled_after(settled: Option<ReadbackPoll>, answer: ReadbackPoll) -> Option<
    ReadbackPoll,
> {
    match settled {
        Some(previous) => Some(previous),
        None => if answer == ReadbackPoll::Pending {
            None
        } else {
            Some(answer)
        },
    }
}

/// Decision of one poll: a settled answer is repeated; otherwise a set flag
/// wins over the deadline, and a passed deadline wins over waiting.
pub fn poll_outcome(settled: Option<ReadbackPoll>, mapped: bool, deadline_passed: bool) -> (answer:
    ReadbackPoll)
    ensures
        answer == poll_result(settled, mapped, deadline_passed),
{
    match settled {
        Some(answer) => answer,
        None => {
            if mapped {
                ReadbackPoll::Mapped
            } else if deadline_passed {
                ReadbackPoll::Failed
            } else {
                ReadbackPoll::Pending
            }
        },
    }
}

/// Once a poll has answered `Mapped` or `Failed`, every later poll answers the
/// same, whatever the flag and the clock say by then.
pub proof fn lemma_settled_answer_is_stable(
    settled: Option<ReadbackPoll>,
    mapped: bool,
    deadline_passed: bool,
    later_mapped: bool,
    later_deadline_passed: bool,
)
    requires
        poll_result(settled, mapped, deadline_passed) != ReadbackPoll::Pending,
    ensures
        poll_result(
            settled_after(settled, poll_result(settled, mapped, deadline_passed)),
            later_mapped,
            later_deadline_passed,
        ) == poll_result(settled, mapped, deadline_passed),
{
}

/// A readback never settles on `Pending`, and a pending readback becomes
/// `Mapped` as soon as the flag is seen set, even after its deadline.
pub proof fn lemma_flag_wins_over_deadline(deadline_passed: bool)
    ensures
        poll_result(None, true, deadline_passed) == ReadbackPoll::Mapped,
        poll_result(None, false, true) == ReadbackPoll::Failed,
        poll_result(None, false, false) == ReadbackPoll::Pending,
        settled_after(None, ReadbackPoll::Pending) is None,
{
}

/// `std::time::Instant::now`. Nothing is promised of the clock reading.
#[verifier::external_body]
fn instant_now() -> Instant {
    Instant::now()
}

/// `std::time::Instant::elapsed`. The reading depends on the clock, so no
/// clause ties it to its argument.
#[verifier::external_body]
fn instant_elapsed(started_at: &Instant) -> Duration {
    started_at.elapsed()
}

/// Total whole nanoseconds of a `Duration`, as `std::time::Duration::as_nanos`
/// documents them.
pub uninterp spec fn duration_nanos(d: Duration) -> u128;

/// `std::time::Duration::as_nanos`: the result is the total number of whole
/// nanoseconds of `d`, a function of `d` alone.
#[verifier::external_body]
fn duration_as_nanos(d: &Duration) -> (nanos: u128)
    ensures
        nanos == duration_nanos(*d),
{
    d.as_nanos()
}

/// The `Duration` of `ms` milliseconds, as `std::time::Duration::from_millis`
/// builds it.
pub uninterp spec fn millis_duration(ms: u64) -> Duration;

/// `std::time::Duration::from_millis`: the result depends on `ms` alone,
/// and is `ms` milliseconds long, so `as_nanos` reads `ms * 1_000_000` of it.
#[verifier::external_body]
fn duration_from_millis(ms: u64) -> (d: Duration)
    ensures
        d == millis_duration(ms),
        duration_nanos(d) == ms * 1_000_000,
{
    Duration::from_millis(ms)
}

/// The readback deadline, `GPU_READBACK_TIMEOUT_MS` milliseconds.
pub fn gpu_readback_timeout() -> (d: Duration)
    ensures
        d == millis_duration(GPU_READBACK_TIMEOUT_MS),
        duration_nanos(d) == GPU_READBACK_TIMEOUT_MS * 1_000_000,
{
    duration_from_millis(GPU_READBACK_TIMEOUT_MS)
}

/// A `map_async` wait spread over frames: created right after the map is
/// armed, polled once per frame without blocking.
#[derive(Debug)]
pub struct PendingGpuReadback {
    map_ok: Arc<AtomicBool>,
    started_at: Instant,
    timeout: Duration,
    settled: Option<ReadbackPoll>,
}

impl PendingGpuReadback {
    /// The answer this readback has settled on, if any.
    pub closed spec fn settled_state(&self) -> Option<ReadbackPoll> {
        self.settled
    }

    /// The deadline of this readback.
    pub closed spec fn timeout_value(&self) -> Duration {
        self.timeout
    }

    /// The flag that the map callback sets on success.
    pub closed spec fn flag(&self) -> Arc<AtomicBool> {
        self.map_ok
    }

    /// The instant of the submit.
    pub closed spec fn start(&self) -> Instant {
        self.started_at
    }

    /// Everything but the settled answer is the same in `self` and `other`:
    /// the flag, the start instant and the deadline.
    pub open spec fn same_wait(&self, other: &Self) -> bool {
        &&& self.flag() == other.flag()
        &&& self.start() == other.start()
        &&& self.timeout_value() == other.timeout_value()
    }

    /// What one poll that answered `answer` did: a settled answer is
    /// repeated; the wait itself is untouched, and the settled answer is the
    /// one `settled_after` gives; an unsettled wait with a zero deadline
    /// never answers `Pending`.
    pub open spec fn polled(before: Self, after: Self, answer: ReadbackPoll) -> bool {
        &&& before.settled_state() is Some ==> answer == before.settled_state()->0
        &&& after.settled_state() == settled_after(before.settled_state(), answer)
        &&& after.same_wait(&before)
        &&& before.settled_state() is None && duration_nanos(before.timeout_value()) == 0
            ==> answer != ReadbackPoll::Pending
    }

    /// Registers the wait with the default deadline and returns at once.
    pub fn submit(map_ok: &Arc<AtomicBool>) -> (pending: Self)
        ensures
            pending.settled_state() is None,
            pending.timeout_value() == millis_duration(GPU_READBACK_TIMEOUT_MS),
            pending.flag() == *map_ok,
    {
        Self::submit_with_timeout(map_ok, gpu_readback_timeout())
    }

    /// Registers the wait with an explicit deadline and returns at once.
    pub fn submit_with_timeout(map_ok: &Arc<AtomicBool>, timeout: Duration) -> (pending: Self)
        ensures
            pending.settled_state() is None,
            pending.timeout_value() == timeout,
            pending.flag() == *map_ok,
    {
        PendingGpuReadback {
            map_ok: map_ok.clone(),
            started_at: instant_now(),
            timeout,
            settled: None,
        }
    }

    fn flag_is_set(&self) -> bool {
        self.map_ok.load(std::sync::atomic::Ordering::SeqCst)
    }

    /// Whether the time since the submit has reached the timeout, read from
    /// the clock; a zero timeout has always passed.
    fn deadline_passed(&self) -> (passed: bool)
        ensures
            duration_nanos(self.timeout_value()) == 0 ==> passed,
    {
        let elapsed = instant_elapsed(&self.started_at);
        duration_as_nanos(&elapsed) >= duration_as_nanos(&self.timeout)
    }

    /// Non-blocking poll: a set flag answers `Mapped`, a passed deadline
    /// answers `Failed`, otherwise `Pending`; the first non-pending answer is
    /// kept and repeated by every later poll.
    pub fn poll(&mut self) -> (answer: ReadbackPoll)
        ensures
            Self::polled(*old(self), *final(self), answer),
    {
        if let Some(settled) = self.settled {
            return settled;
        }
        let mapped = self.flag_is_set();
        let deadline = if mapped {
            false
        } else {
            self.deadline_passed()
        };
        let answer = poll_outcome(None, mapped, deadline);
        if answer != ReadbackPoll::Pending {
            self.settled = Some(answer);
        }
        answer
    }

    /// Time since the submit, read from the clock.
    pub fn elapsed(&self) -> Duration {
        instant_elapsed(&self.started_at)
    }
}

/// The first `count` values of a mapped readback, or `None` when the
/// readback holds fewer: a short buffer is reported, never read past.
pub fn readback_prefix<T: Copy>(values: &[T], count: usize) -> (prefix: Option<Vec<T>>)
    ensures
        prefix is Some <==> count <= values@.len(),
        prefix matches Some(p) ==> p@ == values@.take(count as int),
{
    if count > values.len() {
        return None;
    }
    let mut out: Vec<T> = Vec::new();
    let mut k: usize = 0;
    while k < count
        invariant
            count <= values@.len(),
            k <= count,
            out@ =~= values@.take(k as int),
        decreases count - k,
    {
        out.push(values[k]);
        k = k + 1;
    }
    Some(out)
}

} // verus!
