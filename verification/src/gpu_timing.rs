//! Slot layout of the GPU timestamp queries of compute passes.
//!
//! A pipeline timed over `pass_count` passes owns a query set of
//! `2 * pass_count` slots (at least two): pass `p` writes its beginning
//! timestamp to slot `2p` and its end timestamp to slot `2p + 1`. After the
//! readback, the ticks of each pass are the end slot minus the beginning slot,
//! floored at zero.

use vstd::prelude::*;

verus! {

/// Bytes of one resolved timestamp.
pub const TIMESTAMP_BYTES: u64 = 8;

/// `2 * pass_count` saturated at `u32::MAX`, and never less than two.
pub open spec fn timing_slots(pass_count: int) -> int {
    let doubled = if 2 * pass_count > u32::MAX { u32::MAX as int } else { 2 * pass_count };
    if doubled < 2 {
        2
    } else {
        doubled
    }
}

/// Number of query slots of a pipeline timed over `pass_count` passes.
pub fn timing_slot_count(pass_count: u32) -> (slots: u32)
    ensures
        slots == timing_slots(pass_count as int),
        slots >= 2,
        pass_count <= u32::MAX / 2 ==> slots >= 2 * pass_count,
{
    let doubled: u32 = match pass_count.checked_mul(2) {
        Some(v) => v,
        None => u32::MAX,
    };
    if doubled < 2 {
        2
    } else {
        doubled
    }
}

/// Size in bytes of the resolve and readback buffers of the query set.
pub fn timing_buffer_bytes(pass_count: u32) -> (bytes: u64)
    ensures
        bytes == timing_slots(pass_count as int) * TIMESTAMP_BYTES,
{
    let slots: u32 = timing_slot_count(pass_count);
    assert(slots as u64 * 8 <= u64::MAX) by (nonlinear_arith)
        requires
            slots <= u32::MAX,
    ;
    slots as u64 * TIMESTAMP_BYTES
}

/// The beginning and end slots that pass `pass_index` writes.
pub fn pass_timestamp_slots(pass_index: u32) -> (slots: (u32, u32))
    requires
        2 * pass_index + 1 <= u32::MAX,
    ensures
        slots.0 == 2 * pass_index,
        slots.1 == 2 * pass_index + 1,
{
    let base: u32 = pass_index * 2;
    (base, base + 1)
}

/// The passes of one pipeline write pairwise distinct slots, all inside its
/// query set.
pub proof fn lemma_pass_slots_are_disjoint_and_in_range(pass_count: u32, p: u32, q: u32)
    requires
        p < pass_count,
        q < pass_count,
        pass_count <= u32::MAX / 2,
    ensures
        2 * p + 1 < timing_slots(pass_count as int),
        2 * q + 1 < timing_slots(pass_count as int),
        p != q ==> (2 * p != 2 * q && 2 * p != 2 * q + 1 && 2 * p + 1 != 2 * q && 2 * p + 1
            != 2 * q + 1),
{
}

/// Ticks that pass `p` took: its end timestamp minus its beginning one, zero
/// when the end is not after the beginning.
pub open spec fn pass_ticks(ticks: Seq<u64>, p: int) -> int {
    if ticks[2 * p + 1] >= ticks[2 * p] {
        ticks[2 * p + 1] - ticks[2 * p]
    } else {
        0
    }
}

/// The ticks of each of the first `pass_count` passes, read from the resolved
/// timestamps.
pub fn pass_tick_deltas(ticks: &[u64], pass_count: u32) -> (deltas: Vec<u64>)
    requires
        2 * pass_count <= ticks@.len(),
    ensures
        deltas@.len() == pass_count,
        forall|p: int| 0 <= p < pass_count ==> deltas@[p] == pass_ticks(ticks@, p),
{
    let mut deltas: Vec<u64> = Vec::new();
    let len: usize = ticks.len();
    let mut pass: u32 = 0;
    while pass < pass_count
        invariant
            len == ticks@.len(),
            pass <= pass_count,
            2 * pass_count <= ticks@.len(),
            deltas@.len() == pass,
            forall|p: int| 0 <= p < pass ==> deltas@[p] == pass_ticks(ticks@, p),
        decreases pass_count - pass,
    {
        let begin: usize = pass as usize * 2;
        let start: u64 = ticks[begin];
        let end: u64 = ticks[begin + 1];
        deltas.push(end.saturating_sub(start));
        pass = pass + 1;
    }
    deltas
}

} // verus!
