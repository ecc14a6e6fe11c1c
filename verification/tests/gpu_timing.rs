use grafito_render::gpu_timing::{
    pass_tick_deltas, pass_timestamp_slots, timing_buffer_bytes, timing_slot_count,
};

#[test]
fn timing_query_set_has_two_slots_per_pass() {
    assert_eq!(timing_slot_count(0), 2);
    assert_eq!(timing_slot_count(1), 2);
    assert_eq!(timing_slot_count(3), 6);
    assert_eq!(timing_slot_count(u32::MAX), u32::MAX);
}

#[test]
fn timing_buffers_hold_one_u64_per_slot() {
    assert_eq!(timing_buffer_bytes(3), 48);
    assert_eq!(timing_buffer_bytes(0), 16);
}

#[test]
fn each_pass_writes_its_own_pair_of_slots() {
    assert_eq!(pass_timestamp_slots(0), (0, 1));
    assert_eq!(pass_timestamp_slots(2), (4, 5));
}

#[test]
fn pass_ticks_saturate_at_zero() {
    let ticks = [10u64, 25, 40, 30, 5, 5, 99];
    assert_eq!(pass_tick_deltas(&ticks, 3), vec![15, 0, 0]);
    assert_eq!(pass_tick_deltas(&ticks, 0), Vec::<u64>::new());
}
