use helic::phase::PhaseAccumulator;
use helic::safety::StaleCounter;
use helic::table::{
    next_knot, table_position, TableInterpolation, TableMode, TablePlayer, WaveTable,
    MAX_TABLE_LEN,
};
use helic::table_buffer::{BufferError, TableBuffer};

const FS: f64 = 8000.0;

fn increment_for(f0: f64, fs: f64) -> u32 {
    (f0 / fs * 4294967296.0 + 0.5) as u32
}

fn bits(values: &[f32]) -> Vec<u32> {
    values.iter().map(|v| v.to_bits()).collect()
}

fn table(values: &[f32]) -> WaveTable {
    WaveTable::from_slice(&bits(values)).unwrap()
}

// ---- phase accumulator ----

#[test]
fn phase_wraps_exactly_at_period_boundary() {
    let mut acc = PhaseAccumulator::new();
    acc.set_increment(increment_for(1000.0, FS));
    assert_eq!(acc.increment(), 1 << 29);
    for i in 1..=24 {
        let (phase, wrapped) = acc.step();
        assert_eq!(wrapped, i % 8 == 0, "step {i}");
        if wrapped {
            assert_eq!(phase, 0);
        }
    }
}

#[test]
fn harmonics_stay_coherent_with_fundamental() {
    let mut acc = PhaseAccumulator::new();
    acc.set_increment(increment_for(37.3, FS));
    for _ in 0..100_000 {
        acc.step();
    }
    for k in 1..=20u32 {
        let mut acc_k = PhaseAccumulator::new();
        acc_k.set_increment(k.wrapping_mul(acc.increment()));
        for _ in 0..100_000 {
            acc_k.step();
        }
        assert_eq!(acc_k.phase(), acc.harmonic(k), "harmonic {k}");
    }
}

#[test]
fn frequency_change_is_phase_continuous() {
    let mut acc = PhaseAccumulator::new();
    acc.set_increment(increment_for(1000.0, FS));
    acc.step();
    let before = acc.phase();
    acc.set_increment(increment_for(2000.0, FS));
    assert_eq!(acc.phase(), before);
    let (after, _) = acc.step();
    assert_eq!(after, before.wrapping_add(1 << 30));
}

#[test]
fn reset_returns_to_phase_zero_and_keeps_the_increment() {
    let mut acc = PhaseAccumulator::new();
    acc.set_increment(12345);
    acc.step();
    acc.step();
    assert_eq!(acc.phase(), 24690);
    acc.reset();
    assert_eq!(acc.phase(), 0);
    assert_eq!(acc.increment(), 12345);
    assert_eq!(acc.step(), (12345, false));
}

#[test]
fn step_reports_the_wrap_of_the_sum() {
    let mut acc = PhaseAccumulator::new();
    acc.set_increment(u32::MAX);
    assert_eq!(acc.step(), (u32::MAX, false));
    assert_eq!(acc.step(), (u32::MAX - 1, true));
    assert_eq!(acc.harmonic(3), (u32::MAX - 1).wrapping_mul(3));
}

// ---- stall detection ----

#[test]
fn stale_counter_flags_frozen_source_then_recovers() {
    let mut s = StaleCounter::new(3);
    for f in 1..=10 {
        assert!(!s.observe(f), "advancing frames must not be stale");
    }
    assert!(!s.observe(10));
    assert!(!s.observe(10));
    assert!(!s.observe(10));
    assert!(s.observe(10));
    assert!(s.observe(10));
    assert!(!s.observe(11), "a fresh frame clears the stall");
}

#[test]
fn stale_counter_flags_source_that_never_starts() {
    let mut s = StaleCounter::new(2);
    assert!(!s.observe(0));
    assert!(!s.observe(0));
    assert!(s.observe(0));
}

#[test]
fn stale_counter_with_zero_limit_flags_the_first_repeat() {
    let mut s = StaleCounter::new(0);
    assert!(s.observe(0));
    assert!(!s.observe(1));
    assert!(s.observe(1));
}

// ---- waveform tables ----

#[test]
fn interpolation_values_are_mathematical_orders() {
    assert_eq!(
        TableInterpolation::from_u32(0),
        Some(TableInterpolation::ZeroOrderHold)
    );
    assert_eq!(
        TableInterpolation::from_u32(1),
        Some(TableInterpolation::Linear)
    );
    assert_eq!(TableInterpolation::from_u32(2), None);
}

#[test]
fn mode_codes_round_trip() {
    for code in 0..5u32 {
        assert_eq!(TableMode::from_u32(code).unwrap().code(), code);
    }
    assert_eq!(TableMode::from_u32(5), None);
    assert_eq!(TableMode::default(), TableMode::Off);
    assert_eq!(TableInterpolation::default(), TableInterpolation::Linear);
    assert_eq!(TableInterpolation::ZeroOrderHold.code(), 0);
}

#[test]
fn table_lengths_outside_two_to_max_are_refused() {
    assert!(WaveTable::from_slice(&[1]).is_none());
    assert!(WaveTable::from_slice(&[]).is_none());
    assert!(WaveTable::from_slice(&vec![0; MAX_TABLE_LEN + 1]).is_none());
    let full = WaveTable::from_slice(&vec![7; MAX_TABLE_LEN]).unwrap();
    assert_eq!(full.len(), MAX_TABLE_LEN);
    let mut t = WaveTable::empty();
    assert!(t.is_empty());
    assert!(!t.set_len(1));
    assert!(!t.set_len(MAX_TABLE_LEN + 1));
    assert!(t.is_empty());
    assert!(t.set_len(2));
    assert_eq!(t.values(), &[0, 0]);
}

#[test]
fn write_block_is_bounded_by_the_slots() {
    let mut t = WaveTable::empty();
    assert!(t.write_block(MAX_TABLE_LEN - 2, &[5, 6]));
    assert!(!t.write_block(MAX_TABLE_LEN - 1, &[5, 6]));
    assert!(!t.write_block(usize::MAX, &[1]));
    assert!(t.write_block(1, &[9]));
    assert_eq!(&t.prefix(3).unwrap(), &[0, 9, 0]);
    assert_eq!(&t.prefix(MAX_TABLE_LEN).unwrap()[MAX_TABLE_LEN - 2..], &[5, 6]);
    assert!(t.prefix(MAX_TABLE_LEN + 1).is_none());
    assert!(t.is_empty());
}

#[test]
fn table_positions_split_the_phase_into_knot_and_fraction() {
    assert_eq!(table_position(0, 4), (0, 0));
    assert_eq!(table_position(1 << 30, 4), (1, 0));
    assert_eq!(table_position(3 << 29, 4), (1, 1 << 31));
    assert_eq!(table_position(u32::MAX, 4), (3, 0xFFFF_FFFC));
    assert_eq!(table_position(u32::MAX, 3), (2, 0xFFFF_FFFD));
    assert_eq!(next_knot(3, 4), 0);
    assert_eq!(next_knot(1, 4), 2);
}

#[test]
fn zero_order_hold_keeps_each_value_until_the_next_knot() {
    let table = table(&[0.0, 1.0, 2.0, 3.0]);
    let held = |theta: u32| f32::from_bits(table.knots(theta).0);
    assert_eq!(held(0), 0.0);
    assert_eq!(held((1 << 30) - 1), 0.0);
    assert_eq!(held(1 << 30), 1.0);
    assert_eq!(held(u32::MAX), 3.0);
}

#[test]
fn final_segment_interpolates_back_to_the_first_knot() {
    let table = table(&[0.0, 1.0, 2.0, 3.0]);
    let (a, b, fraction) = table.knots(7 << 29);
    assert_eq!((f32::from_bits(a), f32::from_bits(b)), (3.0, 0.0));
    assert_eq!(fraction, 1 << 31);
}

#[test]
fn interpolation_change_does_not_reset_playback_phase() {
    let table = table(&[0.0, 1.0]);
    let mut player = TablePlayer::new();
    player.set_mode(TableMode::Loop);
    player.set_increment(1 << 30);
    assert_eq!(player.step(&table, 0, false), Some(1 << 30));
    player.set_interpolation(TableInterpolation::ZeroOrderHold);
    assert_eq!(player.interpolation(), TableInterpolation::ZeroOrderHold);
    let theta = player.step(&table, 0, false).unwrap();
    assert_eq!(theta, 2 << 30);
    assert_eq!(f32::from_bits(table.knots(theta).0), 1.0);
}

#[test]
fn free_one_shot_returns_to_zero_after_one_pass() {
    let table = table(&[1.0, 2.0]);
    let mut player = TablePlayer::new();
    player.set_mode(TableMode::OneShot);
    player.set_increment(1 << 30);
    player.trigger();
    assert!(player.step(&table, 0, false).is_some());
    for _ in 0..3 {
        player.step(&table, 0, false);
    }
    assert_eq!(player.step(&table, 0, false), None);
}

#[test]
fn locked_loop_is_an_exact_phase_multiple() {
    let table = table(&[0.0, 1.0, 0.0, -1.0]);
    let mut player = TablePlayer::new();
    player.set_mode(TableMode::LockedLoop);
    player.set_multiplier(3);
    for phase in [0, 123_456_789, u32::MAX] {
        assert_eq!(
            player.step(&table, phase, false),
            Some(phase.wrapping_mul(3))
        );
    }
}

#[test]
fn locked_loop_adds_the_phase_offset() {
    let table = table(&[0.0, 1.0]);
    let mut player = TablePlayer::new();
    player.set_mode(TableMode::LockedLoop);
    player.set_multiplier(2);
    player.set_phase_offset(1 << 31);
    assert_eq!(player.step(&table, 1 << 30, false), Some(0));
    assert_eq!(player.step(&table, 5, false), Some((1 << 31) + 10));
}

#[test]
fn locked_one_shot_waits_for_master_start() {
    let table = table(&[1.0, 2.0]);
    let mut player = TablePlayer::new();
    player.set_mode(TableMode::LockedOneShot);
    player.trigger();
    assert_eq!(player.step(&table, 100, false), None);
    assert!(player.step(&table, 200, true).is_some());
    assert!(player.step(&table, 200 + (1 << 30), false).is_some());
    assert!(player.step(&table, 200 + (2 << 30), false).is_some());
    assert!(player.step(&table, 200 + (3 << 30), false).is_some());
    assert_eq!(player.step(&table, 200, false), None);
}

#[test]
fn players_are_silent_when_off_or_given_an_empty_table() {
    let empty = WaveTable::empty();
    let mut player = TablePlayer::new();
    assert_eq!(player.step(&table(&[1.0, 2.0]), 0, true), None);
    player.set_mode(TableMode::Loop);
    player.set_increment(1);
    assert_eq!(player.step(&empty, 0, true), None);
    player.set_mode(TableMode::OneShot);
    assert_eq!(player.step(&table(&[1.0, 2.0]), 0, true), None);
}

#[test]
fn multiplier_zero_counts_as_one() {
    let table = table(&[0.0, 1.0]);
    let mut player = TablePlayer::new();
    player.set_mode(TableMode::LockedLoop);
    player.set_multiplier(4);
    assert_eq!(player.step(&table, 3, false), Some(12));
    player.set_multiplier(0);
    assert_eq!(player.step(&table, 3, false), Some(3));
}

// ---- double-buffered tables ----

fn stage(buffer: &mut TableBuffer, values: &[f32]) {
    let table = buffer.buffer().unwrap();
    assert!(table.write_block(0, &bits(values)));
    assert!(table.set_len(values.len()));
}

fn played(buffer: &TableBuffer) -> Vec<f32> {
    buffer.get().values().iter().map(|b| f32::from_bits(*b)).collect()
}

#[test]
fn pending_commit_is_busy_and_cancel_restores_writability() {
    let mut buffer = TableBuffer::new(1);
    stage(&mut buffer, &[1.0, 2.0]);
    let token = buffer.commit().unwrap();
    assert_eq!(buffer.commit().unwrap_err(), BufferError::Busy);
    assert!(matches!(buffer.buffer(), Err(BufferError::Busy)));
    buffer.cancel(token);
    assert!(buffer.buffer().is_ok());
}

#[test]
fn activation_observes_all_writes_published_by_commit() {
    let mut buffer = TableBuffer::new(1);
    let values = [1.0, -2.5, 3.25, 4.0];
    stage(&mut buffer, &values);
    let token = buffer.commit().unwrap();
    buffer.activate(token);
    assert_eq!(played(&buffer), values);
    assert_eq!(buffer.active_bank(), 1);
}

#[test]
fn rejected_commit_leaves_active_bank_untouched() {
    let mut buffer = TableBuffer::new(1);
    stage(&mut buffer, &[1.0, 2.0]);
    let token = buffer.commit().unwrap();
    buffer.activate(token);

    stage(&mut buffer, &[7.0, 8.0, 9.0]);
    let rejected = buffer.commit().unwrap();
    buffer.cancel(rejected);

    assert_eq!(played(&buffer), [1.0, 2.0]);
    assert!(buffer.buffer().is_ok());
}

#[test]
fn foreign_tokens_cannot_cancel_or_activate_this_buffer() {
    let mut buffer_a = TableBuffer::new(1);
    let mut buffer_b = TableBuffer::new(2);
    stage(&mut buffer_a, &[1.0, 2.0]);
    stage(&mut buffer_b, &[3.0, 4.0]);
    let token_a = buffer_a.commit().unwrap();
    let token_b = buffer_b.commit().unwrap();

    buffer_b.cancel(token_a);
    assert!(matches!(buffer_b.buffer(), Err(BufferError::Busy)));
    buffer_b.activate(token_b);
    assert_eq!(played(&buffer_b), [3.0, 4.0]);

    let mut buffer_c = TableBuffer::new(3);
    let mut buffer_d = TableBuffer::new(4);
    stage(&mut buffer_c, &[5.0, 6.0]);
    buffer_d.activate(buffer_c.commit().unwrap());
    assert!(buffer_d.get().is_empty());
}

#[test]
fn commit_activation_cycles_do_not_exhaust() {
    let mut buffer = TableBuffer::new(1);
    for value in 0..100_000_u32 {
        stage(&mut buffer, &[value as f32, value.wrapping_add(1) as f32]);
        let token = buffer.commit().unwrap();
        buffer.activate(token);
        assert_eq!(played(&buffer)[0], value as f32);
    }
}

#[test]
fn stale_counter_counts_the_final_run_less_its_first_value() {
    let mut s = StaleCounter::new(1);
    assert!(!s.observe(5));
    assert!(!s.observe(5));
    assert!(!s.observe(7));
    assert!(!s.observe(7));
    assert!(s.observe(7));
}
