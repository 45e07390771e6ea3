use write_bench::duration::duration_to_nanos;
use write_bench::duration::TrialDuration;
use write_bench::stats::average_duration;
use write_bench::stats::isqrt_u128;
use write_bench::stats::size_result;
use write_bench::trial::fill_buffer;
use write_bench::trial::trial_buffer;
use write_bench::trial::trial_sizes;
use write_bench::trial::TrialRecorder;
use write_bench::trial::TRIAL_COUNT;

fn ns(total: u64) -> TrialDuration {
    TrialDuration::new(total / 1_000_000_000, (total % 1_000_000_000) as u32)
}

#[test]
fn nanos_of_simple_duration() {
    let d = TrialDuration::new(1, 500);
    assert_eq!(duration_to_nanos(&d), 1_000_000_500u128);
}

#[test]
fn nanos_of_zero_duration() {
    let d = TrialDuration::new(0, 0);
    assert_eq!(duration_to_nanos(&d), 0u128);
}

#[test]
fn duration_from_total_nanos_splits_fields() {
    let d = TrialDuration::from_total_nanos(2_500_000_000u128);
    assert_eq!(d.secs, 2);
    assert_eq!(d.nanos, 500_000_000);
}

#[test]
fn average_of_empty_list_is_none() {
    assert_eq!(average_duration(Vec::new()), None);
}

#[test]
fn average_of_equal_durations_is_the_value() {
    let durations = vec![ns(42); 5];
    let (mean, std_dev) = average_duration(durations).unwrap();
    assert_eq!(duration_to_nanos(&mean), 42);
    assert_eq!(duration_to_nanos(&std_dev), 0);
}

#[test]
fn average_of_two_distinct_durations() {
    // a = 5 ns, b = 10 ns: mean = floor(15 / 2) = 7; deviations 2 and 3 give
    // floor((4 + 9) / 2) = 6, whose floored square root is 2.
    let (mean, std_dev) = average_duration(vec![ns(5), ns(10)]).unwrap();
    assert_eq!(duration_to_nanos(&mean), 7);
    assert_eq!(duration_to_nanos(&std_dev), 2);
}

#[test]
fn average_of_four_durations() {
    // 1, 2, 3, 4 ns: mean = floor(10 / 4) = 2; squared deviations
    // 1, 0, 1, 4 give floor(6 / 4) = 1, whose floored square root is 1.
    let (mean, std_dev) = average_duration(vec![ns(1), ns(2), ns(3), ns(4)]).unwrap();
    assert_eq!(duration_to_nanos(&mean), 2);
    assert_eq!(duration_to_nanos(&std_dev), 1);
}

#[test]
fn average_crossing_a_second_boundary() {
    // 1 s and 2 s: the mean is 1.5 s and the standard deviation 0.5 s.
    let (mean, std_dev) = average_duration(vec![ns(1_000_000_000), ns(2_000_000_000)]).unwrap();
    assert_eq!(mean, TrialDuration::new(1, 500_000_000));
    assert_eq!(std_dev, TrialDuration::new(0, 500_000_000));
}

#[test]
fn integer_square_roots_truncate() {
    assert_eq!(isqrt_u128(0), 0);
    assert_eq!(isqrt_u128(1), 1);
    assert_eq!(isqrt_u128(3), 1);
    assert_eq!(isqrt_u128(4), 2);
    assert_eq!(isqrt_u128(15), 3);
    assert_eq!(isqrt_u128(16), 4);
    assert_eq!(isqrt_u128(1_000_000), 1_000);
    assert_eq!(isqrt_u128(u128::MAX), u64::MAX as u128);
}

#[test]
fn first_trial_buffer_is_all_zero() {
    let buf = trial_buffer(64, 0);
    assert_eq!(buf.len(), 64);
    assert!(buf.iter().all(|&b| b == 0));
}

#[test]
fn trial_buffer_bytes_come_from_the_mask() {
    // For trial index 4 the draw is below 5, and 0x41 masked by 0..=4 is
    // always 0 or 1.
    let buf = trial_buffer(16, 4);
    assert_eq!(buf.len(), 16);
    assert!(buf.iter().all(|&b| b == 0 || b == 1));
}

#[test]
fn filled_buffer_holds_the_masked_byte() {
    let buf = fill_buffer(4, 0xFF);
    assert_eq!(buf, vec![0x41; 4]);
}

#[test]
fn sizes_are_the_fixed_sequence() {
    assert_eq!(
        trial_sizes(),
        vec![8usize, 128, 256, 512, 1024, 2048, 4096, 8194, 16384, 32768]
    );
}

#[test]
fn recorder_completes_after_all_trials() {
    let mut recorder = TrialRecorder::new();
    assert_eq!(recorder.next_index(), 0);
    assert!(!recorder.is_done());
    for i in 0..TRIAL_COUNT {
        assert_eq!(recorder.next_index(), i);
        recorder.record(ns(1000 + i as u64));
    }
    assert!(recorder.is_done());
    let durations = recorder.into_durations();
    assert_eq!(durations.len(), TRIAL_COUNT as usize);
    assert_eq!(duration_to_nanos(&durations[0]), 1000);
    assert_eq!(duration_to_nanos(&durations[99]), 1099);
}

#[test]
fn single_size_yields_one_result() {
    let durations = vec![ns(10); 3];
    let result = size_result(8, durations).unwrap();
    assert_eq!(result.size, 8);
    assert_eq!(duration_to_nanos(&result.mean), 10);
    assert_eq!(duration_to_nanos(&result.std_dev), 0);
}

#[test]
fn size_result_of_empty_list_is_none() {
    assert!(size_result(8, Vec::new()).is_none());
}
