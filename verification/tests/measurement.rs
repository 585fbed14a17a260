use nst::endpoint::{decimal_string, Endpoint, CHUNK_BYTES};
use nst::latency::LatencyProbe;
use nst::measurement::{
    bit_rate, BitRate, MeasurementRun, Phase, PhaseTransfer, RunSettings, RunStep, LATENCY_SAMPLES,
    PHASE_DURATION_SECS, STREAM_COUNT,
};
use nst::median::{median, sort_readings, Median};
use nst::tally::{ByteTally, JoinStep};

#[test]
fn median_of_odd_length_slice_is_the_middle_value() {
    let mut values: Vec<u64> = vec![30, 10, 20];
    let m = median(&mut values);
    assert_eq!(m.lower, 20);
    assert_eq!(m.upper, 20);
}

#[test]
fn median_of_even_length_slice_averages_the_two_middle_values() {
    let mut values: Vec<u64> = vec![10, 20, 30, 40];
    let m = median(&mut values);
    assert_eq!(m, Median { lower: 20, upper: 30 });
    assert_eq!((m.lower as f64 + m.upper as f64) / 2.0, 25.0);
}

#[test]
fn median_leaves_the_readings_sorted() {
    let mut values: Vec<u64> = vec![7, 3, 9, 3, 1];
    let m = median(&mut values);
    assert_eq!(values, vec![1, 3, 3, 7, 9]);
    assert_eq!(m, Median { lower: 3, upper: 3 });
}

#[test]
fn median_does_not_depend_on_arrival_order() {
    let mut first: Vec<u64> = vec![5, 1, 4, 2];
    let mut second: Vec<u64> = vec![2, 4, 1, 5];
    assert_eq!(median(&mut first), median(&mut second));
    assert_eq!(median(&mut first), Median { lower: 2, upper: 4 });
}

#[test]
fn median_of_one_reading_is_that_reading() {
    let mut values: Vec<u64> = vec![42];
    assert_eq!(median(&mut values), Median { lower: 42, upper: 42 });
}

#[test]
fn median_of_equal_readings_is_that_reading() {
    let mut values: Vec<u64> = vec![8, 8, 8, 8];
    assert_eq!(median(&mut values), Median { lower: 8, upper: 8 });
}

#[test]
fn median_handles_extreme_readings() {
    let mut values: Vec<u64> = vec![u64::MAX, 0, u64::MAX, 0];
    assert_eq!(median(&mut values), Median { lower: 0, upper: u64::MAX });
}

#[test]
fn sorting_keeps_every_reading() {
    let mut values: Vec<u64> = vec![4, 4, 2, 9, 0, 2];
    sort_readings(&mut values);
    assert_eq!(values, vec![0, 2, 2, 4, 4, 9]);
}

#[test]
fn sorting_sorted_readings_leaves_them_as_they_are() {
    let mut values: Vec<u64> = vec![1, 2, 3, 5, 8];
    sort_readings(&mut values);
    assert_eq!(values, vec![1, 2, 3, 5, 8]);
    let mut empty: Vec<u64> = Vec::new();
    sort_readings(&mut empty);
    assert!(empty.is_empty());
}

#[test]
fn measure_idle_latency_reduces_samples_via_median() {
    let mut probe = LatencyProbe::new(5);
    let readings_ms: [u64; 5] = [10, 50, 20, 30, 40];
    let mut taken: usize = 0;
    while probe.needs_sample() {
        probe.record(readings_ms[taken] * 1_000_000);
        taken += 1;
    }
    assert_eq!(taken, 5);
    let latency = probe.idle_latency();
    assert_eq!(latency, Median { lower: 30_000_000, upper: 30_000_000 });
}

#[test]
fn latency_probe_takes_exactly_the_planned_samples() {
    let mut probe = LatencyProbe::new(LATENCY_SAMPLES);
    let mut taken: usize = 0;
    while probe.needs_sample() {
        probe.record(1_000 + taken as u64);
        taken += 1;
    }
    assert_eq!(taken, LATENCY_SAMPLES);
    assert_eq!(probe.idle_latency(), Median { lower: 1_002, upper: 1_002 });
}

#[test]
fn latency_probe_with_an_even_number_of_samples() {
    let mut probe = LatencyProbe::new(2);
    probe.record(300);
    assert!(probe.needs_sample());
    probe.record(100);
    assert!(!probe.needs_sample());
    assert_eq!(probe.idle_latency(), Median { lower: 100, upper: 300 });
}

#[test]
fn run_phase_bytes_sums_across_all_streams() {
    let mut tally = ByteTally::new();
    for _ in 0..4 {
        let outcome: Result<u64, String> = Ok(1_000);
        assert!(matches!(tally.absorb(outcome), JoinStep::KeepJoining));
    }
    assert_eq!(tally.total(), 4_000);
}

#[test]
fn stream_total_does_not_depend_on_completion_order() {
    let mut first = ByteTally::new();
    let mut second = ByteTally::new();
    for bytes in [5u64, 700, 12, 0] {
        first.add(bytes);
    }
    for bytes in [0u64, 12, 5, 700] {
        second.add(bytes);
    }
    assert_eq!(first.total(), 717);
    assert_eq!(first.total(), second.total());
}

#[test]
fn failed_stream_aborts_the_phase_with_its_error() {
    let mut tally = ByteTally::new();
    let ok: Result<u64, &str> = Ok(250);
    assert!(matches!(tally.absorb(ok), JoinStep::KeepJoining));
    let failed: Result<u64, &str> = Err("connection reset");
    match tally.absorb(failed) {
        JoinStep::AbortAll(error) => assert_eq!(error, "connection reset"),
        JoinStep::KeepJoining => panic!("a failed stream must abort the phase"),
    }
    assert_eq!(tally.total(), 250);
}

#[test]
fn empty_tally_is_zero() {
    let tally = ByteTally::new();
    assert_eq!(tally.total(), 0);
}

#[test]
fn tally_reaches_the_largest_count() {
    let mut tally = ByteTally::new();
    tally.add(u64::MAX - 1);
    tally.add(1);
    assert_eq!(tally.total(), u64::MAX);
}

#[test]
fn run_measures_latency_then_download_then_upload() {
    let mut run = MeasurementRun::new();
    assert_eq!(run.next_step(), RunStep::MeasureIdleLatency);
    let latency = Median { lower: 40, upper: 60 };
    run.record_idle_latency(latency);
    assert_eq!(run.next_step(), RunStep::RunPhase(Phase::Download));
    let down = PhaseTransfer { bytes: 1_000, elapsed_nanos: 2_000 };
    run.record_phase(Phase::Download, down);
    assert_eq!(run.next_step(), RunStep::RunPhase(Phase::Upload));
    let up = PhaseTransfer { bytes: 3_000, elapsed_nanos: 4_000 };
    run.record_phase(Phase::Upload, up);
    assert_eq!(run.next_step(), RunStep::Report);
    let report = run.report();
    assert_eq!(report.idle_latency, latency);
    assert_eq!(report.download, down);
    assert_eq!(report.upload, up);
}

#[test]
fn settings_default_to_four_streams_for_ten_seconds() {
    let settings = RunSettings::from_overrides(None, None);
    assert_eq!(settings.phase_duration_secs, 10);
    assert_eq!(settings.stream_count, 4);
    assert_eq!(settings.phase_duration_secs, PHASE_DURATION_SECS);
    assert_eq!(settings.stream_count, STREAM_COUNT);
}

#[test]
fn settings_take_the_overrides() {
    let settings = RunSettings::from_overrides(Some(3), Some(8));
    assert_eq!(settings.phase_duration_secs, 3);
    assert_eq!(settings.stream_count, 8);
    let only_streams = RunSettings::from_overrides(None, Some(1));
    assert_eq!(only_streams.phase_duration_secs, 10);
    assert_eq!(only_streams.stream_count, 1);
}

#[test]
fn phases_are_distinct() {
    assert_ne!(Phase::Download, Phase::Upload);
    assert_eq!(Phase::Download, Phase::Download);
}

#[test]
fn decimal_strings() {
    assert_eq!(decimal_string(0), "0");
    assert_eq!(decimal_string(7), "7");
    assert_eq!(decimal_string(10), "10");
    assert_eq!(decimal_string(1_000_000), "1000000");
    assert_eq!(decimal_string(u64::MAX), "18446744073709551615");
}

#[test]
fn cloudflare_addresses() {
    let endpoint = Endpoint::cloudflare();
    assert_eq!(
        endpoint.download_url(CHUNK_BYTES as u64),
        "https://speed.cloudflare.com/__down?bytes=1000000"
    );
    assert_eq!(endpoint.upload_url(), "https://speed.cloudflare.com/__up");
    assert_eq!(endpoint.ping_url(), "https://speed.cloudflare.com/__down?bytes=0");
}

#[test]
fn addresses_follow_the_base_url() {
    let endpoint = Endpoint::with_base_url("http://127.0.0.1:8080".to_string());
    assert_eq!(endpoint.download_url(1_000), "http://127.0.0.1:8080/__down?bytes=1000");
    assert_eq!(endpoint.upload_url(), "http://127.0.0.1:8080/__up");
    assert_eq!(endpoint.ping_url(), "http://127.0.0.1:8080/__down?bytes=0");
}

#[test]
fn chunk_size_is_one_megabyte() {
    assert_eq!(CHUNK_BYTES, 1_000_000);
}

#[test]
fn median_resists_a_single_outlier() {
    let mut calm: Vec<u64> = vec![10, 20, 30];
    let mut spiked: Vec<u64> = vec![10, 20, 1_000_000];
    let mut dipped: Vec<u64> = vec![0, 20, 30];
    assert_eq!(median(&mut calm), Median { lower: 20, upper: 20 });
    assert_eq!(median(&mut spiked), median(&mut calm));
    assert_eq!(median(&mut dipped), median(&mut calm));
}

#[test]
fn bytes_to_mbps_converts_bytes_per_second_to_megabits_per_second() {
    // 125,000,000 bytes/s * 8 bits/byte = 1,000,000,000 bits/s = 1000 Mbps
    let rate = bit_rate(125_000_000, 1_000_000_000);
    assert_eq!(rate, BitRate { bits: 1_000_000_000, nanos: 1_000_000_000 });
    assert_eq!(rate.bits as f64 / (rate.nanos as f64 / 1_000_000_000.0) / 1_000_000.0, 1000.0);
}

#[test]
fn bytes_to_mbps_is_zero_for_zero_elapsed_time() {
    let rate = bit_rate(1_000_000, 0);
    assert_eq!(rate.bits, 0);
    assert_eq!(rate.bits as f64 / (rate.nanos as f64 / 1_000_000_000.0) / 1_000_000.0, 0.0);
}

#[test]
fn rate_is_kept_exact() {
    assert_eq!(bit_rate(1, 3_000_000_000), BitRate { bits: 8, nanos: 3_000_000_000 });
    assert_eq!(bit_rate(u64::MAX, 1).bits, u64::MAX as u128 * 8);
    let rate = bit_rate(53_400_001, 10_000_000_000);
    assert_eq!(rate.bits, 427_200_008);
    let mbps = rate.bits as f64 / (rate.nanos as f64 / 1_000_000_000.0) / 1_000_000.0;
    assert!((mbps - 42.7200008).abs() < 1e-9);
}

#[test]
fn more_bytes_or_less_time_never_lowers_the_rate() {
    let slow = bit_rate(1_000, 1_000_000);
    let fast = bit_rate(2_000, 1_000_000);
    assert!(slow.bits * fast.nanos as u128 <= fast.bits * slow.nanos as u128);
    let longer = bit_rate(1_000, 2_000_000);
    assert!(longer.bits * slow.nanos as u128 <= slow.bits * longer.nanos as u128);
}
