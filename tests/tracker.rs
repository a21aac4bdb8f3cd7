use rapl_power::{IntelRapl, Power, RaplError, WattHours};

const SECOND: u64 = 1_000_000_000;

fn tracker(max: u64) -> IntelRapl {
    IntelRapl::new(b"intel-rapl:0/package-0".to_vec(), max, 0)
}

fn power(energy_uj: u64, elapsed_ns: u64) -> Power {
    Power { energy_uj, elapsed_ns }
}

#[test]
fn non_wrapping_readings_give_delta_over_elapsed() {
    let mut t = tracker(1_000_000_000);
    assert_eq!(t.read_power(100, SECOND), Ok(Power::zero()));
    assert_eq!(t.read_power(600, 2 * SECOND), Ok(power(500, SECOND)));
    assert_eq!(t.read_power(600, 3 * SECOND), Ok(power(0, SECOND)));
    assert_eq!(t.read_power(1_600, 3 * SECOND + SECOND / 2), Ok(power(1_000, SECOND / 2)));
    assert_eq!(t.cumulative_energy_uj(), 1_500);
}

#[test]
fn wraparound_adds_distance_to_maximum() {
    let mut t = tracker(1000);
    assert_eq!(t.read_power(900, SECOND), Ok(Power::zero()));
    assert_eq!(t.read_power(50, 2 * SECOND), Ok(power(150, SECOND)));
    assert_eq!(t.last_energy(), 50);
    assert_eq!(t.cumulative_energy_uj(), 150);
}

#[test]
fn first_sample_reports_zero_whatever_the_counter() {
    for counter in [1u64, 7, 999, 1000] {
        let mut t = tracker(1000);
        let p = t.read_power(counter, 5 * SECOND).unwrap();
        assert_eq!(p, Power::zero());
        assert_eq!(p.microwatts(), 0);
        assert_eq!(t.cumulative_energy_uj(), 0);
        assert_eq!(t.last_energy(), counter);
    }
}

#[test]
fn cumulative_energy_and_peak_never_go_down() {
    let mut t = tracker(10_000);
    let readings = [(100u64, 1u64), (5_000, 2), (5_000, 3), (200, 4), (20_000, 5), (300, 5), (400, 9)];
    let mut last_cumulative = t.cumulative_energy_uj();
    let mut last_peak = t.max_power();
    for (counter, second) in readings {
        let _ = t.read_power(counter, second * SECOND);
        assert!(t.cumulative_energy_uj() >= last_cumulative);
        assert!(!last_peak.exceeds(&t.max_power()));
        last_cumulative = t.cumulative_energy_uj();
        last_peak = t.max_power();
    }
    assert_eq!(t.cumulative_energy_uj(), 4_900 + 5_200 + 100 + 100);
    assert_eq!(t.max_power(), power(5_200, SECOND));
}

#[test]
fn counter_above_maximum_is_rejected_without_change() {
    let mut t = tracker(1000);
    t.read_power(100, SECOND).unwrap();
    t.read_power(300, 2 * SECOND).unwrap();
    let before = (t.last_energy(), t.cumulative_energy_uj(), t.max_power(), t.average_power());
    assert_eq!(t.read_power(1001, 3 * SECOND), Err(RaplError::CounterOutOfRange));
    let after = (t.last_energy(), t.cumulative_energy_uj(), t.max_power(), t.average_power());
    assert_eq!(before, after);
    assert_eq!(t.last_energy(), 300);
    assert_eq!(t.cumulative_energy_uj(), 200);
}

#[test]
fn counter_above_maximum_is_rejected_before_first_sample() {
    let mut t = tracker(1000);
    assert_eq!(t.read_power(u64::MAX, SECOND), Err(RaplError::CounterOutOfRange));
    assert_eq!(t.last_energy(), 0);
    assert_eq!(t.average_power(), None);
}

#[test]
fn one_watt_hour_of_microjoules() {
    let mut t = tracker(10_000_000_000);
    t.read_power(1, SECOND).unwrap();
    t.read_power(3_600_000_001, 2 * SECOND).unwrap();
    assert_eq!(t.cumulative_energy_uj(), 3_600_000_000);
    assert_eq!(t.cumulative_energy_wh(), WattHours { micro_wh: 1_000_000 });
}

#[test]
fn watt_hours_round_down_to_the_millionth() {
    assert_eq!(WattHours::from_microjoules(0).micro_wh, 0);
    assert_eq!(WattHours::from_microjoules(3_599).micro_wh, 0);
    assert_eq!(WattHours::from_microjoules(3_600).micro_wh, 1);
    assert_eq!(WattHours::from_microjoules(7_300).micro_wh, 2);
}

#[test]
fn average_power_over_the_accounting_window() {
    let mut t = tracker(1_000_000_000);
    assert_eq!(t.average_power(), None);
    t.read_power(1_000, 10 * SECOND).unwrap();
    assert_eq!(t.average_power(), None);
    t.read_power(4_000, 13 * SECOND).unwrap();
    let avg = t.average_power().unwrap();
    assert_eq!(avg, power(3_000, 3 * SECOND));
    assert_eq!(avg.microwatts(), 1_000);
    t.read_power(10_000, 15 * SECOND).unwrap();
    assert_eq!(t.average_power(), Some(power(9_000, 5 * SECOND)));
}

#[test]
fn scenario_with_wrap_on_third_sample() {
    let max = 262_143_328_850u64;
    let mut t = IntelRapl::new(b"intel-rapl:0/package-0".to_vec(), max, 0);
    let p0 = t.read_power(1_000_000, 0).unwrap();
    let p1 = t.read_power(3_000_000, SECOND).unwrap();
    let p2 = t.read_power(2_000_000, 2 * SECOND).unwrap();
    assert_eq!(p0.microwatts(), 0);
    assert_eq!(p1, power(2_000_000, SECOND));
    assert_eq!(p1.microwatts(), 2_000_000);
    assert_eq!(p2, power(2_000_000 + (max - 3_000_000), SECOND));
    assert_eq!(p2.microwatts(), 262_142_328_850);
    assert_eq!(t.max_power(), p2);
    assert_eq!(t.cumulative_energy_uj(), 2_000_000 + 262_142_328_850);
}

#[test]
fn same_timestamp_is_zero_elapsed_time() {
    let mut t = tracker(1000);
    t.read_power(10, SECOND).unwrap();
    assert_eq!(t.read_power(20, SECOND), Err(RaplError::ZeroElapsedTime));
    assert_eq!(t.read_power(20, SECOND - 1), Err(RaplError::ZeroElapsedTime));
    assert_eq!(t.last_energy(), 10);
    assert_eq!(t.read_power(20, SECOND + 1), Ok(power(10, 1)));
}

#[test]
fn zero_reading_seeds_again() {
    let mut t = tracker(1000);
    t.read_power(10, SECOND).unwrap();
    assert_eq!(t.read_power(0, 2 * SECOND), Ok(power(990, SECOND)));
    assert_eq!(t.read_power(40, 5 * SECOND), Ok(Power::zero()));
    assert_eq!(t.cumulative_energy_uj(), 990);
    assert_eq!(t.average_power(), None);
    assert_eq!(t.read_power(50, 6 * SECOND), Ok(power(10, SECOND)));
    assert_eq!(t.average_power(), Some(power(1000, SECOND)));
}

#[test]
fn cumulative_energy_saturates() {
    let mut t = tracker(u64::MAX);
    t.read_power(1, SECOND).unwrap();
    t.read_power(u64::MAX, 2 * SECOND).unwrap();
    t.read_power(1, 3 * SECOND).unwrap();
    assert_eq!(t.cumulative_energy_uj(), u64::MAX);
    assert_eq!(t.read_power(u64::MAX, 4 * SECOND), Ok(power(u64::MAX - 1, SECOND)));
    assert_eq!(t.cumulative_energy_uj(), u64::MAX);
}

#[test]
fn peak_keeps_the_highest_ratio() {
    let mut t = tracker(1_000_000);
    t.read_power(1, SECOND).unwrap();
    t.read_power(101, SECOND + 100).unwrap();
    t.read_power(10_101, 2 * SECOND).unwrap();
    assert_eq!(t.max_power(), power(100, 100));
    assert_eq!(t.max_power().microwatts(), 1_000_000_000);
}

#[test]
fn power_comparison_is_exact() {
    assert!(power(3, 2).exceeds(&power(1, 1)));
    assert!(!power(2, 2).exceeds(&power(1, 1)));
    assert!(!power(1, 1).exceeds(&power(2, 2)));
    assert!(power(u64::MAX, 1).exceeds(&power(u64::MAX - 1, 1)));
    assert!(!Power::zero().exceeds(&power(0, 7)));
}

#[test]
fn microwatts_round_down() {
    assert_eq!(power(1, 3).microwatts(), 333_333_333);
    assert_eq!(power(2_500_000, 2 * SECOND).microwatts(), 1_250_000);
    assert_eq!(power(u64::MAX, 1).microwatts(), u64::MAX as u128 * 1_000_000_000);
}

#[test]
fn tracker_from_metadata() {
    let t = IntelRapl::from_metadata(b"intel-rapl:0", b" package-0\n", b"262143328850\n", 5).unwrap();
    assert_eq!(t.name().as_slice(), b"intel-rapl:0/package-0");
    assert_eq!(t.max_energy_range_uj(), 262_143_328_850);
    assert_eq!(t.last_energy(), 0);
    assert_eq!(t.cumulative_energy_uj(), 0);
    assert_eq!(t.average_power(), None);
}

#[test]
fn unparsable_max_range_is_metadata_error() {
    for text in [&b""[..], b"abc", b"12x", b"-5", b"18446744073709551616", b"\n"] {
        let r = IntelRapl::from_metadata(b"intel-rapl:1", b"dram", text, 0);
        assert!(matches!(r, Err(RaplError::MetadataUnreadable)));
    }
}

#[test]
fn unparsable_counter_is_counter_error() {
    let mut t = tracker(1000);
    assert_eq!(t.read_power_from_text(b"100\n", SECOND), Ok(Power::zero()));
    assert_eq!(t.read_power_from_text(b"garbage", 2 * SECOND), Err(RaplError::CounterUnreadable));
    assert_eq!(t.last_energy(), 100);
    assert_eq!(t.read_power_from_text(b"  250 \n", 2 * SECOND), Ok(power(150, SECOND)));
    assert_eq!(t.read_power_from_text(b"1001", 3 * SECOND), Err(RaplError::CounterOutOfRange));
}

#[test]
fn metadata_and_counter_padded_with_no_break_space() {
    let mut t =
        IntelRapl::from_metadata(b"intel-rapl:0", "\u{a0}package-0\u{a0}".as_bytes(), "\u{a0}5000".as_bytes(), 0)
            .unwrap();
    assert_eq!(t.name().as_slice(), b"intel-rapl:0/package-0");
    assert_eq!(t.max_energy_range_uj(), 5000);
    assert_eq!(t.read_power_from_text("\u{a0}5".as_bytes(), SECOND), Ok(Power::zero()));
    assert_eq!(t.last_energy(), 5);
    assert_eq!(t.read_power_from_text("105\u{a0}\n".as_bytes(), 2 * SECOND), Ok(power(100, SECOND)));
}

#[test]
fn non_wrapping_run_adds_up_to_the_counter_advance() {
    let mut t = tracker(1_000_000);
    t.read_power(250, SECOND).unwrap();
    let readings = [(250u64, 2u64), (900, 3), (4_000, 5), (4_001, 6), (90_250, 10)];
    let mut previous = (250u64, 1u64);
    for (counter, second) in readings {
        let p = t.read_power(counter, second * SECOND).unwrap();
        assert_eq!(p, power(counter - previous.0, (second - previous.1) * SECOND));
        previous = (counter, second);
    }
    assert_eq!(t.cumulative_energy_uj(), 90_250 - 250);
    assert_eq!(t.average_power(), Some(power(90_000, 9 * SECOND)));
}
