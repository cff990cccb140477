use wgfmu_sim::status::{get_result, Error, MeasureEventMode, MeasureMode, OperationMode};
use wgfmu_sim::store::TestWgfmu;
use wgfmu_sim::timeline::{Measurement, Pattern, MIN_STEP};

const SECOND: i64 = 100_000_000;

fn volts(v: f64) -> i32 {
    (v * 1e6).round() as i32
}

fn amps(a: f64) -> i64 {
    (a * 1e9).round() as i64
}

fn times(w: &mut TestWgfmu, name: &str) -> Vec<u64> {
    w.pattern(name).unwrap().timeline.iter().map(|m| m.time).collect()
}

#[test]
fn example_timeline_and_replication() {
    let mut w = TestWgfmu::new();
    assert_eq!(w.create_pattern("P1", 0), Ok(()));
    assert_eq!(w.add_vector("P1", SECOND, volts(5.0)), Ok(()));
    assert_eq!(w.add_vector("P1", SECOND, volts(10.0)), Ok(()));
    let p = w.pattern("P1").unwrap();
    assert_eq!(
        p.timeline,
        vec![
            Measurement { voltage: volts(5.0), current: Some(amps(2.5)), time: SECOND as u64 },
            Measurement { voltage: volts(10.0), current: Some(amps(5.0)), time: 2 * SECOND as u64 },
        ]
    );
    assert_eq!(p.clock, 2 * SECOND as u64);

    assert_eq!(w.add_sequence(0, "P1", 3), Ok(()));
    let p = w.pattern("P1").unwrap();
    assert_eq!(p.timeline.len(), 6);
    let t: Vec<u64> = (1..=6).map(|k| k * SECOND as u64).collect();
    assert_eq!(times(&mut w, "P1"), t);
    let v: Vec<i32> = p.timeline.iter().map(|m| m.voltage).collect();
    assert_eq!(v, vec![volts(5.0), volts(10.0), volts(5.0), volts(10.0), volts(5.0), volts(10.0)]);
    assert_eq!(p.clock, 6 * SECOND as u64);
}

#[test]
fn retrieve_fails_on_lone_short_pattern() {
    let mut w = TestWgfmu::new();
    w.create_pattern("a", 0).unwrap();
    assert_eq!(w.get_measure_values(0), Err(Error::UnidentifiedError));
    w.add_vector("a", 10, 1).unwrap();
    assert_eq!(w.get_measure_values(0), Err(Error::UnidentifiedError));
}

#[test]
fn retrieve_fails_on_empty_store() {
    let mut w = TestWgfmu::new();
    assert_eq!(w.get_measure_values(3), Err(Error::UnidentifiedError));
}

#[test]
fn retrieve_skips_short_patterns() {
    let mut w = TestWgfmu::new();
    w.create_pattern("first", 0).unwrap();
    w.create_pattern("second", 0).unwrap();
    w.add_vector("second", 5, 7).unwrap();
    w.add_vector("second", 5, 8).unwrap();
    let got = w.get_measure_values(1).unwrap();
    assert_eq!(got, w.pattern("second").unwrap().timeline);
    assert_eq!(got.len(), 2);
    assert_eq!(got[0], Measurement { voltage: 7, current: Some(3500), time: 5 });
    assert_eq!(got[1], Measurement { voltage: 8, current: Some(4000), time: 10 });
}

#[test]
fn retrieve_takes_first_in_creation_order() {
    let mut w = TestWgfmu::new();
    for name in ["x", "y"] {
        w.create_pattern(name, 0).unwrap();
    }
    for _ in 0..3 {
        w.add_vector("y", 1, 2).unwrap();
    }
    for _ in 0..2 {
        w.add_vector("x", 1, 4).unwrap();
    }
    let got = w.get_measure_values(0).unwrap();
    assert_eq!(got.len(), 2);
    assert_eq!(got[0].voltage, 4);
}

#[test]
fn nonpositive_step_is_min_step() {
    let mut a = TestWgfmu::new();
    let mut b = TestWgfmu::new();
    for w in [&mut a, &mut b] {
        w.create_pattern("p", 0).unwrap();
        w.add_vector("p", 20, 1).unwrap();
    }
    a.add_vector("p", 0, 3).unwrap();
    a.add_vector("p", -40, 4).unwrap();
    b.add_vector("p", MIN_STEP as i64, 3).unwrap();
    b.add_vector("p", MIN_STEP as i64, 4).unwrap();
    assert_eq!(a.pattern("p").unwrap().timeline, b.pattern("p").unwrap().timeline);
    assert_eq!(times(&mut a, "p"), vec![20, 21, 22]);
    assert_eq!(a.pattern("p").unwrap().clock, 22);
}

#[test]
fn append_times_are_running_sums() {
    let mut w = TestWgfmu::new();
    w.create_pattern("p", 0).unwrap();
    let deltas: [i64; 5] = [3, 0, 10, -2, 7];
    let mut sum: u64 = 0;
    let mut expected = Vec::new();
    for d in deltas {
        w.add_vector("p", d, 1).unwrap();
        sum += if d > 0 { d as u64 } else { MIN_STEP };
        expected.push(sum);
    }
    assert_eq!(times(&mut w, "p"), expected);
    assert_eq!(expected, vec![3, 4, 14, 15, 22]);
    assert!(expected.windows(2).all(|p| p[0] < p[1]));
}

#[test]
fn single_cycle_leaves_timeline() {
    let mut w = TestWgfmu::new();
    w.create_pattern("p", 0).unwrap();
    w.add_vector("p", 4, 1).unwrap();
    w.add_vector("p", 6, -2).unwrap();
    let before = w.pattern("p").unwrap();
    w.add_sequence(0, "p", 1).unwrap();
    let after = w.pattern("p").unwrap();
    assert_eq!(before.timeline, after.timeline);
    assert_eq!(before.clock, after.clock);
    w.add_sequence(0, "p", 0).unwrap();
    assert_eq!(w.pattern("p").unwrap().timeline, before.timeline);
    assert_eq!(w.pattern("p").unwrap().clock, 10);
}

#[test]
fn replication_tiles_by_duration() {
    let mut w = TestWgfmu::new();
    w.create_pattern("p", 0).unwrap();
    w.add_vector("p", 2, 1).unwrap();
    w.add_vector("p", 3, 2).unwrap();
    w.add_vector("p", 5, 3).unwrap();
    let base = w.pattern("p").unwrap();
    w.add_sequence(0, "p", 4).unwrap();
    let p = w.pattern("p").unwrap();
    assert_eq!(p.timeline.len(), 12);
    assert_eq!(p.clock, 40);
    for r in 0..4 {
        for k in 0..3 {
            let m = p.timeline[r * 3 + k];
            assert_eq!(m.time, r as u64 * 10 + base.timeline[k].time);
            assert_eq!(m.voltage, base.timeline[k].voltage);
            assert_eq!(m.current, base.timeline[k].current);
        }
    }
}

#[test]
fn replicating_empty_pattern_keeps_it_empty() {
    let mut w = TestWgfmu::new();
    w.create_pattern("p", 0).unwrap();
    w.add_sequence(0, "p", 5).unwrap();
    let p = w.pattern("p").unwrap();
    assert!(p.timeline.is_empty());
    assert_eq!(p.clock, 0);
}

#[test]
fn missing_pattern_is_a_silent_no_op() {
    let mut w = TestWgfmu::new();
    w.create_pattern("p", 0).unwrap();
    assert_eq!(w.add_vector("q", 5, 1), Ok(()));
    assert_eq!(w.add_sequence(0, "q", 3), Ok(()));
    assert!(w.pattern("q").is_none());
    assert_eq!(w.pattern_count(), 1);
    assert!(w.pattern("p").unwrap().timeline.is_empty());
}

#[test]
fn create_resets_existing_pattern() {
    let mut w = TestWgfmu::new();
    w.create_pattern("a", 0).unwrap();
    w.create_pattern("b", 0).unwrap();
    w.add_vector("a", 5, 1).unwrap();
    w.add_vector("a", 5, 1).unwrap();
    w.add_vector("b", 5, 1).unwrap();
    w.add_vector("b", 5, 1).unwrap();
    w.create_pattern("a", 9).unwrap();
    assert_eq!(w.pattern_count(), 2);
    let a = w.pattern("a").unwrap();
    assert!(a.timeline.is_empty());
    assert_eq!(a.clock, 0);
    assert_eq!(w.pattern("b").unwrap().timeline.len(), 2);
    // "a" keeps its place ahead of "b", but is empty now
    assert_eq!(w.get_measure_values(0).unwrap(), w.pattern("b").unwrap().timeline);
}

#[test]
fn clear_discards_all_patterns() {
    let mut w = TestWgfmu::new();
    w.create_pattern("a", 0).unwrap();
    w.add_vector("a", 5, 1).unwrap();
    w.add_vector("a", 5, 1).unwrap();
    assert_eq!(w.clear(), Ok(()));
    assert_eq!(w.pattern_count(), 0);
    assert!(w.pattern("a").is_none());
    assert_eq!(w.get_measure_values(0), Err(Error::UnidentifiedError));
}

#[test]
fn negative_voltage_gives_negative_current() {
    let mut w = TestWgfmu::new();
    w.create_pattern("p", 0).unwrap();
    w.add_vector("p", 1, volts(-1.5)).unwrap();
    let m = w.pattern("p").unwrap().timeline[0];
    assert_eq!(m.current, Some(amps(-0.75)));
}

#[test]
fn pattern_new_is_empty() {
    let p = Pattern::new();
    assert!(p.timeline.is_empty());
    assert_eq!(p.clock, 0);
}

#[test]
fn status_codes_map_to_errors() {
    assert_eq!(get_result(0), Ok(()));
    assert_eq!(get_result(-1), Err(Error::ParameterOutOfRangeError));
    assert_eq!(get_result(-8), Err(Error::GenericError));
    assert_eq!(get_result(-10), Err(Error::PatternNotFoundError));
    assert_eq!(get_result(-15), Err(Error::ResultOutOfDate));
    assert_eq!(get_result(-16), Err(Error::UnidentifiedError));
    assert_eq!(get_result(7), Err(Error::UnidentifiedError));
    assert_eq!(Error::from_code(-5), Some(Error::CommunicationError));
    assert_eq!(Error::from_code(0), None);
}

#[test]
fn mode_codes_round_trip() {
    for m in [
        OperationMode::OperationModeDC,
        OperationMode::OperationModeFastIV,
        OperationMode::OperationModePG,
        OperationMode::OperationModeSMU,
    ] {
        assert_eq!(OperationMode::from_code(m.code()), Some(m));
    }
    assert_eq!(OperationMode::OperationModeFastIV.code(), 2001);
    assert_eq!(OperationMode::from_code(1999), None);
    assert_eq!(MeasureMode::MeasureModeCurrent.code(), 4001);
    assert_eq!(MeasureMode::from_code(4000), Some(MeasureMode::MeasureModeVoltage));
    assert_eq!(MeasureMode::from_code(4002), None);
    assert_eq!(MeasureEventMode::MeasureEventDataRaw.code(), 12001);
}

#[test]
fn pass_through_operations_succeed_without_effect() {
    let mut w = TestWgfmu::new();
    w.create_pattern("p", 0).unwrap();
    w.add_vector("p", 5, 1).unwrap();
    assert_eq!(w.open_session("GPIB0::17::INSTR"), Ok(()));
    assert_eq!(w.initialize(), Ok(()));
    assert_eq!(w.set_operation_mode(101, OperationMode::OperationModeFastIV), Ok(()));
    assert_eq!(w.set_measure_mode(101, MeasureMode::MeasureModeVoltage), Ok(()));
    assert_eq!(w.set_measure_event("p", "ev", 0, 10, 5, 1, MeasureEventMode::MeasureEventDataAveraged), Ok(()));
    assert_eq!(w.set_vector("p", 100, 3), Ok(()));
    assert_eq!(w.connect(101), Ok(()));
    assert_eq!(w.execute(), Ok(()));
    assert_eq!(w.wait_until_completed(), Ok(()));
    assert_eq!(w.do_self_calibration(), Ok(()));
    assert_eq!(w.get_measure_mode(101), Ok(MeasureMode::MeasureModeCurrent));
    assert_eq!(w.get_operation_mode(101), Ok(OperationMode::OperationModeFastIV));
    assert_eq!(w.close_session(), Ok(()));
    assert_eq!(w.pattern_count(), 1);
    assert_eq!(times(&mut w, "p"), vec![5]);
}

#[test]
fn pattern_size_reports_length_and_clock() {
    let mut w = TestWgfmu::new();
    assert_eq!(w.pattern_size("p"), None);
    w.create_pattern("p", 0).unwrap();
    assert_eq!(w.pattern_size("p"), Some((0, 0)));
    w.add_vector("p", 7, 1).unwrap();
    w.add_vector("p", -1, 1).unwrap();
    assert_eq!(w.pattern_size("p"), Some((2, 8)));
    w.add_sequence(2, "p", 3).unwrap();
    assert_eq!(w.pattern_size("p"), Some((6, 24)));
}
