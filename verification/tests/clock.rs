use midi_ctrl::clock::{
    pulse_interval_micros, TempoState, Train, BURST_PULSES, BURST_REST, DEFAULT_TEMPO,
};
use midi_ctrl::Fault;

#[test]
fn interval_at_120_beats_per_minute() {
    // 60000 / (120 * 24) ms = 20.8333.. ms
    assert_eq!(pulse_interval_micros(120_000), Ok(20_833));
}

#[test]
fn interval_at_60_beats_per_minute() {
    // 60000 / (60 * 24) ms = 41.6666.. ms
    assert_eq!(pulse_interval_micros(60_000), Ok(41_666));
}

#[test]
fn interval_is_the_quotient_rounded_down() {
    for tempo in [1u32, 999, 20_000, 120_000, 125_000, 300_000, 1_000_000, u32::MAX] {
        let micros: u64 = pulse_interval_micros(tempo).unwrap();
        let per_minute: u128 = 24 * tempo as u128;
        assert!(micros as u128 * per_minute <= 60_000_000_000);
        assert!((micros as u128 + 1) * per_minute > 60_000_000_000);
    }
    assert_eq!(pulse_interval_micros(1), Ok(2_500_000_000));
    assert_eq!(pulse_interval_micros(125_000), Ok(20_000));
    assert_eq!(pulse_interval_micros(u32::MAX), Ok(0));
}

#[test]
fn faster_tempo_means_shorter_interval() {
    let mut last: u64 = u64::MAX;
    for tempo in (20_000u32..=300_000).step_by(7_000) {
        let micros: u64 = pulse_interval_micros(tempo).unwrap();
        assert!(micros <= last);
        last = micros;
    }
}

#[test]
fn tempo_of_zero_has_no_interval() {
    assert_eq!(pulse_interval_micros(0), Err(Fault::InvalidParameter));
}

#[test]
fn tempo_starts_at_120_and_refuses_zero() {
    let mut tempo = TempoState::new();
    assert_eq!(tempo.get(), 120_000);
    assert_eq!(DEFAULT_TEMPO, 120_000);
    assert_eq!(tempo.set(0), Err(Fault::InvalidParameter));
    assert_eq!(tempo.get(), 120_000);
    assert_eq!(tempo.set(90_500), Ok(()));
    assert_eq!(tempo.get(), 90_500);
}

#[test]
fn fixed_burst_is_six_pulses_eight_milliseconds_apart() {
    let burst = Train::fixed_burst();
    assert_eq!(burst, Train { left: 6, rest: 8_000, strict: false });
    assert_eq!((BURST_PULSES, BURST_REST), (6, 8_000));
}

#[test]
fn timing_clock_follows_the_tempo() {
    assert_eq!(
        Train::timing_clock(120_000, 24),
        Ok(Train { left: 24, rest: 20_833, strict: true })
    );
    assert_eq!(Train::timing_clock(0, 24), Err(Fault::InvalidParameter));
    let tempo = TempoState { tempo: 60_000 };
    assert_eq!(tempo.clock_train(3), Train { left: 3, rest: 41_666, strict: true });
}

#[test]
fn advance_takes_one_pulse_off() {
    let train = Train { left: 2, rest: 5, strict: true };
    assert_eq!(train.advance(), Train { left: 1, rest: 5, strict: true });
    assert_eq!(train.advance().advance(), Train { left: 0, rest: 5, strict: true });
}
