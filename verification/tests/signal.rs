use csw::signal::{survey, Pulses};

#[test]
fn the_declared_count_stops_at_a_zero_and_the_walk_does_not() {
    let sig = Pulses::new(8000, vec![100, 0, 100, 100, 100], true);
    let s = survey(&sig.pulses);
    assert_eq!(s.pulses, 5);
    assert_eq!(s.total_samples, 100);
    assert_eq!(sig.total_samples(), 100);
    let sig = Pulses::new(8000, vec![100, 100, 100, 100], true);
    assert_eq!(survey(&sig.pulses).total_samples, 400);
}

#[test]
fn a_new_signal_declares_its_pulse_count() {
    let sig = Pulses::new(44100, vec![3, 4, 5], false);
    assert_eq!(sig.declared, 3);
    assert!(!sig.initial_high);
    assert_eq!(sig.rate, 44100);
}
