use shm_signals::{fract, div_floor, isqrt, qmul, qsqrt, qpow, Shm, Signal, ONE, SIGNAL_COUNT};

#[test]
fn advance_scenario_four_ramp_slots() {
    let mut shm = Shm::new(4, 0, ONE / 4, 0);
    shm.set_signal_type(Signal::Ramp);
    shm.update();
    assert_eq!(shm.phases(), &[0, ONE / 4, ONE / 2, 3 * ONE / 4]);
}

#[test]
fn advance_keeps_size() {
    for n in [1usize, 2, 3, 7, 16, 288] {
        let mut shm = Shm::new(n, ONE / 10, ONE / 3, ONE / 2);
        shm.update();
        assert_eq!(shm.size(), n);
        shm.set_mirror(true);
        shm.update();
        assert_eq!(shm.size(), n);
    }
}

#[test]
fn mirrored_advance_is_symmetric() {
    for n in [1usize, 2, 5, 6, 9] {
        let mut shm = Shm::new(n, ONE / 7, ONE / 10, ONE);
        shm.set_signal_type(Signal::Saw);
        shm.set_mirror(true);
        shm.update();
        shm.update();
        let p = shm.phases();
        for i in 0..n {
            assert_eq!(p[i], p[n - 1 - i]);
        }
    }
}

#[test]
fn mirrored_advance_computes_first_half() {
    let mut shm = Shm::new(5, 0, ONE / 8, 0);
    shm.set_signal_type(Signal::Ramp);
    shm.set_mirror(true);
    shm.update();
    assert_eq!(shm.phases(), &[0, ONE / 8, ONE / 4, ONE / 8, 0]);
}

#[test]
fn skewed_fraction_stays_below_one_for_any_sign() {
    for angle in [-3 * ONE - 5, -ONE, -1, 0, 1, ONE - 1, 5 * ONE + 7, i64::MIN, i64::MAX] {
        let f = fract(angle);
        assert!(0 <= f && f < ONE);
        for skew in [ONE / 4, ONE / 2, ONE, 3 * ONE / 2, 10 * ONE] {
            let s = qpow(f, skew);
            assert!(0 <= s && s < ONE);
        }
    }
}

#[test]
fn fract_wraps_negative_angles() {
    assert_eq!(fract(-1), ONE - 1);
    assert_eq!(fract(-ONE), 0);
    assert_eq!(fract(-ONE / 4), 3 * ONE / 4);
    assert_eq!(fract(ONE + 5), 5);
}

#[test]
fn div_floor_rounds_down() {
    assert_eq!(div_floor(7, 2), 3);
    assert_eq!(div_floor(-7, 2), -4);
    assert_eq!(div_floor(-6, 2), -3);
    assert_eq!(div_floor(i64::MIN, 1), i64::MIN);
}

#[test]
fn fixed_point_roots_and_powers() {
    assert_eq!(isqrt(0), 0);
    assert_eq!(isqrt(15), 3);
    assert_eq!(isqrt(16), 4);
    assert_eq!(qmul(ONE / 2, ONE / 2), ONE / 4);
    assert_eq!(qsqrt(ONE / 4), ONE / 2);
    assert_eq!(qpow(ONE / 4, ONE / 2), ONE / 2);
    assert_eq!(qpow(ONE / 2, 2 * ONE), ONE / 4);
    assert_eq!(qpow(ONE / 2, 3 * ONE), ONE / 8);
    assert_eq!(qpow(12345, ONE), 12345);
    assert_eq!(qpow(0, ONE / 4), 0);
    assert_eq!(qpow(ONE, 7 * ONE / 3), ONE);
}

#[test]
fn speed_moves_start_angle() {
    let mut shm = Shm::new(1, ONE, 0, 0);
    shm.set_signal_type(Signal::Ramp);
    shm.update();
    assert_eq!(shm.phases(), &[ONE / 20]);
    let mut back = Shm::new(1, -ONE, 0, 0);
    back.set_signal_type(Signal::Ramp);
    back.update();
    assert_eq!(back.phases(), &[ONE - (ONE / 20 + 1)]);
}

#[test]
fn offset_drifts_between_slots() {
    let mut shm = Shm::new(3, 0, 0, 20000);
    shm.set_signal_type(Signal::Ramp);
    shm.update();
    assert_eq!(shm.phases(), &[0, 0, 1]);
    shm.update();
    assert_eq!(shm.phases(), &[0, 3, 7]);
}

#[test]
fn skew_bends_the_phase() {
    let mut shm = Shm::new(2, 0, ONE / 2, 0);
    shm.set_signal_type(Signal::Ramp);
    assert!(shm.set_skew(2 * ONE));
    shm.update();
    assert_eq!(shm.phases(), &[0, ONE / 4]);
}

#[test]
fn invalid_skew_is_refused() {
    let mut shm = Shm::new(2, 0, 0, 0);
    assert!(!shm.set_skew(0));
    assert!(!shm.set_skew(-ONE));
    assert_eq!(shm.skew(), ONE);
    assert!(shm.set_skew(ONE / 4));
    assert_eq!(shm.skew(), ONE / 4);
}

#[test]
fn resize_truncates_and_zero_extends() {
    let mut shm = Shm::new(3, 0, ONE / 4, 0);
    shm.set_signal_type(Signal::Ramp);
    shm.update();
    shm.set_size(2);
    assert_eq!(shm.phases(), &[0, ONE / 4]);
    shm.set_size(4);
    assert_eq!(shm.phases(), &[0, ONE / 4, 0, 0]);
    assert_eq!(shm.size(), 4);
}

#[test]
fn new_engine_defaults() {
    let shm = Shm::new(3, 5, 6, 7);
    assert_eq!(shm.phases(), &[0, 0, 0]);
    assert_eq!(shm.hz(), 5);
    assert_eq!(shm.a_velocity(), 6);
    assert_eq!(shm.offset_hz(), 7);
    assert_eq!(shm.signal_type(), Signal::Sine);
    assert!(!shm.mirror());
}

#[test]
fn signal_amplitudes() {
    assert_eq!(Signal::Ramp.amp(ONE / 3), ONE / 3);
    assert_eq!(Signal::Saw.amp(0), -ONE);
    assert_eq!(Signal::Triangle.amp(0), -ONE);
    assert_eq!(Signal::Triangle.amp(ONE / 4), 0);
    assert_eq!(Signal::Triangle.amp(ONE / 2), ONE);
    assert_eq!(Signal::Square.amp(0), ONE);
    assert_eq!(Signal::Square.amp(ONE / 2), -ONE);
    assert_eq!(Signal::Sine.amp(ONE / 4), ONE);
    assert_eq!(Signal::Sine.amp(3 * ONE / 4), -ONE);
    assert_eq!(Signal::Sine.amp(0), 0);
    assert_eq!(Signal::QuadIn.amp(ONE / 2), ONE / 4);
    assert_eq!(Signal::QuadOut.amp(ONE / 2), 3 * ONE / 4);
    assert_eq!(Signal::QuadInOut.amp(ONE / 4), ONE / 8);
    assert_eq!(Signal::QuadInOut.amp(3 * ONE / 4), 7 * ONE / 8);
}

#[test]
fn signal_catalog_lookup() {
    assert_eq!(SIGNAL_COUNT, 8);
    assert_eq!(Signal::from_index(0), Some(Signal::Ramp));
    assert_eq!(Signal::from_index(4), Some(Signal::Sine));
    assert_eq!(Signal::from_index(7), Some(Signal::QuadInOut));
    assert_eq!(Signal::from_index(8), None);
    assert_eq!(Signal::Sine.name(), "Sine");
    assert_eq!(Signal::QuadInOut.name(), "QuadInOut");
}
