use shm_signals::{
    compute_tick, fixture_bytes, laser_points, level_byte, split_universes, transform, transform_value,
    DmxFrame, LaserPoint, Shm, Signal, SignalParams, SinkAction, SinkEvent, SinkKind, SinkState, Sinks,
    LED_ADDRS_PER_UNIVERSE, LED_PIXELS_PER_UNIVERSE, LEVEL_LIMIT, ONE, TOTAL_LED_PIXELS,
};

#[test]
fn identity_transform_is_plain_rescale() {
    let raw = [-ONE, 0, ONE, ONE / 2, -ONE / 2, 1];
    let out = transform(&raw, ONE, false, 0, ONE);
    let expected: Vec<i64> = raw.iter().map(|x| (x + ONE) / 2).collect();
    assert_eq!(out, expected);
    assert_eq!(out, vec![0, ONE / 2, ONE, 3 * ONE / 4, ONE / 4, ONE / 2]);
}

#[test]
fn inversion_swaps_range_bounds() {
    let raw = [-ONE, -ONE / 3, 0, ONE / 5, ONE];
    for (lo, hi) in [(0, ONE), (-ONE, ONE / 2), (ONE / 3, -ONE), (5, 5)] {
        for power in [ONE / 2, ONE, 2 * ONE] {
            assert_eq!(transform(&raw, power, true, lo, hi), transform(&raw, power, false, hi, lo));
        }
    }
}

#[test]
fn transform_values() {
    assert_eq!(transform_value(0, ONE, false, -ONE, ONE), 0);
    assert_eq!(transform_value(ONE, ONE, true, -ONE, ONE), -ONE);
    assert_eq!(transform_value(-ONE, ONE, true, -ONE, ONE), ONE);
    assert_eq!(transform_value(0, 2 * ONE, false, 0, ONE), ONE / 4);
    assert_eq!(transform_value(ONE / 2, ONE, true, 0, ONE), ONE / 4);
    assert_eq!(transform_value(ONE, ONE, false, -LEVEL_LIMIT, LEVEL_LIMIT), LEVEL_LIMIT);
}

#[test]
fn transform_stays_in_range() {
    let raw: Vec<i64> = (0..=20).map(|k| -ONE + k * ONE / 10).collect();
    for power in [ONE / 2, ONE, 10 * ONE] {
        for v in transform(&raw, power, false, -ONE / 2, ONE / 3) {
            assert!(-ONE / 2 <= v && v <= ONE / 3);
        }
    }
}

#[test]
fn ten_bytes_in_universes_of_six() {
    let bytes: Vec<u8> = (1..=10).collect();
    let frames = split_universes(&bytes, 6);
    assert_eq!(
        frames,
        vec![
            DmxFrame { universe: 1, data: vec![1, 2, 3, 4, 5, 6] },
            DmxFrame { universe: 2, data: vec![7, 8, 9, 10] },
        ]
    );
}

#[test]
fn frames_rebuild_the_buffer() {
    for len in [0usize, 1, 5, 6, 7, 12, 13, 864] {
        for cap in [1usize, 6, 432, 1000] {
            let bytes: Vec<u8> = (0..len).map(|i| (i % 251) as u8).collect();
            let frames = split_universes(&bytes, cap);
            assert_eq!(frames.len(), (len + cap - 1) / cap);
            let mut joined = Vec::new();
            for (k, f) in frames.iter().enumerate() {
                assert_eq!(f.universe as usize, k + 1);
                assert!(!f.data.is_empty() && f.data.len() <= cap);
                joined.extend_from_slice(&f.data);
            }
            assert_eq!(joined, bytes);
        }
    }
}

#[test]
fn exact_multiple_sends_no_empty_frame() {
    let bytes = vec![9u8; 12];
    let frames = split_universes(&bytes, 6);
    assert_eq!(frames.len(), 2);
    assert!(split_universes(&[], 6).is_empty());
}

#[test]
fn level_bytes_round_and_clamp() {
    assert_eq!(level_byte(-5), 0);
    assert_eq!(level_byte(0), 0);
    assert_eq!(level_byte(1), 0);
    assert_eq!(level_byte(ONE / 2), 128);
    assert_eq!(level_byte(ONE / 255), 1);
    assert_eq!(level_byte(ONE), 255);
    assert_eq!(level_byte(2 * ONE), 255);
}

#[test]
fn fixtures_take_three_bytes_each() {
    let bytes = fixture_bytes(&[0, ONE], 4);
    assert_eq!(bytes, vec![0, 0, 0, 0, 0, 0, 255, 255, 255, 255, 255, 255]);
    assert_eq!(fixture_bytes(&[ONE / 2], TOTAL_LED_PIXELS as usize).len(), 864);
}

#[test]
fn lighting_layout_constants() {
    assert_eq!(TOTAL_LED_PIXELS, 288);
    assert_eq!(LED_ADDRS_PER_UNIVERSE, 432);
    assert_eq!(LED_PIXELS_PER_UNIVERSE, 144);
}

#[test]
fn laser_points_span_left_to_right() {
    let pts = laser_points(&[5, 6, 7, 8]);
    assert_eq!(
        pts,
        vec![
            LaserPoint { x: -ONE, y: 5 },
            LaserPoint { x: -ONE / 2, y: 6 },
            LaserPoint { x: 0, y: 7 },
            LaserPoint { x: ONE / 2, y: 8 },
        ]
    );
    assert_eq!(laser_points(&[0, 0, 0])[1].x, -ONE + (2 * ONE) / 3);
    assert!(laser_points(&[]).is_empty());
}

fn tick(s: SinkState, enabled: bool, available: bool) -> (SinkState, SinkAction) {
    s.on_event(SinkEvent::Tick { enabled, available })
}

#[test]
fn rapid_toggling_holds_one_connection() {
    let mut s = SinkState::Disabled;
    let mut held: i32 = 0;
    for enabled in [true, false, true, false, true, true, false, true] {
        let (next, action) = tick(s, enabled, true);
        match action {
            SinkAction::Open => held += 1,
            SinkAction::Close => held -= 1,
            SinkAction::Idle => {}
        }
        assert!(held <= 1 && held >= 0);
        assert_eq!(held, if next == SinkState::Live { 1 } else { 0 });
        s = next;
    }
}

#[test]
fn live_sink_is_not_opened_again() {
    assert_eq!(tick(SinkState::Live, true, true), (SinkState::Live, SinkAction::Idle));
    assert_eq!(tick(SinkState::Live, false, true), (SinkState::Disabled, SinkAction::Close));
    assert_eq!(tick(SinkState::Disabled, false, true), (SinkState::Disabled, SinkAction::Idle));
}

#[test]
fn sink_waits_for_its_resource() {
    assert_eq!(tick(SinkState::Disabled, true, false), (SinkState::Connecting, SinkAction::Idle));
    assert_eq!(tick(SinkState::Connecting, true, false), (SinkState::Connecting, SinkAction::Idle));
    assert_eq!(tick(SinkState::Connecting, true, true), (SinkState::Live, SinkAction::Open));
    assert_eq!(tick(SinkState::Connecting, false, true), (SinkState::Disabled, SinkAction::Idle));
    assert_eq!(
        SinkState::Live.on_event(SinkEvent::OpenFailed),
        (SinkState::Connecting, SinkAction::Idle)
    );
}

#[test]
fn sinks_follow_their_switches() {
    let mut params = SignalParams::new();
    let mut sinks = Sinks::new();
    let a = sinks.tick(&params, false);
    assert_eq!(sinks.laser, SinkState::Connecting);
    assert_eq!(a.laser, SinkAction::Idle);
    let a = sinks.tick(&params, true);
    assert_eq!(a.laser, SinkAction::Open);
    assert_eq!(sinks.laser, SinkState::Live);
    params.set_dmx_on(true);
    params.set_laser_on(false);
    let a = sinks.tick(&params, true);
    assert_eq!(a.laser, SinkAction::Close);
    assert_eq!(a.lighting, SinkAction::Open);
    assert_eq!(a.audio, SinkAction::Idle);
    sinks.open_failed(SinkKind::Lighting);
    assert_eq!(sinks.lighting, SinkState::Connecting);
    let a = sinks.tick(&params, true);
    assert_eq!(a.lighting, SinkAction::Open);
}

#[test]
fn params_refuse_invalid_settings() {
    let mut params = SignalParams::new();
    assert_eq!(params.pow(), ONE);
    assert_eq!((params.min(), params.max()), (-ONE, ONE));
    assert!(params.laser_on() && !params.dmx_on() && !params.audio_on() && !params.invert());
    assert!(!params.set_pow(0));
    assert!(!params.set_range(ONE, -ONE));
    assert!(!params.set_range(-LEVEL_LIMIT - 1, 0));
    assert_eq!(params.pow(), ONE);
    assert!(params.set_pow(2 * ONE));
    assert!(params.set_range(0, ONE / 2));
    assert_eq!((params.pow(), params.min(), params.max()), (2 * ONE, 0, ONE / 2));
    params.select(3);
    assert_eq!(params.selected_idx(), Some(3));
}

#[test]
fn tick_feeds_every_live_sink() {
    let mut shm = Shm::new(4, 0, ONE / 4, 0);
    shm.set_signal_type(Signal::Ramp);
    let params = SignalParams::new();
    let sinks = Sinks { audio: SinkState::Live, laser: SinkState::Live, lighting: SinkState::Live };
    let out = compute_tick(&mut shm, &params, &sinks);
    assert_eq!(out.phases, vec![0, ONE / 4, ONE / 2, 3 * ONE / 4]);
    assert_eq!(out.audio, Some(out.phases.clone()));
    let laser = out.laser.unwrap();
    assert_eq!(laser.iter().map(|p| p.x).collect::<Vec<_>>(), vec![-ONE, -ONE / 2, 0, ONE / 2]);
    assert_eq!(out.dmx_frames.len(), 2);
    assert_eq!(out.dmx_frames[0].universe, 1);
    assert_eq!(out.dmx_frames[1].universe, 2);
    assert_eq!(out.dmx_frames[0].data.len(), 432);
    assert_eq!(out.dmx_frames[1].data.len(), 432);
    assert_eq!(&out.dmx_frames[0].data[..3], &[0, 0, 0]);
    assert_eq!(&out.dmx_frames[1].data[429..], &[191, 191, 191]);
}

#[test]
fn tick_skips_sinks_that_are_not_live() {
    let mut shm = Shm::new(4, 0, ONE / 4, 0);
    let mut params = SignalParams::new();
    params.select(0);
    let sinks = Sinks::new();
    let out = compute_tick(&mut shm, &params, &sinks);
    assert!(out.audio.is_none() && out.laser.is_none() && out.dmx_frames.is_empty());
    assert_eq!(shm.signal_type(), Signal::Ramp);
    params.select(99);
    compute_tick(&mut shm, &params, &sinks);
    assert_eq!(shm.signal_type(), Signal::Ramp);
}
