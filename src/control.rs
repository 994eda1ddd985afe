//! One control tick: the engine advances, the transform shapes its phases, and each
//! live sink gets its own copy of the result.
use vstd::prelude::*;
use crate::fixed::ONE;
use crate::signal::{Signal, catalog};
use crate::shm::{Shm, ShmView, advanced};
use crate::transform::{transform, transformed, bounds_ok, LEVEL_LIMIT};
use crate::lighting::{
    DmxFrame, fixture_bytes, fixture_bytes_spec, split_universes, is_split, TOTAL_LED_PIXELS,
    LED_ADDRS_PER_UNIVERSE,
};
use crate::sink::{SinkState, SinkAction, SinkEvent, next_state, next_action};

verus! {

/// The abstract settings: power and range in units of `ONE`.
pub ghost struct ParamsView {
    pub selected_idx: Option<usize>,
    pub pow: int,
    pub min: int,
    pub max: int,
    pub invert: bool,
    pub dmx_on: bool,
    pub laser_on: bool,
    pub audio_on: bool,
}

/// The settings of the transform, the waveform choice and the three sink switches.
pub struct SignalParams {
    selected_idx: Option<usize>,
    pow: i64,
    min: i64,
    max: i64,
    invert: bool,
    dmx_on: bool,
    laser_on: bool,
    audio_on: bool,
}

impl View for SignalParams {
    type V = ParamsView;

    closed spec fn view(&self) -> ParamsView {
        ParamsView {
            selected_idx: self.selected_idx,
            pow: self.pow as int,
            min: self.min as int,
            max: self.max as int,
            invert: self.invert,
            dmx_on: self.dmx_on,
            laser_on: self.laser_on,
            audio_on: self.audio_on,
        }
    }
}

impl SignalParams {
    /// The power is positive and the range is ordered and within `LEVEL_LIMIT`.
    pub open spec fn wf(&self) -> bool {
        &&& self@.pow > 0
        &&& self@.min <= self@.max
        &&& bounds_ok(self@.min, self@.max)
    }

    /// Power 1 over the range `[-ONE, ONE]`, no waveform chosen, no inversion, and only
    /// the laser switched on.
    pub fn new() -> (r: SignalParams)
        ensures
            r.wf(),
            r@ == (ParamsView {
                selected_idx: None,
                pow: ONE as int,
                min: -ONE,
                max: ONE as int,
                invert: false,
                dmx_on: false,
                laser_on: true,
                audio_on: false,
            }),
    {
        SignalParams {
            selected_idx: None,
            pow: ONE,
            min: -ONE,
            max: ONE,
            invert: false,
            dmx_on: false,
            laser_on: true,
            audio_on: false,
        }
    }

    /// The power applied to the rescaled phases.
    pub fn pow(&self) -> (r: i64)
        ensures
            r == self@.pow,
    {
        self.pow
    }

    /// The lower bound of the output range.
    pub fn min(&self) -> (r: i64)
        ensures
            r == self@.min,
    {
        self.min
    }

    /// The upper bound of the output range.
    pub fn max(&self) -> (r: i64)
        ensures
            r == self@.max,
    {
        self.max
    }

    /// Whether the output range is inverted.
    pub fn invert(&self) -> (r: bool)
        ensures
            r == self@.invert,
    {
        self.invert
    }

    /// The catalog index of the waveform asked for, if any.
    pub fn selected_idx(&self) -> (r: Option<usize>)
        ensures
            r == self@.selected_idx,
    {
        self.selected_idx
    }

    /// Whether the lighting sink is switched on.
    pub fn dmx_on(&self) -> (r: bool)
        ensures
            r == self@.dmx_on,
    {
        self.dmx_on
    }

    /// Whether the laser sink is switched on.
    pub fn laser_on(&self) -> (r: bool)
        ensures
            r == self@.laser_on,
    {
        self.laser_on
    }

    /// Whether the audio sink is switched on.
    pub fn audio_on(&self) -> (r: bool)
        ensures
            r == self@.audio_on,
    {
        self.audio_on
    }

    /// Sets the power; one that is not positive is refused and nothing changes.
    pub fn set_pow(&mut self, pow: i64) -> (accepted: bool)
        ensures
            accepted == (pow > 0),
            accepted ==> final(self)@ == (ParamsView { pow: pow as int, ..old(self)@ }),
            !accepted ==> final(self)@ == old(self)@,
    {
        if pow > 0 {
            self.pow = pow;
            true
        } else {
            false
        }
    }

    /// Sets the output range; one with `min > max` or a bound past `LEVEL_LIMIT` is
    /// refused and nothing changes.
    pub fn set_range(&mut self, min: i64, max: i64) -> (accepted: bool)
        ensures
            accepted == (min <= max && bounds_ok(min as int, max as int)),
            accepted ==> final(self)@ == (ParamsView { min: min as int, max: max as int, ..old(self)@ }),
            !accepted ==> final(self)@ == old(self)@,
    {
        if min <= max && -LEVEL_LIMIT <= min && max <= LEVEL_LIMIT {
            self.min = min;
            self.max = max;
            true
        } else {
            false
        }
    }

    /// Sets whether the output range is inverted.
    pub fn set_invert(&mut self, invert: bool)
        ensures
            final(self)@ == (ParamsView { invert, ..old(self)@ }),
    {
        self.invert = invert;
    }

    /// Asks for the waveform at catalog index `idx`.
    pub fn select(&mut self, idx: usize)
        ensures
            final(self)@ == (ParamsView { selected_idx: Some(idx), ..old(self)@ }),
    {
        self.selected_idx = Some(idx);
    }

    /// Switches the lighting sink on or off.
    pub fn set_dmx_on(&mut self, on: bool)
        ensures
            final(self)@ == (ParamsView { dmx_on: on, ..old(self)@ }),
    {
        self.dmx_on = on;
    }

    /// Switches the laser sink on or off.
    pub fn set_laser_on(&mut self, on: bool)
        ensures
            final(self)@ == (ParamsView { laser_on: on, ..old(self)@ }),
    {
        self.laser_on = on;
    }

    /// Switches the audio sink on or off.
    pub fn set_audio_on(&mut self, on: bool)
        ensures
            final(self)@ == (ParamsView { audio_on: on, ..old(self)@ }),
    {
        self.audio_on = on;
    }
}


/// A point of the laser frame, in units of `ONE`: `x` in `[-ONE, ONE)`.
#[derive(Clone, Copy, PartialEq, Eq, Structural, Debug)]
pub struct LaserPoint {
    pub x: i64,
    pub y: i64,
}

/// The horizontal position of point `i` of `n`: evenly spaced from `-ONE` towards `ONE`.
pub open spec fn laser_x(i: int, n: int) -> int {
    -ONE + 2 * ONE * i / n
}

/// The laser frame for a buffer: index across, value up.
pub open spec fn laser_points_spec(values: Seq<i64>) -> Seq<LaserPoint> {
    Seq::new(
        values.len(),
        |i: int| LaserPoint { x: laser_x(i, values.len() as int) as i64, y: values[i] },
    )
}

/// The laser frame for a buffer: index across, value up.
pub fn laser_points(values: &[i64]) -> (r: Vec<LaserPoint>)
    ensures
        r@ == laser_points_spec(values@),
        forall|i: int| 0 <= i < r@.len() ==> -ONE <= (#[trigger] r@[i]).x < ONE,
{
    let n = values.len();
    let mut out: Vec<LaserPoint> = Vec::new();
    let mut i: usize = 0;
    while i < n
        invariant
            i <= n,
            n == values@.len(),
            out@ =~= laser_points_spec(values@).subrange(0, i as int),
            forall|j: int| 0 <= j < out@.len() ==> -ONE <= (#[trigger] out@[j]).x < ONE,
        decreases n - i,
    {
        let ghost num = 2 * ONE * i;
        proof {
            assert(0 <= num < 2 * ONE * n) by (nonlinear_arith)
                requires num == 2 * ONE * i, 0 <= i < n;
            assert(num <= 2 * ONE * 0xffff_ffff_ffff_ffff) by (nonlinear_arith)
                requires num == 2 * ONE * i, i <= 0xffff_ffff_ffff_ffff;
            vstd::arithmetic::div_mod::lemma_div_pos_is_pos(num, n as int);
            assert((2 * ONE * n) / (n as int) == 2 * ONE) by {
                vstd::arithmetic::div_mod::lemma_div_by_multiple(2 * ONE, n as int);
            }
            vstd::arithmetic::div_mod::lemma_div_by_multiple_is_strongly_ordered(
                num, 2 * ONE * n, 2 * ONE, n as int);
        }
        let q: i128 = (2 * (ONE as i128) * (i as i128)) / (n as i128);
        let x: i64 = -ONE + (q as i64);
        out.push(LaserPoint { x, y: values[i] });
        i = i + 1;
    }
    out
}

/// The three sinks.
#[derive(Clone, Copy, PartialEq, Eq, Structural, Debug)]
pub enum SinkKind {
    Audio,
    Laser,
    Lighting,
}

/// The state of each sink.
#[derive(Clone, Copy, PartialEq, Eq, Structural, Debug)]
pub struct Sinks {
    pub audio: SinkState,
    pub laser: SinkState,
    pub lighting: SinkState,
}

/// What to do to each sink's connection this tick.
#[derive(Clone, Copy, PartialEq, Eq, Structural, Debug)]
pub struct SinkActions {
    pub audio: SinkAction,
    pub laser: SinkAction,
    pub lighting: SinkAction,
}

/// The tick event of a sink: its switch, and whether its resource is there.
pub open spec fn tick_event(enabled: bool, available: bool) -> SinkEvent {
    SinkEvent::Tick { enabled, available }
}

impl Sinks {
    /// All three sinks switched off.
    pub fn new() -> (r: Sinks)
        ensures
            r == (Sinks {
                audio: SinkState::Disabled,
                laser: SinkState::Disabled,
                lighting: SinkState::Disabled,
            }),
    {
        Sinks { audio: SinkState::Disabled, laser: SinkState::Disabled, lighting: SinkState::Disabled }
    }

    /// Moves each sink on by one tick, after its switch in `params`. The audio host and
    /// the lighting endpoint are tried whenever asked for; the laser waits for a DAC.
    pub fn tick(&mut self, params: &SignalParams, laser_dac_detected: bool) -> (r: SinkActions)
        ensures
            final(self).audio == next_state(old(self).audio, tick_event(params@.audio_on, true)),
            r.audio == next_action(old(self).audio, tick_event(params@.audio_on, true)),
            final(self).laser == next_state(old(self).laser, tick_event(params@.laser_on, laser_dac_detected)),
            r.laser == next_action(old(self).laser, tick_event(params@.laser_on, laser_dac_detected)),
            final(self).lighting == next_state(old(self).lighting, tick_event(params@.dmx_on, true)),
            r.lighting == next_action(old(self).lighting, tick_event(params@.dmx_on, true)),
    {
        let (audio, audio_action) = self.audio.on_event(
            SinkEvent::Tick { enabled: params.audio_on(), available: true },
        );
        let (laser, laser_action) = self.laser.on_event(
            SinkEvent::Tick { enabled: params.laser_on(), available: laser_dac_detected },
        );
        let (lighting, lighting_action) = self.lighting.on_event(
            SinkEvent::Tick { enabled: params.dmx_on(), available: true },
        );
        self.audio = audio;
        self.laser = laser;
        self.lighting = lighting;
        SinkActions { audio: audio_action, laser: laser_action, lighting: lighting_action }
    }

    /// Records that opening `kind`'s connection failed; it will be tried again.
    pub fn open_failed(&mut self, kind: SinkKind)
        ensures
            final(self).audio == if kind == SinkKind::Audio {
                next_state(old(self).audio, SinkEvent::OpenFailed)
            } else {
                old(self).audio
            },
            final(self).laser == if kind == SinkKind::Laser {
                next_state(old(self).laser, SinkEvent::OpenFailed)
            } else {
                old(self).laser
            },
            final(self).lighting == if kind == SinkKind::Lighting {
                next_state(old(self).lighting, SinkEvent::OpenFailed)
            } else {
                old(self).lighting
            },
    {
        match kind {
            SinkKind::Audio => {
                self.audio = self.audio.on_event(SinkEvent::OpenFailed).0;
            },
            SinkKind::Laser => {
                self.laser = self.laser.on_event(SinkEvent::OpenFailed).0;
            },
            SinkKind::Lighting => {
                self.lighting = self.lighting.on_event(SinkEvent::OpenFailed).0;
            },
        }
    }
}


/// The waveform after a selection: a valid catalog index picks its entry; an invalid
/// one, or none, keeps the current waveform.
pub open spec fn chosen_signal(current: Signal, idx: Option<usize>) -> Signal {
    match idx {
        Some(i) => match catalog(i as int) {
            Some(k) => k,
            None => current,
        },
        None => current,
    }
}

/// What one tick hands out.
pub struct TickOutput {
    /// The transformed phases.
    pub phases: Vec<i64>,
    /// The universes for the lighting sink; empty unless it is live.
    pub dmx_frames: Vec<DmxFrame>,
    /// The audio sink's copy, when it is live.
    pub audio: Option<Vec<i64>>,
    /// The laser sink's frame, when it is live.
    pub laser: Option<Vec<LaserPoint>>,
}

/// One control tick: advances the engine, then applies the selected waveform for the
/// next tick, transforms the new phases, and prepares a copy for each live sink.
pub fn compute_tick(shm: &mut Shm, params: &SignalParams, sinks: &Sinks) -> (r: TickOutput)
    requires
        old(shm).wf(),
        params.wf(),
    ensures
        final(shm).wf(),
        final(shm)@ == (ShmView {
            signal: chosen_signal(old(shm)@.signal, params@.selected_idx),
            ..advanced(old(shm)@)
        }),
        r.phases@ == transformed(
            advanced(old(shm)@).phases,
            params@.pow,
            params@.invert,
            params@.min,
            params@.max,
        ),
        sinks.lighting == SinkState::Live && r.phases@.len() > 0 ==> is_split(
            fixture_bytes_spec(r.phases@, TOTAL_LED_PIXELS as int),
            LED_ADDRS_PER_UNIVERSE as int,
            r.dmx_frames@,
        ),
        !(sinks.lighting == SinkState::Live && r.phases@.len() > 0) ==> r.dmx_frames@.len() == 0,
        r.audio.is_some() == (sinks.audio == SinkState::Live),
        r.audio.is_some() ==> r.audio.unwrap()@ == r.phases@,
        r.laser.is_some() == (sinks.laser == SinkState::Live),
        r.laser.is_some() ==> r.laser.unwrap()@ == laser_points_spec(r.phases@),
{
    shm.update();
    match params.selected_idx() {
        Some(i) => match Signal::from_index(i) {
            Some(k) => shm.set_signal_type(k),
            None => {},
        },
        None => {},
    }
    let phases = transform(shm.phases(), params.pow(), params.invert(), params.min(), params.max());
    let dmx_frames = if sinks.lighting.is_live() && phases.len() > 0 {
        let bytes = fixture_bytes(phases.as_slice(), TOTAL_LED_PIXELS as usize);
        split_universes(bytes.as_slice(), LED_ADDRS_PER_UNIVERSE as usize)
    } else {
        Vec::new()
    };
    let audio = if sinks.audio.is_live() {
        Some(copy_values(phases.as_slice()))
    } else {
        None
    };
    let laser = if sinks.laser.is_live() {
        Some(laser_points(phases.as_slice()))
    } else {
        None
    };
    TickOutput { phases, dmx_frames, audio, laser }
}

/// A copy of a buffer, for a sink that runs on its own schedule.
fn copy_values(values: &[i64]) -> (r: Vec<i64>)
    ensures
        r@ == values@,
{
    let mut out: Vec<i64> = Vec::new();
    let mut i: usize = 0;
    while i < values.len()
        invariant
            i <= values@.len(),
            out@ =~= values@.subrange(0, i as int),
        decreases values@.len() - i,
    {
        out.push(values[i]);
        i = i + 1;
    }
    out
}

} // verus!
