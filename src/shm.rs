//! The simple-harmonic-motion phase engine: an array of oscillator phases that
//! advances once per tick.
use vstd::prelude::*;
use crate::fixed::{ONE, fract, fract_spec, div_floor, qpow, qpow_spec, lemma_qpow_unit};
use crate::signal::{Signal, amplitude};

verus! {

/// `start_angle` moves by `hz / TICK_DIVISOR` each tick (a speed of `ONE` is 0.05 turns).
pub const TICK_DIVISOR: i64 = 20;

/// `angle_offset` moves by `offset_hz / OFFSET_DIVISOR` after each computed slot.
pub const OFFSET_DIVISOR: i64 = 20000;

/// The abstract state of a phase engine. Angles are in units of `ONE` per turn.
pub ghost struct ShmView {
    pub signal: Signal,
    pub phases: Seq<i64>,
    pub start_angle: int,
    pub angle_offset: int,
    pub a_velocity: int,
    pub hz: int,
    pub offset_hz: int,
    pub skew: int,
    pub mirror: bool,
}

/// `0 + 1 + ... + (i - 1)`.
pub open spec fn tri(i: int) -> int
    decreases i,
{
    if i <= 0 {
        0
    } else {
        tri(i - 1) + (i - 1)
    }
}

/// The start angle after one tick.
pub open spec fn tick_start(v: ShmView) -> int {
    fract_spec(v.start_angle + v.hz / (TICK_DIVISOR as int))
}

/// How far `angle_offset` moves after each computed slot.
pub open spec fn offset_step(v: ShmView) -> int {
    v.offset_hz / (OFFSET_DIVISOR as int)
}

/// The number of slots that a tick computes; the rest are mirrored.
pub open spec fn computed_slots(n: int, mirror: bool) -> int {
    if mirror {
        n / 2 + n % 2
    } else {
        n
    }
}

/// The angle of slot `i` in the tick that starts from `v`: each slot lies
/// `a_velocity + angle_offset` past the previous one, and `angle_offset` itself
/// drifts by `offset_step` after each slot.
pub open spec fn slot_angle(v: ShmView, i: int) -> int {
    fract_spec(tick_start(v) + i * (v.a_velocity + v.angle_offset) + offset_step(v) * tri(i))
}

/// The value of slot `i` in the tick that starts from `v`.
pub open spec fn slot_value(v: ShmView, i: int) -> int {
    amplitude(v.signal, qpow_spec(slot_angle(v, i), v.skew))
}

/// The slot whose value lands at index `i` of a buffer of length `n`.
pub open spec fn source_slot(n: int, mirror: bool, i: int) -> int {
    if i < computed_slots(n, mirror) {
        i
    } else {
        n - 1 - i
    }
}

/// The phase buffer after the tick that starts from `v`.
pub open spec fn advanced_phases(v: ShmView) -> Seq<i64> {
    Seq::new(
        v.phases.len(),
        |i: int| slot_value(v, source_slot(v.phases.len() as int, v.mirror, i)) as i64,
    )
}

/// The state after the tick that starts from `v`.
pub open spec fn advanced(v: ShmView) -> ShmView {
    ShmView {
        phases: advanced_phases(v),
        start_angle: tick_start(v),
        angle_offset: fract_spec(
            v.angle_offset + computed_slots(v.phases.len() as int, v.mirror) * offset_step(v),
        ),
        ..v
    }
}

/// An array of oscillator phases driven by one waveform.
pub struct Shm {
    signal_type: Signal,
    phases: Vec<i64>,
    start_angle: i64,
    a_velocity: i64,
    angle_offset: i64,
    hz: i64,
    offset_hz: i64,
    skew: i64,
    mirror: bool,
}

impl View for Shm {
    type V = ShmView;

    closed spec fn view(&self) -> ShmView {
        ShmView {
            signal: self.signal_type,
            phases: self.phases@,
            start_angle: self.start_angle as int,
            angle_offset: self.angle_offset as int,
            a_velocity: self.a_velocity as int,
            hz: self.hz as int,
            offset_hz: self.offset_hz as int,
            skew: self.skew as int,
            mirror: self.mirror,
        }
    }
}

/// The engine's invariant: both angles are reduced into one turn and the skew is positive.
pub open spec fn shm_wf(v: ShmView) -> bool {
    &&& 0 <= v.start_angle < ONE
    &&& 0 <= v.angle_offset < ONE
    &&& v.skew > 0
    &&& forall|i: int| 0 <= i < v.phases.len() ==> -ONE <= #[trigger] v.phases[i] <= ONE
}

proof fn lemma_fract_add3(a: int, b: int, c: int)
    ensures
        fract_spec(fract_spec(a) + fract_spec(b) + fract_spec(c)) == fract_spec(a + b + c),
{
    let o = ONE as int;
    vstd::arithmetic::div_mod::lemma_add_mod_noop(a, b, o);
    vstd::arithmetic::div_mod::lemma_add_mod_noop(a + b, c, o);
    vstd::arithmetic::div_mod::lemma_add_mod_noop(a % o + b % o, c, o);
    vstd::arithmetic::div_mod::lemma_mod_twice(a % o + b % o, o);
    vstd::arithmetic::div_mod::lemma_add_mod_noop((a % o + b % o) % o, c, o);
}

proof fn lemma_fract_add2(a: int, b: int)
    ensures
        fract_spec(fract_spec(a) + b) == fract_spec(a + b),
{
    vstd::arithmetic::div_mod::lemma_add_mod_noop(a, b, ONE as int);
    vstd::arithmetic::div_mod::lemma_add_mod_noop(a % (ONE as int), b, ONE as int);
    vstd::arithmetic::div_mod::lemma_mod_twice(a, ONE as int);
}

proof fn lemma_slot_angle_step(v: ShmView, i: int)
    requires
        0 <= i,
    ensures
        slot_angle(v, i + 1) == fract_spec(
            slot_angle(v, i) + fract_spec(v.a_velocity) + fract_spec(v.angle_offset + i * offset_step(v)),
        ),
{
    let t = tick_start(v);
    let av = v.a_velocity;
    let o = v.angle_offset;
    let d = offset_step(v);
    let x = t + i * (av + o) + d * tri(i);
    assert(tri(i + 1) == tri(i) + i);
    assert(t + (i + 1) * (av + o) + d * tri(i + 1) == x + av + (o + i * d)) by (nonlinear_arith)
        requires tri(i + 1) == tri(i) + i, x == t + i * (av + o) + d * tri(i);
    lemma_fract_add3(x, av, o + i * d);
    vstd::arithmetic::div_mod::lemma_mod_twice(x, ONE as int);
}


/// A tick keeps the number of oscillators.
pub proof fn lemma_advance_keeps_size(v: ShmView)
    ensures
        advanced(v).phases.len() == v.phases.len(),
{
}

/// For any positive skew, the skewed fractional part of an angle of either sign lies
/// in `[0, ONE)`.
pub proof fn lemma_shaped_phase_in_unit(angle: int, skew: int)
    requires
        skew > 0,
    ensures
        0 <= fract_spec(angle) < ONE,
        0 <= qpow_spec(fract_spec(angle), skew) < ONE,
{
    lemma_qpow_unit(fract_spec(angle), skew);
}

/// After a mirrored tick the buffer reads the same from both ends.
pub proof fn lemma_mirrored_advance_symmetric(v: ShmView, i: int)
    requires
        v.mirror,
        0 <= i < v.phases.len(),
    ensures
        advanced(v).phases[i] == advanced(v).phases[v.phases.len() - 1 - i],
{
}

impl Shm {
    /// The engine's invariant holds.
    pub open spec fn wf(&self) -> bool {
        shm_wf(self@)
    }

    /// A new engine of `size` oscillators, all at zero, driving a sine with skew 1
    /// and no mirroring.
    pub fn new(size: usize, hz: i64, a_velocity: i64, offset_hz: i64) -> (r: Shm)
        ensures
            r.wf(),
            r@.signal == Signal::Sine,
            r@.phases == Seq::new(size as nat, |i: int| 0i64),
            r@.start_angle == 0,
            r@.angle_offset == 0,
            r@.hz == hz,
            r@.a_velocity == a_velocity,
            r@.offset_hz == offset_hz,
            r@.skew == ONE,
            !r@.mirror,
    {
        let mut phases: Vec<i64> = Vec::new();
        let mut i: usize = 0;
        while i < size
            invariant
                i <= size,
                phases@ == Seq::new(i as nat, |j: int| 0i64),
            decreases size - i,
        {
            phases.push(0);
            i = i + 1;
            assert(phases@ =~= Seq::new(i as nat, |j: int| 0i64));
        }
        Shm {
            signal_type: Signal::Sine,
            phases,
            start_angle: 0,
            a_velocity,
            angle_offset: 0,
            hz,
            offset_hz,
            skew: ONE,
            mirror: false,
        }
    }

    /// Selects the waveform that the engine evaluates.
    pub fn set_signal_type(&mut self, signal_type: Signal)
        ensures
            final(self)@ == (ShmView { signal: signal_type, ..old(self)@ }),
    {
        self.signal_type = signal_type;
    }

    /// Sets the number of oscillators: truncates, or extends with zeros. The angles are
    /// kept, so the retained oscillators continue where they were.
    pub fn set_size(&mut self, size: usize)
        ensures
            final(self)@ == (ShmView {
                phases: Seq::new(
                    size as nat,
                    |i: int| if i < old(self)@.phases.len() { old(self)@.phases[i] } else { 0i64 },
                ),
                ..old(self)@
            }),
    {
        let ghost before = self.phases@;
        let ghost v0 = self@;
        if size <= self.phases.len() {
            self.phases.truncate(size);
        } else {
            while self.phases.len() < size
                invariant
                    before.len() <= self.phases@.len() <= size,
                    before == v0.phases,
                    self@ == (ShmView { phases: self.phases@, ..v0 }),
                    forall|i: int| 0 <= i < self.phases@.len() ==> self.phases@[i]
                        == if i < before.len() { before[i] } else { 0i64 },
                decreases size - self.phases@.len(),
            {
                self.phases.push(0);
            }
        }
        proof {
            assert(self.phases@ =~= Seq::new(
                size as nat,
                |i: int| if i < before.len() { before[i] } else { 0i64 },
            ));
        }
    }

    /// Sets the skew exponent. A skew that is not positive is refused: the state is
    /// left as it was and `false` comes back.
    pub fn set_skew(&mut self, skew: i64) -> (accepted: bool)
        ensures
            accepted == (skew > 0),
            accepted ==> final(self)@ == (ShmView { skew: skew as int, ..old(self)@ }),
            !accepted ==> final(self)@ == old(self)@,
    {
        if skew > 0 {
            self.skew = skew;
            true
        } else {
            false
        }
    }

    /// The skew exponent.
    pub fn skew(&self) -> (r: i64)
        ensures
            r == self@.skew,
    {
        self.skew
    }

    /// Sets the master speed.
    pub fn set_hz(&mut self, hz: i64)
        ensures
            final(self)@ == (ShmView { hz: hz as int, ..old(self)@ }),
    {
        self.hz = hz;
    }

    /// Sets the phase step between neighbouring oscillators.
    pub fn set_a_velocity(&mut self, a_velocity: i64)
        ensures
            final(self)@ == (ShmView { a_velocity: a_velocity as int, ..old(self)@ }),
    {
        self.a_velocity = a_velocity;
    }

    /// Sets the rate at which the oscillators drift in and out of phase.
    pub fn set_offset_hz(&mut self, offset_hz: i64)
        ensures
            final(self)@ == (ShmView { offset_hz: offset_hz as int, ..old(self)@ }),
    {
        self.offset_hz = offset_hz;
    }

    /// Switches mirroring on or off.
    pub fn set_mirror(&mut self, mirror: bool)
        ensures
            final(self)@ == (ShmView { mirror, ..old(self)@ }),
    {
        self.mirror = mirror;
    }

    /// The master speed.
    pub fn hz(&self) -> (r: i64)
        ensures
            r == self@.hz,
    {
        self.hz
    }

    /// The phase step between neighbouring oscillators.
    pub fn a_velocity(&self) -> (r: i64)
        ensures
            r == self@.a_velocity,
    {
        self.a_velocity
    }

    /// The drift rate of the phase step.
    pub fn offset_hz(&self) -> (r: i64)
        ensures
            r == self@.offset_hz,
    {
        self.offset_hz
    }

    /// Whether mirroring is on.
    pub fn mirror(&self) -> (r: bool)
        ensures
            r == self@.mirror,
    {
        self.mirror
    }

    /// The waveform in use.
    pub fn signal_type(&self) -> (r: Signal)
        ensures
            r == self@.signal,
    {
        self.signal_type
    }

    /// The number of oscillators.
    pub fn size(&self) -> (r: usize)
        ensures
            r == self@.phases.len(),
    {
        self.phases.len()
    }

    /// The current phase values.
    pub fn phases(&self) -> (r: &[i64])
        ensures
            r@ == self@.phases,
    {
        self.phases.as_slice()
    }

    /// Advances the engine by one tick and recomputes every phase. With `mirror` on,
    /// only the first half (rounded up) is computed and the rest mirrors it, so the
    /// buffer reads the same from both ends.
    pub fn update(&mut self)
        requires
            old(self).wf(),
        ensures
            final(self).wf(),
            final(self)@ == advanced(old(self)@),
    {
        let ghost v0 = self@;
        self.start_angle = fract(self.start_angle + div_floor(self.hz, TICK_DIVISOR));
        let d = div_floor(self.offset_hz, OFFSET_DIVISOR);
        let av = fract(self.a_velocity);
        let n = self.phases.len();
        let c: usize = if self.mirror { n / 2 + n % 2 } else { n };
        let mut angle: i64 = self.start_angle;
        let mut i: usize = 0;
        proof {
            vstd::arithmetic::div_mod::lemma_mod_twice(v0.start_angle + v0.hz / 20, ONE as int);
            vstd::arithmetic::div_mod::lemma_small_mod(v0.angle_offset as nat, ONE as nat);
        }
        while i < c
            invariant
                c == computed_slots(n as int, v0.mirror),
                c <= n,
                self.phases@.len() == n,
                n == v0.phases.len(),
                self.signal_type == v0.signal,
                self.skew == v0.skew,
                self.skew > 0,
                self.start_angle == tick_start(v0),
                self.hz == v0.hz,
                self.a_velocity == v0.a_velocity,
                self.offset_hz == v0.offset_hz,
                self.mirror == v0.mirror,
                d == offset_step(v0),
                av == fract_spec(v0.a_velocity),
                0 <= av < ONE,
                0 <= i <= c,
                angle as int == slot_angle(v0, i as int),
                self.angle_offset as int == fract_spec(v0.angle_offset + i * d),
                forall|j: int| 0 <= j < i ==> self.phases@[j] as int == slot_value(v0, j),
                forall|j: int| 0 <= j < n ==> -ONE <= #[trigger] self.phases@[j] <= ONE,
            decreases c - i,
        {
            proof {
                lemma_qpow_unit(angle as int, self.skew as int);
            }
            let shaped = qpow(angle, self.skew);
            let value = self.signal_type.amp(shaped);
            self.phases.set(i, value);
            proof {
                lemma_slot_angle_step(v0, i as int);
                lemma_fract_add2(v0.angle_offset + i * d, d as int);
                assert(v0.angle_offset + i * d + d == v0.angle_offset + (i + 1) * d) by (nonlinear_arith);
            }
            angle = fract(angle + (av + self.angle_offset));
            self.angle_offset = fract(self.angle_offset + d);
            i = i + 1;
        }
        let mut j: usize = c;
        while j < n
            invariant
                c == computed_slots(n as int, v0.mirror),
                c <= j <= n,
                self.phases@.len() == n,
                self@ == (ShmView { phases: self.phases@, ..advanced(v0) }),
                n == v0.phases.len(),
                forall|k: int| 0 <= k < c ==> self.phases@[k] as int == slot_value(v0, k),
                forall|k: int| c <= k < j ==> self.phases@[k] as int == slot_value(v0, n - 1 - k),
                forall|k: int| 0 <= k < n ==> -ONE <= #[trigger] self.phases@[k] <= ONE,
            decreases n - j,
        {
            let value = self.phases[n - 1 - j];
            self.phases.set(j, value);
            j = j + 1;
        }
        proof {
            assert(self.phases@ =~= advanced_phases(v0));
        }
    }
}

} // verus!
