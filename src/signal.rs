//! The waveform catalog: maps a phase within one period to an amplitude.
use vstd::prelude::*;
use crate::fixed::{ONE, qmul, qmul_spec, lemma_qmul_unit};

verus! {

/// The waveform or easing curve that the phase engine evaluates.
#[derive(Clone, Copy, PartialEq, Eq, Structural, Debug)]
pub enum Signal {
    /// The phase itself: `p`.
    Ramp,
    /// A rising saw from -1 to 1.
    Saw,
    /// A triangle from -1 up to 1 and back.
    Triangle,
    /// 1 for the first half of the period, -1 for the second.
    Square,
    /// A parabolic sine: two half-period parabolas, peaking at 1 and -1.
    Sine,
    /// Quadratic ease-in: `p * p`.
    QuadIn,
    /// Quadratic ease-out: `1 - (1 - p) * (1 - p)`.
    QuadOut,
    /// Quadratic ease-in for the first half, ease-out for the second.
    QuadInOut,
}

/// The number of entries in the catalog.
pub const SIGNAL_COUNT: usize = 8;

/// Half a period.
pub open spec fn half() -> int {
    (ONE as int) / 2
}

/// The amplitude of `kind` at phase `p` (both in units of `ONE`).
pub open spec fn amplitude(kind: Signal, p: int) -> int {
    let o = ONE as int;
    match kind {
        Signal::Ramp => p,
        Signal::Saw => 2 * p - o,
        Signal::Triangle => if p < half() { 4 * p - o } else { 3 * o - 4 * p },
        Signal::Square => if p < half() { o } else { -o },
        Signal::Sine => if p < half() {
            16 * qmul_spec(p, half() - p)
        } else {
            -16 * qmul_spec(p - half(), o - p)
        },
        Signal::QuadIn => qmul_spec(p, p),
        Signal::QuadOut => o - qmul_spec(o - p, o - p),
        Signal::QuadInOut => if p < half() {
            2 * qmul_spec(p, p)
        } else {
            o - 2 * qmul_spec(o - p, o - p)
        },
    }
}

/// The name of each signal.
pub open spec fn signal_name(kind: Signal) -> Seq<char> {
    match kind {
        Signal::Ramp => "Ramp"@,
        Signal::Saw => "Saw"@,
        Signal::Triangle => "Triangle"@,
        Signal::Square => "Square"@,
        Signal::Sine => "Sine"@,
        Signal::QuadIn => "QuadIn"@,
        Signal::QuadOut => "QuadOut"@,
        Signal::QuadInOut => "QuadInOut"@,
    }
}

/// The catalog entry at `i`, in declaration order.
pub open spec fn catalog(i: int) -> Option<Signal> {
    if i == 0 {
        Some(Signal::Ramp)
    } else if i == 1 {
        Some(Signal::Saw)
    } else if i == 2 {
        Some(Signal::Triangle)
    } else if i == 3 {
        Some(Signal::Square)
    } else if i == 4 {
        Some(Signal::Sine)
    } else if i == 5 {
        Some(Signal::QuadIn)
    } else if i == 6 {
        Some(Signal::QuadOut)
    } else if i == 7 {
        Some(Signal::QuadInOut)
    } else {
        None
    }
}

proof fn lemma_parabola(p: int, q: int)
    requires
        0 <= p,
        0 <= q,
        p + q <= ONE / 2,
    ensures
        0 <= 16 * qmul_spec(p, q) <= ONE,
{
    let o = ONE as int;
    assert(0 <= p * q) by (nonlinear_arith)
        requires 0 <= p, 0 <= q;
    assert(16 * (p * q) <= (p + q) * (p + q) * 4) by (nonlinear_arith)
        requires 0 <= p, 0 <= q;
    assert((p + q) * (p + q) * 4 <= 8388608 * 8388608 * 4) by (nonlinear_arith)
        requires 0 <= p + q <= 8388608;
    assert(p * q <= o * (o / 16));
    vstd::arithmetic::div_mod::lemma_div_is_ordered(p * q, o * (o / 16), o);
    vstd::arithmetic::div_mod::lemma_div_by_multiple(o / 16, o);
    vstd::arithmetic::div_mod::lemma_div_pos_is_pos(p * q, o);
}

proof fn lemma_square_half(p: int)
    requires
        0 <= p <= ONE / 2,
    ensures
        0 <= 2 * qmul_spec(p, p) <= ONE,
{
    let o = ONE as int;
    assert(0 <= p * p <= 8388608 * 8388608) by (nonlinear_arith)
        requires 0 <= p <= 8388608;
    assert(p * p <= o * (o / 4));
    vstd::arithmetic::div_mod::lemma_div_is_ordered(p * p, o * (o / 4), o);
    vstd::arithmetic::div_mod::lemma_div_by_multiple(o / 4, o);
    vstd::arithmetic::div_mod::lemma_div_pos_is_pos(p * p, o);
}

impl Signal {
    /// The catalog entry at index `i`; `None` past the end of the catalog.
    pub fn from_index(i: usize) -> (r: Option<Signal>)
        ensures
            r == catalog(i as int),
            r.is_some() <==> i < SIGNAL_COUNT,
    {
        match i {
            0 => Some(Signal::Ramp),
            1 => Some(Signal::Saw),
            2 => Some(Signal::Triangle),
            3 => Some(Signal::Square),
            4 => Some(Signal::Sine),
            5 => Some(Signal::QuadIn),
            6 => Some(Signal::QuadOut),
            7 => Some(Signal::QuadInOut),
            _ => None,
        }
    }

    /// The name of this signal, as shown in a selection list.
    pub fn name(&self) -> (r: &'static str)
        ensures
            r@ == signal_name(*self),
    {
        match self {
            Signal::Ramp => "Ramp",
            Signal::Saw => "Saw",
            Signal::Triangle => "Triangle",
            Signal::Square => "Square",
            Signal::Sine => "Sine",
            Signal::QuadIn => "QuadIn",
            Signal::QuadOut => "QuadOut",
            Signal::QuadInOut => "QuadInOut",
        }
    }

    /// The amplitude of this signal at phase `p`, a value in `[0, ONE)`.
    pub fn amp(&self, p: i64) -> (r: i64)
        requires
            0 <= p < ONE,
        ensures
            r as int == amplitude(*self, p as int),
            -ONE <= r <= ONE,
            (*self == Signal::Ramp || *self == Signal::QuadIn || *self == Signal::QuadOut
                || *self == Signal::QuadInOut) ==> r >= 0,
    {
        let h: i64 = ONE / 2;
        match self {
            Signal::Ramp => p,
            Signal::Saw => 2 * p - ONE,
            Signal::Triangle => if p < h { 4 * p - ONE } else { 3 * ONE - 4 * p },
            Signal::Square => if p < h { ONE } else { -ONE },
            Signal::Sine => {
                if p < h {
                    proof {
                        lemma_parabola(p as int, h - p);
                        lemma_qmul_unit(p as int, h - p);
                    }
                    16 * qmul(p, h - p)
                } else {
                    proof {
                        lemma_parabola(p - h, ONE - p);
                        lemma_qmul_unit(p - h, ONE - p);
                    }
                    -16 * qmul(p - h, ONE - p)
                }
            },
            Signal::QuadIn => qmul(p, p),
            Signal::QuadOut => ONE - qmul(ONE - p, ONE - p),
            Signal::QuadInOut => {
                if p < h {
                    proof {
                        lemma_square_half(p as int);
                    }
                    2 * qmul(p, p)
                } else {
                    proof {
                        lemma_square_half(ONE - p);
                    }
                    ONE - 2 * qmul(ONE - p, ONE - p)
                }
            },
        }
    }
}

} // verus!
