//! The transform stage: rescales raw phases into `[0, ONE]`, bends them by a power
//! curve and maps them onto the output range.
use vstd::prelude::*;
use crate::fixed::{ONE, qpow, qpow_spec, lemma_qpow_unit};

verus! {

/// The largest magnitude of an output bound; it keeps every product within 64 bits.
pub const LEVEL_LIMIT: i64 = 68719476736;

/// A raw value in `[-ONE, ONE]` moved onto `[0, ONE]`.
pub open spec fn rescale(x: int) -> int {
    (x + ONE) / 2
}

/// The point at fraction `t` (in units of `ONE`) of the way from `from` to `to`,
/// rounded towards `from`.
pub open spec fn lerp(from: int, to: int, t: int) -> int {
    if to >= from {
        from + (to - from) * t / (ONE as int)
    } else {
        from - (from - to) * t / (ONE as int)
    }
}

/// One raw value through the transform: rescale, raise to `power`, and map onto
/// `[out_min, out_max]`, or onto `[out_max, out_min]` when inverted.
pub open spec fn transform_value_spec(x: int, power: int, invert: bool, out_min: int, out_max: int) -> int {
    let t = qpow_spec(rescale(x), power);
    if invert {
        lerp(out_max, out_min, t)
    } else {
        lerp(out_min, out_max, t)
    }
}

/// A whole buffer through the transform.
pub open spec fn transformed(raw: Seq<i64>, power: int, invert: bool, out_min: int, out_max: int) -> Seq<i64> {
    Seq::new(raw.len(), |i: int| transform_value_spec(raw[i] as int, power, invert, out_min, out_max) as i64)
}

/// Every raw value lies in `[-ONE, ONE]`.
pub open spec fn raw_in_range(raw: Seq<i64>) -> bool {
    forall|i: int| 0 <= i < raw.len() ==> -ONE <= #[trigger] raw[i] <= ONE
}

/// The bounds of the output range are small enough to compute with.
pub open spec fn bounds_ok(out_min: int, out_max: int) -> bool {
    -LEVEL_LIMIT <= out_min <= LEVEL_LIMIT && -LEVEL_LIMIT <= out_max <= LEVEL_LIMIT
}

proof fn lemma_lerp_between(from: int, to: int, t: int)
    requires
        0 <= t <= ONE,
    ensures
        to >= from ==> from <= lerp(from, to, t) <= to,
        to < from ==> to <= lerp(from, to, t) <= from,
        t == 0 ==> lerp(from, to, t) == from,
        t == ONE ==> lerp(from, to, t) == to,
{
    let o = ONE as int;
    let dist = if to >= from { to - from } else { from - to };
    assert(0 <= dist * t <= dist * o) by (nonlinear_arith)
        requires 0 <= dist, 0 <= t <= o;
    vstd::arithmetic::div_mod::lemma_div_is_ordered(dist * t, dist * o, o);
    vstd::arithmetic::div_mod::lemma_div_by_multiple(dist, o);
    vstd::arithmetic::div_mod::lemma_div_pos_is_pos(dist * t, o);
}

/// The transform of one value.
pub fn transform_value(x: i64, power: i64, invert: bool, out_min: i64, out_max: i64) -> (r: i64)
    requires
        -ONE <= x <= ONE,
        power > 0,
        bounds_ok(out_min as int, out_max as int),
    ensures
        r as int == transform_value_spec(x as int, power as int, invert, out_min as int, out_max as int),
        out_min <= out_max ==> out_min <= r <= out_max,
        out_max < out_min ==> out_max <= r <= out_min,
{
    let scaled: i64 = (x + ONE) / 2;
    proof {
        lemma_qpow_unit(scaled as int, power as int);
    }
    let t = qpow(scaled, power);
    let (from, to) = if invert { (out_max, out_min) } else { (out_min, out_max) };
    proof {
        lemma_lerp_between(from as int, to as int, t as int);
        let dist: int = if to >= from { to - from } else { from - to };
        assert(0 <= dist * t <= 137438953472 * 16777216) by (nonlinear_arith)
            requires 0 <= dist <= 137438953472, 0 <= t <= 16777216;
    }
    if to >= from {
        from + (to - from) * t / ONE
    } else {
        from - (from - to) * t / ONE
    }
}

/// The transform of a whole buffer.
pub fn transform(raw: &[i64], power: i64, invert: bool, out_min: i64, out_max: i64) -> (r: Vec<i64>)
    requires
        raw_in_range(raw@),
        power > 0,
        bounds_ok(out_min as int, out_max as int),
    ensures
        r@ == transformed(raw@, power as int, invert, out_min as int, out_max as int),
        forall|i: int| 0 <= i < r@.len() ==> {
            &&& out_min <= out_max ==> out_min <= #[trigger] r@[i] <= out_max
            &&& out_max < out_min ==> out_max <= r@[i] <= out_min
        },
{
    let mut out: Vec<i64> = Vec::new();
    let mut i: usize = 0;
    while i < raw.len()
        invariant
            i <= raw@.len(),
            raw_in_range(raw@),
            power > 0,
            bounds_ok(out_min as int, out_max as int),
            out@ =~= transformed(raw@, power as int, invert, out_min as int, out_max as int).subrange(0, i as int),
            forall|j: int| 0 <= j < out@.len() ==> {
                &&& out_min <= out_max ==> out_min <= #[trigger] out@[j] <= out_max
                &&& out_max < out_min ==> out_max <= out@[j] <= out_min
            },
        decreases raw@.len() - i,
    {
        let v = transform_value(raw[i], power, invert, out_min, out_max);
        out.push(v);
        i = i + 1;
    }
    out
}

/// With power 1, no inversion and the range `[0, ONE]`, the transform is the plain
/// rescale of `[-ONE, ONE]` onto `[0, ONE]`.
pub proof fn lemma_identity_transform(raw: Seq<i64>)
    requires
        raw_in_range(raw),
    ensures
        transformed(raw, ONE as int, false, 0, ONE as int)
            == Seq::new(raw.len(), |i: int| rescale(raw[i] as int) as i64),
{
    assert forall|i: int| 0 <= i < raw.len() implies
        transformed(raw, ONE as int, false, 0, ONE as int)[i] == rescale(raw[i] as int) as i64 by {
        let s = rescale(raw[i] as int);
        lemma_qpow_unit(s, ONE as int);
        vstd::arithmetic::div_mod::lemma_div_by_multiple(s, ONE as int);
        assert((ONE - 0) * s == s * ONE);
    }
    assert(transformed(raw, ONE as int, false, 0, ONE as int)
        =~= Seq::new(raw.len(), |i: int| rescale(raw[i] as int) as i64));
}

/// Inverting is the same as swapping the bounds of the output range.
pub proof fn lemma_invert_swaps_bounds(raw: Seq<i64>, power: int, out_min: int, out_max: int)
    ensures
        transformed(raw, power, true, out_min, out_max) == transformed(raw, power, false, out_max, out_min),
{
    assert(transformed(raw, power, true, out_min, out_max) =~= transformed(raw, power, false, out_max, out_min));
}

} // verus!
