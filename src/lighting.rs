//! The lighting sink: output values become DMX bytes, three per fixture, cut into
//! numbered universes.
use vstd::prelude::*;
use crate::fixed::ONE;

verus! {

pub const PIXELS_PER_LED_STRIP: u16 = 48;
pub const DMX_CHANNELS_PER_LED: u16 = 3;
pub const ADDRS_PER_STRIP: u16 = PIXELS_PER_LED_STRIP * DMX_CHANNELS_PER_LED;
pub const STRIPS_PER_UNIVERSE: u16 = 3;
/// The DMX addresses that one universe carries.
pub const LED_ADDRS_PER_UNIVERSE: u16 = ADDRS_PER_STRIP * STRIPS_PER_UNIVERSE;
pub const LED_PIXELS_PER_UNIVERSE: u16 = PIXELS_PER_LED_STRIP * STRIPS_PER_UNIVERSE;
pub const NUM_LED_STRIPS: u16 = 6;
/// The fixtures driven in all.
pub const TOTAL_LED_PIXELS: u16 = NUM_LED_STRIPS * PIXELS_PER_LED_STRIP;
/// The largest universe number that a frame can carry.
pub const MAX_UNIVERSE: u16 = 65535;

/// One outbound DMX frame: a universe number and its channel bytes.
#[derive(Debug, PartialEq, Eq)]
pub struct DmxFrame {
    pub universe: u16,
    pub data: Vec<u8>,
}

/// A value in units of `ONE` as a channel level: `round(v * 255)`, clamped to `[0, 255]`.
pub open spec fn level_byte_spec(v: int) -> int {
    if v <= 0 {
        0
    } else if v >= ONE {
        255
    } else {
        (v * 255 + (ONE as int) / 2) / (ONE as int)
    }
}

/// The value that fixture `i` of `fixtures` shows, out of `len` values spread evenly.
pub open spec fn fixture_source(len: int, fixtures: int, i: int) -> int {
    i * len / fixtures
}

/// The channel bytes for `fixtures` fixtures: each takes three equal bytes from its value.
pub open spec fn fixture_bytes_spec(values: Seq<i64>, fixtures: int) -> Seq<u8> {
    Seq::new(
        (3 * fixtures) as nat,
        |k: int| level_byte_spec(values[fixture_source(values.len() as int, fixtures, k / 3)] as int) as u8,
    )
}

/// The number of frames for `len` bytes at `cap` bytes per universe: `ceil(len / cap)`.
pub open spec fn frame_count(len: int, cap: int) -> int {
    (len + cap - 1) / cap
}

/// The bytes of frame `k`: the `k`-th run of `cap` bytes, or what is left of the buffer.
pub open spec fn frame_payload(bytes: Seq<u8>, cap: int, k: int) -> Seq<u8> {
    let end = if (k + 1) * cap < bytes.len() { (k + 1) * cap } else { bytes.len() as int };
    bytes.subrange(k * cap, end)
}

/// The payloads of the first `m` frames, one after another.
pub open spec fn joined_payloads(bytes: Seq<u8>, cap: int, m: int) -> Seq<u8>
    decreases m,
{
    if m <= 0 {
        Seq::empty()
    } else {
        joined_payloads(bytes, cap, m - 1) + frame_payload(bytes, cap, m - 1)
    }
}

/// `frames` is the split of `bytes` into universes of `cap` bytes, numbered from 1.
pub open spec fn is_split(bytes: Seq<u8>, cap: int, frames: Seq<DmxFrame>) -> bool {
    &&& frames.len() == frame_count(bytes.len() as int, cap)
    &&& forall|k: int| 0 <= k < frames.len() ==> {
        &&& (#[trigger] frames[k]).universe == k + 1
        &&& frames[k].data@ == frame_payload(bytes, cap, k)
    }
}

proof fn lemma_frame_count(len: int, cap: int, k: int)
    requires
        cap > 0,
        0 <= k,
        0 <= len,
        len <= k * cap,
        k == 0 || (k - 1) * cap < len,
    ensures
        frame_count(len, cap) == k,
{
    if k == 0 {
        assert(len == 0) by (nonlinear_arith)
            requires 0 <= len, len <= k * cap, k == 0;
        vstd::arithmetic::div_mod::lemma_fundamental_div_mod_converse(cap - 1, cap, 0, cap - 1);
    } else {
        assert(k * cap <= len + cap - 1 < k * cap + cap) by (nonlinear_arith)
            requires len <= k * cap, (k - 1) * cap < len, cap > 0;
        vstd::arithmetic::div_mod::lemma_fundamental_div_mod_converse(
            len + cap - 1, cap, k, len + cap - 1 - k * cap);
    }
}

/// Sending the frames in order delivers the buffer exactly: there are `ceil(len / cap)`
/// frames, and their payloads, joined in order, are the buffer itself.
pub proof fn lemma_frames_rebuild_buffer(bytes: Seq<u8>, cap: int)
    requires
        cap > 0,
    ensures
        frame_count(bytes.len() as int, cap) * cap >= bytes.len(),
        frame_count(bytes.len() as int, cap) * cap < bytes.len() + cap,
        joined_payloads(bytes, cap, frame_count(bytes.len() as int, cap)) == bytes,
{
    let len = bytes.len() as int;
    let fc = frame_count(len, cap);
    vstd::arithmetic::div_mod::lemma_fundamental_div_mod(len + cap - 1, cap);
    assert(0 <= fc) by {
        vstd::arithmetic::div_mod::lemma_div_pos_is_pos(len + cap - 1, cap);
    }
    assert(fc * cap == cap * fc) by (nonlinear_arith);
    assert((fc - 1) * cap == fc * cap - cap) by (nonlinear_arith);
    vstd::arithmetic::div_mod::lemma_mod_pos_bound(len + cap - 1, cap);
    lemma_joined_prefix(bytes, cap, fc);
    assert(bytes.subrange(0, len) =~= bytes);
}

/// The payloads of `frames`, one after another.
pub open spec fn frames_data(frames: Seq<DmxFrame>) -> Seq<u8>
    decreases frames.len(),
{
    if frames.len() == 0 {
        Seq::empty()
    } else {
        frames_data(frames.drop_last()) + frames.last().data@
    }
}

/// The frames of a split, sent in order, number `ceil(len / cap)` and carry exactly the
/// bytes that were split.
pub proof fn lemma_split_rejoins(bytes: Seq<u8>, cap: int, frames: Seq<DmxFrame>)
    requires
        cap > 0,
        is_split(bytes, cap, frames),
    ensures
        frames.len() * cap >= bytes.len(),
        frames.len() * cap < bytes.len() + cap,
        frames_data(frames) == bytes,
{
    lemma_frames_rebuild_buffer(bytes, cap);
    lemma_frames_data_prefix(bytes, cap, frames, frames.len() as int);
    assert(frames.take(frames.len() as int) =~= frames);
}

proof fn lemma_frames_data_prefix(bytes: Seq<u8>, cap: int, frames: Seq<DmxFrame>, m: int)
    requires
        is_split(bytes, cap, frames),
        0 <= m <= frames.len(),
    ensures
        frames_data(frames.take(m)) == joined_payloads(bytes, cap, m),
    decreases m,
{
    if m > 0 {
        lemma_frames_data_prefix(bytes, cap, frames, m - 1);
        assert(frames.take(m).drop_last() =~= frames.take(m - 1));
        assert(frames.take(m).last() == frames[m - 1]);
    }
}

proof fn lemma_joined_prefix(bytes: Seq<u8>, cap: int, m: int)
    requires
        cap > 0,
        0 <= m,
        (m - 1) * cap < bytes.len() || m == 0,
    ensures
        joined_payloads(bytes, cap, m) == bytes.subrange(
            0,
            if m * cap < bytes.len() { m * cap } else { bytes.len() as int },
        ),
    decreases m,
{
    if m == 0 {
        assert(bytes.subrange(0, 0) =~= Seq::<u8>::empty());
    } else {
        if m > 1 {
            assert((m - 2) * cap < (m - 1) * cap) by (nonlinear_arith)
                requires cap > 0;
        }
        lemma_joined_prefix(bytes, cap, m - 1);
        assert((m - 1) * cap + cap == m * cap) by (nonlinear_arith);
        assert(0 <= (m - 1) * cap) by (nonlinear_arith)
            requires m >= 1, cap > 0;
        let end = if m * cap < bytes.len() { m * cap } else { bytes.len() as int };
        assert(bytes.subrange(0, (m - 1) * cap) + bytes.subrange((m - 1) * cap, end)
            =~= bytes.subrange(0, end));
    }
}


/// The channel level of one output value.
pub fn level_byte(v: i64) -> (r: u8)
    ensures
        r as int == level_byte_spec(v as int),
{
    if v <= 0 {
        0
    } else if v >= ONE {
        255
    } else {
        proof {
            let o = ONE as int;
            assert(0 <= v * 255 + o / 2 < 256 * o) by (nonlinear_arith)
                requires 0 < v < o, o == 16777216;
            vstd::arithmetic::div_mod::lemma_div_pos_is_pos(v * 255 + o / 2, o);
            vstd::arithmetic::div_mod::lemma_div_by_multiple(256, o);
            vstd::arithmetic::div_mod::lemma_div_is_ordered(v * 255 + o / 2, 256 * o - 1, o);
            vstd::arithmetic::div_mod::lemma_fundamental_div_mod_converse(256 * o - 1, o, 255, o - 1);
        }
        ((v * 255 + ONE / 2) / ONE) as u8
    }
}

/// The channel bytes for `fixtures` fixtures, three equal bytes each, taking the values
/// spread evenly over the fixtures.
pub fn fixture_bytes(values: &[i64], fixtures: usize) -> (r: Vec<u8>)
    requires
        values@.len() > 0,
        3 * fixtures <= usize::MAX,
    ensures
        r@ == fixture_bytes_spec(values@, fixtures as int),
{
    let len = values.len();
    let mut out: Vec<u8> = Vec::new();
    let mut i: usize = 0;
    while i < fixtures
        invariant
            i <= fixtures,
            len == values@.len(),
            len > 0,
            3 * fixtures <= usize::MAX,
            out@ =~= fixture_bytes_spec(values@, fixtures as int).subrange(0, 3 * i),
        decreases fixtures - i,
    {
        proof {
            let il = i as int * len as int;
            assert(0 <= il < fixtures as int * len as int) by (nonlinear_arith)
                requires i < fixtures, len > 0, il == i as int * len as int;
            assert(il <= 0xffff_ffff_ffff_ffff * 0xffff_ffff_ffff_ffff) by (nonlinear_arith)
                requires il == i as int * len as int, i <= 0xffff_ffff_ffff_ffff, len <= 0xffff_ffff_ffff_ffff;
            vstd::arithmetic::div_mod::lemma_div_pos_is_pos(il, fixtures as int);
            assert(il / (fixtures as int) < len) by {
                assert(fixtures as int * len as int == len as int * fixtures as int) by (nonlinear_arith);
                vstd::arithmetic::div_mod::lemma_div_by_multiple_is_strongly_ordered(
                    il, len as int * fixtures as int, len as int, fixtures as int);
                vstd::arithmetic::div_mod::lemma_div_by_multiple(len as int, fixtures as int);
            }
        }
        let source: usize = ((i as u128) * (len as u128) / (fixtures as u128)) as usize;
        let b = level_byte(values[source]);
        out.push(b);
        out.push(b);
        out.push(b);
        proof {
            let full = fixture_bytes_spec(values@, fixtures as int);
            assert((3 * i) / 3 == i && (3 * i + 1) / 3 == i && (3 * i + 2) / 3 == i);
            assert(full[3 * i] == b && full[3 * i + 1] == b && full[3 * i + 2] == b);
        }
        i = i + 1;
    }
    out
}

/// Cuts `bytes` into universes of `cap` bytes, numbered from 1; the last one carries
/// what is left and no frame is empty.
pub fn split_universes(bytes: &[u8], cap: usize) -> (r: Vec<DmxFrame>)
    requires
        cap > 0,
        bytes@.len() <= cap * MAX_UNIVERSE,
    ensures
        is_split(bytes@, cap as int, r@),
        forall|k: int| 0 <= k < r@.len() ==> 0 < (#[trigger] r@[k]).data@.len() <= cap,
{
    let len = bytes.len();
    let mut frames: Vec<DmxFrame> = Vec::new();
    let mut start: usize = 0;
    let mut k: usize = 0;
    while start < len
        invariant
            cap > 0,
            len == bytes@.len(),
            len <= cap * MAX_UNIVERSE,
            start <= k * cap,
            start < len ==> start == k * cap,
            start <= len,
            k == 0 || (k - 1) * cap < len,
            frames@.len() == k,
            forall|j: int| 0 <= j < k ==> {
                &&& (#[trigger] frames@[j]).universe == j + 1
                &&& frames@[j].data@ == frame_payload(bytes@, cap as int, j)
                &&& 0 < frames@[j].data@.len() <= cap
            },
        decreases len - start,
    {
        let end: usize = if len - start > cap { start + cap } else { len };
        let mut data: Vec<u8> = Vec::new();
        let mut p: usize = start;
        while p < end
            invariant
                start <= p <= end,
                end <= len,
                len == bytes@.len(),
                data@ =~= bytes@.subrange(start as int, p as int),
            decreases end - p,
        {
            data.push(bytes[p]);
            p = p + 1;
        }
        proof {
            assert(k * cap < cap * MAX_UNIVERSE);
            assert(k < MAX_UNIVERSE) by (nonlinear_arith)
                requires k * cap < cap * 65535, cap > 0;
            assert((k + 1) * cap == k * cap + cap) by (nonlinear_arith);
        }
        frames.push(DmxFrame { universe: (k + 1) as u16, data });
        start = end;
        k = k + 1;
    }
    proof {
        assert(start == len);
        lemma_frame_count(len as int, cap as int, k as int);
    }
    frames
}

} // verus!
