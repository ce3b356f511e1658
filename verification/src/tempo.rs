use vstd::prelude::*;

use vstd::arithmetic::div_mod::{
    lemma_div_is_ordered, lemma_div_is_ordered_by_denominator, lemma_div_pos_is_pos,
};
use vstd::arithmetic::mul::{lemma_mul_inequality, lemma_mul_nonnegative};

verus! {

/// Tempo used before the first tempo change: 500000 microseconds per
/// quarter note, that is 120 beats per minute.
pub const DEFAULT_TEMPO: u32 = 500_000;

/// Resolution used when the timeline header does not carry the standard
/// metrical kind.
pub const DEFAULT_TICKS_PER_QUARTER: u16 = 480;

/// Ticks are accumulated in 128 bits; every sum of per-event deltas stays
/// under this limit (each delta is below 2^28 and there are fewer than
/// 2^64 events).
pub const TICK_LIMIT: u128 = 0x1000_0000_0000_0000_0000_0000;

/// One tempo change: from absolute tick `tick` onward a quarter note lasts
/// `us_per_quarter` microseconds.
#[derive(Clone, Copy, Debug, PartialEq, Eq, Structural)]
pub struct TempoChange {
    pub tick: u128,
    pub us_per_quarter: u32,
}

/// Tempo changes sorted ascending by tick.
pub open spec fn tempo_sorted(tm: Seq<TempoChange>) -> bool {
    forall|i: int, j: int| 0 <= i <= j < tm.len() ==> tm[i].tick <= tm[j].tick
}

/// Tempo values fit in 24 bits, as the timeline format stores them.
pub open spec fn tempo_bounded(tm: Seq<TempoChange>) -> bool {
    forall|i: int| 0 <= i < tm.len() ==> tm[i].us_per_quarter < 0x100_0000
}

/// No change in the map lies before tick `b`.
pub open spec fn tempo_from(tm: Seq<TempoChange>, b: int) -> bool {
    forall|i: int| 0 <= i < tm.len() ==> tm[i].tick >= b
}

/// Microseconds spent in `dt` ticks at `tempo` microseconds per quarter
/// note, with `tpq` ticks per quarter note.
pub open spec fn segment_us(tpq: int, tempo: int, dt: int) -> int {
    dt * tempo / tpq
}

/// Microseconds from tick `last` to tick `target`: tempo `cur` rules until
/// the first remaining change, and each change before `target` switches
/// the tempo at its own tick.
pub open spec fn us_from(tm: Seq<TempoChange>, tpq: int, last: int, cur: int, target: int) -> int
    decreases tm.len(),
{
    if tm.len() == 0 || tm[0].tick >= target {
        segment_us(tpq, cur, target - last)
    } else {
        segment_us(tpq, cur, tm[0].tick - last) + us_from(
            tm.skip(1),
            tpq,
            tm[0].tick as int,
            tm[0].us_per_quarter as int,
            target,
        )
    }
}

/// Microseconds from tick 0 to `target` under the map `tm`, starting with
/// the implicit default tempo.
pub open spec fn ticks_to_us(tm: Seq<TempoChange>, tpq: int, target: int) -> int {
    us_from(tm, tpq, 0, DEFAULT_TEMPO as int, target)
}

/// A non-negative quantity forced into the range of `u64`.
pub open spec fn cap_u64(x: int) -> int {
    if x > u64::MAX {
        u64::MAX as int
    } else {
        x
    }
}

/// The millisecond timestamp of tick `target`: the exact microsecond total
/// divided by 1000, saturated at the largest representable value.
pub open spec fn ticks_to_ms_spec(tm: Seq<TempoChange>, tpq: int, target: int) -> int {
    cap_u64(ticks_to_us(tm, tpq, target) / 1000)
}

proof fn lemma_segment_us_nonneg(tpq: int, tempo: int, dt: int)
    requires
        tpq >= 1,
        tempo >= 0,
        dt >= 0,
    ensures
        segment_us(tpq, tempo, dt) >= 0,
{
    lemma_mul_nonnegative(dt, tempo);
    lemma_div_pos_is_pos(dt * tempo, tpq);
}

proof fn lemma_segment_us_monotonic(tpq: int, tempo: int, d1: int, d2: int)
    requires
        tpq >= 1,
        tempo >= 0,
        0 <= d1 <= d2,
    ensures
        segment_us(tpq, tempo, d1) <= segment_us(tpq, tempo, d2),
{
    lemma_mul_inequality(d1, d2, tempo);
    lemma_div_is_ordered(d1 * tempo, d2 * tempo, tpq);
}

proof fn lemma_us_from_nonneg(tm: Seq<TempoChange>, tpq: int, last: int, cur: int, target: int)
    requires
        tpq >= 1,
        cur >= 0,
        last <= target,
        tempo_sorted(tm),
        tempo_from(tm, last),
    ensures
        us_from(tm, tpq, last, cur, target) >= 0,
    decreases tm.len(),
{
    if tm.len() == 0 || tm[0].tick >= target {
        lemma_segment_us_nonneg(tpq, cur, target - last);
    } else {
        lemma_segment_us_nonneg(tpq, cur, tm[0].tick - last);
        assert(tempo_from(tm.skip(1), tm[0].tick as int));
        lemma_us_from_nonneg(
            tm.skip(1),
            tpq,
            tm[0].tick as int,
            tm[0].us_per_quarter as int,
            target,
        );
    }
}

proof fn lemma_us_from_monotonic(
    tm: Seq<TempoChange>,
    tpq: int,
    last: int,
    cur: int,
    t1: int,
    t2: int,
)
    requires
        tpq >= 1,
        cur >= 0,
        last <= t1 <= t2,
        tempo_sorted(tm),
        tempo_from(tm, last),
    ensures
        us_from(tm, tpq, last, cur, t1) <= us_from(tm, tpq, last, cur, t2),
    decreases tm.len(),
{
    if tm.len() == 0 || tm[0].tick >= t2 {
        lemma_segment_us_monotonic(tpq, cur, t1 - last, t2 - last);
    } else if tm[0].tick >= t1 {
        lemma_segment_us_monotonic(tpq, cur, t1 - last, tm[0].tick - last);
        assert(tempo_from(tm.skip(1), tm[0].tick as int));
        lemma_us_from_nonneg(
            tm.skip(1),
            tpq,
            tm[0].tick as int,
            tm[0].us_per_quarter as int,
            t2,
        );
    } else {
        assert(tempo_from(tm.skip(1), tm[0].tick as int));
        lemma_us_from_monotonic(
            tm.skip(1),
            tpq,
            tm[0].tick as int,
            tm[0].us_per_quarter as int,
            t1,
            t2,
        );
    }
}

/// Converting ticks to time is monotonic: under any sorted tempo map, a
/// later tick is never assigned an earlier microsecond or millisecond
/// total than an earlier tick.
pub proof fn lemma_ticks_to_ms_monotonic(tm: Seq<TempoChange>, tpq: int, t1: int, t2: int)
    requires
        tempo_sorted(tm),
        tpq >= 1,
        0 <= t1 <= t2,
    ensures
        ticks_to_us(tm, tpq, t1) <= ticks_to_us(tm, tpq, t2),
        ticks_to_ms_spec(tm, tpq, t1) <= ticks_to_ms_spec(tm, tpq, t2),
{
    lemma_us_from_monotonic(tm, tpq, 0, DEFAULT_TEMPO as int, t1, t2);
    lemma_div_is_ordered(ticks_to_us(tm, tpq, t1), ticks_to_us(tm, tpq, t2), 1000);
}

proof fn lemma_segment_us_bound(tpq: int, tempo: int, dt: int)
    requires
        tpq >= 1,
        0 <= tempo < 0x100_0000,
        dt >= 0,
    ensures
        0 <= segment_us(tpq, tempo, dt) <= dt * 0x100_0000,
{
    lemma_segment_us_nonneg(tpq, tempo, dt);
    lemma_mul_nonnegative(dt, tempo);
    lemma_div_is_ordered_by_denominator(dt * tempo, 1, tpq);
    lemma_mul_inequality(tempo, 0x100_0000, dt);
    assert(dt * tempo == tempo * dt) by (nonlinear_arith);
    assert(dt * 0x100_0000 == 0x100_0000 * dt) by (nonlinear_arith);
}

/// Millisecond timestamp of tick `target` under the sorted map
/// `tempo_map`, computed exactly as `ticks_to_ms_spec` states it.
pub fn ticks_to_ms(tempo_map: &Vec<TempoChange>, tpq: u16, target: u128) -> (r: u64)
    requires
        tempo_sorted(tempo_map@),
        tempo_bounded(tempo_map@),
        tpq >= 1,
        target <= TICK_LIMIT,
    ensures
        r == ticks_to_ms_spec(tempo_map@, tpq as int, target as int),
{
    let ghost tm = tempo_map@;
    let mut acc: u128 = 0;
    let mut last: u128 = 0;
    let mut cur: u32 = DEFAULT_TEMPO;
    let mut i: usize = 0;
    proof {
        assert(tm.skip(0) =~= tm);
    }
    while i < tempo_map.len() && tempo_map[i].tick < target
        invariant
            i <= tm.len(),
            tempo_sorted(tm),
            tempo_bounded(tm),
            tempo_map@ == tm,
            tpq >= 1,
            target <= TICK_LIMIT,
            last <= target,
            cur < 0x100_0000,
            tempo_from(tm.skip(i as int), last as int),
            acc <= last * 0x100_0000,
            ticks_to_us(tm, tpq as int, target as int) == acc + us_from(
                tm.skip(i as int),
                tpq as int,
                last as int,
                cur as int,
                target as int,
            ),
        decreases tm.len() - i,
    {
        let tc = tempo_map[i];
        let dt: u128 = tc.tick - last;
        proof {
            assert(tm.skip(i as int)[0] == tm[i as int]);
            lemma_segment_us_bound(tpq as int, cur as int, dt as int);
            lemma_mul_inequality(last as int, tc.tick as int, 0x100_0000);
            assert(tm.skip(i as int).skip(1) =~= tm.skip(i + 1));
            assert forall|j: int| 0 <= j < tm.skip(i + 1).len() implies (#[trigger] tm.skip(
                i + 1,
            )[j]).tick >= tc.tick by {
                assert(tm.skip(i + 1)[j] == tm[i + 1 + j]);
                assert(tm[i as int].tick <= tm[i + 1 + j].tick);
            }
            assert((dt as int) * (cur as int) <= TICK_LIMIT * 0x100_0000) by (nonlinear_arith)
                requires
                    0 <= dt <= TICK_LIMIT,
                    0 <= cur < 0x100_0000,
            ;
            assert((last as int) * 0x100_0000 + (dt as int) * 0x100_0000 == (tc.tick as int)
                * 0x100_0000) by (nonlinear_arith)
                requires
                    dt == tc.tick - last,
            ;
            lemma_mul_inequality(tc.tick as int, TICK_LIMIT as int, 0x100_0000);
        }
        let seg: u128 = dt * (cur as u128) / (tpq as u128);
        acc = acc + seg;
        last = tc.tick;
        cur = tc.us_per_quarter;
        i = i + 1;
    }
    let dt: u128 = target - last;
    proof {
        if i < tm.len() {
            assert(tm.skip(i as int)[0] == tm[i as int]);
        }
        lemma_segment_us_bound(tpq as int, cur as int, dt as int);
        lemma_mul_inequality(last as int, target as int, 0x100_0000);
        lemma_mul_inequality(target as int, TICK_LIMIT as int, 0x100_0000);
        assert((dt as int) * (cur as int) <= TICK_LIMIT * 0x100_0000) by (nonlinear_arith)
            requires
                0 <= dt <= TICK_LIMIT,
                0 <= cur < 0x100_0000,
        ;
        assert((last as int) * 0x100_0000 + (dt as int) * 0x100_0000 == (target as int)
            * 0x100_0000) by (nonlinear_arith)
            requires
                dt == target - last,
        ;
    }
    let seg: u128 = dt * (cur as u128) / (tpq as u128);
    let total: u128 = acc + seg;
    let ms: u128 = total / 1000;
    if ms > 0xFFFF_FFFF_FFFF_FFFF {
        0xFFFF_FFFF_FFFF_FFFF
    } else {
        ms as u64
    }
}

} // verus!
