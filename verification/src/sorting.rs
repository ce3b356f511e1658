use vstd::multiset::Multiset;
use vstd::prelude::*;

use crate::score::{events_sorted, TimedEvent};
use crate::tempo::{tempo_sorted, TempoChange};

verus! {

/// Insert a tempo change behind every entry whose tick is not larger, so
/// entries already in the list stay in front of a newcomer with the same
/// tick.
pub open spec fn tempo_insert(s: Seq<TempoChange>, x: TempoChange) -> Seq<TempoChange>
    decreases s.len(),
{
    if s.len() == 0 {
        seq![x]
    } else if s.last().tick <= x.tick {
        s.push(x)
    } else {
        tempo_insert(s.drop_last(), x).push(s.last())
    }
}

/// Stable sort of tempo changes by tick: each entry, taken left to right,
/// is inserted behind its equals.
pub open spec fn tempo_sort_spec(s: Seq<TempoChange>) -> Seq<TempoChange>
    decreases s.len(),
{
    if s.len() == 0 {
        Seq::<TempoChange>::empty()
    } else {
        tempo_insert(tempo_sort_spec(s.drop_last()), s.last())
    }
}

proof fn lemma_tempo_insert_le(s: Seq<TempoChange>, x: TempoChange, b: u128)
    requires
        forall|i: int| 0 <= i < s.len() ==> (#[trigger] s[i]).tick <= b,
        x.tick <= b,
    ensures
        forall|i: int|
            0 <= i < tempo_insert(s, x).len() ==> (#[trigger] tempo_insert(s, x)[i]).tick <= b,
    decreases s.len(),
{
    if s.len() == 0 {
        assert forall|i: int| 0 <= i < tempo_insert(s, x).len() implies (#[trigger] tempo_insert(
            s,
            x,
        )[i]).tick <= b by {
            assert(tempo_insert(s, x)[i] == x);
        }
    } else if s.last().tick <= x.tick {
        assert forall|i: int| 0 <= i < tempo_insert(s, x).len() implies (#[trigger] tempo_insert(
            s,
            x,
        )[i]).tick <= b by {
            if i < s.len() {
                assert(tempo_insert(s, x)[i] == s[i]);
            } else {
                assert(tempo_insert(s, x)[i] == x);
            }
        }
    } else {
        lemma_tempo_insert_le(s.drop_last(), x, b);
        let inner = tempo_insert(s.drop_last(), x);
        assert forall|i: int| 0 <= i < tempo_insert(s, x).len() implies (#[trigger] tempo_insert(
            s,
            x,
        )[i]).tick <= b by {
            if i < inner.len() {
                assert(tempo_insert(s, x)[i] == inner[i]);
            } else {
                assert(tempo_insert(s, x)[i] == s.last());
                assert(s[s.len() - 1].tick <= b);
            }
        }
    }
}

proof fn lemma_tempo_insert_sorted(s: Seq<TempoChange>, x: TempoChange)
    requires
        tempo_sorted(s),
    ensures
        tempo_sorted(tempo_insert(s, x)),
        tempo_insert(s, x).len() == s.len() + 1,
    decreases s.len(),
{
    if s.len() != 0 && s.last().tick > x.tick {
        assert(tempo_sorted(s.drop_last()));
        lemma_tempo_insert_sorted(s.drop_last(), x);
        lemma_tempo_insert_le(s.drop_last(), x, s.last().tick);
    }
}

/// Sorting keeps the length and yields a tick-sorted list.
pub proof fn lemma_tempo_sort_sorted(s: Seq<TempoChange>)
    ensures
        tempo_sorted(tempo_sort_spec(s)),
        tempo_sort_spec(s).len() == s.len(),
    decreases s.len(),
{
    if s.len() != 0 {
        lemma_tempo_sort_sorted(s.drop_last());
        lemma_tempo_insert_sorted(tempo_sort_spec(s.drop_last()), s.last());
    }
}

proof fn lemma_tempo_insert_bounded(s: Seq<TempoChange>, x: TempoChange)
    requires
        crate::tempo::tempo_bounded(s),
        x.us_per_quarter < 0x100_0000,
    ensures
        crate::tempo::tempo_bounded(tempo_insert(s, x)),
    decreases s.len(),
{
    if s.len() == 0 {
        assert(tempo_insert(s, x)[0] == x);
    } else if s.last().tick <= x.tick {
        assert forall|i: int| 0 <= i < tempo_insert(s, x).len() implies (#[trigger] tempo_insert(
            s,
            x,
        )[i]).us_per_quarter < 0x100_0000 by {
            if i < s.len() {
                assert(tempo_insert(s, x)[i] == s[i]);
            } else {
                assert(tempo_insert(s, x)[i] == x);
            }
        }
    } else {
        assert(crate::tempo::tempo_bounded(s.drop_last()));
        lemma_tempo_insert_bounded(s.drop_last(), x);
        let inner = tempo_insert(s.drop_last(), x);
        assert forall|i: int| 0 <= i < tempo_insert(s, x).len() implies (#[trigger] tempo_insert(
            s,
            x,
        )[i]).us_per_quarter < 0x100_0000 by {
            if i < inner.len() {
                assert(tempo_insert(s, x)[i] == inner[i]);
            } else {
                assert(tempo_insert(s, x)[i] == s.last());
                assert(s[s.len() - 1].us_per_quarter < 0x100_0000);
            }
        }
    }
}

/// Sorting a tempo list whose values fit in 24 bits yields one whose
/// values fit in 24 bits.
pub proof fn lemma_tempo_sort_bounded(s: Seq<TempoChange>)
    requires
        crate::tempo::tempo_bounded(s),
    ensures
        crate::tempo::tempo_bounded(tempo_sort_spec(s)),
    decreases s.len(),
{
    if s.len() != 0 {
        assert(crate::tempo::tempo_bounded(s.drop_last()));
        assert(s[s.len() - 1].us_per_quarter < 0x100_0000);
        lemma_tempo_sort_bounded(s.drop_last());
        lemma_tempo_insert_bounded(tempo_sort_spec(s.drop_last()), s.last());
    }
}

proof fn lemma_tempo_insert_at(s: Seq<TempoChange>, x: TempoChange, pos: int)
    requires
        tempo_sorted(s),
        0 <= pos <= s.len(),
        pos > 0 ==> s[pos - 1].tick <= x.tick,
        forall|j: int| pos <= j < s.len() ==> (#[trigger] s[j]).tick > x.tick,
    ensures
        tempo_insert(s, x) == s.insert(pos, x),
    decreases s.len(),
{
    if s.len() == 0 {
        assert(tempo_insert(s, x) =~= s.insert(0, x));
    } else if s.last().tick <= x.tick {
        assert(pos == s.len());
        assert(tempo_insert(s, x) =~= s.insert(pos, x));
    } else {
        assert(pos < s.len());
        assert(tempo_sorted(s.drop_last()));
        lemma_tempo_insert_at(s.drop_last(), x, pos);
        assert(tempo_insert(s.drop_last(), x).push(s.last()) =~= s.insert(pos, x));
    }
}

proof fn lemma_tempo_sort_take_step(s: Seq<TempoChange>, i: int)
    requires
        0 <= i < s.len(),
    ensures
        tempo_sort_spec(s.take(i + 1)) == tempo_insert(tempo_sort_spec(s.take(i)), s[i]),
{
    assert(s.take(i + 1).drop_last() =~= s.take(i));
    assert(s.take(i + 1).last() == s[i]);
}

/// Sort tempo changes ascending by tick, stably.
pub fn sort_tempo_changes(input: Vec<TempoChange>) -> (r: Vec<TempoChange>)
    ensures
        r@ == tempo_sort_spec(input@),
        tempo_sorted(r@),
{
    let mut out: Vec<TempoChange> = Vec::new();
    let mut i: usize = 0;
    proof {
        assert(input@.take(0) =~= Seq::<TempoChange>::empty());
    }
    while i < input.len()
        invariant
            i <= input@.len(),
            out@ == tempo_sort_spec(input@.take(i as int)),
            tempo_sorted(out@),
        decreases input@.len() - i,
    {
        let x = input[i];
        let ghost prev = out@;
        let mut pos: usize = out.len();
        while pos > 0 && out[pos - 1].tick > x.tick
            invariant
                pos <= out@.len(),
                out@ == prev,
                forall|j: int| pos <= j < out@.len() ==> (#[trigger] out@[j]).tick > x.tick,
            decreases pos,
        {
            pos = pos - 1;
        }
        proof {
            lemma_tempo_insert_at(out@, x, pos as int);
            lemma_tempo_insert_sorted(out@, x);
            lemma_tempo_sort_take_step(input@, i as int);
        }
        out.insert(pos, x);
        i = i + 1;
    }
    proof {
        assert(input@.take(input@.len() as int) =~= input@);
    }
    out
}

/// Insert a timed event behind every event whose timestamp is not larger,
/// so events already on the timeline stay in front of a newcomer with the
/// same timestamp.
pub open spec fn event_insert(s: Seq<TimedEvent>, x: TimedEvent) -> Seq<TimedEvent>
    decreases s.len(),
{
    if s.len() == 0 {
        seq![x]
    } else if s.last().time_ms <= x.time_ms {
        s.push(x)
    } else {
        event_insert(s.drop_last(), x).push(s.last())
    }
}

/// Stable sort of timed events by timestamp: each event, taken left to
/// right, is inserted behind its equals, so simultaneous events keep the
/// order in which the tracks produced them.
pub open spec fn event_sort_spec(s: Seq<TimedEvent>) -> Seq<TimedEvent>
    decreases s.len(),
{
    if s.len() == 0 {
        Seq::<TimedEvent>::empty()
    } else {
        event_insert(event_sort_spec(s.drop_last()), s.last())
    }
}

proof fn lemma_event_insert_le(s: Seq<TimedEvent>, x: TimedEvent, b: u64)
    requires
        forall|i: int| 0 <= i < s.len() ==> (#[trigger] s[i]).time_ms <= b,
        x.time_ms <= b,
    ensures
        forall|i: int|
            0 <= i < event_insert(s, x).len() ==> (#[trigger] event_insert(s, x)[i]).time_ms <= b,
    decreases s.len(),
{
    if s.len() != 0 && s.last().time_ms > x.time_ms {
        lemma_event_insert_le(s.drop_last(), x, b);
    }
}

proof fn lemma_event_insert_sorted(s: Seq<TimedEvent>, x: TimedEvent)
    requires
        events_sorted(s),
    ensures
        events_sorted(event_insert(s, x)),
        event_insert(s, x).len() == s.len() + 1,
    decreases s.len(),
{
    if s.len() != 0 && s.last().time_ms > x.time_ms {
        assert(events_sorted(s.drop_last()));
        lemma_event_insert_sorted(s.drop_last(), x);
        lemma_event_insert_le(s.drop_last(), x, s.last().time_ms);
    }
}

/// Sorting keeps the length and yields a timestamp-sorted timeline.
pub proof fn lemma_event_sort_sorted(s: Seq<TimedEvent>)
    ensures
        events_sorted(event_sort_spec(s)),
        event_sort_spec(s).len() == s.len(),
    decreases s.len(),
{
    if s.len() != 0 {
        lemma_event_sort_sorted(s.drop_last());
        lemma_event_insert_sorted(event_sort_spec(s.drop_last()), s.last());
    }
}

proof fn lemma_event_insert_multiset(s: Seq<TimedEvent>, x: TimedEvent)
    ensures
        event_insert(s, x).to_multiset() == s.to_multiset().insert(x),
    decreases s.len(),
{
    broadcast use vstd::seq_lib::group_to_multiset_ensures;

    if s.len() == 0 {
        assert forall|a: TimedEvent|
            Seq::<TimedEvent>::empty().to_multiset().count(a) == Multiset::<
                TimedEvent,
            >::empty().count(a) by {
            assert(!Seq::<TimedEvent>::empty().contains(a));
        }
        assert(Seq::<TimedEvent>::empty().to_multiset() =~= Multiset::<TimedEvent>::empty());
        assert(event_insert(s, x) =~= Seq::<TimedEvent>::empty().push(x));
        assert(Seq::<TimedEvent>::empty().push(x).to_multiset() =~= Seq::<
            TimedEvent,
        >::empty().to_multiset().insert(x));
        assert(event_insert(s, x).to_multiset() =~= s.to_multiset().insert(x));
    } else if s.last().time_ms <= x.time_ms {
        assert(s.push(x).to_multiset() =~= s.to_multiset().insert(x));
    } else {
        lemma_event_insert_multiset(s.drop_last(), x);
        let inner = event_insert(s.drop_last(), x);
        assert(inner.push(s.last()).to_multiset() =~= inner.to_multiset().insert(s.last()));
        assert(s.drop_last().push(s.last()).to_multiset() =~= s.drop_last().to_multiset().insert(
            s.last(),
        ));
        assert(s =~= s.drop_last().push(s.last()));
        assert(event_insert(s, x).to_multiset() =~= s.to_multiset().insert(x));
    }
}

/// Sorting neither loses nor invents events: the sorted timeline is a
/// permutation of the list it was built from.
pub proof fn lemma_event_sort_multiset(s: Seq<TimedEvent>)
    ensures
        event_sort_spec(s).to_multiset() == s.to_multiset(),
    decreases s.len(),
{
    broadcast use vstd::seq_lib::group_to_multiset_ensures;

    if s.len() != 0 {
        lemma_event_sort_multiset(s.drop_last());
        lemma_event_insert_multiset(event_sort_spec(s.drop_last()), s.last());
        assert(s.drop_last().push(s.last()).to_multiset() =~= s.drop_last().to_multiset().insert(
            s.last(),
        ));
        assert(s =~= s.drop_last().push(s.last()));
    }
}

proof fn lemma_event_insert_at(s: Seq<TimedEvent>, x: TimedEvent, pos: int)
    requires
        events_sorted(s),
        0 <= pos <= s.len(),
        pos > 0 ==> s[pos - 1].time_ms <= x.time_ms,
        forall|j: int| pos <= j < s.len() ==> (#[trigger] s[j]).time_ms > x.time_ms,
    ensures
        event_insert(s, x) == s.insert(pos, x),
    decreases s.len(),
{
    if s.len() == 0 {
        assert(event_insert(s, x) =~= s.insert(0, x));
    } else if s.last().time_ms <= x.time_ms {
        assert(pos == s.len());
        assert(event_insert(s, x) =~= s.insert(pos, x));
    } else {
        assert(pos < s.len());
        assert(events_sorted(s.drop_last()));
        lemma_event_insert_at(s.drop_last(), x, pos);
        assert(event_insert(s.drop_last(), x).push(s.last()) =~= s.insert(pos, x));
    }
}

proof fn lemma_event_sort_take_step(s: Seq<TimedEvent>, i: int)
    requires
        0 <= i < s.len(),
    ensures
        event_sort_spec(s.take(i + 1)) == event_insert(event_sort_spec(s.take(i)), s[i]),
{
    assert(s.take(i + 1).drop_last() =~= s.take(i));
    assert(s.take(i + 1).last() == s[i]);
}

/// Sort timed events ascending by timestamp, stably.
pub fn sort_timed_events(input: Vec<TimedEvent>) -> (r: Vec<TimedEvent>)
    ensures
        r@ == event_sort_spec(input@),
        events_sorted(r@),
{
    let mut out: Vec<TimedEvent> = Vec::new();
    let mut i: usize = 0;
    proof {
        assert(input@.take(0) =~= Seq::<TimedEvent>::empty());
    }
    while i < input.len()
        invariant
            i <= input@.len(),
            out@ == event_sort_spec(input@.take(i as int)),
            events_sorted(out@),
        decreases input@.len() - i,
    {
        let x = input[i];
        let ghost prev = out@;
        let mut pos: usize = out.len();
        while pos > 0 && out[pos - 1].time_ms > x.time_ms
            invariant
                pos <= out@.len(),
                out@ == prev,
                forall|j: int| pos <= j < out@.len() ==> (#[trigger] out@[j]).time_ms > x.time_ms,
            decreases pos,
        {
            pos = pos - 1;
        }
        proof {
            lemma_event_insert_at(out@, x, pos as int);
            lemma_event_insert_sorted(out@, x);
            lemma_event_sort_take_step(input@, i as int);
        }
        out.insert(pos, x);
        i = i + 1;
    }
    proof {
        assert(input@.take(input@.len() as int) =~= input@);
    }
    out
}

} // verus!
