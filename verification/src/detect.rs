use vstd::prelude::*;

use crate::mapper::{
    instrument_note, instrument_note_at, nearest_key, nearest_key_index, normalize_into_range,
    normalize_spec, pitch_dist, lemma_nearest_key_is_nearest, lemma_normalize_in_range, LOW_NOTE,
    HIGH_NOTE,
};
use crate::score::{EventType, TimedEvent};

verus! {

/// Distance from a folded pitch to the nearest instrument pitch.
pub open spec fn min_dist(t: int) -> int {
    pitch_dist(instrument_note(nearest_key_index(t)), t)
}

/// What one event adds to a candidate transpose's score: note-on events
/// contribute the distance of their shifted, folded pitch to the nearest
/// instrument pitch; note-off events contribute nothing.
pub open spec fn transpose_penalty(e: TimedEvent, s: int) -> int {
    if e.event_type is NoteOn {
        min_dist(normalize_spec(e.note + s))
    } else {
        0
    }
}

/// Total score of the candidate transpose `s` over an event list: the sum
/// of the per-event penalties.  Lower is better.
pub open spec fn transpose_score(events: Seq<TimedEvent>, s: int) -> int
    decreases events.len(),
{
    if events.len() == 0 {
        0
    } else {
        transpose_score(events.drop_last(), s) + transpose_penalty(events.last(), s)
    }
}

proof fn lemma_penalty_bounds(e: TimedEvent, s: int)
    ensures
        0 <= transpose_penalty(e, s) <= 35,
{
    if e.event_type is NoteOn {
        let t = normalize_spec(e.note + s);
        lemma_normalize_in_range(e.note + s);
        lemma_nearest_key_is_nearest(t);
        assert(pitch_dist(instrument_note(0), t) == t - 48);
    }
}

proof fn lemma_score_take_step(events: Seq<TimedEvent>, s: int, i: int)
    requires
        0 <= i < events.len(),
    ensures
        transpose_score(events.take(i + 1), s) == transpose_score(events.take(i), s)
            + transpose_penalty(events[i], s),
{
    assert(events.take(i + 1).drop_last() =~= events.take(i));
    assert(events.take(i + 1).last() == events[i]);
}

/// Score of candidate transpose `s` over the events, computed exactly.
fn score_of(events: &Vec<TimedEvent>, s: i32) -> (r: u128)
    requires
        -12 <= s <= 12,
    ensures
        r == transpose_score(events@, s as int),
        r <= 35 * events@.len(),
{
    let mut score: u128 = 0;
    let mut i: usize = 0;
    proof {
        assert(events@.take(0) =~= Seq::<TimedEvent>::empty());
    }
    while i < events.len()
        invariant
            i <= events@.len(),
            -12 <= s <= 12,
            score == transpose_score(events@.take(i as int), s as int),
            score <= 35 * (i as int),
        decreases events@.len() - i,
    {
        let e = events[i];
        proof {
            lemma_score_take_step(events@, s as int, i as int);
            lemma_penalty_bounds(events@[i as int], s as int);
        }
        if matches!(e.event_type, EventType::NoteOn) {
            let target: i32 = e.note as i32 + s;
            let folded = normalize_into_range(target);
            let idx = nearest_key(folded);
            let d = if instrument_note_at(idx) >= folded {
                instrument_note_at(idx) - folded
            } else {
                folded - instrument_note_at(idx)
            };
            score = score + d as u128;
        }
        i = i + 1;
    }
    proof {
        assert(events@.take(events@.len() as int) =~= events@);
    }
    score
}

/// The transpose in [-12, 12] whose score over the events is minimal; on
/// ties the smallest candidate wins, scanning upward from -12.
pub fn detect_best_transpose(events: &Vec<TimedEvent>) -> (r: i32)
    ensures
        -12 <= r <= 12,
        forall|s: int|
            -12 <= s <= 12 ==> transpose_score(events@, r as int) <= #[trigger] transpose_score(
                events@,
                s,
            ),
        forall|s: int|
            -12 <= s < r ==> transpose_score(events@, r as int) < #[trigger] transpose_score(
                events@,
                s,
            ),
{
    let mut best_transpose: i32 = -12;
    let mut best_score: u128 = score_of(events, -12);
    let mut s: i32 = -11;
    while s <= 12
        invariant
            -11 <= s <= 13,
            -12 <= best_transpose < s,
            best_score == transpose_score(events@, best_transpose as int),
            forall|t: int|
                -12 <= t < s ==> best_score <= #[trigger] transpose_score(events@, t),
            forall|t: int|
                -12 <= t < best_transpose ==> best_score < #[trigger] transpose_score(events@, t),
        decreases 13 - s,
    {
        let score = score_of(events, s);
        if score < best_score {
            best_score = score;
            best_transpose = s;
        }
        s = s + 1;
    }
    best_transpose
}

} // verus!
