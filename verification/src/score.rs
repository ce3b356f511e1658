use vstd::prelude::*;

verus! {

/// A note event's direction: the note starts or it ends.
#[derive(Clone, Copy, Debug, PartialEq, Eq, Structural)]
pub enum EventType {
    NoteOn,
    NoteOff,
}

/// One note event on the merged timeline: a millisecond timestamp, the
/// direction, and the pitch (0..=127).
#[derive(Clone, Copy, Debug, PartialEq, Eq, Structural)]
pub struct TimedEvent {
    pub time_ms: u64,
    pub event_type: EventType,
    pub note: u8,
}

/// Events sorted ascending by timestamp.
pub open spec fn events_sorted(events: Seq<TimedEvent>) -> bool {
    forall|i: int, j: int|
        0 <= i <= j < events.len() ==> events[i].time_ms <= events[j].time_ms
}

/// A fully loaded score: the merged, sorted event list, the duration
/// (timestamp of the last event), and the auto-detected transpose.
pub struct MidiData {
    pub events: Vec<TimedEvent>,
    pub duration_ms: u64,
    pub transpose: i32,
}

impl MidiData {
    /// What every loaded score satisfies: events in timestamp order, the
    /// duration equal to the last timestamp (0 when empty), and a
    /// transpose from the candidate range.
    pub open spec fn wf(self) -> bool {
        &&& events_sorted(self.events@)
        &&& self.duration_ms == (if self.events@.len() == 0 {
            0
        } else {
            self.events@.last().time_ms
        })
        &&& -12 <= self.transpose <= 12
    }

    /// A field-for-field copy of the score.
    pub fn duplicate(&self) -> (r: MidiData)
        ensures
            r.events@ == self.events@,
            r.duration_ms == self.duration_ms,
            r.transpose == self.transpose,
    {
        let mut events: Vec<TimedEvent> = Vec::new();
        let mut i: usize = 0;
        while i < self.events.len()
            invariant
                i <= self.events@.len(),
                events@ == self.events@.take(i as int),
            decreases self.events@.len() - i,
        {
            events.push(self.events[i]);
            proof {
                assert(events@ =~= self.events@.take(i + 1 as int));
            }
            i = i + 1;
        }
        proof {
            assert(events@ =~= self.events@);
        }
        MidiData { events, duration_ms: self.duration_ms, transpose: self.transpose }
    }
}

} // verus!
