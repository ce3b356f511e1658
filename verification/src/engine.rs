use vstd::prelude::*;

use crate::keys::KEY_COUNT;
use crate::mapper::{lemma_mode_key_in_range, map_note_to_key, mode_key_spec, NoteMode};
use crate::score::{events_sorted, EventType, MidiData, TimedEvent};
use crate::tracker::{off_releases, off_state, on_presses, on_state, pressed_list, KeyTracker};

verus! {

/// One decision of the pass engine that the caller must carry out on the
/// key-simulation capability.
#[derive(Clone, Copy, Debug, PartialEq, Eq, Structural)]
pub enum KeyAction {
    /// Put the key down.
    Press { key: usize },
    /// Let the key up.
    Release { key: usize },
}

/// One playback pass over a loaded score: the events, the score's fixed
/// transpose, the pass's seek offset, the next event to handle, and the
/// per-pass key bookkeeping.  The engine decides which key goes down or
/// up; the caller owns the clock, sleeps, and the key simulation.
pub struct PassEngine {
    pub events: Vec<TimedEvent>,
    pub transpose: i32,
    pub offset_ms: u64,
    pub idx: usize,
    pub tracker: KeyTracker,
}

impl PassEngine {
    pub open spec fn wf(self) -> bool {
        &&& events_sorted(self.events@)
        &&& -12 <= self.transpose <= 12
        &&& self.idx <= self.events@.len()
        &&& self.tracker.wf()
        &&& forall|i: int|
            self.idx <= i < self.events@.len() ==> (#[trigger] self.events@[i]).time_ms
                >= self.offset_ms
        &&& forall|k: int|
            0 <= k < KEY_COUNT ==> (#[trigger] self.tracker.view_state().counts[k]) <= self.idx
    }

    /// Begin a pass at the given seek offset: every event strictly before
    /// the offset is skipped outright and no key action is issued for it;
    /// the first remaining event is the first one at or after the offset.
    pub fn start_pass(score: &MidiData, offset_ms: u64) -> (r: PassEngine)
        requires
            score.wf(),
        ensures
            r.wf(),
            r.events@ == score.events@,
            r.transpose == score.transpose,
            r.offset_ms == offset_ms,
            forall|i: int| 0 <= i < r.idx ==> (#[trigger] r.events@[i]).time_ms < offset_ms,
            r.idx <= r.events@.len(),
            r.idx < r.events@.len() ==> r.events@[r.idx as int].time_ms >= offset_ms,
            forall|k: int| 0 <= k < KEY_COUNT ==> (#[trigger] r.tracker.view_state().counts[k]) == 0,
    {
        let data = score.duplicate();
        let events = data.events;
        let mut idx: usize = 0;
        while idx < events.len() && events[idx].time_ms < offset_ms
            invariant
                idx <= events@.len(),
                forall|i: int| 0 <= i < idx ==> (#[trigger] events@[i]).time_ms < offset_ms,
            decreases events@.len() - idx,
        {
            idx = idx + 1;
        }
        proof {
            assert forall|i: int|
                idx <= i < events@.len() implies (#[trigger] events@[i]).time_ms >= offset_ms by {
                assert(events@[idx as int].time_ms <= events@[i].time_ms);
            }
        }
        PassEngine {
            events,
            transpose: score.transpose,
            offset_ms,
            idx,
            tracker: KeyTracker::new(),
        }
    }

    /// Whether the pass still has events to handle.
    pub fn done(&self) -> (r: bool)
        requires
            self.wf(),
        ensures
            r <==> self.idx == self.events@.len(),
    {
        self.idx >= self.events.len()
    }

    /// Time the next event is due, measured from the pass's start: its
    /// timestamp minus the seek offset; `None` once the pass is over.
    pub fn next_target_ms(&self) -> (r: Option<u64>)
        requires
            self.wf(),
        ensures
            r is None <==> self.idx == self.events@.len(),
            r is Some ==> r->0 == self.events@[self.idx as int].time_ms - self.offset_ms,
    {
        if self.idx < self.events.len() {
            Some(self.events[self.idx].time_ms - self.offset_ms)
        } else {
            None
        }
    }

    /// Handle the next event with the mode and octave shift read fresh at
    /// this moment: resolve the key, keep the reference counts, and say
    /// which key action, if any, must go out.  A note-on presses only on
    /// the 0-to-1 step of its key's count; a note-off releases only the
    /// key its own note-on pressed, and only on the 1-to-0 step.
    pub fn process_next(&mut self, mode: NoteMode, octave_shift: i8) -> (r: Option<KeyAction>)
        requires
            old(self).wf(),
            old(self).idx < old(self).events@.len(),
            -2 <= octave_shift <= 2,
        ensures
            final(self).wf(),
            final(self).events@ == old(self).events@,
            final(self).transpose == old(self).transpose,
            final(self).offset_ms == old(self).offset_ms,
            final(self).idx == old(self).idx + 1,
            ({
                let e = old(self).events@[old(self).idx as int];
                let st = old(self).tracker.view_state();
                match e.event_type {
                    EventType::NoteOn => {
                        let key = mode_key_spec(
                            mode,
                            e.note as int,
                            old(self).transpose as int,
                            octave_shift as int * 12,
                        );
                        &&& final(self).tracker.view_state() == on_state(st, e.note as int, key)
                        &&& r == (if on_presses(st, key) {
                            Some(KeyAction::Press { key: key as usize })
                        } else {
                            None::<KeyAction>
                        })
                    },
                    EventType::NoteOff => {
                        &&& final(self).tracker.view_state() == off_state(st, e.note as int)
                        &&& r == (match off_releases(st, e.note as int) {
                            Some(k) => Some(KeyAction::Release { key: k }),
                            None => None::<KeyAction>,
                        })
                    },
                }
            }),
    {
        let n = self.events.len();
        let e = self.events[self.idx];
        let shift_semitones: i32 = octave_shift as i32 * 12;
        let r = match e.event_type {
            EventType::NoteOn => {
                let key = map_note_to_key(mode, e.note, self.transpose, shift_semitones);
                proof {
                    lemma_mode_key_in_range(
                        mode,
                        e.note as int,
                        self.transpose as int,
                        shift_semitones as int,
                    );
                    assert(self.tracker.view_state().counts[key as int] <= self.idx);
                }
                if self.tracker.note_on(e.note, key) {
                    Some(KeyAction::Press { key })
                } else {
                    None
                }
            },
            EventType::NoteOff => {
                match self.tracker.note_off(e.note) {
                    Some(k) => Some(KeyAction::Release { key: k }),
                    None => None,
                }
            },
        };
        proof {
            assert(self.idx < n);
        }
        self.idx = self.idx + 1;
        r
    }

    /// The keys that are down right now, ascending: the ones the caller
    /// must release when the pass ends or is stopped.
    pub fn keys_to_release(&self) -> (r: Vec<usize>)
        requires
            self.wf(),
        ensures
            r@ == pressed_list(self.tracker.view_state().counts, KEY_COUNT as int),
    {
        self.tracker.pressed_keys()
    }
}

/// Play time elapsed in a pass: wall-clock time since the pass started,
/// less the total time spent paused.
pub open spec fn effective_elapsed_spec(wall_ms: int, paused_ms: int) -> int {
    if wall_ms >= paused_ms {
        wall_ms - paused_ms
    } else {
        0
    }
}

/// Play time elapsed in a pass, executable.
pub fn effective_elapsed_ms(wall_ms: u64, paused_ms: u64) -> (r: u64)
    ensures
        r == effective_elapsed_spec(wall_ms as int, paused_ms as int),
{
    if wall_ms >= paused_ms {
        wall_ms - paused_ms
    } else {
        0
    }
}

/// The position to publish while playing: elapsed play time plus the seek
/// offset; never before the offset itself.
pub fn position_ms(effective_ms: u64, offset_ms: u64) -> (r: u64)
    ensures
        r == crate::tempo::cap_u64(effective_ms + offset_ms),
        r >= offset_ms,
{
    effective_ms.saturating_add(offset_ms)
}

/// Whether the event with the given target is due at the given elapsed
/// play time.
pub fn event_due(target_ms: u64, effective_ms: u64) -> (r: bool)
    ensures
        r <==> effective_ms >= target_ms,
{
    effective_ms >= target_ms
}

/// Pausing delays firing by exactly the paused time: an event with target
/// `t` becomes due at wall-clock instant `t + paused` and not a
/// millisecond before, because elapsed play time excludes paused
/// intervals.
pub proof fn lemma_pause_delays_firing(wall_ms: int, paused_ms: int, target_ms: int)
    requires
        0 <= paused_ms <= wall_ms,
    ensures
        effective_elapsed_spec(wall_ms, paused_ms) >= target_ms <==> wall_ms >= target_ms
            + paused_ms,
{
}

} // verus!
