use vstd::prelude::*;

use crate::engine::PassEngine;
use crate::mapper::NoteMode;
use crate::score::MidiData;

verus! {

/// A read-only snapshot of the transport, for observers.
pub struct PlaybackState {
    pub is_playing: bool,
    pub is_paused: bool,
    pub current_position_ms: u64,
    pub total_duration_ms: u64,
    pub current_file: Option<String>,
    pub loop_mode: bool,
    pub note_mode: NoteMode,
    pub octave_shift: i8,
}

/// What a caller that restarts playback after a seek has to do next.
#[derive(Clone, Copy, Debug, PartialEq, Eq, Structural)]
pub enum SeekPlan {
    /// Stop the running pass and start a new one at the new offset.
    RestartPlaying,
    /// Stop the running pass, start a new one, then pause it again.
    RestartPaused,
    /// Nothing is playing; the new position only takes effect on the next
    /// play.
    Idle,
}

/// The transport control surface as a pure state machine: every command
/// is a state transition here; threads, clocks, waiting and the key
/// capability stay with the caller, which carries out what the
/// transitions decide.
pub struct AppState {
    pub is_playing: bool,
    pub is_paused: bool,
    pub loop_mode: bool,
    pub note_mode: NoteMode,
    pub octave_shift: i8,
    pub current_position_ms: u64,
    pub total_duration_ms: u64,
    pub current_file: Option<String>,
    pub midi_data: Option<MidiData>,
    pub seek_offset_ms: u64,
}

impl AppState {
    pub open spec fn wf(self) -> bool {
        &&& -2 <= self.octave_shift <= 2
        &&& (self.midi_data matches Some(d) ==> d.wf() && self.total_duration_ms
            == d.duration_ms)
    }

    /// The idle transport: nothing loaded, nothing playing.
    pub fn new() -> (r: AppState)
        ensures
            r.wf(),
            !r.is_playing,
            !r.is_paused,
            !r.loop_mode,
            r.note_mode == NoteMode::Closest,
            r.octave_shift == 0,
            r.current_position_ms == 0,
            r.total_duration_ms == 0,
            r.current_file is None,
            r.midi_data is None,
            r.seek_offset_ms == 0,
    {
        AppState {
            is_playing: false,
            is_paused: false,
            loop_mode: false,
            note_mode: NoteMode::Closest,
            octave_shift: 0,
            current_position_ms: 0,
            total_duration_ms: 0,
            current_file: None,
            midi_data: None,
            seek_offset_ms: 0,
        }
    }

    /// Install a freshly loaded score: replace the duration, the file
    /// name and the score, and touch nothing else.  Reading and parsing
    /// the file happen with the caller; a failed parse never reaches this
    /// method, so the previously loaded score stays untouched.
    pub fn load_midi(&mut self, path: String, data: MidiData)
        requires
            old(self).wf(),
            data.wf(),
        ensures
            final(self).wf(),
            final(self).midi_data == Some(data),
            final(self).total_duration_ms == data.duration_ms,
            final(self).current_file == Some(path),
            final(self).is_playing == old(self).is_playing,
            final(self).is_paused == old(self).is_paused,
            final(self).loop_mode == old(self).loop_mode,
            final(self).note_mode == old(self).note_mode,
            final(self).octave_shift == old(self).octave_shift,
            final(self).current_position_ms == old(self).current_position_ms,
            final(self).seek_offset_ms == old(self).seek_offset_ms,
    {
        self.total_duration_ms = data.duration_ms;
        self.current_file = Some(path);
        self.midi_data = Some(data);
    }

    /// Start a pass at the current seek offset.  With a loaded score the
    /// transport becomes playing and unpaused, the position snaps to the
    /// offset, and the returned engine is ready for the caller's
    /// scheduler thread.  Without one, the reported error changes
    /// nothing.
    pub fn start_playback(&mut self) -> (r: Result<PassEngine, String>)
        requires
            old(self).wf(),
        ensures
            final(self).wf(),
            r is Ok <==> old(self).midi_data is Some,
            r is Err ==> *final(self) == *old(self),
            r is Ok ==> {
                let engine = r->Ok_0;
                &&& final(self).is_playing
                &&& !final(self).is_paused
                &&& final(self).current_position_ms == old(self).seek_offset_ms
                &&& final(self).loop_mode == old(self).loop_mode
                &&& final(self).note_mode == old(self).note_mode
                &&& final(self).octave_shift == old(self).octave_shift
                &&& final(self).total_duration_ms == old(self).total_duration_ms
                &&& final(self).seek_offset_ms == old(self).seek_offset_ms
                &&& final(self).midi_data == old(self).midi_data
                &&& final(self).current_file == old(self).current_file
                &&& engine.wf()
                &&& engine.events@ == old(self).midi_data->0.events@
                &&& engine.transpose == old(self).midi_data->0.transpose
                &&& engine.offset_ms == old(self).seek_offset_ms
                &&& forall|i: int|
                    0 <= i < engine.idx ==> (#[trigger] engine.events@[i]).time_ms
                        < old(self).seek_offset_ms
                &&& engine.idx < engine.events@.len()
                    ==> engine.events@[engine.idx as int].time_ms >= old(self).seek_offset_ms
            },
    {
        match &self.midi_data {
            Some(data) => {
                let engine = PassEngine::start_pass(data, self.seek_offset_ms);
                self.is_playing = true;
                self.is_paused = false;
                self.current_position_ms = self.seek_offset_ms;
                Ok(engine)
            },
            None => Err("No MIDI file loaded".to_owned()),
        }
    }

    /// Switch the note mapping mode, effective on the next handled event.
    pub fn set_note_mode(&mut self, mode: NoteMode)
        requires
            old(self).wf(),
        ensures
            final(self).wf(),
            *final(self) == (AppState { note_mode: mode, ..*old(self) }),
    {
        self.note_mode = mode;
    }

    pub fn get_note_mode(&self) -> (r: NoteMode)
        ensures
            r == self.note_mode,
    {
        self.note_mode
    }

    /// Set the live octave shift, clamped to two octaves either way.
    pub fn set_octave_shift(&mut self, shift: i8)
        requires
            old(self).wf(),
        ensures
            final(self).wf(),
            *final(self) == (AppState {
                octave_shift: (if shift < -2 {
                    -2i8
                } else if shift > 2 {
                    2i8
                } else {
                    shift
                }),
                ..*old(self)
            }),
    {
        let clamped = if shift < -2 {
            -2
        } else if shift > 2 {
            2
        } else {
            shift
        };
        self.octave_shift = clamped;
    }

    pub fn get_octave_shift(&self) -> (r: i8)
        ensures
            r == self.octave_shift,
    {
        self.octave_shift
    }

    /// Flip between paused and playing; outside playback this does
    /// nothing.
    pub fn toggle_pause(&mut self)
        requires
            old(self).wf(),
        ensures
            final(self).wf(),
            old(self).is_playing ==> *final(self) == (AppState {
                is_paused: !old(self).is_paused,
                ..*old(self)
            }),
            !old(self).is_playing ==> *final(self) == *old(self),
    {
        if self.is_playing {
            let was_paused = self.is_paused;
            self.is_paused = !was_paused;
        }
    }

    /// Stop playback: clear the playing and paused flags and reset the
    /// position and the seek offset.  The caller signals the scheduler
    /// thread and waits until it has released every held key before
    /// reporting the stop as done.
    pub fn stop_playback(&mut self)
        requires
            old(self).wf(),
        ensures
            final(self).wf(),
            *final(self) == (AppState {
                is_playing: false,
                is_paused: false,
                current_position_ms: 0,
                seek_offset_ms: 0,
                ..*old(self)
            }),
    {
        self.is_playing = false;
        self.is_paused = false;
        self.current_position_ms = 0;
        self.seek_offset_ms = 0;
    }

    /// Enable or disable looping, effective at the end of the running
    /// pass.
    pub fn set_loop_mode(&mut self, enabled: bool)
        requires
            old(self).wf(),
        ensures
            final(self).wf(),
            *final(self) == (AppState { loop_mode: enabled, ..*old(self) }),
    {
        self.loop_mode = enabled;
    }

    /// Move the playback position.  While playing, the offset moves and
    /// the caller restarts the pass (pausing it again if it was paused);
    /// while idle, position and offset move and take effect on the next
    /// play.
    pub fn seek(&mut self, position_ms: u64) -> (r: SeekPlan)
        requires
            old(self).wf(),
        ensures
            final(self).wf(),
            final(self).seek_offset_ms == position_ms,
            old(self).is_playing && !old(self).is_paused ==> r == SeekPlan::RestartPlaying
                && *final(self) == (AppState { seek_offset_ms: position_ms, ..*old(self) }),
            old(self).is_playing && old(self).is_paused ==> r == SeekPlan::RestartPaused
                && *final(self) == (AppState {
                seek_offset_ms: position_ms,
                current_position_ms: position_ms,
                ..*old(self)
            }),
            !old(self).is_playing ==> r == SeekPlan::Idle && *final(self) == (AppState {
                seek_offset_ms: position_ms,
                current_position_ms: position_ms,
                ..*old(self)
            }),
    {
        if self.is_playing && !self.is_paused {
            self.seek_offset_ms = position_ms;
            SeekPlan::RestartPlaying
        } else if self.is_playing && self.is_paused {
            self.seek_offset_ms = position_ms;
            self.current_position_ms = position_ms;
            SeekPlan::RestartPaused
        } else {
            self.seek_offset_ms = position_ms;
            self.current_position_ms = position_ms;
            SeekPlan::Idle
        }
    }

    /// Record the position the scheduler has reached.
    pub fn set_position(&mut self, position_ms: u64)
        requires
            old(self).wf(),
        ensures
            final(self).wf(),
            *final(self) == (AppState { current_position_ms: position_ms, ..*old(self) }),
    {
        self.current_position_ms = position_ms;
    }

    /// A read-only snapshot of the whole transport.
    pub fn get_playback_state(&self) -> (r: PlaybackState)
        requires
            self.wf(),
        ensures
            r.is_playing == self.is_playing,
            r.is_paused == self.is_paused,
            r.current_position_ms == self.current_position_ms,
            r.total_duration_ms == self.total_duration_ms,
            r.loop_mode == self.loop_mode,
            r.note_mode == self.note_mode,
            r.octave_shift == self.octave_shift,
            r.current_file is Some <==> self.current_file is Some,
            r.current_file matches Some(p) ==> p@ == self.current_file->0@,
    {
        let current_file = match &self.current_file {
            Some(p) => Some(p.clone()),
            None => None,
        };
        PlaybackState {
            is_playing: self.is_playing,
            is_paused: self.is_paused,
            current_position_ms: self.current_position_ms,
            total_duration_ms: self.total_duration_ms,
            current_file,
            loop_mode: self.loop_mode,
            note_mode: self.note_mode,
            octave_shift: self.octave_shift,
        }
    }
}

} // verus!
