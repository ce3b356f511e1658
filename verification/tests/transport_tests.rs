use midiplay::focus::{focus_black_desert_window, is_black_desert_focused};
use midiplay::mapper::NoteMode;
use midiplay::score::{EventType, MidiData, TimedEvent};
use midiplay::transport::{AppState, SeekPlan};

fn demo_score() -> MidiData {
    MidiData {
        events: vec![
            TimedEvent { time_ms: 500, event_type: EventType::NoteOn, note: 60 },
            TimedEvent { time_ms: 1000, event_type: EventType::NoteOff, note: 60 },
        ],
        duration_ms: 1000,
        transpose: 0,
    }
}

#[test]
fn fresh_transport_is_idle() {
    let state = AppState::new();
    let snapshot = state.get_playback_state();
    assert!(!snapshot.is_playing);
    assert!(!snapshot.is_paused);
    assert!(!snapshot.loop_mode);
    assert_eq!(snapshot.current_position_ms, 0);
    assert_eq!(snapshot.total_duration_ms, 0);
    assert!(snapshot.current_file.is_none());
    assert_eq!(snapshot.note_mode, NoteMode::Closest);
    assert_eq!(snapshot.octave_shift, 0);
}

#[test]
fn play_without_a_loaded_score_is_an_error() {
    let mut state = AppState::new();
    let r = state.start_playback();
    assert!(r.is_err());
    assert!(!state.get_playback_state().is_playing);
}

#[test]
fn load_then_play_starts_a_pass() {
    let mut state = AppState::new();
    state.load_midi("song.mid".to_string(), demo_score());
    let snapshot = state.get_playback_state();
    assert_eq!(snapshot.total_duration_ms, 1000);
    assert_eq!(snapshot.current_file.as_deref(), Some("song.mid"));
    assert!(!snapshot.is_playing);

    let engine = state.start_playback().unwrap();
    assert_eq!(engine.offset_ms, 0);
    assert_eq!(engine.events.len(), 2);
    assert!(state.get_playback_state().is_playing);
    assert!(!state.get_playback_state().is_paused);
}

#[test]
fn pause_toggles_only_while_playing() {
    let mut state = AppState::new();
    state.toggle_pause();
    assert!(!state.get_playback_state().is_paused);

    state.load_midi("song.mid".to_string(), demo_score());
    state.start_playback().unwrap();
    state.toggle_pause();
    assert!(state.get_playback_state().is_paused);
    state.toggle_pause();
    assert!(!state.get_playback_state().is_paused);
}

#[test]
fn stop_clears_position_and_offset() {
    let mut state = AppState::new();
    state.load_midi("song.mid".to_string(), demo_score());
    state.seek(700);
    state.start_playback().unwrap();
    state.stop_playback();
    let snapshot = state.get_playback_state();
    assert!(!snapshot.is_playing);
    assert!(!snapshot.is_paused);
    assert_eq!(snapshot.current_position_ms, 0);
    // The next play starts from the beginning again.
    let engine = state.start_playback().unwrap();
    assert_eq!(engine.offset_ms, 0);
}

#[test]
fn seek_while_idle_only_moves_the_position() {
    let mut state = AppState::new();
    state.load_midi("song.mid".to_string(), demo_score());
    assert_eq!(state.seek(700), SeekPlan::Idle);
    assert_eq!(state.get_playback_state().current_position_ms, 700);
    // The next play picks the offset up.
    let engine = state.start_playback().unwrap();
    assert_eq!(engine.offset_ms, 700);
    assert_eq!(engine.idx, 1);
}

#[test]
fn seek_while_playing_restarts_the_pass() {
    let mut state = AppState::new();
    state.load_midi("song.mid".to_string(), demo_score());
    state.start_playback().unwrap();
    assert_eq!(state.seek(600), SeekPlan::RestartPlaying);
    let engine = state.start_playback().unwrap();
    assert_eq!(engine.offset_ms, 600);

    state.toggle_pause();
    assert_eq!(state.seek(800), SeekPlan::RestartPaused);
    assert_eq!(state.get_playback_state().current_position_ms, 800);
}

#[test]
fn octave_shift_is_clamped() {
    let mut state = AppState::new();
    state.set_octave_shift(5);
    assert_eq!(state.get_octave_shift(), 2);
    state.set_octave_shift(-5);
    assert_eq!(state.get_octave_shift(), -2);
    state.set_octave_shift(1);
    assert_eq!(state.get_octave_shift(), 1);
}

#[test]
fn note_mode_and_loop_are_plain_settings() {
    let mut state = AppState::new();
    state.set_note_mode(NoteMode::Pentatonic);
    assert_eq!(state.get_note_mode(), NoteMode::Pentatonic);
    state.set_loop_mode(true);
    assert!(state.get_playback_state().loop_mode);
}

#[test]
fn focus_helpers_succeed_off_platform() {
    assert_eq!(is_black_desert_focused(), Ok(true));
    assert!(focus_black_desert_window().is_ok());
}
