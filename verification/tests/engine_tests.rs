use midiplay::engine::{
    effective_elapsed_ms, event_due, position_ms, KeyAction, PassEngine,
};
use midiplay::mapper::NoteMode;
use midiplay::score::{EventType, MidiData, TimedEvent};
use midiplay::tracker::KeyTracker;

fn ev(time_ms: u64, on: bool, note: u8) -> TimedEvent {
    TimedEvent {
        time_ms,
        event_type: if on { EventType::NoteOn } else { EventType::NoteOff },
        note,
    }
}

fn demo_score() -> MidiData {
    MidiData {
        events: vec![
            ev(500, true, 60),
            ev(1000, false, 60),
            ev(2000, true, 62),
            ev(2500, false, 62),
        ],
        duration_ms: 2500,
        transpose: 0,
    }
}

#[test]
fn seek_skips_events_before_the_offset() {
    let score = demo_score();
    let engine = PassEngine::start_pass(&score, 1500);
    // Both events before 1500 ms are skipped outright.
    assert_eq!(engine.idx, 2);
    // The next event is due 500 ms into the pass (2000 - 1500).
    assert_eq!(engine.next_target_ms(), Some(500));
    assert!(!engine.done());
}

#[test]
fn seek_at_zero_skips_nothing() {
    let score = demo_score();
    let engine = PassEngine::start_pass(&score, 0);
    assert_eq!(engine.idx, 0);
    assert_eq!(engine.next_target_ms(), Some(500));
}

#[test]
fn pass_presses_and_releases_in_order() {
    let score = demo_score();
    let mut engine = PassEngine::start_pass(&score, 0);
    // Note 60 resolves to key 7 ("a") in Closest mode, 62 to key 8.
    assert_eq!(
        engine.process_next(NoteMode::Closest, 0),
        Some(KeyAction::Press { key: 7 })
    );
    assert_eq!(
        engine.process_next(NoteMode::Closest, 0),
        Some(KeyAction::Release { key: 7 })
    );
    assert_eq!(
        engine.process_next(NoteMode::Closest, 0),
        Some(KeyAction::Press { key: 8 })
    );
    assert_eq!(
        engine.process_next(NoteMode::Closest, 0),
        Some(KeyAction::Release { key: 8 })
    );
    assert!(engine.done());
    assert_eq!(engine.keys_to_release(), Vec::<usize>::new());
}

#[test]
fn note_off_releases_the_key_its_note_on_pressed() {
    // The note-on maps under Closest, then the mode changes; the note-off
    // still releases the remembered key, not what Raw would give now.
    let score = MidiData {
        events: vec![ev(0, true, 60), ev(100, false, 60)],
        duration_ms: 100,
        transpose: 0,
    };
    let mut engine = PassEngine::start_pass(&score, 0);
    assert_eq!(
        engine.process_next(NoteMode::Closest, 0),
        Some(KeyAction::Press { key: 7 })
    );
    // Raw would map note 60 to key 18; the release still targets key 7.
    assert_eq!(
        engine.process_next(NoteMode::Raw, 0),
        Some(KeyAction::Release { key: 7 })
    );
}

#[test]
fn overlapping_notes_share_one_press_and_one_release() {
    // Notes 60 and 64 both resolved to key 7: one key-down on the first,
    // one key-up on the last.
    let mut tracker = KeyTracker::new();
    assert_eq!(tracker.note_on(60, 7), true);
    assert_eq!(tracker.note_on(64, 7), false);
    assert_eq!(tracker.note_off(60), None);
    assert_eq!(tracker.note_off(64), Some(7));
}

#[test]
fn unmatched_note_off_is_a_no_op() {
    let mut tracker = KeyTracker::new();
    assert_eq!(tracker.note_off(60), None);
    assert_eq!(tracker.pressed_keys(), Vec::<usize>::new());
}

#[test]
fn stop_releases_every_held_key() {
    let score = MidiData {
        events: vec![ev(0, true, 60), ev(0, true, 62), ev(100, false, 60)],
        duration_ms: 100,
        transpose: 0,
    };
    let mut engine = PassEngine::start_pass(&score, 0);
    engine.process_next(NoteMode::Closest, 0);
    engine.process_next(NoteMode::Closest, 0);
    // Keys 7 and 8 are down; a stop at this instant must release both.
    assert_eq!(engine.keys_to_release(), vec![7, 8]);
    engine.process_next(NoteMode::Closest, 0);
    // After note 60 ends only key 8 stays down.
    assert_eq!(engine.keys_to_release(), vec![8]);
}

#[test]
fn octave_shift_moves_the_row() {
    let score = MidiData {
        events: vec![ev(0, true, 60)],
        duration_ms: 0,
        transpose: 0,
    };
    let mut engine = PassEngine::start_pass(&score, 0);
    // One octave up: note 60 plays as 72, key 14 ("q").
    assert_eq!(
        engine.process_next(NoteMode::Closest, 1),
        Some(KeyAction::Press { key: 14 })
    );
}

#[test]
fn paused_time_is_excluded_from_elapsed() {
    assert_eq!(effective_elapsed_ms(1000, 300), 700);
    assert_eq!(effective_elapsed_ms(200, 300), 0);
    assert_eq!(effective_elapsed_ms(300, 300), 0);
}

#[test]
fn pausing_delays_firing_by_the_paused_time() {
    // An event due 500 ms into the pass: without pausing it fires at wall
    // clock 500; after 300 ms of pause it fires at 800 and not before.
    assert!(event_due(500, effective_elapsed_ms(500, 0)));
    assert!(!event_due(500, effective_elapsed_ms(799, 300)));
    assert!(event_due(500, effective_elapsed_ms(800, 300)));
}

#[test]
fn published_position_starts_at_the_seek_offset() {
    assert_eq!(position_ms(0, 1500), 1500);
    assert_eq!(position_ms(700, 1500), 2200);
    assert!(position_ms(u64::MAX, 1500) >= 1500);
}
