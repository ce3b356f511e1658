use midiplay::detect::detect_best_transpose;
use midiplay::loader::{get_midi_duration, load_midi};
use midiplay::score::{EventType, TimedEvent};

/// A two-track timeline with 480 ticks per quarter: one track sets the
/// tempo to 500000 microseconds per quarter at tick 0, the other plays
/// note 60 from tick 480 to tick 960.
fn two_track_bytes() -> Vec<u8> {
    let mut data = Vec::new();
    // Header: format 1, two tracks, 480 ticks per quarter.
    data.extend_from_slice(&[0x4D, 0x54, 0x68, 0x64, 0, 0, 0, 6, 0, 1, 0, 2, 0x01, 0xE0]);
    // Tempo track.
    data.extend_from_slice(&[0x4D, 0x54, 0x72, 0x6B, 0, 0, 0, 0x0B]);
    data.extend_from_slice(&[0x00, 0xFF, 0x51, 0x03, 0x07, 0xA1, 0x20]);
    data.extend_from_slice(&[0x00, 0xFF, 0x2F, 0x00]);
    // Note track: note-on at tick 480, note-off at tick 960.
    data.extend_from_slice(&[0x4D, 0x54, 0x72, 0x6B, 0, 0, 0, 0x0E]);
    data.extend_from_slice(&[0x83, 0x60, 0x90, 0x3C, 0x64]);
    data.extend_from_slice(&[0x83, 0x60, 0x80, 0x3C, 0x40]);
    data.extend_from_slice(&[0x00, 0xFF, 0x2F, 0x00]);
    data
}

#[test]
fn loads_matched_pair_with_exact_times() {
    let score = load_midi(&two_track_bytes()).unwrap();
    // One matched on/off pair yields exactly two entries, sorted.
    assert_eq!(score.events.len(), 2);
    assert_eq!(score.events[0].time_ms, 500);
    assert!(matches!(score.events[0].event_type, EventType::NoteOn));
    assert_eq!(score.events[0].note, 60);
    assert_eq!(score.events[1].time_ms, 1000);
    assert!(matches!(score.events[1].event_type, EventType::NoteOff));
    assert_eq!(score.events[1].note, 60);
    assert_eq!(score.duration_ms, 1000);
    // Note 60 sits on the instrument, and so does 60 - 12: both shifts
    // score 0 and the scan from -12 upward keeps the first minimum.
    assert_eq!(score.transpose, -12);
}

#[test]
fn duration_comes_from_the_longest_track() {
    assert_eq!(get_midi_duration(&two_track_bytes()).unwrap(), 1000);
}

/// One track: note 60 starts at tick 0, the tempo halves at tick 480, the
/// note ends at tick 960.  The first 480 ticks take 500 ms, the next 480
/// only 250 ms.
fn tempo_change_bytes() -> Vec<u8> {
    let mut data = Vec::new();
    data.extend_from_slice(&[0x4D, 0x54, 0x68, 0x64, 0, 0, 0, 6, 0, 0, 0, 1, 0x01, 0xE0]);
    data.extend_from_slice(&[0x4D, 0x54, 0x72, 0x6B, 0, 0, 0, 0x15]);
    data.extend_from_slice(&[0x00, 0x90, 0x3C, 0x64]);
    data.extend_from_slice(&[0x83, 0x60, 0xFF, 0x51, 0x03, 0x03, 0xD0, 0x90]);
    data.extend_from_slice(&[0x83, 0x60, 0x80, 0x3C, 0x40]);
    data.extend_from_slice(&[0x00, 0xFF, 0x2F, 0x00]);
    data
}

#[test]
fn tempo_changes_integrate_piecewise() {
    let score = load_midi(&tempo_change_bytes()).unwrap();
    assert_eq!(score.events.len(), 2);
    assert_eq!(score.events[0].time_ms, 0);
    assert_eq!(score.events[1].time_ms, 750);
    assert_eq!(score.duration_ms, 750);
    assert_eq!(get_midi_duration(&tempo_change_bytes()).unwrap(), 750);
}

/// A note-on with velocity 0 counts as a note-off.
fn zero_velocity_bytes() -> Vec<u8> {
    let mut data = Vec::new();
    data.extend_from_slice(&[0x4D, 0x54, 0x68, 0x64, 0, 0, 0, 6, 0, 0, 0, 1, 0x01, 0xE0]);
    data.extend_from_slice(&[0x4D, 0x54, 0x72, 0x6B, 0, 0, 0, 0x0D]);
    data.extend_from_slice(&[0x00, 0x90, 0x3C, 0x64]);
    data.extend_from_slice(&[0x83, 0x60, 0x90, 0x3C, 0x00]);
    data.extend_from_slice(&[0x00, 0xFF, 0x2F, 0x00]);
    data
}

#[test]
fn zero_velocity_note_on_becomes_note_off() {
    let score = load_midi(&zero_velocity_bytes()).unwrap();
    assert_eq!(score.events.len(), 2);
    assert!(matches!(score.events[0].event_type, EventType::NoteOn));
    assert!(matches!(score.events[1].event_type, EventType::NoteOff));
    assert_eq!(score.events[1].time_ms, 500);
}

/// A header whose timing is not the metrical kind: the resolution falls
/// back to 480 instead of failing.
fn timecode_header_bytes() -> Vec<u8> {
    let mut data = Vec::new();
    // Division 0xE728: the high bit marks a timecode division.
    data.extend_from_slice(&[0x4D, 0x54, 0x68, 0x64, 0, 0, 0, 6, 0, 0, 0, 1, 0xE7, 0x28]);
    data.extend_from_slice(&[0x4D, 0x54, 0x72, 0x6B, 0, 0, 0, 0x0D]);
    data.extend_from_slice(&[0x00, 0x90, 0x3C, 0x64]);
    data.extend_from_slice(&[0x83, 0x60, 0x80, 0x3C, 0x40]);
    data.extend_from_slice(&[0x00, 0xFF, 0x2F, 0x00]);
    data
}

#[test]
fn unsupported_timing_falls_back_to_default_resolution() {
    // 480 ticks at the default 480 ticks per quarter and 500000
    // microseconds per quarter make half a second, exactly as if the
    // header had said 480.
    let score = load_midi(&timecode_header_bytes()).unwrap();
    assert_eq!(score.events.len(), 2);
    assert_eq!(score.events[1].time_ms, 500);
}

/// Two tracks playing different notes at the same tick.
fn simultaneous_bytes() -> Vec<u8> {
    let mut data = Vec::new();
    data.extend_from_slice(&[0x4D, 0x54, 0x68, 0x64, 0, 0, 0, 6, 0, 1, 0, 2, 0x01, 0xE0]);
    data.extend_from_slice(&[0x4D, 0x54, 0x72, 0x6B, 0, 0, 0, 0x08]);
    data.extend_from_slice(&[0x00, 0x90, 0x3C, 0x64]);
    data.extend_from_slice(&[0x00, 0xFF, 0x2F, 0x00]);
    data.extend_from_slice(&[0x4D, 0x54, 0x72, 0x6B, 0, 0, 0, 0x08]);
    data.extend_from_slice(&[0x00, 0x90, 0x3E, 0x64]);
    data.extend_from_slice(&[0x00, 0xFF, 0x2F, 0x00]);
    data
}

#[test]
fn simultaneous_events_keep_track_order() {
    // The sort is stable: events with equal timestamps stay in the order
    // the tracks produced them.
    let score = load_midi(&simultaneous_bytes()).unwrap();
    assert_eq!(score.events.len(), 2);
    assert_eq!(score.events[0].time_ms, 0);
    assert_eq!(score.events[1].time_ms, 0);
    assert_eq!(score.events[0].note, 60);
    assert_eq!(score.events[1].note, 62);
}

#[test]
fn malformed_bytes_are_reported() {
    assert!(load_midi(&[1, 2, 3, 4]).is_err());
    assert!(get_midi_duration(&[0x4D, 0x54, 0x68]).is_err());
    assert!(load_midi(&[]).is_err());
}

fn note_on(time_ms: u64, note: u8) -> TimedEvent {
    TimedEvent { time_ms, event_type: EventType::NoteOn, note }
}

#[test]
fn on_instrument_notes_score_zero() {
    // All of these pitches sit on the instrument, so shifting by nothing
    // scores 0 -- and so does shifting a whole octave down, which the
    // scan from -12 upward reaches first.
    let events = vec![
        note_on(0, 60),
        note_on(100, 62),
        note_on(200, 64),
        note_on(300, 65),
        note_on(400, 67),
    ];
    assert_eq!(detect_best_transpose(&events), -12);
}

#[test]
fn transpose_detects_a_shifted_scale() {
    // The same scale a semitone low: shifting by 1 reaches score 0, but
    // so does shifting by -11 (an octave further down), and the scan from
    // -12 upward keeps the first minimum.
    let events = vec![
        note_on(0, 59),
        note_on(100, 61),
        note_on(200, 63),
        note_on(300, 64),
        note_on(400, 66),
    ];
    assert_eq!(detect_best_transpose(&events), -11);
}

#[test]
fn empty_timeline_prefers_the_lowest_candidate() {
    // With no note-on every candidate scores 0 and the scan keeps the
    // first one.
    let events: Vec<TimedEvent> = Vec::new();
    assert_eq!(detect_best_transpose(&events), -12);
}
