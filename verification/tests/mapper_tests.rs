use midiplay::mapper::{
    get_instrument_notes, normalize_into_range, note_mode_code, note_to_key,
    note_to_key_chromatic, note_to_key_pentatonic, note_to_key_quantize, note_to_key_raw,
    note_to_key_transpose, NoteMode,
};

#[test]
fn instrument_notes_are_three_diatonic_octaves() {
    let notes = get_instrument_notes();
    assert_eq!(notes.len(), 21);
    assert_eq!(notes[0], 48);
    assert_eq!(notes[7], 60);
    assert_eq!(notes[14], 72);
    assert_eq!(notes[20], 83);
    assert_eq!(
        notes,
        vec![48, 50, 52, 53, 55, 57, 59, 60, 62, 64, 65, 67, 69, 71, 72, 74, 76, 77, 79, 81, 83]
    );
}

#[test]
fn normalize_folds_by_octaves() {
    assert_eq!(normalize_into_range(60), 60);
    assert_eq!(normalize_into_range(30), 54);
    assert_eq!(normalize_into_range(95), 83);
    assert_eq!(normalize_into_range(47), 59);
    assert_eq!(normalize_into_range(84), 72);
    assert_eq!(normalize_into_range(48), 48);
    assert_eq!(normalize_into_range(83), 83);
}

#[test]
fn closest_mode_picks_nearest_key() {
    assert_eq!(note_to_key(60, 0), "a");
    assert_eq!(note_to_key(62, 0), "s");
    assert_eq!(note_to_key(48, 0), "z");
    assert_eq!(note_to_key(83, 0), "u");
    // 61 is a semitone from both 60 and 62; the lower key wins.
    assert_eq!(note_to_key(61, 0), "a");
    // 30 folds up to 54, a semitone from both 53 and 55; the lower wins.
    assert_eq!(note_to_key(30, 0), "v");
    // The transpose shifts before folding.
    assert_eq!(note_to_key(58, 2), "a");
}

#[test]
fn quantize_mode_matches_closest() {
    for note in 0..128 {
        assert_eq!(note_to_key_quantize(note, 0), note_to_key(note, 0));
        assert_eq!(note_to_key_quantize(note, 7), note_to_key(note, 7));
    }
}

#[test]
fn transpose_mode_maps_semitones_linearly() {
    assert_eq!(note_to_key_transpose(60, 0), "a");
    // One semitone below the root stays in the mid row at the last slot.
    assert_eq!(note_to_key_transpose(59, 0), "j");
    // A full octave below the root lands on the low row's first key.
    assert_eq!(note_to_key_transpose(48, 0), "z");
    // Two octaves above the root clamps into the high row.
    assert_eq!(note_to_key_transpose(84, 0), "q");
}

#[test]
fn pentatonic_mode_snaps_to_pentatonic_degrees() {
    assert_eq!(note_to_key_pentatonic(60, 0), "a");
    // Semitone 3 is equally far from degrees 2 and 4; the lower wins.
    assert_eq!(note_to_key_pentatonic(63, 0), "s");
    assert_eq!(note_to_key_pentatonic(50, 0), "x");
}

#[test]
fn chromatic_mode_uses_fixed_table() {
    assert_eq!(note_to_key_chromatic(60, 0), "a");
    // A sharp rounds down to its natural.
    assert_eq!(note_to_key_chromatic(61, 0), "a");
    // B flat rounds to the seventh slot.
    assert_eq!(note_to_key_chromatic(70, 0), "j");
    assert_eq!(note_to_key_chromatic(58, 0), "m");
}

#[test]
fn raw_mode_wraps_every_twentyone() {
    assert_eq!(note_to_key_raw(21), note_to_key_raw(0));
    assert_eq!(note_to_key_raw(-1), note_to_key_raw(20));
    assert_eq!(note_to_key_raw(0), "z");
    assert_eq!(note_to_key_raw(7), "a");
    assert_eq!(note_to_key_raw(14), "q");
    assert_eq!(note_to_key_raw(20), "u");
    assert_eq!(note_to_key_raw(42), "z");
}

#[test]
fn note_mode_codes_round_trip() {
    assert_eq!(NoteMode::from(0), NoteMode::Closest);
    assert_eq!(NoteMode::from(1), NoteMode::Quantize);
    assert_eq!(NoteMode::from(2), NoteMode::TransposeOnly);
    assert_eq!(NoteMode::from(3), NoteMode::Pentatonic);
    assert_eq!(NoteMode::from(4), NoteMode::Chromatic);
    assert_eq!(NoteMode::from(5), NoteMode::Raw);
    assert_eq!(NoteMode::from(9), NoteMode::Closest);
    for code in 0..6u8 {
        assert_eq!(note_mode_code(NoteMode::from(code)), code);
    }
}
