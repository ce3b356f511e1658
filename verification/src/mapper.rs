use vstd::prelude::*;

use crate::keys::KEY_COUNT;

verus! {

/// Pitch of the lowest playable note: one octave below the root.
pub const LOW_NOTE: i32 = 48;

/// Pitch of the highest playable note: eleven semitones above the root's
/// upper octave.
pub const HIGH_NOTE: i32 = 83;

/// The root pitch of the instrument's mid octave row.
pub const ROOT_NOTE: i32 = 60;

/// Semitone offsets of the seven diatonic scale degrees within one octave.
pub open spec fn scale_interval(d: int) -> int {
    if d == 0 {
        0
    } else if d == 1 {
        2
    } else if d == 2 {
        4
    } else if d == 3 {
        5
    } else if d == 4 {
        7
    } else if d == 5 {
        9
    } else {
        11
    }
}

/// Pitch of instrument key `i` (0..21): three octaves of the diatonic scale
/// starting one octave below the root.
pub open spec fn instrument_note(i: int) -> int {
    LOW_NOTE + 12 * (i / 7) + scale_interval(i % 7)
}

/// Pitch of instrument key `i`, executable.
pub fn instrument_note_at(i: usize) -> (r: i32)
    requires
        i < KEY_COUNT,
    ensures
        r == instrument_note(i as int),
{
    match i {
        0 => 48,
        1 => 50,
        2 => 52,
        3 => 53,
        4 => 55,
        5 => 57,
        6 => 59,
        7 => 60,
        8 => 62,
        9 => 64,
        10 => 65,
        11 => 67,
        12 => 69,
        13 => 71,
        14 => 72,
        15 => 74,
        16 => 76,
        17 => 77,
        18 => 79,
        19 => 81,
        _ => 83,
    }
}

/// The 21 instrument pitches in ascending key order.
pub fn get_instrument_notes() -> (r: Vec<i32>)
    ensures
        r@.len() == KEY_COUNT,
        forall|i: int| 0 <= i < KEY_COUNT ==> r@[i] == instrument_note(i),
{
    let mut notes: Vec<i32> = Vec::new();
    let mut i: usize = 0;
    while i < KEY_COUNT
        invariant
            i <= KEY_COUNT,
            notes@.len() == i,
            forall|j: int| 0 <= j < i ==> notes@[j] == instrument_note(j),
        decreases KEY_COUNT - i,
    {
        notes.push(instrument_note_at(i));
        i = i + 1;
    }
    notes
}

/// Folding a pitch into the playable range [48, 83] by repeatedly moving it
/// one octave up or down, exactly as many times as needed.
pub open spec fn normalize_spec(n: int) -> int
    decreases
            (if n < LOW_NOTE {
                LOW_NOTE - n
            } else if n > HIGH_NOTE {
                n - HIGH_NOTE
            } else {
                0
            }),
{
    if n < LOW_NOTE {
        normalize_spec(n + 12)
    } else if n > HIGH_NOTE {
        normalize_spec(n - 12)
    } else {
        n
    }
}

/// The folded pitch always lands inside the playable range.
pub proof fn lemma_normalize_in_range(n: int)
    ensures
        LOW_NOTE <= normalize_spec(n) <= HIGH_NOTE,
    decreases
            (if n < LOW_NOTE {
                LOW_NOTE - n
            } else if n > HIGH_NOTE {
                n - HIGH_NOTE
            } else {
                0
            }),
{
    if n < LOW_NOTE {
        lemma_normalize_in_range(n + 12);
    } else if n > HIGH_NOTE {
        lemma_normalize_in_range(n - 12);
    }
}

/// Fold `note` into the playable range by octave steps.
pub fn normalize_into_range(note: i32) -> (r: i32)
    ensures
        r == normalize_spec(note as int),
        LOW_NOTE <= r <= HIGH_NOTE,
{
    let mut normalized = note;
    while normalized < LOW_NOTE
        invariant
            normalize_spec(normalized as int) == normalize_spec(note as int),
        decreases
                (if normalized < LOW_NOTE {
                    LOW_NOTE - normalized
                } else {
                    0
                }),
    {
        normalized = normalized + 12;
    }
    while normalized > HIGH_NOTE
        invariant
            normalize_spec(normalized as int) == normalize_spec(note as int),
            normalized >= LOW_NOTE,
        decreases normalized,
    {
        normalized = normalized - 12;
    }
    normalized
}

/// Absolute distance between two pitches.
pub open spec fn pitch_dist(a: int, b: int) -> int {
    if a >= b {
        a - b
    } else {
        b - a
    }
}

/// Scan of the instrument keys from index `i` upward, carrying the best
/// index seen so far; a later key wins only by a strictly smaller distance
/// to `t`, so the lowest of all nearest keys is kept.
pub open spec fn scan_nearest(t: int, i: int, best: int) -> int
    decreases KEY_COUNT - i,
{
    if i < 0 || i >= KEY_COUNT {
        best
    } else if pitch_dist(instrument_note(i), t) < pitch_dist(instrument_note(best), t) {
        scan_nearest(t, i + 1, i)
    } else {
        scan_nearest(t, i + 1, best)
    }
}

/// The instrument key whose pitch is nearest to `t`, the lowest such key on
/// ties.
pub open spec fn nearest_key_index(t: int) -> int {
    scan_nearest(t, 1, 0)
}

proof fn lemma_scan_nearest_props(t: int, i: int, best: int)
    requires
        0 <= best < KEY_COUNT,
        0 <= i <= KEY_COUNT,
    ensures
        0 <= scan_nearest(t, i, best) < KEY_COUNT,
        pitch_dist(instrument_note(scan_nearest(t, i, best)), t) <= pitch_dist(
            instrument_note(best),
            t,
        ),
        forall|j: int|
            i <= j < KEY_COUNT ==> pitch_dist(instrument_note(scan_nearest(t, i, best)), t)
                <= pitch_dist(#[trigger] instrument_note(j), t),
    decreases KEY_COUNT - i,
{
    if 0 <= i < KEY_COUNT {
        if pitch_dist(instrument_note(i), t) < pitch_dist(instrument_note(best), t) {
            lemma_scan_nearest_props(t, i + 1, i);
        } else {
            lemma_scan_nearest_props(t, i + 1, best);
        }
    }
}

/// The nearest key really is nearest: no instrument key's pitch is closer
/// to `t` than the pitch of key `nearest_key_index(t)`.
pub proof fn lemma_nearest_key_is_nearest(t: int)
    ensures
        0 <= nearest_key_index(t) < KEY_COUNT,
        forall|j: int|
            0 <= j < KEY_COUNT ==> pitch_dist(instrument_note(nearest_key_index(t)), t)
                <= pitch_dist(#[trigger] instrument_note(j), t),
{
    lemma_scan_nearest_props(t, 1, 0);
}

/// Distance between two pitches from the playable range.
fn dist_between(a: i32, b: i32) -> (r: i32)
    requires
        0 <= a < 0x10000,
        0 <= b < 0x10000,
    ensures
        r == pitch_dist(a as int, b as int),
{
    if a >= b {
        a - b
    } else {
        b - a
    }
}

/// The instrument key nearest in pitch to `target`, lowest key on ties.
pub fn nearest_key(target: i32) -> (r: usize)
    requires
        LOW_NOTE <= target <= HIGH_NOTE,
    ensures
        r == nearest_key_index(target as int),
        r < KEY_COUNT,
{
    let mut best_idx: usize = 0;
    let mut best_dist: i32 = dist_between(instrument_note_at(0), target);
    let mut i: usize = 1;
    while i < KEY_COUNT
        invariant
            1 <= i <= KEY_COUNT,
            best_idx < KEY_COUNT,
            LOW_NOTE <= target <= HIGH_NOTE,
            best_dist == pitch_dist(instrument_note(best_idx as int), target as int),
            nearest_key_index(target as int) == scan_nearest(
                target as int,
                i as int,
                best_idx as int,
            ),
        decreases KEY_COUNT - i,
    {
        let d = dist_between(instrument_note_at(i), target);
        if d < best_dist {
            best_idx = i;
            best_dist = d;
        }
        i = i + 1;
    }
    best_idx
}

/// Fold an already shifted pitch into the playable range; callers hand in
/// the sum of a pitch and a shift, computed without overflow in `i64`.
fn fold_playable(n: i64) -> (r: i32)
    ensures
        r == normalize_spec(n as int),
        LOW_NOTE <= r <= HIGH_NOTE,
{
    let mut normalized = n;
    while normalized < LOW_NOTE as i64
        invariant
            normalize_spec(normalized as int) == normalize_spec(n as int),
        decreases
                (if normalized < LOW_NOTE {
                    LOW_NOTE - normalized
                } else {
                    0
                }),
    {
        normalized = normalized + 12;
    }
    while normalized > HIGH_NOTE as i64
        invariant
            normalize_spec(normalized as int) == normalize_spec(n as int),
            normalized >= LOW_NOTE,
        decreases normalized,
    {
        normalized = normalized - 12;
    }
    normalized as i32
}

/// Key produced by the `Closest` mode for the shifted pitch `t`: fold into
/// the playable range, then take the nearest instrument key.
pub open spec fn closest_key_spec(t: int) -> int {
    nearest_key_index(normalize_spec(t))
}

fn key_index_closest(target: i64) -> (r: usize)
    ensures
        r == closest_key_spec(target as int),
        r < KEY_COUNT,
{
    let folded = fold_playable(target);
    nearest_key(folded)
}

/// Quotient of `d` and 12 rounded toward zero, as machine division does it.
pub open spec fn tdiv_12(d: int) -> int {
    if d >= 0 {
        d / 12
    } else {
        -((-d) / 12)
    }
}

/// An octave row index forced into 0..=2.
pub open spec fn clamp_row(o: int) -> int {
    if o < 0 {
        0
    } else if o > 2 {
        2
    } else {
        o
    }
}

/// Key produced by the `TransposeOnly` mode for the shifted pitch `t`:
/// the semitone within the octave picks one of the seven slots linearly,
/// the octave (counted from one row below the root, rounded toward zero)
/// picks the row, clamped to the three available rows.
pub open spec fn transpose_key_spec(t: int) -> int {
    let d = t - ROOT_NOTE;
    clamp_row(1 + tdiv_12(d)) * 7 + (d % 12) * 7 / 12
}

fn key_index_transpose(target: i64) -> (r: usize)
    requires
        -0x1_0000_0000 <= target <= 0x1_0000_0000,
    ensures
        r == transpose_key_spec(target as int),
        r < KEY_COUNT,
{
    let d: i64 = target - ROOT_NOTE as i64;
    let (sem, quot): (u64, i64) = if d >= 0 {
        let du = d as u64;
        (du % 12, (du / 12) as i64)
    } else {
        let eu = (-d) as u64;
        let m = eu % 12;
        proof {
            vstd::arithmetic::div_mod::lemma_fundamental_div_mod(d as int, 12);
            vstd::arithmetic::div_mod::lemma_fundamental_div_mod(-(d as int), 12);
        }
        (if m == 0 { 0 } else { 12 - m }, -((eu / 12) as i64))
    };
    let row64: i64 = 1 + quot;
    let row: usize = if row64 < 0 {
        0
    } else if row64 > 2 {
        2
    } else {
        row64 as usize
    };
    let slot = (sem * 7 / 12) as usize;
    row * 7 + slot
}

/// The row a playable pitch falls in: low, mid or high octave.
pub open spec fn octave_row(n: int) -> int {
    if n < ROOT_NOTE {
        0
    } else if n < ROOT_NOTE + 12 {
        1
    } else {
        2
    }
}

/// Semitone of a playable pitch within its octave, measured from the root.
pub open spec fn semitone_of(n: int) -> int {
    (n - ROOT_NOTE) % 12
}

/// Semitone and row of an already folded pitch.
fn split_playable(n: i32) -> (r: (u32, usize))
    requires
        LOW_NOTE <= n <= HIGH_NOTE,
    ensures
        r.0 == semitone_of(n as int),
        r.1 == octave_row(n as int),
        r.0 < 12,
        r.1 < 3,
{
    proof {
        vstd::arithmetic::div_mod::lemma_fundamental_div_mod(n - ROOT_NOTE, 12);
        vstd::arithmetic::div_mod::lemma_mod_bound(n - ROOT_NOTE, 12);
    }
    if n < ROOT_NOTE {
        ((n - 48) as u32, 0)
    } else if n < ROOT_NOTE + 12 {
        ((n - 60) as u32, 1)
    } else {
        ((n - 72) as u32, 2)
    }
}

/// The five pentatonic intervals, in semitones from the root.
pub open spec fn penta_interval(i: int) -> int {
    if i == 0 {
        0
    } else if i == 1 {
        2
    } else if i == 2 {
        4
    } else if i == 3 {
        7
    } else {
        9
    }
}

/// The scale slot each pentatonic degree lands on.
pub open spec fn penta_slot(i: int) -> int {
    if i == 0 {
        0
    } else if i == 1 {
        1
    } else if i == 2 {
        2
    } else if i == 3 {
        4
    } else {
        5
    }
}

/// Distance between a pentatonic interval and a semitone, allowing a wrap
/// of one octave in either direction.
pub open spec fn circ_dist(a: int, s: int) -> int {
    let plain = pitch_dist(a, s);
    let up = pitch_dist(a + 12, s);
    let down = pitch_dist(a - 12, s);
    if plain <= up && plain <= down {
        plain
    } else if up <= down {
        up
    } else {
        down
    }
}

/// First-minimum scan over the five pentatonic degrees.
pub open spec fn scan_penta(sem: int, i: int, best: int) -> int
    decreases 5 - i,
{
    if i < 0 || i >= 5 {
        best
    } else if circ_dist(penta_interval(i), sem) < circ_dist(penta_interval(best), sem) {
        scan_penta(sem, i + 1, i)
    } else {
        scan_penta(sem, i + 1, best)
    }
}

proof fn lemma_scan_penta_range(sem: int, i: int, best: int)
    requires
        0 <= best < 5,
        0 <= i <= 5,
    ensures
        0 <= scan_penta(sem, i, best) < 5,
    decreases 5 - i,
{
    if 0 <= i < 5 {
        if circ_dist(penta_interval(i), sem) < circ_dist(penta_interval(best), sem) {
            lemma_scan_penta_range(sem, i + 1, i);
        } else {
            lemma_scan_penta_range(sem, i + 1, best);
        }
    }
}

/// Key produced by the `Pentatonic` mode for the shifted pitch `t`: fold,
/// then snap the semitone to the nearest pentatonic degree (circularly,
/// lowest degree on ties) and keep the folded pitch's octave row.
pub open spec fn pentatonic_key_spec(t: int) -> int {
    let n = normalize_spec(t);
    octave_row(n) * 7 + penta_slot(scan_penta(semitone_of(n), 1, 0))
}

fn circ_dist_between(a: i32, s: i32) -> (r: i32)
    requires
        0 <= a <= 9,
        0 <= s <= 11,
    ensures
        r == circ_dist(a as int, s as int),
{
    let plain = dist_between(a, s);
    let up = dist_between(a + 12, s);
    let down = if a - 12 >= s {
        a - 12 - s
    } else {
        s - (a - 12)
    };
    if plain <= up && plain <= down {
        plain
    } else if up <= down {
        up
    } else {
        down
    }
}

fn penta_slot_at(i: usize) -> (r: usize)
    requires
        i < 5,
    ensures
        r == penta_slot(i as int),
        r < 7,
{
    match i {
        0 => 0,
        1 => 1,
        2 => 2,
        3 => 4,
        _ => 5,
    }
}

fn penta_interval_at(i: usize) -> (r: i32)
    requires
        i < 5,
    ensures
        r == penta_interval(i as int),
        0 <= r <= 9,
{
    match i {
        0 => 0,
        1 => 2,
        2 => 4,
        3 => 7,
        _ => 9,
    }
}

fn key_index_pentatonic(target: i64) -> (r: usize)
    ensures
        r == pentatonic_key_spec(target as int),
        r < KEY_COUNT,
{
    let n = fold_playable(target);
    let (sem, row) = split_playable(n);
    let sem_i = sem as i32;
    let mut best_idx: usize = 0;
    let mut best_dist: i32 = circ_dist_between(penta_interval_at(0), sem_i);
    let mut i: usize = 1;
    while i < 5
        invariant
            1 <= i <= 5,
            best_idx < 5,
            0 <= sem_i <= 11,
            best_dist == circ_dist(penta_interval(best_idx as int), sem_i as int),
            scan_penta(sem_i as int, 1, 0) == scan_penta(sem_i as int, i as int, best_idx as int),
        decreases 5 - i,
    {
        let d = circ_dist_between(penta_interval_at(i), sem_i);
        if d < best_dist {
            best_idx = i;
            best_dist = d;
        }
        i = i + 1;
    }
    row * 7 + penta_slot_at(best_idx)
}

/// The natural scale slot assigned to each of the twelve semitones, sharps
/// and flats rounded toward the natural below.
pub open spec fn chrom_slot(s: int) -> int {
    if s == 0 || s == 1 {
        0
    } else if s == 2 {
        1
    } else if s == 3 || s == 4 {
        2
    } else if s == 5 || s == 6 {
        3
    } else if s == 7 || s == 8 {
        4
    } else if s == 9 {
        5
    } else {
        6
    }
}

/// Key produced by the `Chromatic` mode for the shifted pitch `t`: fold,
/// then send the semitone through the fixed twelve-entry table and keep the
/// folded pitch's octave row.
pub open spec fn chromatic_key_spec(t: int) -> int {
    let n = normalize_spec(t);
    octave_row(n) * 7 + chrom_slot(semitone_of(n))
}

fn key_index_chromatic(target: i64) -> (r: usize)
    ensures
        r == chromatic_key_spec(target as int),
        r < KEY_COUNT,
{
    let n = fold_playable(target);
    let (sem, row) = split_playable(n);
    let slot: usize = match sem {
        0 => 0,
        1 => 0,
        2 => 1,
        3 => 2,
        4 => 2,
        5 => 3,
        6 => 3,
        7 => 4,
        8 => 4,
        9 => 5,
        10 => 6,
        _ => 6,
    };
    row * 7 + slot
}

/// Key produced by the `Raw` mode: the pitch taken modulo 21, with the
/// remainder made non-negative, indexes the 21 keys directly.
pub open spec fn raw_key_spec(n: int) -> int {
    n % 21
}

fn key_index_raw(note: i32) -> (r: usize)
    ensures
        r == raw_key_spec(note as int),
        r < KEY_COUNT,
{
    proof {
        vstd::arithmetic::div_mod::lemma_mod_multiples_vanish(0x800_0000, note as int, 21);
    }
    let shifted: i64 = note as i64 + 21 * 0x800_0000;
    ((shifted as u64) % 21) as usize
}

/// How a note pitch is turned into one of the 21 keys.
#[derive(Clone, Copy, Debug, PartialEq, Eq, Structural)]
pub enum NoteMode {
    /// Fold into the playable range, then take the nearest instrument pitch.
    Closest,
    /// Snap to scale notes; behaves as `Closest` (see `note_to_key_quantize`).
    Quantize,
    /// Direct semitone-to-slot mapping with octave rows clamped.
    TransposeOnly,
    /// Match against the five-note pentatonic subset of the scale.
    Pentatonic,
    /// Fixed table from the twelve semitones to the seven naturals.
    Chromatic,
    /// Plain modulo-21 indexing, no folding and no automatic transpose.
    Raw,
}

/// Mode encoding used over the control surface: 0 through 5, anything else
/// falling back to `Closest`.
pub open spec fn note_mode_of(value: u8) -> NoteMode {
    if value == 1 {
        NoteMode::Quantize
    } else if value == 2 {
        NoteMode::TransposeOnly
    } else if value == 3 {
        NoteMode::Pentatonic
    } else if value == 4 {
        NoteMode::Chromatic
    } else if value == 5 {
        NoteMode::Raw
    } else {
        NoteMode::Closest
    }
}

impl From<u8> for NoteMode {
    fn from(value: u8) -> (r: NoteMode) {
        match value {
            1 => NoteMode::Quantize,
            2 => NoteMode::TransposeOnly,
            3 => NoteMode::Pentatonic,
            4 => NoteMode::Chromatic,
            5 => NoteMode::Raw,
            _ => NoteMode::Closest,
        }
    }
}

impl vstd::std_specs::convert::FromSpecImpl<u8> for NoteMode {
    open spec fn obeys_from_spec() -> bool {
        true
    }

    open spec fn from_spec(v: u8) -> NoteMode {
        note_mode_of(v)
    }
}

/// The key index the active mode assigns to a note: every mode except
/// `Raw` applies the score transpose and the live octave shift and works on
/// `note + transpose + shift`; `Raw` ignores the automatic transpose and
/// only applies the octave shift.
pub open spec fn mode_key_spec(mode: NoteMode, note: int, transpose: int, shift: int) -> int {
    match mode {
        NoteMode::Closest => closest_key_spec(note + transpose + shift),
        NoteMode::Quantize => closest_key_spec(note + transpose + shift),
        NoteMode::TransposeOnly => transpose_key_spec(note + transpose + shift),
        NoteMode::Pentatonic => pentatonic_key_spec(note + transpose + shift),
        NoteMode::Chromatic => chromatic_key_spec(note + transpose + shift),
        NoteMode::Raw => raw_key_spec(note + shift),
    }
}

/// Whatever the mode and shifts, the assigned key is one of the 21.
pub proof fn lemma_mode_key_in_range(mode: NoteMode, note: int, transpose: int, shift: int)
    ensures
        0 <= mode_key_spec(mode, note, transpose, shift) < KEY_COUNT,
{
    let t = note + transpose + shift;
    match mode {
        NoteMode::Closest => {
            lemma_nearest_key_is_nearest(normalize_spec(t));
        },
        NoteMode::Quantize => {
            lemma_nearest_key_is_nearest(normalize_spec(t));
        },
        NoteMode::TransposeOnly => {
            let d = t - ROOT_NOTE;
            vstd::arithmetic::div_mod::lemma_mod_bound(d, 12);
            vstd::arithmetic::div_mod::lemma_div_pos_is_pos((d % 12) * 7, 12);
            vstd::arithmetic::div_mod::lemma_div_is_ordered((d % 12) * 7, 77, 12);
        },
        NoteMode::Pentatonic => {
            lemma_scan_penta_range(semitone_of(normalize_spec(t)), 1, 0);
        },
        NoteMode::Chromatic => {
        },
        NoteMode::Raw => {
            vstd::arithmetic::div_mod::lemma_mod_bound(note + shift, 21);
        },
    }
}

/// The key index the active mode assigns to a note, executable; `transpose`
/// is the score's fixed transpose, `shift` the live octave shift in
/// semitones.
pub fn map_note_to_key(mode: NoteMode, note: u8, transpose: i32, shift: i32) -> (r: usize)
    requires
        -12 <= transpose <= 12,
        -24 <= shift <= 24,
    ensures
        r == mode_key_spec(mode, note as int, transpose as int, shift as int),
        r < KEY_COUNT,
{
    let target: i64 = note as i64 + transpose as i64 + shift as i64;
    match mode {
        NoteMode::Closest => key_index_closest(target),
        NoteMode::Quantize => key_index_closest(target),
        NoteMode::TransposeOnly => key_index_transpose(target),
        NoteMode::Pentatonic => key_index_pentatonic(target),
        NoteMode::Chromatic => key_index_chromatic(target),
        NoteMode::Raw => key_index_raw(note as i32 + shift),
    }
}

/// The small-integer encoding of a mode, inverse of `note_mode_of`.
pub fn note_mode_code(mode: NoteMode) -> (r: u8)
    ensures
        note_mode_of(r) == mode,
        r < 6,
{
    match mode {
        NoteMode::Closest => 0,
        NoteMode::Quantize => 1,
        NoteMode::TransposeOnly => 2,
        NoteMode::Pentatonic => 3,
        NoteMode::Chromatic => 4,
        NoteMode::Raw => 5,
    }
}

/// `Closest` mode: fold the transposed pitch into the playable range and
/// press the key whose pitch is nearest by absolute distance.
pub fn note_to_key(note: i32, transpose: i32) -> (r: String)
    ensures
        r@ == crate::keys::key_name_spec(closest_key_spec(note + transpose)),
{
    let idx = key_index_closest(note as i64 + transpose as i64);
    crate::keys::key_name(idx).to_owned()
}

/// `Quantize` mode.  Documented as snapping only to exact or very close
/// scale notes, but the observed behaviour always maps to the nearest
/// instrument pitch regardless of distance; this implements the always-map
/// behaviour, so it agrees with `note_to_key` on every input.
pub fn note_to_key_quantize(note: i32, transpose: i32) -> (r: String)
    ensures
        r@ == crate::keys::key_name_spec(closest_key_spec(note + transpose)),
{
    let idx = key_index_closest(note as i64 + transpose as i64);
    crate::keys::key_name(idx).to_owned()
}

/// `TransposeOnly` mode: direct semitone-to-slot mapping, octave rows
/// clamped to the three available.
pub fn note_to_key_transpose(note: i32, transpose: i32) -> (r: String)
    ensures
        r@ == crate::keys::key_name_spec(transpose_key_spec(note + transpose)),
{
    let idx = key_index_transpose(note as i64 + transpose as i64);
    crate::keys::key_name(idx).to_owned()
}

/// `Pentatonic` mode: snap to the five-note pentatonic subset.
pub fn note_to_key_pentatonic(note: i32, transpose: i32) -> (r: String)
    ensures
        r@ == crate::keys::key_name_spec(pentatonic_key_spec(note + transpose)),
{
    let idx = key_index_pentatonic(note as i64 + transpose as i64);
    crate::keys::key_name(idx).to_owned()
}

/// `Chromatic` mode: each semitone is sent to a fixed natural slot.
pub fn note_to_key_chromatic(note: i32, transpose: i32) -> (r: String)
    ensures
        r@ == crate::keys::key_name_spec(chromatic_key_spec(note + transpose)),
{
    let idx = key_index_chromatic(note as i64 + transpose as i64);
    crate::keys::key_name(idx).to_owned()
}

/// `Raw` mode: the pitch modulo 21 indexes the key list directly, with no
/// folding and no automatic transpose.
pub fn note_to_key_raw(note: i32) -> (r: String)
    ensures
        r@ == crate::keys::key_name_spec(raw_key_spec(note as int)),
{
    let idx = key_index_raw(note);
    crate::keys::key_name(idx).to_owned()
}

} // verus!
