use vstd::prelude::*;

use midly::{MetaMessage, MidiMessage, Smf, Timing, TrackEventKind};

use crate::detect::{detect_best_transpose, transpose_score};
use crate::score::{events_sorted, EventType, MidiData, TimedEvent};
use crate::sorting::{
    event_sort_spec, lemma_event_sort_sorted, sort_tempo_changes, sort_timed_events,
    tempo_sort_spec,
};
use crate::tempo::{
    tempo_bounded, tempo_sorted, ticks_to_ms, ticks_to_ms_spec, TempoChange,
    DEFAULT_TICKS_PER_QUARTER, TICK_LIMIT,
};

verus! {

/// What one raw track event carries, reduced to plain values.
#[derive(Clone, Copy, Debug, PartialEq, Eq, Structural)]
pub enum RawKind {
    /// A note starts (or, with velocity 0, ends by convention).
    NoteOn { key: u8, vel: u8 },
    /// A note ends.
    NoteOff { key: u8 },
    /// From here on a quarter note lasts this many microseconds.
    Tempo { us_per_quarter: u32 },
    /// Any other message; it only advances time.
    Other,
}

/// One raw track event: ticks since the previous event of the same track,
/// and what happens.
#[derive(Clone, Copy, Debug, PartialEq, Eq, Structural)]
pub struct RawEvent {
    pub delta: u32,
    pub kind: RawKind,
}

/// A parsed timeline before tempo correction: the header's metrical
/// resolution, if it had one, and each track's events in file order.
pub struct RawScore {
    pub ticks_per_quarter: Option<u16>,
    pub tracks: Vec<Vec<RawEvent>>,
}

/// The per-track view of a parsed track list.
pub open spec fn tracks_view(tracks: Vec<Vec<RawEvent>>) -> Seq<Seq<RawEvent>> {
    Seq::new(tracks@.len(), |i: int| tracks@[i]@)
}

/// The mathematical shape of a `RawScore`.
pub ghost struct RawScoreView {
    pub ticks_per_quarter: Option<u16>,
    pub tracks: Seq<Seq<RawEvent>>,
}

impl View for RawScore {
    type V = RawScoreView;

    open spec fn view(&self) -> RawScoreView {
        RawScoreView {
            ticks_per_quarter: self.ticks_per_quarter,
            tracks: tracks_view(self.tracks),
        }
    }
}

/// The field widths the timeline format guarantees: 28-bit deltas, 7-bit
/// note numbers and velocities, 24-bit tempos.
pub open spec fn raw_event_ok(e: RawEvent) -> bool {
    &&& e.delta < 0x1000_0000
    &&& (e.kind matches RawKind::NoteOn { key, vel } ==> key < 128 && vel < 128)
    &&& (e.kind matches RawKind::NoteOff { key } ==> key < 128)
    &&& (e.kind matches RawKind::Tempo { us_per_quarter } ==> us_per_quarter < 0x100_0000)
}

/// Every event of every track is within the format's field widths.
pub open spec fn raw_tracks_ok(tracks: Seq<Seq<RawEvent>>) -> bool {
    forall|i: int, j: int|
        0 <= i < tracks.len() && 0 <= j < tracks[i].len() ==> raw_event_ok(
            #[trigger] tracks[i][j],
        )
}

pub open spec fn raw_score_ok(rv: RawScoreView) -> bool {
    &&& (rv.ticks_per_quarter matches Some(t) ==> t < 0x8000)
    &&& raw_tracks_ok(rv.tracks)
}

/// What parsing a timeline yields: `None` on malformed bytes, otherwise
/// the resolution and the per-track events.  Parsing is a pure function of
/// the bytes, so its result carries a name that the loader's contracts
/// build on.
pub uninterp spec fn smf_parse(data: Seq<u8>) -> Option<RawScoreView>;

/// Relies on midly::Smf::parse: it reads the standard multi-track timeline
/// format from the bytes alone, and its track events carry 28-bit deltas,
/// 7-bit note numbers and velocities and 24-bit tempo values, so every
/// field fits the stated bounds.
#[verifier::external_body]
fn parse_tracks(data: &[u8]) -> (r: Result<Vec<Vec<RawEvent>>, String>)
    ensures
        r is Ok <==> smf_parse(data@) is Some,
        r is Ok ==> tracks_view(r->Ok_0) == smf_parse(data@)->0.tracks,
        r is Ok ==> raw_tracks_ok(smf_parse(data@)->0.tracks),
{
    let smf = Smf::parse(data).map_err(|e| e.to_string())?;
    Ok(smf.tracks.iter().map(|t| t.iter().map(|e| RawEvent {
        delta: e.delta.as_int(),
        kind: match e.kind {
            TrackEventKind::Midi { message: MidiMessage::NoteOn { key, vel }, .. } =>
                RawKind::NoteOn { key: key.as_int(), vel: vel.as_int() },
            TrackEventKind::Midi { message: MidiMessage::NoteOff { key, .. }, .. } =>
                RawKind::NoteOff { key: key.as_int() },
            TrackEventKind::Meta(MetaMessage::Tempo(us)) =>
                RawKind::Tempo { us_per_quarter: us.as_int() },
            _ => RawKind::Other,
        },
    }).collect()).collect())
}

/// Relies on midly::Smf::parse and its header: a metrical timing carries
/// the 15-bit ticks-per-quarter resolution; any other timing kind, and
/// any malformed input, yields nothing.
#[verifier::external_body]
fn parse_tpq(data: &[u8]) -> (r: Option<u16>)
    ensures
        smf_parse(data@) is Some ==> r == smf_parse(data@)->0.ticks_per_quarter,
        r matches Some(t) ==> t < 0x8000,
{
    let smf = Smf::parse(data).ok()?;
    match smf.header.timing { Timing::Metrical(t) => Some(t.as_int()), _ => None }
}

/// The resolution the loader works with: the header's metrical value, or
/// 480 when the header carries another timing kind or the degenerate
/// value 0.
pub open spec fn effective_tpq(rv: RawScoreView) -> int {
    match rv.ticks_per_quarter {
        Some(t) => if t == 0 {
            DEFAULT_TICKS_PER_QUARTER as int
        } else {
            t as int
        },
        None => DEFAULT_TICKS_PER_QUARTER as int,
    }
}

/// Tempo changes of one track, in file order, each at its absolute tick;
/// `base` is the tick the track has reached before these events.
pub open spec fn track_tempos(track: Seq<RawEvent>, base: int) -> Seq<TempoChange>
    decreases track.len(),
{
    if track.len() == 0 {
        Seq::<TempoChange>::empty()
    } else {
        let t = base + track[0].delta;
        let rest = track_tempos(track.skip(1), t);
        match track[0].kind {
            RawKind::Tempo { us_per_quarter } => seq![
                TempoChange { tick: t as u128, us_per_quarter },
            ] + rest,
            _ => rest,
        }
    }
}

/// Tempo changes of all tracks, track by track.
pub open spec fn tracks_tempos(tracks: Seq<Seq<RawEvent>>) -> Seq<TempoChange>
    decreases tracks.len(),
{
    if tracks.len() == 0 {
        Seq::<TempoChange>::empty()
    } else {
        tracks_tempos(tracks.drop_last()) + track_tempos(tracks.last(), 0)
    }
}

/// The timeline's tempo map: every change of every track, sorted by tick.
pub open spec fn tempo_map_of(rv: RawScoreView) -> Seq<TempoChange> {
    tempo_sort_spec(tracks_tempos(rv.tracks))
}

/// Note events of one track, each stamped with the milliseconds of its
/// absolute tick under the tempo map; a note-on with velocity 0 becomes a
/// note-off, as the format's convention has it.
pub open spec fn track_note_events(
    track: Seq<RawEvent>,
    base: int,
    tm: Seq<TempoChange>,
    tpq: int,
) -> Seq<TimedEvent>
    decreases track.len(),
{
    if track.len() == 0 {
        Seq::<TimedEvent>::empty()
    } else {
        let t = base + track[0].delta;
        let ms = ticks_to_ms_spec(tm, tpq, t) as u64;
        let head = match track[0].kind {
            RawKind::NoteOn { key, vel } => seq![
                TimedEvent {
                    time_ms: ms,
                    event_type: if vel > 0 {
                        EventType::NoteOn
                    } else {
                        EventType::NoteOff
                    },
                    note: key,
                },
            ],
            RawKind::NoteOff { key } => seq![
                TimedEvent { time_ms: ms, event_type: EventType::NoteOff, note: key },
            ],
            _ => Seq::<TimedEvent>::empty(),
        };
        head + track_note_events(track.skip(1), t, tm, tpq)
    }
}

/// Note events of all tracks, track by track, before the final sort.
pub open spec fn tracks_note_events(
    tracks: Seq<Seq<RawEvent>>,
    tm: Seq<TempoChange>,
    tpq: int,
) -> Seq<TimedEvent>
    decreases tracks.len(),
{
    if tracks.len() == 0 {
        Seq::<TimedEvent>::empty()
    } else {
        tracks_note_events(tracks.drop_last(), tm, tpq) + track_note_events(
            tracks.last(),
            0,
            tm,
            tpq,
        )
    }
}

/// The loaded timeline: every track's note events merged and sorted
/// ascending by timestamp, simultaneous events keeping track order.
pub open spec fn loaded_events(rv: RawScoreView) -> Seq<TimedEvent> {
    event_sort_spec(tracks_note_events(rv.tracks, tempo_map_of(rv), effective_tpq(rv)))
}

/// The tick a track ends on: the sum of all its deltas.
pub open spec fn track_end_tick(track: Seq<RawEvent>, base: int) -> int
    decreases track.len(),
{
    if track.len() == 0 {
        base
    } else {
        track_end_tick(track.skip(1), base + track[0].delta)
    }
}

/// The largest end tick over all tracks, 0 with no tracks.
pub open spec fn tracks_max_tick(tracks: Seq<Seq<RawEvent>>) -> int
    decreases tracks.len(),
{
    if tracks.len() == 0 {
        0
    } else {
        let rest = tracks_max_tick(tracks.drop_last());
        let this = track_end_tick(tracks.last(), 0);
        if this > rest {
            this
        } else {
            rest
        }
    }
}

/// Duration of the whole timeline in milliseconds: the time of the
/// largest end tick over all tracks.
pub open spec fn timeline_duration_spec(rv: RawScoreView) -> int {
    ticks_to_ms_spec(tempo_map_of(rv), effective_tpq(rv), tracks_max_tick(rv.tracks))
}

/// The resolution the loader works with, executable.
fn tpq_of(raw: &RawScore) -> (r: u16)
    ensures
        r == effective_tpq(raw@),
        r >= 1,
{
    match raw.ticks_per_quarter {
        Some(t) => if t == 0 {
            DEFAULT_TICKS_PER_QUARTER
        } else {
            t
        },
        None => DEFAULT_TICKS_PER_QUARTER,
    }
}

/// Every track's tempo changes at their absolute ticks, in file order.
fn collect_tempos(raw: &RawScore) -> (r: Vec<TempoChange>)
    requires
        raw_score_ok(raw@),
    ensures
        r@ == tracks_tempos(raw@.tracks),
        tempo_bounded(r@),
{
    let mut out: Vec<TempoChange> = Vec::new();
    let mut ti: usize = 0;
    proof {
        assert(raw@.tracks.take(0) =~= Seq::<Seq<RawEvent>>::empty());
    }
    while ti < raw.tracks.len()
        invariant
            raw_score_ok(raw@),
            ti <= raw.tracks@.len(),
            raw@.tracks.len() == raw.tracks@.len(),
            out@ == tracks_tempos(raw@.tracks.take(ti as int)),
            tempo_bounded(out@),
        decreases raw.tracks@.len() - ti,
    {
        let ghost prefix = out@;
        let track: &Vec<RawEvent> = &raw.tracks[ti];
        proof {
            assert(raw@.tracks[ti as int] == track@);
        }
        let mut tick: u128 = 0;
        let mut ei: usize = 0;
        proof {
            assert(track@.skip(0) =~= track@);
        }
        while ei < track.len()
            invariant
                raw_score_ok(raw@),
                ti < raw.tracks@.len(),
                raw@.tracks.len() == raw.tracks@.len(),
                raw@.tracks[ti as int] == track@,
                ei <= track@.len(),
                tick <= (ei as int) * 0x1000_0000,
                ei <= 0xFFFF_FFFF_FFFF_FFFF,
                out@ + track_tempos(track@.skip(ei as int), tick as int) == prefix
                    + track_tempos(track@, 0),
                tempo_bounded(out@),
            decreases track@.len() - ei,
        {
            let e = track[ei];
            proof {
                assert(raw_event_ok(raw@.tracks[ti as int][ei as int]));
                assert((ei as int + 1) * 0x1000_0000 <= 0x1_0000_0000_0000_0000 * 0x1000_0000)
                    by (nonlinear_arith)
                    requires
                        0 <= ei <= 0xFFFF_FFFF_FFFF_FFFF,
                ;
                assert((ei as int) * 0x1000_0000 + 0x1000_0000 == (ei as int + 1) * 0x1000_0000)
                    by (nonlinear_arith);
                assert(track@.skip(ei as int).skip(1) =~= track@.skip(ei as int + 1));
                assert(track@.skip(ei as int)[0] == track@[ei as int]);
            }
            tick = tick + e.delta as u128;
            if let RawKind::Tempo { us_per_quarter } = e.kind {
                let tc = TempoChange { tick, us_per_quarter };
                proof {
                    assert((out@ + seq![tc]) + track_tempos(
                        track@.skip(ei as int + 1),
                        tick as int,
                    ) =~= out@ + (seq![tc] + track_tempos(
                        track@.skip(ei as int + 1),
                        tick as int,
                    )));
                }
                out.push(tc);
            }
            ei = ei + 1;
        }
        proof {
            assert(track@.skip(track@.len() as int) =~= Seq::<RawEvent>::empty());
            assert(out@ + Seq::<TempoChange>::empty() =~= out@);
            assert(raw@.tracks.take(ti as int + 1).drop_last() =~= raw@.tracks.take(ti as int));
            assert(raw@.tracks.take(ti as int + 1).last() == track@);
        }
        ti = ti + 1;
    }
    proof {
        assert(raw@.tracks.take(raw@.tracks.len() as int) =~= raw@.tracks);
    }
    out
}

/// Every track's note events stamped with milliseconds, in file order.
fn collect_events(raw: &RawScore, tm: &Vec<TempoChange>, tpq: u16) -> (r: Vec<TimedEvent>)
    requires
        raw_score_ok(raw@),
        tempo_sorted(tm@),
        tempo_bounded(tm@),
        tpq >= 1,
    ensures
        r@ == tracks_note_events(raw@.tracks, tm@, tpq as int),
{
    let mut out: Vec<TimedEvent> = Vec::new();
    let mut ti: usize = 0;
    proof {
        assert(raw@.tracks.take(0) =~= Seq::<Seq<RawEvent>>::empty());
    }
    while ti < raw.tracks.len()
        invariant
            raw_score_ok(raw@),
            tempo_sorted(tm@),
            tempo_bounded(tm@),
            tpq >= 1,
            ti <= raw.tracks@.len(),
            raw@.tracks.len() == raw.tracks@.len(),
            out@ == tracks_note_events(raw@.tracks.take(ti as int), tm@, tpq as int),
        decreases raw.tracks@.len() - ti,
    {
        let ghost prefix = out@;
        let track: &Vec<RawEvent> = &raw.tracks[ti];
        proof {
            assert(raw@.tracks[ti as int] == track@);
        }
        let mut tick: u128 = 0;
        let mut ei: usize = 0;
        proof {
            assert(track@.skip(0) =~= track@);
        }
        while ei < track.len()
            invariant
                raw_score_ok(raw@),
                tempo_sorted(tm@),
                tempo_bounded(tm@),
                tpq >= 1,
                ti < raw.tracks@.len(),
                raw@.tracks.len() == raw.tracks@.len(),
                raw@.tracks[ti as int] == track@,
                ei <= track@.len(),
                tick <= (ei as int) * 0x1000_0000,
                ei <= 0xFFFF_FFFF_FFFF_FFFF,
                out@ + track_note_events(track@.skip(ei as int), tick as int, tm@, tpq as int)
                    == prefix + track_note_events(track@, 0, tm@, tpq as int),
            decreases track@.len() - ei,
        {
            let e = track[ei];
            proof {
                assert(raw_event_ok(raw@.tracks[ti as int][ei as int]));
                assert((ei as int + 1) * 0x1000_0000 <= 0x1_0000_0000_0000_0000 * 0x1000_0000)
                    by (nonlinear_arith)
                    requires
                        0 <= ei <= 0xFFFF_FFFF_FFFF_FFFF,
                ;
                assert((ei as int) * 0x1000_0000 + 0x1000_0000 == (ei as int + 1) * 0x1000_0000)
                    by (nonlinear_arith);
                assert(track@.skip(ei as int).skip(1) =~= track@.skip(ei as int + 1));
                assert(track@.skip(ei as int)[0] == track@[ei as int]);
            }
            tick = tick + e.delta as u128;
            match e.kind {
                RawKind::NoteOn { key, vel } => {
                    let ms = ticks_to_ms(tm, tpq, tick);
                    let ev = TimedEvent {
                        time_ms: ms,
                        event_type: if vel > 0 {
                            EventType::NoteOn
                        } else {
                            EventType::NoteOff
                        },
                        note: key,
                    };
                    proof {
                        assert((out@ + seq![ev]) + track_note_events(
                            track@.skip(ei as int + 1),
                            tick as int,
                            tm@,
                            tpq as int,
                        ) =~= out@ + (seq![ev] + track_note_events(
                            track@.skip(ei as int + 1),
                            tick as int,
                            tm@,
                            tpq as int,
                        )));
                    }
                    out.push(ev);
                },
                RawKind::NoteOff { key } => {
                    let ms = ticks_to_ms(tm, tpq, tick);
                    let ev = TimedEvent { time_ms: ms, event_type: EventType::NoteOff, note: key };
                    proof {
                        assert((out@ + seq![ev]) + track_note_events(
                            track@.skip(ei as int + 1),
                            tick as int,
                            tm@,
                            tpq as int,
                        ) =~= out@ + (seq![ev] + track_note_events(
                            track@.skip(ei as int + 1),
                            tick as int,
                            tm@,
                            tpq as int,
                        )));
                    }
                    out.push(ev);
                },
                _ => {
                },
            }
            ei = ei + 1;
        }
        proof {
            assert(track@.skip(track@.len() as int) =~= Seq::<RawEvent>::empty());
            assert(out@ + Seq::<TimedEvent>::empty() =~= out@);
            assert(raw@.tracks.take(ti as int + 1).drop_last() =~= raw@.tracks.take(ti as int));
            assert(raw@.tracks.take(ti as int + 1).last() == track@);
        }
        ti = ti + 1;
    }
    proof {
        assert(raw@.tracks.take(raw@.tracks.len() as int) =~= raw@.tracks);
    }
    out
}

/// The largest end tick over all tracks, executable.
fn compute_max_tick(raw: &RawScore) -> (r: u128)
    requires
        raw_score_ok(raw@),
    ensures
        r == tracks_max_tick(raw@.tracks),
        r <= TICK_LIMIT,
{
    let mut max_tick: u128 = 0;
    let mut ti: usize = 0;
    proof {
        assert(raw@.tracks.take(0) =~= Seq::<Seq<RawEvent>>::empty());
    }
    while ti < raw.tracks.len()
        invariant
            raw_score_ok(raw@),
            ti <= raw.tracks@.len(),
            raw@.tracks.len() == raw.tracks@.len(),
            max_tick == tracks_max_tick(raw@.tracks.take(ti as int)),
            max_tick <= TICK_LIMIT,
        decreases raw.tracks@.len() - ti,
    {
        let track: &Vec<RawEvent> = &raw.tracks[ti];
        proof {
            assert(raw@.tracks[ti as int] == track@);
        }
        let mut tick: u128 = 0;
        let mut ei: usize = 0;
        proof {
            assert(track@.skip(0) =~= track@);
        }
        while ei < track.len()
            invariant
                raw_score_ok(raw@),
                ti < raw.tracks@.len(),
                raw@.tracks.len() == raw.tracks@.len(),
                raw@.tracks[ti as int] == track@,
                ei <= track@.len(),
                tick <= (ei as int) * 0x1000_0000,
                ei <= 0xFFFF_FFFF_FFFF_FFFF,
                track_end_tick(track@.skip(ei as int), tick as int) == track_end_tick(track@, 0),
            decreases track@.len() - ei,
        {
            let e = track[ei];
            proof {
                assert(raw_event_ok(raw@.tracks[ti as int][ei as int]));
                assert((ei as int + 1) * 0x1000_0000 <= 0x1_0000_0000_0000_0000 * 0x1000_0000)
                    by (nonlinear_arith)
                    requires
                        0 <= ei <= 0xFFFF_FFFF_FFFF_FFFF,
                ;
                assert((ei as int) * 0x1000_0000 + 0x1000_0000 == (ei as int + 1) * 0x1000_0000)
                    by (nonlinear_arith);
                assert(track@.skip(ei as int).skip(1) =~= track@.skip(ei as int + 1));
                assert(track@.skip(ei as int)[0] == track@[ei as int]);
            }
            tick = tick + e.delta as u128;
            ei = ei + 1;
        }
        proof {
            assert(track@.skip(track@.len() as int) =~= Seq::<RawEvent>::empty());
            assert(raw@.tracks.take(ti as int + 1).drop_last() =~= raw@.tracks.take(ti as int));
            assert(raw@.tracks.take(ti as int + 1).last() == track@);
        }
        if tick > max_tick {
            max_tick = tick;
        }
        ti = ti + 1;
    }
    proof {
        assert(raw@.tracks.take(raw@.tracks.len() as int) =~= raw@.tracks);
    }
    max_tick
}

/// Build the tempo-corrected score from an already parsed timeline: the
/// merged, sorted event list, its duration, and the transpose whose score
/// over the events is minimal (smallest candidate on ties).
pub fn load_from_raw(raw: &RawScore) -> (r: MidiData)
    requires
        raw_score_ok(raw@),
    ensures
        r.events@ == loaded_events(raw@),
        r.duration_ms == (if loaded_events(raw@).len() == 0 {
            0
        } else {
            loaded_events(raw@).last().time_ms
        }),
        -12 <= r.transpose <= 12,
        forall|s: int|
            -12 <= s <= 12 ==> transpose_score(loaded_events(raw@), r.transpose as int)
                <= #[trigger] transpose_score(loaded_events(raw@), s),
        forall|s: int|
            -12 <= s < r.transpose ==> transpose_score(loaded_events(raw@), r.transpose as int)
                < #[trigger] transpose_score(loaded_events(raw@), s),
        r.wf(),
{
    let tpq = tpq_of(raw);
    let tempos = collect_tempos(raw);
    let tm = sort_tempo_changes(tempos);
    proof {
        crate::sorting::lemma_tempo_sort_bounded(tracks_tempos(raw@.tracks));
    }
    let collected = collect_events(raw, &tm, tpq);
    let events = sort_timed_events(collected);
    let duration_ms = if events.len() == 0 {
        0
    } else {
        events[events.len() - 1].time_ms
    };
    let transpose = detect_best_transpose(&events);
    MidiData { events, duration_ms, transpose }
}

/// Parse the raw bytes of a multi-track note timeline and build the
/// tempo-corrected score; malformed bytes are reported, not mended.
pub fn load_midi(data: &[u8]) -> (r: Result<MidiData, String>)
    ensures
        r is Ok <==> smf_parse(data@) is Some,
        r is Ok ==> {
            let rv = smf_parse(data@)->0;
            let d = r->Ok_0;
            &&& d.events@ == loaded_events(rv)
            &&& d.duration_ms == (if loaded_events(rv).len() == 0 {
                0
            } else {
                loaded_events(rv).last().time_ms
            })
            &&& forall|s: int|
                -12 <= s <= 12 ==> transpose_score(loaded_events(rv), d.transpose as int)
                    <= #[trigger] transpose_score(loaded_events(rv), s)
            &&& forall|s: int|
                -12 <= s < d.transpose ==> transpose_score(loaded_events(rv), d.transpose as int)
                    < #[trigger] transpose_score(loaded_events(rv), s)
            &&& d.wf()
        },
{
    let tracks = match parse_tracks(data) {
        Ok(tracks) => tracks,
        Err(e) => {
            return Err(e);
        },
    };
    let ticks_per_quarter = parse_tpq(data);
    let raw = RawScore { ticks_per_quarter, tracks };
    proof {
        assert(raw@ == smf_parse(data@)->0);
    }
    Ok(load_from_raw(&raw))
}

/// Duration in milliseconds of the timeline in the raw bytes, from the
/// largest end tick over all tracks, without building the event list.
pub fn get_midi_duration(data: &[u8]) -> (r: Result<u64, String>)
    ensures
        r is Ok <==> smf_parse(data@) is Some,
        r is Ok ==> r->Ok_0 == timeline_duration_spec(smf_parse(data@)->0),
{
    let tracks = match parse_tracks(data) {
        Ok(tracks) => tracks,
        Err(e) => {
            return Err(e);
        },
    };
    let ticks_per_quarter = parse_tpq(data);
    let raw = RawScore { ticks_per_quarter, tracks };
    proof {
        assert(raw@ == smf_parse(data@)->0);
    }
    let tpq = tpq_of(&raw);
    let tempos = collect_tempos(&raw);
    let tm = sort_tempo_changes(tempos);
    proof {
        crate::sorting::lemma_tempo_sort_bounded(tracks_tempos(raw@.tracks));
    }
    let max_tick = compute_max_tick(&raw);
    Ok(ticks_to_ms(&tm, tpq, max_tick))
}

/// One produced entry for each note event of the raw tracks.
pub open spec fn track_note_count(track: Seq<RawEvent>) -> int
    decreases track.len(),
{
    if track.len() == 0 {
        0
    } else {
        (match track[0].kind {
            RawKind::NoteOn { .. } => 1int,
            RawKind::NoteOff { .. } => 1int,
            _ => 0int,
        }) + track_note_count(track.skip(1))
    }
}

pub open spec fn tracks_note_count(tracks: Seq<Seq<RawEvent>>) -> int
    decreases tracks.len(),
{
    if tracks.len() == 0 {
        0
    } else {
        tracks_note_count(tracks.drop_last()) + track_note_count(tracks.last())
    }
}

proof fn lemma_track_events_len(track: Seq<RawEvent>, base: int, tm: Seq<TempoChange>, tpq: int)
    ensures
        track_note_events(track, base, tm, tpq).len() == track_note_count(track),
    decreases track.len(),
{
    if track.len() != 0 {
        lemma_track_events_len(track.skip(1), base + track[0].delta, tm, tpq);
    }
}

proof fn lemma_tracks_events_len(tracks: Seq<Seq<RawEvent>>, tm: Seq<TempoChange>, tpq: int)
    ensures
        tracks_note_events(tracks, tm, tpq).len() == tracks_note_count(tracks),
    decreases tracks.len(),
{
    if tracks.len() != 0 {
        lemma_tracks_events_len(tracks.drop_last(), tm, tpq);
        lemma_track_events_len(tracks.last(), 0, tm, tpq);
    }
}

/// The produced event list has exactly one entry per note event of the
/// timeline — for N matched note-on/note-off pairs, exactly 2N entries —
/// sorted ascending by timestamp, and it is a permutation of the events
/// the tracks produced: sorting loses nothing and invents nothing.
pub proof fn lemma_loaded_events_shape(rv: RawScoreView)
    ensures
        loaded_events(rv).len() == tracks_note_count(rv.tracks),
        events_sorted(loaded_events(rv)),
        loaded_events(rv).to_multiset() == tracks_note_events(
            rv.tracks,
            tempo_map_of(rv),
            effective_tpq(rv),
        ).to_multiset(),
{
    lemma_tracks_events_len(rv.tracks, tempo_map_of(rv), effective_tpq(rv));
    lemma_event_sort_sorted(tracks_note_events(rv.tracks, tempo_map_of(rv), effective_tpq(rv)));
    crate::sorting::lemma_event_sort_multiset(
        tracks_note_events(rv.tracks, tempo_map_of(rv), effective_tpq(rv)),
    );
}

} // verus!
