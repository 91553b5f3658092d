//! The piano roll: one note track per instrument, the loop and transport
//! flags, and the note edits (toggle, delete in a region, copy, paste) with
//! the audio work they call for.
use vstd::prelude::*;

use crate::action::{AudioEffect, AudioSideEffect, DispatchResult};
use crate::state::{AppState, ClipboardContents, InstrumentId};

verus! {

/// A note of a track. Its trigger probability is not part of this model.
#[derive(Clone, Copy, PartialEq, Eq, Structural, Debug)]
pub struct Note {
    pub tick: u32,
    pub duration: u32,
    pub pitch: u8,
    pub velocity: u8,
}

/// The notes of one instrument.
#[derive(Clone, Debug)]
pub struct Track {
    pub instrument_id: InstrumentId,
    pub notes: Vec<Note>,
}

/// A copied note, relative to the corner of the copied region.
#[derive(Clone, Copy, PartialEq, Eq, Structural, Debug)]
pub struct ClipboardNote {
    pub tick_offset: u32,
    pub pitch_offset: i16,
    pub duration: u32,
    pub velocity: u8,
}

/// A time signature: beats per bar over the beat unit.
#[derive(Clone, Copy, PartialEq, Eq, Structural, Debug)]
pub struct TimeSignature {
    pub beats: u8,
    pub unit: u8,
}

/// Piano roll state. Swing and other continuous settings are not part of this model.
#[derive(Clone, Debug)]
pub struct PianoRollState {
    pub tracks: Vec<Track>,
    pub looping: bool,
    pub loop_start: u32,
    pub loop_end: u32,
    pub playing: bool,
    pub recording: bool,
    pub time_signature: TimeSignature,
    /// Where playback starts from.
    pub playhead: u32,
}

/// What an export writes.
#[derive(Clone, Copy, PartialEq, Eq, Structural, Debug)]
pub enum ExportKind {
    /// The master output to one file.
    MasterBounce,
    /// Each instrument to a file of its own.
    StemExport,
}

/// A bounce or stem export in progress. Its file paths are not part of this model.
#[derive(Clone, Copy, PartialEq, Eq, Structural, Debug)]
pub struct PendingExport {
    pub kind: ExportKind,
    pub was_looping: bool,
}

/// A render of one instrument in progress. Its file path is not part of this model.
#[derive(Clone, Copy, PartialEq, Eq, Structural, Debug)]
pub struct PendingRender {
    pub instrument_id: InstrumentId,
    pub was_looping: bool,
}

/// Playback as the audio thread last reported it. The tempo is not part of this model.
#[derive(Clone, Copy, PartialEq, Eq, Structural, Debug)]
pub struct AudioState {
    pub playing: bool,
    pub playhead: u32,
    /// The last timing summary of the audio thread.
    pub telemetry_avg_tick_us: u32,
    pub telemetry_max_tick_us: u32,
    pub telemetry_p95_tick_us: u32,
    pub telemetry_overruns: u64,
    pub telemetry_osc_queue_depth: usize,
}

/// Background work in progress.
#[derive(Clone, Copy, PartialEq, Eq, Structural, Debug)]
pub struct IoState {
    pub pending_export: Option<PendingExport>,
    pub pending_render: Option<PendingRender>,
}

/// Ticks per beat.
pub const TICKS_PER_BEAT: u32 = 480;

/// No two notes share a pitch and a tick.
pub open spec fn notes_distinct(notes: Seq<Note>) -> bool {
    forall|i: int, j: int| 0 <= i < j < notes.len()
        ==> !(notes[i].pitch == notes[j].pitch && notes[i].tick == notes[j].tick)
}

/// Whether a note sits at this pitch and tick.
pub open spec fn has_note_at(notes: Seq<Note>, pitch: u8, tick: u32) -> bool {
    exists|i: int| 0 <= i < notes.len() && notes[i].pitch == pitch && notes[i].tick == tick
}

/// The notes without the ones at this pitch and tick.
pub open spec fn notes_without(notes: Seq<Note>, pitch: u8, tick: u32) -> Seq<Note> {
    notes.filter(|n: Note| !(n.pitch == pitch && n.tick == tick))
}

/// `toggle_note`: remove the note at the pitch and tick, or add one there.
pub open spec fn toggled_notes(notes: Seq<Note>, n: Note) -> Seq<Note> {
    if has_note_at(notes, n.pitch, n.tick) {
        notes_without(notes, n.pitch, n.tick)
    } else {
        notes.push(n)
    }
}

/// Whether a note lies in the region: ticks `start..end`, pitches `lo..=hi`.
pub open spec fn in_region(n: Note, start: u32, end: u32, lo: u8, hi: u8) -> bool {
    start <= n.tick < end && lo <= n.pitch <= hi
}

/// The notes outside the region.
pub open spec fn notes_outside(notes: Seq<Note>, start: u32, end: u32, lo: u8, hi: u8) -> Seq<Note> {
    notes.filter(|n: Note| !in_region(n, start, end, lo, hi))
}

/// The clipboard entries of the notes in the region, in track order.
pub open spec fn copied_notes(notes: Seq<Note>, start: u32, end: u32, lo: u8, hi: u8) -> Seq<ClipboardNote>
    decreases notes.len(),
{
    if notes.len() == 0 {
        Seq::empty()
    } else {
        let prev = copied_notes(notes.drop_last(), start, end, lo, hi);
        let n = notes.last();
        if in_region(n, start, end, lo, hi) {
            prev.push(ClipboardNote {
                tick_offset: (n.tick - start) as u32,
                pitch_offset: (n.pitch - lo) as i16,
                duration: n.duration,
                velocity: n.velocity,
            })
        } else {
            prev
        }
    }
}

/// Whether a note starts in the time span `[start, end)` with a pitch in
/// `lo..=hi`: a note at `end` starts after the span.
pub open spec fn starts_within(n: Note, start: u32, end: u32, lo: u8, hi: u8) -> bool {
    n.tick >= start && end > n.tick && n.pitch >= lo && hi >= n.pitch
}

/// Copying a region copies exactly the notes that start within it, a note
/// at the region's end tick excluded: there are as many clipboard notes as
/// such notes, and each lies before the end tick and within the pitches.
pub proof fn law_copy_region_is_half_open(notes: Seq<Note>, start: u32, end: u32, lo: u8, hi: u8)
    ensures
        copied_notes(notes, start, end, lo, hi).len()
            == notes.filter(|n: Note| starts_within(n, start, end, lo, hi)).len(),
        forall|i: int| 0 <= i < copied_notes(notes, start, end, lo, hi).len() ==> {
            let c = #[trigger] copied_notes(notes, start, end, lo, hi)[i];
            start + c.tick_offset < end && 0 <= c.pitch_offset && lo + c.pitch_offset <= hi
        },
    decreases notes.len(),
{
    if notes.len() > 0 {
        let rest = notes.drop_last();
        let n = notes.last();
        law_copy_region_is_half_open(rest, start, end, lo, hi);
        let p = |m: Note| starts_within(m, start, end, lo, hi);
        assert(rest.push(n) == notes);
        rest.lemma_filter_push(n, p);
        let a = copied_notes(rest, start, end, lo, hi);
        let x = copied_notes(notes, start, end, lo, hi);
        assert forall|i: int| 0 <= i < x.len() implies {
            let c = #[trigger] x[i];
            start + c.tick_offset < end && 0 <= c.pitch_offset && lo + c.pitch_offset <= hi
        } by {
            if i < a.len() {
                assert(x[i] == a[i]);
            }
        }
    }
}

/// Deleting a region keeps exactly the notes that do not start within it: a
/// note at the region's end tick, or before its start, or outside its
/// pitches, stays; no kept note starts within it; every kept note was there.
pub proof fn law_delete_region_is_half_open(notes: Seq<Note>, start: u32, end: u32, lo: u8, hi: u8)
    ensures
        forall|i: int| 0 <= i < notes.len() && !starts_within(notes[i], start, end, lo, hi)
            ==> #[trigger] notes_outside(notes, start, end, lo, hi).contains(notes[i]),
        forall|i: int| 0 <= i < notes_outside(notes, start, end, lo, hi).len() ==> {
            let n = #[trigger] notes_outside(notes, start, end, lo, hi)[i];
            !starts_within(n, start, end, lo, hi) && notes.contains(n)
        },
{
    let p = |m: Note| !in_region(m, start, end, lo, hi);
    let kept = notes_outside(notes, start, end, lo, hi);
    assert forall|i: int| 0 <= i < notes.len() && !starts_within(notes[i], start, end, lo, hi)
        implies #[trigger] notes_outside(notes, start, end, lo, hi).contains(notes[i]) by {
        notes.lemma_filter_contains(p, i);
    }
    assert forall|i: int| 0 <= i < kept.len() implies {
        let n = #[trigger] kept[i];
        !starts_within(n, start, end, lo, hi) && notes.contains(n)
    } by {
        notes.lemma_filter_pred(p, i);
        assert(kept.contains(kept[i]));
        notes.lemma_filter_contains_rev(p, kept[i]);
    }
}

/// The notes after pasting `clip` at the anchor, in clipboard order: a note
/// whose pitch leaves `0..=127`, or that lands where a note already is, is
/// skipped.
pub open spec fn pasted_notes(notes: Seq<Note>, anchor_tick: u32, anchor_pitch: u8, clip: Seq<ClipboardNote>) -> Seq<Note>
    decreases clip.len(),
{
    if clip.len() == 0 {
        notes
    } else {
        let prev = pasted_notes(notes, anchor_tick, anchor_pitch, clip.drop_last());
        let c = clip.last();
        let pitch = anchor_pitch + c.pitch_offset;
        let tick = anchor_tick + c.tick_offset;
        if 0 <= pitch <= 127 && !has_note_at(prev, pitch as u8, tick as u32) {
            prev.push(Note { tick: tick as u32, duration: c.duration, pitch: pitch as u8, velocity: c.velocity })
        } else {
            prev
        }
    }
}

/// Time signature after `CycleTimeSig`: 4/4, 3/4, 6/8, 5/4, 7/8 and back to
/// 4/4; any other goes to 4/4.
pub open spec fn next_time_sig(ts: TimeSignature) -> TimeSignature {
    let (b, u) = (ts.beats, ts.unit);
    if b == 4 && u == 4 {
        TimeSignature { beats: 3, unit: 4 }
    } else if b == 3 && u == 4 {
        TimeSignature { beats: 6, unit: 8 }
    } else if b == 6 && u == 8 {
        TimeSignature { beats: 5, unit: 4 }
    } else if b == 5 && u == 4 {
        TimeSignature { beats: 7, unit: 8 }
    } else {
        TimeSignature { beats: 4, unit: 4 }
    }
}

impl PianoRollState {
    /// Tracks hold notes with distinct pitch and tick.
    pub open spec fn wf(&self) -> bool {
        forall|t: int| 0 <= t < self.tracks@.len() ==> notes_distinct((#[trigger] self.tracks@[t]).notes@)
    }

    /// No tracks, looping over the first bar, stopped, 4/4.
    pub fn new() -> (s: Self)
        ensures
            s.wf(),
            s.tracks@.len() == 0,
            s.looping,
            s.loop_start == 0,
            s.loop_end == 4 * TICKS_PER_BEAT,
            !s.playing,
            !s.recording,
            s.time_signature == (TimeSignature { beats: 4, unit: 4 }),
            s.playhead == 0,
    {
        PianoRollState {
            tracks: Vec::new(),
            looping: true,
            loop_start: 0,
            loop_end: 4 * TICKS_PER_BEAT,
            playing: false,
            recording: false,
            time_signature: TimeSignature { beats: 4, unit: 4 },
            playhead: 0,
        }
    }

    /// Append an empty track for an instrument.
    pub fn add_track(&mut self, instrument_id: InstrumentId)
        ensures
            old(self).wf() ==> final(self).wf(),
            track_appended(*old(self), *final(self), instrument_id),
    {
        self.tracks.push(Track { instrument_id, notes: Vec::new() });
        assert(self.tracks@.drop_last() =~= old(self).tracks@);
    }

    /// Remove the track of an instrument.
    pub fn remove_track(&mut self, instrument_id: InstrumentId)
        ensures
            old(self).wf() ==> final(self).wf(),
            track_removed(*old(self), *final(self), instrument_id),
    {
        let mut k: usize = 0;
        while k < self.tracks.len()
            invariant
                k <= self.tracks@.len(),
                *self == *old(self),
                forall|j: int| 0 <= j < k ==> self.tracks@[j].instrument_id != instrument_id,
            decreases self.tracks@.len() - k,
        {
            if self.tracks[k].instrument_id == instrument_id {
                self.tracks.remove(k);
                assert forall|t: int| old(self).wf() && 0 <= t < self.tracks@.len()
                    implies notes_distinct((#[trigger] self.tracks@[t]).notes@) by {
                    assert(self.tracks@[t] == old(self).tracks@[if t < k { t } else { t + 1 }]);
                }
                return;
            }
            k = k + 1;
        }
    }
}

/// The transport and loop settings of two piano rolls agree.
pub open spec fn same_settings(o: PianoRollState, n: PianoRollState) -> bool {
    &&& n.looping == o.looping
    &&& n.loop_start == o.loop_start
    &&& n.loop_end == o.loop_end
    &&& n.playing == o.playing
    &&& n.recording == o.recording
    &&& n.time_signature == o.time_signature
    &&& n.playhead == o.playhead
}

/// `n` is `o` with an empty track for `id` appended.
pub open spec fn track_appended(o: PianoRollState, n: PianoRollState, id: InstrumentId) -> bool {
    &&& same_settings(o, n)
    &&& n.tracks@.len() == o.tracks@.len() + 1
    &&& n.tracks@.drop_last() == o.tracks@
    &&& n.tracks@.last().instrument_id == id
    &&& n.tracks@.last().notes@.len() == 0
}

/// `n` is `o` without the first track of `id` (unchanged when it has none).
pub open spec fn track_removed(o: PianoRollState, n: PianoRollState, id: InstrumentId) -> bool {
    &&& same_settings(o, n)
    &&& (forall|k: int| 0 <= k < o.tracks@.len() ==> o.tracks@[k].instrument_id != id) ==> n.tracks@ == o.tracks@
    &&& forall|k: int| 0 <= k < o.tracks@.len() && o.tracks@[k].instrument_id == id
        && (forall|j: int| 0 <= j < k ==> o.tracks@[j].instrument_id != id) ==> n.tracks@ == o.tracks@.remove(k)
}

/// Position of the note at this pitch and tick.
fn note_position(notes: &Vec<Note>, pitch: u8, tick: u32) -> (r: Option<usize>)
    ensures
        match r {
            Some(i) => i < notes@.len() && notes@[i as int].pitch == pitch && notes@[i as int].tick == tick,
            None => !has_note_at(notes@, pitch, tick),
        },
{
    let mut i: usize = 0;
    while i < notes.len()
        invariant
            i <= notes@.len(),
            forall|k: int| 0 <= k < i ==> !(notes@[k].pitch == pitch && notes@[k].tick == tick),
        decreases notes@.len() - i,
    {
        if notes[i].pitch == pitch && notes[i].tick == tick {
            return Some(i);
        }
        i = i + 1;
    }
    None
}

/// Drop the notes at this pitch and tick.
fn remove_notes_at(notes: &mut Vec<Note>, pitch: u8, tick: u32)
    ensures
        final(notes)@ == notes_without(old(notes)@, pitch, tick),
{
    let ghost o = notes@;
    let mut kept: Vec<Note> = Vec::new();
    let mut i: usize = 0;
    while i < notes.len()
        invariant
            i <= o.len(),
            notes@ == o,
            kept@ == notes_without(o.subrange(0, i as int), pitch, tick),
        decreases o.len() - i,
    {
        let n = notes[i];
        proof {
            reveal_with_fuel(Seq::<_>::filter, 1);
            assert(o.subrange(0, i + 1).drop_last() =~= o.subrange(0, i as int));
        }
        if !(n.pitch == pitch && n.tick == tick) {
            kept.push(n);
        }
        i = i + 1;
    }
    assert(o.subrange(0, i as int) =~= o);
    *notes = kept;
}

/// Drop the notes in a region.
fn remove_notes_in(notes: &mut Vec<Note>, start: u32, end: u32, lo: u8, hi: u8)
    ensures
        final(notes)@ == notes_outside(old(notes)@, start, end, lo, hi),
{
    let ghost o = notes@;
    let mut kept: Vec<Note> = Vec::new();
    let mut i: usize = 0;
    while i < notes.len()
        invariant
            i <= o.len(),
            notes@ == o,
            kept@ == notes_outside(o.subrange(0, i as int), start, end, lo, hi),
        decreases o.len() - i,
    {
        let n = notes[i];
        proof {
            reveal_with_fuel(Seq::<_>::filter, 1);
            assert(o.subrange(0, i + 1).drop_last() =~= o.subrange(0, i as int));
        }
        if !(start <= n.tick && n.tick < end && lo <= n.pitch && n.pitch <= hi) {
            kept.push(n);
        }
        i = i + 1;
    }
    assert(o.subrange(0, i as int) =~= o);
    *notes = kept;
}

/// Filtering keeps notes distinct.
pub proof fn lemma_filter_distinct(notes: Seq<Note>, keep: spec_fn(Note) -> bool)
    requires
        notes_distinct(notes),
    ensures
        notes_distinct(notes.filter(keep)),
    decreases notes.len(),
{
    reveal_with_fuel(Seq::<_>::filter, 1);
    if notes.len() > 0 {
        let rest = notes.drop_last();
        lemma_filter_distinct(rest, keep);
        let f = rest.filter(keep);
        if keep(notes.last()) {
            assert forall|i: int| 0 <= i < f.len()
                implies !(f[i].pitch == notes.last().pitch && f[i].tick == notes.last().tick) by {
                assert(f.contains(f[i]));
                rest.lemma_filter_contains_rev(keep, f[i]);
                let k = choose|k: int| 0 <= k < rest.len() && rest[k] == f[i];
                assert(notes[k] == rest[k]);
            }
            assert(notes.filter(keep) == f.push(notes.last()));
        }
    }
}

/// Only the notes of track `t` changed, to `notes` (nothing changes when
/// there is no such track).
pub open spec fn track_edited(o: PianoRollState, n: PianoRollState, t: int, notes: Seq<Note>) -> bool {
    &&& n.looping == o.looping
    &&& n.loop_start == o.loop_start
    &&& n.loop_end == o.loop_end
    &&& n.playing == o.playing
    &&& n.recording == o.recording
    &&& n.time_signature == o.time_signature
    &&& n.playhead == o.playhead
    &&& n.tracks@.len() == o.tracks@.len()
    &&& forall|k: int| 0 <= k < o.tracks@.len() && k != t ==> n.tracks@[k] == o.tracks@[k]
    &&& 0 <= t < o.tracks@.len() ==> n.tracks@[t].instrument_id == o.tracks@[t].instrument_id
        && n.tracks@[t].notes@ == notes
    &&& !(0 <= t < o.tracks@.len()) ==> n.tracks@ == o.tracks@
}

/// Pasting keeps notes distinct.
pub proof fn lemma_paste_distinct(notes: Seq<Note>, at: u32, ap: u8, clip: Seq<ClipboardNote>)
    requires
        notes_distinct(notes),
    ensures
        notes_distinct(pasted_notes(notes, at, ap, clip)),
    decreases clip.len(),
{
    if clip.len() > 0 {
        lemma_paste_distinct(notes, at, ap, clip.drop_last());
    }
}

/// Toggling keeps notes distinct.
pub proof fn lemma_toggle_distinct(notes: Seq<Note>, n: Note)
    requires
        notes_distinct(notes),
    ensures
        notes_distinct(toggled_notes(notes, n)),
{
    if has_note_at(notes, n.pitch, n.tick) {
        lemma_filter_distinct(notes, |m: Note| !(m.pitch == n.pitch && m.tick == n.tick));
    }
}

/// Replacing the notes of one existing track with distinct notes keeps the
/// piano roll well formed and edits only that track.
proof fn lemma_track_replaced(o: PianoRollState, n: PianoRollState, t: int)
    requires
        o.wf(),
        0 <= t < o.tracks@.len(),
        n.tracks@ == o.tracks@.update(t, Track { notes: n.tracks@[t].notes, ..o.tracks@[t] }),
        notes_distinct(n.tracks@[t].notes@),
        n.looping == o.looping,
        n.loop_start == o.loop_start,
        n.loop_end == o.loop_end,
        n.playing == o.playing,
        n.recording == o.recording,
        n.time_signature == o.time_signature,
        n.playhead == o.playhead,
    ensures
        n.wf(),
        track_edited(o, n, t, n.tracks@[t].notes@),
{
    assert forall|k: int| 0 <= k < n.tracks@.len() implies notes_distinct((#[trigger] n.tracks@[k]).notes@) by {
        if k != t { assert(n.tracks@[k] == o.tracks@[k]); }
    }
}

impl PianoRollState {
    /// Remove the note at the pitch and tick of track `t`, or add one there.
    pub fn toggle_note(&mut self, t: usize, pitch: u8, tick: u32, duration: u32, velocity: u8)
        requires
            old(self).wf(),
        ensures
            final(self).wf(),
            track_edited(*old(self), *final(self), t as int,
                toggled_notes(old(self).tracks@[t as int].notes@, Note { tick, duration, pitch, velocity })),
    {
        if t < self.tracks.len() {
            let ghost o = *self;
            let mut notes: Vec<Note> = Vec::new();
            std::mem::swap(&mut notes, &mut self.tracks[t].notes);
            assert(notes@ == o.tracks@[t as int].notes@);
            match note_position(&notes, pitch, tick) {
                Some(_) => { remove_notes_at(&mut notes, pitch, tick); },
                None => { notes.push(Note { tick, duration, pitch, velocity }); },
            }
            proof { lemma_toggle_distinct(o.tracks@[t as int].notes@, Note { tick, duration, pitch, velocity }); }
            self.tracks[t].notes = notes;
            proof {
                assert(self.tracks@ =~= o.tracks@.update(t as int, Track { notes: self.tracks@[t as int].notes, ..o.tracks@[t as int] }));
                lemma_track_replaced(o, *self, t as int);
            }
        }
    }
}


impl PianoRollState {
    /// Remove the notes of track `t` in the region: ticks `start..end`,
    /// pitches `lo..=hi`.
    pub fn delete_notes_in_region(&mut self, t: usize, start: u32, end: u32, lo: u8, hi: u8)
        requires
            old(self).wf(),
        ensures
            final(self).wf(),
            track_edited(*old(self), *final(self), t as int,
                notes_outside(old(self).tracks@[t as int].notes@, start, end, lo, hi)),
    {
        if t < self.tracks.len() {
            let ghost o = *self;
            let mut notes: Vec<Note> = Vec::new();
            std::mem::swap(&mut notes, &mut self.tracks[t].notes);
            remove_notes_in(&mut notes, start, end, lo, hi);
            proof { lemma_filter_distinct(o.tracks@[t as int].notes@, |n: Note| !in_region(n, start, end, lo, hi)); }
            self.tracks[t].notes = notes;
            proof {
                assert(self.tracks@ =~= o.tracks@.update(t as int, Track { notes: self.tracks@[t as int].notes, ..o.tracks@[t as int] }));
                lemma_track_replaced(o, *self, t as int);
            }
        }
    }

    /// Paste clipboard notes into track `t` at the anchor; notes that leave
    /// the pitch range or land on an existing note are skipped.
    pub fn paste_notes(&mut self, t: usize, anchor_tick: u32, anchor_pitch: u8, clip: &Vec<ClipboardNote>)
        requires
            old(self).wf(),
            forall|i: int| 0 <= i < clip@.len() ==> anchor_tick + (#[trigger] clip@[i]).tick_offset <= u32::MAX,
        ensures
            final(self).wf(),
            track_edited(*old(self), *final(self), t as int,
                pasted_notes(old(self).tracks@[t as int].notes@, anchor_tick, anchor_pitch, clip@)),
    {
        if t < self.tracks.len() {
            let ghost o = *self;
            let ghost base = o.tracks@[t as int].notes@;
            let mut notes: Vec<Note> = Vec::new();
            std::mem::swap(&mut notes, &mut self.tracks[t].notes);
            let mut i: usize = 0;
            while i < clip.len()
                invariant
                    i <= clip@.len(),
                    forall|j: int| 0 <= j < clip@.len() ==> anchor_tick + (#[trigger] clip@[j]).tick_offset <= u32::MAX,
                    notes@ == pasted_notes(base, anchor_tick, anchor_pitch, clip@.subrange(0, i as int)),
                decreases clip@.len() - i,
            {
                let c = clip[i];
                assert(clip@.subrange(0, i + 1).drop_last() =~= clip@.subrange(0, i as int));
                let pitch: i32 = anchor_pitch as i32 + c.pitch_offset as i32;
                let tick: u32 = anchor_tick + c.tick_offset;
                if 0 <= pitch && pitch <= 127 {
                    let p: u8 = pitch as u8;
                    if note_position(&notes, p, tick).is_none() {
                        notes.push(Note { tick, duration: c.duration, pitch: p, velocity: c.velocity });
                    }
                }
                i = i + 1;
            }
            assert(clip@.subrange(0, i as int) =~= clip@);
            proof { lemma_paste_distinct(base, anchor_tick, anchor_pitch, clip@); }
            self.tracks[t].notes = notes;
            proof {
                assert(self.tracks@ =~= o.tracks@.update(t as int, Track { notes: self.tracks@[t as int].notes, ..o.tracks@[t as int] }));
                lemma_track_replaced(o, *self, t as int);
            }
        }
    }

    /// The clipboard entries of the notes of track `t` in the region, or
    /// `None` when there is no such track.
    pub fn copy_notes(&self, t: usize, start: u32, end: u32, lo: u8, hi: u8) -> (r: Option<Vec<ClipboardNote>>)
        ensures
            match r {
                Some(v) => t < self.tracks@.len() && v@ == copied_notes(self.tracks@[t as int].notes@, start, end, lo, hi),
                None => t >= self.tracks@.len(),
            },
    {
        if t >= self.tracks.len() {
            return None;
        }
        let notes = &self.tracks[t].notes;
        let mut v: Vec<ClipboardNote> = Vec::new();
        let mut i: usize = 0;
        while i < notes.len()
            invariant
                i <= notes@.len(),
                v@ == copied_notes(notes@.subrange(0, i as int), start, end, lo, hi),
            decreases notes@.len() - i,
        {
            let n = notes[i];
            assert(notes@.subrange(0, i + 1).drop_last() =~= notes@.subrange(0, i as int));
            if start <= n.tick && n.tick < end && lo <= n.pitch && n.pitch <= hi {
                v.push(ClipboardNote {
                    tick_offset: n.tick - start,
                    pitch_offset: n.pitch as i16 - lo as i16,
                    duration: n.duration,
                    velocity: n.velocity,
                });
            }
            i = i + 1;
        }
        assert(notes@.subrange(0, i as int) =~= notes@);
        Some(v)
    }
}


/// Piano roll actions whose state changes are discrete.
#[derive(Clone, Debug)]
pub enum PianoRollAction {
    ToggleNote { pitch: u8, tick: u32, duration: u32, velocity: u8, track: usize },
    PlayStop,
    ToggleLoop,
    CycleTimeSig,
    DeleteNotesInRegion { track: usize, start_tick: u32, end_tick: u32, start_pitch: u8, end_pitch: u8 },
    PasteNotes { track: usize, anchor_tick: u32, anchor_pitch: u8, notes: Vec<ClipboardNote> },
    CopyNotes { track: usize, start_tick: u32, end_tick: u32, start_pitch: u8, end_pitch: u8 },
    CancelExport,
    /// Render one instrument to a file, playing the loop once.
    RenderToWav(InstrumentId),
    /// Bounce the master output to a file, playing the loop once.
    BounceToWav,
    /// Export every instrument to a file of its own, playing the loop once.
    ExportStems,
}

/// What `dispatch_piano_roll` requires of a paste: anchor plus offsets fit in a tick.
pub open spec fn piano_roll_action_ok(action: PianoRollAction) -> bool {
    match action {
        PianoRollAction::PasteNotes { anchor_tick, notes, .. } =>
            forall|i: int| 0 <= i < notes@.len() ==> anchor_tick + (#[trigger] notes@[i]).tick_offset <= u32::MAX,
        _ => true,
    }
}

/// Whether an export or render is running.
pub open spec fn exporting(io: IoState) -> bool {
    io.pending_export is Some || io.pending_render is Some
}

/// Whether a render or export action starts one: none is running, the
/// engine runs, and, for a bounce or stem export, there are instruments.
pub open spec fn export_starts(o: AppState, action: PianoRollAction, running: bool) -> bool {
    &&& !exporting(o.io)
    &&& running
    &&& match action {
        PianoRollAction::RenderToWav(_) => true,
        PianoRollAction::BounceToWav | PianoRollAction::ExportStems => o.instruments.instruments@.len() > 0,
        _ => false,
    }
}

/// The piano roll after an action (before `CopyNotes` and the transport
/// bookkeeping, which touch other parts of the state); `starts` is whether
/// a render or export action starts one.
pub open spec fn piano_roll_after(o: PianoRollState, n: PianoRollState, io: IoState, action: PianoRollAction, starts: bool) -> bool {
    match action {
        PianoRollAction::ToggleNote { pitch, tick, duration, velocity, track } =>
            track_edited(o, n, track as int, toggled_notes(o.tracks@[track as int].notes@, Note { tick, duration, pitch, velocity })),
        PianoRollAction::DeleteNotesInRegion { track, start_tick, end_tick, start_pitch, end_pitch } =>
            track_edited(o, n, track as int, notes_outside(o.tracks@[track as int].notes@, start_tick, end_tick, start_pitch, end_pitch)),
        PianoRollAction::PasteNotes { track, anchor_tick, anchor_pitch, notes } =>
            track_edited(o, n, track as int, pasted_notes(o.tracks@[track as int].notes@, anchor_tick, anchor_pitch, notes@)),
        PianoRollAction::ToggleLoop => n == PianoRollState { looping: !o.looping, ..o },
        PianoRollAction::CycleTimeSig => n == PianoRollState { time_signature: next_time_sig(o.time_signature), ..o },
        PianoRollAction::PlayStop => if exporting(io) {
            n == o
        } else {
            n == PianoRollState { playing: !o.playing, recording: false, ..o }
        },
        PianoRollAction::CancelExport => match io.pending_export {
            Some(e) => n == PianoRollState { playing: false, looping: e.was_looping, ..o },
            None => n == o,
        },
        PianoRollAction::CopyNotes { .. } => n == o,
        PianoRollAction::RenderToWav(_) | PianoRollAction::BounceToWav | PianoRollAction::ExportStems => if starts {
            n == PianoRollState { playhead: o.loop_start, playing: true, looping: false, ..o }
        } else {
            n == o
        },
    }
}

/// The state change of `dispatch_piano_roll`.
pub open spec fn piano_roll_dispatched(o: AppState, n: AppState, action: PianoRollAction, running: bool) -> bool {
    let opr = o.session.piano_roll;
    let starts = export_starts(o, action, running);
    &&& n.instruments == o.instruments
    &&& n.midi == o.midi
    &&& n.session.mixer == o.session.mixer
    &&& n.session.automation_lanes == o.session.automation_lanes
    &&& n.session.next_lane_id == o.session.next_lane_id
    &&& n.session.midi_recording == o.session.midi_recording
    &&& n.session.arrangement == o.session.arrangement
    &&& piano_roll_after(opr, n.session.piano_roll, o.io, action, starts)
    &&& match action {
        PianoRollAction::CopyNotes { track, start_tick, end_tick, start_pitch, end_pitch } => {
            let c = copied_notes(opr.tracks@[track as int].notes@, start_tick, end_tick, start_pitch, end_pitch);
            if track < opr.tracks@.len() && c.len() > 0 {
                n.clipboard matches Some(ClipboardContents::PianoRollNotes(v)) && v@ == c
            } else {
                n.clipboard == o.clipboard
            }
        },
        _ => n.clipboard == o.clipboard,
    }
    &&& match action {
        PianoRollAction::PlayStop => if exporting(o.io) {
            n.audio == o.audio && n.io == o.io
        } else {
            &&& n.io == o.io
            &&& n.audio.playing == !opr.playing
            &&& n.audio.playhead == (if opr.playing { 0 } else { o.audio.playhead })
        },
        PianoRollAction::CancelExport => if o.io.pending_export is Some {
            &&& n.io == IoState { pending_export: None, ..o.io }
            &&& n.audio == AudioState { playing: false, playhead: 0, ..o.audio }
        } else {
            n.audio == o.audio && n.io == o.io
        },
        PianoRollAction::RenderToWav(id) => if starts {
            &&& n.io == IoState { pending_render: Some(PendingRender { instrument_id: id, was_looping: opr.looping }), ..o.io }
            &&& n.audio == AudioState { playing: true, ..o.audio }
        } else {
            n.audio == o.audio && n.io == o.io
        },
        PianoRollAction::BounceToWav | PianoRollAction::ExportStems => if starts {
            let kind = if action is BounceToWav { ExportKind::MasterBounce } else { ExportKind::StemExport };
            &&& n.io == IoState { pending_export: Some(PendingExport { kind, was_looping: opr.looping }), ..o.io }
            &&& n.audio == AudioState { playing: true, ..o.audio }
        } else {
            n.audio == o.audio && n.io == o.io
        },
        _ => n.audio == o.audio && n.io == o.io,
    }
}

/// The audio side effects of a piano roll action, given the state before it
/// and whether the audio engine runs.
pub open spec fn piano_roll_side_effects(o: AppState, action: PianoRollAction, running: bool) -> Seq<AudioSideEffect> {
    match action {
        PianoRollAction::PlayStop => if exporting(o.io) {
            Seq::empty()
        } else if o.session.piano_roll.playing {
            seq![AudioSideEffect::SetPlaying { playing: false }, AudioSideEffect::ResetPlayhead]
                + (if running { seq![AudioSideEffect::ReleaseAllVoices] } else { Seq::empty() })
                + seq![AudioSideEffect::ClearActiveNotes]
        } else {
            seq![AudioSideEffect::SetPlaying { playing: true }]
        },
        PianoRollAction::CancelExport => if o.io.pending_export is Some {
            seq![AudioSideEffect::CancelExport, AudioSideEffect::ResetPlayhead]
        } else {
            Seq::empty()
        },
        PianoRollAction::RenderToWav(id) => if export_starts(o, action, running) {
            seq![AudioSideEffect::StartInstrumentRender { instrument_id: id }]
        } else {
            Seq::empty()
        },
        PianoRollAction::BounceToWav => if export_starts(o, action, running) {
            seq![AudioSideEffect::StartMasterBounce]
        } else {
            Seq::empty()
        },
        PianoRollAction::ExportStems => if export_starts(o, action, running) {
            seq![AudioSideEffect::StartStemExport]
        } else {
            Seq::empty()
        },
        _ => Seq::empty(),
    }
}

/// The audio work a piano roll action asks for.
pub open spec fn piano_roll_effects(o: AppState, action: PianoRollAction, running: bool) -> Seq<AudioEffect> {
    match action {
        PianoRollAction::ToggleNote { .. } | PianoRollAction::ToggleLoop
        | PianoRollAction::DeleteNotesInRegion { .. } | PianoRollAction::PasteNotes { .. } => seq![AudioEffect::UpdatePianoRoll],
        PianoRollAction::CycleTimeSig => seq![AudioEffect::UpdatePianoRoll, AudioEffect::RebuildSession],
        PianoRollAction::CancelExport => if o.io.pending_export is Some { seq![AudioEffect::UpdatePianoRoll] } else { Seq::empty() },
        PianoRollAction::RenderToWav(_) | PianoRollAction::BounceToWav | PianoRollAction::ExportStems =>
            if export_starts(o, action, running) { seq![AudioEffect::UpdatePianoRoll] } else { Seq::empty() },
        _ => Seq::empty(),
    }
}


/// Dispatch a piano roll action. `running` is whether the audio engine runs;
/// the audio operations to perform are appended to `effects`.
pub fn dispatch_piano_roll(
    action: &PianoRollAction,
    state: &mut AppState,
    running: bool,
    effects: &mut Vec<AudioSideEffect>,
) -> (r: DispatchResult)
    requires
        old(state).session.piano_roll.wf(),
        piano_roll_action_ok(*action),
    ensures
        final(state).session.piano_roll.wf(),
        piano_roll_dispatched(*old(state), *final(state), *action, running),
        final(effects)@ == old(effects)@ + piano_roll_side_effects(*old(state), *action, running),
        r.audio_effects@ == piano_roll_effects(*old(state), *action, running),
        r.nav@.len() == 0,
        !r.needs_full_sync,
{
    let ghost o = *state;
    let ghost oe = effects@;
    let mut result = DispatchResult::none();
    match action {
        PianoRollAction::ToggleNote { pitch, tick, duration, velocity, track } => {
            state.session.piano_roll.toggle_note(*track, *pitch, *tick, *duration, *velocity);
            result.audio_effects.push(AudioEffect::UpdatePianoRoll);
        },
        PianoRollAction::DeleteNotesInRegion { track, start_tick, end_tick, start_pitch, end_pitch } => {
            state.session.piano_roll.delete_notes_in_region(*track, *start_tick, *end_tick, *start_pitch, *end_pitch);
            result.audio_effects.push(AudioEffect::UpdatePianoRoll);
        },
        PianoRollAction::PasteNotes { track, anchor_tick, anchor_pitch, notes } => {
            state.session.piano_roll.paste_notes(*track, *anchor_tick, *anchor_pitch, notes);
            result.audio_effects.push(AudioEffect::UpdatePianoRoll);
        },
        PianoRollAction::ToggleLoop => {
            state.session.piano_roll.looping = !state.session.piano_roll.looping;
            result.audio_effects.push(AudioEffect::UpdatePianoRoll);
        },
        PianoRollAction::CycleTimeSig => {
            let ts = state.session.piano_roll.time_signature;
            let (b, u) = (ts.beats, ts.unit);
            let next = if b == 4 && u == 4 {
                TimeSignature { beats: 3, unit: 4 }
            } else if b == 3 && u == 4 {
                TimeSignature { beats: 6, unit: 8 }
            } else if b == 6 && u == 8 {
                TimeSignature { beats: 5, unit: 4 }
            } else if b == 5 && u == 4 {
                TimeSignature { beats: 7, unit: 8 }
            } else {
                TimeSignature { beats: 4, unit: 4 }
            };
            state.session.piano_roll.time_signature = next;
            result.audio_effects.push(AudioEffect::UpdatePianoRoll);
            result.audio_effects.push(AudioEffect::RebuildSession);
        },
        PianoRollAction::PlayStop => {
            // Ignore play/stop while exporting: the export must be cancelled first
            if state.io.pending_export.is_none() && state.io.pending_render.is_none() {
                let playing = !state.session.piano_roll.playing;
                state.session.piano_roll.playing = playing;
                state.audio.playing = playing;
                effects.push(AudioSideEffect::SetPlaying { playing });
                if !playing {
                    state.audio.playhead = 0;
                    effects.push(AudioSideEffect::ResetPlayhead);
                    if running {
                        effects.push(AudioSideEffect::ReleaseAllVoices);
                    }
                    effects.push(AudioSideEffect::ClearActiveNotes);
                }
                // Recording ends with a plain play/stop
                state.session.piano_roll.recording = false;
            }
        },
        PianoRollAction::CancelExport => {
            if let Some(export) = state.io.pending_export {
                effects.push(AudioSideEffect::CancelExport);
                state.io.pending_export = None;
                state.session.piano_roll.looping = export.was_looping;
                state.session.piano_roll.playing = false;
                state.audio.playing = false;
                state.audio.playhead = 0;
                effects.push(AudioSideEffect::ResetPlayhead);
                result.audio_effects.push(AudioEffect::UpdatePianoRoll);
            }
        },
        PianoRollAction::CopyNotes { track, start_tick, end_tick, start_pitch, end_pitch } => {
            if let Some(notes) = state.session.piano_roll.copy_notes(*track, *start_tick, *end_tick, *start_pitch, *end_pitch) {
                if notes.len() > 0 {
                    state.clipboard = Some(ClipboardContents::PianoRollNotes(notes));
                }
            }
        },
        PianoRollAction::RenderToWav(_) | PianoRollAction::BounceToWav | PianoRollAction::ExportStems => {
            // One render or export at a time, on a running engine, and a
            // bounce or stem export needs instruments
            let idle = state.io.pending_export.is_none() && state.io.pending_render.is_none();
            let has_instruments = state.instruments.instruments.len() > 0;
            let starts = idle && running && match action {
                PianoRollAction::RenderToWav(_) => true,
                _ => has_instruments,
            };
            if starts {
                let was_looping = state.session.piano_roll.looping;
                match action {
                    PianoRollAction::RenderToWav(id) => {
                        state.io.pending_render = Some(PendingRender { instrument_id: *id, was_looping });
                        effects.push(AudioSideEffect::StartInstrumentRender { instrument_id: *id });
                    },
                    PianoRollAction::BounceToWav => {
                        state.io.pending_export = Some(PendingExport { kind: ExportKind::MasterBounce, was_looping });
                        effects.push(AudioSideEffect::StartMasterBounce);
                    },
                    _ => {
                        state.io.pending_export = Some(PendingExport { kind: ExportKind::StemExport, was_looping });
                        effects.push(AudioSideEffect::StartStemExport);
                    },
                }
                state.session.piano_roll.playhead = state.session.piano_roll.loop_start;
                state.session.piano_roll.playing = true;
                state.audio.playing = true;
                state.session.piano_roll.looping = false;
                result.audio_effects.push(AudioEffect::UpdatePianoRoll);
            }
        },
    }
    proof {
        assert(effects@ =~= oe + piano_roll_side_effects(o, *action, running));
        assert(result.audio_effects@ =~= piano_roll_effects(o, *action, running));
    }
    result
}

} // verus!
