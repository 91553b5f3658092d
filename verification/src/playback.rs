//! The integer side of a playback tick: which stretches of the timeline the
//! playhead crossed, which notes start in them and on which instruments,
//! which sounding notes end, the notes an arpeggiator holds, and where a
//! click falls in the bar. Tempo, swing, humanizing and note probability are
//! floating point and are applied by the caller, not here.
use vstd::prelude::*;

use crate::instrument::group_of;
use crate::piano_roll::{Note, PianoRollState, Track};
use crate::state::{Instrument, InstrumentId, InstrumentState};

verus! {

/// A stretch `[start, end)` of ticks the playhead crossed; `base` is how
/// many ticks after the old playhead the stretch begins.
#[derive(Clone, Copy, PartialEq, Eq, Structural, Debug)]
pub struct ScanRange {
    pub start: u32,
    pub end: u32,
    pub base: u32,
}

/// A note to start: the instrument that plays it, the note, and how many
/// ticks after the old playhead it falls.
#[derive(Clone, Copy, PartialEq, Eq, Structural, Debug)]
pub struct NoteOn {
    pub instrument_id: InstrumentId,
    pub pitch: u8,
    pub velocity: u8,
    pub duration: u32,
    pub tick: u32,
    pub ticks_from_old: u64,
}

/// A sounding note: instrument, pitch, and ticks until it ends.
pub type ActiveNote = (InstrumentId, u8, u32);

/// The stretches crossed when the playhead moved from `old` to `new`: one
/// stretch, or, when it wrapped around the loop, the rest of the loop and
/// the start of the loop up to the new playhead.
pub open spec fn scan_ranges_spec(old: u32, new: u32, loop_start: u32, loop_end: u32) -> Seq<ScanRange> {
    if new < old {
        seq![
            ScanRange { start: old, end: loop_end, base: 0 },
            ScanRange { start: loop_start, end: new, base: (loop_end - old) as u32 },
        ]
    } else {
        seq![ScanRange { start: old, end: new, base: 0 }]
    }
}

/// Compute the stretches the playhead crossed.
pub fn scan_ranges(old_playhead: u32, new_playhead: u32, loop_start: u32, loop_end: u32) -> (r: Vec<ScanRange>)
    requires
        new_playhead < old_playhead ==> old_playhead <= loop_end,
    ensures
        r@ == scan_ranges_spec(old_playhead, new_playhead, loop_start, loop_end),
{
    let r = if new_playhead < old_playhead {
        let rest_of_loop: u32 = loop_end - old_playhead;
        vec![
            ScanRange { start: old_playhead, end: loop_end, base: 0 },
            ScanRange { start: loop_start, end: new_playhead, base: rest_of_loop },
        ]
    } else {
        vec![ScanRange { start: old_playhead, end: new_playhead, base: 0 }]
    };
    assert(r@ =~= scan_ranges_spec(old_playhead, new_playhead, loop_start, loop_end));
    r
}

/// The stretches of a move of the playhead cover exactly the ticks it
/// crossed, from the old playhead up to but not including the new one (over
/// the loop's end and back to its start when it wrapped), and each tick's
/// offset from the old playhead is how far the playhead had gone when it
/// reached it.
pub proof fn law_scan_ranges_cover_crossed_ticks(old: u32, new: u32, loop_start: u32, loop_end: u32, t: u32)
    requires
        new < old ==> old <= loop_end && loop_start <= new,
    ensures
        (exists|j: int| 0 <= j < scan_ranges_spec(old, new, loop_start, loop_end).len()
            && #[trigger] scan_ranges_spec(old, new, loop_start, loop_end)[j].start <= t
            && t < scan_ranges_spec(old, new, loop_start, loop_end)[j].end)
        <==> (if new < old { (old <= t && t < loop_end) || (loop_start <= t && t < new) } else { old <= t && t < new }),
        forall|j: int| 0 <= j < scan_ranges_spec(old, new, loop_start, loop_end).len() ==> {
            let r = #[trigger] scan_ranges_spec(old, new, loop_start, loop_end)[j];
            r.start <= t && t < r.end ==> r.base + (t - r.start) == (if t >= old { t - old } else { (loop_end - old) + (t - loop_start) })
        },
{
    let rs = scan_ranges_spec(old, new, loop_start, loop_end);
    if new < old {
        if old <= t && t < loop_end {
            assert(rs[0].start <= t && t < rs[0].end);
        }
        if loop_start <= t && t < new {
            assert(rs[1].start <= t && t < rs[1].end);
        }
    } else {
        if old <= t && t < new {
            assert(rs[0].start <= t && t < rs[0].end);
        }
    }
}

/// Whether any instrument is soloed.
pub open spec fn any_solo_spec(insts: Seq<Instrument>) -> bool {
    exists|k: int| 0 <= k < insts.len() && insts[k].solo
}

/// An instrument sounds in playback when it is active and, with a solo in
/// place, soloed, or else not muted.
pub open spec fn audible(inst: Instrument, any_solo: bool) -> bool {
    inst.active && (if any_solo { inst.solo } else { !inst.mute })
}

/// The instrument with id `id` exists and sounds in playback.
pub open spec fn plays_back(insts: Seq<Instrument>, id: InstrumentId, any_solo: bool) -> bool {
    exists|k: int| 0 <= k < insts.len() && insts[k].id == id && audible(insts[k], any_solo)
}

/// The instruments a note for `id` is played on: every member of its layer
/// group in instrument order, or `id` alone when it is in none.
pub open spec fn group_members(insts: Seq<Instrument>, id: InstrumentId) -> Seq<InstrumentId> {
    match group_of(insts, id) {
        Some(g) => group_ids(insts, g),
        None => seq![id],
    }
}

/// The ids of the instruments in layer group `g`, in instrument order.
pub open spec fn group_ids(insts: Seq<Instrument>, g: u32) -> Seq<InstrumentId>
    decreases insts.len(),
{
    if insts.len() == 0 {
        Seq::empty()
    } else {
        let rest = group_ids(insts.drop_last(), g);
        if insts.last().layer_group == Some(g) { rest.push(insts.last().id) } else { rest }
    }
}

/// The note-ons of one note on the targets that sound.
pub open spec fn ons_for_note(insts: Seq<Instrument>, targets: Seq<InstrumentId>, any_solo: bool, n: Note, off: u64) -> Seq<NoteOn>
    decreases targets.len(),
{
    if targets.len() == 0 {
        Seq::empty()
    } else {
        let rest = ons_for_note(insts, targets.drop_last(), any_solo, n, off);
        let t = targets.last();
        if plays_back(insts, t, any_solo) {
            rest.push(NoteOn { instrument_id: t, pitch: n.pitch, velocity: n.velocity, duration: n.duration, tick: n.tick, ticks_from_old: off })
        } else {
            rest
        }
    }
}

/// The note-ons of the notes that start in one stretch.
pub open spec fn ons_in_range(insts: Seq<Instrument>, targets: Seq<InstrumentId>, any_solo: bool, notes: Seq<Note>, r: ScanRange) -> Seq<NoteOn>
    decreases notes.len(),
{
    if notes.len() == 0 {
        Seq::empty()
    } else {
        let rest = ons_in_range(insts, targets, any_solo, notes.drop_last(), r);
        let n = notes.last();
        if r.start <= n.tick < r.end {
            rest + ons_for_note(insts, targets, any_solo, n, (r.base + (n.tick - r.start)) as u64)
        } else {
            rest
        }
    }
}

/// The note-ons of one track, stretch by stretch.
pub open spec fn ons_for_track(insts: Seq<Instrument>, targets: Seq<InstrumentId>, any_solo: bool, notes: Seq<Note>, ranges: Seq<ScanRange>) -> Seq<NoteOn>
    decreases ranges.len(),
{
    if ranges.len() == 0 {
        Seq::empty()
    } else {
        ons_for_track(insts, targets, any_solo, notes, ranges.drop_last())
            + ons_in_range(insts, targets, any_solo, notes, ranges.last())
    }
}

/// The note-ons of all tracks, track by track, each on its layer group.
pub open spec fn note_ons(insts: Seq<Instrument>, tracks: Seq<Track>, ranges: Seq<ScanRange>) -> Seq<NoteOn>
    decreases tracks.len(),
{
    if tracks.len() == 0 {
        Seq::empty()
    } else {
        let t = tracks.last();
        note_ons(insts, tracks.drop_last(), ranges)
            + ons_for_track(insts, group_members(insts, t.instrument_id), any_solo_spec(insts), t.notes@, ranges)
    }
}

/// Every note-on of one note carries the note's tick.
proof fn lemma_ons_for_note_tick(insts: Seq<Instrument>, targets: Seq<InstrumentId>, any_solo: bool, n: Note, off: u64)
    ensures
        forall|i: int| 0 <= i < ons_for_note(insts, targets, any_solo, n, off).len()
            ==> (#[trigger] ons_for_note(insts, targets, any_solo, n, off)[i]).tick == n.tick,
    decreases targets.len(),
{
    if targets.len() > 0 {
        lemma_ons_for_note_tick(insts, targets.drop_last(), any_solo, n, off);
        let a = ons_for_note(insts, targets.drop_last(), any_solo, n, off);
        let x = ons_for_note(insts, targets, any_solo, n, off);
        assert forall|i: int| 0 <= i < x.len() implies (#[trigger] x[i]).tick == n.tick by {
            if i < a.len() {
                assert(x[i] == a[i]);
            }
        }
    }
}

/// Every note-on of a stretch falls in it: `start <= tick < end`.
proof fn lemma_ons_in_range_ticks(insts: Seq<Instrument>, targets: Seq<InstrumentId>, any_solo: bool, notes: Seq<Note>, r: ScanRange)
    ensures
        forall|i: int| 0 <= i < ons_in_range(insts, targets, any_solo, notes, r).len() ==> {
            let t = (#[trigger] ons_in_range(insts, targets, any_solo, notes, r)[i]).tick;
            r.start <= t && t < r.end
        },
    decreases notes.len(),
{
    if notes.len() > 0 {
        let rest = notes.drop_last();
        lemma_ons_in_range_ticks(insts, targets, any_solo, rest, r);
        let n = notes.last();
        let off = (r.base + (n.tick - r.start)) as u64;
        lemma_ons_for_note_tick(insts, targets, any_solo, n, off);
        let a = ons_in_range(insts, targets, any_solo, rest, r);
        let x = ons_in_range(insts, targets, any_solo, notes, r);
        if n.tick >= r.start && n.tick < r.end {
            let b = ons_for_note(insts, targets, any_solo, n, off);
            assert forall|i: int| 0 <= i < x.len() implies r.start <= (#[trigger] x[i]).tick && x[i].tick < r.end by {
                if i < a.len() {
                    assert(x[i] == a[i]);
                } else {
                    assert(x[i] == b[i - a.len()]);
                }
            }
        }
    }
}

/// Every note-on of a track falls in one of the stretches.
proof fn lemma_ons_for_track_ticks(insts: Seq<Instrument>, targets: Seq<InstrumentId>, any_solo: bool, notes: Seq<Note>, ranges: Seq<ScanRange>)
    ensures
        forall|i: int| 0 <= i < ons_for_track(insts, targets, any_solo, notes, ranges).len() ==>
            exists|j: int| 0 <= j < ranges.len() && ranges[j].start <= (#[trigger] ons_for_track(insts, targets, any_solo, notes, ranges)[i]).tick
                && ons_for_track(insts, targets, any_solo, notes, ranges)[i].tick < ranges[j].end,
    decreases ranges.len(),
{
    if ranges.len() > 0 {
        let rest = ranges.drop_last();
        lemma_ons_for_track_ticks(insts, targets, any_solo, notes, rest);
        lemma_ons_in_range_ticks(insts, targets, any_solo, notes, ranges.last());
        let a = ons_for_track(insts, targets, any_solo, notes, rest);
        let b = ons_in_range(insts, targets, any_solo, notes, ranges.last());
        let x = ons_for_track(insts, targets, any_solo, notes, ranges);
        assert forall|i: int| 0 <= i < x.len() implies exists|j: int| 0 <= j < ranges.len() && ranges[j].start <= (#[trigger] x[i]).tick
            && x[i].tick < ranges[j].end by {
            if i < a.len() {
                assert(x[i] == a[i]);
                let j = choose|j: int| 0 <= j < rest.len() && rest[j].start <= a[i].tick && a[i].tick < rest[j].end;
                assert(ranges[j] == rest[j]);
            } else {
                assert(x[i] == b[i - a.len()]);
                assert(ranges[ranges.len() - 1] == ranges.last());
            }
        }
    }
}

/// Every note-on of a playback tick is for a note that starts in one of the
/// stretches the playhead crossed, counting the start of a stretch and not
/// its end: `start <= tick < end`.
pub proof fn law_note_ons_start_in_crossed_ticks(insts: Seq<Instrument>, tracks: Seq<Track>, ranges: Seq<ScanRange>)
    ensures
        forall|i: int| 0 <= i < note_ons(insts, tracks, ranges).len() ==>
            exists|j: int| 0 <= j < ranges.len() && ranges[j].start <= (#[trigger] note_ons(insts, tracks, ranges)[i]).tick
                && note_ons(insts, tracks, ranges)[i].tick < ranges[j].end,
    decreases tracks.len(),
{
    if tracks.len() > 0 {
        let rest = tracks.drop_last();
        let t = tracks.last();
        law_note_ons_start_in_crossed_ticks(insts, rest, ranges);
        lemma_ons_for_track_ticks(insts, group_members(insts, t.instrument_id), any_solo_spec(insts), t.notes@, ranges);
        let a = note_ons(insts, rest, ranges);
        let b = ons_for_track(insts, group_members(insts, t.instrument_id), any_solo_spec(insts), t.notes@, ranges);
        let x = note_ons(insts, tracks, ranges);
        assert forall|i: int| 0 <= i < x.len() implies exists|j: int| 0 <= j < ranges.len() && ranges[j].start <= (#[trigger] x[i]).tick
            && x[i].tick < ranges[j].end by {
            if i < a.len() {
                assert(x[i] == a[i]);
            } else {
                assert(x[i] == b[i - a.len()]);
            }
        }
    }
}

/// The note-ons of a move of the playhead from `old` to `new` are for notes
/// at or after `old` and before `new`; when it wrapped around the loop, for
/// notes from `old` to the loop's end, or from the loop's start to before
/// `new`. So a note at the new playhead is not started now: it starts in the
/// next tick's stretch, and consecutive ticks start each note once.
pub proof fn law_note_ons_of_playhead_move(insts: Seq<Instrument>, tracks: Seq<Track>, old: u32, new: u32, loop_start: u32, loop_end: u32)
    ensures
        forall|i: int| 0 <= i < note_ons(insts, tracks, scan_ranges_spec(old, new, loop_start, loop_end)).len() ==> {
            let t = (#[trigger] note_ons(insts, tracks, scan_ranges_spec(old, new, loop_start, loop_end))[i]).tick;
            if new < old {
                (old <= t && t < loop_end) || (loop_start <= t && t < new)
            } else {
                old <= t && t < new
            }
        },
{
    let ranges = scan_ranges_spec(old, new, loop_start, loop_end);
    law_note_ons_start_in_crossed_ticks(insts, tracks, ranges);
    let x = note_ons(insts, tracks, ranges);
    assert forall|i: int| 0 <= i < x.len() implies {
        let t = (#[trigger] x[i]).tick;
        if new < old { (old <= t && t < loop_end) || (loop_start <= t && t < new) } else { old <= t && t < new }
    } by {
        let j = choose|j: int| 0 <= j < ranges.len() && ranges[j].start <= x[i].tick && x[i].tick < ranges[j].end;
        if new < old {
            assert(j == 0 || j == 1);
        }
    }
}

/// Whether an instrument sounds in playback.
pub open spec fn sounds(insts: Seq<Instrument>, any_solo: bool) -> spec_fn(InstrumentId) -> bool {
    |t: InstrumentId| plays_back(insts, t, any_solo)
}

/// One note is started once on each target that sounds.
proof fn lemma_ons_for_note_len(insts: Seq<Instrument>, targets: Seq<InstrumentId>, any_solo: bool, n: Note, off: u64)
    ensures
        ons_for_note(insts, targets, any_solo, n, off).len()
            == targets.filter(sounds(insts, any_solo)).len(),
    decreases targets.len(),
{
    if targets.len() > 0 {
        let rest = targets.drop_last();
        lemma_ons_for_note_len(insts, rest, any_solo, n, off);
        assert(rest.push(targets.last()) == targets);
        rest.lemma_filter_push(targets.last(), sounds(insts, any_solo));
    }
}

/// Whether a note starts in a stretch: at or after its start, before its end.
pub open spec fn starts_in(r: ScanRange) -> spec_fn(Note) -> bool {
    |n: Note| r.start <= n.tick && n.tick < r.end
}

/// A stretch starts each of its notes once on each target that sounds: there
/// are as many note-ons as notes with `start <= tick < end` times targets
/// that sound, so no note is started twice.
pub proof fn law_ons_in_range_count(insts: Seq<Instrument>, targets: Seq<InstrumentId>, any_solo: bool, notes: Seq<Note>, r: ScanRange)
    ensures
        ons_in_range(insts, targets, any_solo, notes, r).len()
            == notes.filter(starts_in(r)).len()
                * targets.filter(sounds(insts, any_solo)).len(),
    decreases notes.len(),
{
    if notes.len() > 0 {
        let rest = notes.drop_last();
        let n = notes.last();
        law_ons_in_range_count(insts, targets, any_solo, rest, r);
        assert(rest.push(n) == notes);
        let p = starts_in(r);
        rest.lemma_filter_push(n, p);
        lemma_ons_for_note_len(insts, targets, any_solo, n, (r.base + (n.tick - r.start)) as u64);
        let k = rest.filter(p).len() as int;
        let m = targets.filter(sounds(insts, any_solo)).len() as int;
        assert((k + 1) * m == k * m + m) by (nonlinear_arith);
        assert(notes.filter(p) == (if p(n) { rest.filter(p).push(n) } else { rest.filter(p) }));
        assert(ons_in_range(insts, targets, any_solo, notes, r).len()
            == k * m + (if p(n) { m } else { 0 }));
        if p(n) {
            assert(notes.filter(p).len() == k + 1);
        } else {
            assert(notes.filter(p).len() == k);
        }
    } else {
        assert(notes.filter(starts_in(r)) =~= Seq::<Note>::empty()) by {
            reveal_with_fuel(Seq::<_>::filter, 1);
        }
        assert(0 * targets.filter(sounds(insts, any_solo)).len() == 0);
    }
}

/// The note-on of note `n` on instrument `t`, `off` ticks after the old playhead.
pub open spec fn note_on_of(t: InstrumentId, n: Note, off: u64) -> NoteOn {
    NoteOn { instrument_id: t, pitch: n.pitch, velocity: n.velocity, duration: n.duration, tick: n.tick, ticks_from_old: off }
}

/// What one sequence holds, its concatenation with another holds too.
proof fn lemma_concat_contains<A>(a: Seq<A>, b: Seq<A>, v: A)
    requires
        a.contains(v) || b.contains(v),
    ensures
        (a + b).contains(v),
{
    if a.contains(v) {
        let i = choose|i: int| 0 <= i < a.len() && a[i] == v;
        assert((a + b)[i] == v);
    } else {
        let i = choose|i: int| 0 <= i < b.len() && b[i] == v;
        assert((a + b)[a.len() + i] == v);
    }
}

/// Each target that sounds gets the note.
proof fn lemma_ons_for_note_complete(insts: Seq<Instrument>, targets: Seq<InstrumentId>, any_solo: bool, n: Note, off: u64, k: int)
    requires
        0 <= k < targets.len(),
        plays_back(insts, targets[k], any_solo),
    ensures
        ons_for_note(insts, targets, any_solo, n, off).contains(note_on_of(targets[k], n, off)),
    decreases targets.len(),
{
    let x = ons_for_note(insts, targets, any_solo, n, off);
    if k == targets.len() - 1 {
        assert(x.last() == note_on_of(targets[k], n, off));
        assert(x[x.len() - 1] == x.last());
    } else {
        let rest = targets.drop_last();
        assert(rest[k] == targets[k]);
        lemma_ons_for_note_complete(insts, rest, any_solo, n, off, k);
        let a = ons_for_note(insts, rest, any_solo, n, off);
        let i = choose|i: int| 0 <= i < a.len() && a[i] == note_on_of(targets[k], n, off);
        assert(x[i] == a[i]);
    }
}

/// Each note that starts in a stretch, `start <= tick < end`, is started on
/// each target that sounds.
proof fn lemma_ons_in_range_complete(insts: Seq<Instrument>, targets: Seq<InstrumentId>, any_solo: bool, notes: Seq<Note>, r: ScanRange, m: int, k: int)
    requires
        0 <= m < notes.len(),
        r.start <= notes[m].tick && notes[m].tick < r.end,
        0 <= k < targets.len(),
        plays_back(insts, targets[k], any_solo),
    ensures
        ons_in_range(insts, targets, any_solo, notes, r).contains(
            note_on_of(targets[k], notes[m], (r.base + (notes[m].tick - r.start)) as u64)),
    decreases notes.len(),
{
    let rest = notes.drop_last();
    let v = note_on_of(targets[k], notes[m], (r.base + (notes[m].tick - r.start)) as u64);
    if m == notes.len() - 1 {
        assert(notes.last() == notes[m]);
        lemma_ons_for_note_complete(insts, targets, any_solo, notes[m], (r.base + (notes[m].tick - r.start)) as u64, k);
        lemma_concat_contains(ons_in_range(insts, targets, any_solo, rest, r),
            ons_for_note(insts, targets, any_solo, notes[m], (r.base + (notes[m].tick - r.start)) as u64), v);
    } else {
        assert(rest[m] == notes[m]);
        lemma_ons_in_range_complete(insts, targets, any_solo, rest, r, m, k);
        let n = notes.last();
        lemma_concat_contains(ons_in_range(insts, targets, any_solo, rest, r),
            ons_for_note(insts, targets, any_solo, n, (r.base + (n.tick - r.start)) as u64), v);
    }
}

/// Each note that starts in one of the stretches is started on each target
/// that sounds.
proof fn lemma_ons_for_track_complete(insts: Seq<Instrument>, targets: Seq<InstrumentId>, any_solo: bool, notes: Seq<Note>, ranges: Seq<ScanRange>, j: int, m: int, k: int)
    requires
        0 <= j < ranges.len(),
        0 <= m < notes.len(),
        ranges[j].start <= notes[m].tick && notes[m].tick < ranges[j].end,
        0 <= k < targets.len(),
        plays_back(insts, targets[k], any_solo),
    ensures
        ons_for_track(insts, targets, any_solo, notes, ranges).contains(
            note_on_of(targets[k], notes[m], (ranges[j].base + (notes[m].tick - ranges[j].start)) as u64)),
    decreases ranges.len(),
{
    let rest = ranges.drop_last();
    let r = ranges[j];
    let v = note_on_of(targets[k], notes[m], (r.base + (notes[m].tick - r.start)) as u64);
    if j == ranges.len() - 1 {
        assert(ranges.last() == r);
        lemma_ons_in_range_complete(insts, targets, any_solo, notes, r, m, k);
        lemma_concat_contains(ons_for_track(insts, targets, any_solo, notes, rest), ons_in_range(insts, targets, any_solo, notes, r), v);
    } else {
        assert(rest[j] == r);
        lemma_ons_for_track_complete(insts, targets, any_solo, notes, rest, j, m, k);
        lemma_concat_contains(ons_for_track(insts, targets, any_solo, notes, rest),
            ons_in_range(insts, targets, any_solo, notes, ranges.last()), v);
    }
}

/// Every note of a track that starts in a crossed stretch, at or after its
/// start and before its end, is started on every member of the track's layer
/// group that sounds, with its ticks after the old playhead.
pub proof fn law_note_ons_cover_crossed_notes(insts: Seq<Instrument>, tracks: Seq<Track>, ranges: Seq<ScanRange>, ti: int, j: int, m: int, k: int)
    requires
        0 <= ti < tracks.len(),
        0 <= j < ranges.len(),
        0 <= m < tracks[ti].notes@.len(),
        ranges[j].start <= tracks[ti].notes@[m].tick && tracks[ti].notes@[m].tick < ranges[j].end,
        0 <= k < group_members(insts, tracks[ti].instrument_id).len(),
        plays_back(insts, group_members(insts, tracks[ti].instrument_id)[k], any_solo_spec(insts)),
    ensures
        note_ons(insts, tracks, ranges).contains(note_on_of(
            group_members(insts, tracks[ti].instrument_id)[k],
            tracks[ti].notes@[m],
            (ranges[j].base + (tracks[ti].notes@[m].tick - ranges[j].start)) as u64,
        )),
    decreases tracks.len(),
{
    let rest = tracks.drop_last();
    let t = tracks[ti];
    let n = t.notes@[m];
    let v = note_on_of(group_members(insts, t.instrument_id)[k], n, (ranges[j].base + (n.tick - ranges[j].start)) as u64);
    let last = tracks.last();
    if ti == tracks.len() - 1 {
        assert(last == t);
        lemma_ons_for_track_complete(insts, group_members(insts, t.instrument_id), any_solo_spec(insts), t.notes@, ranges, j, m, k);
        lemma_concat_contains(note_ons(insts, rest, ranges),
            ons_for_track(insts, group_members(insts, t.instrument_id), any_solo_spec(insts), t.notes@, ranges), v);
    } else {
        assert(rest[ti] == t);
        law_note_ons_cover_crossed_notes(insts, rest, ranges, ti, j, m, k);
        lemma_concat_contains(note_ons(insts, rest, ranges),
            ons_for_track(insts, group_members(insts, last.instrument_id), any_solo_spec(insts), last.notes@, ranges), v);
    }
}

impl InstrumentState {
    /// Whether any instrument is soloed.
    pub fn any_instrument_solo(&self) -> (r: bool)
        ensures
            r == any_solo_spec(self.instruments@),
    {
        let mut i: usize = 0;
        while i < self.instruments.len()
            invariant
                i <= self.instruments@.len(),
                forall|k: int| 0 <= k < i ==> !self.instruments@[k].solo,
            decreases self.instruments@.len() - i,
        {
            if self.instruments[i].solo {
                return true;
            }
            i = i + 1;
        }
        false
    }

    /// The instruments a note for `id` is played on (see `group_members`).
    pub fn layer_group_members(&self, id: InstrumentId) -> (r: Vec<InstrumentId>)
        requires
            self.wf(),
        ensures
            r@ == group_members(self.instruments@, id),
    {
        let s = &self.instruments;
        let g = match self.index_of(id) {
            Some(k) => {
                proof { crate::instrument::lemma_group_of(s@, id, k as int); }
                s[k].layer_group
            },
            None => {
                assert(!(exists|k: int| 0 <= k < s@.len() && s@[k].id == id));
                None
            },
        };
        match g {
            Some(group) => {
                let mut out: Vec<InstrumentId> = Vec::new();
                let mut i: usize = 0;
                while i < s.len()
                    invariant
                        i <= s@.len(),
                        out@ == group_ids(s@.subrange(0, i as int), group),
                    decreases s@.len() - i,
                {
                    proof {
                        assert(s@.subrange(0, i + 1).drop_last() =~= s@.subrange(0, i as int));
                    }
                    if s[i].layer_group == Some(group) {
                        out.push(s[i].id);
                    }
                    i = i + 1;
                }
                assert(s@.subrange(0, i as int) =~= s@);
                out
            },
            None => {
                let v = vec![id];
                assert(v@ =~= seq![id]);
                v
            },
        }
    }

    /// Whether the instrument with id `id` exists and sounds in playback.
    pub fn plays_in_playback(&self, id: InstrumentId, any_solo: bool) -> (r: bool)
        requires
            self.wf(),
        ensures
            r == plays_back(self.instruments@, id, any_solo),
    {
        match self.index_of(id) {
            Some(k) => {
                let inst = &self.instruments[k];
                let r = inst.active && (if any_solo { inst.solo } else { !inst.mute });
                if !r {
                    assert forall|j: int| 0 <= j < self.instruments@.len() && self.instruments@[j].id == id
                        implies !audible(self.instruments@[j], any_solo) by {
                        if j != k as int {
                            assert(self.instruments@[j].id != self.instruments@[k as int].id);
                        }
                    }
                }
                r
            },
            None => false,
        }
    }
}

/// Append the note-ons of one note on the targets that sound.
fn push_ons_for_note(
    insts: &InstrumentState,
    targets: &Vec<InstrumentId>,
    any_solo: bool,
    n: Note,
    off: u64,
    out: &mut Vec<NoteOn>,
)
    requires
        insts.wf(),
    ensures
        final(out)@ == old(out)@ + ons_for_note(insts.instruments@, targets@, any_solo, n, off),
{
    let ghost o = out@;
    let mut i: usize = 0;
    while i < targets.len()
        invariant
            i <= targets@.len(),
            insts.wf(),
            out@ == o + ons_for_note(insts.instruments@, targets@.subrange(0, i as int), any_solo, n, off),
        decreases targets@.len() - i,
    {
        let t = targets[i];
        proof {
            assert(targets@.subrange(0, i + 1).drop_last() =~= targets@.subrange(0, i as int));
        }
        if insts.plays_in_playback(t, any_solo) {
            out.push(NoteOn { instrument_id: t, pitch: n.pitch, velocity: n.velocity, duration: n.duration, tick: n.tick, ticks_from_old: off });
        }
        i = i + 1;
    }
    assert(targets@.subrange(0, i as int) =~= targets@);
}

/// Append the note-ons of the notes that start in one stretch.
fn push_ons_in_range(
    insts: &InstrumentState,
    targets: &Vec<InstrumentId>,
    any_solo: bool,
    notes: &Vec<Note>,
    r: ScanRange,
    out: &mut Vec<NoteOn>,
)
    requires
        insts.wf(),
    ensures
        final(out)@ == old(out)@ + ons_in_range(insts.instruments@, targets@, any_solo, notes@, r),
{
    let ghost o = out@;
    let mut i: usize = 0;
    while i < notes.len()
        invariant
            i <= notes@.len(),
            insts.wf(),
            out@ == o + ons_in_range(insts.instruments@, targets@, any_solo, notes@.subrange(0, i as int), r),
        decreases notes@.len() - i,
    {
        let n = notes[i];
        let ghost before = out@;
        proof {
            assert(notes@.subrange(0, i + 1).drop_last() =~= notes@.subrange(0, i as int));
        }
        if r.start <= n.tick && n.tick < r.end {
            let off: u64 = r.base as u64 + (n.tick - r.start) as u64;
            push_ons_for_note(insts, targets, any_solo, n, off, out);
            proof {
                let prev = ons_in_range(insts.instruments@, targets@, any_solo, notes@.subrange(0, i as int), r);
                let add = ons_for_note(insts.instruments@, targets@, any_solo, n, off);
                assert(out@ =~= o + (prev + add));
            }
        }
        i = i + 1;
    }
    assert(notes@.subrange(0, i as int) =~= notes@);
}

/// Append the note-ons of one track, stretch by stretch.
fn push_ons_for_track(
    insts: &InstrumentState,
    targets: &Vec<InstrumentId>,
    any_solo: bool,
    notes: &Vec<Note>,
    ranges: &Vec<ScanRange>,
    out: &mut Vec<NoteOn>,
)
    requires
        insts.wf(),
    ensures
        final(out)@ == old(out)@ + ons_for_track(insts.instruments@, targets@, any_solo, notes@, ranges@),
{
    let ghost o = out@;
    let mut i: usize = 0;
    while i < ranges.len()
        invariant
            i <= ranges@.len(),
            insts.wf(),
            out@ == o + ons_for_track(insts.instruments@, targets@, any_solo, notes@, ranges@.subrange(0, i as int)),
        decreases ranges@.len() - i,
    {
        proof {
            assert(ranges@.subrange(0, i + 1).drop_last() =~= ranges@.subrange(0, i as int));
        }
        let ghost prev = out@;
        push_ons_in_range(insts, targets, any_solo, notes, ranges[i], out);
        proof {
            let p = ons_for_track(insts.instruments@, targets@, any_solo, notes@, ranges@.subrange(0, i as int));
            let add = ons_in_range(insts.instruments@, targets@, any_solo, notes@, ranges@[i as int]);
            assert(out@ =~= o + (p + add));
        }
        i = i + 1;
    }
    assert(ranges@.subrange(0, i as int) =~= ranges@);
}

/// The notes that start in the stretches the playhead crossed, track by
/// track, fanned out to each track's layer group members that sound.
pub fn collect_note_ons(instruments: &InstrumentState, piano_roll: &PianoRollState, ranges: &Vec<ScanRange>) -> (r: Vec<NoteOn>)
    requires
        instruments.wf(),
    ensures
        r@ == note_ons(instruments.instruments@, piano_roll.tracks@, ranges@),
{
    let any_solo = instruments.any_instrument_solo();
    let tracks = &piano_roll.tracks;
    let mut out: Vec<NoteOn> = Vec::new();
    let mut i: usize = 0;
    while i < tracks.len()
        invariant
            i <= tracks@.len(),
            instruments.wf(),
            any_solo == any_solo_spec(instruments.instruments@),
            out@ == note_ons(instruments.instruments@, tracks@.subrange(0, i as int), ranges@),
        decreases tracks@.len() - i,
    {
        proof {
            assert(tracks@.subrange(0, i + 1).drop_last() =~= tracks@.subrange(0, i as int));
        }
        let targets = instruments.layer_group_members(tracks[i].instrument_id);
        push_ons_for_track(instruments, &targets, any_solo, &tracks[i].notes, ranges, &mut out);
        i = i + 1;
    }
    assert(tracks@.subrange(0, i as int) =~= tracks@);
    out
}

/// The sounding notes `delta` ticks later: a note with more than `delta`
/// ticks left keeps sounding, with `delta` fewer.
pub open spec fn notes_still_sounding(active: Seq<ActiveNote>, delta: u32) -> Seq<ActiveNote>
    decreases active.len(),
{
    if active.len() == 0 {
        Seq::empty()
    } else {
        let rest = notes_still_sounding(active.drop_last(), delta);
        let a = active.last();
        if a.2 > delta { rest.push((a.0, a.1, (a.2 - delta) as u32)) } else { rest }
    }
}

/// The notes that end within `delta` ticks, each with the ticks it had left.
pub open spec fn notes_ending(active: Seq<ActiveNote>, delta: u32) -> Seq<ActiveNote>
    decreases active.len(),
{
    if active.len() == 0 {
        Seq::empty()
    } else {
        let rest = notes_ending(active.drop_last(), delta);
        let a = active.last();
        if a.2 <= delta { rest.push(a) } else { rest }
    }
}

/// Move the sounding notes `delta` ticks on; returns the notes that ended,
/// for the caller to release.
pub fn advance_active_notes(active: &mut Vec<ActiveNote>, delta: u32) -> (ended: Vec<ActiveNote>)
    ensures
        ended@ == notes_ending(old(active)@, delta),
        final(active)@ == notes_still_sounding(old(active)@, delta),
{
    let ghost o = active@;
    let mut ended: Vec<ActiveNote> = Vec::new();
    let mut kept: Vec<ActiveNote> = Vec::new();
    let mut i: usize = 0;
    while i < active.len()
        invariant
            i <= o.len(),
            active@ == o,
            ended@ == notes_ending(o.subrange(0, i as int), delta),
            kept@ == notes_still_sounding(o.subrange(0, i as int), delta),
        decreases o.len() - i,
    {
        proof {
            assert(o.subrange(0, i + 1).drop_last() =~= o.subrange(0, i as int));
        }
        let a = active[i];
        if a.2 <= delta {
            ended.push(a);
        } else {
            kept.push((a.0, a.1, a.2 - delta));
        }
        i = i + 1;
    }
    assert(o.subrange(0, i as int) =~= o);
    *active = kept;
    ended
}

/// Strictly ascending pitches.
pub open spec fn ascending(s: Seq<u8>) -> bool {
    forall|i: int, j: int| 0 <= i < j < s.len() ==> s[i] < s[j]
}

/// Hold a pitch in an arpeggiator's ascending set of held notes.
pub fn hold_arp_note(held: &mut Vec<u8>, pitch: u8)
    requires
        ascending(old(held)@),
    ensures
        ascending(final(held)@),
        final(held)@.to_set() == old(held)@.to_set().insert(pitch),
{
    let ghost o = held@;
    let mut i: usize = 0;
    while i < held.len() && held[i] < pitch
        invariant
            i <= o.len(),
            held@ == o,
            forall|k: int| 0 <= k < i ==> o[k] < pitch,
        decreases o.len() - i,
    {
        i = i + 1;
    }
    if i < held.len() && held[i] == pitch {
        assert(o.to_set() =~= o.to_set().insert(pitch)) by {
            assert(o.contains(o[i as int]));
        }
        return;
    }
    held.insert(i, pitch);
    proof {
        let n = held@;
        assert(n =~= o.subrange(0, i as int).push(pitch) + o.subrange(i as int, o.len() as int));
        assert forall|a: int, b: int| 0 <= a < b < n.len() implies n[a] < n[b] by {
            if b < i as int {
            } else if b == i as int {
                assert(n[a] == o[a]);
            } else if a < i as int {
                assert(n[b] == o[b - 1]);
                assert(o[b - 1] >= pitch);
            } else if a == i as int {
                assert(n[b] == o[b - 1]);
                assert(o[b - 1] != pitch);
            } else {
                assert(n[a] == o[a - 1] && n[b] == o[b - 1]);
            }
        }
        assert forall|x: u8| n.to_set().contains(x) <==> o.to_set().insert(pitch).contains(x) by {
            if n.contains(x) {
                let k = choose|k: int| 0 <= k < n.len() && n[k] == x;
                if k < i { assert(o[k] == x); } else if k > i { assert(o[k - 1] == x); }
            }
            if o.contains(x) {
                let k = choose|k: int| 0 <= k < o.len() && o[k] == x;
                if k < i { assert(n[k] == x); } else { assert(n[k + 1] == x); }
            }
            if x == pitch {
                assert(n[i as int] == pitch);
            }
        }
        assert(n.to_set() =~= o.to_set().insert(pitch));
    }
}

/// Let go of a pitch in an arpeggiator's held notes.
pub fn release_arp_note(held: &mut Vec<u8>, pitch: u8)
    ensures
        final(held)@ == old(held)@.filter(|p: u8| p != pitch),
{
    let ghost o = held@;
    let mut kept: Vec<u8> = Vec::new();
    let mut i: usize = 0;
    while i < held.len()
        invariant
            i <= o.len(),
            held@ == o,
            kept@ == o.subrange(0, i as int).filter(|p: u8| p != pitch),
        decreases o.len() - i,
    {
        proof {
            reveal_with_fuel(Seq::<_>::filter, 1);
            assert(o.subrange(0, i + 1).drop_last() =~= o.subrange(0, i as int));
        }
        if held[i] != pitch {
            kept.push(held[i]);
        }
        i = i + 1;
    }
    assert(o.subrange(0, i as int) =~= o);
    *held = kept;
}

/// The beat of the bar that `tick` falls in (0 is the downbeat).
pub open spec fn beat_in_bar_spec(tick: u32, beats_per_bar: u32, ticks_per_beat: u32) -> u32 {
    let ticks_per_bar = beats_per_bar * ticks_per_beat;
    if ticks_per_bar > 0 { ((tick % (ticks_per_bar as u32)) / ticks_per_beat) as u32 } else { 0 }
}

/// The beat of the bar that `tick` falls in, for the click track.
pub fn beat_in_bar(tick: u32, beats_per_bar: u32, ticks_per_beat: u32) -> (b: u32)
    requires
        beats_per_bar * ticks_per_beat <= u32::MAX,
    ensures
        b == beat_in_bar_spec(tick, beats_per_bar, ticks_per_beat),
{
    let ticks_per_bar = beats_per_bar * ticks_per_beat;
    if ticks_per_bar > 0 {
        assert(ticks_per_beat > 0) by (nonlinear_arith)
            requires
                ticks_per_bar == beats_per_bar * ticks_per_beat,
                ticks_per_bar > 0,
        ;
        (tick % ticks_per_bar) / ticks_per_beat
    } else {
        0
    }
}

} // verus!
