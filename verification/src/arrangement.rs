//! The song arrangement: clips of notes, their placements on the timeline,
//! the cursor and zoom of the arrangement view, and editing a clip in the
//! piano roll.
use vstd::prelude::*;

use crate::action::{AudioEffect, AudioSideEffect, DispatchResult, NavIntent, PaneId};
use crate::piano_roll::{notes_distinct, Note, PianoRollState, Track};
use crate::state::{AppState, InstrumentId};
use crate::names::{clip_default_name, default_clip_name};

verus! {

/// Whether the transport plays the piano roll pattern or the arrangement.
#[derive(Clone, Copy, PartialEq, Eq, Structural, Debug)]
pub enum PlayMode {
    Pattern,
    Song,
}

/// A clip: a named stretch of notes for one instrument. Its automation
/// lanes are not part of this model.
#[derive(Clone, Debug)]
pub struct Clip {
    pub id: u32,
    pub name: String,
    pub instrument_id: InstrumentId,
    pub length_ticks: u32,
    pub notes: Vec<Note>,
}

/// A clip placed on the timeline.
#[derive(Clone, Copy, PartialEq, Eq, Structural, Debug)]
pub struct ClipPlacement {
    pub id: u32,
    pub clip_id: u32,
    pub instrument_id: InstrumentId,
    pub start_tick: u32,
    pub length_override: Option<u32>,
}

/// What editing a clip in the piano roll put aside, to be restored when the
/// edit ends. The stashed automation lanes are not part of this model.
#[derive(Clone, Debug)]
pub struct ClipEditContext {
    pub clip_id: u32,
    pub instrument_id: InstrumentId,
    pub stashed_notes: Vec<Note>,
    pub stashed_loop_start: u32,
    pub stashed_loop_end: u32,
    pub stashed_looping: bool,
}

/// The arrangement.
#[derive(Clone, Debug)]
pub struct ArrangementState {
    pub clips: Vec<Clip>,
    pub placements: Vec<ClipPlacement>,
    pub next_clip_id: u32,
    pub next_placement_id: u32,
    pub play_mode: PlayMode,
    pub selected_placement: Option<usize>,
    pub selected_lane: usize,
    pub cursor_tick: u32,
    pub view_start_tick: u32,
    pub ticks_per_col: u32,
    pub editing_clip: Option<ClipEditContext>,
}

/// Narrowest zoom, in ticks per column.
pub const MIN_TICKS_PER_COL: u32 = 30;
/// Widest zoom, in ticks per column.
pub const MAX_TICKS_PER_COL: u32 = 1920;

/// The tick where a placement ends: its start plus its own length or the clip's.
pub open spec fn end_tick(p: ClipPlacement, clip_length: u32) -> int {
    p.start_tick + match p.length_override {
        Some(l) => l,
        None => clip_length,
    }
}

/// `p` is the first index whose element has id `id` (for clips).
pub open spec fn first_clip(clips: Seq<Clip>, id: u32, p: int) -> bool {
    &&& 0 <= p < clips.len()
    &&& clips[p].id == id
    &&& forall|k: int| 0 <= k < p ==> clips[k].id != id
}

/// `p` is the first index whose element has id `id` (for placements).
pub open spec fn first_placement(ps: Seq<ClipPlacement>, id: u32, p: int) -> bool {
    &&& 0 <= p < ps.len()
    &&& ps[p].id == id
    &&& forall|k: int| 0 <= k < p ==> ps[k].id != id
}

/// Whether a clip with this id exists.
pub open spec fn has_clip(clips: Seq<Clip>, id: u32) -> bool {
    exists|p: int| 0 <= p < clips.len() && clips[p].id == id
}

/// Whether a placement with this id exists.
pub open spec fn has_placement(ps: Seq<ClipPlacement>, id: u32) -> bool {
    exists|p: int| 0 <= p < ps.len() && ps[p].id == id
}

impl ArrangementState {
    /// An empty arrangement in pattern mode, cursor at the start, one beat per column.
    pub fn new() -> (a: Self)
        ensures
            a.clips@.len() == 0,
            a.placements@.len() == 0,
            a.next_clip_id == 1,
            a.next_placement_id == 1,
            a.play_mode == PlayMode::Pattern,
            a.selected_placement is None,
            a.selected_lane == 0,
            a.cursor_tick == 0,
            a.view_start_tick == 0,
            a.ticks_per_col == 480,
            a.editing_clip is None,
    {
        ArrangementState {
            clips: Vec::new(),
            placements: Vec::new(),
            next_clip_id: 1,
            next_placement_id: 1,
            play_mode: PlayMode::Pattern,
            selected_placement: None,
            selected_lane: 0,
            cursor_tick: 0,
            view_start_tick: 0,
            ticks_per_col: 480,
            editing_clip: None,
        }
    }

    /// Position of the first clip with this id.
    pub fn clip_index(&self, id: u32) -> (r: Option<usize>)
        ensures
            match r {
                Some(p) => first_clip(self.clips@, id, p as int),
                None => !has_clip(self.clips@, id),
            },
    {
        let mut i: usize = 0;
        while i < self.clips.len()
            invariant
                i <= self.clips@.len(),
                forall|k: int| 0 <= k < i ==> self.clips@[k].id != id,
            decreases self.clips@.len() - i,
        {
            if self.clips[i].id == id {
                return Some(i);
            }
            i = i + 1;
        }
        None
    }

    /// Position of the first placement with this id.
    pub fn placement_index(&self, id: u32) -> (r: Option<usize>)
        ensures
            match r {
                Some(p) => first_placement(self.placements@, id, p as int),
                None => !has_placement(self.placements@, id),
            },
    {
        let mut i: usize = 0;
        while i < self.placements.len()
            invariant
                i <= self.placements@.len(),
                forall|k: int| 0 <= k < i ==> self.placements@[k].id != id,
            decreases self.placements@.len() - i,
        {
            if self.placements[i].id == id {
                return Some(i);
            }
            i = i + 1;
        }
        None
    }
}


/// Clip `c` has these fields and no notes.
pub open spec fn new_clip(c: Clip, id: u32, name: Seq<char>, instrument_id: InstrumentId, length: u32) -> bool {
    &&& c.id == id
    &&& c.name@ == name
    &&& c.instrument_id == instrument_id
    &&& c.length_ticks == length
    &&& c.notes@.len() == 0
}

/// The view fields of two arrangements agree.
pub open spec fn same_view(o: ArrangementState, n: ArrangementState) -> bool {
    &&& n.play_mode == o.play_mode
    &&& n.selected_placement == o.selected_placement
    &&& n.selected_lane == o.selected_lane
    &&& n.cursor_tick == o.cursor_tick
    &&& n.view_start_tick == o.view_start_tick
    &&& n.ticks_per_col == o.ticks_per_col
    &&& n.editing_clip == o.editing_clip
}

/// Only the placements changed, as `rel` relates the old list to the new.
pub open spec fn placements_edited(o: ArrangementState, n: ArrangementState, id: u32, f: spec_fn(ClipPlacement) -> ClipPlacement) -> bool {
    &&& same_view(o, n)
    &&& n.clips == o.clips
    &&& n.next_clip_id == o.next_clip_id
    &&& n.next_placement_id == o.next_placement_id
    &&& !has_placement(o.placements@, id) ==> n.placements@ == o.placements@
    &&& forall|p: int| first_placement(o.placements@, id, p) ==> n.placements@ == o.placements@.update(p, f(o.placements@[p]))
}

impl ArrangementState {
    /// Add a clip without notes; returns its id.
    pub fn add_clip(&mut self, name: String, instrument_id: InstrumentId, length: u32) -> (id: u32)
        requires
            old(self).next_clip_id < u32::MAX,
        ensures
            id == old(self).next_clip_id,
            final(self).next_clip_id == id + 1,
            final(self).clips@.len() == old(self).clips@.len() + 1,
            final(self).clips@.drop_last() == old(self).clips@,
            new_clip(final(self).clips@.last(), id, name@, instrument_id, length),
            final(self).placements == old(self).placements,
            final(self).next_placement_id == old(self).next_placement_id,
            same_view(*old(self), *final(self)),
    {
        let id = self.next_clip_id;
        self.next_clip_id = id + 1;
        self.clips.push(Clip { id, name, instrument_id, length_ticks: length, notes: Vec::new() });
        assert(self.clips@.drop_last() =~= old(self).clips@);
        id
    }

    /// Remove the clip with this id and every placement of it.
    pub fn remove_clip(&mut self, id: u32)
        ensures
            !has_clip(old(self).clips@, id) ==> final(self).clips@ == old(self).clips@,
            forall|p: int| first_clip(old(self).clips@, id, p) ==> final(self).clips@ == old(self).clips@.remove(p),
            final(self).placements@ == old(self).placements@.filter(|q: ClipPlacement| q.clip_id != id),
            final(self).next_clip_id == old(self).next_clip_id,
            final(self).next_placement_id == old(self).next_placement_id,
            same_view(*old(self), *final(self)),
    {
        if let Some(p) = self.clip_index(id) {
            self.clips.remove(p);
            assert forall|q: int| first_clip(old(self).clips@, id, q) implies q == p as int by {
                if q < p { assert(old(self).clips@[q].id != id); }
                if q > p { assert(old(self).clips@[p as int].id != id); }
            }
        }
        let ghost o = self.placements@;
        let mut kept: Vec<ClipPlacement> = Vec::new();
        let mut i: usize = 0;
        while i < self.placements.len()
            invariant
                i <= o.len(),
                self.placements@ == o,
                kept@ == o.subrange(0, i as int).filter(|q: ClipPlacement| q.clip_id != id),
            decreases o.len() - i,
        {
            let q = self.placements[i];
            proof {
                reveal_with_fuel(Seq::<_>::filter, 1);
                assert(o.subrange(0, i + 1).drop_last() =~= o.subrange(0, i as int));
            }
            if q.clip_id != id {
                kept.push(q);
            }
            i = i + 1;
        }
        assert(o.subrange(0, i as int) =~= o);
        self.placements = kept;
    }

    /// Place a clip on the timeline; returns the placement's id.
    pub fn add_placement(&mut self, clip_id: u32, instrument_id: InstrumentId, start_tick: u32) -> (id: u32)
        requires
            old(self).next_placement_id < u32::MAX,
        ensures
            id == old(self).next_placement_id,
            final(self).next_placement_id == id + 1,
            final(self).placements@ == old(self).placements@.push(
                ClipPlacement { id, clip_id, instrument_id, start_tick, length_override: None }),
            final(self).clips == old(self).clips,
            final(self).next_clip_id == old(self).next_clip_id,
            same_view(*old(self), *final(self)),
    {
        let id = self.next_placement_id;
        self.next_placement_id = id + 1;
        self.placements.push(ClipPlacement { id, clip_id, instrument_id, start_tick, length_override: None });
        id
    }

    /// Remove the placement with this id.
    pub fn remove_placement(&mut self, id: u32)
        ensures
            !has_placement(old(self).placements@, id) ==> final(self).placements@ == old(self).placements@,
            forall|p: int| first_placement(old(self).placements@, id, p) ==> final(self).placements@ == old(self).placements@.remove(p),
            final(self).clips == old(self).clips,
            final(self).next_clip_id == old(self).next_clip_id,
            final(self).next_placement_id == old(self).next_placement_id,
            same_view(*old(self), *final(self)),
    {
        if let Some(p) = self.placement_index(id) {
            self.placements.remove(p);
            assert forall|q: int| first_placement(old(self).placements@, id, q) implies q == p as int by {
                if q < p { assert(old(self).placements@[q].id != id); }
                if q > p { assert(old(self).placements@[p as int].id != id); }
            }
        }
    }

    /// Change the placement with this id by `f`.
    fn edit_placement(&mut self, id: u32, start: Option<u32>, length: Option<u32>)
        ensures
            placements_edited(*old(self), *final(self), id, |q: ClipPlacement| ClipPlacement {
                start_tick: match start { Some(s) => s, None => q.start_tick },
                length_override: match length { Some(l) => Some(l), None => q.length_override },
                ..q
            }),
    {
        if let Some(p) = self.placement_index(id) {
            let q = self.placements[p];
            let s = match start { Some(s) => s, None => q.start_tick };
            let l = match length { Some(l) => Some(l), None => q.length_override };
            self.placements.set(p, ClipPlacement { start_tick: s, length_override: l, ..q });
            assert forall|k: int| first_placement(old(self).placements@, id, k) implies k == p as int by {
                if k < p { assert(old(self).placements@[k].id != id); }
                if k > p { assert(old(self).placements@[p as int].id != id); }
            }
        }
    }

    /// Move the placement with this id to start at `new_start`.
    pub fn move_placement(&mut self, id: u32, new_start: u32)
        ensures
            placements_edited(*old(self), *final(self), id, |q: ClipPlacement| ClipPlacement { start_tick: new_start, ..q }),
    {
        self.edit_placement(id, Some(new_start), None);
    }

    /// Give the placement with this id its own length.
    pub fn resize_placement(&mut self, id: u32, new_length: u32)
        ensures
            placements_edited(*old(self), *final(self), id, |q: ClipPlacement| ClipPlacement { length_override: Some(new_length), ..q }),
    {
        self.edit_placement(id, None, Some(new_length));
    }
}


/// The notes of a captured clip: the notes starting in `start..end`, moved
/// to start from tick 0 and cut at the clip's end; notes cut to nothing are
/// dropped.
pub open spec fn captured_notes(notes: Seq<Note>, start: u32, end: u32) -> Seq<Note>
    decreases notes.len(),
{
    if notes.len() == 0 {
        Seq::empty()
    } else {
        let prev = captured_notes(notes.drop_last(), start, end);
        let n = notes.last();
        if start <= n.tick < end {
            let t = n.tick - start;
            let len = end - start;
            let d = if t + n.duration > len { len - t } else { n.duration as int };
            if d > 0 { prev.push(Note { tick: t as u32, duration: d as u32, ..n }) } else { prev }
        } else {
            prev
        }
    }
}

/// Position of the first track of an instrument.
pub open spec fn first_track(tracks: Seq<Track>, id: InstrumentId, t: int) -> bool {
    &&& 0 <= t < tracks.len()
    &&& tracks[t].instrument_id == id
    &&& forall|k: int| 0 <= k < t ==> tracks[k].instrument_id != id
}

/// Whether an instrument has a track.
pub open spec fn has_track(tracks: Seq<Track>, id: InstrumentId) -> bool {
    exists|t: int| 0 <= t < tracks.len() && tracks[t].instrument_id == id
}

/// The notes of the first track of an instrument (none without a track).
pub open spec fn track_notes_of(tracks: Seq<Track>, id: InstrumentId) -> Seq<Note> {
    if has_track(tracks, id) {
        tracks[choose|t: int| first_track(tracks, id, t)].notes@
    } else {
        Seq::empty()
    }
}

/// `n` is `o` with the notes of track `t` set to `notes`.
pub open spec fn roll_track_set(o: Seq<Track>, n: Seq<Track>, t: int, notes: Seq<Note>) -> bool {
    &&& n.len() == o.len()
    &&& forall|k: int| 0 <= k < o.len() && k != t ==> n[k] == o[k]
    &&& n[t].instrument_id == o[t].instrument_id
    &&& n[t].notes@ == notes
}

/// `n` is `o` with clip `p` given these notes and length.
pub open spec fn clip_contents_set(o: Seq<Clip>, n: Seq<Clip>, p: int, notes: Seq<Note>, length: u32) -> bool {
    &&& n.len() == o.len()
    &&& forall|k: int| 0 <= k < o.len() && k != p ==> n[k] == o[k]
    &&& n[p].id == o[p].id
    &&& n[p].name == o[p].name
    &&& n[p].instrument_id == o[p].instrument_id
    &&& n[p].notes@ == notes
    &&& n[p].length_ticks == length
}

/// First-track lookup agrees with `track_notes_of`.
pub proof fn lemma_first_track_notes(tracks: Seq<Track>, id: InstrumentId, t: int)
    requires
        first_track(tracks, id, t),
    ensures
        track_notes_of(tracks, id) == tracks[t].notes@,
{
    lemma_first_track(tracks, id, t);
}

/// A track of this instrument has a first position.
pub proof fn lemma_first_track_exists(tracks: Seq<Track>, id: InstrumentId, t: int)
    requires
        0 <= t < tracks.len(),
        tracks[t].instrument_id == id,
    ensures
        exists|u: int| first_track(tracks, id, u),
    decreases t,
{
    if exists|k: int| 0 <= k < t && tracks[k].instrument_id == id {
        let k = choose|k: int| 0 <= k < t && tracks[k].instrument_id == id;
        lemma_first_track_exists(tracks, id, k);
    } else {
        assert(first_track(tracks, id, t));
    }
}

/// First-track lookup agrees with `track_notes_of`.
proof fn lemma_first_track(tracks: Seq<Track>, id: InstrumentId, t: int)
    requires
        first_track(tracks, id, t),
    ensures
        track_notes_of(tracks, id) == tracks[t].notes@,
{
    let c = choose|c: int| first_track(tracks, id, c);
    assert(first_track(tracks, id, c));
    if c < t { assert(tracks[c].instrument_id != id); }
    if c > t { assert(tracks[t].instrument_id != id); }
}

/// Position of the first track of an instrument.
fn track_index(tracks: &Vec<Track>, id: InstrumentId) -> (r: Option<usize>)
    ensures
        match r {
            Some(t) => first_track(tracks@, id, t as int),
            None => !has_track(tracks@, id),
        },
{
    let mut i: usize = 0;
    while i < tracks.len()
        invariant
            i <= tracks@.len(),
            forall|k: int| 0 <= k < i ==> tracks@[k].instrument_id != id,
        decreases tracks@.len() - i,
    {
        if tracks[i].instrument_id == id {
            return Some(i);
        }
        i = i + 1;
    }
    None
}

/// A copy of a note list.
fn copy_note_list(v: &Vec<Note>) -> (r: Vec<Note>)
    ensures
        r@ == v@,
{
    let mut r: Vec<Note> = Vec::new();
    let mut i: usize = 0;
    while i < v.len()
        invariant
            i <= v@.len(),
            r@ == v@.subrange(0, i as int),
        decreases v@.len() - i,
    {
        r.push(v[i]);
        i = i + 1;
        assert(r@ =~= v@.subrange(0, i as int));
    }
    assert(v@.subrange(0, i as int) =~= v@);
    r
}

/// The notes of a track captured between two ticks.
fn capture_notes(notes: &Vec<Note>, start: u32, end: u32) -> (r: Vec<Note>)
    ensures
        r@ == captured_notes(notes@, start, end),
{
    let mut r: Vec<Note> = Vec::new();
    let mut i: usize = 0;
    while i < notes.len()
        invariant
            i <= notes@.len(),
            r@ == captured_notes(notes@.subrange(0, i as int), start, end),
        decreases notes@.len() - i,
    {
        let n = notes[i];
        assert(notes@.subrange(0, i + 1).drop_last() =~= notes@.subrange(0, i as int));
        if start <= n.tick && n.tick < end {
            let t: u32 = n.tick - start;
            let len: u32 = end - start;
            let d: u32 = if n.duration as u64 + t as u64 > len as u64 { len - t } else { n.duration };
            if d > 0 {
                r.push(Note { tick: t, duration: d, ..n });
            }
        }
        i = i + 1;
    }
    assert(notes@.subrange(0, i as int) =~= notes@);
    r
}


impl ArrangementState {
    /// Clip notes, and notes put aside by a clip edit, are distinct by pitch and tick.
    pub open spec fn wf(&self) -> bool {
        &&& forall|p: int| 0 <= p < self.clips@.len() ==> notes_distinct((#[trigger] self.clips@[p]).notes@)
        &&& match self.editing_clip {
            Some(ctx) => notes_distinct(ctx.stashed_notes@),
            None => true,
        }
    }
}

/// The state change of `EnterClipEdit`: the piano roll track of the clip's
/// instrument shows the clip's notes over a loop of the clip's length, and
/// what it showed before is put aside. Nothing changes without the clip or
/// without a track for its instrument.
pub open spec fn clip_edit_entered(o: AppState, n: AppState, clip_id: u32) -> bool {
    let oa = o.session.arrangement;
    let opr = o.session.piano_roll;
    let npr = n.session.piano_roll;
    if exists|p: int| first_clip(oa.clips@, clip_id, p) && has_track(opr.tracks@, #[trigger] oa.clips@[p].instrument_id) {
        forall|p: int, t: int| first_clip(oa.clips@, clip_id, p) && #[trigger] first_track(opr.tracks@, oa.clips@[p].instrument_id, t) ==> {
            let c = oa.clips@[p];
            &&& roll_track_set(opr.tracks@, npr.tracks@, t, c.notes@)
            &&& npr == PianoRollState { tracks: npr.tracks, loop_start: 0, loop_end: c.length_ticks, looping: true, ..opr }
            &&& n.audio == crate::piano_roll::AudioState { playhead: 0, ..o.audio }
            &&& n.session.arrangement == ArrangementState { editing_clip: n.session.arrangement.editing_clip, ..oa }
            &&& n.session.arrangement.editing_clip matches Some(ctx)
            &&& ctx.clip_id == clip_id
            &&& ctx.instrument_id == c.instrument_id
            &&& ctx.stashed_notes@ == opr.tracks@[t].notes@
            &&& ctx.stashed_loop_start == opr.loop_start
            &&& ctx.stashed_loop_end == opr.loop_end
            &&& ctx.stashed_looping == opr.looping
        }
    } else {
        n.session.piano_roll == opr && n.session.arrangement == oa && n.audio == o.audio
    }
}

/// The state change of `ExitClipEdit`: the clip takes the notes of its
/// instrument's track and the loop end as its length, and the piano roll
/// gets back what was put aside. Nothing changes when no clip is edited.
pub open spec fn clip_edit_exited(o: AppState, n: AppState) -> bool {
    let oa = o.session.arrangement;
    let opr = o.session.piano_roll;
    let npr = n.session.piano_roll;
    let na = n.session.arrangement;
    &&& n.audio == o.audio
    &&& match oa.editing_clip {
        None => npr == opr && na == oa,
        Some(ctx) => {
            let edited = track_notes_of(opr.tracks@, ctx.instrument_id);
            &&& na == ArrangementState { clips: na.clips, editing_clip: None, ..oa }
            &&& !has_clip(oa.clips@, ctx.clip_id) ==> na.clips@ == oa.clips@
            &&& forall|p: int| first_clip(oa.clips@, ctx.clip_id, p)
                ==> clip_contents_set(oa.clips@, na.clips@, p, edited, opr.loop_end)
            &&& npr == PianoRollState {
                tracks: npr.tracks,
                loop_start: ctx.stashed_loop_start,
                loop_end: ctx.stashed_loop_end,
                looping: ctx.stashed_looping,
                ..opr
            }
            &&& !has_track(opr.tracks@, ctx.instrument_id) ==> npr.tracks@ == opr.tracks@
            &&& forall|t: int| first_track(opr.tracks@, ctx.instrument_id, t)
                ==> roll_track_set(opr.tracks@, npr.tracks@, t, ctx.stashed_notes@)
        },
    }
}

/// Setting the notes of one track to distinct notes keeps the roll well formed.
proof fn lemma_roll_track_set_wf(o: PianoRollState, n: PianoRollState, t: int, notes: Seq<Note>)
    requires
        o.wf(),
        0 <= t < o.tracks@.len(),
        roll_track_set(o.tracks@, n.tracks@, t, notes),
        notes_distinct(notes),
    ensures
        n.wf(),
{
    assert forall|k: int| 0 <= k < n.tracks@.len() implies notes_distinct((#[trigger] n.tracks@[k]).notes@) by {
        if k != t { assert(n.tracks@[k] == o.tracks@[k]); }
    }
}

/// Show a clip in the piano roll for editing; returns whether it could.
pub fn enter_clip_edit(state: &mut AppState, clip_id: u32) -> (entered: bool)
    requires
        old(state).session.piano_roll.wf(),
        old(state).session.arrangement.wf(),
    ensures
        final(state).session.piano_roll.wf(),
        final(state).session.arrangement.wf(),
        clip_edit_entered(*old(state), *final(state), clip_id),
        entered == exists|p: int| first_clip(old(state).session.arrangement.clips@, clip_id, p)
            && has_track(old(state).session.piano_roll.tracks@, #[trigger] old(state).session.arrangement.clips@[p].instrument_id),
        final(state).instruments == old(state).instruments,
        final(state).midi == old(state).midi,
        final(state).clipboard == old(state).clipboard,
        final(state).io == old(state).io,
        final(state).session.mixer == old(state).session.mixer,
        final(state).session.automation_lanes == old(state).session.automation_lanes,
        final(state).session.next_lane_id == old(state).session.next_lane_id,
        final(state).session.midi_recording == old(state).session.midi_recording,
{
    let ghost o = *state;
    let p = match state.session.arrangement.clip_index(clip_id) {
        Some(p) => p,
        None => { return false; },
    };
    let iid = state.session.arrangement.clips[p].instrument_id;
    let t = match track_index(&state.session.piano_roll.tracks, iid) {
        Some(t) => t,
        None => {
            proof {
                assert forall|q: int| first_clip(o.session.arrangement.clips@, clip_id, q)
                    implies !has_track(o.session.piano_roll.tracks@, #[trigger] o.session.arrangement.clips@[q].instrument_id) by {
                    if q < p { assert(o.session.arrangement.clips@[q].id != clip_id); }
                    if q > p { assert(o.session.arrangement.clips@[p as int].id != clip_id); }
                }
            }
            return false;
        },
    };
    let clip_notes = copy_note_list(&state.session.arrangement.clips[p].notes);
    let length = state.session.arrangement.clips[p].length_ticks;
    let mut stashed: Vec<Note> = Vec::new();
    std::mem::swap(&mut stashed, &mut state.session.piano_roll.tracks[t].notes);
    state.session.piano_roll.tracks[t].notes = clip_notes;
    let ctx = ClipEditContext {
        clip_id,
        instrument_id: iid,
        stashed_notes: stashed,
        stashed_loop_start: state.session.piano_roll.loop_start,
        stashed_loop_end: state.session.piano_roll.loop_end,
        stashed_looping: state.session.piano_roll.looping,
    };
    state.session.piano_roll.loop_start = 0;
    state.session.piano_roll.loop_end = length;
    state.session.piano_roll.looping = true;
    state.audio.playhead = 0;
    state.session.arrangement.editing_clip = Some(ctx);
    proof {
        let oa = o.session.arrangement;
        let opr = o.session.piano_roll;
        assert(oa.clips@[p as int].notes@ == clip_notes@);
        assert(notes_distinct(oa.clips@[p as int].notes@));
        lemma_roll_track_set_wf(opr, state.session.piano_roll, t as int, oa.clips@[p as int].notes@);
        assert forall|q: int, u: int| first_clip(oa.clips@, clip_id, q) && #[trigger] first_track(opr.tracks@, oa.clips@[q].instrument_id, u)
            implies q == p && u == t by {
            if q < p { assert(oa.clips@[q].id != clip_id); }
            if q > p { assert(oa.clips@[p as int].id != clip_id); }
            if u < t { assert(opr.tracks@[u].instrument_id != iid); }
            if u > t { assert(opr.tracks@[t as int].instrument_id != iid); }
        }
        assert(first_clip(oa.clips@, clip_id, p as int) && has_track(opr.tracks@, oa.clips@[p as int].instrument_id));
    }
    true
}

/// End the clip edit: the clip keeps what the piano roll shows and the piano
/// roll gets back what it showed before; returns whether a clip was edited.
pub fn exit_clip_edit(state: &mut AppState) -> (exited: bool)
    requires
        old(state).session.piano_roll.wf(),
        old(state).session.arrangement.wf(),
    ensures
        final(state).session.piano_roll.wf(),
        final(state).session.arrangement.wf(),
        clip_edit_exited(*old(state), *final(state)),
        exited == old(state).session.arrangement.editing_clip is Some,
        final(state).instruments == old(state).instruments,
        final(state).midi == old(state).midi,
        final(state).clipboard == old(state).clipboard,
        final(state).io == old(state).io,
        final(state).session.mixer == old(state).session.mixer,
        final(state).session.automation_lanes == old(state).session.automation_lanes,
        final(state).session.next_lane_id == old(state).session.next_lane_id,
        final(state).session.midi_recording == old(state).session.midi_recording,
{
    let ghost o = *state;
    let ctx = match state.session.arrangement.editing_clip.take() {
        Some(ctx) => ctx,
        None => { return false; },
    };
    let ghost oa = o.session.arrangement;
    let ghost opr = o.session.piano_roll;
    let t_opt = track_index(&state.session.piano_roll.tracks, ctx.instrument_id);
    let edited = match t_opt {
        Some(t) => {
            proof { lemma_first_track(opr.tracks@, ctx.instrument_id, t as int); }
            copy_note_list(&state.session.piano_roll.tracks[t].notes)
        },
        None => Vec::new(),
    };
    assert(edited@ == track_notes_of(opr.tracks@, ctx.instrument_id));
    let loop_end = state.session.piano_roll.loop_end;
    if let Some(p) = state.session.arrangement.clip_index(ctx.clip_id) {
        state.session.arrangement.clips[p].notes = edited;
        state.session.arrangement.clips[p].length_ticks = loop_end;
        proof {
            assert forall|q: int| first_clip(oa.clips@, ctx.clip_id, q) implies q == p as int by {
                if q < p { assert(oa.clips@[q].id != ctx.clip_id); }
                if q > p { assert(oa.clips@[p as int].id != ctx.clip_id); }
            }
            match t_opt {
                Some(t) => { assert(notes_distinct(opr.tracks@[t as int].notes@)); },
                None => { assert(edited@ =~= Seq::<Note>::empty()); },
            }
            let na = state.session.arrangement;
            assert forall|k: int| 0 <= k < na.clips@.len() implies notes_distinct((#[trigger] na.clips@[k]).notes@) by {
                if k != p { assert(na.clips@[k] == oa.clips@[k]); }
            }
        }
    }
    if let Some(t) = t_opt {
        state.session.piano_roll.tracks[t].notes = ctx.stashed_notes;
        proof {
            lemma_roll_track_set_wf(opr, state.session.piano_roll, t as int, ctx.stashed_notes@);
            assert forall|u: int| first_track(opr.tracks@, ctx.instrument_id, u) implies u == t as int by {
                if u < t { assert(opr.tracks@[u].instrument_id != ctx.instrument_id); }
                if u > t { assert(opr.tracks@[t as int].instrument_id != ctx.instrument_id); }
            }
        }
    }
    state.session.piano_roll.loop_start = ctx.stashed_loop_start;
    state.session.piano_roll.loop_end = ctx.stashed_loop_end;
    state.session.piano_roll.looping = ctx.stashed_looping;
    true
}


/// Every captured note comes from a note of the track at its tick plus `start`.
proof fn lemma_captured_origin(notes: Seq<Note>, start: u32, end: u32)
    ensures
        forall|i: int| 0 <= i < captured_notes(notes, start, end).len() ==> exists|k: int| 0 <= k < notes.len()
            && notes[k].pitch == (#[trigger] captured_notes(notes, start, end)[i]).pitch
            && notes[k].tick == captured_notes(notes, start, end)[i].tick + start,
    decreases notes.len(),
{
    if notes.len() > 0 {
        let rest = notes.drop_last();
        lemma_captured_origin(rest, start, end);
        let cr = captured_notes(rest, start, end);
        let cn = captured_notes(notes, start, end);
        assert forall|i: int| 0 <= i < cn.len() implies exists|k: int| 0 <= k < notes.len()
            && notes[k].pitch == (#[trigger] cn[i]).pitch && notes[k].tick == cn[i].tick + start by {
            if i < cr.len() {
                assert(cn[i] == cr[i]);
                let k = choose|k: int| 0 <= k < rest.len() && rest[k].pitch == cr[i].pitch && rest[k].tick == cr[i].tick + start;
                assert(notes[k] == rest[k]);
            } else {
                assert(notes[notes.len() - 1] == notes.last());
            }
        }
    }
}

/// Capturing keeps notes distinct.
proof fn lemma_captured_distinct(notes: Seq<Note>, start: u32, end: u32)
    requires
        notes_distinct(notes),
    ensures
        notes_distinct(captured_notes(notes, start, end)),
    decreases notes.len(),
{
    if notes.len() > 0 {
        let rest = notes.drop_last();
        assert(notes_distinct(rest)) by {
            assert forall|i: int, j: int| 0 <= i < j < rest.len()
                implies !(rest[i].pitch == rest[j].pitch && rest[i].tick == rest[j].tick) by {
                assert(rest[i] == notes[i] && rest[j] == notes[j]);
            }
        }
        lemma_captured_distinct(rest, start, end);
        lemma_captured_origin(rest, start, end);
        let cr = captured_notes(rest, start, end);
        let n = notes.last();
        if start <= n.tick < end {
            assert forall|i: int| 0 <= i < cr.len()
                implies !(cr[i].pitch == n.pitch && cr[i].tick + start == n.tick) by {
                let k = choose|k: int| 0 <= k < rest.len() && rest[k].pitch == cr[i].pitch && rest[k].tick == cr[i].tick + start;
                assert(rest[k] == notes[k]);
                assert(notes[notes.len() - 1] == n);
            }
        }
    }
}

/// Arrangement actions.
#[derive(Clone, Debug)]
pub enum ArrangementAction {
    TogglePlayMode,
    CreateClip { instrument_id: InstrumentId, length_ticks: u32 },
    CaptureClipFromPianoRoll { instrument_id: InstrumentId },
    DeleteClip(u32),
    RenameClip(u32, String),
    PlaceClip { clip_id: u32, instrument_id: InstrumentId, start_tick: u32 },
    RemovePlacement(u32),
    MovePlacement { placement_id: u32, new_start_tick: u32 },
    ResizePlacement { placement_id: u32, new_length: u32 },
    DuplicatePlacement(u32),
    SelectPlacement(Option<usize>),
    SelectLane(usize),
    MoveCursor(i32),
    ScrollView(i32),
    ZoomIn,
    ZoomOut,
    EnterClipEdit(u32),
    ExitClipEdit,
    PlayStop,
}

/// A tick moved by `delta` columns, floored at 0 and wrapped into a `u32`.
pub open spec fn moved_tick(tick: u32, delta: i32, ticks_per_col: u32) -> u32 {
    let t = tick + delta * ticks_per_col;
    (if t < 0 { 0 } else { t }) as u32
}

/// The clip and end tick a duplicate of placement `id` starts from, when
/// both the placement and its clip exist.
pub open spec fn duplicate_source(a: ArrangementState, id: u32) -> Option<(ClipPlacement, int)> {
    if exists|p: int| first_placement(a.placements@, id, p) && has_clip(a.clips@, #[trigger] a.placements@[p].clip_id) {
        let p = choose|p: int| first_placement(a.placements@, id, p);
        let q = a.placements@[p];
        let c = choose|c: int| first_clip(a.clips@, q.clip_id, c);
        Some((q, end_tick(q, a.clips@[c].length_ticks)))
    } else {
        None
    }
}

/// What `dispatch_arrangement` requires: room for new ids, and arithmetic
/// that stays in range.
pub open spec fn arrangement_action_ok(s: AppState, action: ArrangementAction) -> bool {
    let a = s.session.arrangement;
    match action {
        ArrangementAction::CreateClip { .. } | ArrangementAction::CaptureClipFromPianoRoll { .. } => a.next_clip_id < u32::MAX,
        ArrangementAction::PlaceClip { .. } => a.next_placement_id < u32::MAX,
        ArrangementAction::DuplicatePlacement(id) => match duplicate_source(a, id) {
            Some((_, end)) => a.next_placement_id < u32::MAX && end <= u32::MAX,
            None => true,
        },
        ArrangementAction::ZoomOut => a.ticks_per_col <= u32::MAX / 2,
        _ => true,
    }
}


/// `na` is `oa` with a clip appended: the next id, its default name, the
/// instrument, length and notes.
pub open spec fn clip_appended(oa: ArrangementState, na: ArrangementState, instrument_id: InstrumentId, length: u32, notes: Seq<Note>) -> bool {
    let id = oa.next_clip_id;
    &&& na.next_clip_id == id + 1
    &&& na.clips@.len() == oa.clips@.len() + 1
    &&& na.clips@.drop_last() == oa.clips@
    &&& na.clips@.last().id == id
    &&& na.clips@.last().name@ == clip_default_name(id)
    &&& na.clips@.last().instrument_id == instrument_id
    &&& na.clips@.last().length_ticks == length
    &&& na.clips@.last().notes@ == notes
    &&& na.placements == oa.placements
    &&& na.next_placement_id == oa.next_placement_id
    &&& same_view(oa, na)
}

/// The state change of an arrangement action on the arrangement alone.
pub open spec fn arrangement_after(o: AppState, na: ArrangementState, action: ArrangementAction) -> bool {
    let oa = o.session.arrangement;
    let opr = o.session.piano_roll;
    match action {
        ArrangementAction::TogglePlayMode => na == ArrangementState {
            play_mode: if oa.play_mode == PlayMode::Pattern { PlayMode::Song } else { PlayMode::Pattern },
            ..oa
        },
        ArrangementAction::CreateClip { instrument_id, length_ticks } =>
            clip_appended(oa, na, instrument_id, length_ticks, Seq::empty()),
        ArrangementAction::CaptureClipFromPianoRoll { instrument_id } => clip_appended(oa, na, instrument_id,
            (if opr.loop_end > opr.loop_start { opr.loop_end - opr.loop_start } else { 0 }) as u32,
            captured_notes(track_notes_of(opr.tracks@, instrument_id), opr.loop_start, opr.loop_end)),
        ArrangementAction::DeleteClip(id) => {
            &&& !has_clip(oa.clips@, id) ==> na.clips@ == oa.clips@
            &&& forall|p: int| first_clip(oa.clips@, id, p) ==> na.clips@ == oa.clips@.remove(p)
            &&& na.placements@ == oa.placements@.filter(|q: ClipPlacement| q.clip_id != id)
            &&& na.next_clip_id == oa.next_clip_id
            &&& na.next_placement_id == oa.next_placement_id
            &&& same_view(oa, na)
        },
        ArrangementAction::RenameClip(id, name) => {
            &&& na == ArrangementState { clips: na.clips, ..oa }
            &&& na.clips@.len() == oa.clips@.len()
            &&& !has_clip(oa.clips@, id) ==> na.clips@ == oa.clips@
            &&& forall|p: int| first_clip(oa.clips@, id, p) ==> {
                &&& forall|k: int| 0 <= k < oa.clips@.len() && k != p ==> na.clips@[k] == oa.clips@[k]
                &&& na.clips@[p].name@ == name@
                &&& na.clips@[p].id == oa.clips@[p].id
                &&& na.clips@[p].instrument_id == oa.clips@[p].instrument_id
                &&& na.clips@[p].length_ticks == oa.clips@[p].length_ticks
                &&& na.clips@[p].notes == oa.clips@[p].notes
            }
        },
        ArrangementAction::PlaceClip { clip_id, instrument_id, start_tick } => {
            &&& na.next_placement_id == oa.next_placement_id + 1
            &&& na.placements@ == oa.placements@.push(ClipPlacement {
                id: oa.next_placement_id, clip_id, instrument_id, start_tick, length_override: None,
            })
            &&& na.clips == oa.clips
            &&& na.next_clip_id == oa.next_clip_id
            &&& same_view(oa, na)
        },
        ArrangementAction::RemovePlacement(id) => {
            &&& !has_placement(oa.placements@, id) ==> na.placements@ == oa.placements@
            &&& forall|p: int| first_placement(oa.placements@, id, p) ==> na.placements@ == oa.placements@.remove(p)
            &&& na.clips == oa.clips
            &&& na.next_clip_id == oa.next_clip_id
            &&& na.next_placement_id == oa.next_placement_id
            &&& same_view(oa, na)
        },
        ArrangementAction::MovePlacement { placement_id, new_start_tick } =>
            placements_edited(oa, na, placement_id, |q: ClipPlacement| ClipPlacement { start_tick: new_start_tick, ..q }),
        ArrangementAction::ResizePlacement { placement_id, new_length } =>
            placements_edited(oa, na, placement_id, |q: ClipPlacement| ClipPlacement { length_override: Some(new_length), ..q }),
        ArrangementAction::DuplicatePlacement(id) => match duplicate_source(oa, id) {
            Some((q, end)) => {
                &&& na.next_placement_id == oa.next_placement_id + 1
                &&& na.placements@ == oa.placements@.push(ClipPlacement {
                    id: oa.next_placement_id,
                    clip_id: q.clip_id,
                    instrument_id: q.instrument_id,
                    start_tick: end as u32,
                    length_override: q.length_override,
                })
                &&& na.clips == oa.clips
                &&& na.next_clip_id == oa.next_clip_id
                &&& same_view(oa, na)
            },
            None => na == oa,
        },
        ArrangementAction::SelectPlacement(sel) => na == ArrangementState { selected_placement: sel, ..oa },
        ArrangementAction::SelectLane(lane) => {
            let n = o.instruments.instruments@.len();
            let max_lane = if n > 0 { n - 1 } else { 0 };
            na == ArrangementState { selected_lane: (if lane < max_lane { lane as int } else { max_lane }) as usize, ..oa }
        },
        ArrangementAction::MoveCursor(d) => na == ArrangementState { cursor_tick: moved_tick(oa.cursor_tick, d, oa.ticks_per_col), ..oa },
        ArrangementAction::ScrollView(d) => na == ArrangementState { view_start_tick: moved_tick(oa.view_start_tick, d, oa.ticks_per_col), ..oa },
        ArrangementAction::ZoomIn => na == ArrangementState {
            ticks_per_col: (if oa.ticks_per_col / 2 > MIN_TICKS_PER_COL { oa.ticks_per_col / 2 } else { MIN_TICKS_PER_COL }) as u32,
            ..oa
        },
        ArrangementAction::ZoomOut => na == ArrangementState {
            ticks_per_col: (if oa.ticks_per_col * 2 < MAX_TICKS_PER_COL { oa.ticks_per_col * 2 } else { MAX_TICKS_PER_COL as int }) as u32,
            ..oa
        },
        ArrangementAction::EnterClipEdit(_) | ArrangementAction::ExitClipEdit | ArrangementAction::PlayStop => true,
    }
}

/// The state change of `dispatch_arrangement`.
pub open spec fn arrangement_dispatched(o: AppState, n: AppState, action: ArrangementAction) -> bool {
    let opr = o.session.piano_roll;
    &&& n.instruments == o.instruments
    &&& n.midi == o.midi
    &&& n.clipboard == o.clipboard
    &&& n.io == o.io
    &&& n.session.mixer == o.session.mixer
    &&& n.session.automation_lanes == o.session.automation_lanes
    &&& n.session.next_lane_id == o.session.next_lane_id
    &&& n.session.midi_recording == o.session.midi_recording
    &&& match action {
        ArrangementAction::EnterClipEdit(id) => clip_edit_entered(o, n, id),
        ArrangementAction::ExitClipEdit => clip_edit_exited(o, n),
        ArrangementAction::PlayStop => {
            &&& n.session.arrangement == o.session.arrangement
            &&& n.session.piano_roll == PianoRollState { playing: !opr.playing, recording: false, ..opr }
            &&& n.audio == crate::piano_roll::AudioState {
                playhead: if opr.playing { 0 } else { o.audio.playhead },
                ..o.audio
            }
        },
        _ => {
            &&& n.session.piano_roll == opr
            &&& n.audio == o.audio
            &&& arrangement_after(o, n.session.arrangement, action)
        },
    }
}

/// Whether `EnterClipEdit` finds the clip and a track for its instrument.
pub open spec fn can_enter_clip_edit(o: AppState, id: u32) -> bool {
    exists|p: int| first_clip(o.session.arrangement.clips@, id, p)
        && has_track(o.session.piano_roll.tracks@, #[trigger] o.session.arrangement.clips@[p].instrument_id)
}

/// The audio work and navigation an arrangement action asks for.
pub open spec fn arrangement_effects(o: AppState, action: ArrangementAction) -> (Seq<AudioEffect>, Seq<NavIntent>) {
    match action {
        ArrangementAction::TogglePlayMode => (seq![AudioEffect::UpdatePianoRoll], Seq::empty()),
        ArrangementAction::DeleteClip(_) | ArrangementAction::PlaceClip { .. } | ArrangementAction::RemovePlacement(_)
        | ArrangementAction::MovePlacement { .. } | ArrangementAction::ResizePlacement { .. }
        | ArrangementAction::DuplicatePlacement(_) => (seq![AudioEffect::UpdatePianoRoll, AudioEffect::UpdateAutomation], Seq::empty()),
        ArrangementAction::EnterClipEdit(id) => if can_enter_clip_edit(o, id) {
            (seq![AudioEffect::UpdatePianoRoll, AudioEffect::UpdateAutomation], seq![NavIntent::PushTo(PaneId::PianoRoll)])
        } else {
            (Seq::empty(), Seq::empty())
        },
        ArrangementAction::ExitClipEdit => if o.session.arrangement.editing_clip is Some {
            (seq![AudioEffect::UpdatePianoRoll, AudioEffect::UpdateAutomation], seq![NavIntent::PopOrSwitchTo(PaneId::Track)])
        } else {
            (Seq::empty(), Seq::empty())
        },
        _ => (Seq::empty(), Seq::empty()),
    }
}

/// The audio side effects of an arrangement action.
pub open spec fn arrangement_side_effects(o: AppState, action: ArrangementAction, running: bool) -> Seq<AudioSideEffect> {
    match action {
        ArrangementAction::PlayStop => if o.session.piano_roll.playing {
            seq![AudioSideEffect::SetPlaying { playing: false }, AudioSideEffect::ResetPlayhead]
                + (if running { seq![AudioSideEffect::ReleaseAllVoices] } else { Seq::empty() })
                + seq![AudioSideEffect::ClearActiveNotes]
        } else {
            seq![AudioSideEffect::SetPlaying { playing: true }]
        },
        _ => Seq::empty(),
    }
}


/// The tick `delta` columns away, floored at 0 and wrapped into a `u32`.
fn move_tick(tick: u32, delta: i32, ticks_per_col: u32) -> (r: u32)
    ensures
        r == moved_tick(tick, delta, ticks_per_col),
{
    assert(-0x8000_0000_0000_0000 <= delta as i64 * ticks_per_col as i64 <= 0x7fff_ffff_0000_0000) by (nonlinear_arith)
        requires
            -0x8000_0000 <= delta <= 0x7fff_ffff,
            0 <= ticks_per_col <= 0xffff_ffff,
    ;
    let d: i64 = delta as i64 * ticks_per_col as i64;
    let t: i64 = tick as i64 + d;
    #[verifier::truncate]
    let r = (if t < 0 { 0 } else { t }) as u32;
    r
}

/// Apply an arrangement action that only edits the arrangement.
fn edit_arrangement(action: &ArrangementAction, state: &mut AppState)
    requires
        old(state).session.arrangement.wf(),
        old(state).session.piano_roll.wf(),
        arrangement_action_ok(*old(state), *action),
        !(action is EnterClipEdit || action is ExitClipEdit || action is PlayStop),
    ensures
        final(state).session.arrangement.wf(),
        final(state).instruments == old(state).instruments,
        final(state).midi == old(state).midi,
        final(state).clipboard == old(state).clipboard,
        final(state).io == old(state).io,
        final(state).audio == old(state).audio,
        final(state).session.mixer == old(state).session.mixer,
        final(state).session.automation_lanes == old(state).session.automation_lanes,
        final(state).session.next_lane_id == old(state).session.next_lane_id,
        final(state).session.midi_recording == old(state).session.midi_recording,
        final(state).session.piano_roll == old(state).session.piano_roll,
        arrangement_after(*old(state), final(state).session.arrangement, *action),
{
    let ghost o = *state;
    let ghost oa = o.session.arrangement;
    match action {
        ArrangementAction::TogglePlayMode => {
            state.session.arrangement.play_mode = match state.session.arrangement.play_mode {
                PlayMode::Pattern => PlayMode::Song,
                PlayMode::Song => PlayMode::Pattern,
            };
        },
        ArrangementAction::CreateClip { instrument_id, length_ticks } => {
            let id = state.session.arrangement.next_clip_id;
            let name = default_clip_name(id);
            state.session.arrangement.add_clip(name, *instrument_id, *length_ticks);
            proof {
                let na = state.session.arrangement;
                assert(na.clips@.last().notes@ =~= Seq::<Note>::empty());
                assert forall|k: int| 0 <= k < na.clips@.len() implies notes_distinct((#[trigger] na.clips@[k]).notes@) by {
                    if k < oa.clips@.len() { assert(na.clips@[k] == oa.clips@[k]); }
                }
            }
        },
        ArrangementAction::CaptureClipFromPianoRoll { instrument_id } => {
            let loop_start = state.session.piano_roll.loop_start;
            let loop_end = state.session.piano_roll.loop_end;
            let length: u32 = if loop_end > loop_start { loop_end - loop_start } else { 0 };
            let notes = match track_index(&state.session.piano_roll.tracks, *instrument_id) {
                Some(t) => {
                    proof {
                        lemma_first_track(o.session.piano_roll.tracks@, *instrument_id, t as int);
                        lemma_captured_distinct(o.session.piano_roll.tracks@[t as int].notes@, loop_start, loop_end);
                    }
                    capture_notes(&state.session.piano_roll.tracks[t].notes, loop_start, loop_end)
                },
                None => {
                    let empty: Vec<Note> = Vec::new();
                    proof { reveal_with_fuel(captured_notes, 1); }
                    assert(captured_notes(track_notes_of(o.session.piano_roll.tracks@, *instrument_id), loop_start, loop_end) =~= empty@);
                    empty
                },
            };
            let id = state.session.arrangement.next_clip_id;
            let name = default_clip_name(id);
            let ghost captured = notes@;
            state.session.arrangement.add_clip(name, *instrument_id, length);
            let last = state.session.arrangement.clips.len() - 1;
            state.session.arrangement.clips[last].notes = notes;
            proof {
                let na = state.session.arrangement;
                assert(na.clips@.drop_last() =~= oa.clips@);
                assert forall|k: int| 0 <= k < na.clips@.len() implies notes_distinct((#[trigger] na.clips@[k]).notes@) by {
                    if k < oa.clips@.len() { assert(na.clips@[k] == oa.clips@[k]); }
                }
            }
        },
        ArrangementAction::DeleteClip(id) => {
            state.session.arrangement.remove_clip(*id);
            proof {
                let na = state.session.arrangement;
                assert forall|k: int| 0 <= k < na.clips@.len() implies notes_distinct((#[trigger] na.clips@[k]).notes@) by {
                    if has_clip(oa.clips@, *id) {
                        let p = choose|p: int| 0 <= p < oa.clips@.len() && oa.clips@[p].id == *id;
                        lemma_first_clip_exists(oa.clips@, *id, p);
                        let q = choose|q: int| first_clip(oa.clips@, *id, q);
                        assert(first_clip(oa.clips@, *id, q));
                        assert(na.clips@ == oa.clips@.remove(q));
                        assert(na.clips@[k] == oa.clips@[if k < q { k } else { k + 1 }]);
                    }
                }
            }
        },
        ArrangementAction::RenameClip(id, name) => {
            if let Some(p) = state.session.arrangement.clip_index(*id) {
                state.session.arrangement.clips[p].name = name.clone();
                proof {
                    let na = state.session.arrangement;
                    assert forall|q: int| first_clip(oa.clips@, *id, q) implies q == p as int by {
                        if q < p { assert(oa.clips@[q].id != *id); }
                        if q > p { assert(oa.clips@[p as int].id != *id); }
                    }
                    assert forall|k: int| 0 <= k < na.clips@.len() implies notes_distinct((#[trigger] na.clips@[k]).notes@) by {
                        if k != p { assert(na.clips@[k] == oa.clips@[k]); }
                    }
                }
            }
        },
        ArrangementAction::PlaceClip { clip_id, instrument_id, start_tick } => {
            state.session.arrangement.add_placement(*clip_id, *instrument_id, *start_tick);
        },
        ArrangementAction::RemovePlacement(id) => {
            state.session.arrangement.remove_placement(*id);
        },
        ArrangementAction::MovePlacement { placement_id, new_start_tick } => {
            state.session.arrangement.move_placement(*placement_id, *new_start_tick);
        },
        ArrangementAction::ResizePlacement { placement_id, new_length } => {
            state.session.arrangement.resize_placement(*placement_id, *new_length);
        },
        ArrangementAction::DuplicatePlacement(id) => {
            if let Some(p) = state.session.arrangement.placement_index(*id) {
                let q = state.session.arrangement.placements[p];
                if let Some(c) = state.session.arrangement.clip_index(q.clip_id) {
                    let clip_len = state.session.arrangement.clips[c].length_ticks;
                    proof {
                        assert(exists|pp: int| first_placement(oa.placements@, *id, pp) && has_clip(oa.clips@, #[trigger] oa.placements@[pp].clip_id));
                        let pp = choose|pp: int| first_placement(oa.placements@, *id, pp);
                        if pp < p { assert(oa.placements@[pp].id != *id); }
                        if pp > p { assert(oa.placements@[p as int].id != *id); }
                        let cc = choose|cc: int| first_clip(oa.clips@, q.clip_id, cc);
                        if cc < c { assert(oa.clips@[cc].id != q.clip_id); }
                        if cc > c { assert(oa.clips@[c as int].id != q.clip_id); }
                    }
                    let len = match q.length_override { Some(l) => l, None => clip_len };
                    let new_start = q.start_tick + len;
                    let new_id = state.session.arrangement.next_placement_id;
                    state.session.arrangement.next_placement_id = new_id + 1;
                    state.session.arrangement.placements.push(ClipPlacement {
                        id: new_id,
                        clip_id: q.clip_id,
                        instrument_id: q.instrument_id,
                        start_tick: new_start,
                        length_override: q.length_override,
                    });
                } else {
                    proof {
                        assert forall|pp: int| first_placement(oa.placements@, *id, pp)
                            implies !has_clip(oa.clips@, #[trigger] oa.placements@[pp].clip_id) by {
                            if pp < p { assert(oa.placements@[pp].id != *id); }
                            if pp > p { assert(oa.placements@[p as int].id != *id); }
                        }
                    }
                }
            }
        },
        ArrangementAction::SelectPlacement(sel) => {
            state.session.arrangement.selected_placement = *sel;
        },
        ArrangementAction::SelectLane(lane) => {
            let n = state.instruments.instruments.len();
            let max_lane = if n > 0 { n - 1 } else { 0 };
            state.session.arrangement.selected_lane = if *lane < max_lane { *lane } else { max_lane };
        },
        ArrangementAction::MoveCursor(d) => {
            let a = &state.session.arrangement;
            let t = move_tick(a.cursor_tick, *d, a.ticks_per_col);
            state.session.arrangement.cursor_tick = t;
        },
        ArrangementAction::ScrollView(d) => {
            let a = &state.session.arrangement;
            let t = move_tick(a.view_start_tick, *d, a.ticks_per_col);
            state.session.arrangement.view_start_tick = t;
        },
        ArrangementAction::ZoomIn => {
            let half = state.session.arrangement.ticks_per_col / 2;
            state.session.arrangement.ticks_per_col = if half > MIN_TICKS_PER_COL { half } else { MIN_TICKS_PER_COL };
        },
        ArrangementAction::ZoomOut => {
            let double = state.session.arrangement.ticks_per_col * 2;
            state.session.arrangement.ticks_per_col = if double < MAX_TICKS_PER_COL { double } else { MAX_TICKS_PER_COL };
        },
        ArrangementAction::EnterClipEdit(_) | ArrangementAction::ExitClipEdit | ArrangementAction::PlayStop => {},
    }
}

/// A clip with this id has a first position.
proof fn lemma_first_clip_exists(clips: Seq<Clip>, id: u32, p: int)
    requires
        0 <= p < clips.len(),
        clips[p].id == id,
    ensures
        exists|q: int| first_clip(clips, id, q),
    decreases p,
{
    if exists|k: int| 0 <= k < p && clips[k].id == id {
        let k = choose|k: int| 0 <= k < p && clips[k].id == id;
        lemma_first_clip_exists(clips, id, k);
    } else {
        assert(first_clip(clips, id, p));
    }
}


/// Dispatch an arrangement action. `running` is whether the audio engine
/// runs; the audio operations to perform are appended to `effects`.
pub fn dispatch_arrangement(
    action: &ArrangementAction,
    state: &mut AppState,
    running: bool,
    effects: &mut Vec<AudioSideEffect>,
) -> (r: DispatchResult)
    requires
        old(state).session.piano_roll.wf(),
        old(state).session.arrangement.wf(),
        arrangement_action_ok(*old(state), *action),
    ensures
        final(state).session.piano_roll.wf(),
        final(state).session.arrangement.wf(),
        arrangement_dispatched(*old(state), *final(state), *action),
        final(effects)@ == old(effects)@ + arrangement_side_effects(*old(state), *action, running),
        r.audio_effects@ == arrangement_effects(*old(state), *action).0,
        r.nav@ == arrangement_effects(*old(state), *action).1,
        !r.needs_full_sync,
{
    let ghost o = *state;
    let ghost oe = effects@;
    let mut result = DispatchResult::none();
    match action {
        ArrangementAction::EnterClipEdit(id) => {
            if enter_clip_edit(state, *id) {
                result.nav.push(NavIntent::PushTo(PaneId::PianoRoll));
                result.audio_effects.push(AudioEffect::UpdatePianoRoll);
                result.audio_effects.push(AudioEffect::UpdateAutomation);
            }
        },
        ArrangementAction::ExitClipEdit => {
            if exit_clip_edit(state) {
                result.nav.push(NavIntent::PopOrSwitchTo(PaneId::Track));
                result.audio_effects.push(AudioEffect::UpdatePianoRoll);
                result.audio_effects.push(AudioEffect::UpdateAutomation);
            }
        },
        ArrangementAction::PlayStop => {
            let playing = !state.session.piano_roll.playing;
            state.session.piano_roll.playing = playing;
            effects.push(AudioSideEffect::SetPlaying { playing });
            if !playing {
                state.audio.playhead = 0;
                effects.push(AudioSideEffect::ResetPlayhead);
                if running {
                    effects.push(AudioSideEffect::ReleaseAllVoices);
                }
                effects.push(AudioSideEffect::ClearActiveNotes);
            }
            state.session.piano_roll.recording = false;
        },
        _ => {
            edit_arrangement(action, state);
            match action {
                ArrangementAction::TogglePlayMode => {
                    result.audio_effects.push(AudioEffect::UpdatePianoRoll);
                },
                ArrangementAction::DeleteClip(_) | ArrangementAction::PlaceClip { .. }
                | ArrangementAction::RemovePlacement(_) | ArrangementAction::MovePlacement { .. }
                | ArrangementAction::ResizePlacement { .. } | ArrangementAction::DuplicatePlacement(_) => {
                    result.audio_effects.push(AudioEffect::UpdatePianoRoll);
                    result.audio_effects.push(AudioEffect::UpdateAutomation);
                },
                _ => {},
            }
        },
    }
    proof {
        assert(effects@ =~= oe + arrangement_side_effects(o, *action, running));
        assert(result.audio_effects@ =~= arrangement_effects(o, *action).0);
        assert(result.nav@ =~= arrangement_effects(o, *action).1);
    }
    result
}

/// The arrangement without the clips and placements of instrument `id`;
/// everything else is as it was.
pub open spec fn without_instrument(o: ArrangementState, n: ArrangementState, id: InstrumentId) -> bool {
    &&& n.clips@ == o.clips@.filter(|c: Clip| c.instrument_id != id)
    &&& n.placements@ == o.placements@.filter(|p: ClipPlacement| p.instrument_id != id)
    &&& n.next_clip_id == o.next_clip_id
    &&& n.next_placement_id == o.next_placement_id
    &&& n.play_mode == o.play_mode
    &&& n.selected_placement == o.selected_placement
    &&& n.selected_lane == o.selected_lane
    &&& n.cursor_tick == o.cursor_tick
    &&& n.view_start_tick == o.view_start_tick
    &&& n.ticks_per_col == o.ticks_per_col
    &&& n.editing_clip == o.editing_clip
}

/// Remove the clips of instrument `id`, in place, keeping the others in order.
fn remove_clips_of(clips: &mut Vec<Clip>, id: InstrumentId)
    ensures
        final(clips)@ == old(clips)@.filter(|c: Clip| c.instrument_id != id),
{
    let ghost og = clips@;
    let ghost mut c: int = 0;
    let mut j: usize = 0;
    while j < clips.len()
        invariant
            0 <= c <= og.len(),
            j <= clips@.len(),
            clips@.len() - j == og.len() - c,
            clips@.subrange(0, j as int) == og.subrange(0, c).filter(|x: Clip| x.instrument_id != id),
            clips@.subrange(j as int, clips@.len() as int) == og.subrange(c, og.len() as int),
        decreases og.len() - c,
    {
        let ghost before = clips@;
        proof {
            reveal_with_fuel(Seq::<_>::filter, 1);
            assert(og.subrange(0, c + 1).drop_last() =~= og.subrange(0, c));
            assert(before[j as int] == before.subrange(j as int, before.len() as int)[0]);
            assert(og[c] == og.subrange(c, og.len() as int)[0]);
            assert(og.subrange(c + 1, og.len() as int) =~= og.subrange(c, og.len() as int).subrange(1, og.len() - c));
            assert(before.subrange(j + 1, before.len() as int) =~= before.subrange(j as int, before.len() as int).subrange(1, before.len() - j));
        }
        if clips[j].instrument_id == id {
            clips.remove(j);
            proof {
                let after = clips@;
                assert(after.subrange(0, j as int) =~= before.subrange(0, j as int));
                assert(after.subrange(j as int, after.len() as int) =~= before.subrange(j + 1, before.len() as int));
            }
        } else {
            proof {
                assert(before.subrange(0, j + 1) =~= before.subrange(0, j as int).push(before[j as int]));
            }
            j = j + 1;
        }
        proof { c = c + 1; }
    }
    proof {
        let v = clips@;
        assert(v.subrange(0, j as int) =~= v);
        assert(og.subrange(0, c) =~= og);
    }
}

impl ArrangementState {
    /// Remove the clips and placements of an instrument.
    pub fn remove_instrument_data(&mut self, id: InstrumentId)
        ensures
            without_instrument(*old(self), *final(self), id),
            old(self).wf() ==> final(self).wf(),
    {
        let ghost oc = self.clips@;
        remove_clips_of(&mut self.clips, id);
        proof {
            let nc = self.clips@;
            let keep = |c: Clip| c.instrument_id != id;
            assert forall|p: int| 0 <= p < nc.len() implies notes_distinct((#[trigger] nc[p]).notes@)
                || !old(self).wf() by {
                if old(self).wf() {
                    assert(nc.contains(nc[p]));
                    oc.lemma_filter_contains_rev(keep, nc[p]);
                }
            }
        }
        let ghost op = self.placements@;
        let mut kept: Vec<ClipPlacement> = Vec::new();
        let mut i: usize = 0;
        while i < self.placements.len()
            invariant
                i <= op.len(),
                self.placements@ == op,
                kept@ == op.subrange(0, i as int).filter(|q: ClipPlacement| q.instrument_id != id),
            decreases op.len() - i,
        {
            let q = self.placements[i];
            proof {
                reveal_with_fuel(Seq::<_>::filter, 1);
                assert(op.subrange(0, i + 1).drop_last() =~= op.subrange(0, i as int));
            }
            if q.instrument_id != id {
                kept.push(q);
            }
            i = i + 1;
        }
        assert(op.subrange(0, i as int) =~= op);
        self.placements = kept;
    }
}

} // verus!
