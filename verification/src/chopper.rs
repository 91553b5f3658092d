//! The sample chopper of a kit: a sample cut into slices that can be
//! assigned to the kit's pads.
//!
//! A position within the sample is a fraction from 0.0 to 1.0. It is held as
//! a position key: the bit pattern of the non-negative `f32` position, which
//! orders as the positions themselves do. Cutting, merging, selecting and
//! assigning slices only compare and copy positions, so they work on keys;
//! computing new positions (even slicing, nudging) is floating point and is
//! not done here.
use vstd::prelude::*;

use crate::action::{AudioEffect, AudioSideEffect, DispatchResult, FileSelectAction, NavIntent, PaneId};
use crate::sequencer::{selected_kit, DrumPad, DrumSequencer, NUM_PADS};
use crate::state::{AppState, Instrument};

verus! {

/// The key of position 0.0, the start of the sample.
pub const SAMPLE_START: u32 = 0;

/// The key of position 1.0, the end of the sample.
pub const SAMPLE_END: u32 = 0x3f80_0000;

/// One slice of the sample, from `start` to `end` (position keys).
#[derive(Clone, Copy, PartialEq, Eq, Structural, Debug)]
pub struct Slice {
    pub id: u32,
    pub start: u32,
    pub end: u32,
}

/// The chopper: the sample buffer, its slices in order, the selected slice
/// and the next slice id. The sample's name, path and waveform are not
/// modelled.
#[derive(Clone, Debug)]
pub struct ChopperState {
    pub buffer_id: Option<u32>,
    pub slices: Vec<Slice>,
    pub selected_slice: usize,
    pub next_slice_id: u32,
}

impl ChopperState {
    /// There is a slice, and the selection points at one.
    pub open spec fn wf(&self) -> bool {
        &&& self.slices@.len() > 0
        &&& self.selected_slice < self.slices@.len()
    }
}

/// Chopper actions whose effects are discrete.
#[derive(Clone, Copy, Debug)]
pub enum ChopperAction {
    /// Open the file browser to pick a sample.
    LoadSample,
    /// A sample was picked: it goes into the next sample buffer, as one slice.
    LoadSampleResult,
    /// Cut the slice under the cursor (a position key) in two.
    AddSlice(u32),
    /// Remove the selected slice; a neighbour takes over its range.
    RemoveSlice,
    /// Assign the selected slice to a pad.
    AssignToPad(usize),
    /// Move the selection, wrapping around.
    SelectSlice(i8),
    /// Assign the slices, in order, to the first pads.
    CommitAll,
    /// The cursor is the pane's own.
    MoveCursor(i8),
}

/// `p` is the first slice containing `cursor`.
pub open spec fn first_slice_at(s: Seq<Slice>, cursor: u32, p: int) -> bool {
    &&& 0 <= p < s.len()
    &&& s[p].start <= cursor < s[p].end
    &&& forall|k: int| 0 <= k < p ==> !(s[k].start <= cursor < #[trigger] s[k].end)
}

/// The slices after cutting slice `p` at `cursor`: it ends there, and a new
/// slice with id `id` runs from there to where it ended.
pub open spec fn cut_slices(s: Seq<Slice>, p: int, cursor: u32, id: u32) -> Seq<Slice> {
    s.update(p, Slice { end: cursor, ..s[p] }).insert(p + 1, Slice { id, start: cursor, end: s[p].end })
}

/// The slices after removing slice `p` (with another left): the one before
/// it, or else the one after it, takes over its range.
pub open spec fn merged_slices(s: Seq<Slice>, p: int) -> Seq<Slice> {
    let r = s.remove(p);
    if p > 0 {
        r.update(p - 1, Slice { end: s[p].end, ..r[p - 1] })
    } else {
        r.update(0, Slice { start: s[p].start, ..r[0] })
    }
}

/// A pad after a slice of buffer `buffer` is assigned to it.
pub open spec fn assigned(pad: DrumPad, buffer: Option<u32>, sl: Slice) -> DrumPad {
    DrumPad { buffer_id: buffer, slice_start: sl.start, slice_end: sl.end, ..pad }
}

/// The pads after the first slices are assigned to the first pads.
pub open spec fn committed(pads: Seq<DrumPad>, c: ChopperState) -> Seq<DrumPad> {
    Seq::new(pads.len(), |i: int| if i < c.slices@.len() { assigned(pads[i], c.buffer_id, c.slices@[i]) } else { pads[i] })
}

/// The sequencer fields other than the pads and the chopper are unchanged.
pub open spec fn same_but_chopper(o: DrumSequencer, n: DrumSequencer) -> bool {
    &&& n.patterns == o.patterns
    &&& n.current_pattern == o.current_pattern
    &&& n.playing == o.playing
    &&& n.current_step == o.current_step
    &&& n.last_played_step == o.last_played_step
    &&& n.chain == o.chain
    &&& n.chain_enabled == o.chain_enabled
    &&& n.chain_position == o.chain_position
    &&& n.editing_pad == o.editing_pad
}

/// The chopper after an action: the slices, the selection and the next id
/// (the buffer stays).
pub open spec fn chopper_now(o: ChopperState, n: ChopperState, slices: Seq<Slice>, sel: int, next: int) -> bool {
    &&& n.buffer_id == o.buffer_id
    &&& n.slices@ == slices
    &&& n.selected_slice == sel
    &&& n.next_slice_id == next
}

/// The change a chopper action makes to a kit's sequencer; `buffer` is the
/// buffer a loaded sample goes into.
pub open spec fn chopper_applied(o: DrumSequencer, n: DrumSequencer, action: ChopperAction, buffer: u32) -> bool {
    &&& same_but_chopper(o, n)
    &&& match action {
        ChopperAction::LoadSampleResult => {
            &&& n.pads == o.pads
            &&& n.chopper matches Some(c) && c.buffer_id == Some(buffer)
                && c.slices@ == seq![Slice { id: 0, start: SAMPLE_START, end: SAMPLE_END }]
                && c.selected_slice == 0 && c.next_slice_id == 1
        },
        ChopperAction::AddSlice(cursor) => n.pads == o.pads && match o.chopper {
            Some(c) => if exists|p: int| first_slice_at(c.slices@, cursor, p) {
                let p = choose|p: int| first_slice_at(c.slices@, cursor, p);
                n.chopper matches Some(d) && chopper_now(c, d, cut_slices(c.slices@, p, cursor, c.next_slice_id), p + 1, c.next_slice_id + 1)
            } else {
                n.chopper == o.chopper
            },
            None => n.chopper == o.chopper,
        },
        ChopperAction::RemoveSlice => n.pads == o.pads && match o.chopper {
            Some(c) => if c.slices@.len() > 1 {
                let p = c.selected_slice as int;
                n.chopper matches Some(d) && chopper_now(c, d, merged_slices(c.slices@, p), if p > 0 { p - 1 } else { 0 }, c.next_slice_id as int)
            } else {
                n.chopper == o.chopper
            },
            None => n.chopper == o.chopper,
        },
        ChopperAction::SelectSlice(delta) => n.pads == o.pads && match o.chopper {
            Some(c) => n.chopper matches Some(d) && chopper_now(c, d, c.slices@,
                (c.selected_slice + delta) % (c.slices@.len() as int), c.next_slice_id as int),
            None => n.chopper == o.chopper,
        },
        ChopperAction::AssignToPad(pad) => n.chopper == o.chopper && match o.chopper {
            Some(c) => n.pads@ == (if pad < o.pads@.len() {
                o.pads@.update(pad as int, assigned(o.pads@[pad as int], c.buffer_id, c.slices@[c.selected_slice as int]))
            } else {
                o.pads@
            }),
            None => n.pads == o.pads,
        },
        ChopperAction::CommitAll => n.chopper == o.chopper && match o.chopper {
            Some(c) => n.pads@ == committed(o.pads@, c),
            None => n.pads == o.pads,
        },
        ChopperAction::LoadSample | ChopperAction::MoveCursor(_) => n.pads == o.pads && n.chopper == o.chopper,
    }
}

/// Each slice ends where the next one starts.
pub open spec fn contiguous(s: Seq<Slice>) -> bool {
    forall|k: int| #![trigger s[k]] 0 <= k < s.len() - 1 ==> s[k].end == s[k + 1].start
}

/// Cutting a slice keeps contiguous slices contiguous over the same span.
proof fn lemma_cut_contiguous(s: Seq<Slice>, p: int, cursor: u32, id: u32)
    requires
        contiguous(s),
        first_slice_at(s, cursor, p),
    ensures
        contiguous(cut_slices(s, p, cursor, id)),
        cut_slices(s, p, cursor, id).len() == s.len() + 1,
        cut_slices(s, p, cursor, id)[0].start == s[0].start,
        cut_slices(s, p, cursor, id).last().end == s.last().end,
{
    let t = cut_slices(s, p, cursor, id);
    assert forall|k: int| 0 <= k < t.len() - 1 implies #[trigger] t[k].end == t[k + 1].start by {
        if k < p - 1 {
            assert(s[k].end == s[k + 1].start);
        } else if k == p - 1 {
            assert(s[k].end == s[k + 1].start);
        } else if k == p {
        } else if k == p + 1 {
            assert(s[p].end == s[p + 1].start);
        } else {
            assert(s[k - 1].end == s[k].start);
        }
    }
}

/// Removing a slice, with another left, keeps contiguous slices contiguous
/// over the same span.
proof fn lemma_merge_contiguous(s: Seq<Slice>, p: int)
    requires
        contiguous(s),
        s.len() > 1,
        0 <= p < s.len(),
    ensures
        contiguous(merged_slices(s, p)),
        merged_slices(s, p).len() == s.len() - 1,
        merged_slices(s, p)[0].start == s[0].start,
        merged_slices(s, p).last().end == s.last().end,
{
    let t = merged_slices(s, p);
    if p > 0 {
        assert forall|k: int| 0 <= k < t.len() - 1 implies #[trigger] t[k].end == t[k + 1].start by {
            if k < p - 1 {
                assert(s[k].end == s[k + 1].start);
            } else if k == p - 1 {
                assert(s[p].end == s[p + 1].start);
            } else {
                assert(s[k + 1].end == s[k + 2].start);
            }
        }
    } else {
        assert forall|k: int| 0 <= k < t.len() - 1 implies #[trigger] t[k].end == t[k + 1].start by {
            assert(s[k + 1].end == s[k + 2].start);
        }
    }
}

/// Chopper actions keep the slices contiguous: each ends where the next one
/// starts. A loaded sample starts over with one slice over the whole sample;
/// every other action keeps the span from the first slice's start to the last
/// slice's end.
pub proof fn law_slices_stay_contiguous(o: DrumSequencer, n: DrumSequencer, action: ChopperAction, buffer: u32)
    requires
        chopper_applied(o, n, action, buffer),
        o.chopper matches Some(c) ==> c.wf() && contiguous(c.slices@),
    ensures
        n.chopper matches Some(d) ==> contiguous(d.slices@) && d.slices@.len() > 0,
        !(action is LoadSampleResult) ==> match (o.chopper, n.chopper) {
            (Some(c), Some(d)) => d.slices@[0].start == c.slices@[0].start && d.slices@.last().end == c.slices@.last().end,
            (None, d) => d is None,
            (Some(_), None) => false,
        },
{
    match o.chopper {
        Some(c) => {
            match action {
                ChopperAction::AddSlice(cursor) => {
                    if exists|p: int| first_slice_at(c.slices@, cursor, p) {
                        let p = choose|p: int| first_slice_at(c.slices@, cursor, p);
                        lemma_cut_contiguous(c.slices@, p, cursor, c.next_slice_id);
                    }
                },
                ChopperAction::RemoveSlice => {
                    if c.slices@.len() > 1 {
                        lemma_merge_contiguous(c.slices@, c.selected_slice as int);
                    }
                },
                _ => {},
            }
        },
        None => {},
    }
}

/// What a chopper action requires of the selected kit: room for a slice id,
/// and a selection move that stays within `i8` over at most 127 slices.
pub open spec fn chopper_action_ok(s: AppState, action: ChopperAction) -> bool {
    &&& s.instruments.wf()
    &&& action is LoadSampleResult ==> s.instruments.next_sampler_buffer_id < u32::MAX
    &&& match selected_kit(s.instruments) {
        Some(k) => match s.instruments.instruments@[k].drum_sequencer->0.chopper {
            Some(c) => match action {
                ChopperAction::AddSlice(_) => c.next_slice_id < u32::MAX,
                ChopperAction::SelectSlice(d) => c.slices@.len() <= 127 && -128 <= c.selected_slice + d <= 127,
                _ => true,
            },
            None => true,
        },
        None => true,
    }
}

/// The state change of `dispatch_chopper`.
pub open spec fn chopper_dispatched(o: AppState, n: AppState, action: ChopperAction) -> bool {
    let oi = o.instruments;
    let ni = n.instruments;
    &&& n.session == o.session
    &&& n.midi == o.midi
    &&& n.clipboard == o.clipboard
    &&& n.audio == o.audio
    &&& n.io == o.io
    &&& ni.selected == oi.selected
    &&& ni.next_id == oi.next_id
    &&& ni.next_layer_group_id == oi.next_layer_group_id
    &&& ni.editing_instrument_id == oi.editing_instrument_id
    &&& ni.next_sampler_buffer_id == (if action is LoadSampleResult {
        oi.next_sampler_buffer_id + 1
    } else {
        oi.next_sampler_buffer_id as int
    })
    &&& match selected_kit(oi) {
        Some(k) => {
            let a = oi.instruments@[k];
            let b = ni.instruments@[k];
            &&& ni.instruments@.len() == oi.instruments@.len()
            &&& forall|j: int| 0 <= j < oi.instruments@.len() && j != k ==> ni.instruments@[j] == oi.instruments@[j]
            &&& b == (Instrument { drum_sequencer: b.drum_sequencer, ..a })
            &&& b.drum_sequencer is Some
            &&& chopper_applied(a.drum_sequencer->0, b.drum_sequencer->0, action, oi.next_sampler_buffer_id)
        },
        None => ni.instruments@ == oi.instruments@,
    }
}

/// The audio work and navigation of a chopper action.
pub open spec fn chopper_effects(action: ChopperAction) -> (Seq<AudioEffect>, Seq<NavIntent>) {
    match action {
        ChopperAction::LoadSample => (Seq::empty(), seq![NavIntent::OpenFileBrowser(FileSelectAction::LoadChopperSample)]),
        ChopperAction::LoadSampleResult => (seq![AudioEffect::RebuildInstruments], seq![NavIntent::ConditionalPop(PaneId::FileBrowser)]),
        ChopperAction::CommitAll => (seq![AudioEffect::RebuildInstruments], seq![NavIntent::Pop]),
        ChopperAction::MoveCursor(_) => (Seq::empty(), Seq::empty()),
        _ => (seq![AudioEffect::RebuildInstruments], Seq::empty()),
    }
}

/// The audio operations of a chopper action: a loaded sample goes into its
/// buffer when there is a kit and the engine runs.
pub open spec fn chopper_side_effects(o: AppState, action: ChopperAction, running: bool) -> Seq<AudioSideEffect> {
    if action is LoadSampleResult && selected_kit(o.instruments) is Some && running {
        seq![AudioSideEffect::LoadSample { buffer_id: o.instruments.next_sampler_buffer_id }]
    } else {
        Seq::empty()
    }
}

/// The first slice containing `cursor`.
fn slice_at(slices: &Vec<Slice>, cursor: u32) -> (r: Option<usize>)
    ensures
        match r {
            Some(p) => first_slice_at(slices@, cursor, p as int),
            None => forall|p: int| 0 <= p < slices@.len() ==> !(slices@[p].start <= cursor < #[trigger] slices@[p].end),
        },
{
    let mut i: usize = 0;
    while i < slices.len()
        invariant
            i <= slices@.len(),
            forall|k: int| 0 <= k < i ==> !(slices@[k].start <= cursor < #[trigger] slices@[k].end),
        decreases slices@.len() - i,
    {
        if slices[i].start <= cursor && cursor < slices[i].end {
            return Some(i);
        }
        i = i + 1;
    }
    None
}

/// Apply a chopper action to a well-formed kit sequencer.
fn apply_chopper(seq: &mut DrumSequencer, action: ChopperAction, buffer: u32)
    requires
        old(seq).wf(),
        match old(seq).chopper {
            Some(c) => match action {
                ChopperAction::AddSlice(_) => c.next_slice_id < u32::MAX,
                ChopperAction::SelectSlice(d) => c.slices@.len() <= 127 && -128 <= c.selected_slice + d <= 127,
                _ => true,
            },
            None => true,
        },
    ensures
        final(seq).wf(),
        chopper_applied(*old(seq), *final(seq), action, buffer),
{
    let ghost o = *seq;
    match action {
        ChopperAction::LoadSampleResult => {
            let mut slices: Vec<Slice> = Vec::new();
            slices.push(Slice { id: 0, start: SAMPLE_START, end: SAMPLE_END });
            seq.chopper = Some(ChopperState { buffer_id: Some(buffer), slices, selected_slice: 0, next_slice_id: 1 });
            assert(seq.chopper->0.slices@ =~= seq![Slice { id: 0, start: SAMPLE_START, end: SAMPLE_END }]);
        },
        ChopperAction::AddSlice(cursor) => {
            let ch = seq.chopper.take();
            match ch {
                Some(mut c) => {
                    let ghost oc = c;
                    match slice_at(&c.slices, cursor) {
                        Some(p) => {
                            proof {
                                assert forall|q: int| first_slice_at(oc.slices@, cursor, q) implies q == p as int by {
                                    if q < p { assert(!(oc.slices@[q].start <= cursor < oc.slices@[q].end)); }
                                    if q > p { assert(!(oc.slices@[p as int].start <= cursor < oc.slices@[p as int].end)); }
                                }
                            }
                            let len = c.slices.len();
                            assert(p < len);
                            let after: usize = p + 1;
                            let old_end = c.slices[p].end;
                            let sl = c.slices[p];
                            c.slices.set(p, Slice { end: cursor, ..sl });
                            let id = c.next_slice_id;
                            c.next_slice_id = id + 1;
                            c.slices.insert(after, Slice { id, start: cursor, end: old_end });
                            c.selected_slice = after;
                            assert(c.slices@ =~= cut_slices(oc.slices@, p as int, cursor, oc.next_slice_id));
                        },
                        None => {},
                    }
                    seq.chopper = Some(c);
                },
                None => {},
            }
        },
        ChopperAction::RemoveSlice => {
            let ch = seq.chopper.take();
            match ch {
                Some(mut c) => {
                    let ghost oc = c;
                    if c.slices.len() > 1 {
                        let idx = c.selected_slice;
                        let removed = c.slices.remove(idx);
                        if idx > 0 {
                            let prev = c.slices[idx - 1];
                            c.slices.set(idx - 1, Slice { end: removed.end, ..prev });
                            c.selected_slice = idx - 1;
                        } else {
                            let first = c.slices[0];
                            c.slices.set(0, Slice { start: removed.start, ..first });
                            c.selected_slice = 0;
                        }
                        assert(c.slices@ =~= merged_slices(oc.slices@, idx as int));
                    }
                    seq.chopper = Some(c);
                },
                None => {},
            }
        },
        ChopperAction::SelectSlice(delta) => {
            let ch = seq.chopper.take();
            match ch {
                Some(mut c) => {
                    let len = c.slices.len();
                    let v: i32 = c.selected_slice as i32 + delta as i32;
                    let l: i32 = len as i32;
                    let shifted: i32 = v + 128 * l;
                    let sel: i32 = shifted % l;
                    proof {
                        vstd::arithmetic::div_mod::lemma_mod_multiples_vanish(128, v as int, l as int);
                        assert(shifted as int == l * 128 + v);
                    }
                    c.selected_slice = sel as usize;
                    seq.chopper = Some(c);
                },
                None => {},
            }
        },
        ChopperAction::AssignToPad(pad) => {
            if let Some(c) = &seq.chopper {
                let sl = c.slices[c.selected_slice];
                let b = c.buffer_id;
                if pad < seq.pads.len() {
                    let p = seq.pads[pad];
                    seq.pads.set(pad, DrumPad { buffer_id: b, slice_start: sl.start, slice_end: sl.end, ..p });
                }
            }
        },
        ChopperAction::CommitAll => {
            if let Some(c) = &seq.chopper {
                let ghost op = seq.pads@;
                let ghost cc = *c;
                let n = if c.slices.len() < NUM_PADS { c.slices.len() } else { NUM_PADS };
                let b = c.buffer_id;
                let mut i: usize = 0;
                while i < n
                    invariant
                        i <= n,
                        n <= cc.slices@.len(),
                        n <= NUM_PADS,
                        op.len() == NUM_PADS,
                        seq.chopper == Some(cc),
                        b == cc.buffer_id,
                        seq.pads@.len() == op.len(),
                        forall|k: int| 0 <= k < op.len() ==> #[trigger] seq.pads@[k]
                            == (if k < i { assigned(op[k], cc.buffer_id, cc.slices@[k]) } else { op[k] }),
                        same_but_chopper(o, *seq),
                    decreases n - i,
                {
                    let sl = cc_slice(seq, i);
                    let p = seq.pads[i];
                    seq.pads.set(i, DrumPad { buffer_id: b, slice_start: sl.start, slice_end: sl.end, ..p });
                    i = i + 1;
                }
                assert(seq.pads@ =~= committed(op, cc));
            }
        },
        ChopperAction::LoadSample | ChopperAction::MoveCursor(_) => {},
    }
}

/// Slice `i` of the sequencer's chopper.
fn cc_slice(seq: &DrumSequencer, i: usize) -> (sl: Slice)
    requires
        seq.chopper is Some,
        i < seq.chopper->0.slices@.len(),
    ensures
        sl == seq.chopper->0.slices@[i as int],
{
    match &seq.chopper {
        Some(c) => c.slices[i],
        None => Slice { id: 0, start: 0, end: 0 },
    }
}

/// Dispatch a chopper action to the selected kit instrument. `running` is
/// whether the audio engine runs; the audio operations to perform are
/// appended to `effects`.
pub fn dispatch_chopper(
    action: &ChopperAction,
    state: &mut AppState,
    running: bool,
    effects: &mut Vec<AudioSideEffect>,
) -> (r: DispatchResult)
    requires
        chopper_action_ok(*old(state), *action),
    ensures
        final(state).instruments.wf(),
        chopper_dispatched(*old(state), *final(state), *action),
        final(effects)@ == old(effects)@ + chopper_side_effects(*old(state), *action, running),
        r.audio_effects@ == chopper_effects(*action).0,
        r.nav@ == chopper_effects(*action).1,
        !r.needs_full_sync,
{
    let ghost o = *state;
    let ghost oe = effects@;
    let buffer = state.instruments.next_sampler_buffer_id;
    if let ChopperAction::LoadSampleResult = action {
        state.instruments.next_sampler_buffer_id = buffer + 1;
    }
    let ghost mid = state.instruments;
    match state.instruments.selected {
        Some(k) => {
            if k < state.instruments.instruments.len() {
                let kit = state.instruments.instruments[k].drum_sequencer.take();
                match kit {
                    Some(mut seq) => {
                        proof { assert(crate::sequencer::kit_wf(mid.instruments@[k as int].drum_sequencer)); }
                        if let ChopperAction::LoadSampleResult = action {
                            if running {
                                effects.push(AudioSideEffect::LoadSample { buffer_id: buffer });
                            }
                        }
                        apply_chopper(&mut seq, *action, buffer);
                        state.instruments.instruments[k].drum_sequencer = Some(seq);
                        proof {
                            let ni = state.instruments.instruments@;
                            assert(ni[k as int] == (Instrument { drum_sequencer: ni[k as int].drum_sequencer, ..mid.instruments@[k as int] }));
                            assert forall|j: int| 0 <= j < ni.len() implies crate::sequencer::kit_wf((#[trigger] ni[j]).drum_sequencer) by {
                                if j != k { assert(ni[j] == mid.instruments@[j]); }
                            }
                        }
                    },
                    None => {
                        state.instruments.instruments[k].drum_sequencer = None;
                        proof { assert(state.instruments.instruments@ =~= mid.instruments@); }
                    },
                }
            }
        },
        None => {},
    }
    let mut result = DispatchResult::none();
    match action {
        ChopperAction::LoadSample => {
            result.nav.push(NavIntent::OpenFileBrowser(FileSelectAction::LoadChopperSample));
        },
        ChopperAction::LoadSampleResult => {
            result.nav.push(NavIntent::ConditionalPop(PaneId::FileBrowser));
            result.audio_effects.push(AudioEffect::RebuildInstruments);
        },
        ChopperAction::CommitAll => {
            result.nav.push(NavIntent::Pop);
            result.audio_effects.push(AudioEffect::RebuildInstruments);
        },
        ChopperAction::MoveCursor(_) => {},
        _ => {
            result.audio_effects.push(AudioEffect::RebuildInstruments);
        },
    }
    proof {
        assert(result.nav@ =~= chopper_effects(*action).1);
        assert(result.audio_effects@ =~= chopper_effects(*action).0);
        assert(effects@ =~= oe + chopper_side_effects(o, *action, running));
    }
    result
}

} // verus!
