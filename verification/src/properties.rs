//! Properties that relate several operations: what one call undoes, what a
//! cycle returns to, and what every operation keeps.
use vstd::prelude::*;

use crate::arrangement::{
    arrangement_dispatched, can_enter_clip_edit, first_clip, first_track, lemma_first_track_notes, ArrangementAction,
};
use crate::automation::{has_lane_for, lanes_after, AutomationAction};
use crate::bus::{bus_added, bus_removed, has_bus, max_bus_id, lemma_max_bus_id};
use crate::dispatch::{mappings_without, midi_action_applied, MidiAction};
use crate::instrument::{group_of, layers_linked, lemma_group_of};
use crate::mixer::{mixer_action_applied, next_output, prev_output, MixerAction};
use crate::piano_roll::{
    copied_notes, has_note_at, in_region, next_time_sig, notes_outside, pasted_notes, toggled_notes,
    ClipboardNote, Note, TimeSignature,
};
use crate::sequencer::{default_step, next_pattern_length, sequencer_action_applied, DrumSequencer, SequencerAction};
use crate::sequencer::cell_changed;
use crate::audio_feedback::{feedback_applied, AudioFeedback};
use crate::piano_roll::{export_starts, piano_roll_dispatched, PianoRollAction};
use crate::playback::{notes_ending, notes_still_sounding, ActiveNote};
use crate::session::{session_applied, SessionAction};
use crate::routing::{after_steps, lemma_after_steps_succ, RoutingRebuildPhase};
use crate::voice_allocator::{
    after_retrigger, after_steal, best_candidate, first_playing, retrigger_pos, steal_candidate, voices_not_of, voices_of,
    VoiceAllocator, VoiceChain,
};
use crate::state::{
    chain_moved, chain_removed, chain_toggled, lemma_first_index, AppState, AutomationLane, AutomationTarget, BusId, InstrumentId, InstrumentState, SessionState, EffectChain,
    EffectSlot, EffectType, MidiCcMapping, OutputTarget, MixerSelection, bus_ids_of,
};

verus! {

/// Removing the effect that `add_effect` just appended gives back the chain
/// as it was before the add.
pub proof fn law_remove_undoes_add(c: EffectChain, t: EffectType, after: Seq<EffectSlot>)
    requires
        c.wf(),
        chain_removed(c.effects@.push(EffectSlot { id: c.next_effect_id, effect_type: t, enabled: true }), after, c.next_effect_id),
    ensures
        after == c.effects@,
{
    let added = c.effects@.push(EffectSlot { id: c.next_effect_id, effect_type: t, enabled: true });
    let i = c.effects@.len() as int;
    assert(added[i].id == c.next_effect_id);
    assert forall|j: int| 0 <= j < added.len() && added[j].id == c.next_effect_id implies j == i by {
        if j < i {
            assert(added[j] == c.effects@[j]);
        }
    }
    assert(added.remove(i) =~= c.effects@);
}

/// Toggling the bypass of the same effect twice leaves the chain unchanged.
pub proof fn law_bypass_toggle_twice(a: Seq<EffectSlot>, b: Seq<EffectSlot>, c: Seq<EffectSlot>, id: u32)
    requires
        chain_toggled(a, b, id),
        chain_toggled(b, c, id),
    ensures
        c == a,
{
    if exists|i: int| 0 <= i < a.len() && a[i].id == id {
        let i = choose|i: int| 0 <= i < a.len() && a[i].id == id;
        assert(b == a.update(i, EffectSlot { enabled: !a[i].enabled, ..a[i] }));
        assert(b[i].id == id);
        assert(c == b.update(i, EffectSlot { enabled: !b[i].enabled, ..b[i] }));
        assert(c =~= a);
    } else {
        assert(b == a);
    }
}

/// Moving an effect keeps the same effects in the chain, each as often.
pub proof fn law_move_keeps_effects(a: Seq<EffectSlot>, b: Seq<EffectSlot>, id: u32, direction: i8)
    requires
        chain_moved(a, b, id, direction),
    ensures
        b.len() == a.len(),
        b.to_multiset() == a.to_multiset(),
{
    if exists|i: int| 0 <= i < a.len() && a[i].id == id {
        let i = choose|i: int| 0 <= i < a.len() && a[i].id == id;
        let r = a.remove(i);
        let t = crate::state::clamp_int(i + direction, 0, a.len() - 1);
        assert(b == r.insert(t, a[i]));
        assert(b.len() == a.len());
        vstd::seq_lib::to_multiset_insert(r, t, a[i]);
        vstd::seq_lib::to_multiset_remove(a, i);
        vstd::seq_lib::to_multiset_contains(a, a[i]);
        assert(a.contains(a[i]));
        assert(a.to_multiset().remove(a[i]).insert(a[i]) =~= a.to_multiset()) by {
            broadcast use vstd::multiset::group_multiset_axioms;
        }
    } else {
        assert(b == a);
    }
}


/// Toggling the same step twice leaves the kit as it was: same grids,
/// lengths, pads and transport.
pub proof fn law_step_toggle_twice(o: DrumSequencer, m: DrumSequencer, n: DrumSequencer, pad: usize, step: usize, b1: u32, b2: u32)
    requires
        o.wf(),
        sequencer_action_applied(o, m, SequencerAction::ToggleStep(pad, step), b1),
        sequencer_action_applied(m, n, SequencerAction::ToggleStep(pad, step), b2),
    ensures
        n.grids() == o.grids(),
        n.lengths() == o.lengths(),
        n.pads == o.pads,
        n.current_pattern == o.current_pattern,
        n.playing == o.playing,
        n.current_step == o.current_step,
        n.chain == o.chain,
        n.chain_enabled == o.chain_enabled,
        n.chain_position == o.chain_position,
        n.editing_pad == o.editing_pad,
{
    let cp = o.current_pattern as int;
    let g = o.current_grid();
    let f = |d: crate::sequencer::DrumStep| crate::sequencer::DrumStep { active: !d.active, ..d };
    let g1 = cell_changed(g, pad as int, step as int, f);
    assert(o.grids()[cp] == g);
    assert(m.grids() == o.grids().update(cp, g1));
    assert(m.patterns@.len() == m.grids().len());
    assert(m.grids()[cp] == m.current_grid());
    let g2 = cell_changed(g1, pad as int, step as int, f);
    let (p, st) = (pad as int, step as int);
    if 0 <= p < g.len() && 0 <= st < g[p].len() {
        assert(g1[p][st] == f(g[p][st]));
        assert(g2[p] =~= g[p]);
    }
    assert(g2 =~= g);
    assert(n.grids() =~= o.grids());
}

/// Deleting the steps of a region resets every cell of the rectangle, both
/// bounds included (pads `start_pad..=end_pad`, steps
/// `start_step..=end_step`), that lies in the grid to the default step, and
/// leaves every other cell, the other patterns and the pads as they were.
pub proof fn law_delete_steps_region_is_inclusive(
    o: DrumSequencer,
    n: DrumSequencer,
    start_pad: usize,
    end_pad: usize,
    start_step: usize,
    end_step: usize,
    buffer: u32,
)
    requires
        o.wf(),
        sequencer_action_applied(o, n, SequencerAction::DeleteStepsInRegion { start_pad, end_pad, start_step, end_step }, buffer),
    ensures
        n.pads == o.pads,
        n.current_pattern == o.current_pattern,
        n.grids().len() == o.grids().len(),
        forall|q: int| 0 <= q < o.grids().len() && q != o.current_pattern ==> #[trigger] n.grids()[q] == o.grids()[q],
        n.grids()[o.current_pattern as int].len() == o.grids()[o.current_pattern as int].len(),
        forall|p: int| 0 <= p < o.grids()[o.current_pattern as int].len()
            ==> (#[trigger] n.grids()[o.current_pattern as int][p]).len() == o.grids()[o.current_pattern as int][p].len(),
        forall|p: int, st: int| 0 <= p < o.grids()[o.current_pattern as int].len()
            && 0 <= st < o.grids()[o.current_pattern as int][p].len() ==> {
            let before = o.grids()[o.current_pattern as int][p][st];
            let after = #[trigger] n.grids()[o.current_pattern as int][p][st];
            &&& (p >= start_pad && end_pad >= p && st >= start_step && end_step >= st ==> after == default_step())
            &&& (!(p >= start_pad && end_pad >= p && st >= start_step && end_step >= st) ==> after == before)
        },
{
    let cp = o.current_pattern as int;
    assert(o.grids()[cp] == o.current_grid());
}

/// Four `CyclePatternLength` steps bring a pattern of length 8, 16, 32 or 64
/// back to its length.
pub proof fn law_pattern_length_cycle(
    s0: DrumSequencer,
    s1: DrumSequencer,
    s2: DrumSequencer,
    s3: DrumSequencer,
    s4: DrumSequencer,
    b: u32,
)
    requires
        s0.wf(),
        ({
            let l = s0.lengths()[s0.current_pattern as int];
            l == 8 || l == 16 || l == 32 || l == 64
        }),
        sequencer_action_applied(s0, s1, SequencerAction::CyclePatternLength, b),
        sequencer_action_applied(s1, s2, SequencerAction::CyclePatternLength, b),
        sequencer_action_applied(s2, s3, SequencerAction::CyclePatternLength, b),
        sequencer_action_applied(s3, s4, SequencerAction::CyclePatternLength, b),
    ensures
        s4.lengths() == s0.lengths(),
        s4.current_pattern == s0.current_pattern,
{
    let cp = s0.current_pattern as int;
    let l = s0.lengths()[cp];
    assert(s0.lengths().len() == s0.patterns@.len());
    assert(s1.lengths()[cp] == next_pattern_length(l));
    assert(s2.lengths()[cp] == next_pattern_length(next_pattern_length(l)));
    assert(s3.lengths()[cp] == next_pattern_length(next_pattern_length(next_pattern_length(l))));
    assert(s4.lengths() =~= s0.lengths());
}

/// `PrevPattern` undoes `NextPattern`.
pub proof fn law_prev_undoes_next_pattern(o: DrumSequencer, m: DrumSequencer, n: DrumSequencer, b: u32)
    requires
        o.wf(),
        sequencer_action_applied(o, m, SequencerAction::NextPattern, b),
        sequencer_action_applied(m, n, SequencerAction::PrevPattern, b),
    ensures
        n.current_pattern == o.current_pattern,
        n.grids() == o.grids(),
        n.lengths() == o.lengths(),
{
    assert(m.patterns@.len() == m.grids().len());
    assert(o.patterns@.len() == o.grids().len());
    let len = o.patterns@.len() as int;
    let c = o.current_pattern as int;
    assert(m.current_pattern == (c + 1) % len);
    if c + 1 < len {
        vstd::arithmetic::div_mod::lemma_small_mod((c + 1) as nat, len as nat);
    } else {
        vstd::arithmetic::div_mod::lemma_mod_self_0(len);
    }
}

/// Cycling an output forward and then backward returns to it, when the bus
/// ids are distinct and the output is the master or one of the buses.
pub proof fn law_output_cycle_reverse(t: OutputTarget, buses: Seq<BusId>)
    requires
        forall|i: int, j: int| 0 <= i < j < buses.len() ==> buses[i] != buses[j],
        t matches OutputTarget::Bus(c) ==> buses.contains(c),
    ensures
        prev_output(next_output(t, buses), buses) == t,
{
    match t {
        OutputTarget::Master => {
            if buses.len() > 0 {
                lemma_first_index(buses, buses[0], 0);
            }
        },
        OutputTarget::Bus(c) => {
            let i = choose|i: int| 0 <= i < buses.len() && buses[i] == c;
            lemma_first_index(buses, c, i);
            if i + 1 < buses.len() {
                assert(forall|k: int| 0 <= k < i + 1 ==> #[trigger] buses[k] != buses[i + 1]);
                lemma_first_index(buses, buses[i + 1], i + 1);
            } else {
                assert(buses.last() == c);
            }
        },
    }
}


/// Cycling an output backward and then forward returns to it, under the same
/// conditions as `law_output_cycle_reverse`.
pub proof fn law_output_cycle_forward(t: OutputTarget, buses: Seq<BusId>)
    requires
        forall|i: int, j: int| 0 <= i < j < buses.len() ==> buses[i] != buses[j],
        t matches OutputTarget::Bus(c) ==> buses.contains(c),
    ensures
        next_output(prev_output(t, buses), buses) == t,
{
    match t {
        OutputTarget::Master => {
            if buses.len() > 0 {
                let l = buses.len() - 1;
                assert(forall|k: int| 0 <= k < l ==> #[trigger] buses[k] != buses[l]);
                lemma_first_index(buses, buses[l], l);
            }
        },
        OutputTarget::Bus(c) => {
            let i = choose|i: int| 0 <= i < buses.len() && buses[i] == c;
            lemma_first_index(buses, c, i);
            if i > 0 {
                assert(forall|k: int| 0 <= k < i - 1 ==> #[trigger] buses[k] != buses[i - 1]);
                lemma_first_index(buses, buses[i - 1], i - 1);
            } else {
                assert(buses[0] == c);
            }
        },
    }
}

/// The mixer's `CycleOutput` followed by `CycleOutputReverse`, or the two in
/// the other order, on the selected instrument gives back the instruments and
/// the session they started from, when bus ids are distinct and the
/// instrument outputs to the master or to one of the buses.
pub proof fn law_output_cycle_round_trip(
    i0: InstrumentState,
    s0: SessionState,
    i1: InstrumentState,
    s1: SessionState,
    i2: InstrumentState,
    s2: SessionState,
    forward_first: bool,
)
    requires
        s0.mixer.wf(),
        s0.mixer.selection matches MixerSelection::Instrument(k) && k < i0.instruments@.len()
            && (i0.instruments@[k as int].output_target matches OutputTarget::Bus(c)
                ==> bus_ids_of(s0.mixer.buses@).contains(c)),
        mixer_action_applied(i0, s0, i1, s1, if forward_first { MixerAction::CycleOutput } else { MixerAction::CycleOutputReverse }),
        mixer_action_applied(i1, s1, i2, s2, if forward_first { MixerAction::CycleOutputReverse } else { MixerAction::CycleOutput }),
    ensures
        i2.instruments@ == i0.instruments@,
        i2.selected == i0.selected,
        i2.next_id == i0.next_id,
        i2.next_layer_group_id == i0.next_layer_group_id,
        i2.editing_instrument_id == i0.editing_instrument_id,
        i2.next_sampler_buffer_id == i0.next_sampler_buffer_id,
        s2.mixer.selection == s0.mixer.selection,
        s2.mixer.buses == s0.mixer.buses,
        s2.mixer.layer_group_mixers == s0.mixer.layer_group_mixers,
        s2.mixer.master_mute == s0.mixer.master_mute,
        s2.automation_lanes == s0.automation_lanes,
        s2.next_lane_id == s0.next_lane_id,
        s2.midi_recording == s0.midi_recording,
        s2.piano_roll == s0.piano_roll,
        s2.arrangement == s0.arrangement,
{
    let k = s0.mixer.selection->Instrument_0 as int;
    let buses = bus_ids_of(s0.mixer.buses@);
    assert forall|i: int, j: int| 0 <= i < j < buses.len() implies buses[i] != buses[j] by {
        assert(buses[i] == s0.mixer.buses@[i].id);
        assert(buses[j] == s0.mixer.buses@[j].id);
    }
    let t = i0.instruments@[k].output_target;
    if forward_first {
        law_output_cycle_reverse(t, buses);
    } else {
        law_output_cycle_forward(t, buses);
    }
    let a0 = i0.instruments@[k];
    let a1 = i1.instruments@[k];
    let a2 = i2.instruments@[k];
    assert(a2 == a0);
    assert(i2.instruments@ =~= i0.instruments@);
}

/// The CC mappings for one controller number and channel.
pub open spec fn mappings_for(s: Seq<MidiCcMapping>, cc: u8, channel: Option<u8>) -> Seq<MidiCcMapping> {
    s.filter(|m: MidiCcMapping| m.cc == cc && m.channel == channel)
}

/// After a mapping is added, it is the only mapping for its controller and
/// channel: an earlier one for the same pair is replaced.
pub proof fn law_cc_mapping_replaces(old: AppState, new: AppState, cc: u8, channel: Option<u8>, target: AutomationTarget)
    requires
        midi_action_applied(old, new, MidiAction::AddCcMapping { cc, channel, target }),
    ensures
        mappings_for(new.session.midi_recording.cc_mappings@, cc, channel) == seq![MidiCcMapping { cc, channel, target }],
{
    let om = old.session.midi_recording.cc_mappings@;
    let kept = mappings_without(om, cc, channel);
    let key = |m: MidiCcMapping| m.cc == cc && m.channel == channel;
    let not_key = |m: MidiCcMapping| !(m.cc == cc && m.channel == channel);
    let added = MidiCcMapping { cc, channel, target };
    assert(new.session.midi_recording.cc_mappings@ == kept.push(added));
    kept.lemma_filter_push(added, key);
    assert forall|i: int| 0 <= i < kept.len() implies !key(#[trigger] kept[i]) by {
        om.lemma_filter_pred(not_key, i);
    }
    assert(kept.all(|x: MidiCcMapping| !key(x)));
    kept.lemma_all_neg_filter_empty(key);
    assert(kept.filter(key).push(added) =~= seq![added]);
}


/// After a bus is removed, nothing refers to it: no bus has its id, no
/// instrument or layer group outputs to it or has an enabled send to it, and
/// no automation lane drives it.
pub proof fn law_removed_bus_unreferenced(old: AppState, new: AppState, id: BusId)
    requires
        old.session.mixer.wf(),
        has_bus(old.session.mixer.buses@, id),
        bus_removed(old, new, id),
    ensures
        !has_bus(new.session.mixer.buses@, id),
        forall|k: int| 0 <= k < new.instruments.instruments@.len()
            ==> (#[trigger] new.instruments.instruments@[k]).output_target != OutputTarget::Bus(id),
        forall|k: int, j: int| 0 <= k < new.instruments.instruments@.len()
            && 0 <= j < new.instruments.instruments@[k].sends@.len()
            && (#[trigger] new.instruments.instruments@[k].sends@[j]).bus_id == id
            ==> !new.instruments.instruments@[k].sends@[j].enabled,
        forall|k: int| 0 <= k < new.session.mixer.layer_group_mixers@.len()
            ==> (#[trigger] new.session.mixer.layer_group_mixers@[k]).output_target != OutputTarget::Bus(id),
        forall|k: int, j: int| 0 <= k < new.session.mixer.layer_group_mixers@.len()
            && 0 <= j < new.session.mixer.layer_group_mixers@[k].sends@.len()
            && (#[trigger] new.session.mixer.layer_group_mixers@[k].sends@[j]).bus_id == id
            ==> !new.session.mixer.layer_group_mixers@[k].sends@[j].enabled,
        forall|k: int| 0 <= k < new.session.automation_lanes@.len()
            ==> !(#[trigger] new.session.automation_lanes@[k]).target.refers_to_bus(id),
{
    let ob = old.session.mixer.buses@;
    let i = choose|i: int| 0 <= i < ob.len() && ob[i].id == id;
    assert(new.session.mixer.buses@ == ob.remove(i));
    if has_bus(new.session.mixer.buses@, id) {
        let j = choose|j: int| 0 <= j < ob.len() - 1 && ob.remove(i)[j].id == id;
        if j < i {
            assert(ob[j].id == ob[i].id);
        } else {
            assert(ob[j + 1].id == ob[i].id);
        }
    }
    let ol = old.session.automation_lanes@;
    let keep = |l: crate::state::AutomationLane| !l.target.refers_to_bus(id);
    assert forall|k: int| 0 <= k < new.session.automation_lanes@.len()
        implies !(#[trigger] new.session.automation_lanes@[k]).target.refers_to_bus(id) by {
        ol.lemma_filter_pred(keep, k);
    }
}

/// The bus that `add_bus` appends has an id that no earlier bus has.
pub proof fn law_added_bus_is_fresh(old: AppState, new: AppState)
    requires
        max_bus_id(old.session.mixer.buses@) < u8::MAX,
        bus_added(old, new),
    ensures
        !has_bus(old.session.mixer.buses@, new.session.mixer.buses@.last().id),
        new.session.mixer.buses@.len() == old.session.mixer.buses@.len() + 1,
{
    let ob = old.session.mixer.buses@;
    if has_bus(ob, new.session.mixer.buses@.last().id) {
        let j = choose|j: int| 0 <= j < ob.len() && ob[j].id == new.session.mixer.buses@.last().id;
        lemma_max_bus_id(ob);
        assert(ob[j].id <= max_bus_id(ob));
    }
}


/// Linking two distinct instruments puts both in the same layer group.
pub proof fn law_link_shares_group(
    oi: InstrumentState,
    os: SessionState,
    ni: InstrumentState,
    ns: SessionState,
    a: InstrumentId,
    b: InstrumentId,
)
    requires
        oi.wf(),
        a != b,
        exists|k: int| 0 <= k < oi.instruments@.len() && oi.instruments@[k].id == a,
        exists|k: int| 0 <= k < oi.instruments@.len() && oi.instruments@[k].id == b,
        layers_linked(oi, os, ni, ns, a, b),
    ensures
        group_of(ni.instruments@, a) is Some,
        group_of(ni.instruments@, a) == group_of(ni.instruments@, b),
{
    let o = oi.instruments@;
    let n = ni.instruments@;
    let ka = choose|k: int| 0 <= k < o.len() && o[k].id == a;
    let kb = choose|k: int| 0 <= k < o.len() && o[k].id == b;
    assert(n[ka].id == a && n[kb].id == b);
    assert forall|i: int, j: int| 0 <= i < j < n.len() implies n[i].id != n[j].id by {
        assert(n[i].id == o[i].id && n[j].id == o[j].id);
    }
    lemma_group_of(n, a, ka);
    lemma_group_of(n, b, kb);
}


/// Filtering keeps every note when all pass.
proof fn lemma_filter_keeps_all(notes: Seq<Note>, keep: spec_fn(Note) -> bool)
    requires
        forall|i: int| 0 <= i < notes.len() ==> keep(#[trigger] notes[i]),
    ensures
        notes.filter(keep) == notes,
    decreases notes.len(),
{
    reveal_with_fuel(Seq::<_>::filter, 1);
    if notes.len() > 0 {
        lemma_filter_keeps_all(notes.drop_last(), keep);
        assert(notes.drop_last().push(notes.last()) =~= notes);
    }
}

/// Toggling a note where there is none, and toggling it again, leaves the
/// track as it was.
pub proof fn law_toggle_note_twice(notes: Seq<Note>, n: Note)
    requires
        !has_note_at(notes, n.pitch, n.tick),
    ensures
        toggled_notes(toggled_notes(notes, n), n) == notes,
{
    let once = notes.push(n);
    assert(once[notes.len() as int] == n);
    assert(has_note_at(once, n.pitch, n.tick));
    let keep = |m: Note| !(m.pitch == n.pitch && m.tick == n.tick);
    assert forall|i: int| 0 <= i < notes.len() implies keep(#[trigger] notes[i]) by {
        if !keep(notes[i]) {
            assert(has_note_at(notes, n.pitch, n.tick));
        }
    }
    notes.lemma_filter_push(n, keep);
    lemma_filter_keeps_all(notes, keep);
}

/// Pasting entries that each land on a note already in the track changes
/// nothing.
proof fn lemma_paste_onto_existing(notes: Seq<Note>, at: u32, ap: u8, clip: Seq<ClipboardNote>)
    requires
        forall|i: int| 0 <= i < clip.len() ==> {
            let p = ap + (#[trigger] clip[i]).pitch_offset;
            !(0 <= p <= 127) || has_note_at(notes, p as u8, (at + clip[i].tick_offset) as u32)
        },
    ensures
        pasted_notes(notes, at, ap, clip) == notes,
    decreases clip.len(),
{
    if clip.len() > 0 {
        let c = clip.last();
        assert(c == clip[clip.len() - 1]);
        lemma_paste_onto_existing(notes, at, ap, clip.drop_last());
    }
}

/// Every entry of a copy comes from a note of the track, at the corner plus
/// its offsets.
proof fn lemma_copy_from_notes(notes: Seq<Note>, start: u32, end: u32, lo: u8, hi: u8)
    ensures
        forall|i: int| 0 <= i < copied_notes(notes, start, end, lo, hi).len() ==> {
            let c = #[trigger] copied_notes(notes, start, end, lo, hi)[i];
            &&& 0 <= lo + c.pitch_offset <= u8::MAX
            &&& start + c.tick_offset <= u32::MAX
            &&& has_note_at(notes, (lo + c.pitch_offset) as u8, (start + c.tick_offset) as u32)
        },
    decreases notes.len(),
{
    if notes.len() > 0 {
        let rest = notes.drop_last();
        lemma_copy_from_notes(rest, start, end, lo, hi);
        let cr = copied_notes(rest, start, end, lo, hi);
        let cn = copied_notes(notes, start, end, lo, hi);
        assert forall|i: int| 0 <= i < cn.len() implies {
            let c = #[trigger] cn[i];
            &&& 0 <= lo + c.pitch_offset <= u8::MAX
            &&& start + c.tick_offset <= u32::MAX
            &&& has_note_at(notes, (lo + c.pitch_offset) as u8, (start + c.tick_offset) as u32)
        } by {
            if i < cr.len() {
                let c = cr[i];
                assert(cn[i] == c);
                let k = choose|k: int| 0 <= k < rest.len() && rest[k].pitch == (lo + c.pitch_offset) as u8
                    && rest[k].tick == (start + c.tick_offset) as u32;
                assert(notes[k] == rest[k]);
            } else {
                let last = notes.last();
                assert(notes[notes.len() - 1] == last);
            }
        }
    }
}

/// Pasting a copy back at the corner it was copied from changes nothing:
/// every note lands on itself and is skipped.
pub proof fn law_paste_copy_in_place(notes: Seq<Note>, start: u32, end: u32, lo: u8, hi: u8)
    ensures
        pasted_notes(notes, start, lo, copied_notes(notes, start, end, lo, hi)) == notes,
{
    let clip = copied_notes(notes, start, end, lo, hi);
    lemma_copy_from_notes(notes, start, end, lo, hi);
    assert forall|i: int| 0 <= i < clip.len() implies {
        let p = lo + (#[trigger] clip[i]).pitch_offset;
        !(0 <= p <= 127) || has_note_at(notes, p as u8, (start + clip[i].tick_offset) as u32)
    } by {
        let c = clip[i];
    }
    lemma_paste_onto_existing(notes, start, lo, clip);
}

/// After the notes of a region are deleted, copying that region copies nothing.
pub proof fn law_copy_after_delete_is_empty(notes: Seq<Note>, start: u32, end: u32, lo: u8, hi: u8)
    ensures
        copied_notes(notes_outside(notes, start, end, lo, hi), start, end, lo, hi).len() == 0,
    decreases notes.len(),
{
    reveal_with_fuel(Seq::<_>::filter, 1);
    let keep = |n: Note| !in_region(n, start, end, lo, hi);
    if notes.len() > 0 {
        law_copy_after_delete_is_empty(notes.drop_last(), start, end, lo, hi);
        let f = notes.drop_last().filter(keep);
        if keep(notes.last()) {
            assert(notes.filter(keep) == f.push(notes.last()));
            assert(f.push(notes.last()).drop_last() =~= f);
        }
    }
}

/// Five `CycleTimeSig` steps bring each of the cycled signatures back.
pub proof fn law_time_sig_cycle(ts: TimeSignature)
    requires
        (ts.beats == 4 && ts.unit == 4) || (ts.beats == 3 && ts.unit == 4) || (ts.beats == 6 && ts.unit == 8)
            || (ts.beats == 5 && ts.unit == 4) || (ts.beats == 7 && ts.unit == 8),
    ensures
        next_time_sig(next_time_sig(next_time_sig(next_time_sig(next_time_sig(ts))))) == ts,
{
}


/// Dispatching `EnterClipEdit` and then `ExitClipEdit` with no change in
/// between gives back the piano roll as it was (tracks, notes, loop and the
/// other settings), leaves every clip's notes and length and the automation
/// lanes as they were, and ends with no clip in edit.
pub proof fn law_clip_edit_round_trip(s0: AppState, s1: AppState, s2: AppState, clip_id: u32)
    requires
        s0.session.arrangement.editing_clip is None,
        can_enter_clip_edit(s0, clip_id),
        arrangement_dispatched(s0, s1, ArrangementAction::EnterClipEdit(clip_id)),
        arrangement_dispatched(s1, s2, ArrangementAction::ExitClipEdit),
    ensures
        s2.session.automation_lanes == s0.session.automation_lanes,
        s2.session.next_lane_id == s0.session.next_lane_id,
        s2.session.piano_roll.tracks@.len() == s0.session.piano_roll.tracks@.len(),
        forall|k: int| 0 <= k < s0.session.piano_roll.tracks@.len() ==> {
            &&& (#[trigger] s2.session.piano_roll.tracks@[k]).instrument_id == s0.session.piano_roll.tracks@[k].instrument_id
            &&& s2.session.piano_roll.tracks@[k].notes@ == s0.session.piano_roll.tracks@[k].notes@
        },
        crate::piano_roll::same_settings(s0.session.piano_roll, s2.session.piano_roll),
        s2.session.arrangement.editing_clip is None,
        s2.session.arrangement.clips@.len() == s0.session.arrangement.clips@.len(),
        forall|k: int| 0 <= k < s0.session.arrangement.clips@.len() ==> {
            &&& (#[trigger] s2.session.arrangement.clips@[k]).id == s0.session.arrangement.clips@[k].id
            &&& s2.session.arrangement.clips@[k].notes@ == s0.session.arrangement.clips@[k].notes@
            &&& s2.session.arrangement.clips@[k].length_ticks == s0.session.arrangement.clips@[k].length_ticks
        },
{
    let oa = s0.session.arrangement;
    let r0 = s0.session.piano_roll;
    let r1 = s1.session.piano_roll;
    let r2 = s2.session.piano_roll;
    let p = choose|p: int| first_clip(oa.clips@, clip_id, p)
        && crate::arrangement::has_track(r0.tracks@, #[trigger] oa.clips@[p].instrument_id);
    let c = oa.clips@[p];
    let t = choose|t: int| 0 <= t < r0.tracks@.len() && r0.tracks@[t].instrument_id == c.instrument_id;
    crate::arrangement::lemma_first_track_exists(r0.tracks@, c.instrument_id, t);
    let t = choose|t: int| first_track(r0.tracks@, c.instrument_id, t);
    assert(first_track(r0.tracks@, c.instrument_id, t));
    let ctx = s1.session.arrangement.editing_clip->0;
    assert(first_track(r1.tracks@, c.instrument_id, t)) by {
        assert forall|k: int| 0 <= k < t implies r1.tracks@[k].instrument_id != c.instrument_id by {
            assert(r1.tracks@[k] == r0.tracks@[k]);
        }
    }
    lemma_first_track_notes(r1.tracks@, c.instrument_id, t);
    assert(s1.session.arrangement.clips == oa.clips);
    assert(first_clip(s1.session.arrangement.clips@, clip_id, p));
}


/// Adding a lane for a target that already has one changes nothing, so
/// adding the same target twice is the same as adding it once.
pub proof fn law_add_lane_idempotent(
    l0: Seq<AutomationLane>, n0: u32,
    l1: Seq<AutomationLane>, n1: u32,
    l2: Seq<AutomationLane>, n2: u32,
    target: AutomationTarget,
)
    requires
        lanes_after(l0, n0, l1, n1, AutomationAction::AddLane(target)),
        lanes_after(l1, n1, l2, n2, AutomationAction::AddLane(target)),
    ensures
        l2 == l1,
        n2 == n1,
        has_lane_for(l1, target),
{
    if !has_lane_for(l0, target) {
        assert(l1[l0.len() as int].target == target);
    }
}

/// Stealing voices for a new note loses no voice and invents none: the
/// voices left and the voices taken are together the voices before. At most
/// two are taken, both of the note's instrument, the first at its pitch.
pub proof fn law_steal_conserves_voices(s: Seq<VoiceChain>, keys: Seq<u64>, id: InstrumentId, pitch: u8)
    requires
        keys.len() == s.len(),
    ensures
        after_steal(s, keys, id, pitch).0.to_multiset().add(after_steal(s, keys, id, pitch).1.to_multiset())
            == s.to_multiset(),
        after_steal(s, keys, id, pitch).1.len() <= 2,
        forall|i: int| 0 <= i < after_steal(s, keys, id, pitch).1.len()
            ==> (#[trigger] after_steal(s, keys, id, pitch).1[i]).instrument_id == id,
        retrigger_pos(s, id, pitch) is Some ==> after_steal(s, keys, id, pitch).1[0].pitch == pitch,
{
    broadcast use vstd::seq_lib::group_to_multiset_ensures;
    let (s1, k1, taken) = after_retrigger(s, keys, id, pitch);
    match retrigger_pos(s, id, pitch) {
        Some(p) => {
            assert(first_playing(s, id, pitch, p));
            assert(s.contains(s[p]));
            assert(s1.to_multiset().add(taken.to_multiset()) =~= s.to_multiset());
        },
        None => {
            assert(taken.to_multiset() =~= vstd::multiset::Multiset::empty());
            assert(s1.to_multiset().add(taken.to_multiset()) =~= s.to_multiset());
        },
    }
    let (left, stolen) = after_steal(s, keys, id, pitch);
    if left != s1 {
        let q = steal_candidate(s1, k1, id)->0;
        assert(best_candidate(s1, k1, id, q));
        assert(s1.contains(s1[q]));
        assert(stolen.to_multiset() =~= taken.to_multiset().insert(s1[q]));
        assert(left.to_multiset().add(stolen.to_multiset()) =~= s.to_multiset());
    }
}

/// Draining an instrument's voices splits the voices in two: those of the
/// instrument and those of the others; none is lost.
pub proof fn law_drain_splits_voices(s: Seq<VoiceChain>, id: InstrumentId)
    ensures
        voices_of(s, id).len() + voices_not_of(s, id).len() == s.len(),
        forall|i: int| 0 <= i < voices_of(s, id).len() ==> (#[trigger] voices_of(s, id)[i]).instrument_id == id,
        forall|i: int| 0 <= i < voices_not_of(s, id).len() ==> (#[trigger] voices_not_of(s, id)[i]).instrument_id != id,
    decreases s.len(),
{
    reveal_with_fuel(Seq::<_>::filter, 1);
    if s.len() > 0 {
        law_drain_splits_voices(s.drop_last(), id);
    }
}

/// A control bus triple handed back to the pool is the next one allocated,
/// and allocating it leaves the pool as it was before it was handed back:
/// `a` is the allocator before `return_control_buses(t)`, `b` after it, and
/// `c` after the `alloc_control_buses` that returned `r`.
pub proof fn law_returned_buses_are_reused(
    a: VoiceAllocator,
    b: VoiceAllocator,
    c: VoiceAllocator,
    t: (i32, i32, i32),
    r: (i32, i32, i32),
)
    requires
        b.pool() == a.pool().push(t),
        b.pool().len() > 0 ==> r == b.pool().last() && c.pool() == b.pool().drop_last(),
    ensures
        r == t,
        c.pool() == a.pool(),
{
    assert(a.pool().push(t).drop_last() =~= a.pool());
}

/// A routing rebuild of a running engine with `n` instruments tears down,
/// allocates buses, builds each instrument once in order, builds the outputs,
/// finalizes, and is then complete; a stopped engine is done at once.
pub proof fn law_rebuild_visits_each_instrument_once(n: usize)
    ensures
        after_steps(Some(RoutingRebuildPhase::TearDown), false, n, 1) is None,
        after_steps(Some(RoutingRebuildPhase::TearDown), true, n, 1) == Some(RoutingRebuildPhase::AllocBuses),
        forall|i: int| 0 <= i < n ==> #[trigger] after_steps(Some(RoutingRebuildPhase::TearDown), true, n, (i + 2) as nat)
            == Some(RoutingRebuildPhase::BuildInstrument(i as usize)),
        after_steps(Some(RoutingRebuildPhase::TearDown), true, n, (n + 2) as nat) == Some(RoutingRebuildPhase::BuildOutputs),
        after_steps(Some(RoutingRebuildPhase::TearDown), true, n, (n + 3) as nat) == Some(RoutingRebuildPhase::Finalize),
        after_steps(Some(RoutingRebuildPhase::TearDown), true, n, (n + 4) as nat) is None,
{
    let start = Some(RoutingRebuildPhase::TearDown);
    reveal_with_fuel(after_steps, 3);
    assert(after_steps(start, true, n, 1) == Some(RoutingRebuildPhase::AllocBuses));
    assert forall|i: int| 0 <= i < n implies #[trigger] after_steps(start, true, n, (i + 2) as nat)
        == Some(RoutingRebuildPhase::BuildInstrument(i as usize)) by {
        lemma_build_step(n, i);
    }
    if n == 0 {
        lemma_after_steps_succ(start, true, n, 1);
        assert(after_steps(start, true, n, 2) == Some(RoutingRebuildPhase::BuildOutputs));
    } else {
        lemma_build_step(n, n - 1);
        lemma_after_steps_succ(start, true, n, (n + 1) as nat);
    }
    lemma_after_steps_succ(start, true, n, (n + 2) as nat);
    lemma_after_steps_succ(start, true, n, (n + 3) as nat);
}

/// `i + 2` steps from tear-down build instrument `i`.
proof fn lemma_build_step(n: usize, i: int)
    requires
        0 <= i < n,
    ensures
        after_steps(Some(RoutingRebuildPhase::TearDown), true, n, (i + 2) as nat)
            == Some(RoutingRebuildPhase::BuildInstrument(i as usize)),
    decreases i,
{
    let start = Some(RoutingRebuildPhase::TearDown);
    reveal_with_fuel(after_steps, 3);
    if i == 0 {
        assert(after_steps(start, true, n, 2) == Some(RoutingRebuildPhase::BuildInstrument(0)));
    } else {
        lemma_build_step(n, i - 1);
        lemma_after_steps_succ(start, true, n, (i + 1) as nat);
    }
}

/// Toggling the master mute twice gives back the session as it was.
pub proof fn law_master_mute_toggle_twice(a: AppState, b: AppState, c: AppState)
    requires
        session_applied(a, b, SessionAction::ToggleMasterMute),
        session_applied(b, c, SessionAction::ToggleMasterMute),
    ensures
        c.session.mixer == a.session.mixer,
        c.session == a.session,
        c.instruments == a.instruments,
{
}

/// Moving the sounding notes on loses none: each either ends, with no more
/// ticks left than the step, or keeps sounding with ticks still to go.
pub proof fn law_advance_conserves_notes(active: Seq<ActiveNote>, delta: u32)
    ensures
        notes_ending(active, delta).len() + notes_still_sounding(active, delta).len() == active.len(),
        forall|i: int| 0 <= i < notes_ending(active, delta).len() ==> (#[trigger] notes_ending(active, delta)[i]).2 <= delta,
        forall|i: int| 0 <= i < notes_still_sounding(active, delta).len()
            ==> (#[trigger] notes_still_sounding(active, delta)[i]).2 > 0,
    decreases active.len(),
{
    if active.len() > 0 {
        law_advance_conserves_notes(active.drop_last(), delta);
    }
}

/// Holding a pitch and letting it go leaves the held set without it.
pub proof fn law_release_after_hold(before: Seq<u8>, held: Seq<u8>, pitch: u8)
    requires
        held.to_set() == before.to_set().insert(pitch),
    ensures
        held.filter(|p: u8| p != pitch).to_set() == before.to_set().remove(pitch),
{
    let f = held.filter(|p: u8| p != pitch);
    assert forall|x: u8| f.to_set().contains(x) <==> before.to_set().remove(pitch).contains(x) by {
        broadcast use vstd::seq_lib::group_filter_ensures;
        if f.contains(x) {
            held.lemma_filter_contains_rev(|p: u8| p != pitch, x);
            assert(held.to_set().contains(x));
        }
        if x != pitch && before.contains(x) {
            assert(before.to_set().contains(x));
            assert(held.to_set().contains(x));
            let k = choose|k: int| 0 <= k < held.len() && held[k] == x;
            held.lemma_filter_contains(|p: u8| p != pitch, k);
        }
    }
    assert(f.to_set() =~= before.to_set().remove(pitch));
}

/// A render that starts and then completes leaves the piano roll stopped,
/// looping as it did before the render, with no render pending.
pub proof fn law_render_round_trip(a: AppState, b: AppState, c: AppState, id: InstrumentId, running: bool)
    requires
        export_starts(a, PianoRollAction::RenderToWav(id), running),
        piano_roll_dispatched(a, b, PianoRollAction::RenderToWav(id), running),
        feedback_applied(b, c, AudioFeedback::RenderComplete { instrument_id: id }),
    ensures
        c.session.piano_roll.looping == a.session.piano_roll.looping,
        !c.session.piano_roll.playing,
        !c.audio.playing,
        c.audio.playhead == 0,
        c.io.pending_render is None,
        c.io.pending_export == a.io.pending_export,
        c.session.piano_roll.tracks == a.session.piano_roll.tracks,
{
}

/// A bounce or stem export that starts and is then cancelled leaves the
/// piano roll stopped and looping as it did before, with no export pending.
pub proof fn law_export_round_trip(a: AppState, b: AppState, c: AppState, action: PianoRollAction, running: bool)
    requires
        action is BounceToWav || action is ExportStems,
        export_starts(a, action, running),
        piano_roll_dispatched(a, b, action, running),
        piano_roll_dispatched(b, c, PianoRollAction::CancelExport, running),
    ensures
        c.session.piano_roll.looping == a.session.piano_roll.looping,
        !c.session.piano_roll.playing,
        !c.audio.playing,
        c.io.pending_export is None,
        c.io.pending_render == a.io.pending_render,
        c.session.piano_roll.tracks == a.session.piano_roll.tracks,
{
}

/// A bounce or stem export that completes restores looping as the cancel does.
pub proof fn law_export_complete_restores_looping(a: AppState, b: AppState, c: AppState, action: PianoRollAction, running: bool)
    requires
        action is BounceToWav || action is ExportStems,
        export_starts(a, action, running),
        piano_roll_dispatched(a, b, action, running),
        feedback_applied(b, c, AudioFeedback::ExportComplete),
    ensures
        c.session.piano_roll.looping == a.session.piano_roll.looping,
        !c.session.piano_roll.playing,
        !c.audio.playing,
        c.audio.playhead == 0,
        c.io.pending_export is None,
        c.session.piano_roll.tracks == a.session.piano_roll.tracks,
{
}

} // verus!
