//! Instrument actions with discrete effects: adding and deleting instruments,
//! editing their effect chains and filters, toggling stages, selection, and
//! linking instruments into layer groups.
use vstd::prelude::*;

use crate::action::{AudioEffect, DispatchResult, NavIntent, PaneId};
use crate::piano_roll::{track_appended, track_removed};
use crate::state::{
    clamp_int, fresh_group_strip, is_fresh_instrument,
    chain_moved, chain_removed, chain_toggled, AppState, AutomationLane,
    AutomationTarget, EffectId, EffectSlot, EffectType, FilterType, Instrument,
    InstrumentId, InstrumentState, LayerGroupMixer, SessionState,
    SourceType, bus_ids_of,
};

verus! {

/// Instrument actions whose state changes are discrete.
#[derive(Clone, Copy, Debug)]
pub enum InstrumentAction {
    Add(SourceType),
    Delete(InstrumentId),
    Edit(InstrumentId),
    AddEffect(InstrumentId, EffectType),
    RemoveEffect(InstrumentId, EffectId),
    MoveEffect(InstrumentId, EffectId, i8),
    ToggleEffectBypass(InstrumentId, EffectId),
    SetFilter(InstrumentId, Option<FilterType>),
    ToggleFilter(InstrumentId),
    CycleFilterType(InstrumentId),
    Select(usize),
    SelectFirst,
    SelectLast,
    ToggleArp(InstrumentId),
    AdjustArpOctaves(InstrumentId, i8),
    ToggleEq(InstrumentId),
    ToggleLfo(InstrumentId),
    SetTrackTimeSignature(InstrumentId, Option<(u8, u8)>),
    CycleTrackTimeSignature(InstrumentId),
    LinkLayer(InstrumentId, InstrumentId),
    UnlinkLayer(InstrumentId),
    AdjustLayerOctaveOffset(InstrumentId, i8),
    /// A sample file was chosen for the instrument. The caller loads the file
    /// into the buffer numbered `next_sampler_buffer_id` as it was before the
    /// action; the action takes that number and gives it to the instrument.
    LoadSampleResult(InstrumentId),
}

/// Whether an instrument with this source has a sampler configuration, which
/// holds the buffer it plays.
pub open spec fn has_sampler_config(src: SourceType) -> bool {
    src is Sampler || src is PitchedSampler
}

/// Filter after `CycleFilterType`.
pub open spec fn next_filter(f: FilterType) -> FilterType {
    match f {
        FilterType::Lpf => FilterType::Hpf,
        FilterType::Hpf => FilterType::Bpf,
        FilterType::Bpf => FilterType::Notch,
        FilterType::Notch => FilterType::Comb,
        FilterType::Comb => FilterType::Allpass,
        FilterType::Allpass => FilterType::Vowel,
        FilterType::Vowel => FilterType::ResDrive,
        FilterType::ResDrive => FilterType::Lpf,
    }
}

/// Per-track time signature after `CycleTrackTimeSignature`:
/// none, 4/4, 3/4, 5/4, 6/8, 7/8, 12/8, none; anything else goes to 4/4.
pub open spec fn next_time_signature(ts: Option<(u8, u8)>) -> Option<(u8, u8)> {
    match ts {
        None => Some((4u8, 4u8)),
        Some((4, 4)) => Some((3u8, 4u8)),
        Some((3, 4)) => Some((5u8, 4u8)),
        Some((5, 4)) => Some((6u8, 8u8)),
        Some((6, 8)) => Some((7u8, 8u8)),
        Some((7, 8)) => Some((12u8, 8u8)),
        Some((12, 8)) => None,
        Some(_) => Some((4u8, 4u8)),
    }
}

/// Arpeggiator octaves after adding `delta`, kept within 1..=4.
pub open spec fn adjusted_octaves(octaves: u8, delta: i8) -> u8 {
    let raw = (octaves as i8) as int + delta;
    (if raw < 1 { 1 } else if raw > 4 { 4 } else { raw }) as u8
}

/// The instrument with id `id` is related to its old value by `f` and every
/// other instrument is unchanged; nothing changes when there is no such
/// instrument.
pub open spec fn instrument_with_id_changed(
    old: Seq<Instrument>,
    new: Seq<Instrument>,
    id: InstrumentId,
    f: spec_fn(Instrument, Instrument) -> bool,
) -> bool {
    &&& new.len() == old.len()
    &&& forall|k: int| 0 <= k < old.len() && old[k].id != id ==> new[k] == old[k]
    &&& forall|k: int| 0 <= k < old.len() && old[k].id == id ==> f(old[k], new[k])
}

/// Two instruments agree on everything but the effect chain.
pub open spec fn same_except_effects(a: Instrument, b: Instrument) -> bool {
    &&& a.id == b.id
    &&& a.source == b.source
    &&& a.active == b.active
    &&& a.mute == b.mute
    &&& a.solo == b.solo
    &&& a.output_target == b.output_target
    &&& a.sends == b.sends
    &&& a.layer_group == b.layer_group
    &&& a.filter == b.filter
    &&& a.eq_enabled == b.eq_enabled
    &&& a.lfo_enabled == b.lfo_enabled
    &&& a.arp_enabled == b.arp_enabled
    &&& a.arp_octaves == b.arp_octaves
    &&& a.time_signature == b.time_signature
    &&& a.drum_sequencer == b.drum_sequencer
    &&& a.layer_octave_offset == b.layer_octave_offset
    &&& a.sampler_buffer == b.sampler_buffer
}

/// Whether an automation target belongs to an instrument.
pub open spec fn target_of_instrument(t: AutomationTarget, id: InstrumentId) -> bool {
    match t {
        AutomationTarget::InstrumentLevel(i) => i == id,
        AutomationTarget::InstrumentPan(i) => i == id,
        AutomationTarget::SendLevel(i, _) => i == id,
        AutomationTarget::EffectParam(i, _, _) => i == id,
        AutomationTarget::FilterCutoff(i) => i == id,
        AutomationTarget::FilterResonance(i) => i == id,
        AutomationTarget::LfoRate(i) => i == id,
        AutomationTarget::LfoDepth(i) => i == id,
        AutomationTarget::VstParam(i, _) => i == id,
        _ => false,
    }
}

fn is_target_of_instrument(t: AutomationTarget, id: InstrumentId) -> (r: bool)
    ensures
        r == target_of_instrument(t, id),
{
    match t {
        AutomationTarget::InstrumentLevel(i) => i == id,
        AutomationTarget::InstrumentPan(i) => i == id,
        AutomationTarget::SendLevel(i, _) => i == id,
        AutomationTarget::EffectParam(i, _, _) => i == id,
        AutomationTarget::FilterCutoff(i) => i == id,
        AutomationTarget::FilterResonance(i) => i == id,
        AutomationTarget::LfoRate(i) => i == id,
        AutomationTarget::LfoDepth(i) => i == id,
        AutomationTarget::VstParam(i, _) => i == id,
        _ => false,
    }
}

/// Selection after deleting the instrument at `pos` from a list of `len`:
/// a selection past the new end moves to the new last instrument (none when
/// the list becomes empty).
pub open spec fn selection_after_delete(sel: Option<usize>, new_len: int) -> Option<usize> {
    match sel {
        Some(i) => if i < new_len { Some(i) } else if new_len > 0 { Some((new_len - 1) as usize) } else { None },
        None => None,
    }
}

/// The layer group of the instrument with id `id` (none when absent).
pub open spec fn group_of(insts: Seq<Instrument>, id: InstrumentId) -> Option<u32> {
    if exists|k: int| 0 <= k < insts.len() && insts[k].id == id {
        insts[choose|k: int| 0 <= k < insts.len() && insts[k].id == id].layer_group
    } else {
        None
    }
}

pub proof fn lemma_group_of(insts: Seq<Instrument>, id: InstrumentId, k: int)
    requires
        0 <= k < insts.len(),
        insts[k].id == id,
        forall|i: int, j: int| 0 <= i < j < insts.len() ==> insts[i].id != insts[j].id,
    ensures
        group_of(insts, id) == insts[k].layer_group,
{
    let c = choose|c: int| 0 <= c < insts.len() && insts[c].id == id;
    assert(0 <= c < insts.len() && insts[c].id == id);
    if c < k { assert(insts[c].id != insts[k].id); }
    if c > k { assert(insts[k].id != insts[c].id); }
}

/// Whether the mixer has a strip for layer group `g`.
pub open spec fn has_group_strip(groups: Seq<LayerGroupMixer>, g: u32) -> bool {
    exists|k: int| 0 <= k < groups.len() && groups[k].group_id == g
}

/// The group that `LinkLayer(a, b)` puts both instruments in.
pub open spec fn link_target_group(insts: Seq<Instrument>, a: InstrumentId, b: InstrumentId, next: u32) -> u32 {
    match (group_of(insts, a), group_of(insts, b)) {
        (_, Some(g)) => g,
        (Some(g), None) => g,
        (None, None) => next,
    }
}

/// State change of `link_layer`.
pub open spec fn layers_linked(oi: InstrumentState, os: SessionState, ni: InstrumentState, ns: SessionState, a: InstrumentId, b: InstrumentId) -> bool {
    let g = link_target_group(oi.instruments@, a, b, oi.next_layer_group_id);
    let fresh = group_of(oi.instruments@, a) is None && group_of(oi.instruments@, b) is None;
    &&& ni.selected == oi.selected
    &&& ni.next_id == oi.next_id
    &&& ni.editing_instrument_id == oi.editing_instrument_id
    &&& ni.next_sampler_buffer_id == oi.next_sampler_buffer_id
    &&& ns.automation_lanes == os.automation_lanes
    &&& ns.next_lane_id == os.next_lane_id
    &&& ns.midi_recording == os.midi_recording
    &&& ns.piano_roll == os.piano_roll
    &&& ns.arrangement == os.arrangement
    &&& ns.mixer.buses == os.mixer.buses
    &&& ns.mixer.selection == os.mixer.selection
    &&& ns.mixer.master_mute == os.mixer.master_mute
    &&& if a == b {
        ni == oi && ns == os
    } else {
        &&& ni.next_layer_group_id == (if fresh { oi.next_layer_group_id + 1 } else { oi.next_layer_group_id as int })
        &&& ni.instruments@.len() == oi.instruments@.len()
        &&& forall|k: int| 0 <= k < oi.instruments@.len() ==> #[trigger] ni.instruments@[k] == (
            if oi.instruments@[k].id == a || oi.instruments@[k].id == b {
                Instrument { layer_group: Some(g), ..oi.instruments@[k] }
            } else {
                oi.instruments@[k]
            })
        &&& if has_group_strip(os.mixer.layer_group_mixers@, g) {
            ns.mixer.layer_group_mixers == os.mixer.layer_group_mixers
        } else {
            &&& ns.mixer.layer_group_mixers@.len() == os.mixer.layer_group_mixers@.len() + 1
            &&& ns.mixer.layer_group_mixers@.drop_last() == os.mixer.layer_group_mixers@
            &&& fresh_group_strip(ns.mixer.layer_group_mixers@.last(), g, bus_ids_of(os.mixer.buses@))
        }
    }
}

/// Link two instruments into one layer group: the group of `b` if it has
/// one, else the group of `a`, else a new group. A strip is created for the
/// group when it has none.
#[verifier::spinoff_prover]
#[verifier::rlimit(40)]
pub fn link_layer(instruments: &mut InstrumentState, session: &mut SessionState, a: InstrumentId, b: InstrumentId)
    requires
        old(instruments).wf(),
        old(instruments).next_layer_group_id < u32::MAX,
    ensures
        final(instruments).wf(),
        old(session).mixer.wf() ==> final(session).mixer.wf(),
        layers_linked(*old(instruments), *old(session), *final(instruments), *final(session), a, b),
{
    if a == b {
        return;
    }
    let ghost oi = instruments.instruments@;
    let pa = instruments.index_of(a);
    let pb = instruments.index_of(b);
    let group_a = match pa {
        Some(k) => { proof { lemma_group_of(oi, a, k as int); } instruments.instruments[k].layer_group },
        None => None,
    };
    let group_b = match pb {
        Some(k) => { proof { lemma_group_of(oi, b, k as int); } instruments.instruments[k].layer_group },
        None => None,
    };
    let group_id = match (group_a, group_b) {
        (_, Some(g)) => g,
        (Some(g), None) => g,
        (None, None) => {
            let g = instruments.next_layer_group_id;
            instruments.next_layer_group_id = g + 1;
            g
        },
    };
    if let Some(k) = pa {
        instruments.instruments[k].layer_group = Some(group_id);
    }
    if let Some(k) = pb {
        instruments.instruments[k].layer_group = Some(group_id);
    }
    proof {
        let ni = instruments.instruments@;
        assert forall|k: int| 0 <= k < oi.len() implies #[trigger] ni[k] == (
            if oi[k].id == a || oi[k].id == b {
                Instrument { layer_group: Some(group_id), ..oi[k] }
            } else {
                oi[k]
            }) by {
            if oi[k].id == a {
                assert(pa == Some(k as usize)) by {
                    if pa is Some { let p = pa->0 as int; if p != k { assert(oi[p].id != oi[k].id); } }
                }
            }
            if oi[k].id == b {
                assert(pb == Some(k as usize)) by {
                    if pb is Some { let p = pb->0 as int; if p != k { assert(oi[p].id != oi[k].id); } }
                }
            }
        }
        assert(forall|k: int| 0 <= k < oi.len() ==> ni[k].id == oi[k].id && ni[k].effects == oi[k].effects);
    }
    // Auto-create the group strip if the group is new
    if session.mixer.group_index(group_id).is_none() {
        let bus_ids = session.mixer.bus_ids();
        let strip = LayerGroupMixer::new(group_id, &bus_ids);
        session.mixer.layer_group_mixers.push(strip);
        assert(session.mixer.layer_group_mixers@.drop_last() =~= old(session).mixer.layer_group_mixers@);
    }
}

/// Members of layer group `g`.
pub open spec fn group_members(insts: Seq<Instrument>, g: u32) -> Seq<Instrument> {
    insts.filter(|i: Instrument| i.layer_group == Some(g))
}

/// State change of `unlink_layer`.
pub open spec fn layer_unlinked(oi: InstrumentState, os: SessionState, ni: InstrumentState, ns: SessionState, id: InstrumentId) -> bool {
    let og = group_of(oi.instruments@, id);
    // instruments after taking `id` out of its group
    let left = |k: int| if oi.instruments@[k].id == id {
        Instrument { layer_group: None, ..oi.instruments@[k] }
    } else {
        oi.instruments@[k]
    };
    let left_seq = Seq::new(oi.instruments@.len(), left);
    &&& ni.selected == oi.selected
    &&& ni.next_id == oi.next_id
    &&& ni.next_layer_group_id == oi.next_layer_group_id
    &&& ni.editing_instrument_id == oi.editing_instrument_id
    &&& ni.next_sampler_buffer_id == oi.next_sampler_buffer_id
    &&& ns.automation_lanes == os.automation_lanes
    &&& ns.next_lane_id == os.next_lane_id
    &&& ns.midi_recording == os.midi_recording
    &&& ns.piano_roll == os.piano_roll
    &&& ns.arrangement == os.arrangement
    &&& ns.mixer.buses == os.mixer.buses
    &&& ns.mixer.selection == os.mixer.selection
    &&& ns.mixer.master_mute == os.mixer.master_mute
    &&& ni.instruments@.len() == oi.instruments@.len()
    &&& match og {
        None => ni.instruments@ == left_seq && ns.mixer.layer_group_mixers == os.mixer.layer_group_mixers,
        Some(g) => if group_members(left_seq, g).len() <= 1 {
            // the group dissolves: its last member leaves it and its strip goes
            &&& forall|k: int| 0 <= k < oi.instruments@.len() ==> #[trigger] ni.instruments@[k] == (
                if left_seq[k].layer_group == Some(g) {
                    Instrument { layer_group: None, ..left_seq[k] }
                } else {
                    left_seq[k]
                })
            &&& ns.mixer.layer_group_mixers@ == os.mixer.layer_group_mixers@.filter(|m: LayerGroupMixer| m.group_id != g)
        } else {
            ni.instruments@ == left_seq && ns.mixer.layer_group_mixers == os.mixer.layer_group_mixers
        },
    }
}


/// Number of members of group `g` (counted up to 2) and, when there is
/// exactly one, its position.
fn count_members(insts: &Vec<Instrument>, g: u32) -> (r: (usize, usize))
    ensures
        r.0 == (if group_members(insts@, g).len() < 2 { group_members(insts@, g).len() } else { 2 }),
        r.0 == 0 ==> forall|k: int| 0 <= k < insts@.len() ==> insts@[k].layer_group != Some(g),
        r.0 == 1 ==> r.1 < insts@.len() && insts@[r.1 as int].layer_group == Some(g)
            && forall|k: int| 0 <= k < insts@.len() && k != r.1 ==> insts@[k].layer_group != Some(g),
{
    let ghost cur = insts@;
    let mut count: usize = 0;
    let mut last: usize = 0;
    let mut i: usize = 0;
    while i < insts.len()
        invariant
            i <= cur.len(),
            insts@ == cur,
            count == (if group_members(cur.subrange(0, i as int), g).len() < 2 { group_members(cur.subrange(0, i as int), g).len() } else { 2 }),
            count == 0 ==> forall|k: int| 0 <= k < i ==> cur[k].layer_group != Some(g),
            count == 1 ==> last < i && cur[last as int].layer_group == Some(g)
                && forall|k: int| 0 <= k < i && k != last ==> cur[k].layer_group != Some(g),
        decreases cur.len() - i,
    {
        proof {
            reveal_with_fuel(Seq::<_>::filter, 1);
            assert(cur.subrange(0, i + 1).drop_last() =~= cur.subrange(0, i as int));
        }
        if insts[i].layer_group == Some(g) {
            if count < 2 {
                count = count + 1;
            }
            last = i;
        }
        i = i + 1;
    }
    assert(cur.subrange(0, i as int) =~= cur);
    (count, last)
}

/// Remove every strip of group `g`, keeping the order of the others.
fn remove_group_strips(mixers: &mut Vec<LayerGroupMixer>, g: u32)
    ensures
        final(mixers)@ == old(mixers)@.filter(|m: LayerGroupMixer| m.group_id != g),
{
    let ghost og = mixers@;
    let ghost mut c: int = 0;
    let mut j: usize = 0;
    while j < mixers.len()
        invariant
            0 <= c <= og.len(),
            j <= mixers@.len(),
            mixers@.len() - j == og.len() - c,
            mixers@.subrange(0, j as int) == og.subrange(0, c).filter(|m: LayerGroupMixer| m.group_id != g),
            mixers@.subrange(j as int, mixers@.len() as int) == og.subrange(c, og.len() as int),
        decreases og.len() - c,
    {
        let ghost before = mixers@;
        proof {
            reveal_with_fuel(Seq::<_>::filter, 1);
            assert(og.subrange(0, c + 1).drop_last() =~= og.subrange(0, c));
            assert(before[j as int] == before.subrange(j as int, before.len() as int)[0]);
            assert(og[c] == og.subrange(c, og.len() as int)[0]);
            assert(og.subrange(c + 1, og.len() as int) =~= og.subrange(c, og.len() as int).subrange(1, og.len() - c));
            assert(before.subrange(j + 1, before.len() as int) =~= before.subrange(j as int, before.len() as int).subrange(1, before.len() - j));
        }
        if mixers[j].group_id == g {
            mixers.remove(j);
            proof {
                let after = mixers@;
                assert(after.subrange(0, j as int) =~= before.subrange(0, j as int));
                assert(after.subrange(j as int, after.len() as int) =~= before.subrange(j + 1, before.len() as int));
            }
        } else {
            proof {
                assert(before.subrange(0, j + 1) =~= before.subrange(0, j as int).push(before[j as int]));
            }
            j = j + 1;
        }
        proof { c = c + 1; }
    }
    proof {
        let v = mixers@;
        assert(v.subrange(0, j as int) =~= v);
        assert(og.subrange(0, c) =~= og);
    }
}

/// Take an instrument out of its layer group. A group left with one member or
/// none is dissolved and its strip removed.
pub fn unlink_layer(instruments: &mut InstrumentState, session: &mut SessionState, id: InstrumentId)
    requires
        old(instruments).wf(),
    ensures
        final(instruments).wf(),
        old(session).mixer.wf() ==> final(session).mixer.wf(),
        layer_unlinked(*old(instruments), *old(session), *final(instruments), *final(session), id),
{
    let ghost oi = instruments.instruments@;
    let ghost left_seq = Seq::new(oi.len(), |k: int| if oi[k].id == id {
        Instrument { layer_group: None, ..oi[k] }
    } else {
        oi[k]
    });
    let p = instruments.index_of(id);
    let old_group = match p {
        Some(k) => {
            proof { lemma_group_of(oi, id, k as int); }
            let g = instruments.instruments[k].layer_group;
            instruments.instruments[k].layer_group = None;
            g
        },
        None => None,
    };
    proof {
        assert forall|k: int| 0 <= k < oi.len() implies instruments.instruments@[k] == left_seq[k] by {
            if oi[k].id == id {
                if p is Some { let q = p->0 as int; if q != k { assert(oi[q].id != oi[k].id); } }
            }
        }
        assert(instruments.instruments@ =~= left_seq);
    }
    if let Some(g) = old_group {
        // Count remaining members
        let ghost cur = instruments.instruments@;
        let (count, last) = count_members(&instruments.instruments, g);
        if count <= 1 {
            if count == 1 {
                instruments.instruments[last].layer_group = None;
            }
            proof {
                let ni = instruments.instruments@;
                assert forall|k: int| 0 <= k < oi.len() implies #[trigger] ni[k] == (
                    if left_seq[k].layer_group == Some(g) {
                        Instrument { layer_group: None, ..left_seq[k] }
                    } else {
                        left_seq[k]
                    }) by {}
            }
            let ghost before = session.mixer.layer_group_mixers@;
            remove_group_strips(&mut session.mixer.layer_group_mixers, g);
            proof {
                let after = session.mixer.layer_group_mixers@;
                let keep = |m: LayerGroupMixer| m.group_id != g;
                assert(after == before.filter(keep));
                assert forall|i: int| 0 <= i < after.len() implies (#[trigger] after[i]).effect_chain.wf()
                    || !old(session).mixer.wf() by {
                    if old(session).mixer.wf() {
                        assert(after.contains(after[i]));
                        before.lemma_filter_contains_rev(keep, after[i]);
                    }
                }
            }
        }
    }
    proof {
        assert(forall|k: int| 0 <= k < oi.len() ==> instruments.instruments@[k].id == oi[k].id
            && instruments.instruments@[k].effects == oi[k].effects);
    }
}

/// Positions of an id are unique in a well-formed instrument list.
proof fn lemma_unique_position(insts: Seq<Instrument>, id: InstrumentId, k: int)
    requires
        0 <= k < insts.len(),
        insts[k].id == id,
        forall|i: int, j: int| 0 <= i < j < insts.len() ==> insts[i].id != insts[j].id,
    ensures
        forall|j: int| 0 <= j < insts.len() && insts[j].id == id ==> j == k,
{
    assert forall|j: int| 0 <= j < insts.len() && insts[j].id == id implies j == k by {
        if j < k { assert(insts[j].id != insts[k].id); }
        if j > k { assert(insts[k].id != insts[j].id); }
    }
}

/// Every instrument with id `id` has room for one more effect id.
pub open spec fn instrument_can_add_effect(insts: Seq<Instrument>, id: InstrumentId) -> bool {
    forall|k: int| 0 <= k < insts.len() && insts[k].id == id ==> insts[k].effects.next_effect_id < u32::MAX
}

/// What an instrument action requires of the state.
pub open spec fn instrument_action_ok(oi: InstrumentState, action: InstrumentAction) -> bool {
    &&& oi.wf()
    &&& match action {
        InstrumentAction::Add(_) => oi.next_id < u32::MAX,
        InstrumentAction::AddEffect(id, _) => instrument_can_add_effect(oi.instruments@, id),
        InstrumentAction::LinkLayer(_, _) => oi.next_layer_group_id < u32::MAX,
        InstrumentAction::LoadSampleResult(_) => oi.next_sampler_buffer_id < u32::MAX,
        InstrumentAction::AdjustArpOctaves(id, d) => forall|k: int| 0 <= k < oi.instruments@.len() && oi.instruments@[k].id == id
            ==> i8::MIN <= (oi.instruments@[k].arp_octaves as i8) as int + d <= i8::MAX,
        _ => true,
    }
}

/// The state change of an instrument action on the instrument with id `id`.
pub open spec fn instrument_edit(action: InstrumentAction, a: Instrument, b: Instrument) -> bool {
    match action {
        InstrumentAction::AddEffect(_, t) => same_except_effects(a, b)
            && b.effects.effects@ == a.effects.effects@.push(EffectSlot { id: a.effects.next_effect_id, effect_type: t, enabled: true })
            && b.effects.next_effect_id == a.effects.next_effect_id + 1,
        InstrumentAction::RemoveEffect(_, e) => same_except_effects(a, b)
            && chain_removed(a.effects.effects@, b.effects.effects@, e) && b.effects.next_effect_id == a.effects.next_effect_id,
        InstrumentAction::MoveEffect(_, e, d) => same_except_effects(a, b)
            && chain_moved(a.effects.effects@, b.effects.effects@, e, d) && b.effects.next_effect_id == a.effects.next_effect_id,
        InstrumentAction::ToggleEffectBypass(_, e) => same_except_effects(a, b)
            && chain_toggled(a.effects.effects@, b.effects.effects@, e) && b.effects.next_effect_id == a.effects.next_effect_id,
        InstrumentAction::SetFilter(_, f) => b == Instrument { filter: f, ..a },
        InstrumentAction::ToggleFilter(_) => b == Instrument {
            filter: if a.filter is Some { None } else { Some(FilterType::Lpf) },
            ..a
        },
        InstrumentAction::CycleFilterType(_) => b == Instrument {
            filter: match a.filter { Some(f) => Some(next_filter(f)), None => None },
            ..a
        },
        InstrumentAction::ToggleArp(_) => b == Instrument { arp_enabled: !a.arp_enabled, ..a },
        InstrumentAction::AdjustArpOctaves(_, d) => b == Instrument { arp_octaves: adjusted_octaves(a.arp_octaves, d), ..a },
        InstrumentAction::ToggleEq(_) => b == Instrument { eq_enabled: !a.eq_enabled, ..a },
        InstrumentAction::ToggleLfo(_) => b == Instrument { lfo_enabled: !a.lfo_enabled, ..a },
        InstrumentAction::SetTrackTimeSignature(_, ts) => b == Instrument { time_signature: ts, ..a },
        InstrumentAction::CycleTrackTimeSignature(_) => b == Instrument { time_signature: next_time_signature(a.time_signature), ..a },
        InstrumentAction::AdjustLayerOctaveOffset(_, d) => b == Instrument {
            layer_octave_offset: clamp_int(a.layer_octave_offset + d, -4, 4) as i8,
            ..a
        },
        _ => b == a,
    }
}

/// The instrument an action edits, for the actions that edit one instrument.
pub open spec fn edited_instrument(action: InstrumentAction) -> Option<InstrumentId> {
    match action {
        InstrumentAction::AddEffect(id, _) | InstrumentAction::RemoveEffect(id, _)
        | InstrumentAction::MoveEffect(id, _, _) | InstrumentAction::ToggleEffectBypass(id, _)
        | InstrumentAction::SetFilter(id, _) | InstrumentAction::ToggleFilter(id)
        | InstrumentAction::CycleFilterType(id) | InstrumentAction::ToggleArp(id)
        | InstrumentAction::AdjustArpOctaves(id, _) | InstrumentAction::ToggleEq(id)
        | InstrumentAction::ToggleLfo(id) | InstrumentAction::SetTrackTimeSignature(id, _)
        | InstrumentAction::CycleTrackTimeSignature(id) | InstrumentAction::AdjustLayerOctaveOffset(id, _) => Some(id),
        _ => None,
    }
}

/// The state change an instrument action makes.
pub open spec fn instrument_action_applied(oi: InstrumentState, os: SessionState, ni: InstrumentState, ns: SessionState, action: InstrumentAction) -> bool {
    let n = oi.instruments@.len() as int;
    match action {
        InstrumentAction::LinkLayer(a, b) => layers_linked(oi, os, ni, ns, a, b),
        InstrumentAction::UnlinkLayer(id) => layer_unlinked(oi, os, ni, ns, id),
        InstrumentAction::Add(src) => {
            &&& ns.mixer == os.mixer
            &&& ns.automation_lanes == os.automation_lanes
            &&& ns.next_lane_id == os.next_lane_id
            &&& ns.midi_recording == os.midi_recording
            &&& ns.arrangement == os.arrangement
            &&& track_appended(os.piano_roll, ns.piano_roll, oi.next_id)
            &&& ni.next_id == oi.next_id + 1
            &&& ni.instruments@.len() == n + 1
            &&& ni.instruments@.drop_last() == oi.instruments@
            &&& is_fresh_instrument(ni.instruments@.last(), oi.next_id, src)
            &&& ni.selected == oi.selected
            &&& ni.next_layer_group_id == oi.next_layer_group_id
            &&& ni.editing_instrument_id == oi.editing_instrument_id
            &&& ni.next_sampler_buffer_id == oi.next_sampler_buffer_id
        },
        InstrumentAction::Delete(id) => {
            &&& ni.next_id == oi.next_id
            &&& ni.next_layer_group_id == oi.next_layer_group_id
            &&& ni.editing_instrument_id == oi.editing_instrument_id
            &&& ni.next_sampler_buffer_id == oi.next_sampler_buffer_id
            &&& ns.mixer == os.mixer
            &&& ns.midi_recording == os.midi_recording
            &&& crate::arrangement::without_instrument(os.arrangement, ns.arrangement, id)
            &&& track_removed(os.piano_roll, ns.piano_roll, id)
            &&& ns.next_lane_id == os.next_lane_id
            &&& ns.automation_lanes@ == os.automation_lanes@.filter(|l: AutomationLane| !target_of_instrument(l.target, id))
            &&& (forall|k: int| 0 <= k < n ==> oi.instruments@[k].id != id) ==> ni.instruments == oi.instruments && ni.selected == oi.selected
            &&& forall|k: int| 0 <= k < n && oi.instruments@[k].id == id ==> ni.instruments@ == oi.instruments@.remove(k)
                && ni.selected == selection_after_delete(oi.selected, n - 1)
        },
        InstrumentAction::Edit(id) => ns == os && ni == InstrumentState { editing_instrument_id: Some(id), ..oi },
        InstrumentAction::Select(idx) => ns == os
            && ni == (if idx < n { InstrumentState { selected: Some(idx), ..oi } } else { oi }),
        InstrumentAction::SelectFirst => ns == os
            && ni == (if n > 0 { InstrumentState { selected: Some(0), ..oi } } else { oi }),
        InstrumentAction::SelectLast => ns == os
            && ni == (if n > 0 { InstrumentState { selected: Some((n - 1) as usize), ..oi } } else { oi }),
        InstrumentAction::LoadSampleResult(id) => {
            let buffer = oi.next_sampler_buffer_id;
            &&& ns == os
            &&& ni.selected == oi.selected
            &&& ni.next_id == oi.next_id
            &&& ni.next_layer_group_id == oi.next_layer_group_id
            &&& ni.editing_instrument_id == oi.editing_instrument_id
            &&& ni.next_sampler_buffer_id == buffer + 1
            &&& instrument_with_id_changed(oi.instruments@, ni.instruments@, id, |a: Instrument, b: Instrument|
                b == (if has_sampler_config(a.source) { Instrument { sampler_buffer: Some(buffer), ..a } } else { a }))
        },
        _ => {
            let id = edited_instrument(action)->0;
            &&& ns == os
            &&& ni.selected == oi.selected
            &&& ni.next_id == oi.next_id
            &&& ni.next_layer_group_id == oi.next_layer_group_id
            &&& ni.editing_instrument_id == oi.editing_instrument_id
            &&& ni.next_sampler_buffer_id == oi.next_sampler_buffer_id
            &&& instrument_with_id_changed(oi.instruments@, ni.instruments@, id, |a: Instrument, b: Instrument| instrument_edit(action, a, b))
        },
    }
}

/// Remove the automation lanes of an instrument.
fn remove_instrument_lanes(lanes: &mut Vec<AutomationLane>, id: InstrumentId)
    ensures
        final(lanes)@ == old(lanes)@.filter(|l: AutomationLane| !target_of_instrument(l.target, id)),
{
    let ghost o = lanes@;
    let mut kept: Vec<AutomationLane> = Vec::new();
    let mut i: usize = 0;
    while i < lanes.len()
        invariant
            i <= o.len(),
            lanes@ == o,
            kept@ == o.subrange(0, i as int).filter(|l: AutomationLane| !target_of_instrument(l.target, id)),
        decreases o.len() - i,
    {
        let l = lanes[i];
        proof {
            reveal_with_fuel(Seq::<_>::filter, 1);
            assert(o.subrange(0, i + 1).drop_last() =~= o.subrange(0, i as int));
        }
        if !is_target_of_instrument(l.target, id) {
            kept.push(l);
        }
        i = i + 1;
    }
    assert(o.subrange(0, i as int) =~= o);
    *lanes = kept;
}

/// Apply an instrument action's state change to the instruments and the session.
#[verifier::spinoff_prover]
#[verifier::rlimit(40)]
pub fn project_instrument(action: &InstrumentAction, instruments: &mut InstrumentState, session: &mut SessionState)
    requires
        instrument_action_ok(*old(instruments), *action),
    ensures
        final(instruments).wf(),
        old(session).piano_roll.wf() ==> final(session).piano_roll.wf(),
        old(session).mixer.wf() ==> final(session).mixer.wf(),
        old(session).arrangement.wf() ==> final(session).arrangement.wf(),
        instrument_action_applied(*old(instruments), *old(session), *final(instruments), *final(session), *action),
{
    let ghost oi = instruments.instruments@;
    match action {
        InstrumentAction::Add(src) => {
            let id = instruments.add_instrument(*src);
            session.piano_roll.add_track(id);
        },
        InstrumentAction::Delete(id) => {
            if let Some(k) = instruments.index_of(*id) {
                proof { lemma_unique_position(oi, *id, k as int); }
                instruments.instruments.remove(k);
                let n = instruments.instruments.len();
                if let Some(sel) = instruments.selected {
                    if sel >= n {
                        instruments.selected = if n > 0 { Some(n - 1) } else { None };
                    }
                }
                proof {
                    let ni = instruments.instruments@;
                    assert(forall|x: int| 0 <= x < ni.len() ==> ni[x] == oi[if x < k { x } else { x + 1 }]);
                    assert forall|a: int, b: int| 0 <= a < b < ni.len() implies ni[a].id != ni[b].id by {
                        assert(ni[a] == oi[if a < k { a } else { a + 1 }]);
                        assert(ni[b] == oi[if b < k { b } else { b + 1 }]);
                    }
                }
            }
            remove_instrument_lanes(&mut session.automation_lanes, *id);
            session.piano_roll.remove_track(*id);
            session.arrangement.remove_instrument_data(*id);
        },
        InstrumentAction::Edit(id) => {
            instruments.editing_instrument_id = Some(*id);
        },
        InstrumentAction::Select(idx) => {
            if *idx < instruments.instruments.len() {
                instruments.selected = Some(*idx);
            }
        },
        InstrumentAction::SelectFirst => {
            if instruments.instruments.len() > 0 {
                instruments.selected = Some(0);
            }
        },
        InstrumentAction::SelectLast => {
            if instruments.instruments.len() > 0 {
                instruments.selected = Some(instruments.instruments.len() - 1);
            }
        },
        InstrumentAction::LinkLayer(a, b) => {
            link_layer(instruments, session, *a, *b);
        },
        InstrumentAction::LoadSampleResult(id) => {
            let buffer = instruments.next_sampler_buffer_id;
            instruments.next_sampler_buffer_id = buffer + 1;
            if let Some(k) = instruments.index_of(*id) {
                proof { lemma_unique_position(oi, *id, k as int); }
                let sampler = match instruments.instruments[k].source {
                    SourceType::Sampler | SourceType::PitchedSampler => true,
                    _ => false,
                };
                if sampler {
                    instruments.instruments[k].sampler_buffer = Some(buffer);
                }
                proof {
                    let ni = instruments.instruments@;
                    assert(forall|j: int| 0 <= j < oi.len() ==> ni[j].id == oi[j].id);
                }
            }
        },
        InstrumentAction::UnlinkLayer(id) => {
            unlink_layer(instruments, session, *id);
        },
        InstrumentAction::AddEffect(id, _) | InstrumentAction::RemoveEffect(id, _)
        | InstrumentAction::MoveEffect(id, _, _) | InstrumentAction::ToggleEffectBypass(id, _)
        | InstrumentAction::SetFilter(id, _) | InstrumentAction::ToggleFilter(id)
        | InstrumentAction::CycleFilterType(id) | InstrumentAction::ToggleArp(id)
        | InstrumentAction::AdjustArpOctaves(id, _) | InstrumentAction::ToggleEq(id)
        | InstrumentAction::ToggleLfo(id) | InstrumentAction::SetTrackTimeSignature(id, _)
        | InstrumentAction::CycleTrackTimeSignature(id) | InstrumentAction::AdjustLayerOctaveOffset(id, _) => {
            if let Some(k) = instruments.index_of(*id) {
                proof { lemma_unique_position(oi, *id, k as int); }
                match action {
                    InstrumentAction::AddEffect(_, t) => {
                        instruments.instruments[k].effects.add_effect(*t);
                    },
                    InstrumentAction::RemoveEffect(_, e) => {
                        instruments.instruments[k].effects.remove_effect(*e);
                    },
                    InstrumentAction::MoveEffect(_, e, d) => {
                        instruments.instruments[k].effects.move_effect(*e, *d);
                    },
                    InstrumentAction::ToggleEffectBypass(_, e) => {
                        instruments.instruments[k].effects.toggle_bypass(*e);
                    },
                    InstrumentAction::SetFilter(_, f) => {
                        instruments.instruments[k].filter = *f;
                    },
                    InstrumentAction::ToggleFilter(_) => {
                        let f = if instruments.instruments[k].filter.is_some() { None } else { Some(FilterType::Lpf) };
                        instruments.instruments[k].filter = f;
                    },
                    InstrumentAction::CycleFilterType(_) => {
                        let f = match instruments.instruments[k].filter {
                            Some(f) => Some(match f {
                                FilterType::Lpf => FilterType::Hpf,
                                FilterType::Hpf => FilterType::Bpf,
                                FilterType::Bpf => FilterType::Notch,
                                FilterType::Notch => FilterType::Comb,
                                FilterType::Comb => FilterType::Allpass,
                                FilterType::Allpass => FilterType::Vowel,
                                FilterType::Vowel => FilterType::ResDrive,
                                FilterType::ResDrive => FilterType::Lpf,
                            }),
                            None => None,
                        };
                        instruments.instruments[k].filter = f;
                    },
                    InstrumentAction::ToggleArp(_) => {
                        instruments.instruments[k].arp_enabled = !instruments.instruments[k].arp_enabled;
                    },
                    InstrumentAction::AdjustArpOctaves(_, d) => {
                        let raw: i16 = instruments.instruments[k].arp_octaves as i8 as i16 + *d as i16;
                        let v: u8 = if raw < 1 { 1 } else if raw > 4 { 4 } else { raw as u8 };
                        instruments.instruments[k].arp_octaves = v;
                    },
                    InstrumentAction::ToggleEq(_) => {
                        instruments.instruments[k].eq_enabled = !instruments.instruments[k].eq_enabled;
                    },
                    InstrumentAction::ToggleLfo(_) => {
                        instruments.instruments[k].lfo_enabled = !instruments.instruments[k].lfo_enabled;
                    },
                    InstrumentAction::SetTrackTimeSignature(_, ts) => {
                        instruments.instruments[k].time_signature = *ts;
                    },
                    InstrumentAction::CycleTrackTimeSignature(_) => {
                        let ts = match instruments.instruments[k].time_signature {
                            None => Some((4u8, 4u8)),
                            Some((4, 4)) => Some((3u8, 4u8)),
                            Some((3, 4)) => Some((5u8, 4u8)),
                            Some((5, 4)) => Some((6u8, 8u8)),
                            Some((6, 8)) => Some((7u8, 8u8)),
                            Some((7, 8)) => Some((12u8, 8u8)),
                            Some((12, 8)) => None,
                            Some(_) => Some((4u8, 4u8)),
                        };
                        instruments.instruments[k].time_signature = ts;
                    },
                    InstrumentAction::AdjustLayerOctaveOffset(_, d) => {
                        let raw: i16 = instruments.instruments[k].layer_octave_offset as i16 + *d as i16;
                        let v: i8 = if raw < -4 { -4 } else if raw > 4 { 4 } else { raw as i8 };
                        instruments.instruments[k].layer_octave_offset = v;
                    },
                    _ => {},
                }
                proof {
                    let ni = instruments.instruments@;
                    assert(forall|j: int| 0 <= j < oi.len() ==> ni[j].id == oi[j].id);
                }
            }
        },
    }
}

/// The audio work and navigation an instrument action asks for, given the
/// state before it and the number of instruments after it.
pub open spec fn instrument_action_effects(oi: InstrumentState, n_after: int, action: InstrumentAction) -> (Seq<AudioEffect>, Seq<NavIntent>) {
    match action {
        InstrumentAction::Add(_) => (
            seq![AudioEffect::RebuildInstruments, AudioEffect::UpdatePianoRoll, AudioEffect::AddInstrumentRouting(oi.next_id)],
            seq![NavIntent::SwitchTo(PaneId::InstrumentEdit)],
        ),
        InstrumentAction::Delete(id) => (
            seq![AudioEffect::RebuildInstruments, AudioEffect::UpdatePianoRoll, AudioEffect::UpdateAutomation, AudioEffect::DeleteInstrumentRouting(id)],
            if n_after == 0 { seq![NavIntent::SwitchTo(PaneId::Add)] } else { Seq::empty() },
        ),
        InstrumentAction::Edit(_) => (Seq::empty(), seq![NavIntent::SwitchTo(PaneId::InstrumentEdit)]),
        InstrumentAction::AddEffect(id, _) => (
            seq![AudioEffect::RebuildInstruments, AudioEffect::RebuildRoutingForInstrument(id)],
            seq![NavIntent::Pop],
        ),
        InstrumentAction::RemoveEffect(id, _) | InstrumentAction::MoveEffect(id, _, _)
        | InstrumentAction::SetFilter(id, _) | InstrumentAction::ToggleFilter(id)
        | InstrumentAction::ToggleEq(id) | InstrumentAction::ToggleLfo(id) => (
            seq![AudioEffect::RebuildInstruments, AudioEffect::RebuildRoutingForInstrument(id)],
            Seq::empty(),
        ),
        InstrumentAction::ToggleEffectBypass(_, _) | InstrumentAction::CycleFilterType(_)
        | InstrumentAction::ToggleArp(_) | InstrumentAction::AdjustArpOctaves(_, _) => (
            seq![AudioEffect::RebuildInstruments],
            Seq::empty(),
        ),
        InstrumentAction::LoadSampleResult(_) => (seq![AudioEffect::RebuildInstruments], seq![NavIntent::Pop]),
        InstrumentAction::LinkLayer(a, b) => (
            if a == b { Seq::empty() } else {
                seq![AudioEffect::RebuildRouting, AudioEffect::RebuildSession, AudioEffect::RebuildInstruments]
            },
            Seq::empty(),
        ),
        InstrumentAction::UnlinkLayer(id) => (
            if group_of(oi.instruments@, id) is Some {
                seq![AudioEffect::RebuildRouting, AudioEffect::RebuildSession, AudioEffect::RebuildInstruments]
            } else {
                Seq::empty()
            },
            Seq::empty(),
        ),
        _ => (Seq::empty(), Seq::empty()),
    }
}

/// Dispatch an instrument action: apply its state change and report the
/// audio work and navigation.
pub fn dispatch_instrument(action: &InstrumentAction, state: &mut AppState) -> (r: DispatchResult)
    requires
        instrument_action_ok(old(state).instruments, *action),
    ensures
        final(state).instruments.wf(),
        old(state).session.piano_roll.wf() ==> final(state).session.piano_roll.wf(),
        old(state).session.mixer.wf() ==> final(state).session.mixer.wf(),
        old(state).session.arrangement.wf() ==> final(state).session.arrangement.wf(),
        final(state).midi == old(state).midi,
        final(state).clipboard == old(state).clipboard,
        final(state).audio == old(state).audio,
        final(state).io == old(state).io,
        instrument_action_applied(old(state).instruments, old(state).session, final(state).instruments, final(state).session, *action),
        r.audio_effects@ == instrument_action_effects(old(state).instruments, final(state).instruments.instruments@.len() as int, *action).0,
        r.nav@ == instrument_action_effects(old(state).instruments, final(state).instruments.instruments@.len() as int, *action).1,
        !r.needs_full_sync,
{
    let next_id = state.instruments.next_id;
    let had_group = match action {
        InstrumentAction::UnlinkLayer(id) => match state.instruments.index_of(*id) {
            Some(k) => {
                proof { lemma_group_of(state.instruments.instruments@, *id, k as int); }
                state.instruments.instruments[k].layer_group.is_some()
            },
            None => false,
        },
        _ => false,
    };
    project_instrument(action, &mut state.instruments, &mut state.session);
    let mut result = DispatchResult::none();
    match action {
        InstrumentAction::Add(_) => {
            result.nav.push(NavIntent::SwitchTo(PaneId::InstrumentEdit));
            result.audio_effects.push(AudioEffect::RebuildInstruments);
            result.audio_effects.push(AudioEffect::UpdatePianoRoll);
            result.audio_effects.push(AudioEffect::AddInstrumentRouting(next_id));
        },
        InstrumentAction::Delete(id) => {
            if state.instruments.instruments.len() == 0 {
                result.nav.push(NavIntent::SwitchTo(PaneId::Add));
            }
            result.audio_effects.push(AudioEffect::RebuildInstruments);
            result.audio_effects.push(AudioEffect::UpdatePianoRoll);
            result.audio_effects.push(AudioEffect::UpdateAutomation);
            result.audio_effects.push(AudioEffect::DeleteInstrumentRouting(*id));
        },
        InstrumentAction::Edit(_) => {
            result.nav.push(NavIntent::SwitchTo(PaneId::InstrumentEdit));
        },
        InstrumentAction::AddEffect(id, _) => {
            result.nav.push(NavIntent::Pop);
            result.audio_effects.push(AudioEffect::RebuildInstruments);
            result.audio_effects.push(AudioEffect::RebuildRoutingForInstrument(*id));
        },
        InstrumentAction::RemoveEffect(id, _) | InstrumentAction::MoveEffect(id, _, _)
        | InstrumentAction::SetFilter(id, _) | InstrumentAction::ToggleFilter(id)
        | InstrumentAction::ToggleEq(id) | InstrumentAction::ToggleLfo(id) => {
            result.audio_effects.push(AudioEffect::RebuildInstruments);
            result.audio_effects.push(AudioEffect::RebuildRoutingForInstrument(*id));
        },
        InstrumentAction::ToggleEffectBypass(_, _) | InstrumentAction::CycleFilterType(_)
        | InstrumentAction::ToggleArp(_) | InstrumentAction::AdjustArpOctaves(_, _) => {
            result.audio_effects.push(AudioEffect::RebuildInstruments);
        },
        InstrumentAction::LoadSampleResult(_) => {
            result.nav.push(NavIntent::Pop);
            result.audio_effects.push(AudioEffect::RebuildInstruments);
        },
        InstrumentAction::LinkLayer(a, b) => {
            if a != b {
                result.audio_effects.push(AudioEffect::RebuildRouting);
                result.audio_effects.push(AudioEffect::RebuildSession);
                result.audio_effects.push(AudioEffect::RebuildInstruments);
            }
        },
        InstrumentAction::UnlinkLayer(_) => {
            if had_group {
                result.audio_effects.push(AudioEffect::RebuildRouting);
                result.audio_effects.push(AudioEffect::RebuildSession);
                result.audio_effects.push(AudioEffect::RebuildInstruments);
            }
        },
        _ => {},
    }
    let ghost e = instrument_action_effects(old(state).instruments, state.instruments.instruments@.len() as int, *action);
    assert(result.audio_effects@ =~= e.0);
    assert(result.nav@ =~= e.1);
    result
}

/// The sample buffers held by kit pads, in pad order.
pub open spec fn pad_buffers(pads: Seq<crate::sequencer::DrumPad>) -> Seq<u32>
    decreases pads.len(),
{
    if pads.len() == 0 {
        Seq::empty()
    } else {
        let rest = pad_buffers(pads.drop_last());
        match pads.last().buffer_id {
            Some(b) => rest.push(b),
            None => rest,
        }
    }
}

/// The sample buffers the instrument with id `id` holds: its kit pads'
/// buffers, then its chopper's buffer, then its sampler's buffer (none when it
/// is absent).
pub open spec fn buffers_of(insts: Seq<Instrument>, id: InstrumentId) -> Seq<u32> {
    if exists|k: int| 0 <= k < insts.len() && insts[k].id == id {
        let inst = insts[choose|k: int| 0 <= k < insts.len() && insts[k].id == id];
        (match inst.drum_sequencer {
            Some(s) => pad_buffers(s.pads@) + (match s.chopper {
                Some(c) => match c.buffer_id {
                    Some(b) => seq![b],
                    None => Seq::empty(),
                },
                None => Seq::empty(),
            }),
            None => Seq::empty(),
        }) + (match inst.sampler_buffer {
            Some(b) => seq![b],
            None => Seq::empty(),
        })
    } else {
        Seq::empty()
    }
}

/// The sample buffers to free when the instrument with id `id` is deleted.
pub fn instrument_buffer_ids(instruments: &InstrumentState, id: InstrumentId) -> (r: Vec<u32>)
    requires
        instruments.wf(),
    ensures
        r@ == buffers_of(instruments.instruments@, id),
{
    let mut out: Vec<u32> = Vec::new();
    match instruments.index_of(id) {
        Some(k) => {
            let ghost s = instruments.instruments@;
            proof {
                let c = choose|c: int| 0 <= c < s.len() && s[c].id == id;
                assert(0 <= c < s.len() && s[c].id == id);
                if c != k as int { assert(s[c].id != s[k as int].id); }
            }
            match &instruments.instruments[k].drum_sequencer {
                Some(seq) => {
                    let pads = &seq.pads;
                    let mut i: usize = 0;
                    while i < pads.len()
                        invariant
                            i <= pads@.len(),
                            out@ == pad_buffers(pads@.subrange(0, i as int)),
                        decreases pads@.len() - i,
                    {
                        proof {
                            assert(pads@.subrange(0, i + 1).drop_last() =~= pads@.subrange(0, i as int));
                        }
                        if let Some(b) = pads[i].buffer_id {
                            out.push(b);
                        }
                        i = i + 1;
                    }
                    assert(pads@.subrange(0, i as int) =~= pads@);
                    if let Some(c) = &seq.chopper {
                        if let Some(b) = c.buffer_id {
                            out.push(b);
                        }
                    }
                },
                None => {},
            }
            if let Some(b) = instruments.instruments[k].sampler_buffer {
                out.push(b);
            }
        },
        None => {},
    }
    out
}

} // verus!
