//! Aux bus management: adding, removing and renaming buses and editing their
//! effect chains, and the effect chains and EQ switch of layer group strips,
//! with the audio work each change calls for.
use vstd::prelude::*;

use crate::action::{AudioEffect, DispatchResult, NavIntent};
use crate::state::{
    EffectChain, chain_moved, chain_removed, chain_toggled, EffectSlot,
    AppState, AutomationLane, BusId, EffectId, EffectType, Instrument, LayerGroupMixer, MixerBus,
    MixerSend, OutputTarget, bus_default_name,
};

verus! {

/// Bus management actions whose state changes are discrete.
#[derive(Clone, Debug)]
pub enum BusAction {
    Add,
    Remove(BusId),
    Rename(BusId, String),
    AddEffect(BusId, EffectType),
    RemoveEffect(BusId, EffectId),
    MoveEffect(BusId, EffectId, i8),
    ToggleEffectBypass(BusId, EffectId),
    /// Nudge a parameter (by its index) of an effect on a bus. The amount and
    /// the parameter values are not part of this model, so the modelled state
    /// does not change; the session is rebuilt.
    AdjustEffectParam(BusId, EffectId, usize),
}

/// Whether the mixer has a bus with the given id.
pub open spec fn has_bus(buses: Seq<MixerBus>, id: BusId) -> bool {
    exists|i: int| 0 <= i < buses.len() && buses[i].id == id
}

/// Largest bus id, or 0 without buses.
pub open spec fn max_bus_id(buses: Seq<MixerBus>) -> int
    decreases buses.len(),
{
    if buses.len() == 0 {
        0
    } else {
        let rest = max_bus_id(buses.drop_last());
        if buses.last().id > rest { buses.last().id as int } else { rest }
    }
}

pub proof fn lemma_max_bus_id(buses: Seq<MixerBus>)
    ensures
        forall|i: int| 0 <= i < buses.len() ==> buses[i].id <= max_bus_id(buses),
        0 <= max_bus_id(buses) <= u8::MAX,
    decreases buses.len(),
{
    if buses.len() > 0 {
        lemma_max_bus_id(buses.drop_last());
        assert forall|i: int| 0 <= i < buses.len() implies buses[i].id <= max_bus_id(buses) by {
            if i < buses.len() - 1 {
                assert(buses[i] == buses.drop_last()[i]);
            }
        }
    }
}

/// An output target with the given bus replaced by master.
pub open spec fn output_without_bus(t: OutputTarget, bus: BusId) -> OutputTarget {
    if t == OutputTarget::Bus(bus) { OutputTarget::Master } else { t }
}

/// Sends with the ones to the given bus disabled.
pub open spec fn sends_without_bus(s: Seq<MixerSend>, bus: BusId) -> Seq<MixerSend> {
    s.map_values(|m: MixerSend| if m.bus_id == bus { MixerSend { enabled: false, ..m } } else { m })
}

/// Two instruments agree on everything but output target and sends.
pub open spec fn same_except_routing(a: Instrument, b: Instrument) -> bool {
    &&& a.id == b.id
    &&& a.source == b.source
    &&& a.active == b.active
    &&& a.mute == b.mute
    &&& a.solo == b.solo
    &&& a.layer_group == b.layer_group
    &&& a.effects == b.effects
    &&& a.filter == b.filter
    &&& a.eq_enabled == b.eq_enabled
    &&& a.lfo_enabled == b.lfo_enabled
    &&& a.arp_enabled == b.arp_enabled
    &&& a.arp_octaves == b.arp_octaves
    &&& a.time_signature == b.time_signature
    &&& a.drum_sequencer == b.drum_sequencer
    &&& a.layer_octave_offset == b.layer_octave_offset
    &&& a.sampler_buffer == b.sampler_buffer
}

/// Two layer group strips agree on everything but output target and sends.
pub open spec fn same_group_except_routing(a: LayerGroupMixer, b: LayerGroupMixer) -> bool {
    &&& a.group_id == b.group_id
    &&& a.mute == b.mute
    &&& a.solo == b.solo
    &&& a.effect_chain == b.effect_chain
    &&& a.eq_enabled == b.eq_enabled
}

/// Disable every send to `bus` in place.
fn disable_sends_to(sends: &mut Vec<MixerSend>, bus: BusId)
    ensures
        final(sends)@ == sends_without_bus(old(sends)@, bus),
{
    let mut k: usize = 0;
    while k < sends.len()
        invariant
            k <= sends@.len(),
            sends@.len() == old(sends)@.len(),
            forall|j: int| 0 <= j < k ==> sends@[j] == sends_without_bus(old(sends)@, bus)[j],
            forall|j: int| k <= j < sends@.len() ==> sends@[j] == old(sends)@[j],
        decreases sends@.len() - k,
    {
        if sends[k].bus_id == bus {
            let m = sends[k];
            sends.set(k, MixerSend { enabled: false, ..m });
        }
        k = k + 1;
    }
    assert(sends@ =~= sends_without_bus(old(sends)@, bus));
}


/// State change of `add_bus`.
pub open spec fn bus_added(old: AppState, new: AppState) -> bool {
    &&& (new.instruments == old.instruments)
    &&& (new.session.automation_lanes == old.session.automation_lanes)
    &&& (new.session.next_lane_id == old.session.next_lane_id)
    &&& (new.session.mixer.layer_group_mixers == old.session.mixer.layer_group_mixers)
    &&& (new.session.mixer.selection == old.session.mixer.selection)
    &&& (new.session.mixer.master_mute == old.session.mixer.master_mute)
    &&& (new.session.midi_recording == old.session.midi_recording)
    &&& (new.session.piano_roll == old.session.piano_roll)
    &&& (new.session.arrangement == old.session.arrangement)
    &&& (new.midi == old.midi)
    &&& (new.clipboard == old.clipboard)
    &&& (new.audio == old.audio)
    &&& (new.io == old.io)
    &&& (max_bus_id(old.session.mixer.buses@) < u8::MAX ==> {
                &&& new.session.mixer.buses@.len() == old.session.mixer.buses@.len() + 1
                &&& new.session.mixer.buses@.drop_last() == old.session.mixer.buses@
                &&& new.session.mixer.buses@.last().id == max_bus_id(old.session.mixer.buses@) + 1
                &&& new.session.mixer.buses@.last().name@ == bus_default_name((max_bus_id(old.session.mixer.buses@) + 1) as u8)
                &&& new.session.mixer.buses@.last().effect_chain.effects@.len() == 0
            })
    &&& (max_bus_id(old.session.mixer.buses@) == u8::MAX ==> new.session == old.session)
}

/// State change of `remove_bus`.
pub open spec fn bus_removed(old: AppState, new: AppState, id: BusId) -> bool {
    &&& (new.midi == old.midi)
    &&& (new.clipboard == old.clipboard)
    &&& (new.audio == old.audio)
    &&& (new.io == old.io)
    &&& (!has_bus(old.session.mixer.buses@, id) ==> new.session == old.session
                && new.instruments == old.instruments)
    &&& (has_bus(old.session.mixer.buses@, id) ==> {
                let ob = old.session.mixer.buses@;
                &&& forall|i: int| 0 <= i < ob.len() && ob[i].id == id
                    ==> new.session.mixer.buses@ == ob.remove(i)
                &&& new.session.mixer.selection == old.session.mixer.selection
                &&& new.session.mixer.master_mute == old.session.mixer.master_mute
                &&& new.session.next_lane_id == old.session.next_lane_id
                &&& new.session.automation_lanes@ == old.session.automation_lanes@.filter(
                    |l: AutomationLane| !l.target.refers_to_bus(id))
                &&& new.session.midi_recording == old.session.midi_recording
                &&& new.session.piano_roll == old.session.piano_roll
                &&& new.session.arrangement == old.session.arrangement
                &&& new.instruments.selected == old.instruments.selected
                &&& new.instruments.next_id == old.instruments.next_id
                &&& new.instruments.instruments@.len() == old.instruments.instruments@.len()
                &&& forall|k: int| 0 <= k < new.instruments.instruments@.len() ==> {
                    let a = #[trigger] new.instruments.instruments@[k];
                    let b = old.instruments.instruments@[k];
                    &&& same_except_routing(a, b)
                    &&& a.output_target == output_without_bus(b.output_target, id)
                    &&& a.sends@ == sends_without_bus(b.sends@, id)
                }
                &&& new.session.mixer.layer_group_mixers@.len() == old.session.mixer.layer_group_mixers@.len()
                &&& forall|k: int| 0 <= k < new.session.mixer.layer_group_mixers@.len() ==> {
                    let a = #[trigger] new.session.mixer.layer_group_mixers@[k];
                    let b = old.session.mixer.layer_group_mixers@[k];
                    &&& same_group_except_routing(a, b)
                    &&& a.output_target == output_without_bus(b.output_target, id)
                    &&& a.sends@ == sends_without_bus(b.sends@, id)
                }
            })
}

/// State change of `rename_bus`.
pub open spec fn bus_renamed(old: AppState, new: AppState, id: BusId, name: Seq<char>) -> bool {
    &&& (new.instruments == old.instruments)
    &&& (new.midi == old.midi)
    &&& (new.clipboard == old.clipboard)
    &&& (new.audio == old.audio)
    &&& (new.io == old.io)
    &&& (new.session.automation_lanes == old.session.automation_lanes)
    &&& (new.session.next_lane_id == old.session.next_lane_id)
    &&& (new.session.midi_recording == old.session.midi_recording)
    &&& (new.session.piano_roll == old.session.piano_roll)
    &&& (new.session.arrangement == old.session.arrangement)
    &&& (new.session.mixer.layer_group_mixers == old.session.mixer.layer_group_mixers)
    &&& (new.session.mixer.selection == old.session.mixer.selection)
    &&& (new.session.mixer.master_mute == old.session.mixer.master_mute)
    &&& (new.session.mixer.buses@.len() == old.session.mixer.buses@.len())
    &&& (forall|i: int| 0 <= i < old.session.mixer.buses@.len() ==> {
                let a = #[trigger] new.session.mixer.buses@[i];
                let b = old.session.mixer.buses@[i];
                &&& a.id == b.id
                &&& a.mute == b.mute
                &&& a.solo == b.solo
                &&& a.effect_chain == b.effect_chain
                &&& a.name@ == (if b.id == id && forall|k: int| 0 <= k < i ==> old.session.mixer.buses@[k].id != id {
                    name
                } else {
                    b.name@
                })
            })
}

impl AppState {
    /// Add a bus whose id is one more than the largest id in use. Nothing
    /// happens when that id would not fit in a `BusId`.
    pub fn add_bus(&mut self)
        requires
            old(self).wf(),
        ensures
            final(self).wf(),
            bus_added(*old(self), *final(self)),
    {
        let ghost buses0 = self.session.mixer.buses@;
        proof { lemma_max_bus_id(buses0); }
        let mut max: u8 = 0;
        let mut i: usize = 0;
        while i < self.session.mixer.buses.len()
            invariant
                i <= buses0.len(),
                self.session.mixer.buses@ == buses0,
                max == max_bus_id(buses0.subrange(0, i as int)),
            decreases buses0.len() - i,
        {
            assert(buses0.subrange(0, i + 1).drop_last() =~= buses0.subrange(0, i as int));
            let id = self.session.mixer.buses[i].id;
            if id > max {
                max = id;
            }
            i = i + 1;
        }
        assert(buses0.subrange(0, i as int) =~= buses0);
        if max < u8::MAX {
            self.session.mixer.buses.push(MixerBus::new(max + 1));
            assert(self.session.mixer.buses@.drop_last() =~= buses0);
        }
    }

    /// Remove a bus: instruments and layer groups that output to it go to
    /// master, their sends to it are disabled (and kept), and automation lanes
    /// that drive it are dropped. Nothing changes when there is no such bus.
    pub fn remove_bus(&mut self, id: BusId)
        requires
            old(self).wf(),
        ensures
            final(self).wf(),
            bus_removed(*old(self), *final(self), id),
    {
        let pos = match self.session.mixer.bus_index(id) {
            Some(p) => p,
            None => return,
        };
        let ghost ob = self.session.mixer.buses@;
        self.session.mixer.buses.remove(pos);
        proof {
            assert forall|i: int| 0 <= i < ob.len() && ob[i].id == id implies i == pos by {}
            let nb = self.session.mixer.buses@;
            assert(forall|x: int| 0 <= x < nb.len() ==> nb[x] == ob[if x < pos { x } else { x + 1 }]);
        }

        // Instruments
        let ghost s1 = self.session;
        let ghost oi = self.instruments.instruments@;
        let mut k: usize = 0;
        while k < self.instruments.instruments.len()
            invariant
                k <= oi.len(),
                self.instruments.instruments@.len() == oi.len(),
                self.instruments.selected == old(self).instruments.selected,
                self.instruments.next_id == old(self).instruments.next_id,
                self.instruments.next_layer_group_id == old(self).instruments.next_layer_group_id,
                self.instruments.editing_instrument_id == old(self).instruments.editing_instrument_id,
                self.instruments.next_sampler_buffer_id == old(self).instruments.next_sampler_buffer_id,
                oi == old(self).instruments.instruments@,
                self.session == s1,
                self.midi == old(self).midi,
                self.clipboard == old(self).clipboard,
                self.audio == old(self).audio,
                self.io == old(self).io,
                forall|j: int| 0 <= j < k ==> {
                    let a = #[trigger] self.instruments.instruments@[j];
                    &&& same_except_routing(a, oi[j])
                    &&& a.output_target == output_without_bus(oi[j].output_target, id)
                    &&& a.sends@ == sends_without_bus(oi[j].sends@, id)
                },
                forall|j: int| k <= j < oi.len() ==> self.instruments.instruments@[j] == oi[j],
            decreases oi.len() - k,
        {
            if self.instruments.instruments[k].output_target == OutputTarget::Bus(id) {
                self.instruments.instruments[k].output_target = OutputTarget::Master;
            }
            disable_sends_to(&mut self.instruments.instruments[k].sends, id);
            k = k + 1;
        }
        assert(self.instruments.wf()) by {
            assert(forall|j: int| 0 <= j < oi.len() ==> self.instruments.instruments@[j].id == oi[j].id);
            assert(forall|j: int| 0 <= j < oi.len() ==> self.instruments.instruments@[j].effects == oi[j].effects);
        }

        // Layer group strips
        let ghost i1 = self.instruments;
        let ghost og = self.session.mixer.layer_group_mixers@;
        let mut g: usize = 0;
        while g < self.session.mixer.layer_group_mixers.len()
            invariant
                g <= og.len(),
                self.session.mixer.layer_group_mixers@.len() == og.len(),
                og == old(self).session.mixer.layer_group_mixers@,
                self.instruments == i1,
                self.midi == old(self).midi,
                self.clipboard == old(self).clipboard,
                self.audio == old(self).audio,
                self.io == old(self).io,
                self.session.mixer.buses == s1.mixer.buses,
                self.session.mixer.selection == s1.mixer.selection,
                self.session.mixer.master_mute == s1.mixer.master_mute,
                self.session.automation_lanes == s1.automation_lanes,
                self.session.next_lane_id == s1.next_lane_id,
                self.session.midi_recording == s1.midi_recording,
                self.session.piano_roll == s1.piano_roll,
                self.session.arrangement == s1.arrangement,
                forall|j: int| 0 <= j < g ==> {
                    let a = #[trigger] self.session.mixer.layer_group_mixers@[j];
                    &&& same_group_except_routing(a, og[j])
                    &&& a.output_target == output_without_bus(og[j].output_target, id)
                    &&& a.sends@ == sends_without_bus(og[j].sends@, id)
                },
                forall|j: int| g <= j < og.len() ==> self.session.mixer.layer_group_mixers@[j] == og[j],
            decreases og.len() - g,
        {
            if self.session.mixer.layer_group_mixers[g].output_target == OutputTarget::Bus(id) {
                self.session.mixer.layer_group_mixers[g].output_target = OutputTarget::Master;
            }
            disable_sends_to(&mut self.session.mixer.layer_group_mixers[g].sends, id);
            g = g + 1;
        }

        // Automation lanes
        let ghost ol = self.session.automation_lanes@;
        let mut kept: Vec<AutomationLane> = Vec::new();
        let mut l: usize = 0;
        while l < self.session.automation_lanes.len()
            invariant
                l <= ol.len(),
                self.session.automation_lanes@ == ol,
                kept@ == ol.subrange(0, l as int).filter(|x: AutomationLane| !x.target.refers_to_bus(id)),
            decreases ol.len() - l,
        {
            let lane = self.session.automation_lanes[l];
            proof {
                reveal_with_fuel(Seq::<_>::filter, 1);
                assert(ol.subrange(0, l + 1).drop_last() =~= ol.subrange(0, l as int));
            }
            if !lane.target.is_for_bus(id) {
                kept.push(lane);
            }
            l = l + 1;
        }
        assert(ol.subrange(0, l as int) =~= ol);
        self.session.automation_lanes = kept;
        proof {
            let m = self.session.mixer;
            assert(forall|j: int| 0 <= j < og.len() ==> m.layer_group_mixers@[j].effect_chain == og[j].effect_chain);
            let nb = m.buses@;
            assert(forall|x: int| 0 <= x < nb.len() ==> nb[x] == ob[if x < pos { x } else { x + 1 }]);
            assert(forall|x: int| 0 <= x < nb.len() ==> (#[trigger] nb[x]).effect_chain.wf());
            assert forall|a: int, b: int| 0 <= a < b < nb.len() implies nb[a].id != nb[b].id by {
                assert(nb[a] == ob[if a < pos { a } else { a + 1 }]);
                assert(nb[b] == ob[if b < pos { b } else { b + 1 }]);
            }
        }
    }

    /// Rename a bus; nothing changes when there is no such bus.
    pub fn rename_bus(&mut self, id: BusId, name: String)
        requires
            old(self).wf(),
        ensures
            final(self).wf(),
            bus_renamed(*old(self), *final(self), id, name@),
    {
        if let Some(pos) = self.session.mixer.bus_index(id) {
            self.session.mixer.buses[pos].name = name;
        }
    }
}

/// The buses are unchanged except that the chain of bus `id` is related to its
/// old chain by `rel` (all buses unchanged when there is no such bus).
pub open spec fn bus_chain_edited(
    old: AppState,
    new: AppState,
    id: BusId,
    rel: spec_fn(EffectChain, EffectChain) -> bool,
) -> bool {
    let ob = old.session.mixer.buses@;
    let nb = new.session.mixer.buses@;
    &&& new.instruments == old.instruments
    &&& new.midi == old.midi
    &&& new.clipboard == old.clipboard
    &&& new.audio == old.audio
    &&& new.io == old.io
    &&& new.session.automation_lanes == old.session.automation_lanes
    &&& new.session.next_lane_id == old.session.next_lane_id
    &&& new.session.midi_recording == old.session.midi_recording
    &&& new.session.piano_roll == old.session.piano_roll
    &&& new.session.arrangement == old.session.arrangement
    &&& new.session.mixer.layer_group_mixers == old.session.mixer.layer_group_mixers
    &&& new.session.mixer.selection == old.session.mixer.selection
    &&& new.session.mixer.master_mute == old.session.mixer.master_mute
    &&& nb.len() == ob.len()
    &&& forall|i: int| 0 <= i < ob.len() && ob[i].id != id ==> nb[i] == ob[i]
    &&& forall|i: int| 0 <= i < ob.len() && ob[i].id == id ==> {
        &&& nb[i].id == ob[i].id
        &&& nb[i].name == ob[i].name
        &&& nb[i].mute == ob[i].mute
        &&& nb[i].solo == ob[i].solo
        &&& rel(ob[i].effect_chain, nb[i].effect_chain)
    }
}

/// Every bus with the given id has room for one more effect id.
pub open spec fn bus_can_add_effect(buses: Seq<MixerBus>, id: BusId) -> bool {
    forall|i: int| 0 <= i < buses.len() && buses[i].id == id ==> buses[i].effect_chain.next_effect_id < u32::MAX
}

/// A bus action leaves the state as the matching operation describes.
pub open spec fn bus_action_applied(old: AppState, new: AppState, action: BusAction) -> bool {
    match action {
        BusAction::Add => bus_added(old, new),
        BusAction::Remove(id) => bus_removed(old, new, id),
        BusAction::Rename(id, name) => bus_renamed(old, new, id, name@),
        BusAction::AddEffect(id, t) => bus_chain_edited(old, new, id, |a: EffectChain, b: EffectChain|
            b.effects@ == a.effects@.push(EffectSlot { id: a.next_effect_id, effect_type: t, enabled: true })
                && b.next_effect_id == a.next_effect_id + 1),
        BusAction::RemoveEffect(id, e) => bus_chain_edited(old, new, id, |a: EffectChain, b: EffectChain|
            chain_removed(a.effects@, b.effects@, e) && b.next_effect_id == a.next_effect_id),
        BusAction::MoveEffect(id, e, d) => bus_chain_edited(old, new, id, |a: EffectChain, b: EffectChain|
            chain_moved(a.effects@, b.effects@, e, d) && b.next_effect_id == a.next_effect_id),
        BusAction::ToggleEffectBypass(id, e) => bus_chain_edited(old, new, id, |a: EffectChain, b: EffectChain|
            chain_toggled(a.effects@, b.effects@, e) && b.next_effect_id == a.next_effect_id),
        BusAction::AdjustEffectParam(_, _, _) => new == old,
    }
}

/// The audio work and navigation a bus action asks for.
pub open spec fn bus_action_effects(old: AppState, action: BusAction) -> (Seq<AudioEffect>, Seq<NavIntent>) {
    match action {
        BusAction::Add => (seq![AudioEffect::RebuildRouting, AudioEffect::RebuildSession], Seq::empty()),
        BusAction::Remove(id) => if has_bus(old.session.mixer.buses@, id) {
            (seq![AudioEffect::RebuildRouting, AudioEffect::RebuildSession], Seq::empty())
        } else {
            (Seq::empty(), Seq::empty())
        },
        BusAction::Rename(_, _) => (Seq::empty(), Seq::empty()),
        BusAction::AdjustEffectParam(_, _, _) => (seq![AudioEffect::RebuildSession], Seq::empty()),
        BusAction::AddEffect(_, _) => (
            seq![AudioEffect::RebuildBusProcessing, AudioEffect::RebuildSession],
            seq![NavIntent::Pop],
        ),
        _ => (seq![AudioEffect::RebuildBusProcessing, AudioEffect::RebuildSession], Seq::empty()),
    }
}

/// Dispatch bus management actions.
pub fn dispatch_bus(action: &BusAction, state: &mut AppState) -> (r: DispatchResult)
    requires
        old(state).wf(),
        action matches BusAction::AddEffect(id, _) ==> bus_can_add_effect(old(state).session.mixer.buses@, *id),
    ensures
        final(state).wf(),
        bus_action_applied(*old(state), *final(state), *action),
        r.audio_effects@ == bus_action_effects(*old(state), *action).0,
        r.nav@ == bus_action_effects(*old(state), *action).1,
        !r.needs_full_sync,
{
    let mut result = DispatchResult::none();
    match action {
        BusAction::Add => {
            state.add_bus();
            result.audio_effects.push(AudioEffect::RebuildRouting);
            result.audio_effects.push(AudioEffect::RebuildSession);
        },
        BusAction::Remove(id) => {
            // Check bus existence first (to skip audio effects on no-op)
            let exists = state.session.mixer.bus_index(*id).is_some();
            state.remove_bus(*id);
            if exists {
                result.audio_effects.push(AudioEffect::RebuildRouting);
                result.audio_effects.push(AudioEffect::RebuildSession);
            }
        },
        BusAction::Rename(id, name) => {
            state.rename_bus(*id, name.clone());
        },
        BusAction::AdjustEffectParam(_, _, _) => {
            result.audio_effects.push(AudioEffect::RebuildSession);
        },
        BusAction::AddEffect(id, t) => {
            if let Some(pos) = state.session.mixer.bus_index(*id) {
                state.session.mixer.buses[pos].effect_chain.add_effect(*t);
                proof { assert_bus_edit(*old(state), *state, *id, pos as int); }
            }
            result.audio_effects.push(AudioEffect::RebuildBusProcessing);
            result.audio_effects.push(AudioEffect::RebuildSession);
            result.nav.push(NavIntent::Pop);
        },
        BusAction::RemoveEffect(id, e) => {
            if let Some(pos) = state.session.mixer.bus_index(*id) {
                state.session.mixer.buses[pos].effect_chain.remove_effect(*e);
                proof { assert_bus_edit(*old(state), *state, *id, pos as int); }
            }
            result.audio_effects.push(AudioEffect::RebuildBusProcessing);
            result.audio_effects.push(AudioEffect::RebuildSession);
        },
        BusAction::MoveEffect(id, e, d) => {
            if let Some(pos) = state.session.mixer.bus_index(*id) {
                state.session.mixer.buses[pos].effect_chain.move_effect(*e, *d);
                proof { assert_bus_edit(*old(state), *state, *id, pos as int); }
            }
            result.audio_effects.push(AudioEffect::RebuildBusProcessing);
            result.audio_effects.push(AudioEffect::RebuildSession);
        },
        BusAction::ToggleEffectBypass(id, e) => {
            if let Some(pos) = state.session.mixer.bus_index(*id) {
                state.session.mixer.buses[pos].effect_chain.toggle_bypass(*e);
                proof { assert_bus_edit(*old(state), *state, *id, pos as int); }
            }
            result.audio_effects.push(AudioEffect::RebuildBusProcessing);
            result.audio_effects.push(AudioEffect::RebuildSession);
        },
    }
    assert(result.audio_effects@ =~= bus_action_effects(*old(state), *action).0);
    assert(result.nav@ =~= bus_action_effects(*old(state), *action).1);
    result
}

/// Facts shared by the chain edits of `dispatch_bus`: only bus `pos` changed,
/// and it is the unique bus with that id.
proof fn assert_bus_edit(old: AppState, new: AppState, id: BusId, pos: int)
    requires
        old.wf(),
        0 <= pos < old.session.mixer.buses@.len(),
        old.session.mixer.buses@[pos].id == id,
    ensures
        forall|i: int| 0 <= i < old.session.mixer.buses@.len() && old.session.mixer.buses@[i].id == id ==> i == pos,
{
}


/// Layer group strip actions whose state changes are discrete.
#[derive(Clone, Copy, Debug)]
pub enum LayerGroupAction {
    AddEffect(u32, EffectType),
    RemoveEffect(u32, EffectId),
    MoveEffect(u32, EffectId, i8),
    ToggleEffectBypass(u32, EffectId),
    ToggleEq(u32),
    /// Nudge a parameter (by its index) of an effect on a group's strip. The
    /// amount and the parameter values are not part of this model, so the
    /// modelled state does not change; the session is rebuilt.
    AdjustEffectParam(u32, EffectId, usize),
}

/// `p` is the first strip of layer group `g`.
pub open spec fn first_strip_of(strips: Seq<LayerGroupMixer>, g: u32, p: int) -> bool {
    &&& 0 <= p < strips.len()
    &&& strips[p].group_id == g
    &&& forall|k: int| 0 <= k < p ==> strips[k].group_id != g
}

/// Only the first strip of group `g` changed, as `rel` says; nothing changes
/// when the group has no strip.
pub open spec fn group_strip_edited(
    old: AppState,
    new: AppState,
    g: u32,
    rel: spec_fn(LayerGroupMixer, LayerGroupMixer) -> bool,
) -> bool {
    let og = old.session.mixer.layer_group_mixers@;
    let ng = new.session.mixer.layer_group_mixers@;
    &&& new.instruments == old.instruments
    &&& new.midi == old.midi
    &&& new.clipboard == old.clipboard
    &&& new.audio == old.audio
    &&& new.io == old.io
    &&& new.session.automation_lanes == old.session.automation_lanes
    &&& new.session.next_lane_id == old.session.next_lane_id
    &&& new.session.midi_recording == old.session.midi_recording
    &&& new.session.piano_roll == old.session.piano_roll
    &&& new.session.arrangement == old.session.arrangement
    &&& new.session.mixer.buses == old.session.mixer.buses
    &&& new.session.mixer.selection == old.session.mixer.selection
    &&& new.session.mixer.master_mute == old.session.mixer.master_mute
    &&& ng.len() == og.len()
    &&& (forall|k: int| 0 <= k < og.len() ==> og[k].group_id != g) ==> ng == og
    &&& forall|p: int| first_strip_of(og, g, p) ==> {
        &&& rel(og[p], ng[p])
        &&& forall|k: int| 0 <= k < og.len() && k != p ==> ng[k] == og[k]
    }
}

/// The strip `b` is `a` with only its effect chain changed, as `rel` says.
pub open spec fn strip_chain_changed(a: LayerGroupMixer, b: LayerGroupMixer, rel: spec_fn(EffectChain, EffectChain) -> bool) -> bool {
    b == (LayerGroupMixer { effect_chain: b.effect_chain, ..a }) && rel(a.effect_chain, b.effect_chain)
}

/// The state change of a layer group action.
pub open spec fn group_action_applied(old: AppState, new: AppState, action: LayerGroupAction) -> bool {
    match action {
        LayerGroupAction::AddEffect(g, t) => group_strip_edited(old, new, g, |a: LayerGroupMixer, b: LayerGroupMixer|
            strip_chain_changed(a, b, |x: EffectChain, y: EffectChain|
                y.effects@ == x.effects@.push(EffectSlot { id: x.next_effect_id, effect_type: t, enabled: true })
                    && y.next_effect_id == x.next_effect_id + 1)),
        LayerGroupAction::RemoveEffect(g, e) => group_strip_edited(old, new, g, |a: LayerGroupMixer, b: LayerGroupMixer|
            strip_chain_changed(a, b, |x: EffectChain, y: EffectChain|
                chain_removed(x.effects@, y.effects@, e) && y.next_effect_id == x.next_effect_id)),
        LayerGroupAction::MoveEffect(g, e, d) => group_strip_edited(old, new, g, |a: LayerGroupMixer, b: LayerGroupMixer|
            strip_chain_changed(a, b, |x: EffectChain, y: EffectChain|
                chain_moved(x.effects@, y.effects@, e, d) && y.next_effect_id == x.next_effect_id)),
        LayerGroupAction::ToggleEffectBypass(g, e) => group_strip_edited(old, new, g, |a: LayerGroupMixer, b: LayerGroupMixer|
            strip_chain_changed(a, b, |x: EffectChain, y: EffectChain|
                chain_toggled(x.effects@, y.effects@, e) && y.next_effect_id == x.next_effect_id)),
        LayerGroupAction::ToggleEq(g) => group_strip_edited(old, new, g, |a: LayerGroupMixer, b: LayerGroupMixer|
            b == (LayerGroupMixer { eq_enabled: !a.eq_enabled, ..a })),
        LayerGroupAction::AdjustEffectParam(_, _, _) => new == old,
    }
}

/// The audio work and navigation a layer group action asks for.
pub open spec fn group_action_effects(action: LayerGroupAction) -> (Seq<AudioEffect>, Seq<NavIntent>) {
    match action {
        LayerGroupAction::AddEffect(_, _) => (
            seq![AudioEffect::RebuildBusProcessing, AudioEffect::RebuildSession],
            seq![NavIntent::Pop],
        ),
        LayerGroupAction::AdjustEffectParam(_, _, _) => (seq![AudioEffect::RebuildSession], Seq::empty()),
        _ => (seq![AudioEffect::RebuildBusProcessing, AudioEffect::RebuildSession], Seq::empty()),
    }
}

/// The first strip of the group has room for one more effect id.
pub open spec fn group_can_add_effect(strips: Seq<LayerGroupMixer>, g: u32) -> bool {
    forall|p: int| first_strip_of(strips, g, p) ==> strips[p].effect_chain.next_effect_id < u32::MAX
}

/// Dispatch layer group strip actions.
pub fn dispatch_layer_group(action: &LayerGroupAction, state: &mut AppState) -> (r: DispatchResult)
    requires
        old(state).wf(),
        action matches LayerGroupAction::AddEffect(g, _) ==> group_can_add_effect(old(state).session.mixer.layer_group_mixers@, *g),
    ensures
        final(state).wf(),
        group_action_applied(*old(state), *final(state), *action),
        r.audio_effects@ == group_action_effects(*action).0,
        r.nav@ == group_action_effects(*action).1,
        !r.needs_full_sync,
{
    if let LayerGroupAction::AdjustEffectParam(_, _, _) = action {
        let mut result = DispatchResult::none();
        result.audio_effects.push(AudioEffect::RebuildSession);
        assert(result.audio_effects@ =~= group_action_effects(*action).0);
        assert(result.nav@ =~= group_action_effects(*action).1);
        return result;
    }
    let g = match action {
        LayerGroupAction::AdjustEffectParam(g, _, _) => *g,
        LayerGroupAction::AddEffect(g, _) => *g,
        LayerGroupAction::RemoveEffect(g, _) => *g,
        LayerGroupAction::MoveEffect(g, _, _) => *g,
        LayerGroupAction::ToggleEffectBypass(g, _) => *g,
        LayerGroupAction::ToggleEq(g) => *g,
    };
    let ghost o = *old(state);
    if let Some(p) = state.session.mixer.group_index(g) {
        proof { assert(first_strip_of(o.session.mixer.layer_group_mixers@, g, p as int)); }
        match action {
            LayerGroupAction::AddEffect(_, t) => {
                state.session.mixer.layer_group_mixers[p].effect_chain.add_effect(*t);
            },
            LayerGroupAction::RemoveEffect(_, e) => {
                state.session.mixer.layer_group_mixers[p].effect_chain.remove_effect(*e);
            },
            LayerGroupAction::MoveEffect(_, e, d) => {
                state.session.mixer.layer_group_mixers[p].effect_chain.move_effect(*e, *d);
            },
            LayerGroupAction::ToggleEffectBypass(_, e) => {
                state.session.mixer.layer_group_mixers[p].effect_chain.toggle_bypass(*e);
            },
            LayerGroupAction::ToggleEq(_) => {
                let on = state.session.mixer.layer_group_mixers[p].eq_enabled;
                state.session.mixer.layer_group_mixers[p].eq_enabled = !on;
            },
            LayerGroupAction::AdjustEffectParam(_, _, _) => {},
        }
        proof {
            let og = o.session.mixer.layer_group_mixers@;
            let ng = state.session.mixer.layer_group_mixers@;
            assert forall|q: int| first_strip_of(og, g, q) implies q == p as int by {
                if q < p { assert(og[q].group_id != g); }
                if q > p { assert(og[p as int].group_id != g); }
            }
            assert forall|k: int| 0 <= k < ng.len() implies (#[trigger] ng[k]).effect_chain.wf() by {
                if k != p { assert(ng[k] == og[k]); }
            }
        }
    } else {
        assert(state.session.mixer.layer_group_mixers@ =~= o.session.mixer.layer_group_mixers@);
    }
    let mut result = DispatchResult::none();
    result.audio_effects.push(AudioEffect::RebuildBusProcessing);
    result.audio_effects.push(AudioEffect::RebuildSession);
    if let LayerGroupAction::AddEffect(_, _) = action {
        result.nav.push(NavIntent::Pop);
    }
    assert(result.audio_effects@ =~= group_action_effects(*action).0);
    assert(result.nav@ =~= group_action_effects(*action).1);
    result
}

} // verus!
