//! Dispatch of the actions whose effects are discrete: MIDI settings, undo
//! scopes, VST navigation, and the dispatcher that owns the state.
use std::sync::mpsc::Sender;
use vstd::prelude::*;

use crate::action::{AudioEffect, DispatchResult, IoFeedback, NavIntent, UndoScope, VstTarget};
use crate::state::{
    AppState, AutomationTarget, EffectId, EffectType, Instrument, InstrumentId,
    MidiCcMapping, SourceType,
};

verus! {

/// MIDI actions.
#[derive(Clone, Copy, Debug)]
pub enum MidiAction {
    ConnectPort(usize),
    DisconnectPort,
    AddCcMapping { cc: u8, channel: Option<u8>, target: AutomationTarget },
    RemoveCcMapping { cc: u8, channel: Option<u8> },
    SetChannelFilter(Option<u8>),
    SetLiveInputInstrument(Option<InstrumentId>),
    ToggleNotePassthrough,
}

/// Mappings other than the one for `(cc, channel)`.
pub open spec fn mappings_without(s: Seq<MidiCcMapping>, cc: u8, channel: Option<u8>) -> Seq<MidiCcMapping> {
    s.filter(|m: MidiCcMapping| !(m.cc == cc && m.channel == channel))
}

/// Drop the mappings for `(cc, channel)`.
fn remove_cc_mapping(mappings: &mut Vec<MidiCcMapping>, cc: u8, channel: Option<u8>)
    ensures
        final(mappings)@ == mappings_without(old(mappings)@, cc, channel),
{
    let ghost o = mappings@;
    let mut kept: Vec<MidiCcMapping> = Vec::new();
    let mut i: usize = 0;
    while i < mappings.len()
        invariant
            i <= o.len(),
            mappings@ == o,
            kept@ == mappings_without(o.subrange(0, i as int), cc, channel),
        decreases o.len() - i,
    {
        let m = mappings[i];
        proof {
            reveal_with_fuel(Seq::<_>::filter, 1);
            assert(o.subrange(0, i + 1).drop_last() =~= o.subrange(0, i as int));
        }
        if !(m.cc == cc && m.channel == channel) {
            kept.push(m);
        }
        i = i + 1;
    }
    assert(o.subrange(0, i as int) =~= o);
    *mappings = kept;
}

/// The state change a MIDI action makes.
pub open spec fn midi_action_applied(old: AppState, new: AppState, action: MidiAction) -> bool {
    let om = old.session.midi_recording;
    let nm = new.session.midi_recording;
    &&& new.instruments == old.instruments
    &&& new.clipboard == old.clipboard
    &&& new.audio == old.audio
    &&& new.io == old.io
    &&& new.session.mixer == old.session.mixer
    &&& new.session.piano_roll == old.session.piano_roll
    &&& new.session.arrangement == old.session.arrangement
    &&& new.session.automation_lanes == old.session.automation_lanes
    &&& new.session.next_lane_id == old.session.next_lane_id
    &&& match action {
        MidiAction::ConnectPort(_) => new.midi == old.midi && nm == om,
        MidiAction::DisconnectPort => new.midi.connected_port.is_none() && nm == om,
        MidiAction::AddCcMapping { cc, channel, target } => {
            &&& new.midi == old.midi
            &&& nm.cc_mappings@ == mappings_without(om.cc_mappings@, cc, channel).push(
                MidiCcMapping { cc, channel, target },
            )
            &&& nm.channel_filter == om.channel_filter
            &&& nm.live_input_instrument == om.live_input_instrument
            &&& nm.note_passthrough == om.note_passthrough
        },
        MidiAction::RemoveCcMapping { cc, channel } => {
            &&& new.midi == old.midi
            &&& nm.cc_mappings@ == mappings_without(om.cc_mappings@, cc, channel)
            &&& nm.channel_filter == om.channel_filter
            &&& nm.live_input_instrument == om.live_input_instrument
            &&& nm.note_passthrough == om.note_passthrough
        },
        MidiAction::SetChannelFilter(c) => new.midi == old.midi && nm.channel_filter == c
            && nm.cc_mappings == om.cc_mappings && nm.live_input_instrument == om.live_input_instrument
            && nm.note_passthrough == om.note_passthrough,
        MidiAction::SetLiveInputInstrument(i) => new.midi == old.midi && nm.live_input_instrument == i
            && nm.cc_mappings == om.cc_mappings && nm.channel_filter == om.channel_filter
            && nm.note_passthrough == om.note_passthrough,
        MidiAction::ToggleNotePassthrough => new.midi == old.midi
            && nm.note_passthrough == !om.note_passthrough && nm.cc_mappings == om.cc_mappings
            && nm.channel_filter == om.channel_filter && nm.live_input_instrument == om.live_input_instrument,
    }
}

/// Dispatch MIDI actions. Port connection itself is done by the caller (it
/// needs the MIDI input manager); disconnecting clears the connected port.
pub fn dispatch_midi(action: &MidiAction, state: &mut AppState) -> (r: DispatchResult)
    requires
        old(state).wf(),
    ensures
        final(state).wf(),
        midi_action_applied(*old(state), *final(state), *action),
        r.audio_effects@.len() == 0,
        r.nav@.len() == 0,
        !r.needs_full_sync,
{
    match action {
        MidiAction::ConnectPort(_port_index) => {},
        MidiAction::DisconnectPort => {
            state.midi.connected_port = None;
        },
        MidiAction::AddCcMapping { cc, channel, target } => {
            remove_cc_mapping(&mut state.session.midi_recording.cc_mappings, *cc, *channel);
            state.session.midi_recording.cc_mappings.push(
                MidiCcMapping { cc: *cc, channel: *channel, target: *target },
            );
        },
        MidiAction::RemoveCcMapping { cc, channel } => {
            remove_cc_mapping(&mut state.session.midi_recording.cc_mappings, *cc, *channel);
        },
        MidiAction::SetChannelFilter(channel) => {
            state.session.midi_recording.channel_filter = *channel;
        },
        MidiAction::SetLiveInputInstrument(instrument_id) => {
            state.session.midi_recording.live_input_instrument = *instrument_id;
        },
        MidiAction::ToggleNotePassthrough => {
            state.session.midi_recording.note_passthrough = !state.session.midi_recording.note_passthrough;
        },
    }
    DispatchResult::none()
}

/// The audio work an undo scope calls for.
pub open spec fn undo_scope_effects(scope: UndoScope) -> Seq<AudioEffect> {
    match scope {
        UndoScope::SingleInstrument(id) => AudioEffect::for_instrument_spec(id),
        _ => AudioEffect::all_spec(),
    }
}

/// Map an undo scope to the minimal audio effects needed.
pub fn audio_effects_for_undo_scope(scope: UndoScope) -> (v: Vec<AudioEffect>)
    ensures
        v@ == undo_scope_effects(scope),
{
    match scope {
        UndoScope::SingleInstrument(id) => AudioEffect::for_instrument(id),
        _ => AudioEffect::all(),
    }
}

/// Open the parameter page of a VST effect.
pub fn handle_open_vst_effect_params(instrument_id: InstrumentId, effect_id: EffectId) -> (r: DispatchResult)
    ensures
        r.audio_effects@.len() == 0,
        r.nav@ == seq![NavIntent::OpenVstParams(instrument_id, VstTarget::Effect(effect_id))],
        !r.needs_full_sync,
{
    DispatchResult::with_nav(NavIntent::OpenVstParams(instrument_id, VstTarget::Effect(effect_id)))
}

/// Get the VstPluginId for a given instrument and target.
pub fn get_vst_plugin_id(instrument: &Instrument, target: VstTarget) -> (r: Option<u32>)
    requires
        instrument.effects.wf(),
    ensures
        match target {
            VstTarget::Source => r == (match instrument.source {
                SourceType::Vst(id) => Some(id),
                _ => None::<u32>,
            }),
            VstTarget::Effect(effect_id) => match r {
                Some(p) => exists|i: int| 0 <= i < instrument.effects.effects@.len()
                    && instrument.effects.effects@[i].id == effect_id
                    && instrument.effects.effects@[i].effect_type == EffectType::Vst(p),
                None => forall|i: int| 0 <= i < instrument.effects.effects@.len()
                    && instrument.effects.effects@[i].id == effect_id
                    ==> !(instrument.effects.effects@[i].effect_type is Vst),
            },
        },
{
    match target {
        VstTarget::Source => match instrument.source {
            SourceType::Vst(id) => Some(id),
            _ => None,
        },
        VstTarget::Effect(effect_id) => match instrument.effects.position(effect_id) {
            Some(i) => match instrument.effects.effects[i].effect_type {
                EffectType::Vst(id) => Some(id),
                _ => None,
            },
            None => None,
        },
    }
}

/// Local dispatcher that executes actions directly on in-process state. It
/// owns the application state and the I/O feedback channel sender.
pub struct LocalDispatcher {
    state: AppState,
    io_tx: Sender<IoFeedback>,
}

impl LocalDispatcher {
    /// The owned state.
    pub closed spec fn state_view(&self) -> AppState {
        self.state
    }

    /// The owned sender.
    pub closed spec fn sender_view(&self) -> Sender<IoFeedback> {
        self.io_tx
    }

    /// Create a new LocalDispatcher that owns the given state and I/O channel.
    pub fn new(state: AppState, io_tx: Sender<IoFeedback>) -> (d: Self)
        ensures
            d.state_view() == state,
            d.sender_view() == io_tx,
    {
        LocalDispatcher { state, io_tx }
    }

    /// Access the application state for rendering.
    pub fn state(&self) -> (s: &AppState)
        ensures
            *s == self.state_view(),
    {
        &self.state
    }

    /// Mutable access to application state for IoFeedback handling and other updates.
    pub fn state_mut(&mut self) -> (s: &mut AppState)
        ensures
            *s == old(self).state_view(),
            final(self).state_view() == *final(s),
            final(self).sender_view() == old(self).sender_view(),
    {
        &mut self.state
    }

    /// Access the I/O feedback sender.
    pub fn io_tx(&self) -> (tx: &Sender<IoFeedback>)
        ensures
            *tx == self.sender_view(),
    {
        &self.io_tx
    }
}

} // verus!
