use std::sync::mpsc::channel;

use imbolc_core::action::{AudioEffect, IoFeedback, NavIntent, UndoScope, VstTarget};
use imbolc_core::dispatch::{
    audio_effects_for_undo_scope, dispatch_midi, get_vst_plugin_id, handle_open_vst_effect_params,
    LocalDispatcher, MidiAction,
};
use imbolc_core::state::{AppState, AutomationTarget, EffectType, Instrument, SourceType};

#[test]
fn add_cc_mapping_replaces_same_controller_and_channel() {
    let mut state = AppState::new();
    dispatch_midi(&MidiAction::AddCcMapping { cc: 7, channel: None, target: AutomationTarget::InstrumentLevel(1) }, &mut state);
    dispatch_midi(&MidiAction::AddCcMapping { cc: 7, channel: Some(2), target: AutomationTarget::InstrumentPan(1) }, &mut state);
    dispatch_midi(&MidiAction::AddCcMapping { cc: 7, channel: None, target: AutomationTarget::BusLevel(3) }, &mut state);
    let m = &state.session.midi_recording.cc_mappings;
    assert_eq!(m.len(), 2);
    assert_eq!(m[0].channel, Some(2));
    assert_eq!(m[1].target, AutomationTarget::BusLevel(3));
}

#[test]
fn remove_cc_mapping_keeps_others() {
    let mut state = AppState::new();
    dispatch_midi(&MidiAction::AddCcMapping { cc: 1, channel: None, target: AutomationTarget::InstrumentLevel(1) }, &mut state);
    dispatch_midi(&MidiAction::AddCcMapping { cc: 2, channel: None, target: AutomationTarget::InstrumentLevel(1) }, &mut state);
    let result = dispatch_midi(&MidiAction::RemoveCcMapping { cc: 1, channel: None }, &mut state);
    assert_eq!(state.session.midi_recording.cc_mappings.len(), 1);
    assert_eq!(state.session.midi_recording.cc_mappings[0].cc, 2);
    assert!(result.audio_effects.is_empty() && result.nav.is_empty());
}

#[test]
fn midi_settings() {
    let mut state = AppState::new();
    state.midi.connected_port = Some(1);
    dispatch_midi(&MidiAction::ConnectPort(0), &mut state);
    assert!(state.midi.connected_port.is_some());
    dispatch_midi(&MidiAction::DisconnectPort, &mut state);
    assert!(state.midi.connected_port.is_none());
    dispatch_midi(&MidiAction::SetChannelFilter(Some(9)), &mut state);
    assert_eq!(state.session.midi_recording.channel_filter, Some(9));
    dispatch_midi(&MidiAction::SetLiveInputInstrument(Some(4)), &mut state);
    assert_eq!(state.session.midi_recording.live_input_instrument, Some(4));
    let before = state.session.midi_recording.note_passthrough;
    dispatch_midi(&MidiAction::ToggleNotePassthrough, &mut state);
    assert_eq!(state.session.midi_recording.note_passthrough, !before);
}

#[test]
fn undo_scope_effects() {
    assert_eq!(
        audio_effects_for_undo_scope(UndoScope::SingleInstrument(3)),
        vec![AudioEffect::RebuildInstruments, AudioEffect::RebuildRoutingForInstrument(3)]
    );
    let all = vec![
        AudioEffect::RebuildInstruments,
        AudioEffect::RebuildSession,
        AudioEffect::RebuildRouting,
        AudioEffect::UpdatePianoRoll,
        AudioEffect::UpdateAutomation,
    ];
    assert_eq!(audio_effects_for_undo_scope(UndoScope::Session), all);
    assert_eq!(audio_effects_for_undo_scope(UndoScope::Full), all);
}

#[test]
fn open_vst_effect_params_navigates() {
    let r = handle_open_vst_effect_params(2, 5);
    assert_eq!(r.nav, vec![NavIntent::OpenVstParams(2, VstTarget::Effect(5))]);
    assert!(r.audio_effects.is_empty());
}

#[test]
fn vst_plugin_ids() {
    let mut inst = Instrument::new(1, SourceType::Vst(11));
    assert_eq!(get_vst_plugin_id(&inst, VstTarget::Source), Some(11));
    let e = inst.effects.add_effect(EffectType::Vst(22));
    let r = inst.effects.add_effect(EffectType::Reverb);
    assert_eq!(get_vst_plugin_id(&inst, VstTarget::Effect(e)), Some(22));
    assert_eq!(get_vst_plugin_id(&inst, VstTarget::Effect(r)), None);
    assert_eq!(get_vst_plugin_id(&inst, VstTarget::Effect(99)), None);
    let saw = Instrument::new(2, SourceType::Saw);
    assert_eq!(get_vst_plugin_id(&saw, VstTarget::Source), None);
}

#[test]
fn local_dispatcher_owns_state_and_sender() {
    let (tx, rx) = channel::<IoFeedback>();
    let mut d = LocalDispatcher::new(AppState::new(), tx);
    d.state_mut().add_instrument(SourceType::Saw);
    assert_eq!(d.state().instruments.instruments.len(), 1);
    d.io_tx().send(IoFeedback::ImportSynthDefLoaded { id: 3, result: Ok("x".to_string()) }).unwrap();
    assert!(rx.try_recv().is_ok());
}
