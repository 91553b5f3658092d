use imbolc_core::action::AudioEffect;
use imbolc_core::server::{dispatch_record, RecordAction, RecordCommand};
use imbolc_core::state::{AppState, SourceType};

#[test]
fn record_master_starts_and_switches_audio_in_on() {
    let mut state = AppState::new();
    let id = state.add_instrument(SourceType::AudioIn);
    state.instruments.selected = Some(0);
    state.instruments.instruments[0].active = false;
    let (r, cmd) = dispatch_record(RecordAction::RecordMaster, &mut state, false, true);
    assert_eq!(cmd, Some(RecordCommand::StartRecording { input_of: None }));
    assert!(state.instruments.instruments[0].active);
    assert_eq!(r.audio_effects, vec![AudioEffect::RebuildInstruments, AudioEffect::RebuildRouting]);

    let (r, cmd) = dispatch_record(RecordAction::RecordInput, &mut state, true, true);
    assert_eq!(cmd, Some(RecordCommand::StopRecording));
    assert!(!state.instruments.instruments[0].active);
    assert_eq!(r.audio_effects.len(), 2);

    let (_, cmd) = dispatch_record(RecordAction::RecordInput, &mut state, false, true);
    assert_eq!(cmd, Some(RecordCommand::StartRecording { input_of: Some(id) }));
}

#[test]
fn record_without_engine_or_selection() {
    let mut state = AppState::new();
    state.add_instrument(SourceType::Saw);
    let (r, cmd) = dispatch_record(RecordAction::RecordMaster, &mut state, false, false);
    assert_eq!(cmd, Some(RecordCommand::EngineNotRunning));
    assert!(r.audio_effects.is_empty());
    state.instruments.selected = None;
    let (_, cmd) = dispatch_record(RecordAction::RecordInput, &mut state, false, true);
    assert_eq!(cmd, None);
    state.instruments.selected = Some(0);
    let (r, cmd) = dispatch_record(RecordAction::RecordMaster, &mut state, false, true);
    assert_eq!(cmd, Some(RecordCommand::StartRecording { input_of: None }));
    assert!(r.audio_effects.is_empty());
    assert!(state.instruments.instruments[0].active);
}
