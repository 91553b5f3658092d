use imbolc_core::action::{AudioEffect, AudioSideEffect};
use imbolc_core::bus::BusAction;
use imbolc_core::domain::{dispatch_action, dispatch_domain, project_action, DomainAction};
use imbolc_core::sequencer::SequencerAction;
use imbolc_core::instrument::InstrumentAction;
use imbolc_core::mixer::MixerAction;
use imbolc_core::piano_roll::PianoRollAction;
use imbolc_core::session::SessionAction;
use imbolc_core::state::{AppState, SourceType};

#[test]
fn dispatch_action_routes_to_each_dispatcher() {
    let mut state = AppState::new();
    let mut effects: Vec<AudioSideEffect> = Vec::new();
    let r = dispatch_action(&DomainAction::Instrument(InstrumentAction::Add(SourceType::Saw)), &mut state, true, &mut effects);
    assert_eq!(state.instruments.instruments.len(), 1);
    assert_eq!(state.session.piano_roll.tracks.len(), 1);
    assert!(!r.audio_effects.is_empty());

    dispatch_action(&DomainAction::PianoRoll(PianoRollAction::PlayStop), &mut state, true, &mut effects);
    assert!(state.session.piano_roll.playing);
    assert_eq!(effects, vec![AudioSideEffect::SetPlaying { playing: true }]);

    let r = dispatch_action(&DomainAction::Session(SessionAction::ToggleMasterMute), &mut state, true, &mut effects);
    assert!(state.session.mixer.master_mute);
    assert_eq!(r.audio_effects, vec![AudioEffect::RebuildSession, AudioEffect::UpdateMixerParams]);
    assert!(!r.needs_full_sync);
}

#[test]
fn project_action_applies_what_the_audio_thread_holds() {
    let state = AppState::new();
    let mut instruments = state.instruments;
    let mut session = state.session;
    assert!(project_action(&DomainAction::Instrument(InstrumentAction::Add(SourceType::Sin)), &mut instruments, &mut session));
    assert_eq!(instruments.instruments.len(), 1);
    assert!(project_action(&DomainAction::Mixer(MixerAction::ToggleMute), &mut instruments, &mut session));
    assert!(instruments.instruments[0].mute);
    assert!(project_action(&DomainAction::Session(SessionAction::ToggleMasterMute), &mut instruments, &mut session));
    assert!(session.mixer.master_mute);
    assert!(!project_action(&DomainAction::Session(SessionAction::NewProject), &mut instruments, &mut session));
    assert_eq!(instruments.instruments.len(), 1);
}

#[test]
fn dispatch_domain_asks_for_full_sync_only_for_unprojectable_audio_work() {
    let mut state = AppState::new();
    state.add_instrument(SourceType::Kit);
    state.instruments.selected = Some(0);
    let mut effects = Vec::new();
    let r = dispatch_domain(&DomainAction::Sequencer(SequencerAction::ToggleStep(0, 0)), &mut state, false, &mut effects);
    assert!(r.needs_full_sync);
    let r = dispatch_domain(
        &DomainAction::Sequencer(SequencerAction::CopySteps { start_pad: 0, end_pad: 0, start_step: 0, end_step: 0 }),
        &mut state,
        false,
        &mut effects,
    );
    assert!(!r.needs_full_sync);
    let r = dispatch_domain(&DomainAction::Bus(BusAction::Add), &mut state, false, &mut effects);
    assert!(!r.needs_full_sync);
    assert_eq!(r.audio_effects, vec![AudioEffect::RebuildRouting, AudioEffect::RebuildSession]);
}
