use imbolc_core::action::{AudioEffect, FileSelectAction, NavIntent, PaneId};
use imbolc_core::session::{dispatch_session, SessionAction};
use imbolc_core::state::{AppState, SourceType};

#[test]
fn new_project_starts_over() {
    let mut state = AppState::new();
    state.add_instrument(SourceType::Saw);
    state.add_instrument(SourceType::Kit);
    state.session.mixer.master_mute = true;
    state.session.piano_roll.looping = false;
    let r = dispatch_session(&SessionAction::NewProject, &mut state);
    assert!(state.instruments.instruments.is_empty());
    assert_eq!(state.instruments.next_id, 1);
    assert!(!state.session.mixer.master_mute);
    assert!(state.session.piano_roll.looping);
    assert!(state.session.piano_roll.tracks.is_empty());
    assert_eq!(state.session.mixer.buses.len(), 8);
    assert_eq!(
        r.nav,
        vec![
            NavIntent::ConditionalPop(PaneId::Confirm),
            NavIntent::ConditionalPop(PaneId::ProjectBrowser),
            NavIntent::SwitchTo(PaneId::Add),
        ]
    );
    assert_eq!(
        r.audio_effects,
        vec![
            AudioEffect::RebuildInstruments,
            AudioEffect::RebuildSession,
            AudioEffect::RebuildRouting,
            AudioEffect::UpdatePianoRoll,
            AudioEffect::UpdateAutomation,
        ]
    );
}

#[test]
fn toggle_master_mute_flips_and_flips_back() {
    let mut state = AppState::new();
    let r = dispatch_session(&SessionAction::ToggleMasterMute, &mut state);
    assert!(state.session.mixer.master_mute);
    assert_eq!(r.audio_effects, vec![AudioEffect::RebuildSession, AudioEffect::UpdateMixerParams]);
    dispatch_session(&SessionAction::ToggleMasterMute, &mut state);
    assert!(!state.session.mixer.master_mute);
}

#[test]
fn open_file_browser_only_navigates() {
    let mut state = AppState::new();
    let r = dispatch_session(&SessionAction::OpenFileBrowser(FileSelectAction::LoadChopperSample), &mut state);
    assert_eq!(r.nav, vec![NavIntent::OpenFileBrowser(FileSelectAction::LoadChopperSample)]);
    assert!(r.audio_effects.is_empty());
}
