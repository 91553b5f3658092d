use imbolc_core::action::AudioEffect;
use imbolc_core::mixer::{dispatch_mixer, MixerAction};
use imbolc_core::state::{AppState, BusId, MixerBus, MixerSelection, MixerSend, OutputTarget, SourceType, TapPoint};

fn setup() -> AppState {
    let mut state = AppState::new();
    state.add_instrument(SourceType::Saw);
    state.add_instrument(SourceType::Sin);
    state
}

fn bus(state: &AppState, id: BusId) -> &MixerBus {
    let i = state.session.mixer.bus_index(id).unwrap();
    &state.session.mixer.buses[i]
}

#[test]
fn toggle_mute_instrument() {
    let mut state = setup();

    state.session.mixer.selection = MixerSelection::Instrument(0);
    assert!(!state.instruments.instruments[0].mute);
    let result = dispatch_mixer(&MixerAction::ToggleMute, &mut state);
    assert!(state.instruments.instruments[0].mute);
    assert!(result.audio_effects.contains(&AudioEffect::RebuildInstruments));
}

#[test]
fn toggle_mute_bus() {
    let mut state = setup();

    state.session.mixer.selection = MixerSelection::Bus(1);
    assert!(!bus(&state, 1).mute);
    dispatch_mixer(&MixerAction::ToggleMute, &mut state);
    assert!(bus(&state, 1).mute);
}

#[test]
fn toggle_mute_master() {
    let mut state = setup();

    state.session.mixer.selection = MixerSelection::Master;
    assert!(!state.session.mixer.master_mute);
    dispatch_mixer(&MixerAction::ToggleMute, &mut state);
    assert!(state.session.mixer.master_mute);
}

#[test]
fn toggle_solo_instrument() {
    let mut state = setup();

    state.session.mixer.selection = MixerSelection::Instrument(0);
    let result = dispatch_mixer(&MixerAction::ToggleSolo, &mut state);
    assert!(state.instruments.instruments[0].solo);
    assert!(result.audio_effects.contains(&AudioEffect::RebuildInstruments));
}

#[test]
fn toggle_solo_bus() {
    let mut state = setup();

    state.session.mixer.selection = MixerSelection::Bus(1);
    dispatch_mixer(&MixerAction::ToggleSolo, &mut state);
    assert!(bus(&state, 1).solo);
}

#[test]
fn cycle_section() {
    let mut state = setup();

    state.session.mixer.selection = MixerSelection::Instrument(0);
    dispatch_mixer(&MixerAction::CycleSection, &mut state);
    assert!(matches!(state.session.mixer.selection, MixerSelection::Bus(id) if id == 1));
    dispatch_mixer(&MixerAction::CycleSection, &mut state);
    assert!(matches!(state.session.mixer.selection, MixerSelection::Master));
    dispatch_mixer(&MixerAction::CycleSection, &mut state);
    assert!(matches!(state.session.mixer.selection, MixerSelection::Instrument(_)));
}

#[test]
fn toggle_send_auto_sets_level() {
    let mut state = setup();

    state.session.mixer.selection = MixerSelection::Instrument(0);
    // Sends start empty (lazily created)
    assert!(state.instruments.instruments[0].sends.is_empty());

    dispatch_mixer(&MixerAction::ToggleSend(1), &mut state);
    let send = state.instruments.instruments[0].sends.iter().find(|s| s.bus_id == 1).unwrap();
    assert!(send.enabled);

    dispatch_mixer(&MixerAction::ToggleSend(1), &mut state);
    assert!(!state.instruments.instruments[0].sends.iter().find(|s| s.bus_id == 1).unwrap().enabled);
}

// ---------------------------------------------------------------------------
// Further cases
// ---------------------------------------------------------------------------

#[test]
fn toggle_send_creates_post_fader_send_once() {
    let mut state = setup();
    state.session.mixer.selection = MixerSelection::Instrument(1);
    dispatch_mixer(&MixerAction::ToggleSend(4), &mut state);
    dispatch_mixer(&MixerAction::ToggleSend(4), &mut state);
    dispatch_mixer(&MixerAction::ToggleSend(4), &mut state);
    let sends = &state.instruments.instruments[1].sends;
    assert_eq!(sends.len(), 1);
    assert_eq!(sends[0].tap_point, TapPoint::PostFader);
    assert!(sends[0].enabled);
}

#[test]
fn cycle_send_tap_point_needs_a_send() {
    let mut state = setup();
    state.session.mixer.selection = MixerSelection::Instrument(0);
    dispatch_mixer(&MixerAction::CycleSendTapPoint(1), &mut state);
    assert!(state.instruments.instruments[0].sends.is_empty());
    state.instruments.instruments[0].sends.push(MixerSend { bus_id: 1, enabled: true, tap_point: TapPoint::PostFader });
    dispatch_mixer(&MixerAction::CycleSendTapPoint(1), &mut state);
    assert_eq!(state.instruments.instruments[0].sends[0].tap_point, TapPoint::PreFader);
    dispatch_mixer(&MixerAction::CycleSendTapPoint(1), &mut state);
    assert_eq!(state.instruments.instruments[0].sends[0].tap_point, TapPoint::PostFader);
}

#[test]
fn cycle_output_walks_buses_and_back() {
    let mut state = setup();
    state.session.mixer.selection = MixerSelection::Instrument(0);
    dispatch_mixer(&MixerAction::CycleOutput, &mut state);
    assert_eq!(state.instruments.instruments[0].output_target, OutputTarget::Bus(1));
    dispatch_mixer(&MixerAction::CycleOutput, &mut state);
    assert_eq!(state.instruments.instruments[0].output_target, OutputTarget::Bus(2));
    dispatch_mixer(&MixerAction::CycleOutputReverse, &mut state);
    assert_eq!(state.instruments.instruments[0].output_target, OutputTarget::Bus(1));
    dispatch_mixer(&MixerAction::CycleOutputReverse, &mut state);
    assert_eq!(state.instruments.instruments[0].output_target, OutputTarget::Master);
    dispatch_mixer(&MixerAction::CycleOutputReverse, &mut state);
    assert_eq!(state.instruments.instruments[0].output_target, OutputTarget::Bus(8));
    dispatch_mixer(&MixerAction::CycleOutput, &mut state);
    assert_eq!(state.instruments.instruments[0].output_target, OutputTarget::Master);
}

#[test]
fn move_clamps_and_syncs_selection() {
    let mut state = setup();
    state.session.mixer.selection = MixerSelection::Instrument(0);
    dispatch_mixer(&MixerAction::Move(5), &mut state);
    assert_eq!(state.session.mixer.selection, MixerSelection::Instrument(1));
    assert_eq!(state.instruments.selected, Some(1));
    dispatch_mixer(&MixerAction::Move(-5), &mut state);
    assert_eq!(state.session.mixer.selection, MixerSelection::Instrument(0));
}

#[test]
fn move_and_jump_over_buses() {
    let mut state = setup();
    state.session.mixer.selection = MixerSelection::Bus(3);
    dispatch_mixer(&MixerAction::Move(2), &mut state);
    assert_eq!(state.session.mixer.selection, MixerSelection::Bus(5));
    dispatch_mixer(&MixerAction::Jump(-1), &mut state);
    assert_eq!(state.session.mixer.selection, MixerSelection::Bus(8));
    dispatch_mixer(&MixerAction::Jump(1), &mut state);
    assert_eq!(state.session.mixer.selection, MixerSelection::Bus(1));
}

#[test]
fn cycle_section_returns_to_selected_instrument() {
    let mut state = setup();
    state.instruments.selected = Some(1);
    state.session.mixer.selection = MixerSelection::Master;
    dispatch_mixer(&MixerAction::CycleSection, &mut state);
    assert_eq!(state.session.mixer.selection, MixerSelection::Instrument(1));
}

#[test]
fn select_at_sets_selection() {
    let mut state = setup();
    dispatch_mixer(&MixerAction::SelectAt(MixerSelection::Instrument(1)), &mut state);
    assert_eq!(state.session.mixer.selection, MixerSelection::Instrument(1));
    assert_eq!(state.instruments.selected, Some(1));
}
