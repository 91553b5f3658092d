use imbolc_core::automation::AutomationAction;
use imbolc_core::arrangement::ArrangementAction;
use imbolc_core::bus::{BusAction, LayerGroupAction};
use imbolc_core::domain::{dispatch_action, project_action, DomainAction};
use imbolc_core::instrument::InstrumentAction;
use imbolc_core::mixer::MixerAction;
use imbolc_core::piano_roll::{ClipboardNote, PianoRollAction};
use imbolc_core::sequencer::SequencerAction;
use imbolc_core::session::SessionAction;
use imbolc_core::state::{
    AppState, AutomationTarget, EffectType, FilterType, InstrumentId, MixerSelection, OutputTarget, SourceType,
};

/// Dispatch on the state and project on copies taken before; both must agree
/// on the session and the instruments.
fn assert_parity(state: &mut AppState, action: &DomainAction) {
    let mut proj_session = state.session.clone();
    let mut proj_instruments = state.instruments.clone();
    let mut effects = Vec::new();
    dispatch_action(action, state, false, &mut effects);
    let projected = project_action(action, &mut proj_instruments, &mut proj_session);
    assert!(projected, "action should be projectable: {:?}", action);
    assert_eq!(format!("{:?}", state.session), format!("{:?}", proj_session), "session diverged for {:?}", action);
    assert_eq!(
        format!("{:?}", state.instruments),
        format!("{:?}", proj_instruments),
        "instruments diverged for {:?}",
        action
    );
}

fn assert_not_projectable(action: &DomainAction) {
    let fresh = AppState::new();
    let mut session = fresh.session;
    let mut instruments = fresh.instruments;
    assert!(!project_action(action, &mut instruments, &mut session), "action should not be projectable: {:?}", action);
}

fn run(state: &mut AppState, action: DomainAction) {
    let mut effects = Vec::new();
    dispatch_action(&action, state, false, &mut effects);
}

fn minimal() -> AppState {
    AppState::new()
}

/// A Saw instrument with a low-pass filter, a reverb and EQ on, selected.
fn one_instrument() -> AppState {
    let mut s = minimal();
    let id = s.add_instrument(SourceType::Saw);
    run(&mut s, DomainAction::Instrument(InstrumentAction::SetFilter(id, Some(FilterType::Lpf))));
    run(&mut s, DomainAction::Instrument(InstrumentAction::AddEffect(id, EffectType::Reverb)));
    run(&mut s, DomainAction::Instrument(InstrumentAction::ToggleEq(id)));
    s.instruments.selected = Some(0);
    s
}

fn first_id(s: &AppState) -> InstrumentId {
    s.instruments.instruments[0].id
}

/// Two instruments, a piano roll note, an automation lane and a delay on bus 1.
fn rich() -> AppState {
    let mut s = minimal();
    let id1 = s.add_instrument(SourceType::Saw);
    s.add_instrument(SourceType::Sin);
    s.instruments.selected = Some(0);
    s.session.mixer.selection = MixerSelection::Instrument(0);
    run(
        &mut s,
        DomainAction::PianoRoll(PianoRollAction::ToggleNote { pitch: 60, tick: 0, duration: 480, velocity: 100, track: 0 }),
    );
    run(&mut s, DomainAction::Automation(AutomationAction::AddLane(AutomationTarget::InstrumentLevel(id1))));
    run(&mut s, DomainAction::Bus(BusAction::AddEffect(1, EffectType::Delay)));
    s
}

/// An instrument and a delay on bus 1.
fn bus_effect() -> AppState {
    let mut s = minimal();
    s.add_instrument(SourceType::Saw);
    run(&mut s, DomainAction::Bus(BusAction::AddEffect(1, EffectType::Delay)));
    s
}

/// Two instruments linked into a layer group.
fn layer_group() -> AppState {
    let mut s = minimal();
    let id1 = s.add_instrument(SourceType::Saw);
    let id2 = s.add_instrument(SourceType::Sin);
    run(&mut s, DomainAction::Instrument(InstrumentAction::LinkLayer(id1, id2)));
    s
}

fn group_id(s: &AppState) -> u32 {
    s.instruments.instruments[0].layer_group.expect("fixture should have a layer group")
}

fn bus1_effect(s: &AppState, k: usize) -> u32 {
    s.session.mixer.buses[0].effect_chain.effects[k].id
}

fn group_effect(s: &AppState, k: usize) -> u32 {
    s.session.mixer.layer_group_mixers[0].effect_chain.effects[k].id
}

// Instrument actions

#[test]
fn parity_add_effect() {
    let mut s = one_instrument();
    let id = first_id(&s);
    assert_parity(&mut s, &DomainAction::Instrument(InstrumentAction::AddEffect(id, EffectType::Delay)));
}

#[test]
fn parity_remove_effect() {
    let mut s = one_instrument();
    let id = first_id(&s);
    let eid = s.instruments.instruments[0].effects.effects[0].id;
    assert_parity(&mut s, &DomainAction::Instrument(InstrumentAction::RemoveEffect(id, eid)));
}

#[test]
fn parity_toggle_effect_bypass() {
    let mut s = one_instrument();
    let id = first_id(&s);
    let eid = s.instruments.instruments[0].effects.effects[0].id;
    assert_parity(&mut s, &DomainAction::Instrument(InstrumentAction::ToggleEffectBypass(id, eid)));
}

#[test]
fn parity_toggle_eq() {
    let mut s = one_instrument();
    let id = first_id(&s);
    assert_parity(&mut s, &DomainAction::Instrument(InstrumentAction::ToggleEq(id)));
}

#[test]
fn parity_add() {
    let mut s = minimal();
    assert_parity(&mut s, &DomainAction::Instrument(InstrumentAction::Add(SourceType::Saw)));
}

#[test]
fn parity_delete() {
    let mut s = one_instrument();
    let id = first_id(&s);
    assert_parity(&mut s, &DomainAction::Instrument(InstrumentAction::Delete(id)));
}

#[test]
fn parity_edit() {
    let mut s = one_instrument();
    let id = first_id(&s);
    assert_parity(&mut s, &DomainAction::Instrument(InstrumentAction::Edit(id)));
}

#[test]
fn parity_select() {
    let mut s = rich();
    assert_parity(&mut s, &DomainAction::Instrument(InstrumentAction::Select(1)));
}

#[test]
fn parity_link_layer() {
    let mut s = rich();
    let id1 = s.instruments.instruments[0].id;
    let id2 = s.instruments.instruments[1].id;
    assert_parity(&mut s, &DomainAction::Instrument(InstrumentAction::LinkLayer(id1, id2)));
}

#[test]
fn parity_unlink_layer() {
    let mut s = layer_group();
    let id1 = s.instruments.instruments[0].id;
    assert_parity(&mut s, &DomainAction::Instrument(InstrumentAction::UnlinkLayer(id1)));
}

#[test]
fn parity_action_on_nonexistent_instrument() {
    let mut s = minimal();
    assert_parity(&mut s, &DomainAction::Instrument(InstrumentAction::ToggleFilter(99999)));
}

#[test]
fn parity_select_out_of_bounds() {
    let mut s = one_instrument();
    assert_parity(&mut s, &DomainAction::Instrument(InstrumentAction::Select(999)));
}

#[test]
fn parity_add_two_instruments() {
    let mut s = minimal();
    assert_parity(&mut s, &DomainAction::Instrument(InstrumentAction::Add(SourceType::Saw)));
    assert_parity(&mut s, &DomainAction::Instrument(InstrumentAction::Add(SourceType::Sin)));
}

// Mixer actions

#[test]
fn parity_mixer_move() {
    let mut s = rich();
    s.session.mixer.selection = MixerSelection::Instrument(0);
    assert_parity(&mut s, &DomainAction::Mixer(MixerAction::Move(1)));
}

#[test]
fn parity_mixer_jump() {
    let mut s = rich();
    s.session.mixer.selection = MixerSelection::Instrument(0);
    assert_parity(&mut s, &DomainAction::Mixer(MixerAction::Jump(-1)));
}

#[test]
fn parity_mixer_select_at() {
    let mut s = rich();
    assert_parity(&mut s, &DomainAction::Mixer(MixerAction::SelectAt(MixerSelection::Instrument(1))));
}

#[test]
fn parity_mixer_toggle_mute_instrument() {
    let mut s = rich();
    s.session.mixer.selection = MixerSelection::Instrument(0);
    assert_parity(&mut s, &DomainAction::Mixer(MixerAction::ToggleMute));
}

#[test]
fn parity_mixer_toggle_mute_bus() {
    let mut s = rich();
    s.session.mixer.selection = MixerSelection::Bus(1);
    assert_parity(&mut s, &DomainAction::Mixer(MixerAction::ToggleMute));
}

#[test]
fn parity_mixer_toggle_mute_master() {
    let mut s = rich();
    s.session.mixer.selection = MixerSelection::Master;
    assert_parity(&mut s, &DomainAction::Mixer(MixerAction::ToggleMute));
}

#[test]
fn parity_mixer_toggle_mute_layer_group() {
    let mut s = layer_group();
    let gid = group_id(&s);
    s.session.mixer.selection = MixerSelection::LayerGroup(gid);
    assert_parity(&mut s, &DomainAction::Mixer(MixerAction::ToggleMute));
}

#[test]
fn parity_mixer_toggle_solo_instrument() {
    let mut s = rich();
    s.session.mixer.selection = MixerSelection::Instrument(0);
    assert_parity(&mut s, &DomainAction::Mixer(MixerAction::ToggleSolo));
}

#[test]
fn parity_mixer_toggle_solo_bus() {
    let mut s = rich();
    s.session.mixer.selection = MixerSelection::Bus(1);
    assert_parity(&mut s, &DomainAction::Mixer(MixerAction::ToggleSolo));
}

#[test]
fn parity_mixer_toggle_solo_layer_group() {
    let mut s = layer_group();
    let gid = group_id(&s);
    s.session.mixer.selection = MixerSelection::LayerGroup(gid);
    assert_parity(&mut s, &DomainAction::Mixer(MixerAction::ToggleSolo));
}

#[test]
fn parity_mixer_cycle_section() {
    let mut s = rich();
    s.session.mixer.selection = MixerSelection::Instrument(0);
    assert_parity(&mut s, &DomainAction::Mixer(MixerAction::CycleSection));
}

#[test]
fn parity_mixer_cycle_output() {
    let mut s = rich();
    s.session.mixer.selection = MixerSelection::Instrument(0);
    assert_parity(&mut s, &DomainAction::Mixer(MixerAction::CycleOutput));
}

#[test]
fn parity_mixer_cycle_output_reverse() {
    let mut s = rich();
    s.session.mixer.selection = MixerSelection::Instrument(0);
    assert_parity(&mut s, &DomainAction::Mixer(MixerAction::CycleOutputReverse));
}

#[test]
fn parity_mixer_toggle_send() {
    let mut s = rich();
    s.session.mixer.selection = MixerSelection::Instrument(0);
    assert_parity(&mut s, &DomainAction::Mixer(MixerAction::ToggleSend(1)));
}

#[test]
fn parity_mixer_cycle_send_tap_point() {
    let mut s = rich();
    s.session.mixer.selection = MixerSelection::Instrument(0);
    run(&mut s, DomainAction::Mixer(MixerAction::ToggleSend(1)));
    assert_parity(&mut s, &DomainAction::Mixer(MixerAction::CycleSendTapPoint(1)));
}

#[test]
fn parity_mixer_move_bus() {
    let mut s = rich();
    s.session.mixer.selection = MixerSelection::Bus(1);
    assert_parity(&mut s, &DomainAction::Mixer(MixerAction::Move(1)));
}

#[test]
fn parity_mixer_jump_bus() {
    let mut s = rich();
    s.session.mixer.selection = MixerSelection::Bus(1);
    assert_parity(&mut s, &DomainAction::Mixer(MixerAction::Jump(-1)));
}

#[test]
fn parity_mixer_toggle_send_layer_group() {
    let mut s = layer_group();
    let gid = group_id(&s);
    s.session.mixer.selection = MixerSelection::LayerGroup(gid);
    assert_parity(&mut s, &DomainAction::Mixer(MixerAction::ToggleSend(1)));
}

#[test]
fn parity_mixer_cycle_send_tap_point_layer_group() {
    let mut s = layer_group();
    let gid = group_id(&s);
    s.session.mixer.selection = MixerSelection::LayerGroup(gid);
    run(&mut s, DomainAction::Mixer(MixerAction::ToggleSend(1)));
    assert_parity(&mut s, &DomainAction::Mixer(MixerAction::CycleSendTapPoint(1)));
}

#[test]
fn parity_mixer_cycle_output_layer_group() {
    let mut s = layer_group();
    let gid = group_id(&s);
    s.session.mixer.selection = MixerSelection::LayerGroup(gid);
    assert_parity(&mut s, &DomainAction::Mixer(MixerAction::CycleOutput));
}

#[test]
fn parity_mixer_cycle_output_reverse_layer_group() {
    let mut s = layer_group();
    let gid = group_id(&s);
    s.session.mixer.selection = MixerSelection::LayerGroup(gid);
    assert_parity(&mut s, &DomainAction::Mixer(MixerAction::CycleOutputReverse));
}

#[test]
fn parity_mixer_move_with_empty_instruments() {
    let mut s = minimal();
    s.session.mixer.selection = MixerSelection::Instrument(0);
    assert_parity(&mut s, &DomainAction::Mixer(MixerAction::Move(1)));
}

// Bus actions

#[test]
fn parity_bus_add() {
    let mut s = one_instrument();
    assert_parity(&mut s, &DomainAction::Bus(BusAction::Add));
}

#[test]
fn parity_bus_remove() {
    let mut s = one_instrument();
    s.instruments.instruments[0].output_target = OutputTarget::Bus(1);
    assert_parity(&mut s, &DomainAction::Bus(BusAction::Remove(1)));
    assert_eq!(s.instruments.instruments[0].output_target, OutputTarget::Master);
}

#[test]
fn parity_bus_rename() {
    let mut s = minimal();
    assert_parity(&mut s, &DomainAction::Bus(BusAction::Rename(1, "Drums".to_string())));
}

#[test]
fn parity_bus_add_effect() {
    let mut s = minimal();
    assert_parity(&mut s, &DomainAction::Bus(BusAction::AddEffect(1, EffectType::Delay)));
}

#[test]
fn parity_bus_remove_effect() {
    let mut s = bus_effect();
    let eid = bus1_effect(&s, 0);
    assert_parity(&mut s, &DomainAction::Bus(BusAction::RemoveEffect(1, eid)));
}

#[test]
fn parity_bus_move_effect() {
    let mut s = bus_effect();
    run(&mut s, DomainAction::Bus(BusAction::AddEffect(1, EffectType::Reverb)));
    let eid = bus1_effect(&s, 0);
    assert_parity(&mut s, &DomainAction::Bus(BusAction::MoveEffect(1, eid, 1)));
}

#[test]
fn parity_bus_toggle_effect_bypass() {
    let mut s = bus_effect();
    let eid = bus1_effect(&s, 0);
    assert_parity(&mut s, &DomainAction::Bus(BusAction::ToggleEffectBypass(1, eid)));
}

#[test]
fn parity_bus_adjust_effect_param() {
    let mut s = bus_effect();
    let eid = bus1_effect(&s, 0);
    assert_parity(&mut s, &DomainAction::Bus(BusAction::AdjustEffectParam(1, eid, 0)));
}

#[test]
fn parity_bus_remove_nonexistent() {
    let mut s = minimal();
    assert_parity(&mut s, &DomainAction::Bus(BusAction::Remove(200)));
}

// Layer group actions

#[test]
fn parity_layer_group_add_effect() {
    let mut s = layer_group();
    let gid = group_id(&s);
    assert_parity(&mut s, &DomainAction::LayerGroup(LayerGroupAction::AddEffect(gid, EffectType::TapeComp)));
}

#[test]
fn parity_layer_group_remove_effect() {
    let mut s = layer_group();
    let gid = group_id(&s);
    run(&mut s, DomainAction::LayerGroup(LayerGroupAction::AddEffect(gid, EffectType::Reverb)));
    let eid = group_effect(&s, 0);
    assert_parity(&mut s, &DomainAction::LayerGroup(LayerGroupAction::RemoveEffect(gid, eid)));
}

#[test]
fn parity_layer_group_move_effect() {
    let mut s = layer_group();
    let gid = group_id(&s);
    run(&mut s, DomainAction::LayerGroup(LayerGroupAction::AddEffect(gid, EffectType::Reverb)));
    run(&mut s, DomainAction::LayerGroup(LayerGroupAction::AddEffect(gid, EffectType::Delay)));
    let eid = group_effect(&s, 0);
    assert_parity(&mut s, &DomainAction::LayerGroup(LayerGroupAction::MoveEffect(gid, eid, 1)));
}

#[test]
fn parity_layer_group_toggle_effect_bypass() {
    let mut s = layer_group();
    let gid = group_id(&s);
    run(&mut s, DomainAction::LayerGroup(LayerGroupAction::AddEffect(gid, EffectType::Limiter)));
    let eid = group_effect(&s, 0);
    assert_parity(&mut s, &DomainAction::LayerGroup(LayerGroupAction::ToggleEffectBypass(gid, eid)));
}

#[test]
fn parity_layer_group_adjust_effect_param() {
    let mut s = layer_group();
    let gid = group_id(&s);
    run(&mut s, DomainAction::LayerGroup(LayerGroupAction::AddEffect(gid, EffectType::Reverb)));
    let eid = group_effect(&s, 0);
    assert_parity(&mut s, &DomainAction::LayerGroup(LayerGroupAction::AdjustEffectParam(gid, eid, 0)));
}

#[test]
fn parity_layer_group_toggle_eq() {
    let mut s = layer_group();
    let gid = group_id(&s);
    assert_parity(&mut s, &DomainAction::LayerGroup(LayerGroupAction::ToggleEq(gid)));
}

// Piano roll actions

#[test]
fn parity_piano_roll_toggle_note() {
    let mut s = rich();
    assert_parity(
        &mut s,
        &DomainAction::PianoRoll(PianoRollAction::ToggleNote { pitch: 64, tick: 480, duration: 480, velocity: 100, track: 0 }),
    );
}

#[test]
fn parity_piano_roll_toggle_loop() {
    let mut s = rich();
    assert_parity(&mut s, &DomainAction::PianoRoll(PianoRollAction::ToggleLoop));
}

#[test]
fn parity_piano_roll_cycle_time_sig() {
    let mut s = rich();
    assert_parity(&mut s, &DomainAction::PianoRoll(PianoRollAction::CycleTimeSig));
}

#[test]
fn parity_piano_roll_delete_notes_in_region() {
    let mut s = rich();
    assert_parity(
        &mut s,
        &DomainAction::PianoRoll(PianoRollAction::DeleteNotesInRegion {
            track: 0,
            start_tick: 0,
            end_tick: 960,
            start_pitch: 0,
            end_pitch: 127,
        }),
    );
}

#[test]
fn parity_piano_roll_paste_notes() {
    let mut s = rich();
    let cn = ClipboardNote { tick_offset: 0, pitch_offset: 0, duration: 480, velocity: 100 };
    assert_parity(
        &mut s,
        &DomainAction::PianoRoll(PianoRollAction::PasteNotes { track: 0, anchor_tick: 1920, anchor_pitch: 72, notes: vec![cn] }),
    );
}

#[test]
fn parity_piano_roll_play_stop() {
    let mut s = rich();
    assert_parity(&mut s, &DomainAction::PianoRoll(PianoRollAction::PlayStop));
}

// Automation actions

#[test]
fn parity_automation_add_lane() {
    let mut s = one_instrument();
    let id = first_id(&s);
    assert_parity(&mut s, &DomainAction::Automation(AutomationAction::AddLane(AutomationTarget::InstrumentLevel(id))));
}

#[test]
fn parity_automation_remove_lane() {
    let mut s = rich();
    let lane_id = s.session.automation_lanes[0].id;
    assert_parity(&mut s, &DomainAction::Automation(AutomationAction::RemoveLane(lane_id)));
}

#[test]
fn parity_automation_toggle_lane_enabled() {
    let mut s = rich();
    let lane_id = s.session.automation_lanes[0].id;
    assert_parity(&mut s, &DomainAction::Automation(AutomationAction::ToggleLaneEnabled(lane_id)));
}

#[test]
fn parity_automation_toggle_lane_arm() {
    let mut s = rich();
    let lane_id = s.session.automation_lanes[0].id;
    assert_parity(&mut s, &DomainAction::Automation(AutomationAction::ToggleLaneArm(lane_id)));
}

#[test]
fn parity_automation_arm_all_lanes() {
    let mut s = rich();
    assert_parity(&mut s, &DomainAction::Automation(AutomationAction::ArmAllLanes));
}

#[test]
fn parity_automation_disarm_all_lanes() {
    let mut s = rich();
    assert_parity(&mut s, &DomainAction::Automation(AutomationAction::DisarmAllLanes));
}

// Session actions

#[test]
fn parity_session_toggle_master_mute() {
    let mut s = rich();
    assert_parity(&mut s, &DomainAction::Session(SessionAction::ToggleMasterMute));
}

// Actions the audio thread cannot apply to its copies

#[test]
fn not_projectable_arrangement() {
    assert_not_projectable(&DomainAction::Arrangement(ArrangementAction::TogglePlayMode));
}

#[test]
fn not_projectable_sequencer() {
    assert_not_projectable(&DomainAction::Sequencer(SequencerAction::PlayStop));
}

#[test]
fn not_projectable_session_new() {
    assert_not_projectable(&DomainAction::Session(SessionAction::NewProject));
}
