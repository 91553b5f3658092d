use imbolc_core::action::{AudioEffect, NavIntent};
use imbolc_core::bus::{dispatch_bus, dispatch_layer_group, BusAction, LayerGroupAction};
use imbolc_core::state::{
    AppState, AutomationLane, AutomationTarget, BusId, EffectType, MixerBus, MixerSend, OutputTarget,
    SourceType, TapPoint,
};

fn setup() -> AppState {
    AppState::new()
}

fn bus(state: &AppState, id: BusId) -> &MixerBus {
    let i = state.session.mixer.bus_index(id).unwrap();
    &state.session.mixer.buses[i]
}

#[test]
fn add_bus() {
    let mut state = setup();
    let initial_count = state.session.mixer.buses.len();

    dispatch_bus(&BusAction::Add, &mut state);

    assert_eq!(state.session.mixer.buses.len(), initial_count + 1);
}

#[test]
fn add_bus_creates_bus() {
    let mut state = setup();
    state.add_instrument(SourceType::Saw);
    let initial_bus_count = state.session.mixer.buses.len();

    dispatch_bus(&BusAction::Add, &mut state);

    assert_eq!(state.session.mixer.buses.len(), initial_bus_count + 1);
    // Sends are lazily created now, so instrument sends remain empty
    assert!(state.instruments.instruments[0].sends.is_empty());
}

#[test]
fn remove_bus_resets_instrument_output() {
    let mut state = setup();
    state.add_instrument(SourceType::Saw);
    state.instruments.instruments[0].output_target = OutputTarget::Bus(3);

    dispatch_bus(&BusAction::Remove(3), &mut state);

    assert_eq!(state.instruments.instruments[0].output_target, OutputTarget::Master);
}

#[test]
fn remove_bus_disables_sends() {
    let mut state = setup();
    state.add_instrument(SourceType::Saw);
    // Insert and enable a send to bus 3
    state.instruments.instruments[0].sends.push(MixerSend {
        bus_id: 3,
        enabled: true,
        tap_point: TapPoint::PostFader,
    });

    dispatch_bus(&BusAction::Remove(3), &mut state);

    // Send should be disabled but still exist
    let send = state.instruments.instruments[0].sends.iter().find(|s| s.bus_id == 3);
    assert!(send.is_some());
    assert!(!send.unwrap().enabled);
}

#[test]
fn remove_bus_clears_automation() {
    let mut state = setup();
    state.session.automation_lanes.push(AutomationLane {
        id: 0,
        target: AutomationTarget::BusLevel(3),
        enabled: true,
        record_armed: false,
    });
    assert!(!state.session.automation_lanes.is_empty());

    dispatch_bus(&BusAction::Remove(3), &mut state);

    assert!(state.session.automation_lanes.is_empty());
}

#[test]
fn rename_bus() {
    let mut state = setup();

    dispatch_bus(&BusAction::Rename(1, "Drums".to_string()), &mut state);

    assert_eq!(bus(&state, 1).name, "Drums");
}

#[test]
fn bus_add_effect_dispatch() {
    let mut state = setup();
    let result = dispatch_bus(&BusAction::AddEffect(1, EffectType::Reverb), &mut state);
    let b = bus(&state, 1);
    assert_eq!(b.effect_chain.effects.len(), 1);
    assert_eq!(b.effect_chain.effects[0].effect_type, EffectType::Reverb);
    assert!(result.audio_effects.contains(&AudioEffect::RebuildBusProcessing));
}

#[test]
fn bus_remove_effect_dispatch() {
    let mut state = setup();
    dispatch_bus(&BusAction::AddEffect(1, EffectType::Reverb), &mut state);
    let effect_id = bus(&state, 1).effect_chain.effects[0].id;

    let result = dispatch_bus(&BusAction::RemoveEffect(1, effect_id), &mut state);
    assert!(bus(&state, 1).effect_chain.effects.is_empty());
    assert!(result.audio_effects.contains(&AudioEffect::RebuildBusProcessing));
}

#[test]
fn bus_move_effect_dispatch() {
    let mut state = setup();
    dispatch_bus(&BusAction::AddEffect(1, EffectType::Reverb), &mut state);
    dispatch_bus(&BusAction::AddEffect(1, EffectType::Delay), &mut state);
    let id0 = bus(&state, 1).effect_chain.effects[0].id;

    dispatch_bus(&BusAction::MoveEffect(1, id0, 1), &mut state);
    assert_eq!(bus(&state, 1).effect_chain.effects[1].id, id0);
}

#[test]
fn bus_toggle_effect_bypass_dispatch() {
    let mut state = setup();
    dispatch_bus(&BusAction::AddEffect(1, EffectType::Reverb), &mut state);
    let effect_id = bus(&state, 1).effect_chain.effects[0].id;
    assert!(bus(&state, 1).effect_chain.effects[0].enabled);

    dispatch_bus(&BusAction::ToggleEffectBypass(1, effect_id), &mut state);
    assert!(!bus(&state, 1).effect_chain.effects[0].enabled);
}

#[test]
fn layer_group_add_effect_dispatch() {
    let mut state = setup();
    state.session.mixer.add_layer_group_mixer(1, &vec![1, 2]);

    let result = dispatch_layer_group(&LayerGroupAction::AddEffect(1, EffectType::TapeComp), &mut state);
    let i = state.session.mixer.group_index(1).unwrap();
    let gm = &state.session.mixer.layer_group_mixers[i];
    assert_eq!(gm.effect_chain.effects.len(), 1);
    assert_eq!(gm.effect_chain.effects[0].effect_type, EffectType::TapeComp);
    assert!(result.audio_effects.contains(&AudioEffect::RebuildBusProcessing));
}

#[test]
fn layer_group_remove_effect_dispatch() {
    let mut state = setup();
    state.session.mixer.add_layer_group_mixer(1, &vec![]);
    let i = state.session.mixer.group_index(1).unwrap();
    state.session.mixer.layer_group_mixers[i].effect_chain.add_effect(EffectType::Limiter);
    let effect_id = state.session.mixer.layer_group_mixers[i].effect_chain.effects[0].id;

    dispatch_layer_group(&LayerGroupAction::RemoveEffect(1, effect_id), &mut state);
    assert!(state.session.mixer.layer_group_mixers[i].effect_chain.effects.is_empty());
}

#[test]
fn layer_group_toggle_bypass_dispatch() {
    let mut state = setup();
    state.session.mixer.add_layer_group_mixer(1, &vec![]);
    let i = state.session.mixer.group_index(1).unwrap();
    state.session.mixer.layer_group_mixers[i].effect_chain.add_effect(EffectType::Reverb);
    let effect_id = state.session.mixer.layer_group_mixers[i].effect_chain.effects[0].id;

    dispatch_layer_group(&LayerGroupAction::ToggleEffectBypass(1, effect_id), &mut state);
    assert!(!state.session.mixer.layer_group_mixers[i].effect_chain.effects[0].enabled);
}

#[test]
fn layer_group_toggle_eq_dispatch() {
    let mut state = setup();
    state.session.mixer.add_layer_group_mixer(1, &vec![]);
    let i = state.session.mixer.group_index(1).unwrap();
    assert!(state.session.mixer.layer_group_mixers[i].eq_enabled);

    let result = dispatch_layer_group(&LayerGroupAction::ToggleEq(1), &mut state);
    assert!(!state.session.mixer.layer_group_mixers[i].eq_enabled);
    assert!(result.audio_effects.contains(&AudioEffect::RebuildBusProcessing));
    assert!(result.audio_effects.contains(&AudioEffect::RebuildSession));

    dispatch_layer_group(&LayerGroupAction::ToggleEq(1), &mut state);
    assert!(state.session.mixer.layer_group_mixers[i].eq_enabled);
}

// ---------------------------------------------------------------------------
// Further cases
// ---------------------------------------------------------------------------

#[test]
fn new_session_has_eight_named_buses() {
    let state = setup();
    assert_eq!(state.session.mixer.buses.len(), 8);
    for (i, b) in state.session.mixer.buses.iter().enumerate() {
        assert_eq!(b.id as usize, i + 1);
        assert_eq!(b.name, format!("Bus {}", i + 1));
    }
}

#[test]
fn add_bus_takes_next_id_and_default_name() {
    let mut state = setup();
    let result = dispatch_bus(&BusAction::Add, &mut state);
    let last = state.session.mixer.buses.last().unwrap();
    assert_eq!(last.id, 9);
    assert_eq!(last.name, "Bus 9");
    assert_eq!(
        result.audio_effects,
        vec![AudioEffect::RebuildRouting, AudioEffect::RebuildSession]
    );
    assert!(result.nav.is_empty());
}

#[test]
fn add_bus_after_removal_uses_max_plus_one() {
    let mut state = setup();
    dispatch_bus(&BusAction::Remove(4), &mut state);
    dispatch_bus(&BusAction::Add, &mut state);
    let ids: Vec<BusId> = state.session.mixer.buses.iter().map(|b| b.id).collect();
    assert_eq!(ids, vec![1, 2, 3, 5, 6, 7, 8, 9]);
}

#[test]
fn add_bus_stops_at_max_id() {
    let mut state = setup();
    state.session.mixer.buses.push(MixerBus::new(255));
    let before = state.session.mixer.buses.len();
    dispatch_bus(&BusAction::Add, &mut state);
    assert_eq!(state.session.mixer.buses.len(), before);
}

#[test]
fn remove_missing_bus_is_noop_without_effects() {
    let mut state = setup();
    let result = dispatch_bus(&BusAction::Remove(42), &mut state);
    assert_eq!(state.session.mixer.buses.len(), 8);
    assert!(result.audio_effects.is_empty());
}

#[test]
fn remove_bus_keeps_other_lanes_and_sends() {
    let mut state = setup();
    state.add_instrument(SourceType::Saw);
    state.instruments.instruments[0].output_target = OutputTarget::Bus(2);
    state.instruments.instruments[0].sends.push(MixerSend { bus_id: 2, enabled: true, tap_point: TapPoint::PreFader });
    state.session.automation_lanes.push(AutomationLane { id: 0, target: AutomationTarget::SendLevel(1, 3), enabled: true, record_armed: false });
    state.session.automation_lanes.push(AutomationLane { id: 1, target: AutomationTarget::BusLevel(2), enabled: true, record_armed: false });
    state.session.automation_lanes.push(AutomationLane { id: 2, target: AutomationTarget::InstrumentLevel(1), enabled: true, record_armed: false });

    let result = dispatch_bus(&BusAction::Remove(3), &mut state);

    assert_eq!(result.audio_effects, vec![AudioEffect::RebuildRouting, AudioEffect::RebuildSession]);
    assert!(state.session.mixer.bus_index(3).is_none());
    assert_eq!(state.instruments.instruments[0].output_target, OutputTarget::Bus(2));
    assert!(state.instruments.instruments[0].sends[0].enabled);
    let ids: Vec<u32> = state.session.automation_lanes.iter().map(|l| l.id).collect();
    assert_eq!(ids, vec![1, 2]);
}

#[test]
fn rename_missing_bus_changes_nothing() {
    let mut state = setup();
    let result = dispatch_bus(&BusAction::Rename(77, "X".to_string()), &mut state);
    assert!(state.session.mixer.buses.iter().all(|b| b.name != "X"));
    assert!(result.audio_effects.is_empty());
}

#[test]
fn bus_add_effect_pops_navigation() {
    let mut state = setup();
    let result = dispatch_bus(&BusAction::AddEffect(2, EffectType::Delay), &mut state);
    assert_eq!(result.nav, vec![NavIntent::Pop]);
    assert_eq!(
        result.audio_effects,
        vec![AudioEffect::RebuildBusProcessing, AudioEffect::RebuildSession]
    );
}

#[test]
fn bus_effects_get_distinct_ids() {
    let mut state = setup();
    dispatch_bus(&BusAction::AddEffect(1, EffectType::Reverb), &mut state);
    dispatch_bus(&BusAction::AddEffect(1, EffectType::Delay), &mut state);
    dispatch_bus(&BusAction::AddEffect(1, EffectType::Gate), &mut state);
    let ids: Vec<u32> = bus(&state, 1).effect_chain.effects.iter().map(|e| e.id).collect();
    assert_eq!(ids, vec![0, 1, 2]);
}

#[test]
fn bus_move_effect_clamps_at_ends() {
    let mut state = setup();
    dispatch_bus(&BusAction::AddEffect(1, EffectType::Reverb), &mut state);
    dispatch_bus(&BusAction::AddEffect(1, EffectType::Delay), &mut state);
    dispatch_bus(&BusAction::AddEffect(1, EffectType::Gate), &mut state);
    dispatch_bus(&BusAction::MoveEffect(1, 0, 100), &mut state);
    let ids: Vec<u32> = bus(&state, 1).effect_chain.effects.iter().map(|e| e.id).collect();
    assert_eq!(ids, vec![1, 2, 0]);
    dispatch_bus(&BusAction::MoveEffect(1, 0, -128), &mut state);
    let ids: Vec<u32> = bus(&state, 1).effect_chain.effects.iter().map(|e| e.id).collect();
    assert_eq!(ids, vec![0, 1, 2]);
}

#[test]
fn remove_then_add_effect_restores_chain() {
    let mut state = setup();
    dispatch_bus(&BusAction::AddEffect(1, EffectType::Reverb), &mut state);
    let before: Vec<u32> = bus(&state, 1).effect_chain.effects.iter().map(|e| e.id).collect();
    dispatch_bus(&BusAction::AddEffect(1, EffectType::Delay), &mut state);
    let added = bus(&state, 1).effect_chain.effects[1].id;
    dispatch_bus(&BusAction::RemoveEffect(1, added), &mut state);
    let after: Vec<u32> = bus(&state, 1).effect_chain.effects.iter().map(|e| e.id).collect();
    assert_eq!(before, after);
}

#[test]
fn layer_group_actions_on_missing_group_change_nothing() {
    let mut state = setup();
    let result = dispatch_layer_group(&LayerGroupAction::ToggleEq(5), &mut state);
    assert!(state.session.mixer.layer_group_mixers.is_empty());
    assert_eq!(
        result.audio_effects,
        vec![AudioEffect::RebuildBusProcessing, AudioEffect::RebuildSession]
    );
}

#[test]
fn layer_group_strip_has_disabled_send_per_bus() {
    let mut state = setup();
    state.session.mixer.add_layer_group_mixer(3, &vec![1, 2]);
    state.session.mixer.add_layer_group_mixer(3, &vec![4]);
    assert_eq!(state.session.mixer.layer_group_mixers.len(), 1);
    let gm = &state.session.mixer.layer_group_mixers[0];
    let ids: Vec<BusId> = gm.sends.iter().map(|s| s.bus_id).collect();
    assert_eq!(ids, vec![1, 2]);
    assert!(gm.sends.iter().all(|s| !s.enabled && s.tap_point == TapPoint::PostFader));
    assert_eq!(gm.output_target, OutputTarget::Master);
}

#[test]
fn adjust_bus_effect_param_rebuilds_the_session() {
    let mut state = setup();
    dispatch_bus(&BusAction::AddEffect(1, EffectType::Reverb), &mut state);
    let effects_before = bus(&state, 1).effect_chain.effects.len();
    let result = dispatch_bus(&BusAction::AdjustEffectParam(1, 0, 0), &mut state);
    assert_eq!(result.audio_effects, vec![AudioEffect::RebuildSession]);
    assert!(result.nav.is_empty());
    assert_eq!(bus(&state, 1).effect_chain.effects.len(), effects_before);
}

#[test]
fn adjust_layer_group_effect_param_rebuilds_the_session() {
    let mut state = setup();
    let result = dispatch_layer_group(&LayerGroupAction::AdjustEffectParam(1, 0, 0), &mut state);
    assert_eq!(result.audio_effects, vec![AudioEffect::RebuildSession]);
    assert!(result.nav.is_empty());
}
