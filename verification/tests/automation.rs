use imbolc_core::action::AudioEffect;
use imbolc_core::automation::{dispatch_automation, AutomationAction};
use imbolc_core::state::{AppState, AutomationLane, AutomationTarget};

fn setup() -> AppState {
    AppState::new()
}

fn add_lane(state: &mut AppState, target: AutomationTarget) -> u32 {
    dispatch_automation(&AutomationAction::AddLane(target), state);
    state.session.automation_lanes.iter().find(|l| l.target == target).unwrap().id
}

fn lane(state: &AppState, id: u32) -> &AutomationLane {
    state.session.automation_lanes.iter().find(|l| l.id == id).unwrap()
}

#[test]
fn add_lane_creates_and_is_idempotent() {
    let mut state = setup();
    let target = AutomationTarget::InstrumentLevel(0);
    let result = dispatch_automation(&AutomationAction::AddLane(target), &mut state);
    assert!(result.audio_effects.contains(&AudioEffect::UpdateAutomation));
    assert_eq!(state.session.automation_lanes.len(), 1);

    // Adding same target again doesn't create new lane
    dispatch_automation(&AutomationAction::AddLane(target), &mut state);
    assert_eq!(state.session.automation_lanes.len(), 1);
}

#[test]
fn remove_lane() {
    let mut state = setup();
    let id = add_lane(&mut state, AutomationTarget::InstrumentLevel(0));
    assert_eq!(state.session.automation_lanes.len(), 1);
    dispatch_automation(&AutomationAction::RemoveLane(id), &mut state);
    assert!(state.session.automation_lanes.is_empty());
}

#[test]
fn toggle_lane_enabled() {
    let mut state = setup();
    let id = add_lane(&mut state, AutomationTarget::InstrumentLevel(0));
    assert!(lane(&state, id).enabled);
    dispatch_automation(&AutomationAction::ToggleLaneEnabled(id), &mut state);
    assert!(!lane(&state, id).enabled);
}

#[test]
fn arm_all_and_disarm_all() {
    let mut state = setup();
    add_lane(&mut state, AutomationTarget::InstrumentLevel(0));
    add_lane(&mut state, AutomationTarget::InstrumentPan(0));

    dispatch_automation(&AutomationAction::ArmAllLanes, &mut state);
    assert!(state.session.automation_lanes.iter().all(|l| l.record_armed));

    dispatch_automation(&AutomationAction::DisarmAllLanes, &mut state);
    assert!(state.session.automation_lanes.iter().all(|l| !l.record_armed));
}

#[test]
fn toggle_lane_arm() {
    let mut state = setup();
    let id = add_lane(&mut state, AutomationTarget::InstrumentLevel(0));
    assert!(!lane(&state, id).record_armed);
    dispatch_automation(&AutomationAction::ToggleLaneArm(id), &mut state);
    assert!(lane(&state, id).record_armed);
}

// ---------------------------------------------------------------------------
// Further cases
// ---------------------------------------------------------------------------

#[test]
fn lane_ids_count_up_and_are_not_reused() {
    let mut state = setup();
    let a = add_lane(&mut state, AutomationTarget::InstrumentLevel(1));
    let b = add_lane(&mut state, AutomationTarget::BusLevel(2));
    assert_eq!((a, b), (0, 1));
    dispatch_automation(&AutomationAction::RemoveLane(a), &mut state);
    let c = add_lane(&mut state, AutomationTarget::InstrumentLevel(1));
    assert_eq!(c, 2);
}

#[test]
fn actions_on_missing_lane_change_nothing() {
    let mut state = setup();
    add_lane(&mut state, AutomationTarget::InstrumentLevel(1));
    let before = state.session.automation_lanes.clone();
    dispatch_automation(&AutomationAction::RemoveLane(42), &mut state);
    dispatch_automation(&AutomationAction::ToggleLaneEnabled(42), &mut state);
    let r = dispatch_automation(&AutomationAction::ToggleLaneArm(42), &mut state);
    assert_eq!(state.session.automation_lanes, before);
    assert!(r.audio_effects.is_empty());
}
