use imbolc_core::action::{AudioEffect, AudioSideEffect, FileSelectAction, NavIntent, PaneId};
use imbolc_core::chopper::{dispatch_chopper, ChopperAction, Slice, SAMPLE_END, SAMPLE_START};
use imbolc_core::state::{AppState, SourceType};

fn key(x: f32) -> u32 {
    x.to_bits()
}

fn kit_state() -> AppState {
    let mut state = AppState::new();
    state.add_instrument(SourceType::Kit);
    state.instruments.selected = Some(0);
    state
}

fn run(action: ChopperAction, state: &mut AppState) -> imbolc_core::action::DispatchResult {
    let mut effects = Vec::new();
    dispatch_chopper(&action, state, false, &mut effects)
}

fn slices(state: &AppState) -> Vec<Slice> {
    state.instruments.instruments[0].drum_sequencer.as_ref().unwrap().chopper.as_ref().unwrap().slices.clone()
}

fn selected(state: &AppState) -> usize {
    state.instruments.instruments[0].drum_sequencer.as_ref().unwrap().chopper.as_ref().unwrap().selected_slice
}

#[test]
fn load_sample_opens_browser_and_result_makes_one_slice() {
    let mut state = kit_state();
    let r = run(ChopperAction::LoadSample, &mut state);
    assert_eq!(r.nav, vec![NavIntent::OpenFileBrowser(FileSelectAction::LoadChopperSample)]);
    state.instruments.next_sampler_buffer_id = 4;
    let mut effects = Vec::new();
    let r = dispatch_chopper(&ChopperAction::LoadSampleResult, &mut state, true, &mut effects);
    assert_eq!(effects, vec![AudioSideEffect::LoadSample { buffer_id: 4 }]);
    assert_eq!(r.nav, vec![NavIntent::ConditionalPop(PaneId::FileBrowser)]);
    assert_eq!(r.audio_effects, vec![AudioEffect::RebuildInstruments]);
    assert_eq!(state.instruments.next_sampler_buffer_id, 5);
    assert_eq!(slices(&state), vec![Slice { id: 0, start: SAMPLE_START, end: SAMPLE_END }]);
    assert_eq!(key(0.0), SAMPLE_START);
    assert_eq!(key(1.0), SAMPLE_END);
}

#[test]
fn add_slice_cuts_the_slice_under_the_cursor() {
    let mut state = kit_state();
    run(ChopperAction::LoadSampleResult, &mut state);
    run(ChopperAction::AddSlice(key(0.5)), &mut state);
    assert_eq!(
        slices(&state),
        vec![Slice { id: 0, start: key(0.0), end: key(0.5) }, Slice { id: 1, start: key(0.5), end: key(1.0) }]
    );
    assert_eq!(selected(&state), 1);
    run(ChopperAction::AddSlice(key(0.25)), &mut state);
    assert_eq!(slices(&state)[1], Slice { id: 2, start: key(0.25), end: key(0.5) });
    assert_eq!(selected(&state), 1);
}

#[test]
fn remove_slice_merges_into_a_neighbour() {
    let mut state = kit_state();
    run(ChopperAction::LoadSampleResult, &mut state);
    run(ChopperAction::AddSlice(key(0.5)), &mut state);
    run(ChopperAction::RemoveSlice, &mut state);
    assert_eq!(slices(&state), vec![Slice { id: 0, start: key(0.0), end: key(1.0) }]);
    assert_eq!(selected(&state), 0);
    run(ChopperAction::RemoveSlice, &mut state);
    assert_eq!(slices(&state).len(), 1);
    run(ChopperAction::AddSlice(key(0.5)), &mut state);
    run(ChopperAction::SelectSlice(-1), &mut state);
    assert_eq!(selected(&state), 0);
    run(ChopperAction::RemoveSlice, &mut state);
    assert_eq!(slices(&state), vec![Slice { id: 2, start: key(0.0), end: key(1.0) }]);
}

#[test]
fn select_slice_wraps() {
    let mut state = kit_state();
    run(ChopperAction::LoadSampleResult, &mut state);
    run(ChopperAction::AddSlice(key(0.5)), &mut state);
    run(ChopperAction::AddSlice(key(0.75)), &mut state);
    assert_eq!(selected(&state), 2);
    run(ChopperAction::SelectSlice(1), &mut state);
    assert_eq!(selected(&state), 0);
    run(ChopperAction::SelectSlice(-1), &mut state);
    assert_eq!(selected(&state), 2);
    run(ChopperAction::SelectSlice(-7), &mut state);
    assert_eq!(selected(&state), 1);
}

#[test]
fn assign_and_commit_copy_slices_to_pads() {
    let mut state = kit_state();
    state.instruments.next_sampler_buffer_id = 8;
    run(ChopperAction::LoadSampleResult, &mut state);
    run(ChopperAction::AddSlice(key(0.5)), &mut state);
    run(ChopperAction::AssignToPad(3), &mut state);
    {
        let pad = state.instruments.instruments[0].drum_sequencer.as_ref().unwrap().pads[3];
        assert_eq!(pad.buffer_id, Some(8));
        assert_eq!((pad.slice_start, pad.slice_end), (key(0.5), key(1.0)));
    }
    let r = run(ChopperAction::CommitAll, &mut state);
    assert_eq!(r.nav, vec![NavIntent::Pop]);
    let pads = &state.instruments.instruments[0].drum_sequencer.as_ref().unwrap().pads;
    assert_eq!((pads[0].slice_start, pads[0].slice_end), (key(0.0), key(0.5)));
    assert_eq!((pads[1].slice_start, pads[1].slice_end), (key(0.5), key(1.0)));
    assert_eq!(pads[2].buffer_id, None);
}

#[test]
fn chopper_without_kit_changes_nothing() {
    let mut state = AppState::new();
    state.add_instrument(SourceType::Saw);
    state.instruments.selected = Some(0);
    let r = run(ChopperAction::LoadSampleResult, &mut state);
    assert!(state.instruments.instruments[0].drum_sequencer.is_none());
    assert_eq!(state.instruments.next_sampler_buffer_id, 1);
    assert_eq!(r.audio_effects, vec![AudioEffect::RebuildInstruments]);
}
