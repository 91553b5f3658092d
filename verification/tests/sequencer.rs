use imbolc_core::action::{AudioEffect, AudioSideEffect, FileSelectAction, NavIntent, PaneId};
use imbolc_core::sequencer::{dispatch_sequencer, DrumPattern, DrumSequencer, DrumStep, SequencerAction};
use imbolc_core::state::{AppState, ClipboardContents, SourceType};

fn setup() -> AppState {
    let mut state = AppState::new();
    state.add_instrument(SourceType::Kit);
    state.instruments.selected = Some(0);
    state
}

fn seq(state: &AppState) -> &DrumSequencer {
    state.instruments.selected_drum_sequencer().unwrap()
}

#[test]
fn toggle_step() {
    let mut state = setup();
    dispatch_sequencer(&SequencerAction::ToggleStep(0, 0), &mut state, false, &mut Vec::new());
    assert!(seq(&state).pattern().steps[0][0].active);

    dispatch_sequencer(&SequencerAction::ToggleStep(0, 0), &mut state, false, &mut Vec::new());
    assert!(!seq(&state).pattern().steps[0][0].active);
}

#[test]
fn adjust_velocity_clamps() {
    let mut state = setup();
    // Default velocity is 100
    dispatch_sequencer(&SequencerAction::AdjustVelocity(0, 0, 50), &mut state, false, &mut Vec::new());
    assert_eq!(seq(&state).pattern().steps[0][0].velocity, 127);

    dispatch_sequencer(&SequencerAction::AdjustVelocity(0, 0, -127), &mut state, false, &mut Vec::new());
    assert_eq!(seq(&state).pattern().steps[0][0].velocity, 1);
}

#[test]
fn clear_pad() {
    let mut state = setup();
    dispatch_sequencer(&SequencerAction::ToggleStep(0, 0), &mut state, false, &mut Vec::new());
    dispatch_sequencer(&SequencerAction::ToggleStep(0, 1), &mut state, false, &mut Vec::new());
    dispatch_sequencer(&SequencerAction::ClearPad(0), &mut state, false, &mut Vec::new());
    assert!(seq(&state).pattern().steps[0].iter().all(|s| !s.active));
}

#[test]
fn clear_pattern() {
    let mut state = setup();
    dispatch_sequencer(&SequencerAction::ToggleStep(0, 0), &mut state, false, &mut Vec::new());
    dispatch_sequencer(&SequencerAction::ClearPattern, &mut state, false, &mut Vec::new());
    assert!(seq(&state).pattern().steps.iter().all(|pad| pad.iter().all(|s| !s.active)));
}

#[test]
fn cycle_pattern_length() {
    let mut state = setup();
    // Default: 16
    let expected_lengths = [32, 64, 8, 16];
    for expected in expected_lengths {
        dispatch_sequencer(&SequencerAction::CyclePatternLength, &mut state, false, &mut Vec::new());
        assert_eq!(seq(&state).pattern().length, expected);
    }
}

#[test]
fn next_prev_pattern_wraps() {
    let mut state = setup();
    let n_patterns = seq(&state).patterns.len();
    for _ in 0..n_patterns {
        dispatch_sequencer(&SequencerAction::NextPattern, &mut state, false, &mut Vec::new());
    }
    assert_eq!(seq(&state).current_pattern, 0);

    dispatch_sequencer(&SequencerAction::PrevPattern, &mut state, false, &mut Vec::new());
    assert_eq!(seq(&state).current_pattern, n_patterns - 1);
}

#[test]
fn play_stop_toggles_and_resets() {
    let mut state = setup();
    dispatch_sequencer(&SequencerAction::PlayStop, &mut state, false, &mut Vec::new());
    assert!(seq(&state).playing);

    dispatch_sequencer(&SequencerAction::PlayStop, &mut state, false, &mut Vec::new());
    assert!(!seq(&state).playing);
    assert_eq!(seq(&state).current_step, 0);
}

#[test]
fn adjust_pad_pitch_clamps() {
    let mut state = setup();
    dispatch_sequencer(&SequencerAction::AdjustPadPitch(0, 50), &mut state, false, &mut Vec::new());
    assert_eq!(seq(&state).pads[0].pitch, 24);
    dispatch_sequencer(&SequencerAction::AdjustPadPitch(0, -100), &mut state, false, &mut Vec::new());
    assert_eq!(seq(&state).pads[0].pitch, -24);
}

#[test]
fn adjust_step_pitch_clamps() {
    let mut state = setup();
    dispatch_sequencer(&SequencerAction::AdjustStepPitch(0, 0, 50), &mut state, false, &mut Vec::new());
    assert_eq!(seq(&state).pattern().steps[0][0].pitch_offset, 24);
    dispatch_sequencer(&SequencerAction::AdjustStepPitch(0, 0, -100), &mut state, false, &mut Vec::new());
    assert_eq!(seq(&state).pattern().steps[0][0].pitch_offset, -24);
}

#[test]
fn chain_operations() {
    let mut state = setup();
    dispatch_sequencer(&SequencerAction::ToggleChain, &mut state, false, &mut Vec::new());
    assert!(seq(&state).chain_enabled);

    dispatch_sequencer(&SequencerAction::AddChainStep(0), &mut state, false, &mut Vec::new());
    dispatch_sequencer(&SequencerAction::AddChainStep(1), &mut state, false, &mut Vec::new());
    assert_eq!(seq(&state).chain.len(), 2);

    dispatch_sequencer(&SequencerAction::MoveChainStep(0, 1), &mut state, false, &mut Vec::new());
    assert_eq!(seq(&state).chain, vec![1, 0]);

    dispatch_sequencer(&SequencerAction::RemoveChainStep(0), &mut state, false, &mut Vec::new());
    assert_eq!(seq(&state).chain, vec![0]);

    // Out of bounds add — should be no-op (pattern index 99 doesn't exist)
    dispatch_sequencer(&SequencerAction::AddChainStep(99), &mut state, false, &mut Vec::new());
    assert_eq!(seq(&state).chain.len(), 1);
}

// ---------------------------------------------------------------------------
// Further cases
// ---------------------------------------------------------------------------

#[test]
fn new_kit_has_blank_patterns() {
    let state = setup();
    let s = seq(&state);
    assert_eq!(s.pads.len(), 12);
    assert_eq!(s.patterns.len(), 4);
    for p in &s.patterns {
        assert_eq!(p.length, 16);
        assert_eq!(p.steps.len(), 12);
        assert!(p.steps.iter().all(|row| row.len() == 16 && row.iter().all(|d| *d == DrumStep::new())));
    }
    assert_eq!(DrumStep::new().velocity, 100);
}

#[test]
fn non_kit_instrument_has_no_sequencer() {
    let mut state = AppState::new();
    state.add_instrument(SourceType::Saw);
    state.instruments.selected = Some(0);
    assert!(state.instruments.selected_drum_sequencer().is_none());
    let result = dispatch_sequencer(&SequencerAction::ToggleStep(0, 0), &mut state, false, &mut Vec::new());
    assert_eq!(result.audio_effects, vec![AudioEffect::RebuildInstruments]);
}

#[test]
fn out_of_range_step_is_ignored() {
    let mut state = setup();
    dispatch_sequencer(&SequencerAction::ToggleStep(12, 0), &mut state, false, &mut Vec::new());
    dispatch_sequencer(&SequencerAction::ToggleStep(0, 16), &mut state, false, &mut Vec::new());
    assert!(seq(&state).pattern().steps.iter().all(|pad| pad.iter().all(|s| !s.active)));
}

#[test]
fn cycle_length_keeps_leading_steps() {
    let mut state = setup();
    dispatch_sequencer(&SequencerAction::ToggleStep(1, 3), &mut state, false, &mut Vec::new());
    dispatch_sequencer(&SequencerAction::ToggleStep(1, 12), &mut state, false, &mut Vec::new());
    // 16 -> 32 -> 64 -> 8: step 12 is cut off, step 3 stays
    for _ in 0..3 {
        dispatch_sequencer(&SequencerAction::CyclePatternLength, &mut state, false, &mut Vec::new());
    }
    let p = seq(&state).pattern();
    assert_eq!(p.length, 8);
    assert!(p.steps.iter().all(|row| row.len() == 8));
    assert!(p.steps[1][3].active);
    // back to 16: the cut step stays gone
    dispatch_sequencer(&SequencerAction::CyclePatternLength, &mut state, false, &mut Vec::new());
    let p = seq(&state).pattern();
    assert!(p.steps[1][3].active);
    assert!(!p.steps[1][12].active);
}

#[test]
fn unusual_length_cycles_to_sixteen() {
    let mut s = DrumSequencer::new();
    s.patterns[0] = DrumPattern::new(12);
    s.apply(&SequencerAction::CyclePatternLength, 0);
    assert_eq!(s.pattern().length, 16);
}

#[test]
fn delete_steps_in_region() {
    let mut state = setup();
    for (p, s) in [(0, 0), (1, 1), (2, 2), (3, 3)] {
        dispatch_sequencer(&SequencerAction::ToggleStep(p, s), &mut state, false, &mut Vec::new());
    }
    dispatch_sequencer(
        &SequencerAction::DeleteStepsInRegion { start_pad: 1, end_pad: 2, start_step: 0, end_step: 99 },
        &mut state,
        false,
        &mut Vec::new(),
    );
    let p = seq(&state).pattern();
    assert!(p.steps[0][0].active);
    assert!(!p.steps[1][1].active);
    assert!(!p.steps[2][2].active);
    assert!(p.steps[3][3].active);
}

#[test]
fn copy_and_paste_steps() {
    let mut state = setup();
    dispatch_sequencer(&SequencerAction::ToggleStep(0, 1), &mut state, false, &mut Vec::new());
    dispatch_sequencer(&SequencerAction::ToggleStep(1, 2), &mut state, false, &mut Vec::new());
    dispatch_sequencer(&SequencerAction::AdjustVelocity(1, 2, -20), &mut state, false, &mut Vec::new());
    let result = dispatch_sequencer(
        &SequencerAction::CopySteps { start_pad: 0, end_pad: 1, start_step: 1, end_step: 3 },
        &mut state,
        false,
        &mut Vec::new(),
    );
    assert!(result.audio_effects.is_empty());
    let clip = match state.clipboard.clone() {
        Some(ClipboardContents::DrumSteps(steps)) => steps,
        _ => panic!("expected drum steps on the clipboard"),
    };
    assert_eq!(clip.len(), 2);
    assert_eq!((clip[0].0, clip[0].1), (0, 0));
    assert_eq!((clip[1].0, clip[1].1, clip[1].2.velocity), (1, 1, 80));

    dispatch_sequencer(&SequencerAction::PasteSteps { anchor_pad: 10, anchor_step: 14, steps: clip }, &mut state, false, &mut Vec::new());
    let p = seq(&state).pattern();
    assert!(p.steps[10][14].active);
    assert!(p.steps[11][15].active);
    assert_eq!(p.steps[11][15].velocity, 80);
}

#[test]
fn paste_skips_steps_outside_grid() {
    let mut state = setup();
    let mut d = DrumStep::new();
    d.active = true;
    dispatch_sequencer(
        &SequencerAction::PasteSteps { anchor_pad: 11, anchor_step: 15, steps: vec![(0, 0, d), (1, 0, d), (0, 1, d)] },
        &mut state,
        false,
        &mut Vec::new(),
    );
    let p = seq(&state).pattern();
    let active: usize = p.steps.iter().map(|row| row.iter().filter(|s| s.active).count()).sum();
    assert_eq!(active, 1);
    assert!(p.steps[11][15].active);
}

#[test]
fn copy_of_empty_region_keeps_clipboard() {
    let mut state = setup();
    state.clipboard = Some(ClipboardContents::DrumSteps(vec![(0, 0, DrumStep::new())]));
    dispatch_sequencer(
        &SequencerAction::CopySteps { start_pad: 0, end_pad: 11, start_step: 0, end_step: 15 },
        &mut state,
        false,
        &mut Vec::new(),
    );
    match &state.clipboard {
        Some(ClipboardContents::DrumSteps(steps)) => assert_eq!(steps.len(), 1),
        _ => panic!("expected drum steps on the clipboard"),
    }
}

#[test]
fn load_sample_opens_file_browser() {
    let mut state = setup();
    let result = dispatch_sequencer(&SequencerAction::LoadSample(3), &mut state, false, &mut Vec::new());
    assert_eq!(result.nav, vec![NavIntent::OpenFileBrowser(FileSelectAction::LoadDrumSample(3))]);
    assert!(result.audio_effects.is_empty());
}

#[test]
fn load_sample_result_assigns_buffer() {
    let mut state = setup();
    let first = state.instruments.next_sampler_buffer_id;
    let result = dispatch_sequencer(&SequencerAction::LoadSampleResult(2), &mut state, false, &mut Vec::new());
    assert_eq!(seq(&state).pads[2].buffer_id, Some(first));
    assert_eq!(state.instruments.next_sampler_buffer_id, first + 1);
    assert_eq!(result.nav, vec![NavIntent::Pop]);
    assert_eq!(result.audio_effects, vec![AudioEffect::RebuildInstruments]);
}

#[test]
fn load_sample_result_loads_the_buffer_when_running() {
    let mut state = setup();
    let first = state.instruments.next_sampler_buffer_id;
    let mut effects = Vec::new();
    dispatch_sequencer(&SequencerAction::LoadSampleResult(1), &mut state, true, &mut effects);
    assert_eq!(effects, vec![AudioSideEffect::LoadSample { buffer_id: first }]);
    let mut none = Vec::new();
    dispatch_sequencer(&SequencerAction::LoadSampleResult(1), &mut state, false, &mut none);
    assert!(none.is_empty());
}

#[test]
fn pad_instrument_replaces_sample() {
    let mut state = setup();
    dispatch_sequencer(&SequencerAction::LoadSampleResult(0), &mut state, false, &mut Vec::new());
    dispatch_sequencer(&SequencerAction::SetPadInstrument(0, 7), &mut state, false, &mut Vec::new());
    assert_eq!(seq(&state).pads[0].buffer_id, None);
    assert_eq!(seq(&state).pads[0].instrument_id, Some(7));
    dispatch_sequencer(&SequencerAction::ClearPadInstrument(0), &mut state, false, &mut Vec::new());
    assert_eq!(seq(&state).pads[0].instrument_id, None);
}

#[test]
fn open_instrument_picker_sets_editing_pad() {
    let mut state = setup();
    let result = dispatch_sequencer(&SequencerAction::OpenInstrumentPicker(5), &mut state, false, &mut Vec::new());
    assert_eq!(seq(&state).editing_pad, Some(5));
    assert_eq!(result.nav, vec![NavIntent::PushTo(PaneId::InstrumentPicker)]);
}

#[test]
fn toggle_reverse_twice() {
    let mut state = setup();
    dispatch_sequencer(&SequencerAction::ToggleReverse(4), &mut state, false, &mut Vec::new());
    assert!(seq(&state).pads[4].reverse);
    dispatch_sequencer(&SequencerAction::ToggleReverse(4), &mut state, false, &mut Vec::new());
    assert!(!seq(&state).pads[4].reverse);
}

#[test]
fn toggle_chain_resets_position() {
    let mut state = setup();
    let i = state.instruments.selected.unwrap();
    state.instruments.instruments[i].drum_sequencer.as_mut().unwrap().chain_position = 3;
    dispatch_sequencer(&SequencerAction::ToggleChain, &mut state, false, &mut Vec::new());
    assert_eq!(seq(&state).chain_position, 0);
}

#[test]
fn move_chain_step_out_of_range_is_noop() {
    let mut state = setup();
    dispatch_sequencer(&SequencerAction::AddChainStep(2), &mut state, false, &mut Vec::new());
    dispatch_sequencer(&SequencerAction::AddChainStep(3), &mut state, false, &mut Vec::new());
    dispatch_sequencer(&SequencerAction::MoveChainStep(0, 5), &mut state, false, &mut Vec::new());
    assert_eq!(seq(&state).chain, vec![2, 3]);
    dispatch_sequencer(&SequencerAction::RemoveChainStep(2), &mut state, false, &mut Vec::new());
    assert_eq!(seq(&state).chain, vec![2, 3]);
}
