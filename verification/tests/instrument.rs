use imbolc_core::action::{AudioEffect, NavIntent, PaneId};
use imbolc_core::chopper::{ChopperState, Slice, SAMPLE_END, SAMPLE_START};
use imbolc_core::instrument::{dispatch_instrument, instrument_buffer_ids, InstrumentAction};
use imbolc_core::state::{
    AppState, AutomationLane, AutomationTarget, EffectType, FilterType, Instrument, InstrumentId, SourceType,
};

fn inst(state: &AppState, id: InstrumentId) -> &Instrument {
    let k = state.instruments.index_of(id).unwrap();
    &state.instruments.instruments[k]
}

#[test]
fn adjust_layer_octave_offset_increments() {
    let mut state = AppState::new();
    let id = state.add_instrument(SourceType::Saw);
    assert_eq!(inst(&state, id).layer_octave_offset, 0);

    dispatch_instrument(&InstrumentAction::AdjustLayerOctaveOffset(id, 1), &mut state);
    assert_eq!(inst(&state, id).layer_octave_offset, 1);

    dispatch_instrument(&InstrumentAction::AdjustLayerOctaveOffset(id, 1), &mut state);
    assert_eq!(inst(&state, id).layer_octave_offset, 2);
}

#[test]
fn adjust_layer_octave_offset_decrements() {
    let mut state = AppState::new();
    let id = state.add_instrument(SourceType::Saw);

    dispatch_instrument(&InstrumentAction::AdjustLayerOctaveOffset(id, -1), &mut state);
    assert_eq!(inst(&state, id).layer_octave_offset, -1);
}

#[test]
fn adjust_layer_octave_offset_clamps_high() {
    let mut state = AppState::new();
    let id = state.add_instrument(SourceType::Saw);

    for _ in 0..10 {
        dispatch_instrument(&InstrumentAction::AdjustLayerOctaveOffset(id, 1), &mut state);
    }
    assert_eq!(inst(&state, id).layer_octave_offset, 4);
}

#[test]
fn adjust_layer_octave_offset_clamps_low() {
    let mut state = AppState::new();
    let id = state.add_instrument(SourceType::Saw);

    for _ in 0..10 {
        dispatch_instrument(&InstrumentAction::AdjustLayerOctaveOffset(id, -1), &mut state);
    }
    assert_eq!(inst(&state, id).layer_octave_offset, -4);
}

#[test]
fn adjust_layer_octave_offset_no_audio_effects() {
    let mut state = AppState::new();
    let id = state.add_instrument(SourceType::Saw);

    let result = dispatch_instrument(&InstrumentAction::AdjustLayerOctaveOffset(id, 1), &mut state);
    assert!(!result.audio_effects.contains(&AudioEffect::RebuildInstruments));
    assert!(!result.audio_effects.contains(&AudioEffect::RebuildRouting));
}

// ---------------------------------------------------------------------------
// Further cases
// ---------------------------------------------------------------------------

#[test]
fn add_instrument_reports_routing_and_navigation() {
    let mut state = AppState::new();
    let result = dispatch_instrument(&InstrumentAction::Add(SourceType::Saw), &mut state);
    assert_eq!(state.instruments.instruments.len(), 1);
    assert_eq!(state.instruments.instruments[0].id, 1);
    assert_eq!(state.instruments.next_id, 2);
    assert_eq!(
        result.audio_effects,
        vec![AudioEffect::RebuildInstruments, AudioEffect::UpdatePianoRoll, AudioEffect::AddInstrumentRouting(1)]
    );
    assert_eq!(result.nav, vec![NavIntent::SwitchTo(PaneId::InstrumentEdit)]);
}

#[test]
fn kit_instruments_get_a_sequencer() {
    let mut state = AppState::new();
    state.add_instrument(SourceType::Kit);
    state.add_instrument(SourceType::Sampler);
    assert!(state.instruments.instruments[0].drum_sequencer.is_some());
    assert!(state.instruments.instruments[1].drum_sequencer.is_none());
}

#[test]
fn delete_last_instrument_clamps_selection_and_drops_lanes() {
    let mut state = AppState::new();
    let a = state.add_instrument(SourceType::Saw);
    let b = state.add_instrument(SourceType::Sin);
    state.instruments.selected = Some(1);
    state.session.automation_lanes.push(AutomationLane { id: 0, target: AutomationTarget::InstrumentLevel(b), enabled: true, record_armed: false });
    state.session.automation_lanes.push(AutomationLane { id: 1, target: AutomationTarget::InstrumentPan(a), enabled: true, record_armed: false });
    state.session.automation_lanes.push(AutomationLane { id: 2, target: AutomationTarget::BusLevel(1), enabled: true, record_armed: false });

    let result = dispatch_instrument(&InstrumentAction::Delete(b), &mut state);
    assert_eq!(state.instruments.instruments.len(), 1);
    assert_eq!(state.instruments.selected, Some(0));
    let ids: Vec<u32> = state.session.automation_lanes.iter().map(|l| l.id).collect();
    assert_eq!(ids, vec![1, 2]);
    assert!(result.audio_effects.contains(&AudioEffect::DeleteInstrumentRouting(b)));
    assert!(result.nav.is_empty());

    let result = dispatch_instrument(&InstrumentAction::Delete(a), &mut state);
    assert!(state.instruments.instruments.is_empty());
    assert_eq!(state.instruments.selected, None);
    assert_eq!(result.nav, vec![NavIntent::SwitchTo(PaneId::Add)]);
}

#[test]
fn instrument_effects_round_trip() {
    let mut state = AppState::new();
    let id = state.add_instrument(SourceType::Saw);
    let result = dispatch_instrument(&InstrumentAction::AddEffect(id, EffectType::Delay), &mut state);
    assert_eq!(result.nav, vec![NavIntent::Pop]);
    assert_eq!(
        result.audio_effects,
        vec![AudioEffect::RebuildInstruments, AudioEffect::RebuildRoutingForInstrument(id)]
    );
    let e = inst(&state, id).effects.effects[0].id;
    dispatch_instrument(&InstrumentAction::ToggleEffectBypass(id, e), &mut state);
    assert!(!inst(&state, id).effects.effects[0].enabled);
    dispatch_instrument(&InstrumentAction::ToggleEffectBypass(id, e), &mut state);
    assert!(inst(&state, id).effects.effects[0].enabled);
    dispatch_instrument(&InstrumentAction::RemoveEffect(id, e), &mut state);
    assert!(inst(&state, id).effects.effects.is_empty());
    assert_eq!(inst(&state, id).effects.next_effect_id, 1);
}

#[test]
fn filter_toggle_and_cycle() {
    let mut state = AppState::new();
    let id = state.add_instrument(SourceType::Saw);
    dispatch_instrument(&InstrumentAction::CycleFilterType(id), &mut state);
    assert_eq!(inst(&state, id).filter, None);
    dispatch_instrument(&InstrumentAction::ToggleFilter(id), &mut state);
    assert_eq!(inst(&state, id).filter, Some(FilterType::Lpf));
    for expected in [FilterType::Hpf, FilterType::Bpf, FilterType::Notch, FilterType::Comb] {
        dispatch_instrument(&InstrumentAction::CycleFilterType(id), &mut state);
        assert_eq!(inst(&state, id).filter, Some(expected));
    }
    dispatch_instrument(&InstrumentAction::ToggleFilter(id), &mut state);
    assert_eq!(inst(&state, id).filter, None);
}

#[test]
fn time_signature_cycle() {
    let mut state = AppState::new();
    let id = state.add_instrument(SourceType::Saw);
    let expected = [Some((4, 4)), Some((3, 4)), Some((5, 4)), Some((6, 8)), Some((7, 8)), Some((12, 8)), None];
    for ts in expected {
        dispatch_instrument(&InstrumentAction::CycleTrackTimeSignature(id), &mut state);
        assert_eq!(inst(&state, id).time_signature, ts);
    }
    dispatch_instrument(&InstrumentAction::SetTrackTimeSignature(id, Some((9, 8))), &mut state);
    dispatch_instrument(&InstrumentAction::CycleTrackTimeSignature(id), &mut state);
    assert_eq!(inst(&state, id).time_signature, Some((4, 4)));
}

#[test]
fn arp_octaves_clamp() {
    let mut state = AppState::new();
    let id = state.add_instrument(SourceType::Saw);
    dispatch_instrument(&InstrumentAction::AdjustArpOctaves(id, 10), &mut state);
    assert_eq!(inst(&state, id).arp_octaves, 4);
    dispatch_instrument(&InstrumentAction::AdjustArpOctaves(id, -10), &mut state);
    assert_eq!(inst(&state, id).arp_octaves, 1);
}

#[test]
fn link_and_unlink_layers() {
    let mut state = AppState::new();
    let a = state.add_instrument(SourceType::Saw);
    let b = state.add_instrument(SourceType::Sin);
    let c = state.add_instrument(SourceType::Sqr);

    let result = dispatch_instrument(&InstrumentAction::LinkLayer(a, b), &mut state);
    let g = inst(&state, a).layer_group;
    assert!(g.is_some());
    assert_eq!(inst(&state, b).layer_group, g);
    assert_eq!(state.session.mixer.layer_group_mixers.len(), 1);
    assert_eq!(state.session.mixer.layer_group_mixers[0].group_id, g.unwrap());
    assert_eq!(
        result.audio_effects,
        vec![AudioEffect::RebuildRouting, AudioEffect::RebuildSession, AudioEffect::RebuildInstruments]
    );

    // joining an existing group reuses it
    dispatch_instrument(&InstrumentAction::LinkLayer(c, b), &mut state);
    assert_eq!(inst(&state, c).layer_group, g);
    assert_eq!(state.session.mixer.layer_group_mixers.len(), 1);

    dispatch_instrument(&InstrumentAction::UnlinkLayer(a), &mut state);
    assert_eq!(inst(&state, a).layer_group, None);
    assert_eq!(inst(&state, b).layer_group, g);

    // the last but one member leaving dissolves the group and its strip
    dispatch_instrument(&InstrumentAction::UnlinkLayer(b), &mut state);
    assert_eq!(inst(&state, b).layer_group, None);
    assert_eq!(inst(&state, c).layer_group, None);
    assert!(state.session.mixer.layer_group_mixers.is_empty());

    let result = dispatch_instrument(&InstrumentAction::UnlinkLayer(b), &mut state);
    assert!(result.audio_effects.is_empty());
}

#[test]
fn linking_an_instrument_with_itself_does_nothing() {
    let mut state = AppState::new();
    let a = state.add_instrument(SourceType::Saw);
    let result = dispatch_instrument(&InstrumentAction::LinkLayer(a, a), &mut state);
    assert!(result.audio_effects.is_empty());
    assert_eq!(inst(&state, a).layer_group, None);
}

#[test]
fn selection_actions() {
    let mut state = AppState::new();
    dispatch_instrument(&InstrumentAction::SelectLast, &mut state);
    assert_eq!(state.instruments.selected, None);
    state.add_instrument(SourceType::Saw);
    state.add_instrument(SourceType::Saw);
    state.add_instrument(SourceType::Saw);
    dispatch_instrument(&InstrumentAction::SelectLast, &mut state);
    assert_eq!(state.instruments.selected, Some(2));
    dispatch_instrument(&InstrumentAction::SelectFirst, &mut state);
    assert_eq!(state.instruments.selected, Some(0));
    dispatch_instrument(&InstrumentAction::Select(7), &mut state);
    assert_eq!(state.instruments.selected, Some(0));
    dispatch_instrument(&InstrumentAction::Select(1), &mut state);
    assert_eq!(state.instruments.selected, Some(1));
}

#[test]
fn edit_opens_editor() {
    let mut state = AppState::new();
    let id = state.add_instrument(SourceType::Saw);
    let result = dispatch_instrument(&InstrumentAction::Edit(id), &mut state);
    assert_eq!(state.instruments.editing_instrument_id, Some(id));
    assert_eq!(result.nav, vec![NavIntent::SwitchTo(PaneId::InstrumentEdit)]);
}

#[test]
fn deleted_kit_frees_its_pad_buffers() {
    let mut state = AppState::new();
    let saw = state.add_instrument(SourceType::Saw);
    let kit = state.add_instrument(SourceType::Kit);
    {
        let seq = state.instruments.instruments[1].drum_sequencer.as_mut().unwrap();
        seq.pads[2].buffer_id = Some(5);
        seq.pads[0].buffer_id = Some(9);
    }
    assert_eq!(instrument_buffer_ids(&state.instruments, kit), vec![9, 5]);
    state.instruments.instruments[1].sampler_buffer = Some(11);
    assert_eq!(instrument_buffer_ids(&state.instruments, kit), vec![9, 5, 11]);
    state.instruments.instruments[1].drum_sequencer.as_mut().unwrap().chopper = Some(ChopperState {
        buffer_id: Some(14),
        slices: vec![Slice { id: 0, start: SAMPLE_START, end: SAMPLE_END }],
        selected_slice: 0,
        next_slice_id: 1,
    });
    assert_eq!(instrument_buffer_ids(&state.instruments, kit), vec![9, 5, 14, 11]);
    assert!(instrument_buffer_ids(&state.instruments, saw).is_empty());
    assert!(instrument_buffer_ids(&state.instruments, 77).is_empty());
}

#[test]
fn delete_removes_the_instruments_arrangement_data() {
    let mut state = AppState::new();
    let a = state.add_instrument(SourceType::Saw);
    let b = state.add_instrument(SourceType::Sin);
    let ca = state.session.arrangement.add_clip(String::from("a"), a, 480);
    let cb = state.session.arrangement.add_clip(String::from("b"), b, 480);
    state.session.arrangement.add_placement(ca, a, 0);
    state.session.arrangement.add_placement(cb, b, 960);
    dispatch_instrument(&InstrumentAction::Delete(a), &mut state);
    assert_eq!(state.session.arrangement.clips.len(), 1);
    assert_eq!(state.session.arrangement.clips[0].id, cb);
    assert_eq!(state.session.arrangement.placements.len(), 1);
    assert_eq!(state.session.arrangement.placements[0].instrument_id, b);
}

#[test]
fn load_sample_result_gives_the_sampler_the_next_buffer() {
    let mut state = AppState::new();
    let saw = state.add_instrument(SourceType::Saw);
    let sampler = state.add_instrument(SourceType::PitchedSampler);
    let first = state.instruments.next_sampler_buffer_id;

    let result = dispatch_instrument(&InstrumentAction::LoadSampleResult(sampler), &mut state);
    assert_eq!(inst(&state, sampler).sampler_buffer, Some(first));
    assert_eq!(state.instruments.next_sampler_buffer_id, first + 1);
    assert_eq!(result.nav, vec![NavIntent::Pop]);
    assert_eq!(result.audio_effects, vec![AudioEffect::RebuildInstruments]);

    // An instrument without a sampler takes no buffer, but the number is used up.
    dispatch_instrument(&InstrumentAction::LoadSampleResult(saw), &mut state);
    assert_eq!(inst(&state, saw).sampler_buffer, None);
    assert_eq!(state.instruments.next_sampler_buffer_id, first + 2);
}
