use imbolc_core::action::{AudioEffect, AudioSideEffect, NavIntent, PaneId};
use imbolc_core::arrangement::{dispatch_arrangement, ArrangementAction, ClipPlacement, PlayMode};
use imbolc_core::state::{AppState, SourceType};

fn run(action: &ArrangementAction, state: &mut AppState) -> imbolc_core::action::DispatchResult {
    let mut fx = Vec::new();
    dispatch_arrangement(action, state, true, &mut fx)
}

fn setup() -> (AppState, u32) {
    let mut state = AppState::new();
    let id = state.add_instrument(SourceType::Saw);
    (state, id)
}

#[test]
fn toggle_play_mode() {
    let (mut state, _) = setup();
    assert_eq!(state.session.arrangement.play_mode, PlayMode::Pattern);
    let r = run(&ArrangementAction::TogglePlayMode, &mut state);
    assert_eq!(state.session.arrangement.play_mode, PlayMode::Song);
    assert_eq!(r.audio_effects, vec![AudioEffect::UpdatePianoRoll]);
    run(&ArrangementAction::TogglePlayMode, &mut state);
    assert_eq!(state.session.arrangement.play_mode, PlayMode::Pattern);
}

#[test]
fn create_clip_is_named_after_its_id() {
    let (mut state, id) = setup();
    run(&ArrangementAction::CreateClip { instrument_id: id, length_ticks: 1920 }, &mut state);
    run(&ArrangementAction::CreateClip { instrument_id: id, length_ticks: 960 }, &mut state);
    let clips = &state.session.arrangement.clips;
    assert_eq!(clips.len(), 2);
    assert_eq!(clips[0].name, "Clip 1");
    assert_eq!(clips[1].name, "Clip 2");
    assert_eq!(clips[1].length_ticks, 960);
    assert!(clips[1].notes.is_empty());
}

#[test]
fn capture_clip_shifts_and_cuts_notes() {
    let (mut state, id) = setup();
    state.session.piano_roll.loop_start = 480;
    state.session.piano_roll.loop_end = 1440;
    state.session.piano_roll.toggle_note(0, 60, 0, 480, 100); // before the loop
    state.session.piano_roll.toggle_note(0, 62, 480, 240, 100); // kept, moved to 0
    state.session.piano_roll.toggle_note(0, 64, 1200, 480, 100); // cut to 240
    state.session.piano_roll.toggle_note(0, 65, 1440, 100, 100); // at the loop end
    run(&ArrangementAction::CaptureClipFromPianoRoll { instrument_id: id }, &mut state);
    let clip = &state.session.arrangement.clips[0];
    assert_eq!(clip.length_ticks, 960);
    assert_eq!(clip.notes.len(), 2);
    assert_eq!((clip.notes[0].pitch, clip.notes[0].tick, clip.notes[0].duration), (62, 0, 240));
    assert_eq!((clip.notes[1].pitch, clip.notes[1].tick, clip.notes[1].duration), (64, 720, 240));
}

#[test]
fn capture_without_track_gives_empty_clip() {
    let (mut state, _) = setup();
    run(&ArrangementAction::CaptureClipFromPianoRoll { instrument_id: 77 }, &mut state);
    assert!(state.session.arrangement.clips[0].notes.is_empty());
}

#[test]
fn placements_move_resize_duplicate_and_delete() {
    let (mut state, id) = setup();
    run(&ArrangementAction::CreateClip { instrument_id: id, length_ticks: 960 }, &mut state);
    let r = run(&ArrangementAction::PlaceClip { clip_id: 1, instrument_id: id, start_tick: 100 }, &mut state);
    assert_eq!(r.audio_effects, vec![AudioEffect::UpdatePianoRoll, AudioEffect::UpdateAutomation]);
    run(&ArrangementAction::MovePlacement { placement_id: 1, new_start_tick: 200 }, &mut state);
    run(&ArrangementAction::DuplicatePlacement(1), &mut state);
    run(&ArrangementAction::ResizePlacement { placement_id: 2, new_length: 100 }, &mut state);
    run(&ArrangementAction::DuplicatePlacement(2), &mut state);
    let ps = &state.session.arrangement.placements;
    assert_eq!(ps.len(), 3);
    assert_eq!(ps[1], ClipPlacement { id: 2, clip_id: 1, instrument_id: id, start_tick: 1160, length_override: Some(100) });
    assert_eq!(ps[2].start_tick, 1260);
    assert_eq!(ps[2].length_override, Some(100));

    run(&ArrangementAction::RemovePlacement(2), &mut state);
    assert_eq!(state.session.arrangement.placements.len(), 2);
    run(&ArrangementAction::DeleteClip(1), &mut state);
    assert!(state.session.arrangement.clips.is_empty());
    assert!(state.session.arrangement.placements.is_empty());
}

#[test]
fn duplicate_of_missing_placement_does_nothing() {
    let (mut state, _) = setup();
    run(&ArrangementAction::DuplicatePlacement(5), &mut state);
    assert!(state.session.arrangement.placements.is_empty());
    assert_eq!(state.session.arrangement.next_placement_id, 1);
}

#[test]
fn rename_clip() {
    let (mut state, id) = setup();
    run(&ArrangementAction::CreateClip { instrument_id: id, length_ticks: 960 }, &mut state);
    run(&ArrangementAction::RenameClip(1, "Verse".to_string()), &mut state);
    assert_eq!(state.session.arrangement.clips[0].name, "Verse");
}

#[test]
fn select_lane_is_clamped_to_instruments() {
    let (mut state, _) = setup();
    state.add_instrument(SourceType::Sin);
    run(&ArrangementAction::SelectLane(9), &mut state);
    assert_eq!(state.session.arrangement.selected_lane, 1);
    run(&ArrangementAction::SelectLane(0), &mut state);
    assert_eq!(state.session.arrangement.selected_lane, 0);
    run(&ArrangementAction::SelectPlacement(Some(3)), &mut state);
    assert_eq!(state.session.arrangement.selected_placement, Some(3));
}

#[test]
fn cursor_and_view_floor_at_zero() {
    let (mut state, _) = setup();
    run(&ArrangementAction::MoveCursor(3), &mut state);
    assert_eq!(state.session.arrangement.cursor_tick, 1440);
    run(&ArrangementAction::MoveCursor(-10), &mut state);
    assert_eq!(state.session.arrangement.cursor_tick, 0);
    run(&ArrangementAction::ScrollView(2), &mut state);
    assert_eq!(state.session.arrangement.view_start_tick, 960);
}

#[test]
fn zoom_is_clamped() {
    let (mut state, _) = setup();
    for _ in 0..10 {
        run(&ArrangementAction::ZoomIn, &mut state);
    }
    assert_eq!(state.session.arrangement.ticks_per_col, 30);
    for _ in 0..10 {
        run(&ArrangementAction::ZoomOut, &mut state);
    }
    assert_eq!(state.session.arrangement.ticks_per_col, 1920);
}

#[test]
fn clip_edit_round_trip() {
    let (mut state, id) = setup();
    state.session.piano_roll.toggle_note(0, 60, 0, 480, 100);
    state.session.piano_roll.loop_start = 100;
    state.session.piano_roll.loop_end = 5000;
    state.session.piano_roll.looping = false;
    run(&ArrangementAction::CreateClip { instrument_id: id, length_ticks: 960 }, &mut state);

    let r = run(&ArrangementAction::EnterClipEdit(1), &mut state);
    assert_eq!(r.nav, vec![NavIntent::PushTo(PaneId::PianoRoll)]);
    assert!(state.session.piano_roll.tracks[0].notes.is_empty());
    assert_eq!(state.session.piano_roll.loop_end, 960);
    assert!(state.session.piano_roll.looping);

    // edit the clip in the piano roll
    state.session.piano_roll.toggle_note(0, 72, 240, 120, 90);
    state.session.piano_roll.loop_end = 480;

    let r = run(&ArrangementAction::ExitClipEdit, &mut state);
    assert_eq!(r.nav, vec![NavIntent::PopOrSwitchTo(PaneId::Track)]);
    let clip = &state.session.arrangement.clips[0];
    assert_eq!(clip.notes.len(), 1);
    assert_eq!(clip.notes[0].pitch, 72);
    assert_eq!(clip.length_ticks, 480);
    let pr = &state.session.piano_roll;
    assert_eq!(pr.tracks[0].notes.len(), 1);
    assert_eq!(pr.tracks[0].notes[0].pitch, 60);
    assert_eq!((pr.loop_start, pr.loop_end, pr.looping), (100, 5000, false));
    assert!(state.session.arrangement.editing_clip.is_none());

    let r = run(&ArrangementAction::ExitClipEdit, &mut state);
    assert!(r.nav.is_empty());
}

#[test]
fn enter_clip_edit_needs_clip_and_track() {
    let (mut state, _) = setup();
    let r = run(&ArrangementAction::EnterClipEdit(1), &mut state);
    assert!(r.nav.is_empty() && r.audio_effects.is_empty());
    run(&ArrangementAction::CreateClip { instrument_id: 99, length_ticks: 960 }, &mut state);
    let r = run(&ArrangementAction::EnterClipEdit(1), &mut state);
    assert!(r.nav.is_empty());
    assert!(state.session.arrangement.editing_clip.is_none());
}

#[test]
fn arrangement_play_stop() {
    let (mut state, _) = setup();
    state.session.piano_roll.recording = true;
    let mut fx = Vec::new();
    dispatch_arrangement(&ArrangementAction::PlayStop, &mut state, false, &mut fx);
    assert!(state.session.piano_roll.playing);
    assert!(!state.session.piano_roll.recording);
    dispatch_arrangement(&ArrangementAction::PlayStop, &mut state, false, &mut fx);
    assert!(!state.session.piano_roll.playing);
    assert_eq!(
        fx,
        vec![
            AudioSideEffect::SetPlaying { playing: true },
            AudioSideEffect::SetPlaying { playing: false },
            AudioSideEffect::ResetPlayhead,
            AudioSideEffect::ClearActiveNotes,
        ]
    );
}
