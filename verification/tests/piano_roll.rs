use imbolc_core::action::{AudioEffect, AudioSideEffect};
use imbolc_core::instrument::{dispatch_instrument, InstrumentAction};
use imbolc_core::piano_roll::{
    dispatch_piano_roll, ClipboardNote, ExportKind, PendingExport, PendingRender, PianoRollAction, TimeSignature,
};
use imbolc_core::state::{AppState, ClipboardContents, SourceType};

fn setup() -> AppState {
    AppState::new()
}

fn run(action: &PianoRollAction, state: &mut AppState) -> (imbolc_core::action::DispatchResult, Vec<AudioSideEffect>) {
    let mut effects = Vec::new();
    let r = dispatch_piano_roll(action, state, true, &mut effects);
    (r, effects)
}

#[test]
fn toggle_note_adds_note_and_sets_dirty() {
    let mut state = setup();
    let _id = state.add_instrument(SourceType::Saw);
    let action = PianoRollAction::ToggleNote { pitch: 60, tick: 0, duration: 480, velocity: 100, track: 0 };
    let (result, _) = run(&action, &mut state);
    assert!(result.audio_effects.contains(&AudioEffect::UpdatePianoRoll));
    assert_eq!(state.session.piano_roll.tracks[0].notes.len(), 1);

    // Toggle again removes
    let (result, _) = run(&action, &mut state);
    assert!(result.audio_effects.contains(&AudioEffect::UpdatePianoRoll));
    assert!(state.session.piano_roll.tracks[0].notes.is_empty());
}

#[test]
fn play_stop_toggles_playing_and_clears_recording() {
    let mut state = setup();
    state.session.piano_roll.recording = true;

    let action = PianoRollAction::PlayStop;
    run(&action, &mut state);
    assert!(state.session.piano_roll.playing);

    run(&action, &mut state);
    assert!(!state.session.piano_roll.playing);
    assert!(!state.session.piano_roll.recording);
}

#[test]
fn play_stop_noop_while_exporting() {
    let mut state = setup();
    state.io.pending_export = Some(PendingExport { kind: ExportKind::MasterBounce, was_looping: false });
    let action = PianoRollAction::PlayStop;
    run(&action, &mut state);
    assert!(!state.session.piano_roll.playing);
}

#[test]
fn toggle_loop_flips() {
    let mut state = setup();
    // Default is looping=true
    assert!(state.session.piano_roll.looping);
    run(&PianoRollAction::ToggleLoop, &mut state);
    assert!(!state.session.piano_roll.looping);
    run(&PianoRollAction::ToggleLoop, &mut state);
    assert!(state.session.piano_roll.looping);
}

#[test]
fn cycle_time_sig() {
    let mut state = setup();
    let expected = vec![(3, 4), (6, 8), (5, 4), (7, 8), (4, 4)];
    for (beats, unit) in expected {
        run(&PianoRollAction::CycleTimeSig, &mut state);
        assert_eq!(state.session.piano_roll.time_signature, TimeSignature { beats, unit });
    }
}

#[test]
fn delete_notes_in_region() {
    let mut state = setup();
    let _id = state.add_instrument(SourceType::Saw);
    // Add notes
    state.session.piano_roll.toggle_note(0, 60, 0, 480, 100);
    state.session.piano_roll.toggle_note(0, 64, 480, 480, 100);
    state.session.piano_roll.toggle_note(0, 72, 960, 480, 100);

    let action = PianoRollAction::DeleteNotesInRegion {
        track: 0,
        start_tick: 0,
        end_tick: 960,
        start_pitch: 60,
        end_pitch: 64,
    };
    run(&action, &mut state);
    let notes = &state.session.piano_roll.tracks[0].notes;
    assert_eq!(notes.len(), 1);
    assert_eq!(notes[0].pitch, 72);
}

#[test]
fn paste_notes_skips_duplicates_and_clamps_pitch() {
    let mut state = setup();
    let _id = state.add_instrument(SourceType::Saw);
    // Pre-existing note at (60, 0)
    state.session.piano_roll.toggle_note(0, 60, 0, 480, 100);

    let clipboard_notes = vec![
        ClipboardNote { tick_offset: 0, pitch_offset: 0, duration: 480, velocity: 100 },
        ClipboardNote { tick_offset: 480, pitch_offset: -200, duration: 480, velocity: 100 }, // out of range
        ClipboardNote { tick_offset: 480, pitch_offset: 2, duration: 480, velocity: 100 },
    ];
    let action = PianoRollAction::PasteNotes { track: 0, anchor_tick: 0, anchor_pitch: 60, notes: clipboard_notes };
    run(&action, &mut state);
    let notes = &state.session.piano_roll.tracks[0].notes;
    // The existing note plus one valid paste (duplicate and out-of-range skipped)
    assert_eq!(notes.len(), 2);
}

#[test]
fn copy_notes_populates_clipboard() {
    let mut state = setup();
    let _id = state.add_instrument(SourceType::Saw);
    state.session.piano_roll.toggle_note(0, 60, 0, 480, 100);
    state.session.piano_roll.toggle_note(0, 64, 240, 480, 100);

    let action = PianoRollAction::CopyNotes { track: 0, start_tick: 0, end_tick: 480, start_pitch: 60, end_pitch: 64 };
    run(&action, &mut state);
    match &state.clipboard {
        Some(ClipboardContents::PianoRollNotes(notes)) => {
            assert_eq!(notes.len(), 2);
            assert_eq!(notes[0].tick_offset, 0);
            assert_eq!(notes[1].tick_offset, 240);
        }
        _ => panic!("Expected PianoRollNotes in clipboard"),
    }
}

// ---------------------------------------------------------------------------
// Further cases
// ---------------------------------------------------------------------------

#[test]
fn instruments_get_tracks_that_leave_with_them() {
    let mut state = setup();
    let a = state.add_instrument(SourceType::Saw);
    dispatch_instrument(&InstrumentAction::Add(SourceType::Sin), &mut state);
    let ids: Vec<u32> = state.session.piano_roll.tracks.iter().map(|t| t.instrument_id).collect();
    assert_eq!(ids, vec![a, a + 1]);
    dispatch_instrument(&InstrumentAction::Delete(a), &mut state);
    let ids: Vec<u32> = state.session.piano_roll.tracks.iter().map(|t| t.instrument_id).collect();
    assert_eq!(ids, vec![a + 1]);
}

#[test]
fn play_stop_reports_transport_side_effects() {
    let mut state = setup();
    state.audio.playhead = 99;
    let (_, fx) = run(&PianoRollAction::PlayStop, &mut state);
    assert_eq!(fx, vec![AudioSideEffect::SetPlaying { playing: true }]);
    assert!(state.audio.playing);
    assert_eq!(state.audio.playhead, 99);

    let mut fx = Vec::new();
    dispatch_piano_roll(&PianoRollAction::PlayStop, &mut state, false, &mut fx);
    assert_eq!(
        fx,
        vec![AudioSideEffect::SetPlaying { playing: false }, AudioSideEffect::ResetPlayhead, AudioSideEffect::ClearActiveNotes]
    );
    assert_eq!(state.audio.playhead, 0);
    assert!(!state.audio.playing);

    let (_, fx) = run(&PianoRollAction::PlayStop, &mut state);
    let (_, fx2) = run(&PianoRollAction::PlayStop, &mut state);
    assert_eq!(fx.len(), 1);
    assert!(fx2.contains(&AudioSideEffect::ReleaseAllVoices));
}

#[test]
fn cancel_export_restores_looping() {
    let mut state = setup();
    state.session.piano_roll.looping = false;
    state.session.piano_roll.playing = true;
    state.audio.playing = true;
    state.audio.playhead = 1000;
    state.io.pending_export = Some(PendingExport { kind: ExportKind::MasterBounce, was_looping: true });
    let (result, fx) = run(&PianoRollAction::CancelExport, &mut state);
    assert!(state.io.pending_export.is_none());
    assert!(state.session.piano_roll.looping);
    assert!(!state.session.piano_roll.playing);
    assert_eq!(state.audio.playhead, 0);
    assert_eq!(fx, vec![AudioSideEffect::CancelExport, AudioSideEffect::ResetPlayhead]);
    assert_eq!(result.audio_effects, vec![AudioEffect::UpdatePianoRoll]);

    let (result, fx) = run(&PianoRollAction::CancelExport, &mut state);
    assert!(fx.is_empty() && result.audio_effects.is_empty());
}

#[test]
fn paste_of_copy_in_place_changes_nothing() {
    let mut state = setup();
    state.add_instrument(SourceType::Saw);
    for (p, t) in [(60u8, 0u32), (62, 120), (200, 240), (64, 960)] {
        state.session.piano_roll.toggle_note(0, p, t, 120, 90);
    }
    let before = state.session.piano_roll.tracks[0].notes.clone();
    let clip = state.session.piano_roll.copy_notes(0, 0, 480, 0, 255).unwrap();
    assert_eq!(clip.len(), 3);
    state.session.piano_roll.paste_notes(0, 0, 0, &clip);
    assert_eq!(state.session.piano_roll.tracks[0].notes, before);
}

#[test]
fn copy_of_missing_track_or_empty_region_keeps_clipboard() {
    let mut state = setup();
    state.add_instrument(SourceType::Saw);
    state.clipboard = Some(ClipboardContents::PianoRollNotes(vec![]));
    run(&PianoRollAction::CopyNotes { track: 3, start_tick: 0, end_tick: 10, start_pitch: 0, end_pitch: 127 }, &mut state);
    run(&PianoRollAction::CopyNotes { track: 0, start_tick: 0, end_tick: 10, start_pitch: 0, end_pitch: 127 }, &mut state);
    assert!(matches!(&state.clipboard, Some(ClipboardContents::PianoRollNotes(v)) if v.is_empty()));
}

#[test]
fn toggling_existing_note_removes_it_whatever_duration() {
    let mut state = setup();
    state.add_instrument(SourceType::Saw);
    state.session.piano_roll.toggle_note(0, 60, 0, 480, 100);
    state.session.piano_roll.toggle_note(0, 60, 0, 960, 50);
    assert!(state.session.piano_roll.tracks[0].notes.is_empty());
    // toggling on a missing track does nothing
    state.session.piano_roll.toggle_note(5, 60, 0, 960, 50);
    assert_eq!(state.session.piano_roll.tracks.len(), 1);
}

#[test]
fn render_to_wav_starts_one_pass_over_the_loop() {
    let mut state = setup();
    let id = state.add_instrument(SourceType::Saw);
    state.session.piano_roll.loop_start = 960;
    let (r, fx) = run(&PianoRollAction::RenderToWav(id), &mut state);
    assert_eq!(state.io.pending_render, Some(PendingRender { instrument_id: id, was_looping: true }));
    assert_eq!(state.session.piano_roll.playhead, 960);
    assert!(state.session.piano_roll.playing);
    assert!(!state.session.piano_roll.looping);
    assert!(state.audio.playing);
    assert_eq!(fx, vec![AudioSideEffect::StartInstrumentRender { instrument_id: id }]);
    assert_eq!(r.audio_effects, vec![AudioEffect::UpdatePianoRoll]);

    // A second render waits for the first
    let (r, fx) = run(&PianoRollAction::BounceToWav, &mut state);
    assert!(state.io.pending_export.is_none());
    assert!(fx.is_empty());
    assert!(r.audio_effects.is_empty());
}

#[test]
fn bounce_and_stems_need_engine_and_instruments() {
    let mut state = setup();
    let (_, fx) = run(&PianoRollAction::BounceToWav, &mut state);
    assert!(fx.is_empty());
    assert!(state.io.pending_export.is_none());
    state.add_instrument(SourceType::Saw);
    let mut effects = Vec::new();
    dispatch_piano_roll(&PianoRollAction::ExportStems, &mut state, false, &mut effects);
    assert!(effects.is_empty());
    let (_, fx) = run(&PianoRollAction::ExportStems, &mut state);
    assert_eq!(fx, vec![AudioSideEffect::StartStemExport]);
    assert_eq!(state.io.pending_export, Some(PendingExport { kind: ExportKind::StemExport, was_looping: true }));
}
