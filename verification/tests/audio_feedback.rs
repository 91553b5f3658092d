use imbolc_core::action::{AudioEffect, AudioSideEffect, DispatchResult};
use imbolc_core::audio_feedback::{dispatch_audio_feedback, AudioFeedback};
use imbolc_core::piano_roll::{ExportKind, PendingExport, PendingRender};
use imbolc_core::state::{AppState, SourceType};

fn feed(fb: AudioFeedback, state: &mut AppState) -> (DispatchResult, Vec<AudioSideEffect>) {
    let mut effects = Vec::new();
    let r = dispatch_audio_feedback(&fb, state, &mut effects);
    (r, effects)
}

#[test]
fn playhead_and_playing_reports_are_stored() {
    let mut state = AppState::new();
    let (r, fx) = feed(AudioFeedback::PlayheadPosition(960), &mut state);
    assert_eq!(state.audio.playhead, 960);
    assert!(r.audio_effects.is_empty());
    assert!(fx.is_empty());
    feed(AudioFeedback::PlayingChanged(true), &mut state);
    assert!(state.audio.playing);
    assert_eq!(state.audio.playhead, 960);
}

#[test]
fn drum_step_report_updates_only_the_kit() {
    let mut state = AppState::new();
    let saw = state.add_instrument(SourceType::Saw);
    let kit = state.add_instrument(SourceType::Kit);
    feed(AudioFeedback::DrumSequencerStep { instrument_id: kit, step: 5 }, &mut state);
    let seq = state.instruments.instruments[1].drum_sequencer.as_ref().unwrap();
    assert_eq!(seq.current_step, 5);
    assert_eq!(seq.last_played_step, Some(5));
    feed(AudioFeedback::DrumSequencerStep { instrument_id: saw, step: 3 }, &mut state);
    assert!(state.instruments.instruments[0].drum_sequencer.is_none());
    feed(AudioFeedback::DrumSequencerStep { instrument_id: 99, step: 7 }, &mut state);
    assert_eq!(state.instruments.instruments[1].drum_sequencer.as_ref().unwrap().current_step, 5);
}

#[test]
fn render_complete_converts_instrument_and_stops() {
    let mut state = AppState::new();
    let a = state.add_instrument(SourceType::Saw);
    let b = state.add_instrument(SourceType::Sin);
    state.instruments.next_sampler_buffer_id = 7;
    state.session.piano_roll.playing = true;
    state.session.piano_roll.looping = false;
    state.audio.playing = true;
    state.audio.playhead = 100;
    state.io.pending_render = Some(PendingRender { instrument_id: b, was_looping: true });

    let (r, fx) = feed(AudioFeedback::RenderComplete { instrument_id: b }, &mut state);
    assert_eq!(state.instruments.instruments[0].source, SourceType::Saw);
    assert_eq!(state.instruments.instruments[1].source, SourceType::PitchedSampler);
    assert_eq!(state.instruments.instruments[1].sampler_buffer, Some(7));
    assert_eq!(state.instruments.instruments[0].sampler_buffer, None);
    assert_eq!(state.instruments.next_sampler_buffer_id, 8);
    assert!(!state.session.piano_roll.playing);
    assert!(state.session.piano_roll.looping);
    assert!(!state.audio.playing);
    assert_eq!(state.audio.playhead, 0);
    assert!(state.io.pending_render.is_none());
    assert_eq!(
        fx,
        vec![
            AudioSideEffect::LoadSample { buffer_id: 7 },
            AudioSideEffect::SetPlaying { playing: false },
            AudioSideEffect::ResetPlayhead,
        ]
    );
    assert_eq!(r.audio_effects, vec![AudioEffect::RebuildInstruments, AudioEffect::RebuildRoutingForInstrument(b)]);
    let _ = a;
}

#[test]
fn render_complete_without_pending_render_keeps_looping() {
    let mut state = AppState::new();
    let a = state.add_instrument(SourceType::Saw);
    state.session.piano_roll.looping = false;
    feed(AudioFeedback::RenderComplete { instrument_id: a }, &mut state);
    assert!(!state.session.piano_roll.looping);
    assert_eq!(state.instruments.next_sampler_buffer_id, 1);
}

#[test]
fn export_complete_restores_looping_and_stops() {
    let mut state = AppState::new();
    state.session.piano_roll.playing = true;
    state.session.piano_roll.looping = true;
    state.audio.playing = true;
    state.audio.playhead = 42;
    state.io.pending_export = Some(PendingExport { kind: ExportKind::MasterBounce, was_looping: false });
    let (r, fx) = feed(AudioFeedback::ExportComplete, &mut state);
    assert!(!state.session.piano_roll.playing);
    assert!(!state.session.piano_roll.looping);
    assert!(!state.audio.playing);
    assert_eq!(state.audio.playhead, 0);
    assert!(state.io.pending_export.is_none());
    assert_eq!(fx, vec![AudioSideEffect::SetPlaying { playing: false }, AudioSideEffect::ResetPlayhead]);
    assert!(r.audio_effects.is_empty());
}

#[test]
fn server_crash_stops_playback() {
    let mut state = AppState::new();
    state.session.piano_roll.playing = true;
    state.audio.playing = true;
    state.audio.playhead = 42;
    let (_, fx) = feed(AudioFeedback::ServerCrashed, &mut state);
    assert!(!state.session.piano_roll.playing);
    assert!(!state.audio.playing);
    assert_eq!(state.audio.playhead, 42);
    assert_eq!(fx, vec![AudioSideEffect::SetPlaying { playing: false }]);
}

#[test]
fn telemetry_summary_is_stored() {
    let mut state = AppState::new();
    feed(
        AudioFeedback::TelemetrySummary {
            avg_tick_us: 120,
            max_tick_us: 900,
            p95_tick_us: 400,
            overruns: 3,
            osc_send_queue_depth: 2,
        },
        &mut state,
    );
    assert_eq!(state.audio.telemetry_avg_tick_us, 120);
    assert_eq!(state.audio.telemetry_max_tick_us, 900);
    assert_eq!(state.audio.telemetry_p95_tick_us, 400);
    assert_eq!(state.audio.telemetry_overruns, 3);
    assert_eq!(state.audio.telemetry_osc_queue_depth, 2);
    assert!(!state.audio.playing);
}
