use imbolc_core::audio_thread::{audio_thread_step, AudioThreadCmd, AudioThreadState, EngineOp, ExportRun, RenderRun};
use imbolc_core::piano_roll::ExportKind;

fn idle() -> AudioThreadState {
    AudioThreadState {
        playing: false,
        playhead: 0,
        loop_end: 1920,
        master_mute: false,
        active_notes: Vec::new(),
        render: None,
        export: None,
    }
}

#[test]
fn set_playing_and_reset_playhead() {
    let (s, ops, stop) = audio_thread_step(&idle(), &AudioThreadCmd::SetPlaying { playing: true });
    assert!(s.playing);
    assert_eq!(ops, vec![EngineOp::ResetTickClock]);
    assert!(!stop);
    let mut s = s;
    s.playhead = 700;
    let (s, ops, _) = audio_thread_step(&s, &AudioThreadCmd::ResetPlayhead);
    assert_eq!(s.playhead, 0);
    assert!(s.playing);
    assert_eq!(ops, vec![EngineOp::ResetTickClock, EngineOp::ReportPlayhead(0)]);
    let (s, ops, _) = audio_thread_step(&s, &AudioThreadCmd::SetPlaying { playing: false });
    assert!(!s.playing);
    assert!(ops.is_empty());
}

#[test]
fn active_notes_register_and_clear() {
    let cmd = AudioThreadCmd::RegisterActiveNote { instrument_id: 3, pitch: 60, duration_ticks: 240 };
    let (s, _, _) = audio_thread_step(&idle(), &cmd);
    assert_eq!(s.active_notes, vec![(3, 60, 240)]);
    let (s, _, _) = audio_thread_step(&s, &AudioThreadCmd::ClearActiveNotes);
    assert!(s.active_notes.is_empty());
}

#[test]
fn piano_roll_update_keeps_transport() {
    let mut s = idle();
    s.playing = true;
    s.playhead = 300;
    let (s, _, _) = audio_thread_step(&s, &AudioThreadCmd::UpdatePianoRoll { loop_end: 3840 });
    assert_eq!(s.loop_end, 3840);
    assert!(s.playing);
    assert_eq!(s.playhead, 300);
}

#[test]
fn stem_export_keeps_instruments_with_buses() {
    let cmd = AudioThreadCmd::StartStemExport { stems: vec![(1, Some(20)), (2, None), (3, Some(22))] };
    let (s, ops, _) = audio_thread_step(&idle(), &cmd);
    assert_eq!(ops, vec![EngineOp::StartStemExport { stems: vec![(1, 20), (3, 22)] }]);
    assert!(s.export.is_none());
    let (_, ops, _) = audio_thread_step(&idle(), &AudioThreadCmd::StartStemExport { stems: vec![(2, None)] });
    assert_eq!(ops, vec![EngineOp::ReportNoStemBuses]);
}

#[test]
fn export_start_and_cancel() {
    let (s, _, _) = audio_thread_step(&idle(), &AudioThreadCmd::ExportStarted { kind: ExportKind::MasterBounce });
    assert_eq!(s.export, Some(ExportRun { kind: ExportKind::MasterBounce, loop_end: 1920 }));
    let mut s = s;
    s.playing = true;
    let (s, ops, _) = audio_thread_step(&s, &AudioThreadCmd::CancelExport);
    assert!(s.export.is_none());
    assert!(!s.playing);
    assert_eq!(ops, vec![EngineOp::StopExport, EngineOp::ReleaseAllVoices]);
    let (_, ops, _) = audio_thread_step(&s, &AudioThreadCmd::CancelExport);
    assert!(ops.is_empty());
}

#[test]
fn render_needs_a_bus() {
    let (_, ops, _) = audio_thread_step(&idle(), &AudioThreadCmd::StartInstrumentRender { instrument_id: 4, bus: None });
    assert_eq!(ops, vec![EngineOp::ReportNoBus(4)]);
    let (_, ops, _) = audio_thread_step(&idle(), &AudioThreadCmd::StartInstrumentRender { instrument_id: 4, bus: Some(30) });
    assert_eq!(ops, vec![EngineOp::StartRenderRecording { instrument_id: 4, bus: 30 }]);
    let (s, _, _) = audio_thread_step(&idle(), &AudioThreadCmd::RenderStarted { instrument_id: 4 });
    assert_eq!(s.render, Some(RenderRun { instrument_id: 4, loop_end: 1920 }));
}

#[test]
fn free_samples_and_shutdown() {
    let (_, ops, stop) = audio_thread_step(&idle(), &AudioThreadCmd::FreeSamples { buffer_ids: vec![5, 9] });
    assert_eq!(ops, vec![EngineOp::FreeSample(5), EngineOp::FreeSample(9)]);
    assert!(!stop);
    let (_, ops, stop) = audio_thread_step(&idle(), &AudioThreadCmd::Shutdown);
    assert!(ops.is_empty());
    assert!(stop);
}
