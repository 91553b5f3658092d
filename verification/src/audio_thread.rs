//! The decisions of the audio thread: what each command does to the
//! thread's transport state and which engine operations it calls for. The
//! thread's loop performs the operations and hands the outcome of a render
//! or export start back as a command of its own.
//!
//! Commands that only pass floating-point values, file paths or reply
//! channels on to the engine (server connection, synth definitions, voice
//! and parameter changes, automation values, plugin state) are not decisions
//! and have no command here.
use vstd::prelude::*;

use crate::piano_roll::ExportKind;
use crate::playback::ActiveNote;
use crate::state::InstrumentId;

verus! {

/// A render of one instrument to a file in progress.
#[derive(Clone, Copy, PartialEq, Eq, Structural, Debug)]
pub struct RenderRun {
    pub instrument_id: InstrumentId,
    /// The loop end when the render started: the render ends after it.
    pub loop_end: u32,
}

/// A bounce or stem export in progress.
#[derive(Clone, Copy, PartialEq, Eq, Structural, Debug)]
pub struct ExportRun {
    pub kind: ExportKind,
    /// The loop end when the export started: the export ends after it.
    pub loop_end: u32,
}

/// The audio thread's own transport state.
#[derive(Debug)]
pub struct AudioThreadState {
    pub playing: bool,
    pub playhead: u32,
    pub loop_end: u32,
    pub master_mute: bool,
    /// Notes sounding: instrument, pitch, ticks left.
    pub active_notes: Vec<ActiveNote>,
    pub render: Option<RenderRun>,
    pub export: Option<ExportRun>,
}

/// A command to the audio thread.
#[derive(Clone, Debug)]
pub enum AudioThreadCmd {
    /// New piano roll data; only its loop end concerns the transport.
    UpdatePianoRoll { loop_end: u32 },
    SetPlaying { playing: bool },
    ResetPlayhead,
    RebuildRouting,
    RebuildInstrumentRouting { instrument_id: InstrumentId },
    UpdateMixerParams,
    SetMasterMute { mute: bool },
    RegisterActiveNote { instrument_id: InstrumentId, pitch: u8, duration_ticks: u32 },
    ClearActiveNotes,
    ReleaseAllVoices,
    FreeSamples { buffer_ids: Vec<u32> },
    /// Render an instrument; `bus` is the instrument's final audio bus as
    /// the engine has it, if it has one.
    StartInstrumentRender { instrument_id: InstrumentId, bus: Option<i32> },
    /// The engine started recording a render.
    RenderStarted { instrument_id: InstrumentId },
    StartMasterBounce,
    /// Export stems; each instrument comes with its final audio bus, if any.
    StartStemExport { stems: Vec<(InstrumentId, Option<i32>)> },
    /// The engine started an export.
    ExportStarted { kind: ExportKind },
    CancelExport,
    Shutdown,
}

/// An operation for the engine or the feedback channel.
#[derive(Clone, Debug, PartialEq)]
pub enum EngineOp {
    /// Restart the fractional tick clock.
    ResetTickClock,
    /// Report the playhead position.
    ReportPlayhead(u32),
    RebuildRouting,
    RebuildInstrumentRouting(InstrumentId),
    UpdateMixerParams,
    ReleaseAllVoices,
    FreeSample(u32),
    /// Record the given bus for a render of the instrument.
    StartRenderRecording { instrument_id: InstrumentId, bus: i32 },
    /// Answer that the instrument has no audio bus to render.
    ReportNoBus(InstrumentId),
    StartMasterBounce,
    /// Export each instrument's bus.
    StartStemExport { stems: Vec<(InstrumentId, i32)> },
    /// Answer that no instrument has an audio bus to export.
    ReportNoStemBuses,
    StopExport,
}

/// The instruments of a stem export that have a bus, with their bus.
pub open spec fn stem_buses(stems: Seq<(InstrumentId, Option<i32>)>) -> Seq<(InstrumentId, i32)>
    decreases stems.len(),
{
    if stems.len() == 0 {
        Seq::empty()
    } else {
        let rest = stem_buses(stems.drop_last());
        match stems.last().1 {
            Some(b) => rest.push((stems.last().0, b)),
            None => rest,
        }
    }
}

/// Whether the transport plays after a command: a cancelled export stops it.
pub open spec fn playing_after(s: AudioThreadState, cmd: AudioThreadCmd) -> bool {
    match cmd {
        AudioThreadCmd::SetPlaying { playing } => playing,
        AudioThreadCmd::CancelExport => if s.export is Some { false } else { s.playing },
        _ => s.playing,
    }
}

/// The active notes after a command.
pub open spec fn notes_after(s: AudioThreadState, cmd: AudioThreadCmd) -> Seq<ActiveNote> {
    match cmd {
        AudioThreadCmd::RegisterActiveNote { instrument_id, pitch, duration_ticks } =>
            s.active_notes@.push((instrument_id, pitch, duration_ticks)),
        AudioThreadCmd::ClearActiveNotes => Seq::empty(),
        _ => s.active_notes@,
    }
}

/// The render in progress after a command.
pub open spec fn render_after(s: AudioThreadState, cmd: AudioThreadCmd) -> Option<RenderRun> {
    match cmd {
        AudioThreadCmd::RenderStarted { instrument_id } => Some(RenderRun { instrument_id, loop_end: s.loop_end }),
        _ => s.render,
    }
}

/// The export in progress after a command.
pub open spec fn export_after(s: AudioThreadState, cmd: AudioThreadCmd) -> Option<ExportRun> {
    match cmd {
        AudioThreadCmd::ExportStarted { kind } => Some(ExportRun { kind, loop_end: s.loop_end }),
        AudioThreadCmd::CancelExport => None,
        _ => s.export,
    }
}

/// The operations a command calls for (a stem export's are stated apart).
pub open spec fn step_ops(s: AudioThreadState, cmd: AudioThreadCmd) -> Seq<EngineOp> {
    match cmd {
        AudioThreadCmd::SetPlaying { playing } => if playing { seq![EngineOp::ResetTickClock] } else { Seq::empty() },
        AudioThreadCmd::ResetPlayhead => seq![EngineOp::ResetTickClock, EngineOp::ReportPlayhead(0)],
        AudioThreadCmd::RebuildRouting => seq![EngineOp::RebuildRouting],
        AudioThreadCmd::RebuildInstrumentRouting { instrument_id } => seq![EngineOp::RebuildInstrumentRouting(instrument_id)],
        AudioThreadCmd::UpdateMixerParams => seq![EngineOp::UpdateMixerParams],
        AudioThreadCmd::ReleaseAllVoices => seq![EngineOp::ReleaseAllVoices],
        AudioThreadCmd::FreeSamples { buffer_ids } => buffer_ids@.map_values(|b: u32| EngineOp::FreeSample(b)),
        AudioThreadCmd::StartInstrumentRender { instrument_id, bus } => match bus {
            Some(b) => seq![EngineOp::StartRenderRecording { instrument_id, bus: b }],
            None => seq![EngineOp::ReportNoBus(instrument_id)],
        },
        AudioThreadCmd::StartMasterBounce => seq![EngineOp::StartMasterBounce],
        AudioThreadCmd::CancelExport => if s.export is Some {
            seq![EngineOp::StopExport, EngineOp::ReleaseAllVoices]
        } else {
            Seq::empty()
        },
        _ => Seq::empty(),
    }
}

/// Copy the active notes.
fn copy_active_notes(v: &Vec<ActiveNote>) -> (r: Vec<ActiveNote>)
    ensures
        r@ == v@,
{
    let mut r: Vec<ActiveNote> = Vec::new();
    let mut i: usize = 0;
    while i < v.len()
        invariant
            i <= v@.len(),
            r@ == v@.subrange(0, i as int),
        decreases v@.len() - i,
    {
        r.push(v[i]);
        i = i + 1;
        assert(r@ =~= v@.subrange(0, i as int));
    }
    assert(v@.subrange(0, i as int) =~= v@);
    r
}

/// Handle one command: the next state, the operations to perform, and
/// whether the thread is to stop.
pub fn audio_thread_step(s: &AudioThreadState, cmd: &AudioThreadCmd) -> (r: (AudioThreadState, Vec<EngineOp>, bool))
    ensures
        r.2 <==> cmd is Shutdown,
        r.0.playing == playing_after(*s, *cmd),
        r.0.playhead == (if cmd is ResetPlayhead { 0 } else { s.playhead }),
        r.0.loop_end == (match *cmd { AudioThreadCmd::UpdatePianoRoll { loop_end } => loop_end, _ => s.loop_end }),
        r.0.master_mute == (match *cmd { AudioThreadCmd::SetMasterMute { mute } => mute, _ => s.master_mute }),
        r.0.active_notes@ == notes_after(*s, *cmd),
        r.0.render == render_after(*s, *cmd),
        r.0.export == export_after(*s, *cmd),
        !(cmd is StartStemExport) ==> r.1@ == step_ops(*s, *cmd),
        match *cmd {
            AudioThreadCmd::StartStemExport { stems } => if stem_buses(stems@).len() == 0 {
                r.1@ == seq![EngineOp::ReportNoStemBuses]
            } else {
                &&& r.1@.len() == 1
                &&& r.1@[0] matches EngineOp::StartStemExport { stems: v } && v@ == stem_buses(stems@)
            },
            _ => true,
        },
{
    let mut playing = s.playing;
    let mut playhead = s.playhead;
    let mut loop_end = s.loop_end;
    let mut master_mute = s.master_mute;
    let mut notes = copy_active_notes(&s.active_notes);
    let mut render = s.render;
    let mut export = s.export;
    let mut ops: Vec<EngineOp> = Vec::new();
    let mut stop = false;
    match cmd {
        AudioThreadCmd::UpdatePianoRoll { loop_end: e } => {
            loop_end = *e;
        },
        AudioThreadCmd::SetPlaying { playing: p } => {
            playing = *p;
            if *p {
                ops.push(EngineOp::ResetTickClock);
            }
        },
        AudioThreadCmd::ResetPlayhead => {
            playhead = 0;
            ops.push(EngineOp::ResetTickClock);
            ops.push(EngineOp::ReportPlayhead(0));
        },
        AudioThreadCmd::RebuildRouting => {
            ops.push(EngineOp::RebuildRouting);
        },
        AudioThreadCmd::RebuildInstrumentRouting { instrument_id } => {
            ops.push(EngineOp::RebuildInstrumentRouting(*instrument_id));
        },
        AudioThreadCmd::UpdateMixerParams => {
            ops.push(EngineOp::UpdateMixerParams);
        },
        AudioThreadCmd::SetMasterMute { mute } => {
            master_mute = *mute;
        },
        AudioThreadCmd::RegisterActiveNote { instrument_id, pitch, duration_ticks } => {
            notes.push((*instrument_id, *pitch, *duration_ticks));
        },
        AudioThreadCmd::ClearActiveNotes => {
            notes = Vec::new();
        },
        AudioThreadCmd::ReleaseAllVoices => {
            ops.push(EngineOp::ReleaseAllVoices);
        },
        AudioThreadCmd::FreeSamples { buffer_ids } => {
            let mut i: usize = 0;
            while i < buffer_ids.len()
                invariant
                    i <= buffer_ids@.len(),
                    ops@ == buffer_ids@.subrange(0, i as int).map_values(|b: u32| EngineOp::FreeSample(b)),
                decreases buffer_ids@.len() - i,
            {
                ops.push(EngineOp::FreeSample(buffer_ids[i]));
                i = i + 1;
                assert(ops@ =~= buffer_ids@.subrange(0, i as int).map_values(|b: u32| EngineOp::FreeSample(b)));
            }
            assert(buffer_ids@.subrange(0, i as int) =~= buffer_ids@);
        },
        AudioThreadCmd::StartInstrumentRender { instrument_id, bus } => {
            match bus {
                Some(b) => ops.push(EngineOp::StartRenderRecording { instrument_id: *instrument_id, bus: *b }),
                None => ops.push(EngineOp::ReportNoBus(*instrument_id)),
            }
        },
        AudioThreadCmd::RenderStarted { instrument_id } => {
            render = Some(RenderRun { instrument_id: *instrument_id, loop_end: s.loop_end });
        },
        AudioThreadCmd::StartMasterBounce => {
            ops.push(EngineOp::StartMasterBounce);
        },
        AudioThreadCmd::StartStemExport { stems } => {
            let mut buses: Vec<(InstrumentId, i32)> = Vec::new();
            let mut i: usize = 0;
            while i < stems.len()
                invariant
                    i <= stems@.len(),
                    buses@ == stem_buses(stems@.subrange(0, i as int)),
                decreases stems@.len() - i,
            {
                proof {
                    assert(stems@.subrange(0, i + 1).drop_last() =~= stems@.subrange(0, i as int));
                }
                let (id, bus) = stems[i];
                if let Some(b) = bus {
                    buses.push((id, b));
                }
                i = i + 1;
            }
            assert(stems@.subrange(0, i as int) =~= stems@);
            if buses.len() == 0 {
                ops.push(EngineOp::ReportNoStemBuses);
            } else {
                ops.push(EngineOp::StartStemExport { stems: buses });
            }
        },
        AudioThreadCmd::ExportStarted { kind } => {
            export = Some(ExportRun { kind: *kind, loop_end: s.loop_end });
        },
        AudioThreadCmd::CancelExport => {
            if export.is_some() {
                ops.push(EngineOp::StopExport);
                export = None;
                playing = false;
                ops.push(EngineOp::ReleaseAllVoices);
            }
        },
        AudioThreadCmd::Shutdown => {
            stop = true;
        },
    }
    proof {
        if !(cmd is StartStemExport) {
            assert(ops@ =~= step_ops(*s, *cmd));
        }
        if cmd is StartStemExport {
            assert(ops@.len() == 1);
        }
    }
    let next = AudioThreadState { playing, playhead, loop_end, master_mute, active_notes: notes, render, export };
    (next, ops, stop)
}

} // verus!
