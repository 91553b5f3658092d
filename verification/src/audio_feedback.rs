//! What the audio thread reports back, and how each report updates the
//! application state.
use vstd::prelude::*;

use crate::action::{AudioEffect, AudioSideEffect, DispatchResult};
use crate::piano_roll::{AudioState, IoState, PianoRollState};
use crate::sequencer::DrumSequencer;
use crate::state::{AppState, Instrument, InstrumentId, InstrumentState, SourceType};

verus! {

/// A report of the audio thread. Reports that carry tempo, progress
/// fractions, file paths or status text are not handled by this crate.
#[derive(Clone, Copy, PartialEq, Eq, Structural, Debug)]
pub enum AudioFeedback {
    PlayheadPosition(u32),
    PlayingChanged(bool),
    DrumSequencerStep { instrument_id: InstrumentId, step: usize },
    /// The render of an instrument to a file finished.
    RenderComplete { instrument_id: InstrumentId },
    /// A bounce or stem export finished.
    ExportComplete,
    ServerCrashed,
    TelemetrySummary {
        avg_tick_us: u32,
        max_tick_us: u32,
        p95_tick_us: u32,
        overruns: u64,
        osc_send_queue_depth: usize,
    },
}

/// The instrument after its kit sequencer reported playing `step`.
pub open spec fn step_reported(x: Instrument, id: InstrumentId, step: usize) -> Instrument {
    if x.id == id {
        match x.drum_sequencer {
            Some(s) => Instrument {
                drum_sequencer: Some(DrumSequencer { current_step: step, last_played_step: Some(step), ..s }),
                ..x
            },
            None => x,
        }
    } else {
        x
    }
}

/// The instrument after a render of instrument `id` into sample buffer
/// `buffer` finished: that one becomes a pitched sampler playing the buffer.
pub open spec fn rendered(x: Instrument, id: InstrumentId, buffer: u32) -> Instrument {
    if x.id == id { Instrument { source: SourceType::PitchedSampler, sampler_buffer: Some(buffer), ..x } } else { x }
}

/// `n` holds the instruments `insts` and the sample buffer counter `buffer`,
/// and otherwise the bookkeeping of `o`.
pub open spec fn instruments_now(o: InstrumentState, n: InstrumentState, insts: Seq<Instrument>, buffer: u32) -> bool {
    &&& n.instruments@ == insts
    &&& n.selected == o.selected
    &&& n.next_id == o.next_id
    &&& n.next_layer_group_id == o.next_layer_group_id
    &&& n.editing_instrument_id == o.editing_instrument_id
    &&& n.next_sampler_buffer_id == buffer
}

/// The piano roll after a report: stopped when a render or export finished,
/// with looping as it was before the render or export, or stopped when the
/// server crashed.
pub open spec fn piano_roll_after_feedback(o: AppState, fb: AudioFeedback) -> PianoRollState {
    let opr = o.session.piano_roll;
    match fb {
        AudioFeedback::RenderComplete { .. } => PianoRollState {
            playing: false,
            looping: match o.io.pending_render { Some(r) => r.was_looping, None => opr.looping },
            ..opr
        },
        AudioFeedback::ExportComplete => PianoRollState {
            playing: false,
            looping: match o.io.pending_export { Some(e) => e.was_looping, None => opr.looping },
            ..opr
        },
        AudioFeedback::ServerCrashed => PianoRollState { playing: false, ..opr },
        _ => opr,
    }
}

/// The playback state after a report.
pub open spec fn audio_after_feedback(o: AudioState, fb: AudioFeedback) -> AudioState {
    match fb {
        AudioFeedback::PlayheadPosition(p) => AudioState { playhead: p, ..o },
        AudioFeedback::PlayingChanged(b) => AudioState { playing: b, ..o },
        AudioFeedback::RenderComplete { .. } | AudioFeedback::ExportComplete => AudioState {
            playing: false,
            playhead: 0,
            ..o
        },
        AudioFeedback::ServerCrashed => AudioState { playing: false, ..o },
        AudioFeedback::TelemetrySummary { avg_tick_us, max_tick_us, p95_tick_us, overruns, osc_send_queue_depth } =>
            AudioState {
                telemetry_avg_tick_us: avg_tick_us,
                telemetry_max_tick_us: max_tick_us,
                telemetry_p95_tick_us: p95_tick_us,
                telemetry_overruns: overruns,
                telemetry_osc_queue_depth: osc_send_queue_depth,
                ..o
            },
        _ => o,
    }
}

/// The work in progress after a report: a finished render or export is no
/// longer pending.
pub open spec fn io_after_feedback(o: IoState, fb: AudioFeedback) -> IoState {
    match fb {
        AudioFeedback::RenderComplete { .. } => IoState { pending_render: None, ..o },
        AudioFeedback::ExportComplete => IoState { pending_export: None, ..o },
        _ => o,
    }
}

/// The state change of `dispatch_audio_feedback`.
pub open spec fn feedback_applied(o: AppState, n: AppState, fb: AudioFeedback) -> bool {
    let oi = o.instruments;
    &&& n.midi == o.midi
    &&& n.clipboard == o.clipboard
    &&& n.session.mixer == o.session.mixer
    &&& n.session.automation_lanes == o.session.automation_lanes
    &&& n.session.next_lane_id == o.session.next_lane_id
    &&& n.session.midi_recording == o.session.midi_recording
    &&& n.session.arrangement == o.session.arrangement
    &&& n.session.piano_roll == piano_roll_after_feedback(o, fb)
    &&& n.audio == audio_after_feedback(o.audio, fb)
    &&& n.io == io_after_feedback(o.io, fb)
    &&& match fb {
        AudioFeedback::DrumSequencerStep { instrument_id, step } => instruments_now(
            oi,
            n.instruments,
            oi.instruments@.map_values(|x: Instrument| step_reported(x, instrument_id, step)),
            oi.next_sampler_buffer_id,
        ),
        AudioFeedback::RenderComplete { instrument_id } => instruments_now(
            oi,
            n.instruments,
            oi.instruments@.map_values(|x: Instrument| rendered(x, instrument_id, oi.next_sampler_buffer_id)),
            (oi.next_sampler_buffer_id + 1) as u32,
        ),
        _ => n.instruments == oi,
    }
}

/// The audio operations a report asks for: a finished render loads its file
/// into the next sample buffer; a finished render or export stops playback
/// and rewinds; a crash stops playback.
pub open spec fn feedback_side_effects(o: AppState, fb: AudioFeedback) -> Seq<AudioSideEffect> {
    match fb {
        AudioFeedback::RenderComplete { .. } => seq![
            AudioSideEffect::LoadSample { buffer_id: o.instruments.next_sampler_buffer_id },
            AudioSideEffect::SetPlaying { playing: false },
            AudioSideEffect::ResetPlayhead,
        ],
        AudioFeedback::ExportComplete => seq![AudioSideEffect::SetPlaying { playing: false }, AudioSideEffect::ResetPlayhead],
        AudioFeedback::ServerCrashed => seq![AudioSideEffect::SetPlaying { playing: false }],
        _ => Seq::empty(),
    }
}

/// The audio work a report asks for: a rendered instrument is rebuilt.
pub open spec fn feedback_effects(fb: AudioFeedback) -> Seq<AudioEffect> {
    match fb {
        AudioFeedback::RenderComplete { instrument_id } => AudioEffect::for_instrument_spec(instrument_id),
        _ => Seq::empty(),
    }
}

/// Record a kit sequencer's reported step on the instrument with the given id.
fn report_step(instruments: &mut InstrumentState, id: InstrumentId, step: usize)
    requires
        old(instruments).wf(),
    ensures
        final(instruments).wf(),
        instruments_now(
            *old(instruments),
            *final(instruments),
            old(instruments).instruments@.map_values(|x: Instrument| step_reported(x, id, step)),
            old(instruments).next_sampler_buffer_id,
        ),
{
    let ghost o = instruments.instruments@;
    let ghost want = o.map_values(|x: Instrument| step_reported(x, id, step));
    match instruments.index_of(id) {
        Some(k) => {
            let kit = instruments.instruments[k].drum_sequencer.take();
            match kit {
                Some(mut s) => {
                    proof { assert(crate::sequencer::kit_wf(o[k as int].drum_sequencer)); }
                    s.current_step = step;
                    s.last_played_step = Some(step);
                    instruments.instruments[k].drum_sequencer = Some(s);
                },
                None => {
                    instruments.instruments[k].drum_sequencer = None;
                },
            }
            proof {
                let n = instruments.instruments@;
                assert forall|j: int| 0 <= j < n.len() implies #[trigger] n[j] == want[j] by {
                    if j != k {
                        assert(o[j].id != id);
                        assert(n[j] == o[j]);
                    }
                }
                assert(n =~= want);
            }
        },
        None => {
            assert(o =~= want);
        },
    }
}

/// Turn the instrument with the given id into a pitched sampler and take the
/// next sample buffer for its rendered file.
fn convert_rendered(instruments: &mut InstrumentState, id: InstrumentId) -> (buffer_id: u32)
    requires
        old(instruments).wf(),
        old(instruments).next_sampler_buffer_id < u32::MAX,
    ensures
        final(instruments).wf(),
        buffer_id == old(instruments).next_sampler_buffer_id,
        instruments_now(
            *old(instruments),
            *final(instruments),
            old(instruments).instruments@.map_values(|x: Instrument| rendered(x, id, old(instruments).next_sampler_buffer_id)),
            (old(instruments).next_sampler_buffer_id + 1) as u32,
        ),
{
    let ghost o = instruments.instruments@;
    let buffer_id = instruments.next_sampler_buffer_id;
    let ghost want = o.map_values(|x: Instrument| rendered(x, id, buffer_id));
    instruments.next_sampler_buffer_id = buffer_id + 1;
    match instruments.index_of(id) {
        Some(k) => {
            instruments.instruments[k].source = SourceType::PitchedSampler;
            instruments.instruments[k].sampler_buffer = Some(buffer_id);
            proof {
                let n = instruments.instruments@;
                assert forall|j: int| 0 <= j < n.len() implies #[trigger] n[j] == want[j] by {
                    if j != k {
                        assert(o[j].id != id);
                    }
                }
                assert(n =~= want);
            }
        },
        None => {
            assert(o =~= want);
        },
    }
    buffer_id
}

/// Apply a report of the audio thread to the state; the audio operations to
/// perform are appended to `effects`.
pub fn dispatch_audio_feedback(
    feedback: &AudioFeedback,
    state: &mut AppState,
    effects: &mut Vec<AudioSideEffect>,
) -> (r: DispatchResult)
    requires
        old(state).wf(),
        feedback is RenderComplete ==> old(state).instruments.next_sampler_buffer_id < u32::MAX,
    ensures
        final(state).wf(),
        feedback_applied(*old(state), *final(state), *feedback),
        final(effects)@ == old(effects)@ + feedback_side_effects(*old(state), *feedback),
        r.audio_effects@ == feedback_effects(*feedback),
        r.nav@.len() == 0,
        !r.needs_full_sync,
{
    let ghost oe = effects@;
    let mut result = DispatchResult::none();
    match feedback {
        AudioFeedback::PlayheadPosition(p) => {
            state.audio.playhead = *p;
        },
        AudioFeedback::PlayingChanged(b) => {
            state.audio.playing = *b;
        },
        AudioFeedback::DrumSequencerStep { instrument_id, step } => {
            report_step(&mut state.instruments, *instrument_id, *step);
        },
        AudioFeedback::RenderComplete { instrument_id } => {
            state.session.piano_roll.playing = false;
            state.audio.playing = false;
            state.audio.playhead = 0;
            if let Some(render) = state.io.pending_render.take() {
                state.session.piano_roll.looping = render.was_looping;
            }
            let buffer_id = convert_rendered(&mut state.instruments, *instrument_id);
            effects.push(AudioSideEffect::LoadSample { buffer_id });
            effects.push(AudioSideEffect::SetPlaying { playing: false });
            effects.push(AudioSideEffect::ResetPlayhead);
            result.audio_effects = AudioEffect::for_instrument(*instrument_id);
        },
        AudioFeedback::ExportComplete => {
            state.session.piano_roll.playing = false;
            state.audio.playing = false;
            state.audio.playhead = 0;
            if let Some(export) = state.io.pending_export.take() {
                state.session.piano_roll.looping = export.was_looping;
            }
            effects.push(AudioSideEffect::SetPlaying { playing: false });
            effects.push(AudioSideEffect::ResetPlayhead);
        },
        AudioFeedback::ServerCrashed => {
            state.session.piano_roll.playing = false;
            state.audio.playing = false;
            effects.push(AudioSideEffect::SetPlaying { playing: false });
        },
        AudioFeedback::TelemetrySummary { avg_tick_us, max_tick_us, p95_tick_us, overruns, osc_send_queue_depth } => {
            state.audio.telemetry_avg_tick_us = *avg_tick_us;
            state.audio.telemetry_max_tick_us = *max_tick_us;
            state.audio.telemetry_p95_tick_us = *p95_tick_us;
            state.audio.telemetry_overruns = *overruns;
            state.audio.telemetry_osc_queue_depth = *osc_send_queue_depth;
        },
    }
    assert(effects@ =~= oe + feedback_side_effects(*old(state), *feedback));
    result
}

} // verus!
