//! The decisions of the audio server actions that record: whether to stop
//! or start a recording, and switching an audio-input instrument on or off
//! with it. Connecting, starting and stopping the server, compiling and
//! loading synth definitions are the audio handle's work, not this crate's.
use vstd::prelude::*;

use crate::action::{AudioEffect, DispatchResult};
use crate::state::{AppState, Instrument, InstrumentId, SourceType};

verus! {

/// What to record.
#[derive(Clone, Copy, PartialEq, Eq, Structural, Debug)]
pub enum RecordAction {
    /// The master output.
    RecordMaster,
    /// The selected instrument.
    RecordInput,
}

/// What the audio handle is to do for a record action.
#[derive(Clone, Copy, PartialEq, Eq, Structural, Debug)]
pub enum RecordCommand {
    StopRecording,
    /// Start recording to a new file named for the master, or for the
    /// given instrument's input.
    StartRecording { input_of: Option<InstrumentId> },
    /// The engine is not running: report it and do nothing.
    EngineNotRunning,
}

/// The selected instrument's position, when the selection points at one.
pub open spec fn selected_index(s: AppState) -> Option<int> {
    match s.instruments.selected {
        Some(k) => if k < s.instruments.instruments@.len() { Some(k as int) } else { None },
        None => None,
    }
}

/// Whether the selected instrument is an audio input in the given state of
/// activity.
pub open spec fn selected_audio_in(s: AppState, active: bool) -> bool {
    match selected_index(s) {
        Some(k) => s.instruments.instruments@[k].source == SourceType::AudioIn
            && s.instruments.instruments@[k].active == active,
        None => false,
    }
}

/// What a record action does, given whether a recording runs and whether
/// the engine runs: stopping switches a selected audio input off, starting
/// switches it on.
pub open spec fn record_outcome(s: AppState, action: RecordAction, recording: bool, running: bool)
    -> (Option<bool>, Option<RecordCommand>)
{
    if recording {
        (if selected_audio_in(s, true) { Some(false) } else { None }, Some(RecordCommand::StopRecording))
    } else if running {
        match action {
            RecordAction::RecordMaster => (
                if selected_audio_in(s, false) { Some(true) } else { None },
                Some(RecordCommand::StartRecording { input_of: None }),
            ),
            RecordAction::RecordInput => match selected_index(s) {
                Some(k) => (
                    if selected_audio_in(s, false) { Some(true) } else { None },
                    Some(RecordCommand::StartRecording { input_of: Some(s.instruments.instruments@[k].id) }),
                ),
                None => (None, None),
            },
        }
    } else {
        (None, Some(RecordCommand::EngineNotRunning))
    }
}

/// Decide a record action. `recording` is whether a recording runs and
/// `running` whether the engine runs. Returns the result and the command
/// for the audio handle, if any.
pub fn dispatch_record(action: RecordAction, state: &mut AppState, recording: bool, running: bool)
    -> (r: (DispatchResult, Option<RecordCommand>))
    requires
        old(state).wf(),
    ensures
        final(state).wf(),
        r.1 == record_outcome(*old(state), action, recording, running).1,
        match record_outcome(*old(state), action, recording, running).0 {
            Some(on) => {
                let k = selected_index(*old(state))->0;
                &&& final(state).instruments.instruments@ == old(state).instruments.instruments@.update(
                    k, Instrument { active: on, ..old(state).instruments.instruments@[k] })
                &&& r.0.audio_effects@ == seq![AudioEffect::RebuildInstruments, AudioEffect::RebuildRouting]
            },
            None => {
                &&& final(state).instruments.instruments@ == old(state).instruments.instruments@
                &&& r.0.audio_effects@.len() == 0
            },
        },
        final(state).instruments.selected == old(state).instruments.selected,
        final(state).instruments.next_id == old(state).instruments.next_id,
        final(state).instruments.next_layer_group_id == old(state).instruments.next_layer_group_id,
        final(state).instruments.editing_instrument_id == old(state).instruments.editing_instrument_id,
        final(state).instruments.next_sampler_buffer_id == old(state).instruments.next_sampler_buffer_id,
        final(state).session == old(state).session,
        final(state).midi == old(state).midi,
        final(state).clipboard == old(state).clipboard,
        final(state).audio == old(state).audio,
        final(state).io == old(state).io,
        r.0.nav@.len() == 0,
        !r.0.needs_full_sync,
{
    let mut result = DispatchResult::none();
    let sel: Option<usize> = match state.instruments.selected {
        Some(k) => if k < state.instruments.instruments.len() { Some(k) } else { None },
        None => None,
    };
    let mut switch_to: Option<bool> = None;
    let command: Option<RecordCommand>;
    if recording {
        if let Some(k) = sel {
            if state.instruments.instruments[k].source == SourceType::AudioIn && state.instruments.instruments[k].active {
                switch_to = Some(false);
            }
        }
        command = Some(RecordCommand::StopRecording);
    } else if running {
        let mut input_of: Option<InstrumentId> = None;
        if let Some(k) = sel {
            if state.instruments.instruments[k].source == SourceType::AudioIn && !state.instruments.instruments[k].active {
                switch_to = Some(true);
            }
            input_of = Some(state.instruments.instruments[k].id);
        }
        command = match action {
            RecordAction::RecordMaster => Some(RecordCommand::StartRecording { input_of: None }),
            RecordAction::RecordInput => match input_of {
                Some(id) => Some(RecordCommand::StartRecording { input_of: Some(id) }),
                None => None,
            },
        };
    } else {
        command = Some(RecordCommand::EngineNotRunning);
    }
    if let Some(on) = switch_to {
        if let Some(k) = sel {
            state.instruments.instruments[k].active = on;
            result.audio_effects.push(AudioEffect::RebuildInstruments);
            result.audio_effects.push(AudioEffect::RebuildRouting);
            proof {
                let o = old(state).instruments.instruments@;
                assert(state.instruments.instruments@ =~= o.update(k as int, Instrument { active: on, ..o[k as int] }));
            }
        }
    }
    proof {
        assert(result.audio_effects@ =~= (if switch_to is Some {
            seq![AudioEffect::RebuildInstruments, AudioEffect::RebuildRouting]
        } else {
            Seq::empty()
        }));
    }
    (result, command)
}

} // verus!
