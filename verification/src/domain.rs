//! The domain actions that change application state, routed to their
//! dispatchers, and which of them the audio thread can apply to its own copy
//! of the state.
use vstd::prelude::*;

use crate::action::{AudioSideEffect, DispatchResult};
use crate::arrangement::{
    arrangement_action_ok, arrangement_dispatched, arrangement_effects, arrangement_side_effects, dispatch_arrangement,
    ArrangementAction,
};
use crate::audio_feedback::{dispatch_audio_feedback, feedback_applied, feedback_effects, feedback_side_effects, AudioFeedback};
use crate::automation::{automation_effects, dispatch_automation, lanes_after, AutomationAction};
use crate::bus::{
    bus_action_applied, bus_action_effects, bus_can_add_effect, dispatch_bus, dispatch_layer_group, group_action_applied,
    group_action_effects, group_can_add_effect, BusAction, LayerGroupAction,
};
use crate::chopper::{chopper_action_ok, chopper_dispatched, chopper_effects, chopper_side_effects, dispatch_chopper, ChopperAction};
use crate::dispatch::{dispatch_midi, midi_action_applied, MidiAction};
use crate::instrument::{
    dispatch_instrument, instrument_action_applied, instrument_action_effects, instrument_action_ok, project_instrument,
    InstrumentAction,
};
use crate::mixer::{
    dispatch_mixer, mixer_action_applied, mixer_action_effects, project_mixer, selection_in_range, MixerAction,
    MAX_SELECTION_INDEX,
};
use crate::piano_roll::{
    dispatch_piano_roll, piano_roll_action_ok, piano_roll_dispatched, piano_roll_effects, piano_roll_side_effects,
    PianoRollAction,
};
use crate::sequencer::{
    dispatch_sequencer, sequencer_action_effects, sequencer_action_ok, sequencer_dispatched, sequencer_side_effects,
    SequencerAction,
};
use crate::session::{dispatch_session, session_applied, session_effects, session_nav, SessionAction};
use crate::piano_roll::{AudioState, IoState};
use crate::state::{AppState, InstrumentState, MidiConnectionState, SessionState};

verus! {

/// An action on the application's domain state.
#[derive(Clone, Debug)]
pub enum DomainAction {
    Instrument(InstrumentAction),
    Mixer(MixerAction),
    PianoRoll(PianoRollAction),
    Arrangement(ArrangementAction),
    Session(SessionAction),
    Sequencer(SequencerAction),
    Chopper(ChopperAction),
    Automation(AutomationAction),
    Midi(MidiAction),
    Bus(BusAction),
    LayerGroup(LayerGroupAction),
    AudioFeedback(AudioFeedback),
}

/// What each dispatcher needs of the state and the action.
pub open spec fn domain_action_ok(s: AppState, action: DomainAction) -> bool {
    &&& s.wf()
    &&& match action {
        DomainAction::Instrument(a) => instrument_action_ok(s.instruments, a),
        DomainAction::Mixer(a) => {
            a is Move ==> {
                &&& selection_in_range(s.session.mixer.selection)
                &&& s.session.mixer.layer_group_mixers@.len() <= MAX_SELECTION_INDEX
                &&& s.session.mixer.buses@.len() <= MAX_SELECTION_INDEX
            }
        },
        DomainAction::PianoRoll(a) => piano_roll_action_ok(a),
        DomainAction::Arrangement(a) => s.session.arrangement.wf() && arrangement_action_ok(s, a),
        DomainAction::Session(_) => true,
        DomainAction::Sequencer(a) => sequencer_action_ok(a)
            && (a is LoadSampleResult ==> s.instruments.next_sampler_buffer_id < u32::MAX),
        DomainAction::Chopper(a) => chopper_action_ok(s, a),
        DomainAction::Automation(a) => a is AddLane ==> s.session.next_lane_id < u32::MAX,
        DomainAction::Midi(_) => true,
        DomainAction::Bus(a) => a matches BusAction::AddEffect(id, _) ==> bus_can_add_effect(s.session.mixer.buses@, id),
        DomainAction::LayerGroup(a) => a matches LayerGroupAction::AddEffect(g, _)
            ==> group_can_add_effect(s.session.mixer.layer_group_mixers@, g),
        DomainAction::AudioFeedback(f) => f is RenderComplete ==> s.instruments.next_sampler_buffer_id < u32::MAX,
    }
}

/// The parts of the state that no dispatcher but the named ones touch.
pub open spec fn outside_state_kept(o: AppState, n: AppState) -> bool {
    &&& n.midi == o.midi
    &&& n.clipboard == o.clipboard
    &&& n.audio == o.audio
    &&& n.io == o.io
}

/// What dispatching `action` does: the state change, the audio operations
/// appended to the side effects, and the result, each as the action's own
/// dispatcher states it.
pub open spec fn domain_dispatched(
    o: AppState,
    n: AppState,
    action: DomainAction,
    running: bool,
    oe: Seq<AudioSideEffect>,
    ne: Seq<AudioSideEffect>,
    r: DispatchResult,
) -> bool {
    &&& !r.needs_full_sync
    &&& match action {
        DomainAction::Instrument(a) => {
            let e = instrument_action_effects(o.instruments, n.instruments.instruments@.len() as int, a);
            &&& n.instruments.wf()
            &&& n.session.piano_roll.wf()
            &&& outside_state_kept(o, n)
            &&& instrument_action_applied(o.instruments, o.session, n.instruments, n.session, a)
            &&& r.audio_effects@ == e.0 && r.nav@ == e.1 && ne == oe
        },
        DomainAction::Mixer(a) => {
            &&& outside_state_kept(o, n)
            &&& mixer_action_applied(o.instruments, o.session, n.instruments, n.session, a)
            &&& r.audio_effects@ == mixer_action_effects(o.session.mixer.selection, n.instruments.instruments@, a)
            &&& r.nav@.len() == 0 && ne == oe
        },
        DomainAction::PianoRoll(a) => {
            &&& n.session.piano_roll.wf()
            &&& piano_roll_dispatched(o, n, a, running)
            &&& ne == oe + piano_roll_side_effects(o, a, running)
            &&& r.audio_effects@ == piano_roll_effects(o, a, running) && r.nav@.len() == 0
        },
        DomainAction::Arrangement(a) => {
            &&& n.session.piano_roll.wf() && n.session.arrangement.wf()
            &&& arrangement_dispatched(o, n, a)
            &&& ne == oe + arrangement_side_effects(o, a, running)
            &&& r.audio_effects@ == arrangement_effects(o, a).0 && r.nav@ == arrangement_effects(o, a).1
        },
        DomainAction::Session(a) => {
            &&& n.wf()
            &&& session_applied(o, n, a)
            &&& r.audio_effects@ == session_effects(a) && r.nav@ == session_nav(a) && ne == oe
        },
        DomainAction::Sequencer(a) => {
            &&& n.instruments.wf()
            &&& sequencer_dispatched(o, n, a)
            &&& ne == oe + sequencer_side_effects(o, a, running)
            &&& r.audio_effects@ == sequencer_action_effects(a).0 && r.nav@ == sequencer_action_effects(a).1
        },
        DomainAction::Chopper(a) => {
            &&& n.instruments.wf()
            &&& chopper_dispatched(o, n, a)
            &&& ne == oe + chopper_side_effects(o, a, running)
            &&& r.audio_effects@ == chopper_effects(a).0 && r.nav@ == chopper_effects(a).1
        },
        DomainAction::Automation(a) => {
            &&& lanes_after(o.session.automation_lanes@, o.session.next_lane_id, n.session.automation_lanes@, n.session.next_lane_id, a)
            &&& n.instruments == o.instruments
            &&& outside_state_kept(o, n)
            &&& n.session.mixer == o.session.mixer
            &&& n.session.midi_recording == o.session.midi_recording
            &&& n.session.piano_roll == o.session.piano_roll
            &&& n.session.arrangement == o.session.arrangement
            &&& r.audio_effects@ == automation_effects(a) && r.nav@.len() == 0 && ne == oe
        },
        DomainAction::Midi(a) => {
            &&& n.wf()
            &&& midi_action_applied(o, n, a)
            &&& r.audio_effects@.len() == 0 && r.nav@.len() == 0 && ne == oe
        },
        DomainAction::Bus(a) => {
            &&& n.wf()
            &&& bus_action_applied(o, n, a)
            &&& r.audio_effects@ == bus_action_effects(o, a).0 && r.nav@ == bus_action_effects(o, a).1 && ne == oe
        },
        DomainAction::LayerGroup(a) => {
            &&& n.wf()
            &&& group_action_applied(o, n, a)
            &&& r.audio_effects@ == group_action_effects(a).0 && r.nav@ == group_action_effects(a).1 && ne == oe
        },
        DomainAction::AudioFeedback(f) => {
            &&& n.wf()
            &&& feedback_applied(o, n, f)
            &&& ne == oe + feedback_side_effects(o, f)
            &&& r.audio_effects@ == feedback_effects(f) && r.nav@.len() == 0
        },
    }
}

/// Route a domain action to its dispatcher. `running` is whether the audio
/// engine runs; the audio operations to perform are appended to `effects`.
pub fn dispatch_action(
    action: &DomainAction,
    state: &mut AppState,
    running: bool,
    effects: &mut Vec<AudioSideEffect>,
) -> (r: DispatchResult)
    requires
        domain_action_ok(*old(state), *action),
    ensures
        final(state).wf(),
        domain_dispatched(*old(state), *final(state), *action, running, old(effects)@, final(effects)@, r),
{
    match action {
        DomainAction::Instrument(a) => dispatch_instrument(a, state),
        DomainAction::Mixer(a) => dispatch_mixer(a, state),
        DomainAction::PianoRoll(a) => dispatch_piano_roll(a, state, running, effects),
        DomainAction::Arrangement(a) => dispatch_arrangement(a, state, running, effects),
        DomainAction::Session(a) => dispatch_session(a, state),
        DomainAction::Sequencer(a) => dispatch_sequencer(a, state, running, effects),
        DomainAction::Chopper(a) => dispatch_chopper(a, state, running, effects),
        DomainAction::Automation(a) => dispatch_automation(a, state),
        DomainAction::Midi(a) => dispatch_midi(a, state),
        DomainAction::Bus(a) => dispatch_bus(a, state),
        DomainAction::LayerGroup(a) => dispatch_layer_group(a, state),
        DomainAction::AudioFeedback(f) => dispatch_audio_feedback(f, state, effects),
    }
}

/// Whether the audio thread applies an action to its own copy of the state.
/// It cannot for actions whose outcome depends on what only the full state
/// holds (the arrangement, the drum sequencer and chopper, renders and
/// exports in progress) or that replace the whole project; for those the
/// caller sends the full state instead.
pub open spec fn projectable(action: DomainAction) -> bool {
    match action {
        DomainAction::Arrangement(_) | DomainAction::Sequencer(_) | DomainAction::Chopper(_) => false,
        DomainAction::Session(a) => !(a is NewProject),
        DomainAction::PianoRoll(a) => !(a is CancelExport || a is RenderToWav || a is BounceToWav || a is ExportStems),
        _ => true,
    }
}

/// Actions whose projection is the dispatcher's own state change, run on the
/// audio thread's copies. Instrument and mixer actions have projections of
/// their own with the same state-change specs; audio feedback reports on the
/// audio thread's own work and leaves its copies as they are.
pub open spec fn projected_by_dispatch(action: DomainAction) -> bool {
    projectable(action) && match action {
        DomainAction::Instrument(_) | DomainAction::Mixer(_) | DomainAction::AudioFeedback(_) => false,
        _ => true,
    }
}

/// The application state made of the audio thread's copies of the
/// instruments and the session and nothing else: no MIDI port, an empty
/// clipboard, the transport stopped at the start, and no render or export
/// in progress.
pub open spec fn detached(i: InstrumentState, s: SessionState) -> AppState {
    AppState {
        instruments: i,
        session: s,
        midi: MidiConnectionState { connected_port: None },
        clipboard: None,
        audio: AudioState {
            playing: false,
            playhead: 0,
            telemetry_avg_tick_us: 0,
            telemetry_max_tick_us: 0,
            telemetry_p95_tick_us: 0,
            telemetry_overruns: 0,
            telemetry_osc_queue_depth: 0,
        },
        io: IoState { pending_export: None, pending_render: None },
    }
}

/// Dispatching `action` on the detached state of copies `oi`, `os` leaves
/// copies `ni`, `ns`.
pub open spec fn dispatch_gives(oi: InstrumentState, os: SessionState, ni: InstrumentState, ns: SessionState, action: DomainAction) -> bool {
    exists|n: AppState, ne: Seq<AudioSideEffect>, r: DispatchResult|
        #[trigger] domain_dispatched(detached(oi, os), n, action, false, Seq::empty(), ne, r)
            && n.instruments == ni && n.session == ns
}

/// Run an action's dispatcher on the audio thread's copies.
fn project_by_dispatch(action: &DomainAction, instruments: &mut InstrumentState, session: &mut SessionState)
    requires
        domain_action_ok(detached(*old(instruments), *old(session)), *action),
    ensures
        dispatch_gives(*old(instruments), *old(session), *final(instruments), *final(session), *action),
{
    let mut st = AppState::new();
    std::mem::swap(&mut st.instruments, instruments);
    std::mem::swap(&mut st.session, session);
    let ghost o = st;
    assert(o == detached(*old(instruments), *old(session)));
    let mut effects: Vec<AudioSideEffect> = Vec::new();
    let r = dispatch_action(action, &mut st, false, &mut effects);
    let ghost n = st;
    proof {
        assert(effects@ =~= Seq::<AudioSideEffect>::empty() + (effects@));
    }
    std::mem::swap(&mut st.instruments, instruments);
    std::mem::swap(&mut st.session, session);
    assert(domain_dispatched(detached(*old(instruments), *old(session)), n, *action, false, Seq::empty(), effects@, r));
}

/// Apply an action's state change to the audio thread's copies of the
/// instruments and the session, as its dispatcher makes it. Returns whether
/// the action was handled; when it was not, the copies are unchanged and the
/// caller sends the full state.
pub fn project_action(action: &DomainAction, instruments: &mut InstrumentState, session: &mut SessionState) -> (handled: bool)
    requires
        *action matches DomainAction::Instrument(a) ==> instrument_action_ok(*old(instruments), a),
        *action matches DomainAction::Mixer(a) ==> {
            a is Move ==> {
                &&& selection_in_range(old(session).mixer.selection)
                &&& old(session).mixer.layer_group_mixers@.len() <= MAX_SELECTION_INDEX
                &&& old(session).mixer.buses@.len() <= MAX_SELECTION_INDEX
            }
        },
        projected_by_dispatch(*action) ==> domain_action_ok(detached(*old(instruments), *old(session)), *action),
    ensures
        handled == projectable(*action),
        match *action {
            DomainAction::Instrument(a) => instrument_action_applied(*old(instruments), *old(session), *final(instruments), *final(session), a),
            DomainAction::Mixer(a) => mixer_action_applied(*old(instruments), *old(session), *final(instruments), *final(session), a),
            _ => if projected_by_dispatch(*action) {
                dispatch_gives(*old(instruments), *old(session), *final(instruments), *final(session), *action)
            } else {
                *final(instruments) == *old(instruments) && *final(session) == *old(session)
            },
        },
{
    match action {
        DomainAction::Instrument(a) => {
            project_instrument(a, instruments, session);
            true
        },
        DomainAction::Mixer(a) => {
            project_mixer(a, instruments, session);
            true
        },
        DomainAction::AudioFeedback(_) => true,
        DomainAction::Arrangement(_) | DomainAction::Sequencer(_) | DomainAction::Chopper(_) => false,
        DomainAction::Session(SessionAction::NewProject) => false,
        DomainAction::PianoRoll(PianoRollAction::CancelExport) | DomainAction::PianoRoll(PianoRollAction::RenderToWav(_))
        | DomainAction::PianoRoll(PianoRollAction::BounceToWav) | DomainAction::PianoRoll(PianoRollAction::ExportStems) => false,
        _ => {
            project_by_dispatch(action, instruments, session);
            true
        },
    }
}

/// Whether the audio thread can apply `action` to its own copies.
pub fn is_projectable(action: &DomainAction) -> (r: bool)
    ensures
        r == projectable(*action),
{
    match action {
        DomainAction::Arrangement(_) | DomainAction::Sequencer(_) | DomainAction::Chopper(_) => false,
        DomainAction::Session(SessionAction::NewProject) => false,
        DomainAction::PianoRoll(PianoRollAction::CancelExport) | DomainAction::PianoRoll(PianoRollAction::RenderToWav(_))
        | DomainAction::PianoRoll(PianoRollAction::BounceToWav) | DomainAction::PianoRoll(PianoRollAction::ExportStems) => false,
        _ => true,
    }
}

/// Dispatch a domain action and decide how the audio thread catches up: the
/// caller forwards the action for the audio thread to project, and when the
/// audio thread cannot project it and the action asks for audio work, the
/// result says that the full state must be sent.
pub fn dispatch_domain(
    action: &DomainAction,
    state: &mut AppState,
    running: bool,
    effects: &mut Vec<AudioSideEffect>,
) -> (r: DispatchResult)
    requires
        domain_action_ok(*old(state), *action),
    ensures
        final(state).wf(),
        domain_dispatched(*old(state), *final(state), *action, running, old(effects)@, final(effects)@,
            DispatchResult { needs_full_sync: false, ..r }),
        r.needs_full_sync == (!projectable(*action) && r.audio_effects@.len() > 0),
{
    let mut result = dispatch_action(action, state, running, effects);
    let reducible = is_projectable(action);
    result.needs_full_sync = !reducible && result.audio_effects.len() > 0;
    result
}

} // verus!
