//! Session actions that change the state directly. Saving, loading and
//! importing run in the background and are not handled by this crate.
use vstd::prelude::*;

use crate::action::{AudioEffect, DispatchResult, FileSelectAction, NavIntent, PaneId};
use crate::state::{is_fresh_instrument_state, is_fresh_session, AppState, InstrumentState, SessionState};

verus! {

/// A session action.
#[derive(Clone, Copy, PartialEq, Eq, Structural, Debug)]
pub enum SessionAction {
    /// Start over with an empty project.
    NewProject,
    ToggleMasterMute,
    OpenFileBrowser(FileSelectAction),
}

/// The navigation a session action asks for.
pub open spec fn session_nav(action: SessionAction) -> Seq<NavIntent> {
    match action {
        SessionAction::NewProject => seq![
            NavIntent::ConditionalPop(PaneId::Confirm),
            NavIntent::ConditionalPop(PaneId::ProjectBrowser),
            NavIntent::SwitchTo(PaneId::Add),
        ],
        SessionAction::ToggleMasterMute => Seq::empty(),
        SessionAction::OpenFileBrowser(f) => seq![NavIntent::OpenFileBrowser(f)],
    }
}

/// The audio work a session action asks for.
pub open spec fn session_effects(action: SessionAction) -> Seq<AudioEffect> {
    match action {
        SessionAction::NewProject => AudioEffect::all_spec(),
        SessionAction::ToggleMasterMute => seq![AudioEffect::RebuildSession, AudioEffect::UpdateMixerParams],
        SessionAction::OpenFileBrowser(_) => Seq::empty(),
    }
}

/// The state change of a session action.
pub open spec fn session_applied(o: AppState, n: AppState, action: SessionAction) -> bool {
    &&& n.midi == o.midi
    &&& n.clipboard == o.clipboard
    &&& n.audio == o.audio
    &&& n.io == o.io
    &&& match action {
        SessionAction::NewProject => is_fresh_session(n.session) && is_fresh_instrument_state(n.instruments),
        SessionAction::ToggleMasterMute => {
            &&& n.instruments == o.instruments
            &&& n.session.mixer.master_mute == !o.session.mixer.master_mute
            &&& n.session.mixer.buses == o.session.mixer.buses
            &&& n.session.mixer.layer_group_mixers == o.session.mixer.layer_group_mixers
            &&& n.session.mixer.selection == o.session.mixer.selection
            &&& n.session.automation_lanes == o.session.automation_lanes
            &&& n.session.next_lane_id == o.session.next_lane_id
            &&& n.session.midi_recording == o.session.midi_recording
            &&& n.session.piano_roll == o.session.piano_roll
            &&& n.session.arrangement == o.session.arrangement
        },
        SessionAction::OpenFileBrowser(_) => n.instruments == o.instruments && n.session == o.session,
    }
}

/// Dispatch a session action.
pub fn dispatch_session(action: &SessionAction, state: &mut AppState) -> (r: DispatchResult)
    requires
        old(state).wf(),
    ensures
        final(state).wf(),
        session_applied(*old(state), *final(state), *action),
        r.audio_effects@ == session_effects(*action),
        r.nav@ == session_nav(*action),
        !r.needs_full_sync,
{
    let mut result = DispatchResult::none();
    match action {
        SessionAction::NewProject => {
            state.session = SessionState::new();
            state.instruments = InstrumentState::new();
            result.audio_effects = AudioEffect::all();
            result.nav.push(NavIntent::ConditionalPop(PaneId::Confirm));
            result.nav.push(NavIntent::ConditionalPop(PaneId::ProjectBrowser));
            result.nav.push(NavIntent::SwitchTo(PaneId::Add));
        },
        SessionAction::ToggleMasterMute => {
            state.session.mixer.master_mute = !state.session.mixer.master_mute;
            result.audio_effects.push(AudioEffect::RebuildSession);
            result.audio_effects.push(AudioEffect::UpdateMixerParams);
        },
        SessionAction::OpenFileBrowser(f) => {
            result.nav.push(NavIntent::OpenFileBrowser(*f));
        },
    }
    proof {
        assert(result.nav@ =~= session_nav(*action));
        assert(result.audio_effects@ =~= session_effects(*action));
    }
    result
}

} // verus!
