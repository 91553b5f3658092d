//! What a dispatcher hands back to its caller: the audio work to schedule and
//! the navigation to perform, plus the feedback of background I/O.
use std::path::PathBuf;
use std::sync::mpsc::Sender;
use vstd::prelude::*;

use crate::state::{InstrumentId, EffectId, InstrumentState, SessionState};

verus! {

#[verifier::external_type_specification]
#[verifier::external_body]
pub struct ExPathBuf(PathBuf);

#[verifier::external_type_specification]
#[verifier::external_body]
#[verifier::reject_recursive_types(T)]
pub struct ExSender<T>(Sender<T>);

/// Audio work that a state change calls for.
#[derive(Clone, Copy, PartialEq, Eq, Structural, Debug)]
pub enum AudioEffect {
    RebuildInstruments,
    RebuildSession,
    RebuildRouting,
    RebuildRoutingForInstrument(InstrumentId),
    RebuildBusProcessing,
    AddInstrumentRouting(InstrumentId),
    DeleteInstrumentRouting(InstrumentId),
    UpdatePianoRoll,
    UpdateMixerParams,
    UpdateAutomation,
}

impl AudioEffect {
    /// The effects that bring one instrument up to date.
    pub open spec fn for_instrument_spec(id: InstrumentId) -> Seq<AudioEffect> {
        seq![AudioEffect::RebuildInstruments, AudioEffect::RebuildRoutingForInstrument(id)]
    }

    /// The effects that bring everything up to date.
    pub open spec fn all_spec() -> Seq<AudioEffect> {
        seq![
            AudioEffect::RebuildInstruments,
            AudioEffect::RebuildSession,
            AudioEffect::RebuildRouting,
            AudioEffect::UpdatePianoRoll,
            AudioEffect::UpdateAutomation,
        ]
    }

    pub fn for_instrument(id: InstrumentId) -> (v: Vec<AudioEffect>)
        ensures
            v@ == Self::for_instrument_spec(id),
    {
        let v = vec![AudioEffect::RebuildInstruments, AudioEffect::RebuildRoutingForInstrument(id)];
        assert(v@ =~= Self::for_instrument_spec(id));
        v
    }

    pub fn all() -> (v: Vec<AudioEffect>)
        ensures
            v@ == Self::all_spec(),
    {
        let v = vec![
            AudioEffect::RebuildInstruments,
            AudioEffect::RebuildSession,
            AudioEffect::RebuildRouting,
            AudioEffect::UpdatePianoRoll,
            AudioEffect::UpdateAutomation,
        ];
        assert(v@ =~= Self::all_spec());
        v
    }
}

/// An audio operation a dispatcher asks the caller to perform on the audio
/// thread after the state change.
#[derive(Clone, Copy, PartialEq, Eq, Structural, Debug)]
pub enum AudioSideEffect {
    SetPlaying { playing: bool },
    ResetPlayhead,
    ReleaseAllVoices,
    ClearActiveNotes,
    CancelExport,
    /// Load the file that a render produced into the given sample buffer.
    LoadSample { buffer_id: u32 },
    /// Start rendering one instrument to a new file.
    StartInstrumentRender { instrument_id: InstrumentId },
    /// Start bouncing the master output to a new file.
    StartMasterBounce,
    /// Start exporting each instrument to a new file of its own.
    StartStemExport,
}

/// Which part of an instrument a VST action addresses.
#[derive(Clone, Copy, PartialEq, Eq, Structural, Debug)]
pub enum VstTarget {
    Source,
    Effect(EffectId),
}

/// Panes the UI can navigate to.
#[derive(Clone, Copy, PartialEq, Eq, Structural, Debug)]
pub enum PaneId {
    Add,
    InstrumentEdit,
    InstrumentPicker,
    Mixer,
    PianoRoll,
    Sequencer,
    FileBrowser,
    VstParams,
    Track,
    Confirm,
    ProjectBrowser,
}

/// What a file browser opened by a dispatcher is for.
#[derive(Clone, Copy, PartialEq, Eq, Structural, Debug)]
pub enum FileSelectAction {
    LoadDrumSample(usize),
    LoadChopperSample,
    LoadSample(InstrumentId),
    LoadImpulseResponse(InstrumentId, EffectId),
}

/// Navigation requested by a dispatcher.
#[derive(Clone, Copy, PartialEq, Eq, Structural, Debug)]
pub enum NavIntent {
    Pop,
    ConditionalPop(PaneId),
    PushTo(PaneId),
    SwitchTo(PaneId),
    PopOrSwitchTo(PaneId),
    OpenVstParams(InstrumentId, VstTarget),
    OpenFileBrowser(FileSelectAction),
}

/// What a dispatcher returns: audio work, navigation and whether the audio
/// thread needs a full state sync.
pub struct DispatchResult {
    pub audio_effects: Vec<AudioEffect>,
    pub nav: Vec<NavIntent>,
    pub needs_full_sync: bool,
}

impl DispatchResult {
    /// Nothing to do.
    pub fn none() -> (r: Self)
        ensures
            r.audio_effects@ == Seq::<AudioEffect>::empty(),
            r.nav@ == Seq::<NavIntent>::empty(),
            !r.needs_full_sync,
    {
        DispatchResult { audio_effects: Vec::new(), nav: Vec::new(), needs_full_sync: false }
    }

    /// Only a navigation step.
    pub fn with_nav(nav: NavIntent) -> (r: Self)
        ensures
            r.audio_effects@ == Seq::<AudioEffect>::empty(),
            r.nav@ == seq![nav],
            !r.needs_full_sync,
    {
        let v = vec![nav];
        assert(v@ =~= seq![nav]);
        DispatchResult { audio_effects: Vec::new(), nav: v, needs_full_sync: false }
    }
}

/// Which part of the state an undo step restored.
#[derive(Clone, Copy, PartialEq, Eq, Structural, Debug)]
pub enum UndoScope {
    SingleInstrument(InstrumentId),
    Session,
    Full,
}

/// A custom SynthDef imported by the user.
#[derive(Clone, Debug)]
pub struct CustomSynthDef {
    pub name: String,
    pub synthdef_name: String,
}

/// Feedback from async I/O operations to the main thread.
#[allow(inconsistent_fields)]
pub enum IoFeedback {
    SaveComplete { id: u64, path: PathBuf, result: Result<String, String> },
    LoadComplete {
        id: u64,
        path: PathBuf,
        result: Result<(SessionState, InstrumentState, String), String>,
    },
    ImportSynthDefComplete { id: u64, result: Result<(CustomSynthDef, String, PathBuf), String> },
    ImportSynthDefLoaded { id: u64, result: Result<String, String> },
}

} // verus!
