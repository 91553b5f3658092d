//! The session model that the dispatchers mutate: effect chains, mixer buses,
//! instruments with their mixer routing, layer groups, automation lanes and
//! MIDI recording settings.
use vstd::prelude::*;

use crate::arrangement::{ArrangementState, PlayMode};
pub use crate::names::bus_default_name;
use crate::names::default_bus_name;
use crate::piano_roll::{track_appended, AudioState, ClipboardNote, IoState, PianoRollState, TICKS_PER_BEAT, TimeSignature};
use crate::sequencer::{kit_wf, is_fresh_sequencer, DrumSequencer, DrumStep};

verus! {

pub type InstrumentId = u32;
pub type EffectId = u32;
pub type BusId = u8;

/// Kinds of effect that can sit in an effect chain.
#[derive(Clone, Copy, PartialEq, Eq, Structural, Debug)]
pub enum EffectType {
    Delay,
    Reverb,
    ConvolutionReverb,
    Gate,
    Limiter,
    SidechainComp,
    TapeComp,
    /// A VST plugin, by its id in the plugin registry
    Vst(u32),
}

/// One effect slot of a chain. Its parameter values are not part of this model.
#[derive(Clone, Copy, PartialEq, Eq, Structural, Debug)]
pub struct EffectSlot {
    pub id: EffectId,
    pub effect_type: EffectType,
    pub enabled: bool,
}

/// An ordered chain of effects with ids handed out from a counter.
#[derive(Clone, Debug)]
pub struct EffectChain {
    pub effects: Vec<EffectSlot>,
    pub next_effect_id: EffectId,
}

/// Whether a chain holds an effect with the given id.
pub open spec fn has_effect(s: Seq<EffectSlot>, id: EffectId) -> bool {
    exists|i: int| 0 <= i < s.len() && s[i].id == id
}

/// Clamp an integer into `[lo, hi]`.
pub open spec fn clamp_int(x: int, lo: int, hi: int) -> int {
    if x < lo { lo } else if x > hi { hi } else { x }
}

/// `new` is `old` with the effect `id` removed (unchanged when absent).
pub open spec fn chain_removed(old: Seq<EffectSlot>, new: Seq<EffectSlot>, id: EffectId) -> bool {
    &&& !has_effect(old, id) ==> new == old
    &&& forall|i: int| 0 <= i < old.len() && old[i].id == id ==> new == old.remove(i)
}

/// `new` is `old` with the enabled flag of effect `id` flipped (unchanged when absent).
pub open spec fn chain_toggled(old: Seq<EffectSlot>, new: Seq<EffectSlot>, id: EffectId) -> bool {
    &&& !has_effect(old, id) ==> new == old
    &&& forall|i: int| 0 <= i < old.len() && old[i].id == id
        ==> new == old.update(i, EffectSlot { enabled: !old[i].enabled, ..old[i] })
}

/// `new` is `old` with effect `id` moved by `direction` places, clamped to the chain.
pub open spec fn chain_moved(old: Seq<EffectSlot>, new: Seq<EffectSlot>, id: EffectId, direction: i8) -> bool {
    &&& !has_effect(old, id) ==> new == old
    &&& forall|i: int| 0 <= i < old.len() && old[i].id == id
        ==> new == old.remove(i).insert(clamp_int(i + direction, 0, old.len() - 1), old[i])
}

impl EffectChain {
    /// Ids are distinct and below the counter.
    pub open spec fn wf(&self) -> bool {
        &&& forall|i: int, j: int|
            0 <= i < j < self.effects@.len() ==> self.effects@[i].id != self.effects@[j].id
        &&& forall|i: int| 0 <= i < self.effects@.len() ==> self.effects@[i].id < self.next_effect_id
    }

    pub fn new() -> (c: Self)
        ensures
            c.wf(),
            c.effects@ == Seq::<EffectSlot>::empty(),
            c.next_effect_id == 0,
    {
        EffectChain { effects: Vec::new(), next_effect_id: 0 }
    }

    /// Position of the effect with the given id.
    pub fn position(&self, id: EffectId) -> (r: Option<usize>)
        ensures
            match r {
                Some(i) => i < self.effects@.len() && self.effects@[i as int].id == id
                    && forall|k: int| 0 <= k < i ==> self.effects@[k].id != id,
                None => !has_effect(self.effects@, id),
            },
    {
        let mut i: usize = 0;
        while i < self.effects.len()
            invariant
                i <= self.effects@.len(),
                forall|k: int| 0 <= k < i ==> self.effects@[k].id != id,
            decreases self.effects@.len() - i,
        {
            if self.effects[i].id == id {
                return Some(i);
            }
            i = i + 1;
        }
        None
    }

    /// The effect with the given id.
    pub fn effect_by_id(&self, id: EffectId) -> (r: Option<EffectSlot>)
        ensures
            match r {
                Some(e) => e.id == id && self.effects@.contains(e),
                None => !has_effect(self.effects@, id),
            },
    {
        match self.position(id) {
            Some(i) => Some(self.effects[i]),
            None => None,
        }
    }

    /// Append an enabled effect with a fresh id; returns that id.
    pub fn add_effect(&mut self, effect_type: EffectType) -> (id: EffectId)
        requires
            old(self).wf(),
            old(self).next_effect_id < u32::MAX,
        ensures
            final(self).wf(),
            id == old(self).next_effect_id,
            final(self).effects@ == old(self).effects@.push(EffectSlot { id, effect_type, enabled: true }),
            final(self).next_effect_id == old(self).next_effect_id + 1,
    {
        let id = self.next_effect_id;
        self.effects.push(EffectSlot { id, effect_type, enabled: true });
        self.next_effect_id = id + 1;
        id
    }

    /// Remove the effect with the given id; nothing changes if there is none.
    pub fn remove_effect(&mut self, id: EffectId)
        requires
            old(self).wf(),
        ensures
            final(self).wf(),
            final(self).next_effect_id == old(self).next_effect_id,
            chain_removed(old(self).effects@, final(self).effects@, id),
    {
        if let Some(i) = self.position(id) {
            self.effects.remove(i);
        }
    }

    /// Flip the enabled flag of the effect with the given id.
    pub fn toggle_bypass(&mut self, id: EffectId)
        requires
            old(self).wf(),
        ensures
            final(self).wf(),
            final(self).next_effect_id == old(self).next_effect_id,
            chain_toggled(old(self).effects@, final(self).effects@, id),
    {
        if let Some(i) = self.position(id) {
            let e = self.effects[i];
            self.effects.set(i, EffectSlot { enabled: !e.enabled, ..e });
        }
    }

    /// Move the effect with the given id by `direction` places, stopping at
    /// either end of the chain.
    #[verifier::spinoff_prover]
    #[verifier::rlimit(30)]
    pub fn move_effect(&mut self, id: EffectId, direction: i8)
        requires
            old(self).wf(),
        ensures
            final(self).wf(),
            final(self).next_effect_id == old(self).next_effect_id,
            chain_moved(old(self).effects@, final(self).effects@, id, direction),
    {
        if let Some(pos) = self.position(id) {
            let len = self.effects.len();
            let target: usize = if direction < 0 {
                let d: usize = (-(direction as i16)) as usize;
                if d > pos { 0 } else { pos - d }
            } else {
                let d: usize = direction as usize;
                if d > len - 1 - pos { len - 1 } else { pos + d }
            };
            assert(target as int == clamp_int(pos + direction, 0, len - 1));
            let e = self.effects.remove(pos);
            self.effects.insert(target, e);
            proof {
                let o = old(self).effects@;
                let n = self.effects@;
                let r = o.remove(pos as int);
                assert(forall|x: int| 0 <= x < r.len() ==> r[x] == o[if x < pos { x } else { x + 1 }]);
                assert(forall|x: int| 0 <= x < n.len() ==> n[x] == (if x < target { r[x] } else if x == target { e } else { r[x - 1] }));
                assert forall|a: int, b: int| 0 <= a < b < n.len() implies n[a].id != n[b].id by {
                }
                assert forall|i: int| 0 <= i < o.len() && o[i].id == id implies i == pos by {}
            }
        }
    }
}

/// Where a mixer strip sends its output.
#[derive(Clone, Copy, PartialEq, Eq, Structural, Debug)]
pub enum OutputTarget {
    Master,
    Bus(BusId),
}

/// Where an aux send taps the signal.
#[derive(Clone, Copy, PartialEq, Eq, Structural, Debug)]
pub enum TapPoint {
    PostFader,
    PreFader,
}

impl TapPoint {
    /// The other tap point.
    pub fn cycle(self) -> (t: TapPoint)
        ensures
            t != self,
    {
        match self {
            TapPoint::PostFader => TapPoint::PreFader,
            TapPoint::PreFader => TapPoint::PostFader,
        }
    }
}

/// An aux send from a strip to a bus. Its level is not part of this model.
#[derive(Clone, Copy, PartialEq, Eq, Structural, Debug)]
pub struct MixerSend {
    pub bus_id: BusId,
    pub enabled: bool,
    pub tap_point: TapPoint,
}

/// The strip selected in the mixer view.
#[derive(Clone, Copy, PartialEq, Eq, Structural, Debug)]
pub enum MixerSelection {
    Instrument(usize),
    LayerGroup(u32),
    Bus(BusId),
    Master,
}

/// An aux bus. Its level and pan are not part of this model.
#[derive(Clone, Debug)]
pub struct MixerBus {
    pub id: BusId,
    pub name: String,
    pub mute: bool,
    pub solo: bool,
    pub effect_chain: EffectChain,
}

/// The mixer strip of a layer group. Its level and pan are not part of this model.
#[derive(Clone, Debug)]
pub struct LayerGroupMixer {
    pub group_id: u32,
    pub mute: bool,
    pub solo: bool,
    pub output_target: OutputTarget,
    pub sends: Vec<MixerSend>,
    pub effect_chain: EffectChain,
    /// Whether the strip's EQ is in the signal path (its band settings are not part of this model).
    pub eq_enabled: bool,
}

/// A new layer group strip: unmuted, to master, one disabled post-fader send
/// per bus, empty effect chain, EQ on.
pub open spec fn fresh_group_strip(g: LayerGroupMixer, group_id: u32, buses: Seq<u8>) -> bool {
    &&& g.group_id == group_id
    &&& !g.mute
    &&& !g.solo
    &&& g.output_target == OutputTarget::Master
    &&& g.sends@ == buses.map_values(|b: u8| MixerSend { bus_id: b, enabled: false, tap_point: TapPoint::PostFader })
    &&& g.effect_chain.wf()
    &&& g.effect_chain.effects@.len() == 0
    &&& g.eq_enabled
}

impl LayerGroupMixer {
    /// The strip of a layer group, with one disabled send per bus.
    pub fn new(group_id: u32, buses: &Vec<BusId>) -> (g: Self)
        ensures
            fresh_group_strip(g, group_id, buses@),
    {
        let mut sends: Vec<MixerSend> = Vec::new();
        let mut i: usize = 0;
        while i < buses.len()
            invariant
                i <= buses@.len(),
                sends@ == buses@.subrange(0, i as int).map_values(|b: u8| MixerSend { bus_id: b, enabled: false, tap_point: TapPoint::PostFader }),
            decreases buses@.len() - i,
        {
            sends.push(MixerSend { bus_id: buses[i], enabled: false, tap_point: TapPoint::PostFader });
            i = i + 1;
            assert(sends@ =~= buses@.subrange(0, i as int).map_values(|b: u8| MixerSend { bus_id: b, enabled: false, tap_point: TapPoint::PostFader }));
        }
        assert(buses@.subrange(0, i as int) =~= buses@);
        LayerGroupMixer {
            group_id,
            mute: false,
            solo: false,
            output_target: OutputTarget::Master,
            sends,
            effect_chain: EffectChain::new(),
            eq_enabled: true,
        }
    }
}

/// The mixer: aux buses, layer group strips, the selection and the master mute.
#[derive(Clone, Debug)]
pub struct MixerState {
    pub buses: Vec<MixerBus>,
    pub layer_group_mixers: Vec<LayerGroupMixer>,
    pub selection: MixerSelection,
    pub master_mute: bool,
}

/// The ids of the buses, in mixer order.
pub open spec fn bus_ids_of(buses: Seq<MixerBus>) -> Seq<BusId> {
    buses.map_values(|b: MixerBus| b.id)
}

/// The ids of the layer groups that have a mixer strip, in mixer order.
pub open spec fn group_ids_of(groups: Seq<LayerGroupMixer>) -> Seq<u32> {
    groups.map_values(|g: LayerGroupMixer| g.group_id)
}

/// Kinds of sound source an instrument can have.
#[derive(Clone, Copy, PartialEq, Eq, Structural, Debug)]
pub enum SourceType {
    Saw,
    Sin,
    Sqr,
    Tri,
    Noise,
    Kit,
    Sampler,
    /// A sampler playing one buffer at the note's pitch.
    PitchedSampler,
    AudioIn,
    BusIn(BusId),
    /// A VST instrument, by its id in the plugin registry
    Vst(u32),
}

/// Filter kinds, in the order `CycleFilterType` walks them.
#[derive(Clone, Copy, PartialEq, Eq, Structural, Debug)]
pub enum FilterType {
    Lpf,
    Hpf,
    Bpf,
    Notch,
    Comb,
    Allpass,
    Vowel,
    ResDrive,
}

/// An instrument: its source, mixer routing and the structural parts of its
/// signal chain. Continuous parameters are not part of this model.
#[derive(Clone, Debug)]
pub struct Instrument {
    pub id: InstrumentId,
    pub source: SourceType,
    /// Whether the instrument sounds at all; an inactive one is skipped in playback.
    pub active: bool,
    pub mute: bool,
    pub solo: bool,
    pub output_target: OutputTarget,
    pub sends: Vec<MixerSend>,
    pub layer_group: Option<u32>,
    pub effects: EffectChain,
    pub filter: Option<FilterType>,
    pub eq_enabled: bool,
    pub lfo_enabled: bool,
    pub arp_enabled: bool,
    pub arp_octaves: u8,
    pub time_signature: Option<(u8, u8)>,
    /// The drum sequencer of a kit instrument.
    pub drum_sequencer: Option<DrumSequencer>,
    /// Octave shift applied when the instrument plays as a layer, in `-4..=4`.
    pub layer_octave_offset: i8,
    /// The sample buffer a sampler source plays.
    pub sampler_buffer: Option<u32>,
}

/// All instruments and the instrument-level counters.
#[derive(Clone, Debug)]
pub struct InstrumentState {
    pub instruments: Vec<Instrument>,
    pub selected: Option<usize>,
    pub next_id: InstrumentId,
    pub next_layer_group_id: u32,
    pub editing_instrument_id: Option<InstrumentId>,
    pub next_sampler_buffer_id: u32,
}

/// What an automation lane drives.
#[derive(Clone, Copy, PartialEq, Eq, Structural, Debug)]
pub enum AutomationTarget {
    InstrumentLevel(InstrumentId),
    InstrumentPan(InstrumentId),
    SendLevel(InstrumentId, BusId),
    BusLevel(BusId),
    EffectParam(InstrumentId, EffectId, usize),
    FilterCutoff(InstrumentId),
    FilterResonance(InstrumentId),
    LfoRate(InstrumentId),
    LfoDepth(InstrumentId),
    VstParam(InstrumentId, u32),
    Bpm,
}

impl AutomationTarget {
    /// Whether the target belongs to the given bus.
    pub open spec fn refers_to_bus(self, bus: BusId) -> bool {
        match self {
            AutomationTarget::BusLevel(b) => b == bus,
            AutomationTarget::SendLevel(_, b) => b == bus,
            _ => false,
        }
    }

    pub fn is_for_bus(&self, bus: BusId) -> (r: bool)
        ensures
            r == self.refers_to_bus(bus),
    {
        match self {
            AutomationTarget::BusLevel(b) => *b == bus,
            AutomationTarget::SendLevel(_, b) => *b == bus,
            _ => false,
        }
    }
}

/// An automation lane. Its points are not part of this model.
#[derive(Clone, Copy, PartialEq, Eq, Structural, Debug)]
pub struct AutomationLane {
    pub id: u32,
    pub target: AutomationTarget,
    pub enabled: bool,
    pub record_armed: bool,
}

/// A MIDI CC mapped onto an automation target.
#[derive(Clone, Copy, PartialEq, Eq, Structural, Debug)]
pub struct MidiCcMapping {
    pub cc: u8,
    /// `None` listens on every channel
    pub channel: Option<u8>,
    pub target: AutomationTarget,
}

/// MIDI recording settings of a session.
#[derive(Clone, Debug)]
pub struct MidiRecordingState {
    pub cc_mappings: Vec<MidiCcMapping>,
    pub channel_filter: Option<u8>,
    pub live_input_instrument: Option<InstrumentId>,
    pub note_passthrough: bool,
}

/// The session: mixer, automation lanes and MIDI recording settings.
#[derive(Clone, Debug)]
pub struct SessionState {
    pub mixer: MixerState,
    pub automation_lanes: Vec<AutomationLane>,
    pub next_lane_id: u32,
    pub midi_recording: MidiRecordingState,
    pub piano_roll: PianoRollState,
    pub arrangement: ArrangementState,
}

/// Live MIDI connection state (not saved with the session).
#[derive(Clone, Debug)]
pub struct MidiConnectionState {
    pub connected_port: Option<usize>,
}

/// What the last copy put on the clipboard.
#[derive(Clone, Debug)]
pub enum ClipboardContents {
    /// Drum steps: pad offset, step offset, step.
    DrumSteps(Vec<(usize, usize, DrumStep)>),
    /// Piano roll notes relative to the copied region.
    PianoRollNotes(Vec<ClipboardNote>),
}

/// The whole application state the dispatchers work on.
#[derive(Clone, Debug)]
pub struct AppState {
    pub instruments: InstrumentState,
    pub session: SessionState,
    pub midi: MidiConnectionState,
    pub clipboard: Option<ClipboardContents>,
    pub audio: AudioState,
    pub io: IoState,
}

/// A bus as a new mixer has it: its default name, unmuted, not soloed, with
/// an empty effect chain whose ids start at 0.
pub open spec fn is_default_bus(b: MixerBus, id: BusId) -> bool {
    &&& b.id == id
    &&& b.name@ == bus_default_name(id)
    &&& !b.mute
    &&& !b.solo
    &&& b.effect_chain.effects@.len() == 0
    &&& b.effect_chain.next_effect_id == 0
}

/// Number of aux buses a new session starts with.
pub const DEFAULT_BUS_COUNT: u8 = 8;

/// Index of the first element equal to `x`, or 0 when there is none.
pub open spec fn first_index_or_zero<T>(s: Seq<T>, x: T) -> int {
    if s.contains(x) {
        choose|i: int| 0 <= i < s.len() && s[i] == x && forall|k: int| 0 <= k < i ==> s[k] != x
    } else {
        0
    }
}

/// The choice in `first_index_or_zero` is the first occurrence.
pub proof fn lemma_first_index<T>(s: Seq<T>, x: T, i: int)
    requires
        0 <= i < s.len(),
        s[i] == x,
        forall|k: int| 0 <= k < i ==> s[k] != x,
    ensures
        first_index_or_zero(s, x) == i,
{
    assert(s.contains(x));
    let j = choose|j: int| 0 <= j < s.len() && s[j] == x && forall|k: int| 0 <= k < j ==> s[k] != x;
    assert(0 <= j < s.len() && s[j] == x && forall|k: int| 0 <= k < j ==> s[k] != x);
    if j < i {
        assert(s[j] != x);
    } else if j > i {
        assert(s[i] != x);
    }
}

/// Position of the first `u8` equal to `x`.
pub fn position_u8(v: &Vec<u8>, x: u8) -> (r: Option<usize>)
    ensures
        match r {
            Some(i) => i < v@.len() && v@[i as int] == x && forall|k: int| 0 <= k < i ==> v@[k] != x,
            None => !v@.contains(x),
        },
{
    let mut i: usize = 0;
    while i < v.len()
        invariant
            i <= v@.len(),
            forall|k: int| 0 <= k < i ==> v@[k] != x,
        decreases v@.len() - i,
    {
        if v[i] == x {
            return Some(i);
        }
        i = i + 1;
    }
    None
}

/// Position of the first `u32` equal to `x`.
pub fn position_u32(v: &Vec<u32>, x: u32) -> (r: Option<usize>)
    ensures
        match r {
            Some(i) => i < v@.len() && v@[i as int] == x && forall|k: int| 0 <= k < i ==> v@[k] != x,
            None => !v@.contains(x),
        },
{
    let mut i: usize = 0;
    while i < v.len()
        invariant
            i <= v@.len(),
            forall|k: int| 0 <= k < i ==> v@[k] != x,
        decreases v@.len() - i,
    {
        if v[i] == x {
            return Some(i);
        }
        i = i + 1;
    }
    None
}

/// Position of the first send to the given bus.
pub fn send_position(sends: &Vec<MixerSend>, bus: BusId) -> (r: Option<usize>)
    ensures
        match r {
            Some(i) => i < sends@.len() && sends@[i as int].bus_id == bus
                && forall|k: int| 0 <= k < i ==> sends@[k].bus_id != bus,
            None => forall|k: int| 0 <= k < sends@.len() ==> sends@[k].bus_id != bus,
        },
{
    let mut i: usize = 0;
    while i < sends.len()
        invariant
            i <= sends@.len(),
            forall|k: int| 0 <= k < i ==> sends@[k].bus_id != bus,
        decreases sends@.len() - i,
    {
        if sends[i].bus_id == bus {
            return Some(i);
        }
        i = i + 1;
    }
    None
}

impl MixerBus {
    /// A new bus with the default name, unmuted, not soloed, with an empty chain.
    pub fn new(id: BusId) -> (b: Self)
        ensures
            b.id == id,
            b.name@ == bus_default_name(id),
            !b.mute,
            !b.solo,
            b.effect_chain.wf(),
            b.effect_chain.effects@ == Seq::<EffectSlot>::empty(),
            b.effect_chain.next_effect_id == 0,
    {
        MixerBus { id, name: default_bus_name(id), mute: false, solo: false, effect_chain: EffectChain::new() }
    }
}

impl MixerState {
    /// Bus ids are distinct and effect chains are well formed.
    pub open spec fn wf(&self) -> bool {
        &&& forall|i: int, j: int|
            0 <= i < j < self.buses@.len() ==> self.buses@[i].id != self.buses@[j].id
        &&& forall|i: int| 0 <= i < self.buses@.len() ==> (#[trigger] self.buses@[i]).effect_chain.wf()
        &&& forall|i: int| 0 <= i < self.layer_group_mixers@.len()
            ==> (#[trigger] self.layer_group_mixers@[i]).effect_chain.wf()
    }

    /// A mixer with buses 1..=`DEFAULT_BUS_COUNT`, the first instrument selected.
    pub fn new() -> (m: Self)
        ensures
            m.wf(),
            m.buses@.len() == DEFAULT_BUS_COUNT,
            forall|i: int| 0 <= i < DEFAULT_BUS_COUNT ==> is_default_bus(#[trigger] m.buses@[i], (i + 1) as u8),
            m.layer_group_mixers@.len() == 0,
            m.selection == MixerSelection::Instrument(0),
            !m.master_mute,
    {
        let mut buses: Vec<MixerBus> = Vec::new();
        let mut id: u8 = 1;
        while id <= DEFAULT_BUS_COUNT
            invariant
                1 <= id <= DEFAULT_BUS_COUNT + 1,
                buses@.len() == id - 1,
                forall|i: int| 0 <= i < buses@.len() ==> is_default_bus(#[trigger] buses@[i], (i + 1) as u8)
                    && buses@[i].effect_chain.wf(),
            decreases DEFAULT_BUS_COUNT + 1 - id,
        {
            buses.push(MixerBus::new(id));
            id = id + 1;
        }
        MixerState {
            buses,
            layer_group_mixers: Vec::new(),
            selection: MixerSelection::Instrument(0),
            master_mute: false,
        }
    }

    /// The bus ids, in mixer order.
    pub fn bus_ids(&self) -> (ids: Vec<BusId>)
        ensures
            ids@ == bus_ids_of(self.buses@),
    {
        let mut ids: Vec<BusId> = Vec::new();
        let mut i: usize = 0;
        while i < self.buses.len()
            invariant
                i <= self.buses@.len(),
                ids@ == bus_ids_of(self.buses@.subrange(0, i as int)),
            decreases self.buses@.len() - i,
        {
            ids.push(self.buses[i].id);
            i = i + 1;
            assert(ids@ =~= bus_ids_of(self.buses@.subrange(0, i as int)));
        }
        assert(self.buses@.subrange(0, i as int) =~= self.buses@);
        ids
    }

    /// The layer group ids that have a strip, in mixer order.
    pub fn group_ids(&self) -> (ids: Vec<u32>)
        ensures
            ids@ == group_ids_of(self.layer_group_mixers@),
    {
        let mut ids: Vec<u32> = Vec::new();
        let mut i: usize = 0;
        while i < self.layer_group_mixers.len()
            invariant
                i <= self.layer_group_mixers@.len(),
                ids@ == group_ids_of(self.layer_group_mixers@.subrange(0, i as int)),
            decreases self.layer_group_mixers@.len() - i,
        {
            ids.push(self.layer_group_mixers[i].group_id);
            i = i + 1;
            assert(ids@ =~= group_ids_of(self.layer_group_mixers@.subrange(0, i as int)));
        }
        assert(self.layer_group_mixers@.subrange(0, i as int) =~= self.layer_group_mixers@);
        ids
    }

    /// Position of the bus with the given id.
    pub fn bus_index(&self, id: BusId) -> (r: Option<usize>)
        ensures
            match r {
                Some(i) => i < self.buses@.len() && self.buses@[i as int].id == id
                    && forall|k: int| 0 <= k < i ==> self.buses@[k].id != id,
                None => forall|k: int| 0 <= k < self.buses@.len() ==> self.buses@[k].id != id,
            },
    {
        let mut i: usize = 0;
        while i < self.buses.len()
            invariant
                i <= self.buses@.len(),
                forall|k: int| 0 <= k < i ==> self.buses@[k].id != id,
            decreases self.buses@.len() - i,
        {
            if self.buses[i].id == id {
                return Some(i);
            }
            i = i + 1;
        }
        None
    }

    /// Position of the strip of the given layer group.
    pub fn group_index(&self, group_id: u32) -> (r: Option<usize>)
        ensures
            match r {
                Some(i) => i < self.layer_group_mixers@.len() && self.layer_group_mixers@[i as int].group_id == group_id
                    && forall|k: int| 0 <= k < i ==> self.layer_group_mixers@[k].group_id != group_id,
                None => forall|k: int| 0 <= k < self.layer_group_mixers@.len() ==> self.layer_group_mixers@[k].group_id != group_id,
            },
    {
        let mut i: usize = 0;
        while i < self.layer_group_mixers.len()
            invariant
                i <= self.layer_group_mixers@.len(),
                forall|k: int| 0 <= k < i ==> self.layer_group_mixers@[k].group_id != group_id,
            decreases self.layer_group_mixers@.len() - i,
        {
            if self.layer_group_mixers[i].group_id == group_id {
                return Some(i);
            }
            i = i + 1;
        }
        None
    }

    /// Add the strip of layer group `group_id` with a send per bus in
    /// `buses`; nothing changes when the group already has a strip.
    pub fn add_layer_group_mixer(&mut self, group_id: u32, buses: &Vec<BusId>)
        requires
            old(self).wf(),
        ensures
            final(self).wf(),
            final(self).buses == old(self).buses,
            final(self).selection == old(self).selection,
            final(self).master_mute == old(self).master_mute,
            (exists|k: int| 0 <= k < old(self).layer_group_mixers@.len() && old(self).layer_group_mixers@[k].group_id == group_id)
                ==> final(self).layer_group_mixers@ == old(self).layer_group_mixers@,
            !(exists|k: int| 0 <= k < old(self).layer_group_mixers@.len() && old(self).layer_group_mixers@[k].group_id == group_id)
                ==> final(self).layer_group_mixers@.drop_last() == old(self).layer_group_mixers@
                && final(self).layer_group_mixers@.len() == old(self).layer_group_mixers@.len() + 1
                && fresh_group_strip(final(self).layer_group_mixers@.last(), group_id, buses@),
    {
        match self.group_index(group_id) {
            Some(_) => {},
            None => {
                self.layer_group_mixers.push(LayerGroupMixer::new(group_id, buses));
                assert(self.layer_group_mixers@.drop_last() =~= old(self).layer_group_mixers@);
            },
        }
    }
}

/// What `Instrument::new(id, source)` gives.
pub open spec fn is_fresh_instrument(inst: Instrument, id: InstrumentId, source: SourceType) -> bool {
    &&& inst.id == id
    &&& inst.source == source
    &&& inst.active
    &&& !inst.mute
    &&& !inst.solo
    &&& inst.output_target == OutputTarget::Master
    &&& inst.sends@.len() == 0
    &&& inst.layer_group.is_none()
    &&& inst.effects.wf()
    &&& inst.effects.effects@.len() == 0
    &&& inst.effects.next_effect_id == 0
    &&& inst.filter.is_none()
    &&& !inst.eq_enabled
    &&& !inst.lfo_enabled
    &&& !inst.arp_enabled
    &&& inst.arp_octaves == 1
    &&& inst.time_signature.is_none()
    &&& inst.layer_octave_offset == 0
    &&& inst.sampler_buffer.is_none()
    &&& match inst.drum_sequencer {
        Some(k) => source == SourceType::Kit && k.wf() && is_fresh_sequencer(k),
        None => source != SourceType::Kit,
    }
}

impl Instrument {
    /// A fresh instrument: unmuted, routed to master, no sends, no layer
    /// group, empty effect chain, no filter, EQ/LFO/arpeggiator off.
    pub fn new(id: InstrumentId, source: SourceType) -> (inst: Self)
        ensures
            is_fresh_instrument(inst, id, source),
    {
        Instrument {
            id,
            source,
            active: true,
            mute: false,
            solo: false,
            output_target: OutputTarget::Master,
            sends: Vec::new(),
            layer_group: None,
            effects: EffectChain::new(),
            filter: None,
            eq_enabled: false,
            lfo_enabled: false,
            arp_enabled: false,
            arp_octaves: 1,
            time_signature: None,
            drum_sequencer: match source {
                SourceType::Kit => Some(DrumSequencer::new()),
                _ => None,
            },
            layer_octave_offset: 0,
            sampler_buffer: None,
        }
    }
}

/// No instruments, nothing selected, counters at their start.
pub open spec fn is_fresh_instrument_state(s: InstrumentState) -> bool {
    &&& s.wf()
    &&& s.instruments@.len() == 0
    &&& s.selected.is_none()
    &&& s.next_id == 1
    &&& s.next_layer_group_id == 1
    &&& s.editing_instrument_id.is_none()
    &&& s.next_sampler_buffer_id == 0
}

impl InstrumentState {
    /// Instrument ids are distinct and below the counter; chains are well formed.
    pub open spec fn wf(&self) -> bool {
        &&& forall|i: int, j: int|
            0 <= i < j < self.instruments@.len() ==> self.instruments@[i].id != self.instruments@[j].id
        &&& forall|i: int| 0 <= i < self.instruments@.len() ==> (#[trigger] self.instruments@[i]).id < self.next_id
        &&& forall|i: int| 0 <= i < self.instruments@.len() ==> (#[trigger] self.instruments@[i]).effects.wf()
        &&& forall|i: int| 0 <= i < self.instruments@.len() ==> kit_wf((#[trigger] self.instruments@[i]).drum_sequencer)
    }

    pub fn new() -> (s: Self)
        ensures
            is_fresh_instrument_state(s),
    {
        InstrumentState {
            instruments: Vec::new(),
            selected: None,
            next_id: 1,
            next_layer_group_id: 1,
            editing_instrument_id: None,
            next_sampler_buffer_id: 0,
        }
    }

    /// Position of the instrument with the given id.
    pub fn index_of(&self, id: InstrumentId) -> (r: Option<usize>)
        ensures
            match r {
                Some(i) => i < self.instruments@.len() && self.instruments@[i as int].id == id
                    && forall|k: int| 0 <= k < i ==> self.instruments@[k].id != id,
                None => forall|k: int| 0 <= k < self.instruments@.len() ==> self.instruments@[k].id != id,
            },
    {
        let mut i: usize = 0;
        while i < self.instruments.len()
            invariant
                i <= self.instruments@.len(),
                forall|k: int| 0 <= k < i ==> self.instruments@[k].id != id,
            decreases self.instruments@.len() - i,
        {
            if self.instruments[i].id == id {
                return Some(i);
            }
            i = i + 1;
        }
        None
    }

    /// Append a fresh instrument with the next id; returns that id.
    pub fn add_instrument(&mut self, source: SourceType) -> (id: InstrumentId)
        requires
            old(self).wf(),
            old(self).next_id < u32::MAX,
        ensures
            final(self).wf(),
            id == old(self).next_id,
            final(self).next_id == old(self).next_id + 1,
            final(self).instruments@.len() == old(self).instruments@.len() + 1,
            final(self).instruments@.drop_last() == old(self).instruments@,
            is_fresh_instrument(final(self).instruments@.last(), id, source),
            final(self).selected == old(self).selected,
            final(self).next_layer_group_id == old(self).next_layer_group_id,
            final(self).editing_instrument_id == old(self).editing_instrument_id,
            final(self).next_sampler_buffer_id == old(self).next_sampler_buffer_id,
    {
        let id = self.next_id;
        self.instruments.push(Instrument::new(id, source));
        self.next_id = id + 1;
        assert(self.instruments@.drop_last() =~= old(self).instruments@);
        id
    }
}

/// A session as a new project starts it: default buses, no lanes, no
/// mappings, an empty piano roll and arrangement.
pub open spec fn is_fresh_session(s: SessionState) -> bool {
    &&& s.mixer.wf()
    &&& s.mixer.buses@.len() == DEFAULT_BUS_COUNT
    &&& forall|i: int| 0 <= i < DEFAULT_BUS_COUNT ==> is_default_bus(#[trigger] s.mixer.buses@[i], (i + 1) as u8)
    &&& s.mixer.layer_group_mixers@.len() == 0
    &&& s.mixer.selection == MixerSelection::Instrument(0)
    &&& !s.mixer.master_mute
    &&& s.automation_lanes@.len() == 0
    &&& s.next_lane_id == 0
    &&& s.midi_recording.cc_mappings@.len() == 0
    &&& s.midi_recording.channel_filter.is_none()
    &&& s.midi_recording.live_input_instrument.is_none()
    &&& !s.midi_recording.note_passthrough
    &&& s.piano_roll.wf()
    &&& s.piano_roll.tracks@.len() == 0
    &&& s.piano_roll.looping
    &&& s.piano_roll.loop_start == 0
    &&& s.piano_roll.loop_end == 4 * TICKS_PER_BEAT
    &&& !s.piano_roll.playing
    &&& !s.piano_roll.recording
    &&& s.piano_roll.time_signature == (TimeSignature { beats: 4, unit: 4 })
    &&& s.piano_roll.playhead == 0
    &&& s.arrangement.wf()
    &&& s.arrangement.clips@.len() == 0
    &&& s.arrangement.placements@.len() == 0
    &&& s.arrangement.next_clip_id == 1
    &&& s.arrangement.next_placement_id == 1
    &&& s.arrangement.play_mode == PlayMode::Pattern
    &&& s.arrangement.selected_placement is None
    &&& s.arrangement.selected_lane == 0
    &&& s.arrangement.cursor_tick == 0
    &&& s.arrangement.view_start_tick == 0
    &&& s.arrangement.editing_clip is None
    &&& s.arrangement.ticks_per_col == 480
}

impl SessionState {
    pub fn new() -> (s: Self)
        ensures
            is_fresh_session(s),
    {
        SessionState {
            mixer: MixerState::new(),
            automation_lanes: Vec::new(),
            next_lane_id: 0,
            midi_recording: MidiRecordingState {
                cc_mappings: Vec::new(),
                channel_filter: None,
                live_input_instrument: None,
                note_passthrough: false,
            },
            piano_roll: PianoRollState::new(),
            arrangement: ArrangementState::new(),
        }
    }
}

impl AppState {
    /// The model is consistent.
    pub open spec fn wf(&self) -> bool {
        self.instruments.wf() && self.session.mixer.wf() && self.session.piano_roll.wf()
    }

    pub fn new() -> (s: Self)
        ensures
            s.wf(),
            is_fresh_instrument_state(s.instruments),
            is_fresh_session(s.session),
            s.midi.connected_port.is_none(),
            s.clipboard.is_none(),
            s.audio == (AudioState {
                playing: false,
                playhead: 0,
                telemetry_avg_tick_us: 0,
                telemetry_max_tick_us: 0,
                telemetry_p95_tick_us: 0,
                telemetry_overruns: 0,
                telemetry_osc_queue_depth: 0,
            }),
            s.io == (IoState { pending_export: None, pending_render: None }),
    {
        AppState {
            instruments: InstrumentState::new(),
            session: SessionState::new(),
            midi: MidiConnectionState { connected_port: None },
            clipboard: None,
            audio: AudioState {
                playing: false,
                playhead: 0,
                telemetry_avg_tick_us: 0,
                telemetry_max_tick_us: 0,
                telemetry_p95_tick_us: 0,
                telemetry_overruns: 0,
                telemetry_osc_queue_depth: 0,
            },
            io: IoState { pending_export: None, pending_render: None },
        }
    }

    /// Add an instrument (see `InstrumentState::add_instrument`).
    pub fn add_instrument(&mut self, source: SourceType) -> (id: InstrumentId)
        requires
            old(self).wf(),
            old(self).instruments.next_id < u32::MAX,
        ensures
            final(self).wf(),
            id == old(self).instruments.next_id,
            final(self).instruments.instruments@.len() == old(self).instruments.instruments@.len() + 1,
            final(self).instruments.instruments@.drop_last() == old(self).instruments.instruments@,
            is_fresh_instrument(final(self).instruments.instruments@.last(), id, source),
            final(self).instruments.next_id == id + 1,
            final(self).instruments.selected == old(self).instruments.selected,
            final(self).session.mixer == old(self).session.mixer,
            final(self).session.automation_lanes == old(self).session.automation_lanes,
            final(self).session.next_lane_id == old(self).session.next_lane_id,
            final(self).session.midi_recording == old(self).session.midi_recording,
            final(self).session.arrangement == old(self).session.arrangement,
            track_appended(old(self).session.piano_roll, final(self).session.piano_roll, id),
            final(self).midi == old(self).midi,
            final(self).clipboard == old(self).clipboard,
            final(self).audio == old(self).audio,
            final(self).io == old(self).io,
    {
        let id = self.instruments.add_instrument(source);
        self.session.piano_roll.add_track(id);
        id
    }
}

} // verus!
