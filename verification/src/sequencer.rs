//! The drum sequencer of kit instruments: step grids per pattern, pads,
//! pattern chaining, and the sequencer actions that edit them.
use vstd::prelude::*;

use crate::action::{AudioEffect, AudioSideEffect, DispatchResult, FileSelectAction, NavIntent, PaneId};
use crate::state::{AppState, ClipboardContents, InstrumentId, InstrumentState};

verus! {

/// Pads per kit.
pub const NUM_PADS: usize = 12;
/// Patterns per kit.
pub const NUM_PATTERNS: usize = 4;
/// Steps in a new pattern.
pub const DEFAULT_PATTERN_LENGTH: usize = 16;
/// Velocity of a new step.
pub const DEFAULT_VELOCITY: u8 = 100;

/// One step of one pad. Its trigger probability is not part of this model.
#[derive(Clone, Copy, PartialEq, Eq, Structural, Debug)]
pub struct DrumStep {
    pub active: bool,
    pub velocity: u8,
    pub pitch_offset: i8,
}

/// An inactive step at the default velocity, without pitch offset.
pub open spec fn default_step() -> DrumStep {
    DrumStep { active: false, velocity: DEFAULT_VELOCITY, pitch_offset: 0 }
}

impl DrumStep {
    pub fn new() -> (s: Self)
        ensures
            s == default_step(),
    {
        DrumStep { active: false, velocity: DEFAULT_VELOCITY, pitch_offset: 0 }
    }
}

/// A pattern: `NUM_PADS` rows of `length` steps.
#[derive(Clone, Debug)]
pub struct DrumPattern {
    pub steps: Vec<Vec<DrumStep>>,
    pub length: usize,
}

/// A grid of `pads` rows of `len` default steps.
pub open spec fn blank_grid(pads: nat, len: nat) -> Seq<Seq<DrumStep>> {
    Seq::new(pads, |p: int| Seq::new(len, |s: int| default_step()))
}

impl DrumPattern {
    /// The step grid as nested sequences.
    pub open spec fn grid(&self) -> Seq<Seq<DrumStep>> {
        self.steps@.map_values(|row: Vec<DrumStep>| row@)
    }

    /// `NUM_PADS` rows, each of `length` steps.
    pub open spec fn wf(&self) -> bool {
        &&& self.steps@.len() == NUM_PADS
        &&& forall|p: int| 0 <= p < NUM_PADS ==> (#[trigger] self.steps@[p])@.len() == self.length
    }

    /// A pattern of `length` default steps on every pad.
    pub fn new(length: usize) -> (pat: Self)
        ensures
            pat.wf(),
            pat.length == length,
            pat.grid() == blank_grid(NUM_PADS as nat, length as nat),
    {
        let mut steps: Vec<Vec<DrumStep>> = Vec::new();
        let mut p: usize = 0;
        while p < NUM_PADS
            invariant
                p <= NUM_PADS,
                steps@.len() == p,
                forall|q: int| 0 <= q < p ==> (#[trigger] steps@[q])@ == Seq::new(length as nat, |s: int| default_step()),
            decreases NUM_PADS - p,
        {
            let mut row: Vec<DrumStep> = Vec::new();
            let mut s: usize = 0;
            while s < length
                invariant
                    s <= length,
                    row@ == Seq::new(s as nat, |i: int| default_step()),
                decreases length - s,
            {
                row.push(DrumStep::new());
                s = s + 1;
                assert(row@ =~= Seq::new(s as nat, |i: int| default_step()));
            }
            steps.push(row);
            p = p + 1;
        }
        let pat = DrumPattern { steps, length };
        assert(pat.grid() =~= blank_grid(NUM_PADS as nat, length as nat));
        pat
    }
}

/// A pad of the kit. Its level and trigger frequency are not part of this model.
#[derive(Clone, Copy, PartialEq, Eq, Structural, Debug)]
pub struct DrumPad {
    pub buffer_id: Option<u32>,
    pub instrument_id: Option<InstrumentId>,
    pub pitch: i8,
    pub reverse: bool,
    /// Where in the sample the pad plays from and to, as position keys (see
    /// `crate::chopper`).
    pub slice_start: u32,
    pub slice_end: u32,
}

/// The drum sequencer of a kit.
#[derive(Clone, Debug)]
pub struct DrumSequencer {
    pub pads: Vec<DrumPad>,
    pub patterns: Vec<DrumPattern>,
    pub current_pattern: usize,
    pub playing: bool,
    pub current_step: usize,
    /// The step the audio thread last reported as played.
    pub last_played_step: Option<usize>,
    pub chain: Vec<usize>,
    pub chain_enabled: bool,
    pub chain_position: usize,
    pub editing_pad: Option<usize>,
    /// The sample chopper, once a sample was loaded into it.
    pub chopper: Option<crate::chopper::ChopperState>,
}

/// Pattern lengths walked by `CyclePatternLength`.
pub open spec fn next_pattern_length(len: usize) -> usize {
    if len == 8 { 16 } else if len == 16 { 32 } else if len == 32 { 64 } else if len == 64 { 8 } else { 16 }
}

/// `v + delta` clamped to `[lo, hi]`.
pub open spec fn clamp_add(v: int, delta: int, lo: int, hi: int) -> int {
    if v + delta < lo { lo } else if v + delta > hi { hi } else { v + delta }
}

/// Sequencer actions with discrete effects.
#[derive(Clone, Debug)]
pub enum SequencerAction {
    ToggleStep(usize, usize),
    AdjustVelocity(usize, usize, i8),
    ClearPad(usize),
    ClearPattern,
    CyclePatternLength,
    NextPattern,
    PrevPattern,
    PlayStop,
    LoadSample(usize),
    ToggleChain,
    AddChainStep(usize),
    RemoveChainStep(usize),
    MoveChainStep(usize, usize),
    ToggleReverse(usize),
    AdjustPadPitch(usize, i8),
    AdjustStepPitch(usize, usize, i8),
    DeleteStepsInRegion { start_pad: usize, end_pad: usize, start_step: usize, end_step: usize },
    PasteSteps { anchor_pad: usize, anchor_step: usize, steps: Vec<(usize, usize, DrumStep)> },
    SetPadInstrument(usize, InstrumentId),
    ClearPadInstrument(usize),
    OpenInstrumentPicker(usize),
    /// A sample was chosen for the pad; it gets the next sampler buffer id.
    LoadSampleResult(usize),
    CopySteps { start_pad: usize, end_pad: usize, start_step: usize, end_step: usize },
}

/// The grid after cycling the pattern length: each row keeps its first steps
/// and is padded with default steps.
pub open spec fn resized_grid(g: Seq<Seq<DrumStep>>, new_len: nat) -> Seq<Seq<DrumStep>> {
    Seq::new(g.len(), |p: int| Seq::new(new_len, |s: int| if s < g[p].len() { g[p][s] } else { default_step() }))
}

/// The grid with the cells of a rectangle (inclusive bounds) reset.
pub open spec fn cleared_region(g: Seq<Seq<DrumStep>>, sp: int, ep: int, ss: int, es: int) -> Seq<Seq<DrumStep>> {
    Seq::new(g.len(), |p: int| Seq::new(g[p].len(), |s: int|
        if sp <= p <= ep && ss <= s <= es { default_step() } else { g[p][s] }))
}

/// The grid with the clipboard steps written at the anchor, in order; steps
/// that fall outside the grid are skipped.
pub open spec fn pasted_grid(g: Seq<Seq<DrumStep>>, ap: int, ast: int, steps: Seq<(usize, usize, DrumStep)>) -> Seq<Seq<DrumStep>>
    decreases steps.len(),
{
    if steps.len() == 0 {
        g
    } else {
        let prev = pasted_grid(g, ap, ast, steps.drop_last());
        let (po, so, d) = steps.last();
        let p = ap + po;
        let s = ast + so;
        if p < prev.len() && s < prev[p].len() {
            prev.update(p, prev[p].update(s, d))
        } else {
            prev
        }
    }
}

/// A single cell of the grid changed by `f`, when it exists.
pub open spec fn cell_changed(g: Seq<Seq<DrumStep>>, p: int, s: int, f: spec_fn(DrumStep) -> DrumStep) -> Seq<Seq<DrumStep>> {
    if 0 <= p < g.len() && 0 <= s < g[p].len() { g.update(p, g[p].update(s, f(g[p][s]))) } else { g }
}

impl DrumSequencer {
    /// The step grid of every pattern.
    pub open spec fn grids(&self) -> Seq<Seq<Seq<DrumStep>>> {
        self.patterns@.map_values(|pat: DrumPattern| pat.grid())
    }

    /// The length of every pattern.
    pub open spec fn lengths(&self) -> Seq<usize> {
        self.patterns@.map_values(|pat: DrumPattern| pat.length)
    }

    /// `NUM_PADS` pads, at least one pattern, the current pattern exists, and
    /// every pattern is well formed.
    pub open spec fn wf(&self) -> bool {
        &&& self.pads@.len() == NUM_PADS
        &&& self.patterns@.len() > 0
        &&& self.current_pattern < self.patterns@.len()
        &&& forall|i: int| 0 <= i < self.patterns@.len() ==> (#[trigger] self.patterns@[i]).wf()
        &&& match self.chopper {
            Some(c) => c.wf(),
            None => true,
        }
    }

    /// The grid of the current pattern.
    pub open spec fn current_grid(&self) -> Seq<Seq<DrumStep>> {
        self.patterns@[self.current_pattern as int].grid()
    }

    /// A new kit sequencer: `NUM_PADS` empty pads, `NUM_PATTERNS` blank
    /// patterns of the default length, stopped, no chain.
    pub fn new() -> (s: Self)
        ensures
            s.wf(),
            is_fresh_sequencer(s),
    {
        let mut pads: Vec<DrumPad> = Vec::new();
        let mut i: usize = 0;
        while i < NUM_PADS
            invariant
                i <= NUM_PADS,
                pads@ == Seq::new(i as nat, |k: int| empty_pad()),
            decreases NUM_PADS - i,
        {
            pads.push(DrumPad {
                buffer_id: None,
                instrument_id: None,
                pitch: 0,
                reverse: false,
                slice_start: crate::chopper::SAMPLE_START,
                slice_end: crate::chopper::SAMPLE_END,
            });
            i = i + 1;
            assert(pads@ =~= Seq::new(i as nat, |k: int| empty_pad()));
        }
        let mut patterns: Vec<DrumPattern> = Vec::new();
        let mut j: usize = 0;
        while j < NUM_PATTERNS
            invariant
                j <= NUM_PATTERNS,
                patterns@.len() == j,
                forall|k: int| 0 <= k < j ==> (#[trigger] patterns@[k]).wf()
                    && patterns@[k].grid() == blank_grid(NUM_PADS as nat, DEFAULT_PATTERN_LENGTH as nat)
                    && patterns@[k].length == DEFAULT_PATTERN_LENGTH,
            decreases NUM_PATTERNS - j,
        {
            patterns.push(DrumPattern::new(DEFAULT_PATTERN_LENGTH));
            j = j + 1;
        }
        let s = DrumSequencer {
            pads,
            patterns,
            current_pattern: 0,
            playing: false,
            current_step: 0,
            last_played_step: None,
            chain: Vec::new(),
            chain_enabled: false,
            chain_position: 0,
            editing_pad: None,
            chopper: None,
        };
        assert forall|k: int| 0 <= k < NUM_PATTERNS implies (#[trigger] s.grids()[k]) == blank_grid(NUM_PADS as nat, DEFAULT_PATTERN_LENGTH as nat)
            && s.lengths()[k] == DEFAULT_PATTERN_LENGTH by {
            assert(s.patterns@[k].wf());
        }
        s
    }
}

impl DrumSequencer {
    /// The current pattern.
    pub fn pattern(&self) -> (p: &DrumPattern)
        requires
            self.wf(),
        ensures
            *p == self.patterns@[self.current_pattern as int],
    {
        &self.patterns[self.current_pattern]
    }
}

/// A pad with no sample, no instrument, no pitch offset, not reversed.
pub open spec fn empty_pad() -> DrumPad {
    DrumPad {
        buffer_id: None,
        instrument_id: None,
        pitch: 0,
        reverse: false,
        slice_start: crate::chopper::SAMPLE_START,
        slice_end: crate::chopper::SAMPLE_END,
    }
}

/// What `DrumSequencer::new` gives.
pub open spec fn is_fresh_sequencer(s: DrumSequencer) -> bool {
    &&& s.pads@ == Seq::new(NUM_PADS as nat, |i: int| empty_pad())
    &&& s.patterns@.len() == NUM_PATTERNS
    &&& forall|i: int| 0 <= i < NUM_PATTERNS ==> (#[trigger] s.grids()[i]) == blank_grid(NUM_PADS as nat, DEFAULT_PATTERN_LENGTH as nat)
        && s.lengths()[i] == DEFAULT_PATTERN_LENGTH
    &&& s.current_pattern == 0
    &&& !s.playing
    &&& s.current_step == 0
    &&& s.last_played_step.is_none()
    &&& s.chain@.len() == 0
    &&& !s.chain_enabled
    &&& s.chain_position == 0
    &&& s.editing_pad.is_none()
    &&& s.chopper.is_none()
}

/// A kit's sequencer, when there is one, is well formed.
pub open spec fn kit_wf(k: Option<DrumSequencer>) -> bool {
    match k {
        Some(s) => s.wf(),
        None => true,
    }
}

/// Only the current pattern's grid changed, to `g`.
pub open spec fn only_grid_changed(o: DrumSequencer, n: DrumSequencer, g: Seq<Seq<DrumStep>>) -> bool {
    &&& n.pads == o.pads
    &&& n.current_pattern == o.current_pattern
    &&& n.playing == o.playing
    &&& n.current_step == o.current_step
    &&& n.last_played_step == o.last_played_step
    &&& n.chain == o.chain
    &&& n.chain_enabled == o.chain_enabled
    &&& n.chain_position == o.chain_position
    &&& n.editing_pad == o.editing_pad
    &&& n.chopper == o.chopper
    &&& n.lengths() == o.lengths()
    &&& n.grids() == o.grids().update(o.current_pattern as int, g)
}

/// The patterns are unchanged.
pub open spec fn same_patterns(o: DrumSequencer, n: DrumSequencer) -> bool {
    n.grids() == o.grids() && n.lengths() == o.lengths() && n.current_pattern == o.current_pattern
}

/// Fields other than pads, patterns and the current pattern are unchanged.
pub open spec fn same_transport(o: DrumSequencer, n: DrumSequencer) -> bool {
    &&& n.playing == o.playing
    &&& n.current_step == o.current_step
    &&& n.last_played_step == o.last_played_step
    &&& n.chain == o.chain
    &&& n.chain_enabled == o.chain_enabled
    &&& n.chain_position == o.chain_position
    &&& n.editing_pad == o.editing_pad
    &&& n.chopper == o.chopper
}

/// The state change a sequencer action makes to the sequencer; `buffer` is
/// the sampler buffer id that `LoadSampleResult` hands to the pad.
pub open spec fn sequencer_action_applied(o: DrumSequencer, n: DrumSequencer, action: SequencerAction, buffer: u32) -> bool {
    let cp = o.current_pattern as int;
    let g = o.current_grid();
    match action {
        SequencerAction::ToggleStep(p, st) => only_grid_changed(o, n,
            cell_changed(g, p as int, st as int, |d: DrumStep| DrumStep { active: !d.active, ..d })),
        SequencerAction::AdjustVelocity(p, st, delta) => only_grid_changed(o, n,
            cell_changed(g, p as int, st as int, |d: DrumStep| DrumStep { velocity: clamp_add(d.velocity as int, delta as int, 1, 127) as u8, ..d })),
        SequencerAction::AdjustStepPitch(p, st, delta) => only_grid_changed(o, n,
            cell_changed(g, p as int, st as int, |d: DrumStep| DrumStep { pitch_offset: clamp_add(d.pitch_offset as int, delta as int, -24, 24) as i8, ..d })),
        SequencerAction::ClearPad(p) => only_grid_changed(o, n,
            if p < g.len() { g.update(p as int, g[p as int].map_values(|d: DrumStep| DrumStep { active: false, ..d })) } else { g }),
        SequencerAction::ClearPattern => only_grid_changed(o, n, blank_grid(NUM_PADS as nat, o.lengths()[cp] as nat)),
        SequencerAction::DeleteStepsInRegion { start_pad, end_pad, start_step, end_step } => only_grid_changed(o, n,
            cleared_region(g, start_pad as int, end_pad as int, start_step as int, end_step as int)),
        SequencerAction::PasteSteps { anchor_pad, anchor_step, steps } => only_grid_changed(o, n,
            pasted_grid(g, anchor_pad as int, anchor_step as int, steps@)),
        SequencerAction::CyclePatternLength => {
            let nl = next_pattern_length(o.lengths()[cp]);
            &&& n.pads == o.pads
            &&& n.current_pattern == o.current_pattern
            &&& same_transport(o, n)
            &&& n.lengths() == o.lengths().update(cp, nl)
            &&& n.grids() == o.grids().update(cp, resized_grid(g, nl as nat))
        },
        SequencerAction::NextPattern => n.pads == o.pads && same_transport(o, n)
            && n.grids() == o.grids() && n.lengths() == o.lengths()
            && n.current_pattern == (o.current_pattern + 1) % (o.patterns@.len() as int),
        SequencerAction::PrevPattern => n.pads == o.pads && same_transport(o, n)
            && n.grids() == o.grids() && n.lengths() == o.lengths()
            && n.current_pattern == (if o.current_pattern == 0 { o.patterns@.len() - 1 } else { o.current_pattern - 1 }),
        SequencerAction::PlayStop => {
            &&& n.pads == o.pads
            &&& same_patterns(o, n)
            &&& n.playing == !o.playing
            &&& n.current_step == (if o.playing { 0 } else { o.current_step })
            &&& n.last_played_step == o.last_played_step
            &&& n.chain == o.chain
            &&& n.chain_enabled == o.chain_enabled
            &&& n.chain_position == o.chain_position
            &&& n.editing_pad == o.editing_pad
            &&& n.chopper == o.chopper
        },
        SequencerAction::ToggleChain => {
            &&& n.pads == o.pads
            &&& same_patterns(o, n)
            &&& n.playing == o.playing
            &&& n.current_step == o.current_step
            &&& n.last_played_step == o.last_played_step
            &&& n.chain == o.chain
            &&& n.chain_enabled == !o.chain_enabled
            &&& n.chain_position == 0
            &&& n.editing_pad == o.editing_pad
            &&& n.chopper == o.chopper
        },
        SequencerAction::AddChainStep(_) | SequencerAction::RemoveChainStep(_) | SequencerAction::MoveChainStep(_, _) => {
            &&& n.pads == o.pads
            &&& same_patterns(o, n)
            &&& n.playing == o.playing
            &&& n.current_step == o.current_step
            &&& n.last_played_step == o.last_played_step
            &&& n.chain_enabled == o.chain_enabled
            &&& n.chain_position == o.chain_position
            &&& n.editing_pad == o.editing_pad
            &&& n.chopper == o.chopper
            &&& n.chain@ == match action {
                SequencerAction::AddChainStep(i) => if i < o.patterns@.len() { o.chain@.push(i) } else { o.chain@ },
                SequencerAction::RemoveChainStep(i) => if i < o.chain@.len() { o.chain@.remove(i as int) } else { o.chain@ },
                SequencerAction::MoveChainStep(from, to) => if from < o.chain@.len() && to < o.chain@.len() {
                    o.chain@.remove(from as int).insert(to as int, o.chain@[from as int])
                } else {
                    o.chain@
                },
                _ => o.chain@,
            }
        },
        SequencerAction::ToggleReverse(p) | SequencerAction::AdjustPadPitch(p, _) | SequencerAction::ClearPadInstrument(p)
        | SequencerAction::SetPadInstrument(p, _) | SequencerAction::LoadSampleResult(p) => {
            &&& same_patterns(o, n)
            &&& same_transport(o, n)
            &&& n.pads@ == (if p < o.pads@.len() {
                o.pads@.update(p as int, match action {
                    SequencerAction::ToggleReverse(_) => DrumPad { reverse: !o.pads@[p as int].reverse, ..o.pads@[p as int] },
                    SequencerAction::AdjustPadPitch(_, d) => DrumPad {
                        pitch: clamp_add(o.pads@[p as int].pitch as int, d as int, -24, 24) as i8,
                        ..o.pads@[p as int]
                    },
                    SequencerAction::SetPadInstrument(_, id) => DrumPad {
                        buffer_id: None,
                        instrument_id: Some(id),
                        ..o.pads@[p as int]
                    },
                    SequencerAction::LoadSampleResult(_) => DrumPad { buffer_id: Some(buffer), ..o.pads@[p as int] },
                    _ => DrumPad { instrument_id: None, ..o.pads@[p as int] },
                })
            } else {
                o.pads@
            })
        },
        SequencerAction::OpenInstrumentPicker(p) => {
            &&& n.pads == o.pads
            &&& same_patterns(o, n)
            &&& n.playing == o.playing
            &&& n.current_step == o.current_step
            &&& n.last_played_step == o.last_played_step
            &&& n.chain == o.chain
            &&& n.chain_enabled == o.chain_enabled
            &&& n.chain_position == o.chain_position
            &&& n.editing_pad == Some(p)
            &&& n.chopper == o.chopper
        },
        SequencerAction::LoadSample(_) | SequencerAction::CopySteps { .. } => n == o,
    }
}

/// What `apply` requires: the paste anchor plus each offset fits in `usize`.
pub open spec fn sequencer_action_ok(action: SequencerAction) -> bool {
    match action {
        SequencerAction::PasteSteps { anchor_pad, anchor_step, steps } => forall|i: int| 0 <= i < steps@.len()
            ==> anchor_pad + (#[trigger] steps@[i]).0 <= usize::MAX && anchor_step + steps@[i].1 <= usize::MAX,
        _ => true,
    }
}

impl DrumSequencer {
    /// Change one cell of the current pattern.
    fn set_cell(&mut self, p: usize, st: usize, d: DrumStep)
        requires
            old(self).wf(),
            p < NUM_PADS,
            st < old(self).current_grid()[p as int].len(),
        ensures
            final(self).wf(),
            only_grid_changed(*old(self), *final(self), old(self).current_grid().update(p as int, old(self).current_grid()[p as int].update(st as int, d))),
    {
        let cp = self.current_pattern;
        let ghost o = *self;
        self.patterns[cp].steps[p].set(st, d);
        proof {
            let og = o.patterns@[cp as int].grid();
            let ng = self.patterns@[cp as int].grid();
            assert(ng =~= og.update(p as int, og[p as int].update(st as int, d)));
            assert(self.grids() =~= o.grids().update(cp as int, ng));
            assert(self.lengths() =~= o.lengths());
            assert(self.patterns@[cp as int].wf());
        }
    }
}

/// Replacing one pattern replaces its grid and length in the views.
proof fn lemma_pattern_replaced(o: DrumSequencer, n: DrumSequencer, cp: int)
    requires
        0 <= cp < o.patterns@.len(),
        n.patterns@ == o.patterns@.update(cp, n.patterns@[cp]),
    ensures
        n.grids() == o.grids().update(cp, n.patterns@[cp].grid()),
        n.lengths() == o.lengths().update(cp, n.patterns@[cp].length),
        n.patterns@[cp].length == o.patterns@[cp].length ==> n.lengths() == o.lengths(),
{
    assert(o.lengths().update(cp, o.patterns@[cp].length) =~= o.lengths());
    assert(n.grids() =~= o.grids().update(cp, n.patterns@[cp].grid()));
    assert(n.lengths() =~= o.lengths().update(cp, n.patterns@[cp].length));
}

/// Rows of the grid are the step vectors.
proof fn lemma_grid(pat: DrumPattern)
    ensures
        pat.grid().len() == pat.steps@.len(),
        forall|q: int| 0 <= q < pat.steps@.len() ==> #[trigger] pat.grid()[q] == pat.steps@[q]@,
{
}

impl DrumPattern {
    /// Deactivate every step of pad `p`.
    fn clear_pad(&mut self, p: usize)
        requires
            old(self).wf(),
            p < NUM_PADS,
        ensures
            final(self).wf(),
            final(self).length == old(self).length,
            final(self).grid() == old(self).grid().update(p as int, old(self).grid()[p as int].map_values(|d: DrumStep| DrumStep { active: false, ..d })),
    {
        let ghost og = self.grid();
        proof { lemma_grid(*self); }
        let n = self.steps[p].len();
        let mut s: usize = 0;
        while s < n
            invariant
                self.wf(),
                self.length == old(self).length,
                p < NUM_PADS,
                og.len() == NUM_PADS,
                n == og[p as int].len(),
                s <= n,
                self.steps@.len() == NUM_PADS,
                forall|q: int| 0 <= q < NUM_PADS && q != p ==> self.grid()[q] == og[q],
                self.grid()[p as int].len() == n,
                forall|k: int| 0 <= k < s ==> self.grid()[p as int][k] == (DrumStep { active: false, ..og[p as int][k] }),
                forall|k: int| s <= k < n ==> self.grid()[p as int][k] == og[p as int][k],
            decreases n - s,
        {
            proof { lemma_grid(*self); }
            let d = self.steps[p][s];
            let ghost before = self.grid();
            self.steps[p].set(s, DrumStep { active: false, ..d });
            proof { lemma_grid(*self); }
            assert(self.grid() =~= before.update(p as int, before[p as int].update(s as int, DrumStep { active: false, ..d })));
            s = s + 1;
        }
        proof { lemma_grid(*self); }
        assert(self.grid()[p as int] =~= og[p as int].map_values(|d: DrumStep| DrumStep { active: false, ..d }));
        assert(self.grid() =~= og.update(p as int, og[p as int].map_values(|d: DrumStep| DrumStep { active: false, ..d })));
    }

    /// Reset the cells of a rectangle with inclusive bounds.
    fn clear_region(&mut self, sp: usize, ep: usize, ss: usize, es: usize)
        requires
            old(self).wf(),
        ensures
            final(self).wf(),
            final(self).length == old(self).length,
            final(self).grid() == cleared_region(old(self).grid(), sp as int, ep as int, ss as int, es as int),
    {
        let ghost og = self.grid();
        proof { lemma_grid(*self); }
        let mut p: usize = 0;
        while p < NUM_PADS
            invariant
                self.wf(),
                self.length == old(self).length,
                og == old(self).grid(),
                og.len() == NUM_PADS,
                p <= NUM_PADS,
                forall|q: int| 0 <= q < p ==> self.grid()[q] == cleared_region(og, sp as int, ep as int, ss as int, es as int)[q],
                forall|q: int| p <= q < NUM_PADS ==> self.grid()[q] == og[q],
            decreases NUM_PADS - p,
        {
            proof { lemma_grid(*self); lemma_grid(*old(self)); }
            let n = self.steps[p].len();
            let mut s: usize = 0;
            while s < n
                invariant
                    self.wf(),
                    self.length == old(self).length,
                    og == old(self).grid(),
                    og.len() == NUM_PADS,
                    p < NUM_PADS,
                    n == og[p as int].len(),
                    s <= n,
                    forall|q: int| 0 <= q < NUM_PADS && q != p ==> self.grid()[q] == (if q < p {
                        cleared_region(og, sp as int, ep as int, ss as int, es as int)[q]
                    } else {
                        og[q]
                    }),
                    self.grid()[p as int].len() == n,
                    forall|k: int| 0 <= k < s ==> self.grid()[p as int][k] == cleared_region(og, sp as int, ep as int, ss as int, es as int)[p as int][k],
                    forall|k: int| s <= k < n ==> self.grid()[p as int][k] == og[p as int][k],
                decreases n - s,
            {
                proof { lemma_grid(*self); }
                let ghost before = self.grid();
                let ghost cr = cleared_region(og, sp as int, ep as int, ss as int, es as int);
                if sp <= p && p <= ep && ss <= s && s <= es {
                    self.steps[p].set(s, DrumStep::new());
                    proof { lemma_grid(*self); }
                    assert(self.grid() =~= before.update(p as int, before[p as int].update(s as int, default_step())));
                }
                assert(cr[p as int][s as int] == (if sp <= p && p <= ep && ss <= s && s <= es { default_step() } else { og[p as int][s as int] }));
                s = s + 1;
            }
            assert(self.grid()[p as int] =~= cleared_region(og, sp as int, ep as int, ss as int, es as int)[p as int]);
            p = p + 1;
        }
        assert(self.grid() =~= cleared_region(og, sp as int, ep as int, ss as int, es as int));
    }

    /// Write clipboard steps at the anchor, in order, skipping those outside the grid.
    fn paste(&mut self, ap: usize, ast: usize, steps: &Vec<(usize, usize, DrumStep)>)
        requires
            old(self).wf(),
            forall|i: int| 0 <= i < steps@.len()
                ==> ap + (#[trigger] steps@[i]).0 <= usize::MAX && ast + steps@[i].1 <= usize::MAX,
        ensures
            final(self).wf(),
            final(self).length == old(self).length,
            final(self).grid() == pasted_grid(old(self).grid(), ap as int, ast as int, steps@),
    {
        let mut i: usize = 0;
        while i < steps.len()
            invariant
                self.wf(),
                self.length == old(self).length,
                i <= steps@.len(),
                forall|j: int| 0 <= j < steps@.len()
                    ==> ap + (#[trigger] steps@[j]).0 <= usize::MAX && ast + steps@[j].1 <= usize::MAX,
                self.grid() == pasted_grid(old(self).grid(), ap as int, ast as int, steps@.subrange(0, i as int)),
            decreases steps@.len() - i,
        {
            let (po, so, d) = steps[i];
            assert(steps@.subrange(0, i + 1).drop_last() =~= steps@.subrange(0, i as int));
            proof { lemma_grid(*self); }
            let ghost before = self.grid();
            let p = ap + po;
            let st = ast + so;
            if p < self.steps.len() && st < self.steps[p].len() {
                self.steps[p].set(st, d);
                proof { lemma_grid(*self); }
                assert(self.grid() =~= before.update(p as int, before[p as int].update(st as int, d)));
            }
            i = i + 1;
        }
        assert(steps@.subrange(0, i as int) =~= steps@);
    }

    /// A pattern of length `new_len` keeping each pad's first steps.
    fn resized(&self, new_len: usize) -> (pat: Self)
        requires
            self.wf(),
        ensures
            pat.wf(),
            pat.length == new_len,
            pat.grid() == resized_grid(self.grid(), new_len as nat),
    {
        let mut pat = DrumPattern::new(new_len);
        let mut p: usize = 0;
        while p < NUM_PADS
            invariant
                self.wf(),
                pat.wf(),
                pat.length == new_len,
                p <= NUM_PADS,
                forall|q: int| 0 <= q < p ==> pat.grid()[q] == resized_grid(self.grid(), new_len as nat)[q],
                forall|q: int| p <= q < NUM_PADS ==> pat.grid()[q] == Seq::new(new_len as nat, |s: int| default_step()),
            decreases NUM_PADS - p,
        {
            proof { lemma_grid(*self); }
            let n = self.steps[p].len();
            let mut s: usize = 0;
            while s < n && s < new_len
                invariant
                    self.wf(),
                    pat.wf(),
                    pat.length == new_len,
                    p < NUM_PADS,
                    n == self.grid()[p as int].len(),
                    s <= n,
                    forall|q: int| 0 <= q < NUM_PADS && q != p ==> pat.grid()[q] == (if q < p {
                        resized_grid(self.grid(), new_len as nat)[q]
                    } else {
                        Seq::new(new_len as nat, |x: int| default_step())
                    }),
                    pat.grid()[p as int].len() == new_len,
                    forall|k: int| 0 <= k < s ==> pat.grid()[p as int][k] == self.grid()[p as int][k],
                    forall|k: int| s <= k < new_len ==> pat.grid()[p as int][k] == default_step(),
                decreases n - s,
            {
                proof { lemma_grid(*self); lemma_grid(pat); }
                let d = self.steps[p][s];
                let ghost before = pat.grid();
                pat.steps[p].set(s, d);
                proof { lemma_grid(pat); }
                assert(pat.grid() =~= before.update(p as int, before[p as int].update(s as int, d)));
                s = s + 1;
            }
            assert(pat.grid()[p as int] =~= resized_grid(self.grid(), new_len as nat)[p as int]);
            p = p + 1;
        }
        assert(pat.grid() =~= resized_grid(self.grid(), new_len as nat));
        pat
    }
}


/// Clipboard entries for the active cells of row `p` in columns `ss..=e`,
/// relative to `(sp, ss)`, in column order.
pub open spec fn active_cells(g: Seq<Seq<DrumStep>>, p: int, sp: int, ss: int, e: int) -> Seq<(usize, usize, DrumStep)>
    decreases e - ss + 1,
{
    if e < ss {
        Seq::empty()
    } else {
        let prev = active_cells(g, p, sp, ss, e - 1);
        if g[p][e].active { prev.push(((p - sp) as usize, (e - ss) as usize, g[p][e])) } else { prev }
    }
}

/// The clipboard entries of rows `sp..=e`, each clipped to its length.
pub open spec fn copied_rows(g: Seq<Seq<DrumStep>>, sp: int, ss: int, es: int, e: int) -> Seq<(usize, usize, DrumStep)>
    decreases e - sp + 1,
{
    if e < sp {
        Seq::empty()
    } else {
        copied_rows(g, sp, ss, es, e - 1) + active_cells(g, e, sp, ss, if es < g[e].len() - 1 { es } else { g[e].len() - 1 })
    }
}

/// What copying the rectangle `sp..=ep` x `ss..=es` (clipped to the grid)
/// puts on the clipboard: each active cell with its offset from the corner,
/// row by row.
pub open spec fn copied_steps(g: Seq<Seq<DrumStep>>, sp: int, ep: int, ss: int, es: int) -> Seq<(usize, usize, DrumStep)> {
    copied_rows(g, sp, ss, es, if ep < g.len() - 1 { ep } else { g.len() - 1 })
}

/// The entries of one row are its active cells in columns `ss..=e`, each
/// once, with its offsets from the corner.
proof fn lemma_active_cells(g: Seq<Seq<DrumStep>>, p: int, sp: int, ss: int, e: int)
    requires
        0 <= sp <= p < g.len(),
        0 <= ss,
        e < g[p].len(),
        p - sp <= usize::MAX,
        e - ss <= usize::MAX,
    ensures
        forall|i: int| 0 <= i < active_cells(g, p, sp, ss, e).len() ==> {
            let c = #[trigger] active_cells(g, p, sp, ss, e)[i];
            &&& c.0 == p - sp
            &&& ss <= ss + c.1 <= e
            &&& c.2 == g[p][ss + c.1]
            &&& c.2.active
        },
        forall|st: int| ss <= st <= e && (#[trigger] g[p][st]).active
            ==> active_cells(g, p, sp, ss, e).contains(((p - sp) as usize, (st - ss) as usize, g[p][st])),
    decreases e - ss + 1,
{
    if e >= ss {
        lemma_active_cells(g, p, sp, ss, e - 1);
        let prev = active_cells(g, p, sp, ss, e - 1);
        let x = active_cells(g, p, sp, ss, e);
        assert forall|i: int| 0 <= i < x.len() implies {
            let c = #[trigger] x[i];
            &&& c.0 == p - sp
            &&& ss <= ss + c.1 <= e
            &&& c.2 == g[p][ss + c.1]
            &&& c.2.active
        } by {
            if i < prev.len() {
                assert(x[i] == prev[i]);
            }
        }
        assert forall|st: int| ss <= st <= e && (#[trigger] g[p][st]).active
            implies x.contains(((p - sp) as usize, (st - ss) as usize, g[p][st])) by {
            if st < e {
                let i = choose|i: int| 0 <= i < prev.len() && prev[i] == ((p - sp) as usize, (st - ss) as usize, g[p][st]);
                assert(x[i] == prev[i]);
            } else {
                assert(x[x.len() - 1] == ((p - sp) as usize, (st - ss) as usize, g[p][st]));
            }
        }
    }
}

/// The entries of rows `sp..=e` are their active cells in columns
/// `ss..=es` (clipped to each row), each once.
proof fn lemma_copied_rows(g: Seq<Seq<DrumStep>>, sp: int, ss: int, es: int, e: int)
    requires
        0 <= sp,
        0 <= ss,
        es <= usize::MAX,
        e < g.len(),
        g.len() <= usize::MAX,
    ensures
        forall|i: int| 0 <= i < copied_rows(g, sp, ss, es, e).len() ==> {
            let c = #[trigger] copied_rows(g, sp, ss, es, e)[i];
            &&& sp <= sp + c.0 <= e
            &&& ss <= ss + c.1 <= es
            &&& ss + c.1 < g[sp + c.0].len()
            &&& c.2 == g[sp + c.0][ss + c.1]
            &&& c.2.active
        },
        forall|p: int, st: int| sp <= p <= e && ss <= st <= es && st < g[p].len() && (#[trigger] g[p][st]).active
            ==> copied_rows(g, sp, ss, es, e).contains(((p - sp) as usize, (st - ss) as usize, g[p][st])),
    decreases e - sp + 1,
{
    if e >= sp {
        lemma_copied_rows(g, sp, ss, es, e - 1);
        let last = if es < g[e].len() - 1 { es } else { g[e].len() - 1 };
        lemma_active_cells(g, e, sp, ss, last);
        let a = copied_rows(g, sp, ss, es, e - 1);
        let b = active_cells(g, e, sp, ss, last);
        let x = copied_rows(g, sp, ss, es, e);
        assert(x == a + b);
        assert forall|i: int| 0 <= i < x.len() implies {
            let c = #[trigger] x[i];
            &&& sp <= sp + c.0 <= e
            &&& ss <= ss + c.1 <= es
            &&& ss + c.1 < g[sp + c.0].len()
            &&& c.2 == g[sp + c.0][ss + c.1]
            &&& c.2.active
        } by {
            if i < a.len() {
                assert(x[i] == a[i]);
            } else {
                assert(x[i] == b[i - a.len()]);
            }
        }
        assert forall|p: int, st: int| sp <= p <= e && ss <= st <= es && st < g[p].len() && (#[trigger] g[p][st]).active
            implies x.contains(((p - sp) as usize, (st - ss) as usize, g[p][st])) by {
            let v = ((p - sp) as usize, (st - ss) as usize, g[p][st]);
            if p < e {
                let i = choose|i: int| 0 <= i < a.len() && a[i] == v;
                assert(x[i] == a[i]);
            } else {
                let i = choose|i: int| 0 <= i < b.len() && b[i] == v;
                assert(x[a.len() + i] == b[i]);
            }
        }
    }
}

/// Copying the steps of a region copies the active cells of the rectangle
/// with both bounds included (pads `sp..=ep`, steps `ss..=es`) that lie in
/// the grid, and nothing else: each entry is such a cell, with its offsets
/// from the corner, and each such cell has an entry.
pub proof fn law_copy_steps_region_is_inclusive(g: Seq<Seq<DrumStep>>, sp: usize, ep: usize, ss: usize, es: usize)
    requires
        0 < g.len() <= usize::MAX,
    ensures
        forall|i: int| 0 <= i < copied_steps(g, sp as int, ep as int, ss as int, es as int).len() ==> {
            let c = #[trigger] copied_steps(g, sp as int, ep as int, ss as int, es as int)[i];
            let p = sp + c.0;
            let st = ss + c.1;
            &&& sp <= p && p <= ep && p < g.len()
            &&& ss <= st && st <= es && st < g[p].len()
            &&& c.2 == g[p][st]
            &&& c.2.active
        },
        forall|p: int, st: int| sp <= p <= ep && p < g.len() && ss <= st <= es && st < g[p].len() && (#[trigger] g[p][st]).active
            ==> copied_steps(g, sp as int, ep as int, ss as int, es as int).contains(((p - sp) as usize, (st - ss) as usize, g[p][st])),
{
    let e = if ep < g.len() - 1 { ep as int } else { g.len() - 1 };
    lemma_copied_rows(g, sp as int, ss as int, es as int, e);
}

impl DrumPattern {
    /// The clipboard entries of a rectangle with inclusive bounds.
    pub fn copy_region(&self, sp: usize, ep: usize, ss: usize, es: usize) -> (v: Vec<(usize, usize, DrumStep)>)
        requires
            self.wf(),
        ensures
            v@ == copied_steps(self.grid(), sp as int, ep as int, ss as int, es as int),
    {
        proof { lemma_grid(*self); }
        let ghost g = self.grid();
        let last_p: usize = if ep < NUM_PADS - 1 { ep } else { NUM_PADS - 1 };
        let mut v: Vec<(usize, usize, DrumStep)> = Vec::new();
        let mut p: usize = sp;
        while p <= last_p
            invariant
                self.wf(),
                g == self.grid(),
                g.len() == NUM_PADS,
                last_p < NUM_PADS,
                last_p == (if ep < g.len() - 1 { ep as int } else { g.len() - 1 }),
                sp <= p <= last_p + 1 || (p == sp && sp > last_p),
                v@ == copied_rows(g, sp as int, ss as int, es as int, p - 1),
            decreases last_p + 1 - p,
        {
            proof { lemma_grid(*self); }
            let row_len = self.steps[p].len();
            let ghost start = v@;
            if row_len > 0 {
                let last_s: usize = if es < row_len - 1 { es } else { row_len - 1 };
                let mut st: usize = ss;
                while st <= last_s
                    invariant
                        self.wf(),
                        g == self.grid(),
                        g.len() == NUM_PADS,
                        sp <= p < NUM_PADS,
                        row_len == g[p as int].len(),
                        last_s < row_len,
                        ss <= st <= last_s + 1 || (st == ss && ss > last_s),
                        v@ == start + active_cells(g, p as int, sp as int, ss as int, st - 1),
                    decreases last_s + 1 - st,
                {
                    proof { lemma_grid(*self); }
                    let d = self.steps[p][st];
                    if d.active {
                        v.push((p - sp, st - ss, d));
                    }
                    assert(v@ =~= start + active_cells(g, p as int, sp as int, ss as int, st as int));
                    st = st + 1;
                }
                assert(v@ =~= start + active_cells(g, p as int, sp as int, ss as int,
                    if es < g[p as int].len() - 1 { es as int } else { g[p as int].len() - 1 }));
            } else {
                assert(v@ =~= start + active_cells(g, p as int, sp as int, ss as int, -1));
            }
            assert(v@ =~= copied_rows(g, sp as int, ss as int, es as int, p as int));
            p = p + 1;
        }
        v
    }
}

impl DrumSequencer {
    /// Apply a sequencer action to this kit; `buffer` is the sampler buffer
    /// id a `LoadSampleResult` assigns.
    pub fn apply(&mut self, action: &SequencerAction, buffer: u32)
        requires
            old(self).wf(),
            sequencer_action_ok(*action),
        ensures
            final(self).wf(),
            sequencer_action_applied(*old(self), *final(self), *action, buffer),
    {
        let cp = self.current_pattern;
        let ghost o = *self;
        proof { lemma_grid(self.patterns@[cp as int]); }
        match action {
            SequencerAction::ToggleStep(p, st) => {
                if *p < NUM_PADS && *st < self.patterns[cp].steps[*p].len() {
                    let d = self.patterns[cp].steps[*p][*st];
                    self.set_cell(*p, *st, DrumStep { active: !d.active, ..d });
                } else {
                    assert(o.grids().update(cp as int, o.current_grid()) =~= o.grids());
                }
            },
            SequencerAction::AdjustVelocity(p, st, delta) => {
                if *p < NUM_PADS && *st < self.patterns[cp].steps[*p].len() {
                    let d = self.patterns[cp].steps[*p][*st];
                    let raw: i16 = d.velocity as i16 + *delta as i16;
                    let v: u8 = if raw < 1 { 1 } else if raw > 127 { 127 } else { raw as u8 };
                    self.set_cell(*p, *st, DrumStep { velocity: v, ..d });
                } else {
                    assert(o.grids().update(cp as int, o.current_grid()) =~= o.grids());
                }
            },
            SequencerAction::AdjustStepPitch(p, st, delta) => {
                if *p < NUM_PADS && *st < self.patterns[cp].steps[*p].len() {
                    let d = self.patterns[cp].steps[*p][*st];
                    let raw: i16 = d.pitch_offset as i16 + *delta as i16;
                    let v: i8 = if raw < -24 { -24 } else if raw > 24 { 24 } else { raw as i8 };
                    self.set_cell(*p, *st, DrumStep { pitch_offset: v, ..d });
                } else {
                    assert(o.grids().update(cp as int, o.current_grid()) =~= o.grids());
                }
            },
            SequencerAction::ClearPad(p) => {
                if *p < NUM_PADS {
                    self.patterns[cp].clear_pad(*p);
                    proof { lemma_pattern_replaced(o, *self, cp as int); }
                } else {
                    assert(o.grids().update(cp as int, o.current_grid()) =~= o.grids());
                }
            },
            SequencerAction::ClearPattern => {
                let len = self.patterns[cp].length;
                self.patterns.set(cp, DrumPattern::new(len));
                proof { lemma_pattern_replaced(o, *self, cp as int); }
            },
            SequencerAction::DeleteStepsInRegion { start_pad, end_pad, start_step, end_step } => {
                self.patterns[cp].clear_region(*start_pad, *end_pad, *start_step, *end_step);
                proof { lemma_pattern_replaced(o, *self, cp as int); }
            },
            SequencerAction::PasteSteps { anchor_pad, anchor_step, steps } => {
                self.patterns[cp].paste(*anchor_pad, *anchor_step, steps);
                proof { lemma_pattern_replaced(o, *self, cp as int); }
            },
            SequencerAction::CyclePatternLength => {
                let cur = self.patterns[cp].length;
                let new_len: usize = if cur == 8 { 16 } else if cur == 16 { 32 } else if cur == 32 { 64 } else if cur == 64 { 8 } else { 16 };
                let np = self.patterns[cp].resized(new_len);
                self.patterns.set(cp, np);
                proof { lemma_pattern_replaced(o, *self, cp as int); }
            },
            SequencerAction::NextPattern => {
                let n = self.patterns.len();
                self.current_pattern = if cp + 1 < n { cp + 1 } else { 0 };
                assert(self.current_pattern == (cp + 1) % (n as int)) by (nonlinear_arith)
                    requires
                        cp < n,
                        self.current_pattern == (if cp + 1 < n { cp + 1 } else { 0 }),
                ;
            },
            SequencerAction::PrevPattern => {
                self.current_pattern = if cp == 0 { self.patterns.len() - 1 } else { cp - 1 };
            },
            SequencerAction::PlayStop => {
                self.playing = !self.playing;
                if !self.playing {
                    self.current_step = 0;
                }
            },
            SequencerAction::ToggleChain => {
                self.chain_enabled = !self.chain_enabled;
                self.chain_position = 0;
            },
            SequencerAction::AddChainStep(i) => {
                if *i < self.patterns.len() {
                    self.chain.push(*i);
                }
            },
            SequencerAction::RemoveChainStep(i) => {
                if *i < self.chain.len() {
                    self.chain.remove(*i);
                }
            },
            SequencerAction::MoveChainStep(from, to) => {
                if *from < self.chain.len() && *to < self.chain.len() {
                    let item = self.chain.remove(*from);
                    self.chain.insert(*to, item);
                }
            },
            SequencerAction::ToggleReverse(p) => {
                if *p < self.pads.len() {
                    let pad = self.pads[*p];
                    self.pads.set(*p, DrumPad { reverse: !pad.reverse, ..pad });
                }
            },
            SequencerAction::AdjustPadPitch(p, delta) => {
                if *p < self.pads.len() {
                    let pad = self.pads[*p];
                    let raw: i16 = pad.pitch as i16 + *delta as i16;
                    let v: i8 = if raw < -24 { -24 } else if raw > 24 { 24 } else { raw as i8 };
                    self.pads.set(*p, DrumPad { pitch: v, ..pad });
                }
            },
            SequencerAction::SetPadInstrument(p, id) => {
                if *p < self.pads.len() {
                    let pad = self.pads[*p];
                    self.pads.set(*p, DrumPad { buffer_id: None, instrument_id: Some(*id), ..pad });
                }
            },
            SequencerAction::ClearPadInstrument(p) => {
                if *p < self.pads.len() {
                    let pad = self.pads[*p];
                    self.pads.set(*p, DrumPad { instrument_id: None, ..pad });
                }
            },
            SequencerAction::LoadSampleResult(p) => {
                if *p < self.pads.len() {
                    let pad = self.pads[*p];
                    self.pads.set(*p, DrumPad { buffer_id: Some(buffer), ..pad });
                }
            },
            SequencerAction::OpenInstrumentPicker(p) => {
                self.editing_pad = Some(*p);
            },
            SequencerAction::LoadSample(_) | SequencerAction::CopySteps { .. } => {},
        }
    }
}


/// Position of the selected instrument when it is a kit with a sequencer.
pub open spec fn selected_kit(is: InstrumentState) -> Option<int> {
    match is.selected {
        Some(k) => if k < is.instruments@.len() && is.instruments@[k as int].drum_sequencer is Some {
            Some(k as int)
        } else {
            None
        },
        None => None,
    }
}

/// The audio work and navigation a sequencer action asks for.
pub open spec fn sequencer_action_effects(action: SequencerAction) -> (Seq<AudioEffect>, Seq<NavIntent>) {
    match action {
        SequencerAction::LoadSample(p) => (Seq::empty(), seq![NavIntent::OpenFileBrowser(FileSelectAction::LoadDrumSample(p))]),
        SequencerAction::OpenInstrumentPicker(_) => (Seq::empty(), seq![NavIntent::PushTo(PaneId::InstrumentPicker)]),
        SequencerAction::LoadSampleResult(_) => (seq![AudioEffect::RebuildInstruments], seq![NavIntent::Pop]),
        SequencerAction::CopySteps { .. } => (Seq::empty(), Seq::empty()),
        _ => (seq![AudioEffect::RebuildInstruments], Seq::empty()),
    }
}

/// What a `CopySteps` action copies from the kit (nothing for other actions).
pub open spec fn copy_of(kit: DrumSequencer, action: SequencerAction) -> Seq<(usize, usize, DrumStep)> {
    match action {
        SequencerAction::CopySteps { start_pad, end_pad, start_step, end_step } =>
            copied_steps(kit.current_grid(), start_pad as int, end_pad as int, start_step as int, end_step as int),
        _ => Seq::empty(),
    }
}

/// The state change of `dispatch_sequencer`: the selected kit's sequencer is
/// changed by the action, a loaded sample takes the next sampler buffer id,
/// and a copy that finds active steps fills the clipboard.
pub open spec fn sequencer_dispatched(o: AppState, n: AppState, action: SequencerAction) -> bool {
    let oi = o.instruments;
    let ni = n.instruments;
    &&& n.session == o.session
    &&& n.midi == o.midi
    &&& n.audio == o.audio
    &&& n.io == o.io
    &&& ni.selected == oi.selected
    &&& ni.next_id == oi.next_id
    &&& ni.next_layer_group_id == oi.next_layer_group_id
    &&& ni.editing_instrument_id == oi.editing_instrument_id
    &&& ni.next_sampler_buffer_id == (if action is LoadSampleResult {
        oi.next_sampler_buffer_id + 1
    } else {
        oi.next_sampler_buffer_id as int
    })
    &&& match selected_kit(oi) {
        Some(k) => {
            let a = oi.instruments@[k];
            let b = ni.instruments@[k];
            &&& ni.instruments@.len() == oi.instruments@.len()
            &&& forall|j: int| 0 <= j < oi.instruments@.len() && j != k ==> ni.instruments@[j] == oi.instruments@[j]
            &&& b == (crate::state::Instrument { drum_sequencer: b.drum_sequencer, ..a })
            &&& b.drum_sequencer is Some
            &&& sequencer_action_applied(a.drum_sequencer->0, b.drum_sequencer->0, action, oi.next_sampler_buffer_id)
            &&& if copy_of(a.drum_sequencer->0, action).len() > 0 {
                n.clipboard matches Some(ClipboardContents::DrumSteps(v)) && v@ == copy_of(a.drum_sequencer->0, action)
            } else {
                n.clipboard == o.clipboard
            }
        },
        None => ni.instruments@ == oi.instruments@ && n.clipboard == o.clipboard,
    }
}


/// The audio operations of a sequencer action: a sample chosen for a pad is
/// loaded into its buffer when there is a kit and the engine runs.
pub open spec fn sequencer_side_effects(o: AppState, action: SequencerAction, running: bool) -> Seq<AudioSideEffect> {
    if action is LoadSampleResult && selected_kit(o.instruments) is Some && running {
        seq![AudioSideEffect::LoadSample { buffer_id: o.instruments.next_sampler_buffer_id }]
    } else {
        Seq::empty()
    }
}

/// Dispatch a sequencer action to the selected kit instrument. `running` is
/// whether the audio engine runs; the audio operations to perform are
/// appended to `effects`.
pub fn dispatch_sequencer(
    action: &SequencerAction,
    state: &mut AppState,
    running: bool,
    effects: &mut Vec<AudioSideEffect>,
) -> (r: DispatchResult)
    requires
        old(state).instruments.wf(),
        sequencer_action_ok(*action),
        action is LoadSampleResult ==> old(state).instruments.next_sampler_buffer_id < u32::MAX,
    ensures
        final(state).instruments.wf(),
        sequencer_dispatched(*old(state), *final(state), *action),
        final(effects)@ == old(effects)@ + sequencer_side_effects(*old(state), *action, running),
        r.audio_effects@ == sequencer_action_effects(*action).0,
        r.nav@ == sequencer_action_effects(*action).1,
        !r.needs_full_sync,
{
    let buffer = state.instruments.next_sampler_buffer_id;
    if let SequencerAction::LoadSampleResult(_) = action {
        state.instruments.next_sampler_buffer_id = buffer + 1;
    }
    let ghost o = *old(state);
    let ghost mid = state.instruments;
    match state.instruments.selected {
        Some(k) => {
            if k < state.instruments.instruments.len() {
                let kit = state.instruments.instruments[k].drum_sequencer.take();
                match kit {
                    Some(mut seq) => {
                        proof { assert(kit_wf(mid.instruments@[k as int].drum_sequencer)); }
                        if let SequencerAction::LoadSampleResult(_) = action {
                            if running {
                                effects.push(AudioSideEffect::LoadSample { buffer_id: buffer });
                            }
                        }
                        if let SequencerAction::CopySteps { start_pad, end_pad, start_step, end_step } = action {
                            let c = seq.patterns[seq.current_pattern].copy_region(*start_pad, *end_pad, *start_step, *end_step);
                            if c.len() > 0 {
                                state.clipboard = Some(ClipboardContents::DrumSteps(c));
                            }
                        }
                        seq.apply(action, buffer);
                        state.instruments.instruments[k].drum_sequencer = Some(seq);
                        proof {
                            let ni = state.instruments.instruments@;
                            assert(ni[k as int] == (crate::state::Instrument { drum_sequencer: ni[k as int].drum_sequencer, ..mid.instruments@[k as int] }));
                            assert forall|j: int| 0 <= j < ni.len() implies kit_wf((#[trigger] ni[j]).drum_sequencer) by {
                                if j != k { assert(ni[j] == mid.instruments@[j]); }
                            }
                        }
                    },
                    None => {
                        state.instruments.instruments[k].drum_sequencer = None;
                        proof { assert(state.instruments.instruments@ =~= mid.instruments@); }
                    },
                }
            }
        },
        None => {},
    }
    let mut result = DispatchResult::none();
    match action {
        SequencerAction::LoadSample(p) => {
            result.nav.push(NavIntent::OpenFileBrowser(FileSelectAction::LoadDrumSample(*p)));
        },
        SequencerAction::OpenInstrumentPicker(_) => {
            result.nav.push(NavIntent::PushTo(PaneId::InstrumentPicker));
        },
        SequencerAction::LoadSampleResult(_) => {
            result.nav.push(NavIntent::Pop);
            result.audio_effects.push(AudioEffect::RebuildInstruments);
        },
        SequencerAction::CopySteps { .. } => {},
        _ => {
            result.audio_effects.push(AudioEffect::RebuildInstruments);
        },
    }
    proof {
        assert(effects@ =~= old(effects)@ + sequencer_side_effects(*old(state), *action, running));
        assert(result.nav@ =~= sequencer_action_effects(*action).1);
        assert(result.audio_effects@ =~= sequencer_action_effects(*action).0);
    }
    result
}


impl InstrumentState {
    /// The sequencer of the selected instrument, when it is a kit.
    pub fn selected_drum_sequencer(&self) -> (r: Option<&DrumSequencer>)
        ensures
            match selected_kit(*self) {
                Some(k) => r == Some(&self.instruments@[k].drum_sequencer->0),
                None => r is None,
            },
    {
        match self.selected {
            Some(k) => {
                if k < self.instruments.len() {
                    match &self.instruments[k].drum_sequencer {
                        Some(seq) => Some(seq),
                        None => None,
                    }
                } else {
                    None
                }
            },
            None => None,
        }
    }
}

} // verus!
