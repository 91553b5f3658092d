//! The signal chain of an instrument as the engine builds it: which synths
//! it creates, in which order, with which node ids, where the output goes
//! and whether it starts muted. The engine turns each stage into a synth
//! with its parameters.
use std::collections::HashMap;
use vstd::prelude::*;

use crate::engine::InstrumentNodes;
use crate::state::{BusId, EffectId, EffectSlot, EffectType, FilterType, Instrument, OutputTarget, SourceType};

verus! {

broadcast use vstd::std_specs::hash::group_hash_axioms;

/// One synth of an instrument's chain.
#[derive(Clone, Copy, PartialEq, Eq, Structural, Debug)]
pub enum ChainStage {
    AudioIn,
    BusIn(BusId),
    VstInstrument(u32),
    Lfo,
    Filter(FilterType),
    Eq,
    Effect(EffectId, EffectType),
    Output,
}

/// Where the output synth of an instrument sends its signal.
#[derive(Clone, Copy, PartialEq, Eq, Structural, Debug)]
pub enum OutputDest {
    LayerGroup(u32),
    Bus(BusId),
    Master,
}

/// An audio bus of an instrument's chain, by the stage that writes it. The
/// engine's bus allocator gives each a bus number per instrument.
#[derive(Clone, Copy, PartialEq, Eq, Structural, Debug)]
pub enum ChainBus {
    /// Written by the source synth or the voices.
    SourceOut,
    FilterOut,
    EqOut,
    EffectOut(EffectId),
}

/// The audio wiring of one processing stage: the bus it reads and the bus it
/// writes (none for the output, which writes to its destination).
#[derive(Clone, Copy, PartialEq, Eq, Structural, Debug)]
pub struct Wire {
    pub stage: ChainStage,
    pub input: ChainBus,
    pub output: Option<ChainBus>,
}

/// The plan of an instrument's chain.
pub struct ChainPlan {
    /// Node id and synth of each stage, in signal order.
    pub stages: Vec<(i32, ChainStage)>,
    /// The node ids by role.
    pub nodes: InstrumentNodes,
    /// The first node id after the chain.
    pub next_node_id: i32,
    pub output_mute: bool,
    pub output_dest: OutputDest,
    /// The processing stages in signal order, each with its audio buses.
    pub wires: Vec<Wire>,
}

/// The stages that read the chain's audio: filter, EQ, the enabled effects
/// and the output, in signal order.
pub open spec fn processing_stages(inst: Instrument) -> Seq<ChainStage> {
    (match inst.filter { Some(f) => seq![ChainStage::Filter(f)], None => Seq::empty() })
        + (if inst.eq_enabled { seq![ChainStage::Eq] } else { Seq::empty() })
        + effect_stages(inst.effects.effects@)
        + seq![ChainStage::Output]
}

/// The bus a processing stage writes.
pub open spec fn stage_out_bus(st: ChainStage) -> Option<ChainBus> {
    match st {
        ChainStage::Filter(_) => Some(ChainBus::FilterOut),
        ChainStage::Eq => Some(ChainBus::EqOut),
        ChainStage::Effect(id, _) => Some(ChainBus::EffectOut(id)),
        _ => None,
    }
}

/// The wiring of the processing stages: the first reads the source's bus,
/// each later one reads the bus its predecessor writes.
pub open spec fn chain_wires(inst: Instrument) -> Seq<Wire> {
    let ps = processing_stages(inst);
    Seq::new(ps.len(), |k: int| Wire {
        stage: ps[k],
        input: if k == 0 { ChainBus::SourceOut } else { stage_out_bus(ps[k - 1])->0 },
        output: stage_out_bus(ps[k]),
    })
}

/// The source synth, for sources that have a persistent one (oscillator
/// voices are spawned per note).
pub open spec fn source_stage(s: SourceType) -> Seq<ChainStage> {
    match s {
        SourceType::AudioIn => seq![ChainStage::AudioIn],
        SourceType::BusIn(b) => seq![ChainStage::BusIn(b)],
        SourceType::Vst(v) => seq![ChainStage::VstInstrument(v)],
        _ => Seq::empty(),
    }
}

/// The effect stages: the enabled effects, in chain order.
pub open spec fn effect_stages(effects: Seq<EffectSlot>) -> Seq<ChainStage>
    decreases effects.len(),
{
    if effects.len() == 0 {
        Seq::empty()
    } else {
        let prev = effect_stages(effects.drop_last());
        let e = effects.last();
        if e.enabled { prev.push(ChainStage::Effect(e.id, e.effect_type)) } else { prev }
    }
}

/// The ids of the enabled effects, in chain order.
pub open spec fn enabled_effect_ids(effects: Seq<EffectSlot>) -> Seq<EffectId>
    decreases effects.len(),
{
    if effects.len() == 0 {
        Seq::empty()
    } else {
        let prev = enabled_effect_ids(effects.drop_last());
        let e = effects.last();
        if e.enabled { prev.push(e.id) } else { prev }
    }
}

/// The stages before the effects: source, LFO, filter and EQ, each where
/// the instrument has it.
pub open spec fn head_stages(inst: Instrument) -> Seq<ChainStage> {
    source_stage(inst.source)
        + (if inst.lfo_enabled { seq![ChainStage::Lfo] } else { Seq::empty() })
        + (match inst.filter { Some(f) => seq![ChainStage::Filter(f)], None => Seq::empty() })
        + (if inst.eq_enabled { seq![ChainStage::Eq] } else { Seq::empty() })
}

/// The stages of an instrument's chain: source, LFO, filter, EQ, the enabled
/// effects, and the output.
pub open spec fn chain_stages(inst: Instrument) -> Seq<ChainStage> {
    head_stages(inst) + effect_stages(inst.effects.effects@) + seq![ChainStage::Output]
}

/// Whether the output synth starts muted: with any instrument soloed, every
/// instrument that is not soloed; otherwise a muted instrument, or all when
/// the master is muted.
pub open spec fn output_muted(inst: Instrument, any_solo: bool, master_mute: bool) -> bool {
    if any_solo { !inst.solo } else { inst.mute || master_mute }
}

/// Where the output goes: the layer group when the instrument is in one,
/// else its output target.
pub open spec fn output_dest(inst: Instrument) -> OutputDest {
    match inst.layer_group {
        Some(g) => OutputDest::LayerGroup(g),
        None => match inst.output_target {
            OutputTarget::Bus(b) => OutputDest::Bus(b),
            OutputTarget::Master => OutputDest::Master,
        },
    }
}

/// Consecutive ids from `first`.
pub open spec fn consecutive(first: int, n: nat) -> Seq<i32> {
    Seq::new(n, |i: int| (first + i) as i32)
}

/// The chain of `inst` needs room for its node ids after `first`.
pub open spec fn room_for_chain(inst: Instrument, first: i32) -> bool {
    first + inst.effects.effects@.len() + 5 <= i32::MAX
}

/// Number of enabled effects among the first `k` grows by at most one per slot.
proof fn lemma_effect_stages_len(effects: Seq<EffectSlot>)
    ensures
        effect_stages(effects).len() == enabled_effect_ids(effects).len(),
        effect_stages(effects).len() <= effects.len(),
        forall|i: int| 0 <= i < effect_stages(effects).len() ==>
            (#[trigger] effect_stages(effects)[i] matches ChainStage::Effect(id, _) && id == enabled_effect_ids(effects)[i]),
    decreases effects.len(),
{
    if effects.len() > 0 {
        lemma_effect_stages_len(effects.drop_last());
    }
}

/// The enabled ids of a chain with distinct ids are distinct.
proof fn lemma_enabled_ids_distinct(effects: Seq<EffectSlot>)
    requires
        forall|i: int, j: int| 0 <= i < j < effects.len() ==> effects[i].id != effects[j].id,
    ensures
        forall|i: int, j: int| 0 <= i < j < enabled_effect_ids(effects).len()
            ==> enabled_effect_ids(effects)[i] != enabled_effect_ids(effects)[j],
        forall|i: int| 0 <= i < enabled_effect_ids(effects).len()
            ==> exists|k: int| 0 <= k < effects.len() && effects[k].id == #[trigger] enabled_effect_ids(effects)[i],
    decreases effects.len(),
{
    if effects.len() > 0 {
        let rest = effects.drop_last();
        lemma_enabled_ids_distinct(rest);
        let ids = enabled_effect_ids(rest);
        assert forall|i: int| 0 <= i < ids.len() implies ids[i] != effects.last().id by {
            let k = choose|k: int| 0 <= k < rest.len() && rest[k].id == ids[i];
            assert(effects[k] == rest[k]);
        }
        assert forall|i: int| 0 <= i < enabled_effect_ids(effects).len()
            implies exists|k: int| 0 <= k < effects.len() && effects[k].id == #[trigger] enabled_effect_ids(effects)[i] by {
            if i < ids.len() {
                let k = choose|k: int| 0 <= k < rest.len() && rest[k].id == ids[i];
                assert(effects[k] == rest[k]);
            } else {
                assert(effects[effects.len() - 1] == effects.last());
            }
        }
    }
}

/// Effect nodes listed in an order of distinct ids that map to consecutive
/// nodes are those consecutive nodes.
proof fn lemma_effect_nodes_consecutive(order: Seq<EffectId>, nodes: Map<EffectId, i32>, base: int)
    requires
        forall|i: int, j: int| 0 <= i < j < order.len() ==> order[i] != order[j],
        forall|i: int| 0 <= i < order.len() ==> nodes.contains_key(#[trigger] order[i]) && nodes[order[i]] == (base + i) as i32,
    ensures
        crate::engine::effect_nodes(order, nodes) == consecutive(base, order.len()),
    decreases order.len(),
{
    if order.len() > 0 {
        let rest = order.drop_last();
        assert forall|i: int| 0 <= i < rest.len() implies nodes.contains_key(#[trigger] rest[i]) && nodes[rest[i]] == (base + i) as i32 by {
            assert(rest[i] == order[i]);
        }
        lemma_effect_nodes_consecutive(rest, nodes, base);
        assert(order.last() == order[order.len() - 1]);
        assert(crate::engine::effect_nodes(order, nodes) =~= consecutive(base, order.len()));
    }
}

/// The stages, nodes and order of the enabled effects, with node ids from `base` on.
fn plan_effects(es: &Vec<EffectSlot>, base: i32) -> (r: (Vec<(i32, ChainStage)>, HashMap<EffectId, i32>, Vec<EffectId>))
    requires
        forall|i: int, j: int| 0 <= i < j < es@.len() ==> es@[i].id != es@[j].id,
        base + es@.len() <= i32::MAX,
    ensures
        r.0@.len() == effect_stages(es@).len(),
        forall|i: int| 0 <= i < r.0@.len() ==> #[trigger] r.0@[i] == ((base + i) as i32, effect_stages(es@)[i]),
        r.2@ == enabled_effect_ids(es@),
        forall|i: int| 0 <= i < r.2@.len() ==> r.1@.contains_key(#[trigger] r.2@[i]) && r.1@[r.2@[i]] == (base + i) as i32,
        r.1@.dom() == r.2@.to_set(),
{
    let mut stages: Vec<(i32, ChainStage)> = Vec::new();
    let mut effects: HashMap<EffectId, i32> = HashMap::new();
    let mut order: Vec<EffectId> = Vec::new();
    let mut next: i32 = base;
    let mut k: usize = 0;
    proof { lemma_effect_stages_len(es@.subrange(0, 0)); }
    while k < es.len()
        invariant
            k <= es@.len(),
            forall|i: int, j: int| 0 <= i < j < es@.len() ==> es@[i].id != es@[j].id,
            base + es@.len() <= i32::MAX,
            next == base + stages@.len(),
            stages@.len() == effect_stages(es@.subrange(0, k as int)).len(),
            stages@.len() <= k,
            forall|i: int| 0 <= i < stages@.len() ==> #[trigger] stages@[i] == ((base + i) as i32, effect_stages(es@.subrange(0, k as int))[i]),
            order@ == enabled_effect_ids(es@.subrange(0, k as int)),
            order@.len() == stages@.len(),
            forall|i: int| 0 <= i < order@.len() ==> effects@.contains_key(#[trigger] order@[i]) && effects@[order@[i]] == (base + i) as i32,
            effects@.dom() == order@.to_set(),
        decreases es@.len() - k,
    {
        let e = es[k];
        let ghost s0 = es@.subrange(0, k as int);
        let ghost s1 = es@.subrange(0, k + 1);
        proof {
            assert(s1.drop_last() =~= s0);
            assert(s1.last() == e);
            lemma_enabled_ids_distinct(s0);
            lemma_effect_stages_len(s1);
        }
        if e.enabled {
            proof {
                assert forall|i: int| 0 <= i < order@.len() implies order@[i] != e.id by {
                    let j = choose|j: int| 0 <= j < s0.len() && s0[j].id == enabled_effect_ids(s0)[i];
                    assert(es@[j] == s0[j]);
                }
            }
            let ghost old_map = effects@;
            let ghost old_order = order@;
            stages.push((next, ChainStage::Effect(e.id, e.effect_type)));
            effects.insert(e.id, next);
            order.push(e.id);
            proof {
                assert(effects@ == old_map.insert(e.id, next));
                assert(order@.to_set() =~= old_order.to_set().insert(e.id)) by {
                    assert(order@ == old_order.push(e.id));
                    broadcast use vstd::seq_lib::group_seq_properties;
                }
                assert forall|i: int| 0 <= i < order@.len() implies effects@.contains_key(#[trigger] order@[i])
                    && effects@[order@[i]] == (base + i) as i32 by {
                    if i < old_order.len() {
                        assert(order@[i] == old_order[i]);
                        assert(old_order[i] != e.id);
                    }
                }
            }
            next = next + 1;
        }
        k = k + 1;
    }
    assert(es@.subrange(0, k as int) =~= es@);
    (stages, effects, order)
}

/// The effect stages are effect stages.
proof fn lemma_effect_stages_are_effects(effects: Seq<EffectSlot>)
    ensures
        forall|i: int| 0 <= i < effect_stages(effects).len() ==> #[trigger] effect_stages(effects)[i] is Effect,
    decreases effects.len(),
{
    if effects.len() > 0 {
        lemma_effect_stages_are_effects(effects.drop_last());
    }
}

/// Wire the processing stages; `fx` holds the effect stages with their nodes.
fn plan_wires(inst: &Instrument, fx: &Vec<(i32, ChainStage)>) -> (r: Vec<Wire>)
    requires
        fx@.len() == effect_stages(inst.effects.effects@).len(),
        forall|i: int| 0 <= i < fx@.len() ==> (#[trigger] fx@[i]).1 == effect_stages(inst.effects.effects@)[i],
    ensures
        r@ == chain_wires(*inst),
{
    let ghost ps = processing_stages(*inst);
    let ghost want = chain_wires(*inst);
    let ghost fxs = effect_stages(inst.effects.effects@);
    proof { lemma_effect_stages_are_effects(inst.effects.effects@); }
    let ghost hl: int = (if inst.filter is Some { 1int } else { 0 }) + (if inst.eq_enabled { 1int } else { 0 });
    let mut wires: Vec<Wire> = Vec::new();
    let mut cur = ChainBus::SourceOut;
    if let Some(f) = inst.filter {
        wires.push(Wire { stage: ChainStage::Filter(f), input: cur, output: Some(ChainBus::FilterOut) });
        cur = ChainBus::FilterOut;
    }
    if inst.eq_enabled {
        wires.push(Wire { stage: ChainStage::Eq, input: cur, output: Some(ChainBus::EqOut) });
        cur = ChainBus::EqOut;
    }
    assert(wires@.len() == hl);
    assert forall|k: int| 0 <= k < hl implies #[trigger] wires@[k] == want[k] by {}
    assert(hl > 0 ==> Some(cur) == stage_out_bus(ps[hl - 1]));
    assert(hl == 0 ==> cur == ChainBus::SourceOut);
    let mut i: usize = 0;
    while i < fx.len()
        invariant
            i <= fx@.len(),
            fx@.len() == fxs.len(),
            forall|j: int| 0 <= j < fx@.len() ==> (#[trigger] fx@[j]).1 == fxs[j],
            forall|j: int| 0 <= j < fxs.len() ==> #[trigger] fxs[j] is Effect,
            ps == processing_stages(*inst),
            want == chain_wires(*inst),
            fxs == effect_stages(inst.effects.effects@),
            hl == (if inst.filter is Some { 1int } else { 0 }) + (if inst.eq_enabled { 1int } else { 0 }),
            wires@.len() == hl + i,
            forall|k: int| 0 <= k < hl + i ==> #[trigger] wires@[k] == want[k],
            hl + i > 0 ==> Some(cur) == stage_out_bus(ps[hl + i - 1]),
            hl + i == 0 ==> cur == ChainBus::SourceOut,
        decreases fx@.len() - i,
    {
        let st = fx[i].1;
        assert(ps[hl + i] == fxs[i as int]);
        match st {
            ChainStage::Effect(id, _) => {
                wires.push(Wire { stage: st, input: cur, output: Some(ChainBus::EffectOut(id)) });
                cur = ChainBus::EffectOut(id);
            },
            _ => {},
        }
        i = i + 1;
    }
    assert(ps[hl + i] == ChainStage::Output);
    wires.push(Wire { stage: ChainStage::Output, input: cur, output: None });
    assert(wires@ =~= want);
    wires
}

/// Each node slot of the head, numbered from `first` in signal order.
#[verifier::spinoff_prover]
#[verifier::rlimit(40)]
fn plan_head(inst: &Instrument, first: i32) -> (r: (Vec<(i32, ChainStage)>, Option<i32>, Option<i32>, Option<i32>, Option<i32>))
    requires
        first + 4 <= i32::MAX,
    ensures
        r.0@.len() == head_stages(*inst).len(),
        r.0@.len() <= 4,
        forall|i: int| 0 <= i < r.0@.len() ==> #[trigger] r.0@[i] == ((first + i) as i32, head_stages(*inst)[i]),
        crate::engine::opt_node(r.1) + crate::engine::opt_node(r.2) + crate::engine::opt_node(r.3)
            + crate::engine::opt_node(r.4) == consecutive(first as int, head_stages(*inst).len()),
{
    let ghost head = head_stages(*inst);
    let mut stages: Vec<(i32, ChainStage)> = Vec::new();
    let mut next: i32 = first;
    let source_stage_exec: Option<ChainStage> = match inst.source {
        SourceType::AudioIn => Some(ChainStage::AudioIn),
        SourceType::BusIn(b) => Some(ChainStage::BusIn(b)),
        SourceType::Vst(v) => Some(ChainStage::VstInstrument(v)),
        _ => None,
    };
    let mut source: Option<i32> = None;
    if let Some(st) = source_stage_exec {
        source = Some(next);
        stages.push((next, st));
        next = next + 1;
    }
    let mut lfo: Option<i32> = None;
    if inst.lfo_enabled {
        lfo = Some(next);
        stages.push((next, ChainStage::Lfo));
        next = next + 1;
    }
    let mut filter: Option<i32> = None;
    if let Some(f) = inst.filter {
        filter = Some(next);
        stages.push((next, ChainStage::Filter(f)));
        next = next + 1;
    }
    let mut eq: Option<i32> = None;
    if inst.eq_enabled {
        eq = Some(next);
        stages.push((next, ChainStage::Eq));
    }
    assert(stages@.len() == head.len());
    assert forall|i: int| 0 <= i < stages@.len() implies #[trigger] stages@[i] == ((first + i) as i32, head[i]) by {}
    assert(crate::engine::opt_node(source) + crate::engine::opt_node(lfo) + crate::engine::opt_node(filter)
        + crate::engine::opt_node(eq) =~= consecutive(first as int, head.len()));
    (stages, source, lfo, filter, eq)
}

/// Plan the chain of an instrument whose nodes get ids from `first` on.
#[verifier::rlimit(30)]
pub fn plan_instrument_chain(inst: &Instrument, first: i32, any_solo: bool, master_mute: bool) -> (plan: ChainPlan)
    requires
        inst.effects.wf(),
        room_for_chain(*inst, first),
    ensures
        plan.stages@.len() == chain_stages(*inst).len(),
        forall|i: int| 0 <= i < plan.stages@.len() ==> #[trigger] plan.stages@[i] == ((first + i) as i32, chain_stages(*inst)[i]),
        plan.next_node_id == first + chain_stages(*inst).len(),
        plan.nodes.chain_nodes() == consecutive(first as int, chain_stages(*inst).len()),
        plan.nodes.effect_order@ == enabled_effect_ids(inst.effects.effects@),
        plan.nodes.effects@.dom() == enabled_effect_ids(inst.effects.effects@).to_set(),
        plan.output_mute == output_muted(*inst, any_solo, master_mute),
        plan.output_dest == output_dest(*inst),
        plan.wires@ == chain_wires(*inst),
{
    let ghost head = head_stages(*inst);
    let ghost es = inst.effects.effects@;
    proof { lemma_effect_stages_len(es); }
    let (mut stages, source, lfo, filter, eq) = plan_head(inst, first);
    let base: i32 = first + stages.len() as i32;
    let (fx_stages, effects, effect_order) = plan_effects(&inst.effects.effects, base);
    let wires = plan_wires(inst, &fx_stages);
    proof {
        lemma_enabled_ids_distinct(es);
        lemma_effect_nodes_consecutive(effect_order@, effects@, base as int);
    }
    let ghost before = stages@;
    assert(fx_stages@.len() <= es.len());
    let mut i: usize = 0;
    let mut output: i32 = base;
    while i < fx_stages.len()
        invariant
            i <= fx_stages@.len(),
            stages@ == before + fx_stages@.subrange(0, i as int),
            output == base + i,
            base + fx_stages@.len() + 1 <= i32::MAX,
        decreases fx_stages@.len() - i,
    {
        stages.push(fx_stages[i]);
        i = i + 1;
        output = output + 1;
        assert(stages@ =~= before + fx_stages@.subrange(0, i as int));
    }
    assert(fx_stages@.subrange(0, i as int) =~= fx_stages@);
    assert(base == first + head.len());
    stages.push((output, ChainStage::Output));
    let ghost want = chain_stages(*inst);
    assert forall|k: int| 0 <= k < stages@.len() implies #[trigger] stages@[k] == ((first + k) as i32, want[k]) by {
        if k < head.len() {
            assert(stages@[k] == before[k]);
        } else if k < head.len() + fx_stages@.len() {
            assert(stages@[k] == fx_stages@[k - head.len()]);
            assert(want[k] == effect_stages(es)[k - head.len()]);
        } else {
            assert(k == head.len() + fx_stages@.len());
            assert(want[k] == ChainStage::Output);
        }
    }
    let nodes = InstrumentNodes { source, lfo, filter, eq, effects, effect_order, output };
    proof {
        let h = crate::engine::opt_node(source) + crate::engine::opt_node(lfo) + crate::engine::opt_node(filter)
            + crate::engine::opt_node(eq);
        let f = crate::engine::effect_nodes(effect_order@, effects@);
        assert(f == consecutive(base as int, fx_stages@.len()));
        assert(nodes.chain_nodes() == h + f + seq![output]);
        assert(h == consecutive(first as int, head.len()));
        assert forall|k: int| 0 <= k < want.len() implies #[trigger] (h + f + seq![output])[k]
            == consecutive(first as int, want.len())[k] by {
            if k < head.len() {
                assert(h[k] == consecutive(first as int, head.len())[k]);
            } else if k < head.len() + fx_stages@.len() {
                assert(f[k - head.len()] == consecutive(base as int, fx_stages@.len())[k - head.len()]);
            }
        }
        assert(h + f + seq![output] =~= consecutive(first as int, want.len()));
    }
    let output_mute = if any_solo { !inst.solo } else { inst.mute || master_mute };
    let dest = match inst.layer_group {
        Some(g) => OutputDest::LayerGroup(g),
        None => match inst.output_target {
            OutputTarget::Bus(b) => OutputDest::Bus(b),
            OutputTarget::Master => OutputDest::Master,
        },
    };
    ChainPlan { stages, nodes, next_node_id: output + 1, output_mute, output_dest: dest, wires }
}

/// The processing stages of a chain are chained by their buses: the first
/// reads the bus the source writes, each later stage reads the bus the stage
/// before it writes, every stage but the last writes a bus, and the last is
/// the output, which writes none.
pub proof fn law_wires_chained(inst: Instrument)
    ensures
        chain_wires(inst).len() >= 1,
        chain_wires(inst)[0].input == ChainBus::SourceOut,
        forall|k: int| 0 <= k < chain_wires(inst).len() - 1 ==>
            (#[trigger] chain_wires(inst)[k]).output == Some(chain_wires(inst)[k + 1].input),
        chain_wires(inst).last().stage == ChainStage::Output,
        chain_wires(inst).last().output is None,
{
    let ps = processing_stages(inst);
    let w = chain_wires(inst);
    lemma_effect_stages_are_effects(inst.effects.effects@);
    let hl: int = (if inst.filter is Some { 1int } else { 0 }) + (if inst.eq_enabled { 1int } else { 0 });
    assert forall|k: int| 0 <= k < w.len() - 1 implies (#[trigger] w[k]).output == Some(w[k + 1].input) by {
        if k >= hl {
            assert(ps[k] == effect_stages(inst.effects.effects@)[k - hl]);
        }
    }
}

/// The steps of a routing rebuild that is spread over several audio ticks,
/// so that no tick does more than a bounded amount of work.
#[derive(Clone, Copy, PartialEq, Eq, Structural, Debug)]
pub enum RoutingRebuildPhase {
    /// Tear down all existing nodes and clear the maps.
    TearDown,
    /// Allocate buses for the mixer buses and layer groups.
    AllocBuses,
    /// Build the chain and sends of the instrument at this position.
    BuildInstrument(usize),
    /// Build the bus and layer group outputs, restore plugin parameters.
    BuildOutputs,
    /// Sync the voice allocator's bus watermarks, restart the meter.
    Finalize,
}

/// What follows a rebuild step.
#[derive(Clone, Copy, PartialEq, Eq, Structural, Debug)]
pub enum RebuildStepResult {
    /// More work: run this phase on the next tick.
    Continue(RoutingRebuildPhase),
    /// The rebuild is complete.
    Done,
}

/// The phase after `phase`, once its work is done, with `running` whether
/// the engine runs (a stopped engine has nothing to rebuild) and `n` the
/// number of instruments.
pub open spec fn next_phase(phase: RoutingRebuildPhase, running: bool, n: usize) -> RebuildStepResult {
    match phase {
        RoutingRebuildPhase::TearDown => if running {
            RebuildStepResult::Continue(RoutingRebuildPhase::AllocBuses)
        } else {
            RebuildStepResult::Done
        },
        RoutingRebuildPhase::AllocBuses => if n == 0 {
            RebuildStepResult::Continue(RoutingRebuildPhase::BuildOutputs)
        } else {
            RebuildStepResult::Continue(RoutingRebuildPhase::BuildInstrument(0))
        },
        RoutingRebuildPhase::BuildInstrument(i) => if i + 1 < n {
            RebuildStepResult::Continue(RoutingRebuildPhase::BuildInstrument((i + 1) as usize))
        } else {
            RebuildStepResult::Continue(RoutingRebuildPhase::BuildOutputs)
        },
        RoutingRebuildPhase::BuildOutputs => RebuildStepResult::Continue(RoutingRebuildPhase::Finalize),
        RoutingRebuildPhase::Finalize => RebuildStepResult::Done,
    }
}

/// The phase `k` steps after `p` (`None` once the rebuild is complete).
pub open spec fn after_steps(p: Option<RoutingRebuildPhase>, running: bool, n: usize, k: nat) -> Option<RoutingRebuildPhase>
    decreases k,
{
    if k == 0 {
        p
    } else {
        match p {
            None => None,
            Some(ph) => after_steps(
                match next_phase(ph, running, n) {
                    RebuildStepResult::Continue(q) => Some(q),
                    RebuildStepResult::Done => None,
                },
                running,
                n,
                (k - 1) as nat,
            ),
        }
    }
}

/// Decide the phase that follows a completed rebuild step.
pub fn next_rebuild_phase(phase: RoutingRebuildPhase, running: bool, n: usize) -> (r: RebuildStepResult)
    ensures
        r == next_phase(phase, running, n),
{
    match phase {
        RoutingRebuildPhase::TearDown => if running {
            RebuildStepResult::Continue(RoutingRebuildPhase::AllocBuses)
        } else {
            RebuildStepResult::Done
        },
        RoutingRebuildPhase::AllocBuses => if n == 0 {
            RebuildStepResult::Continue(RoutingRebuildPhase::BuildOutputs)
        } else {
            RebuildStepResult::Continue(RoutingRebuildPhase::BuildInstrument(0))
        },
        RoutingRebuildPhase::BuildInstrument(i) => if i < n && i + 1 < n {
            RebuildStepResult::Continue(RoutingRebuildPhase::BuildInstrument(i + 1))
        } else {
            RebuildStepResult::Continue(RoutingRebuildPhase::BuildOutputs)
        },
        RoutingRebuildPhase::BuildOutputs => RebuildStepResult::Continue(RoutingRebuildPhase::Finalize),
        RoutingRebuildPhase::Finalize => RebuildStepResult::Done,
    }
}

/// One more step after `k` steps is one step from where `k` steps led.
pub proof fn lemma_after_steps_succ(p: Option<RoutingRebuildPhase>, running: bool, n: usize, k: nat)
    ensures
        after_steps(p, running, n, k + 1) == after_steps(after_steps(p, running, n, k), running, n, 1),
    decreases k,
{
    if k > 0 {
        match p {
            None => {},
            Some(ph) => {
                let q = match next_phase(ph, running, n) {
                    RebuildStepResult::Continue(q) => Some(q),
                    RebuildStepResult::Done => None,
                };
                lemma_after_steps_succ(q, running, n, (k - 1) as nat);
            },
        }
    }
}

} // verus!
