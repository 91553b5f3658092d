use imbolc_core::routing::{
    next_rebuild_phase, plan_instrument_chain, ChainBus, ChainStage, OutputDest, RebuildStepResult,
    RoutingRebuildPhase, Wire,
};
use imbolc_core::state::{EffectType, FilterType, Instrument, OutputTarget, SourceType};

#[test]
fn oscillator_chain_is_just_the_output() {
    let inst = Instrument::new(1, SourceType::Saw);
    let plan = plan_instrument_chain(&inst, 1000, false, false);
    assert_eq!(plan.stages, vec![(1000, ChainStage::Output)]);
    assert_eq!(plan.nodes.source, None);
    assert_eq!(plan.nodes.lfo, None);
    assert_eq!(plan.nodes.filter, None);
    assert_eq!(plan.nodes.eq, None);
    assert_eq!(plan.nodes.output, 1000);
    assert_eq!(plan.next_node_id, 1001);
    assert!(!plan.output_mute);
    assert_eq!(plan.output_dest, OutputDest::Master);
}

#[test]
fn full_chain_numbers_nodes_in_signal_order() {
    let mut inst = Instrument::new(3, SourceType::AudioIn);
    inst.lfo_enabled = true;
    inst.filter = Some(FilterType::Hpf);
    inst.eq_enabled = true;
    let a = inst.effects.add_effect(EffectType::Delay);
    let b = inst.effects.add_effect(EffectType::Reverb);
    let c = inst.effects.add_effect(EffectType::Gate);
    inst.effects.toggle_bypass(b);

    let plan = plan_instrument_chain(&inst, 50, false, false);
    assert_eq!(
        plan.stages,
        vec![
            (50, ChainStage::AudioIn),
            (51, ChainStage::Lfo),
            (52, ChainStage::Filter(FilterType::Hpf)),
            (53, ChainStage::Eq),
            (54, ChainStage::Effect(a, EffectType::Delay)),
            (55, ChainStage::Effect(c, EffectType::Gate)),
            (56, ChainStage::Output),
        ]
    );
    assert_eq!(plan.nodes.source, Some(50));
    assert_eq!(plan.nodes.lfo, Some(51));
    assert_eq!(plan.nodes.filter, Some(52));
    assert_eq!(plan.nodes.eq, Some(53));
    assert_eq!(plan.nodes.effect_order, vec![a, c]);
    assert_eq!(plan.nodes.effects.get(&a), Some(&54));
    assert_eq!(plan.nodes.effects.get(&c), Some(&55));
    assert_eq!(plan.nodes.effects.get(&b), None);
    assert_eq!(plan.nodes.output, 56);
    assert_eq!(plan.next_node_id, 57);
    assert_eq!(plan.nodes.all_node_ids(), vec![50, 51, 52, 53, 54, 55, 56]);
}

#[test]
fn bus_in_and_vst_sources_get_a_source_node() {
    let bus_in = Instrument::new(1, SourceType::BusIn(2));
    let plan = plan_instrument_chain(&bus_in, 10, false, false);
    assert_eq!(plan.stages[0], (10, ChainStage::BusIn(2)));
    assert_eq!(plan.nodes.source, Some(10));

    let vst = Instrument::new(2, SourceType::Vst(7));
    let plan = plan_instrument_chain(&vst, 10, false, false);
    assert_eq!(plan.stages[0], (10, ChainStage::VstInstrument(7)));
    assert_eq!(plan.nodes.output, 11);
}

#[test]
fn output_mute_follows_solo_then_mute() {
    let mut inst = Instrument::new(1, SourceType::Sin);
    assert!(plan_instrument_chain(&inst, 0, true, false).output_mute);
    inst.solo = true;
    assert!(!plan_instrument_chain(&inst, 0, true, true).output_mute);
    inst.solo = false;
    inst.mute = true;
    assert!(plan_instrument_chain(&inst, 0, false, false).output_mute);
    inst.mute = false;
    assert!(plan_instrument_chain(&inst, 0, false, true).output_mute);
}

#[test]
fn output_goes_to_layer_group_before_bus() {
    let mut inst = Instrument::new(1, SourceType::Sin);
    inst.output_target = OutputTarget::Bus(3);
    assert_eq!(plan_instrument_chain(&inst, 0, false, false).output_dest, OutputDest::Bus(3));
    inst.layer_group = Some(4);
    assert_eq!(plan_instrument_chain(&inst, 0, false, false).output_dest, OutputDest::LayerGroup(4));
}

#[test]
fn rebuild_phases_walk_every_instrument() {
    let mut phase = RoutingRebuildPhase::TearDown;
    let mut seen = vec![phase];
    loop {
        match next_rebuild_phase(phase, true, 3) {
            RebuildStepResult::Continue(p) => {
                seen.push(p);
                phase = p;
            }
            RebuildStepResult::Done => break,
        }
    }
    assert_eq!(
        seen,
        vec![
            RoutingRebuildPhase::TearDown,
            RoutingRebuildPhase::AllocBuses,
            RoutingRebuildPhase::BuildInstrument(0),
            RoutingRebuildPhase::BuildInstrument(1),
            RoutingRebuildPhase::BuildInstrument(2),
            RoutingRebuildPhase::BuildOutputs,
            RoutingRebuildPhase::Finalize,
        ]
    );
}

#[test]
fn rebuild_of_stopped_engine_or_no_instruments() {
    assert_eq!(next_rebuild_phase(RoutingRebuildPhase::TearDown, false, 3), RebuildStepResult::Done);
    assert_eq!(
        next_rebuild_phase(RoutingRebuildPhase::AllocBuses, true, 0),
        RebuildStepResult::Continue(RoutingRebuildPhase::BuildOutputs)
    );
    assert_eq!(
        next_rebuild_phase(RoutingRebuildPhase::BuildInstrument(7), true, 3),
        RebuildStepResult::Continue(RoutingRebuildPhase::BuildOutputs)
    );
}

#[test]
fn disabled_effects_are_not_created() {
    let mut inst = Instrument::new(1, SourceType::Saw);
    let eid = inst.effects.add_effect(EffectType::Delay);
    inst.effects.toggle_bypass(eid);
    inst.effects.add_effect(EffectType::Reverb);
    let plan = plan_instrument_chain(&inst, 100, false, false);
    assert_eq!(plan.nodes.effects.len(), 1, "only enabled effects get nodes");
    let delays = plan.stages.iter().filter(|(_, s)| matches!(s, ChainStage::Effect(_, EffectType::Delay))).count();
    let reverbs = plan.stages.iter().filter(|(_, s)| matches!(s, ChainStage::Effect(_, EffectType::Reverb))).count();
    assert_eq!(delays, 0);
    assert_eq!(reverbs, 1);
}

#[test]
fn routing_buses_are_chained_correctly() {
    let mut inst = Instrument::new(1, SourceType::AudioIn);
    inst.filter = Some(FilterType::Hpf);
    let d = inst.effects.add_effect(EffectType::Delay);
    let plan = plan_instrument_chain(&inst, 10, false, false);
    assert_eq!(
        plan.wires,
        vec![
            Wire { stage: ChainStage::Filter(FilterType::Hpf), input: ChainBus::SourceOut, output: Some(ChainBus::FilterOut) },
            Wire { stage: ChainStage::Effect(d, EffectType::Delay), input: ChainBus::FilterOut, output: Some(ChainBus::EffectOut(d)) },
            Wire { stage: ChainStage::Output, input: ChainBus::EffectOut(d), output: None },
        ]
    );
}

#[test]
fn bypassed_effect_is_left_out_of_the_wiring() {
    let mut inst = Instrument::new(1, SourceType::Saw);
    inst.eq_enabled = true;
    let a = inst.effects.add_effect(EffectType::Delay);
    let b = inst.effects.add_effect(EffectType::Reverb);
    inst.effects.toggle_bypass(a);
    let plan = plan_instrument_chain(&inst, 0, false, false);
    assert_eq!(
        plan.wires,
        vec![
            Wire { stage: ChainStage::Eq, input: ChainBus::SourceOut, output: Some(ChainBus::EqOut) },
            Wire { stage: ChainStage::Effect(b, EffectType::Reverb), input: ChainBus::EqOut, output: Some(ChainBus::EffectOut(b)) },
            Wire { stage: ChainStage::Output, input: ChainBus::EffectOut(b), output: None },
        ]
    );
}
