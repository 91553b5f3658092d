//! Audio engine bookkeeping: the nodes that make up one instrument's signal
//! chain, the backend error type and the no-op backend marker.
use std::collections::HashMap;
use vstd::prelude::*;

verus! {

broadcast use vstd::std_specs::hash::group_hash_axioms;

/// Identifier of an effect slot.
pub type EffectId = u32;

/// Identifier of an instrument.
pub type InstrumentId = u32;

// SuperCollider group IDs for execution ordering
pub const GROUP_SOURCES: i32 = 100;
pub const GROUP_PROCESSING: i32 = 200;
pub const GROUP_OUTPUT: i32 = 300;
pub const GROUP_RECORD: i32 = 400;
pub const GROUP_SAFETY: i32 = 999;

// Wavetable buffer range for VOsc (imbolc_wavetable SynthDef)
pub const WAVETABLE_BUFNUM_START: i32 = 100;
pub const WAVETABLE_NUM_TABLES: i32 = 8;

/// The node ids of one instrument's persistent signal chain.
pub struct InstrumentNodes {
    pub source: Option<i32>,
    pub lfo: Option<i32>,
    pub filter: Option<i32>,
    pub eq: Option<i32>,
    pub effects: HashMap<EffectId, i32>,
    /// Ordered list of effect IDs matching the signal chain order (only enabled effects)
    pub effect_order: Vec<EffectId>,
    pub output: i32,
}

/// The node of an optional stage, as a sequence of zero or one ids.
pub open spec fn opt_node(o: Option<i32>) -> Seq<i32> {
    match o {
        Some(id) => seq![id],
        None => Seq::empty(),
    }
}

/// The nodes of the effects listed in `order`, in that order, skipping ids
/// that have no node.
pub open spec fn effect_nodes(order: Seq<EffectId>, nodes: Map<EffectId, i32>) -> Seq<i32>
    decreases order.len(),
{
    if order.len() == 0 {
        Seq::empty()
    } else {
        let last = order.last();
        effect_nodes(order.drop_last(), nodes) + (if nodes.contains_key(last) {
            seq![nodes[last]]
        } else {
            Seq::empty()
        })
    }
}

impl InstrumentNodes {
    /// Every node of the chain in signal order: source, LFO, filter, EQ, the
    /// effects in chain order, and the output node last.
    pub open spec fn chain_nodes(&self) -> Seq<i32> {
        opt_node(self.source) + opt_node(self.lfo) + opt_node(self.filter) + opt_node(self.eq)
            + effect_nodes(self.effect_order@, self.effects@) + seq![self.output]
    }

    pub fn all_node_ids(&self) -> (ids: Vec<i32>)
        ensures
            ids@ == self.chain_nodes(),
    {
        let mut ids: Vec<i32> = Vec::new();
        if let Some(id) = self.source {
            ids.push(id);
        }
        if let Some(id) = self.lfo {
            ids.push(id);
        }
        if let Some(id) = self.filter {
            ids.push(id);
        }
        if let Some(id) = self.eq {
            ids.push(id);
        }
        let ghost head = ids@;
        assert(head =~= opt_node(self.source) + opt_node(self.lfo) + opt_node(self.filter)
            + opt_node(self.eq));
        let mut i: usize = 0;
        while i < self.effect_order.len()
            invariant
                i <= self.effect_order.len(),
                ids@ == head + effect_nodes(self.effect_order@.subrange(0, i as int), self.effects@),
            decreases self.effect_order.len() - i,
        {
            let eid = self.effect_order[i];
            assert(self.effect_order@.subrange(0, i + 1).drop_last() =~= self.effect_order@.subrange(
                0,
                i as int,
            ));
            if let Some(nid) = self.effects.get(&eid) {
                ids.push(*nid);
                assert(ids@ =~= head + effect_nodes(
                    self.effect_order@.subrange(0, i + 1),
                    self.effects@,
                ));
            } else {
                assert(ids@ =~= head + effect_nodes(
                    self.effect_order@.subrange(0, i + 1),
                    self.effects@,
                ));
            }
            i = i + 1;
        }
        assert(self.effect_order@.subrange(0, self.effect_order.len() as int) =~= self.effect_order@);
        ids.push(self.output);
        assert(ids@ =~= self.chain_nodes());
        ids
    }
}

/// Error from a backend operation.
pub struct BackendError(pub String);

impl From<String> for BackendError {
    fn from(s: String) -> (e: Self) {
        BackendError(s)
    }
}

impl vstd::std_specs::convert::FromSpecImpl<String> for BackendError {
    open spec fn obeys_from_spec() -> bool {
        true
    }

    open spec fn from_spec(s: String) -> Self {
        BackendError(s)
    }
}

impl BackendError {
    /// The error message (what `Display` prints).
    pub fn message(&self) -> (s: String)
        ensures
            s@ == self.0@,
    {
        self.0.clone()
    }
}

/// A no-op backend that silently succeeds. Useful as a default when no audio
/// server is connected.
pub struct NullBackend;

} // verus!
