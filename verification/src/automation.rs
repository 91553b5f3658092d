//! Automation lanes: adding one per target, removing, enabling and arming
//! them for recording. The values of a lane's points are not part of this model.
use vstd::prelude::*;

use crate::action::{AudioEffect, DispatchResult};
use crate::state::{AppState, AutomationLane, AutomationTarget};

verus! {

/// Automation lane actions whose state changes are discrete.
#[derive(Clone, Copy, Debug)]
pub enum AutomationAction {
    AddLane(AutomationTarget),
    RemoveLane(u32),
    ToggleLaneEnabled(u32),
    ToggleLaneArm(u32),
    ArmAllLanes,
    DisarmAllLanes,
}

/// Whether a lane drives this target.
pub open spec fn has_lane_for(lanes: Seq<AutomationLane>, target: AutomationTarget) -> bool {
    exists|i: int| 0 <= i < lanes.len() && lanes[i].target == target
}

/// `p` is the first lane with this id.
pub open spec fn first_lane(lanes: Seq<AutomationLane>, id: u32, p: int) -> bool {
    &&& 0 <= p < lanes.len()
    &&& lanes[p].id == id
    &&& forall|k: int| 0 <= k < p ==> lanes[k].id != id
}

/// Whether a lane has this id.
pub open spec fn has_lane(lanes: Seq<AutomationLane>, id: u32) -> bool {
    exists|i: int| 0 <= i < lanes.len() && lanes[i].id == id
}

/// The first lane with id `id` changed by `f`; all unchanged without one.
pub open spec fn lane_changed(o: Seq<AutomationLane>, n: Seq<AutomationLane>, id: u32, f: spec_fn(AutomationLane) -> AutomationLane) -> bool {
    &&& !has_lane(o, id) ==> n == o
    &&& forall|p: int| first_lane(o, id, p) ==> n == o.update(p, f(o[p]))
}

/// The lanes after an automation action, with the lane id counter.
pub open spec fn lanes_after(o: Seq<AutomationLane>, next: u32, n: Seq<AutomationLane>, n_next: u32, action: AutomationAction) -> bool {
    match action {
        AutomationAction::AddLane(target) => if has_lane_for(o, target) {
            n == o && n_next == next
        } else {
            n == o.push(AutomationLane { id: next, target, enabled: true, record_armed: false }) && n_next == next + 1
        },
        AutomationAction::RemoveLane(id) => {
            &&& n_next == next
            &&& !has_lane(o, id) ==> n == o
            &&& forall|p: int| first_lane(o, id, p) ==> n == o.remove(p)
        },
        AutomationAction::ToggleLaneEnabled(id) => n_next == next
            && lane_changed(o, n, id, |l: AutomationLane| AutomationLane { enabled: !l.enabled, ..l }),
        AutomationAction::ToggleLaneArm(id) => n_next == next
            && lane_changed(o, n, id, |l: AutomationLane| AutomationLane { record_armed: !l.record_armed, ..l }),
        AutomationAction::ArmAllLanes => n_next == next
            && n == o.map_values(|l: AutomationLane| AutomationLane { record_armed: true, ..l }),
        AutomationAction::DisarmAllLanes => n_next == next
            && n == o.map_values(|l: AutomationLane| AutomationLane { record_armed: false, ..l }),
    }
}

/// The audio work an automation action asks for.
pub open spec fn automation_effects(action: AutomationAction) -> Seq<AudioEffect> {
    match action {
        AutomationAction::AddLane(_) | AutomationAction::RemoveLane(_) | AutomationAction::ToggleLaneEnabled(_) =>
            seq![AudioEffect::UpdateAutomation],
        _ => Seq::empty(),
    }
}

/// Position of the first lane with this id.
fn lane_index(lanes: &Vec<AutomationLane>, id: u32) -> (r: Option<usize>)
    ensures
        match r {
            Some(p) => first_lane(lanes@, id, p as int),
            None => !has_lane(lanes@, id),
        },
{
    let mut i: usize = 0;
    while i < lanes.len()
        invariant
            i <= lanes@.len(),
            forall|k: int| 0 <= k < i ==> lanes@[k].id != id,
        decreases lanes@.len() - i,
    {
        if lanes[i].id == id {
            return Some(i);
        }
        i = i + 1;
    }
    None
}

/// The first lane with this id is the only one that `first_lane` names.
proof fn lemma_first_lane_unique(lanes: Seq<AutomationLane>, id: u32, p: int)
    requires
        first_lane(lanes, id, p),
    ensures
        forall|q: int| first_lane(lanes, id, q) ==> q == p,
{
    assert forall|q: int| first_lane(lanes, id, q) implies q == p by {
        if q < p { assert(lanes[q].id != id); }
        if q > p { assert(lanes[p].id != id); }
    }
}

/// Set the armed flag of every lane.
fn set_all_armed(lanes: &mut Vec<AutomationLane>, armed: bool)
    ensures
        final(lanes)@ == old(lanes)@.map_values(|l: AutomationLane| AutomationLane { record_armed: armed, ..l }),
{
    let ghost o = lanes@;
    let mut i: usize = 0;
    while i < lanes.len()
        invariant
            i <= lanes@.len(),
            lanes@.len() == o.len(),
            forall|k: int| 0 <= k < i ==> lanes@[k] == (AutomationLane { record_armed: armed, ..o[k] }),
            forall|k: int| i <= k < lanes@.len() ==> lanes@[k] == o[k],
        decreases lanes@.len() - i,
    {
        let l = lanes[i];
        lanes.set(i, AutomationLane { record_armed: armed, ..l });
        i = i + 1;
    }
    assert(lanes@ =~= o.map_values(|l: AutomationLane| AutomationLane { record_armed: armed, ..l }));
}

/// Dispatch an automation lane action.
pub fn dispatch_automation(action: &AutomationAction, state: &mut AppState) -> (r: DispatchResult)
    requires
        action is AddLane ==> old(state).session.next_lane_id < u32::MAX,
    ensures
        lanes_after(old(state).session.automation_lanes@, old(state).session.next_lane_id,
            final(state).session.automation_lanes@, final(state).session.next_lane_id, *action),
        final(state).instruments == old(state).instruments,
        final(state).midi == old(state).midi,
        final(state).clipboard == old(state).clipboard,
        final(state).audio == old(state).audio,
        final(state).io == old(state).io,
        final(state).session.mixer == old(state).session.mixer,
        final(state).session.midi_recording == old(state).session.midi_recording,
        final(state).session.piano_roll == old(state).session.piano_roll,
        final(state).session.arrangement == old(state).session.arrangement,
        r.audio_effects@ == automation_effects(*action),
        r.nav@.len() == 0,
        !r.needs_full_sync,
{
    let ghost o = state.session.automation_lanes@;
    let mut result = DispatchResult::none();
    match action {
        AutomationAction::AddLane(target) => {
            let mut i: usize = 0;
            let mut found = false;
            while i < state.session.automation_lanes.len()
                invariant
                    i <= o.len(),
                    state.session.automation_lanes@ == o,
                    found ==> has_lane_for(o, *target),
                    !found ==> forall|k: int| 0 <= k < i ==> o[k].target != *target,
                decreases o.len() - i,
            {
                if state.session.automation_lanes[i].target == *target {
                    found = true;
                }
                i = i + 1;
            }
            if !found {
                let id = state.session.next_lane_id;
                state.session.automation_lanes.push(AutomationLane { id, target: *target, enabled: true, record_armed: false });
                state.session.next_lane_id = id + 1;
            }
            result.audio_effects.push(AudioEffect::UpdateAutomation);
        },
        AutomationAction::RemoveLane(id) => {
            if let Some(p) = lane_index(&state.session.automation_lanes, *id) {
                proof { lemma_first_lane_unique(o, *id, p as int); }
                state.session.automation_lanes.remove(p);
            }
            result.audio_effects.push(AudioEffect::UpdateAutomation);
        },
        AutomationAction::ToggleLaneEnabled(id) => {
            if let Some(p) = lane_index(&state.session.automation_lanes, *id) {
                proof { lemma_first_lane_unique(o, *id, p as int); }
                let l = state.session.automation_lanes[p];
                state.session.automation_lanes.set(p, AutomationLane { enabled: !l.enabled, ..l });
            }
            result.audio_effects.push(AudioEffect::UpdateAutomation);
        },
        AutomationAction::ToggleLaneArm(id) => {
            if let Some(p) = lane_index(&state.session.automation_lanes, *id) {
                proof { lemma_first_lane_unique(o, *id, p as int); }
                let l = state.session.automation_lanes[p];
                state.session.automation_lanes.set(p, AutomationLane { record_armed: !l.record_armed, ..l });
            }
        },
        AutomationAction::ArmAllLanes => {
            set_all_armed(&mut state.session.automation_lanes, true);
        },
        AutomationAction::DisarmAllLanes => {
            set_all_armed(&mut state.session.automation_lanes, false);
        },
    }
    assert(result.audio_effects@ =~= automation_effects(*action));
    result
}

} // verus!
