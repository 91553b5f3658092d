//! Mixer actions with discrete effects: moving and jumping the selection,
//! muting and soloing strips, cycling sections, output targets, sends and tap
//! points, and the audio work each of them calls for.
use vstd::prelude::*;

use crate::action::{AudioEffect, DispatchResult};
use crate::bus::{same_except_routing, same_group_except_routing};
use crate::state::{
    AppState,
    bus_ids_of, clamp_int, first_index_or_zero, group_ids_of, lemma_first_index, position_u32,
    position_u8, send_position, BusId, Instrument, InstrumentState, LayerGroupMixer, MixerBus,
    MixerSelection, MixerSend, OutputTarget, SessionState, TapPoint,
};

verus! {

/// Mixer actions whose state changes are discrete.
#[derive(Clone, Copy, Debug)]
pub enum MixerAction {
    Move(i8),
    Jump(i8),
    SelectAt(MixerSelection),
    ToggleMute,
    ToggleSolo,
    CycleSection,
    CycleOutput,
    CycleOutputReverse,
    ToggleSend(BusId),
    CycleSendTapPoint(BusId),
}

/// Largest index a selection may hold for `Move` to stay within `i32`.
pub const MAX_SELECTION_INDEX: usize = 0x7fff_0000;

/// Selection after `Move(delta)`.
pub open spec fn moved_selection(
    sel: MixerSelection,
    n_instruments: int,
    groups: Seq<u32>,
    buses: Seq<BusId>,
    delta: int,
) -> MixerSelection {
    match sel {
        MixerSelection::Instrument(idx) => MixerSelection::Instrument(
            clamp_int(idx + delta, 0, if n_instruments > 0 { n_instruments - 1 } else { 0 }) as usize,
        ),
        MixerSelection::LayerGroup(g) => if groups.len() == 0 {
            sel
        } else {
            MixerSelection::LayerGroup(groups[clamp_int(first_index_or_zero(groups, g) + delta, 0, groups.len() - 1)])
        },
        MixerSelection::Bus(b) => if buses.len() == 0 {
            sel
        } else {
            MixerSelection::Bus(buses[clamp_int(first_index_or_zero(buses, b) + delta, 0, buses.len() - 1)])
        },
        MixerSelection::Master => MixerSelection::Master,
    }
}

/// Selection after `Jump(direction)`: the first strip of the section when
/// `direction > 0`, the last one otherwise.
pub open spec fn jumped_selection(
    sel: MixerSelection,
    n_instruments: int,
    groups: Seq<u32>,
    buses: Seq<BusId>,
    direction: int,
) -> MixerSelection {
    match sel {
        MixerSelection::Instrument(_) => MixerSelection::Instrument(
            if direction > 0 { 0 } else if n_instruments > 0 { (n_instruments - 1) as usize } else { 0 },
        ),
        MixerSelection::LayerGroup(_) => if groups.len() == 0 {
            sel
        } else if direction > 0 {
            MixerSelection::LayerGroup(groups[0])
        } else {
            MixerSelection::LayerGroup(groups.last())
        },
        MixerSelection::Bus(_) => if buses.len() == 0 {
            sel
        } else if direction > 0 {
            MixerSelection::Bus(buses[0])
        } else {
            MixerSelection::Bus(buses.last())
        },
        MixerSelection::Master => MixerSelection::Master,
    }
}

/// Next section: instruments, then layer groups, then buses, then master
/// (skipping empty sections), and from master back to the first instrument.
pub open spec fn next_section(sel: MixerSelection, groups: Seq<u32>, buses: Seq<BusId>) -> MixerSelection {
    match sel {
        MixerSelection::Instrument(_) => if groups.len() > 0 {
            MixerSelection::LayerGroup(groups[0])
        } else if buses.len() > 0 {
            MixerSelection::Bus(buses[0])
        } else {
            MixerSelection::Master
        },
        MixerSelection::LayerGroup(_) => if buses.len() > 0 {
            MixerSelection::Bus(buses[0])
        } else {
            MixerSelection::Master
        },
        MixerSelection::Bus(_) => MixerSelection::Master,
        MixerSelection::Master => MixerSelection::Instrument(0),
    }
}

/// Output target after `CycleOutput`: master, then each bus in order, then master.
pub open spec fn next_output(t: OutputTarget, buses: Seq<BusId>) -> OutputTarget {
    match t {
        OutputTarget::Master => if buses.len() > 0 { OutputTarget::Bus(buses[0]) } else { OutputTarget::Master },
        OutputTarget::Bus(c) => if buses.contains(c) && first_index_or_zero(buses, c) + 1 < buses.len() {
            OutputTarget::Bus(buses[first_index_or_zero(buses, c) + 1])
        } else {
            OutputTarget::Master
        },
    }
}

/// Output target after `CycleOutputReverse`: the walk of `next_output` backwards.
pub open spec fn prev_output(t: OutputTarget, buses: Seq<BusId>) -> OutputTarget {
    match t {
        OutputTarget::Master => if buses.len() > 0 { OutputTarget::Bus(buses.last()) } else { OutputTarget::Master },
        OutputTarget::Bus(c) => if buses.contains(c) && first_index_or_zero(buses, c) > 0 {
            OutputTarget::Bus(buses[first_index_or_zero(buses, c) - 1])
        } else {
            OutputTarget::Master
        },
    }
}

/// Sends with the first send to `bus` changed by `f` (unchanged without one).
pub open spec fn first_send_changed(
    old: Seq<MixerSend>,
    new: Seq<MixerSend>,
    bus: BusId,
    f: spec_fn(MixerSend) -> MixerSend,
) -> bool {
    &&& (forall|k: int| 0 <= k < old.len() ==> old[k].bus_id != bus) ==> new == old
    &&& forall|p: int| 0 <= p < old.len() && old[p].bus_id == bus
        && (forall|k: int| 0 <= k < p ==> old[k].bus_id != bus) ==> new == old.update(p, f(old[p]))
}

/// A send with its enabled flag flipped.
pub open spec fn send_toggled(m: MixerSend) -> MixerSend {
    MixerSend { enabled: !m.enabled, ..m }
}

/// `ToggleSend` on a strip's sends: the first send to `bus` is flipped; a
/// strip without one gets a new enabled post-fader send to `bus`.
pub open spec fn send_toggle_applied(old: Seq<MixerSend>, new: Seq<MixerSend>, bus: BusId) -> bool {
    if forall|k: int| 0 <= k < old.len() ==> old[k].bus_id != bus {
        new == old.push(MixerSend { bus_id: bus, enabled: true, tap_point: TapPoint::PostFader })
    } else {
        first_send_changed(old, new, bus, |m: MixerSend| send_toggled(m))
    }
}

/// A send with the other tap point.
pub open spec fn send_tap_cycled(m: MixerSend) -> MixerSend {
    MixerSend {
        tap_point: match m.tap_point {
            TapPoint::PostFader => TapPoint::PreFader,
            TapPoint::PreFader => TapPoint::PostFader,
        },
        ..m
    }
}

/// The instrument at `idx` is related to its old value by `f`; the others are
/// unchanged (all unchanged when `idx` is out of range).
pub open spec fn instrument_changed(
    old: Seq<Instrument>,
    new: Seq<Instrument>,
    idx: int,
    f: spec_fn(Instrument, Instrument) -> bool,
) -> bool {
    &&& new.len() == old.len()
    &&& forall|k: int| 0 <= k < old.len() && k != idx ==> new[k] == old[k]
    &&& 0 <= idx < old.len() ==> f(old[idx], new[idx])
}

/// The first strip of layer group `g` is related to its old value by `f`; the
/// others are unchanged (all unchanged when there is no such strip).
pub open spec fn group_changed(
    old: Seq<LayerGroupMixer>,
    new: Seq<LayerGroupMixer>,
    g: u32,
    f: spec_fn(LayerGroupMixer, LayerGroupMixer) -> bool,
) -> bool {
    &&& new.len() == old.len()
    &&& forall|k: int| 0 <= k < old.len() && (old[k].group_id != g
        || exists|j: int| 0 <= j < k && old[j].group_id == g) ==> new[k] == old[k]
    &&& forall|k: int| 0 <= k < old.len() && old[k].group_id == g
        && (forall|j: int| 0 <= j < k ==> old[j].group_id != g) ==> f(old[k], new[k])
}

/// The first bus with id `b` is related to its old value by `f`; the others
/// are unchanged.
pub open spec fn bus_changed(
    old: Seq<MixerBus>,
    new: Seq<MixerBus>,
    b: BusId,
    f: spec_fn(MixerBus, MixerBus) -> bool,
) -> bool {
    &&& new.len() == old.len()
    &&& forall|k: int| 0 <= k < old.len() && (old[k].id != b
        || exists|j: int| 0 <= j < k && old[j].id == b) ==> new[k] == old[k]
    &&& forall|k: int| 0 <= k < old.len() && old[k].id == b
        && (forall|j: int| 0 <= j < k ==> old[j].id != b) ==> f(old[k], new[k])
}

/// Instrument selection after a selection change: follows an instrument selection.
pub open spec fn synced_selected(old: Option<usize>, sel: MixerSelection) -> Option<usize> {
    match sel {
        MixerSelection::Instrument(idx) => Some(idx),
        _ => old,
    }
}

/// The state change a mixer action makes.
pub open spec fn mixer_action_applied(
    oi: InstrumentState,
    os: SessionState,
    ni: InstrumentState,
    ns: SessionState,
    action: MixerAction,
) -> bool {
    let groups = group_ids_of(os.mixer.layer_group_mixers@);
    let buses = bus_ids_of(os.mixer.buses@);
    let n = oi.instruments@.len() as int;
    let sel = os.mixer.selection;
    &&& ni.next_id == oi.next_id
    &&& ni.next_layer_group_id == oi.next_layer_group_id
    &&& ni.editing_instrument_id == oi.editing_instrument_id
    &&& ni.next_sampler_buffer_id == oi.next_sampler_buffer_id
    &&& ns.automation_lanes == os.automation_lanes
    &&& ns.next_lane_id == os.next_lane_id
    &&& ns.midi_recording == os.midi_recording
    &&& ns.piano_roll == os.piano_roll
    &&& ns.arrangement == os.arrangement
    &&& match action {
        MixerAction::Move(_) | MixerAction::Jump(_) | MixerAction::SelectAt(_) | MixerAction::CycleSection => {
            let new_sel = match action {
                MixerAction::Move(d) => moved_selection(sel, n, groups, buses, d as int),
                MixerAction::Jump(d) => jumped_selection(sel, n, groups, buses, d as int),
                MixerAction::SelectAt(s) => s,
                _ => {
                    let c = next_section(sel, groups, buses);
                    if c is Instrument && oi.selected is Some { MixerSelection::Instrument(oi.selected->0) } else { c }
                },
            };
            &&& ns.mixer.selection == new_sel
            &&& ni.selected == (match action {
                MixerAction::CycleSection => oi.selected,
                _ => synced_selected(oi.selected, new_sel),
            })
            &&& ni.instruments == oi.instruments
            &&& ns.mixer.buses == os.mixer.buses
            &&& ns.mixer.layer_group_mixers == os.mixer.layer_group_mixers
            &&& ns.mixer.master_mute == os.mixer.master_mute
        },
        _ => {
            &&& ns.mixer.selection == sel
            &&& ni.selected == oi.selected
            &&& ns.mixer.master_mute == (if action is ToggleMute && sel is Master { !os.mixer.master_mute } else { os.mixer.master_mute })
            &&& match sel {
                MixerSelection::Bus(b) => if action is ToggleMute || action is ToggleSolo {
                    bus_changed(os.mixer.buses@, ns.mixer.buses@, b, |x: MixerBus, y: MixerBus|
                        if action is ToggleMute { y == MixerBus { mute: !x.mute, ..x } } else { y == MixerBus { solo: !x.solo, ..x } })
                } else {
                    ns.mixer.buses == os.mixer.buses
                },
                _ => ns.mixer.buses == os.mixer.buses,
            }
            &&& match sel {
                MixerSelection::Instrument(idx) => {
                    &&& ns.mixer.layer_group_mixers == os.mixer.layer_group_mixers
                    &&& instrument_changed(oi.instruments@, ni.instruments@, idx as int, |a: Instrument, b: Instrument|
                        match action {
                            MixerAction::ToggleMute => b == Instrument { mute: !a.mute, ..a },
                            MixerAction::ToggleSolo => b == Instrument { solo: !a.solo, ..a },
                            MixerAction::CycleOutput => b == Instrument { output_target: next_output(a.output_target, buses), ..a },
                            MixerAction::CycleOutputReverse => b == Instrument { output_target: prev_output(a.output_target, buses), ..a },
                            MixerAction::ToggleSend(bus) => same_except_routing(a, b) && b.output_target == a.output_target
                                && send_toggle_applied(a.sends@, b.sends@, bus),
                            MixerAction::CycleSendTapPoint(bus) => same_except_routing(a, b) && b.output_target == a.output_target
                                && first_send_changed(a.sends@, b.sends@, bus, |m: MixerSend| send_tap_cycled(m)),
                            _ => b == a,
                        })
                },
                MixerSelection::LayerGroup(g) => {
                    &&& ni.instruments == oi.instruments
                    &&& group_changed(os.mixer.layer_group_mixers@, ns.mixer.layer_group_mixers@, g, |a: LayerGroupMixer, b: LayerGroupMixer|
                        match action {
                            MixerAction::ToggleMute => b == LayerGroupMixer { mute: !a.mute, ..a },
                            MixerAction::ToggleSolo => b == LayerGroupMixer { solo: !a.solo, ..a },
                            MixerAction::CycleOutput => b == LayerGroupMixer { output_target: next_output(a.output_target, buses), ..a },
                            MixerAction::CycleOutputReverse => b == LayerGroupMixer { output_target: prev_output(a.output_target, buses), ..a },
                            MixerAction::ToggleSend(bus) => same_group_except_routing(a, b) && b.output_target == a.output_target
                                && send_toggle_applied(a.sends@, b.sends@, bus),
                            MixerAction::CycleSendTapPoint(bus) => same_group_except_routing(a, b) && b.output_target == a.output_target
                                && first_send_changed(a.sends@, b.sends@, bus, |m: MixerSend| send_tap_cycled(m)),
                            _ => b == a,
                        })
                },
                _ => {
                    &&& ni.instruments == oi.instruments
                    &&& ns.mixer.layer_group_mixers == os.mixer.layer_group_mixers
                },
            }
        },
    }
}

/// `clamp(idx + delta, 0, n - 1)` (0 when `n == 0`).
fn clamped_index(idx: usize, delta: i8, n: usize) -> (r: usize)
    requires
        idx <= MAX_SELECTION_INDEX,
    ensures
        r == clamp_int(idx + delta, 0, if n > 0 { n - 1 } else { 0 }),
{
    let hi: usize = if n > 0 { n - 1 } else { 0 };
    if delta < 0 {
        let d: usize = (-(delta as i16)) as usize;
        let lowered: usize = if d > idx { 0 } else { idx - d };
        if lowered > hi { hi } else { lowered }
    } else {
        let raised: usize = idx + delta as usize;
        if raised > hi { hi } else { raised }
    }
}

/// Exec form of `next_output`.
fn cycle_output(t: OutputTarget, ids: &Vec<BusId>) -> (r: OutputTarget)
    ensures
        r == next_output(t, ids@),
{
    match t {
        OutputTarget::Master => if ids.len() > 0 { OutputTarget::Bus(ids[0]) } else { OutputTarget::Master },
        OutputTarget::Bus(c) => match position_u8(ids, c) {
            Some(p) => {
                proof { lemma_first_index(ids@, c, p as int); }
                if p < ids.len() - 1 { OutputTarget::Bus(ids[p + 1]) } else { OutputTarget::Master }
            },
            None => OutputTarget::Master,
        },
    }
}

/// Exec form of `prev_output`.
fn cycle_output_reverse(t: OutputTarget, ids: &Vec<BusId>) -> (r: OutputTarget)
    ensures
        r == prev_output(t, ids@),
{
    match t {
        OutputTarget::Master => if ids.len() > 0 { OutputTarget::Bus(ids[ids.len() - 1]) } else { OutputTarget::Master },
        OutputTarget::Bus(c) => match position_u8(ids, c) {
            Some(p) => {
                proof { lemma_first_index(ids@, c, p as int); }
                if p > 0 { OutputTarget::Bus(ids[p - 1]) } else { OutputTarget::Master }
            },
            None => OutputTarget::Master,
        },
    }
}

/// Flip the first send to `bus`, or add an enabled one when there is none.
fn toggle_send_in(sends: &mut Vec<MixerSend>, bus: BusId)
    ensures
        send_toggle_applied(old(sends)@, final(sends)@, bus),
{
    match send_position(sends, bus) {
        None => {
            sends.push(MixerSend { bus_id: bus, enabled: true, tap_point: TapPoint::PostFader });
        },
        Some(p) => {
            let m = sends[p];
            sends.set(p, MixerSend { enabled: !m.enabled, ..m });
            assert forall|q: int| 0 <= q < old(sends)@.len() && old(sends)@[q].bus_id == bus
                && (forall|k: int| 0 <= k < q ==> old(sends)@[k].bus_id != bus) implies q == p by {
                if q < p { assert(old(sends)@[q].bus_id != bus); }
                if q > p { assert(old(sends)@[p as int].bus_id != bus); }
            }
        },
    }
}

/// Cycle the tap point of the first send to `bus`.
fn cycle_send_tap_in(sends: &mut Vec<MixerSend>, bus: BusId)
    ensures
        first_send_changed(old(sends)@, final(sends)@, bus, |m: MixerSend| send_tap_cycled(m)),
{
    if let Some(p) = send_position(sends, bus) {
        let m = sends[p];
        sends.set(p, MixerSend { tap_point: m.tap_point.cycle(), ..m });
        assert(sends@[p as int] == send_tap_cycled(old(sends)@[p as int]));
        assert forall|q: int| 0 <= q < old(sends)@.len() && old(sends)@[q].bus_id == bus
            && (forall|k: int| 0 <= k < q ==> old(sends)@[k].bus_id != bus) implies q == p by {
            if q < p { assert(old(sends)@[q].bus_id != bus); }
            if q > p { assert(old(sends)@[p as int].bus_id != bus); }
        }
    }
}

/// Whether a selection's index fits the arithmetic of `Move`.
pub open spec fn selection_in_range(sel: MixerSelection) -> bool {
    match sel {
        MixerSelection::Instrument(idx) => idx <= MAX_SELECTION_INDEX,
        _ => true,
    }
}

/// Apply a mixer action's state change to the instruments and the session.
#[verifier::rlimit(40)]
pub fn project_mixer(action: &MixerAction, instruments: &mut InstrumentState, session: &mut SessionState)
    requires
        action is Move ==> selection_in_range(old(session).mixer.selection)
            && old(session).mixer.layer_group_mixers@.len() <= MAX_SELECTION_INDEX
            && old(session).mixer.buses@.len() <= MAX_SELECTION_INDEX,
    ensures
        mixer_action_applied(*old(instruments), *old(session), *final(instruments), *final(session), *action),
{
    let ghost oi = *instruments;
    let ghost os = *session;
    let sel = session.mixer.selection;
    match action {
        MixerAction::Move(delta) => {
            let new_sel = match sel {
                MixerSelection::Instrument(idx) => MixerSelection::Instrument(
                    clamped_index(idx, *delta, instruments.instruments.len()),
                ),
                MixerSelection::LayerGroup(g) => {
                    let ids = session.mixer.group_ids();
                    if ids.len() == 0 {
                        return;
                    }
                    let pos = match position_u32(&ids, g) {
                        Some(p) => { proof { lemma_first_index(ids@, g, p as int); } p },
                        None => 0,
                    };
                    MixerSelection::LayerGroup(ids[clamped_index(pos, *delta, ids.len())])
                },
                MixerSelection::Bus(b) => {
                    let ids = session.mixer.bus_ids();
                    if ids.len() == 0 {
                        return;
                    }
                    let pos = match position_u8(&ids, b) {
                        Some(p) => { proof { lemma_first_index(ids@, b, p as int); } p },
                        None => 0,
                    };
                    MixerSelection::Bus(ids[clamped_index(pos, *delta, ids.len())])
                },
                MixerSelection::Master => MixerSelection::Master,
            };
            session.mixer.selection = new_sel;
            if let MixerSelection::Instrument(idx) = new_sel {
                instruments.selected = Some(idx);
            }
        },
        MixerAction::Jump(direction) => {
            let new_sel = match sel {
                MixerSelection::Instrument(_) => if *direction > 0 {
                    MixerSelection::Instrument(0)
                } else {
                    MixerSelection::Instrument(
                        if instruments.instruments.len() > 0 { instruments.instruments.len() - 1 } else { 0 },
                    )
                },
                MixerSelection::LayerGroup(_) => {
                    let ids = session.mixer.group_ids();
                    if ids.len() == 0 {
                        return;
                    }
                    if *direction > 0 {
                        MixerSelection::LayerGroup(ids[0])
                    } else {
                        MixerSelection::LayerGroup(ids[ids.len() - 1])
                    }
                },
                MixerSelection::Bus(_) => {
                    let ids = session.mixer.bus_ids();
                    if ids.len() == 0 {
                        return;
                    }
                    if *direction > 0 {
                        MixerSelection::Bus(ids[0])
                    } else {
                        MixerSelection::Bus(ids[ids.len() - 1])
                    }
                },
                MixerSelection::Master => MixerSelection::Master,
            };
            session.mixer.selection = new_sel;
            if let MixerSelection::Instrument(idx) = new_sel {
                instruments.selected = Some(idx);
            }
        },
        MixerAction::SelectAt(new_sel) => {
            session.mixer.selection = *new_sel;
            if let MixerSelection::Instrument(idx) = *new_sel {
                instruments.selected = Some(idx);
            }
        },
        MixerAction::CycleSection => {
            let groups = session.mixer.group_ids();
            let buses = session.mixer.bus_ids();
            let next = match sel {
                MixerSelection::Instrument(_) => if groups.len() > 0 {
                    MixerSelection::LayerGroup(groups[0])
                } else if buses.len() > 0 {
                    MixerSelection::Bus(buses[0])
                } else {
                    MixerSelection::Master
                },
                MixerSelection::LayerGroup(_) => if buses.len() > 0 {
                    MixerSelection::Bus(buses[0])
                } else {
                    MixerSelection::Master
                },
                MixerSelection::Bus(_) => MixerSelection::Master,
                MixerSelection::Master => MixerSelection::Instrument(0),
            };
            session.mixer.selection = next;
            // When cycling back to the instrument section, sync to the global selection
            if let MixerSelection::Instrument(_) = next {
                if let Some(idx) = instruments.selected {
                    session.mixer.selection = MixerSelection::Instrument(idx);
                }
            }
        },
        MixerAction::ToggleMute | MixerAction::ToggleSolo | MixerAction::CycleOutput
        | MixerAction::CycleOutputReverse | MixerAction::ToggleSend(_) | MixerAction::CycleSendTapPoint(_) => {
            let bus_ids = session.mixer.bus_ids();
            match sel {
                MixerSelection::Instrument(idx) => {
                    if idx < instruments.instruments.len() {
                        match action {
                            MixerAction::ToggleMute => {
                                instruments.instruments[idx].mute = !instruments.instruments[idx].mute;
                            },
                            MixerAction::ToggleSolo => {
                                instruments.instruments[idx].solo = !instruments.instruments[idx].solo;
                            },
                            MixerAction::CycleOutput => {
                                let t = cycle_output(instruments.instruments[idx].output_target, &bus_ids);
                                instruments.instruments[idx].output_target = t;
                            },
                            MixerAction::CycleOutputReverse => {
                                let t = cycle_output_reverse(instruments.instruments[idx].output_target, &bus_ids);
                                instruments.instruments[idx].output_target = t;
                            },
                            MixerAction::ToggleSend(bus) => {
                                toggle_send_in(&mut instruments.instruments[idx].sends, *bus);
                            },
                            MixerAction::CycleSendTapPoint(bus) => {
                                cycle_send_tap_in(&mut instruments.instruments[idx].sends, *bus);
                            },
                            _ => {},
                        }
                    }
                },
                MixerSelection::LayerGroup(g) => {
                    if let Some(p) = session.mixer.group_index(g) {
                        match action {
                            MixerAction::ToggleMute => {
                                session.mixer.layer_group_mixers[p].mute = !session.mixer.layer_group_mixers[p].mute;
                            },
                            MixerAction::ToggleSolo => {
                                session.mixer.layer_group_mixers[p].solo = !session.mixer.layer_group_mixers[p].solo;
                            },
                            MixerAction::CycleOutput => {
                                let t = cycle_output(session.mixer.layer_group_mixers[p].output_target, &bus_ids);
                                session.mixer.layer_group_mixers[p].output_target = t;
                            },
                            MixerAction::CycleOutputReverse => {
                                let t = cycle_output_reverse(session.mixer.layer_group_mixers[p].output_target, &bus_ids);
                                session.mixer.layer_group_mixers[p].output_target = t;
                            },
                            MixerAction::ToggleSend(bus) => {
                                toggle_send_in(&mut session.mixer.layer_group_mixers[p].sends, *bus);
                            },
                            MixerAction::CycleSendTapPoint(bus) => {
                                cycle_send_tap_in(&mut session.mixer.layer_group_mixers[p].sends, *bus);
                            },
                            _ => {},
                        }
                        proof {
                            let o = os.mixer.layer_group_mixers@;
                            assert forall|k: int| 0 <= k < o.len() && o[k].group_id == g
                                && (forall|j: int| 0 <= j < k ==> o[j].group_id != g) implies k == p by {
                                if k < p { assert(o[k].group_id != g); }
                                if k > p { assert(o[p as int].group_id != g); }
                            }
                            assert forall|k: int| 0 <= k < o.len() && (o[k].group_id != g
                                || exists|j: int| 0 <= j < k && o[j].group_id == g) implies k != p by {
                                if k == p && o[k].group_id == g {
                                    let j = choose|j: int| 0 <= j < k && o[j].group_id == g;
                                    assert(o[j].group_id != g);
                                }
                            }
                        }
                    }
                },
                MixerSelection::Bus(b) => {
                    if let Some(p) = session.mixer.bus_index(b) {
                        match action {
                            MixerAction::ToggleMute => {
                                session.mixer.buses[p].mute = !session.mixer.buses[p].mute;
                            },
                            MixerAction::ToggleSolo => {
                                session.mixer.buses[p].solo = !session.mixer.buses[p].solo;
                            },
                            _ => {},
                        }
                        proof {
                            let o = os.mixer.buses@;
                            assert forall|k: int| 0 <= k < o.len() && o[k].id == b
                                && (forall|j: int| 0 <= j < k ==> o[j].id != b) implies k == p by {
                                if k < p { assert(o[k].id != b); }
                                if k > p { assert(o[p as int].id != b); }
                            }
                            assert forall|k: int| 0 <= k < o.len() && (o[k].id != b
                                || exists|j: int| 0 <= j < k && o[j].id == b) implies k != p by {
                                if k == p && o[k].id == b {
                                    let j = choose|j: int| 0 <= j < k && o[j].id == b;
                                    assert(o[j].id != b);
                                }
                            }
                        }
                    }
                },
                MixerSelection::Master => {
                    if let MixerAction::ToggleMute = action {
                        session.mixer.master_mute = !session.mixer.master_mute;
                    }
                },
            }
        },
    }
}

/// The audio work a mixer action asks for, given the selection before the
/// action and the instruments after it.
pub open spec fn mixer_action_effects(sel: MixerSelection, instruments: Seq<Instrument>, action: MixerAction) -> Seq<AudioEffect> {
    match action {
        MixerAction::Move(_) | MixerAction::Jump(_) | MixerAction::SelectAt(_) | MixerAction::CycleSection => Seq::empty(),
        MixerAction::ToggleMute => match sel {
            MixerSelection::Instrument(_) => seq![AudioEffect::RebuildInstruments, AudioEffect::UpdateMixerParams],
            _ => seq![AudioEffect::RebuildSession, AudioEffect::UpdateMixerParams],
        },
        MixerAction::ToggleSolo => match sel {
            MixerSelection::Instrument(_) => seq![AudioEffect::RebuildInstruments, AudioEffect::UpdateMixerParams],
            MixerSelection::Master => Seq::empty(),
            _ => seq![AudioEffect::RebuildSession, AudioEffect::UpdateMixerParams],
        },
        MixerAction::CycleOutput | MixerAction::CycleOutputReverse => match sel {
            MixerSelection::Instrument(idx) => if idx < instruments.len() {
                seq![AudioEffect::RebuildRoutingForInstrument(instruments[idx as int].id)]
            } else {
                Seq::empty()
            },
            MixerSelection::LayerGroup(_) => seq![AudioEffect::RebuildRouting],
            _ => Seq::empty(),
        },
        MixerAction::ToggleSend(_) | MixerAction::CycleSendTapPoint(_) => match sel {
            MixerSelection::Instrument(idx) => if idx < instruments.len() {
                seq![AudioEffect::RebuildInstruments, AudioEffect::RebuildRoutingForInstrument(instruments[idx as int].id)]
            } else {
                Seq::empty()
            },
            MixerSelection::LayerGroup(_) => seq![AudioEffect::RebuildSession, AudioEffect::RebuildRouting],
            _ => Seq::empty(),
        },
    }
}

/// Dispatch a mixer action: apply its state change and report the audio work.
pub fn dispatch_mixer(action: &MixerAction, state: &mut AppState) -> (r: DispatchResult)
    requires
        action is Move ==> selection_in_range(old(state).session.mixer.selection)
            && old(state).session.mixer.layer_group_mixers@.len() <= MAX_SELECTION_INDEX
            && old(state).session.mixer.buses@.len() <= MAX_SELECTION_INDEX,
    ensures
        mixer_action_applied(old(state).instruments, old(state).session, final(state).instruments, final(state).session, *action),
        final(state).midi == old(state).midi,
        final(state).clipboard == old(state).clipboard,
        final(state).audio == old(state).audio,
        final(state).io == old(state).io,
        r.audio_effects@ == mixer_action_effects(old(state).session.mixer.selection, final(state).instruments.instruments@, *action),
        r.nav@.len() == 0,
        !r.needs_full_sync,
{
    // Capture pre-mutation state for orchestration
    let selection = state.session.mixer.selection;
    project_mixer(action, &mut state.instruments, &mut state.session);

    let mut result = DispatchResult::none();
    match action {
        MixerAction::Move(_) | MixerAction::Jump(_) | MixerAction::SelectAt(_) | MixerAction::CycleSection => {},
        MixerAction::ToggleMute => match selection {
            MixerSelection::Instrument(_) => {
                result.audio_effects.push(AudioEffect::RebuildInstruments);
                result.audio_effects.push(AudioEffect::UpdateMixerParams);
            },
            _ => {
                result.audio_effects.push(AudioEffect::RebuildSession);
                result.audio_effects.push(AudioEffect::UpdateMixerParams);
            },
        },
        MixerAction::ToggleSolo => match selection {
            MixerSelection::Instrument(_) => {
                result.audio_effects.push(AudioEffect::RebuildInstruments);
                result.audio_effects.push(AudioEffect::UpdateMixerParams);
            },
            MixerSelection::Master => {},
            _ => {
                result.audio_effects.push(AudioEffect::RebuildSession);
                result.audio_effects.push(AudioEffect::UpdateMixerParams);
            },
        },
        MixerAction::CycleOutput | MixerAction::CycleOutputReverse => match selection {
            MixerSelection::Instrument(idx) => {
                if idx < state.instruments.instruments.len() {
                    result.audio_effects.push(AudioEffect::RebuildRoutingForInstrument(state.instruments.instruments[idx].id));
                }
            },
            MixerSelection::LayerGroup(_) => {
                result.audio_effects.push(AudioEffect::RebuildRouting);
            },
            _ => {},
        },
        MixerAction::ToggleSend(_) | MixerAction::CycleSendTapPoint(_) => match selection {
            MixerSelection::Instrument(idx) => {
                if idx < state.instruments.instruments.len() {
                    result.audio_effects.push(AudioEffect::RebuildInstruments);
                    result.audio_effects.push(AudioEffect::RebuildRoutingForInstrument(state.instruments.instruments[idx].id));
                }
            },
            MixerSelection::LayerGroup(_) => {
                result.audio_effects.push(AudioEffect::RebuildSession);
                result.audio_effects.push(AudioEffect::RebuildRouting);
            },
            _ => {},
        },
    }
    assert(result.audio_effects@ =~= mixer_action_effects(selection, state.instruments.instruments@, *action));
    result
}

} // verus!
