//! Voice allocation: the polyphonic voices that are sounding, which of them a
//! new note steals, and the pool of control buses that voices use.
//!
//! A voice's velocity, spawn time and release timing are kept by the caller,
//! not by the allocator. Where a decision depends on them (which voice is the best steal
//! target, which released voices have died away) the caller hands in what it
//! measured: an order key per voice, or an expiry flag per voice.
use vstd::prelude::*;

use crate::engine::InstrumentId;

verus! {

/// Maximum simultaneous voices per instrument.
pub const MAX_VOICES_PER_INSTRUMENT: usize = 16;

/// One polyphonic voice: the whole signal chain spawned for a note.
#[derive(Clone, Copy, PartialEq, Eq, Structural, Debug)]
pub struct VoiceChain {
    pub instrument_id: InstrumentId,
    pub pitch: u8,
    pub group_id: i32,
    pub midi_node_id: i32,
    pub source_node: i32,
    /// Whether the note has been released and the voice is fading out.
    pub released: bool,
}

/// The voices and the bus counters and pool.
pub struct VoiceAllocator {
    chains: Vec<VoiceChain>,
    next_audio_bus: i32,
    next_control_bus: i32,
    /// Freed control bus triples (freq, gate, vel) available for reuse.
    control_bus_pool: Vec<(i32, i32, i32)>,
}

/// The voice is of instrument `id` and plays `pitch`.
pub open spec fn plays(v: VoiceChain, id: InstrumentId, pitch: u8) -> bool {
    v.instrument_id == id && v.pitch == pitch
}

/// `p` is the first voice of instrument `id` at `pitch`.
pub open spec fn first_playing(s: Seq<VoiceChain>, id: InstrumentId, pitch: u8, p: int) -> bool {
    &&& 0 <= p < s.len()
    &&& plays(s[p], id, pitch)
    &&& forall|j: int| 0 <= j < p ==> !plays(#[trigger] s[j], id, pitch)
}

/// The first voice of instrument `id` at `pitch`, if any.
pub open spec fn retrigger_pos(s: Seq<VoiceChain>, id: InstrumentId, pitch: u8) -> Option<int> {
    if exists|p: int| first_playing(s, id, pitch, p) {
        Some(choose|p: int| first_playing(s, id, pitch, p))
    } else {
        None
    }
}

/// `p` is the first voice of instrument `id` at `pitch` that is not released.
pub open spec fn first_sounding(s: Seq<VoiceChain>, id: InstrumentId, pitch: u8, p: int) -> bool {
    &&& 0 <= p < s.len()
    &&& plays(s[p], id, pitch) && !s[p].released
    &&& forall|j: int| 0 <= j < p ==> !(plays(#[trigger] s[j], id, pitch) && !s[j].released)
}

/// The first sounding voice of instrument `id` at `pitch`, if any.
pub open spec fn sounding_pos(s: Seq<VoiceChain>, id: InstrumentId, pitch: u8) -> Option<int> {
    if exists|p: int| first_sounding(s, id, pitch, p) {
        Some(choose|p: int| first_sounding(s, id, pitch, p))
    } else {
        None
    }
}

/// `p` is the first voice of instrument `id` with the lowest order key.
pub open spec fn best_candidate(s: Seq<VoiceChain>, keys: Seq<u64>, id: InstrumentId, p: int) -> bool {
    &&& 0 <= p < s.len()
    &&& s[p].instrument_id == id
    &&& forall|j: int| 0 <= j < s.len() && (#[trigger] s[j]).instrument_id == id ==> keys[p] <= keys[j]
    &&& forall|j: int| 0 <= j < p && (#[trigger] s[j]).instrument_id == id ==> keys[p] < keys[j]
}

/// The best steal target among the voices of instrument `id`, if it has any.
pub open spec fn steal_candidate(s: Seq<VoiceChain>, keys: Seq<u64>, id: InstrumentId) -> Option<int> {
    if exists|p: int| best_candidate(s, keys, id, p) {
        Some(choose|p: int| best_candidate(s, keys, id, p))
    } else {
        None
    }
}

/// The voices of instrument `id` that have not been released.
pub open spec fn active_voices(s: Seq<VoiceChain>, id: InstrumentId) -> Seq<VoiceChain> {
    s.filter(|v: VoiceChain| v.instrument_id == id && !v.released)
}

/// The voices of instrument `id`, in order.
pub open spec fn voices_of(s: Seq<VoiceChain>, id: InstrumentId) -> Seq<VoiceChain> {
    s.filter(|v: VoiceChain| v.instrument_id == id)
}

/// The voices of other instruments, in order.
pub open spec fn voices_not_of(s: Seq<VoiceChain>, id: InstrumentId) -> Seq<VoiceChain> {
    s.filter(|v: VoiceChain| v.instrument_id != id)
}

/// The voices and keys left after a same-pitch retrigger, and what it took.
pub open spec fn after_retrigger(s: Seq<VoiceChain>, keys: Seq<u64>, id: InstrumentId, pitch: u8)
    -> (Seq<VoiceChain>, Seq<u64>, Seq<VoiceChain>)
{
    match retrigger_pos(s, id, pitch) {
        Some(p) => (s.remove(p), keys.remove(p), seq![s[p]]),
        None => (s, keys, Seq::empty()),
    }
}

/// The voices left and the voices stolen before a note of instrument `id` at
/// `pitch` starts: any voice at the same pitch, then, with the instrument at
/// its voice limit, the best steal target.
pub open spec fn after_steal(s: Seq<VoiceChain>, keys: Seq<u64>, id: InstrumentId, pitch: u8)
    -> (Seq<VoiceChain>, Seq<VoiceChain>)
{
    let (s1, k1, taken) = after_retrigger(s, keys, id, pitch);
    if active_voices(s1, id).len() >= MAX_VOICES_PER_INSTRUMENT {
        match steal_candidate(s1, k1, id) {
            Some(q) => (s1.remove(q), taken.push(s1[q])),
            None => (s1, taken),
        }
    } else {
        (s1, taken)
    }
}

/// The voices kept by a cleanup: all but the released ones whose release has
/// run out.
pub open spec fn kept_after_cleanup(s: Seq<VoiceChain>, expired: Seq<bool>) -> Seq<VoiceChain>
    decreases s.len(),
{
    if s.len() == 0 {
        Seq::empty()
    } else {
        let rest = kept_after_cleanup(s.drop_last(), expired.subrange(0, s.len() - 1));
        if s.last().released && expired[s.len() - 1] { rest } else { rest.push(s.last()) }
    }
}

impl VoiceAllocator {
    /// The voices, oldest first.
    pub closed spec fn voices(&self) -> Seq<VoiceChain> {
        self.chains@
    }

    /// Freed control bus triples, the last one reused first.
    pub closed spec fn pool(&self) -> Seq<(i32, i32, i32)> {
        self.control_bus_pool@
    }

    /// The next fresh control bus.
    pub closed spec fn next_control(&self) -> i32 {
        self.next_control_bus
    }

    /// The audio bus watermark.
    pub closed spec fn next_audio(&self) -> i32 {
        self.next_audio_bus
    }

    /// No voices, an empty pool; audio buses from 16 and control buses from 0.
    pub fn new() -> (a: Self)
        ensures
            a.voices() == Seq::<VoiceChain>::empty(),
            a.pool() == Seq::<(i32, i32, i32)>::empty(),
            a.next_audio() == 16,
            a.next_control() == 0,
    {
        VoiceAllocator { chains: Vec::new(), next_audio_bus: 16, next_control_bus: 0, control_bus_pool: Vec::new() }
    }

    /// A control bus triple (freq, gate, vel): the last one returned to the
    /// pool, else three fresh consecutive buses.
    pub fn alloc_control_buses(&mut self) -> (r: (i32, i32, i32))
        requires
            old(self).pool().len() > 0 || old(self).next_control() + 3 <= i32::MAX,
        ensures
            final(self).voices() == old(self).voices(),
            final(self).next_audio() == old(self).next_audio(),
            old(self).pool().len() > 0 ==> {
                &&& r == old(self).pool().last()
                &&& final(self).pool() == old(self).pool().drop_last()
                &&& final(self).next_control() == old(self).next_control()
            },
            old(self).pool().len() == 0 ==> {
                let c = old(self).next_control();
                &&& r == (c, (c + 1) as i32, (c + 2) as i32)
                &&& final(self).pool() == old(self).pool()
                &&& final(self).next_control() == c + 3
            },
    {
        match self.control_bus_pool.pop() {
            Some(triple) => triple,
            None => {
                let freq = self.next_control_bus;
                self.next_control_bus = freq + 1;
                let gate = self.next_control_bus;
                self.next_control_bus = gate + 1;
                let vel = self.next_control_bus;
                self.next_control_bus = vel + 1;
                (freq, gate, vel)
            },
        }
    }

    /// Return a control bus triple to the pool for reuse.
    pub fn return_control_buses(&mut self, freq: i32, gate: i32, vel: i32)
        ensures
            final(self).pool() == old(self).pool().push((freq, gate, vel)),
            final(self).voices() == old(self).voices(),
            final(self).next_control() == old(self).next_control(),
            final(self).next_audio() == old(self).next_audio(),
    {
        self.control_bus_pool.push((freq, gate, vel));
    }

    /// Add a voice after the others.
    pub fn add(&mut self, voice: VoiceChain)
        ensures
            final(self).voices() == old(self).voices().push(voice),
            final(self).pool() == old(self).pool(),
            final(self).next_control() == old(self).next_control(),
            final(self).next_audio() == old(self).next_audio(),
    {
        self.chains.push(voice);
    }

    /// Position of the first voice of instrument `id` at `pitch`.
    fn position_playing(&self, id: InstrumentId, pitch: u8) -> (r: Option<usize>)
        ensures
            match r {
                Some(p) => retrigger_pos(self.voices(), id, pitch) == Some(p as int),
                None => retrigger_pos(self.voices(), id, pitch) is None,
            },
    {
        let ghost s = self.chains@;
        let mut i: usize = 0;
        while i < self.chains.len()
            invariant
                i <= s.len(),
                self.chains@ == s,
                forall|j: int| 0 <= j < i ==> !plays(#[trigger] s[j], id, pitch),
            decreases s.len() - i,
        {
            if self.chains[i].instrument_id == id && self.chains[i].pitch == pitch {
                assert(first_playing(s, id, pitch, i as int));
                assert forall|p: int| first_playing(s, id, pitch, p) implies p == i by {
                    if p < i { assert(!plays(s[p], id, pitch)); }
                    if p > i { assert(!plays(s[i as int], id, pitch)); }
                }
                return Some(i);
            }
            i = i + 1;
        }
        assert forall|p: int| !first_playing(s, id, pitch, p) by {
            if 0 <= p < s.len() { assert(!plays(s[p], id, pitch)); }
        }
        None
    }

    /// Number of voices of instrument `id` that have not been released.
    pub fn active_count(&self, id: InstrumentId) -> (n: usize)
        ensures
            n == active_voices(self.voices(), id).len(),
    {
        let ghost s = self.chains@;
        let mut n: usize = 0;
        let mut i: usize = 0;
        while i < self.chains.len()
            invariant
                i <= s.len(),
                self.chains@ == s,
                n == active_voices(s.subrange(0, i as int), id).len(),
                n <= i,
            decreases s.len() - i,
        {
            proof {
                reveal_with_fuel(Seq::<_>::filter, 1);
                assert(s.subrange(0, i + 1).drop_last() =~= s.subrange(0, i as int));
            }
            if self.chains[i].instrument_id == id && !self.chains[i].released {
                n = n + 1;
            }
            i = i + 1;
        }
        assert(s.subrange(0, i as int) =~= s);
        n
    }

    /// The voice of instrument `id` that is the best steal target: the first
    /// one with the lowest order key in `keys` (one key per voice, lower is a
    /// better target).
    pub fn find_steal_candidate(&self, id: InstrumentId, keys: &Vec<u64>) -> (r: Option<usize>)
        requires
            keys@.len() == self.voices().len(),
        ensures
            match r {
                Some(p) => steal_candidate(self.voices(), keys@, id) == Some(p as int),
                None => steal_candidate(self.voices(), keys@, id) is None,
            },
    {
        let ghost s = self.chains@;
        let mut best: Option<usize> = None;
        let mut i: usize = 0;
        while i < self.chains.len()
            invariant
                i <= s.len(),
                self.chains@ == s,
                keys@.len() == s.len(),
                match best {
                    Some(b) => b < i && best_candidate(s.subrange(0, i as int), keys@.subrange(0, i as int), id, b as int),
                    None => forall|j: int| 0 <= j < i ==> (#[trigger] s[j]).instrument_id != id,
                },
            decreases s.len() - i,
        {
            if self.chains[i].instrument_id == id {
                match best {
                    Some(b) => {
                        if keys[i] < keys[b] {
                            best = Some(i);
                        }
                    },
                    None => {
                        best = Some(i);
                    },
                }
            }
            i = i + 1;
        }
        assert(s.subrange(0, i as int) =~= s);
        assert(keys@.subrange(0, i as int) =~= keys@);
        match best {
            Some(b) => {
                assert forall|p: int| best_candidate(s, keys@, id, p) implies p == b by {
                    if p < b { assert(keys@[b as int] <= keys@[p]); }
                    if p > b { assert(keys@[p] <= keys@[b as int]); }
                }
            },
            None => {
                assert forall|p: int| !best_candidate(s, keys@, id, p) by {}
            },
        }
        best
    }

    /// Take the voices a new note of instrument `id` at `pitch` must replace:
    /// any voice at the same pitch, then, if the instrument still has
    /// `MAX_VOICES_PER_INSTRUMENT` voices sounding, its best steal target by
    /// `keys` (one order key per voice, lower is a better target). Returns the
    /// voices taken, for the caller to free.
    pub fn steal_voices(&mut self, id: InstrumentId, pitch: u8, keys: &Vec<u64>) -> (stolen: Vec<VoiceChain>)
        requires
            keys@.len() == old(self).voices().len(),
        ensures
            (final(self).voices(), stolen@) == after_steal(old(self).voices(), keys@, id, pitch),
            final(self).pool() == old(self).pool(),
            final(self).next_control() == old(self).next_control(),
            final(self).next_audio() == old(self).next_audio(),
    {
        let ghost s = self.chains@;
        let mut stolen: Vec<VoiceChain> = Vec::new();
        let mut k: Vec<u64> = keys.clone();
        assert(k@ == keys@);
        if let Some(pos) = self.position_playing(id, pitch) {
            let v = self.chains.remove(pos);
            k.remove(pos);
            stolen.push(v);
            assert(stolen@ =~= seq![s[pos as int]]);
        }
        let ghost (s1, k1, taken) = after_retrigger(s, keys@, id, pitch);
        assert(self.chains@ == s1 && k@ == k1 && stolen@ == taken);
        if self.active_count(id) >= MAX_VOICES_PER_INSTRUMENT {
            if let Some(pos) = self.find_steal_candidate(id, &k) {
                let v = self.chains.remove(pos);
                stolen.push(v);
            }
        }
        stolen
    }

    /// Position of the first sounding voice of instrument `id` at `pitch`.
    fn position_sounding(&self, id: InstrumentId, pitch: u8) -> (r: Option<usize>)
        ensures
            match r {
                Some(p) => sounding_pos(self.voices(), id, pitch) == Some(p as int),
                None => sounding_pos(self.voices(), id, pitch) is None,
            },
    {
        let ghost s = self.chains@;
        let mut i: usize = 0;
        while i < self.chains.len()
            invariant
                i <= s.len(),
                self.chains@ == s,
                forall|j: int| 0 <= j < i ==> !(plays(#[trigger] s[j], id, pitch) && !s[j].released),
            decreases s.len() - i,
        {
            let v = self.chains[i];
            if v.instrument_id == id && v.pitch == pitch && !v.released {
                assert(first_sounding(s, id, pitch, i as int));
                assert forall|p: int| first_sounding(s, id, pitch, p) implies p == i by {
                    if p < i { assert(!(plays(s[p], id, pitch) && !s[p].released)); }
                    if p > i { assert(!(plays(s[i as int], id, pitch) && !s[i as int].released)); }
                }
                return Some(i);
            }
            i = i + 1;
        }
        assert forall|p: int| !first_sounding(s, id, pitch, p) by {
            if 0 <= p < s.len() { assert(!(plays(s[p], id, pitch) && !s[p].released)); }
        }
        None
    }

    /// Mark the first sounding voice of instrument `id` at `pitch` released;
    /// returns its position, for the caller to close its gate and note when
    /// the release began.
    pub fn mark_released(&mut self, id: InstrumentId, pitch: u8) -> (r: Option<usize>)
        ensures
            match sounding_pos(old(self).voices(), id, pitch) {
                Some(p) => r == Some(p as usize) && final(self).voices()
                    == old(self).voices().update(p, VoiceChain { released: true, ..old(self).voices()[p] }),
                None => r is None && final(self).voices() == old(self).voices(),
            },
            final(self).pool() == old(self).pool(),
            final(self).next_control() == old(self).next_control(),
            final(self).next_audio() == old(self).next_audio(),
    {
        let r = self.position_sounding(id, pitch);
        if let Some(i) = r {
            let v = self.chains[i];
            self.chains.set(i, VoiceChain { released: true, ..v });
        }
        r
    }

    /// Remove every voice; returns them, for the caller to free.
    pub fn drain_all(&mut self) -> (drained: Vec<VoiceChain>)
        ensures
            drained@ == old(self).voices(),
            final(self).voices() == Seq::<VoiceChain>::empty(),
            final(self).pool() == old(self).pool(),
            final(self).next_control() == old(self).next_control(),
            final(self).next_audio() == old(self).next_audio(),
    {
        let mut drained: Vec<VoiceChain> = Vec::new();
        std::mem::swap(&mut drained, &mut self.chains);
        drained
    }

    /// Remove every voice of instrument `id`; returns them in order, for the
    /// caller to free. The other voices keep their order.
    pub fn drain_instrument(&mut self, id: InstrumentId) -> (drained: Vec<VoiceChain>)
        ensures
            drained@ == voices_of(old(self).voices(), id),
            final(self).voices() == voices_not_of(old(self).voices(), id),
            final(self).pool() == old(self).pool(),
            final(self).next_control() == old(self).next_control(),
            final(self).next_audio() == old(self).next_audio(),
    {
        let ghost s = self.chains@;
        let mut drained: Vec<VoiceChain> = Vec::new();
        let mut kept: Vec<VoiceChain> = Vec::new();
        let mut i: usize = 0;
        while i < self.chains.len()
            invariant
                i <= s.len(),
                self.chains@ == s,
                drained@ == voices_of(s.subrange(0, i as int), id),
                kept@ == voices_not_of(s.subrange(0, i as int), id),
            decreases s.len() - i,
        {
            proof {
                reveal_with_fuel(Seq::<_>::filter, 1);
                assert(s.subrange(0, i + 1).drop_last() =~= s.subrange(0, i as int));
            }
            let v = self.chains[i];
            if v.instrument_id == id {
                drained.push(v);
            } else {
                kept.push(v);
            }
            i = i + 1;
        }
        assert(s.subrange(0, i as int) =~= s);
        self.chains = kept;
        drained
    }

    /// Remove the released voices whose release has run out; `expired` says,
    /// per voice, whether its release time (plus a margin) has passed.
    pub fn cleanup_expired(&mut self, expired: &Vec<bool>)
        requires
            expired@.len() == old(self).voices().len(),
        ensures
            final(self).voices() == kept_after_cleanup(old(self).voices(), expired@),
            final(self).pool() == old(self).pool(),
            final(self).next_control() == old(self).next_control(),
            final(self).next_audio() == old(self).next_audio(),
    {
        let ghost s = self.chains@;
        let mut kept: Vec<VoiceChain> = Vec::new();
        let mut i: usize = 0;
        while i < self.chains.len()
            invariant
                i <= s.len(),
                self.chains@ == s,
                expired@.len() == s.len(),
                kept@ == kept_after_cleanup(s.subrange(0, i as int), expired@.subrange(0, i as int)),
            decreases s.len() - i,
        {
            let v = self.chains[i];
            proof {
                let t = s.subrange(0, i + 1);
                assert(t.drop_last() =~= s.subrange(0, i as int));
                assert(expired@.subrange(0, i + 1).subrange(0, i as int) =~= expired@.subrange(0, i as int));
            }
            if !(v.released && expired[i]) {
                kept.push(v);
            }
            i = i + 1;
        }
        assert(s.subrange(0, i as int) =~= s);
        assert(expired@.subrange(0, i as int) =~= expired@);
        self.chains = kept;
    }

    /// The voices of instrument `id`, in order.
    pub fn voices_for_instrument(&self, id: InstrumentId) -> (v: Vec<VoiceChain>)
        ensures
            v@ == voices_of(self.voices(), id),
    {
        let ghost s = self.chains@;
        let mut out: Vec<VoiceChain> = Vec::new();
        let mut i: usize = 0;
        while i < self.chains.len()
            invariant
                i <= s.len(),
                self.chains@ == s,
                out@ == voices_of(s.subrange(0, i as int), id),
            decreases s.len() - i,
        {
            proof {
                reveal_with_fuel(Seq::<_>::filter, 1);
                assert(s.subrange(0, i + 1).drop_last() =~= s.subrange(0, i as int));
            }
            if self.chains[i].instrument_id == id {
                out.push(self.chains[i]);
            }
            i = i + 1;
        }
        assert(s.subrange(0, i as int) =~= s);
        out
    }

    /// All voices, oldest first.
    pub fn chains(&self) -> (c: &Vec<VoiceChain>)
        ensures
            c@ == self.voices(),
    {
        &self.chains
    }

    /// Take the bus watermarks of a routing rebuild: the audio bus counter
    /// follows it; the control bus counter only moves forward.
    pub fn sync_bus_watermarks(&mut self, audio_bus: i32, control_bus: i32)
        ensures
            final(self).next_audio() == audio_bus,
            final(self).next_control() == (if control_bus > old(self).next_control() { control_bus } else { old(self).next_control() }),
            final(self).voices() == old(self).voices(),
            final(self).pool() == old(self).pool(),
    {
        self.next_audio_bus = audio_bus;
        if control_bus > self.next_control_bus {
            self.next_control_bus = control_bus;
        }
    }
}

} // verus!
