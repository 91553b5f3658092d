use imbolc_core::voice_allocator::{VoiceAllocator, VoiceChain, MAX_VOICES_PER_INSTRUMENT};

fn voice(instrument_id: u32, pitch: u8, released: bool) -> VoiceChain {
    VoiceChain { instrument_id, pitch, group_id: pitch as i32, midi_node_id: 0, source_node: 0, released }
}

/// Order keys as the engine derives them: released voices below every
/// sounding one, quieter and older voices lower.
fn keys_for(a: &VoiceAllocator, low_pitch: Option<u8>) -> Vec<u64> {
    a.chains()
        .iter()
        .map(|v| {
            let base: u64 = if v.released { 0 } else { 1000 };
            if Some(v.pitch) == low_pitch { base } else { base + 1 + v.pitch as u64 }
        })
        .collect()
}

#[test]
fn same_pitch_voice_is_retriggered() {
    let mut a = VoiceAllocator::new();
    a.add(voice(1, 60, false));
    a.add(voice(2, 60, false));
    let keys = keys_for(&a, None);
    let stolen = a.steal_voices(1, 60, &keys);
    assert_eq!(stolen, vec![voice(1, 60, false)]);
    assert_eq!(a.chains(), &vec![voice(2, 60, false)]);
}

#[test]
fn released_voice_is_stolen_first_at_the_limit() {
    let mut a = VoiceAllocator::new();
    for i in 0..MAX_VOICES_PER_INSTRUMENT {
        a.add(voice(1, 40 + i as u8, false));
    }
    a.add(voice(1, 80, true));
    let keys = keys_for(&a, None);
    let stolen = a.steal_voices(1, 90, &keys);
    assert_eq!(stolen, vec![voice(1, 80, true)]);
    assert_eq!(a.voices_for_instrument(1).len(), MAX_VOICES_PER_INSTRUMENT);
    assert_eq!(a.active_count(1), MAX_VOICES_PER_INSTRUMENT);
}

#[test]
fn lowest_key_is_stolen_and_first_wins_a_tie() {
    let mut a = VoiceAllocator::new();
    for i in 0..MAX_VOICES_PER_INSTRUMENT {
        a.add(voice(1, 40 + i as u8, false));
    }
    let mut keys = keys_for(&a, Some(45));
    keys[3] = keys[5];
    let stolen = a.steal_voices(1, 90, &keys);
    assert_eq!(stolen, vec![voice(1, 43, false)]);
    assert_eq!(a.chains().len(), MAX_VOICES_PER_INSTRUMENT - 1);
}

#[test]
fn below_the_limit_nothing_is_stolen() {
    let mut a = VoiceAllocator::new();
    for i in 0..(MAX_VOICES_PER_INSTRUMENT - 1) {
        a.add(voice(1, 40 + i as u8, false));
    }
    a.add(voice(2, 40, false));
    let keys = keys_for(&a, None);
    let stolen = a.steal_voices(1, 100, &keys);
    assert!(stolen.is_empty());
    assert_eq!(a.chains().len(), MAX_VOICES_PER_INSTRUMENT);
}

#[test]
fn retrigger_and_limit_can_both_steal() {
    let mut a = VoiceAllocator::new();
    for i in 0..(MAX_VOICES_PER_INSTRUMENT + 1) {
        a.add(voice(1, 40 + i as u8, false));
    }
    let keys = keys_for(&a, Some(50));
    let stolen = a.steal_voices(1, 41, &keys);
    assert_eq!(stolen, vec![voice(1, 41, false), voice(1, 50, false)]);
    assert_eq!(a.chains().len(), MAX_VOICES_PER_INSTRUMENT - 1);
}

#[test]
fn find_steal_candidate_ignores_other_instruments() {
    let mut a = VoiceAllocator::new();
    a.add(voice(2, 10, true));
    a.add(voice(1, 20, false));
    a.add(voice(1, 30, false));
    assert_eq!(a.find_steal_candidate(1, &vec![0, 7, 5]), Some(2));
    assert_eq!(a.find_steal_candidate(3, &vec![0, 7, 5]), None);
}

#[test]
fn mark_released_takes_the_first_sounding_voice() {
    let mut a = VoiceAllocator::new();
    a.add(voice(1, 60, true));
    a.add(voice(1, 60, false));
    assert_eq!(a.mark_released(1, 60), Some(1));
    assert!(a.chains()[1].released);
    assert_eq!(a.mark_released(1, 60), None);
    assert_eq!(a.active_count(1), 0);
}

#[test]
fn cleanup_removes_only_expired_released_voices() {
    let mut a = VoiceAllocator::new();
    a.add(voice(1, 60, true));
    a.add(voice(1, 72, true));
    a.add(voice(1, 48, false));
    a.cleanup_expired(&vec![true, false, true]);
    assert_eq!(a.chains(), &vec![voice(1, 72, true), voice(1, 48, false)]);
}

#[test]
fn drain_instrument_keeps_other_voices_in_order() {
    let mut a = VoiceAllocator::new();
    a.add(voice(1, 60, false));
    a.add(voice(2, 61, false));
    a.add(voice(1, 62, true));
    a.add(voice(3, 63, false));
    let drained = a.drain_instrument(1);
    assert_eq!(drained, vec![voice(1, 60, false), voice(1, 62, true)]);
    assert_eq!(a.chains(), &vec![voice(2, 61, false), voice(3, 63, false)]);
    let all = a.drain_all();
    assert_eq!(all.len(), 2);
    assert!(a.chains().is_empty());
}

#[test]
fn control_buses_come_fresh_then_from_the_pool() {
    let mut a = VoiceAllocator::new();
    assert_eq!(a.alloc_control_buses(), (0, 1, 2));
    assert_eq!(a.alloc_control_buses(), (3, 4, 5));
    a.return_control_buses(0, 1, 2);
    assert_eq!(a.alloc_control_buses(), (0, 1, 2));
    assert_eq!(a.alloc_control_buses(), (6, 7, 8));
}

#[test]
fn control_bus_watermark_only_moves_forward() {
    let mut a = VoiceAllocator::new();
    a.sync_bus_watermarks(40, 12);
    assert_eq!(a.alloc_control_buses(), (12, 13, 14));
    a.sync_bus_watermarks(50, 3);
    assert_eq!(a.alloc_control_buses(), (15, 16, 17));
}
