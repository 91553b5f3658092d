use std::collections::HashMap;

use imbolc_core::engine::{BackendError, InstrumentNodes, NullBackend, GROUP_OUTPUT, GROUP_SOURCES};

#[test]
fn all_node_ids_in_signal_order() {
    let mut effects = HashMap::new();
    effects.insert(7, 1007);
    effects.insert(3, 1003);
    let nodes = InstrumentNodes {
        source: Some(1),
        lfo: None,
        filter: Some(2),
        eq: Some(4),
        effects,
        // effect 9 has no node and is skipped
        effect_order: vec![3, 9, 7],
        output: 5,
    };
    assert_eq!(nodes.all_node_ids(), vec![1, 2, 4, 1003, 1007, 5]);
}

#[test]
fn all_node_ids_of_bare_chain_is_output_only() {
    let nodes = InstrumentNodes {
        source: None,
        lfo: None,
        filter: None,
        eq: None,
        effects: HashMap::new(),
        effect_order: vec![],
        output: 42,
    };
    assert_eq!(nodes.all_node_ids(), vec![42]);
}

#[test]
fn backend_error_from_string() {
    let e: BackendError = String::from("server gone").into();
    assert_eq!(e.message(), "server gone");
    assert_eq!(e.0, "server gone");
}

#[test]
fn group_order() {
    assert!(GROUP_SOURCES < GROUP_OUTPUT);
    let _ = NullBackend;
}
