//! Rack construction, ordering, and module behavior.

use synthz::fixed::{FP_HALF, FP_ONE};
use synthz::module::{
    Attenuverter, BufferModule, ConnectionInfo, ConnectorInfo, DataIn, ModuleInfo, ModuleKind,
    Rack, RackError,
};
use synthz::synth::build_default_rack;

fn two_attenuverters() -> Vec<ModuleInfo> {
    vec![
        ModuleInfo::new("a", ModuleKind::Attenuverter(Attenuverter::new())),
        ModuleInfo::new("b", ModuleKind::Attenuverter(Attenuverter::new())),
    ]
}

#[test]
fn default_rack_builds_and_orders_every_connection() {
    let rack = build_default_rack(48000).unwrap();
    assert_eq!(rack.modules.len(), 7);
    assert_eq!(rack.connections.len(), 16);
    // Producers come before their consumers.
    for i in 0..rack.connections.len() {
        for j in 0..rack.connections.len() {
            if rack.connections[i].mod_in == rack.connections[j].mod_out {
                assert!(i < j);
            }
        }
    }
}

#[test]
fn unresolved_module_name_is_rejected() {
    let conns = vec![ConnectionInfo::new(
        ConnectorInfo::new("a", "output"),
        ConnectorInfo::new("nonexistent", "signal"),
    )];
    assert_eq!(
        Rack::new(two_attenuverters(), conns).err(),
        Some(RackError::UnresolvedName)
    );
}

#[test]
fn unresolved_port_name_is_rejected() {
    let conns = vec![ConnectionInfo::new(
        ConnectorInfo::new("a", "output"),
        ConnectorInfo::new("b", "no_such_port"),
    )];
    assert_eq!(
        Rack::new(two_attenuverters(), conns).err(),
        Some(RackError::UnresolvedName)
    );
}

#[test]
fn cyclic_graph_is_rejected() {
    let conns = vec![
        ConnectionInfo::new(
            ConnectorInfo::new("a", "output"),
            ConnectorInfo::new("b", "signal"),
        ),
        ConnectionInfo::new(
            ConnectorInfo::new("b", "output"),
            ConnectorInfo::new("a", "signal"),
        ),
    ];
    assert_eq!(
        Rack::new(two_attenuverters(), conns).err(),
        Some(RackError::CyclicGraph)
    );
}

#[test]
fn misordered_declarations_are_reordered() {
    // Declared consumer-first; construction still evaluates the
    // producer first.
    let conns = vec![
        ConnectionInfo::new(
            ConnectorInfo::new("a", "output"),
            ConnectorInfo::new("b", "signal"),
        ),
        ConnectionInfo::new(
            ConnectorInfo::new("buffer", "value"),
            ConnectorInfo::new("a", "signal"),
        ),
    ];
    let mut modules = two_attenuverters();
    modules.push(ModuleInfo::new(
        "buffer",
        ModuleKind::Buffer(BufferModule::new(vec![DataIn::new("value".to_string(), 0)])),
    ));
    let rack = Rack::new(modules, conns).unwrap();
    // buffer -> a must now run before a -> b.
    assert_eq!(rack.connections[0].mod_out, 2);
    assert_eq!(rack.connections[1].mod_out, 0);
}

#[test]
fn buffer_holds_and_attenuverter_consumes() {
    let mut buffer = ModuleKind::Buffer(BufferModule::new(vec![DataIn::new(
        "value".to_string(),
        7,
    )]));
    // Unfed: the default broadcast as a one-sample block, held.
    let first = buffer.extract(0, 4, &vec![0]);
    assert_eq!(first, vec![7]);
    buffer.feed(0, vec![1, 2, 3]);
    assert_eq!(buffer.extract(0, 4, &vec![0]), vec![1, 2, 3]);
    assert_eq!(buffer.extract(0, 4, &vec![0]), vec![1, 2, 3]);

    let mut att = ModuleKind::Attenuverter(Attenuverter::new());
    att.feed(0, vec![FP_ONE]); // attenuation 1.0 -> scale by 1.5
    att.feed(1, vec![100, 200]);
    let out = att.extract(0, 4, &vec![0]);
    assert_eq!(out, vec![150, 300, 150, 300]);
    // Inputs were consumed: the next block falls back to defaults
    // (attenuation 1.0, signal 0).
    assert_eq!(att.extract(0, 2, &vec![0]), vec![0, 0]);
}

#[test]
fn attenuverter_scales_and_inverts() {
    // att * 2 - 1/2 as the gain: 0 -> -1/2 (inversion), 3/4 -> 1.
    assert_eq!(Attenuverter::attenuvert(0, 1000), -500);
    assert_eq!(
        Attenuverter::attenuvert(3 * FP_ONE / 4, 1000),
        1000
    );
    assert_eq!(Attenuverter::attenuvert(FP_HALF, 0), 0);
}

#[test]
fn default_rack_renders_a_block() {
    let mut rack = build_default_rack(48000).unwrap();
    // Feed a held note into the control buffer and run one block.
    rack.feed_module(0, 2, vec![FP_ONE]); // full sustain
    rack.feed_module(0, 9, vec![FP_ONE / 2]); // note control
    rack.feed_module(0, 10, vec![FP_ONE]); // velocity
    rack.feed_module(0, 11, vec![FP_ONE]); // trigger high
    let noise = vec![0i64; 8];
    rack.feed_all(8, &noise);
    let out = rack.extract_module(6, 0, 8, &noise);
    assert_eq!(out.len(), 8);
}
