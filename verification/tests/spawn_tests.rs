use node_graph::geometry::Vec2;
use node_graph::model::{InputPin, NodeGraph, NodeId, NodeInstance, PinId, PinOffsets};
use node_graph::node_factory::MathOperation;
use node_graph::spawn::{spawn_node, spawn_position, spawn_test_node_system, SpawnKeys, SpawnKind};

fn fx(v: f64) -> i64 {
    (v * 1_000_000.0).round() as i64
}

fn v2(x: f64, y: f64) -> Vec2 {
    Vec2::new(fx(x), fx(y))
}

#[test]
fn every_spawn_key_makes_its_node() {
    let mut graph = NodeGraph::new();
    let keys = SpawnKeys { test_node: true, math_node: true, constant_node: true };
    spawn_test_node_system(&mut graph, &keys);

    let nodes = graph.nodes.entries();
    assert_eq!(nodes.len(), 3);

    assert_eq!(nodes[0].node_id, NodeId(1));
    assert_eq!(nodes[0].title, "TestNode 1");
    assert_eq!(nodes[0].position, v2(40.0, 20.0));
    assert_eq!(nodes[0].inputs[0].pin_id, PinId(1));
    assert_eq!(nodes[0].inputs[1].pin_id, PinId(2));
    assert_eq!(nodes[0].outputs[0].pin_id, PinId(3));

    assert_eq!(nodes[1].node_id, NodeId(2));
    assert_eq!(nodes[1].title, "Add 2");
    assert_eq!(nodes[1].position, v2(280.0, 140.0));
    assert_eq!(nodes[1].inputs[0].pin_id, PinId(4));
    assert_eq!(nodes[1].outputs[0].pin_id, PinId(6));
    assert_eq!(nodes[1].outputs[0].label, "Add");

    assert_eq!(nodes[2].node_id, NodeId(3));
    assert_eq!(nodes[2].title, "Const 3");
    assert_eq!(nodes[2].position, v2(520.0, 260.0));
    assert_eq!(nodes[2].inputs.len(), 0);
    assert_eq!(nodes[2].outputs[0].pin_id, PinId(7));
    assert_eq!(nodes[2].outputs[0].label, "3.14");
}

#[test]
fn no_key_no_node() {
    let mut graph = NodeGraph::new();
    let keys = SpawnKeys { test_node: false, math_node: false, constant_node: false };
    spawn_test_node_system(&mut graph, &keys);
    assert!(graph.nodes.is_empty());

    let keys = SpawnKeys { test_node: false, math_node: true, constant_node: false };
    spawn_test_node_system(&mut graph, &keys);
    spawn_test_node_system(&mut graph, &keys);
    assert_eq!(graph.nodes.len(), 2);
    assert_eq!(graph.nodes.entries()[1].title, "Add 2");
    assert_eq!(graph.nodes.entries()[1].inputs[0].pin_id, PinId(4));
}

#[test]
fn spawn_positions_step_with_the_id() {
    assert_eq!(spawn_position(SpawnKind::Test, NodeId(0)), v2(0.0, 0.0));
    assert_eq!(spawn_position(SpawnKind::Test, NodeId(3)), v2(120.0, 60.0));
    assert_eq!(
        spawn_position(SpawnKind::Math(MathOperation::Divide), NodeId(3)),
        v2(320.0, 160.0)
    );
    assert_eq!(spawn_position(SpawnKind::Constant(0), NodeId(1)), v2(440.0, 220.0));
    assert_eq!(
        spawn_position(SpawnKind::Test, NodeId(u32::MAX)),
        Vec2::new(40_000_000 * 4294967295, 20_000_000 * 4294967295)
    );
}

#[test]
fn nothing_is_spawned_when_the_pin_ids_have_run_out() {
    let mut graph = NodeGraph::new();
    graph.add_node(NodeInstance {
        node_id: NodeId(1),
        position: Vec2::zero(),
        inputs: vec![InputPin {
            pin_id: PinId(u32::MAX - 3),
            label: "A".to_string(),
            parent_node: NodeId(1),
        }],
        outputs: vec![],
        title: "last".to_string(),
        size: v2(220.0, 100.0),
        header_height: fx(24.0),
        pin_offsets: PinOffsets::new(),
    });
    // The next pin id is u32::MAX - 2: too late for three pins, not for one.
    assert!(!spawn_node(&mut graph, SpawnKind::Test));
    assert!(!spawn_node(&mut graph, SpawnKind::Math(MathOperation::Multiply)));
    assert_eq!(graph.nodes.len(), 1);
    assert!(spawn_node(&mut graph, SpawnKind::Constant(fx(-1.5))));
    assert_eq!(graph.nodes.len(), 2);
    assert_eq!(graph.nodes.entries()[1].outputs[0].pin_id, PinId(u32::MAX - 2));
    assert_eq!(graph.nodes.entries()[1].outputs[0].label, "-1.50");
    assert!(spawn_node(&mut graph, SpawnKind::Constant(0)));
    assert!(!spawn_node(&mut graph, SpawnKind::Constant(0)));
    assert_eq!(graph.nodes.len(), 3);
}

#[test]
fn spawned_nodes_share_no_ids() {
    let mut graph = NodeGraph::new();
    let keys = SpawnKeys { test_node: true, math_node: true, constant_node: true };
    for _ in 0..5 {
        spawn_test_node_system(&mut graph, &keys);
    }
    let nodes = graph.nodes.entries();
    assert_eq!(nodes.len(), 15);
    let mut node_ids: Vec<u32> = nodes.iter().map(|n| n.node_id.0).collect();
    let mut pin_ids: Vec<u32> = nodes
        .iter()
        .flat_map(|n| {
            n.inputs.iter().map(|p| p.pin_id.0).chain(n.outputs.iter().map(|p| p.pin_id.0))
        })
        .collect();
    assert_eq!(pin_ids.len(), 5 * 7);
    node_ids.sort();
    node_ids.dedup();
    pin_ids.sort();
    pin_ids.dedup();
    assert_eq!(node_ids.len(), 15);
    assert_eq!(pin_ids.len(), 35);
    assert_eq!(node_ids, (1..=15).collect::<Vec<u32>>());
    assert_eq!(pin_ids, (1..=35).collect::<Vec<u32>>());
    for n in nodes {
        for p in &n.inputs {
            assert_eq!(p.parent_node, n.node_id);
        }
    }
}
