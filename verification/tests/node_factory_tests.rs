use node_graph::geometry::Vec2;
use node_graph::model::{
    InputPin, NodeGraph, NodeId, NodeInstance, OutputPin, PinId, PinOffsets,
};
use node_graph::node_factory::{MathOperation, NodeFactory};

fn fx(v: f64) -> i64 {
    (v * 1_000_000.0).round() as i64
}

fn v2(x: f64, y: f64) -> Vec2 {
    Vec2::new(fx(x), fx(y))
}

fn create_dummy_node(node_id: NodeId) -> NodeInstance {
    NodeInstance {
        node_id,
        position: v2(0.0, 0.0),
        inputs: vec![],
        outputs: vec![],
        title: "Dummy".to_string(),
        size: v2(220.0, 100.0),
        header_height: fx(24.0),
        pin_offsets: PinOffsets::new(),
    }
}

#[test]
fn test_create_test_node() {
    let node_id = NodeId(5);
    let position = v2(100.0, 200.0);
    let next_pin_id = 10;

    let (node, returned_pin_id) = NodeFactory::create_test_node(node_id, position, next_pin_id);

    assert_eq!(node.node_id, node_id);
    assert_eq!(node.position, position);
    assert_eq!(node.title, "TestNode 5");
    assert_eq!(node.size.x, fx(220.0));
    assert_eq!(node.size.y, fx(100.0));
    assert_eq!(node.header_height, fx(24.0));

    assert_eq!(node.inputs.len(), 2);
    assert_eq!(node.outputs.len(), 1);

    assert_eq!(node.inputs[0].pin_id, PinId(10));
    assert_eq!(node.inputs[0].label, "A");
    assert_eq!(node.inputs[0].parent_node, node_id);

    assert_eq!(node.inputs[1].pin_id, PinId(11));
    assert_eq!(node.inputs[1].label, "B");
    assert_eq!(node.inputs[1].parent_node, node_id);

    assert_eq!(node.outputs[0].pin_id, PinId(12));
    assert_eq!(node.outputs[0].label, "Out");
    assert_eq!(node.outputs[0].parent_node, node_id);

    assert_eq!(returned_pin_id, 13);
}

#[test]
fn test_create_math_node_add() {
    let node_id = NodeId(1);
    let position = v2(50.0, 75.0);
    let next_pin_id = 5;

    let (node, returned_pin_id) =
        NodeFactory::create_math_node(node_id, position, MathOperation::Add, next_pin_id);

    assert_eq!(node.node_id, node_id);
    assert_eq!(node.position, position);
    assert_eq!(node.title, "Add 1");
    assert_eq!(node.inputs.len(), 2);
    assert_eq!(node.outputs.len(), 1);

    assert_eq!(node.outputs[0].label, "Add");

    assert_eq!(returned_pin_id, 8);
}

#[test]
fn test_create_math_node_subtract() {
    let node_id = NodeId(2);
    let position = v2(150.0, 250.0);
    let next_pin_id = 20;

    let (node, returned_pin_id) =
        NodeFactory::create_math_node(node_id, position, MathOperation::Subtract, next_pin_id);

    assert_eq!(node.title, "Subtract 2");
    assert_eq!(node.outputs[0].label, "Sub");
    assert_eq!(returned_pin_id, 23);
}

#[test]
fn test_create_math_node_multiply() {
    let node_id = NodeId(3);
    let position = v2(0.0, 0.0);
    let next_pin_id = 100;

    let (node, returned_pin_id) =
        NodeFactory::create_math_node(node_id, position, MathOperation::Multiply, next_pin_id);

    assert_eq!(node.title, "Multiply 3");
    assert_eq!(node.outputs[0].label, "Mul");
    assert_eq!(returned_pin_id, 103);
}

#[test]
fn test_create_math_node_divide() {
    let node_id = NodeId(4);
    let position = v2(-50.0, -100.0);
    let next_pin_id = 0;

    let (node, returned_pin_id) =
        NodeFactory::create_math_node(node_id, position, MathOperation::Divide, next_pin_id);

    assert_eq!(node.title, "Divide 4");
    assert_eq!(node.outputs[0].label, "Div");
    assert_eq!(returned_pin_id, 3);
}

#[test]
fn test_create_constant_node() {
    let node_id = NodeId(10);
    let position = v2(300.0, 400.0);
    let value = fx(3.14159);
    let next_pin_id = 50;

    let (node, returned_pin_id) =
        NodeFactory::create_constant_node(node_id, position, value, next_pin_id);

    assert_eq!(node.node_id, node_id);
    assert_eq!(node.position, position);
    assert_eq!(node.title, "Const 10");
    assert_eq!(node.size.x, fx(220.0));
    assert_eq!(node.size.y, fx(100.0));
    assert_eq!(node.header_height, fx(24.0));

    assert_eq!(node.inputs.len(), 0);

    assert_eq!(node.outputs.len(), 1);
    assert_eq!(node.outputs[0].pin_id, PinId(50));
    assert_eq!(node.outputs[0].label, "3.14");
    assert_eq!(node.outputs[0].parent_node, node_id);

    assert_eq!(returned_pin_id, 51);
}

#[test]
fn test_create_constant_node_negative_value() {
    let node_id = NodeId(15);
    let position = v2(0.0, 0.0);
    let value = fx(-2.5);
    let next_pin_id = 75;

    let (node, returned_pin_id) =
        NodeFactory::create_constant_node(node_id, position, value, next_pin_id);

    assert_eq!(node.outputs[0].label, "-2.50");
    assert_eq!(returned_pin_id, 76);
}

#[test]
fn test_create_constant_node_zero_value() {
    let node_id = NodeId(20);
    let position = v2(0.0, 0.0);
    let value = fx(0.0);
    let next_pin_id = 80;

    let (node, returned_pin_id) =
        NodeFactory::create_constant_node(node_id, position, value, next_pin_id);

    assert_eq!(node.outputs[0].label, "0.00");
    assert_eq!(returned_pin_id, 81);
}

#[test]
fn test_get_next_node_id_empty_graph() {
    let graph = NodeGraph::new();
    let next_id = NodeFactory::get_next_node_id(&graph);

    assert_eq!(next_id, NodeId(1));
}

#[test]
fn test_get_next_node_id_with_existing_nodes() {
    let mut graph = NodeGraph::new();

    let node1 = create_dummy_node(NodeId(5));
    let node2 = create_dummy_node(NodeId(10));
    let node3 = create_dummy_node(NodeId(3));

    graph.add_node(node1);
    graph.add_node(node2);
    graph.add_node(node3);

    let next_id = NodeFactory::get_next_node_id(&graph);
    assert_eq!(next_id, NodeId(11));
}

#[test]
fn test_get_next_node_id_single_node() {
    let mut graph = NodeGraph::new();

    let node1 = create_dummy_node(NodeId(1));
    graph.add_node(node1);

    let next_id = NodeFactory::get_next_node_id(&graph);
    assert_eq!(next_id, NodeId(2));
}

#[test]
fn test_get_next_pin_id_empty_graph() {
    let graph = NodeGraph::new();
    let next_id = NodeFactory::get_next_pin_id(&graph);

    assert_eq!(next_id, 1);
}

#[test]
fn test_get_next_pin_id_with_existing_pins() {
    let mut graph = NodeGraph::new();

    let mut node1 = create_dummy_node(NodeId(1));
    node1.inputs = vec![
        InputPin { pin_id: PinId(0), label: "A".to_string(), parent_node: NodeId(1) },
        InputPin { pin_id: PinId(2), label: "B".to_string(), parent_node: NodeId(1) },
    ];
    node1.outputs =
        vec![OutputPin { pin_id: PinId(1), label: "Out".to_string(), parent_node: NodeId(1) }];

    let mut node2 = create_dummy_node(NodeId(2));
    node2.inputs =
        vec![InputPin { pin_id: PinId(4), label: "C".to_string(), parent_node: NodeId(2) }];
    node2.outputs = vec![
        OutputPin { pin_id: PinId(5), label: "Out2".to_string(), parent_node: NodeId(2) },
        OutputPin { pin_id: PinId(7), label: "Out3".to_string(), parent_node: NodeId(2) },
    ];

    graph.add_node(node1);
    graph.add_node(node2);

    let next_id = NodeFactory::get_next_pin_id(&graph);
    assert_eq!(next_id, 8);
}

#[test]
fn test_get_next_pin_id_single_pin() {
    let mut graph = NodeGraph::new();

    let mut node1 = create_dummy_node(NodeId(1));
    node1.outputs =
        vec![OutputPin { pin_id: PinId(3), label: "Out".to_string(), parent_node: NodeId(1) }];

    graph.add_node(node1);

    let next_id = NodeFactory::get_next_pin_id(&graph);
    assert_eq!(next_id, 4);
}

#[test]
fn test_math_operation_labels() {
    let position = v2(0.0, 0.0);

    let (add_node, _) = NodeFactory::create_math_node(NodeId(1), position, MathOperation::Add, 0);
    assert_eq!(add_node.outputs[0].label, "Add");

    let (sub_node, _) =
        NodeFactory::create_math_node(NodeId(2), position, MathOperation::Subtract, 0);
    assert_eq!(sub_node.outputs[0].label, "Sub");

    let (mul_node, _) =
        NodeFactory::create_math_node(NodeId(3), position, MathOperation::Multiply, 0);
    assert_eq!(mul_node.outputs[0].label, "Mul");

    let (div_node, _) =
        NodeFactory::create_math_node(NodeId(4), position, MathOperation::Divide, 0);
    assert_eq!(div_node.outputs[0].label, "Div");
}

#[test]
fn test_node_factory_consistency() {
    let position = v2(100.0, 200.0);

    let (test_node, _) = NodeFactory::create_test_node(NodeId(1), position, 0);
    let (math_node, _) = NodeFactory::create_math_node(NodeId(2), position, MathOperation::Add, 3);
    let (const_node, _) = NodeFactory::create_constant_node(NodeId(3), position, fx(1.0), 6);

    assert_eq!(test_node.size, math_node.size);
    assert_eq!(test_node.size, const_node.size);
    assert_eq!(test_node.header_height, math_node.header_height);
    assert_eq!(test_node.header_height, const_node.header_height);
    assert_eq!(test_node.pin_offsets, math_node.pin_offsets);
    assert_eq!(test_node.pin_offsets, const_node.pin_offsets);
}

#[test]
fn test_pin_id_sequence() {
    let position = v2(0.0, 0.0);
    let next_pin_id = 0;

    let (test_node, next_pin_id) = NodeFactory::create_test_node(NodeId(1), position, next_pin_id);
    assert_eq!(next_pin_id, 3);

    let (math_node, next_pin_id) =
        NodeFactory::create_math_node(NodeId(2), position, MathOperation::Add, next_pin_id);
    assert_eq!(next_pin_id, 6);

    let (const_node, next_pin_id) =
        NodeFactory::create_constant_node(NodeId(3), position, fx(2.5), next_pin_id);
    assert_eq!(next_pin_id, 7);

    assert_eq!(test_node.inputs[0].pin_id, PinId(0));
    assert_eq!(test_node.inputs[1].pin_id, PinId(1));
    assert_eq!(test_node.outputs[0].pin_id, PinId(2));

    assert_eq!(math_node.inputs[0].pin_id, PinId(3));
    assert_eq!(math_node.inputs[1].pin_id, PinId(4));
    assert_eq!(math_node.outputs[0].pin_id, PinId(5));

    assert_eq!(const_node.outputs[0].pin_id, PinId(6));
}

#[test]
fn next_node_id_on_three_five_nine_is_ten() {
    let mut graph = NodeGraph::new();
    for id in [3, 5, 9] {
        graph.add_node(create_dummy_node(NodeId(id)));
    }
    assert_eq!(NodeFactory::get_next_node_id(&graph), NodeId(10));
}

#[test]
fn next_ids_stop_at_the_largest_number() {
    let mut graph = NodeGraph::new();
    let mut node = create_dummy_node(NodeId(u32::MAX));
    node.inputs = vec![InputPin {
        pin_id: PinId(u32::MAX),
        label: "A".to_string(),
        parent_node: node.node_id,
    }];
    graph.add_node(node);
    assert_eq!(NodeFactory::get_next_node_id(&graph), NodeId(u32::MAX));
    assert_eq!(NodeFactory::get_next_pin_id(&graph), u32::MAX);
}

#[test]
fn titles_carry_the_id_in_decimal() {
    let (node, _) = NodeFactory::create_test_node(NodeId(0), v2(0.0, 0.0), 0);
    assert_eq!(node.title, "TestNode 0");
    let (node, _) = NodeFactory::create_test_node(NodeId(4294967295), v2(0.0, 0.0), 0);
    assert_eq!(node.title, "TestNode 4294967295");
    let (node, _) = NodeFactory::create_constant_node(NodeId(1070), v2(0.0, 0.0), 0, 0);
    assert_eq!(node.title, "Const 1070");
}

#[test]
fn constant_labels_round_to_two_places() {
    let label = |value: i64| {
        let (node, _) = NodeFactory::create_constant_node(NodeId(1), Vec2::zero(), value, 0);
        node.outputs[0].label.clone()
    };
    assert_eq!(label(fx(1.0)), "1.00");
    assert_eq!(label(fx(2.5)), "2.50");
    assert_eq!(label(fx(0.125)), "0.12");
    assert_eq!(label(fx(0.375)), "0.38");
    assert_eq!(label(fx(0.005001)), "0.01");
    assert_eq!(label(fx(-0.004)), "-0.00");
    assert_eq!(label(fx(99.995)), "100.00");
    assert_eq!(label(fx(-12345.678)), "-12345.68");
    assert_eq!(label(i64::MAX), "9223372036854.78");
    assert_eq!(label(i64::MIN), "-9223372036854.78");
}

#[test]
fn a_node_gets_one_pin_for_each_label() {
    let inputs = vec!["Color".to_string(), "Factor".to_string(), "Mask".to_string()];
    let outputs = vec!["Result".to_string(), "Alpha".to_string()];
    let (node, next) = NodeFactory::create_node(
        NodeId(7),
        v2(12.5, -3.0),
        "Mix".to_string(),
        &inputs,
        &outputs,
        40,
    );
    assert_eq!(next, 45);
    assert_eq!(node.node_id, NodeId(7));
    assert_eq!(node.position, v2(12.5, -3.0));
    assert_eq!(node.title, "Mix");
    assert_eq!(node.size, v2(220.0, 100.0));
    assert_eq!(node.header_height, fx(24.0));
    assert_eq!(node.pin_offsets, PinOffsets::new());
    let input_pins: Vec<(u32, &str, NodeId)> =
        node.inputs.iter().map(|p| (p.pin_id.0, p.label.as_str(), p.parent_node)).collect();
    assert_eq!(
        input_pins,
        vec![(40, "Color", NodeId(7)), (41, "Factor", NodeId(7)), (42, "Mask", NodeId(7))]
    );
    let output_pins: Vec<(u32, &str, NodeId)> =
        node.outputs.iter().map(|p| (p.pin_id.0, p.label.as_str(), p.parent_node)).collect();
    assert_eq!(output_pins, vec![(43, "Result", NodeId(7)), (44, "Alpha", NodeId(7))]);
}

#[test]
fn a_node_without_labels_has_no_pins_and_uses_no_ids() {
    let (node, next) =
        NodeFactory::create_node(NodeId(1), Vec2::zero(), String::new(), &vec![], &vec![], u32::MAX);
    assert_eq!(next, u32::MAX);
    assert!(node.inputs.is_empty());
    assert!(node.outputs.is_empty());
    assert_eq!(node.title, "");
}
