//! Node creation: the one place where nodes and their pins are made, and
//! where fresh ids come from.
//!
//! Ids are not counted up in a field of their own. The next id is one more
//! than the largest id in the graph, so it follows from the graph alone.

use vstd::prelude::*;
use vstd::string::StringExecFns;
use crate::geometry::Vec2;
use crate::model::{
    has_id_at, has_node, InputPin, NodeGraph, NodeId, NodeInstance, NodeLayout, OutputPin, PinId,
    PinOffsets,
};
use crate::pin_manager::{input_is, output_is, owner_at, owns_pin, pin_exists};
use crate::text::{decimal, spec_decimal, spec_two_places, two_places};

verus! {

/// The operations that a math node can stand for.
#[derive(Debug, Clone, Copy, PartialEq, Eq, Structural)]
pub enum MathOperation {
    Add,
    Subtract,
    Multiply,
    Divide,
}

/// The larger of two integers.
pub open spec fn spec_larger(a: int, b: int) -> int {
    if a >= b {
        a
    } else {
        b
    }
}

/// The largest id among the first `n` nodes, and zero where `n` is zero.
pub open spec fn spec_max_node_id(nodes: Seq<NodeInstance>, n: int) -> int
    decreases n,
{
    if n <= 0 {
        0
    } else {
        spec_larger(spec_max_node_id(nodes, n - 1), nodes[n - 1].node_id.0 as int)
    }
}

/// The largest id among the first `n` inputs of `node`, and zero where `n`
/// is zero.
pub open spec fn spec_max_input_id(node: NodeInstance, n: int) -> int
    decreases n,
{
    if n <= 0 {
        0
    } else {
        spec_larger(spec_max_input_id(node, n - 1), node.inputs@[n - 1].pin_id.0 as int)
    }
}

/// The largest id among the first `n` outputs of `node`, and zero where `n`
/// is zero.
pub open spec fn spec_max_output_id(node: NodeInstance, n: int) -> int
    decreases n,
{
    if n <= 0 {
        0
    } else {
        spec_larger(spec_max_output_id(node, n - 1), node.outputs@[n - 1].pin_id.0 as int)
    }
}

/// The largest pin id of `node`, and zero where it has no pins.
pub open spec fn spec_node_max_pin_id(node: NodeInstance) -> int {
    spec_larger(
        spec_max_input_id(node, node.inputs@.len() as int),
        spec_max_output_id(node, node.outputs@.len() as int),
    )
}

/// The largest pin id among the first `n` nodes, and zero where they have
/// no pins.
pub open spec fn spec_max_pin_id(nodes: Seq<NodeInstance>, n: int) -> int
    decreases n,
{
    if n <= 0 {
        0
    } else {
        spec_larger(spec_max_pin_id(nodes, n - 1), spec_node_max_pin_id(nodes[n - 1]))
    }
}

/// One more than `largest`, or `u32::MAX` where that does not fit.
pub open spec fn spec_next_after(largest: int) -> int {
    if largest < u32::MAX {
        largest + 1
    } else {
        u32::MAX as int
    }
}

/// The word in the title of a math node.
pub open spec fn spec_operation_title(operation: MathOperation) -> Seq<char> {
    match operation {
        MathOperation::Add => "Add"@,
        MathOperation::Subtract => "Subtract"@,
        MathOperation::Multiply => "Multiply"@,
        MathOperation::Divide => "Divide"@,
    }
}

/// The label of the output of a math node.
pub open spec fn spec_operation_label(operation: MathOperation) -> Seq<char> {
    match operation {
        MathOperation::Add => "Add"@,
        MathOperation::Subtract => "Sub"@,
        MathOperation::Multiply => "Mul"@,
        MathOperation::Divide => "Div"@,
    }
}

/// What every node from the factory has in common: its id and position,
/// the standard size and header, and no pin offsets yet.
pub open spec fn has_standard_frame(node: NodeInstance, node_id: NodeId, position: Vec2) -> bool {
    &&& node.node_id == node_id
    &&& node.position == position
    &&& node.size == (Vec2 {
        x: NodeLayout::spec_default().width,
        y: NodeLayout::spec_default().min_height,
    })
    &&& node.header_height == NodeLayout::spec_default().header_height
    &&& node.pin_offsets.inputs@.len() == 0
    &&& node.pin_offsets.outputs@.len() == 0
}

/// A node from the factory whose title is made of `word`, a blank and the
/// id in decimal.
pub open spec fn is_fresh_node(
    node: NodeInstance,
    node_id: NodeId,
    position: Vec2,
    word: Seq<char>,
) -> bool {
    &&& has_standard_frame(node, node_id, position)
    &&& node.title@ == word + seq![' '] + spec_decimal(node_id.0 as nat)
}

/// Whether the pins of `node` carry the labels `input_labels` and
/// `output_labels`, in that order, and are numbered from `first` on: the
/// inputs first, then the outputs.
pub open spec fn has_labelled_pins(
    node: NodeInstance,
    first: int,
    input_labels: Seq<String>,
    output_labels: Seq<String>,
) -> bool {
    &&& node.inputs@.len() == input_labels.len()
    &&& forall|i: int|
        0 <= i < input_labels.len() ==> is_input(
            #[trigger] node.inputs@[i],
            first + i,
            input_labels[i]@,
            node.node_id,
        )
    &&& node.outputs@.len() == output_labels.len()
    &&& forall|j: int|
        0 <= j < output_labels.len() ==> is_output(
            #[trigger] node.outputs@[j],
            first + input_labels.len() + j,
            output_labels[j]@,
            node.node_id,
        )
}

/// Whether `pin` is the input `pin_id` of `node_id` with the label `label`.
pub open spec fn is_input(pin: InputPin, pin_id: int, label: Seq<char>, node_id: NodeId) -> bool {
    &&& pin.pin_id.0 == pin_id
    &&& pin.label@ == label
    &&& pin.parent_node == node_id
}

/// Whether `pin` is the output `pin_id` of `node_id` with the label `label`.
pub open spec fn is_output(pin: OutputPin, pin_id: int, label: Seq<char>, node_id: NodeId) -> bool {
    &&& pin.pin_id.0 == pin_id
    &&& pin.label@ == label
    &&& pin.parent_node == node_id
}

/// Whether `node` has the inputs "A" and "B" with the ids `first` and
/// `first + 1`, and one output, labelled `label`, with the id `first + 2`.
pub open spec fn has_two_inputs_one_output(
    node: NodeInstance,
    first: int,
    label: Seq<char>,
) -> bool {
    &&& node.inputs@.len() == 2
    &&& is_input(node.inputs@[0], first, "A"@, node.node_id)
    &&& is_input(node.inputs@[1], first + 1, "B"@, node.node_id)
    &&& node.outputs@.len() == 1
    &&& is_output(node.outputs@[0], first + 2, label, node.node_id)
}

/// Makes nodes and allocates ids.
pub struct NodeFactory;

/// A title: `word`, a blank, and `id` in decimal.
fn make_title(word: &str, id: u32) -> (r: String)
    ensures
        r@ == word@ + seq![' '] + spec_decimal(id as nat),
{
    let mut title: String = String::from_str(word);
    proof {
        reveal_strlit(" ");
    }
    title.append(" ");
    let number: String = decimal(id as u64);
    title.append(number.as_str());
    assert(title@ =~= word@ + seq![' '] + spec_decimal(id as nat));
    title
}

impl NodeFactory {
    /// Makes a node with the given title and one pin for each label. The
    /// pins are numbered from `next_pin_id` on, the inputs first; the first
    /// id that is still free is handed back.
    pub fn create_node(
        node_id: NodeId,
        position: Vec2,
        title: String,
        input_labels: &Vec<String>,
        output_labels: &Vec<String>,
        next_pin_id: u32,
    ) -> (r: (NodeInstance, u32))
        requires
            next_pin_id + input_labels@.len() + output_labels@.len() <= u32::MAX,
        ensures
            has_standard_frame(r.0, node_id, position),
            r.0.title == title,
            has_labelled_pins(r.0, next_pin_id as int, input_labels@, output_labels@),
            r.1 == next_pin_id + input_labels@.len() + output_labels@.len(),
    {
        let mut inputs: Vec<InputPin> = Vec::new();
        let mut i: usize = 0;
        while i < input_labels.len()
            invariant
                i <= input_labels@.len(),
                next_pin_id + input_labels@.len() + output_labels@.len() <= u32::MAX,
                inputs@.len() == i,
                forall|k: int|
                    0 <= k < i ==> is_input(
                        #[trigger] inputs@[k],
                        next_pin_id + k,
                        input_labels@[k]@,
                        node_id,
                    ),
            decreases input_labels@.len() - i,
        {
            inputs.push(
                InputPin {
                    pin_id: PinId(next_pin_id + i as u32),
                    label: input_labels[i].clone(),
                    parent_node: node_id,
                },
            );
            i += 1;
        }
        let first_output: u32 = next_pin_id + input_labels.len() as u32;
        let mut outputs: Vec<OutputPin> = Vec::new();
        let mut j: usize = 0;
        while j < output_labels.len()
            invariant
                j <= output_labels@.len(),
                first_output == next_pin_id + input_labels@.len(),
                first_output + output_labels@.len() <= u32::MAX,
                outputs@.len() == j,
                forall|k: int|
                    0 <= k < j ==> is_output(
                        #[trigger] outputs@[k],
                        first_output + k,
                        output_labels@[k]@,
                        node_id,
                    ),
            decreases output_labels@.len() - j,
        {
            outputs.push(
                OutputPin {
                    pin_id: PinId(first_output + j as u32),
                    label: output_labels[j].clone(),
                    parent_node: node_id,
                },
            );
            j += 1;
        }
        let layout = NodeLayout::default();
        let node = NodeInstance {
            node_id,
            position,
            inputs,
            outputs,
            title,
            size: Vec2::new(layout.width, layout.min_height),
            header_height: layout.header_height,
            pin_offsets: PinOffsets::new(),
        };
        (node, first_output + output_labels.len() as u32)
    }

    /// Makes a test node: inputs "A" and "B", output "Out", titled
    /// "TestNode" and its id. The pins get the ids `next_pin_id` and the two
    /// after it; the first id that is still free is handed back.
    pub fn create_test_node(node_id: NodeId, position: Vec2, next_pin_id: u32) -> (r: (
        NodeInstance,
        u32,
    ))
        requires
            next_pin_id <= u32::MAX - 3,
        ensures
            is_fresh_node(r.0, node_id, position, "TestNode"@),
            has_two_inputs_one_output(r.0, next_pin_id as int, "Out"@),
            r.1 == next_pin_id + 3,
    {
        (make_binary_node(node_id, position, "TestNode", "Out", next_pin_id), next_pin_id + 3)
    }

    /// Makes a math node: inputs "A" and "B", and an output labelled with
    /// the short name of `operation`, titled with its full name and the
    /// node's id.
    pub fn create_math_node(
        node_id: NodeId,
        position: Vec2,
        operation: MathOperation,
        next_pin_id: u32,
    ) -> (r: (NodeInstance, u32))
        requires
            next_pin_id <= u32::MAX - 3,
        ensures
            is_fresh_node(r.0, node_id, position, spec_operation_title(operation)),
            has_two_inputs_one_output(r.0, next_pin_id as int, spec_operation_label(operation)),
            r.1 == next_pin_id + 3,
    {
        let node: NodeInstance = match operation {
            MathOperation::Add => make_binary_node(node_id, position, "Add", "Add", next_pin_id),
            MathOperation::Subtract => make_binary_node(
                node_id,
                position,
                "Subtract",
                "Sub",
                next_pin_id,
            ),
            MathOperation::Multiply => make_binary_node(
                node_id,
                position,
                "Multiply",
                "Mul",
                next_pin_id,
            ),
            MathOperation::Divide => make_binary_node(
                node_id,
                position,
                "Divide",
                "Div",
                next_pin_id,
            ),
        };
        (node, next_pin_id + 3)
    }

    /// Makes a constant node: no inputs, and one output whose label is the
    /// fixed-point number `value` with two places after the point.
    pub fn create_constant_node(
        node_id: NodeId,
        position: Vec2,
        value: i64,
        next_pin_id: u32,
    ) -> (r: (NodeInstance, u32))
        requires
            next_pin_id < u32::MAX,
        ensures
            is_fresh_node(r.0, node_id, position, "Const"@),
            r.0.inputs@.len() == 0,
            r.0.outputs@.len() == 1,
            is_output(r.0.outputs@[0], next_pin_id as int, spec_two_places(value as int), node_id),
            r.1 == next_pin_id + 1,
    {
        let input_labels: Vec<String> = Vec::new();
        let mut output_labels: Vec<String> = Vec::new();
        output_labels.push(two_places(value));
        NodeFactory::create_node(
            node_id,
            position,
            make_title("Const", node_id.0),
            &input_labels,
            &output_labels,
            next_pin_id,
        )
    }

    /// The next node id: one more than the largest in the graph, and one
    /// for an empty graph. It stops at `u32::MAX`.
    pub fn get_next_node_id(node_graph: &NodeGraph) -> (r: NodeId)
        ensures
            r.0 == spec_next_after(
                spec_max_node_id(node_graph.nodes@, node_graph.nodes@.len() as int),
            ),
    {
        let nodes: &Vec<NodeInstance> = node_graph.nodes.entries();
        let mut largest: u32 = 0;
        let mut i: usize = 0;
        while i < nodes.len()
            invariant
                i <= nodes@.len(),
                largest == spec_max_node_id(nodes@, i as int),
            decreases nodes@.len() - i,
        {
            if nodes[i].node_id.0 > largest {
                largest = nodes[i].node_id.0;
            }
            i += 1;
        }
        NodeId(next_after(largest))
    }

    /// The next pin id: one more than the largest pin id in the graph, over
    /// the inputs and outputs of all nodes, and one for a graph without
    /// pins. It stops at `u32::MAX`.
    pub fn get_next_pin_id(node_graph: &NodeGraph) -> (r: u32)
        ensures
            r == spec_next_after(
                spec_max_pin_id(node_graph.nodes@, node_graph.nodes@.len() as int),
            ),
    {
        let nodes: &Vec<NodeInstance> = node_graph.nodes.entries();
        let mut largest: u32 = 0;
        let mut i: usize = 0;
        while i < nodes.len()
            invariant
                i <= nodes@.len(),
                largest == spec_max_pin_id(nodes@, i as int),
            decreases nodes@.len() - i,
        {
            let in_node: u32 = node_max_pin_id(&nodes[i]);
            if in_node > largest {
                largest = in_node;
            }
            i += 1;
        }
        next_after(largest)
    }
}

/// A node with two inputs "A" and "B" and one output.
fn make_binary_node(
    node_id: NodeId,
    position: Vec2,
    word: &str,
    label: &str,
    next_pin_id: u32,
) -> (r: NodeInstance)
    requires
        next_pin_id <= u32::MAX - 3,
    ensures
        is_fresh_node(r, node_id, position, word@),
        has_two_inputs_one_output(r, next_pin_id as int, label@),
{
    let mut input_labels: Vec<String> = Vec::new();
    input_labels.push(String::from_str("A"));
    input_labels.push(String::from_str("B"));
    let mut output_labels: Vec<String> = Vec::new();
    output_labels.push(String::from_str(label));
    let made = NodeFactory::create_node(
        node_id,
        position,
        make_title(word, node_id.0),
        &input_labels,
        &output_labels,
        next_pin_id,
    );
    made.0
}

/// One more than `largest`, stopping at `u32::MAX`.
fn next_after(largest: u32) -> (r: u32)
    ensures
        r == spec_next_after(largest as int),
{
    if largest < u32::MAX {
        largest + 1
    } else {
        u32::MAX
    }
}

/// The largest pin id of `node`.
fn node_max_pin_id(node: &NodeInstance) -> (r: u32)
    ensures
        r == spec_node_max_pin_id(*node),
{
    let mut largest_in: u32 = 0;
    let mut j: usize = 0;
    while j < node.inputs.len()
        invariant
            j <= node.inputs@.len(),
            largest_in == spec_max_input_id(*node, j as int),
        decreases node.inputs@.len() - j,
    {
        if node.inputs[j].pin_id.0 > largest_in {
            largest_in = node.inputs[j].pin_id.0;
        }
        j += 1;
    }
    let mut largest_out: u32 = 0;
    let mut k: usize = 0;
    while k < node.outputs.len()
        invariant
            k <= node.outputs@.len(),
            largest_out == spec_max_output_id(*node, k as int),
        decreases node.outputs@.len() - k,
    {
        if node.outputs[k].pin_id.0 > largest_out {
            largest_out = node.outputs[k].pin_id.0;
        }
        k += 1;
    }
    if largest_in >= largest_out {
        largest_in
    } else {
        largest_out
    }
}

/// The largest node id is at least every id among the first `n` nodes, and
/// it is one of them unless it is zero.
pub proof fn lemma_max_node_id(nodes: Seq<NodeInstance>, n: int)
    requires
        0 <= n <= nodes.len(),
    ensures
        0 <= spec_max_node_id(nodes, n) <= u32::MAX,
        forall|i: int| 0 <= i < n ==> (#[trigger] nodes[i]).node_id.0 <= spec_max_node_id(nodes, n),
        spec_max_node_id(nodes, n) == 0 || exists|i: int|
            0 <= i < n && (#[trigger] nodes[i]).node_id.0 == spec_max_node_id(nodes, n),
    decreases n,
{
    if n > 0 {
        lemma_max_node_id(nodes, n - 1);
        let before: int = spec_max_node_id(nodes, n - 1);
        if before != 0 && spec_max_node_id(nodes, n) == before {
            let i: int = choose|i: int| 0 <= i < n - 1 && (#[trigger] nodes[i]).node_id.0 == before;
            assert(nodes[i].node_id.0 == spec_max_node_id(nodes, n));
        } else if spec_max_node_id(nodes, n) != 0 {
            assert(nodes[n - 1].node_id.0 == spec_max_node_id(nodes, n));
        }
    }
}

/// The id that `get_next_node_id` hands out is not in the graph, unless
/// the ids have run out.
pub proof fn lemma_next_node_id_is_fresh(nodes: Seq<NodeInstance>)
    requires
        spec_max_node_id(nodes, nodes.len() as int) < u32::MAX,
    ensures
        !has_node(
            nodes,
            NodeId(spec_next_after(spec_max_node_id(nodes, nodes.len() as int)) as u32),
        ),
{
    lemma_max_node_id(nodes, nodes.len() as int);
    let next = NodeId(spec_next_after(spec_max_node_id(nodes, nodes.len() as int)) as u32);
    assert forall|i: int| 0 <= i < nodes.len() implies !#[trigger] has_id_at(nodes, next)(i) by {
        assert(nodes[i].node_id.0 <= spec_max_node_id(nodes, nodes.len() as int));
    }
}

/// The largest input id of a node is at least the id of each of its first
/// `n` inputs.
pub proof fn lemma_max_input_id(node: NodeInstance, n: int)
    requires
        0 <= n <= node.inputs@.len(),
    ensures
        0 <= spec_max_input_id(node, n) <= u32::MAX,
        forall|j: int|
            0 <= j < n ==> (#[trigger] node.inputs@[j]).pin_id.0 <= spec_max_input_id(node, n),
    decreases n,
{
    if n > 0 {
        lemma_max_input_id(node, n - 1);
    }
}

/// The largest output id of a node is at least the id of each of its first
/// `n` outputs.
pub proof fn lemma_max_output_id(node: NodeInstance, n: int)
    requires
        0 <= n <= node.outputs@.len(),
    ensures
        0 <= spec_max_output_id(node, n) <= u32::MAX,
        forall|j: int|
            0 <= j < n ==> (#[trigger] node.outputs@[j]).pin_id.0 <= spec_max_output_id(node, n),
    decreases n,
{
    if n > 0 {
        lemma_max_output_id(node, n - 1);
    }
}

/// The largest pin id is at least the largest pin id of each of the first
/// `n` nodes.
pub proof fn lemma_max_pin_id(nodes: Seq<NodeInstance>, n: int)
    requires
        0 <= n <= nodes.len(),
    ensures
        0 <= spec_max_pin_id(nodes, n) <= u32::MAX,
        forall|i: int|
            0 <= i < n ==> spec_node_max_pin_id(#[trigger] nodes[i]) <= spec_max_pin_id(nodes, n),
    decreases n,
{
    if n > 0 {
        lemma_max_pin_id(nodes, n - 1);
        let node = nodes[n - 1];
        lemma_max_input_id(node, node.inputs@.len() as int);
        lemma_max_output_id(node, node.outputs@.len() as int);
    }
}

/// No node owns the pin id that `get_next_pin_id` hands out, unless the ids
/// have run out.
pub proof fn lemma_next_pin_id_is_fresh(nodes: Seq<NodeInstance>)
    requires
        spec_max_pin_id(nodes, nodes.len() as int) < u32::MAX,
    ensures
        !pin_exists(
            nodes,
            PinId(spec_next_after(spec_max_pin_id(nodes, nodes.len() as int)) as u32),
        ),
{
    let largest: int = spec_max_pin_id(nodes, nodes.len() as int);
    lemma_max_pin_id(nodes, nodes.len() as int);
    let next = PinId(spec_next_after(largest) as u32);
    assert forall|i: int| 0 <= i < nodes.len() implies !#[trigger] owner_at(nodes, next)(i) by {
        let node = nodes[i];
        assert(spec_node_max_pin_id(node) <= largest);
        lemma_max_input_id(node, node.inputs@.len() as int);
        lemma_max_output_id(node, node.outputs@.len() as int);
        assert forall|j: int| 0 <= j < node.inputs@.len() implies !#[trigger] input_is(node, next)(
            j,
        ) by {
            assert(node.inputs@[j].pin_id.0 <= spec_max_input_id(node, node.inputs@.len() as int));
        }
        assert forall|j: int| 0 <= j < node.outputs@.len() implies !#[trigger] output_is(
            node,
            next,
        )(j) by {
            assert(node.outputs@[j].pin_id.0 <= spec_max_output_id(
                node,
                node.outputs@.len() as int,
            ));
        }
        assert(!owns_pin(node, next));
    }
}

} // verus!
