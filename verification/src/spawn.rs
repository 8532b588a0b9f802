//! Spawning nodes on request. The host says which kinds of node the user
//! asked for in this frame; each one gets fresh ids and a place on the
//! canvas that depends on its id, so that new nodes do not pile up.

use vstd::prelude::*;
use crate::fixed::{fx_add, fx_times_count, spec_add, spec_times_count, UNIT};
use crate::geometry::Vec2;
use crate::model::{
    has_id_at, spec_with_node, unique_node_ids, NodeGraph, NodeId, NodeInstance, PinId,
};
use crate::node_factory::{
    has_two_inputs_one_output, is_fresh_node, is_output, lemma_max_input_id,
    lemma_max_output_id, lemma_max_pin_id, lemma_next_node_id_is_fresh, spec_max_node_id,
    spec_max_pin_id, spec_next_after, spec_node_max_pin_id, spec_operation_label,
    spec_operation_title, MathOperation, NodeFactory,
};
use crate::pin_manager::{has_input, input_is, output_is, owns_pin, pins_are_unique};
use crate::text::spec_two_places;

verus! {

/// The kinds of node that can be spawned.
#[derive(Debug, Clone, Copy, PartialEq, Eq, Structural)]
pub enum SpawnKind {
    /// A test node.
    Test,
    /// A math node for the given operation.
    Math(MathOperation),
    /// A constant node for the given fixed-point value.
    Constant(i64),
}

/// Which spawn keys went down in this frame.
#[derive(Debug, Clone, Copy, PartialEq, Eq, Structural)]
pub struct SpawnKeys {
    /// The key for a test node.
    pub test_node: bool,
    /// The key for a math node, which adds.
    pub math_node: bool,
    /// The key for a constant node, which holds 3.14.
    pub constant_node: bool,
}

/// The value of the constant node that the spawn key makes: 3.14.
pub const SPAWNED_CONSTANT: i64 = 3_140_000;

/// How many pins a node of kind `kind` has.
pub open spec fn spec_pin_count(kind: SpawnKind) -> int {
    match kind {
        SpawnKind::Constant(_) => 1,
        _ => 3,
    }
}

/// Where the spawn rows of a kind begin: test nodes at the origin, math
/// nodes at (200, 100), constant nodes at (400, 200).
pub open spec fn spec_spawn_base(kind: SpawnKind) -> Vec2 {
    match kind {
        SpawnKind::Test => Vec2 { x: 0, y: 0 },
        SpawnKind::Math(_) => Vec2 { x: 200_000_000, y: 100_000_000 },
        SpawnKind::Constant(_) => Vec2 { x: 400_000_000, y: 200_000_000 },
    }
}

/// Where the node with id `id` of kind `kind` is spawned: 40 to the right
/// and 20 down for each unit of the id, from the base of its kind.
pub open spec fn spec_spawn_position(kind: SpawnKind, id: NodeId) -> Vec2 {
    let base = spec_spawn_base(kind);
    Vec2 {
        x: spec_add(spec_times_count(40_000_000, id.0 as int), base.x as int) as i64,
        y: spec_add(spec_times_count(20_000_000, id.0 as int), base.y as int) as i64,
    }
}

/// The id that the next node of `nodes` gets.
pub open spec fn spec_next_node_id(nodes: Seq<NodeInstance>) -> NodeId {
    NodeId(spec_next_after(spec_max_node_id(nodes, nodes.len() as int)) as u32)
}

/// The id that the next pin of `nodes` gets.
pub open spec fn spec_next_pin_id(nodes: Seq<NodeInstance>) -> int {
    spec_next_after(spec_max_pin_id(nodes, nodes.len() as int))
}

/// Whether there are pin ids left for a node of kind `kind`.
pub open spec fn spec_can_spawn(nodes: Seq<NodeInstance>, kind: SpawnKind) -> bool {
    spec_next_pin_id(nodes) + spec_pin_count(kind) <= u32::MAX
}

/// Whether `node` is what spawning `kind` into `nodes` makes: the next node
/// id, the spawn position of that id, and pins of that kind with the next
/// pin ids.
pub open spec fn is_spawned_node(
    nodes: Seq<NodeInstance>,
    kind: SpawnKind,
    node: NodeInstance,
) -> bool {
    let id = spec_next_node_id(nodes);
    let position = spec_spawn_position(kind, id);
    let first_pin = spec_next_pin_id(nodes);
    match kind {
        SpawnKind::Test => {
            &&& is_fresh_node(node, id, position, "TestNode"@)
            &&& has_two_inputs_one_output(node, first_pin, "Out"@)
        },
        SpawnKind::Math(operation) => {
            &&& is_fresh_node(node, id, position, spec_operation_title(operation))
            &&& has_two_inputs_one_output(node, first_pin, spec_operation_label(operation))
        },
        SpawnKind::Constant(value) => {
            &&& is_fresh_node(node, id, position, "Const"@)
            &&& node.inputs@.len() == 0
            &&& node.outputs@.len() == 1
            &&& is_output(node.outputs@[0], first_pin, spec_two_places(value as int), id)
        },
    }
}

/// Whether `after` is `before` with one node of kind `kind` spawned into
/// it, or `before` itself where the pin ids have run out.
pub open spec fn spawned_into(
    before: Seq<NodeInstance>,
    kind: SpawnKind,
    after: Seq<NodeInstance>,
) -> bool {
    if spec_can_spawn(before, kind) {
        exists|node: NodeInstance|
            #[trigger] is_spawned_node(before, kind, node) && after == spec_with_node(before, node)
    } else {
        after == before
    }
}

/// Whether `after` is what a spawn key for `kind` makes of `before`: a
/// spawn where the key went down, and nothing otherwise.
pub open spec fn key_spawned_into(
    pressed: bool,
    before: Seq<NodeInstance>,
    kind: SpawnKind,
    after: Seq<NodeInstance>,
) -> bool {
    if pressed {
        spawned_into(before, kind, after)
    } else {
        after == before
    }
}

/// Where the node with id `id` of kind `kind` is spawned.
pub fn spawn_position(kind: SpawnKind, id: NodeId) -> (r: Vec2)
    ensures
        r == spec_spawn_position(kind, id),
{
    let base: Vec2 = match kind {
        SpawnKind::Test => Vec2::zero(),
        SpawnKind::Math(_) => Vec2::new(200 * UNIT, 100 * UNIT),
        SpawnKind::Constant(_) => Vec2::new(400 * UNIT, 200 * UNIT),
    };
    Vec2::new(
        fx_add(fx_times_count(40 * UNIT, id.0 as usize), base.x),
        fx_add(fx_times_count(20 * UNIT, id.0 as usize), base.y),
    )
}

/// Spawns one node of kind `kind` with the next free ids. Nothing is
/// spawned where the pin ids have run out. Says whether a node was
/// spawned.
pub fn spawn_node(node_graph: &mut NodeGraph, kind: SpawnKind) -> (spawned: bool)
    ensures
        spawned == spec_can_spawn(old(node_graph).nodes@, kind),
        spawned_into(old(node_graph).nodes@, kind, final(node_graph).nodes@),
        final(node_graph).connections == old(node_graph).connections,
        final(node_graph).canvas_state == old(node_graph).canvas_state,
{
    let node_id: NodeId = NodeFactory::get_next_node_id(node_graph);
    let next_pin_id: u32 = NodeFactory::get_next_pin_id(node_graph);
    let position: Vec2 = spawn_position(kind, node_id);
    let made: Option<NodeInstance> = match kind {
        SpawnKind::Test => if next_pin_id <= u32::MAX - 3 {
            Some(NodeFactory::create_test_node(node_id, position, next_pin_id).0)
        } else {
            None
        },
        SpawnKind::Math(operation) => if next_pin_id <= u32::MAX - 3 {
            Some(NodeFactory::create_math_node(node_id, position, operation, next_pin_id).0)
        } else {
            None
        },
        SpawnKind::Constant(value) => if next_pin_id < u32::MAX {
            Some(NodeFactory::create_constant_node(node_id, position, value, next_pin_id).0)
        } else {
            None
        },
    };
    match made {
        Some(node) => {
            assert(is_spawned_node(old(node_graph).nodes@, kind, node));
            node_graph.add_node(node);
            true
        },
        None => false,
    }
}

/// Spawns a node for every spawn key that went down: a test node, then a
/// math node that adds, then a constant node.
pub fn spawn_test_node_system(node_graph: &mut NodeGraph, keys: &SpawnKeys)
    ensures
        exists|first: Seq<NodeInstance>, second: Seq<NodeInstance>|
            {
                &&& #[trigger] key_spawned_into(
                    keys.test_node,
                    old(node_graph).nodes@,
                    SpawnKind::Test,
                    first,
                )
                &&& #[trigger] key_spawned_into(
                    keys.math_node,
                    first,
                    SpawnKind::Math(MathOperation::Add),
                    second,
                )
                &&& key_spawned_into(
                    keys.constant_node,
                    second,
                    SpawnKind::Constant(SPAWNED_CONSTANT),
                    final(node_graph).nodes@,
                )
            },
        final(node_graph).connections == old(node_graph).connections,
        final(node_graph).canvas_state == old(node_graph).canvas_state,
{
    if keys.test_node {
        let _ = spawn_node(node_graph, SpawnKind::Test);
    }
    let ghost first = node_graph.nodes@;
    if keys.math_node {
        let _ = spawn_node(node_graph, SpawnKind::Math(MathOperation::Add));
    }
    let ghost second = node_graph.nodes@;
    if keys.constant_node {
        let _ = spawn_node(node_graph, SpawnKind::Constant(SPAWNED_CONSTANT));
    }
    assert(key_spawned_into(keys.test_node, old(node_graph).nodes@, SpawnKind::Test, first));
    assert(key_spawned_into(keys.math_node, first, SpawnKind::Math(MathOperation::Add), second));
}

/// A pin that a node of the graph owns has an id up to the largest pin id
/// of the graph.
pub proof fn lemma_owned_pin_is_counted(nodes: Seq<NodeInstance>, place: int, pin: PinId)
    requires
        0 <= place < nodes.len(),
        owns_pin(nodes[place], pin),
    ensures
        pin.0 <= spec_max_pin_id(nodes, nodes.len() as int),
{
    let node = nodes[place];
    lemma_max_pin_id(nodes, nodes.len() as int);
    assert(spec_node_max_pin_id(node) <= spec_max_pin_id(nodes, nodes.len() as int));
    lemma_max_input_id(node, node.inputs@.len() as int);
    lemma_max_output_id(node, node.outputs@.len() as int);
    if has_input(node, pin) {
        let j: int = choose|j: int|
            0 <= j < node.inputs@.len() && #[trigger] input_is(node, pin)(j);
        assert(node.inputs@[j].pin_id == pin);
    } else {
        let j: int = choose|j: int|
            0 <= j < node.outputs@.len() && #[trigger] output_is(node, pin)(j);
        assert(node.outputs@[j].pin_id == pin);
    }
}

/// A pin of a spawned node has an id above the largest pin id that the
/// graph had.
proof fn lemma_spawned_pin_is_new(
    nodes: Seq<NodeInstance>,
    kind: SpawnKind,
    node: NodeInstance,
    pin: PinId,
)
    requires
        spec_can_spawn(nodes, kind),
        is_spawned_node(nodes, kind, node),
        owns_pin(node, pin),
    ensures
        pin.0 > spec_max_pin_id(nodes, nodes.len() as int),
{
    lemma_max_pin_id(nodes, nodes.len() as int);
    if has_input(node, pin) {
        let j: int = choose|j: int|
            0 <= j < node.inputs@.len() && #[trigger] input_is(node, pin)(j);
        assert(node.inputs@[j].pin_id == pin);
    } else {
        let j: int = choose|j: int|
            0 <= j < node.outputs@.len() && #[trigger] output_is(node, pin)(j);
        assert(node.outputs@[j].pin_id == pin);
    }
}

/// Spawning keeps ids apart: in a graph where no two nodes share an id and
/// no two nodes share a pin, the same holds after a spawn, as long as the
/// node ids have not run out.
pub proof fn lemma_spawning_keeps_ids_unique(
    before: Seq<NodeInstance>,
    kind: SpawnKind,
    after: Seq<NodeInstance>,
)
    requires
        unique_node_ids(before),
        pins_are_unique(before),
        spec_max_node_id(before, before.len() as int) < u32::MAX,
        spawned_into(before, kind, after),
    ensures
        unique_node_ids(after),
        pins_are_unique(after),
{
    if spec_can_spawn(before, kind) {
        let node: NodeInstance = choose|node: NodeInstance|
            #[trigger] is_spawned_node(before, kind, node) && after == spec_with_node(before, node);
        let id = spec_next_node_id(before);
        lemma_next_node_id_is_fresh(before);
        assert(node.node_id == id);
        assert(after == before.push(node));
        let last: int = before.len() as int;
        assert forall|i: int, j: int|
            0 <= i < after.len() && 0 <= j < after.len() && i != j implies (
        #[trigger] after[i]).node_id != (#[trigger] after[j]).node_id by {
            if i < last {
                assert(!has_id_at(before, id)(i));
            }
            if j < last {
                assert(!has_id_at(before, id)(j));
            }
        }
        assert forall|i: int, j: int, pin: PinId|
            0 <= i < after.len() && 0 <= j < after.len() && #[trigger] owns_pin(after[i], pin)
                && #[trigger] owns_pin(after[j], pin) implies i == j by {
            if i < last {
                lemma_owned_pin_is_counted(before, i, pin);
            } else {
                lemma_spawned_pin_is_new(before, kind, node, pin);
            }
            if j < last {
                lemma_owned_pin_is_counted(before, j, pin);
            } else {
                lemma_spawned_pin_is_new(before, kind, node, pin);
            }
            if i < last && j < last {
                assert(owns_pin(before[i], pin) && owns_pin(before[j], pin));
            }
        }
    }
}

} // verus!
