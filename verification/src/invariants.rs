//! What holds of a graph in every frame.
//!
//! The model is a plain container and checks nothing. That the graph stays
//! in good shape is owed to the operations that change it from frame to
//! frame: the camera update, the node drag, the pin interactions and the
//! spawning of nodes. A graph is sound when no two nodes share an id, no
//! two nodes share a pin, every connection runs from an output of one node
//! to an input of another, no input has more than one connection, and the
//! zoom lies in its range. An empty graph is sound, and each of the four
//! operations keeps a sound graph sound.
//!
//! Removing a node is not among them: it leaves the connections of the node
//! in place, and they dangle from then on.

use vstd::prelude::*;
use crate::canvas::{
    lemma_zoom_stays_in_range, spec_camera_after, CanvasInput, ZOOM_MAX, ZOOM_MIN,
};
use crate::interactions::{
    is_well_wired, lemma_drag_frame_keeps_wiring, lemma_pin_frame_keeps_wiring,
    spec_dragged_nodes, spec_pin_connections, PointerInput,
};
use crate::model::{
    spec_with_node, unique_node_ids, CanvasState, Connection, NodeInstance, PinId,
};
use crate::node_factory::{lemma_next_node_id_is_fresh, spec_max_node_id};
use crate::pin_manager::{
    lemma_same_pins_one_node, owner_at, owner_place, owns_pin, pin_exists, pins_are_unique,
    same_pins, spec_can_connect,
};
use crate::search::{lemma_first_exists, lemma_first_is_unique};
use crate::spawn::{
    is_spawned_node, lemma_spawning_keeps_ids_unique, spawned_into, spec_can_spawn,
    spec_next_node_id, SpawnKind,
};
use crate::ui_state::GraphUiState;

verus! {

/// Whether a graph with these nodes, connections and camera is sound.
pub open spec fn is_sound(
    nodes: Seq<NodeInstance>,
    connections: Seq<Connection>,
    camera: CanvasState,
) -> bool {
    &&& unique_node_ids(nodes)
    &&& pins_are_unique(nodes)
    &&& is_well_wired(nodes, connections)
    &&& ZOOM_MIN <= camera.zoom <= ZOOM_MAX
}

/// A new graph is sound.
pub proof fn lemma_new_graph_is_sound()
    ensures
        is_sound(
            Seq::<NodeInstance>::empty(),
            Seq::<Connection>::empty(),
            CanvasState::spec_default(),
        ),
{
}

/// In a sound graph every pin that a connection names is there.
pub proof fn lemma_no_connection_dangles(
    nodes: Seq<NodeInstance>,
    connections: Seq<Connection>,
    camera: CanvasState,
    k: int,
)
    requires
        is_sound(nodes, connections, camera),
        0 <= k < connections.len(),
    ensures
        pin_exists(nodes, connections[k].from_pin),
        pin_exists(nodes, connections[k].to_pin),
{
}

/// The camera update keeps a sound graph sound.
pub proof fn lemma_camera_update_keeps_sound(
    nodes: Seq<NodeInstance>,
    connections: Seq<Connection>,
    camera: CanvasState,
    input: CanvasInput,
)
    requires
        is_sound(nodes, connections, camera),
    ensures
        is_sound(nodes, connections, spec_camera_after(camera, input)),
{
    lemma_zoom_stays_in_range(camera.zoom, input.wheel@);
}

/// Nodes that keep their ids and pins keep them apart.
pub proof fn lemma_same_pins_stay_unique(nodes: Seq<NodeInstance>, others: Seq<NodeInstance>)
    requires
        same_pins(nodes, others),
        unique_node_ids(nodes),
        pins_are_unique(nodes),
    ensures
        unique_node_ids(others),
        pins_are_unique(others),
{
    assert forall|i: int, j: int|
        0 <= i < others.len() && 0 <= j < others.len() && i != j implies (
    #[trigger] others[i]).node_id != (#[trigger] others[j]).node_id by {
        assert(nodes[i].node_id == others[i].node_id);
        assert(nodes[j].node_id == others[j].node_id);
    }
    assert forall|i: int, j: int, pin: PinId|
        0 <= i < others.len() && 0 <= j < others.len() && #[trigger] owns_pin(others[i], pin)
            && #[trigger] owns_pin(others[j], pin) implies i == j by {
        lemma_same_pins_one_node(nodes[i], others[i], pin);
        lemma_same_pins_one_node(nodes[j], others[j], pin);
        assert(owns_pin(nodes[i], pin) && owns_pin(nodes[j], pin));
    }
}

/// One frame of the node drag keeps a sound graph sound.
pub proof fn lemma_drag_frame_keeps_sound(
    nodes: Seq<NodeInstance>,
    connections: Seq<Connection>,
    camera: CanvasState,
    ui: GraphUiState,
    input: PointerInput,
)
    requires
        is_sound(nodes, connections, camera),
    ensures
        is_sound(spec_dragged_nodes(nodes, camera, ui, input), connections, camera),
{
    lemma_drag_frame_keeps_wiring(nodes, connections, camera, ui, input);
    lemma_same_pins_stay_unique(nodes, spec_dragged_nodes(nodes, camera, ui, input));
}

/// One frame of the pin interactions keeps a sound graph sound.
pub proof fn lemma_pin_frame_keeps_sound(
    nodes: Seq<NodeInstance>,
    connections: Seq<Connection>,
    camera: CanvasState,
    ui: GraphUiState,
    input: PointerInput,
)
    requires
        is_sound(nodes, connections, camera),
    ensures
        is_sound(nodes, spec_pin_connections(nodes, connections, camera, ui, input), camera),
{
    lemma_pin_frame_keeps_wiring(nodes, connections, camera, ui, input);
}

/// A new node behind the others changes nothing for the pins that were
/// there: they resolve as before, and what could be connected still can.
pub proof fn lemma_new_node_keeps_connections(
    nodes: Seq<NodeInstance>,
    node: NodeInstance,
    from_pin: PinId,
    to_pin: PinId,
)
    requires
        spec_can_connect(nodes, from_pin, to_pin),
    ensures
        spec_can_connect(nodes.push(node), from_pin, to_pin),
{
    lemma_new_node_keeps_owner(nodes, node, from_pin);
    lemma_new_node_keeps_owner(nodes, node, to_pin);
}

proof fn lemma_new_node_keeps_owner(nodes: Seq<NodeInstance>, node: NodeInstance, pin: PinId)
    requires
        pin_exists(nodes, pin),
    ensures
        pin_exists(nodes.push(node), pin),
        owner_place(nodes.push(node), pin) == owner_place(nodes, pin),
        0 <= owner_place(nodes, pin) < nodes.len(),
        nodes.push(node)[owner_place(nodes, pin)] == nodes[owner_place(nodes, pin)],
{
    let more = nodes.push(node);
    lemma_first_exists(nodes.len() as int, owner_at(nodes, pin));
    let first: int = owner_place(nodes, pin);
    assert(more[first] == nodes[first]);
    assert(owner_at(more, pin)(first));
    assert forall|j: int| 0 <= j < first implies !#[trigger] owner_at(more, pin)(j) by {
        assert(more[j] == nodes[j]);
        assert(!owner_at(nodes, pin)(j));
    }
    lemma_first_is_unique(more.len() as int, owner_at(more, pin), first);
}

/// Spawning a node keeps a sound graph sound, as long as the node ids have
/// not run out.
pub proof fn lemma_spawning_keeps_sound(
    before: Seq<NodeInstance>,
    connections: Seq<Connection>,
    camera: CanvasState,
    kind: SpawnKind,
    after: Seq<NodeInstance>,
)
    requires
        is_sound(before, connections, camera),
        spec_max_node_id(before, before.len() as int) < u32::MAX,
        spawned_into(before, kind, after),
    ensures
        is_sound(after, connections, camera),
{
    lemma_spawning_keeps_ids_unique(before, kind, after);
    if spec_can_spawn(before, kind) {
        let node: NodeInstance = choose|node: NodeInstance|
            #[trigger] is_spawned_node(before, kind, node) && after == spec_with_node(before, node);
        lemma_next_node_id_is_fresh(before);
        assert(node.node_id == spec_next_node_id(before));
        assert(after == before.push(node));
        assert forall|k: int| 0 <= k < connections.len() implies spec_can_connect(
            after,
            (#[trigger] connections[k]).from_pin,
            connections[k].to_pin,
        ) by {
            lemma_new_node_keeps_connections(
                before,
                node,
                connections[k].from_pin,
                connections[k].to_pin,
            );
        }
    }
}

} // verus!
