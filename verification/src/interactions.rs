//! The interaction state machine: what a frame of pointer input does to the
//! graph and to the gestures in progress.
//!
//! There are three states. While nothing is in progress, a press on the
//! header of a node starts dragging it, and a press on an output pin starts
//! dragging a connection out of it. A dragged node follows the pointer
//! until the button is released. A dragged connection ends with the release
//! of the button: over an input pin that may take it, a connection is made;
//! anywhere else the gesture is dropped.
//!
//! The host snapshots the pointer once per frame and calls the two handlers
//! with it, the node drag first. Hit tests go by the standard layout.

use vstd::prelude::*;
use crate::canvas::{spec_canvas_to_screen, spec_screen_to_canvas};
use crate::geometry::{Rect, Vec2};
use crate::model::{
    differs_from, has_id_at, has_node, node_place, with_position, CanvasState, Connection,
    NodeGraph, NodeInstance, NodeLayout, PinId,
};
use crate::pin_manager::{
    has_input, input_is, input_offset, input_place, lemma_rules_go_by_pins_only, node_origin,
    output_is, output_offset, output_place, owner_at, owner_place, pin_exists, same_pins,
    spec_can_connect, spec_input_offset, spec_node_origin, spec_output_offset, spec_pin_position,
    PinPositionManager,
};
use crate::search::{first_index, holds_somewhere, lemma_first_exists, lemma_first_is_unique};
use crate::ui_state::{GraphUiState, PendingConnection};

verus! {

/// The pointer as the host saw it at the start of a frame.
#[derive(Debug, Clone, Copy, PartialEq, Eq, Structural)]
pub struct PointerInput {
    /// Where the pointer is, in screen space.
    pub position: Vec2,
    /// How far the pointer moved since the last frame, in screen space.
    pub delta: Vec2,
    /// Whether the primary button is held.
    pub primary_down: bool,
    /// Whether the primary button went down in this frame.
    pub primary_pressed: bool,
    /// Whether the primary button came up in this frame.
    pub primary_released: bool,
}

/// The header of `node` on the screen: from the drawn corner of the node,
/// as wide as a node and as high as a header. It does not scale with the
/// zoom.
pub open spec fn spec_header_rect(node: NodeInstance, camera: CanvasState) -> Rect {
    Rect::spec_from_min_size(
        spec_node_origin(node.position, camera),
        Vec2 {
            x: NodeLayout::spec_default().width,
            y: NodeLayout::spec_default().header_height,
        },
    )
}

/// The hit target of a pin whose centre is `offset` away from the drawn
/// corner of `node`: the square around the centre that reaches one pin
/// radius to each side.
pub open spec fn spec_pin_rect(node: NodeInstance, camera: CanvasState, offset: Vec2) -> Rect {
    Rect::spec_from_center_half(
        spec_node_origin(node.position, camera).spec_plus(offset),
        Vec2 {
            x: NodeLayout::spec_default().pin_radius,
            y: NodeLayout::spec_default().pin_radius,
        },
    )
}

/// The test "`p` is on the header of the node at place `i`".
pub open spec fn header_hit_at(nodes: Seq<NodeInstance>, camera: CanvasState, p: Vec2) -> spec_fn(
    int,
) -> bool {
    |i: int| spec_header_rect(nodes[i], camera).spec_contains(p)
}

/// The test "`p` is on input number `j` of `node`".
pub open spec fn input_hit_at(node: NodeInstance, camera: CanvasState, p: Vec2) -> spec_fn(
    int,
) -> bool {
    |j: int|
        {
            let offset = spec_input_offset(NodeLayout::spec_default(), j);
            spec_pin_rect(node, camera, offset).spec_contains(p)
        }
}

/// The test "`p` is on output number `j` of `node`".
pub open spec fn output_hit_at(node: NodeInstance, camera: CanvasState, p: Vec2) -> spec_fn(
    int,
) -> bool {
    |j: int|
        {
            let offset = spec_output_offset(NodeLayout::spec_default(), j);
            spec_pin_rect(node, camera, offset).spec_contains(p)
        }
}

/// Whether `p` is on an input of `node`.
pub open spec fn hits_input(node: NodeInstance, camera: CanvasState, p: Vec2) -> bool {
    holds_somewhere(node.inputs@.len() as int, input_hit_at(node, camera, p))
}

/// Whether `p` is on an output of `node`.
pub open spec fn hits_output(node: NodeInstance, camera: CanvasState, p: Vec2) -> bool {
    holds_somewhere(node.outputs@.len() as int, output_hit_at(node, camera, p))
}

/// The first input of `node` that `p` is on.
pub open spec fn spec_input_under(node: NodeInstance, camera: CanvasState, p: Vec2) -> PinId {
    node.inputs@[first_index(node.inputs@.len() as int, input_hit_at(node, camera, p))].pin_id
}

/// The first output of `node` that `p` is on.
pub open spec fn spec_output_under(node: NodeInstance, camera: CanvasState, p: Vec2) -> PinId {
    node.outputs@[first_index(node.outputs@.len() as int, output_hit_at(node, camera, p))].pin_id
}

/// The test "`p` is on an input of the node at place `i`".
pub open spec fn input_node_at(nodes: Seq<NodeInstance>, camera: CanvasState, p: Vec2) -> spec_fn(
    int,
) -> bool {
    |i: int| hits_input(nodes[i], camera, p)
}

/// The test "`p` is on a pin of the node at place `i`".
pub open spec fn pin_node_at(nodes: Seq<NodeInstance>, camera: CanvasState, p: Vec2) -> spec_fn(
    int,
) -> bool {
    |i: int| hits_input(nodes[i], camera, p) || hits_output(nodes[i], camera, p)
}

/// A pin under the pointer, with its side.
#[derive(Debug, Clone, Copy, PartialEq, Eq, Structural)]
pub enum PinHit {
    Input(PinId),
    Output(PinId),
}

/// The place of the first node whose header `p` is on.
pub open spec fn spec_header_under(
    nodes: Seq<NodeInstance>,
    camera: CanvasState,
    p: Vec2,
) -> Option<int> {
    if holds_somewhere(nodes.len() as int, header_hit_at(nodes, camera, p)) {
        Some(first_index(nodes.len() as int, header_hit_at(nodes, camera, p)))
    } else {
        None
    }
}

/// The input pin that a release at `p` lands on: the first hit input of the
/// first node that has one.
pub open spec fn spec_input_pin_under(
    nodes: Seq<NodeInstance>,
    camera: CanvasState,
    p: Vec2,
) -> Option<PinId> {
    if holds_somewhere(nodes.len() as int, input_node_at(nodes, camera, p)) {
        Some(
            spec_input_under(
                nodes[first_index(nodes.len() as int, input_node_at(nodes, camera, p))],
                camera,
                p,
            ),
        )
    } else {
        None
    }
}

/// The pin that a press at `p` lands on: a pin of the first node that has
/// one under `p`. Where `p` is on an output and on an input of that node,
/// it is the output.
pub open spec fn spec_pin_under(
    nodes: Seq<NodeInstance>,
    camera: CanvasState,
    p: Vec2,
) -> Option<PinHit> {
    if holds_somewhere(nodes.len() as int, pin_node_at(nodes, camera, p)) {
        let node = nodes[first_index(nodes.len() as int, pin_node_at(nodes, camera, p))];
        if hits_output(node, camera, p) {
            Some(PinHit::Output(spec_output_under(node, camera, p)))
        } else {
            Some(PinHit::Input(spec_input_under(node, camera, p)))
        }
    } else {
        None
    }
}

/// The header of `node` on the screen.
pub fn header_rect(node: &NodeInstance, canvas_state: &CanvasState) -> (r: Rect)
    ensures
        r == spec_header_rect(*node, *canvas_state),
{
    let layout = NodeLayout::default();
    Rect::from_min_size(
        node_origin(node.position, canvas_state),
        Vec2::new(layout.width, layout.header_height),
    )
}

/// The hit target of a pin of `node` at `offset` from its corner.
pub fn pin_rect(node: &NodeInstance, canvas_state: &CanvasState, offset: Vec2) -> (r: Rect)
    ensures
        r == spec_pin_rect(*node, *canvas_state, offset),
{
    let layout = NodeLayout::default();
    Rect::from_center_half(
        node_origin(node.position, canvas_state).plus(offset),
        Vec2::new(layout.pin_radius, layout.pin_radius),
    )
}

/// The place of the first input of `node` that `p` is on.
pub fn find_input_under(node: &NodeInstance, canvas_state: &CanvasState, p: Vec2) -> (r: Option<
    usize,
>)
    ensures
        match r {
            Some(j) => {
                &&& hits_input(*node, *canvas_state, p)
                &&& j < node.inputs@.len()
                &&& node.inputs@[j as int].pin_id == spec_input_under(*node, *canvas_state, p)
            },
            None => !hits_input(*node, *canvas_state, p),
        },
{
    let layout = NodeLayout::default();
    let mut j: usize = 0;
    while j < node.inputs.len()
        invariant
            j <= node.inputs@.len(),
            layout == NodeLayout::spec_default(),
            forall|k: int| 0 <= k < j ==> !#[trigger] input_hit_at(*node, *canvas_state, p)(k),
        decreases node.inputs@.len() - j,
    {
        if pin_rect(node, canvas_state, input_offset(&layout, j)).contains(p) {
            proof {
                lemma_first_is_unique(
                    node.inputs@.len() as int,
                    input_hit_at(*node, *canvas_state, p),
                    j as int,
                );
            }
            return Some(j);
        }
        j += 1;
    }
    None
}

/// The place of the first output of `node` that `p` is on.
pub fn find_output_under(node: &NodeInstance, canvas_state: &CanvasState, p: Vec2) -> (r: Option<
    usize,
>)
    ensures
        match r {
            Some(j) => {
                &&& hits_output(*node, *canvas_state, p)
                &&& j < node.outputs@.len()
                &&& node.outputs@[j as int].pin_id == spec_output_under(*node, *canvas_state, p)
            },
            None => !hits_output(*node, *canvas_state, p),
        },
{
    let layout = NodeLayout::default();
    let mut j: usize = 0;
    while j < node.outputs.len()
        invariant
            j <= node.outputs@.len(),
            layout == NodeLayout::spec_default(),
            forall|k: int| 0 <= k < j ==> !#[trigger] output_hit_at(*node, *canvas_state, p)(k),
        decreases node.outputs@.len() - j,
    {
        if pin_rect(node, canvas_state, output_offset(&layout, j)).contains(p) {
            proof {
                lemma_first_is_unique(
                    node.outputs@.len() as int,
                    output_hit_at(*node, *canvas_state, p),
                    j as int,
                );
            }
            return Some(j);
        }
        j += 1;
    }
    None
}

/// The place of the first node whose header `p` is on.
pub fn find_header_under(nodes: &Vec<NodeInstance>, canvas_state: &CanvasState, p: Vec2) -> (r:
    Option<usize>)
    ensures
        match r {
            Some(i) => i < nodes@.len() && spec_header_under(nodes@, *canvas_state, p) == Some(
                i as int,
            ),
            None => spec_header_under(nodes@, *canvas_state, p).is_none(),
        },
{
    let mut i: usize = 0;
    while i < nodes.len()
        invariant
            i <= nodes@.len(),
            forall|k: int| 0 <= k < i ==> !#[trigger] header_hit_at(nodes@, *canvas_state, p)(k),
        decreases nodes@.len() - i,
    {
        if header_rect(&nodes[i], canvas_state).contains(p) {
            proof {
                lemma_first_is_unique(
                    nodes@.len() as int,
                    header_hit_at(nodes@, *canvas_state, p),
                    i as int,
                );
            }
            return Some(i);
        }
        i += 1;
    }
    None
}

/// The input pin that a release at `p` lands on.
pub fn find_input_pin_under(nodes: &Vec<NodeInstance>, canvas_state: &CanvasState, p: Vec2) -> (r:
    Option<PinId>)
    ensures
        r == spec_input_pin_under(nodes@, *canvas_state, p),
{
    let mut i: usize = 0;
    while i < nodes.len()
        invariant
            i <= nodes@.len(),
            forall|k: int| 0 <= k < i ==> !#[trigger] input_node_at(nodes@, *canvas_state, p)(k),
        decreases nodes@.len() - i,
    {
        if let Some(j) = find_input_under(&nodes[i], canvas_state, p) {
            proof {
                lemma_first_is_unique(
                    nodes@.len() as int,
                    input_node_at(nodes@, *canvas_state, p),
                    i as int,
                );
            }
            return Some(nodes[i].inputs[j].pin_id);
        }
        i += 1;
    }
    None
}

/// The pin that a press at `p` lands on.
pub fn find_pin_under(nodes: &Vec<NodeInstance>, canvas_state: &CanvasState, p: Vec2) -> (r: Option<
    PinHit,
>)
    ensures
        r == spec_pin_under(nodes@, *canvas_state, p),
{
    let mut i: usize = 0;
    while i < nodes.len()
        invariant
            i <= nodes@.len(),
            forall|k: int| 0 <= k < i ==> !#[trigger] pin_node_at(nodes@, *canvas_state, p)(k),
        decreases nodes@.len() - i,
    {
        let on_input: Option<usize> = find_input_under(&nodes[i], canvas_state, p);
        let on_output: Option<usize> = find_output_under(&nodes[i], canvas_state, p);
        if on_input.is_some() || on_output.is_some() {
            proof {
                lemma_first_is_unique(
                    nodes@.len() as int,
                    pin_node_at(nodes@, *canvas_state, p),
                    i as int,
                );
            }
            match on_output {
                Some(j) => {
                    return Some(PinHit::Output(nodes[i].outputs[j].pin_id));
                },
                None => {},
            }
            match on_input {
                Some(j) => {
                    return Some(PinHit::Input(nodes[i].inputs[j].pin_id));
                },
                None => {},
            }
        }
        i += 1;
    }
    None
}

/// The test "connection number `k` ends at the pin `pin`".
pub open spec fn ends_at(connections: Seq<Connection>, pin: PinId) -> spec_fn(int) -> bool {
    |k: int| connections[k].to_pin == pin
}

/// Whether some connection ends at the input `pin`.
pub open spec fn input_taken(connections: Seq<Connection>, pin: PinId) -> bool {
    holds_somewhere(connections.len() as int, ends_at(connections, pin))
}

/// The first connection that ends at `pin`.
pub open spec fn spec_connection_into(connections: Seq<Connection>, pin: PinId) -> Connection {
    connections[first_index(connections.len() as int, ends_at(connections, pin))]
}

/// The connections after an attempt to link `from_pin` to `to_pin`: the
/// link is appended where the connection rules allow it and no connection
/// ends at `to_pin` yet. Anything else leaves the connections as they are.
pub open spec fn spec_linked(
    nodes: Seq<NodeInstance>,
    connections: Seq<Connection>,
    from_pin: PinId,
    to_pin: PinId,
) -> Seq<Connection> {
    if spec_can_connect(nodes, from_pin, to_pin) && !input_taken(connections, to_pin) {
        connections.push(Connection { from_pin, to_pin })
    } else {
        connections
    }
}

/// The connections after a click on the input `pin` with nothing pending:
/// the first connection that ends there goes, with every connection equal
/// to it.
pub open spec fn spec_unlinked(connections: Seq<Connection>, pin: PinId) -> Seq<Connection> {
    if input_taken(connections, pin) {
        connections.filter(differs_from(spec_connection_into(connections, pin)))
    } else {
        connections
    }
}

/// The nodes after one frame of the node drag: while a node is being
/// dragged and the button is held, and has not just come up, the node moves
/// by the pointer's motion divided by the zoom.
pub open spec fn spec_dragged_nodes(
    nodes: Seq<NodeInstance>,
    camera: CanvasState,
    ui: GraphUiState,
    input: PointerInput,
) -> Seq<NodeInstance> {
    match ui.active_drag_node {
        Some(id) => if !input.primary_released && input.primary_down && has_node(nodes, id) {
            let place = node_place(nodes, id);
            nodes.update(
                place,
                with_position(
                    nodes[place],
                    nodes[place].position.spec_plus(input.delta.spec_unscaled(camera.zoom)),
                ),
            )
        } else {
            nodes
        },
        None => nodes,
    }
}

/// The gesture state after one frame of the node drag: a drag ends when the
/// button comes up, which clears what was noted of it, and one starts when
/// the button goes down on a header while nothing is in progress.
pub open spec fn spec_dragged_ui(
    nodes: Seq<NodeInstance>,
    camera: CanvasState,
    ui: GraphUiState,
    input: PointerInput,
) -> GraphUiState {
    match ui.active_drag_node {
        Some(id) => if input.primary_released {
            GraphUiState {
                active_drag_node: None,
                drag_origin: Vec2::spec_zero(),
                drag_offset: Vec2::spec_zero(),
                ..ui
            }
        } else {
            ui
        },
        None => if input.primary_pressed && ui.pending_connection.is_none() {
            match spec_header_under(nodes, camera, input.position) {
                Some(place) => GraphUiState {
                    active_drag_node: Some(nodes[place].node_id),
                    drag_origin: nodes[place].position,
                    ..ui
                },
                None => ui,
            }
        } else {
            ui
        },
    }
}

/// The connections after the release part of a frame: where the button
/// came up while a connection was pending, over an input pin, the link is
/// attempted.
pub open spec fn spec_released_connections(
    nodes: Seq<NodeInstance>,
    connections: Seq<Connection>,
    camera: CanvasState,
    pending: Option<PendingConnection>,
    input: PointerInput,
) -> Seq<Connection> {
    match pending {
        Some(from) => if input.primary_released {
            match spec_input_pin_under(nodes, camera, input.position) {
                Some(to_pin) => spec_linked(nodes, connections, from.from_pin, to_pin),
                None => connections,
            }
        } else {
            connections
        },
        None => connections,
    }
}

/// The pending connection after the release part of a frame: the release
/// of the button ends it, whether or not a link was made.
pub open spec fn spec_released_pending(
    pending: Option<PendingConnection>,
    input: PointerInput,
) -> Option<PendingConnection> {
    if input.primary_released {
        None
    } else {
        pending
    }
}

/// Whether the press part of a frame applies: the button went down and no
/// node is being dragged.
pub open spec fn spec_press_applies(ui: GraphUiState, input: PointerInput) -> bool {
    input.primary_pressed && ui.active_drag_node.is_none()
}

/// The connections after a press at a pin or at empty space. On an input
/// pin, a pending connection is linked to it under the same rules as on
/// release, and with nothing pending the pin is disconnected.
pub open spec fn spec_pressed_connections(
    nodes: Seq<NodeInstance>,
    connections: Seq<Connection>,
    pending: Option<PendingConnection>,
    hit: Option<PinHit>,
) -> Seq<Connection> {
    match hit {
        Some(PinHit::Input(pin)) => match pending {
            Some(from) => spec_linked(nodes, connections, from.from_pin, pin),
            None => spec_unlinked(connections, pin),
        },
        _ => connections,
    }
}

/// The pending connection after a press: a press on an output pin starts
/// one there, and any other press leaves none.
pub open spec fn spec_pressed_pending(hit: Option<PinHit>, position: Vec2) -> Option<
    PendingConnection,
> {
    match hit {
        Some(PinHit::Output(pin)) => Some(
            PendingConnection { from_pin: pin, from_screen_pos: position },
        ),
        _ => None,
    }
}

/// The connections after one frame of the pin interactions: the release
/// part, then the press part.
pub open spec fn spec_pin_connections(
    nodes: Seq<NodeInstance>,
    connections: Seq<Connection>,
    camera: CanvasState,
    ui: GraphUiState,
    input: PointerInput,
) -> Seq<Connection> {
    let released = spec_released_connections(
        nodes,
        connections,
        camera,
        ui.pending_connection,
        input,
    );
    if spec_press_applies(ui, input) {
        spec_pressed_connections(
            nodes,
            released,
            spec_released_pending(ui.pending_connection, input),
            spec_pin_under(nodes, camera, input.position),
        )
    } else {
        released
    }
}

/// The pending connection after one frame of the pin interactions.
pub open spec fn spec_pin_pending(
    nodes: Seq<NodeInstance>,
    camera: CanvasState,
    ui: GraphUiState,
    input: PointerInput,
) -> Option<PendingConnection> {
    if spec_press_applies(ui, input) {
        spec_pressed_pending(spec_pin_under(nodes, camera, input.position), input.position)
    } else {
        spec_released_pending(ui.pending_connection, input)
    }
}

/// The first connection that ends at `pin`, if any does.
pub fn find_connection_into(connections: &Vec<Connection>, pin: PinId) -> (r: Option<Connection>)
    ensures
        match r {
            Some(c) => input_taken(connections@, pin) && c == spec_connection_into(
                connections@,
                pin,
            ),
            None => !input_taken(connections@, pin),
        },
{
    let mut k: usize = 0;
    while k < connections.len()
        invariant
            k <= connections@.len(),
            forall|m: int| 0 <= m < k ==> !#[trigger] ends_at(connections@, pin)(m),
        decreases connections@.len() - k,
    {
        if connections[k].to_pin == pin {
            proof {
                lemma_first_is_unique(
                    connections@.len() as int,
                    ends_at(connections@, pin),
                    k as int,
                );
            }
            return Some(connections[k]);
        }
        k += 1;
    }
    None
}

/// Links `from_pin` to `to_pin` where the connection rules allow it and the
/// input is free. Says whether the link was made.
pub fn try_connect(
    node_graph: &mut NodeGraph,
    pin_manager: &PinPositionManager,
    from_pin: PinId,
    to_pin: PinId,
) -> (made: bool)
    ensures
        final(node_graph).connections@ == spec_linked(
            old(node_graph).nodes@,
            old(node_graph).connections@,
            from_pin,
            to_pin,
        ),
        made == (spec_can_connect(old(node_graph).nodes@, from_pin, to_pin) && !input_taken(
            old(node_graph).connections@,
            to_pin,
        )),
        final(node_graph).nodes == old(node_graph).nodes,
        final(node_graph).canvas_state == old(node_graph).canvas_state,
{
    if pin_manager.can_connect_pins(from_pin, to_pin, node_graph) && find_connection_into(
        &node_graph.connections,
        to_pin,
    ).is_none() {
        node_graph.add_connection(Connection { from_pin, to_pin });
        true
    } else {
        false
    }
}

/// Removes the connection into the input `pin`, if there is one. Says
/// whether there was.
pub fn disconnect_input(node_graph: &mut NodeGraph, pin: PinId) -> (found: bool)
    ensures
        final(node_graph).connections@ == spec_unlinked(old(node_graph).connections@, pin),
        found == input_taken(old(node_graph).connections@, pin),
        final(node_graph).nodes == old(node_graph).nodes,
        final(node_graph).canvas_state == old(node_graph).canvas_state,
{
    match find_connection_into(&node_graph.connections, pin) {
        Some(connection) => {
            node_graph.remove_connection(&connection);
            true
        },
        None => false,
    }
}

/// One frame of the node drag.
///
/// A drag in progress ends when the primary button comes up: the node
/// stays where it is and the drag state is cleared. Otherwise, while the
/// button is held, the dragged node
/// moves by the pointer's motion, taken to canvas space by dividing by the
/// zoom. With nothing in progress, a press on the header of a node starts
/// dragging the first such node and notes where it started from.
pub fn handle_node_drag_system(
    node_graph: &mut NodeGraph,
    ui_state: &mut GraphUiState,
    input: &PointerInput,
)
    ensures
        final(node_graph).nodes@ == spec_dragged_nodes(
            old(node_graph).nodes@,
            old(node_graph).canvas_state,
            *old(ui_state),
            *input,
        ),
        *final(ui_state) == spec_dragged_ui(
            old(node_graph).nodes@,
            old(node_graph).canvas_state,
            *old(ui_state),
            *input,
        ),
        final(node_graph).connections == old(node_graph).connections,
        final(node_graph).canvas_state == old(node_graph).canvas_state,
{
    match ui_state.active_drag_node {
        Some(id) => {
            if input.primary_released {
                ui_state.clear_drag_state();
            } else if input.primary_down {
                match node_graph.nodes.position_of(id) {
                    Some(place) => {
                        let canvas_delta: Vec2 = input.delta.unscaled(node_graph.canvas_state.zoom);
                        let moved: Vec2 = node_graph.nodes.entries()[place].position.plus(
                            canvas_delta,
                        );
                        node_graph.nodes.set_position(place, moved);
                    },
                    None => {},
                }
            }
        },
        None => {
            if input.primary_pressed && ui_state.pending_connection.is_none() {
                let nodes: &Vec<NodeInstance> = node_graph.nodes.entries();
                match find_header_under(nodes, &node_graph.canvas_state, input.position) {
                    Some(place) => {
                        ui_state.active_drag_node = Some(nodes[place].node_id);
                        ui_state.drag_origin = nodes[place].position;
                    },
                    None => {},
                }
            }
        },
    }
}

/// One frame of the pin interactions.
///
/// First the release: where the primary button came up while a connection
/// was pending, the first input pin under the pointer is looked for. The
/// link is made where there is such a pin, the connection rules allow the
/// pair and no connection ends at that input yet. Either way the pending
/// connection is over.
///
/// Then the press, unless a node is being dragged: on an output pin a new
/// pending connection starts there. On an input pin, a connection that is
/// still pending is linked to it under the same rules; with none pending,
/// the connection into that input is removed. A press anywhere else leaves
/// nothing pending.
pub fn handle_pin_interactions_system(
    node_graph: &mut NodeGraph,
    ui_state: &mut GraphUiState,
    pin_manager: &PinPositionManager,
    input: &PointerInput,
)
    ensures
        final(node_graph).connections@ == spec_pin_connections(
            old(node_graph).nodes@,
            old(node_graph).connections@,
            old(node_graph).canvas_state,
            *old(ui_state),
            *input,
        ),
        final(ui_state).pending_connection == spec_pin_pending(
            old(node_graph).nodes@,
            old(node_graph).canvas_state,
            *old(ui_state),
            *input,
        ),
        final(ui_state).active_drag_node == old(ui_state).active_drag_node,
        final(ui_state).drag_origin == old(ui_state).drag_origin,
        final(ui_state).drag_offset == old(ui_state).drag_offset,
        final(node_graph).nodes == old(node_graph).nodes,
        final(node_graph).canvas_state == old(node_graph).canvas_state,
{
    if input.primary_released {
        match ui_state.pending_connection {
            Some(pending) => {
                let target: Option<PinId> = find_input_pin_under(
                    node_graph.nodes.entries(),
                    &node_graph.canvas_state,
                    input.position,
                );
                match target {
                    Some(to_pin) => {
                        let _ = try_connect(node_graph, pin_manager, pending.from_pin, to_pin);
                    },
                    None => {},
                }
                ui_state.pending_connection = None;
            },
            None => {},
        }
    }
    if input.primary_pressed && ui_state.active_drag_node.is_none() {
        let hit: Option<PinHit> = find_pin_under(
            node_graph.nodes.entries(),
            &node_graph.canvas_state,
            input.position,
        );
        match hit {
            Some(PinHit::Output(pin)) => {
                ui_state.pending_connection = Some(
                    PendingConnection { from_pin: pin, from_screen_pos: input.position },
                );
            },
            Some(PinHit::Input(pin)) => {
                match ui_state.pending_connection {
                    Some(pending) => {
                        let _ = try_connect(node_graph, pin_manager, pending.from_pin, pin);
                    },
                    None => {
                        let _ = disconnect_input(node_graph, pin);
                    },
                }
                ui_state.pending_connection = None;
            },
            None => {
                ui_state.pending_connection = None;
            },
        }
    }
}

/// Maps a screen point to canvas space.
pub fn screen_to_canvas(screen_pos: Vec2, canvas_state: &CanvasState) -> (r: Vec2)
    ensures
        r == spec_screen_to_canvas(screen_pos, *canvas_state),
{
    crate::canvas::screen_to_canvas(screen_pos, canvas_state)
}

/// Maps a canvas point to screen space.
pub fn canvas_to_screen(canvas_pos: Vec2, canvas_state: &CanvasState) -> (r: Vec2)
    ensures
        r == spec_canvas_to_screen(canvas_pos, *canvas_state),
{
    crate::canvas::canvas_to_screen(canvas_pos, canvas_state)
}

/// Once a link into an input has been made, that input is taken: every
/// further attempt to link into it, from whichever pin, leaves the
/// connections as they are.
pub proof fn lemma_taken_input_takes_no_more(
    nodes: Seq<NodeInstance>,
    connections: Seq<Connection>,
    from_pin: PinId,
    to_pin: PinId,
    other_pin: PinId,
)
    requires
        spec_can_connect(nodes, from_pin, to_pin),
        !input_taken(connections, to_pin),
    ensures
        spec_linked(nodes, connections, from_pin, to_pin) == connections.push(
            Connection { from_pin, to_pin },
        ),
        input_taken(spec_linked(nodes, connections, from_pin, to_pin), to_pin),
        spec_linked(nodes, spec_linked(nodes, connections, from_pin, to_pin), other_pin, to_pin)
            == spec_linked(nodes, connections, from_pin, to_pin),
{
    let linked = connections.push(Connection { from_pin, to_pin });
    assert(ends_at(linked, to_pin)(connections.len() as int));
}

/// Whether no two connections end at the same input.
pub open spec fn inputs_are_single(connections: Seq<Connection>) -> bool {
    forall|i: int, j: int|
        0 <= i < connections.len() && 0 <= j < connections.len() && i != j ==> (
        #[trigger] connections[i]).to_pin != (#[trigger] connections[j]).to_pin
}

/// Linking never gives an input a second connection.
pub proof fn lemma_linking_keeps_inputs_single(
    nodes: Seq<NodeInstance>,
    connections: Seq<Connection>,
    from_pin: PinId,
    to_pin: PinId,
)
    requires
        inputs_are_single(connections),
    ensures
        inputs_are_single(spec_linked(nodes, connections, from_pin, to_pin)),
{
    let linked = spec_linked(nodes, connections, from_pin, to_pin);
    if linked != connections {
        assert forall|i: int, j: int|
            0 <= i < linked.len() && 0 <= j < linked.len() && i != j implies (
        #[trigger] linked[i]).to_pin != (#[trigger] linked[j]).to_pin by {
            if i < connections.len() {
                assert(!ends_at(connections, to_pin)(i));
            }
            if j < connections.len() {
                assert(!ends_at(connections, to_pin)(j));
            }
        }
    }
}

/// Whether the connection rules allow every connection of `connections`.
pub open spec fn connections_are_allowed(
    nodes: Seq<NodeInstance>,
    connections: Seq<Connection>,
) -> bool {
    forall|k: int|
        0 <= k < connections.len() ==> spec_can_connect(
            nodes,
            (#[trigger] connections[k]).from_pin,
            connections[k].to_pin,
        )
}

/// Whether the graph is wired as it should be: every connection runs from
/// an output of one node to an input of another, and no input has more
/// than one.
pub open spec fn is_well_wired(nodes: Seq<NodeInstance>, connections: Seq<Connection>) -> bool {
    inputs_are_single(connections) && connections_are_allowed(nodes, connections)
}

/// Linking keeps the graph well wired.
pub proof fn lemma_linking_keeps_wiring(
    nodes: Seq<NodeInstance>,
    connections: Seq<Connection>,
    from_pin: PinId,
    to_pin: PinId,
)
    requires
        is_well_wired(nodes, connections),
    ensures
        is_well_wired(nodes, spec_linked(nodes, connections, from_pin, to_pin)),
{
    lemma_linking_keeps_inputs_single(nodes, connections, from_pin, to_pin);
}

/// Leaving connections out keeps the graph well wired.
pub proof fn lemma_filtering_keeps_wiring(
    nodes: Seq<NodeInstance>,
    connections: Seq<Connection>,
    keep: spec_fn(Connection) -> bool,
)
    requires
        is_well_wired(nodes, connections),
    ensures
        is_well_wired(nodes, connections.filter(keep)),
    decreases connections.len(),
{
    let kept = connections.filter(keep);
    if connections.len() == 0 {
        connections.lemma_filter_len(keep);
    } else {
        let head = connections.drop_last();
        let last = connections.last();
        assert(connections =~= head.push(last));
        head.lemma_filter_push(last, keep);
        assert(is_well_wired(nodes, head)) by {
            assert forall|i: int, j: int|
                0 <= i < head.len() && 0 <= j < head.len() && i != j implies (
            #[trigger] head[i]).to_pin != (#[trigger] head[j]).to_pin by {
                assert(head[i] == connections[i] && head[j] == connections[j]);
            }
            assert forall|k: int| 0 <= k < head.len() implies spec_can_connect(
                nodes,
                (#[trigger] head[k]).from_pin,
                head[k].to_pin,
            ) by {
                assert(head[k] == connections[k]);
            }
        }
        lemma_filtering_keeps_wiring(nodes, head, keep);
        let kept_head = head.filter(keep);
        if keep(last) {
            assert(kept == kept_head.push(last));
            assert forall|i: int, j: int|
                0 <= i < kept.len() && 0 <= j < kept.len() && i != j implies (
            #[trigger] kept[i]).to_pin != (#[trigger] kept[j]).to_pin by {
                if i < kept_head.len() && j < kept_head.len() {
                    assert(kept[i] == kept_head[i] && kept[j] == kept_head[j]);
                } else {
                    let inner: int = if i < kept_head.len() {
                        i
                    } else {
                        j
                    };
                    assert(kept_head.contains(kept_head[inner]));
                    head.lemma_filter_contains_rev(keep, kept_head[inner]);
                    let a: int = choose|a: int| 0 <= a < head.len() && head[a] == kept_head[inner];
                    assert(connections[a] == kept_head[inner]);
                    assert(connections[connections.len() - 1] == last);
                }
            }
            assert forall|k: int| 0 <= k < kept.len() implies spec_can_connect(
                nodes,
                (#[trigger] kept[k]).from_pin,
                kept[k].to_pin,
            ) by {
                if k < kept_head.len() {
                    assert(kept[k] == kept_head[k]);
                } else {
                    assert(kept[k] == connections[connections.len() - 1]);
                }
            }
        }
    }
}

/// One frame of the pin interactions keeps the graph well wired.
pub proof fn lemma_pin_frame_keeps_wiring(
    nodes: Seq<NodeInstance>,
    connections: Seq<Connection>,
    camera: CanvasState,
    ui: GraphUiState,
    input: PointerInput,
)
    requires
        is_well_wired(nodes, connections),
    ensures
        is_well_wired(nodes, spec_pin_connections(nodes, connections, camera, ui, input)),
{
    let released = spec_released_connections(
        nodes,
        connections,
        camera,
        ui.pending_connection,
        input,
    );
    assert(is_well_wired(nodes, released)) by {
        match ui.pending_connection {
            Some(from) => {
                match spec_input_pin_under(nodes, camera, input.position) {
                    Some(to_pin) => {
                        lemma_linking_keeps_wiring(nodes, connections, from.from_pin, to_pin);
                    },
                    None => {},
                }
            },
            None => {},
        }
    }
    if spec_press_applies(ui, input) {
        match spec_pin_under(nodes, camera, input.position) {
            Some(PinHit::Input(pin)) => {
                match spec_released_pending(ui.pending_connection, input) {
                    Some(from) => {
                        lemma_linking_keeps_wiring(nodes, released, from.from_pin, pin);
                    },
                    None => {
                        lemma_filtering_keeps_wiring(
                            nodes,
                            released,
                            differs_from(spec_connection_into(released, pin)),
                        );
                    },
                }
            },
            _ => {},
        }
    }
}

/// One frame of the node drag keeps the graph well wired: a node that
/// moves keeps its id and its pins.
pub proof fn lemma_drag_frame_keeps_wiring(
    nodes: Seq<NodeInstance>,
    connections: Seq<Connection>,
    camera: CanvasState,
    ui: GraphUiState,
    input: PointerInput,
)
    requires
        is_well_wired(nodes, connections),
    ensures
        same_pins(nodes, spec_dragged_nodes(nodes, camera, ui, input)),
        is_well_wired(spec_dragged_nodes(nodes, camera, ui, input), connections),
{
    let dragged = spec_dragged_nodes(nodes, camera, ui, input);
    assert(same_pins(nodes, dragged)) by {
        match ui.active_drag_node {
            Some(id) => {
                if has_node(nodes, id) {
                    lemma_first_exists(nodes.len() as int, has_id_at(nodes, id));
                }
            },
            None => {},
        }
    }
    assert forall|k: int| 0 <= k < connections.len() implies spec_can_connect(
        dragged,
        (#[trigger] connections[k]).from_pin,
        connections[k].to_pin,
    ) by {
        lemma_rules_go_by_pins_only(nodes, dragged, connections[k].from_pin, connections[k].to_pin);
    }
}

/// Pins are hit where they are drawn. Under the standard layout, the
/// position that the resolver computes for a pin is the centre of the
/// pin's hit target, so a press there lands on a pin, and a release there
/// lands on an input where the pin is one.
pub proof fn lemma_pin_is_hit_where_it_is_drawn(
    nodes: Seq<NodeInstance>,
    camera: CanvasState,
    pin: PinId,
)
    requires
        pin_exists(nodes, pin),
    ensures
        ({
            let drawn = spec_pin_position(NodeLayout::spec_default(), nodes, camera, pin);
            &&& drawn.is_some()
            &&& spec_pin_under(nodes, camera, drawn.unwrap()).is_some()
            &&& has_input(nodes[owner_place(nodes, pin)], pin) ==> spec_input_pin_under(
                nodes,
                camera,
                drawn.unwrap(),
            ).is_some()
        }),
{
    let layout = NodeLayout::spec_default();
    lemma_first_exists(nodes.len() as int, owner_at(nodes, pin));
    let place: int = owner_place(nodes, pin);
    let node = nodes[place];
    let drawn = spec_pin_position(layout, nodes, camera, pin).unwrap();
    if has_input(node, pin) {
        lemma_first_exists(node.inputs@.len() as int, input_is(node, pin));
        let row: int = input_place(node, pin);
        assert(input_hit_at(node, camera, drawn)(row));
        assert(input_node_at(nodes, camera, drawn)(place));
    } else {
        lemma_first_exists(node.outputs@.len() as int, output_is(node, pin));
        let row: int = output_place(node, pin);
        assert(output_hit_at(node, camera, drawn)(row));
    }
    assert(pin_node_at(nodes, camera, drawn)(place));
}

/// The release of the button ends every gesture: after a frame in which
/// the button came up and did not go down again, the node drag first and
/// the pin interactions after it leave nothing in progress.
pub proof fn lemma_release_ends_gestures(
    nodes: Seq<NodeInstance>,
    camera: CanvasState,
    ui: GraphUiState,
    input: PointerInput,
)
    requires
        input.primary_released,
        !input.primary_pressed,
    ensures
        ({
            let dragged_ui = spec_dragged_ui(nodes, camera, ui, input);
            let dragged_nodes = spec_dragged_nodes(nodes, camera, ui, input);
            let after = GraphUiState {
                pending_connection: spec_pin_pending(dragged_nodes, camera, dragged_ui, input),
                ..dragged_ui
            };
            after.is_idle()
        }),
{
}

} // verus!
