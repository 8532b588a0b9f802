//! The pin position resolver and the connection rules.
//!
//! The resolver is the one authority on where a pin is drawn. It computes a
//! pin's screen position from the node that owns the pin, the camera and the
//! layout, and remembers it until the cache is invalidated, which the host
//! does once at the start of every frame.

use std::collections::HashMap;
use vstd::prelude::*;
use crate::canvas::{screen_to_canvas, spec_screen_to_canvas};
use crate::fixed::{fx_add, fx_sub, fx_times_count, spec_add, spec_sub, spec_times_count};
use crate::geometry::Vec2;
use crate::model::{
    unique_node_ids, CanvasState, NodeGraph, NodeId, NodeInstance, NodeLayout, PinId,
};
use crate::search::{
    first_index, holds_somewhere, lemma_first_exists, lemma_first_index_agrees,
    lemma_first_is_unique,
};

verus! {

/// The test "input number `j` of `node` is the pin `pin`".
pub open spec fn input_is(node: NodeInstance, pin: PinId) -> spec_fn(int) -> bool {
    |j: int| node.inputs@[j].pin_id == pin
}

/// The test "output number `j` of `node` is the pin `pin`".
pub open spec fn output_is(node: NodeInstance, pin: PinId) -> spec_fn(int) -> bool {
    |j: int| node.outputs@[j].pin_id == pin
}

/// Whether `pin` is among the inputs of `node`.
pub open spec fn has_input(node: NodeInstance, pin: PinId) -> bool {
    holds_somewhere(node.inputs@.len() as int, input_is(node, pin))
}

/// Whether `pin` is among the outputs of `node`.
pub open spec fn has_output(node: NodeInstance, pin: PinId) -> bool {
    holds_somewhere(node.outputs@.len() as int, output_is(node, pin))
}

/// The place of `pin` among the inputs of `node`.
pub open spec fn input_place(node: NodeInstance, pin: PinId) -> int {
    first_index(node.inputs@.len() as int, input_is(node, pin))
}

/// The place of `pin` among the outputs of `node`.
pub open spec fn output_place(node: NodeInstance, pin: PinId) -> int {
    first_index(node.outputs@.len() as int, output_is(node, pin))
}

/// Whether `pin` is an input or an output of `node`.
pub open spec fn owns_pin(node: NodeInstance, pin: PinId) -> bool {
    has_input(node, pin) || has_output(node, pin)
}

/// The test "the node at place `i` owns the pin `pin`".
pub open spec fn owner_at(nodes: Seq<NodeInstance>, pin: PinId) -> spec_fn(int) -> bool {
    |i: int| owns_pin(nodes[i], pin)
}

/// Whether some node of `nodes` owns `pin`.
pub open spec fn pin_exists(nodes: Seq<NodeInstance>, pin: PinId) -> bool {
    holds_somewhere(nodes.len() as int, owner_at(nodes, pin))
}

/// The place of the first node that owns `pin`.
pub open spec fn owner_place(nodes: Seq<NodeInstance>, pin: PinId) -> int {
    first_index(nodes.len() as int, owner_at(nodes, pin))
}

/// The node that `pin` resolves to: the first one that owns it.
pub open spec fn spec_owner(nodes: Seq<NodeInstance>, pin: PinId) -> Option<NodeId> {
    if pin_exists(nodes, pin) {
        Some(nodes[owner_place(nodes, pin)].node_id)
    } else {
        None
    }
}

/// How far below the top of its node the pin in row `index` sits: below the
/// header, one spacing down, and one more for every row above it.
pub open spec fn spec_pin_row(layout: NodeLayout, index: int) -> int {
    spec_add(
        spec_add(layout.header_height as int, layout.pin_spacing as int),
        spec_times_count(layout.pin_spacing as int, index),
    )
}

/// The offset of input number `index` from the corner of its node: outside
/// the left border by the pin margin.
pub open spec fn spec_input_offset(layout: NodeLayout, index: int) -> Vec2 {
    Vec2 { x: spec_sub(0, layout.pin_margin as int) as i64, y: spec_pin_row(layout, index) as i64 }
}

/// The offset of output number `index` from the corner of its node: outside
/// the right border by the pin margin.
pub open spec fn spec_output_offset(layout: NodeLayout, index: int) -> Vec2 {
    Vec2 {
        x: spec_add(layout.width as int, layout.pin_margin as int) as i64,
        y: spec_pin_row(layout, index) as i64,
    }
}

/// Where the corner of a node at canvas position `position` is drawn.
pub open spec fn spec_node_origin(position: Vec2, camera: CanvasState) -> Vec2 {
    position.spec_plus(camera.offset).spec_scaled(camera.zoom)
}

/// The offset of `pin` from the corner of `node`, which owns it. A pin that
/// the node lists on both sides counts as an input.
pub open spec fn spec_pin_offset(layout: NodeLayout, node: NodeInstance, pin: PinId) -> Vec2 {
    if has_input(node, pin) {
        spec_input_offset(layout, input_place(node, pin))
    } else {
        spec_output_offset(layout, output_place(node, pin))
    }
}

/// The screen position of `pin`: the drawn corner of the node it resolves
/// to, plus the pin's offset, which does not scale with the zoom. `None`
/// where no node owns the pin.
pub open spec fn spec_pin_position(
    layout: NodeLayout,
    nodes: Seq<NodeInstance>,
    camera: CanvasState,
    pin: PinId,
) -> Option<Vec2> {
    if pin_exists(nodes, pin) {
        let node = nodes[owner_place(nodes, pin)];
        Some(spec_node_origin(node.position, camera).spec_plus(spec_pin_offset(layout, node, pin)))
    } else {
        None
    }
}

/// What a position query answers: the cached position where there is one,
/// else the computed one.
pub open spec fn spec_resolved(
    cache: Map<u32, Vec2>,
    layout: NodeLayout,
    nodes: Seq<NodeInstance>,
    camera: CanvasState,
    pin: PinId,
) -> Option<Vec2> {
    if cache.contains_key(pin.0) {
        Some(cache[pin.0])
    } else {
        spec_pin_position(layout, nodes, camera, pin)
    }
}

/// The cache after a position query: a position that had to be computed is
/// added.
pub open spec fn spec_cache_after(
    cache: Map<u32, Vec2>,
    layout: NodeLayout,
    nodes: Seq<NodeInstance>,
    camera: CanvasState,
    pin: PinId,
) -> Map<u32, Vec2> {
    if cache.contains_key(pin.0) {
        cache
    } else {
        match spec_pin_position(layout, nodes, camera, pin) {
            Some(position) => cache.insert(pin.0, position),
            None => cache,
        }
    }
}

/// Whether a connection from `from_pin` to `to_pin` is allowed: `from_pin`
/// resolves to a node that lists it as an output, `to_pin` resolves to a
/// node that lists it as an input, and the two nodes differ.
pub open spec fn spec_can_connect(
    nodes: Seq<NodeInstance>,
    from_pin: PinId,
    to_pin: PinId,
) -> bool {
    &&& pin_exists(nodes, from_pin)
    &&& pin_exists(nodes, to_pin)
    &&& has_output(nodes[owner_place(nodes, from_pin)], from_pin)
    &&& has_input(nodes[owner_place(nodes, to_pin)], to_pin)
    &&& nodes[owner_place(nodes, from_pin)].node_id != nodes[owner_place(nodes, to_pin)].node_id
}

/// The place of `pin` among the inputs of `node`, if it is there.
pub fn find_input(node: &NodeInstance, pin: PinId) -> (r: Option<usize>)
    ensures
        match r {
            Some(j) => {
                &&& has_input(*node, pin)
                &&& j == input_place(*node, pin)
                &&& j < node.inputs@.len()
            },
            None => !has_input(*node, pin),
        },
{
    let mut j: usize = 0;
    while j < node.inputs.len()
        invariant
            j <= node.inputs@.len(),
            forall|k: int| 0 <= k < j ==> !#[trigger] input_is(*node, pin)(k),
        decreases node.inputs@.len() - j,
    {
        if node.inputs[j].pin_id == pin {
            proof {
                lemma_first_is_unique(node.inputs@.len() as int, input_is(*node, pin), j as int);
            }
            return Some(j);
        }
        j += 1;
    }
    None
}

/// The place of `pin` among the outputs of `node`, if it is there.
pub fn find_output(node: &NodeInstance, pin: PinId) -> (r: Option<usize>)
    ensures
        match r {
            Some(j) => {
                &&& has_output(*node, pin)
                &&& j == output_place(*node, pin)
                &&& j < node.outputs@.len()
            },
            None => !has_output(*node, pin),
        },
{
    let mut j: usize = 0;
    while j < node.outputs.len()
        invariant
            j <= node.outputs@.len(),
            forall|k: int| 0 <= k < j ==> !#[trigger] output_is(*node, pin)(k),
        decreases node.outputs@.len() - j,
    {
        if node.outputs[j].pin_id == pin {
            proof {
                lemma_first_is_unique(node.outputs@.len() as int, output_is(*node, pin), j as int);
            }
            return Some(j);
        }
        j += 1;
    }
    None
}

/// The place of the first node of `nodes` that owns `pin`, if any does.
pub fn find_owner(nodes: &Vec<NodeInstance>, pin: PinId) -> (r: Option<usize>)
    ensures
        match r {
            Some(i) => {
                &&& pin_exists(nodes@, pin)
                &&& i == owner_place(nodes@, pin)
                &&& i < nodes@.len()
                &&& owns_pin(nodes@[i as int], pin)
            },
            None => !pin_exists(nodes@, pin),
        },
{
    let mut i: usize = 0;
    while i < nodes.len()
        invariant
            i <= nodes@.len(),
            forall|k: int| 0 <= k < i ==> !#[trigger] owner_at(nodes@, pin)(k),
        decreases nodes@.len() - i,
    {
        let owns: bool = find_input(&nodes[i], pin).is_some() || find_output(
            &nodes[i],
            pin,
        ).is_some();
        if owns {
            proof {
                lemma_first_is_unique(nodes@.len() as int, owner_at(nodes@, pin), i as int);
            }
            return Some(i);
        }
        i += 1;
    }
    None
}

/// Computes the offset of a pin row below the top of its node.
fn pin_row(layout: &NodeLayout, index: usize) -> (r: i64)
    ensures
        r == spec_pin_row(*layout, index as int),
{
    fx_add(
        fx_add(layout.header_height, layout.pin_spacing),
        fx_times_count(layout.pin_spacing, index),
    )
}

/// The offset of input number `index` from the corner of its node.
pub fn input_offset(layout: &NodeLayout, index: usize) -> (r: Vec2)
    ensures
        r == spec_input_offset(*layout, index as int),
{
    Vec2::new(fx_sub(0, layout.pin_margin), pin_row(layout, index))
}

/// The offset of output number `index` from the corner of its node.
pub fn output_offset(layout: &NodeLayout, index: usize) -> (r: Vec2)
    ensures
        r == spec_output_offset(*layout, index as int),
{
    Vec2::new(fx_add(layout.width, layout.pin_margin), pin_row(layout, index))
}

/// Where the corner of a node at canvas position `position` is drawn.
pub fn node_origin(position: Vec2, canvas_state: &CanvasState) -> (r: Vec2)
    ensures
        r == spec_node_origin(position, *canvas_state),
{
    position.plus(canvas_state.offset).scaled(canvas_state.zoom)
}

/// Resolves pin positions and caches them for the length of a frame.
pub struct PinPositionManager {
    /// The screen positions computed since the cache was last invalidated,
    /// by pin id.
    pub cached_positions: HashMap<u32, Vec2>,
    /// The number of invalidations so far.
    pub frame_version: u64,
    /// The layout that positions are computed with.
    pub layout: NodeLayout,
}

impl Default for PinPositionManager {
    fn default() -> (r: PinPositionManager)
        ensures
            r.cached_positions@ == Map::<u32, Vec2>::empty(),
            r.frame_version == 0,
            r.layout == NodeLayout::spec_default(),
    {
        PinPositionManager {
            cached_positions: HashMap::new(),
            frame_version: 0,
            layout: NodeLayout::default(),
        }
    }
}

impl PinPositionManager {
    /// The screen position of `pin_id`, from the cache where it is there.
    /// A position that had to be computed is cached. `None` where no node
    /// of the graph owns the pin; nothing is cached then.
    pub fn get_pin_screen_position(
        &mut self,
        pin_id: PinId,
        node_graph: &NodeGraph,
        canvas_state: &CanvasState,
    ) -> (r: Option<Vec2>)
        ensures
            r == spec_resolved(
                old(self).cached_positions@,
                old(self).layout,
                node_graph.nodes@,
                *canvas_state,
                pin_id,
            ),
            final(self).cached_positions@ == spec_cache_after(
                old(self).cached_positions@,
                old(self).layout,
                node_graph.nodes@,
                *canvas_state,
                pin_id,
            ),
            old(self).cached_positions@.contains_key(pin_id.0) ==> *final(self) == *old(self),
            final(self).frame_version == old(self).frame_version,
            final(self).layout == old(self).layout,
    {
        broadcast use vstd::std_specs::hash::group_hash_axioms;

        if let Some(cached) = self.cached_positions.get(&pin_id.0) {
            return Some(*cached);
        }
        let position: Option<Vec2> = self.calculate_pin_position_raw(
            pin_id,
            node_graph,
            canvas_state,
        );
        if let Some(computed) = position {
            self.cached_positions.insert(pin_id.0, computed);
        }
        position
    }

    /// Computes the screen position of `pin_id` from the graph, the camera
    /// and the layout. The cache plays no part.
    pub fn calculate_pin_position_raw(
        &self,
        pin_id: PinId,
        node_graph: &NodeGraph,
        canvas_state: &CanvasState,
    ) -> (r: Option<Vec2>)
        ensures
            r == spec_pin_position(self.layout, node_graph.nodes@, *canvas_state, pin_id),
    {
        let nodes: &Vec<NodeInstance> = node_graph.nodes.entries();
        match find_owner(nodes, pin_id) {
            Some(i) => {
                let node: &NodeInstance = &nodes[i];
                let origin: Vec2 = node_origin(node.position, canvas_state);
                let offset: Vec2 = match find_input(node, pin_id) {
                    Some(j) => input_offset(&self.layout, j),
                    None => match find_output(node, pin_id) {
                        Some(j) => output_offset(&self.layout, j),
                        None => Vec2::zero(),
                    },
                };
                Some(origin.plus(offset))
            },
            None => None,
        }
    }

    /// Starts a new frame: empties the cache and counts the frame. To be
    /// called once per frame, before any position query of that frame.
    pub fn invalidate_cache(&mut self)
        requires
            old(self).frame_version < u64::MAX,
        ensures
            final(self).frame_version == old(self).frame_version + 1,
            final(self).cached_positions@ == Map::<u32, Vec2>::empty(),
            final(self).layout == old(self).layout,
    {
        self.frame_version += 1;
        self.cached_positions.clear();
    }

    /// The canvas position of `pin_id`: its screen position taken back to
    /// canvas space. The cache is used and filled as by a screen position
    /// query.
    pub fn get_pin_canvas_position(
        &mut self,
        pin_id: PinId,
        node_graph: &NodeGraph,
        canvas_state: &CanvasState,
    ) -> (r: Option<Vec2>)
        ensures
            r == match spec_resolved(
                old(self).cached_positions@,
                old(self).layout,
                node_graph.nodes@,
                *canvas_state,
                pin_id,
            ) {
                Some(screen) => Some(spec_screen_to_canvas(screen, *canvas_state)),
                None => None,
            },
            final(self).cached_positions@ == spec_cache_after(
                old(self).cached_positions@,
                old(self).layout,
                node_graph.nodes@,
                *canvas_state,
                pin_id,
            ),
            final(self).frame_version == old(self).frame_version,
            final(self).layout == old(self).layout,
    {
        match self.get_pin_screen_position(pin_id, node_graph, canvas_state) {
            Some(screen) => Some(screen_to_canvas(screen, canvas_state)),
            None => None,
        }
    }

    /// The screen positions of both ends of a connection, for drawing.
    /// `None` where either pin is not found; `to_pin` is not looked up
    /// where `from_pin` is not found.
    pub fn get_connection_endpoints(
        &mut self,
        from_pin: PinId,
        to_pin: PinId,
        node_graph: &NodeGraph,
        canvas_state: &CanvasState,
    ) -> (r: Option<(Vec2, Vec2)>)
        ensures
            ({
                let cache = old(self).cached_positions@;
                let layout = old(self).layout;
                let nodes = node_graph.nodes@;
                let first = spec_resolved(cache, layout, nodes, *canvas_state, from_pin);
                let between = spec_cache_after(cache, layout, nodes, *canvas_state, from_pin);
                let second = spec_resolved(between, layout, nodes, *canvas_state, to_pin);
                &&& r == match (first, second) {
                    (Some(from_pos), Some(to_pos)) => Some((from_pos, to_pos)),
                    _ => None,
                }
                &&& final(self).cached_positions@ == if first.is_some() {
                    spec_cache_after(between, layout, nodes, *canvas_state, to_pin)
                } else {
                    cache
                }
            }),
            final(self).frame_version == old(self).frame_version,
            final(self).layout == old(self).layout,
    {
        match self.get_pin_screen_position(from_pin, node_graph, canvas_state) {
            Some(from_pos) => match self.get_pin_screen_position(to_pin, node_graph, canvas_state) {
                Some(to_pos) => Some((from_pos, to_pos)),
                None => None,
            },
            None => None,
        }
    }

    /// Whether `pin_id` is even. Graphs that are numbered by hand may keep
    /// even ids for inputs and odd ids for outputs; the node factory does
    /// not, and the connection rules go by the pin lists of the nodes.
    pub fn is_input_node(pin_id: PinId) -> (r: bool)
        ensures
            r == (pin_id.0 % 2 == 0),
    {
        pin_id.0 % 2 == 0
    }

    /// Whether `pin_id` is odd.
    pub fn is_output_node(pin_id: PinId) -> (r: bool)
        ensures
            r == (pin_id.0 % 2 == 1),
    {
        pin_id.0 % 2 == 1
    }

    /// The node that owns `pin_id`: the first one that lists it among its
    /// inputs or outputs.
    pub fn get_pin_owner_node(&self, pin_id: PinId, node_graph: &NodeGraph) -> (r: Option<NodeId>)
        ensures
            r == spec_owner(node_graph.nodes@, pin_id),
    {
        let nodes: &Vec<NodeInstance> = node_graph.nodes.entries();
        match find_owner(nodes, pin_id) {
            Some(i) => Some(nodes[i].node_id),
            None => None,
        }
    }

    /// Whether `from_pin` may be connected to `to_pin`: an output of one
    /// node to an input of another. Whether the input is already taken is
    /// not asked here.
    pub fn can_connect_pins(&self, from_pin: PinId, to_pin: PinId, node_graph: &NodeGraph) -> (r:
        bool)
        ensures
            r == spec_can_connect(node_graph.nodes@, from_pin, to_pin),
    {
        let nodes: &Vec<NodeInstance> = node_graph.nodes.entries();
        let from_place: usize = match find_owner(nodes, from_pin) {
            Some(i) => i,
            None => {
                return false;
            },
        };
        let to_place: usize = match find_owner(nodes, to_pin) {
            Some(i) => i,
            None => {
                return false;
            },
        };
        if find_output(&nodes[from_place], from_pin).is_none() {
            return false;
        }
        if find_input(&nodes[to_place], to_pin).is_none() {
            return false;
        }
        nodes[from_place].node_id != nodes[to_place].node_id
    }
}

/// Whether every pin id belongs to one node only.
pub open spec fn pins_are_unique(nodes: Seq<NodeInstance>) -> bool {
    forall|i: int, j: int, pin: PinId|
        0 <= i < nodes.len() && 0 <= j < nodes.len() && #[trigger] owns_pin(nodes[i], pin)
            && #[trigger] owns_pin(nodes[j], pin) ==> i == j
}

/// Where pin ids are unique, a pin resolves to the node that owns it.
pub proof fn lemma_owner_is_the_node(nodes: Seq<NodeInstance>, pin: PinId, place: int)
    requires
        pins_are_unique(nodes),
        0 <= place < nodes.len(),
        owns_pin(nodes[place], pin),
    ensures
        pin_exists(nodes, pin),
        owner_place(nodes, pin) == place,
        spec_owner(nodes, pin) == Some(nodes[place].node_id),
{
    assert(owner_at(nodes, pin)(place));
    lemma_first_exists(nodes.len() as int, owner_at(nodes, pin));
    let first: int = owner_place(nodes, pin);
    assert(owns_pin(nodes[first], pin));
}

/// No connection within one node: two pins of the same node can never be
/// connected, whatever their ids and whichever sides they are on.
pub proof fn lemma_no_connection_within_a_node(
    nodes: Seq<NodeInstance>,
    place: int,
    from_pin: PinId,
    to_pin: PinId,
)
    requires
        pins_are_unique(nodes),
        0 <= place < nodes.len(),
        owns_pin(nodes[place], from_pin),
        owns_pin(nodes[place], to_pin),
    ensures
        !spec_can_connect(nodes, from_pin, to_pin),
{
    lemma_owner_is_the_node(nodes, from_pin, place);
    lemma_owner_is_the_node(nodes, to_pin, place);
}

/// An output of one node can always be connected to an input of another
/// node, as far as the connection rules go.
pub proof fn lemma_connection_across_nodes(
    nodes: Seq<NodeInstance>,
    from_place: int,
    to_place: int,
    from_pin: PinId,
    to_pin: PinId,
)
    requires
        unique_node_ids(nodes),
        pins_are_unique(nodes),
        0 <= from_place < nodes.len(),
        0 <= to_place < nodes.len(),
        from_place != to_place,
        has_output(nodes[from_place], from_pin),
        has_input(nodes[to_place], to_pin),
    ensures
        spec_can_connect(nodes, from_pin, to_pin),
{
    lemma_owner_is_the_node(nodes, from_pin, from_place);
    lemma_owner_is_the_node(nodes, to_pin, to_place);
}

/// Within a frame a position is computed once. After a query that found a
/// position, the same query is answered from the cache with the same
/// position, whatever has become of the graph and the camera since, and
/// leaves the cache as it is.
pub proof fn lemma_second_query_hits_cache(
    cache: Map<u32, Vec2>,
    layout: NodeLayout,
    nodes: Seq<NodeInstance>,
    camera: CanvasState,
    pin: PinId,
    later_nodes: Seq<NodeInstance>,
    later_camera: CanvasState,
)
    requires
        spec_resolved(cache, layout, nodes, camera, pin).is_some(),
    ensures
        ({
            let first = spec_resolved(cache, layout, nodes, camera, pin);
            let cached = spec_cache_after(cache, layout, nodes, camera, pin);
            &&& cached.contains_key(pin.0)
            &&& spec_resolved(cached, layout, later_nodes, later_camera, pin) == first
            &&& spec_cache_after(cached, layout, later_nodes, later_camera, pin) == cached
        }),
{
}

/// A query for a pin that no node owns finds nothing and caches nothing, so
/// asking again gives the same answer as long as the graph stays as it is.
pub proof fn lemma_missing_pin_is_not_cached(
    cache: Map<u32, Vec2>,
    layout: NodeLayout,
    nodes: Seq<NodeInstance>,
    camera: CanvasState,
    pin: PinId,
)
    requires
        spec_resolved(cache, layout, nodes, camera, pin).is_none(),
    ensures
        spec_cache_after(cache, layout, nodes, camera, pin) == cache,
        !pin_exists(nodes, pin),
{
}

/// After the cache has been invalidated every position is computed anew
/// from the nodes and the camera as they are then.
pub proof fn lemma_query_after_invalidation(
    layout: NodeLayout,
    nodes: Seq<NodeInstance>,
    camera: CanvasState,
    pin: PinId,
)
    ensures
        spec_resolved(Map::<u32, Vec2>::empty(), layout, nodes, camera, pin) == spec_pin_position(
            layout,
            nodes,
            camera,
            pin,
        ),
{
}

/// Whether two lists of nodes agree in everything that the connection
/// rules look at: the ids of the nodes and their pins, place by place.
pub open spec fn same_pins(nodes: Seq<NodeInstance>, others: Seq<NodeInstance>) -> bool {
    &&& nodes.len() == others.len()
    &&& forall|i: int|
        0 <= i < nodes.len() ==> {
            &&& (#[trigger] nodes[i]).node_id == others[i].node_id
            &&& nodes[i].inputs@ == others[i].inputs@
            &&& nodes[i].outputs@ == others[i].outputs@
        }
}

/// Two nodes with the same pins own the same pins.
pub proof fn lemma_same_pins_one_node(node: NodeInstance, other: NodeInstance, pin: PinId)
    requires
        node.inputs@ == other.inputs@,
        node.outputs@ == other.outputs@,
    ensures
        has_input(node, pin) == has_input(other, pin),
        has_output(node, pin) == has_output(other, pin),
        owns_pin(node, pin) == owns_pin(other, pin),
{
    assert forall|j: int| 0 <= j < node.inputs@.len() implies #[trigger] input_is(node, pin)(j)
        == #[trigger] input_is(other, pin)(j) by {}
    lemma_first_index_agrees(
        node.inputs@.len() as int,
        input_is(node, pin),
        input_is(other, pin),
    );
    assert forall|j: int| 0 <= j < node.outputs@.len() implies #[trigger] output_is(node, pin)(j)
        == #[trigger] output_is(other, pin)(j) by {}
    lemma_first_index_agrees(
        node.outputs@.len() as int,
        output_is(node, pin),
        output_is(other, pin),
    );
}

/// Pins resolve to the same places in two lists of nodes that have the same
/// pins.
pub proof fn lemma_same_pins_same_owner(
    nodes: Seq<NodeInstance>,
    others: Seq<NodeInstance>,
    pin: PinId,
)
    requires
        same_pins(nodes, others),
    ensures
        pin_exists(nodes, pin) == pin_exists(others, pin),
        pin_exists(nodes, pin) ==> owner_place(nodes, pin) == owner_place(others, pin) && 0
            <= owner_place(nodes, pin) < nodes.len(),
        spec_owner(nodes, pin) == spec_owner(others, pin),
{
    assert forall|i: int| 0 <= i < nodes.len() implies #[trigger] owner_at(nodes, pin)(i)
        == #[trigger] owner_at(others, pin)(i) by {
        lemma_same_pins_one_node(nodes[i], others[i], pin);
    }
    lemma_first_index_agrees(nodes.len() as int, owner_at(nodes, pin), owner_at(others, pin));
    if pin_exists(nodes, pin) {
        lemma_first_exists(nodes.len() as int, owner_at(nodes, pin));
    }
}

/// The connection rules look at ids and pins only: where nodes move, change
/// their titles or their sizes, what may be connected stays the same.
pub proof fn lemma_rules_go_by_pins_only(
    nodes: Seq<NodeInstance>,
    others: Seq<NodeInstance>,
    from_pin: PinId,
    to_pin: PinId,
)
    requires
        same_pins(nodes, others),
    ensures
        spec_can_connect(nodes, from_pin, to_pin) == spec_can_connect(others, from_pin, to_pin),
{
    lemma_same_pins_same_owner(nodes, others, from_pin);
    lemma_same_pins_same_owner(nodes, others, to_pin);
    if pin_exists(nodes, from_pin) && pin_exists(nodes, to_pin) {
        let f: int = owner_place(nodes, from_pin);
        let t: int = owner_place(nodes, to_pin);
        lemma_same_pins_one_node(nodes[f], others[f], from_pin);
        lemma_same_pins_one_node(nodes[t], others[t], to_pin);
    }
}

} // verus!
