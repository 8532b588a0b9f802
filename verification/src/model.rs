//! The graph model: nodes, pins, connections and the camera state.
//!
//! The model is a plain container. It keeps node ids unique and nothing
//! more: whether two pins may be linked is decided by the connection rules
//! of the pin manager, and whether an input is already taken is checked by
//! the interaction handlers before they add a connection.

use vstd::prelude::*;
use crate::fixed::UNIT;
use crate::geometry::Vec2;
use crate::search::{first_index, holds_somewhere, lemma_first_is_unique};

verus! {

/// Layout constants shared by the position resolver, the hit tests and the
/// renderer. All lengths are fixed-point numbers.
#[derive(Debug, Clone, Copy, PartialEq, Eq, Structural)]
pub struct NodeLayout {
    pub width: i64,
    pub min_height: i64,
    pub header_height: i64,
    pub pin_radius: i64,
    pub input_node_offset: Vec2,
    pub output_node_offset: Vec2,
    pub pin_spacing: i64,
    pub pin_margin: i64,
}

impl NodeLayout {
    /// The standard layout: nodes 220 wide and at least 100 high, a header
    /// of 24, pins of radius 6 that sit 6 outside the border, 20 apart.
    pub open spec fn spec_default() -> NodeLayout {
        NodeLayout {
            width: 220_000_000,
            min_height: 100_000_000,
            header_height: 24_000_000,
            pin_radius: 6_000_000,
            input_node_offset: Vec2 { x: 50_000_000, y: 70_000_000 },
            output_node_offset: Vec2 { x: 170_000_000, y: 70_000_000 },
            pin_spacing: 20_000_000,
            pin_margin: 6_000_000,
        }
    }
}

impl Default for NodeLayout {
    fn default() -> (r: NodeLayout)
        ensures
            r == NodeLayout::spec_default(),
    {
        NodeLayout {
            width: 220 * UNIT,
            min_height: 100 * UNIT,
            header_height: 24 * UNIT,
            pin_radius: 6 * UNIT,
            input_node_offset: Vec2::new(50 * UNIT, 70 * UNIT),
            output_node_offset: Vec2::new(170 * UNIT, 70 * UNIT),
            pin_spacing: 20 * UNIT,
            pin_margin: 6 * UNIT,
        }
    }
}

/// Handle of a node, unique within a graph.
#[derive(Debug, Clone, Copy, PartialEq, Eq, Hash, Structural)]
pub struct NodeId(pub u32);

/// Handle of a pin, unique within a graph over the inputs and outputs of
/// all nodes.
#[derive(Debug, Clone, Copy, PartialEq, Eq, Hash, Structural)]
pub struct PinId(pub u32);

/// A named connection point that receives a value.
#[derive(Debug)]
pub struct InputPin {
    pub pin_id: PinId,
    pub label: String,
    pub parent_node: NodeId,
}

impl Clone for InputPin {
    fn clone(&self) -> (r: InputPin)
        ensures
            r == *self,
    {
        InputPin { pin_id: self.pin_id, label: self.label.clone(), parent_node: self.parent_node }
    }
}

/// A named connection point that provides a value.
#[derive(Debug)]
pub struct OutputPin {
    pub pin_id: PinId,
    pub label: String,
    pub parent_node: NodeId,
}

impl Clone for OutputPin {
    fn clone(&self) -> (r: OutputPin)
        ensures
            r == *self,
    {
        OutputPin { pin_id: self.pin_id, label: self.label.clone(), parent_node: self.parent_node }
    }
}

/// The offset of one pin from the corner of its node.
#[derive(Debug, Clone, Copy, PartialEq, Eq, Structural)]
pub struct PinOffset {
    pub pin_id: PinId,
    pub offset: Vec2,
}

/// The offsets of a node's input pins and of its output pins.
#[derive(Debug, PartialEq, Eq)]
pub struct PinOffsets {
    pub inputs: Vec<PinOffset>,
    pub outputs: Vec<PinOffset>,
}

impl Clone for PinOffsets {
    fn clone(&self) -> (r: PinOffsets)
        ensures
            r.inputs@ == self.inputs@,
            r.outputs@ == self.outputs@,
    {
        let inputs: Vec<PinOffset> = self.inputs.clone();
        let outputs: Vec<PinOffset> = self.outputs.clone();
        assert(inputs@ =~= self.inputs@);
        assert(outputs@ =~= self.outputs@);
        PinOffsets { inputs, outputs }
    }
}

impl PinOffsets {
    /// No offsets recorded.
    pub fn new() -> (r: PinOffsets)
        ensures
            r.inputs@.len() == 0,
            r.outputs@.len() == 0,
    {
        PinOffsets { inputs: Vec::new(), outputs: Vec::new() }
    }
}

/// A node on the canvas. `position` is in canvas space.
#[derive(Debug)]
pub struct NodeInstance {
    pub node_id: NodeId,
    pub position: Vec2,
    pub inputs: Vec<InputPin>,
    pub outputs: Vec<OutputPin>,
    pub title: String,
    pub size: Vec2,
    pub header_height: i64,
    /// Where the renderer drew the pins; empty until it has run.
    pub pin_offsets: PinOffsets,
}

/// Whether two nodes are the same but for the storage of their lists: all
/// plain fields are equal, and the lists hold the same items in the same
/// order.
pub open spec fn same_node(a: NodeInstance, b: NodeInstance) -> bool {
    &&& a.node_id == b.node_id
    &&& a.position == b.position
    &&& a.inputs@ == b.inputs@
    &&& a.outputs@ == b.outputs@
    &&& a.title == b.title
    &&& a.size == b.size
    &&& a.header_height == b.header_height
    &&& a.pin_offsets.inputs@ == b.pin_offsets.inputs@
    &&& a.pin_offsets.outputs@ == b.pin_offsets.outputs@
}

impl Clone for NodeInstance {
    fn clone(&self) -> (r: NodeInstance)
        ensures
            same_node(r, *self),
    {
        let inputs: Vec<InputPin> = self.inputs.clone();
        let outputs: Vec<OutputPin> = self.outputs.clone();
        assert(inputs@ =~= self.inputs@);
        assert(outputs@ =~= self.outputs@);
        NodeInstance {
            node_id: self.node_id,
            position: self.position,
            inputs,
            outputs,
            title: self.title.clone(),
            size: self.size,
            header_height: self.header_height,
            pin_offsets: self.pin_offsets.clone(),
        }
    }
}

/// A directed edge from an output pin to an input pin. Two connections are
/// equal when both ends are.
#[derive(Debug, Clone, Copy, PartialEq, Eq, Structural)]
pub struct Connection {
    pub from_pin: PinId,
    pub to_pin: PinId,
}

/// The camera: a zoom factor and the canvas offset.
#[derive(Debug, Clone, Copy, PartialEq, Eq, Structural)]
pub struct CanvasState {
    pub zoom: i64,
    pub offset: Vec2,
}

impl CanvasState {
    /// Zoom one, no offset.
    pub open spec fn spec_default() -> CanvasState {
        CanvasState { zoom: 1_000_000, offset: Vec2 { x: 0, y: 0 } }
    }
}

impl Default for CanvasState {
    fn default() -> (r: CanvasState)
        ensures
            r == CanvasState::spec_default(),
    {
        CanvasState { zoom: UNIT, offset: Vec2::zero() }
    }
}

/// The test "the node at place `i` has the id `id`".
pub open spec fn has_id_at(nodes: Seq<NodeInstance>, id: NodeId) -> spec_fn(int) -> bool {
    |i: int| nodes[i].node_id == id
}

/// Whether some node of `nodes` has the id `id`.
pub open spec fn has_node(nodes: Seq<NodeInstance>, id: NodeId) -> bool {
    holds_somewhere(nodes.len() as int, has_id_at(nodes, id))
}

/// The first place in `nodes` that holds a node with id `id`. Meaningful
/// where there is such a node.
pub open spec fn node_place(nodes: Seq<NodeInstance>, id: NodeId) -> int {
    first_index(nodes.len() as int, has_id_at(nodes, id))
}

/// `nodes` with `node` put under its id: in the place of the node that had
/// the id, or behind all others where none had it.
pub open spec fn spec_with_node(nodes: Seq<NodeInstance>, node: NodeInstance) -> Seq<NodeInstance> {
    if has_node(nodes, node.node_id) {
        nodes.update(node_place(nodes, node.node_id), node)
    } else {
        nodes.push(node)
    }
}

/// `nodes` without the node that has the id `id`.
pub open spec fn spec_without_node(nodes: Seq<NodeInstance>, id: NodeId) -> Seq<NodeInstance> {
    if has_node(nodes, id) {
        nodes.remove(node_place(nodes, id))
    } else {
        nodes
    }
}

/// `node` moved to the canvas position `position`.
pub open spec fn with_position(node: NodeInstance, position: Vec2) -> NodeInstance {
    NodeInstance { position, ..node }
}

/// Whether no two nodes of `nodes` share an id.
pub open spec fn unique_node_ids(nodes: Seq<NodeInstance>) -> bool {
    forall|i: int, j: int|
        0 <= i < nodes.len() && 0 <= j < nodes.len() && i != j ==> (#[trigger] nodes[i]).node_id
            != (#[trigger] nodes[j]).node_id
}

/// The nodes of a graph, keyed by their ids and kept in the order in which
/// the ids first came in.
#[derive(Debug)]
pub struct NodeMap {
    entries: Vec<NodeInstance>,
}

impl View for NodeMap {
    type V = Seq<NodeInstance>;

    closed spec fn view(&self) -> Seq<NodeInstance> {
        self.entries@
    }
}

impl NodeMap {
    #[verifier::type_invariant]
    spec fn ids_are_unique(self) -> bool {
        unique_node_ids(self.entries@)
    }

    /// An empty map.
    pub fn new() -> (r: NodeMap)
        ensures
            r@ == Seq::<NodeInstance>::empty(),
    {
        NodeMap { entries: Vec::new() }
    }

    /// The number of nodes.
    pub fn len(&self) -> (n: usize)
        ensures
            n == self@.len(),
    {
        self.entries.len()
    }

    pub fn is_empty(&self) -> (r: bool)
        ensures
            r == (self@.len() == 0),
    {
        self.entries.len() == 0
    }

    /// The nodes in order. No two of them share an id.
    pub fn entries(&self) -> (r: &Vec<NodeInstance>)
        ensures
            r@ == self@,
            unique_node_ids(self@),
    {
        proof {
            use_type_invariant(self);
        }
        &self.entries
    }

    /// The place of the node with id `id`, if there is one.
    pub fn position_of(&self, id: NodeId) -> (r: Option<usize>)
        ensures
            match r {
                Some(i) => {
                    &&& has_node(self@, id)
                    &&& i == node_place(self@, id)
                    &&& i < self@.len()
                    &&& self@[i as int].node_id == id
                },
                None => !has_node(self@, id),
            },
    {
        let mut i: usize = 0;
        while i < self.entries.len()
            invariant
                i <= self.entries@.len(),
                forall|j: int| 0 <= j < i ==> !#[trigger] has_id_at(self.entries@, id)(j),
            decreases self.entries@.len() - i,
        {
            if self.entries[i].node_id == id {
                proof {
                    lemma_first_is_unique(
                        self.entries@.len() as int,
                        has_id_at(self.entries@, id),
                        i as int,
                    );
                }
                return Some(i);
            }
            i += 1;
        }
        None
    }

    pub fn contains_key(&self, id: &NodeId) -> (r: bool)
        ensures
            r == has_node(self@, *id),
    {
        self.position_of(*id).is_some()
    }

    /// The node with id `id`, if there is one.
    pub fn get(&self, id: &NodeId) -> (r: Option<&NodeInstance>)
        ensures
            match r {
                Some(node) => has_node(self@, *id) && *node == self@[node_place(self@, *id)],
                None => !has_node(self@, *id),
            },
    {
        match self.position_of(*id) {
            Some(i) => Some(&self.entries[i]),
            None => None,
        }
    }

    /// Moves the node at place `index` to the canvas position `position`.
    pub fn set_position(&mut self, index: usize, position: Vec2)
        requires
            index < old(self)@.len(),
        ensures
            final(self)@ == old(self)@.update(
                index as int,
                with_position(old(self)@[index as int], position),
            ),
    {
        proof {
            use_type_invariant(&*self);
        }
        let mut entries: Vec<NodeInstance> = Vec::new();
        core::mem::swap(&mut self.entries, &mut entries);
        let mut node: NodeInstance = entries.remove(index);
        node.position = position;
        entries.insert(index, node);
        assert(entries@ =~= old(self).entries@.update(
            index as int,
            with_position(old(self).entries@[index as int], position),
        ));
        self.entries = entries;
    }

    /// Puts `node` under its own id. A node that was there under that id is
    /// replaced, keeps its place in the order, and is handed back.
    pub fn insert(&mut self, node: NodeInstance) -> (r: Option<NodeInstance>)
        ensures
            unique_node_ids(old(self)@),
            unique_node_ids(final(self)@),
            has_node(final(self)@, node.node_id),
            match r {
                Some(previous) => {
                    &&& has_node(old(self)@, node.node_id)
                    &&& previous == old(self)@[node_place(old(self)@, node.node_id)]
                    &&& final(self)@ == old(self)@.update(
                        node_place(old(self)@, node.node_id),
                        node,
                    )
                },
                None => {
                    &&& !has_node(old(self)@, node.node_id)
                    &&& final(self)@ == old(self)@.push(node)
                },
            },
    {
        proof {
            use_type_invariant(&*self);
        }
        let found: Option<usize> = self.position_of(node.node_id);
        let mut entries: Vec<NodeInstance> = Vec::new();
        core::mem::swap(&mut self.entries, &mut entries);
        let ghost id: NodeId = node.node_id;
        match found {
            Some(i) => {
                let previous: NodeInstance = entries.remove(i);
                entries.insert(i, node);
                assert(entries@ =~= old(self).entries@.update(i as int, node));
                assert(has_id_at(entries@, id)(i as int));
                self.entries = entries;
                Some(previous)
            },
            None => {
                assert forall|j: int| 0 <= j < entries@.len() implies (
                #[trigger] entries@[j]).node_id != id by {
                    assert(!has_id_at(old(self).entries@, id)(j));
                }
                entries.push(node);
                assert(has_id_at(entries@, id)(entries@.len() - 1));
                self.entries = entries;
                None
            },
        }
    }

    /// Takes out the node with id `id`, if there is one, and hands it back.
    /// The order of the others stays.
    pub fn remove(&mut self, id: &NodeId) -> (r: Option<NodeInstance>)
        ensures
            unique_node_ids(old(self)@),
            unique_node_ids(final(self)@),
            !has_node(final(self)@, *id),
            match r {
                Some(node) => {
                    &&& has_node(old(self)@, *id)
                    &&& node == old(self)@[node_place(old(self)@, *id)]
                    &&& final(self)@ == old(self)@.remove(node_place(old(self)@, *id))
                },
                None => {
                    &&& !has_node(old(self)@, *id)
                    &&& final(self)@ == old(self)@
                },
            },
    {
        proof {
            use_type_invariant(&*self);
        }
        match self.position_of(*id) {
            Some(i) => {
                let mut entries: Vec<NodeInstance> = Vec::new();
                core::mem::swap(&mut self.entries, &mut entries);
                let node: NodeInstance = entries.remove(i);
                assert forall|j: int| 0 <= j < entries@.len() implies !#[trigger] has_id_at(
                    entries@,
                    *id,
                )(j) by {
                    if j < i {
                        assert(entries@[j] == old(self).entries@[j]);
                    } else {
                        assert(entries@[j] == old(self).entries@[j + 1]);
                    }
                }
                self.entries = entries;
                Some(node)
            },
            None => None,
        }
    }
}

impl Clone for NodeMap {
    fn clone(&self) -> (r: NodeMap)
        ensures
            r@.len() == self@.len(),
            forall|i: int| 0 <= i < self@.len() ==> same_node(#[trigger] r@[i], self@[i]),
    {
        proof {
            use_type_invariant(self);
        }
        let mut entries: Vec<NodeInstance> = Vec::new();
        let mut i: usize = 0;
        while i < self.entries.len()
            invariant
                i <= self.entries@.len(),
                entries@.len() == i,
                forall|j: int| 0 <= j < i ==> same_node(#[trigger] entries@[j], self.entries@[j]),
            decreases self.entries@.len() - i,
        {
            entries.push(self.entries[i].clone());
            i += 1;
        }
        NodeMap { entries }
    }
}

/// The test that holds of every connection but those equal to `connection`.
pub open spec fn differs_from(connection: Connection) -> spec_fn(Connection) -> bool {
    |c: Connection| c != connection
}

/// A node graph: the nodes, the connections in the order in which they
/// were made, and the camera.
#[derive(Debug)]
pub struct NodeGraph {
    pub nodes: NodeMap,
    pub connections: Vec<Connection>,
    pub canvas_state: CanvasState,
}

impl NodeGraph {
    /// An empty graph under the default camera.
    pub fn new() -> (r: NodeGraph)
        ensures
            r.nodes@ == Seq::<NodeInstance>::empty(),
            r.connections@ == Seq::<Connection>::empty(),
            r.canvas_state == CanvasState::spec_default(),
    {
        NodeGraph {
            nodes: NodeMap::new(),
            connections: Vec::new(),
            canvas_state: CanvasState::default(),
        }
    }

    /// Adds `node` under its id. A node that was there under the same id is
    /// replaced without notice: the id allocation of the node factory keeps
    /// ids apart.
    pub fn add_node(&mut self, node: NodeInstance)
        ensures
            has_node(final(self).nodes@, node.node_id),
            final(self).nodes@ == spec_with_node(old(self).nodes@, node),
            final(self).connections == old(self).connections,
            final(self).canvas_state == old(self).canvas_state,
    {
        let _ = self.nodes.insert(node);
    }

    /// Removes the node with id `node_id`, if there is one. Connections that
    /// end in one of its pins are left in place: they dangle until they are
    /// removed one by one, and position queries on them find nothing.
    pub fn remove_node(&mut self, node_id: NodeId)
        ensures
            !has_node(final(self).nodes@, node_id),
            final(self).nodes@ == spec_without_node(old(self).nodes@, node_id),
            final(self).connections == old(self).connections,
            final(self).canvas_state == old(self).canvas_state,
    {
        let _ = self.nodes.remove(&node_id);
    }

    /// Appends `connection`. Nothing is checked here.
    pub fn add_connection(&mut self, connection: Connection)
        ensures
            final(self).connections@ == old(self).connections@.push(connection),
            final(self).nodes == old(self).nodes,
            final(self).canvas_state == old(self).canvas_state,
    {
        self.connections.push(connection);
    }

    /// Removes every connection equal to `connection` and keeps the others
    /// in their order.
    pub fn remove_connection(&mut self, connection: &Connection)
        ensures
            final(self).connections@ == old(self).connections@.filter(differs_from(*connection)),
            final(self).nodes == old(self).nodes,
            final(self).canvas_state == old(self).canvas_state,
    {
        let ghost keep = differs_from(*connection);
        let mut kept: Vec<Connection> = Vec::new();
        let mut i: usize = 0;
        while i < self.connections.len()
            invariant
                i <= self.connections@.len(),
                self.connections == old(self).connections,
                keep == differs_from(*connection),
                kept@ == self.connections@.take(i as int).filter(keep),
            decreases self.connections@.len() - i,
        {
            let c: Connection = self.connections[i];
            proof {
                let before = self.connections@.take(i as int);
                assert(self.connections@.take(i + 1) =~= before.push(c));
                before.lemma_filter_push(c, keep);
            }
            if c != *connection {
                kept.push(c);
            }
            i += 1;
        }
        assert(self.connections@.take(i as int) =~= self.connections@);
        self.connections = kept;
    }
}

impl Clone for NodeGraph {
    fn clone(&self) -> (r: NodeGraph)
        ensures
            r.nodes@.len() == self.nodes@.len(),
            forall|i: int|
                0 <= i < self.nodes@.len() ==> same_node(#[trigger] r.nodes@[i], self.nodes@[i]),
            r.connections@ == self.connections@,
            r.canvas_state == self.canvas_state,
    {
        let connections: Vec<Connection> = self.connections.clone();
        assert(connections@ =~= self.connections@);
        NodeGraph { nodes: self.nodes.clone(), connections, canvas_state: self.canvas_state }
    }
}

impl Default for NodeGraph {
    fn default() -> (r: NodeGraph)
        ensures
            r.nodes@ == Seq::<NodeInstance>::empty(),
            r.connections@ == Seq::<Connection>::empty(),
            r.canvas_state == CanvasState::spec_default(),
    {
        NodeGraph::new()
    }
}

} // verus!
