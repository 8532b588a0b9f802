//! The transient state of the gestures in progress. It is not part of the
//! graph: it starts out empty, the interaction handlers change it frame by
//! frame, and it is empty again when a gesture ends or is cancelled.

use vstd::prelude::*;
use crate::geometry::Vec2;
use crate::model::{NodeId, PinId};

verus! {

/// A connection that is being dragged out of an output pin.
#[derive(Debug, Clone, Copy, PartialEq, Eq, Structural)]
pub struct PendingConnection {
    /// The output pin that the gesture started on.
    pub from_pin: PinId,
    /// Where on the screen the gesture started.
    pub from_screen_pos: Vec2,
}

/// What the pointer is in the middle of.
#[derive(Debug, Clone, Copy, PartialEq, Eq)]
pub struct GraphUiState {
    /// The connection being dragged out, if any.
    pub pending_connection: Option<PendingConnection>,
    /// The node being dragged, if any.
    pub active_drag_node: Option<NodeId>,
    /// The canvas position that the dragged node started from.
    pub drag_origin: Vec2,
    pub drag_offset: Vec2,
}

impl GraphUiState {
    /// Nothing in progress.
    pub open spec fn spec_default() -> GraphUiState {
        GraphUiState {
            pending_connection: None,
            active_drag_node: None,
            drag_origin: Vec2::spec_zero(),
            drag_offset: Vec2::spec_zero(),
        }
    }

    /// Whether neither a node drag nor a connection drag is in progress.
    pub open spec fn is_idle(self) -> bool {
        self.active_drag_node.is_none() && self.pending_connection.is_none()
    }

    /// Forgets the node drag. A pending connection stays.
    pub fn clear_drag_state(&mut self)
        ensures
            *final(self) == (GraphUiState {
                active_drag_node: None,
                drag_origin: Vec2::spec_zero(),
                drag_offset: Vec2::spec_zero(),
                ..*old(self)
            }),
    {
        self.active_drag_node = None;
        self.drag_origin = Vec2::zero();
        self.drag_offset = Vec2::zero();
    }

    /// Forgets the pending connection. A node drag stays.
    pub fn clear_pending_connection(&mut self)
        ensures
            *final(self) == (GraphUiState { pending_connection: None, ..*old(self) }),
    {
        self.pending_connection = None;
    }
}

impl Default for GraphUiState {
    fn default() -> (r: GraphUiState)
        ensures
            r == GraphUiState::spec_default(),
    {
        GraphUiState {
            pending_connection: None,
            active_drag_node: None,
            drag_origin: Vec2::zero(),
            drag_offset: Vec2::zero(),
        }
    }
}

} // verus!
