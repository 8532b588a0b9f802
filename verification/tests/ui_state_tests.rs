use node_graph::geometry::Vec2;
use node_graph::model::{NodeId, PinId};
use node_graph::ui_state::{GraphUiState, PendingConnection};

fn fx(v: f64) -> i64 {
    (v * 1_000_000.0).round() as i64
}

fn v2(x: f64, y: f64) -> Vec2 {
    Vec2::new(fx(x), fx(y))
}

#[test]
fn test_graph_ui_state_default() {
    let ui_state = GraphUiState::default();

    assert_eq!(ui_state.active_drag_node, None);
    assert_eq!(ui_state.pending_connection, None);
    assert_eq!(ui_state.drag_origin, Vec2::zero());
    assert_eq!(ui_state.drag_offset, Vec2::zero());
}

#[test]
fn test_graph_ui_state_dragging() {
    let mut ui_state = GraphUiState::default();

    ui_state.active_drag_node = Some(NodeId(1));
    ui_state.drag_origin = v2(300.0, 400.0);
    ui_state.drag_offset = v2(50.0, 60.0);

    assert_eq!(ui_state.active_drag_node, Some(NodeId(1)));
    assert_eq!(ui_state.drag_origin, v2(300.0, 400.0));
    assert_eq!(ui_state.drag_offset, v2(50.0, 60.0));
}

#[test]
fn test_pending_connection_creation() {
    let pin_id = PinId(1);
    let from_pos = v2(100.0, 200.0);

    let pending = PendingConnection { from_pin: pin_id, from_screen_pos: from_pos };

    assert_eq!(pending.from_pin, pin_id);
    assert_eq!(pending.from_screen_pos, from_pos);
}

#[test]
fn test_pending_connection_clone() {
    let pin_id = PinId(1);
    let from_pos = v2(100.0, 200.0);

    let pending = PendingConnection { from_pin: pin_id, from_screen_pos: from_pos };

    let cloned = pending.clone();
    assert_eq!(cloned.from_pin, pending.from_pin);
    assert_eq!(cloned.from_screen_pos, pending.from_screen_pos);
}

#[test]
fn test_graph_ui_state_with_pending_connection() {
    let mut ui_state = GraphUiState::default();

    let pin_id = PinId(1);
    let from_pos = v2(100.0, 200.0);

    let pending = PendingConnection { from_pin: pin_id, from_screen_pos: from_pos };

    ui_state.pending_connection = Some(pending.clone());

    assert_eq!(ui_state.active_drag_node, None);
    assert_eq!(ui_state.pending_connection, Some(pending));
    assert_eq!(ui_state.drag_origin, Vec2::zero());
    assert_eq!(ui_state.drag_offset, Vec2::zero());
}

#[test]
fn test_clear_drag_state() {
    let mut ui_state = GraphUiState::default();

    ui_state.active_drag_node = Some(NodeId(1));
    ui_state.drag_origin = v2(300.0, 400.0);
    ui_state.drag_offset = v2(50.0, 60.0);

    ui_state.clear_drag_state();

    assert_eq!(ui_state.active_drag_node, None);
    assert_eq!(ui_state.drag_origin, Vec2::zero());
    assert_eq!(ui_state.drag_offset, Vec2::zero());
}

#[test]
fn test_clear_pending_connection() {
    let mut ui_state = GraphUiState::default();

    let pin_id = PinId(1);
    let from_pos = v2(100.0, 200.0);

    let pending = PendingConnection { from_pin: pin_id, from_screen_pos: from_pos };

    ui_state.pending_connection = Some(pending);

    ui_state.clear_pending_connection();

    assert_eq!(ui_state.active_drag_node, None);
    assert_eq!(ui_state.pending_connection, None);
    assert_eq!(ui_state.drag_origin, Vec2::zero());
    assert_eq!(ui_state.drag_offset, Vec2::zero());
}

#[test]
fn clearing_one_gesture_leaves_the_other() {
    let pending = PendingConnection { from_pin: PinId(7), from_screen_pos: v2(1.0, 2.0) };
    let mut ui_state = GraphUiState {
        pending_connection: Some(pending),
        active_drag_node: Some(NodeId(3)),
        drag_origin: v2(4.0, 5.0),
        drag_offset: v2(6.0, 7.0),
    };
    ui_state.clear_drag_state();
    assert_eq!(ui_state.pending_connection, Some(pending));
    ui_state.active_drag_node = Some(NodeId(3));
    ui_state.drag_origin = v2(4.0, 5.0);
    ui_state.clear_pending_connection();
    assert_eq!(ui_state.active_drag_node, Some(NodeId(3)));
    assert_eq!(ui_state.drag_origin, v2(4.0, 5.0));
}
