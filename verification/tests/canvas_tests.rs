use node_graph::canvas::{
    canvas_to_screen, screen_to_canvas, update_canvas_system, zoom_step, CanvasInput, ZOOM_MAX,
    ZOOM_MIN,
};
use node_graph::geometry::Vec2;
use node_graph::model::{CanvasState, NodeGraph};

fn fx(v: f64) -> i64 {
    (v * 1_000_000.0).round() as i64
}

fn v2(x: f64, y: f64) -> Vec2 {
    Vec2::new(fx(x), fx(y))
}

fn to_f(v: i64) -> f64 {
    v as f64 / 1_000_000.0
}

fn no_input() -> CanvasInput {
    CanvasInput { secondary_down: false, middle_down: false, motion: vec![], wheel: vec![] }
}

#[test]
fn test_screen_to_canvas() {
    let canvas_state = CanvasState { zoom: fx(1.0), offset: v2(100.0, 50.0) };

    let screen_pos = v2(200.0, 150.0);
    let canvas_pos = screen_to_canvas(screen_pos, &canvas_state);

    // (200/1.0) + 100 = 300, (150/1.0) + 50 = 200
    assert_eq!(canvas_pos, v2(300.0, 200.0));
}

#[test]
fn test_screen_to_canvas_with_zoom() {
    let canvas_state = CanvasState { zoom: fx(2.0), offset: v2(100.0, 50.0) };

    let screen_pos = v2(400.0, 300.0);
    let canvas_pos = screen_to_canvas(screen_pos, &canvas_state);

    // (400/2.0) + 100 = 300, (300/2.0) + 50 = 200
    assert_eq!(canvas_pos, v2(300.0, 200.0));
}

#[test]
fn test_canvas_to_screen() {
    let canvas_state = CanvasState { zoom: fx(1.0), offset: v2(100.0, 50.0) };

    let canvas_pos = v2(300.0, 200.0);
    let screen_pos = canvas_to_screen(canvas_pos, &canvas_state);

    // (300 - 100) * 1.0 = 200, (200 - 50) * 1.0 = 150
    assert_eq!(screen_pos, v2(200.0, 150.0));
}

#[test]
fn test_canvas_to_screen_with_zoom() {
    let canvas_state = CanvasState { zoom: fx(2.0), offset: v2(100.0, 50.0) };

    let canvas_pos = v2(300.0, 200.0);
    let screen_pos = canvas_to_screen(canvas_pos, &canvas_state);

    // (300 - 100) * 2.0 = 400, (200 - 50) * 2.0 = 300
    assert_eq!(screen_pos, v2(400.0, 300.0));
}

#[test]
fn test_coordinate_transform_roundtrip() {
    let canvas_state = CanvasState { zoom: fx(1.5), offset: v2(75.0, 125.0) };

    let canvas_point = v2(250.0, 350.0);
    let screen = canvas_to_screen(canvas_point, &canvas_state);
    let back_to_canvas = screen_to_canvas(screen, &canvas_state);

    assert!((to_f(canvas_point.x) - to_f(back_to_canvas.x)).abs() < 0.001);
    assert!((to_f(canvas_point.y) - to_f(back_to_canvas.y)).abs() < 0.001);
}

#[test]
fn test_coordinate_transform_roundtrip_with_zoom() {
    let canvas_state = CanvasState { zoom: fx(3.0), offset: v2(50.0, 25.0) };

    let canvas_point = v2(100.0, 200.0);
    let screen = canvas_to_screen(canvas_point, &canvas_state);
    let back_to_canvas = screen_to_canvas(screen, &canvas_state);

    assert!((to_f(canvas_point.x) - to_f(back_to_canvas.x)).abs() < 0.001);
    assert!((to_f(canvas_point.y) - to_f(back_to_canvas.y)).abs() < 0.001);
}

#[test]
fn test_screen_to_canvas_zero_offset() {
    let canvas_state = CanvasState { zoom: fx(1.0), offset: Vec2::zero() };

    let screen_pos = v2(150.0, 250.0);
    let canvas_pos = screen_to_canvas(screen_pos, &canvas_state);

    assert_eq!(canvas_pos, screen_pos);
}

#[test]
fn test_canvas_to_screen_zero_offset() {
    let canvas_state = CanvasState { zoom: fx(1.0), offset: Vec2::zero() };

    let canvas_pos = v2(150.0, 250.0);
    let screen_pos = canvas_to_screen(canvas_pos, &canvas_state);

    assert_eq!(screen_pos, screen_pos);
    assert_eq!(screen_pos, canvas_pos);
}

#[test]
fn test_screen_to_canvas_zero_zoom() {
    let canvas_state = CanvasState { zoom: fx(0.0), offset: v2(100.0, 50.0) };

    let screen_pos = v2(200.0, 150.0);
    let canvas_pos = screen_to_canvas(screen_pos, &canvas_state);

    // A division by zero runs to the end of the range, which stands in for
    // infinity.
    assert_eq!(canvas_pos.x, i64::MAX);
    assert_eq!(canvas_pos.y, i64::MAX);
}

#[test]
fn test_negative_coordinates() {
    let canvas_state = CanvasState { zoom: fx(1.0), offset: v2(-50.0, -25.0) };

    let screen_pos = v2(-100.0, -150.0);
    let canvas_pos = screen_to_canvas(screen_pos, &canvas_state);

    assert_eq!(canvas_pos, v2(-150.0, -175.0));

    let back_to_screen = canvas_to_screen(canvas_pos, &canvas_state);
    assert_eq!(back_to_screen, screen_pos);
}

#[test]
fn test_large_coordinates() {
    let canvas_state = CanvasState { zoom: fx(0.5), offset: v2(1000.0, 2000.0) };

    let screen_pos = v2(5000.0, 8000.0);
    let canvas_pos = screen_to_canvas(screen_pos, &canvas_state);

    // (5000/0.5) + 1000 = 11000, (8000/0.5) + 2000 = 18000
    assert_eq!(canvas_pos, v2(11000.0, 18000.0));
}

#[test]
fn test_update_canvas_system_no_input() {
    let mut node_graph = NodeGraph::default();

    update_canvas_system(&mut node_graph, &no_input());

    assert_eq!(node_graph.canvas_state.zoom, fx(1.0));
    assert_eq!(node_graph.canvas_state.offset, Vec2::zero());
}

#[test]
fn test_update_canvas_system_zoom_in() {
    let mut node_graph = NodeGraph::default();

    let input = CanvasInput { wheel: vec![fx(1.0)], ..no_input() };
    update_canvas_system(&mut node_graph, &input);

    assert!(node_graph.canvas_state.zoom > fx(1.0));
    assert!(node_graph.canvas_state.zoom <= fx(4.0));
    assert_eq!(node_graph.canvas_state.zoom, fx(1.1));
}

#[test]
fn test_update_canvas_system_zoom_out() {
    let mut node_graph = NodeGraph::default();

    let input = CanvasInput { wheel: vec![fx(-1.0)], ..no_input() };
    update_canvas_system(&mut node_graph, &input);

    assert!(node_graph.canvas_state.zoom < fx(1.0));
    assert!(node_graph.canvas_state.zoom >= fx(0.1));
    assert_eq!(node_graph.canvas_state.zoom, fx(0.9));
}

#[test]
fn test_update_canvas_system_zoom_clamping() {
    let mut node_graph = NodeGraph::default();

    let input = CanvasInput { wheel: vec![fx(100.0)], ..no_input() };
    update_canvas_system(&mut node_graph, &input);
    assert_eq!(node_graph.canvas_state.zoom, fx(4.0));

    let input = CanvasInput { wheel: vec![fx(-100.0)], ..no_input() };
    update_canvas_system(&mut node_graph, &input);
    assert_eq!(node_graph.canvas_state.zoom, fx(0.1));
}

#[test]
fn test_update_canvas_system_pan() {
    let mut node_graph = NodeGraph::default();

    let input = CanvasInput { secondary_down: true, motion: vec![v2(10.0, -5.0)], ..no_input() };
    update_canvas_system(&mut node_graph, &input);

    assert!(node_graph.canvas_state.offset.x < 0);
    assert!(node_graph.canvas_state.offset.y > 0);
    assert_eq!(node_graph.canvas_state.offset, v2(-10.0, 5.0));
}

#[test]
fn test_update_canvas_system_pan_with_middle_button() {
    let mut node_graph = NodeGraph::default();

    let input = CanvasInput { middle_down: true, motion: vec![v2(20.0, 15.0)], ..no_input() };
    update_canvas_system(&mut node_graph, &input);

    assert!(node_graph.canvas_state.offset.x < 0);
    assert!(node_graph.canvas_state.offset.y < 0);
}

#[test]
fn test_update_canvas_system_no_pan_without_button() {
    let mut node_graph = NodeGraph::default();

    let input = CanvasInput { motion: vec![v2(10.0, 10.0)], ..no_input() };
    update_canvas_system(&mut node_graph, &input);

    assert_eq!(node_graph.canvas_state.offset, Vec2::zero());
}

#[test]
fn test_update_canvas_system_pan_with_zoom() {
    let mut node_graph = NodeGraph::default();
    node_graph.canvas_state.zoom = fx(2.0);

    let input = CanvasInput { secondary_down: true, motion: vec![v2(10.0, -10.0)], ..no_input() };
    update_canvas_system(&mut node_graph, &input);

    // With zoom 2 the pan is half the pointer motion, the other way.
    assert!((to_f(node_graph.canvas_state.offset.x) + 5.0).abs() < 0.001);
    assert!((to_f(node_graph.canvas_state.offset.y) - 5.0).abs() < 0.001);
}

#[test]
fn test_update_canvas_system_combined_operations() {
    let mut node_graph = NodeGraph::default();

    let input = CanvasInput {
        secondary_down: true,
        middle_down: false,
        motion: vec![v2(5.0, 5.0)],
        wheel: vec![fx(0.5)],
    };
    update_canvas_system(&mut node_graph, &input);

    assert!(node_graph.canvas_state.zoom > fx(1.0));
    assert!(node_graph.canvas_state.offset.x < 0);
    assert!(node_graph.canvas_state.offset.y < 0);
    // The pan goes by the zoom that the frame began with.
    assert_eq!(node_graph.canvas_state.offset, v2(-5.0, -5.0));
    assert_eq!(node_graph.canvas_state.zoom, fx(1.05));
}

#[test]
fn test_coordinate_precision() {
    let canvas_state = CanvasState { zoom: fx(0.3333333), offset: v2(0.1234567, 0.7654321) };

    let canvas_point = v2(123.456789, 987.654321);
    let screen_pos = canvas_to_screen(canvas_point, &canvas_state);
    let back_to_canvas = screen_to_canvas(screen_pos, &canvas_state);

    assert!((to_f(canvas_point.x) - to_f(back_to_canvas.x)).abs() < 0.0001);
    assert!((to_f(canvas_point.y) - to_f(back_to_canvas.y)).abs() < 0.0001);
}

#[test]
fn identity_camera_leaves_points_alone() {
    let camera = CanvasState::default();
    for p in [v2(0.0, 0.0), v2(-3.5, 7.25), Vec2::new(i64::MAX, i64::MIN), Vec2::new(1, -1)] {
        assert_eq!(screen_to_canvas(p, &camera), p);
        assert_eq!(canvas_to_screen(p, &camera), p);
    }
}

#[test]
fn round_trip_stays_within_a_thousandth_over_the_zoom_range() {
    for zoom in [fx(0.001), fx(0.1), fx(0.7), fx(1.0), fx(4.0), fx(1000.0)] {
        let camera = CanvasState { zoom, offset: v2(-9999.5, 1234.25) };
        for p in [v2(10000.0, -10000.0), v2(0.000001, 3.3), v2(-77.123456, 9000.9)] {
            let back = screen_to_canvas(canvas_to_screen(p, &camera), &camera);
            assert!(p.x - back.x >= 0 && p.x - back.x <= 1000);
            assert!(p.y - back.y >= 0 && p.y - back.y <= 1000);
            let back = canvas_to_screen(screen_to_canvas(p, &camera), &camera);
            assert!(p.x - back.x >= 0 && p.x - back.x <= 1000);
            assert!(p.y - back.y >= 0 && p.y - back.y <= 1000);
        }
    }
}

#[test]
fn round_trip_under_a_tiny_zoom_can_miss_by_more() {
    // zoom 0.000999: 1001 * 999 = 999_999, so a canvas coordinate of 1001
    // steps shows at 0 and comes back as 0.
    let camera = CanvasState { zoom: 999, offset: Vec2::zero() };
    let p = Vec2::new(1001, 0);
    let back = screen_to_canvas(canvas_to_screen(p, &camera), &camera);
    assert_eq!(back.x, 0);
    assert!(p.x - back.x > 1000);
}

#[test]
fn zoom_stays_in_range_whatever_the_scroll() {
    let mut node_graph = NodeGraph::default();
    let wheel = vec![fx(3.0), fx(1000.0), i64::MAX, fx(-0.5), i64::MIN, fx(2.0), fx(-7.0)];
    for i in 0..wheel.len() {
        let input = CanvasInput { wheel: wheel[i..].to_vec(), ..no_input() };
        update_canvas_system(&mut node_graph, &input);
        assert!(node_graph.canvas_state.zoom >= ZOOM_MIN);
        assert!(node_graph.canvas_state.zoom <= ZOOM_MAX);
    }
}

#[test]
fn zoom_step_rounds_down_and_clamps() {
    assert_eq!(zoom_step(fx(1.0), fx(1.0)), fx(1.1));
    assert_eq!(zoom_step(fx(1.0), 15), fx(1.0) + 1);
    assert_eq!(zoom_step(fx(1.0), -15), fx(1.0) - 2);
    assert_eq!(zoom_step(fx(4.0), fx(0.1)), fx(4.0));
    assert_eq!(zoom_step(fx(0.1), fx(-0.1)), fx(0.1));
    assert_eq!(zoom_step(fx(2.0), 0), fx(2.0));
}

#[test]
fn motion_events_add_up() {
    let mut node_graph = NodeGraph::default();
    let input = CanvasInput {
        secondary_down: true,
        motion: vec![v2(1.0, 2.0), v2(3.0, -4.0), v2(-0.5, 0.5)],
        ..no_input()
    };
    update_canvas_system(&mut node_graph, &input);
    assert_eq!(node_graph.canvas_state.offset, v2(-3.5, 1.5));
}
