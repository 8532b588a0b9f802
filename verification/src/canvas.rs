//! The camera: mapping between canvas space and screen space, zooming and
//! panning.
//!
//! Canvas space is where node positions are stored. Screen space is what the
//! viewport shows. With zoom `z` and offset `o`, a screen point `p` lies at
//! `p / z + o` on the canvas, and a canvas point `p` shows at `(p - o) * z`.

use vstd::prelude::*;
use crate::fixed::{
    fx_add, fx_clamp, fx_mul, lemma_floor_bounds, lemma_there_and_back, spec_add, spec_clamp,
    spec_div, spec_mul, spec_sub, UNIT,
};
use crate::geometry::Vec2;
use crate::model::{CanvasState, NodeGraph};

verus! {

/// The smallest zoom factor that scrolling can reach: one tenth.
pub const ZOOM_MIN: i64 = 100_000;

/// The largest zoom factor that scrolling can reach: four.
pub const ZOOM_MAX: i64 = 4_000_000;

/// The change of zoom per unit of scroll: one tenth.
pub const ZOOM_SENSITIVITY: i64 = 100_000;

/// What the pointing device reported for the camera in one frame.
#[derive(Debug)]
pub struct CanvasInput {
    /// Whether the secondary button is held.
    pub secondary_down: bool,
    /// Whether the middle button is held.
    pub middle_down: bool,
    /// The pointer motion events of the frame, in screen space.
    pub motion: Vec<Vec2>,
    /// The vertical scroll of each wheel event of the frame.
    pub wheel: Vec<i64>,
}

impl Clone for CanvasInput {
    fn clone(&self) -> (r: CanvasInput)
        ensures
            r.secondary_down == self.secondary_down,
            r.middle_down == self.middle_down,
            r.motion@ == self.motion@,
            r.wheel@ == self.wheel@,
    {
        let motion: Vec<Vec2> = self.motion.clone();
        let wheel: Vec<i64> = self.wheel.clone();
        assert(motion@ =~= self.motion@);
        assert(wheel@ =~= self.wheel@);
        CanvasInput {
            secondary_down: self.secondary_down,
            middle_down: self.middle_down,
            motion,
            wheel,
        }
    }
}

/// Where the screen point `p` lies on the canvas.
pub open spec fn spec_screen_to_canvas(p: Vec2, camera: CanvasState) -> Vec2 {
    p.spec_unscaled(camera.zoom).spec_plus(camera.offset)
}

/// Where the canvas point `p` shows on the screen.
pub open spec fn spec_canvas_to_screen(p: Vec2, camera: CanvasState) -> Vec2 {
    p.spec_minus(camera.offset).spec_scaled(camera.zoom)
}

/// The sum of a sequence of motions, taken in order.
pub open spec fn spec_total_motion(motion: Seq<Vec2>) -> Vec2
    decreases motion.len(),
{
    if motion.len() == 0 {
        Vec2::spec_zero()
    } else {
        spec_total_motion(motion.drop_last()).spec_plus(motion.last())
    }
}

/// The offset after the pointer dragged the canvas by `delta` on screen.
pub open spec fn spec_panned(camera: CanvasState, delta: Vec2) -> Vec2 {
    camera.offset.spec_minus(delta.spec_unscaled(camera.zoom))
}

/// The zoom after one wheel event with vertical scroll `scroll`.
pub open spec fn spec_zoom_step(zoom: i64, scroll: i64) -> i64 {
    spec_clamp(
        spec_add(zoom as int, spec_mul(scroll as int, ZOOM_SENSITIVITY as int)),
        ZOOM_MIN as int,
        ZOOM_MAX as int,
    ) as i64
}

/// The zoom after the wheel events `wheel`, taken in order.
pub open spec fn spec_zoom_after(zoom: i64, wheel: Seq<i64>) -> i64
    decreases wheel.len(),
{
    if wheel.len() == 0 {
        zoom
    } else {
        spec_zoom_step(spec_zoom_after(zoom, wheel.drop_last()), wheel.last())
    }
}

/// Whether the frame's input pans the canvas.
pub open spec fn spec_pans(input: CanvasInput) -> bool {
    input.secondary_down || input.middle_down
}

/// The camera after one frame of input: the canvas is panned by the total
/// pointer motion while a pan button is held, under the zoom the frame began
/// with, and then every wheel event changes the zoom.
pub open spec fn spec_camera_after(camera: CanvasState, input: CanvasInput) -> CanvasState {
    CanvasState {
        zoom: spec_zoom_after(camera.zoom, input.wheel@),
        offset: if spec_pans(input) {
            spec_panned(camera, spec_total_motion(input.motion@))
        } else {
            camera.offset
        },
    }
}

/// Maps a screen point to canvas space.
pub fn screen_to_canvas(screen_pos: Vec2, canvas_state: &CanvasState) -> (r: Vec2)
    ensures
        r == spec_screen_to_canvas(screen_pos, *canvas_state),
{
    screen_pos.unscaled(canvas_state.zoom).plus(canvas_state.offset)
}

/// Maps a canvas point to screen space.
pub fn canvas_to_screen(canvas_pos: Vec2, canvas_state: &CanvasState) -> (r: Vec2)
    ensures
        r == spec_canvas_to_screen(canvas_pos, *canvas_state),
{
    canvas_pos.minus(canvas_state.offset).scaled(canvas_state.zoom)
}

/// Adds up the motion events of a frame.
pub fn total_motion(motion: &Vec<Vec2>) -> (r: Vec2)
    ensures
        r == spec_total_motion(motion@),
{
    let mut delta: Vec2 = Vec2::zero();
    let mut i: usize = 0;
    while i < motion.len()
        invariant
            i <= motion@.len(),
            delta == spec_total_motion(motion@.take(i as int)),
        decreases motion@.len() - i,
    {
        assert(motion@.take(i + 1).drop_last() =~= motion@.take(i as int));
        delta = delta.plus(motion[i]);
        i += 1;
    }
    assert(motion@.take(i as int) =~= motion@);
    delta
}

/// Applies one wheel event to a zoom factor.
pub fn zoom_step(zoom: i64, scroll: i64) -> (r: i64)
    ensures
        r == spec_zoom_step(zoom, scroll),
        ZOOM_MIN <= r <= ZOOM_MAX,
{
    fx_clamp(fx_add(zoom, fx_mul(scroll, ZOOM_SENSITIVITY)), ZOOM_MIN, ZOOM_MAX)
}

/// Applies one frame of pointer input to the camera of `node_graph`.
pub fn update_canvas_system(node_graph: &mut NodeGraph, input: &CanvasInput)
    ensures
        final(node_graph).canvas_state == spec_camera_after(old(node_graph).canvas_state, *input),
        final(node_graph).nodes == old(node_graph).nodes,
        final(node_graph).connections == old(node_graph).connections,
        input.wheel@.len() > 0 ==> ZOOM_MIN <= final(node_graph).canvas_state.zoom <= ZOOM_MAX,
{
    if input.secondary_down || input.middle_down {
        let delta: Vec2 = total_motion(&input.motion);
        let canvas_delta: Vec2 = delta.unscaled(node_graph.canvas_state.zoom);
        node_graph.canvas_state.offset = node_graph.canvas_state.offset.minus(canvas_delta);
    }
    let mut zoom: i64 = node_graph.canvas_state.zoom;
    let mut i: usize = 0;
    while i < input.wheel.len()
        invariant
            i <= input.wheel@.len(),
            zoom == spec_zoom_after(old(node_graph).canvas_state.zoom, input.wheel@.take(i as int)),
            i > 0 ==> ZOOM_MIN <= zoom <= ZOOM_MAX,
        decreases input.wheel@.len() - i,
    {
        assert(input.wheel@.take(i + 1).drop_last() =~= input.wheel@.take(i as int));
        zoom = zoom_step(zoom, input.wheel[i]);
        i += 1;
    }
    assert(input.wheel@.take(i as int) =~= input.wheel@);
    node_graph.canvas_state.zoom = zoom;
}

/// The largest coordinate, on either side of zero, that is certain to go
/// through both transforms without saturating: ten thousand.
pub const COORD_LIMIT: i64 = 10_000_000_000;

/// The largest zoom factor under which a round trip stays within
/// `TOLERANCE`: one thousand.
pub const ZOOM_LIMIT: i64 = 1_000_000_000;

/// The smallest zoom factor under which a round trip stays within
/// `TOLERANCE`: one thousandth.
pub const ZOOM_FLOOR: i64 = 1_000;

/// The round-trip tolerance: one thousandth.
pub const TOLERANCE: i64 = 1_000;

/// Whether both coordinates of `p` are at most `COORD_LIMIT` in size.
pub open spec fn within_limit(p: Vec2) -> bool {
    &&& -COORD_LIMIT <= p.x <= COORD_LIMIT
    &&& -COORD_LIMIT <= p.y <= COORD_LIMIT
}

/// Whether `v` is in the range of `i64`, so that it is not changed by
/// saturation.
pub open spec fn fits(v: int) -> bool {
    i64::MIN <= v <= i64::MAX
}

/// How far a canvas coordinate can come back short after a trip to the
/// screen under the zoom `z`.
pub open spec fn spec_canvas_slack(z: int) -> int {
    (UNIT - 1) / z + 1
}

/// How far a screen coordinate can come back short after a trip to the
/// canvas under the zoom `z`.
pub open spec fn spec_screen_slack(z: int) -> int {
    (z - 1) / (UNIT as int) + 1
}

/// Whether the canvas coordinate `p` goes to the screen and back under the
/// offset `o` and the zoom `z` without saturating on the way.
pub open spec fn canvas_trip_fits_1(p: int, o: int, z: int) -> bool {
    &&& fits(p - o)
    &&& fits(((p - o) * z) / (UNIT as int))
    &&& fits(p - o - spec_canvas_slack(z))
    &&& fits(p - spec_canvas_slack(z))
}

/// Whether the screen coordinate `p` goes to the canvas and back under the
/// offset `o` and the zoom `z` without saturating on the way.
pub open spec fn screen_trip_fits_1(p: int, o: int, z: int) -> bool {
    &&& fits((p * UNIT) / z)
    &&& fits((p * UNIT) / z + o)
    &&& fits(p - spec_screen_slack(z))
}

/// Whether the canvas point `p` goes to the screen and back without
/// saturating on the way.
pub open spec fn canvas_trip_fits(p: Vec2, camera: CanvasState) -> bool {
    &&& canvas_trip_fits_1(p.x as int, camera.offset.x as int, camera.zoom as int)
    &&& canvas_trip_fits_1(p.y as int, camera.offset.y as int, camera.zoom as int)
}

/// Whether the screen point `p` goes to the canvas and back without
/// saturating on the way.
pub open spec fn screen_trip_fits(p: Vec2, camera: CanvasState) -> bool {
    &&& screen_trip_fits_1(p.x as int, camera.offset.x as int, camera.zoom as int)
    &&& screen_trip_fits_1(p.y as int, camera.offset.y as int, camera.zoom as int)
}

/// With zoom one and no offset, both transforms leave every point where it
/// is.
pub proof fn lemma_identity_transform(p: Vec2)
    ensures
        spec_screen_to_canvas(p, CanvasState::spec_default()) == p,
        spec_canvas_to_screen(p, CanvasState::spec_default()) == p,
{
    lemma_unit_cancels(p.x as int);
    lemma_unit_cancels(p.y as int);
}

proof fn lemma_unit_cancels(v: int)
    ensures
        (v * 1_000_000) / 1_000_000 == v,
{
    lemma_floor_bounds(v * 1_000_000, 1_000_000);
    let q: int = (v * 1_000_000) / 1_000_000;
    assert(q == v) by (nonlinear_arith)
        requires
            q * 1_000_000 <= v * 1_000_000 < q * 1_000_000 + 1_000_000,
    ;
}

/// One coordinate taken to the screen and back.
proof fn lemma_canvas_round_trip_1(p: int, o: int, z: int)
    requires
        z > 0,
        canvas_trip_fits_1(p, o, z),
    ensures
        ({
            let screen = spec_mul(spec_sub(p, o), z);
            let back = spec_add(spec_div(screen, z), o);
            0 <= p - back <= spec_canvas_slack(z)
        }),
{
    let d: int = p - o;
    let u: int = UNIT as int;
    lemma_there_and_back(d, z, u);
}

/// One coordinate taken to the canvas and back.
proof fn lemma_screen_round_trip_1(p: int, o: int, z: int)
    requires
        z > 0,
        screen_trip_fits_1(p, o, z),
    ensures
        ({
            let canvas = spec_add(spec_div(p, z), o);
            let back = spec_mul(spec_sub(canvas, o), z);
            0 <= p - back <= spec_screen_slack(z)
        }),
{
    let u: int = UNIT as int;
    lemma_there_and_back(p, u, z);
}

/// Coordinates up to `COORD_LIMIT` go through both transforms without
/// saturating, under every positive zoom up to `ZOOM_LIMIT`.
proof fn lemma_limits_fit_1(p: int, o: int, z: int)
    requires
        -COORD_LIMIT <= p <= COORD_LIMIT,
        -COORD_LIMIT <= o <= COORD_LIMIT,
        0 < z <= ZOOM_LIMIT,
    ensures
        canvas_trip_fits_1(p, o, z),
        screen_trip_fits_1(p, o, z),
{
    let d: int = p - o;
    let u: int = UNIT as int;
    let s: int = (d * z) / u;
    lemma_floor_bounds(d * z, u);
    assert(-20_000_000_000_000_000_000 <= d * z <= 20_000_000_000_000_000_000)
        by (nonlinear_arith)
        requires
            -20_000_000_000 <= d <= 20_000_000_000,
            0 < z <= 1_000_000_000,
    ;
    assert(-20_000_000_000_001 <= s <= 20_000_000_000_000) by (nonlinear_arith)
        requires
            s * u <= d * z < s * u + u,
            u == 1_000_000,
            -20_000_000_000_000_000_000 <= d * z <= 20_000_000_000_000_000_000,
    ;
    lemma_floor_bounds(u - 1, z);
    assert(0 <= (u - 1) / z <= u - 1) by (nonlinear_arith)
        requires
            ((u - 1) / z) * z <= u - 1 < ((u - 1) / z) * z + z,
            z > 0,
            u - 1 >= 0,
    ;
    let q: int = (p * u) / z;
    lemma_floor_bounds(p * u, z);
    assert(-10_000_000_000_000_000 <= p * u <= 10_000_000_000_000_000) by (nonlinear_arith)
        requires
            -10_000_000_000 <= p <= 10_000_000_000,
            u == 1_000_000,
    ;
    assert(-10_000_000_000_000_001 <= q <= 10_000_000_000_000_000) by (nonlinear_arith)
        requires
            q * z <= p * u < q * z + z,
            z >= 1,
            -10_000_000_000_000_000 <= p * u <= 10_000_000_000_000_000,
    ;
    lemma_floor_bounds(z - 1, u);
    assert(0 <= (z - 1) / u <= z) by (nonlinear_arith)
        requires
            ((z - 1) / u) * u <= z - 1 < ((z - 1) / u) * u + u,
            z > 0,
            u == 1_000_000,
    ;
}

/// A canvas point that is taken to the screen and back comes back at most
/// `(UNIT - 1) / zoom + 1` steps below where it started, in each coordinate,
/// and never above. This holds under every positive zoom, for every point
/// that makes the trip without saturating.
pub proof fn lemma_canvas_round_trip(p: Vec2, camera: CanvasState)
    requires
        camera.zoom > 0,
        canvas_trip_fits(p, camera),
    ensures
        ({
            let back = spec_screen_to_canvas(spec_canvas_to_screen(p, camera), camera);
            &&& 0 <= p.x - back.x <= spec_canvas_slack(camera.zoom as int)
            &&& 0 <= p.y - back.y <= spec_canvas_slack(camera.zoom as int)
        }),
{
    lemma_canvas_round_trip_1(p.x as int, camera.offset.x as int, camera.zoom as int);
    lemma_canvas_round_trip_1(p.y as int, camera.offset.y as int, camera.zoom as int);
}

/// A screen point that is taken to the canvas and back comes back at most
/// `(zoom - 1) / UNIT + 1` steps below where it started, in each coordinate,
/// and never above. This holds under every positive zoom, for every point
/// that makes the trip without saturating.
pub proof fn lemma_screen_round_trip(p: Vec2, camera: CanvasState)
    requires
        camera.zoom > 0,
        screen_trip_fits(p, camera),
    ensures
        ({
            let back = spec_canvas_to_screen(spec_screen_to_canvas(p, camera), camera);
            &&& 0 <= p.x - back.x <= spec_screen_slack(camera.zoom as int)
            &&& 0 <= p.y - back.y <= spec_screen_slack(camera.zoom as int)
        }),
{
    lemma_screen_round_trip_1(p.x as int, camera.offset.x as int, camera.zoom as int);
    lemma_screen_round_trip_1(p.y as int, camera.offset.y as int, camera.zoom as int);
}

/// Points and offsets with coordinates up to `COORD_LIMIT` make both trips
/// without saturating, under every positive zoom up to `ZOOM_LIMIT`.
pub proof fn lemma_limits_fit(p: Vec2, camera: CanvasState)
    requires
        within_limit(p),
        within_limit(camera.offset),
        0 < camera.zoom <= ZOOM_LIMIT,
    ensures
        canvas_trip_fits(p, camera),
        screen_trip_fits(p, camera),
{
    lemma_limits_fit_1(p.x as int, camera.offset.x as int, camera.zoom as int);
    lemma_limits_fit_1(p.y as int, camera.offset.y as int, camera.zoom as int);
}

/// Under a zoom between `ZOOM_FLOOR` and `ZOOM_LIMIT`, a point that goes
/// through both transforms without saturating, in either order, comes back
/// within `TOLERANCE` of where it started.
pub proof fn lemma_round_trip_within_tolerance(p: Vec2, camera: CanvasState)
    requires
        ZOOM_FLOOR <= camera.zoom <= ZOOM_LIMIT,
    ensures
        canvas_trip_fits(p, camera) ==> ({
            let back = spec_screen_to_canvas(spec_canvas_to_screen(p, camera), camera);
            &&& 0 <= p.x - back.x <= TOLERANCE
            &&& 0 <= p.y - back.y <= TOLERANCE
        }),
        screen_trip_fits(p, camera) ==> ({
            let back = spec_canvas_to_screen(spec_screen_to_canvas(p, camera), camera);
            &&& 0 <= p.x - back.x <= TOLERANCE
            &&& 0 <= p.y - back.y <= TOLERANCE
        }),
{
    let z: int = camera.zoom as int;
    lemma_floor_bounds(UNIT - 1, z);
    assert((UNIT - 1) / z <= 999) by (nonlinear_arith)
        requires
            ((UNIT - 1) / z) * z <= UNIT - 1,
            UNIT == 1_000_000,
            z >= 1_000,
    ;
    lemma_floor_bounds(z - 1, UNIT as int);
    assert((z - 1) / (UNIT as int) <= 999) by (nonlinear_arith)
        requires
            ((z - 1) / (UNIT as int)) * UNIT <= z - 1,
            UNIT == 1_000_000,
            z <= 1_000_000_000,
    ;
    if canvas_trip_fits(p, camera) {
        lemma_canvas_round_trip(p, camera);
    }
    if screen_trip_fits(p, camera) {
        lemma_screen_round_trip(p, camera);
    }
}

/// Once a wheel event has been applied the zoom lies between `ZOOM_MIN` and
/// `ZOOM_MAX`, however far the events scroll; and a zoom that lies in that
/// range stays there under any events, also under none.
pub proof fn lemma_zoom_stays_in_range(zoom: i64, wheel: Seq<i64>)
    ensures
        wheel.len() > 0 ==> ZOOM_MIN <= spec_zoom_after(zoom, wheel) <= ZOOM_MAX,
        ZOOM_MIN <= zoom <= ZOOM_MAX ==> ZOOM_MIN <= spec_zoom_after(zoom, wheel) <= ZOOM_MAX,
    decreases wheel.len(),
{
    if wheel.len() > 0 {
        lemma_zoom_stays_in_range(zoom, wheel.drop_last());
    }
}

/// Clamping settles at once: a wheel event that does not scroll leaves a
/// zoom in range as it is.
pub proof fn lemma_zoom_step_settles(zoom: i64)
    requires
        ZOOM_MIN <= zoom <= ZOOM_MAX,
    ensures
        spec_zoom_step(zoom, 0) == zoom,
{
    assert((0 * ZOOM_SENSITIVITY) / (UNIT as int) == 0) by (nonlinear_arith)
        requires
            UNIT == 1_000_000,
    ;
}

} // verus!
