use grid_sandbox::arith::isqrt;
use grid_sandbox::camera::{scroll_change, DirectionKeys, ScrollEvent, ScrollUnit, Settings};
use grid_sandbox::motion::{Pawn, PawnState};
use grid_sandbox::pointer::PointerSnapshot;
use grid_sandbox::scene::{FrameInput, Scene};
use grid_sandbox::selection::{click_select, hover_flags, is_hovered};
use grid_sandbox::spawn::{positions_on_tiles, spawn_positions, tile_grid};
use grid_sandbox::transform::{
    snap_to_tile, tile_center, tile_of, window_to_world, world_to_window, Camera, TileCoord,
    Viewport, WindowPos, WorldPos,
};

const UNIT: i64 = 1_000_000;
const PX: i64 = 1000;

fn world(x: i64, y: i64) -> WorldPos {
    WorldPos { x: x * UNIT, y: y * UNIT }
}

fn cam_at(x: i64, y: i64, scale: i64) -> Camera {
    Camera { position: world(x, y), scale }
}

fn no_keys() -> DirectionKeys {
    DirectionKeys { up: false, down: false, left: false, right: false }
}

fn quiet_frame(elapsed_us: u32) -> FrameInput {
    FrameInput {
        cursor: None,
        keys: no_keys(),
        fast: false,
        primary_pressed: false,
        secondary_pressed: false,
        drag_held: false,
        scroll: Vec::new(),
        elapsed_us,
    }
}

fn dist_sq(a: WorldPos, b: WorldPos) -> i128 {
    let dx = (b.x - a.x) as i128;
    let dy = (b.y - a.y) as i128;
    dx * dx + dy * dy
}

#[test]
fn center_of_window_is_camera_position() {
    let vp = Viewport { width: 800, height: 600 };
    let cam = cam_at(0, 0, 1000);
    let w = window_to_world(&vp, &cam, WindowPos { x: 400 * PX, y: 300 * PX });
    assert_eq!(w, world(0, 0));
    assert_eq!(tile_of(w), TileCoord { x: 0, y: 0 });
}

#[test]
fn pointer_one_tile_right_of_center() {
    let vp = Viewport { width: 800, height: 600 };
    let cam = cam_at(0, 0, 1000);
    let w = window_to_world(&vp, &cam, WindowPos { x: 450 * PX, y: 300 * PX });
    assert_eq!(w, world(50, 0));
    assert_eq!(tile_of(w), TileCoord { x: 1, y: 0 });
}

#[test]
fn window_y_grows_downward_world_y_upward() {
    let vp = Viewport { width: 800, height: 600 };
    let cam = cam_at(10, 20, 2000);
    let w = window_to_world(&vp, &cam, WindowPos { x: 400 * PX, y: 250 * PX });
    assert_eq!(w, world(10, 120));
}

#[test]
fn window_world_round_trip() {
    let vp = Viewport { width: 1600, height: 900 };
    for &(scale, cx, cy) in &[(1000, 0, 0), (150, -37, 12), (9999, 1234, -987), (333, 5, 5)] {
        let cam = cam_at(cx, cy, scale);
        for &(px, py) in &[(0, 0), (1600 * PX, 900 * PX), (123_456, 789_012), (800 * PX + 1, 7)] {
            let p = WindowPos { x: px, y: py };
            let w = window_to_world(&vp, &cam, p);
            assert_eq!(world_to_window(&vp, &cam, w), p);
        }
    }
}

#[test]
fn world_to_window_rounds_down() {
    let vp = Viewport { width: 800, height: 600 };
    let cam = cam_at(0, 0, 2000);
    let r = world_to_window(&vp, &cam, WorldPos { x: -3, y: 3 });
    assert_eq!(r, WindowPos { x: 400 * PX - 1, y: 300 * PX });
}

#[test]
fn tile_rounding_halves_go_away_from_zero() {
    assert_eq!(tile_of(WorldPos { x: 25 * UNIT, y: -25 * UNIT }), TileCoord { x: 1, y: -1 });
    assert_eq!(tile_of(WorldPos { x: 25 * UNIT - 1, y: -25 * UNIT + 1 }), TileCoord { x: 0, y: 0 });
    assert_eq!(tile_of(world(-74, 76)), TileCoord { x: -1, y: 2 });
}

#[test]
fn snapping_twice_is_snapping_once() {
    for &(x, y) in &[(0, 0), (24_999_999, -25_000_000), (-123_456_789, 987_654_321), (75_000_000, 1)] {
        let once = snap_to_tile(WorldPos { x, y });
        assert_eq!(snap_to_tile(once), once);
        assert_eq!(once.x % (50 * UNIT), 0);
        assert_eq!(once.y % (50 * UNIT), 0);
    }
    assert_eq!(snap_to_tile(world(26, -26)), world(50, -50));
    assert_eq!(tile_center(TileCoord { x: -3, y: 4 }), world(-150, 200));
}

#[test]
fn integer_square_roots() {
    assert_eq!(isqrt(0), 0);
    assert_eq!(isqrt(1), 1);
    assert_eq!(isqrt(15), 3);
    assert_eq!(isqrt(16), 4);
    assert_eq!(isqrt(u128::MAX), u64::MAX as u128);
    assert_eq!(isqrt(10_000_000_000_000_000), 100_000_000);
}

#[test]
fn pawn_walks_to_target_with_one_second_steps() {
    let target = world(100, 0);
    let mut p = Pawn::new(world(0, 0));
    p.set_target(target);
    assert_eq!(p.state, PawnState::MovingTo(target));
    let mut last = dist_sq(p.position, target);
    let mut steps = 0;
    while p.state != PawnState::Idle {
        p.step(1_000_000);
        let now = dist_sq(p.position, target);
        assert!(now < last || last == 0);
        last = now;
        steps += 1;
        assert!(steps < 10);
    }
    assert_eq!(p.position, target);
    assert_eq!(p.state, PawnState::Idle);
    assert_eq!(steps, 2);
}

#[test]
fn first_step_speed_is_capped() {
    let mut p = Pawn::new(world(0, 0));
    p.set_target(world(1000, 0));
    p.step(100_000);
    // min(1000, 10) * 10 per second for 0.1 s.
    assert_eq!(p.position, world(10, 0));
}

#[test]
fn near_target_speed_ramps_down() {
    let mut p = Pawn::new(world(0, 0));
    p.set_target(world(4, 0));
    p.step(10_000);
    // 4 * 10 per second for 0.01 s.
    assert_eq!(p.position, WorldPos { x: 400_000, y: 0 });
}

#[test]
fn short_steps_never_overshoot_and_arrive() {
    let target = WorldPos { x: -37 * UNIT + 11, y: 12 * UNIT - 5 };
    let start = world(3, -4);
    let mut p = Pawn::new(start);
    p.set_target(target);
    let dts = [16_667u32, 1, 100_000, 33_333, 7];
    let mut last = dist_sq(p.position, target);
    let mut n = 0usize;
    while p.state != PawnState::Idle {
        p.step(dts[n % dts.len()]);
        let q = p.position;
        assert!(target.x <= q.x && q.x <= start.x);
        assert!(start.y <= q.y && q.y <= target.y);
        let now = dist_sq(q, target);
        assert!(now <= last);
        last = now;
        n += 1;
        assert!(n < 100_000);
    }
    assert_eq!(p.position, target);
}

#[test]
fn within_epsilon_snaps_to_target() {
    let target = world(10, 10);
    let mut p = Pawn::new(WorldPos { x: target.x + 60_000, y: target.y - 60_000 });
    p.set_target(target);
    p.step(1);
    assert_eq!(p, Pawn { position: target, state: PawnState::Idle });
}

#[test]
fn idle_pawn_does_not_move() {
    let mut p = Pawn::new(world(7, 8));
    p.step(1_000_000);
    assert_eq!(p, Pawn::new(world(7, 8)));
}

#[test]
fn long_step_stops_on_target() {
    let mut p = Pawn::new(world(0, 0));
    p.set_target(world(5, 0));
    p.step(1_000_000);
    assert_eq!(p.position, world(5, 0));
    assert_eq!(p.state, PawnState::MovingTo(world(5, 0)));
    p.step(1_000_000);
    assert_eq!(p, Pawn::new(world(5, 0)));
}

#[test]
fn long_steps_never_overshoot_diagonally() {
    let target = world(-7, 3);
    let start = world(40, -90);
    let mut p = Pawn::new(start);
    p.set_target(target);
    for _ in 0..50 {
        p.step(3_000_000);
        assert!(target.x <= p.position.x && p.position.x <= start.x);
        assert!(start.y <= p.position.y && p.position.y <= target.y);
    }
    assert_eq!(p, Pawn::new(target));
}

#[test]
fn hover_square_is_closed() {
    let c = world(100, 100);
    assert!(is_hovered(world(125, 75), c));
    assert!(!is_hovered(WorldPos { x: 125 * UNIT + 1, y: 100 * UNIT }, c));
    assert!(!is_hovered(WorldPos { x: 100 * UNIT, y: 75 * UNIT - 1 }, c));
}

#[test]
fn click_selects_first_hovered_pawn() {
    let pawns = vec![Pawn::new(world(100, 0)), Pawn::new(world(0, 0)), Pawn::new(world(10, 10))];
    let flags = hover_flags(&pawns, world(0, 0));
    assert_eq!(flags, vec![false, true, true]);
    assert_eq!(click_select(&flags), Some(1));
    assert_eq!(click_select(&vec![false, false, true]), Some(2));
}

#[test]
fn click_on_empty_ground_clears_selection() {
    let pawns = vec![Pawn::new(world(0, 0))];
    let flags = hover_flags(&pawns, world(500, 500));
    assert_eq!(flags, vec![false]);
    assert_eq!(click_select(&flags), None);
    assert_eq!(click_select(&Vec::new()), None);
}

#[test]
fn pointer_outside_window_keeps_hover_flags() {
    let vp = Viewport { width: 800, height: 600 };
    let mut scene = Scene::new(vp, Settings::default(), &vec![world(0, 0), world(100, 100)]);
    let mut input = quiet_frame(16_000);
    input.cursor = Some(WindowPos { x: 500 * PX, y: 200 * PX });
    scene.frame(&input);
    assert_eq!(scene.hovered, vec![false, true]);
    assert_eq!(scene.selected, None);
    // The pointer leaves the window: the flags stay, and a click selects from them.
    input.cursor = None;
    scene.frame(&input);
    assert_eq!(scene.hovered, vec![false, true]);
    input.primary_pressed = true;
    scene.frame(&input);
    assert_eq!(scene.hovered, vec![false, true]);
    assert_eq!(scene.selected, Some(1));
}

#[test]
fn drag_moves_camera_by_anchor_minus_current() {
    let mut cam = cam_at(0, 0, 1000);
    cam.drag(world(20, 20), world(25, 30));
    assert_eq!(cam.position, world(-5, -10));
}

#[test]
fn drag_keeps_anchor_under_cursor_at_any_scale() {
    let vp = Viewport { width: 800, height: 600 };
    let p = WindowPos { x: 513 * PX, y: 71 * PX };
    let anchor = world(20, 20);
    for &scale in &[1000i64, 250, 4321] {
        let mut cam = cam_at(3, -9, scale);
        let current = window_to_world(&vp, &cam, p);
        cam.drag(anchor, current);
        assert_eq!(window_to_world(&vp, &cam, p), anchor);
    }
}

#[test]
fn key_pan_straight_and_diagonal() {
    let settings = Settings::default();
    let mut cam = cam_at(0, 0, 1000);
    cam.pan(DirectionKeys { up: true, down: false, left: false, right: false }, false, &settings, 500_000);
    assert_eq!(cam.position, world(0, 50));
    let mut cam = cam_at(0, 0, 1000);
    cam.pan(DirectionKeys { up: false, down: false, left: true, right: false }, true, &settings, 100_000);
    assert_eq!(cam.position, world(-100, 0));
    let mut cam = cam_at(0, 0, 1000);
    cam.pan(DirectionKeys { up: false, down: true, left: false, right: true }, false, &settings, 1_000_000);
    // 100 / sqrt(2) world units on each axis, rounded down.
    assert_eq!(cam.position, WorldPos { x: 70_710_678, y: -70_710_678 });
    let mut cam = cam_at(0, 0, 1000);
    cam.pan(DirectionKeys { up: true, down: true, left: true, right: true }, false, &settings, 1_000_000);
    assert_eq!(cam.position, world(0, 0));
}

#[test]
fn default_settings() {
    let s = Settings::default();
    assert_eq!(s.camera_move_speed, 100_000_000);
    assert_eq!(s.camera_zoom_speed, 100);
}

#[test]
fn scroll_change_by_unit() {
    let s = Settings::default();
    let line = ScrollEvent { amount: 1000, unit: ScrollUnit::Line };
    let pixel = ScrollEvent { amount: 20_000, unit: ScrollUnit::Pixel };
    // 1 line * 0.1 * 20 * 0.016 s = 0.032
    assert_eq!(scroll_change(&line, &s, false, 16_000), 32);
    assert_eq!(scroll_change(&pixel, &s, false, 16_000), 32);
    assert_eq!(scroll_change(&line, &s, true, 16_000), 320);
    let down = ScrollEvent { amount: -1500, unit: ScrollUnit::Pixel };
    // -1.5 px * 0.1 * 1 s = -0.15, and toward zero for a tiny one.
    assert_eq!(scroll_change(&down, &s, false, 1_000_000), -150);
    // -0.00015, rounded away from zero to one thousandth.
    assert_eq!(scroll_change(&down, &s, false, 1_000), -1);
    let still = ScrollEvent { amount: 0, unit: ScrollUnit::Line };
    assert_eq!(scroll_change(&still, &s, true, 1_000_000), 0);
}

#[test]
fn zoom_applies_each_event_and_rejects_leaving_bounds() {
    let s = Settings::default();
    let mut cam = cam_at(0, 0, 1000);
    let ev = |amount: i32| ScrollEvent { amount, unit: ScrollUnit::Line };
    cam.zoom(&vec![ev(1000), ev(1000)], false, &s, 100_000);
    assert_eq!(cam.scale, 600);
    // 0.6 - 0.5 = 0.1 is not strictly inside: rejected whole.
    cam.zoom(&vec![ev(2500)], false, &s, 100_000);
    assert_eq!(cam.scale, 600);
    cam.zoom(&vec![ev(2495)], false, &s, 100_000);
    assert_eq!(cam.scale, 101);
    cam.zoom(&vec![ev(-1_000_000)], true, &s, 1_000_000);
    assert_eq!(cam.scale, 101);
}

#[test]
fn small_scroll_still_zooms() {
    let s = Settings::default();
    let half_pixel = ScrollEvent { amount: 500, unit: ScrollUnit::Pixel };
    assert_eq!(scroll_change(&half_pixel, &s, false, 16_667), 1);
    let mut cam = cam_at(0, 0, 1000);
    cam.zoom(&vec![half_pixel], false, &s, 16_667);
    assert_eq!(cam.scale, 999);
    cam.zoom(&vec![ScrollEvent { amount: -500, unit: ScrollUnit::Pixel }], false, &s, 16_667);
    assert_eq!(cam.scale, 1000);
}

#[test]
fn zoom_sequence_stays_in_bounds() {
    let s = Settings::default();
    let mut cam = cam_at(0, 0, 1000);
    let mut k: i32 = 1;
    for _ in 0..200 {
        k = k.wrapping_mul(1_103_515_245).wrapping_add(12_345);
        let amount = (k >> 8) % 50_000;
        cam.zoom(&vec![ScrollEvent { amount, unit: ScrollUnit::Line }], (k & 1) == 1, &s, 16_000);
        assert!(100 < cam.scale && cam.scale < 10_000);
    }
}

#[test]
fn pointer_snapshot_outside_window_is_absent_and_anchor_freezes() {
    let vp = Viewport { width: 800, height: 600 };
    let cam = cam_at(0, 0, 1000);
    let mut ptr = PointerSnapshot::empty();
    ptr.update(&vp, &cam, Some(WindowPos { x: 450 * PX, y: 300 * PX }), false);
    assert_eq!(ptr.world, Some(world(50, 0)));
    assert_eq!(ptr.tile, Some(TileCoord { x: 1, y: 0 }));
    assert_eq!(ptr.drag_anchor, Some(world(50, 0)));
    ptr.update(&vp, &cam, Some(WindowPos { x: 470 * PX, y: 300 * PX }), true);
    assert_eq!(ptr.world, Some(world(70, 0)));
    assert_eq!(ptr.tile_rounded, Some(world(50, 0)));
    assert_eq!(ptr.drag_anchor, Some(world(50, 0)));
    ptr.update(&vp, &cam, Some(WindowPos { x: 801 * PX, y: 300 * PX }), true);
    assert_eq!(ptr.window, None);
    assert_eq!(ptr.world, None);
    assert_eq!(ptr.tile_rounded, None);
    assert_eq!(ptr.tile, None);
    assert_eq!(ptr.drag_anchor, Some(world(50, 0)));
    ptr.update(&vp, &cam, None, false);
    assert_eq!(ptr.drag_anchor, None);
}

#[test]
fn scene_select_command_and_walk() {
    let vp = Viewport { width: 800, height: 600 };
    let mut scene = Scene::new(vp, Settings::default(), &vec![world(0, 0), world(100, 100)]);
    assert_eq!(scene.marker(), None);
    // Click the second pawn: 100 px right and 100 px up from the center.
    let mut input = quiet_frame(16_000);
    input.cursor = Some(WindowPos { x: 500 * PX, y: 200 * PX });
    input.primary_pressed = true;
    scene.frame(&input);
    assert_eq!(scene.selected, Some(1));
    assert_eq!(scene.hovered, vec![false, true]);
    assert_eq!(scene.marker(), Some(world(100, 100)));
    // Right-click near (160, 110): the target is that tile's center.
    let mut input = quiet_frame(1);
    input.cursor = Some(WindowPos { x: 560 * PX, y: 190 * PX });
    input.secondary_pressed = true;
    scene.frame(&input);
    assert_eq!(scene.pawns[1].state, PawnState::MovingTo(world(150, 100)));
    assert_eq!(scene.pawns[0].state, PawnState::Idle);
    for _ in 0..1000 {
        scene.frame(&quiet_frame(50_000));
    }
    assert_eq!(scene.pawns[1], Pawn::new(world(150, 100)));
    assert_eq!(scene.marker(), Some(world(150, 100)));
    // Click on empty ground: the marker goes away.
    let mut input = quiet_frame(16_000);
    input.cursor = Some(WindowPos { x: 700 * PX, y: 550 * PX });
    input.primary_pressed = true;
    scene.frame(&input);
    assert_eq!(scene.selected, None);
    assert_eq!(scene.marker(), None);
    // Select again, then click with the pointer outside the window: the
    // hover flags from the last frame in the window decide.
    let mut input = quiet_frame(16_000);
    input.cursor = Some(WindowPos { x: 400 * PX, y: 300 * PX });
    input.primary_pressed = true;
    scene.frame(&input);
    assert_eq!(scene.selected, Some(0));
    input.cursor = None;
    scene.frame(&input);
    assert_eq!(scene.selected, Some(0));
}

#[test]
fn scene_drag_pan_has_no_drift() {
    let vp = Viewport { width: 800, height: 600 };
    let mut scene = Scene::new(vp, Settings::default(), &Vec::new());
    let mut input = quiet_frame(16_000);
    input.cursor = Some(WindowPos { x: 400 * PX, y: 300 * PX });
    scene.frame(&input);
    input.drag_held = true;
    input.cursor = Some(WindowPos { x: 420 * PX, y: 310 * PX });
    scene.frame(&input);
    assert_eq!(scene.camera.position, world(-20, 10));
    scene.frame(&input);
    assert_eq!(scene.camera.position, world(-20, 10));
    // Leaving the window suspends the drag; coming back resumes it.
    input.cursor = None;
    scene.frame(&input);
    assert_eq!(scene.camera.position, world(-20, 10));
    input.cursor = Some(WindowPos { x: 430 * PX, y: 300 * PX });
    scene.frame(&input);
    assert_eq!(scene.camera.position, world(-30, 0));
}

#[test]
fn scene_keys_ignored_while_dragging() {
    let vp = Viewport { width: 800, height: 600 };
    let mut scene = Scene::new(vp, Settings::default(), &Vec::new());
    let mut input = quiet_frame(1_000_000);
    input.keys = DirectionKeys { up: false, down: false, left: false, right: true };
    scene.frame(&input);
    assert_eq!(scene.camera.position, world(100, 0));
    input.drag_held = true;
    scene.frame(&input);
    assert_eq!(scene.camera.position, world(100, 0));
}

#[test]
fn spawned_pawns_stand_on_start_tiles() {
    let ps = spawn_positions(5);
    assert_eq!(ps.len(), 5);
    for p in &ps {
        assert_eq!(p.x % (50 * UNIT), 0);
        assert_eq!(p.y % (50 * UNIT), 0);
        assert!(-5 <= p.x / (50 * UNIT) && p.x / (50 * UNIT) < 5);
        assert!(-5 <= p.y / (50 * UNIT) && p.y / (50 * UNIT) < 5);
    }
    assert!(spawn_positions(0).is_empty());
}

#[test]
fn tile_indices_become_tile_centers() {
    let tiles = vec![TileCoord { x: -5, y: 4 }, TileCoord { x: 0, y: 0 }, TileCoord { x: 3, y: -1 }];
    assert_eq!(positions_on_tiles(&tiles), vec![world(-250, 200), world(0, 0), world(150, -50)]);
    assert!(positions_on_tiles(&Vec::new()).is_empty());
}

#[test]
fn grid_covers_start_area() {
    let g = tile_grid();
    assert_eq!(g.len(), 100);
    assert_eq!(g[0], TileCoord { x: -5, y: -5 });
    assert_eq!(g[1], TileCoord { x: -5, y: -4 });
    assert_eq!(g[10], TileCoord { x: -4, y: -5 });
    assert_eq!(g[99], TileCoord { x: 4, y: 4 });
}
