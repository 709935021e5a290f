use cpu_orbit::angle::{Deg, FULL_TURN};
use cpu_orbit::camera::{
    decay, Camera, CameraController, MouseButton, MouseScrollDelta, NamedKey, Step, TouchPhase,
    WindowEvent,
};
use cpu_orbit::fixed::{multiply_milli, saturate_i64, saturate_u64, scale_over_millis};

fn controller() -> CameraController {
    CameraController::new(Camera::new(800, 600))
}

fn still() -> CameraController {
    let mut c = controller();
    c.angle_velocity = 0;
    c
}

fn key(key: NamedKey, pressed: bool) -> WindowEvent {
    WindowEvent::KeyboardInput { key, pressed }
}

fn right_button(pressed: bool) -> WindowEvent {
    WindowEvent::MouseInput { button: MouseButton::Right, pressed }
}

fn wheel(delta: MouseScrollDelta) -> WindowEvent {
    WindowEvent::MouseWheel { delta, phase: TouchPhase::Moved }
}

#[test]
fn normalize_wraps_into_one_turn() {
    assert_eq!(Deg { millis: 0 }.normalize().millis, 0);
    assert_eq!(Deg { millis: 359_999 }.normalize().millis, 359_999);
    assert_eq!(Deg { millis: 360_000 }.normalize().millis, 0);
    assert_eq!(Deg { millis: 725_000 }.normalize().millis, 5_000);
    assert_eq!(Deg { millis: -1 }.normalize().millis, 359_999);
    assert_eq!(Deg { millis: -360_000 }.normalize().millis, 0);
    assert_eq!(Deg { millis: -725_000 }.normalize().millis, 355_000);
    assert_eq!(Deg { millis: i64::MAX }.normalize().millis, i64::MAX % FULL_TURN);
    assert_eq!(
        Deg { millis: i64::MIN }.normalize().millis,
        i64::MIN % FULL_TURN + FULL_TURN
    );
}

#[test]
fn normalize_is_idempotent() {
    for millis in [0, 1, -1, 359_999, 360_000, 1_000_000_007, -1_000_000_007, i64::MAX, i64::MIN] {
        let once = Deg { millis }.normalize();
        assert_eq!(once.normalize(), once);
        assert!(0 <= once.millis && once.millis < FULL_TURN);
    }
}

#[test]
fn turned_adds_and_wraps() {
    let a = Deg { millis: 350_000 };
    assert_eq!(a.turned(20_000).millis, 10_000);
    assert_eq!(a.turned(-351_000).millis, 359_000);
    assert_eq!(a.turned(0).millis, 350_000);
    assert_eq!(a.turned(360_000 * 1_000_000_000_000).millis, 350_000);
    assert_eq!(Deg { millis: -10_000 }.turned(5_000).millis, 355_000);
    let far = Deg { millis: i64::MAX }.turned(i128::MAX);
    assert!(0 <= far.millis && far.millis < FULL_TURN);
    assert_eq!(
        far.millis as i128,
        (i64::MAX as i128 % 360_000 + i128::MAX % 360_000) % 360_000
    );
}

#[test]
fn scaling_rounds_toward_zero() {
    assert_eq!(scale_over_millis(15_000, 1_000), 15_000);
    assert_eq!(scale_over_millis(15_000, 16), 240);
    assert_eq!(scale_over_millis(7, 500), 3);
    assert_eq!(scale_over_millis(-7, 500), -3);
    assert_eq!(scale_over_millis(0, u64::MAX), 0);
    assert_eq!(
        scale_over_millis(i64::MIN, u64::MAX),
        (i64::MIN as i128 * u64::MAX as i128) / 1000
    );
    assert_eq!(multiply_milli(3_000, 1_000), 3_000);
    assert_eq!(multiply_milli(-2_500, 100), -250);
    assert_eq!(multiply_milli(1, 999), 0);
    assert_eq!(multiply_milli(-1, 999), 0);
    assert_eq!(
        multiply_milli(i64::MIN, i64::MIN),
        (i64::MIN as i128 * i64::MIN as i128) / 1000
    );
}

#[test]
fn saturation_pins_to_the_bounds() {
    assert_eq!(saturate_u64(-1), 0);
    assert_eq!(saturate_u64(0), 0);
    assert_eq!(saturate_u64(u64::MAX as i128), u64::MAX);
    assert_eq!(saturate_u64(u64::MAX as i128 + 1), u64::MAX);
    assert_eq!(saturate_u64(12_345), 12_345);
    assert_eq!(saturate_i64(i64::MIN as i128 - 1), i64::MIN);
    assert_eq!(saturate_i64(i64::MAX as i128 + 1), i64::MAX);
    assert_eq!(saturate_i64(-12_345), -12_345);
}

#[test]
fn camera_starts_tilted_at_fifteen_units() {
    let c = Camera::new(1920, 1080);
    assert_eq!(c.angle, Deg { millis: 0 });
    assert_eq!(c.plane_angle, Deg { millis: 30_000 });
    assert_eq!(c.distance, 15_000);
    assert_eq!(c.target, [0, 0, 0]);
    assert_eq!(c.up, [0, 1_000, 0]);
    assert_eq!((c.aspect_width, c.aspect_height), (1920, 1080));
    assert_eq!(c.fovy, Deg { millis: 45_000 });
    assert_eq!((c.znear, c.zfar), (100, 100_000));
}

#[test]
fn resize_changes_the_aspect_only() {
    let mut c = Camera::new(800, 600);
    c.angle = Deg { millis: 123_000 };
    c.plane_angle = Deg { millis: 77_000 };
    c.distance = 4_200;
    let before = c;
    c.resize(1024, 768);
    assert_eq!((c.aspect_width, c.aspect_height), (1024, 768));
    assert_eq!(c, Camera { aspect_width: 1024, aspect_height: 768, ..before });
    c.resize(10, 0);
    assert_eq!((c.aspect_width, c.aspect_height), (10, 0));
    assert_eq!(c.distance, 4_200);
}

#[test]
fn controller_starts_with_the_default_tunables() {
    let c = controller();
    assert_eq!(c.distance_per_second, 15_000);
    assert_eq!(c.distance_per_pixel, 100);
    assert_eq!(c.distance_per_line, 1_000);
    assert_eq!(c.degrees_per_second, 180_000);
    assert_eq!(c.degrees_per_pixel, 500);
    assert_eq!(c.angle_velocity, 20_000);
    assert_eq!(c.decay_factor, 999);
    assert!(!c.is_forward_pressed && !c.is_backward_pressed);
    assert!(!c.is_left_pressed && !c.is_right_pressed);
    assert!(!c.is_up_pressed && !c.is_down_pressed);
    assert!(!c.is_right_mouse_pressed);
    assert_eq!(c.last_cursor_position, None);
    assert_eq!(c.last_cursor_position_ts, None);
    assert_eq!(*c.camera(), Camera::new(800, 600));
}

#[test]
fn camera_mut_reaches_the_camera() {
    let mut c = controller();
    c.camera_mut().resize(300, 200);
    assert_eq!(c.camera().aspect_width, 300);
    assert_eq!(c.camera().aspect_height, 200);
    assert_eq!(c.camera().distance, 15_000);
}

#[test]
fn keys_set_their_flags_and_the_last_event_wins() {
    let mut c = controller();
    assert!(c.process_events(&key(NamedKey::ArrowUp, true), 0));
    assert!(c.is_forward_pressed);
    assert!(c.process_events(&key(NamedKey::ArrowUp, true), 0));
    assert!(c.is_forward_pressed);
    assert!(c.process_events(&key(NamedKey::ArrowUp, false), 0));
    assert!(!c.is_forward_pressed);
    assert!(c.process_events(&key(NamedKey::ArrowDown, true), 0));
    assert!(c.is_backward_pressed);
    assert!(c.process_events(&key(NamedKey::ArrowLeft, true), 0));
    assert!(c.is_left_pressed);
    assert!(c.process_events(&key(NamedKey::ArrowRight, true), 0));
    assert!(c.is_right_pressed);
    assert!(c.process_events(&key(NamedKey::Space, true), 0));
    assert!(c.is_up_pressed);
    assert!(c.process_events(&key(NamedKey::Shift, true), 0));
    assert!(c.is_down_pressed);
    assert!(c.process_events(&key(NamedKey::ArrowLeft, false), 0));
    assert!(!c.is_left_pressed && c.is_right_pressed);
}

#[test]
fn unrecognized_events_are_left_unhandled() {
    let mut c = controller();
    let before = c;
    assert!(!c.process_events(&key(NamedKey::Escape, true), 5));
    assert!(!c.process_events(&key(NamedKey::Other, true), 5));
    assert!(!c.process_events(&WindowEvent::Other, 5));
    assert!(!c.process_events(&WindowEvent::MouseInput { button: MouseButton::Left, pressed: true }, 5));
    assert!(!c.process_events(&WindowEvent::MouseInput { button: MouseButton::Middle, pressed: true }, 5));
    assert!(!c.process_events(
        &WindowEvent::MouseWheel {
            delta: MouseScrollDelta::LineDelta(0, 3_000),
            phase: TouchPhase::Started,
        },
        5
    ));
    assert!(!c.process_events(
        &WindowEvent::MouseWheel {
            delta: MouseScrollDelta::LineDelta(0, 3_000),
            phase: TouchPhase::Ended,
        },
        5
    ));
    assert_eq!(c, before);
}

#[test]
fn wheel_scroll_of_three_lines_zooms_in_by_three() {
    let mut c = controller();
    assert!(c.process_events(&wheel(MouseScrollDelta::LineDelta(0, 3_000)), 0));
    assert_eq!(c.camera.distance, 12_000);
    assert!(c.process_events(&wheel(MouseScrollDelta::LineDelta(9_000, -1_000)), 0));
    assert_eq!(c.camera.distance, 13_000);
}

#[test]
fn wheel_scroll_in_pixels_uses_the_pixel_factor() {
    let mut c = controller();
    assert!(c.process_events(&wheel(MouseScrollDelta::PixelDelta(0, 25_000)), 0));
    assert_eq!(c.camera.distance, 12_500);
    assert!(c.process_events(&wheel(MouseScrollDelta::PixelDelta(0, -5_000)), 0));
    assert_eq!(c.camera.distance, 13_000);
}

#[test]
fn wheel_scroll_stops_at_the_target() {
    let mut c = controller();
    assert!(c.process_events(&wheel(MouseScrollDelta::LineDelta(0, 1_000_000)), 0));
    assert_eq!(c.camera.distance, 0);
    assert!(c.process_events(&wheel(MouseScrollDelta::LineDelta(0, i64::MAX)), 0));
    assert_eq!(c.camera.distance, 0);
    c.distance_per_line = i64::MAX;
    assert!(c.process_events(&wheel(MouseScrollDelta::LineDelta(0, i64::MIN)), 0));
    assert_eq!(c.camera.distance, u64::MAX);
}

#[test]
fn drag_of_a_hundred_pixels_throws_the_camera() {
    let mut c = still();
    assert!(c.process_events(&right_button(true), 1));
    assert!(c.is_right_mouse_pressed);
    assert!(c.process_events(&WindowEvent::CursorMoved { x: 200, y: 50 }, 2));
    assert_eq!(c.angle_velocity, 0);
    assert_eq!(c.last_cursor_position, Some((200, 50)));
    assert_eq!(c.last_cursor_position_ts, Some(2));
    assert!(c.process_events(&WindowEvent::CursorMoved { x: 300, y: 50 }, 3));
    assert_eq!(c.angle_velocity, -100_000);
    assert_eq!(c.camera.plane_angle, Deg { millis: 30_000 });
    assert_eq!(c.camera.angle, Deg { millis: 0 });
    assert!(c.process_events(&right_button(false), 4));
    c.decay_interval = 1_000;
    c.update(1_000);
    assert_eq!(c.angle_velocity, -99_900);
    assert_eq!(c.camera.angle, Deg { millis: 260_100 });
    let mut last = c.angle_velocity;
    for _ in 0..20_000 {
        c.update(1_000);
        assert!(c.angle_velocity <= 0);
        assert!(c.angle_velocity >= last);
        last = c.angle_velocity;
    }
    assert_eq!(c.angle_velocity, 0);
}

#[test]
fn spin_decays_once_per_interval() {
    let mut c = still();
    c.angle_velocity = -100_000;
    c.update(1_000);
    let mut expected: i64 = -100_000;
    for _ in 0..62 {
        expected = expected * 999 / 1000;
    }
    assert_eq!(c.angle_velocity, expected);
    assert_eq!(c.decay_elapsed, 8);
    c.update(7);
    assert_eq!(c.angle_velocity, expected);
    assert_eq!(c.decay_elapsed, 15);
    c.update(1);
    assert_eq!(c.angle_velocity, expected * 999 / 1000);
    assert_eq!(c.decay_elapsed, 0);
}

#[test]
fn decay_shrinks_step_by_step() {
    assert_eq!(decay(1_000, 999, 0), 1_000);
    assert_eq!(decay(1_000, 999, 1), 999);
    assert_eq!(decay(1_000, 999, 2), 998);
    assert_eq!(decay(-1_000, 999, 2), -998);
    assert_eq!(decay(1_000, 500, 3), 125);
    assert_eq!(decay(1_000, 0, 1), 0);
    assert_eq!(decay(1_000, 1_000, u128::MAX), 1_000);
    assert_eq!(decay(i64::MAX, 999, u128::MAX), 0);
    assert_eq!(decay(i64::MIN, 999, u128::MAX), 0);
    assert_eq!(decay(5, 999, 5), 0);
}

#[test]
fn vertical_drag_tilts_the_camera() {
    let mut c = still();
    c.process_events(&right_button(true), 0);
    c.process_events(&WindowEvent::CursorMoved { x: 0, y: 0 }, 0);
    c.process_events(&WindowEvent::CursorMoved { x: 0, y: 40 }, 0);
    assert_eq!(c.camera.plane_angle, Deg { millis: 50_000 });
    assert_eq!(c.angle_velocity, 0);
    c.process_events(&WindowEvent::CursorMoved { x: 0, y: -100 }, 0);
    assert_eq!(c.camera.plane_angle, Deg { millis: 340_000 });
    c.process_events(&WindowEvent::CursorMoved { x: -10, y: -100 }, 0);
    assert_eq!(c.angle_velocity, 10_000);
}

#[test]
fn cursor_motion_without_the_button_only_remembers_the_cursor() {
    let mut c = still();
    assert!(c.process_events(&WindowEvent::CursorMoved { x: 10, y: 10 }, 7));
    assert!(c.process_events(&WindowEvent::CursorMoved { x: 500, y: 500 }, 8));
    assert_eq!(c.angle_velocity, 0);
    assert_eq!(c.camera, Camera::new(800, 600));
    assert_eq!(c.last_cursor_position, Some((500, 500)));
    assert_eq!(c.last_cursor_position_ts, Some(8));
}

#[test]
fn release_and_leaving_both_end_the_drag() {
    let mut c = still();
    c.process_events(&right_button(true), 0);
    c.process_events(&WindowEvent::CursorMoved { x: 10, y: 10 }, 1);
    assert!(c.process_events(&right_button(false), 2));
    assert!(!c.is_right_mouse_pressed);
    assert_eq!(c.last_cursor_position, None);
    assert_eq!(c.last_cursor_position_ts, None);
    c.process_events(&right_button(true), 3);
    c.process_events(&WindowEvent::CursorMoved { x: 900, y: 900 }, 4);
    assert_eq!(c.angle_velocity, 0);
    assert_eq!(c.camera.plane_angle, Deg { millis: 30_000 });
    assert!(c.process_events(&WindowEvent::CursorLeft, 5));
    assert_eq!(c.last_cursor_position, None);
    assert_eq!(c.last_cursor_position_ts, None);
    assert!(c.is_right_mouse_pressed);
    c.process_events(&WindowEvent::CursorMoved { x: 0, y: 0 }, 6);
    assert_eq!(c.angle_velocity, 0);
    assert_eq!(c.camera.plane_angle, Deg { millis: 30_000 });
}

#[test]
fn extreme_drags_saturate_the_spin() {
    let mut c = still();
    c.degrees_per_pixel = i64::MAX;
    c.process_events(&right_button(true), 0);
    c.process_events(&WindowEvent::CursorMoved { x: i32::MIN, y: 0 }, 0);
    c.process_events(&WindowEvent::CursorMoved { x: i32::MAX, y: 0 }, 0);
    assert_eq!(c.angle_velocity, i64::MIN);
    c.process_events(&WindowEvent::CursorMoved { x: i32::MIN, y: i32::MAX }, 0);
    assert_eq!(c.angle_velocity, i64::MAX);
    assert!(0 <= c.camera.plane_angle.millis && c.camera.plane_angle.millis < FULL_TURN);
}

#[test]
fn update_zooms_while_a_zoom_key_is_held() {
    let mut c = still();
    c.process_events(&key(NamedKey::ArrowUp, true), 0);
    c.update(200);
    assert_eq!(c.camera.distance, 12_000);
    c.process_events(&key(NamedKey::ArrowUp, false), 0);
    c.update(200);
    assert_eq!(c.camera.distance, 12_000);
    c.process_events(&key(NamedKey::ArrowDown, true), 0);
    c.update(400);
    assert_eq!(c.camera.distance, 18_000);
}

#[test]
fn radius_never_goes_below_zero() {
    let mut c = still();
    c.process_events(&key(NamedKey::ArrowUp, true), 0);
    c.update(1_000);
    assert_eq!(c.camera.distance, 0);
    c.update(u64::MAX);
    assert_eq!(c.camera.distance, 0);
    c.update(1);
    assert_eq!(c.camera.distance, 0);
    c.process_events(&key(NamedKey::ArrowDown, true), 0);
    c.update(100);
    assert_eq!(c.camera.distance, 1_500);
}

#[test]
fn update_turns_while_a_turn_key_is_held() {
    let mut c = still();
    c.process_events(&key(NamedKey::ArrowRight, true), 0);
    c.update(500);
    assert_eq!(c.camera.angle, Deg { millis: 90_000 });
    c.update(1_500);
    assert_eq!(c.camera.angle, Deg { millis: 0 });
    c.process_events(&key(NamedKey::ArrowRight, false), 0);
    c.process_events(&key(NamedKey::ArrowLeft, true), 0);
    c.update(250);
    assert_eq!(c.camera.angle, Deg { millis: 315_000 });
    c.process_events(&key(NamedKey::ArrowRight, true), 0);
    c.update(250);
    assert_eq!(c.camera.angle, Deg { millis: 315_000 });
}

#[test]
fn key_turn_and_spin_add_up_in_one_frame() {
    let mut c = controller();
    c.decay_factor = 1_000;
    c.process_events(&key(NamedKey::ArrowRight, true), 0);
    c.update(1_000);
    assert_eq!(c.angle_velocity, 20_000);
    assert_eq!(c.camera.angle, Deg { millis: 200_000 });
    c.update(1_000);
    assert_eq!(c.camera.angle, Deg { millis: 40_000 });
}

#[test]
fn spin_alone_drifts_the_yaw() {
    let mut c = controller();
    c.update(0);
    assert_eq!(c.angle_velocity, 20_000);
    assert_eq!(c.camera.angle, Deg { millis: 0 });
    c.update(15);
    assert_eq!(c.angle_velocity, 20_000);
    assert_eq!(c.camera.angle, Deg { millis: 300 });
    c.update(1);
    assert_eq!(c.angle_velocity, 19_980);
    assert_eq!(c.camera.angle, Deg { millis: 319 });
}

#[test]
fn angles_stay_in_range_over_long_runs() {
    let mut c = controller();
    c.process_events(&key(NamedKey::ArrowRight, true), 0);
    c.process_events(&right_button(true), 0);
    let mut x: i32 = 0;
    for i in 0..5_000u64 {
        x = x.wrapping_mul(1_103_515_245).wrapping_add(12_345);
        c.step(&Step::Event(WindowEvent::CursorMoved { x, y: x.wrapping_mul(31) }, i));
        c.step(&Step::Frame((i * 7_919) % 100_000));
        assert!(0 <= c.camera.angle.millis && c.camera.angle.millis < FULL_TURN);
        assert!(0 <= c.camera.plane_angle.millis && c.camera.plane_angle.millis < FULL_TURN);
        assert!(c.decay_elapsed < c.decay_interval);
    }
    c.step(&Step::Frame(u64::MAX));
    assert!(0 <= c.camera.angle.millis && c.camera.angle.millis < FULL_TURN);
}

#[test]
fn step_does_what_the_event_or_the_frame_does() {
    let mut a = controller();
    let mut b = controller();
    a.step(&Step::Event(key(NamedKey::ArrowUp, true), 3));
    b.process_events(&key(NamedKey::ArrowUp, true), 3);
    assert_eq!(a, b);
    a.step(&Step::Frame(33));
    b.update(33);
    assert_eq!(a, b);
}

#[test]
fn well_formedness_can_be_tested() {
    let mut c = controller();
    assert!(c.camera.is_wf());
    assert!(c.is_wf());
    c.update(12_345);
    assert!(c.is_wf());
    c.decay_factor = 1_001;
    assert!(!c.is_wf());
    c.decay_factor = 1_000;
    assert!(c.is_wf());
    c.decay_elapsed = c.decay_interval;
    assert!(!c.is_wf());
    c.decay_elapsed = 0;
    c.camera.angle = Deg { millis: FULL_TURN };
    assert!(!c.camera.is_wf());
    assert!(!c.is_wf());
    c.camera.angle = c.camera.angle.normalize();
    assert!(c.is_wf());
    c.camera.plane_angle = Deg { millis: -1 };
    assert!(!c.is_wf());
}
