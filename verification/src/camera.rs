//! The orbit camera and the controller that steers it from window input.
//!
//! Distances are counted in thousandths of a world unit, angles in
//! thousandths of a degree, rates per second, time in milliseconds and
//! cursor positions in whole pixels.

use vstd::prelude::*;
use crate::angle::{lemma_normalize_idempotent, wrapped, Deg, FULL_TURN};
use crate::fixed::{
    clamp, multiply_milli, over_millis, saturate_i64, saturate_u64, scale_over_millis,
    times_milli,
};

verus! {

/// A camera placed on a sphere around its target.
#[derive(Clone, Copy, Debug, PartialEq, Eq)]
pub struct Camera {
    /// Yaw around the vertical axis.
    pub angle: Deg,
    /// Distance from the target.
    pub distance: u64,
    /// The point looked at.
    pub target: [i64; 3],
    /// The direction that is up on screen.
    pub up: [i64; 3],
    /// Tilt: elevation around the secondary axis.
    pub plane_angle: Deg,
    /// Width of the viewport, the numerator of the aspect ratio.
    pub aspect_width: u32,
    /// Height of the viewport, the denominator of the aspect ratio.
    pub aspect_height: u32,
    /// Vertical field of view.
    pub fovy: Deg,
    /// Distance of the near clipping plane.
    pub znear: u64,
    /// Distance of the far clipping plane.
    pub zfar: u64,
}

impl Camera {
    /// Yaw and tilt lie in the canonical range.
    pub open spec fn wf(self) -> bool {
        self.angle.is_normalized() && self.plane_angle.is_normalized()
    }

    /// Tests whether yaw and tilt lie in the canonical range.
    pub fn is_wf(&self) -> (r: bool)
        ensures
            r == self.wf(),
    {
        0 <= self.angle.millis && self.angle.millis < FULL_TURN && 0 <= self.plane_angle.millis
            && self.plane_angle.millis < FULL_TURN
    }

    /// The camera as it starts: no yaw, a tilt of 30 degrees, 15 units
    /// from the origin, with the aspect ratio of the given viewport.
    pub open spec fn initial(width: u32, height: u32) -> Camera {
        Camera {
            angle: Deg { millis: 0 },
            distance: 15_000,
            target: [0i64, 0i64, 0i64],
            up: [0i64, 1_000i64, 0i64],
            plane_angle: Deg { millis: 30_000 },
            aspect_width: width,
            aspect_height: height,
            fovy: Deg { millis: 45_000 },
            znear: 100,
            zfar: 100_000,
        }
    }

    /// A camera in its starting placement for a viewport of the given
    /// size.
    pub fn new(width: u32, height: u32) -> (r: Camera)
        ensures
            r == Camera::initial(width, height),
            r.wf(),
    {
        Camera {
            angle: Deg { millis: 0 },
            distance: 15_000,
            target: [0i64, 0i64, 0i64],
            up: [0i64, 1_000i64, 0i64],
            plane_angle: Deg { millis: 30_000 },
            aspect_width: width,
            aspect_height: height,
            fovy: Deg { millis: 45_000 },
            znear: 100,
            zfar: 100_000,
        }
    }

    /// Takes the aspect ratio of a viewport of the given size. The
    /// placement of the camera stays as it is.
    pub fn resize(&mut self, width: u32, height: u32)
        ensures
            *final(self) == (Camera { aspect_width: width, aspect_height: height, ..*old(self) }),
            old(self).wf() ==> final(self).wf(),
    {
        self.aspect_width = width;
        self.aspect_height = height;
    }
}

/// The keys that the window reports by name.
#[derive(Clone, Copy, Debug, PartialEq, Eq)]
pub enum NamedKey {
    Space,
    Shift,
    ArrowUp,
    ArrowLeft,
    ArrowDown,
    ArrowRight,
    Escape,
    Other,
}

/// The buttons of the mouse.
#[derive(Clone, Copy, Debug, PartialEq, Eq)]
pub enum MouseButton {
    Left,
    Right,
    Middle,
    Other,
}

/// How far the wheel was turned, in thousandths of a line or of a pixel.
#[derive(Clone, Copy, Debug, PartialEq, Eq)]
pub enum MouseScrollDelta {
    LineDelta(i64, i64),
    PixelDelta(i64, i64),
}

/// The stage of a touch or scroll gesture.
#[derive(Clone, Copy, Debug, PartialEq, Eq)]
pub enum TouchPhase {
    Started,
    Moved,
    Ended,
    Cancelled,
}

/// What the window reports of the keyboard and the mouse.
#[derive(Clone, Copy, Debug, PartialEq, Eq)]
pub enum WindowEvent {
    /// A key went down or came up.
    KeyboardInput { key: NamedKey, pressed: bool },
    /// A mouse button went down or came up.
    MouseInput { button: MouseButton, pressed: bool },
    /// The wheel was turned.
    MouseWheel { delta: MouseScrollDelta, phase: TouchPhase },
    /// The cursor left the window.
    CursorLeft,
    /// The cursor moved to the pixel at `x`, `y`.
    CursorMoved { x: i32, y: i32 },
    /// Anything else.
    Other,
}

/// The state of the keys and the mouse, the tunables, and the camera that
/// they steer.
#[derive(Clone, Copy, Debug, PartialEq, Eq)]
pub struct CameraController {
    pub camera: Camera,
    /// Zoom speed while a zoom key is held.
    pub distance_per_second: i64,
    /// Zoom per pixel of wheel motion.
    pub distance_per_pixel: i64,
    /// Zoom per line of wheel motion.
    pub distance_per_line: i64,
    /// Yaw speed while a turn key is held.
    pub degrees_per_second: i64,
    /// Rotation per pixel of drag.
    pub degrees_per_pixel: i64,
    /// The spin that a drag left behind, per second.
    pub angle_velocity: i64,
    /// The factor, in thousandths, by which the spin shrinks once per
    /// decay interval.
    pub decay_factor: i64,
    /// The length of the decay interval.
    pub decay_interval: u64,
    /// The time since the spin last shrank, less than one interval.
    pub decay_elapsed: u64,
    pub is_up_pressed: bool,
    pub is_down_pressed: bool,
    pub is_forward_pressed: bool,
    pub is_backward_pressed: bool,
    pub is_left_pressed: bool,
    pub is_right_pressed: bool,
    pub is_right_mouse_pressed: bool,
    pub last_cursor_position: Option<(i32, i32)>,
    pub last_cursor_position_ts: Option<u64>,
}

/// `x` limited to what a distance can hold.
pub open spec fn as_distance(x: int) -> u64 {
    clamp(x, 0, u64::MAX as int) as u64
}

/// `x` limited to what a spin can hold.
pub open spec fn as_velocity(x: int) -> i64 {
    clamp(x, i64::MIN as int, i64::MAX as int) as i64
}

/// The spin `v` after it shrank once by `factor` thousandths.
pub open spec fn decay_step(v: int, factor: int) -> int {
    times_milli(v, factor)
}

/// The spin `v` after it shrank `steps` times.
pub open spec fn decayed(v: int, factor: int, steps: nat) -> int
    decreases steps,
{
    if steps == 0 {
        v
    } else {
        decayed(decay_step(v, factor), factor, (steps - 1) as nat)
    }
}

/// A spin that shrinks moves toward rest and never past it: it keeps its
/// sign and does not grow.
pub proof fn lemma_decay_toward_zero(v: int, factor: int, steps: nat)
    requires
        0 <= factor <= 1000,
    ensures
        v >= 0 ==> 0 <= decayed(v, factor, steps) <= v,
        v <= 0 ==> v <= decayed(v, factor, steps) <= 0,
    decreases steps,
{
    if steps > 0 {
        lemma_decay_step_toward_zero(v, factor);
        lemma_decay_toward_zero(decay_step(v, factor), factor, (steps - 1) as nat);
    }
}

/// One step of decay keeps the sign of the spin and does not grow it.
pub proof fn lemma_decay_step_toward_zero(v: int, factor: int)
    requires
        0 <= factor <= 1000,
    ensures
        v >= 0 ==> 0 <= decay_step(v, factor) <= v,
        v <= 0 ==> v <= decay_step(v, factor) <= 0,
{
    if v >= 0 {
        assert(0 <= v * factor <= v * 1000) by (nonlinear_arith)
            requires
                v >= 0,
                0 <= factor <= 1000,
        ;
        assert((v * factor) / 1000 <= v) by (nonlinear_arith)
            requires
                0 <= v * factor <= v * 1000,
        ;
        assert((v * factor) / 1000 >= 0) by (nonlinear_arith)
            requires
                0 <= v * factor,
        ;
    } else {
        let m = -v;
        assert(0 <= m * factor <= m * 1000) by (nonlinear_arith)
            requires
                m >= 0,
                0 <= factor <= 1000,
        ;
        assert(-(v * factor) == m * factor) by (nonlinear_arith)
            requires
                m == -v,
        ;
        assert((m * factor) / 1000 <= m) by (nonlinear_arith)
            requires
                0 <= m * factor <= m * 1000,
        ;
        assert((m * factor) / 1000 >= 0) by (nonlinear_arith)
            requires
                0 <= m * factor,
        ;
        if v * factor >= 0 {
            assert(m * factor == 0);
            assert(v * factor == 0);
        }
    }
}

/// A spin that one step leaves as it is stays as it is for good.
pub proof fn lemma_decay_settled(v: int, factor: int, steps: nat)
    requires
        decay_step(v, factor) == v,
    ensures
        decayed(v, factor, steps) == v,
    decreases steps,
{
    if steps > 0 {
        lemma_decay_settled(v, factor, (steps - 1) as nat);
    }
}

impl CameraController {
    /// The camera is well formed, the decay factor is at most 1, and the
    /// time since the last decay is less than one interval.
    pub open spec fn wf(self) -> bool {
        &&& self.camera.wf()
        &&& 0 <= self.decay_factor <= 1000
        &&& self.decay_elapsed < self.decay_interval
    }

    /// Tests whether the controller is well formed.
    pub fn is_wf(&self) -> (r: bool)
        ensures
            r == self.wf(),
    {
        self.camera.is_wf() && 0 <= self.decay_factor && self.decay_factor <= 1000
            && self.decay_elapsed < self.decay_interval
    }

    /// The controller as it starts: nothing held, no cursor seen, a spin
    /// of 20 degrees per second, and the default tunables.
    pub open spec fn initial(camera: Camera) -> CameraController {
        CameraController {
            camera,
            distance_per_second: 15_000,
            distance_per_pixel: 100,
            distance_per_line: 1_000,
            degrees_per_second: 180_000,
            degrees_per_pixel: 500,
            angle_velocity: 20_000,
            decay_factor: 999,
            decay_interval: 16,
            decay_elapsed: 0,
            is_up_pressed: false,
            is_down_pressed: false,
            is_forward_pressed: false,
            is_backward_pressed: false,
            is_left_pressed: false,
            is_right_pressed: false,
            is_right_mouse_pressed: false,
            last_cursor_position: None,
            last_cursor_position_ts: None,
        }
    }

    /// A controller in its starting state around `camera`.
    pub fn new(camera: Camera) -> (r: CameraController)
        ensures
            r == CameraController::initial(camera),
            camera.wf() ==> r.wf(),
    {
        CameraController {
            camera,
            distance_per_second: 15_000,
            distance_per_pixel: 100,
            distance_per_line: 1_000,
            degrees_per_second: 180_000,
            degrees_per_pixel: 500,
            angle_velocity: 20_000,
            decay_factor: 999,
            decay_interval: 16,
            decay_elapsed: 0,
            is_up_pressed: false,
            is_down_pressed: false,
            is_forward_pressed: false,
            is_backward_pressed: false,
            is_left_pressed: false,
            is_right_pressed: false,
            is_right_mouse_pressed: false,
            last_cursor_position: None,
            last_cursor_position_ts: None,
        }
    }

    /// The camera.
    pub fn camera(&self) -> (r: &Camera)
        ensures
            *r == self.camera,
    {
        &self.camera
    }

    /// The camera, to change it in place.
    pub fn camera_mut(&mut self) -> (r: &mut Camera)
        ensures
            *r == old(self).camera,
            *final(self) == (CameraController { camera: *final(r), ..*old(self) }),
    {
        &mut self.camera
    }
}

/// How far one turn of the wheel moves the camera toward its target.
pub open spec fn scroll_amount(delta: MouseScrollDelta, per_line: int, per_pixel: int) -> int {
    match delta {
        MouseScrollDelta::LineDelta(_, y) => times_milli(y as int, per_line),
        MouseScrollDelta::PixelDelta(_, y) => times_milli(y as int, per_pixel),
    }
}

/// Whether the controller takes the key for one of its own.
pub open spec fn is_steering_key(key: NamedKey) -> bool {
    key != NamedKey::Escape && key != NamedKey::Other
}

/// Whether the controller handles the event. Every other event is left
/// to the caller.
pub open spec fn handles(event: WindowEvent) -> bool {
    match event {
        WindowEvent::KeyboardInput { key, .. } => is_steering_key(key),
        WindowEvent::MouseInput { button, .. } => button == MouseButton::Right,
        WindowEvent::MouseWheel { phase, .. } => phase == TouchPhase::Moved,
        WindowEvent::CursorLeft => true,
        WindowEvent::CursorMoved { .. } => true,
        WindowEvent::Other => false,
    }
}

impl CameraController {
    /// The controller after a key went down or came up: the flag of that
    /// key follows the key.
    pub open spec fn after_key(self, key: NamedKey, pressed: bool) -> CameraController {
        match key {
            NamedKey::Space => CameraController { is_up_pressed: pressed, ..self },
            NamedKey::Shift => CameraController { is_down_pressed: pressed, ..self },
            NamedKey::ArrowUp => CameraController { is_forward_pressed: pressed, ..self },
            NamedKey::ArrowLeft => CameraController { is_left_pressed: pressed, ..self },
            NamedKey::ArrowDown => CameraController { is_backward_pressed: pressed, ..self },
            NamedKey::ArrowRight => CameraController { is_right_pressed: pressed, ..self },
            NamedKey::Escape => self,
            NamedKey::Other => self,
        }
    }

    /// The controller after the secondary button went down or came up.
    /// Its release ends the drag and forgets the cursor.
    pub open spec fn after_secondary_button(self, pressed: bool) -> CameraController {
        if pressed {
            CameraController { is_right_mouse_pressed: true, ..self }
        } else {
            CameraController {
                is_right_mouse_pressed: false,
                last_cursor_position: None,
                last_cursor_position_ts: None,
                ..self
            }
        }
    }

    /// The controller after the wheel was turned: the camera moved toward
    /// its target by the scroll amount, and not past it.
    pub open spec fn after_scroll(self, delta: MouseScrollDelta) -> CameraController {
        let amount = scroll_amount(
            delta,
            self.distance_per_line as int,
            self.distance_per_pixel as int,
        );
        CameraController {
            camera: Camera { distance: as_distance(self.camera.distance - amount), ..self.camera },
            ..self
        }
    }

    /// The controller after the cursor left the window.
    pub open spec fn after_cursor_left(self) -> CameraController {
        CameraController { last_cursor_position: None, last_cursor_position_ts: None, ..self }
    }

    /// The controller after the cursor moved to `x`, `y` at the time
    /// `now`. During a drag the vertical motion tilts the camera and the
    /// horizontal motion, inverted and doubled, adds to the spin.
    pub open spec fn after_cursor_moved(self, x: i32, y: i32, now: u64) -> CameraController {
        let dragged = match self.last_cursor_position {
            Some((last_x, last_y)) if self.is_right_mouse_pressed => CameraController {
                camera: Camera {
                    plane_angle: Deg {
                        millis: wrapped(
                            self.camera.plane_angle.millis + (y - last_y) * self.degrees_per_pixel,
                        ) as i64,
                    },
                    ..self.camera
                },
                angle_velocity: as_velocity(
                    self.angle_velocity - (x - last_x) * self.degrees_per_pixel * 2,
                ),
                ..self
            },
            _ => self,
        };
        CameraController {
            last_cursor_position: Some((x, y)),
            last_cursor_position_ts: Some(now),
            ..dragged
        }
    }

    /// The controller after `event`, seen at the time `now`.
    pub open spec fn after_event(self, event: WindowEvent, now: u64) -> CameraController {
        if !handles(event) {
            self
        } else {
            match event {
                WindowEvent::KeyboardInput { key, pressed } => self.after_key(key, pressed),
                WindowEvent::MouseInput { pressed, .. } => self.after_secondary_button(pressed),
                WindowEvent::MouseWheel { delta, .. } => self.after_scroll(delta),
                WindowEvent::CursorLeft => self.after_cursor_left(),
                WindowEvent::CursorMoved { x, y } => self.after_cursor_moved(x, y, now),
                WindowEvent::Other => self,
            }
        }
    }

    /// How often the spin shrinks during a frame of `dt` milliseconds.
    pub open spec fn decay_steps(self, dt: u64) -> nat {
        ((self.decay_elapsed + dt) / (self.decay_interval as int)) as nat
    }

    /// The controller after a frame of `dt` milliseconds. A held zoom key
    /// moves the camera along its line of sight, not past the target; a
    /// held turn key turns it; then the spin shrinks, once for each decay
    /// interval that ended, and turns the camera further.
    pub open spec fn after_update(self, dt: u64) -> CameraController {
        let step = over_millis(self.distance_per_second as int, dt as int);
        let near = if self.is_forward_pressed {
            as_distance(self.camera.distance - step)
        } else {
            self.camera.distance
        };
        let far = if self.is_backward_pressed {
            as_distance(near + step)
        } else {
            near
        };
        let turn = over_millis(self.degrees_per_second as int, dt as int);
        let right = if self.is_right_pressed {
            wrapped(self.camera.angle.millis + turn)
        } else {
            self.camera.angle.millis as int
        };
        let left = if self.is_left_pressed {
            wrapped(right - turn)
        } else {
            right
        };
        let spin = decayed(
            self.angle_velocity as int,
            self.decay_factor as int,
            self.decay_steps(dt),
        );
        let yaw = wrapped(left + over_millis(spin, dt as int));
        CameraController {
            camera: Camera { angle: Deg { millis: yaw as i64 }, distance: far, ..self.camera },
            angle_velocity: spin as i64,
            decay_elapsed: ((self.decay_elapsed + dt) % (self.decay_interval as int)) as u64,
            ..self
        }
    }

    /// Takes one event of the window, seen at the time `now`, and says
    /// whether the controller handled it. An event that it does not handle
    /// changes nothing.
    pub fn process_events(&mut self, event: &WindowEvent, now: u64) -> (handled: bool)
        requires
            old(self).wf(),
        ensures
            handled == handles(*event),
            *final(self) == old(self).after_event(*event, now),
            final(self).wf(),
    {
        match *event {
            WindowEvent::KeyboardInput { key, pressed } => {
                match key {
                    NamedKey::Space => {
                        self.is_up_pressed = pressed;
                        true
                    },
                    NamedKey::Shift => {
                        self.is_down_pressed = pressed;
                        true
                    },
                    NamedKey::ArrowUp => {
                        self.is_forward_pressed = pressed;
                        true
                    },
                    NamedKey::ArrowLeft => {
                        self.is_left_pressed = pressed;
                        true
                    },
                    NamedKey::ArrowDown => {
                        self.is_backward_pressed = pressed;
                        true
                    },
                    NamedKey::ArrowRight => {
                        self.is_right_pressed = pressed;
                        true
                    },
                    NamedKey::Escape => false,
                    NamedKey::Other => false,
                }
            },
            WindowEvent::MouseInput { button, pressed } => {
                match button {
                    MouseButton::Right => {
                        self.is_right_mouse_pressed = pressed;
                        if !pressed {
                            self.last_cursor_position = None;
                            self.last_cursor_position_ts = None;
                        }
                        true
                    },
                    _ => false,
                }
            },
            WindowEvent::MouseWheel { delta, phase } => {
                match phase {
                    TouchPhase::Moved => {
                        let amount: i128 = match delta {
                            MouseScrollDelta::LineDelta(_, y) => multiply_milli(
                                y,
                                self.distance_per_line,
                            ),
                            MouseScrollDelta::PixelDelta(_, y) => multiply_milli(
                                y,
                                self.distance_per_pixel,
                            ),
                        };
                        self.camera.distance = saturate_u64(self.camera.distance as i128 - amount);
                        true
                    },
                    _ => false,
                }
            },
            WindowEvent::CursorLeft => {
                self.last_cursor_position = None;
                self.last_cursor_position_ts = None;
                true
            },
            WindowEvent::CursorMoved { x, y } => {
                if self.is_right_mouse_pressed {
                    match self.last_cursor_position {
                        Some((last_x, last_y)) => {
                            let dx: i64 = x as i64 - last_x as i64;
                            let dy: i64 = y as i64 - last_y as i64;
                            let rate: i128 = self.degrees_per_pixel as i128;
                            assert(-0x1_0000_0000 * 0x8000_0000_0000_0000 <= dy * rate
                                <= 0x1_0000_0000 * 0x8000_0000_0000_0000) by (nonlinear_arith)
                                requires
                                    -0x1_0000_0000 <= dy <= 0x1_0000_0000,
                                    -0x8000_0000_0000_0000 <= rate <= 0x8000_0000_0000_0000,
                            ;
                            assert(-0x1_0000_0000 * 0x8000_0000_0000_0000 <= dx * rate
                                <= 0x1_0000_0000 * 0x8000_0000_0000_0000) by (nonlinear_arith)
                                requires
                                    -0x1_0000_0000 <= dx <= 0x1_0000_0000,
                                    -0x8000_0000_0000_0000 <= rate <= 0x8000_0000_0000_0000,
                            ;
                            let tilt: i128 = dy as i128 * rate;
                            let throw: i128 = dx as i128 * rate * 2;
                            self.camera.plane_angle = self.camera.plane_angle.turned(tilt);
                            self.angle_velocity = saturate_i64(
                                self.angle_velocity as i128 - throw,
                            );
                        },
                        None => {},
                    }
                }
                self.last_cursor_position = Some((x, y));
                self.last_cursor_position_ts = Some(now);
                true
            },
            WindowEvent::Other => false,
        }
    }
}

/// Shrinks the spin `v` by `factor` thousandths, `steps` times.
pub fn decay(v: i64, factor: i64, steps: u128) -> (r: i64)
    requires
        0 <= factor <= 1000,
    ensures
        r == decayed(v as int, factor as int, steps as nat),
{
    let mut spin: i64 = v;
    let mut left: u128 = steps;
    while left > 0
        invariant
            0 <= factor <= 1000,
            decayed(spin as int, factor as int, left as nat) == decayed(
                v as int,
                factor as int,
                steps as nat,
            ),
        decreases left,
    {
        proof {
            lemma_decay_step_toward_zero(spin as int, factor as int);
        }
        let wide: i128 = multiply_milli(spin, factor);
        let next: i64 = wide as i64;
        if next == spin {
            proof {
                lemma_decay_settled(spin as int, factor as int, left as nat);
            }
            left = 0;
        } else {
            spin = next;
            left = left - 1;
        }
    }
    spin
}

impl CameraController {
    /// Advances the controller by one frame of `dt` milliseconds.
    pub fn update(&mut self, dt: u64)
        requires
            old(self).wf(),
        ensures
            *final(self) == old(self).after_update(dt),
            final(self).wf(),
    {
        let step: i128 = scale_over_millis(self.distance_per_second, dt);
        if self.is_forward_pressed {
            self.camera.distance = saturate_u64(self.camera.distance as i128 - step);
        }
        if self.is_backward_pressed {
            self.camera.distance = saturate_u64(self.camera.distance as i128 + step);
        }
        let turn: i128 = scale_over_millis(self.degrees_per_second, dt);
        if self.is_right_pressed {
            self.camera.angle = self.camera.angle.turned(turn);
        }
        if self.is_left_pressed {
            self.camera.angle = self.camera.angle.turned(-turn);
        }
        let elapsed: u128 = self.decay_elapsed as u128 + dt as u128;
        let interval: u128 = self.decay_interval as u128;
        let steps: u128 = elapsed / interval;
        self.angle_velocity = decay(self.angle_velocity, self.decay_factor, steps);
        self.decay_elapsed = (elapsed % interval) as u64;
        let drift: i128 = scale_over_millis(self.angle_velocity, dt);
        proof {
            lemma_normalize_idempotent(self.camera.angle.millis as int);
        }
        self.camera.angle = self.camera.angle.turned(drift);
    }
}

/// One thing that happens to a controller: an event of the window seen
/// at some time, or a frame of some length.
#[derive(Clone, Copy, Debug, PartialEq, Eq)]
pub enum Step {
    Event(WindowEvent, u64),
    Frame(u64),
}

impl CameraController {
    /// The controller after one step.
    pub open spec fn after_step(self, step: Step) -> CameraController {
        match step {
            Step::Event(event, now) => self.after_event(event, now),
            Step::Frame(dt) => self.after_update(dt),
        }
    }

    /// The controller after all of `steps`, in order.
    pub open spec fn after_all(self, steps: Seq<Step>) -> CameraController
        decreases steps.len(),
    {
        if steps.len() == 0 {
            self
        } else {
            self.after_all(steps.drop_last()).after_step(steps.last())
        }
    }

    /// Takes one step: an event or a frame.
    pub fn step(&mut self, step: &Step)
        requires
            old(self).wf(),
        ensures
            *final(self) == old(self).after_step(*step),
            final(self).wf(),
    {
        match *step {
            Step::Event(event, now) => {
                self.process_events(&event, now);
            },
            Step::Frame(dt) => {
                self.update(dt);
            },
        }
    }
}

/// No single step takes yaw or tilt out of the canonical range, or any
/// tunable out of its own.
pub proof fn lemma_step_keeps_range(c: CameraController, step: Step)
    requires
        c.wf(),
    ensures
        c.after_step(step).wf(),
{
    match step {
        Step::Event(event, now) => {
            match event {
                WindowEvent::CursorMoved { x, y } => {
                    match c.last_cursor_position {
                        Some((last_x, last_y)) => {
                            lemma_normalize_idempotent(
                                c.camera.plane_angle.millis + (y - last_y) * c.degrees_per_pixel,
                            );
                        },
                        None => {},
                    }
                },
                _ => {},
            }
        },
        Step::Frame(dt) => {
            let after = c.after_update(dt);
            let turn = over_millis(c.degrees_per_second as int, dt as int);
            let right = if c.is_right_pressed {
                wrapped(c.camera.angle.millis + turn)
            } else {
                c.camera.angle.millis as int
            };
            let left = if c.is_left_pressed {
                wrapped(right - turn)
            } else {
                right
            };
            let spin = decayed(c.angle_velocity as int, c.decay_factor as int, c.decay_steps(dt));
            lemma_normalize_idempotent(left + over_millis(spin, dt as int));
            vstd::arithmetic::div_mod::lemma_mod_bound(
                c.decay_elapsed + dt,
                c.decay_interval as int,
            );
        },
    }
}

/// Whatever the events and frames, and however many: yaw and tilt stay
/// within the canonical range, and the distance never falls below zero.
pub proof fn lemma_steering_stays_in_range(c: CameraController, steps: Seq<Step>)
    requires
        c.wf(),
    ensures
        c.after_all(steps).wf(),
        c.after_all(steps).camera.angle.is_normalized(),
        c.after_all(steps).camera.plane_angle.is_normalized(),
        c.after_all(steps).camera.distance >= 0,
    decreases steps.len(),
{
    if steps.len() > 0 {
        lemma_steering_stays_in_range(c, steps.drop_last());
        lemma_step_keeps_range(c.after_all(steps.drop_last()), steps.last());
    }
}

/// Zooming in stops at the target: a frame long enough to cover the whole
/// distance leaves the camera at distance zero, not beyond.
pub proof fn lemma_zoom_in_stops_at_target(c: CameraController, dt: u64)
    requires
        c.is_forward_pressed,
        !c.is_backward_pressed,
        over_millis(c.distance_per_second as int, dt as int) >= c.camera.distance,
    ensures
        c.after_update(dt).camera.distance == 0,
{
}

/// Within one frame the spin moves toward rest and never past it: it
/// keeps its sign and does not grow.
pub proof fn lemma_update_spin_toward_zero(c: CameraController, dt: u64)
    requires
        c.wf(),
    ensures
        c.angle_velocity >= 0 ==> 0 <= c.after_update(dt).angle_velocity <= c.angle_velocity,
        c.angle_velocity <= 0 ==> c.angle_velocity <= c.after_update(dt).angle_velocity <= 0,
{
    lemma_decay_toward_zero(c.angle_velocity as int, c.decay_factor as int, c.decay_steps(dt));
}

} // verus!
