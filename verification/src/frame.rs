//! One frame of the loop: how much time has passed, what the pending events
//! do to the input state, where the camera goes, and the parameter set that
//! the shader is handed.

use vstd::prelude::*;
use crate::camera::{Camera, CameraModel, Pose};
use crate::controls::{Controls, Event};
use crate::fixed::{trunc_div, UNIT};
use crate::orientation::Trig;
use crate::vector::Vec3;

verus! {

/// Microseconds in a second.
pub const MICROS_PER_SECOND: u64 = 1_000_000;

/// The projection's focal length, in millionths.
pub const FOCAL_LENGTH: i64 = 1_800_000;

/// Where a ray starts to march, in millionths of a world unit.
pub const Z_NEAR: i64 = 0;

/// Where a ray gives up, in millionths of a world unit.
pub const Z_FAR: i64 = 40_000_000;

/// The most steps that a ray marches.
pub const RM_STEPS: i32 = 64;

/// How near to a surface counts as a hit, in millionths of a world unit.
pub const RM_EPSILON: i64 = 1_000;

/// Four components, in millionths: a colour with its alpha.
#[derive(Clone, Copy, Debug, PartialEq, Eq, Structural)]
pub struct Vec4 {
    pub x: i64,
    pub y: i64,
    pub z: i64,
    pub w: i64,
}

/// The parameter set of one frame, under the names by which the shader knows
/// its inputs. `eye` counts million-millionths of a world unit, the window's
/// sides count pixels, `rm_steps` counts steps; everything else counts
/// millionths.
#[derive(Clone, Copy, Debug, PartialEq, Eq, Structural)]
pub struct ShaderParams {
    pub cam_up: Vec3,
    pub cam_right: Vec3,
    pub cam_forward: Vec3,
    pub eye: Vec3,
    pub focal_length: i64,
    pub z_near: i64,
    pub z_far: i64,
    pub rm_steps: i32,
    pub rm_epsilon: i64,
    pub sky_color: Vec4,
    pub ambient: Vec4,
    pub light_pos: Vec3,
    pub light_color: Vec4,
    pub window_width: u32,
    pub window_height: u32,
    pub aspect: i64,
}

/// The time that `secs` whole seconds and `subsec_micros` further microseconds
/// come to, in microseconds, or the largest `u64` where that is less.
pub open spec fn spec_elapsed_micros(secs: int, subsec_micros: int) -> int {
    if secs * MICROS_PER_SECOND + subsec_micros > u64::MAX {
        u64::MAX as int
    } else {
        secs * MICROS_PER_SECOND + subsec_micros
    }
}

/// The width of the viewport over its height, in millionths, rounded toward
/// zero. A viewport of no height has no aspect, and zero stands for it.
pub open spec fn spec_aspect(width: int, height: int) -> int {
    if height > 0 {
        trunc_div(width * UNIT, height)
    } else {
        0
    }
}

/// The controls after the events of `events`, first to last.
pub open spec fn after_events(controls: Controls, events: Seq<Event>) -> Controls
    decreases events.len(),
{
    if events.len() == 0 {
        controls
    } else {
        after_events(controls, events.drop_last()).spec_update(events.last())
    }
}

/// Whether one of the events ends the session.
pub open spec fn any_exit(events: Seq<Event>) -> bool {
    exists|i: int| 0 <= i < events.len() && (#[trigger] events[i]).spec_is_exit()
}

impl ShaderParams {
    /// The parameter set for a camera and an input state.
    pub open spec fn of(camera: CameraModel, controls: Controls) -> ShaderParams {
        ShaderParams {
            cam_up: camera.up(),
            cam_right: camera.right(),
            cam_forward: camera.forward(),
            eye: camera.position,
            focal_length: FOCAL_LENGTH,
            z_near: Z_NEAR,
            z_far: Z_FAR,
            rm_steps: RM_STEPS,
            rm_epsilon: RM_EPSILON,
            sky_color: Vec4 { x: 310_000, y: 470_000, z: 670_000, w: 1_000_000 },
            ambient: Vec4 { x: 150_000, y: 200_000, z: 320_000, w: 1_000_000 },
            light_pos: Vec3 { x: 250_000, y: 2_000_000, z: 0 },
            light_color: Vec4 { x: 1_000_000, y: 1_000_000, z: 1_000_000, w: 1_000_000 },
            window_width: controls.width,
            window_height: controls.height,
            aspect: spec_aspect(controls.width as int, controls.height as int) as i64,
        }
    }

    /// Puts the frame's parameter set together: the camera's basis and
    /// position, the viewport's size and aspect, and the constants of the scene.
    pub fn new(camera: &Camera, controls: &Controls) -> (p: ShaderParams)
        ensures
            p == ShaderParams::of(camera@, *controls),
    {
        ShaderParams {
            cam_up: camera.up(),
            cam_right: camera.right(),
            cam_forward: camera.forward(),
            eye: camera.position(),
            focal_length: FOCAL_LENGTH,
            z_near: Z_NEAR,
            z_far: Z_FAR,
            rm_steps: RM_STEPS,
            rm_epsilon: RM_EPSILON,
            sky_color: Vec4 { x: 310_000, y: 470_000, z: 670_000, w: 1_000_000 },
            ambient: Vec4 { x: 150_000, y: 200_000, z: 320_000, w: 1_000_000 },
            light_pos: Vec3 { x: 250_000, y: 2_000_000, z: 0 },
            light_color: Vec4 { x: 1_000_000, y: 1_000_000, z: 1_000_000, w: 1_000_000 },
            window_width: controls.width,
            window_height: controls.height,
            aspect: aspect(controls.width, controls.height),
        }
    }
}

/// The width of the viewport over its height, in millionths.
pub fn aspect(width: u32, height: u32) -> (r: i64)
    ensures
        r == spec_aspect(width as int, height as int),
{
    if height == 0 {
        return 0;
    }
    assert(0 <= width * UNIT <= 0xffff_ffff * 1_000_000) by (nonlinear_arith)
        requires
            0 <= width <= 0xffff_ffff,
            UNIT == 1_000_000,
    ;
    ((width as i64) * UNIT) / (height as i64)
}

/// The corners of the two triangles that fill the screen, as pairs of
/// normalized device coordinates: the renderer draws nothing else.
pub fn screen_quad() -> (q: [[i8; 2]; 6])
    ensures
        q@ == seq![[-1i8, 1i8], [1i8, 1i8], [-1i8, -1i8], [-1i8, -1i8], [1i8, 1i8], [1i8, -1i8]],
{
    [[-1, 1], [1, 1], [-1, -1], [-1, -1], [1, 1], [1, -1]]
}

/// The duration that a clock reports as whole seconds and the microseconds
/// beyond them, in microseconds: the seconds count in full, and the
/// microseconds are added once.
pub fn elapsed_micros(secs: u64, subsec_micros: u32) -> (dt: u64)
    ensures
        dt == spec_elapsed_micros(secs as int, subsec_micros as int),
{
    assert(0 <= secs * MICROS_PER_SECOND <= 0xffff_ffff_ffff_ffff * 1_000_000) by (nonlinear_arith)
        requires
            0 <= secs <= 0xffff_ffff_ffff_ffff,
            MICROS_PER_SECOND == 1_000_000,
    ;
    let wide: u128 = (secs as u128) * (MICROS_PER_SECOND as u128) + (subsec_micros as u128);
    if wide > u64::MAX as u128 {
        u64::MAX
    } else {
        wide as u64
    }
}

/// What becomes of the cursor's offsets between two moves of the cursor.
#[derive(Clone, Copy, Debug, PartialEq, Eq, Structural)]
pub enum CursorPolicy {
    /// The offsets keep their value: the camera goes on turning until the
    /// cursor is moved back to the centre.
    Latch,
    /// The offsets start every frame at zero: the camera turns only in a
    /// frame in which the cursor moved.
    Recentre,
}

/// All that the loop carries from one frame to the next. `last_tick` is the
/// time at which the previous frame began, in microseconds on the caller's
/// clock.
#[derive(Clone, Copy, Debug)]
pub struct LoopState {
    pub camera: Camera,
    pub controls: Controls,
    pub last_tick: u64,
    pub policy: CursorPolicy,
}

impl LoopState {
    /// The time since the previous frame began, in microseconds; none where
    /// the clock has gone back.
    pub open spec fn spec_frame_time(self, now: u64) -> u64 {
        if now >= self.last_tick {
            (now - self.last_tick) as u64
        } else {
            0
        }
    }

    /// The controls as a frame finds them: as the last frame left them, or,
    /// under `Recentre`, with both offsets at zero.
    pub open spec fn at_frame_start(self) -> Controls {
        match self.policy {
            CursorPolicy::Latch => self.controls,
            CursorPolicy::Recentre => Controls { mouse_dx: 0, mouse_dy: 0, ..self.controls },
        }
    }

    /// The state at the start: the default camera, no input, a viewport of the
    /// given size, the clock at `now`, and the offsets latched.
    pub fn new(width: u32, height: u32, now: u64) -> (s: LoopState)
        ensures
            s.camera@ == Camera::default_model(),
            s.controls == Controls::new_spec(width, height),
            s.last_tick == now,
            s.policy == CursorPolicy::Latch,
    {
        LoopState {
            camera: Camera::default(),
            controls: Controls::new(width, height),
            last_tick: now,
            policy: CursorPolicy::Latch,
        }
    }

    /// The same state under another policy for the cursor's offsets.
    pub fn with_policy(self, policy: CursorPolicy) -> (s: LoopState)
        ensures
            s == (LoopState { policy, ..self }),
    {
        LoopState { policy, ..self }
    }

    /// Takes in all the pending events, first to last, and says whether the
    /// loop goes on: it does unless one of them ends the session. Every event
    /// reaches the controls, also those behind one that ends the session.
    pub fn poll(&mut self, events: &Vec<Event>) -> (go_on: bool)
        ensures
            final(self).controls == after_events(old(self).at_frame_start(), events@),
            final(self).camera == old(self).camera,
            final(self).last_tick == old(self).last_tick,
            final(self).policy == old(self).policy,
            go_on == !any_exit(events@),
    {
        match self.policy {
            CursorPolicy::Latch => {},
            CursorPolicy::Recentre => {
                self.controls.mouse_dx = 0;
                self.controls.mouse_dy = 0;
            },
        }
        assert(events@.take(0) =~= Seq::<Event>::empty());
        let mut stop = false;
        let mut i: usize = 0;
        while i < events.len()
            invariant
                0 <= i <= events.len(),
                self.controls == after_events(old(self).at_frame_start(), events@.take(i as int)),
                self.camera == old(self).camera,
                self.last_tick == old(self).last_tick,
                self.policy == old(self).policy,
                stop == any_exit(events@.take(i as int)),
            decreases events.len() - i,
        {
            let event = events[i];
            self.controls.update(&event);
            proof {
                let before = events@.take(i as int);
                let with = events@.take(i + 1);
                assert(with.drop_last() =~= before);
                assert(with.last() == event);
                if any_exit(before) {
                    let k = choose|k: int| 0 <= k < before.len() && (#[trigger] before[k]).spec_is_exit();
                    assert(with[k].spec_is_exit());
                }
                if event.spec_is_exit() {
                    assert(with[i as int].spec_is_exit());
                }
                if any_exit(with) {
                    let k = choose|k: int| 0 <= k < with.len() && (#[trigger] with[k]).spec_is_exit();
                    if k < i {
                        assert(before[k].spec_is_exit());
                    }
                }
            }
            if event.is_exit() {
                stop = true;
            }
            i += 1;
        }
        assert(events@.take(i as int) =~= events@);
        !stop
    }

    /// The time since the previous frame began.
    pub fn frame_time(&self, now: u64) -> (dt: u64)
        ensures
            dt == self.spec_frame_time(now),
    {
        if now >= self.last_tick {
            now - self.last_tick
        } else {
            0
        }
    }

    /// The pose that the frame beginning at `now` leads to. The caller takes
    /// the sines and cosines of its angles and hands them to `tick`.
    pub fn next_pose(&self, now: u64) -> (p: Pose)
        ensures
            p == self.camera@.step(self.spec_frame_time(now) as int, self.controls),
    {
        self.camera.integrate(self.frame_time(now), &self.controls)
    }

    /// The frame beginning at `now`: the camera is updated by the time since
    /// the previous frame under the present controls, its basis made anew from
    /// `trig`, and the clock is set to `now`.
    pub fn tick(&mut self, now: u64, trig: Trig)
        ensures
            final(self).camera@ == old(self).camera@.after(
                old(self).spec_frame_time(now) as int,
                old(self).controls,
                trig@,
            ),
            final(self).controls == old(self).controls,
            final(self).last_tick == now,
            final(self).policy == old(self).policy,
    {
        let dt = self.frame_time(now);
        let controls = self.controls;
        self.camera.update(dt, &controls, trig);
        self.last_tick = now;
    }

    /// The parameter set for the state as it is.
    pub fn params(&self) -> (p: ShaderParams)
        ensures
            p == ShaderParams::of(self.camera@, self.controls),
    {
        ShaderParams::new(&self.camera, &self.controls)
    }
}

} // verus!
