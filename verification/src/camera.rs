//! The first-person camera: a position, a yaw and a pitch, and the basis that
//! the orientation model gives for them.

use vstd::prelude::*;
use crate::controls::Controls;
use crate::fixed::{abs, clamp_i64, saturate, UNIT};
use crate::orientation::{Basis, Trig, TrigModel};
use crate::orthonormal::{lemma_basis_orthonormal, BASIS_SLACK};
use crate::vector::Vec3;

verus! {

/// A full turn, in million-millionths of a radian.
pub const TWO_PI: i64 = 6_283_185_307_180;

/// How far the camera moves in a second, in world units.
pub const MOVE_SPEED: i64 = 2;

/// How far the camera turns in a second at a cursor offset of one, in radians.
pub const TURN_SPEED: i64 = 1;

/// An angle after one step of wrapping: a full turn less where it is a full
/// turn or more, a full turn more where it is negative.
pub open spec fn spec_wrap(angle: int) -> int {
    if angle >= TWO_PI {
        angle - TWO_PI
    } else if angle < 0 {
        angle + TWO_PI
    } else {
        angle
    }
}

/// An angle after a frame of `dt` microseconds at the cursor offset `offset`.
pub open spec fn spec_turn(angle: int, offset: int, dt: int) -> int {
    spec_wrap(clamp_i64(angle + offset * TURN_SPEED * dt) as int)
}

/// The length of the step of a frame of `dt` microseconds, in
/// million-millionths of a world unit per unit of the basis.
pub open spec fn spec_stride(dt: int) -> int {
    clamp_i64(MOVE_SPEED * dt) as int
}

/// Whether a frame of `dt` microseconds under `controls` turns the camera by
/// less than a full turn about each axis.
pub open spec fn within_a_turn(controls: Controls, dt: int) -> bool {
    &&& abs(controls.mouse_dx * TURN_SPEED * dt) < TWO_PI
    &&& abs(controls.mouse_dy * TURN_SPEED * dt) < TWO_PI
}

/// Steps to the right that the held keys ask for: one, none, or one to the left.
pub open spec fn strafe(controls: Controls) -> int {
    (if controls.right { 1int } else { 0 }) - (if controls.left { 1int } else { 0 })
}

/// Steps forward that the held keys ask for: one, none, or one back.
pub open spec fn advance(controls: Controls) -> int {
    (if controls.up { 1int } else { 0 }) - (if controls.down { 1int } else { 0 })
}

/// Where a camera is and where it looks, without its basis. Angles and
/// position count million-millionths.
#[derive(Clone, Copy, Debug, PartialEq, Eq, Structural)]
pub struct Pose {
    pub theta: i64,
    pub phi: i64,
    pub position: Vec3,
}

/// What a `Camera` holds: its pose, and the sines and cosines that its basis
/// was made from.
pub struct CameraModel {
    pub theta: int,
    pub phi: int,
    pub position: Vec3,
    pub trig: TrigModel,
}

impl CameraModel {
    pub open spec fn forward(self) -> Vec3 {
        self.trig.forward()
    }

    pub open spec fn right(self) -> Vec3 {
        self.trig.right()
    }

    pub open spec fn up(self) -> Vec3 {
        self.trig.up()
    }

    pub open spec fn pose(self) -> Pose {
        Pose { theta: self.theta as i64, phi: self.phi as i64, position: self.position }
    }

    /// Both angles lie in the half-open range from zero to a full turn.
    pub open spec fn normalized(self) -> bool {
        &&& 0 <= self.theta < TWO_PI
        &&& 0 <= self.phi < TWO_PI
    }

    /// The position after a frame of `dt` microseconds: along `right` and
    /// `forward` as the held keys ask, each by the frame's stride. Opposite
    /// keys cancel; a diagonal is not shortened.
    pub open spec fn moved(self, dt: int, controls: Controls) -> Vec3 {
        self.position.spec_add(self.right().spec_scale(strafe(controls) * spec_stride(dt))).spec_add(
            self.forward().spec_scale(advance(controls) * spec_stride(dt)),
        )
    }

    /// The pose after a frame of `dt` microseconds under `controls`.
    pub open spec fn step(self, dt: int, controls: Controls) -> Pose {
        Pose {
            theta: spec_turn(self.theta, controls.mouse_dx as int, dt) as i64,
            phi: spec_turn(self.phi, controls.mouse_dy as int, dt) as i64,
            position: self.moved(dt, controls),
        }
    }

    /// The camera after a frame of `dt` microseconds under `controls`, its
    /// basis made anew from `trig`.
    pub open spec fn after(self, dt: int, controls: Controls, trig: TrigModel) -> CameraModel {
        CameraModel {
            theta: self.step(dt, controls).theta as int,
            phi: self.step(dt, controls).phi as int,
            position: self.step(dt, controls).position,
            trig,
        }
    }
}

/// The durations of some frames, added up.
pub open spec fn total(dts: Seq<u64>) -> int
    decreases dts.len(),
{
    if dts.len() == 0 {
        0
    } else {
        dts[0] + total(dts.drop_first())
    }
}

impl CameraModel {
    /// The camera after the frames `dts` in turn, all under `controls`, the
    /// basis of each frame made anew from the entry of `trigs` at its place.
    pub open spec fn after_frames(self, dts: Seq<u64>, controls: Controls, trigs: Seq<TrigModel>) -> CameraModel
        decreases dts.len(),
    {
        if dts.len() == 0 {
            self
        } else {
            self.after(dts[0] as int, controls, trigs[0]).after_frames(
                dts.drop_first(),
                controls,
                trigs.drop_first(),
            )
        }
    }
}

/// The camera. Its basis is always the one that the orientation model gives
/// for the sines and cosines it was last handed; it is never turned step by
/// step.
#[derive(Clone, Copy, Debug)]
pub struct Camera {
    theta: i64,
    phi: i64,
    up: Vec3,
    right: Vec3,
    forward: Vec3,
    position: Vec3,
    trig: Trig,
}

impl View for Camera {
    type V = CameraModel;

    closed spec fn view(&self) -> CameraModel {
        CameraModel {
            theta: self.theta as int,
            phi: self.phi as int,
            position: self.position,
            trig: self.trig@,
        }
    }
}

impl Camera {
    /// The basis is the one that the orientation model gives for the sines
    /// and cosines that the camera holds, as it is of every value of this type.
    #[verifier::type_invariant]
    pub closed spec fn wf(self) -> bool {
        &&& self.trig.wf()
        &&& self.forward == self.trig@.forward()
        &&& self.right == self.trig@.right()
        &&& self.up == self.trig@.up()
    }

    /// The camera at the origin, looking level along the z axis.
    pub open spec fn default_model() -> CameraModel {
        CameraModel {
            theta: 0,
            phi: 0,
            position: Vec3 { x: 0, y: 0, z: 0 },
            trig: TrigModel { sin_theta: 0, cos_theta: UNIT as int, sin_phi: 0, cos_phi: UNIT as int },
        }
    }

    /// A camera at `position` with yaw `theta` and pitch `phi`. `trig` holds
    /// the sines and cosines of the two angles; the basis is made from it.
    pub fn from_angles(theta: i64, phi: i64, position: Vec3, trig: Trig) -> (c: Camera)
        ensures
            c@ == (CameraModel { theta: theta as int, phi: phi as int, position, trig: trig@ }),
    {
        proof {
            use_type_invariant(&trig);
        }
        let basis = Basis::from_trig(&trig);
        Camera {
            theta,
            phi,
            up: basis.up,
            right: basis.right,
            forward: basis.forward,
            position,
            trig,
        }
    }

    /// The pose that a frame of `dt` microseconds under `controls` leads to:
    /// the position moved along the present basis, both angles turned by the
    /// cursor's offsets and wrapped once. The camera itself is left as it is.
    ///
    /// A frame of no duration changes nothing, whatever keys are held, where
    /// the angles lie within a full turn. And angles within a full turn stay
    /// within it through every frame that turns the camera by less than a
    /// full turn about each axis.
    pub fn integrate(&self, dt: u64, controls: &Controls) -> (p: Pose)
        ensures
            p == self@.step(dt as int, *controls),
            dt == 0 && self@.normalized() ==> p == self@.pose(),
            self@.normalized() && within_a_turn(*controls, dt as int) ==> 0 <= p.theta < TWO_PI && 0
                <= p.phi < TWO_PI,
    {
        proof {
            use_type_invariant(self);
        }
        let stride: i64 = saturate((MOVE_SPEED as i128) * (dt as i128));
        let sideways: i64 = signed(controls.right, controls.left, stride);
        let ahead: i64 = signed(controls.up, controls.down, stride);
        let position = self.position.add(self.right.scale(sideways)).add(self.forward.scale(ahead));
        let theta = turn(self.theta, controls.mouse_dx, dt);
        let phi = turn(self.phi, controls.mouse_dy, dt);
        proof {
            if dt == 0 {
                assert(controls.mouse_dx * TURN_SPEED * 0 == 0) by (nonlinear_arith);
                assert(controls.mouse_dy * TURN_SPEED * 0 == 0) by (nonlinear_arith);
            }
            if self@.normalized() && within_a_turn(*controls, dt as int) {
                lemma_turn_is_modular(self.theta as int, controls.mouse_dx as int, dt as int);
                lemma_turn_is_modular(self.phi as int, controls.mouse_dy as int, dt as int);
            }
        }
        Pose { theta, phi, position }
    }

    /// One frame: moves and turns the camera as `integrate` says, then makes
    /// the basis anew from `trig`, which holds the sines and cosines of the
    /// angles that `integrate` gives for this frame.
    pub fn update(&mut self, dt: u64, controls: &Controls, trig: Trig)
        ensures
            final(self)@ == old(self)@.after(dt as int, *controls, trig@),
            dt == 0 && old(self)@.normalized() ==> final(self)@.pose() == old(self)@.pose(),
            old(self)@.normalized() && within_a_turn(*controls, dt as int) ==> final(self)@.normalized(),
    {
        let pose = self.integrate(dt, controls);
        *self = Camera::from_angles(pose.theta, pose.phi, pose.position, trig);
    }

    pub fn theta(&self) -> (a: i64)
        ensures
            a == self@.theta,
    {
        self.theta
    }

    pub fn phi(&self) -> (a: i64)
        ensures
            a == self@.phi,
    {
        self.phi
    }

    pub fn position(&self) -> (v: Vec3)
        ensures
            v == self@.position,
    {
        self.position
    }

    /// The two angles and the position together.
    pub fn pose(&self) -> (p: Pose)
        ensures
            p == self@.pose(),
    {
        Pose { theta: self.theta, phi: self.phi, position: self.position }
    }

    pub fn up(&self) -> (v: Vec3)
        ensures
            v == self@.up(),
    {
        proof {
            use_type_invariant(self);
        }
        self.up
    }

    pub fn right(&self) -> (v: Vec3)
        ensures
            v == self@.right(),
    {
        proof {
            use_type_invariant(self);
        }
        self.right
    }

    pub fn forward(&self) -> (v: Vec3)
        ensures
            v == self@.forward(),
    {
        proof {
            use_type_invariant(self);
        }
        self.forward
    }

    pub fn get_up(&self) -> (a: [i64; 3])
        ensures
            a@ == seq![self@.up().x, self@.up().y, self@.up().z],
    {
        proof {
            use_type_invariant(self);
        }
        self.up.uniform()
    }

    pub fn get_right(&self) -> (a: [i64; 3])
        ensures
            a@ == seq![self@.right().x, self@.right().y, self@.right().z],
    {
        proof {
            use_type_invariant(self);
        }
        self.right.uniform()
    }

    pub fn get_forward(&self) -> (a: [i64; 3])
        ensures
            a@ == seq![self@.forward().x, self@.forward().y, self@.forward().z],
    {
        proof {
            use_type_invariant(self);
        }
        self.forward.uniform()
    }

    pub fn get_position(&self) -> (a: [i64; 3])
        ensures
            a@ == seq![self@.position.x, self@.position.y, self@.position.z],
    {
        self.position.uniform()
    }
}

impl Default for Camera {
    /// The camera at the origin, looking level along the z axis.
    fn default() -> (c: Camera)
        ensures
            c@ == Camera::default_model(),
    {
        Camera::from_angles(0, 0, Vec3::new(0, 0, 0), Trig::level())
    }
}

/// Wraps an angle once: takes a full turn off where it is a full turn or more,
/// adds one where it is negative. An angle within one full turn of the range
/// from zero to a full turn comes back inside it, the same angle modulo a full
/// turn.
pub fn wrap(angle: i64) -> (r: i64)
    ensures
        r == spec_wrap(angle as int),
        -TWO_PI <= angle < 2 * TWO_PI ==> 0 <= r < TWO_PI && r == (angle as int) % (TWO_PI as int),
{
    if angle >= TWO_PI {
        angle - TWO_PI
    } else if angle < 0 {
        angle + TWO_PI
    } else {
        angle
    }
}

/// `stride` to the one side, to the other, or not at all.
fn signed(ahead: bool, back: bool, stride: i64) -> (r: i64)
    requires
        stride >= 0,
    ensures
        r == ((if ahead { 1int } else { 0 }) - (if back { 1int } else { 0 })) * stride,
{
    assert(1 * stride == stride && (-1) * stride == -stride && 0 * stride == 0) by (nonlinear_arith);
    if ahead && !back {
        stride
    } else if back && !ahead {
        -stride
    } else {
        0
    }
}

/// One angle after a frame.
fn turn(angle: i64, offset: i64, dt: u64) -> (r: i64)
    ensures
        r == spec_turn(angle as int, offset as int, dt as int),
{
    assert(-0x8000_0000_0000_0000 * 0xffff_ffff_ffff_ffff <= offset * dt <= 0x7fff_ffff_ffff_ffff
        * 0xffff_ffff_ffff_ffff) by (nonlinear_arith)
        requires
            -0x8000_0000_0000_0000 <= offset <= 0x7fff_ffff_ffff_ffff,
            0 <= dt <= 0xffff_ffff_ffff_ffff,
    ;
    assert(offset * TURN_SPEED * dt == offset * dt) by (nonlinear_arith)
        requires
            TURN_SPEED == 1,
    ;
    let delta: i128 = (offset as i128) * (dt as i128);
    wrap(saturate(angle as i128 + delta))
}

/// The basis of a camera is orthonormal: each of its three vectors has length
/// one, and each two of them are at right angles, up to `BASIS_SLACK`.
pub proof fn lemma_camera_basis_orthonormal(camera: Camera)
    requires
        camera.wf(),
    ensures
        camera@.trig.valid(),
        abs(camera@.forward().norm_sq() - UNIT * UNIT) <= BASIS_SLACK,
        abs(camera@.right().norm_sq() - UNIT * UNIT) <= BASIS_SLACK,
        abs(camera@.up().norm_sq() - UNIT * UNIT) <= BASIS_SLACK,
        abs(camera@.forward().dot(camera@.right())) <= BASIS_SLACK,
        abs(camera@.up().dot(camera@.forward())) <= BASIS_SLACK,
        abs(camera@.up().dot(camera@.right())) <= BASIS_SLACK,
{
    lemma_basis_orthonormal(camera@.trig);
}

/// Durations add up to no less than nothing.
pub proof fn lemma_total_nonnegative(dts: Seq<u64>)
    ensures
        total(dts) >= 0,
    decreases dts.len(),
{
    if dts.len() > 0 {
        lemma_total_nonnegative(dts.drop_first());
    }
}

/// A turn of less than a full turn, from an angle inside the range, leads to
/// the sum of the two modulo a full turn.
pub proof fn lemma_turn_is_modular(angle: int, offset: int, dt: int)
    requires
        0 <= angle < TWO_PI,
        abs(offset * TURN_SPEED * dt) < TWO_PI,
    ensures
        spec_turn(angle, offset, dt) == (angle + offset * TURN_SPEED * dt) % (TWO_PI as int),
        0 <= spec_turn(angle, offset, dt) < TWO_PI,
{
}

/// A part of a turn is no longer than the whole of it.
proof fn lemma_part_of_turn(rate: int, part: int, whole: int)
    by (nonlinear_arith)
    requires
        0 <= part <= whole,
    ensures
        abs(rate * part) <= abs(rate * whole),
{
}

/// Frames that only turn the camera add up: while the held keys cancel, the
/// angles start inside the range and all the frames together turn the camera
/// by less than a full turn about each axis, any number of frames leads to the
/// pose that one frame of their total duration leads to. The sines and
/// cosines handed over in between do not matter.
pub proof fn lemma_frames_add_up(
    camera: CameraModel,
    controls: Controls,
    dts: Seq<u64>,
    trigs: Seq<TrigModel>,
)
    requires
        camera.normalized(),
        strafe(controls) == 0,
        advance(controls) == 0,
        trigs.len() == dts.len(),
        within_a_turn(controls, total(dts)),
    ensures
        camera.after_frames(dts, controls, trigs).pose() == camera.step(total(dts), controls),
        camera.after_frames(dts, controls, trigs).normalized(),
    decreases dts.len(),
{
    let rate_x = controls.mouse_dx * TURN_SPEED;
    let rate_y = controls.mouse_dy * TURN_SPEED;
    lemma_stays_in_place(camera, total(dts), controls);
    if dts.len() == 0 {
        assert(rate_x * 0 == 0 && rate_y * 0 == 0) by (nonlinear_arith);
    } else {
        let first = dts[0] as int;
        let rest = dts.drop_first();
        lemma_total_nonnegative(rest);
        lemma_part_of_turn(rate_x, first, total(dts));
        lemma_part_of_turn(rate_y, first, total(dts));
        lemma_part_of_turn(rate_x, total(rest), total(dts));
        lemma_part_of_turn(rate_y, total(rest), total(dts));
        let next = camera.after(first, controls, trigs[0]);
        lemma_stays_in_place(camera, first, controls);
        lemma_turn_is_modular(camera.theta, controls.mouse_dx as int, first);
        lemma_turn_is_modular(camera.phi, controls.mouse_dy as int, first);
        lemma_frames_add_up(next, controls, rest, trigs.drop_first());
        lemma_stays_in_place(next, total(rest), controls);
        lemma_turn_is_modular(next.theta, controls.mouse_dx as int, total(rest));
        lemma_turn_is_modular(next.phi, controls.mouse_dy as int, total(rest));
        lemma_turn_is_modular(camera.theta, controls.mouse_dx as int, total(dts));
        lemma_turn_is_modular(camera.phi, controls.mouse_dy as int, total(dts));
        assert(rate_x * total(dts) == rate_x * first + rate_x * total(rest)) by (nonlinear_arith)
            requires
                total(dts) == first + total(rest),
        ;
        assert(rate_y * total(dts) == rate_y * first + rate_y * total(rest)) by (nonlinear_arith)
            requires
                total(dts) == first + total(rest),
        ;
    }
}

/// While the held keys cancel, a frame leaves the camera where it is.
pub proof fn lemma_stays_in_place(camera: CameraModel, dt: int, controls: Controls)
    requires
        strafe(controls) == 0,
        advance(controls) == 0,
    ensures
        camera.moved(dt, controls) == camera.position,
{
    let stride = spec_stride(dt);
    assert(0 * stride == 0) by (nonlinear_arith);
    let r = camera.right();
    let f = camera.forward();
    assert(r.x * 0 == 0 && r.y * 0 == 0 && r.z * 0 == 0) by (nonlinear_arith);
    assert(f.x * 0 == 0 && f.y * 0 == 0 && f.z * 0 == 0) by (nonlinear_arith);
}

} // verus!
