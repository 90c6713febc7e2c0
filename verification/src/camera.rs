use crate::angle::{cos_mdeg, sin_cos_mdeg, sin_mdeg, wrap_angle_mdeg};
use crate::fixed::{div_towards_zero, div_trunc_i128, div_trunc_i64};
use crate::vec3::{
    cross, cross_x_spec, cross_y_spec, cross_z_spec, dot_spec, in_range, norm_sq_spec,
    normalize_dir, unit_x_spec, unit_y_spec, unit_z_spec, Vec3,
};
use vstd::prelude::*;

verus! {

/// The four directions a keyboard can steer the camera in.
#[allow(non_camel_case_types)]
#[derive(Clone, Copy, Debug, PartialEq, Eq, Structural)]
pub enum CameraMovement {
    FORWARD,
    BACKWARD,
    LEFT,
    RIGHT,
}

/// The default view direction: minus ninety degrees of yaw, folded into
/// `[0, 360000)` millidegrees.
pub const DEFAULT_YAW_MDEG: u32 = 270000;

/// The default pitch, level with the horizon.
pub const DEFAULT_PITCH_MDEG: i32 = 0;

/// The default movement speed: two and a half units per second, in
/// thousandths.
pub const DEFAULT_SPEED_MILLI: u32 = 2500;

/// The default mouse sensitivity: a tenth of a degree for each count, in
/// millidegrees.
pub const DEFAULT_SENSITIVITY_MDEG: u32 = 100;

/// The default zoom (field of view), in millidegrees.
pub const DEFAULT_ZOOM_MDEG: u32 = 45000;

/// The narrowest field of view, in millidegrees.
pub const ZOOM_MIN_MDEG: u32 = 1000;

/// The widest field of view, in millidegrees.
pub const ZOOM_MAX_MDEG: u32 = 45000;

/// Constrained pitch stays within this many millidegrees of the horizon.
pub const PITCH_LIMIT_MDEG: i32 = 89000;

/// The largest representable movement speed, in thousandths of a unit per
/// second.
pub const SPEED_LIMIT_MILLI: u32 = 1000000;

/// The largest representable mouse sensitivity, in millidegrees per count.
pub const SENSITIVITY_LIMIT_MDEG: u32 = 100000;

/// Positions a camera moves from must stay within this many thousandths of
/// the origin on each axis, so that one further step cannot overflow.
pub const POSITION_LIMIT_MILLI: i64 = 0x40000000000;

/// The longest time step a keyboard move accepts: one hour in milliseconds.
pub const DELTA_TIME_LIMIT_MS: u32 = 3600000;

/// The largest mouse offset accepted per call, in thousandths of a count.
pub const OFFSET_LIMIT_MILLI: i64 = 1000000000;

/// A free-look camera over Euler angles, held entirely in fixed-point
/// integers: angles in millidegrees, positions in thousandths of a unit,
/// direction vectors at scale `DIR_ONE`.
///
/// `front` is the exact product of the yaw and pitch sines and cosines, so
/// its length is nominal (`DIR_ONE`) only up to the rounding of the
/// trigonometry.  `right` and `up` are exact integer cross products and
/// therefore stand exactly perpendicular on `front` and on each other; they
/// are scaled down to nominal length only where a caller needs a unit axis.
pub struct Camera {
    pub position: Vec3,
    pub front: Vec3,
    pub up: Vec3,
    pub right: Vec3,
    pub world_up: Vec3,
    pub yaw: u32,
    pub pitch: i32,
    pub movement_speed: u32,
    pub mouse_sensitivity: u32,
    pub zoom: u32,
}

/// The angle the stored pitch stands for, folded into `[0, 360000)`.
pub open spec fn pitch_angle(c: Camera) -> int {
    (c.pitch as int) % 360000
}

/// The first component of the front vector: cosine of yaw times cosine of
/// pitch, at scale `DIR_ONE`.
pub open spec fn front_x_spec(c: Camera) -> int {
    cos_mdeg(c.yaw as int) * cos_mdeg(pitch_angle(c))
}

/// The second component of the front vector: sine of pitch, raised to scale
/// `DIR_ONE`.
pub open spec fn front_y_spec(c: Camera) -> int {
    sin_mdeg(pitch_angle(c)) * 1024
}

/// The third component of the front vector: sine of yaw times cosine of
/// pitch, at scale `DIR_ONE`.
pub open spec fn front_z_spec(c: Camera) -> int {
    sin_mdeg(c.yaw as int) * cos_mdeg(pitch_angle(c))
}

/// The stored direction vectors are exactly the ones the stored angles
/// call for: `front` from the trigonometry, `right` the cross product of
/// `front` and `world_up`, `up` the cross product of `right` and `front`.
pub open spec fn vectors_current(c: Camera) -> bool {
    &&& c.front.x as int == front_x_spec(c)
    &&& c.front.y as int == front_y_spec(c)
    &&& c.front.z as int == front_z_spec(c)
    &&& c.right.x as int == cross_x_spec(c.front, c.world_up)
    &&& c.right.y as int == cross_y_spec(c.front, c.world_up)
    &&& c.right.z as int == cross_z_spec(c.front, c.world_up)
    &&& c.up.x as int == cross_x_spec(c.right, c.front)
    &&& c.up.y as int == cross_y_spec(c.right, c.front)
    &&& c.up.z as int == cross_z_spec(c.right, c.front)
}

/// The speed times the time step, in thousandths of a unit.
pub open spec fn velocity_spec(speed: int, delta_time_ms: int) -> int {
    speed * delta_time_ms / 1000
}

/// One position component of a move: the unit axis component times the
/// velocity, brought back from direction scale.
pub open spec fn step_component(unit: int, velocity: int) -> int {
    div_towards_zero(unit * velocity, 1048576)
}

/// The new zoom after a scroll: the offset subtracted, then clamped into
/// the valid band.
pub open spec fn zoom_after_scroll(zoom: int, yoffset: int) -> int {
    let z = zoom - yoffset;
    if z < 1000 {
        1000
    } else if z > 45000 {
        45000
    } else {
        z
    }
}

/// The new pitch after an offset: clamped when constrained, folded into
/// `[-180000, 180000)` otherwise.
pub open spec fn pitch_after_offset(pitch: int, delta: int, constrain: bool) -> int {
    let raw = pitch + delta;
    if constrain {
        if raw > 89000 {
            89000
        } else if raw < -89000 {
            -89000
        } else {
            raw
        }
    } else {
        (raw + 180000) % 360000 - 180000
    }
}

impl Camera {
    /// The camera's structural invariant: angles in their principal ranges,
    /// options within their representable bands, the world up axis the
    /// fixed vertical reference, and the direction vectors current.
    pub open spec fn wf(&self) -> bool {
        &&& self.yaw < 360000
        &&& -180000 <= self.pitch < 180000
        &&& self.world_up == (Vec3 { x: 0, y: 1048576, z: 0 })
        &&& vectors_current(*self)
        &&& self.movement_speed <= SPEED_LIMIT_MILLI
        &&& self.mouse_sensitivity <= SENSITIVITY_LIMIT_MDEG
        &&& ZOOM_MIN_MDEG <= self.zoom <= ZOOM_MAX_MDEG
    }

    /// Re-derives `front`, `right` and `up` from the stored yaw and pitch,
    /// in that order, since each vector depends on the previous one.
    fn update_camera_vectors(&mut self)
        requires
            old(self).yaw < 360000,
            -180000 <= old(self).pitch < 180000,
            old(self).world_up == (Vec3 { x: 0, y: 1048576, z: 0 }),
        ensures
            vectors_current(*final(self)),
            final(self).position == old(self).position,
            final(self).world_up == old(self).world_up,
            final(self).yaw == old(self).yaw,
            final(self).pitch == old(self).pitch,
            final(self).movement_speed == old(self).movement_speed,
            final(self).mouse_sensitivity == old(self).mouse_sensitivity,
            final(self).zoom == old(self).zoom,
    {
        proof {
            assert forall|p: i64, q: i64| -1024 <= p <= 1024 && -1024 <= q <= 1024
                implies -1048576 <= #[trigger] (p * q) <= 1048576 by {
                assert(-1048576 <= p * q <= 1048576) by (nonlinear_arith)
                    requires
                        -1024 <= p <= 1024,
                        -1024 <= q <= 1024,
                ;
            }
        }
        let (sy, cy) = sin_cos_mdeg(self.yaw);
        let pa = wrap_angle_mdeg(self.pitch as i64);
        let (sp, cp) = sin_cos_mdeg(pa);
        self.front = Vec3 { x: cy * cp, y: sp * 1024, z: sy * cp };
        self.right = cross(&self.front, &self.world_up);
        proof {
            assert(-0x10000000000 <= self.front.y * self.world_up.z - self.front.z
                * self.world_up.y <= 0x10000000000 && -0x10000000000 <= self.front.z
                * self.world_up.x - self.front.x * self.world_up.z <= 0x10000000000
                && -0x10000000000 <= self.front.x * self.world_up.y - self.front.y
                * self.world_up.x <= 0x10000000000) by (nonlinear_arith)
                requires
                    in_range(self.front, 1048576),
                    self.world_up == (Vec3 { x: 0, y: 1048576, z: 0 }),
            ;
        }
        self.up = cross(&self.right, &self.front);
    }

    /// A camera with the default options at a chosen position.
    pub fn with_position(position: Vec3) -> (c: Camera)
        ensures
            c.wf(),
            c.position == position,
            c.yaw == DEFAULT_YAW_MDEG,
            c.pitch == DEFAULT_PITCH_MDEG,
            c.movement_speed == DEFAULT_SPEED_MILLI,
            c.mouse_sensitivity == DEFAULT_SENSITIVITY_MDEG,
            c.zoom == DEFAULT_ZOOM_MDEG,
    {
        let mut c = Camera {
            position,
            front: Vec3 { x: 0, y: 0, z: 0 },
            up: Vec3 { x: 0, y: 0, z: 0 },
            right: Vec3 { x: 0, y: 0, z: 0 },
            world_up: Vec3 { x: 0, y: 1048576, z: 0 },
            yaw: DEFAULT_YAW_MDEG,
            pitch: DEFAULT_PITCH_MDEG,
            movement_speed: DEFAULT_SPEED_MILLI,
            mouse_sensitivity: DEFAULT_SENSITIVITY_MDEG,
            zoom: DEFAULT_ZOOM_MDEG,
        };
        c.update_camera_vectors();
        c
    }

    /// The right-handed look-at view of the current state: the three unit
    /// axes, and the eye position carried into view space.
    ///
    /// The poles are excluded: there the right and up axes degenerate to
    /// zero vectors and have no unit direction.
    pub fn get_view_matrix(&self) -> (m: ViewMatrix)
        requires
            self.wf(),
            in_range(self.position, POSITION_LIMIT_MILLI as int),
            self.pitch != 90000,
            self.pitch != -90000,
        ensures
            m.right_axis.x as int == unit_x_spec(self.right),
            m.right_axis.y as int == unit_y_spec(self.right),
            m.right_axis.z as int == unit_z_spec(self.right),
            m.up_axis.x as int == unit_x_spec(self.up),
            m.up_axis.y as int == unit_y_spec(self.up),
            m.up_axis.z as int == unit_z_spec(self.up),
            m.front_axis.x as int == unit_x_spec(self.front),
            m.front_axis.y as int == unit_y_spec(self.front),
            m.front_axis.z as int == unit_z_spec(self.front),
            m.translation.x as int == div_towards_zero(
                -dot_spec(m.right_axis, self.position),
                1048576,
            ),
            m.translation.y as int == div_towards_zero(
                -dot_spec(m.up_axis, self.position),
                1048576,
            ),
            m.translation.z as int == div_towards_zero(
                dot_spec(m.front_axis, self.position),
                1048576,
            ),
    {
        proof {
            lemma_front_nonzero(*self);
            lemma_right_nonzero(*self);
            lemma_up_nonzero(*self);
            lemma_stored_vectors_in_range(*self);
        }
        let right_axis = normalize_dir(&self.right);
        let up_axis = normalize_dir(&self.up);
        let front_axis = normalize_dir(&self.front);
        let tx = axis_dot_milli(&right_axis, &self.position);
        let ty = axis_dot_milli(&up_axis, &self.position);
        let tz = axis_dot_milli(&front_axis, &self.position);
        proof {
            crate::fixed::lemma_div_towards_zero_neg(
                dot_spec(right_axis, self.position),
                1048576,
            );
            crate::fixed::lemma_div_towards_zero_neg(dot_spec(up_axis, self.position), 1048576);
        }
        ViewMatrix {
            right_axis,
            up_axis,
            front_axis,
            translation: Vec3 { x: -tx, y: -ty, z: tz },
        }
    }

    /// Moves the position along the unit front axis (`FORWARD`/`BACKWARD`)
    /// or the unit right axis (`LEFT`/`RIGHT`) by speed times time step.
    pub fn process_keyboard(&mut self, direction: CameraMovement, delta_time_ms: u32)
        requires
            old(self).wf(),
            delta_time_ms <= DELTA_TIME_LIMIT_MS,
            in_range(old(self).position, POSITION_LIMIT_MILLI as int),
            (direction == CameraMovement::LEFT || direction == CameraMovement::RIGHT)
                ==> old(self).pitch != 90000 && old(self).pitch != -90000,
        ensures
            final(self).wf(),
            final(self).front == old(self).front,
            final(self).right == old(self).right,
            final(self).up == old(self).up,
            final(self).world_up == old(self).world_up,
            final(self).yaw == old(self).yaw,
            final(self).pitch == old(self).pitch,
            final(self).movement_speed == old(self).movement_speed,
            final(self).mouse_sensitivity == old(self).mouse_sensitivity,
            final(self).zoom == old(self).zoom,
            ({
                let vel = velocity_spec(old(self).movement_speed as int, delta_time_ms as int);
                let c = *old(self);
                match direction {
                    CameraMovement::FORWARD => final(self).position.x as int == c.position.x
                        + step_component(unit_x_spec(c.front), vel) && final(self).position.y
                        as int == c.position.y + step_component(unit_y_spec(c.front), vel)
                        && final(self).position.z as int == c.position.z + step_component(
                        unit_z_spec(c.front), vel),
                    CameraMovement::BACKWARD => final(self).position.x as int == c.position.x
                        - step_component(unit_x_spec(c.front), vel) && final(self).position.y
                        as int == c.position.y - step_component(unit_y_spec(c.front), vel)
                        && final(self).position.z as int == c.position.z - step_component(
                        unit_z_spec(c.front), vel),
                    CameraMovement::LEFT => final(self).position.x as int == c.position.x
                        - step_component(unit_x_spec(c.right), vel) && final(self).position.y
                        as int == c.position.y - step_component(unit_y_spec(c.right), vel)
                        && final(self).position.z as int == c.position.z - step_component(
                        unit_z_spec(c.right), vel),
                    CameraMovement::RIGHT => final(self).position.x as int == c.position.x
                        + step_component(unit_x_spec(c.right), vel) && final(self).position.y
                        as int == c.position.y + step_component(unit_y_spec(c.right), vel)
                        && final(self).position.z as int == c.position.z + step_component(
                        unit_z_spec(c.right), vel),
                }
            }),
    {
        proof {
            lemma_front_nonzero(*self);
            if direction == CameraMovement::LEFT || direction == CameraMovement::RIGHT {
                lemma_right_nonzero(*self);
            }
            lemma_stored_vectors_in_range(*self);
            assert(0 <= (self.movement_speed as int) * (delta_time_ms as int) <= 3600000000000)
                by (nonlinear_arith)
                requires
                    self.movement_speed <= 1000000,
                    delta_time_ms <= 3600000,
            ;
            vstd::arithmetic::div_mod::lemma_multiply_divide_le(
                (self.movement_speed as int) * (delta_time_ms as int),
                1000,
                3600000000,
            );
        }
        let velocity: u64 = (self.movement_speed as u64) * (delta_time_ms as u64) / 1000;
        let axis: Vec3 = match direction {
            CameraMovement::FORWARD | CameraMovement::BACKWARD => normalize_dir(&self.front),
            CameraMovement::LEFT | CameraMovement::RIGHT => normalize_dir(&self.right),
        };
        proof {
            assert forall|p: i64| -1048576 <= p <= 1048576
                implies -3774873600000000000 <= #[trigger] (p * (velocity as i64))
                    <= 3774873600000000000 by {
                assert(-3774873600000000000 <= p * (velocity as i64) <= 3774873600000000000)
                    by (nonlinear_arith)
                    requires
                        -1048576 <= p <= 1048576,
                        0 <= (velocity as i64) <= 3600000000,
                ;
            }
        }
        let dx = div_trunc_i64(axis.x * (velocity as i64), 1048576);
        let dy = div_trunc_i64(axis.y * (velocity as i64), 1048576);
        let dz = div_trunc_i64(axis.z * (velocity as i64), 1048576);
        proof {
            lemma_step_bound(axis.x as int, velocity as int);
            lemma_step_bound(axis.y as int, velocity as int);
            lemma_step_bound(axis.z as int, velocity as int);
        }
        match direction {
            CameraMovement::FORWARD | CameraMovement::RIGHT => {
                self.position = Vec3 {
                    x: self.position.x + dx,
                    y: self.position.y + dy,
                    z: self.position.z + dz,
                };
            },
            CameraMovement::BACKWARD | CameraMovement::LEFT => {
                self.position = Vec3 {
                    x: self.position.x - dx,
                    y: self.position.y - dy,
                    z: self.position.z - dz,
                };
            },
        }
    }

    /// Scales the offsets by the sensitivity, accumulates them into yaw and
    /// pitch, optionally clamps the pitch away from the poles, and
    /// re-derives the direction vectors.
    ///
    /// A positive `yoffset_milli` raises the pitch (looks up): a caller
    /// whose input device reports screen-space y downwards negates the
    /// offset first.  Offsets are in thousandths of a count.
    pub fn process_mouse_movement(
        &mut self,
        xoffset_milli: i64,
        yoffset_milli: i64,
        constrain_pitch: bool,
    )
        requires
            old(self).wf(),
            -OFFSET_LIMIT_MILLI <= xoffset_milli <= OFFSET_LIMIT_MILLI,
            -OFFSET_LIMIT_MILLI <= yoffset_milli <= OFFSET_LIMIT_MILLI,
        ensures
            final(self).wf(),
            final(self).position == old(self).position,
            final(self).world_up == old(self).world_up,
            final(self).movement_speed == old(self).movement_speed,
            final(self).mouse_sensitivity == old(self).mouse_sensitivity,
            final(self).zoom == old(self).zoom,
            ({
                let s = old(self).mouse_sensitivity as int;
                let dyaw = div_towards_zero(xoffset_milli * s, 1000);
                let dpitch = div_towards_zero(yoffset_milli * s, 1000);
                &&& final(self).yaw as int == (old(self).yaw + dyaw) % 360000
                &&& final(self).pitch as int == pitch_after_offset(
                    old(self).pitch as int,
                    dpitch,
                    constrain_pitch,
                )
            }),
            constrain_pitch ==> -89000 <= final(self).pitch <= 89000,
    {
        proof {
            assert forall|p: i64| -1000000000 <= p <= 1000000000
                implies -100000000000000 <= #[trigger] (p * (self.mouse_sensitivity as i64))
                    <= 100000000000000 by {
                assert(-100000000000000 <= p * (self.mouse_sensitivity as i64)
                    <= 100000000000000) by (nonlinear_arith)
                    requires
                        -1000000000 <= p <= 1000000000,
                        0 <= (self.mouse_sensitivity as i64) <= 100000,
                ;
            }
        }
        let dyaw = div_trunc_i64(xoffset_milli * (self.mouse_sensitivity as i64), 1000);
        let dpitch = div_trunc_i64(yoffset_milli * (self.mouse_sensitivity as i64), 1000);
        proof {
            crate::fixed::lemma_div_towards_zero_bounds(
                xoffset_milli as int * self.mouse_sensitivity as int,
                1000,
            );
            crate::fixed::lemma_div_towards_zero_bounds(
                yoffset_milli as int * self.mouse_sensitivity as int,
                1000,
            );
        }
        self.yaw = wrap_angle_mdeg(self.yaw as i64 + dyaw);
        let pitch_raw: i64 = self.pitch as i64 + dpitch;
        if constrain_pitch {
            self.pitch = if pitch_raw > 89000 {
                89000
            } else if pitch_raw < -89000 {
                -89000
            } else {
                pitch_raw as i32
            };
        } else {
            let folded = wrap_angle_mdeg(pitch_raw + 180000);
            self.pitch = (folded as i32) - 180000;
        }
        self.update_camera_vectors();
    }

    /// Narrows or widens the zoom by the offset, clamped into
    /// `[ZOOM_MIN_MDEG, ZOOM_MAX_MDEG]` millidegrees.
    pub fn process_mouse_scroll(&mut self, yoffset_mdeg: i64)
        requires
            old(self).wf(),
            -OFFSET_LIMIT_MILLI <= yoffset_mdeg <= OFFSET_LIMIT_MILLI,
        ensures
            final(self).wf(),
            final(self).zoom as int == zoom_after_scroll(old(self).zoom as int, yoffset_mdeg as int),
            ZOOM_MIN_MDEG <= final(self).zoom <= ZOOM_MAX_MDEG,
            final(self).position == old(self).position,
            final(self).front == old(self).front,
            final(self).right == old(self).right,
            final(self).up == old(self).up,
            final(self).world_up == old(self).world_up,
            final(self).yaw == old(self).yaw,
            final(self).pitch == old(self).pitch,
            final(self).movement_speed == old(self).movement_speed,
            final(self).mouse_sensitivity == old(self).mouse_sensitivity,
    {
        let z: i64 = self.zoom as i64 - yoffset_mdeg;
        self.zoom = if z < 1000 {
            1000
        } else if z > 45000 {
            45000
        } else {
            z as u32
        };
    }
}

impl Default for Camera {
    /// The camera of the original demos: at the origin, looking down the
    /// negative third axis, with the stock speed, sensitivity and zoom.
    fn default() -> (c: Camera)
        ensures
            c.wf(),
            c.position == (Vec3 { x: 0, y: 0, z: 0 }),
            c.yaw == DEFAULT_YAW_MDEG,
            c.pitch == DEFAULT_PITCH_MDEG,
            c.movement_speed == DEFAULT_SPEED_MILLI,
            c.mouse_sensitivity == DEFAULT_SENSITIVITY_MDEG,
            c.zoom == DEFAULT_ZOOM_MDEG,
    {
        Camera::with_position(Vec3 { x: 0, y: 0, z: 0 })
    }
}

/// The rows of a right-handed look-at view matrix, in fixed point: three
/// unit axes at scale `DIR_ONE` and a translation in thousandths of a
/// unit.  The assembled matrix has rows `right_axis`, `up_axis` and the
/// negation of `front_axis`, with `translation` as its fourth column; the
/// export to the rendering host performs that negation.
pub struct ViewMatrix {
    pub right_axis: Vec3,
    pub up_axis: Vec3,
    pub front_axis: Vec3,
    pub translation: Vec3,
}

/// A unit axis dotted with a position, brought back from direction scale
/// to thousandths of a unit.
fn axis_dot_milli(axis: &Vec3, pos: &Vec3) -> (d: i64)
    requires
        in_range(*axis, 1048576),
        in_range(*pos, POSITION_LIMIT_MILLI as int),
    ensures
        d as int == div_towards_zero(dot_spec(*axis, *pos), 1048576),
        -13194139533312 <= d <= 13194139533312,
{
    proof {
        assert forall|p: i64, q: i64|
            -1048576 <= p <= 1048576 && -0x40000000000 <= q <= 0x40000000000
                implies -0x4000000000000000 <= #[trigger] ((p as i128) * (q as i128))
                    <= 0x4000000000000000 by {
            assert(-0x4000000000000000 <= (p as i128) * (q as i128) <= 0x4000000000000000)
                by (nonlinear_arith)
                requires
                    -1048576 <= (p as i128) <= 1048576,
                    -0x40000000000 <= (q as i128) <= 0x40000000000,
            ;
        }
    }
    let sum: i128 = (axis.x as i128) * (pos.x as i128) + (axis.y as i128) * (pos.y as i128)
        + (axis.z as i128) * (pos.z as i128);
    proof {
        crate::fixed::lemma_div_towards_zero_bounds(sum as int, 1048576);
        if sum >= 0 {
            vstd::arithmetic::div_mod::lemma_multiply_divide_le(
                sum as int,
                1048576,
                13194139533312,
            );
        } else {
            vstd::arithmetic::div_mod::lemma_multiply_divide_le(
                -(sum as int),
                1048576,
                13194139533312,
            );
        }
    }
    div_trunc_i128(sum, 1048576) as i64
}

/// One move step never exceeds the velocity itself: the unit axis
/// component is at most one at direction scale.
proof fn lemma_step_bound(unit: int, vel: int)
    requires
        -1048576 <= unit <= 1048576,
        0 <= vel,
    ensures
        -vel <= step_component(unit, vel) <= vel,
{
    let a = unit * vel;
    assert(-1048576 * vel <= a <= 1048576 * vel) by (nonlinear_arith)
        requires
            a == unit * vel,
            -1048576 <= unit <= 1048576,
            0 <= vel,
    ;
    crate::fixed::lemma_div_towards_zero_bounds(a, 1048576);
    if a >= 0 {
        vstd::arithmetic::div_mod::lemma_multiply_divide_le(a, 1048576, vel);
    } else {
        vstd::arithmetic::div_mod::lemma_multiply_divide_le(-a, 1048576, vel);
    }
}

/// The front vector is never the zero vector: the pitch circle keeps the
/// sine and cosine from vanishing together.
pub proof fn lemma_front_nonzero(c: Camera)
    requires
        c.wf(),
    ensures
        norm_sq_spec(c.front) > 0,
{
    let pa = pitch_angle(c);
    vstd::arithmetic::div_mod::lemma_mod_division_less_than_divisor(c.pitch as int, 360000);
    crate::angle::lemma_cos_mdeg_range(pa);
    let sp = sin_mdeg(pa);
    let cp = cos_mdeg(pa);
    assert(sp != 0 || cp != 0);
    crate::angle::lemma_sin_mdeg_range(c.yaw as int);
    crate::angle::lemma_cos_mdeg_range(c.yaw as int);
    let sy = sin_mdeg(c.yaw as int);
    let cy = cos_mdeg(c.yaw as int);
    assert(norm_sq_spec(c.front) > 0) by (nonlinear_arith)
        requires
            c.front.x == cy * cp,
            c.front.y == sp * 1024,
            c.front.z == sy * cp,
            sp != 0 || cp != 0,
            cy * cy + sy * sy > 1048576 - 2049,
            norm_sq_spec(c.front) == c.front.x * c.front.x + c.front.y * c.front.y + c.front.z
                * c.front.z,
    ;
}

/// Away from the poles the right vector is never the zero vector.
pub proof fn lemma_right_nonzero(c: Camera)
    requires
        c.wf(),
        c.pitch != 90000,
        c.pitch != -90000,
    ensures
        norm_sq_spec(c.right) >= 274877906944,
{
    let pa = pitch_angle(c);
    vstd::arithmetic::div_mod::lemma_mod_division_less_than_divisor(c.pitch as int, 360000);
    lemma_pitch_angle_folds(c);
    let sp = sin_mdeg(pa);
    let cp = cos_mdeg(pa);
    crate::angle::lemma_sin_mdeg_range(pa);
    if pa <= 180000 {
        crate::angle::lemma_sine_peak_only_at_quarter(pa);
    } else {
        crate::angle::lemma_sine_peak_only_at_quarter(pa - 180000);
    }
    assert(-1023 <= sp <= 1023);
    assert(1048576 - sp * sp >= 2047) by (nonlinear_arith)
        requires
            -1023 <= sp <= 1023,
    ;
    crate::fixed::lemma_isqrt_bounds((1048576 - sp * sp) as nat);
    let m = crate::fixed::isqrt_of((1048576 - sp * sp) as nat);
    assert(m >= 1) by (nonlinear_arith)
        requires
            ((1048576 - sp * sp) as nat) < (m + 1) * (m + 1),
            1048576 - sp * sp >= 2047,
            -1023 <= sp <= 1023,
    ;
    assert(cp == m || cp == -(m as int));
    assert(cp * cp >= 1) by (nonlinear_arith)
        requires
            cp == m || cp == -(m as int),
            m >= 1,
    ;
    let sy = sin_mdeg(c.yaw as int);
    let cy = cos_mdeg(c.yaw as int);
    crate::angle::lemma_cos_mdeg_range(c.yaw as int);
    assert(norm_sq_spec(c.right) >= 274877906944) by (nonlinear_arith)
        requires
            c.right.x == c.front.y * c.world_up.z - c.front.z * c.world_up.y,
            c.right.y == c.front.z * c.world_up.x - c.front.x * c.world_up.z,
            c.right.z == c.front.x * c.world_up.y - c.front.y * c.world_up.x,
            c.world_up.x == 0 && c.world_up.y == 1048576 && c.world_up.z == 0,
            c.front.x == cy * cp,
            c.front.z == sy * cp,
            cp * cp >= 1,
            cy * cy + sy * sy > 1048576 - 2049,
            norm_sq_spec(c.right) == c.right.x * c.right.x + c.right.y * c.right.y + c.right.z
                * c.right.z,
    ;
}

/// When the stored pitch is at neither pole, neither is its folded angle
/// at a quarter turn.
proof fn lemma_pitch_angle_folds(c: Camera)
    requires
        -180000 <= c.pitch < 180000,
        c.pitch != 90000,
        c.pitch != -90000,
    ensures
        0 <= pitch_angle(c) < 360000,
        pitch_angle(c) != 90000,
        pitch_angle(c) != 270000,
{
    vstd::arithmetic::div_mod::lemma_mod_division_less_than_divisor(c.pitch as int, 360000);
    if c.pitch >= 0 {
        vstd::arithmetic::div_mod::lemma_small_mod(c.pitch as nat, 360000);
    } else {
        vstd::arithmetic::div_mod::lemma_fundamental_div_mod_converse_mod(
            c.pitch as int,
            360000,
            -1,
            c.pitch + 360000,
        );
    }
}

/// The stored direction vectors fit the ranges the vector helpers ask for.
pub proof fn lemma_stored_vectors_in_range(c: Camera)
    requires
        c.wf(),
    ensures
        in_range(c.front, 1048576),
        in_range(c.right, 0x10000000000),
        in_range(c.up, 0x2000000000000000),
{
    let pa = pitch_angle(c);
    vstd::arithmetic::div_mod::lemma_mod_division_less_than_divisor(c.pitch as int, 360000);
    crate::angle::lemma_sin_mdeg_range(pa);
    crate::angle::lemma_cos_mdeg_range(pa);
    crate::angle::lemma_sin_mdeg_range(c.yaw as int);
    crate::angle::lemma_cos_mdeg_range(c.yaw as int);
    assert(in_range(c.front, 1048576)) by (nonlinear_arith)
        requires
            c.front.x == cos_mdeg(c.yaw as int) * cos_mdeg(pa),
            c.front.y == sin_mdeg(pa) * 1024,
            c.front.z == sin_mdeg(c.yaw as int) * cos_mdeg(pa),
            -1024 <= cos_mdeg(c.yaw as int) <= 1024,
            -1024 <= sin_mdeg(c.yaw as int) <= 1024,
            -1024 <= cos_mdeg(pa) <= 1024,
            -1024 <= sin_mdeg(pa) <= 1024,
            in_range(c.front, 1048576) == (-1048576 <= c.front.x <= 1048576 && -1048576
                <= c.front.y <= 1048576 && -1048576 <= c.front.z <= 1048576),
    ;
    assert(in_range(c.right, 0x10000000000)) by (nonlinear_arith)
        requires
            c.right.x == c.front.y * c.world_up.z - c.front.z * c.world_up.y,
            c.right.y == c.front.z * c.world_up.x - c.front.x * c.world_up.z,
            c.right.z == c.front.x * c.world_up.y - c.front.y * c.world_up.x,
            c.world_up.x == 0 && c.world_up.y == 1048576 && c.world_up.z == 0,
            in_range(c.front, 1048576),
            in_range(c.right, 0x10000000000) == (-0x10000000000 <= c.right.x <= 0x10000000000
                && -0x10000000000 <= c.right.y <= 0x10000000000 && -0x10000000000 <= c.right.z
                <= 0x10000000000),
    ;
    assert(in_range(c.up, 0x2000000000000000)) by (nonlinear_arith)
        requires
            c.up.x == c.right.y * c.front.z - c.right.z * c.front.y,
            c.up.y == c.right.z * c.front.x - c.right.x * c.front.z,
            c.up.z == c.right.x * c.front.y - c.right.y * c.front.x,
            in_range(c.front, 1048576),
            in_range(c.right, 0x10000000000),
            in_range(c.front, 1048576) == (-1048576 <= c.front.x <= 1048576 && -1048576
                <= c.front.y <= 1048576 && -1048576 <= c.front.z <= 1048576),
            in_range(c.right, 0x10000000000) == (-0x10000000000 <= c.right.x <= 0x10000000000
                && -0x10000000000 <= c.right.y <= 0x10000000000 && -0x10000000000 <= c.right.z
                <= 0x10000000000),
            in_range(c.up, 0x2000000000000000) == (-0x2000000000000000 <= c.up.x
                <= 0x2000000000000000 && -0x2000000000000000 <= c.up.y <= 0x2000000000000000
                && -0x2000000000000000 <= c.up.z <= 0x2000000000000000),
    ;
}

/// Away from the poles the up vector is never the zero vector.
pub proof fn lemma_up_nonzero(c: Camera)
    requires
        c.wf(),
        c.pitch != 90000,
        c.pitch != -90000,
    ensures
        norm_sq_spec(c.up) >= 274877906944,
{
    let pa = pitch_angle(c);
    vstd::arithmetic::div_mod::lemma_mod_division_less_than_divisor(c.pitch as int, 360000);
    lemma_pitch_angle_folds(c);
    let sp = sin_mdeg(pa);
    let cp = cos_mdeg(pa);
    crate::angle::lemma_sin_mdeg_range(pa);
    if pa <= 180000 {
        crate::angle::lemma_sine_peak_only_at_quarter(pa);
    } else {
        crate::angle::lemma_sine_peak_only_at_quarter(pa - 180000);
    }
    assert(1048576 - sp * sp >= 2047) by (nonlinear_arith)
        requires
            -1023 <= sp <= 1023,
    ;
    crate::fixed::lemma_isqrt_bounds((1048576 - sp * sp) as nat);
    let m = crate::fixed::isqrt_of((1048576 - sp * sp) as nat);
    assert(m >= 1) by (nonlinear_arith)
        requires
            ((1048576 - sp * sp) as nat) < (m + 1) * (m + 1),
            1048576 - sp * sp >= 2047,
            -1023 <= sp <= 1023,
    ;
    assert(cp * cp >= 1) by (nonlinear_arith)
        requires
            cp == m || cp == -(m as int),
            m >= 1,
    ;
    let sy = sin_mdeg(c.yaw as int);
    let cy = cos_mdeg(c.yaw as int);
    crate::angle::lemma_cos_mdeg_range(c.yaw as int);
    assert(norm_sq_spec(c.up) >= 274877906944) by (nonlinear_arith)
        requires
            c.up.x == c.right.y * c.front.z - c.right.z * c.front.y,
            c.up.y == c.right.z * c.front.x - c.right.x * c.front.z,
            c.up.z == c.right.x * c.front.y - c.right.y * c.front.x,
            c.right.x == c.front.y * c.world_up.z - c.front.z * c.world_up.y,
            c.right.y == c.front.z * c.world_up.x - c.front.x * c.world_up.z,
            c.right.z == c.front.x * c.world_up.y - c.front.y * c.world_up.x,
            c.world_up.x == 0 && c.world_up.y == 1048576 && c.world_up.z == 0,
            c.front.x == cy * cp,
            c.front.z == sy * cp,
            cp * cp >= 1,
            cy * cy + sy * sy > 1048576 - 2049,
            norm_sq_spec(c.up) == c.up.x * c.up.x + c.up.y * c.up.y + c.up.z * c.up.z,
    ;
}

/// The front vector has unit length at scale `DIR_ONE`, up to the rounding
/// of the trigonometry: its squared length lies within a quarter of a
/// percent of `DIR_ONE` squared.
pub proof fn lemma_front_unit_length(c: Camera)
    requires
        c.wf(),
    ensures
        1095220854784 <= norm_sq_spec(c.front) <= 1099511627776,
{
    let pa = pitch_angle(c);
    vstd::arithmetic::div_mod::lemma_mod_division_less_than_divisor(c.pitch as int, 360000);
    crate::angle::lemma_cos_mdeg_range(pa);
    crate::angle::lemma_cos_mdeg_range(c.yaw as int);
    let sp = sin_mdeg(pa);
    let cp = cos_mdeg(pa);
    let sy = sin_mdeg(c.yaw as int);
    let cy = cos_mdeg(c.yaw as int);
    let nf = norm_sq_spec(c.front);
    assert(cp * cp >= 0 && sp * sp >= 0) by (nonlinear_arith);
    assert(nf == cp * cp * (cy * cy + sy * sy) + 1048576 * (sp * sp)) by (nonlinear_arith)
        requires
            c.front.x == cy * cp,
            c.front.y == sp * 1024,
            c.front.z == sy * cp,
            nf == c.front.x * c.front.x + c.front.y * c.front.y + c.front.z * c.front.z,
    ;
    assert(nf <= 1099511627776) by (nonlinear_arith)
        requires
            nf == cp * cp * (cy * cy + sy * sy) + 1048576 * (sp * sp),
            cy * cy + sy * sy <= 1048576,
            cp * cp + sp * sp <= 1048576,
            cp * cp >= 0,
            sp * sp >= 0,
    ;
    assert(nf >= 1095220854784) by (nonlinear_arith)
        requires
            nf == cp * cp * (cy * cy + sy * sy) + 1048576 * (sp * sp),
            cy * cy + sy * sy >= 1046528,
            cp * cp + sp * sp >= 1046528,
            cp * cp >= 0,
            sp * sp >= 0,
    ;
}

/// Away from the poles, each of the three axes normalises to unit length
/// at scale `DIR_ONE`, up to the rounding of the trigonometry and of the
/// normalising divisions: the squared length of each unit axis lies within
/// a few parts per million of `DIR_ONE` squared.
pub proof fn lemma_axes_unit_length(c: Camera)
    requires
        c.wf(),
        c.pitch != 90000,
        c.pitch != -90000,
    ensures
        1048576 * 1048576 - 6 * 1048576 <= unit_x_spec(c.front) * unit_x_spec(c.front)
            + unit_y_spec(c.front) * unit_y_spec(c.front) + unit_z_spec(c.front) * unit_z_spec(
            c.front,
        ) <= 1048576 * 1048576 + 4 * 1048576,
        1048576 * 1048576 - 6 * 1048576 <= unit_x_spec(c.right) * unit_x_spec(c.right)
            + unit_y_spec(c.right) * unit_y_spec(c.right) + unit_z_spec(c.right) * unit_z_spec(
            c.right,
        ) <= 1048576 * 1048576 + 4 * 1048576,
        1048576 * 1048576 - 6 * 1048576 <= unit_x_spec(c.up) * unit_x_spec(c.up) + unit_y_spec(
            c.up,
        ) * unit_y_spec(c.up) + unit_z_spec(c.up) * unit_z_spec(c.up) <= 1048576 * 1048576 + 4
            * 1048576,
{
    lemma_front_unit_length(c);
    lemma_right_nonzero(c);
    lemma_up_nonzero(c);
    assert(524288 * 524288 == 274877906944) by (nonlinear_arith);
    crate::fixed::lemma_isqrt_at_least(norm_sq_spec(c.front) as nat, 524288);
    crate::fixed::lemma_isqrt_at_least(norm_sq_spec(c.right) as nat, 524288);
    crate::fixed::lemma_isqrt_at_least(norm_sq_spec(c.up) as nat, 524288);
    crate::vec3::lemma_unit_length(c.front);
    crate::vec3::lemma_unit_length(c.right);
    crate::vec3::lemma_unit_length(c.up);
}

/// With the default angles the front vector is exactly the negative
/// third axis: the fixed-point trigonometry is exact at the cardinal
/// angles, so the stock camera looks down negative z with no rounding.
pub proof fn lemma_default_front(c: Camera)
    requires
        c.wf(),
        c.yaw == DEFAULT_YAW_MDEG,
        c.pitch == DEFAULT_PITCH_MDEG,
    ensures
        c.front == (Vec3 { x: 0i64, y: 0i64, z: -1048576i64 }),
{
    crate::angle::lemma_sine_cardinal();
    vstd::arithmetic::div_mod::lemma_small_mod(0, 360000);
    assert(pitch_angle(c) == 0);
    assert(1024 * 1024 <= 1048576 && 1048576 < 1025 * 1025) by (nonlinear_arith);
    crate::fixed::lemma_isqrt_unique(1048576, 1024);
    assert(cos_mdeg(0) == 1024);
    assert(sin_mdeg(270000) == -1024);
    assert((1048576 - (-1024) * (-1024)) == 0) by (nonlinear_arith);
    assert(crate::fixed::isqrt_of(0) == 0);
    assert(cos_mdeg(270000) == 0);
    assert(front_x_spec(c) == 0 && front_y_spec(c) == 0 && front_z_spec(c) == -1048576)
        by (nonlinear_arith)
        requires
            front_x_spec(c) == cos_mdeg(270000) * cos_mdeg(0),
            front_y_spec(c) == sin_mdeg(0) * 1024,
            front_z_spec(c) == sin_mdeg(270000) * cos_mdeg(0),
            cos_mdeg(270000) == 0,
            cos_mdeg(0) == 1024,
            sin_mdeg(0) == 0,
            sin_mdeg(270000) == -1024,
    ;
}

/// The three stored axes stand exactly perpendicular on one another.
pub proof fn lemma_axes_orthogonal(c: Camera)
    requires
        c.wf(),
    ensures
        dot_spec(c.front, c.right) == 0,
        dot_spec(c.right, c.up) == 0,
        dot_spec(c.front, c.up) == 0,
{
    crate::vec3::lemma_cross_orthogonal(c.front, c.world_up);
    crate::vec3::lemma_cross_orthogonal(c.right, c.front);
}

} // verus!
