//! The movement integrator: one tick's intent turned into a collision-checked
//! pose update.
//!
//! The integrator cannot rotate a vector by the unit's facing or sweep the
//! unit's collider through the world — both take trigonometry and the physics
//! backend, which live with the host. Each model therefore splits the tick in
//! two exactly specified halves:
//!
//! * a *plan* that fixes everything decidable from the intent alone — the new
//!   facing, the updated speed, and the local-frame displacement or arc still
//!   to be checked; and
//! * a *commit* that receives the host's resolution (the world-frame
//!   displacement or resulting position when the shape cast found the path
//!   clear, `None` otherwise) and applies it.
//!
//! Whatever the resolution, a commit consumes the tick's commands: afterwards
//! `input_move` and `input_rotation` are exactly zero. A rejected move still
//! spends its input, and accelerated steering keeps its updated speed even
//! when blocked.

use vstd::prelude::*;

verus! {

use vstd::math::abs;
use crate::fixed::FP_SCALE;
use crate::fixed::FULL_TURN;
use crate::fixed::Fx2;
use crate::fixed::clamp_i64;
use crate::fixed::clamped;
use crate::fixed::clamp_unit;
use crate::fixed::clamp_unit_spec;
use crate::fixed::mul_div;
use crate::fixed::mul_div_trunc;
use crate::fixed::wrap_angle;
use crate::fixed::wrapped_turn;
use crate::movement::Movement;
use crate::movement::MovementType;
use crate::movement::next_speed;
use crate::movement::next_speed_spec;

/// A unit's pose: position in subunits, and facing angle in degree subunits
/// kept in `[0, FULL_TURN)`. The stored angle follows the internal sign
/// convention (a positive rotation command decreases it); the bridge reports
/// its negation as the human-facing heading.
#[derive(Clone, Copy, PartialEq, Eq, Structural, Debug)]
pub struct Transform2 {
    pub x: i64,
    pub y: i64,
    pub rot: i64,
}

impl Transform2 {
    pub open spec fn inv(self) -> bool {
        0 <= self.rot < FULL_TURN
    }
}

/// What one tick of the omnidirectional model intends: the facing after the
/// tick's free rotation, and the translation still to be collision-checked,
/// in the unit's local frame (x along the new facing).
#[derive(Clone, Copy, PartialEq, Eq, Structural, Debug)]
pub struct OmniPlan {
    pub new_rot: i64,
    pub attempt: Option<Fx2>,
}

/// This tick's rotation, in degree subunits: the turn rate scaled by the
/// rotation command (held to one unit) over one tick.
pub open spec fn omni_rotation_delta(m: Movement, tps: int) -> int {
    mul_div_trunc(
        m.rotation_speed as int,
        clamped(m.input_rotation as int, -FP_SCALE as int, FP_SCALE as int),
        tps * FP_SCALE,
    )
}

/// The facing after this tick's rotation; unchanged under the hand brake or
/// without a rotation command.
pub open spec fn omni_new_rot_spec(m: Movement, t: Transform2, tps: int) -> int {
    if !m.hand_brake && m.input_rotation != 0 {
        wrapped_turn(t.rot - omni_rotation_delta(m, tps))
    } else {
        t.rot as int
    }
}

/// The local-frame translation to attempt: the move command held to one unit
/// of length, scaled by the travel speed over one tick. No attempt under the
/// hand brake or without a move command.
pub open spec fn omni_attempt_spec(m: Movement, tps: int) -> Option<Fx2> {
    if !m.hand_brake && !m.input_move.is_zero() {
        let c = clamp_unit_spec(m.input_move);
        Some(
            Fx2 {
                x: mul_div_trunc(m.speed as int, c.x as int, tps * FP_SCALE) as i64,
                y: mul_div_trunc(m.speed as int, c.y as int, tps * FP_SCALE) as i64,
            },
        )
    } else {
        None
    }
}

pub open spec fn omni_plan_spec(m: Movement, t: Transform2, tps: int) -> OmniPlan {
    OmniPlan {
        new_rot: omni_new_rot_spec(m, t, tps) as i64,
        attempt: omni_attempt_spec(m, tps),
    }
}

/// Lay out one tick of the omnidirectional model.
pub fn omni_plan(m: &Movement, t: &Transform2, tps: u32) -> (p: OmniPlan)
    requires
        m.inv(),
        t.inv(),
        1 <= tps,
        m.movement_type == MovementType::Omnidirectional,
    ensures
        p == omni_plan_spec(*m, *t, tps as int),
        p.new_rot == omni_new_rot_spec(*m, *t, tps as int),
        0 <= p.new_rot < FULL_TURN,
        p.attempt == omni_attempt_spec(*m, tps as int),
        (p.attempt matches Some(d) ==> abs(d.x as int) <= abs(m.speed as int) && abs(d.y as int)
            <= abs(m.speed as int)),
{
    let d: i64 = (tps as i64) * FP_SCALE;
    let new_rot: i64 = if !m.hand_brake && m.input_rotation != 0 {
        let rd = mul_div(m.rotation_speed, clamp_i64(m.input_rotation, -FP_SCALE, FP_SCALE), d);
        wrap_angle(t.rot - rd)
    } else {
        t.rot
    };
    let attempt: Option<Fx2> = if !m.hand_brake && !(m.input_move.x == 0 && m.input_move.y == 0) {
        let c = clamp_unit(m.input_move);
        Some(Fx2 { x: mul_div(m.speed, c.x, d), y: mul_div(m.speed, c.y, d) })
    } else {
        None
    };
    OmniPlan { new_rot, attempt }
}

/// A movement intent with this tick's commands consumed.
pub open spec fn commands_consumed(m: Movement) -> Movement {
    Movement { input_move: Fx2 { x: 0, y: 0 }, input_rotation: 0, ..m }
}

/// The pose after an omnidirectional commit: the new facing always, plus
/// the resolved displacement when one was found clear.
pub open spec fn omni_commit_transform_spec(
    m: Movement,
    t: Transform2,
    tps: int,
    moved: Option<Fx2>,
) -> Transform2 {
    let rot = omni_new_rot_spec(m, t, tps) as i64;
    match moved {
        Some(d) => Transform2 { x: (t.x + d.x) as i64, y: (t.y + d.y) as i64, rot },
        None => Transform2 { rot, ..t },
    }
}

/// Apply the host's resolution of an omnidirectional tick.
///
/// `moved` is the world-frame displacement — the plan's local attempt rotated
/// by the new facing — when the shape cast found the full displacement clear;
/// `None` when it was blocked or nothing was attempted. The rotation commits
/// either way, and the tick's commands are consumed either way.
pub fn omni_commit(m: &mut Movement, t: &mut Transform2, tps: u32, moved: Option<Fx2>)
    requires
        old(m).inv(),
        old(t).inv(),
        1 <= tps,
        old(m).movement_type == MovementType::Omnidirectional,
        (moved matches Some(d) ==> i64::MIN <= old(t).x + d.x <= i64::MAX && i64::MIN <= old(t).y
            + d.y <= i64::MAX),
    ensures
        final(t).rot == omni_new_rot_spec(*old(m), *old(t), tps as int),
        (moved matches Some(d) ==> final(t).x == old(t).x + d.x && final(t).y == old(t).y + d.y),
        moved is None ==> final(t).x == old(t).x && final(t).y == old(t).y,
        *final(m) == commands_consumed(*old(m)),
        final(m).input_move.is_zero() && final(m).input_rotation == 0,
        *final(t) == omni_commit_transform_spec(*old(m), *old(t), tps as int, moved),
        final(m).inv(),
        final(t).inv(),
{
    let p = omni_plan(m, t, tps);
    t.rot = p.new_rot;
    match moved {
        Some(d) => {
            t.x = t.x + d.x;
            t.y = t.y + d.y;
        },
        None => {},
    }
    m.input_move = Fx2::zero();
    m.input_rotation = 0;
}

/// An arc step of accelerated steering, in the unit's local frame: the
/// distance along the current facing, the signed turn for the tick, and the
/// facing after the turn. The host resolves it into a world-frame pose with
/// the turning-radius construction (a straight step when the turn is zero).
#[derive(Clone, Copy, PartialEq, Eq, Structural, Debug)]
pub struct ArcMotion {
    pub linear_delta: i64,
    pub turn: i64,
    pub new_rot: i64,
}

/// What one tick of accelerated steering intends: the speed after this
/// tick's acceleration rule — committed whatever the cast finds — and the
/// arc still to be checked, absent when the updated speed is zero.
#[derive(Clone, Copy, PartialEq, Eq, Structural, Debug)]
pub struct SteerPlan {
    pub new_speed: i64,
    pub motion: Option<ArcMotion>,
}

/// This tick's turn, in degree subunits: the turn rate scaled by the y move
/// command over one tick, inverted while reversing.
pub open spec fn steer_turn_spec(m: Movement, new_speed: int, tps: int) -> int {
    let y = clamped(m.input_move.y as int, -FP_SCALE as int, FP_SCALE as int);
    let raw = mul_div_trunc(m.rotation_speed as int, y, tps * FP_SCALE);
    if new_speed < 0 {
        -raw
    } else {
        raw
    }
}

/// The distance covered in one tick at signed speed `s`, in subunits.
pub open spec fn linear_delta_spec(s: int, tps: int) -> int {
    mul_div_trunc(s, 1, tps)
}

pub open spec fn steer_plan_spec(m: Movement, t: Transform2, tps: int) -> SteerPlan {
    let ns = next_speed_spec(m, tps);
    SteerPlan {
        new_speed: ns as i64,
        motion: if ns != 0 {
            let turn = steer_turn_spec(m, ns, tps);
            Some(
                ArcMotion {
                    linear_delta: linear_delta_spec(ns, tps) as i64,
                    turn: turn as i64,
                    new_rot: wrapped_turn(t.rot - turn) as i64,
                },
            )
        } else {
            None
        },
    }
}

/// Lay out one tick of accelerated steering.
pub fn steer_plan(m: &Movement, t: &Transform2, tps: u32) -> (p: SteerPlan)
    requires
        m.inv(),
        t.inv(),
        1 <= tps,
        m.movement_type == MovementType::AcceleratedSteering,
    ensures
        p == steer_plan_spec(*m, *t, tps as int),
        -m.reverse_cap() <= p.new_speed <= m.max_speed,
        (p.motion matches Some(a) ==> abs(a.linear_delta as int) <= abs(p.new_speed as int) && 0
            <= a.new_rot < FULL_TURN && abs(a.turn as int) <= m.rotation_speed),
{
    let ns = next_speed(m, tps);
    let motion: Option<ArcMotion> = if ns != 0 {
        let d: i64 = (tps as i64) * FP_SCALE;
        let y = clamp_i64(m.input_move.y, -FP_SCALE, FP_SCALE);
        let raw = mul_div(m.rotation_speed, y, d);
        let turn: i64 = if ns < 0 {
            -raw
        } else {
            raw
        };
        let linear_delta = mul_div(ns, 1, tps as i64);
        Some(ArcMotion { linear_delta, turn, new_rot: wrap_angle(t.rot - turn) })
    } else {
        None
    };
    SteerPlan { new_speed: ns, motion }
}

/// The movement state after an accelerated steering commit: the updated
/// speed, with this tick's commands consumed.
pub open spec fn steer_commit_movement_spec(m: Movement, tps: int) -> Movement {
    Movement { speed: next_speed_spec(m, tps) as i64, ..commands_consumed(m) }
}

/// The pose after an accelerated steering commit: unchanged when blocked or
/// at rest, the arc's end position and facing when the way was clear.
pub open spec fn steer_commit_transform_spec(
    m: Movement,
    t: Transform2,
    tps: int,
    arrived: Option<Fx2>,
) -> Transform2 {
    match arrived {
        Some(np) => Transform2 {
            x: np.x,
            y: np.y,
            rot: steer_plan_spec(m, t, tps).motion.unwrap().new_rot,
        },
        None => t,
    }
}

/// Apply the host's resolution of an accelerated steering tick.
///
/// `arrived` is the world-frame position at the end of the planned arc when
/// the shape cast found the way clear; `None` when the arc was blocked or no
/// motion was planned. The updated speed is kept either way — braking and
/// acceleration persist against a wall — while pose and facing commit only
/// together with a clear arc. The tick's commands are consumed either way.
pub fn steer_commit(m: &mut Movement, t: &mut Transform2, tps: u32, arrived: Option<Fx2>)
    requires
        old(m).inv(),
        old(t).inv(),
        1 <= tps,
        old(m).movement_type == MovementType::AcceleratedSteering,
        arrived is Some ==> next_speed_spec(*old(m), tps as int) != 0,
    ensures
        *final(m) == steer_commit_movement_spec(*old(m), tps as int),
        final(m).input_move.is_zero() && final(m).input_rotation == 0,
        final(m).speed == next_speed_spec(*old(m), tps as int),
        *final(t) == steer_commit_transform_spec(*old(m), *old(t), tps as int, arrived),
        arrived is None ==> *final(t) == *old(t),
        final(m).inv(),
        final(t).inv(),
{
    let p = steer_plan(m, t, tps);
    m.speed = p.new_speed;
    match arrived {
        Some(np) => {
            t.x = np.x;
            t.y = np.y;
            match p.motion {
                Some(a) => {
                    t.rot = a.new_rot;
                },
                None => {},
            }
        },
        None => {},
    }
    m.input_move = Fx2::zero();
    m.input_rotation = 0;
}

} // verus!
