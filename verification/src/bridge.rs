//! The scripting bridge: the narrow command surface offered to untrusted
//! per-unit control scripts, and the read-only telemetry they may sample.
//!
//! Scripts never touch simulation state directly. The host runs a unit's
//! `on_tick` hook in its sandbox and collects the commands the script issued
//! into a [`HookOutcome`]; the bridge then applies them here, in a controlled
//! step. A hook that failed yields [`HookOutcome::Fault`], and applying a
//! fault leaves the unit's movement intent exactly as it was — failed scripts
//! never partially apply.

use vstd::prelude::*;

verus! {

use crate::fixed::PARAM_LIMIT;
use crate::fixed::Fx2;
use crate::fixed::clamp_i64;
use crate::fixed::clamped;
use crate::integrator::Transform2;
use crate::movement::Movement;

/// One movement command issued by a control script.
#[derive(Clone, Copy, PartialEq, Eq, Structural, Debug)]
pub enum Command {
    /// Set this tick's translation command.
    Move { x: i64, y: i64 },
    /// Set this tick's rotation command.
    Rotate { angle: i64 },
    /// Flip the persistent hand brake flag.
    ToggleHandBrake,
}

/// Everything one `on_tick` hook invocation produced: the commands it issued
/// in order, or a fault if the script failed part-way.
#[derive(Clone, PartialEq, Eq, Debug)]
pub enum HookOutcome {
    Commands(Vec<Command>),
    /// The script failed; the host reports the fault elsewhere, and none of
    /// the unit's state changes.
    Fault,
}

/// A command applied to a unit's movement intent. A unit without movement
/// capability ignores every command. Move inputs saturate at the
/// representable band; each command is a single atomic field write.
pub open spec fn apply_command_spec(mv: Option<Movement>, c: Command) -> Option<Movement> {
    match mv {
        None => None,
        Some(m) => Some(
            match c {
                Command::Move { x, y } => Movement {
                    input_move: Fx2 {
                        x: clamped(x as int, -PARAM_LIMIT as int, PARAM_LIMIT as int) as i64,
                        y: clamped(y as int, -PARAM_LIMIT as int, PARAM_LIMIT as int) as i64,
                    },
                    ..m
                },
                Command::Rotate { angle } => Movement { input_rotation: angle, ..m },
                Command::ToggleHandBrake => Movement { hand_brake: !m.hand_brake, ..m },
            },
        ),
    }
}

/// A command sequence applied in order.
pub open spec fn apply_commands_spec(mv: Option<Movement>, cs: Seq<Command>) -> Option<Movement>
    decreases cs.len(),
{
    if cs.len() == 0 {
        mv
    } else {
        apply_commands_spec(apply_command_spec(mv, cs[0]), cs.skip(1))
    }
}

/// The whole of a hook invocation's effect on a unit's intent: its commands
/// in order, or nothing at all for a faulted script.
pub open spec fn apply_outcome_spec(mv: Option<Movement>, out: HookOutcome) -> Option<Movement> {
    match out {
        HookOutcome::Commands(cs) => apply_commands_spec(mv, cs@),
        HookOutcome::Fault => mv,
    }
}

/// Apply one script command to a unit's movement intent, if it has one.
pub fn apply_command(mv: &mut Option<Movement>, c: &Command)
    requires
        ((*old(mv)) matches Some(m) ==> m.inv()),
    ensures
        *final(mv) == apply_command_spec(*old(mv), *c),
        ((*final(mv)) matches Some(m) ==> m.inv()),
{
    match mv {
        None => {},
        Some(m) => {
            match c {
                Command::Move { x, y } => {
                    m.input_move = Fx2 {
                        x: clamp_i64(*x, -PARAM_LIMIT, PARAM_LIMIT),
                        y: clamp_i64(*y, -PARAM_LIMIT, PARAM_LIMIT),
                    };
                },
                Command::Rotate { angle } => {
                    m.input_rotation = *angle;
                },
                Command::ToggleHandBrake => {
                    m.hand_brake = !m.hand_brake;
                },
            }
        },
    }
}

/// Apply everything one hook invocation produced. A faulted script leaves
/// the intent exactly as it was.
pub fn apply_outcome(mv: &mut Option<Movement>, out: &HookOutcome)
    requires
        ((*old(mv)) matches Some(m) ==> m.inv()),
    ensures
        *final(mv) == apply_outcome_spec(*old(mv), *out),
        out is Fault ==> *final(mv) == *old(mv),
        ((*final(mv)) matches Some(m) ==> m.inv()),
{
    match out {
        HookOutcome::Fault => {},
        HookOutcome::Commands(cs) => {
            let ghost all = cs@;
            proof {
                assert(all.skip(0) =~= all);
            }
            let n = cs.len();
            let mut i: usize = 0;
            while i < n
                invariant
                    i <= n,
                    n == all.len(),
                    cs@ == all,
                    ((*mv) matches Some(m) ==> m.inv()),
                    apply_commands_spec(*mv, all.skip(i as int)) == apply_commands_spec(
                        *old(mv),
                        all,
                    ),
                decreases n - i,
            {
                proof {
                    assert(all.skip(i as int)[0] == all[i as int]);
                    assert(all.skip(i as int).skip(1) =~= all.skip(i + 1));
                }
                let c = &cs[i];
                apply_command(mv, c);
                i = i + 1;
            }
            proof {
                assert(all.skip(n as int) =~= Seq::<Command>::empty());
            }
        },
    }
}

/// The position and heading a script reads back, with the heading reported
/// in the human-facing sign convention.
#[derive(Clone, Copy, PartialEq, Eq, Structural, Debug)]
pub struct Gps {
    pub x: i64,
    pub y: i64,
    /// Heading in degree subunits, the negation of the internal angle: a
    /// positive value means the unit has turned clockwise on screen.
    pub heading: i64,
}

/// Sample a unit's position and heading.
pub fn gps_snapshot(t: &Transform2) -> (g: Gps)
    requires
        t.inv(),
    ensures
        g.x == t.x,
        g.y == t.y,
        g.heading == -t.rot,
{
    Gps { x: t.x, y: t.y, heading: -t.rot }
}

/// The movement snapshot a script reads back: the unit's parameters and
/// current speed and brake state, sampled fresh on access.
#[derive(Clone, Copy, PartialEq, Eq, Debug)]
pub struct MovementInfo {
    pub movement_type: crate::movement::MovementType,
    pub speed: i64,
    pub max_speed: i64,
    pub max_speed_backwards: Option<i64>,
    pub acceleration: i64,
    pub braking_acceleration: Option<i64>,
    pub passive_deceleration: i64,
    pub rotation_speed: i64,
    pub is_hand_brake_pulled: bool,
}

/// Sample a unit's movement state; `None` is the explicit "no movement
/// capability" sentinel for units that cannot move.
pub fn movement_snapshot(mv: &Option<Movement>) -> (r: Option<MovementInfo>)
    ensures
        mv is None <==> r is None,
        (mv matches Some(m) ==> r == Some(
            MovementInfo {
                movement_type: m.movement_type,
                speed: m.speed,
                max_speed: m.max_speed,
                max_speed_backwards: m.max_speed_backwards,
                acceleration: m.acceleration,
                braking_acceleration: m.braking_acceleration,
                passive_deceleration: m.passive_deceleration,
                rotation_speed: m.rotation_speed,
                is_hand_brake_pulled: m.hand_brake,
            },
        )),
{
    match mv {
        None => None,
        Some(m) => Some(
            MovementInfo {
                movement_type: m.movement_type,
                speed: m.speed,
                max_speed: m.max_speed,
                max_speed_backwards: m.max_speed_backwards,
                acceleration: m.acceleration,
                braking_acceleration: m.braking_acceleration,
                passive_deceleration: m.passive_deceleration,
                rotation_speed: m.rotation_speed,
                is_hand_brake_pulled: m.hand_brake,
            },
        ),
    }
}

} // verus!
