//! Per-unit movement intent, kinematic parameters and the speed update rule.

use vstd::prelude::*;

verus! {

use vstd::math::abs;
use crate::fixed::FP_SCALE;
use crate::fixed::PARAM_LIMIT;
use crate::fixed::Fx2;
use crate::fixed::clamp_i64;
use crate::fixed::clamped;
use crate::fixed::mul_div;
use crate::fixed::mul_div_trunc;
use crate::fixed::lemma_mul_div_trunc_sign;

/// The closed set of kinematic models.
#[derive(Clone, Copy, PartialEq, Eq, Structural, Debug)]
pub enum MovementType {
    /// Free translation in any direction plus free rotation.
    Omnidirectional,
    /// A signed speed state with acceleration limits and arc steering.
    AcceleratedSteering,
}

/// The mutable control state of one unit: this tick's commands, the
/// persistent speed state, and the unit's kinematic parameters.
#[derive(Clone, Copy, PartialEq, Eq, Debug)]
pub struct Movement {
    pub movement_type: MovementType,
    /// This tick's translation command, consumed by the integrator.
    pub input_move: Fx2,
    /// This tick's rotation command, consumed by the integrator.
    pub input_rotation: i64,
    /// Signed speed carried across ticks (accelerated steering), or the
    /// constant travel speed (omnidirectional), in subunits per second.
    pub speed: i64,
    /// Turn rate, in degree subunits per second.
    pub rotation_speed: i64,
    /// Forward speed cap, in subunits per second.
    pub max_speed: i64,
    /// Reverse speed cap; `max_speed` when absent.
    pub max_speed_backwards: Option<i64>,
    /// Acceleration applied when the input drives with the current motion.
    pub acceleration: i64,
    /// Deceleration applied against the current motion; `acceleration` when absent.
    pub braking_acceleration: Option<i64>,
    /// Deceleration applied while moving with no input.
    pub passive_deceleration: i64,
    /// Steering pivot offset from the unit's center, in subunits.
    pub rotation_offset: i64,
    /// Persistent brake flag, toggled by scripts.
    pub hand_brake: bool,
}

impl Movement {
    /// The reverse speed cap in force: the configured one, or `max_speed`.
    pub open spec fn reverse_cap(self) -> int {
        match self.max_speed_backwards {
            Some(v) => v as int,
            None => self.max_speed as int,
        }
    }

    /// The braking acceleration in force: the configured one, or `acceleration`.
    pub open spec fn braking(self) -> int {
        match self.braking_acceleration {
            Some(v) => v as int,
            None => self.acceleration as int,
        }
    }

    /// Kinematic parameters within the representable band, limits nonnegative.
    pub open spec fn params_ok(self) -> bool {
        &&& 0 <= self.rotation_speed <= PARAM_LIMIT
        &&& 0 <= self.max_speed <= PARAM_LIMIT
        &&& (self.max_speed_backwards matches Some(v) ==> 0 <= v <= PARAM_LIMIT)
        &&& 0 <= self.acceleration <= PARAM_LIMIT
        &&& (self.braking_acceleration matches Some(v) ==> 0 <= v <= PARAM_LIMIT)
        &&& 0 <= self.passive_deceleration <= PARAM_LIMIT
        &&& -PARAM_LIMIT <= self.rotation_offset <= PARAM_LIMIT
    }

    /// Well-formedness carried across ticks: parameters in range, inputs in
    /// range, and the speed state within the caps that apply to the model.
    pub open spec fn inv(self) -> bool {
        &&& self.params_ok()
        &&& -PARAM_LIMIT <= self.input_move.x <= PARAM_LIMIT
        &&& -PARAM_LIMIT <= self.input_move.y <= PARAM_LIMIT
        &&& -PARAM_LIMIT <= self.speed <= PARAM_LIMIT
        &&& (self.movement_type == MovementType::AcceleratedSteering ==> -self.reverse_cap()
            <= self.speed <= self.max_speed)
    }
}

/// The effective linear acceleration for one tick of accelerated steering,
/// by precedence: the hand brake forces braking against the current motion;
/// input with the motion accelerates; input against it brakes; no input
/// while moving decelerates passively; no input at rest readies full
/// acceleration.
pub open spec fn effective_acceleration(m: Movement, input_x: int) -> int {
    if m.hand_brake {
        if m.speed > 0 {
            -m.braking()
        } else {
            m.braking()
        }
    } else if (m.speed > 0 && input_x > 0) || (m.speed < 0 && input_x < 0) {
        m.acceleration as int
    } else if (m.speed > 0 && input_x < 0) || (m.speed < 0 && input_x > 0) {
        -m.braking()
    } else if m.speed != 0 {
        -m.passive_deceleration
    } else {
        m.acceleration as int
    }
}

/// One tick's speed update: the effective acceleration scaled by the
/// x input and the tick length, capped to the speed limits, and kept from
/// crossing zero within the tick.
pub open spec fn next_speed_spec(m: Movement, tps: int) -> int {
    let x = clamped(m.input_move.x as int, -FP_SCALE as int, FP_SCALE as int);
    let uncapped = clamped(
        m.speed + mul_div_trunc(effective_acceleration(m, x), x, tps * FP_SCALE),
        -m.reverse_cap(),
        m.max_speed as int,
    );
    if m.speed > 0 {
        if uncapped < 0 {
            0
        } else {
            uncapped
        }
    } else if m.speed < 0 {
        if uncapped > 0 {
            0
        } else {
            uncapped
        }
    } else {
        uncapped
    }
}

/// Compute one tick's updated speed for the accelerated steering model.
pub fn next_speed(m: &Movement, tps: u32) -> (r: i64)
    requires
        m.inv(),
        1 <= tps,
    ensures
        r == next_speed_spec(*m, tps as int),
        -m.reverse_cap() <= r <= m.max_speed,
        m.speed > 0 ==> r >= 0,
        m.speed < 0 ==> r <= 0,
{
    let x = clamp_i64(m.input_move.x, -FP_SCALE, FP_SCALE);
    let brake: i64 = match m.braking_acceleration {
        Some(b) => b,
        None => m.acceleration,
    };
    let accel: i64 = if m.hand_brake {
        if m.speed > 0 {
            -brake
        } else {
            brake
        }
    } else if (m.speed > 0 && x > 0) || (m.speed < 0 && x < 0) {
        m.acceleration
    } else if (m.speed > 0 && x < 0) || (m.speed < 0 && x > 0) {
        -brake
    } else if m.speed != 0 {
        -m.passive_deceleration
    } else {
        m.acceleration
    };
    let d: i64 = (tps as i64) * FP_SCALE;
    let delta = mul_div(accel, x, d);
    let msb: i64 = match m.max_speed_backwards {
        Some(v) => v,
        None => m.max_speed,
    };
    let uncapped = clamp_i64(m.speed + delta, -msb, m.max_speed);
    if m.speed > 0 {
        if uncapped < 0 {
            0
        } else {
            uncapped
        }
    } else if m.speed < 0 {
        if uncapped > 0 {
            0
        } else {
            uncapped
        }
    } else {
        uncapped
    }
}

/// However hard and however long the input drives, one tick's speed update
/// lands inside the configured caps, and never carries the unit through
/// zero into the opposite direction of travel within the tick.
pub proof fn lemma_speed_caps(m: Movement, tps: int)
    requires
        m.inv(),
        m.movement_type == MovementType::AcceleratedSteering,
        1 <= tps,
    ensures
        -m.reverse_cap() <= next_speed_spec(m, tps) <= m.max_speed,
        m.speed > 0 ==> next_speed_spec(m, tps) >= 0,
        m.speed < 0 ==> next_speed_spec(m, tps) <= 0,
{
}

/// With the hand brake pulled, a drive input that does not push against the
/// braking direction moves the speed toward zero and never past it. (An
/// input with `input_move.x < 0`, or any nonzero input from rest, can grow
/// the speed's magnitude instead, because the braking acceleration is scaled
/// by the signed x input.)
pub proof fn lemma_hand_brake_monotone(m: Movement, tps: int)
    requires
        m.inv(),
        m.movement_type == MovementType::AcceleratedSteering,
        1 <= tps,
        m.hand_brake,
        m.input_move.x >= 0,
        m.speed == 0 ==> m.input_move.x == 0,
    ensures
        abs(next_speed_spec(m, tps)) <= abs(m.speed as int),
        next_speed_spec(m, tps) * m.speed >= 0,
{
    let x = clamped(m.input_move.x as int, -FP_SCALE as int, FP_SCALE as int);
    let a = effective_acceleration(m, x);
    let d = tps * FP_SCALE;
    assert(0 < tps * 3600) by (nonlinear_arith)
        requires
            1 <= tps,
    ;
    assert(0 < d);
    let delta = mul_div_trunc(a, x, d);
    lemma_mul_div_trunc_sign(a, x, d);
    let r = next_speed_spec(m, tps);
    if m.speed > 0 {
        assert(a == -m.braking() && a <= 0 && x >= 0);
        assert(delta <= 0);
        assert(0 <= r <= m.speed);
    } else if m.speed < 0 {
        assert(a == m.braking() && a >= 0 && x >= 0);
        assert(delta >= 0);
        assert(m.speed <= r <= 0);
    } else {
        assert(x == 0);
        assert(delta == 0);
        assert(r == 0);
    }
    assert(r * m.speed >= 0) by (nonlinear_arith)
        requires
            (m.speed > 0 && r >= 0) || (m.speed < 0 && r <= 0) || (m.speed == 0),
    ;
}

} // verus!
