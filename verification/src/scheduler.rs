//! The tick scheduler: the fixed order of one simulation tick over all
//! units.
//!
//! Each tick the host drives three phases, in this order: first every unit
//! clock and the global clock advance by the frame's delta
//! ([`tick_clocks`]); then every bound script's `on_tick` hook runs in the
//! host's sandbox and the collected outcomes are applied to the movement
//! intents ([`run_script_phase`]); last the integrator runs over every unit
//! ([`plan_unit`] and [`commit_unit`], with the host resolving each plan
//! against the collision backend in between). Scripts therefore always see
//! clocks already advanced for the current tick, and the integrator never
//! sees a mix of old and new intents.

use vstd::prelude::*;

verus! {

use crate::bridge::HookOutcome;
use crate::bridge::apply_outcome;
use crate::bridge::apply_outcome_spec;
use crate::clock::Clock;
use crate::clock::advanced;
use crate::fixed::Fx2;
use crate::integrator::OmniPlan;
use crate::integrator::SteerPlan;
use crate::integrator::Transform2;
use crate::integrator::commands_consumed;
use crate::integrator::omni_commit;
use crate::integrator::omni_commit_transform_spec;
use crate::integrator::omni_plan;
use crate::integrator::omni_plan_spec;
use crate::integrator::steer_commit;
use crate::integrator::steer_commit_movement_spec;
use crate::integrator::steer_commit_transform_spec;
use crate::integrator::steer_plan;
use crate::integrator::steer_plan_spec;
use crate::movement::Movement;
use crate::movement::MovementType;
use crate::movement::next_speed_spec;

/// Everything the scheduler owns of one unit.
#[derive(Clone, Copy, PartialEq, Eq, Debug)]
pub struct UnitState {
    /// The unit's movement intent; `None` for a unit that cannot move.
    pub movement: Option<Movement>,
    pub transform: Transform2,
    pub clock: Clock,
}

impl UnitState {
    pub open spec fn inv(self) -> bool {
        &&& (self.movement matches Some(m) ==> m.inv())
        &&& self.transform.inv()
    }
}

/// The simulated world: the units in a fixed order, and the global clock.
#[derive(Clone, PartialEq, Eq, Debug)]
pub struct World {
    pub units: Vec<UnitState>,
    pub game_clock: Clock,
}

impl World {
    pub open spec fn inv(self) -> bool {
        forall|i: int| 0 <= i < self.units@.len() ==> #[trigger] self.units@[i].inv()
    }
}

/// Phase one: advance every unit clock and the global clock by the frame's
/// delta. Nothing else of any unit changes.
pub fn tick_clocks(w: &mut World, delta_micros: u64)
    ensures
        final(w).units@.len() == old(w).units@.len(),
        forall|j: int| 0 <= j < old(w).units@.len() ==> #[trigger] final(w).units@[j]
            == (UnitState { clock: advanced(old(w).units@[j].clock, delta_micros), ..old(
            w,
        ).units@[j] }),
        final(w).game_clock == advanced(old(w).game_clock, delta_micros),
        old(w).inv() ==> final(w).inv(),
{
    let ghost w0 = *old(w);
    let n = w.units.len();
    let mut i: usize = 0;
    while i < n
        invariant
            i <= n,
            w.units@.len() == n,
            n == w0.units@.len(),
            w.game_clock == w0.game_clock,
            forall|j: int| 0 <= j < i ==> #[trigger] w.units@[j] == (UnitState {
                clock: advanced(w0.units@[j].clock, delta_micros),
                ..w0.units@[j]
            }),
            forall|j: int| i <= j < n ==> #[trigger] w.units@[j] == w0.units@[j],
        decreases n - i,
    {
        let mut u = w.units[i];
        u.clock.tick(delta_micros);
        w.units[i] = u;
        i = i + 1;
    }
    proof {
        if w0.inv() {
            assert forall|j: int| 0 <= j < w.units@.len() implies #[trigger] w.units@[j].inv() by {
                assert(w0.units@[j].inv());
                assert(w.units@[j] == (UnitState {
                    clock: advanced(w0.units@[j].clock, delta_micros),
                    ..w0.units@[j]
                }));
            }
        }
    }
    w.game_clock.tick(delta_micros);
}

/// Phase two: apply each unit's hook outcome to that unit's movement
/// intent, in unit order. A faulted hook leaves its unit exactly as it was,
/// and no outcome reaches any other unit's state.
pub fn run_script_phase(w: &mut World, outcomes: &Vec<HookOutcome>)
    requires
        old(w).inv(),
        outcomes@.len() == old(w).units@.len(),
    ensures
        final(w).inv(),
        final(w).units@.len() == old(w).units@.len(),
        final(w).game_clock == old(w).game_clock,
        forall|j: int| 0 <= j < old(w).units@.len() ==> #[trigger] final(w).units@[j]
            == (UnitState {
            movement: apply_outcome_spec(old(w).units@[j].movement, outcomes@[j]),
            ..old(w).units@[j]
        }),
{
    let ghost w0 = *old(w);
    let n = w.units.len();
    let mut i: usize = 0;
    while i < n
        invariant
            i <= n,
            w.units@.len() == n,
            n == w0.units@.len(),
            n == outcomes@.len(),
            w.game_clock == w0.game_clock,
            w0.inv(),
            forall|j: int| 0 <= j < i ==> #[trigger] w.units@[j] == (UnitState {
                movement: apply_outcome_spec(w0.units@[j].movement, outcomes@[j]),
                ..w0.units@[j]
            }),
            forall|j: int| 0 <= j < i ==> #[trigger] w.units@[j].inv(),
            forall|j: int| i <= j < n ==> #[trigger] w.units@[j] == w0.units@[j],
        decreases n - i,
    {
        let mut u = w.units[i];
        proof {
            assert(w0.units@[i as int].inv());
        }
        apply_outcome(&mut u.movement, &outcomes[i]);
        w.units[i] = u;
        i = i + 1;
    }
}

/// One unit's integrator plan, keyed by its kinematic model.
#[derive(Clone, Copy, PartialEq, Eq, Structural, Debug)]
pub enum UnitPlan {
    /// The unit has no movement intent; nothing to integrate.
    Idle,
    Omni(OmniPlan),
    Steer(SteerPlan),
}

/// Phase three, first half: lay out one unit's tick.
pub fn plan_unit(u: &UnitState, tps: u32) -> (p: UnitPlan)
    requires
        u.inv(),
        1 <= tps,
    ensures
        u.movement is None ==> p == UnitPlan::Idle,
        (u.movement matches Some(m) ==> p == match m.movement_type {
            MovementType::Omnidirectional => UnitPlan::Omni(
                omni_plan_spec(m, u.transform, tps as int),
            ),
            MovementType::AcceleratedSteering => UnitPlan::Steer(
                steer_plan_spec(m, u.transform, tps as int),
            ),
        }),
{
    match &u.movement {
        None => UnitPlan::Idle,
        Some(m) => match m.movement_type {
            MovementType::Omnidirectional => UnitPlan::Omni(omni_plan(m, &u.transform, tps)),
            MovementType::AcceleratedSteering => UnitPlan::Steer(steer_plan(m, &u.transform, tps)),
        },
    }
}

/// Phase three, second half: commit one unit's tick with the host's
/// resolution of its plan.
///
/// `resolved` carries what the collision backend found for the planned
/// motion — the world-frame displacement for the omnidirectional model, the
/// world-frame end position for accelerated steering — and `None` when the
/// motion was blocked or none was planned. Either way the unit's commands
/// are consumed and its clock is untouched.
pub fn commit_unit(u: &mut UnitState, tps: u32, resolved: Option<Fx2>)
    requires
        old(u).inv(),
        1 <= tps,
        old(u).movement is None ==> resolved is None,
        (old(u).movement matches Some(m) ==> (m.movement_type
            == MovementType::Omnidirectional ==> (resolved matches Some(d) ==> i64::MIN <= old(
            u,
        ).transform.x + d.x <= i64::MAX && i64::MIN <= old(u).transform.y + d.y <= i64::MAX))),
        (old(u).movement matches Some(m) ==> (m.movement_type
            == MovementType::AcceleratedSteering ==> (resolved is Some ==> next_speed_spec(
            m,
            tps as int,
        ) != 0))),
    ensures
        final(u).inv(),
        final(u).clock == old(u).clock,
        old(u).movement is None ==> *final(u) == *old(u),
        (old(u).movement matches Some(m) ==> match m.movement_type {
            MovementType::Omnidirectional => final(u).movement == Some(commands_consumed(m))
                && final(u).transform == omni_commit_transform_spec(
                m,
                old(u).transform,
                tps as int,
                resolved,
            ),
            MovementType::AcceleratedSteering => final(u).movement == Some(
                steer_commit_movement_spec(m, tps as int),
            ) && final(u).transform == steer_commit_transform_spec(
                m,
                old(u).transform,
                tps as int,
                resolved,
            ),
        }),
{
    match &mut u.movement {
        None => {},
        Some(m) => {
            match m.movement_type {
                MovementType::Omnidirectional => {
                    omni_commit(m, &mut u.transform, tps, resolved);
                },
                MovementType::AcceleratedSteering => {
                    steer_commit(m, &mut u.transform, tps, resolved);
                },
            }
        },
    }
}

} // verus!
