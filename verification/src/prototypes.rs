//! Prototype configuration: named kinematic parameter sets, and the
//! spawn-time validation that turns one into a unit's initial movement
//! state.
//!
//! Configuration is the one place where faults are fatal to a unit's
//! creation: an unknown prototype name, an unrecognized movement type, or a
//! parameter outside the representable band all refuse the spawn, so that
//! no unit is ever simulated with invalid kinematics.

use vstd::prelude::*;

verus! {

use crate::fixed::Fx2;
use crate::fixed::PARAM_LIMIT;
use crate::movement::Movement;
use crate::movement::MovementType;

/// One named parameter set, as configuration delivers it. The movement
/// type arrives as text so that unrecognized variants can be refused here.
#[derive(Clone, PartialEq, Eq, Debug)]
pub struct MovementPrototype {
    pub movement_type: String,
    /// Initial signed speed (accelerated steering), or the constant travel
    /// speed (omnidirectional), in subunits per second.
    pub speed: i64,
    pub rotation_speed: i64,
    pub max_speed: i64,
    pub max_speed_backwards: Option<i64>,
    pub acceleration: i64,
    pub braking_acceleration: Option<i64>,
    pub passive_deceleration: i64,
    pub rotation_offset: i64,
}

/// The loaded prototype table: names to parameter sets, first match wins.
#[derive(Clone, PartialEq, Eq, Debug)]
pub struct Prototypes {
    pub entries: Vec<(String, MovementPrototype)>,
}

/// Why a spawn was refused.
#[derive(Clone, Copy, PartialEq, Eq, Structural, Debug)]
pub enum SpawnError {
    /// No prototype of that name is configured.
    UnknownPrototype,
    /// The prototype names a movement type outside the closed set.
    UnknownMovementType,
    /// A kinematic parameter is negative where a magnitude is required,
    /// outside the representable band, or an initial speed breaks its caps.
    InvalidParameter,
}

/// The movement type a name denotes, if any.
pub open spec fn parse_movement_type_spec(name: Seq<char>) -> Option<MovementType> {
    if name == "omnidirectional"@ {
        Some(MovementType::Omnidirectional)
    } else if name == "accelerated_steering"@ {
        Some(MovementType::AcceleratedSteering)
    } else {
        None
    }
}

/// Parse a movement type name from the closed set.
pub fn parse_movement_type(name: &String) -> (r: Option<MovementType>)
    ensures
        r == parse_movement_type_spec(name@),
{
    let omni: String = "omnidirectional".to_owned();
    let steer: String = "accelerated_steering".to_owned();
    if *name == omni {
        Some(MovementType::Omnidirectional)
    } else if *name == steer {
        Some(MovementType::AcceleratedSteering)
    } else {
        None
    }
}

/// The movement state a prototype describes, before validation.
pub open spec fn assembled_movement_spec(p: MovementPrototype, t: MovementType) -> Movement {
    Movement {
        movement_type: t,
        input_move: Fx2 { x: 0, y: 0 },
        input_rotation: 0,
        speed: p.speed,
        rotation_speed: p.rotation_speed,
        max_speed: p.max_speed,
        max_speed_backwards: p.max_speed_backwards,
        acceleration: p.acceleration,
        braking_acceleration: p.braking_acceleration,
        passive_deceleration: p.passive_deceleration,
        rotation_offset: p.rotation_offset,
        hand_brake: false,
    }
}

/// What building a movement state from a prototype yields: the assembled
/// state exactly when the movement type is recognized and the parameters
/// satisfy the movement well-formedness invariant, an error otherwise.
pub open spec fn build_movement_spec(p: MovementPrototype) -> Result<Movement, SpawnError> {
    match parse_movement_type_spec(p.movement_type@) {
        None => Err(SpawnError::UnknownMovementType),
        Some(t) => {
            let m = assembled_movement_spec(p, t);
            if m.inv() {
                Ok(m)
            } else {
                Err(SpawnError::InvalidParameter)
            }
        },
    }
}

/// Whether a movement state satisfies its well-formedness invariant.
fn checks_inv(m: &Movement) -> (b: bool)
    ensures
        b == m.inv(),
{
    let params_ok = 0 <= m.rotation_speed && m.rotation_speed <= PARAM_LIMIT && 0 <= m.max_speed
        && m.max_speed <= PARAM_LIMIT && (match m.max_speed_backwards {
        Some(v) => 0 <= v && v <= PARAM_LIMIT,
        None => true,
    }) && 0 <= m.acceleration && m.acceleration <= PARAM_LIMIT && (match m.braking_acceleration {
        Some(v) => 0 <= v && v <= PARAM_LIMIT,
        None => true,
    }) && 0 <= m.passive_deceleration && m.passive_deceleration <= PARAM_LIMIT && -PARAM_LIMIT
        <= m.rotation_offset && m.rotation_offset <= PARAM_LIMIT;
    let inputs_ok = -PARAM_LIMIT <= m.input_move.x && m.input_move.x <= PARAM_LIMIT && -PARAM_LIMIT
        <= m.input_move.y && m.input_move.y <= PARAM_LIMIT && -PARAM_LIMIT <= m.speed && m.speed
        <= PARAM_LIMIT;
    params_ok && inputs_ok && (match m.movement_type {
        MovementType::Omnidirectional => true,
        MovementType::AcceleratedSteering => {
            let cap: i64 = match m.max_speed_backwards {
                Some(v) => v,
                None => m.max_speed,
            };
            -cap <= m.speed && m.speed <= m.max_speed
        },
    })
}

/// Build a unit's initial movement state from one prototype.
pub fn build_movement(p: &MovementPrototype) -> (r: Result<Movement, SpawnError>)
    ensures
        r == build_movement_spec(*p),
        (r matches Ok(m) ==> m.inv()),
{
    match parse_movement_type(&p.movement_type) {
        None => Err(SpawnError::UnknownMovementType),
        Some(t) => {
            let m = Movement {
                movement_type: t,
                input_move: Fx2::zero(),
                input_rotation: 0,
                speed: p.speed,
                rotation_speed: p.rotation_speed,
                max_speed: p.max_speed,
                max_speed_backwards: p.max_speed_backwards,
                acceleration: p.acceleration,
                braking_acceleration: p.braking_acceleration,
                passive_deceleration: p.passive_deceleration,
                rotation_offset: p.rotation_offset,
                hand_brake: false,
            };
            if checks_inv(&m) {
                Ok(m)
            } else {
                Err(SpawnError::InvalidParameter)
            }
        },
    }
}

/// The first prototype of the given name, if any.
pub open spec fn lookup_spec(
    entries: Seq<(String, MovementPrototype)>,
    name: Seq<char>,
) -> Option<MovementPrototype>
    decreases entries.len(),
{
    if entries.len() == 0 {
        None
    } else if entries[0].0@ == name {
        Some(entries[0].1)
    } else {
        lookup_spec(entries.skip(1), name)
    }
}

/// What spawning from a named prototype yields: the validated initial
/// movement state, or the exact configuration fault.
pub open spec fn movement_from_prototype_spec(
    protos: Prototypes,
    name: Seq<char>,
) -> Result<Movement, SpawnError> {
    match lookup_spec(protos.entries@, name) {
        None => Err(SpawnError::UnknownPrototype),
        Some(p) => build_movement_spec(p),
    }
}

/// Look up a named prototype and build a unit's initial movement state
/// from it. Fails fast on any configuration fault.
pub fn movement_from_prototype(protos: &Prototypes, name: &String) -> (r: Result<
    Movement,
    SpawnError,
>)
    ensures
        r == movement_from_prototype_spec(*protos, name@),
        (r matches Ok(m) ==> m.inv()),
{
    let ghost all = protos.entries@;
    let n = protos.entries.len();
    let mut i: usize = 0;
    proof {
        assert(all.skip(0) =~= all);
    }
    while i < n
        invariant
            i <= n,
            n == all.len(),
            protos.entries@ == all,
            lookup_spec(all.skip(i as int), name@) == lookup_spec(all, name@),
        decreases n - i,
    {
        proof {
            assert(all.skip(i as int)[0] == all[i as int]);
            assert(all.skip(i as int).skip(1) =~= all.skip(i + 1));
        }
        let entry = &protos.entries[i];
        if entry.0 == *name {
            return build_movement(&entry.1);
        }
        i = i + 1;
    }
    proof {
        assert(all.skip(n as int) =~= Seq::<(String, MovementPrototype)>::empty());
    }
    Err(SpawnError::UnknownPrototype)
}

} // verus!
