use scriplets::bridge::{
    apply_command, apply_outcome, gps_snapshot, movement_snapshot, Command, HookOutcome,
};
use scriplets::clock::Clock;
use scriplets::fixed::{Fx2, FP_SCALE, PARAM_LIMIT};
use scriplets::integrator::Transform2;
use scriplets::movement::{Movement, MovementType};
use scriplets::scheduler::{run_script_phase, tick_clocks, UnitState, World};

fn steer_movement() -> Movement {
    Movement {
        movement_type: MovementType::AcceleratedSteering,
        input_move: Fx2 { x: 0, y: 0 },
        input_rotation: 0,
        speed: 0,
        rotation_speed: 90 * FP_SCALE,
        max_speed: 10 * FP_SCALE,
        max_speed_backwards: None,
        acceleration: 5 * FP_SCALE,
        braking_acceleration: None,
        passive_deceleration: 0,
        rotation_offset: 0,
        hand_brake: false,
    }
}

fn unit(movement: Option<Movement>) -> UnitState {
    UnitState {
        movement,
        transform: Transform2 { x: 0, y: 0, rot: 0 },
        clock: Clock { elapsed_micros: 0 },
    }
}

#[test]
fn gps_reports_negated_heading() {
    // an internal angle of 90 degrees reads back as -90 degrees
    let t = Transform2 { x: 7, y: -9, rot: 90 * FP_SCALE };
    let g = gps_snapshot(&t);
    assert_eq!(g.x, 7);
    assert_eq!(g.y, -9);
    assert_eq!(g.heading, -(90 * FP_SCALE));
}

#[test]
fn move_command_writes_intent() {
    let mut mv = Some(steer_movement());
    apply_command(&mut mv, &Command::Move { x: 10, y: -20 });
    assert_eq!(mv.unwrap().input_move, Fx2 { x: 10, y: -20 });
}

#[test]
fn move_command_saturates_at_band() {
    let mut mv = Some(steer_movement());
    apply_command(&mut mv, &Command::Move { x: i64::MAX, y: i64::MIN });
    assert_eq!(mv.unwrap().input_move, Fx2 { x: PARAM_LIMIT, y: -PARAM_LIMIT });
}

#[test]
fn commands_on_unit_without_movement_are_no_ops() {
    let mut mv: Option<Movement> = None;
    apply_command(&mut mv, &Command::Move { x: 1, y: 2 });
    apply_command(&mut mv, &Command::Rotate { angle: 3 });
    apply_command(&mut mv, &Command::ToggleHandBrake);
    assert!(mv.is_none());
}

#[test]
fn toggle_hand_brake_flips_and_persists() {
    let mut mv = Some(steer_movement());
    apply_command(&mut mv, &Command::ToggleHandBrake);
    assert!(mv.as_ref().unwrap().hand_brake);
    apply_command(&mut mv, &Command::ToggleHandBrake);
    assert!(!mv.as_ref().unwrap().hand_brake);
}

#[test]
fn fault_leaves_intent_unchanged() {
    let mut before = steer_movement();
    before.input_move = Fx2 { x: 55, y: 66 };
    before.input_rotation = 77;
    before.hand_brake = true;
    let mut mv = Some(before);
    apply_outcome(&mut mv, &HookOutcome::Fault);
    assert_eq!(mv, Some(before));
}

#[test]
fn commands_apply_in_order() {
    let mut mv = Some(steer_movement());
    apply_outcome(
        &mut mv,
        &HookOutcome::Commands(vec![
            Command::Move { x: 1, y: 1 },
            Command::Move { x: 9, y: 8 },
            Command::Rotate { angle: -4 },
        ]),
    );
    let m = mv.unwrap();
    assert_eq!(m.input_move, Fx2 { x: 9, y: 8 });
    assert_eq!(m.input_rotation, -4);
}

#[test]
fn script_fault_is_isolated_per_unit() {
    let mut faulted = steer_movement();
    faulted.input_move = Fx2 { x: 11, y: 12 };
    let mut w = World {
        units: vec![unit(Some(faulted)), unit(Some(steer_movement()))],
        game_clock: Clock { elapsed_micros: 0 },
    };
    let outcomes = vec![
        HookOutcome::Fault,
        HookOutcome::Commands(vec![Command::Move { x: 5, y: 0 }]),
    ];
    run_script_phase(&mut w, &outcomes);
    // the faulted unit's intent is bit-for-bit what it was before the call
    assert_eq!(w.units[0].movement, Some(faulted));
    // and the other unit's tick is unaffected by the fault
    assert_eq!(w.units[1].movement.unwrap().input_move, Fx2 { x: 5, y: 0 });
}

#[test]
fn movement_snapshot_reports_state() {
    let mut m = steer_movement();
    m.speed = 1234;
    m.hand_brake = true;
    let info = movement_snapshot(&Some(m)).expect("unit can move");
    assert_eq!(info.movement_type, MovementType::AcceleratedSteering);
    assert_eq!(info.speed, 1234);
    assert_eq!(info.max_speed, 10 * FP_SCALE);
    assert_eq!(info.acceleration, 5 * FP_SCALE);
    assert!(info.is_hand_brake_pulled);
}

#[test]
fn movement_snapshot_sentinel_without_movement() {
    assert!(movement_snapshot(&None).is_none());
}

#[test]
fn clocks_advance_before_scripts() {
    let mut w = World {
        units: vec![unit(None), unit(Some(steer_movement()))],
        game_clock: Clock { elapsed_micros: 40 },
    };
    tick_clocks(&mut w, 16_666);
    assert_eq!(w.units[0].clock.elapsed_micros, 16_666);
    assert_eq!(w.units[1].clock.elapsed_micros, 16_666);
    assert_eq!(w.game_clock.elapsed_micros, 16_706);
}

#[test]
fn clock_saturates_at_the_end_of_its_range() {
    let mut c = Clock { elapsed_micros: u64::MAX - 1 };
    c.tick(5);
    assert_eq!(c.elapsed_micros, u64::MAX);
}

#[test]
fn clock_whole_seconds() {
    let mut c = Clock::new();
    c.tick(2_500_000);
    assert_eq!(c.elapsed_secs(), 2);
}
