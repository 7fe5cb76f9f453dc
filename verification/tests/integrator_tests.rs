use scriplets::fixed::{Fx2, FP_SCALE, FULL_TURN};
use scriplets::integrator::{omni_commit, omni_plan, steer_commit, steer_plan, Transform2};
use scriplets::movement::{Movement, MovementType};

const TPS: u32 = 60;

fn omni_movement() -> Movement {
    Movement {
        movement_type: MovementType::Omnidirectional,
        input_move: Fx2 { x: 0, y: 0 },
        input_rotation: 0,
        speed: 60 * FP_SCALE,
        rotation_speed: 90 * FP_SCALE,
        max_speed: 0,
        max_speed_backwards: None,
        acceleration: 0,
        braking_acceleration: None,
        passive_deceleration: 0,
        rotation_offset: 0,
        hand_brake: false,
    }
}

fn steer_movement() -> Movement {
    Movement {
        movement_type: MovementType::AcceleratedSteering,
        input_move: Fx2 { x: 0, y: 0 },
        input_rotation: 0,
        speed: 0,
        rotation_speed: 90 * FP_SCALE,
        max_speed: 10 * FP_SCALE,
        max_speed_backwards: None,
        acceleration: 5 * FP_SCALE,
        braking_acceleration: None,
        passive_deceleration: 0,
        rotation_offset: 0,
        hand_brake: false,
    }
}

fn origin() -> Transform2 {
    Transform2 { x: 0, y: 0, rot: 0 }
}

#[test]
fn omni_unit_step_into_open_space() {
    // one unit per second of travel speed at 60 ticks per second moves the
    // unit by exactly one unit along its facing
    let mut m = omni_movement();
    m.input_move = Fx2 { x: FP_SCALE, y: 0 };
    let mut t = origin();
    let plan = omni_plan(&m, &t, TPS);
    let local = plan.attempt.expect("a translation is planned");
    assert_eq!(local, Fx2 { x: FP_SCALE, y: 0 });
    // facing is zero, so the world-frame displacement equals the local one
    omni_commit(&mut m, &mut t, TPS, Some(local));
    assert_eq!(t.x, FP_SCALE);
    assert_eq!(t.y, 0);
}

#[test]
fn omni_unit_step_into_wall() {
    let mut m = omni_movement();
    m.input_move = Fx2 { x: FP_SCALE, y: 0 };
    let mut t = origin();
    let plan = omni_plan(&m, &t, TPS);
    assert!(plan.attempt.is_some());
    // the cast reports a hit: the displacement is discarded entirely
    omni_commit(&mut m, &mut t, TPS, None);
    assert_eq!(t.x, 0);
    assert_eq!(t.y, 0);
    // the intent is still spent
    assert_eq!(m.input_move, Fx2 { x: 0, y: 0 });
}

#[test]
fn intent_cleared_after_omni_tick() {
    let mut m = omni_movement();
    m.input_move = Fx2 { x: 1234, y: -77 };
    m.input_rotation = 999;
    let mut t = origin();
    omni_commit(&mut m, &mut t, TPS, None);
    assert_eq!(m.input_move, Fx2 { x: 0, y: 0 });
    assert_eq!(m.input_rotation, 0);
}

#[test]
fn intent_cleared_under_hand_brake() {
    let mut m = omni_movement();
    m.hand_brake = true;
    m.input_move = Fx2 { x: FP_SCALE, y: 0 };
    m.input_rotation = FP_SCALE;
    let mut t = origin();
    let plan = omni_plan(&m, &t, TPS);
    // the hand brake skips rotation and translation for the tick
    assert!(plan.attempt.is_none());
    assert_eq!(plan.new_rot, 0);
    omni_commit(&mut m, &mut t, TPS, None);
    assert_eq!(t, origin());
    assert_eq!(m.input_move, Fx2 { x: 0, y: 0 });
    assert_eq!(m.input_rotation, 0);
}

#[test]
fn intent_cleared_after_steer_tick() {
    let mut m = steer_movement();
    m.input_move = Fx2 { x: 500, y: 600 };
    m.input_rotation = 70;
    let mut t = origin();
    steer_commit(&mut m, &mut t, TPS, None);
    assert_eq!(m.input_move, Fx2 { x: 0, y: 0 });
    assert_eq!(m.input_rotation, 0);
}

#[test]
fn omni_rotation_sign_and_wrap() {
    let mut m = omni_movement();
    // full positive rotation command at 90 degrees per second over one tick
    // turns clockwise: the internal angle decreases, wrapping below zero
    m.input_rotation = FP_SCALE;
    let mut t = origin();
    let plan = omni_plan(&m, &t, TPS);
    let per_tick = 90 * FP_SCALE / 60;
    assert_eq!(plan.new_rot, FULL_TURN - per_tick);
    omni_commit(&mut m, &mut t, TPS, None);
    assert_eq!(t.rot, FULL_TURN - per_tick);
}

#[test]
fn steer_full_throttle_first_tick() {
    // acceleration of 60 units per second per second gains one unit per
    // second of speed in one tick at 60 ticks per second
    let mut m = steer_movement();
    m.acceleration = 60 * FP_SCALE;
    m.max_speed = 100 * FP_SCALE;
    m.input_move = Fx2 { x: FP_SCALE, y: 0 };
    let t = origin();
    let plan = steer_plan(&m, &t, TPS);
    assert_eq!(plan.new_speed, FP_SCALE);
}

#[test]
fn steer_speed_clamps_at_max() {
    let mut m = steer_movement();
    m.speed = m.max_speed;
    m.input_move = Fx2 { x: FP_SCALE, y: 0 };
    let mut t = origin();
    for _ in 0..5 {
        let plan = steer_plan(&m, &t, TPS);
        assert_eq!(plan.new_speed, m.max_speed);
        let arrived = Some(Fx2 {
            x: t.x + plan.motion.as_ref().unwrap().linear_delta,
            y: t.y,
        });
        steer_commit(&mut m, &mut t, TPS, arrived);
        m.input_move = Fx2 { x: FP_SCALE, y: 0 };
        assert_eq!(m.speed, m.max_speed);
    }
}

#[test]
fn hand_brake_drives_speed_to_zero_without_overshoot() {
    let mut m = steer_movement();
    m.speed = FP_SCALE;
    m.braking_acceleration = Some(10 * FP_SCALE);
    m.hand_brake = true;
    let mut t = origin();
    let mut previous = m.speed;
    while m.speed > 0 {
        m.input_move = Fx2 { x: FP_SCALE, y: 0 };
        let plan = steer_plan(&m, &t, TPS);
        let arrived = plan.motion.as_ref().map(|a| Fx2 { x: t.x + a.linear_delta, y: t.y });
        steer_commit(&mut m, &mut t, TPS, arrived);
        assert!(m.speed <= previous, "braking must not speed the unit up");
        assert!(m.speed >= 0, "braking must not overshoot past zero");
        previous = m.speed;
    }
    // at rest with no input the speed stays at zero
    m.input_move = Fx2 { x: 0, y: 0 };
    let plan = steer_plan(&m, &t, TPS);
    assert_eq!(plan.new_speed, 0);
    assert!(plan.motion.is_none());
}

#[test]
fn steer_blocked_keeps_speed_but_not_pose() {
    let mut m = steer_movement();
    m.input_move = Fx2 { x: FP_SCALE, y: 0 };
    let mut t = origin();
    steer_commit(&mut m, &mut t, TPS, None);
    // deceleration and acceleration persist even when blocked
    assert_eq!(m.speed, FP_SCALE / 12);
    assert_eq!(t, origin());
}

#[test]
fn three_ticks_forward_scenario() {
    // max_speed 10, acceleration 5, full forward input for 3 ticks at
    // 60 ticks per second in open space: speed ends at a quarter unit per
    // second and the unit moves forward monotonically every tick
    let mut m = steer_movement();
    let mut t = origin();
    let mut previous_x = t.x;
    let expected_speeds = [300, 600, 900];
    for tick in 0..3 {
        m.input_move = Fx2 { x: FP_SCALE, y: 0 };
        let plan = steer_plan(&m, &t, TPS);
        assert_eq!(plan.new_speed, expected_speeds[tick]);
        let arc = plan.motion.as_ref().expect("the unit is moving");
        // no steering input: the arc degenerates to a straight step along
        // the facing, which is the world x axis here
        assert_eq!(arc.turn, 0);
        let arrived = Some(Fx2 { x: t.x + arc.linear_delta, y: t.y });
        steer_commit(&mut m, &mut t, TPS, arrived);
        assert!(t.x > previous_x, "the unit moves forward every tick");
        previous_x = t.x;
    }
    assert_eq!(m.speed, 900);
    assert_eq!(m.speed, FP_SCALE / 4);
    assert_eq!(t.x, 5 + 10 + 15);
}

#[test]
fn steer_reverse_flips_turn_direction() {
    let mut m = steer_movement();
    m.max_speed_backwards = Some(10 * FP_SCALE);
    m.speed = -FP_SCALE;
    m.input_move = Fx2 { x: 0, y: FP_SCALE };
    let t = origin();
    let plan = steer_plan(&m, &t, TPS);
    let arc = plan.motion.as_ref().expect("still rolling backwards");
    // 90 degrees per second of turn rate over one tick, inverted in reverse
    assert_eq!(arc.turn, -(90 * FP_SCALE / 60));
}
