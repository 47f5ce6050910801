use ant_io::rocket::{next_stage, rocket_controls, PartKind, RocketControl, RocketKeys, StageStep};

fn keys() -> RocketKeys {
    RocketKeys {
        map_pressed: false,
        reset_pressed: false,
        stage_pressed: false,
        left_held: false,
        right_held: false,
        thrust_held: false,
    }
}

fn prev() -> RocketControl {
    RocketControl { toggle_map: true, reset: true, stage: true, torque: -1, throttle: true, takeoff: true }
}

#[test]
fn turning_and_thrust_keys_steer() {
    let r = rocket_controls(RocketKeys { left_held: true, thrust_held: true, ..keys() }, false, false, prev());
    assert_eq!(r, RocketControl { toggle_map: false, reset: false, stage: false, torque: 1, throttle: true, takeoff: false });
    let r = rocket_controls(RocketKeys { right_held: true, ..keys() }, false, true, prev());
    assert_eq!((r.torque, r.throttle, r.takeoff), (-1, false, false));
    // left wins when both are held
    let r = rocket_controls(RocketKeys { left_held: true, right_held: true, ..keys() }, false, false, prev());
    assert_eq!(r.torque, 1);
    let r = rocket_controls(keys(), false, false, prev());
    assert_eq!((r.torque, r.throttle), (0, false));
}

#[test]
fn thrusting_while_landed_takes_off() {
    let r = rocket_controls(RocketKeys { thrust_held: true, ..keys() }, false, true, prev());
    assert!(r.takeoff && r.throttle);
}

#[test]
fn map_toggles_whatever_happens() {
    let r = rocket_controls(RocketKeys { map_pressed: true, reset_pressed: true, ..keys() }, true, false, prev());
    assert!(r.toggle_map && r.reset);
}

#[test]
fn reset_stops_the_frame() {
    let r = rocket_controls(RocketKeys { reset_pressed: true, thrust_held: true, left_held: true, ..keys() }, false, true, prev());
    assert_eq!(r, RocketControl { toggle_map: false, reset: true, stage: false, torque: -1, throttle: true, takeoff: false });
}

#[test]
fn crashed_rocket_takes_no_orders() {
    let r = rocket_controls(RocketKeys { stage_pressed: true, thrust_held: true, left_held: true, ..keys() }, true, true, prev());
    assert_eq!(r, RocketControl { toggle_map: false, reset: false, stage: false, torque: -1, throttle: true, takeoff: false });
}

#[test]
fn space_fires_the_engine() {
    let off = RocketControl { throttle: false, ..prev() };
    // Space, W and the up arrow all land in `thrust_held`
    let r = rocket_controls(RocketKeys { thrust_held: true, ..keys() }, false, false, off);
    assert!(r.throttle && !r.stage && !r.takeoff);
    let r = rocket_controls(RocketKeys { thrust_held: true, ..keys() }, false, true, off);
    assert!(r.throttle && r.takeoff);
}

#[test]
fn enter_separates_a_stage() {
    let r = rocket_controls(RocketKeys { stage_pressed: true, thrust_held: true, ..keys() }, false, true, prev());
    assert_eq!(r, RocketControl { toggle_map: false, reset: false, stage: true, torque: -1, throttle: true, takeoff: false });
}

#[test]
fn staging_goes_from_the_tail_up() {
    let rocket = vec![
        PartKind::CommandPod,
        PartKind::FuelTank,
        PartKind::Engine { activated: false },
        PartKind::Decoupler,
        PartKind::FuelTank,
        PartKind::Engine { activated: false },
    ];
    // the lowest engine fires first
    assert_eq!(next_stage(&rocket), StageStep::Ignite(5));
    let mut rocket = rocket;
    rocket[5] = PartKind::Engine { activated: true };
    // then the rocket splits at the decoupler above it
    assert_eq!(next_stage(&rocket), StageStep::Separate(3));
    rocket.truncate(3);
    assert_eq!(next_stage(&rocket), StageStep::Ignite(2));
    rocket[2] = PartKind::Engine { activated: true };
    assert_eq!(next_stage(&rocket), StageStep::Nothing);
    assert_eq!(next_stage(&Vec::new()), StageStep::Nothing);
}
