//! The rocket's controls: what one frame of key presses asks of the player's
//! rocket. The game runs the asked-for effects (despawning, staging, forces).
use vstd::prelude::*;

verus! {

/// The keys of one frame that steer the rocket. A `pressed` key went down in
/// this frame; a `held` key is down.
#[derive(Debug, Clone, Copy, PartialEq, Eq, Structural)]
pub struct RocketKeys {
    /// `M`: toggle the map view.
    pub map_pressed: bool,
    /// `R`: replace the rocket by a new one on the launch pad.
    pub reset_pressed: bool,
    /// `Enter`: separate the next stage.
    pub stage_pressed: bool,
    /// `A` or `←`: turn left.
    pub left_held: bool,
    /// `D` or `→`: turn right.
    pub right_held: bool,
    /// `Space`, `W` or `↑`: fire the main engine.
    pub thrust_held: bool,
}

/// What the rocket is asked to do in this frame.
#[derive(Debug, Clone, Copy, PartialEq, Eq, Structural)]
pub struct RocketControl {
    /// Switch the map view on or off.
    pub toggle_map: bool,
    /// Despawn the rocket and spawn a fresh one.
    pub reset: bool,
    /// Separate the next stage.
    pub stage: bool,
    /// Turning torque: `1` to the left, `-1` to the right, `0` none.
    pub torque: i8,
    /// Whether the engine runs at full throttle.
    pub throttle: bool,
    /// Lift off from the ground.
    pub takeoff: bool,
}

/// The torque the turning keys ask for; left wins when both are held.
pub open spec fn torque_of(keys: RocketKeys) -> i8 {
    if keys.left_held {
        1i8
    } else if keys.right_held {
        -1i8
    } else {
        0i8
    }
}

/// One frame of rocket controls. The map view toggles on `M` whatever else
/// happens. `R` resets the rocket and nothing else is done; a crashed rocket
/// takes no further orders; `Enter` separates a stage and ends the frame.
/// Otherwise the turning keys set the torque, the thrust keys (`Space`, `W`,
/// `↑`) set the throttle, and thrusting while landed lifts off. Whatever is
/// not decided keeps its value from `prev`.
pub fn rocket_controls(keys: RocketKeys, crashed: bool, landed: bool, prev: RocketControl) -> (r: RocketControl)
    ensures
        r.toggle_map == keys.map_pressed,
        r.reset == keys.reset_pressed,
        r.stage == (!keys.reset_pressed && !crashed && keys.stage_pressed),
        (keys.reset_pressed || crashed || keys.stage_pressed) ==> {
            &&& r.torque == prev.torque
            &&& r.throttle == prev.throttle
            &&& !r.takeoff
        },
        (!keys.reset_pressed && !crashed && !keys.stage_pressed) ==> {
            &&& r.torque == torque_of(keys)
            &&& r.throttle == keys.thrust_held
            &&& r.takeoff == (keys.thrust_held && landed)
        },
{
    let mut r = RocketControl {
        toggle_map: keys.map_pressed,
        reset: false,
        stage: false,
        torque: prev.torque,
        throttle: prev.throttle,
        takeoff: false,
    };
    if keys.reset_pressed {
        r.reset = true;
        return r;
    }
    if crashed {
        return r;
    }
    if keys.stage_pressed {
        r.stage = true;
        return r;
    }
    r.torque = if keys.left_held {
        1
    } else if keys.right_held {
        -1
    } else {
        0
    };
    r.throttle = keys.thrust_held;
    r.takeoff = keys.thrust_held && landed;
    r
}

/// What a part of a rocket is, as far as staging goes.
#[derive(Debug, Clone, Copy, PartialEq, Eq, Structural)]
pub enum PartKind {
    CommandPod,
    Decoupler,
    Engine { activated: bool },
    FuelTank,
}

/// What separating a stage does.
#[derive(Debug, Clone, Copy, PartialEq, Eq, Structural)]
pub enum StageStep {
    /// Fire the engine at this index.
    Ignite(usize),
    /// Split the rocket at the decoupler at this index.
    Separate(usize),
    /// Nothing is left to stage.
    Nothing,
}

/// A part that staging acts on: an engine not yet fired, or a decoupler.
pub open spec fn stageable(p: PartKind) -> bool {
    p == PartKind::Engine { activated: false } || p == PartKind::Decoupler
}

/// The next stage of a rocket whose parts are listed from the nose to the
/// tail: going from the tail up, the first engine not yet fired is fired, or
/// the rocket splits at the first decoupler, whichever comes first.
pub fn next_stage(parts: &Vec<PartKind>) -> (r: StageStep)
    ensures
        match r {
            StageStep::Ignite(i) => {
                &&& i < parts@.len()
                &&& parts@[i as int] == PartKind::Engine { activated: false }
                &&& forall|j: int| i < j < parts@.len() ==> !stageable(#[trigger] parts@[j])
            },
            StageStep::Separate(i) => {
                &&& i < parts@.len()
                &&& parts@[i as int] == PartKind::Decoupler
                &&& forall|j: int| i < j < parts@.len() ==> !stageable(#[trigger] parts@[j])
            },
            StageStep::Nothing => forall|j: int| 0 <= j < parts@.len() ==> !stageable(#[trigger] parts@[j]),
        },
{
    let mut i: usize = parts.len();
    while i > 0
        invariant
            i <= parts@.len(),
            forall|j: int| i <= j < parts@.len() ==> !stageable(#[trigger] parts@[j]),
        decreases i,
    {
        let k = i - 1;
        match parts[k] {
            PartKind::Engine { activated } => {
                if !activated {
                    return StageStep::Ignite(k);
                }
            },
            PartKind::Decoupler => {
                return StageStep::Separate(k);
            },
            _ => {},
        }
        i = k;
    }
    StageStep::Nothing
}

} // verus!
