//! A spaceship flown on fixed-point physics: rotation by angular velocity,
//! thrust that burns fuel, gravity and a damped spin.
use vstd::prelude::*;
use crate::physics::{Fixed, Vec2, fixed_mul, in_i64, mul_ok, scale, vec_of};

verus! {

/// Raw value of the turn rate `3.0`.
pub const TURN_RATE: i64 = 12884901888;

/// Raw value of the thrust power `100.0`.
pub const THRUST_POWER: i64 = 429496729600;

/// Raw value of the spin damping factor `0.95` (truncated from `0.95 * 2^32`).
pub const SPIN_DAMPING: i64 = 4080218931;

/// Whether the ship is in the air or resting on a surface.
#[derive(Debug, Clone, Copy, PartialEq, Eq, Structural)]
pub enum ShipState {
    Flying,
    Landed,
}

/// A ship: its motion, its heading (radians, fixed point) and its fuel (liters).
pub struct Spaceship {
    pub position: Vec2,
    pub velocity: Vec2,
    pub rotation: Fixed,
    pub fuel: i32,
    pub max_fuel: i32,
    pub state: ShipState,
    pub angular_velocity: Fixed,
}

/// `v + a * dt`, componentwise, on raw values.
pub open spec fn step_x(v: Vec2, a: Vec2, dt: Fixed) -> int {
    v.x.0 + fixed_mul(a.x.0 as int, dt.0 as int)
}

/// The `y` component of [`step_x`].
pub open spec fn step_y(v: Vec2, a: Vec2, dt: Fixed) -> int {
    v.y.0 + fixed_mul(a.y.0 as int, dt.0 as int)
}

/// `v + a * dt` stays representable.
pub open spec fn step_ok(v: Vec2, a: Vec2, dt: Fixed) -> bool {
    &&& mul_ok(a.x.0 as int, dt.0 as int)
    &&& mul_ok(a.y.0 as int, dt.0 as int)
    &&& in_i64(step_x(v, a, dt))
    &&& in_i64(step_y(v, a, dt))
}

/// `v + a * dt` as a vector.
pub open spec fn stepped(v: Vec2, a: Vec2, dt: Fixed) -> Vec2 {
    vec_of(step_x(v, a, dt), step_y(v, a, dt))
}

/// Whether `v + a * dt` fits ([`step_ok`]).
pub fn step_fits(v: Vec2, a: Vec2, dt: Fixed) -> (r: bool)
    ensures
        r == step_ok(v, a, dt),
{
    let sx = match a.x.checked_mul(dt) {
        Some(w) => w,
        None => return false,
    };
    let sy = match a.y.checked_mul(dt) {
        Some(w) => w,
        None => return false,
    };
    v.x.checked_add(sx).is_some() && v.y.checked_add(sy).is_some()
}

/// Adds `a * dt` to `v`.
fn advance(v: Vec2, a: Vec2, dt: Fixed) -> (r: Vec2)
    requires
        step_ok(v, a, dt),
    ensures
        r == stepped(v, a, dt),
{
    v.add(a.mul(dt))
}

/// The thrust acceleration for a unit heading `dir`: `dir * 100.0`.
pub open spec fn thrust_accel(dir: Vec2) -> Vec2 {
    vec_of(fixed_mul(dir.x.0 as int, THRUST_POWER as int), fixed_mul(dir.y.0 as int, THRUST_POWER as int))
}

impl Spaceship {
    /// The spin change `3.0 * dt` of one turn step.
    pub open spec fn turn_step(dt: Fixed) -> int {
        fixed_mul(TURN_RATE as int, dt.0 as int)
    }

    /// Everything of [`Spaceship::update`] stays representable.
    pub open spec fn update_ok(self, gravity: Vec2, dt: Fixed) -> bool {
        let v1 = stepped(self.velocity, gravity, dt);
        &&& step_ok(self.velocity, gravity, dt)
        &&& step_ok(self.position, v1, dt)
        &&& mul_ok(self.angular_velocity.0 as int, dt.0 as int)
        &&& in_i64(self.rotation.0 + fixed_mul(self.angular_velocity.0 as int, dt.0 as int))
        &&& mul_ok(self.angular_velocity.0 as int, SPIN_DAMPING as int)
    }

    /// A landed ship at `pos`, at rest, heading `0`, with a full tank of 1000 liters.
    pub fn new(pos: Vec2) -> (r: Spaceship)
        ensures
            r.position == pos,
            r.velocity.x.0 == 0 && r.velocity.y.0 == 0,
            r.rotation.0 == 0,
            r.fuel == 1000,
            r.max_fuel == 1000,
            r.state == ShipState::Landed,
            r.angular_velocity.0 == 0,
    {
        Spaceship {
            position: pos,
            velocity: Vec2::zero(),
            rotation: Fixed::from_i32(0),
            fuel: 1000,
            max_fuel: 1000,
            state: ShipState::Landed,
            angular_velocity: Fixed::from_i32(0),
        }
    }

    /// Spins up to the left: the angular velocity drops by `3.0 * dt`.
    pub fn rotate_left(&mut self, dt: Fixed)
        requires
            mul_ok(TURN_RATE as int, dt.0 as int),
            in_i64(old(self).angular_velocity.0 - 3 * dt.0),
        ensures
            final(self).angular_velocity.0 == old(self).angular_velocity.0 - 3 * dt.0,
            final(self).position == old(self).position,
            final(self).velocity == old(self).velocity,
            final(self).rotation == old(self).rotation,
            final(self).fuel == old(self).fuel,
            final(self).max_fuel == old(self).max_fuel,
            final(self).state == old(self).state,
    {
        proof {
            lemma_turn_step(dt);
        }
        self.angular_velocity = self.angular_velocity.sub(Fixed(TURN_RATE).mul(dt));
    }

    /// Spins up to the right: the angular velocity grows by `3.0 * dt`.
    pub fn rotate_right(&mut self, dt: Fixed)
        requires
            mul_ok(TURN_RATE as int, dt.0 as int),
            in_i64(old(self).angular_velocity.0 + 3 * dt.0),
        ensures
            final(self).angular_velocity.0 == old(self).angular_velocity.0 + 3 * dt.0,
            final(self).position == old(self).position,
            final(self).velocity == old(self).velocity,
            final(self).rotation == old(self).rotation,
            final(self).fuel == old(self).fuel,
            final(self).max_fuel == old(self).max_fuel,
            final(self).state == old(self).state,
    {
        proof {
            lemma_turn_step(dt);
        }
        self.angular_velocity = self.angular_velocity.add(Fixed(TURN_RATE).mul(dt));
    }

    /// Fires the engine along the unit heading `dir` (the ship's
    /// [direction vector](Spaceship::get_direction_vector)): with fuel left,
    /// the velocity gains `dir * 100.0 * dt`, one liter burns and the result
    /// is `true`; with an empty tank nothing changes and the result is `false`.
    pub fn apply_thrust(&mut self, dir: Vec2, dt: Fixed) -> (r: bool)
        requires
            old(self).fuel > 0 ==> {
                &&& mul_ok(dir.x.0 as int, THRUST_POWER as int)
                &&& mul_ok(dir.y.0 as int, THRUST_POWER as int)
                &&& step_ok(old(self).velocity, thrust_accel(dir), dt)
            },
        ensures
            r == (old(self).fuel > 0),
            r ==> final(self).velocity == stepped(old(self).velocity, thrust_accel(dir), dt),
            r ==> final(self).fuel == old(self).fuel - 1,
            old(self).fuel >= 0 ==> final(self).fuel >= 0,
            !r ==> final(self).velocity == old(self).velocity,
            !r ==> final(self).fuel == old(self).fuel,
            final(self).position == old(self).position,
            final(self).rotation == old(self).rotation,
            final(self).max_fuel == old(self).max_fuel,
            final(self).state == old(self).state,
            final(self).angular_velocity == old(self).angular_velocity,
    {
        if self.fuel <= 0 {
            return false;
        }
        let thrust_power = Fixed(THRUST_POWER);
        let accel = Vec2 { x: dir.x.mul(thrust_power), y: dir.y.mul(thrust_power) };
        self.velocity = advance(self.velocity, accel, dt);
        let burnt = self.fuel - 1;
        self.fuel = if burnt > 0 { burnt } else { 0 };
        true
    }

    /// Whether [`Spaceship::apply_thrust`] may fire along `dir` for `dt`:
    /// always with an empty tank; otherwise when the thrust and the new
    /// velocity fit.
    pub fn thrust_fits(&self, dir: Vec2, dt: Fixed) -> (r: bool)
        ensures
            r == (self.fuel > 0 ==> {
                &&& mul_ok(dir.x.0 as int, THRUST_POWER as int)
                &&& mul_ok(dir.y.0 as int, THRUST_POWER as int)
                &&& step_ok(self.velocity, thrust_accel(dir), dt)
            }),
    {
        if self.fuel <= 0 {
            return true;
        }
        let tp = Fixed(THRUST_POWER);
        let ax = match dir.x.checked_mul(tp) {
            Some(v) => v,
            None => return false,
        };
        let ay = match dir.y.checked_mul(tp) {
            Some(v) => v,
            None => return false,
        };
        let sx = match ax.checked_mul(dt) {
            Some(v) => v,
            None => return false,
        };
        let sy = match ay.checked_mul(dt) {
            Some(v) => v,
            None => return false,
        };
        self.velocity.x.checked_add(sx).is_some() && self.velocity.y.checked_add(sy).is_some()
    }

    /// Whether [`Spaceship::update`] can be computed: every step of it fits.
    pub fn update_fits(&self, gravity: Vec2, dt: Fixed) -> (r: bool)
        ensures
            r == self.update_ok(gravity, dt),
    {
        if !step_fits(self.velocity, gravity, dt) {
            return false;
        }
        let v1 = advance(self.velocity, gravity, dt);
        if !step_fits(self.position, v1, dt) {
            return false;
        }
        let turn = match self.angular_velocity.checked_mul(dt) {
            Some(w) => w,
            None => return false,
        };
        self.rotation.checked_add(turn).is_some() && self.angular_velocity.checked_mul(Fixed(SPIN_DAMPING)).is_some()
    }

    /// One physics step: gravity changes the velocity, the velocity moves the
    /// ship, the spin turns it, and the spin is damped by `0.95`.
    pub fn update(&mut self, gravity: Vec2, dt: Fixed)
        requires
            old(self).update_ok(gravity, dt),
        ensures
            final(self).velocity == stepped(old(self).velocity, gravity, dt),
            final(self).position == stepped(old(self).position, final(self).velocity, dt),
            final(self).rotation.0 == old(self).rotation.0 + fixed_mul(
                old(self).angular_velocity.0 as int,
                dt.0 as int,
            ),
            final(self).angular_velocity.0 == fixed_mul(
                old(self).angular_velocity.0 as int,
                SPIN_DAMPING as int,
            ),
            final(self).fuel == old(self).fuel,
            final(self).max_fuel == old(self).max_fuel,
            final(self).state == old(self).state,
    {
        self.velocity = advance(self.velocity, gravity, dt);
        self.position = advance(self.position, self.velocity, dt);
        self.rotation = self.rotation.add(self.angular_velocity.mul(dt));
        self.angular_velocity = self.angular_velocity.mul(Fixed(SPIN_DAMPING));
    }

    /// Tops up the tank by `amount`, never above `max_fuel`.
    pub fn refuel(&mut self, amount: i32)
        requires
            i32::MIN <= old(self).fuel + amount <= i32::MAX,
        ensures
            final(self).fuel == if old(self).fuel + amount < old(self).max_fuel {
                old(self).fuel + amount
            } else {
                old(self).max_fuel as int
            },
            final(self).fuel <= final(self).max_fuel,
            final(self).position == old(self).position,
            final(self).velocity == old(self).velocity,
            final(self).rotation == old(self).rotation,
            final(self).max_fuel == old(self).max_fuel,
            final(self).state == old(self).state,
            final(self).angular_velocity == old(self).angular_velocity,
    {
        let total = self.fuel + amount;
        self.fuel = if total < self.max_fuel { total } else { self.max_fuel };
    }
}

/// `3.0 * dt` is exactly three times `dt`.
proof fn lemma_turn_step(dt: Fixed)
    ensures
        Spaceship::turn_step(dt) == 3 * dt.0,
{
    assert(TURN_RATE as int * dt.0 == scale() * (3 * dt.0)) by (nonlinear_arith);
    vstd::arithmetic::div_mod::lemma_div_multiples_vanish(3 * dt.0, scale());
}

/// Turning left and then right by the same step leaves the spin as it was.
pub proof fn law_turns_cancel(ship: Spaceship, dt: Fixed)
    requires
        in_i64(ship.angular_velocity.0 - 3 * dt.0),
    ensures
        (ship.angular_velocity.0 - 3 * dt.0) + 3 * dt.0 == ship.angular_velocity.0,
{
}

/// A ship at rest, without spin and without gravity, stays where it is.
pub proof fn law_rest_stays(ship: Spaceship, dt: Fixed)
    requires
        ship.velocity.x.0 == 0 && ship.velocity.y.0 == 0,
        ship.angular_velocity.0 == 0,
    ensures
        ship.update_ok(vec_of(0, 0), dt),
        stepped(ship.velocity, vec_of(0, 0), dt) == vec_of(0, 0),
        stepped(ship.position, vec_of(0, 0), dt) == ship.position,
        ship.rotation.0 + fixed_mul(ship.angular_velocity.0 as int, dt.0 as int) == ship.rotation.0,
        fixed_mul(ship.angular_velocity.0 as int, SPIN_DAMPING as int) == 0,
{
    assert(fixed_mul(0, dt.0 as int) == 0);
    assert(fixed_mul(0, SPIN_DAMPING as int) == 0);
    assert(ship.position == vec_of(ship.position.x.0 as int, ship.position.y.0 as int));
}

} // verus!
