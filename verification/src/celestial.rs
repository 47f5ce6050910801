//! Planets and moons on fixed-point physics, and the orbit of a ship around
//! a body, estimated from its position and velocity.
use vstd::prelude::*;
use crate::physics::{
    FIXED_POINT_SCALE, Fixed, Vec2, div_ok, fixed_div, fixed_mul, fixed_sqrt, in_i64, lemma_fixed_sqrt_nonneg, lemma_unit_fits, lemma_div_neg_divisor,
    mul_ok, scale, vec_of,
};
use crate::spaceship::{step_fits, step_ok, stepped};

verus! {

/// Raw value of the gravitational parameter `0.0001` between bodies.
pub const BODY_GRAVITY: i64 = 429496;

/// Raw value of the gravitational parameter `0.00001` felt by ships.
pub const SHIP_GRAVITY: i64 = 42949;

/// A body in space: its motion, its size and its mass (relative units).
#[derive(Debug, Clone, Copy)]
pub struct CelestialBody {
    pub position: Vec2,
    pub velocity: Vec2,
    pub radius: Fixed,
    pub mass: Fixed,
    pub name: &'static str,
}

/// The strength `g * mass / dist^2` of a pull, on raw values.
pub open spec fn pull(g: int, mass: Fixed, dist: int) -> int {
    fixed_div(fixed_mul(g, mass.0 as int), fixed_mul(dist, dist))
}

/// [`pull`] can be computed without overflow or division by zero.
pub open spec fn pull_ok(g: int, mass: Fixed, dist: int) -> bool {
    &&& mul_ok(g, mass.0 as int)
    &&& mul_ok(dist, dist)
    &&& div_ok(fixed_mul(g, mass.0 as int), fixed_mul(dist, dist))
}

/// The pull towards `offset` of strength [`pull`]: the unit vector along
/// `offset` scaled by the strength.
pub open spec fn pull_vector(g: int, mass: Fixed, offset: Vec2) -> Vec2 {
    offset.unit().scaled(pull(g, mass, offset.mag()))
}

/// [`pull_vector`] can be computed without overflow or division by zero.
pub open spec fn pull_vector_ok(g: int, mass: Fixed, offset: Vec2) -> bool {
    &&& pull_ok(g, mass, offset.mag())
    &&& offset.unit().scale_ok(pull(g, mass, offset.mag()))
}

/// Computes [`pull_vector`].
fn pull_towards(g: Fixed, mass: Fixed, offset: Vec2, distance: Fixed) -> (r: Vec2)
    requires
        offset.mag_sq_ok(),
        distance.0 == offset.mag(),
        pull_vector_ok(g.0 as int, mass, offset),
    ensures
        r == pull_vector(g.0 as int, mass, offset),
{
    let strength = g.mul(mass).div(distance.mul(distance));
    let direction = offset.normalize();
    direction.mul(strength)
}

/// The pull of [`pull_towards`], or `None` where it cannot be computed
/// ([`pull_vector_ok`]).
fn checked_pull(g: Fixed, mass: Fixed, offset: Vec2, distance: Fixed) -> (r: Option<Vec2>)
    requires
        offset.mag_sq_ok(),
        distance.0 == offset.mag(),
    ensures
        r.is_some() == pull_vector_ok(g.0 as int, mass, offset),
        r matches Some(v) ==> v == pull_vector(g.0 as int, mass, offset),
{
    let gm = match g.checked_mul(mass) {
        Some(v) => v,
        None => return None,
    };
    let dd = match distance.checked_mul(distance) {
        Some(v) => v,
        None => return None,
    };
    let strength = match gm.checked_div(dd) {
        Some(v) => v,
        None => return None,
    };
    let direction = offset.normalize();
    let x = match direction.x.checked_mul(strength) {
        Some(v) => v,
        None => return None,
    };
    let y = match direction.y.checked_mul(strength) {
        Some(v) => v,
        None => return None,
    };
    Some(Vec2 { x, y })
}

impl CelestialBody {
    /// The vector from this body to the central one.
    pub open spec fn to_center(self, central: CelestialBody) -> Vec2 {
        Vec2::diff(self.position, central.position)
    }

    /// Everything of [`CelestialBody::update`] stays representable.
    pub open spec fn update_ok(self, dt: Fixed, central: CelestialBody) -> bool {
        let offset = self.to_center(central);
        let accel = pull_vector(BODY_GRAVITY as int, central.mass, offset);
        &&& Vec2::sub_ok(self.position, central.position)
        &&& offset.mag_sq_ok()
        &&& offset.mag() > 0 ==> {
            &&& pull_vector_ok(BODY_GRAVITY as int, central.mass, offset)
            &&& step_ok(self.velocity, accel, dt)
            &&& step_ok(self.position, stepped(self.velocity, accel, dt), dt)
        }
    }

    /// Everything of [`CelestialBody::gravity_at`] stays representable.
    pub open spec fn gravity_ok(self, point: Vec2) -> bool {
        let offset = Vec2::diff(point, self.position);
        &&& Vec2::sub_ok(point, self.position)
        &&& offset.mag_sq_ok()
        &&& offset.mag() > self.radius.0 ==> pull_vector_ok(SHIP_GRAVITY as int, self.mass, offset)
    }

    /// Whether [`CelestialBody::update`] can be computed: every step of it
    /// fits ([`CelestialBody::update_ok`]).
    pub fn update_fits(&self, dt: Fixed, central_mass: CelestialBody) -> (r: bool)
        ensures
            r == self.update_ok(dt, central_mass),
    {
        let to_center = match central_mass.position.checked_sub(self.position) {
            Some(v) => v,
            None => return false,
        };
        let distance = match to_center.checked_magnitude() {
            Some(v) => v,
            None => return false,
        };
        if distance.0 <= 0 {
            proof {
                lemma_fixed_sqrt_nonneg(to_center.mag_sq());
            }
            return true;
        }
        let accel = match checked_pull(Fixed(BODY_GRAVITY), central_mass.mass, to_center, distance) {
            Some(v) => v,
            None => return false,
        };
        if !step_fits(self.velocity, accel, dt) {
            return false;
        }
        let v1 = self.velocity.add(accel.mul(dt));
        assert(v1 == stepped(self.velocity, accel, dt));
        step_fits(self.position, v1, dt)
    }

    /// Whether [`CelestialBody::gravity_at`] can be computed: every step of
    /// it fits ([`CelestialBody::gravity_ok`]).
    pub fn gravity_fits(&self, point: Vec2) -> (r: bool)
        ensures
            r == self.gravity_ok(point),
    {
        let to_body = match self.position.checked_sub(point) {
            Some(v) => v,
            None => return false,
        };
        let distance = match to_body.checked_magnitude() {
            Some(v) => v,
            None => return false,
        };
        if distance.0 <= self.radius.0 {
            return true;
        }
        checked_pull(Fixed(SHIP_GRAVITY), self.mass, to_body, distance).is_some()
    }

    /// A body with the given motion, size, mass and name.
    pub fn new(pos: Vec2, vel: Vec2, radius: Fixed, mass: Fixed, name: &'static str) -> (r: CelestialBody)
        ensures
            r.position == pos,
            r.velocity == vel,
            r.radius == radius,
            r.mass == mass,
            r.name == name,
    {
        CelestialBody { position: pos, velocity: vel, radius, mass, name }
    }

    /// One step of the orbit around `central_mass`: unless the two centres
    /// coincide, the pull `0.0001 * mass / distance^2` towards the central
    /// body changes the velocity, and the velocity moves the body.
    pub fn update(&mut self, dt: Fixed, central_mass: CelestialBody)
        requires
            old(self).update_ok(dt, central_mass),
        ensures
            ({
                let offset = old(self).to_center(central_mass);
                let accel = pull_vector(BODY_GRAVITY as int, central_mass.mass, offset);
                if offset.mag() > 0 {
                    &&& final(self).velocity == stepped(old(self).velocity, accel, dt)
                    &&& final(self).position == stepped(old(self).position, final(self).velocity, dt)
                } else {
                    &&& final(self).velocity == old(self).velocity
                    &&& final(self).position == old(self).position
                }
            }),
            final(self).radius == old(self).radius,
            final(self).mass == old(self).mass,
            final(self).name == old(self).name,
    {
        let to_center = central_mass.position.sub(self.position);
        let distance = to_center.magnitude();
        if distance.0 > 0 {
            let acceleration = pull_towards(Fixed(BODY_GRAVITY), central_mass.mass, to_center, distance);
            self.velocity = self.velocity.add(acceleration.mul(dt));
            self.position = self.position.add(self.velocity.mul(dt));
        }
    }

    /// The pull `0.00001 * mass / distance^2` of this body on a ship at
    /// `point`, towards the body's centre; none inside the body (at a
    /// distance up to its radius).
    pub fn gravity_at(&self, point: Vec2) -> (r: Vec2)
        requires
            self.gravity_ok(point),
        ensures
            ({
                let offset = Vec2::diff(point, self.position);
                if offset.mag() <= self.radius.0 {
                    r.x.0 == 0 && r.y.0 == 0
                } else {
                    r == pull_vector(SHIP_GRAVITY as int, self.mass, offset)
                }
            }),
    {
        let to_body = self.position.sub(point);
        let distance = to_body.magnitude();
        if distance.0 <= self.radius.0 {
            Vec2::zero()
        } else {
            pull_towards(Fixed(SHIP_GRAVITY), self.mass, to_body, distance)
        }
    }

    /// Whether `point` is at surface altitude: every point counts as such;
    /// the game decides landings by itself.
    pub fn is_surface_altitude(point: Vec2, altitude: Fixed) -> (r: bool)
        ensures
            r,
    {
        true
    }
}

/// The shape of an orbit: its semi-major axis, eccentricity and the
/// distances of its nearest and farthest points.
pub struct Orbit {
    pub semi_major_axis: Fixed,
    pub eccentricity: Fixed,
    pub periapsis: Fixed,
    pub apoapsis: Fixed,
}

/// Specific orbital energy `v^2 / 2 - mu / r`, on raw values.
pub open spec fn orbit_energy(r_mag: int, v_mag: int, mu: int) -> int {
    fixed_div(fixed_mul(v_mag, v_mag), 2 * scale()) - fixed_div(mu, r_mag)
}

/// The semi-major axis `mu / (-2.0 * energy)`, or the distance itself for a
/// zero energy. It is negative for an escape (positive energy).
pub open spec fn orbit_sma(energy: int, r_mag: int, mu: int) -> int {
    if energy != 0 {
        fixed_div(mu, fixed_mul(energy, -2 * scale()))
    } else {
        r_mag
    }
}

/// The angular momentum `r * v` (an approximation).
pub open spec fn orbit_momentum(r_mag: int, v_mag: int) -> int {
    fixed_mul(r_mag, v_mag)
}

/// The squared eccentricity `1.0 + 2.0 * energy * h * h / (mu * mu)`.
pub open spec fn orbit_ecc_sq(energy: int, h: int, mu: int) -> int {
    scale() + fixed_div(
        fixed_mul(fixed_mul(fixed_mul(2 * scale(), energy), h), h),
        fixed_mul(mu, mu),
    )
}

/// The part of [`orbit_ok`] after a positive semi-major axis was found.
pub open spec fn orbit_tail_ok(r_mag: int, v_mag: int, mu: int, energy: int, sma: int) -> bool {
    let h = orbit_momentum(r_mag, v_mag);
    let t1 = fixed_mul(2 * scale(), energy);
    let t2 = fixed_mul(t1, h);
    let t3 = fixed_mul(t2, h);
    let ecc = fixed_sqrt(orbit_ecc_sq(energy, h, mu));
    &&& mul_ok(r_mag, v_mag)
    &&& mul_ok(h, h)
    &&& div_ok(fixed_mul(h, h), mu)
    &&& mul_ok(2 * scale(), energy)
    &&& mul_ok(t1, h)
    &&& mul_ok(t2, h)
    &&& mul_ok(mu, mu)
    &&& div_ok(t3, fixed_mul(mu, mu))
    &&& in_i64(orbit_ecc_sq(energy, h, mu))
    &&& orbit_ecc_sq(energy, h, mu) >= 0 ==> {
        &&& mul_ok(sma, scale() - ecc)
        &&& in_i64(scale() + ecc)
        &&& mul_ok(sma, scale() + ecc)
    }
}

/// The result of [`Orbit::from_state_vectors`] after a positive semi-major
/// axis was found.
pub open spec fn orbit_tail(r_mag: int, v_mag: int, mu: int, energy: int, sma: int) -> Option<Orbit> {
    let esq = orbit_ecc_sq(energy, orbit_momentum(r_mag, v_mag), mu);
    let ecc = fixed_sqrt(esq);
    if esq < 0 {
        None
    } else {
        Some(
            Orbit {
                semi_major_axis: Fixed(sma as i64),
                eccentricity: Fixed(ecc as i64),
                periapsis: Fixed(fixed_mul(sma, scale() - ecc) as i64),
                apoapsis: Fixed(fixed_mul(sma, scale() + ecc) as i64),
            },
        )
    }
}

/// Everything of [`Orbit::from_state_vectors`] stays representable and no
/// division by zero happens, along the path the inputs take.
pub open spec fn orbit_ok(pos: Vec2, vel: Vec2, central_position: Vec2, central_mass: Fixed) -> bool {
    let r = Vec2::diff(central_position, pos);
    let r_mag = r.mag();
    let v_mag = vel.mag();
    let mu = fixed_mul(SHIP_GRAVITY as int, central_mass.0 as int);
    let energy = orbit_energy(r_mag, v_mag, mu);
    let sma = orbit_sma(energy, r_mag, mu);
    &&& Vec2::sub_ok(central_position, pos)
    &&& r.mag_sq_ok()
    &&& vel.mag_sq_ok()
    &&& (r_mag != 0 && v_mag != 0) ==> {
        &&& mul_ok(SHIP_GRAVITY as int, central_mass.0 as int)
        &&& mul_ok(v_mag, v_mag)
        &&& div_ok(fixed_mul(v_mag, v_mag), 2 * scale())
        &&& div_ok(mu, r_mag)
        &&& in_i64(energy)
        &&& energy != 0 ==> {
            &&& mul_ok(energy, -2 * scale())
            &&& div_ok(mu, fixed_mul(energy, -2 * scale()))
        }
        &&& sma > 0 ==> orbit_tail_ok(r_mag, v_mag, mu, energy, sma)
    }
}

/// The orbit of a body at `pos` moving at `vel` around a centre of mass
/// `central_mass` at `central_position`, with `mu = 0.00001 * mass`; `None`
/// when it stands or sits on the centre, when the semi-major axis is not
/// positive, or when the squared eccentricity is negative.
pub open spec fn orbit_of(pos: Vec2, vel: Vec2, central_position: Vec2, central_mass: Fixed) -> Option<Orbit> {
    let r_mag = Vec2::diff(central_position, pos).mag();
    let v_mag = vel.mag();
    let mu = fixed_mul(SHIP_GRAVITY as int, central_mass.0 as int);
    let energy = orbit_energy(r_mag, v_mag, mu);
    let sma = orbit_sma(energy, r_mag, mu);
    if r_mag == 0 || v_mag == 0 {
        None
    } else if sma <= 0 {
        None
    } else {
        orbit_tail(r_mag, v_mag, mu, energy, sma)
    }
}

/// Whether the part of [`Orbit::from_state_vectors`] after a positive
/// semi-major axis can be computed ([`orbit_tail_ok`]).
fn orbit_tail_fits(r_mag: Fixed, v_mag: Fixed, mu: Fixed, energy: Fixed, sma: Fixed) -> (r: bool)
    ensures
        r == orbit_tail_ok(r_mag.0 as int, v_mag.0 as int, mu.0 as int, energy.0 as int, sma.0 as int),
{
    let h = match r_mag.checked_mul(v_mag) {
        Some(v) => v,
        None => return false,
    };
    let hh = match h.checked_mul(h) {
        Some(v) => v,
        None => return false,
    };
    if hh.checked_div(mu).is_none() {
        return false;
    }
    let t1 = match Fixed(2 * FIXED_POINT_SCALE).checked_mul(energy) {
        Some(v) => v,
        None => return false,
    };
    let t2 = match t1.checked_mul(h) {
        Some(v) => v,
        None => return false,
    };
    let t3 = match t2.checked_mul(h) {
        Some(v) => v,
        None => return false,
    };
    let mm = match mu.checked_mul(mu) {
        Some(v) => v,
        None => return false,
    };
    let q = match t3.checked_div(mm) {
        Some(v) => v,
        None => return false,
    };
    let esq = match Fixed(FIXED_POINT_SCALE).checked_add(q) {
        Some(v) => v,
        None => return false,
    };
    if esq.0 < 0 {
        return true;
    }
    let ecc = esq.sqrt();
    proof {
        lemma_fixed_sqrt_nonneg(esq.0 as int);
    }
    let one_minus = Fixed(FIXED_POINT_SCALE).sub(ecc);
    if sma.checked_mul(one_minus).is_none() {
        return false;
    }
    let one_plus = match Fixed(FIXED_POINT_SCALE).checked_add(ecc) {
        Some(v) => v,
        None => return false,
    };
    sma.checked_mul(one_plus).is_some()
}

/// Whether [`Orbit::from_state_vectors`] can be computed for these
/// arguments: every step of it fits ([`orbit_ok`]).
pub fn orbit_fits(pos: Vec2, vel: Vec2, central_position: Vec2, central_mass: Fixed) -> (r: bool)
    ensures
        r == orbit_ok(pos, vel, central_position, central_mass),
{
    let r = match pos.checked_sub(central_position) {
        Some(v) => v,
        None => return false,
    };
    let r_mag = match r.checked_magnitude() {
        Some(v) => v,
        None => return false,
    };
    let v_mag = match vel.checked_magnitude() {
        Some(v) => v,
        None => return false,
    };
    if r_mag.0 == 0 || v_mag.0 == 0 {
        return true;
    }
    let mu = match Fixed(SHIP_GRAVITY).checked_mul(central_mass) {
        Some(v) => v,
        None => return false,
    };
    let vv = match v_mag.checked_mul(v_mag) {
        Some(v) => v,
        None => return false,
    };
    let kinetic = match vv.checked_div(Fixed(2 * FIXED_POINT_SCALE)) {
        Some(v) => v,
        None => return false,
    };
    let potential = match mu.checked_div(r_mag) {
        Some(v) => v,
        None => return false,
    };
    let energy = match kinetic.checked_sub(potential) {
        Some(v) => v,
        None => return false,
    };
    let sma = if energy.0 != 0 {
        let d = match energy.checked_mul(Fixed(-2 * FIXED_POINT_SCALE)) {
            Some(v) => v,
            None => return false,
        };
        match mu.checked_div(d) {
            Some(v) => v,
            None => return false,
        }
    } else {
        r_mag
    };
    if sma.0 <= 0 {
        return true;
    }
    orbit_tail_fits(r_mag, v_mag, mu, energy, sma)
}

impl Orbit {
    /// Estimates the orbit from position and velocity; see [`orbit_of`].
    pub fn from_state_vectors(pos: Vec2, vel: Vec2, central_position: Vec2, central_mass: Fixed) -> (r: Option<Orbit>)
        requires
            orbit_ok(pos, vel, central_position, central_mass),
        ensures
            r == orbit_of(pos, vel, central_position, central_mass),
            r matches Some(o) ==> o.semi_major_axis.0 > 0 && o.eccentricity.0 >= 0,
    {
        let r = pos.sub(central_position);
        let r_mag = r.magnitude();
        let v_mag = vel.magnitude();
        if r_mag.0 == 0 || v_mag.0 == 0 {
            return None;
        }
        proof {
            lemma_fixed_sqrt_nonneg(r.mag_sq());
            lemma_fixed_sqrt_nonneg(vel.mag_sq());
        }
        let g = Fixed(SHIP_GRAVITY);
        let mu = g.mul(central_mass);
        let energy = v_mag.mul(v_mag).div(Fixed(2 * FIXED_POINT_SCALE)).sub(mu.div(r_mag));
        let sma = if energy.0 != 0 {
            mu.div(energy.mul(Fixed(-2 * FIXED_POINT_SCALE)))
        } else {
            r_mag
        };
        if sma.0 <= 0 {
            return None;
        }
        let h = r.magnitude().mul(v_mag);
        let _semi_latus = h.mul(h).div(mu);
        let e_squared = Fixed(FIXED_POINT_SCALE).add(
            Fixed(2 * FIXED_POINT_SCALE).mul(energy).mul(h).mul(h).div(mu.mul(mu)),
        );
        if e_squared.0 < 0 {
            return None;
        }
        let ecc = e_squared.sqrt();
        proof {
            lemma_fixed_sqrt_nonneg(e_squared.0 as int);
        }
        if ecc.0 < 0 {
            return None;
        }
        let periapsis = sma.mul(Fixed(FIXED_POINT_SCALE).sub(ecc));
        let apoapsis = sma.mul(Fixed(FIXED_POINT_SCALE).add(ecc));
        Some(Orbit { semi_major_axis: sma, eccentricity: ecc, periapsis, apoapsis })
    }

    /// Whether [`Orbit::get_position_at_time`] can be computed for these
    /// arguments: every step of it fits.
    pub fn position_fits(&self, current_pos: Vec2, central_pos: Vec2, progress: Fixed) -> (r: bool)
        ensures
            r == {
                &&& Vec2::sub_ok(central_pos, current_pos)
                &&& Vec2::diff(central_pos, current_pos).mag_sq_ok()
                &&& mul_ok(self.semi_major_axis.0 as int, progress.0 as int)
                &&& Vec2::diff(central_pos, current_pos).unit().scale_ok(
                    fixed_mul(self.semi_major_axis.0 as int, progress.0 as int),
                )
                &&& Vec2::add_ok(
                    central_pos,
                    Vec2::diff(central_pos, current_pos).unit().scaled(
                        fixed_mul(self.semi_major_axis.0 as int, progress.0 as int),
                    ),
                )
            },
    {
        let ghost off = Vec2::diff(central_pos, current_pos);
        let dx = match current_pos.x.checked_sub(central_pos.x) {
            Some(v) => v,
            None => return false,
        };
        let dy = match current_pos.y.checked_sub(central_pos.y) {
            Some(v) => v,
            None => return false,
        };
        assert(off.x == dx && off.y == dy);
        let xx = match dx.checked_mul(dx) {
            Some(v) => v,
            None => return false,
        };
        let yy = match dy.checked_mul(dy) {
            Some(v) => v,
            None => return false,
        };
        let sq = match xx.checked_add(yy) {
            Some(v) => v,
            None => return false,
        };
        let mag = sq.sqrt();
        proof {
            lemma_unit_fits(off);
        }
        let (ux, uy) = if mag.0 == 0 {
            (Fixed(0), Fixed(0))
        } else {
            let ux = match dx.checked_div(mag) {
                Some(v) => v,
                None => return false,
            };
            let uy = match dy.checked_div(mag) {
                Some(v) => v,
                None => return false,
            };
            (ux, uy)
        };
        assert(off.unit() == Vec2 { x: ux, y: uy });
        let d = match self.semi_major_axis.checked_mul(progress) {
            Some(v) => v,
            None => return false,
        };
        let ox = match ux.checked_mul(d) {
            Some(v) => v,
            None => return false,
        };
        let oy = match uy.checked_mul(d) {
            Some(v) => v,
            None => return false,
        };
        central_pos.x.checked_add(ox).is_some() && central_pos.y.checked_add(oy).is_some()
    }

    /// Where the body stands after moving `progress` (the fixed-point value
    /// of `0.1 * t`) semi-major axes straight out from the centre along its
    /// current direction: a linear stand-in for the true motion.
    pub fn get_position_at_time(&self, current_pos: Vec2, central_pos: Vec2, progress: Fixed) -> (r: Vec2)
        requires
            Vec2::sub_ok(central_pos, current_pos),
            Vec2::diff(central_pos, current_pos).mag_sq_ok(),
            mul_ok(self.semi_major_axis.0 as int, progress.0 as int),
            Vec2::diff(central_pos, current_pos).unit().scale_ok(
                fixed_mul(self.semi_major_axis.0 as int, progress.0 as int),
            ),
            Vec2::add_ok(
                central_pos,
                Vec2::diff(central_pos, current_pos).unit().scaled(
                    fixed_mul(self.semi_major_axis.0 as int, progress.0 as int),
                ),
            ),
        ensures
            ({
                let offset = Vec2::diff(central_pos, current_pos).unit().scaled(
                    fixed_mul(self.semi_major_axis.0 as int, progress.0 as int),
                );
                r == vec_of(central_pos.x.0 + offset.x.0, central_pos.y.0 + offset.y.0)
            }),
    {
        let direction = current_pos.sub(central_pos).normalize();
        let distance_traveled = self.semi_major_axis.mul(progress);
        central_pos.add(direction.mul(distance_traveled))
    }
}

/// An escape is no orbit: with a central mass that is not negative, a body
/// whose (fixed-point) specific energy is positive gets `None`, as its
/// semi-major axis `mu / (-2 * energy)` is not positive.
pub proof fn law_escape_has_no_orbit(pos: Vec2, vel: Vec2, central_position: Vec2, central_mass: Fixed)
    requires
        central_mass.0 >= 0,
        orbit_energy(
            Vec2::diff(central_position, pos).mag(),
            vel.mag(),
            fixed_mul(SHIP_GRAVITY as int, central_mass.0 as int),
        ) > 0,
    ensures
        orbit_of(pos, vel, central_position, central_mass) is None,
{
    let r_mag = Vec2::diff(central_position, pos).mag();
    let v_mag = vel.mag();
    let mu = fixed_mul(SHIP_GRAVITY as int, central_mass.0 as int);
    let energy = orbit_energy(r_mag, v_mag, mu);
    assert(SHIP_GRAVITY as int * central_mass.0 >= 0) by (nonlinear_arith)
        requires
            central_mass.0 >= 0,
            SHIP_GRAVITY == 42949,
    ;
    vstd::arithmetic::div_mod::lemma_div_pos_is_pos(SHIP_GRAVITY as int * central_mass.0, scale());
    assert(mu >= 0);
    let d = fixed_mul(energy, -2 * scale());
    assert(energy * (-2 * scale()) == (-2 * energy) * scale()) by (nonlinear_arith);
    vstd::arithmetic::div_mod::lemma_div_multiples_vanish(-2 * energy, scale());
    assert(d == -2 * energy);
    let a = mu * scale();
    assert(a >= 0) by (nonlinear_arith)
        requires
            a == mu * scale(),
            mu >= 0,
            scale() == 4294967296,
    ;
    lemma_div_neg_divisor(a, 2 * energy);
    vstd::arithmetic::div_mod::lemma_div_pos_is_pos(a, 2 * energy);
    assert(orbit_sma(energy, r_mag, mu) <= 0);
}

} // verus!
