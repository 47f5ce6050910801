use ant_io::celestial::{CelestialBody, Orbit};
use ant_io::physics::{Fixed, Vec2};
use ant_io::spaceship::{ShipState, Spaceship};

const ONE: i64 = 1 << 32;

fn fx(n: i32) -> Fixed {
    Fixed::from_i32(n)
}

fn raw(x: i64, y: i64) -> Vec2 {
    Vec2::new(Fixed(x), Fixed(y))
}

#[test]
fn from_i32_shifts_into_the_integer_part() {
    assert_eq!(fx(3).0, 3 * ONE);
    assert_eq!(fx(-2).0, -2 * ONE);
    assert_eq!(fx(0).0, 0);
}

#[test]
fn to_i32_rounds_down() {
    assert_eq!(fx(7).to_i32(), 7);
    assert_eq!(Fixed(ONE + ONE / 2).to_i32(), 1);
    assert_eq!(Fixed(-ONE / 2).to_i32(), -1);
    assert_eq!(Fixed(-1).to_i32(), -1);
}

#[test]
fn int_roundtrip_law() {
    for n in [-100000, -7, -1, 0, 1, 2, 12345, i32::MAX, i32::MIN] {
        assert_eq!(fx(n).to_i32(), n);
    }
}

#[test]
fn abs_of_negative_and_positive() {
    assert_eq!(fx(-5).abs().0, 5 * ONE);
    assert_eq!(fx(5).abs().0, 5 * ONE);
    assert_eq!(Fixed(0).abs().0, 0);
}

#[test]
fn sqrt_takes_the_root_of_the_fixed_point_value() {
    // The raw result is floor(sqrt(raw * 2^32)).
    assert_eq!(fx(4).sqrt().0, 2 * ONE);
    assert_eq!(fx(1).sqrt().0, ONE);
    assert_eq!(fx(25).sqrt().0, 5 * ONE);
    assert_eq!(Fixed(ONE / 4).sqrt().0, ONE / 2);
    assert_eq!(fx(2).sqrt().0, 6074000999);
    assert_eq!(Fixed(1).sqrt().0, 1 << 16);
    assert_eq!(Fixed(25).sqrt().0, 327680);
    assert_eq!(Fixed(0).sqrt().0, 0);
    assert_eq!(Fixed(-5).sqrt().0, 0);
    assert_eq!(Fixed(i64::MAX).sqrt().0, 199032864766430);
}

#[test]
fn sqrt_monotonic_law() {
    let samples = [-3i64, 0, 1, 2, 3, 10, 1000, ONE, 5 * ONE, (1 << 62) - 1, 1 << 62, i64::MAX];
    assert!(samples.windows(2).all(|w| w[0] <= w[1]));
    for w in samples.windows(2) {
        assert!(Fixed(w[0]).sqrt().0 <= Fixed(w[1]).sqrt().0);
    }
}

#[test]
fn mul_i32_scales_the_raw_value() {
    assert_eq!(fx(3).mul_i32(-4).0, -12 * ONE);
    assert_eq!(Fixed(5).mul_i32(3).0, 15);
}

#[test]
fn add_and_sub() {
    assert_eq!(fx(3).add(fx(4)).0, 7 * ONE);
    assert_eq!(fx(3).sub(fx(4)).0, -ONE);
}

#[test]
fn mul_keeps_the_fractional_scale() {
    assert_eq!(Fixed(ONE / 2).mul(Fixed(ONE / 2)).0, ONE / 4);
    assert_eq!(Fixed(3 << 16).mul(Fixed(2 << 16)).0, 6);
    assert_eq!(Fixed(-(ONE / 2)).mul(Fixed(ONE / 4)).0, -(ONE / 8));
    // the raw product is shifted, rounding toward negative infinity
    assert_eq!(Fixed(-1).mul(Fixed(1)).0, -1);
    // the full-width product does not overflow where the result fits
    assert_eq!(fx(2).mul(fx(3)).0, 6 * ONE);
    assert_eq!(fx(-1000).mul(fx(1000)).0, -1000000 * ONE);
    assert_eq!(fx(100).mul(Fixed(ONE / 10)).0, 100 * (ONE / 10));
}

#[test]
fn div_keeps_the_fractional_scale() {
    assert_eq!(fx(6).div(fx(3)).0, 2 * ONE);
    assert_eq!(fx(6).div(fx(2)).0, 3 * ONE);
    assert_eq!(fx(1).div(fx(4)).0, ONE / 4);
    assert_eq!(Fixed(3).div(Fixed(2)).0, 3 << 31);
    assert_eq!(Fixed(-7).div(Fixed(2)).0, -7 * (1 << 31));
    assert_eq!(Fixed(1).div(fx(4)).0, 0);
    assert_eq!(Fixed(ONE / 2).div(Fixed(ONE)).0, ONE / 2);
    assert_eq!(fx(-1000).div(Fixed(ONE / 2)).0, -2000 * ONE);
    // the quotient is truncated toward zero
    assert_eq!(Fixed(-1).div(Fixed(3 * ONE)).0, 0);
    assert_eq!(fx(1).div(fx(3)).0, 1431655765);
    assert_eq!(fx(-1).div(fx(3)).0, -1431655765);
}

#[test]
fn fixed_laws_on_values() {
    let a = Fixed(123456789);
    let b = Fixed(-3 << 20);
    assert_eq!(a.add(b).sub(b), a);
    assert_eq!(a.mul(fx(1)), a);
    assert_eq!(a.mul(b), b.mul(a));
}

#[test]
fn vector_operations() {
    assert_eq!(Vec2::zero().x.0, 0);
    assert_eq!(Vec2::zero().y.0, 0);
    assert_eq!(raw(3 << 16, 4 << 16).magnitude_squared().0, 25);
    assert_eq!(raw(3 << 16, 4 << 16).dot(raw(2 << 16, -1 << 16)).0, 2);
    let s = raw(1, 2).add(raw(3, 4));
    assert_eq!((s.x.0, s.y.0), (4, 6));
    let d = raw(1, 2).sub(raw(3, 4));
    assert_eq!((d.x.0, d.y.0), (-2, -2));
    let m = raw(1 << 16, -(2 << 16)).mul(Fixed(3 << 16));
    assert_eq!((m.x.0, m.y.0), (3, -6));
    let m2 = Fixed(2 << 16).mul_vec2(raw(1 << 16, 5 << 16));
    assert_eq!((m2.x.0, m2.y.0), (2, 10));
}

#[test]
fn magnitude_and_distance() {
    assert_eq!(raw(3 << 28, 4 << 28).magnitude().0, 5 << 28);
    assert_eq!(raw(3 * ONE, 4 * ONE).magnitude().0, 5 * ONE);
    assert_eq!(raw(3 << 16, 4 << 16).magnitude().0, 5 << 16);
    assert_eq!(raw(3, 4).magnitude().0, 0);
    assert_eq!(raw(1 << 16, 1 << 16).distance_to(raw(1 << 16, 1 << 16)).0, 0);
    assert_eq!(raw(0, 0).distance_to(raw(3 * ONE, 4 * ONE)).0, 5 * ONE);
    assert_eq!(raw(ONE, ONE).distance_to(raw(-2 * ONE, 5 * ONE)).0, 5 * ONE);
}

#[test]
fn dot_symmetric_law() {
    let a = raw(987654, -(2 << 20));
    let b = raw(3 << 20, -55555);
    assert_eq!(a.dot(b), b.dot(a));
}

#[test]
fn normalize_zero_and_nonzero() {
    let z = Vec2::zero().normalize();
    assert_eq!((z.x.0, z.y.0), (0, 0));
    // squared length of raw (4, 0) is zero: the zero vector comes back
    let n = raw(4, 0).normalize();
    assert_eq!((n.x.0, n.y.0), (0, 0));
    // a unit vector comes out
    let u = raw(1 << 16, 0).normalize();
    assert_eq!((u.x.0, u.y.0), (ONE, 0));
    let v = raw(3 << 28, 4 << 28).normalize();
    assert_eq!((v.x.0, v.y.0), (2576980377, 3435973836));
    let w = raw(-30 * ONE, 40 * ONE).normalize();
    assert_eq!((w.x.0, w.y.0), (-2576980377, 3435973836));
}

#[test]
fn new_ship_is_landed_and_full() {
    let ship = Spaceship::new(raw(10 * ONE, 20 * ONE));
    assert_eq!(ship.position.x.0, 10 * ONE);
    assert_eq!(ship.position.y.0, 20 * ONE);
    assert_eq!(ship.velocity.x.0, 0);
    assert_eq!(ship.velocity.y.0, 0);
    assert_eq!(ship.rotation.0, 0);
    assert_eq!(ship.fuel, 1000);
    assert_eq!(ship.max_fuel, 1000);
    assert_eq!(ship.state, ShipState::Landed);
    assert_eq!(ship.angular_velocity.0, 0);
}

#[test]
fn turning_changes_the_spin_by_three_times_dt() {
    let mut ship = Spaceship::new(raw(0, 0));
    let dt = Fixed(ONE / 60);
    ship.rotate_left(dt);
    assert_eq!(ship.angular_velocity.0, -3 * (ONE / 60));
    ship.rotate_right(dt);
    assert_eq!(ship.angular_velocity.0, 0);
    ship.rotate_right(Fixed(ONE / 10));
    assert_eq!(ship.angular_velocity.0, 3 * (ONE / 10));
    assert_eq!(ship.fuel, 1000);
}

#[test]
fn thrust_burns_a_liter_and_accelerates() {
    let mut ship = Spaceship::new(raw(0, 0));
    let dt = Fixed(ONE / 10);
    let fired = ship.apply_thrust(raw(1 << 20, 0), dt);
    assert!(fired);
    assert_eq!(ship.fuel, 999);
    // 100.0 * dir * dt: raw 100 * 2^20, times 0.1 rounded down
    assert_eq!(ship.velocity.x.0, ((100i64 << 20) * (ONE / 10)) >> 32);
    assert_eq!(ship.velocity.x.0, 10485759);
    assert_eq!(ship.velocity.y.0, 0);
    assert_eq!(ship.position.x.0, 0);
}

#[test]
fn thrust_along_a_unit_heading() {
    let mut ship = Spaceship::new(raw(0, 0));
    let dt = Fixed(ONE / 10);
    assert!(ship.apply_thrust(raw(ONE, 0), dt));
    // 100.0 * 1.0 * 0.1, with 0.1 truncated to raw 429496729
    assert_eq!(ship.velocity.x.0, 42949672900);
    assert_eq!(ship.velocity.y.0, 0);
    assert_eq!(ship.fuel, 999);
    assert!(ship.apply_thrust(raw(0, -ONE), dt));
    assert_eq!(ship.velocity.y.0, -42949672900);
    assert_eq!(ship.fuel, 998);
}

#[test]
fn thrust_with_an_empty_tank_does_nothing() {
    let mut ship = Spaceship::new(raw(0, 0));
    ship.fuel = 0;
    let fired = ship.apply_thrust(raw(1 << 20, 0), Fixed(ONE / 10));
    assert!(!fired);
    assert_eq!(ship.fuel, 0);
    assert_eq!(ship.velocity.x.0, 0);
    ship.fuel = 1;
    assert!(ship.apply_thrust(raw(1 << 20, 0), Fixed(ONE / 10)));
    assert_eq!(ship.fuel, 0);
}

#[test]
fn update_moves_turns_and_damps() {
    let mut ship = Spaceship::new(raw(0, 0));
    ship.velocity = raw(1 << 20, 0);
    ship.angular_velocity = Fixed(ONE / 4);
    let dt = Fixed(ONE / 2);
    ship.update(raw(0, -(1 << 20)), dt);
    assert_eq!(ship.velocity.x.0, 1 << 20);
    assert_eq!(ship.velocity.y.0, -(1 << 19));
    assert_eq!(ship.position.x.0, 1 << 19);
    assert_eq!(ship.position.y.0, -(1 << 18));
    assert_eq!(ship.rotation.0, ONE / 8);
    assert_eq!(ship.angular_velocity.0, ((ONE / 4) * 4080218931) >> 32);
}

#[test]
fn ship_at_rest_stays_law() {
    let mut ship = Spaceship::new(raw(5 * ONE, 6 * ONE));
    ship.update(Vec2::zero(), Fixed(ONE / 60));
    assert_eq!(ship.position.x.0, 5 * ONE);
    assert_eq!(ship.position.y.0, 6 * ONE);
    assert_eq!(ship.velocity.x.0, 0);
    assert_eq!(ship.rotation.0, 0);
    assert_eq!(ship.angular_velocity.0, 0);
}

#[test]
fn turns_cancel_law() {
    let mut ship = Spaceship::new(raw(0, 0));
    ship.angular_velocity = Fixed(12345);
    ship.rotate_left(Fixed(ONE / 30));
    ship.rotate_right(Fixed(ONE / 30));
    assert_eq!(ship.angular_velocity.0, 12345);
}

#[test]
fn refuel_caps_at_the_tank_size() {
    let mut ship = Spaceship::new(raw(0, 0));
    ship.fuel = 500;
    ship.refuel(10);
    assert_eq!(ship.fuel, 510);
    ship.refuel(1000);
    assert_eq!(ship.fuel, 1000);
    ship.refuel(-30);
    assert_eq!(ship.fuel, 970);
}

fn planet() -> CelestialBody {
    CelestialBody::new(raw(0, 0), raw(0, 0), fx(10), fx(1000), "Earth")
}

#[test]
fn body_keeps_what_it_was_made_of() {
    let b = planet();
    assert_eq!(b.radius.0, 10 * ONE);
    assert_eq!(b.mass.0, 1000 * ONE);
    assert_eq!(b.name, "Earth");
    assert_eq!(b.position.x.0, 0);
}

#[test]
fn no_gravity_inside_a_body() {
    let b = planet();
    // raw offset (2^16, 0) has length 1.0, within the radius 10.0
    let g = b.gravity_at(raw(1 << 16, 0));
    assert_eq!((g.x.0, g.y.0), (0, 0));
    let g = b.gravity_at(raw(0, 0));
    assert_eq!((g.x.0, g.y.0), (0, 0));
}

#[test]
fn gravity_outside_a_body_pulls_toward_it() {
    let b = planet();
    // 0.00001 * 1000 / 20^2 = 0.000025, raw 107372 (rounded down on the way)
    let g = b.gravity_at(raw(20 * ONE, 0));
    assert_eq!((g.x.0, g.y.0), (-107372, 0));
    let g = b.gravity_at(raw(0, -20 * ONE));
    assert_eq!((g.x.0, g.y.0), (0, 107372));
    // at the radius itself there is still no pull
    let g = b.gravity_at(raw(10 * ONE, 0));
    assert_eq!((g.x.0, g.y.0), (0, 0));
}

#[test]
fn body_update_pulls_and_moves() {
    let mut moon = CelestialBody::new(raw(10 * ONE, 0), raw(0, ONE), fx(1), fx(10), "Moon");
    moon.update(Fixed(ONE / 10), planet());
    // pull 0.0001 * 1000 / 10^2 = 0.001, raw 4294960, toward the planet
    assert_eq!((moon.velocity.x.0, moon.velocity.y.0), (-429496, ONE));
    assert_eq!((moon.position.x.0, moon.position.y.0), (42949630010, 429496729));
    assert_eq!(moon.mass.0, 10 * ONE);
}

#[test]
fn body_update_on_the_centre_does_nothing() {
    let mut moon = CelestialBody::new(raw(0, 0), raw(ONE, 0), fx(1), fx(10), "Moon");
    moon.update(Fixed(ONE / 10), planet());
    assert_eq!(moon.position.x.0, 0);
    assert_eq!(moon.velocity.x.0, ONE);
    assert_eq!(moon.name, "Moon");
}

#[test]
fn every_point_counts_as_surface_altitude() {
    assert!(CelestialBody::is_surface_altitude(raw(1, 2), fx(3)));
}

#[test]
fn no_orbit_at_the_centre_or_at_rest() {
    assert!(Orbit::from_state_vectors(raw(0, 0), raw(1 << 16, 0), raw(0, 0), fx(100)).is_none());
    assert!(Orbit::from_state_vectors(raw(1 << 16, 0), raw(0, 0), raw(0, 0), fx(100)).is_none());
    // a raw offset this small has no length
    assert!(Orbit::from_state_vectors(raw(3, 4), raw(1 << 16, 0), raw(0, 0), fx(100)).is_none());
}

#[test]
fn bound_orbit_is_estimated() {
    // at distance 1.0 moving at 0.25 around mu = 0.00001 * 25000: energy < 0
    let o = Orbit::from_state_vectors(raw(ONE, 0), raw(0, 1 << 30), raw(0, 0), fx(25000)).unwrap();
    assert_eq!(o.semi_major_axis.0, 2454272519);
    assert_eq!(o.eccentricity.0, 3221208647);
    assert_eq!(o.periapsis.0, 613577744);
    assert_eq!(o.apoapsis.0, 4294967293);
    let f = |x: Fixed| x.0 as f64 / ONE as f64;
    assert!((f(o.semi_major_axis) - 4.0 / 7.0).abs() < 1e-4);
    assert!((f(o.eccentricity) - 0.75).abs() < 1e-4);
    assert!((f(o.periapsis) - 1.0 / 7.0).abs() < 1e-4);
    assert!((f(o.apoapsis) - 1.0).abs() < 1e-4);
}

#[test]
fn escape_orbit_is_refused() {
    // moving at 1.0 the energy is positive: the semi-major axis is negative
    assert!(Orbit::from_state_vectors(raw(ONE, 0), raw(0, ONE), raw(0, 0), fx(25000)).is_none());
}

#[test]
fn position_along_the_orbit() {
    let o = Orbit {
        semi_major_axis: Fixed(1 << 20),
        eccentricity: Fixed(0),
        periapsis: Fixed(1 << 20),
        apoapsis: Fixed(1 << 20),
    };
    let p = o.get_position_at_time(raw(1 << 16, 0), raw(0, 0), Fixed(1 << 30));
    assert_eq!((p.x.0, p.y.0), (1 << 18, 0));
    let p = o.get_position_at_time(raw(0, -5 * ONE), raw(ONE, ONE), Fixed(ONE));
    // direction (-1, -6) normalised, scaled by the semi-major axis
    assert!(p.x.0 < ONE && p.y.0 < ONE);
    let q = o.get_position_at_time(raw(7, 9), raw(7, 9), Fixed(1 << 30));
    assert_eq!((q.x.0, q.y.0), (7, 9));
}

#[test]
fn fits_checks_tell_when_a_step_can_be_computed() {
    let b = planet();
    assert!(b.gravity_fits(raw(20 * ONE, 0)));
    assert!(b.gravity_fits(raw(ONE, 0)));
    // a squared distance of 2^31 does not fit
    assert!(!b.gravity_fits(raw(1 << 62, 0)));
    let moon = CelestialBody::new(raw(10 * ONE, 0), raw(0, ONE), fx(1), fx(10), "Moon");
    assert!(moon.update_fits(Fixed(ONE / 10), planet()));
    let far = CelestialBody::new(raw(i64::MAX, 0), raw(0, ONE), fx(1), fx(10), "Far");
    assert!(!far.update_fits(Fixed(ONE / 10), planet()));
    assert!(ant_io::celestial::orbit_fits(raw(ONE, 0), raw(0, 1 << 30), raw(0, 0), fx(25000)));
    assert!(!ant_io::celestial::orbit_fits(raw(i64::MAX, 0), raw(0, 1 << 30), raw(0, 0), fx(25000)));
    let ship = Spaceship::new(raw(0, 0));
    assert!(ship.update_fits(raw(0, -ONE), Fixed(ONE / 60)));
    assert!(!ship.update_fits(raw(0, i64::MIN), Fixed(2 * ONE)));
    assert!(ship.thrust_fits(raw(ONE, 0), Fixed(ONE / 10)));
}

#[test]
fn checked_operations() {
    assert_eq!(fx(2).checked_mul(fx(3)), Some(fx(6)));
    assert_eq!(fx(1 << 20).checked_mul(fx(1 << 20)), None);
    assert_eq!(fx(6).checked_div(fx(3)), Some(fx(2)));
    assert_eq!(fx(6).checked_div(Fixed(0)), None);
    assert_eq!(fx(1 << 30).checked_div(Fixed(1)), None);
    assert_eq!(Fixed(i64::MAX).checked_add(Fixed(1)), None);
    assert_eq!(Fixed(i64::MIN).checked_sub(Fixed(1)), None);
    let d = raw(ONE, 2 * ONE).checked_sub(raw(3 * ONE, ONE)).unwrap();
    assert_eq!((d.x.0, d.y.0), (-2 * ONE, ONE));
    assert_eq!(raw(3 * ONE, 4 * ONE).checked_magnitude(), Some(fx(5)));
    assert_eq!(raw(i64::MAX, 0).checked_magnitude(), None);
}

#[test]
fn escape_law_on_values() {
    // positive energy around a positive mass: no orbit
    for speed in [ONE, 2 * ONE, 10 * ONE] {
        assert!(Orbit::from_state_vectors(raw(ONE, 0), raw(0, speed), raw(0, 0), fx(25000)).is_none());
    }
}
