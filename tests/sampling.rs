use buddhabrot::buddha::ExactPoint;
use buddhabrot::orbit::{checkpoint_at, Orbit, Sampler};

fn exact(re: f64, im: f64) -> ExactPoint {
    ExactPoint { re_bits: re.to_bits(), im_bits: im.to_bits() }
}

/// Runs the map z <- z^2 + c from zero through an orbit, as a worker does.
fn run(orbit: &mut Orbit, c: (f64, f64)) {
    let (mut zr, mut zi) = (0.0f64, 0.0f64);
    while orbit.is_running() {
        let nr = zr * zr - zi * zi + c.0;
        let ni = 2.0 * zr * zi + c.1;
        zr = nr;
        zi = ni;
        orbit.observe(None, exact(zr, zi), zr.hypot(zi) > 2.0);
    }
}

#[test]
fn seed_two_escapes_at_the_second_iterate() {
    let mut orbit = Orbit::new(exact(2.0, 0.0), 100, 8, 8);
    // z1 = 2 has norm 2, which is not beyond the disc
    orbit.observe(None, exact(2.0, 0.0), 2.0f64 > 2.0);
    assert!(orbit.is_running());
    assert_eq!(orbit.length(), 1);
    // z2 = 6
    orbit.observe(None, exact(6.0, 0.0), 6.0f64 > 2.0);
    assert!(!orbit.is_running());
    assert!(orbit.has_escaped());
    assert_eq!(orbit.length(), 2);
    let t = orbit.finish(0).expect("kept");
    assert_eq!(t.length, 2);
    assert_eq!(t.init_c, exact(2.0, 0.0));
}

#[test]
fn seed_two_through_the_map() {
    let mut orbit = Orbit::new(exact(2.0, 0.0), 100, 8, 8);
    run(&mut orbit, (2.0, 0.0));
    assert!(orbit.has_escaped());
    assert_eq!(orbit.length(), 2);
}

#[test]
fn short_orbits_are_discarded() {
    let mut orbit = Orbit::new(exact(2.0, 0.0), 100, 8, 8);
    run(&mut orbit, (2.0, 0.0));
    assert!(orbit.finish(3).is_none());
}

#[test]
fn seeds_known_to_stay_bounded_are_never_iterated() {
    let sampler = Sampler::new(5, 100, 0, 8, 8);
    assert!(sampler.begin_orbit(exact(0.0, 0.0), true).is_none());
    assert!(sampler.begin_orbit(exact(2.0, 0.0), false).is_some());
}

#[test]
fn bounded_orbit_exhausts_its_iterations_and_is_discarded() {
    // c = -2 lands on the fixed point 2 and stays there: 2 is seen again at a checkpoint
    let mut orbit = Orbit::new(exact(-2.0, 0.0), 100, 8, 8);
    run(&mut orbit, (-2.0, 0.0));
    assert!(!orbit.has_escaped());
    assert!(orbit.length() < 100);
    assert!(orbit.finish(0).is_none());
}

#[test]
fn orbit_without_cycle_runs_to_its_limit() {
    // c = -0.1: iterates approach a fixed point but differ at every checkpoint
    let mut orbit = Orbit::new(exact(-0.1, 0.0), 5, 8, 8);
    run(&mut orbit, (-0.1, 0.0));
    assert!(!orbit.has_escaped());
    assert_eq!(orbit.length(), 5);
}

#[test]
fn repeats_are_caught_only_at_checkpoints() {
    let p = exact(0.5, 0.5);
    let q = exact(0.25, 0.0);
    let mut orbit = Orbit::new(exact(0.1, 0.0), 100, 8, 8);
    orbit.observe(None, p, false); // index 0: remembered
    orbit.observe(None, q, false); // index 1: remembered
    orbit.observe(None, q, false); // index 2: a repeat
    assert!(!orbit.is_running());
    assert_eq!(orbit.length(), 3);
    let mut other = Orbit::new(exact(0.1, 0.0), 100, 8, 8);
    other.observe(None, q, false); // index 0: remembered
    assert!(other.is_running());
    other.observe(None, q, false); // index 1: a repeat
    assert!(!other.is_running());
    assert_eq!(other.length(), 2);
    let mut late = Orbit::new(exact(0.1, 0.0), 100, 8, 8);
    late.observe(None, p, false); // 0
    late.observe(None, q, false); // 1
    late.observe(None, exact(1.0, 0.0), false); // 2
    late.observe(None, p, false); // 3: no checkpoint
    assert!(late.is_running());
    late.observe(None, p, false); // 4: checkpoint, p seen at 0
    assert!(!late.is_running());
}

#[test]
fn waypoints_keep_only_pixels_on_the_raster() {
    let mut orbit = Orbit::new(exact(0.3, 0.0), 10, 8, 8);
    orbit.observe(Some((4, 5)), exact(0.3, 0.0), false);
    orbit.observe(None, exact(9.0, 0.0), true);
    let t = orbit.finish(2).expect("kept");
    assert_eq!(t.length, 2);
    assert_eq!(t.waypoints.len(), 1);
    assert_eq!((t.waypoints[0].img_x, t.waypoints[0].img_y), (4, 5));
}

#[test]
fn pixels_off_the_raster_add_no_waypoint() {
    let mut orbit = Orbit::new(exact(0.3, 0.0), 10, 8, 4);
    orbit.observe(Some((7, 3)), exact(0.3, 0.0), false);
    orbit.observe(Some((8, 0)), exact(0.4, 0.0), false);
    orbit.observe(Some((0, 4)), exact(0.5, 0.0), false);
    orbit.observe(Some((-1, 0)), exact(0.6, 0.0), true);
    let t = orbit.finish(0).expect("kept");
    assert_eq!(t.length, 4);
    assert_eq!(t.waypoints.len(), 1);
    assert_eq!((t.waypoints[0].img_x, t.waypoints[0].img_y), (7, 3));
}

#[test]
fn sampler_counts_kept_orbits_toward_its_share() {
    let mut sampler = Sampler::new(1, 10, 0, 8, 8);
    let mut orbit = sampler.begin_orbit(exact(2.0, 0.0), false).unwrap();
    run(&mut orbit, (2.0, 0.0));
    assert!(!sampler.is_done());
    assert!(sampler.complete(orbit).is_some());
    assert_eq!(sampler.found(), 1);
    assert!(sampler.is_done());
}

#[test]
fn checkpoints_are_zero_and_powers_of_two() {
    let got: Vec<i64> = (0..20).filter(|&n| checkpoint_at(n)).collect();
    assert_eq!(got, vec![0, 1, 2, 4, 8, 16]);
    assert!(checkpoint_at(1 << 40));
    assert!(!checkpoint_at((1 << 40) + 2));
}
