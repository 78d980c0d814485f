use augmentations::reflection::{
    reflect_center, reflect_cuboids, reflect_point, reflect_points, reflect_scene,
    sample_scene_reflection, sample_scene_reflection_x, sample_scene_reflection_y, ReflectionAxis,
};
use augmentations::scalar::negate;
use augmentations::scene::{Cuboid, Point, Quaternion};
use rand::distributions::Bernoulli;
use rand::rngs::StdRng;
use rand::SeedableRng;

fn point(x: f32, y: f32, z: f32) -> Point {
    Point { x: x.to_bits(), y: y.to_bits(), z: z.to_bits() }
}

fn quaternion(w: f32, x: f32, y: f32, z: f32) -> Quaternion {
    Quaternion { qw: w.to_bits(), qx: x.to_bits(), qy: y.to_bits(), qz: z.to_bits() }
}

fn cuboid(t: (f32, f32, f32), q: Quaternion, e: (f32, f32, f32)) -> Cuboid {
    Cuboid {
        tx_m: t.0.to_bits(),
        ty_m: t.1.to_bits(),
        tz_m: t.2.to_bits(),
        orientation: q,
        length_m: e.0.to_bits(),
        width_m: e.1.to_bits(),
        height_m: e.2.to_bits(),
    }
}

fn yaw_of(q: Quaternion) -> f32 {
    let (w, x, y, z) = (
        f32::from_bits(q.qw),
        f32::from_bits(q.qx),
        f32::from_bits(q.qy),
        f32::from_bits(q.qz),
    );
    (2.0 * (w * z + x * y)).atan2(1.0 - 2.0 * (y * y + z * z))
}

fn quaternion_of_yaw(yaw: f32) -> Quaternion {
    quaternion((yaw / 2.0).cos(), 0.0, 0.0, (yaw / 2.0).sin())
}

fn mirror_yaw_x(q: Quaternion) -> Quaternion {
    quaternion_of_yaw(-yaw_of(q))
}

fn mirror_yaw_y(q: Quaternion) -> Quaternion {
    quaternion_of_yaw(std::f32::consts::PI - yaw_of(q))
}

fn mirror_signs(q: Quaternion) -> Quaternion {
    Quaternion { qw: q.qw, qx: negate(q.qx), qy: q.qy, qz: negate(q.qz) }
}

fn norm(q: Quaternion) -> f32 {
    let (w, x, y, z) = (
        f32::from_bits(q.qw),
        f32::from_bits(q.qx),
        f32::from_bits(q.qy),
        f32::from_bits(q.qz),
    );
    (w * w + x * x + y * y + z * z).sqrt()
}

fn sample_lidar() -> Vec<Point> {
    vec![point(1.0, 2.0, 3.0), point(-4.5, 0.0, 0.25), point(0.0, -7.0, -1.0)]
}

fn sample_cuboids() -> Vec<Cuboid> {
    vec![
        cuboid((10.0, -3.0, 0.5), quaternion_of_yaw(0.3), (4.5, 2.0, 1.5)),
        cuboid((-6.0, 8.0, 1.0), quaternion_of_yaw(-2.0), (12.0, 2.5, 3.0)),
    ]
}

#[test]
fn negate_flips_the_sign_of_ordinary_numbers() {
    assert_eq!(f32::from_bits(negate(1.5f32.to_bits())), -1.5);
    assert_eq!(f32::from_bits(negate((-0.125f32).to_bits())), 0.125);
    assert_eq!(negate(0x3FC0_0000), 0xBFC0_0000);
}

#[test]
fn negate_agrees_with_the_machine_on_special_values() {
    for value in [0.0f32, -0.0, f32::INFINITY, f32::NEG_INFINITY, f32::MIN_POSITIVE, f32::MAX, f32::NAN] {
        assert_eq!(negate(value.to_bits()), (-value).to_bits());
    }
}

#[test]
fn reflection_across_x_negates_y_only() {
    let mirrored = reflect_point(ReflectionAxis::X, point(1.0, 2.0, 3.0));
    assert_eq!(mirrored, point(1.0, -2.0, 3.0));
}

#[test]
fn reflection_across_y_negates_x_only() {
    let mirrored = reflect_point(ReflectionAxis::Y, point(1.0, 2.0, 3.0));
    assert_eq!(mirrored, point(-1.0, 2.0, 3.0));
}

#[test]
fn reflection_of_a_center_negates_the_same_coordinate_as_for_points() {
    let before = cuboid((10.0, -3.0, 0.5), quaternion(1.0, 0.0, 0.0, 0.0), (4.5, 2.0, 1.5));
    let across_x = reflect_center(ReflectionAxis::X, before);
    assert_eq!(across_x, cuboid((10.0, 3.0, 0.5), quaternion(1.0, 0.0, 0.0, 0.0), (4.5, 2.0, 1.5)));
    let across_y = reflect_center(ReflectionAxis::Y, before);
    assert_eq!(across_y, cuboid((-10.0, -3.0, 0.5), quaternion(1.0, 0.0, 0.0, 0.0), (4.5, 2.0, 1.5)));
}

#[test]
fn reflect_points_keeps_the_order_of_the_rows() {
    let mirrored = reflect_points(ReflectionAxis::X, sample_lidar());
    assert_eq!(mirrored, vec![point(1.0, -2.0, 3.0), point(-4.5, -0.0, 0.25), point(0.0, 7.0, -1.0)]);
}

#[test]
fn reflect_cuboids_takes_each_orientation_from_the_mirror() {
    let mirrored = reflect_cuboids(ReflectionAxis::Y, sample_cuboids(), &mirror_signs);
    let before = sample_cuboids();
    assert_eq!(mirrored.len(), 2);
    for m in 0..2 {
        assert_eq!(mirrored[m].orientation, mirror_signs(before[m].orientation));
        assert_eq!(mirrored[m].tx_m, negate(before[m].tx_m));
        assert_eq!(mirrored[m].ty_m, before[m].ty_m);
        assert_eq!(mirrored[m].tz_m, before[m].tz_m);
    }
}

#[test]
fn probability_zero_returns_the_scene_unchanged() {
    let never = Bernoulli::new(0.0).unwrap();
    for seed in 0..32u64 {
        let mut rng = StdRng::seed_from_u64(seed);
        let (lidar, cuboids) =
            sample_scene_reflection_x(sample_lidar(), sample_cuboids(), &never, &mut rng, mirror_yaw_x);
        assert_eq!(lidar, sample_lidar());
        assert_eq!(cuboids, sample_cuboids());
        let (lidar, cuboids) =
            sample_scene_reflection_y(sample_lidar(), sample_cuboids(), &never, &mut rng, mirror_yaw_y);
        assert_eq!(lidar, sample_lidar());
        assert_eq!(cuboids, sample_cuboids());
    }
}

#[test]
fn probability_one_always_reflects() {
    let always = Bernoulli::new(1.0).unwrap();
    for seed in 0..32u64 {
        let mut rng = StdRng::seed_from_u64(seed);
        let (lidar, cuboids) =
            sample_scene_reflection_x(sample_lidar(), sample_cuboids(), &always, &mut rng, mirror_signs);
        assert_eq!(lidar, reflect_points(ReflectionAxis::X, sample_lidar()));
        assert_eq!(cuboids, reflect_cuboids(ReflectionAxis::X, sample_cuboids(), &mirror_signs));
        assert_ne!(lidar, sample_lidar());
        let (lidar, cuboids) =
            sample_scene_reflection_y(sample_lidar(), sample_cuboids(), &always, &mut rng, mirror_signs);
        assert_eq!(lidar, reflect_points(ReflectionAxis::Y, sample_lidar()));
        assert_eq!(cuboids, reflect_cuboids(ReflectionAxis::Y, sample_cuboids(), &mirror_signs));
    }
}

#[test]
fn a_fair_trial_gives_one_of_the_two_scenes_and_both_occur() {
    let fair = Bernoulli::new(0.5).unwrap();
    let mut rng = StdRng::seed_from_u64(2024);
    let mut kept = 0;
    let mut mirrored = 0;
    for _ in 0..200 {
        let (lidar, cuboids) = sample_scene_reflection(
            ReflectionAxis::X,
            sample_lidar(),
            sample_cuboids(),
            &fair,
            &mut rng,
            mirror_signs,
        );
        if lidar == sample_lidar() {
            assert_eq!(cuboids, sample_cuboids());
            kept += 1;
        } else {
            assert_eq!(lidar, reflect_points(ReflectionAxis::X, sample_lidar()));
            assert_eq!(cuboids, reflect_cuboids(ReflectionAxis::X, sample_cuboids(), &mirror_signs));
            mirrored += 1;
        }
    }
    assert!(kept > 0);
    assert!(mirrored > 0);
}

#[test]
fn a_failed_trial_never_calls_the_mirror() {
    let (lidar, cuboids) = reflect_scene(
        ReflectionAxis::X,
        false,
        sample_lidar(),
        sample_cuboids(),
        |_q: Quaternion| -> Quaternion { panic!("the mirror was called") },
    );
    assert_eq!(lidar, sample_lidar());
    assert_eq!(cuboids, sample_cuboids());
}

#[test]
fn reflecting_twice_restores_the_scene() {
    for axis in [ReflectionAxis::X, ReflectionAxis::Y] {
        let (lidar, cuboids) = reflect_scene(axis, true, sample_lidar(), sample_cuboids(), mirror_signs);
        let (lidar, cuboids) = reflect_scene(axis, true, lidar, cuboids, mirror_signs);
        assert_eq!(lidar, sample_lidar());
        assert_eq!(cuboids, sample_cuboids());
    }
}

#[test]
fn reflecting_twice_with_a_rounding_mirror_restores_up_to_rounding() {
    let (lidar, cuboids) =
        reflect_scene(ReflectionAxis::X, true, sample_lidar(), sample_cuboids(), mirror_yaw_x);
    let (lidar, cuboids) = reflect_scene(ReflectionAxis::X, true, lidar, cuboids, mirror_yaw_x);
    assert_eq!(lidar, sample_lidar());
    let before = sample_cuboids();
    for m in 0..before.len() {
        assert_eq!(cuboids[m].tx_m, before[m].tx_m);
        assert_eq!(cuboids[m].ty_m, before[m].ty_m);
        assert_eq!(cuboids[m].tz_m, before[m].tz_m);
        assert!((yaw_of(cuboids[m].orientation) - yaw_of(before[m].orientation)).abs() < 1e-5);
    }
}

#[test]
fn reflected_orientations_keep_unit_norm() {
    for axis in [ReflectionAxis::X, ReflectionAxis::Y] {
        let (_, by_yaw) = reflect_scene(axis, true, sample_lidar(), sample_cuboids(), mirror_yaw_x);
        let (_, by_signs) = reflect_scene(axis, true, sample_lidar(), sample_cuboids(), mirror_signs);
        for cuboid in by_yaw.iter().chain(by_signs.iter()) {
            assert!((norm(cuboid.orientation) - 1.0).abs() < 1e-5);
        }
    }
}

#[test]
fn reflection_never_changes_an_extent() {
    let always = Bernoulli::new(1.0).unwrap();
    let mut rng = StdRng::seed_from_u64(5);
    let before = sample_cuboids();
    let (_, across_x) =
        sample_scene_reflection_x(sample_lidar(), sample_cuboids(), &always, &mut rng, mirror_yaw_x);
    let (_, across_y) =
        sample_scene_reflection_y(sample_lidar(), sample_cuboids(), &always, &mut rng, mirror_yaw_y);
    for m in 0..before.len() {
        for after in [across_x[m], across_y[m]] {
            assert_eq!(after.length_m, before[m].length_m);
            assert_eq!(after.width_m, before[m].width_m);
            assert_eq!(after.height_m, before[m].height_m);
        }
    }
}

#[test]
fn reflection_keeps_the_number_of_rows() {
    let fair = Bernoulli::new(0.5).unwrap();
    let mut rng = StdRng::seed_from_u64(11);
    for _ in 0..20 {
        let (lidar, cuboids) =
            sample_scene_reflection_y(sample_lidar(), sample_cuboids(), &fair, &mut rng, mirror_yaw_y);
        assert_eq!(lidar.len(), 3);
        assert_eq!(cuboids.len(), 2);
    }
}

#[test]
fn reflection_of_an_empty_scene_is_empty() {
    for p in [0.0, 0.5, 1.0] {
        let distribution = Bernoulli::new(p).unwrap();
        let mut rng = StdRng::seed_from_u64(3);
        let (lidar, cuboids) =
            sample_scene_reflection_x(Vec::new(), Vec::new(), &distribution, &mut rng, mirror_yaw_x);
        assert!(lidar.is_empty());
        assert!(cuboids.is_empty());
        let (lidar, cuboids) =
            sample_scene_reflection_y(Vec::new(), Vec::new(), &distribution, &mut rng, mirror_yaw_y);
        assert!(lidar.is_empty());
        assert!(cuboids.is_empty());
    }
}

#[test]
fn reflection_of_points_without_cuboids_and_of_cuboids_without_points() {
    let (lidar, cuboids) =
        reflect_scene(ReflectionAxis::X, true, sample_lidar(), Vec::new(), mirror_signs);
    assert_eq!(lidar, reflect_points(ReflectionAxis::X, sample_lidar()));
    assert!(cuboids.is_empty());
    let (lidar, cuboids) =
        reflect_scene(ReflectionAxis::Y, true, Vec::new(), sample_cuboids(), mirror_signs);
    assert!(lidar.is_empty());
    assert_eq!(cuboids.len(), 2);
}
