//! Mirroring a scene across the x axis or the y axis.
//!
//! Mirroring across an axis keeps the coordinate along that axis and negates
//! the other horizontal one, for every point and for the center of every
//! cuboid. Negation only flips a sign bit, so these parts are exact. How a
//! rotation turns under the mirror is not a matter of signs alone; that rule
//! is handed in as a function from orientation to orientation, and the
//! contracts speak of what that function returned.

use vstd::prelude::*;
use crate::sampling::draw_trial;
use crate::scalar::{lemma_negated_is_involution, negate, negated};
use crate::scene::{Cuboid, Point, Quaternion};

verus! {

/// The axis that a mirror leaves in place.
#[derive(Clone, Copy, Debug, PartialEq, Eq, Structural)]
pub enum ReflectionAxis {
    /// Keep x, negate y.
    X,
    /// Keep y, negate x.
    Y,
}

/// A point seen in the mirror.
pub open spec fn reflected_point(axis: ReflectionAxis, point: Point) -> Point {
    match axis {
        ReflectionAxis::X => Point { y: negated(point.y), ..point },
        ReflectionAxis::Y => Point { x: negated(point.x), ..point },
    }
}

/// A point cloud seen in the mirror: every point mirrored, in its place.
pub open spec fn reflected_cloud(axis: ReflectionAxis, cloud: Seq<Point>) -> Seq<Point> {
    Seq::new(cloud.len(), |i: int| reflected_point(axis, cloud[i]))
}

/// A cuboid whose center has been mirrored and whose orientation and extent
/// are still those from before.
pub open spec fn reflected_center(axis: ReflectionAxis, cuboid: Cuboid) -> Cuboid {
    match axis {
        ReflectionAxis::X => Cuboid { ty_m: negated(cuboid.ty_m), ..cuboid },
        ReflectionAxis::Y => Cuboid { tx_m: negated(cuboid.tx_m), ..cuboid },
    }
}

/// Whether `after` is `before` seen in the mirror: the center mirrored, the
/// orientation one that `mirror` returns for the orientation of `before`, the
/// extent untouched.
pub open spec fn is_reflected_cuboid<R: Fn(Quaternion) -> Quaternion>(
    axis: ReflectionAxis,
    mirror: R,
    before: Cuboid,
    after: Cuboid,
) -> bool {
    &&& call_ensures(mirror, (before.orientation,), after.orientation)
    &&& after == reflected_center(axis, before).with_orientation(after.orientation)
}

/// Whether `after` holds the cuboids of `before` seen in the mirror, each in
/// its place.
pub open spec fn is_reflected_cuboids<R: Fn(Quaternion) -> Quaternion>(
    axis: ReflectionAxis,
    mirror: R,
    before: Seq<Cuboid>,
    after: Seq<Cuboid>,
) -> bool {
    &&& after.len() == before.len()
    &&& forall|m: int|
        0 <= m < before.len() ==> is_reflected_cuboid(axis, mirror, before[m], #[trigger] after[m])
}

/// Whether applying `mirror` twice always leads back to the orientation that
/// was started from.
pub open spec fn is_involution<R: Fn(Quaternion) -> Quaternion>(mirror: R) -> bool {
    forall|q: Quaternion, r: Quaternion, s: Quaternion|
        #![trigger call_ensures(mirror, (q,), r), call_ensures(mirror, (r,), s)]
        call_ensures(mirror, (q,), r) && call_ensures(mirror, (r,), s) ==> s == q
}

/// Mirrors one point.
pub fn reflect_point(axis: ReflectionAxis, point: Point) -> (mirrored: Point)
    ensures
        mirrored == reflected_point(axis, point),
{
    match axis {
        ReflectionAxis::X => Point { x: point.x, y: negate(point.y), z: point.z },
        ReflectionAxis::Y => Point { x: negate(point.x), y: point.y, z: point.z },
    }
}

/// Mirrors the center of one cuboid.
pub fn reflect_center(axis: ReflectionAxis, cuboid: Cuboid) -> (mirrored: Cuboid)
    ensures
        mirrored == reflected_center(axis, cuboid),
{
    let mut mirrored = cuboid;
    match axis {
        ReflectionAxis::X => {
            mirrored.ty_m = negate(cuboid.ty_m);
        },
        ReflectionAxis::Y => {
            mirrored.tx_m = negate(cuboid.tx_m);
        },
    }
    mirrored
}

/// Mirrors every point of a cloud.
pub fn reflect_points(axis: ReflectionAxis, lidar: Vec<Point>) -> (mirrored: Vec<Point>)
    ensures
        mirrored@ == reflected_cloud(axis, lidar@),
{
    let mut mirrored = lidar;
    let count = mirrored.len();
    let mut i: usize = 0;
    while i < count
        invariant
            i <= count,
            mirrored@.len() == count,
            lidar@.len() == count,
            forall|k: int| 0 <= k < i ==> mirrored@[k] == reflected_point(axis, lidar@[k]),
            forall|k: int| i <= k < count ==> mirrored@[k] == lidar@[k],
        decreases count - i,
    {
        let point = reflect_point(axis, mirrored[i]);
        mirrored.set(i, point);
        i = i + 1;
    }
    mirrored
}

/// Mirrors every cuboid of a set: the center by negation, the orientation by
/// one call of `mirror`.
pub fn reflect_cuboids<R: Fn(Quaternion) -> Quaternion>(
    axis: ReflectionAxis,
    cuboids: Vec<Cuboid>,
    mirror: &R,
) -> (mirrored: Vec<Cuboid>)
    requires
        forall|q: Quaternion| call_requires(*mirror, (q,)),
    ensures
        is_reflected_cuboids(axis, *mirror, cuboids@, mirrored@),
{
    let mut mirrored = cuboids;
    let count = mirrored.len();
    let mut m: usize = 0;
    while m < count
        invariant
            m <= count,
            mirrored@.len() == count,
            cuboids@.len() == count,
            forall|q: Quaternion| call_requires(*mirror, (q,)),
            forall|k: int|
                0 <= k < m ==> is_reflected_cuboid(
                    axis,
                    *mirror,
                    cuboids@[k],
                    #[trigger] mirrored@[k],
                ),
            forall|k: int| m <= k < count ==> mirrored@[k] == cuboids@[k],
        decreases count - m,
    {
        let mut cuboid = reflect_center(axis, mirrored[m]);
        cuboid.orientation = mirror(cuboid.orientation);
        mirrored.set(m, cuboid);
        m = m + 1;
    }
    mirrored
}

/// Whether `(lidar_after, cuboids_after)` is the scene `(lidar, cuboids)`
/// seen in the mirror.
pub open spec fn is_reflected_scene<R: Fn(Quaternion) -> Quaternion>(
    axis: ReflectionAxis,
    mirror: R,
    lidar: Seq<Point>,
    cuboids: Seq<Cuboid>,
    lidar_after: Seq<Point>,
    cuboids_after: Seq<Cuboid>,
) -> bool {
    &&& lidar_after == reflected_cloud(axis, lidar)
    &&& is_reflected_cuboids(axis, mirror, cuboids, cuboids_after)
}

/// Applies the outcome of a trial to a scene. When the trial failed the scene
/// is handed back as it came and `mirror` is not called. When it succeeded
/// every point and every cuboid is mirrored across `axis`.
pub fn reflect_scene<R: Fn(Quaternion) -> Quaternion>(
    axis: ReflectionAxis,
    trial: bool,
    lidar: Vec<Point>,
    cuboids: Vec<Cuboid>,
    mirror: R,
) -> (scene: (Vec<Point>, Vec<Cuboid>))
    requires
        trial ==> forall|q: Quaternion| call_requires(mirror, (q,)),
    ensures
        !trial ==> scene.0 == lidar && scene.1 == cuboids,
        trial ==> is_reflected_scene(axis, mirror, lidar@, cuboids@, scene.0@, scene.1@),
        scene.0@.len() == lidar@.len(),
        scene.1@.len() == cuboids@.len(),
        forall|m: int| 0 <= m < cuboids@.len() ==> cuboids@[m].same_extent(#[trigger] scene.1@[m]),
{
    if trial {
        let mirrored_lidar = reflect_points(axis, lidar);
        let mirrored_cuboids = reflect_cuboids(axis, cuboids, &mirror);
        proof {
            lemma_reflection_keeps_extents(axis, mirror, cuboids@, mirrored_cuboids@);
        }
        (mirrored_lidar, mirrored_cuboids)
    } else {
        (lidar, cuboids)
    }
}

/// Draws one trial from `distribution` and mirrors the scene across `axis`
/// when it succeeds. Whatever the trial gives, the scene that comes back is
/// either the one that went in or that one seen in the mirror, with as many
/// points and cuboids as before and every extent as it was.
pub fn sample_scene_reflection<R: Fn(Quaternion) -> Quaternion>(
    axis: ReflectionAxis,
    lidar: Vec<Point>,
    cuboids: Vec<Cuboid>,
    distribution: &rand::distributions::Bernoulli,
    rng: &mut rand::rngs::StdRng,
    mirror: R,
) -> (scene: (Vec<Point>, Vec<Cuboid>))
    requires
        forall|q: Quaternion| call_requires(mirror, (q,)),
    ensures
        (scene.0 == lidar && scene.1 == cuboids) || is_reflected_scene(
            axis,
            mirror,
            lidar@,
            cuboids@,
            scene.0@,
            scene.1@,
        ),
        scene.0@.len() == lidar@.len(),
        scene.1@.len() == cuboids@.len(),
        forall|m: int| 0 <= m < cuboids@.len() ==> cuboids@[m].same_extent(#[trigger] scene.1@[m]),
{
    let trial = draw_trial(distribution, rng);
    reflect_scene(axis, trial, lidar, cuboids, mirror)
}

/// Samples a reflection of the scene across the x axis: with the probability
/// of `distribution`, the y coordinate of every point and of every cuboid
/// center is negated and every orientation is replaced by what
/// `reflect_orientation` returns for it.
pub fn sample_scene_reflection_x<R: Fn(Quaternion) -> Quaternion>(
    lidar: Vec<Point>,
    cuboids: Vec<Cuboid>,
    distribution: &rand::distributions::Bernoulli,
    rng: &mut rand::rngs::StdRng,
    reflect_orientation: R,
) -> (scene: (Vec<Point>, Vec<Cuboid>))
    requires
        forall|q: Quaternion| call_requires(reflect_orientation, (q,)),
    ensures
        (scene.0 == lidar && scene.1 == cuboids) || is_reflected_scene(
            ReflectionAxis::X,
            reflect_orientation,
            lidar@,
            cuboids@,
            scene.0@,
            scene.1@,
        ),
        scene.0@.len() == lidar@.len(),
        scene.1@.len() == cuboids@.len(),
        forall|m: int| 0 <= m < cuboids@.len() ==> cuboids@[m].same_extent(#[trigger] scene.1@[m]),
{
    let axis = ReflectionAxis::X;
    sample_scene_reflection(axis, lidar, cuboids, distribution, rng, reflect_orientation)
}

/// Samples a reflection of the scene across the y axis: with the probability
/// of `distribution`, the x coordinate of every point and of every cuboid
/// center is negated and every orientation is replaced by what
/// `reflect_orientation` returns for it.
pub fn sample_scene_reflection_y<R: Fn(Quaternion) -> Quaternion>(
    lidar: Vec<Point>,
    cuboids: Vec<Cuboid>,
    distribution: &rand::distributions::Bernoulli,
    rng: &mut rand::rngs::StdRng,
    reflect_orientation: R,
) -> (scene: (Vec<Point>, Vec<Cuboid>))
    requires
        forall|q: Quaternion| call_requires(reflect_orientation, (q,)),
    ensures
        (scene.0 == lidar && scene.1 == cuboids) || is_reflected_scene(
            ReflectionAxis::Y,
            reflect_orientation,
            lidar@,
            cuboids@,
            scene.0@,
            scene.1@,
        ),
        scene.0@.len() == lidar@.len(),
        scene.1@.len() == cuboids@.len(),
        forall|m: int| 0 <= m < cuboids@.len() ==> cuboids@[m].same_extent(#[trigger] scene.1@[m]),
{
    let axis = ReflectionAxis::Y;
    sample_scene_reflection(axis, lidar, cuboids, distribution, rng, reflect_orientation)
}

/// Mirroring a point twice across the same axis gives the point back.
pub proof fn lemma_reflected_point_twice(axis: ReflectionAxis, point: Point)
    ensures
        reflected_point(axis, reflected_point(axis, point)) == point,
{
    lemma_negated_is_involution(point.x);
    lemma_negated_is_involution(point.y);
}

/// Mirroring a point cloud twice across the same axis gives the cloud back,
/// bit for bit.
pub proof fn lemma_reflected_cloud_twice(axis: ReflectionAxis, cloud: Seq<Point>)
    ensures
        reflected_cloud(axis, reflected_cloud(axis, cloud)) == cloud,
{
    assert forall|i: int| 0 <= i < cloud.len() implies reflected_point(
        axis,
        reflected_point(axis, cloud[i]),
    ) == cloud[i] by {
        lemma_reflected_point_twice(axis, cloud[i]);
    }
}

/// Mirroring a set of cuboids twice across the same axis gives back every
/// center and every extent, bit for bit. The orientations come back too where
/// `mirror` undoes itself.
pub proof fn lemma_reflected_cuboids_twice<R: Fn(Quaternion) -> Quaternion>(
    axis: ReflectionAxis,
    mirror: R,
    cuboids: Seq<Cuboid>,
    once: Seq<Cuboid>,
    twice: Seq<Cuboid>,
)
    requires
        is_reflected_cuboids(axis, mirror, cuboids, once),
        is_reflected_cuboids(axis, mirror, once, twice),
    ensures
        twice.len() == cuboids.len(),
        forall|m: int|
            0 <= m < cuboids.len() ==> #[trigger] twice[m] == cuboids[m].with_orientation(
                twice[m].orientation,
            ),
        is_involution(mirror) ==> twice == cuboids,
{
    assert forall|m: int| 0 <= m < cuboids.len() implies #[trigger] twice[m]
        == cuboids[m].with_orientation(twice[m].orientation) by {
        lemma_negated_is_involution(cuboids[m].tx_m);
        lemma_negated_is_involution(cuboids[m].ty_m);
    }
    if is_involution(mirror) {
        assert(twice =~= cuboids);
    }
}

/// A reflection never changes the length, width or height of a cuboid, and
/// keeps every cuboid in its row.
pub proof fn lemma_reflection_keeps_extents<R: Fn(Quaternion) -> Quaternion>(
    axis: ReflectionAxis,
    mirror: R,
    cuboids: Seq<Cuboid>,
    mirrored: Seq<Cuboid>,
)
    requires
        is_reflected_cuboids(axis, mirror, cuboids, mirrored),
    ensures
        mirrored.len() == cuboids.len(),
        forall|m: int| 0 <= m < cuboids.len() ==> cuboids[m].same_extent(#[trigger] mirrored[m]),
{
}

/// A reflection touches one coordinate only: across the x axis the x and z
/// coordinates of every point stay, across the y axis the y and z
/// coordinates.
pub proof fn lemma_reflection_keeps_other_coordinates(axis: ReflectionAxis, point: Point)
    ensures
        reflected_point(axis, point).z == point.z,
        axis == ReflectionAxis::X ==> reflected_point(axis, point).x == point.x,
        axis == ReflectionAxis::Y ==> reflected_point(axis, point).y == point.y,
{
}

/// Where `mirror` gives one orientation only for each orientation, a set of
/// cuboids has one mirrored set only.
pub proof fn lemma_reflected_cuboids_are_determined<R: Fn(Quaternion) -> Quaternion>(
    axis: ReflectionAxis,
    mirror: R,
    cuboids: Seq<Cuboid>,
    one: Seq<Cuboid>,
    other: Seq<Cuboid>,
)
    requires
        forall|q: Quaternion, r: Quaternion, s: Quaternion|
            #![trigger call_ensures(mirror, (q,), r), call_ensures(mirror, (q,), s)]
            call_ensures(mirror, (q,), r) && call_ensures(mirror, (q,), s) ==> r == s,
        is_reflected_cuboids(axis, mirror, cuboids, one),
        is_reflected_cuboids(axis, mirror, cuboids, other),
    ensures
        one == other,
{
    assert forall|m: int| 0 <= m < cuboids.len() implies one[m] == other[m] by {
    }
}

} // verus!
