//! Scaling every object of a scene by a factor of its own.
//!
//! Each cuboid comes with one factor. The points that the membership mask
//! places inside the cuboid are multiplied by that factor, coordinate by
//! coordinate and about the origin of the frame, and so is the extent of the
//! cuboid. Cuboids are taken in the order of their rows. A point that lies in
//! several cuboids is multiplied once for each, every product starting from
//! the one before.
//!
//! A factor is the bit pattern of a double-precision number. Multiplication
//! rounds, so it is handed in as a function from a single-precision pattern
//! and a factor to the pattern of their product; the contracts speak of what
//! that function returned.

use vstd::prelude::*;
use crate::error::AugmentError;
use crate::mask::InteriorMask;
use crate::scene::{Cuboid, Point};

verus! {

/// The double-precision pattern of positive infinity. The patterns between
/// zero and this one, both left out, are those of the positive finite
/// numbers, and among them a larger number has a larger pattern.
pub const POSITIVE_INFINITY: u64 = 0x7FF0_0000_0000_0000;

/// Whether `bits` is the pattern of a number that is finite and above zero.
pub open spec fn is_positive_finite(bits: u64) -> bool {
    0 < bits < POSITIVE_INFINITY
}

/// Whether `[low, high]` is a range that factors can be drawn from: both
/// ends finite, and `0 < low <= high`.
pub open spec fn is_scale_range(low: u64, high: u64) -> bool {
    &&& is_positive_finite(low)
    &&& is_positive_finite(high)
    &&& low <= high
}

/// Whether every factor lies in `[low, high]`.
pub open spec fn factors_within(low: u64, high: u64, factors: Seq<u64>) -> bool {
    forall|m: int| 0 <= m < factors.len() ==> low <= #[trigger] factors[m] <= high
}

/// Whether the factors come from a range that they can be drawn from: the
/// range is one, and every factor lies in it.
pub open spec fn is_valid_draw(low: u64, high: u64, factors: Seq<u64>) -> bool {
    is_scale_range(low, high) && factors_within(low, high, factors)
}

/// The factors that reach point `i` from the first `upto` cuboids: those of
/// the cuboids whose row of the mask marks the point, in the order of the rows.
pub open spec fn factors_reaching(
    mask: Seq<Seq<bool>>,
    factors: Seq<u64>,
    i: int,
    upto: int,
) -> Seq<u64>
    decreases upto,
{
    if upto <= 0 {
        Seq::empty()
    } else {
        let earlier = factors_reaching(mask, factors, i, upto - 1);
        if mask[upto - 1][i] {
            earlier.push(factors[upto - 1])
        } else {
            earlier
        }
    }
}

/// Whether `after` can come from `before` by multiplying with each of
/// `factors` in turn, first factor first.
pub open spec fn is_scaled_value<M: Fn(u32, u64) -> u32>(
    multiply: M,
    before: u32,
    factors: Seq<u64>,
    after: u32,
) -> bool
    decreases factors.len(),
{
    if factors.len() == 0 {
        after == before
    } else {
        exists|mid: u32|
            is_scaled_value(multiply, before, factors.drop_last(), mid) && #[trigger] call_ensures(
                multiply,
                (mid, factors.last()),
                after,
            )
    }
}

/// Whether each coordinate of `after` can come from that of `before` by
/// multiplying with each of `factors` in turn.
pub open spec fn is_scaled_point<M: Fn(u32, u64) -> u32>(
    multiply: M,
    before: Point,
    factors: Seq<u64>,
    after: Point,
) -> bool {
    &&& is_scaled_value(multiply, before.x, factors, after.x)
    &&& is_scaled_value(multiply, before.y, factors, after.y)
    &&& is_scaled_value(multiply, before.z, factors, after.z)
}

/// Whether each coordinate of `after` is a product of that of `before` and
/// `factor`.
pub open spec fn is_multiplied_point<M: Fn(u32, u64) -> u32>(
    multiply: M,
    before: Point,
    factor: u64,
    after: Point,
) -> bool {
    &&& call_ensures(multiply, (before.x, factor), after.x)
    &&& call_ensures(multiply, (before.y, factor), after.y)
    &&& call_ensures(multiply, (before.z, factor), after.z)
}

/// Whether `after` is `before` with its length, width and height multiplied
/// by `factor`, and its center and orientation as they were.
pub open spec fn is_scaled_cuboid<M: Fn(u32, u64) -> u32>(
    multiply: M,
    before: Cuboid,
    factor: u64,
    after: Cuboid,
) -> bool {
    &&& before.same_pose(after)
    &&& call_ensures(multiply, (before.length_m, factor), after.length_m)
    &&& call_ensures(multiply, (before.width_m, factor), after.width_m)
    &&& call_ensures(multiply, (before.height_m, factor), after.height_m)
}

/// Whether `(lidar_after, cuboids_after)` is the scene `(lidar, cuboids)`
/// with every object scaled: each point multiplied by the factors that reach
/// it, each cuboid resized by its own factor, nothing moved to another row.
pub open spec fn is_scaled_scene<M: Fn(u32, u64) -> u32>(
    multiply: M,
    mask: Seq<Seq<bool>>,
    factors: Seq<u64>,
    lidar: Seq<Point>,
    cuboids: Seq<Cuboid>,
    lidar_after: Seq<Point>,
    cuboids_after: Seq<Cuboid>,
) -> bool {
    &&& lidar_after.len() == lidar.len()
    &&& cuboids_after.len() == cuboids.len()
    &&& forall|i: int|
        0 <= i < lidar.len() ==> is_scaled_point(
            multiply,
            lidar[i],
            factors_reaching(mask, factors, i, cuboids.len() as int),
            #[trigger] lidar_after[i],
        )
    &&& forall|m: int|
        0 <= m < cuboids.len() ==> is_scaled_cuboid(
            multiply,
            cuboids[m],
            factors[m],
            #[trigger] cuboids_after[m],
        )
}

/// Whether the mask and the factors have the sizes that a scene of
/// `points` points and `cuboids` cuboids asks for.
pub open spec fn shapes_agree(
    mask: InteriorMask,
    factors: Seq<u64>,
    points: nat,
    cuboids: nat,
) -> bool {
    &&& mask@.len() == cuboids
    &&& mask.width() == points
    &&& factors.len() == cuboids
}

/// Whether `i` is one of the listed columns.
pub open spec fn is_listed(indices: Seq<usize>, i: int) -> bool {
    exists|k: int| 0 <= k < indices.len() && #[trigger] indices[k] == i
}

/// Tells whether `[low, high]` is a range that factors can be drawn from.
pub fn validate_scale_range(
    low_inclusive: u64,
    high_inclusive: u64,
) -> (validated: Result<(), AugmentError>)
    ensures
        validated is Ok <==> is_scale_range(low_inclusive, high_inclusive),
        validated is Err ==> validated == Err::<(), AugmentError>(AugmentError::InvalidParameter),
{
    if 0 < low_inclusive && low_inclusive <= high_inclusive && high_inclusive < POSITIVE_INFINITY {
        Ok(())
    } else {
        Err(AugmentError::InvalidParameter)
    }
}

/// Tells whether every factor lies in `[low, high]`.
pub fn factors_lie_within(
    low_inclusive: u64,
    high_inclusive: u64,
    factors: &Vec<u64>,
) -> (within: bool)
    ensures
        within == factors_within(low_inclusive, high_inclusive, factors@),
{
    let mut m: usize = 0;
    while m < factors.len()
        invariant
            m <= factors.len(),
            forall|k: int| 0 <= k < m ==> low_inclusive <= #[trigger] factors@[k] <= high_inclusive,
        decreases factors.len() - m,
    {
        if factors[m] < low_inclusive || high_inclusive < factors[m] {
            return false;
        }
        m = m + 1;
    }
    true
}

/// Lists the columns that a row of the mask marks, smallest first.
pub fn interior_indices(row: &Vec<bool>) -> (indices: Vec<usize>)
    ensures
        forall|k: int|
            0 <= k < indices@.len() ==> (#[trigger] indices@[k]) < row@.len()
                && row@[indices@[k] as int],
        forall|j: int, k: int| 0 <= j < k < indices@.len() ==> indices@[j] < indices@[k],
        forall|i: int| 0 <= i < row@.len() && row@[i] ==> is_listed(indices@, i),
{
    let mut indices: Vec<usize> = Vec::new();
    let mut i: usize = 0;
    while i < row.len()
        invariant
            i <= row@.len(),
            forall|k: int|
                0 <= k < indices@.len() ==> (#[trigger] indices@[k]) < i
                    && row@[indices@[k] as int],
            forall|j: int, k: int| 0 <= j < k < indices@.len() ==> indices@[j] < indices@[k],
            forall|t: int| 0 <= t < i && row@[t] ==> is_listed(indices@, t),
        decreases row@.len() - i,
    {
        if row[i] {
            let ghost before = indices@;
            indices.push(i);
            proof {
                assert(indices@[before.len() as int] == i);
                assert forall|t: int| 0 <= t < i + 1 && row@[t] implies is_listed(indices@, t) by {
                    if t < i {
                        let k = choose|k: int| 0 <= k < before.len() && before[k] == t;
                        assert(indices@[k] == t);
                    }
                }
            }
        }
        i = i + 1;
    }
    indices
}

/// Multiplies the three coordinates of a point by one factor.
pub fn scale_point<M: Fn(u32, u64) -> u32>(
    point: Point,
    factor: u64,
    multiply: &M,
) -> (scaled: Point)
    requires
        forall|value: u32, by: u64| call_requires(*multiply, (value, by)),
    ensures
        is_multiplied_point(*multiply, point, factor, scaled),
{
    let x = multiply(point.x, factor);
    let y = multiply(point.y, factor);
    let z = multiply(point.z, factor);
    Point { x, y, z }
}

/// Multiplies the length, width and height of a cuboid by one factor and
/// leaves its center and orientation alone.
pub fn scale_extent<M: Fn(u32, u64) -> u32>(
    cuboid: Cuboid,
    factor: u64,
    multiply: &M,
) -> (scaled: Cuboid)
    requires
        forall|value: u32, by: u64| call_requires(*multiply, (value, by)),
    ensures
        is_scaled_cuboid(*multiply, cuboid, factor, scaled),
{
    let mut scaled = cuboid;
    scaled.length_m = multiply(cuboid.length_m, factor);
    scaled.width_m = multiply(cuboid.width_m, factor);
    scaled.height_m = multiply(cuboid.height_m, factor);
    scaled
}

/// Multiplies the points at the listed rows by one factor, in place, and
/// leaves every other point alone.
fn scale_points_at<M: Fn(u32, u64) -> u32>(
    points: &mut Vec<Point>,
    indices: &Vec<usize>,
    factor: u64,
    multiply: &M,
)
    requires
        forall|value: u32, by: u64| call_requires(*multiply, (value, by)),
        forall|k: int| 0 <= k < indices@.len() ==> (#[trigger] indices@[k]) < old(points)@.len(),
        forall|j: int, k: int| 0 <= j < k < indices@.len() ==> indices@[j] < indices@[k],
    ensures
        final(points)@.len() == old(points)@.len(),
        forall|i: int|
            0 <= i < old(points)@.len() && is_listed(indices@, i) ==> is_multiplied_point(
                *multiply,
                old(points)@[i],
                factor,
                #[trigger] final(points)@[i],
            ),
        forall|i: int|
            0 <= i < old(points)@.len() && !is_listed(indices@, i)
                ==> #[trigger] final(points)@[i] == old(points)@[i],
{
    let ghost start = points@;
    let mut k: usize = 0;
    while k < indices.len()
        invariant
            k <= indices@.len(),
            points@.len() == start.len(),
            forall|value: u32, by: u64| call_requires(*multiply, (value, by)),
            forall|j: int| 0 <= j < indices@.len() ==> (#[trigger] indices@[j]) < start.len(),
            forall|j: int, l: int| 0 <= j < l < indices@.len() ==> indices@[j] < indices@[l],
            forall|j: int|
                0 <= j < k ==> is_multiplied_point(
                    *multiply,
                    start[indices@[j] as int],
                    factor,
                    #[trigger] points@[indices@[j] as int],
                ),
            forall|i: int|
                0 <= i < start.len() && (k > 0 ==> i > indices@[k - 1]) ==> #[trigger] points@[i]
                    == start[i],
            forall|i: int|
                0 <= i < start.len() && !is_listed(indices@, i) ==> #[trigger] points@[i]
                    == start[i],
        decreases indices@.len() - k,
    {
        let index = indices[k];
        let scaled = scale_point(points[index], factor, multiply);
        points.set(index, scaled);
        k = k + 1;
    }
    proof {
        assert forall|i: int|
            0 <= i < start.len() && is_listed(indices@, i) implies is_multiplied_point(
            *multiply,
            start[i],
            factor,
            #[trigger] points@[i],
        ) by {
            let j = choose|j: int| 0 <= j < indices@.len() && indices@[j] == i;
            assert(is_multiplied_point(
                *multiply,
                start[indices@[j] as int],
                factor,
                points@[indices@[j] as int],
            ));
        }
    }
}

/// One more factor at the end of a chain of products.
pub proof fn lemma_scaled_value_extends<M: Fn(u32, u64) -> u32>(
    multiply: M,
    before: u32,
    factors: Seq<u64>,
    mid: u32,
    factor: u64,
    after: u32,
)
    requires
        is_scaled_value(multiply, before, factors, mid),
        call_ensures(multiply, (mid, factor), after),
    ensures
        is_scaled_value(multiply, before, factors.push(factor), after),
{
    let longer = factors.push(factor);
    assert(longer.drop_last() =~= factors);
    assert(is_scaled_value(multiply, before, longer.drop_last(), mid) && call_ensures(
        multiply,
        (mid, longer.last()),
        after,
    ));
}

/// Scales every object of a scene whose mask and factors have the right
/// sizes.
fn scale_scene<M: Fn(u32, u64) -> u32>(
    lidar: Vec<Point>,
    cuboids: Vec<Cuboid>,
    mask: &InteriorMask,
    factors: &Vec<u64>,
    multiply: &M,
) -> (scene: (Vec<Point>, Vec<Cuboid>))
    requires
        forall|value: u32, by: u64| call_requires(*multiply, (value, by)),
        shapes_agree(*mask, factors@, lidar@.len(), cuboids@.len()),
    ensures
        is_scaled_scene(*multiply, mask@, factors@, lidar@, cuboids@, scene.0@, scene.1@),
{
    let mut points = lidar;
    let mut boxes = cuboids;
    let count = boxes.len();
    let width = mask.ncols();
    let mut m: usize = 0;
    while m < count
        invariant
            m <= count,
            count == cuboids@.len(),
            boxes@.len() == count,
            points@.len() == lidar@.len(),
            width == lidar@.len(),
            forall|value: u32, by: u64| call_requires(*multiply, (value, by)),
            shapes_agree(*mask, factors@, lidar@.len(), cuboids@.len()),
            mask.is_rectangular(),
            forall|i: int|
                0 <= i < lidar@.len() ==> is_scaled_point(
                    *multiply,
                    lidar@[i],
                    factors_reaching(mask@, factors@, i, m as int),
                    #[trigger] points@[i],
                ),
            forall|k: int|
                0 <= k < m ==> is_scaled_cuboid(
                    *multiply,
                    cuboids@[k],
                    factors@[k],
                    #[trigger] boxes@[k],
                ),
            forall|k: int| m <= k < count ==> #[trigger] boxes@[k] == cuboids@[k],
        decreases count - m,
    {
        let factor = factors[m];
        let row = mask.row(m);
        let indices = interior_indices(&row);
        let ghost earlier = points@;
        assert(row@.len() == width);
        scale_points_at(&mut points, &indices, factor, multiply);
        let resized = scale_extent(boxes[m], factor, multiply);
        boxes.set(m, resized);
        proof {
            assert forall|i: int| 0 <= i < lidar@.len() implies is_scaled_point(
                *multiply,
                lidar@[i],
                factors_reaching(mask@, factors@, i, m + 1),
                #[trigger] points@[i],
            ) by {
                let reached = factors_reaching(mask@, factors@, i, m as int);
                if mask@[m as int][i] {
                    lemma_scaled_value_extends(
                        *multiply,
                        lidar@[i].x,
                        reached,
                        earlier[i].x,
                        factor,
                        points@[i].x,
                    );
                    lemma_scaled_value_extends(
                        *multiply,
                        lidar@[i].y,
                        reached,
                        earlier[i].y,
                        factor,
                        points@[i].y,
                    );
                    lemma_scaled_value_extends(
                        *multiply,
                        lidar@[i].z,
                        reached,
                        earlier[i].z,
                        factor,
                        points@[i].z,
                    );
                }
            }
        }
        m = m + 1;
    }
    (points, boxes)
}

/// Scales every object of a scene by a sampled factor of its own.
///
/// `factors` holds one factor for each cuboid, drawn from
/// `[low_inclusive, high_inclusive]`, and `mask` tells which point lies
/// inside which cuboid of the scene as it is handed in. The call is refused
/// as an invalid parameter when the range is not one that factors can be
/// drawn from or a factor lies outside it, and as a shape mismatch when the
/// mask or the factors do not fit the scene. Otherwise the scaled scene comes
/// back: cuboids are taken in the order of their rows, every point that the
/// mask places inside a cuboid is multiplied by the factor of that cuboid,
/// and so is the extent of the cuboid.
pub fn sample_random_object_scale<M: Fn(u32, u64) -> u32>(
    lidar: Vec<Point>,
    cuboids: Vec<Cuboid>,
    mask: &InteriorMask,
    low_inclusive: u64,
    high_inclusive: u64,
    factors: &Vec<u64>,
    multiply: M,
) -> (scaled: Result<(Vec<Point>, Vec<Cuboid>), AugmentError>)
    requires
        forall|value: u32, by: u64| call_requires(multiply, (value, by)),
    ensures
        scaled is Ok <==> is_valid_draw(low_inclusive, high_inclusive, factors@) && shapes_agree(
            *mask,
            factors@,
            lidar@.len(),
            cuboids@.len(),
        ),
        !is_valid_draw(low_inclusive, high_inclusive, factors@) ==> scaled == Err::<
            (Vec<Point>, Vec<Cuboid>),
            AugmentError,
        >(AugmentError::InvalidParameter),
        is_valid_draw(low_inclusive, high_inclusive, factors@) && !shapes_agree(
            *mask,
            factors@,
            lidar@.len(),
            cuboids@.len(),
        ) ==> scaled == Err::<(Vec<Point>, Vec<Cuboid>), AugmentError>(
            AugmentError::ShapeMismatch,
        ),
        scaled matches Ok(scene) ==> is_scaled_scene(
            multiply,
            mask@,
            factors@,
            lidar@,
            cuboids@,
            scene.0@,
            scene.1@,
        ),
{
    if validate_scale_range(low_inclusive, high_inclusive).is_err() {
        return Err(AugmentError::InvalidParameter);
    }
    if !factors_lie_within(low_inclusive, high_inclusive, factors) {
        return Err(AugmentError::InvalidParameter);
    }
    if mask.nrows() != cuboids.len() || mask.ncols() != lidar.len() || factors.len()
        != cuboids.len() {
        return Err(AugmentError::ShapeMismatch);
    }
    Ok(scale_scene(lidar, cuboids, mask, factors, &multiply))
}

/// Whether `multiply` gives one product only for each value and factor.
pub open spec fn is_function<M: Fn(u32, u64) -> u32>(multiply: M) -> bool {
    forall|value: u32, factor: u64, one: u32, other: u32|
        #![trigger
            call_ensures(multiply, (value, factor), one),
            call_ensures(multiply, (value, factor), other)]
        call_ensures(multiply, (value, factor), one) && call_ensures(
            multiply,
            (value, factor),
            other,
        ) ==> one == other
}

/// Whether one of the first `upto` rows of the mask marks point `i` and has
/// `factor` as the factor of its cuboid.
pub open spec fn is_sent_by_mark(
    mask: Seq<Seq<bool>>,
    factors: Seq<u64>,
    i: int,
    upto: int,
    factor: u64,
) -> bool {
    exists|m: int| 0 <= m < upto && (#[trigger] mask[m])[i] && factors[m] == factor
}

/// A factor reaches a point only from a cuboid whose row of the mask marks
/// the point, and every such cuboid sends its factor. The mask is read as it
/// was handed in: no product changes what reaches a point.
pub proof fn lemma_factors_reaching_come_from_marks(
    mask: Seq<Seq<bool>>,
    factors: Seq<u64>,
    i: int,
    upto: int,
)
    requires
        0 <= upto,
    ensures
        factors_reaching(mask, factors, i, upto).len() <= upto,
        forall|k: int|
            0 <= k < factors_reaching(mask, factors, i, upto).len() ==> is_sent_by_mark(
                mask,
                factors,
                i,
                upto,
                #[trigger] factors_reaching(mask, factors, i, upto)[k],
            ),
        forall|m: int|
            0 <= m < upto && (#[trigger] mask[m])[i] ==> factors_reaching(
                mask,
                factors,
                i,
                upto,
            ).contains(factors[m]),
    decreases upto,
{
    if upto > 0 {
        lemma_factors_reaching_come_from_marks(mask, factors, i, upto - 1);
        let earlier = factors_reaching(mask, factors, i, upto - 1);
        let reached = factors_reaching(mask, factors, i, upto);
        assert forall|k: int| 0 <= k < reached.len() implies is_sent_by_mark(
            mask,
            factors,
            i,
            upto,
            #[trigger] reached[k],
        ) by {
            if k < earlier.len() {
                assert(is_sent_by_mark(mask, factors, i, upto - 1, earlier[k]));
            } else {
                assert(mask[upto - 1][i] && factors[upto - 1] == reached[k]);
            }
        }
        assert forall|m: int| 0 <= m < upto && (#[trigger] mask[m])[i] implies reached.contains(
            factors[m],
        ) by {
            if m < upto - 1 {
                let k = choose|k: int| 0 <= k < earlier.len() && earlier[k] == factors[m];
                assert(reached[k] == factors[m]);
            } else {
                assert(reached[reached.len() - 1] == factors[m]);
            }
        }
    }
}

/// A point that no row of the mask marks comes out of the scaling as it went
/// in, bit for bit.
pub proof fn lemma_unmarked_point_is_kept<M: Fn(u32, u64) -> u32>(
    multiply: M,
    mask: Seq<Seq<bool>>,
    factors: Seq<u64>,
    lidar: Seq<Point>,
    cuboids: Seq<Cuboid>,
    lidar_after: Seq<Point>,
    cuboids_after: Seq<Cuboid>,
    i: int,
)
    requires
        is_scaled_scene(multiply, mask, factors, lidar, cuboids, lidar_after, cuboids_after),
        0 <= i < lidar.len(),
        forall|m: int| 0 <= m < cuboids.len() ==> !(#[trigger] mask[m])[i],
    ensures
        lidar_after[i] == lidar[i],
{
    lemma_factors_reaching_come_from_marks(mask, factors, i, cuboids.len() as int);
}

/// A point that exactly one row of the mask marks is multiplied once, by the
/// factor of that row.
pub proof fn lemma_point_in_one_cuboid<M: Fn(u32, u64) -> u32>(
    multiply: M,
    mask: Seq<Seq<bool>>,
    factors: Seq<u64>,
    lidar: Seq<Point>,
    cuboids: Seq<Cuboid>,
    lidar_after: Seq<Point>,
    cuboids_after: Seq<Cuboid>,
    i: int,
    owner: int,
)
    requires
        is_scaled_scene(multiply, mask, factors, lidar, cuboids, lidar_after, cuboids_after),
        0 <= i < lidar.len(),
        0 <= owner < cuboids.len(),
        forall|m: int| 0 <= m < cuboids.len() ==> ((#[trigger] mask[m])[i] <==> m == owner),
    ensures
        is_multiplied_point(multiply, lidar[i], factors[owner], lidar_after[i]),
{
    lemma_reaching_of_one_mark(mask, factors, i, owner, cuboids.len() as int);
    lemma_scaled_by_one_factor(multiply, lidar[i].x, factors[owner], lidar_after[i].x);
    lemma_scaled_by_one_factor(multiply, lidar[i].y, factors[owner], lidar_after[i].y);
    lemma_scaled_by_one_factor(multiply, lidar[i].z, factors[owner], lidar_after[i].z);
}

/// Where one factor is applied, the outcome is one product.
proof fn lemma_scaled_by_one_factor<M: Fn(u32, u64) -> u32>(
    multiply: M,
    before: u32,
    factor: u64,
    after: u32,
)
    requires
        is_scaled_value(multiply, before, seq![factor], after),
    ensures
        call_ensures(multiply, (before, factor), after),
{
    let factors = seq![factor];
    let mid = choose|mid: u32|
        is_scaled_value(multiply, before, factors.drop_last(), mid) && #[trigger] call_ensures(
            multiply,
            (mid, factors.last()),
            after,
        );
    assert(factors.drop_last() =~= Seq::<u64>::empty());
    assert(mid == before);
}

/// Where one row only marks a point, what reaches it is the factor of that
/// row and nothing else.
proof fn lemma_reaching_of_one_mark(
    mask: Seq<Seq<bool>>,
    factors: Seq<u64>,
    i: int,
    owner: int,
    upto: int,
)
    requires
        0 <= owner,
        0 <= upto,
        forall|m: int| 0 <= m < upto ==> ((#[trigger] mask[m])[i] <==> m == owner),
    ensures
        owner < upto ==> factors_reaching(mask, factors, i, upto) == seq![factors[owner]],
        owner >= upto ==> factors_reaching(mask, factors, i, upto) == Seq::<u64>::empty(),
    decreases upto,
{
    if upto > 0 {
        lemma_reaching_of_one_mark(mask, factors, i, owner, upto - 1);
    }
}

/// Where the range has one value only, every factor that lies within it is
/// that value, and so is every factor that reaches a point.
pub proof fn lemma_single_value_range(
    low: u64,
    high: u64,
    mask: Seq<Seq<bool>>,
    factors: Seq<u64>,
    i: int,
)
    requires
        is_scale_range(low, high),
        low == high,
        factors_within(low, high, factors),
    ensures
        forall|m: int| 0 <= m < factors.len() ==> #[trigger] factors[m] == low,
        forall|k: int|
            0 <= k < factors_reaching(mask, factors, i, factors.len() as int).len()
                ==> #[trigger] factors_reaching(mask, factors, i, factors.len() as int)[k] == low,
{
    let upto = factors.len() as int;
    let reached = factors_reaching(mask, factors, i, upto);
    lemma_factors_reaching_come_from_marks(mask, factors, i, upto);
    assert forall|k: int| 0 <= k < reached.len() implies #[trigger] reached[k] == low by {
        assert(is_sent_by_mark(mask, factors, i, upto, reached[k]));
    }
}

/// Where `multiply` gives one product only, a chain of products has one
/// outcome only.
pub proof fn lemma_scaled_value_is_determined<M: Fn(u32, u64) -> u32>(
    multiply: M,
    before: u32,
    factors: Seq<u64>,
    one: u32,
    other: u32,
)
    requires
        is_function(multiply),
        is_scaled_value(multiply, before, factors, one),
        is_scaled_value(multiply, before, factors, other),
    ensures
        one == other,
    decreases factors.len(),
{
    if factors.len() > 0 {
        let mid_one = choose|mid: u32|
            is_scaled_value(multiply, before, factors.drop_last(), mid) && #[trigger] call_ensures(
                multiply,
                (mid, factors.last()),
                one,
            );
        let mid_other = choose|mid: u32|
            is_scaled_value(multiply, before, factors.drop_last(), mid) && #[trigger] call_ensures(
                multiply,
                (mid, factors.last()),
                other,
            );
        lemma_scaled_value_is_determined(multiply, before, factors.drop_last(), mid_one, mid_other);
    }
}

/// Where `multiply` gives one product only, a scene, a mask and the factors
/// have one scaled scene only.
pub proof fn lemma_scaled_scene_is_determined<M: Fn(u32, u64) -> u32>(
    multiply: M,
    mask: Seq<Seq<bool>>,
    factors: Seq<u64>,
    lidar: Seq<Point>,
    cuboids: Seq<Cuboid>,
    one: (Seq<Point>, Seq<Cuboid>),
    other: (Seq<Point>, Seq<Cuboid>),
)
    requires
        is_function(multiply),
        is_scaled_scene(multiply, mask, factors, lidar, cuboids, one.0, one.1),
        is_scaled_scene(multiply, mask, factors, lidar, cuboids, other.0, other.1),
    ensures
        one == other,
{
    assert forall|i: int| 0 <= i < lidar.len() implies one.0[i] == other.0[i] by {
        let reached = factors_reaching(mask, factors, i, cuboids.len() as int);
        lemma_scaled_value_is_determined(multiply, lidar[i].x, reached, one.0[i].x, other.0[i].x);
        lemma_scaled_value_is_determined(multiply, lidar[i].y, reached, one.0[i].y, other.0[i].y);
        lemma_scaled_value_is_determined(multiply, lidar[i].z, reached, one.0[i].z, other.0[i].z);
    }
    assert(one.1 =~= other.1);
}

/// Scaling moves no cuboid and turns none: every center and every
/// orientation comes out as it went in, and nothing changes its row.
pub proof fn lemma_scaling_keeps_poses<M: Fn(u32, u64) -> u32>(
    multiply: M,
    mask: Seq<Seq<bool>>,
    factors: Seq<u64>,
    lidar: Seq<Point>,
    cuboids: Seq<Cuboid>,
    lidar_after: Seq<Point>,
    cuboids_after: Seq<Cuboid>,
)
    requires
        is_scaled_scene(multiply, mask, factors, lidar, cuboids, lidar_after, cuboids_after),
    ensures
        lidar_after.len() == lidar.len(),
        cuboids_after.len() == cuboids.len(),
        forall|m: int| 0 <= m < cuboids.len() ==> cuboids[m].same_pose(#[trigger] cuboids_after[m]),
{
}

/// The outcome of multiplying `before` with each of `factors` in turn, first
/// factor first, where `product` says what a multiplication gives.
pub open spec fn scaled_value(
    product: spec_fn(u32, u64) -> u32,
    before: u32,
    factors: Seq<u64>,
) -> u32
    decreases factors.len(),
{
    if factors.len() == 0 {
        before
    } else {
        product(scaled_value(product, before, factors.drop_last()), factors.last())
    }
}

/// Where every call of `multiply` returns what `product` says, a chain of
/// products ends in the value that folding `product` over the factors gives.
pub proof fn lemma_scaled_value_follows_product<M: Fn(u32, u64) -> u32>(
    multiply: M,
    product: spec_fn(u32, u64) -> u32,
    before: u32,
    factors: Seq<u64>,
    after: u32,
)
    requires
        forall|value: u32, factor: u64, outcome: u32| #[trigger]
            call_ensures(multiply, (value, factor), outcome) ==> outcome == product(value, factor),
        is_scaled_value(multiply, before, factors, after),
    ensures
        after == scaled_value(product, before, factors),
    decreases factors.len(),
{
    if factors.len() > 0 {
        let mid = choose|mid: u32|
            is_scaled_value(multiply, before, factors.drop_last(), mid) && #[trigger] call_ensures(
                multiply,
                (mid, factors.last()),
                after,
            );
        lemma_scaled_value_follows_product(multiply, product, before, factors.drop_last(), mid);
    }
}

} // verus!
