//! The similarity score of two blobs.
//!
//! Four components say how alike the blobs are along independent axes. The
//! aggregate is their weighted mean, discounted once for every component
//! whose weighted value is weak.

use vstd::prelude::*;
use crate::blob::BlobInfo;
use crate::error::DegenerateInputError;
use crate::params::TunableParameters;
use crate::rational::{lemma_quotient_positive, lemma_quotient_undone, quotient, Rational};
use crate::similarity::{distance, sim, sim_perc};

verus! {

/// The weighted value below which a component is penalized, `3/10`.
pub open spec fn penalty_threshold() -> real {
    quotient(3, 10)
}

/// The factor by which one penalized component discounts the aggregate, `3/4`.
pub open spec fn penalty_factor() -> real {
    quotient(3, 4)
}

/// Whether the bounding boxes of the two blobs share a point of the x axis.
pub open spec fn overlap_on_x(b0: BlobInfo, b1: BlobInfo) -> bool {
    b0.bbox.x <= b1.bbox.x + b1.bbox.width && b0.bbox.x + b0.bbox.width >= b1.bbox.x
}

/// How alike the areas of the two blobs are.
pub open spec fn area_similarity(b0: BlobInfo, b1: BlobInfo) -> real {
    sim(b0.area as real, b1.area as real)
}

/// How alike the x positions of the two centroids are; zero for blobs whose
/// bounding boxes do not overlap on the x axis.
pub open spec fn x_alignment(b0: BlobInfo, b1: BlobInfo) -> real {
    if overlap_on_x(b0, b1) {
        sim(b0.centroid.x as real, b1.centroid.x as real)
    } else {
        0real
    }
}

/// How alike the vertical distance of the centroids and the mean height of
/// the two blobs are.
pub open spec fn y_distance_to_height_ratio(b0: BlobInfo, b1: BlobInfo) -> real {
    sim(
        distance(b0.centroid.y as real, b1.centroid.y as real),
        quotient(b0.bbox.height + b1.bbox.height, 2),
    )
}

/// How close to one the width of the first blob is relative to the height of
/// the second.
pub open spec fn squareness_ratio(b0: BlobInfo, b1: BlobInfo) -> real {
    sim(quotient(b0.bbox.width as int, b1.bbox.height as int), 1real)
}

/// The four component values: area similarity, x alignment, y distance to
/// height and squareness.
pub open spec fn component_values(b0: BlobInfo, b1: BlobInfo) -> Seq<real> {
    seq![
        area_similarity(b0, b1),
        x_alignment(b0, b1),
        y_distance_to_height_ratio(b0, b1),
        squareness_ratio(b0, b1),
    ]
}

/// Whether a component of this value and weight is penalized.
pub open spec fn is_penalized(value: real, weight: real) -> bool {
    value * weight < penalty_threshold()
}

/// The factor that a component of this value and weight puts on the aggregate.
pub open spec fn penalty(value: real, weight: real) -> real {
    if is_penalized(value, weight) {
        penalty_factor()
    } else {
        1real
    }
}

/// The sum of four weights.
pub open spec fn total_weight(weights: Seq<real>) -> real {
    weights[0] + weights[1] + weights[2] + weights[3]
}

/// The mean of four values under four weights.
pub open spec fn weighted_mean(values: Seq<real>, weights: Seq<real>) -> real {
    (values[0] * weights[0] + values[1] * weights[1] + values[2] * weights[2] + values[3]
        * weights[3]) / total_weight(weights)
}

/// The weighted mean, discounted once for every penalized component.
pub open spec fn aggregate(values: Seq<real>, weights: Seq<real>) -> real {
    weighted_mean(values, weights) * penalty(values[0], weights[0]) * penalty(
        values[1],
        weights[1],
    ) * penalty(values[2], weights[2]) * penalty(values[3], weights[3])
}

/// A score, as numbers.
pub ghost struct ScoreView {
    pub aggregate: real,
    /// The component values, in the order of [`component_values`].
    pub values: Seq<real>,
    /// Whether each component is penalized, in the same order.
    pub penalized: Seq<bool>,
}

/// Why two blobs have no score under the given weights, if they have none.
pub open spec fn score_error(b0: BlobInfo, b1: BlobInfo, weights: Seq<real>) -> Option<
    DegenerateInputError,
> {
    if !b0.valid() || !b1.valid() {
        Some(DegenerateInputError::ZeroDimensionBlob)
    } else if total_weight(weights) == 0real {
        Some(DegenerateInputError::ZeroTotalWeight)
    } else if overlap_on_x(b0, b1) && b0.centroid.x + b1.centroid.x == 0 {
        Some(DegenerateInputError::ZeroMean)
    } else {
        None
    }
}

/// The score of two blobs under the given weights.
pub open spec fn score_of(b0: BlobInfo, b1: BlobInfo, weights: Seq<real>) -> ScoreView {
    let values = component_values(b0, b1);
    ScoreView {
        aggregate: aggregate(values, weights),
        values,
        penalized: seq![
            is_penalized(values[0], weights[0]),
            is_penalized(values[1], weights[1]),
            is_penalized(values[2], weights[2]),
            is_penalized(values[3], weights[3]),
        ],
    }
}

/// One component of a score.
pub struct Component {
    pub value: Rational,
    /// Whether the component's weighted value is below the penalty threshold.
    pub penalized: bool,
}

/// The four components of a score.
pub struct ScoreComponents {
    pub area_similarity: Component,
    pub x_alignment: Component,
    pub y_distance_to_height_ratio: Component,
    pub squareness_ratio: Component,
}

/// The similarity of two blobs.
pub struct Score {
    pub aggregate: Rational,
    pub components: ScoreComponents,
}

impl View for Score {
    type V = ScoreView;

    open spec fn view(&self) -> ScoreView {
        ScoreView {
            aggregate: self.aggregate@,
            values: seq![
                self.components.area_similarity.value@,
                self.components.x_alignment.value@,
                self.components.y_distance_to_height_ratio.value@,
                self.components.squareness_ratio.value@,
            ],
            penalized: seq![
                self.components.area_similarity.penalized,
                self.components.x_alignment.penalized,
                self.components.y_distance_to_height_ratio.penalized,
                self.components.squareness_ratio.penalized,
            ],
        }
    }
}

/// Whether the bounding boxes of the two blobs share a point of the x axis.
fn boxes_overlap_on_x(b0: &BlobInfo, b1: &BlobInfo) -> (r: bool)
    ensures
        r == overlap_on_x(*b0, *b1),
{
    let left0: i64 = b0.bbox.x as i64;
    let right0: i64 = b0.bbox.x as i64 + b0.bbox.width as i64;
    let left1: i64 = b1.bbox.x as i64;
    let right1: i64 = b1.bbox.x as i64 + b1.bbox.width as i64;
    left0 <= right1 && right0 >= left1
}

/// Adds the weighted `value` to `sum`, and tells whether it is penalized.
fn weigh(value: Rational, weight: &Rational, sum: &Rational) -> (r: (Component, Rational))
    ensures
        r.0.value@ == value@,
        r.0.penalized == is_penalized(value@, weight@),
        r.1@ == sum@ + value@ * weight@,
{
    let threshold = Rational::new(3, 10).unwrap();
    let weighted = value.times(weight);
    let penalized = weighted.less_than(&threshold);
    let next_sum = sum.plus(&weighted);
    (Component { value, penalized }, next_sum)
}

/// Discounts `score` by the penalty of one component.
fn discount(score: Rational, penalized: bool) -> (r: Rational)
    ensures
        r@ == score@ * (if penalized { penalty_factor() } else { 1real }),
{
    if penalized {
        score.times(&Rational::new(3, 4).unwrap())
    } else {
        score.times(&Rational::from_int(1))
    }
}

/// The score of `b0` and `b1` under the weights of `params`.
///
/// There is none for a blob without area, width or height, for weights that
/// sum to zero, and for overlapping blobs whose centroids' x positions sum to
/// zero.
pub fn get_score(b0: &BlobInfo, b1: &BlobInfo, params: &TunableParameters) -> (r: Result<
    Score,
    DegenerateInputError,
>)
    ensures
        match score_error(*b0, *b1, params@.component_weights) {
            Some(e) => r == Err::<Score, DegenerateInputError>(e),
            None => r is Ok && r->Ok_0@ == score_of(*b0, *b1, params@.component_weights),
        },
{
    if !b0.is_valid() || !b1.is_valid() {
        return Err(DegenerateInputError::ZeroDimensionBlob);
    }
    let zero = Rational::from_int(0);
    let one = Rational::from_int(1);
    let weights = params.weight_area().plus(params.weight_xpos()).plus(
        params.weight_y_to_height(),
    ).plus(params.weight_square());
    if weights.equals(&zero) {
        return Err(DegenerateInputError::ZeroTotalWeight);
    }
    let areas = sim_perc(
        &Rational::from_int(b0.area as i64),
        &Rational::from_int(b1.area as i64),
    ).unwrap();

    let xpos = if boxes_overlap_on_x(b0, b1) {
        match sim_perc(
            &Rational::from_int(b0.centroid.x as i64),
            &Rational::from_int(b1.centroid.x as i64),
        ) {
            Ok(s) => s,
            Err(e) => {
                return Err(e);
            },
        }
    } else {
        Rational::from_int(0)
    };

    let y0: i64 = b0.centroid.y as i64;
    let y1: i64 = b1.centroid.y as i64;
    let y_distance: i64 = if y0 < y1 {
        y1 - y0
    } else {
        y0 - y1
    };
    let heights: i64 = b0.bbox.height as i64 + b1.bbox.height as i64;
    proof {
        lemma_quotient_positive(heights as int, 2);
        lemma_quotient_positive(b0.bbox.width as int, b1.bbox.height as int);
    }
    let y_to_height = sim_perc(
        &Rational::from_int(y_distance),
        &Rational::new(heights, 2).unwrap(),
    ).unwrap();
    let make_square = sim_perc(
        &Rational::new(b0.bbox.width as i64, b1.bbox.height as i64).unwrap(),
        &one,
    ).unwrap();

    let ghost w = params@.component_weights;
    let (area_similarity, sum) = weigh(areas, params.weight_area(), &zero);
    let (x_alignment, sum) = weigh(xpos, params.weight_xpos(), &sum);
    let (y_distance_to_height_ratio, sum) = weigh(y_to_height, params.weight_y_to_height(), &sum);
    let (squareness_ratio, sum) = weigh(make_square, params.weight_square(), &sum);
    let mean = sum.divided_by(&weights).unwrap();
    let aggregate = discount(mean, area_similarity.penalized);
    let aggregate = discount(aggregate, x_alignment.penalized);
    let aggregate = discount(aggregate, y_distance_to_height_ratio.penalized);
    let aggregate = discount(aggregate, squareness_ratio.penalized);
    let score = Score {
        aggregate,
        components: ScoreComponents {
            area_similarity,
            x_alignment,
            y_distance_to_height_ratio,
            squareness_ratio,
        },
    };
    proof {
        let expected = score_of(*b0, *b1, w);
        assert(score@.values =~= expected.values);
        assert(score@.penalized =~= expected.penalized);
        assert(score@.aggregate == expected.aggregate);
    }
    Ok(score)
}

proof fn lemma_weak_stays_weak(value: real, weight: real)
    by (nonlinear_arith)
    requires
        value < quotient(3, 10),
        0real <= weight <= 1real,
    ensures
        value * weight < quotient(3, 10),
{
}

proof fn lemma_scaled_order(x: real, y: real, p: real)
    by (nonlinear_arith)
    requires
        p > 0real,
    ensures
        (x < y) == (x * p < y * p),
{
}

proof fn lemma_spread(x: real, a: real, b: real)
    by (nonlinear_arith)
    ensures
        x * (a + b) == x * a + x * b,
        x * (a - b) == x * a - x * b,
{
}

proof fn lemma_mean_falls(
    rest: real,
    rest_weight: real,
    value: real,
    lighter: real,
    heavier: real,
    low: real,
    low_weight: real,
    high: real,
    high_weight: real,
)
    requires
        rest_weight > 0real,
        value < rest / rest_weight,
        0real <= lighter < heavier,
        low == rest + value * lighter,
        low_weight == rest_weight + lighter,
        high == rest + value * heavier,
        high_weight == rest_weight + heavier,
    ensures
        high / high_weight < low / low_weight,
{
    let others = rest / rest_weight;
    let before = low / low_weight;
    let after = high / high_weight;
    lemma_quotient_undone(rest, rest_weight);
    lemma_quotient_undone(low, low_weight);
    lemma_quotient_undone(high, high_weight);
    // The component's value is below the mean before the change.
    lemma_scaled_order(value, others, rest_weight);
    lemma_spread(value, rest_weight, lighter);
    lemma_scaled_order(value, before, low_weight);
    assert(value < before);
    // So shifting weight onto it pulls the mean down.
    lemma_scaled_order(value, before, heavier - lighter);
    lemma_spread(value, heavier, lighter);
    lemma_spread(before, heavier, lighter);
    lemma_spread(before, rest_weight, lighter);
    lemma_spread(before, rest_weight, heavier);
    assert(after * high_weight < before * high_weight);
    lemma_scaled_order(after, before, high_weight);
}

/// Raising the weight of a weak component lowers the aggregate.
///
/// Take a component whose value is below the penalty threshold and below the
/// weighted mean of the other three, and let the others have weight in all.
/// Then the aggregate under a greater weight for that component is strictly
/// less: the component stays penalized, and the mean moves toward its value.
pub proof fn lemma_heavier_weak_component_lowers_aggregate(
    values: Seq<real>,
    weights: Seq<real>,
    k: int,
    heavier: real,
)
    requires
        values.len() == 4,
        weights.len() == 4,
        forall|i: int| 0 <= i < 4 ==> 0real <= #[trigger] weights[i] <= 1real,
        0 <= k < 4,
        weights[k] < heavier <= 1real,
        values[k] < penalty_threshold(),
        total_weight(weights.update(k, 0real)) > 0real,
        values[k] < weighted_mean(values, weights.update(k, 0real)),
    ensures
        aggregate(values, weights.update(k, heavier)) < aggregate(values, weights),
{
    let without = weights.update(k, 0real);
    let raised = weights.update(k, heavier);
    let rest_weight = total_weight(without);
    let rest = values[0] * without[0] + values[1] * without[1] + values[2] * without[2]
        + values[3] * without[3];
    assert(weights[0] >= 0real && weights[1] >= 0real && weights[2] >= 0real && weights[3]
        >= 0real);
    lemma_weak_stays_weak(values[k], weights[k]);
    lemma_weak_stays_weak(values[k], heavier);
    assert(values[k] * 0real == 0real);
    let low = values[0] * weights[0] + values[1] * weights[1] + values[2] * weights[2] + values[3]
        * weights[3];
    let high = values[0] * raised[0] + values[1] * raised[1] + values[2] * raised[2] + values[3]
        * raised[3];
    lemma_mean_falls(
        rest,
        rest_weight,
        values[k],
        weights[k],
        heavier,
        low,
        total_weight(weights),
        high,
        total_weight(raised),
    );
    assert(weighted_mean(values, raised) < weighted_mean(values, weights));
    let f0 = penalty(values[0], weights[0]);
    let f1 = penalty(values[1], weights[1]);
    let f2 = penalty(values[2], weights[2]);
    let f3 = penalty(values[3], weights[3]);
    assert(penalty(values[0], raised[0]) == f0 && penalty(values[1], raised[1]) == f1 && penalty(
        values[2],
        raised[2],
    ) == f2 && penalty(values[3], raised[3]) == f3);
    lemma_quotient_positive(3, 4);
    assert(f0 > 0real && f1 > 0real && f2 > 0real && f3 > 0real);
    let after = weighted_mean(values, raised);
    let before = weighted_mean(values, weights);
    lemma_scaled_order(after, before, f0);
    lemma_scaled_order(after * f0, before * f0, f1);
    lemma_scaled_order(after * f0 * f1, before * f0 * f1, f2);
    lemma_scaled_order(after * f0 * f1 * f2, before * f0 * f1 * f2, f3);
}

/// Weights that are all zero give no two blobs a score.
pub proof fn lemma_zero_weights_give_no_score(b0: BlobInfo, b1: BlobInfo, weights: Seq<real>)
    requires
        weights.len() == 4,
        forall|i: int| 0 <= i < 4 ==> #[trigger] weights[i] == 0real,
    ensures
        score_error(b0, b1, weights) is Some,
{
    assert(weights[0] == 0real && weights[1] == 0real && weights[2] == 0real && weights[3]
        == 0real);
}

/// The two sequences with components `i` and `j` exchanged.
pub open spec fn exchanged(s: Seq<real>, i: int, j: int) -> Seq<real> {
    s.update(i, s[j]).update(j, s[i])
}

proof fn lemma_factors_swap(x: real, a: real, b: real)
    by (nonlinear_arith)
    ensures
        x * a * b == x * b * a,
{
}

/// A product of four factors is the same with any two of them exchanged.
proof fn lemma_factors_commute(m: real, a: real, b: real, c: real, d: real)
    ensures
        m * a * b * c * d == m * b * a * c * d,
        m * a * b * c * d == m * c * b * a * d,
        m * a * b * c * d == m * d * b * c * a,
        m * a * b * c * d == m * a * c * b * d,
        m * a * b * c * d == m * a * d * c * b,
        m * a * b * c * d == m * a * b * d * c,
{
    // Neighbours.
    lemma_factors_swap(m, a, b);
    lemma_factors_swap(m * a, b, c);
    lemma_factors_swap(m * a * b, c, d);
    // The first and the third: by way of the second.
    lemma_factors_swap(m * b, a, c);
    lemma_factors_swap(m, b, c);
    // The second and the fourth: by way of the third.
    lemma_factors_swap(m * a * c, b, d);
    lemma_factors_swap(m * a, c, d);
    assert(m * a * b * c * d == m * a * d * c * b);
    // The first and the fourth: by way of the second and the third.
    lemma_factors_swap(m * b * c, a, d);
    lemma_factors_swap(m * b, c, d);
    lemma_factors_swap(m, b, d);
}

/// The aggregate does not depend on the order in which the components are
/// taken: exchanging two of them, value and weight alike, leaves it as it is.
pub proof fn lemma_aggregate_ignores_component_order(
    values: Seq<real>,
    weights: Seq<real>,
    i: int,
    j: int,
)
    requires
        values.len() == 4,
        weights.len() == 4,
        0 <= i < 4,
        0 <= j < 4,
    ensures
        aggregate(exchanged(values, i, j), exchanged(weights, i, j)) == aggregate(values, weights),
{
    let v = exchanged(values, i, j);
    let w = exchanged(weights, i, j);
    let sum = values[0] * weights[0] + values[1] * weights[1] + values[2] * weights[2] + values[3]
        * weights[3];
    let sum_after = v[0] * w[0] + v[1] * w[1] + v[2] * w[2] + v[3] * w[3];
    assert(sum_after == sum);
    assert(total_weight(w) == total_weight(weights));
    assert(weighted_mean(v, w) == weighted_mean(values, weights));
    lemma_factors_commute(
        weighted_mean(values, weights),
        penalty(values[0], weights[0]),
        penalty(values[1], weights[1]),
        penalty(values[2], weights[2]),
        penalty(values[3], weights[3]),
    );
}

} // verus!
