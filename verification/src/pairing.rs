//! The choice of the best pair among the blobs of two markers.
//!
//! Every blob of the first marker is tried with every blob of the second.
//! The pairs whose score reaches the similarity cap are accepted, and the
//! accepted pair of the greatest score is selected; of several such pairs the
//! one that was tried first.

use vstd::prelude::*;
use vstd::arithmetic::div_mod::{
    lemma_div_pos_is_pos, lemma_fundamental_div_mod, lemma_fundamental_div_mod_converse,
    lemma_mod_pos_bound,
};
use crate::blob::{BlobInfo, Point};
use crate::error::DegenerateInputError;
use crate::params::TunableParameters;
use crate::score::{
    get_score, lemma_zero_weights_give_no_score, score_error, score_of, Score, ScoreView,
};

verus! {

/// A scored pair, as numbers.
pub ghost struct CandidatePairView {
    pub lower: BlobInfo,
    pub upper: BlobInfo,
    pub score: ScoreView,
}

/// Two blobs, the one of the smaller centroid y first, and their score.
pub struct CandidatePair {
    pub lower: BlobInfo,
    pub upper: BlobInfo,
    pub score: Score,
}

impl View for CandidatePair {
    type V = CandidatePairView;

    open spec fn view(&self) -> CandidatePairView {
        CandidatePairView { lower: self.lower, upper: self.upper, score: self.score@ }
    }
}

/// The two blobs with the one of the smaller centroid y first; as given where
/// the two are level.
pub open spec fn in_order(b0: BlobInfo, b1: BlobInfo) -> (BlobInfo, BlobInfo) {
    if b0.centroid.y > b1.centroid.y {
        (b1, b0)
    } else {
        (b0, b1)
    }
}

/// Every blob of `set0` with every blob of `set1`, in the order in which the
/// pairs are tried: by the blob of `set0` first, then by the blob of `set1`.
pub open spec fn pairs(set0: Seq<BlobInfo>, set1: Seq<BlobInfo>) -> Seq<(BlobInfo, BlobInfo)> {
    Seq::new(
        set0.len() * set1.len(),
        |k: int| in_order(set0[k / set1.len() as int], set1[k % set1.len() as int]),
    )
}

/// The pair `(b0, b1)` with its score under `weights`.
pub open spec fn candidate(pair: (BlobInfo, BlobInfo), weights: Seq<real>) -> CandidatePairView {
    CandidatePairView { lower: pair.0, upper: pair.1, score: score_of(pair.0, pair.1, weights) }
}

/// The outcome of trying the first `n` of `pairs`: the candidates among them
/// that reach `cap`, in the order tried, or the failure of the first pair
/// that has no score.
pub open spec fn tried(pairs: Seq<(BlobInfo, BlobInfo)>, weights: Seq<real>, cap: real, n: nat)
    -> Result<Seq<CandidatePairView>, DegenerateInputError>
    decreases n,
{
    if n == 0 {
        Ok(Seq::empty())
    } else {
        match tried(pairs, weights, cap, (n - 1) as nat) {
            Err(e) => Err(e),
            Ok(accepted) => {
                let pair = pairs[n - 1];
                match score_error(pair.0, pair.1, weights) {
                    Some(e) => Err(e),
                    None => {
                        let c = candidate(pair, weights);
                        if c.score.aggregate < cap {
                            Ok(accepted)
                        } else {
                            Ok(accepted.push(c))
                        }
                    },
                }
            },
        }
    }
}

/// The accepted candidates of two blob sets, or the failure of the first
/// pair that has no score.
pub open spec fn accepted(
    set0: Seq<BlobInfo>,
    set1: Seq<BlobInfo>,
    weights: Seq<real>,
    cap: real,
) -> Result<Seq<CandidatePairView>, DegenerateInputError> {
    tried(pairs(set0, set1), weights, cap, pairs(set0, set1).len())
}

/// Whether `i` is the first position of the greatest number in `s`.
pub open spec fn is_first_maximum(s: Seq<real>, i: int) -> bool {
    &&& 0 <= i < s.len()
    &&& forall|j: int| 0 <= j < s.len() ==> s[j] <= s[i]
    &&& forall|j: int| 0 <= j < i ==> s[j] < s[i]
}

/// The first position of the greatest number in `s`, which is not empty.
pub open spec fn first_maximum(s: Seq<real>) -> int {
    choose|i: int| is_first_maximum(s, i)
}

/// The aggregate scores of the candidates.
pub open spec fn aggregates(candidates: Seq<CandidatePairView>) -> Seq<real> {
    Seq::new(candidates.len(), |i: int| candidates[i].score.aggregate)
}

/// The candidates as numbers.
pub open spec fn pair_views(candidates: Seq<CandidatePair>) -> Seq<CandidatePairView> {
    Seq::new(candidates.len(), |i: int| candidates[i]@)
}

/// The candidate of the greatest score, the first of several; none of none.
pub open spec fn best_of(candidates: Seq<CandidatePairView>) -> Option<CandidatePairView> {
    if candidates.len() == 0 {
        None
    } else {
        Some(candidates[first_maximum(aggregates(candidates))])
    }
}

/// The pair that is selected from two blob sets: the best of the accepted
/// candidates.
pub open spec fn best_pair(
    set0: Seq<BlobInfo>,
    set1: Seq<BlobInfo>,
    weights: Seq<real>,
    cap: real,
) -> Result<Option<CandidatePairView>, DegenerateInputError> {
    match accepted(set0, set1, weights, cap) {
        Err(e) => Err(e),
        Ok(candidates) => Ok(best_of(candidates)),
    }
}

/// A sequence has at most one first maximum.
pub proof fn lemma_first_maximum_unique(s: Seq<real>, i: int, j: int)
    requires
        is_first_maximum(s, i),
        is_first_maximum(s, j),
    ensures
        i == j,
{
    if i < j {
        assert(s[i] < s[j]);
    } else if j < i {
        assert(s[j] < s[i]);
    }
}

/// A sequence that is not empty has a first maximum.
pub proof fn lemma_first_maximum_exists(s: Seq<real>)
    requires
        s.len() > 0,
    ensures
        is_first_maximum(s, first_maximum(s)),
    decreases s.len(),
{
    if s.len() == 1 {
        assert(is_first_maximum(s, 0));
    } else {
        let shorter = s.drop_last();
        lemma_first_maximum_exists(shorter);
        let i = first_maximum(shorter);
        let last = s.len() - 1;
        assert forall|j: int| 0 <= j < last implies s[j] == shorter[j] by {}
        if s[i] < s[last] {
            assert(is_first_maximum(s, last));
        } else {
            assert(is_first_maximum(s, i));
        }
    }
}

/// Once a pair has failed, trying more pairs does not undo the failure.
proof fn lemma_failure_stays(
    pairs: Seq<(BlobInfo, BlobInfo)>,
    weights: Seq<real>,
    cap: real,
    n: nat,
    m: nat,
)
    requires
        n <= m,
        tried(pairs, weights, cap, n) is Err,
    ensures
        tried(pairs, weights, cap, m) == tried(pairs, weights, cap, n),
    decreases m,
{
    if m > n {
        lemma_failure_stays(pairs, weights, cap, n, (m - 1) as nat);
    }
}

/// Every accepted candidate reaches the cap.
pub proof fn lemma_tried_reach_cap(
    pairs: Seq<(BlobInfo, BlobInfo)>,
    weights: Seq<real>,
    cap: real,
    n: nat,
)
    ensures
        tried(pairs, weights, cap, n) matches Ok(candidates) ==> forall|i: int|
            0 <= i < candidates.len() ==> (#[trigger] candidates[i]).score.aggregate >= cap,
    decreases n,
{
    if n > 0 {
        lemma_tried_reach_cap(pairs, weights, cap, (n - 1) as nat);
    }
}

/// Every accepted candidate is one of the pairs that were tried, with the
/// score of that pair.
pub proof fn lemma_tried_are_scored_pairs(
    pairs: Seq<(BlobInfo, BlobInfo)>,
    weights: Seq<real>,
    cap: real,
    n: nat,
)
    ensures
        tried(pairs, weights, cap, n) matches Ok(candidates) ==> forall|i: int|
            0 <= i < candidates.len() ==> exists|k: int|
                0 <= k < n && #[trigger] candidates[i] == candidate(
                    #[trigger] pairs[k],
                    weights,
                ),
    decreases n,
{
    if n > 0 {
        let before = tried(pairs, weights, cap, (n - 1) as nat);
        lemma_tried_are_scored_pairs(pairs, weights, cap, (n - 1) as nat);
        if let Ok(candidates) = tried(pairs, weights, cap, n) {
            let earlier = before->Ok_0;
            assert forall|i: int| 0 <= i < candidates.len() implies exists|k: int|
                0 <= k < n && #[trigger] candidates[i] == candidate(#[trigger] pairs[k], weights) by {
                if i < earlier.len() {
                    let k = choose|k: int|
                        0 <= k < n - 1 && #[trigger] earlier[i] == candidate(
                            #[trigger] pairs[k],
                            weights,
                        );
                    assert(candidates[i] == candidate(pairs[k], weights));
                } else {
                    assert(candidates[i] == candidate(pairs[n - 1], weights));
                }
            }
        }
    }
}

/// In every accepted candidate the centroid y of `lower` is no greater than
/// that of `upper`, the blobs come one from each set, and the score is that
/// of the blobs in this order.
pub proof fn lemma_accepted_pairs_are_in_order(
    set0: Seq<BlobInfo>,
    set1: Seq<BlobInfo>,
    weights: Seq<real>,
    cap: real,
)
    ensures
        accepted(set0, set1, weights, cap) matches Ok(candidates) ==> forall|i: int|
            0 <= i < candidates.len() ==> {
                let c = #[trigger] candidates[i];
                &&& c.lower.centroid.y <= c.upper.centroid.y
                &&& c.score == score_of(c.lower, c.upper, weights)
                &&& (set0.contains(c.lower) && set1.contains(c.upper)) || (set1.contains(c.lower)
                    && set0.contains(c.upper))
            },
{
    let all = pairs(set0, set1);
    lemma_tried_are_scored_pairs(all, weights, cap, all.len());
    if let Ok(candidates) = accepted(set0, set1, weights, cap) {
        assert forall|i: int| 0 <= i < candidates.len() implies {
            let c = #[trigger] candidates[i];
            &&& c.lower.centroid.y <= c.upper.centroid.y
            &&& c.score == score_of(c.lower, c.upper, weights)
            &&& (set0.contains(c.lower) && set1.contains(c.upper)) || (set1.contains(c.lower)
                && set0.contains(c.upper))
        } by {
            let k = choose|k: int|
                0 <= k < all.len() && #[trigger] candidates[i] == candidate(
                    #[trigger] all[k],
                    weights,
                );
            let width = set1.len() as int;
            assert(width > 0) by (nonlinear_arith)
                requires
                    0 <= k < set0.len() * width,
                    set0.len() >= 0,
            ;
            lemma_fundamental_div_mod(k, width);
            lemma_div_pos_is_pos(k, width);
            lemma_mod_pos_bound(k, width);
            assert(k / width < set0.len()) by (nonlinear_arith)
                requires
                    0 <= k < set0.len() * width,
                    width > 0,
                    k == width * (k / width) + k % width,
                    0 <= k % width < width,
            ;
            let a = set0[k / width];
            let b = set1[k % width];
            assert(set0.contains(a));
            assert(set1.contains(b));
            assert(all[k] == in_order(a, b));
        }
    }
}

/// No selected pair scores below the similarity cap.
pub proof fn lemma_selected_pair_reaches_cap(
    set0: Seq<BlobInfo>,
    set1: Seq<BlobInfo>,
    weights: Seq<real>,
    cap: real,
)
    ensures
        best_pair(set0, set1, weights, cap) matches Ok(Some(pair)) ==> pair.score.aggregate
            >= cap,
{
    let all = pairs(set0, set1);
    lemma_tried_reach_cap(all, weights, cap, all.len());
    if let Ok(candidates) = accepted(set0, set1, weights, cap) {
        if candidates.len() > 0 {
            lemma_first_maximum_exists(aggregates(candidates));
        }
    }
}

/// The selected pair is an accepted candidate that no accepted candidate
/// outscores and that no earlier accepted candidate equals in score.
pub proof fn lemma_selected_pair_is_first_best(
    set0: Seq<BlobInfo>,
    set1: Seq<BlobInfo>,
    weights: Seq<real>,
    cap: real,
)
    ensures
        match accepted(set0, set1, weights, cap) {
            Err(e) => best_pair(set0, set1, weights, cap) == Err::<
                Option<CandidatePairView>,
                DegenerateInputError,
            >(e),
            Ok(candidates) => match best_pair(set0, set1, weights, cap) {
                Ok(Some(pair)) => exists|i: int|
                    {
                        &&& 0 <= i < candidates.len()
                        &&& #[trigger] candidates[i] == pair
                        &&& forall|j: int|
                            0 <= j < candidates.len() ==> (#[trigger] candidates[j]).score.aggregate
                                <= pair.score.aggregate
                        &&& forall|j: int|
                            0 <= j < i ==> (#[trigger] candidates[j]).score.aggregate
                                < pair.score.aggregate
                    },
                Ok(None) => candidates.len() == 0,
                Err(_) => false,
            },
        },
{
    if let Ok(candidates) = accepted(set0, set1, weights, cap) {
        if candidates.len() > 0 {
            let scores = aggregates(candidates);
            lemma_first_maximum_exists(scores);
            let i = first_maximum(scores);
            assert forall|j: int| 0 <= j < candidates.len() implies (#[trigger] candidates[j]).score.aggregate
                <= candidates[i].score.aggregate by {
                assert(scores[j] <= scores[i]);
            }
            assert forall|j: int| 0 <= j < i implies (#[trigger] candidates[j]).score.aggregate
                < candidates[i].score.aggregate by {
                assert(scores[j] < scores[i]);
            }
            assert(candidates[i] == candidates[i]);
        }
    }
}

/// Selection has one outcome: two results that both are the best pair of the
/// same blob sets under the same parameters are the same result.
pub proof fn lemma_selection_is_deterministic(
    set0: Seq<BlobInfo>,
    set1: Seq<BlobInfo>,
    weights: Seq<real>,
    cap: real,
    first: Result<Option<CandidatePairView>, DegenerateInputError>,
    second: Result<Option<CandidatePairView>, DegenerateInputError>,
)
    requires
        first == best_pair(set0, set1, weights, cap),
        second == best_pair(set0, set1, weights, cap),
    ensures
        first == second,
{
}

/// Where either blob set is empty, no pair is selected.
pub proof fn lemma_empty_set_selects_nothing(
    set0: Seq<BlobInfo>,
    set1: Seq<BlobInfo>,
    weights: Seq<real>,
    cap: real,
)
    requires
        set0.len() == 0 || set1.len() == 0,
    ensures
        best_pair(set0, set1, weights, cap) == Ok::<
            Option<CandidatePairView>,
            DegenerateInputError,
        >(None),
{
    assert(set0.len() * set1.len() == 0) by (nonlinear_arith)
        requires
            set0.len() == 0 || set1.len() == 0,
    ;
}

/// Where there is a pair to try, weights that are all zero fail the
/// selection.
pub proof fn lemma_zero_weights_fail_selection(
    set0: Seq<BlobInfo>,
    set1: Seq<BlobInfo>,
    weights: Seq<real>,
    cap: real,
)
    requires
        set0.len() > 0,
        set1.len() > 0,
        weights.len() == 4,
        forall|i: int| 0 <= i < 4 ==> #[trigger] weights[i] == 0real,
    ensures
        best_pair(set0, set1, weights, cap) is Err,
{
    let all = pairs(set0, set1);
    assert(set0.len() * set1.len() >= 1) by (nonlinear_arith)
        requires
            set0.len() >= 1,
            set1.len() >= 1,
    ;
    lemma_zero_weights_give_no_score(all[0].0, all[0].1, weights);
    assert(tried(all, weights, cap, 0) is Ok);
    assert(tried(all, weights, cap, 1) is Err);
    lemma_failure_stays(all, weights, cap, 1, all.len());
}

/// The candidates of two blob sets that reach the similarity cap, in the
/// order in which the pairs are tried.
///
/// Fails where a pair has no score, with the failure of the first such pair.
pub fn accepted_pairs(set0: &Vec<BlobInfo>, set1: &Vec<BlobInfo>, params: &TunableParameters) -> (r:
    Result<Vec<CandidatePair>, DegenerateInputError>)
    ensures
        match accepted(set0@, set1@, params@.component_weights, params@.similarity_cap) {
            Err(e) => r == Err::<Vec<CandidatePair>, DegenerateInputError>(e),
            Ok(candidates) => r is Ok && pair_views(r->Ok_0@) == candidates,
        },
{
    let ghost all = pairs(set0@, set1@);
    let ghost weights = params@.component_weights;
    let ghost cap = params@.similarity_cap;
    let ghost width = set1@.len() as int;
    let mut out: Vec<CandidatePair> = Vec::new();
    let mut i: usize = 0;
    proof {
        assert(0 * width == 0) by (nonlinear_arith);
        assert(pair_views(out@) =~= Seq::<CandidatePairView>::empty());
    }
    while i < set0.len()
        invariant
            i <= set0.len(),
            all == pairs(set0@, set1@),
            weights == params@.component_weights,
            cap == params@.similarity_cap,
            width == set1@.len(),
            0 <= i * width <= all.len(),
            tried(all, weights, cap, (i * width) as nat) == Ok::<
                Seq<CandidatePairView>,
                DegenerateInputError,
            >(pair_views(out@)),
        decreases set0.len() - i,
    {
        let mut j: usize = 0;
        proof {
            assert((i + 1) * width == i * width + width) by (nonlinear_arith);
            assert((i + 1) * width <= set0@.len() * width) by (nonlinear_arith)
                requires
                    i + 1 <= set0@.len(),
                    width >= 0,
            ;
        }
        while j < set1.len()
            invariant
                i < set0.len(),
                j <= set1.len(),
                all == pairs(set0@, set1@),
                weights == params@.component_weights,
                cap == params@.similarity_cap,
                width == set1@.len(),
                0 <= i * width,
                (i + 1) * width == i * width + width,
                (i + 1) * width <= all.len(),
                tried(all, weights, cap, (i * width + j) as nat) == Ok::<
                    Seq<CandidatePairView>,
                    DegenerateInputError,
                >(pair_views(out@)),
            decreases set1.len() - j,
        {
            let ghost k = i * width + j;
            let (lower, upper) = if set0[i].centroid.y > set1[j].centroid.y {
                (set1[j], set0[i])
            } else {
                (set0[i], set1[j])
            };
            proof {
                lemma_fundamental_div_mod_converse(k, width, i as int, j as int);
                assert(all[k] == (lower, upper));
            }
            match get_score(&lower, &upper, params) {
                Err(e) => {
                    proof {
                        lemma_failure_stays(all, weights, cap, (k + 1) as nat, all.len());
                    }
                    return Err(e);
                },
                Ok(score) => {
                    if !score.aggregate.less_than(params.similarity_cap()) {
                        let ghost before = pair_views(out@);
                        let found = CandidatePair { lower, upper, score };
                        out.push(found);
                        proof {
                            assert(pair_views(out@) =~= before.push(found@));
                        }
                    }
                },
            }
            j += 1;
        }
        i += 1;
    }
    Ok(out)
}

/// The position of the candidate of the greatest score, the first of several;
/// none of none.
pub fn best_candidate(candidates: &Vec<CandidatePair>) -> (r: Option<usize>)
    ensures
        r is None <==> candidates@.len() == 0,
        r matches Some(i) ==> is_first_maximum(aggregates(pair_views(candidates@)), i as int),
{
    if candidates.len() == 0 {
        return None;
    }
    let ghost scores = aggregates(pair_views(candidates@));
    let mut best: usize = 0;
    let mut i: usize = 1;
    while i < candidates.len()
        invariant
            1 <= i <= candidates.len(),
            best < i,
            scores == aggregates(pair_views(candidates@)),
            forall|j: int| 0 <= j < i ==> scores[j] <= scores[best as int],
            forall|j: int| 0 <= j < best ==> scores[j] < scores[best as int],
        decreases candidates.len() - i,
    {
        if candidates[best].score.aggregate.less_than(&candidates[i].score.aggregate) {
            best = i;
        }
        i += 1;
    }
    Some(best)
}

/// The best pair of two blob sets: of the pairs whose score reaches the
/// similarity cap the one of the greatest score, the first tried of several.
///
/// There is none where no pair reaches the cap, and so where either set is
/// empty. Fails where a pair has no score, with the failure of the first such
/// pair.
pub fn select_best_pair(set0: &Vec<BlobInfo>, set1: &Vec<BlobInfo>, params: &TunableParameters)
    -> (r: Result<Option<CandidatePair>, DegenerateInputError>)
    ensures
        match best_pair(set0@, set1@, params@.component_weights, params@.similarity_cap) {
            Err(e) => r == Err::<Option<CandidatePair>, DegenerateInputError>(e),
            Ok(None) => r is Ok && r->Ok_0 is None,
            Ok(Some(pair)) => r matches Ok(Some(found)) && found@ == pair,
        },
{
    let mut candidates = match accepted_pairs(set0, set1, params) {
        Err(e) => {
            return Err(e);
        },
        Ok(candidates) => candidates,
    };
    match best_candidate(&candidates) {
        None => Ok(None),
        Some(i) => {
            proof {
                let scores = aggregates(pair_views(candidates@));
                lemma_first_maximum_exists(scores);
                lemma_first_maximum_unique(scores, i as int, first_maximum(scores));
            }
            Ok(Some(candidates.remove(i)))
        },
    }
}

/// Half of `sum`, rounded toward zero.
pub open spec fn half_toward_zero(sum: int) -> int {
    if sum >= 0 {
        sum / 2
    } else {
        -((-sum) / 2)
    }
}

/// The point midway between two points, each coordinate rounded toward zero.
pub open spec fn midpoint(a: Point, b: Point) -> Point {
    Point {
        x: half_toward_zero(a.x + b.x) as i32,
        y: half_toward_zero(a.y + b.y) as i32,
    }
}

/// The position that a pair marks: the point midway between the centroids of
/// its blobs.
pub fn final_position(lower: &BlobInfo, upper: &BlobInfo) -> (r: Point)
    ensures
        r == midpoint(lower.centroid, upper.centroid),
        r.x == half_toward_zero(lower.centroid.x + upper.centroid.x),
        r.y == half_toward_zero(lower.centroid.y + upper.centroid.y),
{
    let x: i64 = (lower.centroid.x as i64 + upper.centroid.x as i64) / 2;
    let y: i64 = (lower.centroid.y as i64 + upper.centroid.y as i64) / 2;
    Point { x: x as i32, y: y as i32 }
}

} // verus!
