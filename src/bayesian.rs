//! The grid search of the acquisition step: candidates, the choice of the
//! first best one, and the folding of proposals into the unit interval.
use vstd::prelude::*;

use crate::PROB_ONE;

verus! {

/// Number of evenly spaced candidates the acquisition search tries in
/// `[0, PROB_ONE]`.
pub const GRID_POINTS: usize = 100;

/// Candidate `i` of the search grid, in parts per million.
pub open spec fn grid_value(i: int) -> int {
    i * PROB_ONE / (GRID_POINTS - 1) as int
}

/// The first index at which `scores` is largest.
pub open spec fn is_first_max(scores: Seq<i64>, r: int) -> bool {
    &&& 0 <= r < scores.len()
    &&& forall|j: int| 0 <= j < scores.len() ==> #[trigger] scores[j] <= scores[r]
    &&& forall|j: int| 0 <= j < r ==> #[trigger] scores[j] < scores[r]
}

/// Candidate `i` of the search grid.
pub fn grid_point(i: usize) -> (r: u64)
    requires
        i < GRID_POINTS,
    ensures
        r as int == grid_value(i as int),
        r <= PROB_ONE,
{
    assert(i * PROB_ONE / 99 <= PROB_ONE) by (nonlinear_arith)
        requires
            0 <= i <= 99,
    ;
    (i as u64) * PROB_ONE / 99
}

/// The index of the first largest score.
pub fn first_max_index(scores: &Vec<i64>) -> (r: usize)
    requires
        scores@.len() >= 1,
    ensures
        is_first_max(scores@, r as int),
{
    let mut best: usize = 0;
    let mut i: usize = 1;
    while i < scores.len()
        invariant
            scores@.len() >= 1,
            1 <= i <= scores@.len(),
            best < i,
            forall|j: int| 0 <= j < i ==> #[trigger] scores@[j] <= scores@[best as int],
            forall|j: int| 0 <= j < best ==> #[trigger] scores@[j] < scores@[best as int],
        decreases scores@.len() - i,
    {
        if scores[i] > scores[best] {
            best = i;
        }
        i = i + 1;
    }
    best
}

/// The grid candidate whose acquisition score is largest, the first one on
/// ties. `scores[i]` ranks candidate `i` (a larger key is a better
/// candidate); an untrained surrogate ranks every candidate alike and gets
/// the lowest one. The result always lies in `[0, PROB_ONE]`.
pub fn select_next_point(scores: &Vec<i64>) -> (r: u64)
    requires
        scores@.len() == GRID_POINTS,
    ensures
        exists|i: int| is_first_max(scores@, i) && r as int == grid_value(i),
        r <= PROB_ONE,
{
    let i = first_max_index(scores);
    grid_point(i)
}

/// Folds a proposed rate into `[0, PROB_ONE]`: a negative rate is reflected,
/// and a rate above certainty is replaced by its reciprocal.
pub open spec fn folded(x: int) -> int {
    let y = if x < 0 {
        -x
    } else {
        x
    };
    if y > PROB_ONE {
        (PROB_ONE * PROB_ONE) as int / y
    } else {
        y
    }
}

pub fn fold_unit(x: i64) -> (r: i64)
    requires
        x > i64::MIN,
    ensures
        r as int == folded(x as int),
        0 <= r <= PROB_ONE,
{
    let y: i64 = if x < 0 {
        -x
    } else {
        x
    };
    if y > PROB_ONE as i64 {
        assert((PROB_ONE * PROB_ONE) as int / (y as int) <= PROB_ONE) by (nonlinear_arith)
            requires
                y > 1_000_000,
        ;
        ((PROB_ONE * PROB_ONE) as i64) / y
    } else {
        y
    }
}

} // verus!
