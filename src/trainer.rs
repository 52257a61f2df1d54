//! Calibration of the transmission rate: the mean residual against observed
//! case counts, replicate runs and hill-climbing.
use vstd::prelude::*;

use vstd::arithmetic::div_mod::{lemma_fundamental_div_mod, lemma_fundamental_div_mod_converse_div};

use crate::draws::draw_unit;
use crate::kernels::COORD_LIMIT;
use crate::intervention::Intervention;
use crate::sirmodel::{count_flagged, SIRModel};
use crate::PROB_ONE;

verus! {

/// Number of days every calibration run simulates.
pub const CALIBRATION_DAYS: usize = 40;

/// Largest case count or population size the calibration takes.
pub const MAX_COUNT: usize = 4_294_967_295;

/// The search strategy of a `Trainer`.
#[derive(PartialEq, Eq, Structural, Clone, Copy, Debug)]
pub enum TrainModel {
    /// Hill-climbing on the mean residual.
    Simple,
    /// Surrogate-driven search, which needs a Gaussian-process model.
    Bayesian,
}

/// `a / b` rounded towards zero, for `b > 0`.
pub open spec fn div_trunc(a: int, b: int) -> int {
    if a >= 0 {
        a / b
    } else {
        -((-a) / b)
    }
}

/// Sum over the first `n` days of `expected[d] * sim_pop - simulated[d] *
/// exp_pop`: the residual of the observed fraction against the simulated one,
/// scaled by both population sizes.
pub open spec fn residual_sum(
    expected: Seq<usize>,
    simulated: Seq<usize>,
    exp_pop: int,
    sim_pop: int,
    n: nat,
) -> int
    decreases n,
{
    if n == 0 {
        0
    } else {
        residual_sum(expected, simulated, exp_pop, sim_pop, (n - 1) as nat) + (expected[n - 1]
            * sim_pop - simulated[n - 1] * exp_pop)
    }
}

/// The signed mean residual `num / den` of a calibration run, kept exact.
#[derive(PartialEq, Eq, Structural, Clone, Copy, Debug)]
pub struct Residual {
    pub num: i128,
    pub den: i128,
}

impl Residual {
    /// A positive denominator, and a mean of at most `MAX_COUNT + 1` in
    /// magnitude.
    pub open spec fn wf(&self) -> bool {
        &&& 1 <= self.den <= 0x1_0000_0000_0000_0000_0000_0000
        &&& -0x1_0000_0000 * self.den <= self.num <= 0x1_0000_0000 * self.den
        &&& -0x1_0000_0000_0000_0000_0000_0000 <= self.num <= 0x1_0000_0000_0000_0000_0000_0000
    }

    /// The mean in parts per million, rounded towards zero.
    pub fn per_million(&self) -> (r: i64)
        requires
            self.wf(),
        ensures
            r as int == div_trunc(self.num * PROB_ONE, self.den as int),
            -0x10_0000_0000_0000 <= r <= 0x10_0000_0000_0000,
    {
        let neg = self.num < 0;
        let a: i128 = if neg {
            -self.num
        } else {
            self.num
        };
        let d = self.den;
        let q: i128 = a / d;
        let rem: i128 = a % d;
        proof {
            lemma_fundamental_div_mod(a as int, d as int);
            assert(q <= 0x1_0000_0000) by (nonlinear_arith)
                requires
                    a == d * q + rem,
                    0 <= rem,
                    0 <= a <= 0x1_0000_0000 * d,
                    d >= 1,
            ;
            assert(0 <= q) by (nonlinear_arith)
                requires
                    q == a / d,
                    0 <= a,
                    d >= 1,
            ;
            assert(rem * 1_000_000 < d * 1_000_000) by (nonlinear_arith)
                requires
                    rem < d,
            ;
        }
        let scaled: i128 = rem * 1_000_000;
        let q2: i128 = scaled / d;
        let r2: i128 = scaled % d;
        proof {
            lemma_fundamental_div_mod(scaled as int, d as int);
            assert(q2 < 1_000_000 && 0 <= q2) by (nonlinear_arith)
                requires
                    scaled == d * q2 + r2,
                    0 <= r2 < d,
                    0 <= scaled < d * 1_000_000,
            ;
            assert(a * 1_000_000 == (q * 1_000_000 + q2) * d + r2) by (nonlinear_arith)
                requires
                    a == d * q + rem,
                    scaled == rem * 1_000_000,
                    scaled == d * q2 + r2,
            ;
            lemma_fundamental_div_mod_converse_div(
                a * 1_000_000,
                d as int,
                q * 1_000_000 + q2,
                r2 as int,
            );
        }
        let m: i128 = q * 1_000_000 + q2;
        if neg {
            (-m) as i64
        } else {
            m as i64
        }
    }
}

proof fn lemma_count_flagged_bound(s: Seq<u32>)
    ensures
        count_flagged(s) <= s.len(),
    decreases s.len(),
{
    if s.len() > 0 {
        lemma_count_flagged_bound(s.drop_last());
    }
}

/// The calibration driver: repeated, replicate-averaged runs of one engine.
pub struct Trainer {
    pub baseModel: SIRModel,
    /// Replicate runs per epoch.
    pub numModels: usize,
    pub numEpochs: usize,
    /// Historical case counts; the first series is the one fitted.
    pub startingData: Vec<Vec<usize>>,
    /// Transmission rates tried so far, in parts per million.
    pub guesses: Vec<i64>,
    pub trainingmodel: TrainModel,
    /// Learning rate in parts per million.
    pub learningrate: i64,
    pub expPopSize: usize,
    pub simPopSize: usize,
}

/// A transmission rate that the engine accepts as a centre.
pub open spec fn rate_ok(r: int) -> bool {
    -COORD_LIMIT / 2 <= r <= COORD_LIMIT / 2
}

pub open spec fn clamp_rate_to_range(x: int) -> int {
    if x < -COORD_LIMIT / 2 {
        -COORD_LIMIT / 2
    } else if x > COORD_LIMIT / 2 {
        COORD_LIMIT / 2
    } else {
        x
    }
}

impl Trainer {
    /// The engine is consistent, the fitted series covers the calibration
    /// horizon and starts with at most as many cases as the engine has
    /// agents, and every count is at most `MAX_COUNT`.
    pub open spec fn wf(&self) -> bool {
        &&& self.baseModel.wf()
        &&& 1 <= self.baseModel.popsize <= MAX_COUNT
        &&& self.startingData@.len() >= 1
        &&& self.startingData@[0]@.len() >= CALIBRATION_DAYS
        &&& self.startingData@[0]@[0] <= self.baseModel.popsize
        &&& forall|d: int|
            0 <= d < self.startingData@[0]@.len() ==> #[trigger] self.startingData@[0]@[d]
                <= MAX_COUNT
        &&& forall|k: int| 0 <= k < self.guesses@.len() ==> rate_ok(#[trigger] self.guesses@[k] as int)
    }

    pub fn new(
        baseModel: SIRModel,
        numModels: usize,
        numEpochs: usize,
        startingData: Vec<Vec<usize>>,
        guesses: Vec<i64>,
        trainingmodel: TrainModel,
        learningrate: i64,
        expPopSize: usize,
        simPopSize: usize,
    ) -> (r: Trainer)
        ensures
            r == (Trainer {
                baseModel,
                numModels,
                numEpochs,
                startingData,
                guesses,
                trainingmodel,
                learningrate,
                expPopSize,
                simPopSize,
            }),
    {
        Trainer {
            baseModel,
            numModels,
            numEpochs,
            startingData,
            guesses,
            trainingmodel,
            learningrate,
            expPopSize,
            simPopSize,
        }
    }

    /// The mean over the simulated days of the observed fraction
    /// `expected[d] / expectedPopSize` minus the simulated fraction
    /// `simulated[d] / simPopSize`, as an exact fraction.
    pub fn error(
        expected: Vec<usize>,
        simulated: Vec<usize>,
        expectedPopSize: usize,
        simPopSize: usize,
    ) -> (r: Residual)
        requires
            1 <= simulated@.len() <= MAX_COUNT,
            simulated@.len() <= expected@.len(),
            1 <= expectedPopSize <= MAX_COUNT,
            1 <= simPopSize <= MAX_COUNT,
            forall|d: int| 0 <= d < expected@.len() ==> #[trigger] expected@[d] <= MAX_COUNT,
            forall|d: int| 0 <= d < simulated@.len() ==> #[trigger] simulated@[d] <= MAX_COUNT,
        ensures
            r.wf(),
            r.num == residual_sum(
                expected@,
                simulated@,
                expectedPopSize as int,
                simPopSize as int,
                simulated@.len(),
            ),
            r.den == simulated@.len() * expectedPopSize * simPopSize,
    {
        let n = simulated.len();
        let e: i128 = expectedPopSize as i128;
        let s: i128 = simPopSize as i128;
        let mut sum: i128 = 0;
        let mut i: usize = 0;
        while i < n
            invariant
                n == simulated@.len(),
                n <= expected@.len(),
                n <= MAX_COUNT,
                i <= n,
                e == expectedPopSize,
                s == simPopSize,
                1 <= e <= MAX_COUNT,
                1 <= s <= MAX_COUNT,
                forall|d: int| 0 <= d < expected@.len() ==> #[trigger] expected@[d] <= MAX_COUNT,
                forall|d: int| 0 <= d < simulated@.len() ==> #[trigger] simulated@[d] <= MAX_COUNT,
                sum == residual_sum(expected@, simulated@, e as int, s as int, i as nat),
                -0x1_0000_0000 * (i * e * s) <= sum <= 0x1_0000_0000 * (i * e * s),
                -(i * 0x1_0000_0000_0000_0000) <= sum <= i * 0x1_0000_0000_0000_0000,
            decreases n - i,
        {
            let x: i128 = expected[i] as i128;
            let y: i128 = simulated[i] as i128;
            assert(0 <= x * s <= 0xFFFF_FFFF * s && 0 <= y * e <= 0xFFFF_FFFF * e) by (nonlinear_arith)
                requires
                    0 <= x <= 0xFFFF_FFFF,
                    0 <= y <= 0xFFFF_FFFF,
                    1 <= e,
                    1 <= s,
            ;
            assert(0xFFFF_FFFF * s <= 0x1_0000_0000 * e * s && 0xFFFF_FFFF * e <= 0x1_0000_0000 * e
                * s) by (nonlinear_arith)
                requires
                    1 <= e,
                    1 <= s,
            ;
            assert(0xFFFF_FFFF * s < 0x1_0000_0000_0000_0000 && 0xFFFF_FFFF * e
                < 0x1_0000_0000_0000_0000) by (nonlinear_arith)
                requires
                    1 <= e <= 0xFFFF_FFFF,
                    1 <= s <= 0xFFFF_FFFF,
            ;
            assert(0x1_0000_0000 * ((i + 1) * e * s) == 0x1_0000_0000 * (i * e * s) + 0x1_0000_0000
                * e * s) by (nonlinear_arith);
            assert(i * 0x1_0000_0000_0000_0000 <= 0xFFFF_FFFF * 0x1_0000_0000_0000_0000) by (
            nonlinear_arith)
                requires
                    i < 0xFFFF_FFFF,
            ;
            sum = sum + (x * s - y * e);
            i = i + 1;
        }
        assert(1 <= n * e * s <= 0x1_0000_0000_0000_0000_0000_0000) by (nonlinear_arith)
            requires
                1 <= n <= 0xFFFF_FFFF,
                1 <= e <= 0xFFFF_FFFF,
                1 <= s <= 0xFFFF_FFFF,
        ;
        assert(n * e <= 0xFFFF_FFFF * 0xFFFF_FFFF) by (nonlinear_arith)
            requires
                1 <= n <= 0xFFFF_FFFF,
                1 <= e <= 0xFFFF_FFFF,
        ;
        let ns: i128 = n as i128 * e;
        assert(ns * s == n * e * s);
        Residual { num: sum, den: ns * s }
    }
}

/// The hill-climbing step: the guess moves by the learning rate times the
/// mean residual (both in parts per million), kept within the range of
/// rates the engine accepts.
pub open spec fn stepped_guess(guess: int, learningrate: int, mean_error: int) -> int {
    clamp_rate_to_range(guess + div_trunc(learningrate * mean_error, PROB_ONE as int))
}

/// The next transmission rate of a hill-climbing epoch.
pub fn next_guess(guess: i64, learningrate: i64, mean_error: i64) -> (r: i64)
    requires
        rate_ok(guess as int),
        -0x10_0000_0000_0000 <= mean_error <= 0x10_0000_0000_0000,
    ensures
        r as int == stepped_guess(guess as int, learningrate as int, mean_error as int),
        rate_ok(r as int),
{
    assert(-0x8000_0000_0000_0000 * 0x10_0000_0000_0000 <= learningrate * mean_error
        <= 0x8000_0000_0000_0000 * 0x10_0000_0000_0000) by (nonlinear_arith)
        requires
            -0x8000_0000_0000_0000 <= learningrate <= 0x7FFF_FFFF_FFFF_FFFF,
            -0x10_0000_0000_0000 <= mean_error <= 0x10_0000_0000_0000,
    ;
    let p: i128 = learningrate as i128 * mean_error as i128;
    let step: i128 = if p >= 0 {
        p / (PROB_ONE as i128)
    } else {
        -((-p) / (PROB_ONE as i128))
    };
    let x: i128 = guess as i128 + step;
    let lim: i128 = (COORD_LIMIT / 2) as i128;
    if x < -lim {
        -(COORD_LIMIT / 2)
    } else if x > lim {
        COORD_LIMIT / 2
    } else {
        x as i64
    }
}


/// The mean residual of one run's daily infected counts, in parts per
/// million, rounded towards zero.
pub open spec fn run_error(expected: Seq<usize>, counts: Seq<usize>, exp_pop: int, sim_pop: int) -> int {
    div_trunc(
        residual_sum(expected, counts, exp_pop, sim_pop, counts.len()) * PROB_ONE,
        counts.len() * exp_pop * sim_pop,
    )
}

pub open spec fn sum_run_errors(
    runs: Seq<Vec<usize>>,
    expected: Seq<usize>,
    exp_pop: int,
    sim_pop: int,
    n: nat,
) -> int
    decreases n,
{
    if n == 0 {
        0
    } else {
        sum_run_errors(runs, expected, exp_pop, sim_pop, (n - 1) as nat) + run_error(
            expected,
            runs[n - 1]@,
            exp_pop,
            sim_pop,
        )
    }
}

/// The mean over the runs of their mean residuals, rounded towards zero.
pub open spec fn mean_run_error(
    runs: Seq<Vec<usize>>,
    expected: Seq<usize>,
    exp_pop: int,
    sim_pop: int,
) -> int {
    div_trunc(sum_run_errors(runs, expected, exp_pop, sim_pop, runs.len()), runs.len() as int)
}

/// Every run covers at least one day and at most the observed series, with
/// counts of at most `MAX_COUNT`.
pub open spec fn runs_ok(runs: Seq<Vec<usize>>, expected: Seq<usize>) -> bool {
    forall|k: int|
        0 <= k < runs.len() ==> {
            &&& 1 <= (#[trigger] runs[k])@.len() <= expected.len()
            &&& runs[k]@.len() <= MAX_COUNT
            &&& forall|d: int| 0 <= d < runs[k]@.len() ==> #[trigger] runs[k]@[d] <= MAX_COUNT
        }
}

/// The mean, in parts per million, of the mean residuals of the given runs
/// against the observed series `expected`.
pub fn mean_replicate_error(
    runs: &Vec<Vec<usize>>,
    expected: &Vec<usize>,
    expectedPopSize: usize,
    simPopSize: usize,
) -> (r: i64)
    requires
        runs@.len() >= 1,
        runs_ok(runs@, expected@),
        forall|d: int| 0 <= d < expected@.len() ==> #[trigger] expected@[d] <= MAX_COUNT,
        1 <= expectedPopSize <= MAX_COUNT,
        1 <= simPopSize <= MAX_COUNT,
    ensures
        r as int == mean_run_error(runs@, expected@, expectedPopSize as int, simPopSize as int),
        -0x10_0000_0000_0000 <= r <= 0x10_0000_0000_0000,
{
    let n = runs.len();
    let mut sum: i128 = 0;
    let mut k: usize = 0;
    while k < n
        invariant
            n == runs@.len(),
            runs_ok(runs@, expected@),
            forall|d: int| 0 <= d < expected@.len() ==> #[trigger] expected@[d] <= MAX_COUNT,
            1 <= expectedPopSize <= MAX_COUNT,
            1 <= simPopSize <= MAX_COUNT,
            k <= n,
            sum == sum_run_errors(runs@, expected@, expectedPopSize as int, simPopSize as int, k as nat),
            -0x10_0000_0000_0000 * k <= sum <= 0x10_0000_0000_0000 * k,
        decreases n - k,
    {
        let counts = runs[k].clone();
        assert(counts@ =~= runs@[k as int]@);
        let observed = expected.clone();
        assert(observed@ =~= expected@);
        let res = Trainer::error(observed, counts, expectedPopSize, simPopSize);
        let e = res.per_million();
        sum = sum + e as i128;
        k = k + 1;
    }
    let m: i128 = n as i128;
    let mean: i128 = if sum >= 0 {
        sum / m
    } else {
        -((-sum) / m)
    };
    assert(-0x10_0000_0000_0000 <= mean <= 0x10_0000_0000_0000) by (nonlinear_arith)
        requires
            -0x10_0000_0000_0000 * m <= sum <= 0x10_0000_0000_0000 * m,
            m >= 1,
            mean == div_trunc(sum as int, m as int),
    ;
    mean as i64
}

/// What a calibration run takes over from the engine it is run on: all of
/// its setup but the transmission-rate centre.
pub open spec fn world(m: SIRModel) -> (usize, i64, (i64, i64), (i64, i64), i64, usize, Seq<Intervention>) {
    (
        m.popsize,
        m.spreadWidth,
        m.spawnLoc,
        m.velocityMinMax,
        m.infRad,
        m.infectiousPeriod,
        m.interventions@,
    )
}

/// The daily infected counts of an engine.
pub open spec fn counts_of(m: SIRModel) -> Seq<usize> {
    Seq::new(m.daysRun as nat, |d: int| count_flagged(m.populationinf@[d]@) as usize)
}

/// `m` is a complete calibration run in the world `w`: reset with `obs`
/// infected agents, at the transmission rate `candidate`, over the
/// calibration horizon, every day computed from the day before.
pub open spec fn is_calibration_run(
    m: SIRModel,
    w: (usize, i64, (i64, i64), (i64, i64), i64, usize, Seq<Intervention>),
    obs: int,
    candidate: int,
) -> bool {
    &&& m.wf()
    &&& world(m) == w
    &&& m.simulated
    &&& m.daysRun == CALIBRATION_DAYS
    &&& m.daysDone == m.daysRun
    &&& m.startInfNum == obs
    &&& m.spreadRate == candidate
    &&& count_flagged(m.populationinf@[0]@) == obs
    &&& forall|d: int| 1 <= d < m.daysRun ==> #[trigger] m.day_stepped(d)
}

/// `counts` are the daily infected counts of some complete calibration run.
pub open spec fn calibration_counts(
    w: (usize, i64, (i64, i64), (i64, i64), i64, usize, Seq<Intervention>),
    obs: int,
    candidate: int,
    counts: Seq<usize>,
) -> bool {
    exists|m: SIRModel| #[trigger] is_calibration_run(m, w, obs, candidate) && counts_of(m) == counts
}

/// `r` is the mean residual of the runs `runs`, each a complete calibration
/// run at `candidate` against the series `expected`.
pub open spec fn runs_give(
    w: (usize, i64, (i64, i64), (i64, i64), i64, usize, Seq<Intervention>),
    expected: Seq<usize>,
    exp_pop: int,
    candidate: int,
    runs: Seq<Vec<usize>>,
    r: int,
) -> bool {
    &&& forall|k: int|
        0 <= k < runs.len() ==> calibration_counts(w, expected[0] as int, candidate, #[trigger] runs[k]@)
    &&& runs_ok(runs, expected)
    &&& r == mean_run_error(runs, expected, exp_pop, w.0 as int)
}

/// `r` is the mean residual of some `replicates` complete calibration runs at
/// `candidate`.
pub open spec fn replicate_outcome(
    w: (usize, i64, (i64, i64), (i64, i64), i64, usize, Seq<Intervention>),
    expected: Seq<usize>,
    exp_pop: int,
    candidate: int,
    replicates: int,
    r: int,
) -> bool {
    exists|runs: Seq<Vec<usize>>|
        runs.len() == replicates && #[trigger] runs_give(w, expected, exp_pop, candidate, runs, r)
}

/// `next` is the hill-climbing step from `prev` by the mean residual of some
/// `replicates` calibration runs at `prev`.
pub open spec fn learned_step(
    w: (usize, i64, (i64, i64), (i64, i64), i64, usize, Seq<Intervention>),
    expected: Seq<usize>,
    exp_pop: int,
    replicates: int,
    learningrate: int,
    prev: int,
    next: int,
) -> bool {
    exists|m: int|
        #[trigger] replicate_outcome(w, expected, exp_pop, prev, replicates, m) && next
            == stepped_guess(prev, learningrate, m)
}

impl Trainer {
    /// What a calibration run keeps of the trainer: everything but the
    /// engine's snapshots and transmission-rate centre.
    pub open spec fn kept_by_run(&self, prev: &Trainer) -> bool {
        &&& self.wf()
        &&& self.numModels == prev.numModels
        &&& self.numEpochs == prev.numEpochs
        &&& self.startingData@ == prev.startingData@
        &&& self.trainingmodel == prev.trainingmodel
        &&& self.learningrate == prev.learningrate
        &&& self.expPopSize == prev.expPopSize
        &&& self.simPopSize == prev.simPopSize
        &&& world(self.baseModel) == world(prev.baseModel)
    }

    /// The mean residual, in parts per million, of `replicates` runs at the
    /// transmission rate `candidate`. Each run resets the engine with the
    /// first observed case count as its infected agents, sets the rate and
    /// the calibration horizon, and runs it; its infected counts are compared
    /// with the fitted series, and the runs' residuals are averaged.
    pub fn replicate_error(&mut self, candidate: i64, replicates: usize, expectedPopSize: usize) -> (r:
        i64)
        requires
            old(self).wf(),
            replicates >= 1,
            rate_ok(candidate as int),
            1 <= expectedPopSize <= MAX_COUNT,
        ensures
            final(self).kept_by_run(old(self)),
            final(self).guesses@ == old(self).guesses@,
            is_calibration_run(
                final(self).baseModel,
                world(old(self).baseModel),
                old(self).startingData@[0]@[0] as int,
                candidate as int,
            ),
            replicate_outcome(
                world(old(self).baseModel),
                old(self).startingData@[0]@,
                expectedPopSize as int,
                candidate as int,
                replicates as int,
                r as int,
            ),
            -0x10_0000_0000_0000 <= r <= 0x10_0000_0000_0000,
    {
        let ghost w = world(old(self).baseModel);
        let ghost obs = old(self).startingData@[0]@[0] as int;
        let mut runs: Vec<Vec<usize>> = Vec::new();
        let mut k: usize = 0;
        while k < replicates
            invariant
                old(self).wf(),
                self.wf(),
                k <= replicates,
                rate_ok(candidate as int),
                1 <= expectedPopSize <= MAX_COUNT,
                w == world(old(self).baseModel),
                obs == old(self).startingData@[0]@[0],
                k > 0 ==> self.kept_by_run(old(self)) && is_calibration_run(
                    self.baseModel,
                    w,
                    obs,
                    candidate as int,
                ),
                k == 0 ==> *self == *old(self),
                self.guesses@ == old(self).guesses@,
                self.startingData@ == old(self).startingData@,
                world(self.baseModel) == w,
                runs@.len() == k,
                runs_ok(runs@, self.startingData@[0]@),
                forall|j: int|
                    0 <= j < k ==> calibration_counts(w, obs, candidate as int, #[trigger] runs@[j]@),
            decreases replicates - k,
        {
            let obs_now = self.startingData[0][0];
            self.baseModel.clearOut(obs_now);
            self.baseModel.setSpread(candidate);
            self.baseModel.setDays(CALIBRATION_DAYS);
            self.baseModel.runSim();
            let infected = self.baseModel.numInfected();
            proof {
                let m = self.baseModel;
                assert forall|d: int| 0 <= d < infected@.len() implies #[trigger] infected@[d]
                    <= MAX_COUNT by {
                    assert(m.day_ok(d));
                    lemma_count_flagged_bound(m.populationinf@[d]@);
                }
                assert(infected@ =~= counts_of(m));
                assert(is_calibration_run(m, w, obs, candidate as int));
                assert(calibration_counts(w, obs, candidate as int, infected@));
            }
            let ghost before = runs@;
            runs.push(infected);
            proof {
                assert forall|j: int| 0 <= j < k + 1 implies calibration_counts(
                    w,
                    obs,
                    candidate as int,
                    #[trigger] runs@[j]@,
                ) by {
                    if j < k {
                        assert(runs@[j] == before[j]);
                    }
                }
                assert forall|j: int| 0 <= j < runs@.len() implies {
                    &&& 1 <= (#[trigger] runs@[j])@.len() <= self.startingData@[0]@.len()
                    &&& runs@[j]@.len() <= MAX_COUNT
                    &&& forall|d: int| 0 <= d < runs@[j]@.len() ==> #[trigger] runs@[j]@[d] <= MAX_COUNT
                } by {
                    if j < k {
                        assert(runs@[j] == before[j]);
                    }
                }
            }
            k = k + 1;
        }
        let expected = self.startingData[0].clone();
        assert(expected@ =~= self.startingData@[0]@);
        let r = mean_replicate_error(&runs, &expected, expectedPopSize, self.baseModel.popsize);
        assert(runs_give(w, old(self).startingData@[0]@, expectedPopSize as int, candidate as int, runs@, r as int));
        r
    }

    /// Runs the search. In the hill-climbing mode each epoch evaluates the
    /// previous epoch's guess (a random rate in the first epoch) over
    /// `numModels` replicate runs and records the guess moved by the
    /// learning rate times their mean residual; the last guess is returned.
    /// The surrogate-driven mode is not run here: it returns `None` and
    /// leaves the trainer as it is.
    pub fn train(&mut self, expectedPopSize: usize) -> (r: Option<i64>)
        requires
            old(self).wf(),
            old(self).numModels >= 1,
            1 <= expectedPopSize <= MAX_COUNT,
        ensures
            old(self).trainingmodel == TrainModel::Bayesian ==> r is None && *final(self) == *old(
                self,
            ),
            old(self).trainingmodel == TrainModel::Simple ==> {
                let g = final(self).guesses@;
                let l = old(self).guesses@.len();
                let w = world(old(self).baseModel);
                let data = old(self).startingData@[0]@;
                let n = old(self).numModels as int;
                let lr = old(self).learningrate as int;
                &&& final(self).wf()
                &&& g.len() == l + old(self).numEpochs
                &&& g.subrange(0, l as int) == old(self).guesses@
                &&& r == if g.len() == 0 {
                    None
                } else {
                    Some(g.last())
                }
                &&& forall|ep: int|
                    1 <= ep < old(self).numEpochs ==> learned_step(
                        w,
                        data,
                        expectedPopSize as int,
                        n,
                        lr,
                        #[trigger] g[l + ep - 1] as int,
                        g[l + ep] as int,
                    )
                &&& old(self).numEpochs >= 1 ==> exists|seed: int|
                    0 <= seed < PROB_ONE && #[trigger] learned_step(
                        w,
                        data,
                        expectedPopSize as int,
                        n,
                        lr,
                        seed,
                        g[l as int] as int,
                    )
            },
    {
        if self.trainingmodel == TrainModel::Bayesian {
            return None;
        }
        let ghost w = world(old(self).baseModel);
        let ghost data = old(self).startingData@[0]@;
        let l = self.guesses.len();
        let lr = self.learningrate;
        let mut ep: usize = 0;
        while ep < self.numEpochs
            invariant
                self.wf(),
                self.numEpochs == old(self).numEpochs,
                self.numModels == old(self).numModels,
                self.numModels >= 1,
                self.learningrate == lr,
                lr == old(self).learningrate,
                self.trainingmodel == old(self).trainingmodel,
                self.startingData@ == old(self).startingData@,
                w == world(old(self).baseModel),
                data == old(self).startingData@[0]@,
                world(self.baseModel) == w,
                l == old(self).guesses@.len(),
                1 <= expectedPopSize <= MAX_COUNT,
                ep <= self.numEpochs,
                self.guesses@.len() == l + ep,
                self.guesses@.subrange(0, l as int) == old(self).guesses@,
                forall|k: int|
                    1 <= k < ep ==> learned_step(
                        w,
                        data,
                        expectedPopSize as int,
                        self.numModels as int,
                        lr as int,
                        #[trigger] self.guesses@[l + k - 1] as int,
                        self.guesses@[l + k] as int,
                    ),
                ep >= 1 ==> exists|seed: int|
                    0 <= seed < PROB_ONE && #[trigger] learned_step(
                        w,
                        data,
                        expectedPopSize as int,
                        self.numModels as int,
                        lr as int,
                        seed,
                        self.guesses@[l as int] as int,
                    ),
            decreases self.numEpochs - ep,
        {
            let guess: i64 = if ep > 0 {
                self.guesses[self.guesses.len() - 1]
            } else {
                draw_unit() as i64
            };
            assert(rate_ok(guess as int)) by {
                if ep > 0 {
                    assert(rate_ok(self.guesses@[l + ep - 1] as int));
                }
            }
            let n = self.numModels;
            let m = self.replicate_error(guess, n, expectedPopSize);
            let next = next_guess(guess, lr, m);
            assert(learned_step(w, data, expectedPopSize as int, n as int, lr as int, guess as int, next as int)) by {
                assert(replicate_outcome(w, data, expectedPopSize as int, guess as int, n as int, m as int));
            }
            let ghost before = self.guesses@;
            self.guesses.push(next);
            assert(self.guesses@.subrange(0, l as int) =~= before.subrange(0, l as int));
            assert forall|k: int|
                1 <= k < ep + 1 implies learned_step(
                w,
                data,
                expectedPopSize as int,
                self.numModels as int,
                lr as int,
                #[trigger] self.guesses@[l + k - 1] as int,
                self.guesses@[l + k] as int,
            ) by {
                if k < ep {
                    assert(before[l + k - 1] == self.guesses@[l + k - 1]);
                    assert(before[l + k] == self.guesses@[l + k]);
                }
            }
            proof {
                if ep == 0 {
                    assert(0 <= guess < PROB_ONE);
                    assert(learned_step(w, data, expectedPopSize as int, n as int, lr as int, guess as int, self.guesses@[l as int] as int));
                } else {
                    assert(self.guesses@[l as int] == before[l as int]);
                }
            }
            ep = ep + 1;
        }
        if self.guesses.len() == 0 {
            None
        } else {
            Some(self.guesses[self.guesses.len() - 1])
        }
    }
}

} // verus!
