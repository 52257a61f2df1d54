//! The day engine: snapshots per day, the per-day transition and its
//! interventions, and the counts read from the snapshots.
use vstd::prelude::*;

use crate::draws::{draw_unit, draw_units};
use crate::intervention::{Intervention, InterventionType};
use crate::kernels::{
    advance_positions,
    coord_ok,
    coords_ok,
    detect_infections,
    detected_flag,
    reflect_axis,
    Kinematics,
    COORD_LIMIT,
};
use crate::person::{clamp_prob, range_ok, AgentDraws, Person, Personstate};
use crate::PROB_ONE;

verus! {

/// Number of agents in `s` that are in state `st`.
pub open spec fn count_state(s: Seq<Person>, st: Personstate) -> nat
    decreases s.len(),
{
    if s.len() == 0 {
        0
    } else {
        count_state(s.drop_last(), st) + if s.last().state == st {
            1nat
        } else {
            0nat
        }
    }
}

/// Number of raised flags in `s`.
pub open spec fn count_flagged(s: Seq<u32>) -> nat
    decreases s.len(),
{
    if s.len() == 0 {
        0
    } else {
        count_flagged(s.drop_last()) + if s.last() != 0 {
            1nat
        } else {
            0nat
        }
    }
}

/// The state in which agent `i` of a fresh population of `popsize` with
/// `start_inf` infected agents begins: susceptible agents come first.
pub open spec fn initial_state(popsize: int, start_inf: int, i: int) -> Personstate {
    if i < popsize - start_inf {
        Personstate::Sus
    } else {
        Personstate::Inf
    }
}

/// A transmission-rate centre and width whose bounds are representable.
pub open spec fn spread_ok(rate: int, width: int) -> bool {
    &&& -COORD_LIMIT / 2 <= rate <= COORD_LIMIT / 2
    &&& 0 <= width <= COORD_LIMIT
}

pub open spec fn spread_bounds(rate: int, width: int) -> (i64, i64) {
    ((rate - width / 2) as i64, (rate + width / 2) as i64)
}

/// Transmission probabilities of the agents `ps`.
pub open spec fn chances(ps: Seq<Person>) -> Seq<u64> {
    ps.map_values(|p: Person| p.spreadChance)
}

/// The flag of an agent after the day's decay step: an agent that was not
/// infected the day before loses a fresh infection when its draw is at or
/// above the current spread rate.
pub open spec fn decayed_flag(prev: u32, detected: u32, draw: u64, rate: int) -> u32 {
    if prev == 0 && draw >= rate {
        0
    } else {
        detected
    }
}

/// The day engine: one snapshot of the population per simulated day.
pub struct SIRModel {
    /// Agent records per day: state, position, and velocity without the
    /// mobility restrictions in force.
    pub population: Vec<Vec<Person>>,
    /// Positions and velocities in force per day.
    pub populationposvel: Vec<Kinematics>,
    /// Infection flags per day.
    pub populationinf: Vec<Vec<u32>>,
    pub popsize: usize,
    pub startInfNum: usize,
    /// Centre of the transmission rate, in parts per million.
    pub spreadRate: i64,
    /// Width of the range the agents' probabilities are drawn from.
    pub spreadWidth: i64,
    /// The area `[0, spawnLoc.0] x [0, spawnLoc.1]`.
    pub spawnLoc: (i64, i64),
    pub velocityMinMax: (i64, i64),
    pub infRad: i64,
    pub infectiousPeriod: usize,
    pub daysRun: usize,
    /// Days whose snapshot has been computed; day 0 always is.
    pub daysDone: usize,
    pub simulated: bool,
    /// The spread rate in force on the last computed day.
    pub spreadRan: u64,
    pub interventions: Vec<Intervention>,
}

impl SIRModel {
    /// Snapshot `d` is filled and consistent.
    pub open spec fn day_ok(&self, d: int) -> bool {
        let ps = self.population@[d]@;
        let k = self.populationposvel@[d];
        let f = self.populationinf@[d]@;
        &&& ps.len() == self.popsize
        &&& k.wf()
        &&& k.len() == self.popsize
        &&& f.len() == self.popsize
        &&& forall|i: int|
            0 <= i < self.popsize ==> {
                &&& (#[trigger] ps[i]).wf()
                &&& (ps[i].state == Personstate::Inf) == (f[i] != 0)
                &&& f[i] <= 1
                &&& k.vel_x@[i] as int == scaled_velocity(
                    ps[i].velx as int,
                    fired_level(self.interventions@, InterventionType::MobilityRestriction, d),
                )
                &&& k.vel_y@[i] as int == scaled_velocity(
                    ps[i].vely as int,
                    fired_level(self.interventions@, InterventionType::MobilityRestriction, d),
                )
            }
    }

    /// Snapshot `d` has not been computed yet.
    pub open spec fn day_empty(&self, d: int) -> bool {
        &&& self.population@[d]@.len() == 0
        &&& self.populationposvel@[d].len() == 0
        &&& self.populationposvel@[d].wf()
        &&& self.populationinf@[d]@.len() == 0
    }

    pub open spec fn wf(&self) -> bool {
        &&& 1 <= self.daysDone <= self.daysRun
        &&& self.population@.len() == self.daysRun
        &&& self.populationposvel@.len() == self.daysRun
        &&& self.populationinf@.len() == self.daysRun
        &&& self.startInfNum <= self.popsize
        &&& spread_ok(self.spreadRate as int, self.spreadWidth as int)
        &&& 0 <= self.spawnLoc.0 <= COORD_LIMIT
        &&& 0 <= self.spawnLoc.1 <= COORD_LIMIT
        &&& range_ok(self.velocityMinMax)
        &&& 0 <= self.infRad <= COORD_LIMIT
        &&& self.spreadRan <= PROB_ONE
        &&& self.spreadRan == self.rate_on(self.daysDone - 1)
        &&& forall|d: int| 0 <= d < self.daysDone ==> #[trigger] self.day_ok(d)
        &&& forall|d: int| self.daysDone <= d < self.daysRun ==> #[trigger] self.day_empty(d)
        &&& forall|d: int, i: int|
            1 <= d < self.daysDone && 0 <= i < self.popsize && self.populationinf@[d - 1]@[i] != 0
                ==> #[trigger] self.populationinf@[d]@[i] != 0
    }

    /// The configuration that a reset keeps.
    pub open spec fn same_setup(&self, o: &SIRModel) -> bool {
        &&& self.popsize == o.popsize
        &&& self.spreadRate == o.spreadRate
        &&& self.spreadWidth == o.spreadWidth
        &&& self.spawnLoc == o.spawnLoc
        &&& self.velocityMinMax == o.velocityMinMax
        &&& self.infRad == o.infRad
        &&& self.infectiousPeriod == o.infectiousPeriod
        &&& self.interventions@ == o.interventions@
    }

    /// Day 0 holds the population that the draws `draws` sample, and no
    /// other day has been computed.
    pub open spec fn fresh_from(&self, draws: Seq<AgentDraws>) -> bool {
        &&& self.daysDone == 1
        &&& !self.simulated
        &&& self.spreadRan == clamp_prob(self.spreadRate as int)
        &&& forall|i: int|
            0 <= i < self.popsize ==> #[trigger] self.population@[0]@[i] == Person::sampled(
                initial_state(self.popsize as int, self.startInfNum as int, i),
                spread_bounds(self.spreadRate as int, self.spreadWidth as int),
                self.spawnLoc,
                self.velocityMinMax,
                draws[i],
            )
        &&& forall|i: int|
            0 <= i < self.popsize ==> {
                &&& #[trigger] self.populationposvel@[0].pos_x@[i] == self.population@[0]@[i].posx
                &&& self.populationposvel@[0].pos_y@[i] == self.population@[0]@[i].posy
                &&& self.populationposvel@[0].vel_x@[i] == self.population@[0]@[i].velx
                &&& self.populationposvel@[0].vel_y@[i] == self.population@[0]@[i].vely
            }
    }
}

/// Every agent is in exactly one of the three states.
pub proof fn lemma_states_partition(s: Seq<Person>)
    ensures
        count_state(s, Personstate::Sus) + count_state(s, Personstate::Inf) + count_state(
            s,
            Personstate::Rem,
        ) == s.len(),
    decreases s.len(),
{
    if s.len() > 0 {
        lemma_states_partition(s.drop_last());
    }
}

proof fn lemma_flags_match_states(s: Seq<Person>, f: Seq<u32>)
    requires
        s.len() == f.len(),
        forall|i: int| 0 <= i < s.len() ==> (#[trigger] s[i].state == Personstate::Inf) == (f[i] != 0),
    ensures
        count_state(s, Personstate::Inf) == count_flagged(f),
    decreases s.len(),
{
    if s.len() > 0 {
        let (s2, f2) = (s.drop_last(), f.drop_last());
        assert forall|i: int| 0 <= i < s2.len() implies (#[trigger] s2[i].state == Personstate::Inf)
            == (f2[i] != 0) by {
            assert(s2[i] == s[i]);
        }
        lemma_flags_match_states(s2, f2);
        assert(s.last() == s[s.len() - 1]);
    }
}

proof fn lemma_initial_infected(s: Seq<Person>, popsize: int, start_inf: int)
    requires
        0 <= start_inf <= popsize,
        s.len() <= popsize,
        forall|i: int| 0 <= i < s.len() ==> #[trigger] s[i].state == initial_state(popsize, start_inf, i),
    ensures
        count_state(s, Personstate::Inf) == if s.len() >= popsize - start_inf {
            s.len() - (popsize - start_inf)
        } else {
            0
        },
    decreases s.len(),
{
    if s.len() > 0 {
        let s2 = s.drop_last();
        assert forall|i: int| 0 <= i < s2.len() implies #[trigger] s2[i].state == initial_state(
            popsize,
            start_inf,
            i,
        ) by {
            assert(s2[i] == s[i]);
        }
        lemma_initial_infected(s2, popsize, start_inf);
        assert(s.last() == s[s.len() - 1]);
    }
}

fn count_in_state(ps: &Vec<Person>, st: Personstate) -> (r: usize)
    ensures
        r == count_state(ps@, st),
{
    let n = ps.len();
    let mut c: usize = 0;
    let mut i: usize = 0;
    while i < n
        invariant
            n == ps@.len(),
            i <= n,
            c == count_state(ps@.take(i as int), st),
            c <= i,
        decreases n - i,
    {
        assert(ps@.take(i + 1).drop_last() == ps@.take(i as int));
        if ps[i].state == st {
            c = c + 1;
        }
        i = i + 1;
    }
    assert(ps@.take(n as int) == ps@);
    c
}

fn count_raised(f: &Vec<u32>) -> (r: usize)
    ensures
        r == count_flagged(f@),
{
    let n = f.len();
    let mut c: usize = 0;
    let mut i: usize = 0;
    while i < n
        invariant
            n == f@.len(),
            i <= n,
            c == count_flagged(f@.take(i as int)),
            c <= i,
        decreases n - i,
    {
        assert(f@.take(i + 1).drop_last() == f@.take(i as int));
        if f[i] != 0 {
            c = c + 1;
        }
        i = i + 1;
    }
    assert(f@.take(n as int) == f@);
    c
}

/// Samples a day-0 population: `popsize - start_inf` susceptible agents,
/// then `start_inf` infected ones, agent `i` from `draws[i]`.
fn sample_population(
    popsize: usize,
    start_inf: usize,
    spreadMinMax: (i64, i64),
    spawnLoc: (i64, i64),
    velocityMinMax: (i64, i64),
    draws: &Vec<AgentDraws>,
) -> (r: Vec<Person>)
    requires
        start_inf <= popsize,
        draws@.len() == popsize,
        forall|i: int| 0 <= i < popsize ==> (#[trigger] draws@[i]).wf(),
        range_ok(spreadMinMax),
        range_ok((0, spawnLoc.0)),
        range_ok((0, spawnLoc.1)),
        range_ok(velocityMinMax),
    ensures
        r@.len() == popsize,
        forall|i: int|
            0 <= i < popsize ==> {
                &&& #[trigger] r@[i] == Person::sampled(
                    initial_state(popsize as int, start_inf as int, i),
                    spreadMinMax,
                    spawnLoc,
                    velocityMinMax,
                    draws@[i],
                )
                &&& r@[i].wf()
            },
{
    let mut r: Vec<Person> = Vec::new();
    let mut i: usize = 0;
    while i < popsize
        invariant
            start_inf <= popsize,
            draws@.len() == popsize,
            forall|k: int| 0 <= k < popsize ==> (#[trigger] draws@[k]).wf(),
            range_ok(spreadMinMax),
            range_ok((0, spawnLoc.0)),
            range_ok((0, spawnLoc.1)),
            range_ok(velocityMinMax),
            i <= popsize,
            r@.len() == i,
            forall|k: int|
                0 <= k < i ==> {
                    &&& #[trigger] r@[k] == Person::sampled(
                        initial_state(popsize as int, start_inf as int, k),
                        spreadMinMax,
                        spawnLoc,
                        velocityMinMax,
                        draws@[k],
                    )
                    &&& r@[k].wf()
                },
        decreases popsize - i,
    {
        let st = if i < popsize - start_inf {
            Personstate::Sus
        } else {
            Personstate::Inf
        };
        assert(draws@[i as int].wf());
        let p = Person::random(st, spreadMinMax, spawnLoc, velocityMinMax, draws[i]);
        r.push(p);
        i = i + 1;
    }
    r
}

/// The parallel arrays of the agents' positions and velocities.
fn kinematics_of(ps: &Vec<Person>) -> (r: Kinematics)
    requires
        forall|i: int| 0 <= i < ps@.len() ==> (#[trigger] ps@[i]).wf(),
    ensures
        r.wf(),
        r.len() == ps@.len(),
        forall|i: int|
            0 <= i < ps@.len() ==> {
                &&& #[trigger] r.pos_x@[i] == ps@[i].posx
                &&& r.pos_y@[i] == ps@[i].posy
                &&& r.vel_x@[i] == ps@[i].velx
                &&& r.vel_y@[i] == ps@[i].vely
            },
{
    let n = ps.len();
    let mut r = Kinematics::empty();
    let mut i: usize = 0;
    while i < n
        invariant
            n == ps@.len(),
            forall|k: int| 0 <= k < n ==> (#[trigger] ps@[k]).wf(),
            i <= n,
            r.wf(),
            r.len() == i,
            forall|k: int| 0 <= k < i ==> #[trigger] r.pos_x@[k] == ps@[k].posx,
            forall|k: int| 0 <= k < i ==> #[trigger] r.pos_y@[k] == ps@[k].posy,
            forall|k: int| 0 <= k < i ==> #[trigger] r.vel_x@[k] == ps@[k].velx,
            forall|k: int| 0 <= k < i ==> #[trigger] r.vel_y@[k] == ps@[k].vely,
        decreases n - i,
    {
        assert(ps@[i as int].wf());
        r.pos_x.push(ps[i].posx);
        r.pos_y.push(ps[i].posy);
        r.vel_x.push(ps[i].velx);
        r.vel_y.push(ps[i].vely);
        i = i + 1;
    }
    r
}

/// One flag per agent: 1 for an infected agent, 0 otherwise.
fn flags_of(ps: &Vec<Person>) -> (r: Vec<u32>)
    ensures
        r@.len() == ps@.len(),
        forall|i: int|
            0 <= i < ps@.len() ==> #[trigger] r@[i] == if ps@[i].state == Personstate::Inf {
                1u32
            } else {
                0u32
            },
{
    let n = ps.len();
    let mut r: Vec<u32> = Vec::new();
    let mut i: usize = 0;
    while i < n
        invariant
            n == ps@.len(),
            i <= n,
            r@.len() == i,
            forall|k: int|
                0 <= k < i ==> #[trigger] r@[k] == if ps@[k].state == Personstate::Inf {
                    1u32
                } else {
                    0u32
                },
        decreases n - i,
    {
        r.push(if ps[i].state == Personstate::Inf { 1 } else { 0 });
        i = i + 1;
    }
    r
}

/// Draws for `n` agents.
fn draw_agents(n: usize) -> (r: Vec<AgentDraws>)
    ensures
        r@.len() == n,
        forall|i: int| 0 <= i < n ==> (#[trigger] r@[i]).wf(),
{
    let mut r: Vec<AgentDraws> = Vec::new();
    let mut i: usize = 0;
    while i < n
        invariant
            i <= n,
            r@.len() == i,
            forall|k: int| 0 <= k < i ==> (#[trigger] r@[k]).wf(),
        decreases n - i,
    {
        let d = AgentDraws {
            spread: draw_unit(),
            location: draw_unit(),
            pos_x: draw_unit(),
            pos_y: draw_unit(),
            vel_x: draw_unit(),
            vel_y: draw_unit(),
        };
        r.push(d);
        i = i + 1;
    }
    r
}

fn clamp_rate(rate: i64) -> (r: u64)
    ensures
        r as int == clamp_prob(rate as int),
{
    if rate < 0 {
        0
    } else if rate > PROB_ONE as i64 {
        PROB_ONE
    } else {
        rate as u64
    }
}

impl SIRModel {
    /// An engine of `days` empty snapshots and default settings.
    pub fn emptyTZero(popsize: usize, days: usize) -> (r: SIRModel)
        ensures
            r.population@.len() == days,
            r.populationposvel@.len() == days,
            r.populationinf@.len() == days,
            forall|d: int| 0 <= d < days ==> #[trigger] r.day_empty(d),
            r.popsize == 1,
            r.startInfNum == 0,
            r.spreadRate == 0,
            r.spreadWidth == 0,
            r.spawnLoc == (0i64, 0i64),
            r.velocityMinMax == (0i64, 0i64),
            r.infRad == 0,
            r.infectiousPeriod == 7,
            r.daysRun == days,
            r.daysDone == 0,
            !r.simulated,
            r.spreadRan == 0,
            r.interventions@.len() == 0,
    {
        let mut population: Vec<Vec<Person>> = Vec::new();
        let mut posvel: Vec<Kinematics> = Vec::new();
        let mut inf: Vec<Vec<u32>> = Vec::new();
        let mut d: usize = 0;
        while d < days
            invariant
                d <= days,
                population@.len() == d,
                posvel@.len() == d,
                inf@.len() == d,
                forall|k: int|
                    0 <= k < d ==> {
                        &&& (#[trigger] population@[k])@.len() == 0
                        &&& posvel@[k].len() == 0
                        &&& posvel@[k].wf()
                        &&& inf@[k]@.len() == 0
                    },
            decreases days - d,
        {
            population.push(Vec::new());
            posvel.push(Kinematics::empty());
            inf.push(Vec::new());
            d = d + 1;
        }
        let r = SIRModel {
            population,
            populationposvel: posvel,
            populationinf: inf,
            popsize: 1,
            startInfNum: 0,
            spreadRate: 0,
            spreadWidth: 0,
            spawnLoc: (0, 0),
            velocityMinMax: (0, 0),
            infRad: 0,
            infectiousPeriod: 7,
            daysRun: days,
            daysDone: 0,
            simulated: false,
            spreadRan: 0,
            interventions: Vec::new(),
        };
        assert forall|k: int| 0 <= k < days implies #[trigger] r.day_empty(k) by {
            assert(r.population@[k]@.len() == 0);
        }
        r
    }
}


impl SIRModel {
    /// The configuration bounds of `wf`, apart from the snapshots.
    pub open spec fn setup_ok(&self) -> bool {
        &&& spread_ok(self.spreadRate as int, self.spreadWidth as int)
        &&& 0 <= self.spawnLoc.0 <= COORD_LIMIT
        &&& 0 <= self.spawnLoc.1 <= COORD_LIMIT
        &&& range_ok(self.velocityMinMax)
        &&& 0 <= self.infRad <= COORD_LIMIT
    }

    /// Replaces every snapshot by a freshly sampled day 0 with `start_inf`
    /// infected agents, and resets the spread rate now in force.
    fn install_day_zero(&mut self, start_inf: usize, draws: &Vec<AgentDraws>)
        requires
            old(self).setup_ok(),
            old(self).daysRun >= 1,
            start_inf <= old(self).popsize,
            draws@.len() == old(self).popsize,
            forall|i: int| 0 <= i < old(self).popsize ==> (#[trigger] draws@[i]).wf(),
        ensures
            final(self).wf(),
            final(self).same_setup(old(self)),
            final(self).daysRun == old(self).daysRun,
            final(self).startInfNum == start_inf,
            final(self).fresh_from(draws@),
    {
        let half = self.spreadWidth / 2;
        let spreadMinMax: (i64, i64) = (self.spreadRate - half, self.spreadRate + half);
        let ps = sample_population(
            self.popsize,
            start_inf,
            spreadMinMax,
            self.spawnLoc,
            self.velocityMinMax,
            draws,
        );
        let k = kinematics_of(&ps);
        let f = flags_of(&ps);
        let ghost gk = k;
        let ghost gps = ps@;
        let empty = SIRModel::emptyTZero(self.popsize, self.daysRun);
        let mut population = empty.population;
        let mut posvel = empty.populationposvel;
        let mut inf = empty.populationinf;
        population.set(0, ps);
        posvel.set(0, k);
        inf.set(0, f);
        self.population = population;
        self.populationposvel = posvel;
        self.populationinf = inf;
        self.startInfNum = start_inf;
        self.daysDone = 1;
        self.simulated = false;
        self.spreadRan = clamp_rate(self.spreadRate);
        proof {
            lemma_level_on_day_zero(self.interventions@, InterventionType::MobilityRestriction);
            lemma_level_on_day_zero(self.interventions@, InterventionType::MaskMandate);
            assert(self.populationposvel@[0] == gk);
            assert(self.population@[0]@ == gps);
            assert(self.populationinf@[0]@ == f@);
            assert forall|i: int| 0 <= i < self.popsize implies {
                &&& (#[trigger] self.population@[0]@[i]).wf()
                &&& (self.population@[0]@[i].state == Personstate::Inf) == (
                self.populationinf@[0]@[i] != 0)
                &&& self.populationinf@[0]@[i] <= 1
                &&& self.populationposvel@[0].vel_x@[i] as int == scaled_velocity(
                    self.population@[0]@[i].velx as int,
                    fired_level(self.interventions@, InterventionType::MobilityRestriction, 0),
                )
                &&& self.populationposvel@[0].vel_y@[i] as int == scaled_velocity(
                    self.population@[0]@[i].vely as int,
                    fired_level(self.interventions@, InterventionType::MobilityRestriction, 0),
                )
                &&& self.populationposvel@[0].pos_x@[i] == self.population@[0]@[i].posx
                &&& self.populationposvel@[0].pos_y@[i] == self.population@[0]@[i].posy
            } by {
                assert(gk.pos_x@[i] == gps[i].posx);
            }
        }
        assert(self.day_ok(0));
        assert forall|d: int| 1 <= d < self.daysRun implies #[trigger] self.day_empty(d) by {
            assert(empty.day_empty(d));
        }
    }

    /// Builds the engine and samples its day-0 population from `draws`:
    /// `popsize - startInfNum` susceptible agents, then `startInfNum` infected
    /// ones. The spawn area is `[0, spawn_x / 2] x [0, spawn_y / 2]`; the
    /// agents' transmission probabilities lie within `spreadRate` plus or
    /// minus half of `spreadRan`.
    pub fn from_draws(
        popsize: usize,
        infRad: i64,
        infectiousPeriod: usize,
        startInfNum: usize,
        spreadRate: i64,
        spreadRan: i64,
        spawn_x: i64,
        spawn_y: i64,
        minVelocity: i64,
        maxVelocity: i64,
        daysRun: usize,
        interventions: Vec<Intervention>,
        draws: &Vec<AgentDraws>,
    ) -> (r: SIRModel)
        requires
            startInfNum <= popsize,
            daysRun >= 1,
            0 <= infRad <= COORD_LIMIT,
            spread_ok(spreadRate as int, spreadRan as int),
            0 <= spawn_x <= 2 * COORD_LIMIT,
            0 <= spawn_y <= 2 * COORD_LIMIT,
            range_ok((minVelocity, maxVelocity)),
            draws@.len() == popsize,
            forall|i: int| 0 <= i < popsize ==> (#[trigger] draws@[i]).wf(),
        ensures
            r.wf(),
            r.popsize == popsize,
            r.infRad == infRad,
            r.infectiousPeriod == infectiousPeriod,
            r.startInfNum == startInfNum,
            r.spreadRate == spreadRate,
            r.spreadWidth == spreadRan,
            r.spawnLoc == ((spawn_x / 2) as i64, (spawn_y / 2) as i64),
            r.velocityMinMax == (minVelocity, maxVelocity),
            r.daysRun == daysRun,
            r.interventions@ == interventions@,
            r.fresh_from(draws@),
            count_state(r.population@[0]@, Personstate::Inf) == startInfNum,
    {
        let mut r = SIRModel::emptyTZero(popsize, daysRun);
        r.popsize = popsize;
        r.spreadRate = spreadRate;
        r.spreadWidth = spreadRan;
        r.spawnLoc = (spawn_x / 2, spawn_y / 2);
        r.velocityMinMax = (minVelocity, maxVelocity);
        r.infRad = infRad;
        r.infectiousPeriod = infectiousPeriod;
        r.interventions = interventions;
        r.install_day_zero(startInfNum, draws);
        proof {
            lemma_fresh_counts(&r, draws@);
        }
        r
    }

    /// Builds the engine with a randomly sampled day-0 population; see
    /// `from_draws`.
    pub fn new(
        popsize: usize,
        infRad: i64,
        infectiousPeriod: usize,
        startInfNum: usize,
        spreadRate: i64,
        spreadRan: i64,
        spawn_x: i64,
        spawn_y: i64,
        minVelocity: i64,
        maxVelocity: i64,
        daysRun: usize,
        interventions: Vec<Intervention>,
    ) -> (r: SIRModel)
        requires
            startInfNum <= popsize,
            daysRun >= 1,
            0 <= infRad <= COORD_LIMIT,
            spread_ok(spreadRate as int, spreadRan as int),
            0 <= spawn_x <= 2 * COORD_LIMIT,
            0 <= spawn_y <= 2 * COORD_LIMIT,
            range_ok((minVelocity, maxVelocity)),
        ensures
            r.wf(),
            r.popsize == popsize,
            r.infRad == infRad,
            r.infectiousPeriod == infectiousPeriod,
            r.startInfNum == startInfNum,
            r.spreadRate == spreadRate,
            r.spreadWidth == spreadRan,
            r.spawnLoc == ((spawn_x / 2) as i64, (spawn_y / 2) as i64),
            r.velocityMinMax == (minVelocity, maxVelocity),
            r.daysRun == daysRun,
            r.interventions@ == interventions@,
            r.daysDone == 1,
            !r.simulated,
            count_state(r.population@[0]@, Personstate::Inf) == startInfNum,
            exists|d: Seq<AgentDraws>|
                d.len() == popsize && (forall|i: int| 0 <= i < d.len() ==> (#[trigger] d[i]).wf())
                    && #[trigger] r.fresh_from(d),
    {
        let draws = draw_agents(popsize);
        SIRModel::from_draws(
            popsize,
            infRad,
            infectiousPeriod,
            startInfNum,
            spreadRate,
            spreadRan,
            spawn_x,
            spawn_y,
            minVelocity,
            maxVelocity,
            daysRun,
            interventions,
            &draws,
        )
    }

    /// Resets the engine to a fresh day 0 sampled from `draws`, with
    /// `observedInitialInfected` infected agents, keeping the configuration.
    pub fn clearOut_with(&mut self, observedInitialInfected: usize, draws: &Vec<AgentDraws>)
        requires
            old(self).wf(),
            observedInitialInfected <= old(self).popsize,
            draws@.len() == old(self).popsize,
            forall|i: int| 0 <= i < old(self).popsize ==> (#[trigger] draws@[i]).wf(),
        ensures
            final(self).wf(),
            final(self).same_setup(old(self)),
            final(self).daysRun == old(self).daysRun,
            final(self).startInfNum == observedInitialInfected,
            final(self).fresh_from(draws@),
            count_state(final(self).population@[0]@, Personstate::Inf) == observedInitialInfected,
            count_flagged(final(self).populationinf@[0]@) == observedInitialInfected,
    {
        self.install_day_zero(observedInitialInfected, draws);
        proof {
            lemma_fresh_counts(self, draws@);
        }
    }

    /// Resets the engine to a freshly sampled day 0 with
    /// `observedInitialInfected` infected agents, keeping the configuration.
    pub fn clearOut(&mut self, observedInitialInfected: usize)
        requires
            old(self).wf(),
            observedInitialInfected <= old(self).popsize,
        ensures
            final(self).wf(),
            final(self).same_setup(old(self)),
            final(self).daysRun == old(self).daysRun,
            final(self).startInfNum == observedInitialInfected,
            final(self).daysDone == 1,
            !final(self).simulated,
            final(self).spreadRan == clamp_prob(old(self).spreadRate as int),
            count_state(final(self).population@[0]@, Personstate::Inf) == observedInitialInfected,
            count_flagged(final(self).populationinf@[0]@) == observedInitialInfected,
            exists|d: Seq<AgentDraws>|
                d.len() == old(self).popsize && (forall|i: int| 0 <= i < d.len() ==> (#[trigger] d[i]).wf())
                    && #[trigger] final(self).fresh_from(d),
    {
        let draws = draw_agents(self.popsize);
        self.clearOut_with(observedInitialInfected, &draws);
    }

    /// Sets the centre of the transmission rate, keeping the width; the
    /// spread rate in force becomes the new rate under the mask mandates in
    /// force on the last computed day.
    pub fn setSpread(&mut self, spreadRate: i64)
        requires
            old(self).wf(),
            -COORD_LIMIT / 2 <= spreadRate <= COORD_LIMIT / 2,
        ensures
            final(self).wf(),
            *final(self) == (SIRModel {
                spreadRate,
                spreadRan: masked_rate(
                    clamp_prob(spreadRate as int),
                    fired_level(
                        old(self).interventions@,
                        InterventionType::MaskMandate,
                        old(self).daysDone - 1,
                    ),
                ) as u64,
                ..*old(self)
            }),
    {
        let lk = intervention_level(&self.interventions, InterventionType::MaskMandate, self.daysDone - 1);
        self.spreadRate = spreadRate;
        self.spreadRan = mask_rate(clamp_rate(spreadRate), lk);
        assert forall|d: int| 0 <= d < self.daysDone implies #[trigger] self.day_ok(d) by {
            assert(old(self).day_ok(d));
        }
        assert forall|d: int| self.daysDone <= d < self.daysRun implies #[trigger] self.day_empty(
            d,
        ) by {
            assert(old(self).day_empty(d));
        }
    }

    /// Sets the number of simulated days; only day 0 is kept.
    pub fn setDays(&mut self, days: usize)
        requires
            old(self).wf(),
            days >= 1,
        ensures
            final(self).wf(),
            final(self).same_setup(old(self)),
            final(self).daysRun == days,
            final(self).daysDone == 1,
            !final(self).simulated,
            final(self).startInfNum == old(self).startInfNum,
            final(self).spreadRan == clamp_prob(old(self).spreadRate as int),
            final(self).population@[0] == old(self).population@[0],
            final(self).populationposvel@[0] == old(self).populationposvel@[0],
            final(self).populationinf@[0] == old(self).populationinf@[0],
    {
        let empty = SIRModel::emptyTZero(1, days - 1);
        let mut population = empty.population;
        let mut posvel = empty.populationposvel;
        let mut inf = empty.populationinf;
        self.population.truncate(1);
        self.populationposvel.truncate(1);
        self.populationinf.truncate(1);
        self.population.append(&mut population);
        self.populationposvel.append(&mut posvel);
        self.populationinf.append(&mut inf);
        self.daysRun = days;
        self.daysDone = 1;
        self.simulated = false;
        self.spreadRan = clamp_rate(self.spreadRate);
        proof {
            lemma_level_on_day_zero(self.interventions@, InterventionType::MaskMandate);
        }
        assert(old(self).day_ok(0));
        assert(self.day_ok(0));
        assert forall|k: int| 1 <= k < days implies #[trigger] self.day_empty(k) by {
            assert(empty.day_empty(k - 1));
        }
    }

    pub fn getPopSize(&mut self) -> (r: usize)
        ensures
            r == old(self).popsize,
            *final(self) == *old(self),
    {
        self.popsize
    }

    /// Number of susceptible agents on the computed day `day`.
    pub fn getNumSusceptible(&mut self, day: usize) -> (r: usize)
        requires
            old(self).wf(),
            day < old(self).daysDone,
        ensures
            r == count_state(old(self).population@[day as int]@, Personstate::Sus),
            *final(self) == *old(self),
    {
        count_in_state(&self.population[day], Personstate::Sus)
    }

    /// Number of removed agents on the computed day `day`.
    pub fn getNumRemoved(&mut self, day: usize) -> (r: usize)
        requires
            old(self).wf(),
            day < old(self).daysDone,
        ensures
            r == count_state(old(self).population@[day as int]@, Personstate::Rem),
            *final(self) == *old(self),
    {
        count_in_state(&self.population[day], Personstate::Rem)
    }

    /// Number of infected agents on the computed day `day`.
    pub fn getNumInfected(&mut self, day: usize) -> (r: usize)
        requires
            old(self).wf(),
            day < old(self).daysDone,
        ensures
            r == count_state(old(self).population@[day as int]@, Personstate::Inf),
            *final(self) == *old(self),
    {
        count_in_state(&self.population[day], Personstate::Inf)
    }

    /// Per day, the number of agents flagged infected (0 for a day not yet
    /// computed).
    pub fn numInfected(&mut self) -> (r: Vec<usize>)
        requires
            old(self).wf(),
        ensures
            r@.len() == old(self).daysRun,
            forall|d: int|
                0 <= d < old(self).daysRun ==> #[trigger] r@[d] == count_flagged(
                    old(self).populationinf@[d]@,
                ),
            *final(self) == *old(self),
    {
        let mut r: Vec<usize> = Vec::new();
        let mut d: usize = 0;
        while d < self.daysRun
            invariant
                self.wf(),
                d <= self.daysRun,
                r@.len() == d,
                forall|k: int|
                    0 <= k < d ==> #[trigger] r@[k] == count_flagged(self.populationinf@[k]@),
            decreases self.daysRun - d,
        {
            r.push(count_raised(&self.populationinf[d]));
            d = d + 1;
        }
        r
    }

    /// A leading empty row, then per day the counts `[infected, susceptible,
    /// removed]`.
    pub fn exportMatrixAllDays(&mut self) -> (r: Vec<Vec<usize>>)
        requires
            old(self).wf(),
        ensures
            r@.len() == old(self).daysRun + 1,
            r@[0]@.len() == 0,
            forall|d: int|
                0 <= d < old(self).daysRun ==> (#[trigger] r@[d + 1])@ == seq![
                    count_state(old(self).population@[d]@, Personstate::Inf) as usize,
                    count_state(old(self).population@[d]@, Personstate::Sus) as usize,
                    count_state(old(self).population@[d]@, Personstate::Rem) as usize,
                ],
            *final(self) == *old(self),
    {
        let mut r: Vec<Vec<usize>> = Vec::new();
        r.push(Vec::new());
        let mut d: usize = 0;
        while d < self.daysRun
            invariant
                self.wf(),
                d <= self.daysRun,
                r@.len() == d + 1,
                r@[0]@.len() == 0,
                forall|k: int|
                    0 <= k < d ==> (#[trigger] r@[k + 1])@ == seq![
                        count_state(self.population@[k]@, Personstate::Inf) as usize,
                        count_state(self.population@[k]@, Personstate::Sus) as usize,
                        count_state(self.population@[k]@, Personstate::Rem) as usize,
                    ],
            decreases self.daysRun - d,
        {
            let row = vec![
                count_in_state(&self.population[d], Personstate::Inf),
                count_in_state(&self.population[d], Personstate::Sus),
                count_in_state(&self.population[d], Personstate::Rem),
            ];
            r.push(row);
            d = d + 1;
        }
        r
    }

    /// The positions and flags of day `time` for a renderer, once the run is
    /// complete; `None` before.
    pub fn newFrame(&mut self, time: usize) -> (r: Option<(Vec<i64>, Vec<i64>, Vec<u32>)>)
        requires
            old(self).wf(),
            old(self).simulated ==> time < old(self).daysRun,
        ensures
            *final(self) == *old(self),
            !old(self).simulated ==> r is None,
            old(self).simulated ==> (r matches Some(f) && f.0@ == old(
                self,
            ).populationposvel@[time as int].pos_x@ && f.1@ == old(
                self,
            ).populationposvel@[time as int].pos_y@ && f.2@ == old(
                self,
            ).populationinf@[time as int]@),
    {
        if self.simulated {
            let k = &self.populationposvel[time];
            let px = k.pos_x.clone();
            let py = k.pos_y.clone();
            let f = self.populationinf[time].clone();
            assert(px@ =~= k.pos_x@);
            assert(py@ =~= k.pos_y@);
            assert(f@ =~= self.populationinf@[time as int]@);
            Some((px, py, f))
        } else {
            None
        }
    }
}

proof fn lemma_fresh_counts(m: &SIRModel, draws: Seq<AgentDraws>)
    requires
        m.wf(),
        m.fresh_from(draws),
    ensures
        count_state(m.population@[0]@, Personstate::Inf) == m.startInfNum,
        count_flagged(m.populationinf@[0]@) == m.startInfNum,
{
    let s = m.population@[0]@;
    assert(m.day_ok(0));
    assert forall|i: int| 0 <= i < s.len() implies #[trigger] s[i].state == initial_state(
        m.popsize as int,
        m.startInfNum as int,
        i,
    ) by {
        assert(s[i] == m.population@[0]@[i]);
    }
    lemma_initial_infected(s, m.popsize as int, m.startInfNum as int);
    assert forall|i: int| 0 <= i < s.len() implies (#[trigger] s[i].state == Personstate::Inf) == (
    m.populationinf@[0]@[i] != 0) by {}
    lemma_flags_match_states(s, m.populationinf@[0]@);
}


/// The damping of a mobility restriction: a twentieth, rounded towards zero.
pub open spec fn damp(v: int) -> int {
    if v >= 0 {
        v / 20
    } else {
        -((-v) / 20)
    }
}

/// The scale-up by twenty that an end without a start applies, kept
/// representable.
pub open spec fn boost(v: int) -> int {
    if v * 20 > COORD_LIMIT {
        COORD_LIMIT as int
    } else if v * 20 < -COORD_LIMIT {
        -COORD_LIMIT
    } else {
        v * 20
    }
}

pub open spec fn damped(v: int, k: nat) -> int
    decreases k,
{
    if k == 0 {
        v
    } else {
        damp(damped(v, (k - 1) as nat))
    }
}

pub open spec fn boosted(v: int, k: nat) -> int
    decreases k,
{
    if k == 0 {
        v
    } else {
        boost(boosted(v, (k - 1) as nat))
    }
}

/// How many interventions of kind `kind` are in force on day `day`: one for
/// each whose start day lies in `1..=day`, less one for each whose end day
/// lies there (an end on its own start day does not fire). The level changes
/// only on a boundary day, by one for each boundary on that day, and a start
/// and its end cancel exactly.
pub open spec fn fired_level(ints: Seq<Intervention>, kind: InterventionType, day: int) -> int
    decreases ints.len(),
{
    if ints.len() == 0 {
        0
    } else {
        let it = ints.last();
        let here = if it.intType == kind {
            (if 1 <= it.startTime <= day {
                1int
            } else {
                0int
            }) - (if 1 <= it.endTime <= day && it.endTime != it.startTime {
                1int
            } else {
                0int
            })
        } else {
            0int
        };
        fired_level(ints.drop_last(), kind, day) + here
    }
}

/// The velocity an agent moves with under `level` mobility restrictions:
/// damped once per restriction in force, scaled up once per unmatched end.
pub open spec fn scaled_velocity(v: int, level: int) -> int {
    if level >= 0 {
        damped(v, level as nat)
    } else {
        boosted(v, (-level) as nat)
    }
}

pub open spec fn shrunk(r: int, k: nat) -> int
    decreases k,
{
    if k == 0 {
        r
    } else {
        shrunk(r, (k - 1) as nat) * 2 / 5
    }
}

pub open spec fn grown(r: int, k: nat) -> int
    decreases k,
{
    if k == 0 {
        r
    } else if grown(r, (k - 1) as nat) * 5 / 2 > PROB_ONE {
        PROB_ONE as int
    } else {
        grown(r, (k - 1) as nat) * 5 / 2
    }
}

/// The spread rate under `level` mask mandates: scaled by two fifths once
/// per mandate in force, by five halves (capped at certainty) once per
/// unmatched end.
pub open spec fn masked_rate(r: int, level: int) -> int {
    if level >= 0 {
        shrunk(r, level as nat)
    } else {
        grown(r, (-level) as nat)
    }
}

/// The velocity recorded after a move: it turns round exactly when the move
/// turned the velocity it was made with.
pub open spec fn turned(full: int, before: int, after: int) -> int {
    if after == before {
        full
    } else {
        -full
    }
}

/// The number of interventions of one kind in force on day `day`.
fn intervention_level(ints: &Vec<Intervention>, kind: InterventionType, day: usize) -> (r: i128)
    ensures
        r as int == fired_level(ints@, kind, day as int),
{
    let mut lvl: i128 = 0;
    let mut k: usize = 0;
    while k < ints.len()
        invariant
            k <= ints@.len(),
            lvl as int == fired_level(ints@.take(k as int), kind, day as int),
            -(k as int) <= lvl <= k,
        decreases ints@.len() - k,
    {
        let it = ints[k];
        assert(ints@.take(k + 1).drop_last() == ints@.take(k as int));
        assert(ints@.take(k + 1).last() == it);
        if it.intType == kind {
            if 1 <= it.startTime && it.startTime <= day {
                lvl = lvl + 1;
            }
            if 1 <= it.endTime && it.endTime <= day && it.endTime != it.startTime {
                lvl = lvl - 1;
            }
        }
        k = k + 1;
    }
    assert(ints@.take(ints@.len() as int) == ints@);
    lvl
}

fn scale_one(v: i64, level: i128) -> (r: i64)
    requires
        coord_ok(v as int),
    ensures
        r as int == scaled_velocity(v as int, level as int),
        coord_ok(r as int),
{
    let mut x: i64 = v;
    if level >= 0 {
        let mut j: i128 = 0;
        while j < level
            invariant
                0 <= j <= level,
                x as int == damped(v as int, j as nat),
                coord_ok(x as int),
            decreases level - j,
        {
            x = if x >= 0 {
                x / 20
            } else {
                -((-x) / 20)
            };
            j = j + 1;
        }
    } else {
        let mut j: i128 = 0;
        while j > level
            invariant
                level <= j <= 0,
                x as int == boosted(v as int, (-j) as nat),
                coord_ok(x as int),
            decreases j - level,
        {
            let w: i64 = x * 20;
            x = if w > COORD_LIMIT {
                COORD_LIMIT
            } else if w < -COORD_LIMIT {
                -COORD_LIMIT
            } else {
                w
            };
            j = j - 1;
        }
    }
    x
}

fn scale_all(v: &Vec<i64>, level: i128) -> (r: Vec<i64>)
    requires
        coords_ok(v@),
    ensures
        r@.len() == v@.len(),
        coords_ok(r@),
        forall|i: int| 0 <= i < v@.len() ==> #[trigger] r@[i] as int == scaled_velocity(v@[i] as int, level as int),
{
    let n = v.len();
    let mut r: Vec<i64> = Vec::new();
    let mut i: usize = 0;
    while i < n
        invariant
            n == v@.len(),
            coords_ok(v@),
            i <= n,
            r@.len() == i,
            forall|k: int| 0 <= k < i ==> coord_ok(#[trigger] r@[k] as int),
            forall|k: int| 0 <= k < i ==> #[trigger] r@[k] as int == scaled_velocity(v@[k] as int, level as int),
        decreases n - i,
    {
        assert(coord_ok(v@[i as int] as int));
        r.push(scale_one(v[i], level));
        i = i + 1;
    }
    r
}

fn mask_rate(r: u64, level: i128) -> (out: u64)
    requires
        r <= PROB_ONE,
    ensures
        out as int == masked_rate(r as int, level as int),
        out <= PROB_ONE,
{
    let mut x: u64 = r;
    if level >= 0 {
        let mut j: i128 = 0;
        while j < level
            invariant
                0 <= j <= level,
                x as int == shrunk(r as int, j as nat),
                x <= PROB_ONE,
            decreases level - j,
        {
            x = x * 2 / 5;
            j = j + 1;
        }
    } else {
        let mut j: i128 = 0;
        while j > level
            invariant
                level <= j <= 0,
                x as int == grown(r as int, (-j) as nat),
                x <= PROB_ONE,
            decreases j - level,
        {
            let up: u64 = x * 5 / 2;
            x = if up > PROB_ONE {
                PROB_ONE
            } else {
                up
            };
            j = j - 1;
        }
    }
    x
}

/// The recorded velocities after a move made with `before` that returned
/// `after`.
fn follow_turns(full: &Vec<i64>, before: &Vec<i64>, after: &Vec<i64>) -> (r: Vec<i64>)
    requires
        before@.len() == full@.len(),
        after@.len() == full@.len(),
        coords_ok(full@),
    ensures
        r@.len() == full@.len(),
        coords_ok(r@),
        forall|i: int|
            0 <= i < full@.len() ==> #[trigger] r@[i] as int == turned(
                full@[i] as int,
                before@[i] as int,
                after@[i] as int,
            ),
{
    let n = full.len();
    let mut r: Vec<i64> = Vec::new();
    let mut i: usize = 0;
    while i < n
        invariant
            n == full@.len(),
            before@.len() == n,
            after@.len() == n,
            coords_ok(full@),
            i <= n,
            r@.len() == i,
            forall|k: int| 0 <= k < i ==> coord_ok(#[trigger] r@[k] as int),
            forall|k: int|
                0 <= k < i ==> #[trigger] r@[k] as int == turned(
                    full@[k] as int,
                    before@[k] as int,
                    after@[k] as int,
                ),
        decreases n - i,
    {
        assert(coord_ok(full@[i as int] as int));
        let f = full[i];
        r.push(if after[i] == before[i] {
            f
        } else {
            -f
        });
        i = i + 1;
    }
    r
}

/// The transmission probabilities of the agents.
fn chances_of(ps: &Vec<Person>) -> (r: Vec<u64>)
    ensures
        r@ == chances(ps@),
{
    let n = ps.len();
    let mut r: Vec<u64> = Vec::new();
    let mut i: usize = 0;
    while i < n
        invariant
            n == ps@.len(),
            i <= n,
            r@.len() == i,
            forall|k: int| 0 <= k < i ==> #[trigger] r@[k] == ps@[k].spreadChance,
        decreases n - i,
    {
        r.push(ps[i].spreadChance);
        i = i + 1;
    }
    assert(r@ =~= chances(ps@));
    r
}

/// The decay step over all agents.
fn apply_decay(prev: &Vec<u32>, detected: &Vec<u32>, draws: &Vec<u64>, rate: u64) -> (r: Vec<u32>)
    requires
        detected@.len() == prev@.len(),
        draws@.len() == prev@.len(),
    ensures
        r@.len() == prev@.len(),
        forall|i: int|
            0 <= i < prev@.len() ==> #[trigger] r@[i] == decayed_flag(
                prev@[i],
                detected@[i],
                draws@[i],
                rate as int,
            ),
{
    let n = prev.len();
    let mut r: Vec<u32> = Vec::new();
    let mut i: usize = 0;
    while i < n
        invariant
            n == prev@.len(),
            detected@.len() == n,
            draws@.len() == n,
            i <= n,
            r@.len() == i,
            forall|k: int|
                0 <= k < i ==> #[trigger] r@[k] == decayed_flag(
                    prev@[k],
                    detected@[k],
                    draws@[k],
                    rate as int,
                ),
        decreases n - i,
    {
        let f: u32 = if prev[i] == 0 && draws[i] >= rate {
            0
        } else {
            detected[i]
        };
        r.push(f);
        i = i + 1;
    }
    r
}

/// The agent records of the next day: a flagged agent is infected, the
/// others keep their state; every agent takes its new position and its new
/// velocity without restrictions.
fn next_records(
    prev: &Vec<Person>,
    flags: &Vec<u32>,
    moved: &Kinematics,
    free_x: &Vec<i64>,
    free_y: &Vec<i64>,
) -> (r: Vec<Person>)
    requires
        flags@.len() == prev@.len(),
        moved.len() == prev@.len(),
        moved.wf(),
        free_x@.len() == prev@.len(),
        free_y@.len() == prev@.len(),
    ensures
        r@.len() == prev@.len(),
        forall|i: int|
            0 <= i < prev@.len() ==> #[trigger] r@[i] == (Person {
                state: if flags@[i] != 0 {
                    Personstate::Inf
                } else {
                    prev@[i].state
                },
                posx: moved.pos_x@[i],
                posy: moved.pos_y@[i],
                velx: free_x@[i],
                vely: free_y@[i],
                ..prev@[i]
            }),
{
    let n = prev.len();
    let mut r: Vec<Person> = Vec::new();
    let mut i: usize = 0;
    while i < n
        invariant
            n == prev@.len(),
            flags@.len() == n,
            moved.len() == n,
            moved.wf(),
            free_x@.len() == n,
            free_y@.len() == n,
            i <= n,
            r@.len() == i,
            forall|k: int|
                0 <= k < i ==> #[trigger] r@[k] == (Person {
                    state: if flags@[k] != 0 {
                        Personstate::Inf
                    } else {
                        prev@[k].state
                    },
                    posx: moved.pos_x@[k],
                    posy: moved.pos_y@[k],
                    velx: free_x@[k],
                    vely: free_y@[k],
                    ..prev@[k]
                }),
        decreases n - i,
    {
        let mut p = prev[i];
        if flags[i] != 0 {
            p.state = Personstate::Inf;
        }
        p.posx = moved.pos_x[i];
        p.posy = moved.pos_y[i];
        p.velx = free_x[i];
        p.vely = free_y[i];
        r.push(p);
        i = i + 1;
    }
    r
}

/// The agents' velocities without restrictions.
fn free_velocities(ps: &Vec<Person>) -> (r: (Vec<i64>, Vec<i64>))
    requires
        forall|i: int| 0 <= i < ps@.len() ==> (#[trigger] ps@[i]).wf(),
    ensures
        r.0@.len() == ps@.len(),
        r.1@.len() == ps@.len(),
        coords_ok(r.0@),
        coords_ok(r.1@),
        forall|i: int| 0 <= i < ps@.len() ==> #[trigger] r.0@[i] == ps@[i].velx,
        forall|i: int| 0 <= i < ps@.len() ==> #[trigger] r.1@[i] == ps@[i].vely,
{
    let n = ps.len();
    let mut vx: Vec<i64> = Vec::new();
    let mut vy: Vec<i64> = Vec::new();
    let mut i: usize = 0;
    while i < n
        invariant
            n == ps@.len(),
            forall|k: int| 0 <= k < n ==> (#[trigger] ps@[k]).wf(),
            i <= n,
            vx@.len() == i,
            vy@.len() == i,
            forall|k: int| 0 <= k < i ==> #[trigger] vx@[k] == ps@[k].velx,
            forall|k: int| 0 <= k < i ==> #[trigger] vy@[k] == ps@[k].vely,
            forall|k: int| 0 <= k < i ==> coord_ok(#[trigger] vx@[k] as int),
            forall|k: int| 0 <= k < i ==> coord_ok(#[trigger] vy@[k] as int),
        decreases n - i,
    {
        assert(ps@[i as int].wf());
        vx.push(ps[i].velx);
        vy.push(ps[i].vely);
        i = i + 1;
    }
    (vx, vy)
}

proof fn lemma_damped_odd(v: int, k: nat)
    ensures
        damped(-v, k) == -damped(v, k),
    decreases k,
{
    if k > 0 {
        lemma_damped_odd(v, (k - 1) as nat);
    }
}

proof fn lemma_boosted_odd(v: int, k: nat)
    ensures
        boosted(-v, k) == -boosted(v, k),
    decreases k,
{
    if k > 0 {
        lemma_boosted_odd(v, (k - 1) as nat);
    }
}

/// Scaling a velocity commutes with turning it round.
proof fn lemma_scaled_odd(v: int, level: int)
    ensures
        scaled_velocity(-v, level) == -scaled_velocity(v, level),
{
    if level >= 0 {
        lemma_damped_odd(v, level as nat);
    } else {
        lemma_boosted_odd(v, (-level) as nat);
    }
}

proof fn lemma_level_on_day_zero(ints: Seq<Intervention>, kind: InterventionType)
    ensures
        fired_level(ints, kind, 0) == 0,
    decreases ints.len(),
{
    if ints.len() > 0 {
        lemma_level_on_day_zero(ints.drop_last(), kind);
    }
}

impl SIRModel {
    /// The spread rate in force on day `day`: the base rate under the mask
    /// mandates in force that day.
    pub open spec fn rate_on(&self, day: int) -> int {
        masked_rate(
            clamp_prob(self.spreadRate as int),
            fired_level(self.interventions@, InterventionType::MaskMandate, day),
        )
    }

    /// Snapshot `day` is the transition of snapshot `day - 1` under the
    /// draws `transmit` (proximity test) and `decay` (decay step), one per
    /// agent and each below `PROB_ONE`.
    pub open spec fn step_holds(&self, day: int, transmit: Seq<u64>, decay: Seq<u64>) -> bool {
        let ints = self.interventions@;
        let lm = fired_level(ints, InterventionType::MobilityRestriction, day);
        let rate = self.rate_on(day);
        let pk = self.populationposvel@[day - 1];
        let pf = self.populationinf@[day - 1]@;
        let pp = self.population@[day - 1]@;
        let nk = self.populationposvel@[day];
        let nf = self.populationinf@[day]@;
        let np = self.population@[day]@;
        &&& transmit.len() == self.popsize
        &&& decay.len() == self.popsize
        &&& forall|i: int| 0 <= i < self.popsize ==> #[trigger] transmit[i] < PROB_ONE
        &&& forall|i: int| 0 <= i < self.popsize ==> #[trigger] decay[i] < PROB_ONE
        &&& forall|i: int|
            0 <= i < self.popsize ==> {
                let ex = scaled_velocity(pp[i].velx as int, lm);
                let ey = scaled_velocity(pp[i].vely as int, lm);
                let mx = reflect_axis(pk.pos_x@[i] as int, ex, self.spawnLoc.0 as int);
                let my = reflect_axis(pk.pos_y@[i] as int, ey, self.spawnLoc.1 as int);
                &&& #[trigger] nk.pos_x@[i] as int == mx.0
                &&& nk.vel_x@[i] as int == mx.1
                &&& nk.pos_y@[i] as int == my.0
                &&& nk.vel_y@[i] as int == my.1
                &&& np[i].velx as int == turned(pp[i].velx as int, ex, mx.1)
                &&& np[i].vely as int == turned(pp[i].vely as int, ey, my.1)
            }
        &&& forall|i: int|
            0 <= i < self.popsize ==> #[trigger] nf[i] == decayed_flag(
                pf[i],
                detected_flag(
                    nk.pos_x@,
                    nk.pos_y@,
                    pf,
                    self.infRad * self.infRad,
                    chances(pp),
                    transmit,
                    i,
                ),
                decay[i],
                rate,
            )
        &&& forall|i: int|
            0 <= i < self.popsize ==> #[trigger] np[i] == (Person {
                state: if nf[i] != 0 {
                    Personstate::Inf
                } else {
                    pp[i].state
                },
                posx: nk.pos_x@[i],
                posy: nk.pos_y@[i],
                velx: np[i].velx,
                vely: np[i].vely,
                ..pp[i]
            })
    }

    /// Snapshot `day` is the transition of snapshot `day - 1` under some
    /// draws.
    pub open spec fn day_stepped(&self, day: int) -> bool {
        exists|transmit: Seq<u64>, decay: Seq<u64>| #[trigger] self.step_holds(day, transmit, decay)
    }

    /// Computes day `day` from day `day - 1` with the given draws, each below
    /// `PROB_ONE`: the agents move with their velocities scaled by the
    /// mobility restrictions in force, the proximity test runs, then the
    /// decay step at the spread rate in force.
    pub fn timestep_with(&mut self, day: usize, transmit: &Vec<u64>, decay: &Vec<u64>)
        requires
            old(self).wf(),
            1 <= day,
            day == old(self).daysDone,
            day < old(self).daysRun,
            transmit@.len() == old(self).popsize,
            decay@.len() == old(self).popsize,
            forall|i: int| 0 <= i < transmit@.len() ==> #[trigger] transmit@[i] < PROB_ONE,
            forall|i: int| 0 <= i < decay@.len() ==> #[trigger] decay@[i] < PROB_ONE,
        ensures
            final(self).wf(),
            final(self).same_setup(old(self)),
            final(self).startInfNum == old(self).startInfNum,
            final(self).daysRun == old(self).daysRun,
            final(self).simulated == old(self).simulated,
            final(self).daysDone == day + 1,
            final(self).population@ == old(self).population@.update(
                day as int,
                final(self).population@[day as int],
            ),
            final(self).populationposvel@ == old(self).populationposvel@.update(
                day as int,
                final(self).populationposvel@[day as int],
            ),
            final(self).populationinf@ == old(self).populationinf@.update(
                day as int,
                final(self).populationinf@[day as int],
            ),
            final(self).spreadRan == old(self).rate_on(day as int),
            final(self).step_holds(day as int, transmit@, decay@),
    {
        let ghost pre = *self;
        assert(self.day_ok(day - 1));
        let lm = intervention_level(&self.interventions, InterventionType::MobilityRestriction, day);
        let lk = intervention_level(&self.interventions, InterventionType::MaskMandate, day);
        let prev = &self.populationposvel[day - 1];
        let (free_x, free_y) = free_velocities(&self.population[day - 1]);
        let ex = scale_all(&free_x, lm);
        let ey = scale_all(&free_y, lm);
        let px = prev.pos_x.clone();
        let py = prev.pos_y.clone();
        assert(px@ =~= prev.pos_x@);
        assert(py@ =~= prev.pos_y@);
        let adj = Kinematics { pos_x: px, pos_y: py, vel_x: ex, vel_y: ey };
        let moved = advance_positions(&adj, self.spawnLoc.0, self.spawnLoc.1);
        let vx = follow_turns(&free_x, &adj.vel_x, &moved.vel_x);
        let vy = follow_turns(&free_y, &adj.vel_y, &moved.vel_y);
        let rate = mask_rate(clamp_rate(self.spreadRate), lk);
        let ch = chances_of(&self.population[day - 1]);
        let rad: i128 = self.infRad as i128;
        assert(rad * rad <= 1_000_000_000_000_000_000_000_000) by (nonlinear_arith)
            requires
                0 <= rad <= 1_000_000_000_000,
        ;
        let r2: i128 = rad * rad;
        let detected = detect_infections(
            &moved.pos_x,
            &moved.pos_y,
            &self.populationinf[day - 1],
            r2,
            &ch,
            transmit,
        );
        let flags = apply_decay(&self.populationinf[day - 1], &detected, decay, rate);
        let records = next_records(&self.population[day - 1], &flags, &moved, &vx, &vy);
        self.population.set(day, records);
        self.populationposvel.set(day, moved);
        self.populationinf.set(day, flags);
        self.spreadRan = rate;
        self.daysDone = day + 1;
        proof {
            let pf = pre.populationinf@[day - 1]@;
            let pp = pre.population@[day - 1]@;
            assert forall|i: int| 0 <= i < self.popsize implies {
                &&& (#[trigger] self.population@[day as int]@[i]).wf()
                &&& (self.population@[day as int]@[i].state == Personstate::Inf) == (
                self.populationinf@[day as int]@[i] != 0)
                &&& self.populationinf@[day as int]@[i] <= 1
            } by {
                assert(pp[i].wf());
                assert((pp[i].state == Personstate::Inf) == (pf[i] != 0));
            }
            let lmv = fired_level(self.interventions@, InterventionType::MobilityRestriction, day as int);
            assert forall|i: int| 0 <= i < self.popsize implies {
                &&& #[trigger] self.populationposvel@[day as int].vel_x@[i] as int == scaled_velocity(
                    self.population@[day as int]@[i].velx as int,
                    lmv,
                )
                &&& self.populationposvel@[day as int].vel_y@[i] as int == scaled_velocity(
                    self.population@[day as int]@[i].vely as int,
                    lmv,
                )
            } by {
                lemma_scaled_odd(pp[i].velx as int, lmv);
                lemma_scaled_odd(pp[i].vely as int, lmv);
            }
            assert(self.day_ok(day as int));
            assert forall|d: int| 0 <= d < self.daysDone implies #[trigger] self.day_ok(d) by {
                if d < day {
                    assert(pre.day_ok(d));
                }
            }
            assert forall|d: int| self.daysDone <= d < self.daysRun implies #[trigger] self.day_empty(
                d,
            ) by {
                assert(pre.day_empty(d));
            }
            assert forall|d: int, i: int|
                1 <= d < self.daysDone && 0 <= i < self.popsize && self.populationinf@[d - 1]@[i]
                    != 0 implies #[trigger] self.populationinf@[d]@[i] != 0 by {
                if d < day {
                    assert(pre.populationinf@[d]@[i] != 0);
                }
            }
            assert(self.step_holds(day as int, transmit@, decay@));
        }
    }
}

impl SIRModel {
    /// Computes day `day` from day `day - 1` with fresh random draws.
    pub fn timestep(&mut self, day: usize)
        requires
            old(self).wf(),
            1 <= day,
            day == old(self).daysDone,
            day < old(self).daysRun,
        ensures
            final(self).wf(),
            final(self).same_setup(old(self)),
            final(self).startInfNum == old(self).startInfNum,
            final(self).daysRun == old(self).daysRun,
            final(self).simulated == old(self).simulated,
            final(self).daysDone == day + 1,
            final(self).population@ == old(self).population@.update(
                day as int,
                final(self).population@[day as int],
            ),
            final(self).populationposvel@ == old(self).populationposvel@.update(
                day as int,
                final(self).populationposvel@[day as int],
            ),
            final(self).populationinf@ == old(self).populationinf@.update(
                day as int,
                final(self).populationinf@[day as int],
            ),
            final(self).spreadRan == old(self).rate_on(day as int),
            final(self).day_stepped(day as int),
    {
        let transmit = draw_units(self.popsize);
        let decay = draw_units(self.popsize);
        self.timestep_with(day, &transmit, &decay);
        assert(self.step_holds(day as int, transmit@, decay@));
    }

    /// What a complete run leaves: every day computed from the same day 0,
    /// with the configuration kept.
    pub open spec fn ran_from(&self, prev: &SIRModel) -> bool {
        &&& self.wf()
        &&& self.same_setup(prev)
        &&& self.startInfNum == prev.startInfNum
        &&& self.daysRun == prev.daysRun
        &&& self.daysDone == self.daysRun
        &&& self.simulated
        &&& self.population@[0] == prev.population@[0]
        &&& self.populationposvel@[0] == prev.populationposvel@[0]
        &&& self.populationinf@[0] == prev.populationinf@[0]
        &&& forall|d: int| 1 <= d < self.daysRun ==> #[trigger] self.day_stepped(d)
    }

    /// Runs every day after day 0 in order and marks the engine simulated.
    pub fn runSim(&mut self)
        requires
            old(self).wf(),
        ensures
            final(self).ran_from(old(self)),
    {
        let days = self.daysRun;
        self.setDays(days);
        let mut day: usize = 1;
        while day < days
            invariant
                self.wf(),
                self.same_setup(old(self)),
                self.startInfNum == old(self).startInfNum,
                self.daysRun == days,
                days == old(self).daysRun,
                1 <= day <= days,
                self.daysDone == day,
                self.population@[0] == old(self).population@[0],
                self.populationposvel@[0] == old(self).populationposvel@[0],
                self.populationinf@[0] == old(self).populationinf@[0],
                forall|d: int| 1 <= d < day ==> #[trigger] self.day_stepped(d),
            decreases days - day,
        {
            let ghost before = *self;
            self.timestep(day);
            assert forall|d: int| 1 <= d < day + 1 implies #[trigger] self.day_stepped(d) by {
                if d < day {
                    assert(before.day_stepped(d));
                    let (t, e) = choose|t: Seq<u64>, e: Seq<u64>|
                        #[trigger] before.step_holds(d, t, e);
                    assert(self.populationposvel@[d] == before.populationposvel@[d]);
                    assert(self.populationposvel@[d - 1] == before.populationposvel@[d - 1]);
                    assert(self.populationinf@[d] == before.populationinf@[d]);
                    assert(self.populationinf@[d - 1] == before.populationinf@[d - 1]);
                    assert(self.population@[d] == before.population@[d]);
                    assert(self.population@[d - 1] == before.population@[d - 1]);
                    assert(self.step_holds(d, t, e));
                }
            }
            day = day + 1;
        }
        let ghost before = *self;
        self.simulated = true;
        assert forall|d: int| 0 <= d < self.daysDone implies #[trigger] self.day_ok(d) by {
            assert(before.day_ok(d));
        }
        assert forall|d: int| 1 <= d < self.daysRun implies #[trigger] self.day_stepped(d) by {
            assert(before.day_stepped(d));
            let (t, e) = choose|t: Seq<u64>, e: Seq<u64>|
                #[trigger] before.step_holds(d, t, e);
            assert(self.step_holds(d, t, e));
        }
    }
}

/// On every computed day, the susceptible, infected and removed counts add
/// up to the population size.
pub proof fn lemma_counts_cover_population(m: &SIRModel, day: int)
    requires
        m.wf(),
        0 <= day < m.daysDone,
    ensures
        count_state(m.population@[day]@, Personstate::Sus) + count_state(
            m.population@[day]@,
            Personstate::Inf,
        ) + count_state(m.population@[day]@, Personstate::Rem) == m.popsize,
{
    assert(m.day_ok(day));
    lemma_states_partition(m.population@[day]@);
}

/// A reset with `obs` infected agents, a change of the horizon to `days` and
/// a complete run give `days` snapshots of the whole population, with
/// exactly `obs` agents flagged on day 0.
pub proof fn lemma_reset_then_run(
    m0: &SIRModel,
    m1: &SIRModel,
    m2: &SIRModel,
    m3: &SIRModel,
    obs: int,
    days: int,
)
    requires
        m1.wf(),
        m1.same_setup(m0),
        m1.startInfNum == obs,
        count_flagged(m1.populationinf@[0]@) == obs,
        m2.wf(),
        m2.same_setup(m1),
        m2.daysRun == days,
        m2.populationinf@[0] == m1.populationinf@[0],
        m3.ran_from(m2),
    ensures
        m3.populationinf@.len() == days,
        m3.population@.len() == days,
        m3.populationposvel@.len() == days,
        forall|d: int|
            0 <= d < days ==> (#[trigger] m3.populationinf@[d])@.len() == m0.popsize
                && m3.population@[d]@.len() == m0.popsize && m3.populationposvel@[d].len()
                == m0.popsize,
        count_flagged(m3.populationinf@[0]@) == obs,
{
    assert forall|d: int| 0 <= d < days implies (#[trigger] m3.populationinf@[d])@.len()
        == m0.popsize && m3.population@[d]@.len() == m0.popsize && m3.populationposvel@[d].len()
        == m0.popsize by {
        assert(m3.day_ok(d));
    }
}

/// An agent flagged infected on a computed day stays flagged on every later
/// computed day.
pub proof fn lemma_infection_persists(m: &SIRModel, d1: int, d2: int, i: int)
    requires
        m.wf(),
        0 <= d1 <= d2 < m.daysDone,
        0 <= i < m.popsize,
        m.populationinf@[d1]@[i] != 0,
    ensures
        m.populationinf@[d2]@[i] != 0,
    decreases d2 - d1,
{
    if d1 < d2 {
        lemma_infection_persists(m, d1, d2 - 1, i);
        assert(m.populationinf@[d2 - 1]@[i] != 0);
    }
}

/// A single intervention whose end follows its start is in force, once, on
/// the days from its start up to its end: velocities are damped and the
/// spread rate is scaled by two fifths. From its end day on, both are back
/// exactly to their values without it.
pub proof fn lemma_boundaries_cancel(it: Intervention, day: int, v: int, r: int)
    requires
        1 <= it.startTime < it.endTime,
        it.startTime <= day,
    ensures
        day < it.endTime ==> fired_level(seq![it], it.intType, day) == 1,
        day < it.endTime ==> scaled_velocity(v, 1) == damp(v) && masked_rate(r, 1) == r * 2 / 5,
        it.endTime <= day ==> fired_level(seq![it], it.intType, day) == 0,
        scaled_velocity(v, 0) == v,
        masked_rate(r, 0) == r,
{
    let s = seq![it];
    assert(s.drop_last() =~= Seq::<Intervention>::empty());
    assert(s.last() == it);
    assert(fired_level(s.drop_last(), it.intType, day) == 0);
    reveal_with_fuel(damped, 2);
    reveal_with_fuel(shrunk, 2);
}

proof fn lemma_count_flagged_grows(a: Seq<u32>, b: Seq<u32>)
    requires
        a.len() == b.len(),
        forall|i: int| 0 <= i < a.len() && #[trigger] a[i] != 0 ==> b[i] != 0,
    ensures
        count_flagged(a) <= count_flagged(b),
    decreases a.len(),
{
    if a.len() > 0 {
        let (a2, b2) = (a.drop_last(), b.drop_last());
        assert forall|i: int| 0 <= i < a2.len() && #[trigger] a2[i] != 0 implies b2[i] != 0 by {
            assert(a2[i] == a[i] && b2[i] == b[i]);
        }
        lemma_count_flagged_grows(a2, b2);
        assert(a.last() == a[a.len() - 1]);
    }
}

/// The number of agents flagged infected never falls from one computed day
/// to the next.
pub proof fn lemma_infected_count_grows(m: &SIRModel, day: int)
    requires
        m.wf(),
        1 <= day < m.daysDone,
    ensures
        count_flagged(m.populationinf@[day - 1]@) <= count_flagged(m.populationinf@[day]@),
{
    assert(m.day_ok(day - 1));
    assert(m.day_ok(day));
    let a = m.populationinf@[day - 1]@;
    let b = m.populationinf@[day]@;
    assert forall|i: int| 0 <= i < a.len() && #[trigger] a[i] != 0 implies b[i] != 0 by {
        assert(m.populationinf@[day - 1]@[i] != 0);
    }
    lemma_count_flagged_grows(a, b);
}

/// When the spread rate in force is certainty, the decay step clears no
/// flag: every agent's flag is the one the proximity test gave.
pub proof fn lemma_certain_rate_keeps_detections(
    m: &SIRModel,
    day: int,
    transmit: Seq<u64>,
    decay: Seq<u64>,
    i: int,
)
    requires
        m.step_holds(day, transmit, decay),
        m.rate_on(day) == PROB_ONE,
        0 <= i < m.popsize,
    ensures
        m.populationinf@[day]@[i] == detected_flag(
            m.populationposvel@[day].pos_x@,
            m.populationposvel@[day].pos_y@,
            m.populationinf@[day - 1]@,
            m.infRad * m.infRad,
            chances(m.population@[day - 1]@),
            transmit,
            i,
        ),
{
    assert(decay[i] < PROB_ONE);
}

/// The velocity the move of day `day` uses for agent `i` (see
/// `step_holds`), against the velocity recorded on day `day - 1`: as it is
/// on a day on which no mobility restriction starts or ends, and damped once
/// on a day on which one starts while none is undone.
pub proof fn lemma_move_uses_recorded_velocity(m: &SIRModel, day: int, i: int)
    requires
        m.wf(),
        1 <= day <= m.daysDone,
        0 <= i < m.popsize,
    ensures
        ({
            let before = fired_level(
                m.interventions@,
                InterventionType::MobilityRestriction,
                day - 1,
            );
            let now = fired_level(m.interventions@, InterventionType::MobilityRestriction, day);
            let free = m.population@[day - 1]@[i];
            let rec = m.populationposvel@[day - 1];
            &&& now == before ==> scaled_velocity(free.velx as int, now) == rec.vel_x@[i]
                && scaled_velocity(free.vely as int, now) == rec.vel_y@[i]
            &&& (now == before + 1 && before >= 0) ==> scaled_velocity(free.velx as int, now)
                == damp(rec.vel_x@[i] as int) && scaled_velocity(free.vely as int, now) == damp(
                rec.vel_y@[i] as int,
            )
        }),
{
    assert(m.day_ok(day - 1));
    assert(m.population@[day - 1]@[i].wf());
}

} // verus!
