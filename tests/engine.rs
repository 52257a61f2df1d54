use sirsim::intervention::{Intervention, InterventionType};
use sirsim::kernels::{advance_positions, detect_infections, Kinematics};
use sirsim::person::{AgentDraws, Locations, Person, Personstate};
use sirsim::sirmodel::SIRModel;
use sirsim::PROB_ONE;

fn draws_all(v: u64) -> AgentDraws {
    AgentDraws { spread: v, location: v, pos_x: v, pos_y: v, vel_x: v, vel_y: v }
}

fn small_model(popsize: usize, start_inf: usize, days: usize, rate: i64) -> SIRModel {
    SIRModel::new(popsize, 1_000, 14, start_inf, rate, 0, 100, 100, 1, 5, days, Vec::new())
}

#[test]
fn day_zero_counts_cover_population() {
    for popsize in 1..6usize {
        let mut m = small_model(popsize, popsize / 2, 3, 500_000);
        let total = m.getNumSusceptible(0) + m.getNumInfected(0) + m.getNumRemoved(0);
        assert_eq!(total, popsize);
        assert_eq!(m.getNumInfected(0), popsize / 2);
        m.runSim();
        for day in 0..3 {
            let total = m.getNumSusceptible(day) + m.getNumInfected(day) + m.getNumRemoved(day);
            assert_eq!(total, popsize);
        }
    }
}

#[test]
fn clear_out_then_run_keeps_day_zero_count() {
    let mut m = small_model(8, 1, 10, 300_000);
    m.clearOut(3);
    m.setDays(5);
    m.runSim();
    let inf = m.numInfected();
    assert_eq!(inf.len(), 5);
    assert_eq!(inf[0], 3);
    assert_eq!(m.getNumInfected(0), 3);
    for day in 1..5 {
        assert!(inf[day] >= inf[day - 1]);
    }
}

#[test]
fn certain_spread_with_large_radius_infects_everyone() {
    let mut m = SIRModel::new(4, 1_000, 14, 1, 1_000_000, 0, 100, 100, 1, 5, 2, Vec::new());
    m.runSim();
    let inf = m.numInfected();
    assert_eq!(inf[0], 1);
    assert!(inf[1] >= inf[0]);
    assert_eq!(inf[1], 4);
    assert_eq!(m.getNumInfected(1), 4);
    assert_eq!(m.getNumSusceptible(1), 0);
}

#[test]
fn detect_keeps_infected_agents_infected() {
    let px = vec![0, 100, 200];
    let py = vec![0, 0, 0];
    let inf = vec![1, 0, 1];
    let chance = vec![0, 0, 0];
    let draws = vec![999_999, 999_999, 999_999];
    let r = detect_infections(&px, &py, &inf, 1, &chance, &draws);
    assert_eq!(r, vec![1, 0, 1]);
}

#[test]
fn detect_infects_within_radius_only() {
    let px = vec![0, 3, 10];
    let py = vec![0, 4, 0];
    let inf = vec![1, 0, 0];
    let chance = vec![PROB_ONE, PROB_ONE, PROB_ONE];
    let draws = vec![0, 0, 0];
    // the second agent is at distance 5 exactly, the third at 10
    let r = detect_infections(&px, &py, &inf, 25, &chance, &draws);
    assert_eq!(r, vec![1, 1, 0]);
    let r = detect_infections(&px, &py, &inf, 24, &chance, &draws);
    assert_eq!(r, vec![1, 0, 0]);
}

#[test]
fn detect_respects_transmission_probability() {
    let px = vec![0, 1, 2];
    let py = vec![0, 0, 0];
    let inf = vec![1, 0, 0];
    let chance = vec![0, 400_000, 400_000];
    let draws = vec![0, 399_999, 400_000];
    let r = detect_infections(&px, &py, &inf, 100, &chance, &draws);
    assert_eq!(r, vec![1, 1, 0]);
}

#[test]
fn detect_without_infected_changes_nothing() {
    let px = vec![0, 1];
    let py = vec![0, 0];
    let inf = vec![0, 0];
    let chance = vec![PROB_ONE, PROB_ONE];
    let draws = vec![0, 0];
    assert_eq!(detect_infections(&px, &py, &inf, 100, &chance, &draws), vec![0, 0]);
    let empty: Vec<i64> = Vec::new();
    let r = detect_infections(&empty, &empty, &Vec::new(), 100, &Vec::new(), &Vec::new());
    assert!(r.is_empty());
}

#[test]
fn advance_reflects_at_the_bounds() {
    let k = Kinematics {
        pos_x: vec![5, 8, 2, 0],
        pos_y: vec![5, 5, 5, 10],
        vel_x: vec![2, 5, -5, 0],
        vel_y: vec![0, 0, 0, 3],
    };
    let r = advance_positions(&k, 10, 10);
    assert_eq!(r.pos_x, vec![7, 7, 3, 0]);
    assert_eq!(r.vel_x, vec![2, -5, 5, 0]);
    assert_eq!(r.pos_y, vec![5, 5, 5, 7]);
    assert_eq!(r.vel_y, vec![0, 0, 0, -3]);
}

#[test]
fn advance_keeps_large_jumps_inside() {
    let k = Kinematics { pos_x: vec![1], pos_y: vec![1], vel_x: vec![100], vel_y: vec![-100] };
    let r = advance_positions(&k, 10, 10);
    assert_eq!(r.pos_x, vec![0]);
    assert_eq!(r.pos_y, vec![10]);
    assert_eq!(r.vel_x, vec![-100]);
    assert_eq!(r.vel_y, vec![100]);
}

#[test]
fn sampled_person_is_exact() {
    let d = AgentDraws { spread: 500_000, location: 50_000, pos_x: 250_000, pos_y: 0, vel_x: 999_999, vel_y: 100_000 };
    let p = Person::random(Personstate::Inf, (100_000, 300_000), (1_000, 2_000), (-10, 10), d);
    assert_eq!(p.state, Personstate::Inf);
    assert_eq!(p.spreadChance, 200_000);
    assert_eq!(p.posx, 250);
    assert_eq!(p.posy, 0);
    assert_eq!(p.velx, 9);
    assert_eq!(p.vely, -8);
    assert_eq!(p.is_from, Locations::NE);
    assert_eq!(p.chance_to_city, 30_000);
    assert!(p.in_city);
    assert_eq!(p.daysInfected, 0);
}

#[test]
fn sampled_probability_is_clamped() {
    let p = Person::random(Personstate::Sus, (900_000, 1_500_000), (0, 0), (0, 0), draws_all(999_999));
    assert_eq!(p.spreadChance, PROB_ONE);
    let p = Person::random(Personstate::Sus, (-500_000, -100_000), (0, 0), (0, 0), draws_all(0));
    assert_eq!(p.spreadChance, 0);
}

#[test]
fn home_district_thresholds() {
    let home = |d: u64| Person::random(Personstate::Sus, (0, 0), (0, 0), (0, 0), draws_all(d)).is_from;
    assert_eq!(home(700_000), Locations::City);
    assert_eq!(home(50_000), Locations::NE);
    assert_eq!(home(150_000), Locations::SE);
    assert_eq!(home(350_000), Locations::SE);
    assert_eq!(home(0), Locations::City);
    assert_eq!(home(100_000), Locations::City);
    assert_eq!(home(500_000), Locations::City);
}

#[test]
fn person_accessors() {
    let mut p = Person::random(Personstate::Sus, (400_000, 400_000), (10, 10), (1, 1), draws_all(500_000));
    assert!(p.susCheck());
    assert!(!p.infectCheck());
    assert_eq!(p.getSpreadChance(), 400_000);
    assert_eq!(p.getPosVel(), [5, 5, 1, 1]);
    p.changeState(3, Personstate::Inf);
    assert_eq!(p.getState(), Personstate::Inf);
    assert!(p.infectCheck());
    p.addToDaysInfected();
    p.addToDaysInfected();
    assert_eq!(p.getDaysInfected(), 2);
    assert!(p.getInCity());
    // 2 * 600_000 - 1_000_000 = 200_000 is below 400_000: the test fails
    assert!(!p.infect(600_000));
    // 2 * 800_000 - 1_000_000 = 600_000 is not below 400_000
    assert!(p.infect(800_000));
}

#[test]
fn from_draws_builds_day_zero() {
    let draws = vec![draws_all(0), draws_all(500_000), draws_all(999_999)];
    let mut m = SIRModel::from_draws(3, 5, 14, 1, 500_000, 200_000, 200, 100, 0, 10, 4, Vec::new(), &draws);
    assert_eq!(m.getPopSize(), 3);
    assert_eq!(m.spawnLoc, (100, 50));
    assert_eq!(m.getNumSusceptible(0), 2);
    assert_eq!(m.getNumInfected(0), 1);
    assert_eq!(m.populationinf[0], vec![0, 0, 1]);
    assert_eq!(m.populationposvel[0].pos_x, vec![0, 50, 99]);
    assert_eq!(m.populationposvel[0].pos_y, vec![0, 25, 49]);
    assert_eq!(m.population[0][1].spreadChance, 500_000);
    assert_eq!(m.population[0][0].spreadChance, 400_000);
    assert_eq!(m.spreadRan, 500_000);
    assert_eq!(m.numInfected(), vec![1, 0, 0, 0]);
}

#[test]
fn frame_only_after_a_run() {
    let mut m = small_model(3, 1, 3, 500_000);
    assert!(m.newFrame(0).is_none());
    m.runSim();
    let (px, py, inf) = m.newFrame(2).unwrap();
    assert_eq!(px.len(), 3);
    assert_eq!(py.len(), 3);
    assert_eq!(inf, m.populationinf[2]);
}

#[test]
fn export_has_leading_empty_row() {
    let mut m = small_model(4, 2, 3, 500_000);
    let rows = m.exportMatrixAllDays();
    assert_eq!(rows.len(), 4);
    assert!(rows[0].is_empty());
    assert_eq!(rows[1], vec![2, 2, 0]);
    assert_eq!(rows[2], vec![0, 0, 0]);
}

#[test]
fn mobility_restriction_damps_then_restores() {
    let ints = vec![Intervention::new(InterventionType::MobilityRestriction, 1, 2)];
    let draws = vec![draws_all(500_000)];
    let mut m = SIRModel::from_draws(1, 0, 14, 0, 500_000, 0, 2_000, 2_000, 40, 40, 3, ints, &draws);
    assert_eq!(m.populationposvel[0].pos_x, vec![500]);
    let t = vec![0];
    let d = vec![0];
    m.timestep_with(1, &t, &d);
    assert_eq!(m.populationposvel[1].vel_x, vec![2]);
    assert_eq!(m.populationposvel[1].pos_x, vec![502]);
    assert_eq!(m.population[1][0].velx, 40);
    m.timestep_with(2, &t, &d);
    assert_eq!(m.populationposvel[2].vel_x, vec![40]);
    assert_eq!(m.populationposvel[2].pos_x, vec![542]);
}

#[test]
fn mask_mandate_scales_spread_rate() {
    let ints = vec![Intervention::new(InterventionType::MaskMandate, 1, 2)];
    let draws = vec![draws_all(0), draws_all(0)];
    let mut m = SIRModel::from_draws(2, 0, 14, 0, 500_000, 0, 10, 10, 0, 0, 3, ints, &draws);
    let t = vec![0, 0];
    m.timestep_with(1, &t, &t);
    assert_eq!(m.spreadRan, 200_000);
    m.timestep_with(2, &t, &t);
    assert_eq!(m.spreadRan, 500_000);
}

#[test]
fn decay_step_gates_new_infections() {
    let draws = vec![draws_all(0), draws_all(0), draws_all(0)];
    let mut m = SIRModel::from_draws(3, 10, 14, 1, 300_000, 0, 10, 10, 0, 0, 2, Vec::new(), &draws);
    assert_eq!(m.populationinf[0], vec![0, 0, 1]);
    let transmit = vec![0, 0, 0];
    let decay = vec![300_000, 299_999, 999_999];
    m.timestep_with(1, &transmit, &decay);
    assert_eq!(m.populationinf[1], vec![0, 1, 1]);
    assert_eq!(m.getNumInfected(1), 2);
    assert_eq!(m.getNumSusceptible(1), 1);
}

#[test]
fn set_spread_keeps_width() {
    let mut m = small_model(3, 1, 3, 500_000);
    m.setSpread(1_500_000);
    assert_eq!(m.spreadRate, 1_500_000);
    assert_eq!(m.spreadWidth, 0);
    assert_eq!(m.spreadRan, PROB_ONE);
    m.setSpread(-5);
    assert_eq!(m.spreadRan, 0);
}

#[test]
fn set_days_changes_horizon() {
    let mut m = small_model(3, 1, 3, 500_000);
    m.runSim();
    m.setDays(6);
    assert_eq!(m.daysRun, 6);
    assert!(!m.simulated);
    assert_eq!(m.numInfected(), vec![1, 0, 0, 0, 0, 0]);
    m.runSim();
    assert_eq!(m.numInfected().len(), 6);
}

#[test]
fn intervention_accessors() {
    let mut it = Intervention::new(InterventionType::MaskMandate, 3, 9);
    assert_eq!(it.getStart(), 3);
    assert_eq!(it.getEnd(), 9);
    assert_eq!(it.getType(), InterventionType::MaskMandate);
    assert!(!it.active);
    it.setAct(true);
    assert!(it.active);
}

#[test]
fn empty_engine_skeleton() {
    let m = SIRModel::emptyTZero(7, 4);
    assert_eq!(m.population.len(), 4);
    assert_eq!(m.populationinf.len(), 4);
    assert_eq!(m.populationposvel.len(), 4);
    assert!(m.population.iter().all(|d| d.is_empty()));
    assert_eq!(m.popsize, 1);
    assert_eq!(m.infectiousPeriod, 7);
    assert_eq!(m.daysDone, 0);
    assert!(!m.simulated);
    assert!(Kinematics::empty().pos_x.is_empty());
}

#[test]
fn clear_out_with_draws_resamples_exactly() {
    let mut m = small_model(3, 1, 4, 500_000);
    m.runSim();
    let draws = vec![draws_all(0), draws_all(0), draws_all(999_999)];
    m.clearOut_with(2, &draws);
    assert_eq!(m.populationinf[0], vec![0, 1, 1]);
    assert_eq!(m.populationposvel[0].pos_x, vec![0, 0, 49]);
    assert_eq!(m.daysDone, 1);
    assert!(!m.simulated);
    assert_eq!(m.numInfected(), vec![2, 0, 0, 0]);
}

#[test]
fn random_timestep_fills_the_next_day() {
    let mut m = small_model(6, 2, 3, 500_000);
    m.timestep(1);
    assert_eq!(m.daysDone, 2);
    assert_eq!(m.populationinf[1].len(), 6);
    assert!(m.populationinf[1][4] == 1 && m.populationinf[1][5] == 1);
    assert!(m.populationinf[2].is_empty());
    assert!(!m.simulated);
}

#[test]
fn mobility_round_trip_is_exact_for_slow_agents() {
    let ints = vec![Intervention::new(InterventionType::MobilityRestriction, 1, 2)];
    let draws = vec![draws_all(500_000)];
    let mut m = SIRModel::from_draws(1, 0, 14, 0, 500_000, 0, 2_000, 2_000, 19, 19, 4, ints, &draws);
    let t = vec![0];
    m.timestep_with(1, &t, &t);
    assert_eq!(m.populationposvel[1].pos_x, vec![500]);
    assert_eq!(m.populationposvel[1].vel_x, vec![0]);
    assert_eq!(m.population[1][0].velx, 19);
    m.timestep_with(2, &t, &t);
    assert_eq!(m.populationposvel[2].pos_x, vec![519]);
    m.timestep_with(3, &t, &t);
    assert_eq!(m.populationposvel[3].pos_x, vec![538]);
}

#[test]
fn mask_round_trip_is_exact() {
    let ints = vec![Intervention::new(InterventionType::MaskMandate, 1, 3)];
    let draws = vec![draws_all(0)];
    let mut m = SIRModel::from_draws(1, 0, 14, 0, 531_193, 0, 10, 10, 0, 0, 5, ints, &draws);
    let t = vec![0];
    m.timestep_with(1, &t, &t);
    assert_eq!(m.spreadRan, 212_477);
    m.timestep_with(2, &t, &t);
    assert_eq!(m.spreadRan, 212_477);
    m.timestep_with(3, &t, &t);
    assert_eq!(m.spreadRan, 531_193);
    m.timestep_with(4, &t, &t);
    assert_eq!(m.spreadRan, 531_193);
}

#[test]
fn day_zero_arrays_follow_the_agents() {
    let mut m = small_model(5, 2, 2, 500_000);
    for i in 0..5 {
        let pv = m.population[0][i].getPosVel();
        assert_eq!(pv, [
            m.populationposvel[0].pos_x[i],
            m.populationposvel[0].pos_y[i],
            m.populationposvel[0].vel_x[i],
            m.populationposvel[0].vel_y[i],
        ]);
    }
}

#[test]
fn mobility_damping_fires_once_per_boundary() {
    let ints = vec![Intervention::new(InterventionType::MobilityRestriction, 1, 3)];
    let draws = vec![draws_all(500_000)];
    let mut m = SIRModel::from_draws(1, 0, 14, 0, 500_000, 0, 2_000, 2_000, 100, 100, 5, ints, &draws);
    let t = vec![0];
    m.timestep_with(1, &t, &t);
    assert_eq!((m.populationposvel[1].pos_x[0], m.populationposvel[1].vel_x[0]), (505, 5));
    m.timestep_with(2, &t, &t);
    assert_eq!((m.populationposvel[2].pos_x[0], m.populationposvel[2].vel_x[0]), (510, 5));
    m.timestep_with(3, &t, &t);
    assert_eq!((m.populationposvel[3].pos_x[0], m.populationposvel[3].vel_x[0]), (610, 100));
    m.timestep_with(4, &t, &t);
    assert_eq!((m.populationposvel[4].pos_x[0], m.populationposvel[4].vel_x[0]), (710, 100));
    assert_eq!(m.population[4][0].posx, 710);
}

#[test]
fn damped_agent_turns_round_at_the_edge() {
    let ints = vec![Intervention::new(InterventionType::MobilityRestriction, 1, 3)];
    let draws = vec![draws_all(999_999)];
    // area [0, 1000], agent at 999 moving at 100, damped to 5
    let mut m = SIRModel::from_draws(1, 0, 14, 0, 500_000, 0, 2_000, 2_000, 100, 100, 4, ints, &draws);
    let t = vec![0];
    m.timestep_with(1, &t, &t);
    assert_eq!((m.populationposvel[1].pos_x[0], m.populationposvel[1].vel_x[0]), (996, -5));
    assert_eq!(m.population[1][0].velx, -100);
    m.timestep_with(2, &t, &t);
    assert_eq!(m.populationposvel[2].pos_x[0], 991);
    m.timestep_with(3, &t, &t);
    assert_eq!((m.populationposvel[3].pos_x[0], m.populationposvel[3].vel_x[0]), (891, -100));
}

#[test]
fn spread_rate_follows_masks_after_set_spread() {
    let ints = vec![Intervention::new(InterventionType::MaskMandate, 1, 5)];
    let draws = vec![draws_all(0)];
    let mut m = SIRModel::from_draws(1, 0, 14, 0, 500_000, 0, 10, 10, 0, 0, 6, ints, &draws);
    let t = vec![0];
    m.timestep_with(1, &t, &t);
    assert_eq!(m.spreadRan, 200_000);
    m.setSpread(250_000);
    assert_eq!(m.spreadRan, 100_000);
    m.timestep_with(2, &t, &t);
    assert_eq!(m.spreadRan, 100_000);
    m.setDays(6);
    assert_eq!(m.spreadRan, 250_000);
}
