use sirsim::bayesian::{first_max_index, fold_unit, grid_point, select_next_point, GRID_POINTS};
use sirsim::draws::{draw_unit, draw_units};
use sirsim::sirmodel::SIRModel;
use sirsim::trainer::{mean_replicate_error, next_guess, Residual, TrainModel, Trainer};
use sirsim::PROB_ONE;

fn trainer(mode: TrainModel, epochs: usize) -> Trainer {
    let model = SIRModel::new(5, 10, 14, 1, 400_000, 100_000, 100, 100, 1, 3, 10, Vec::new());
    let data = vec![(0..40usize).map(|d| d + 1).collect::<Vec<usize>>()];
    Trainer::new(model, 2, epochs, data, Vec::new(), mode, 100_000, 1_000, 5)
}

#[test]
fn residual_mean_matches_formula() {
    // simulated fractions 0.0, 0.1, 0.2 of a population of 10
    let r = Trainer::error(vec![0, 2, 4], vec![0, 1, 2], 10, 10);
    assert_eq!(r.num, 30);
    assert_eq!(r.den, 300);
    assert_eq!(r.per_million(), 100_000);
}

#[test]
fn residual_can_be_negative() {
    let r = Trainer::error(vec![0, 0], vec![1, 2], 4, 3);
    assert_eq!(r, Residual { num: -12, den: 24 });
    assert_eq!(r.per_million(), -500_000);
}

#[test]
fn residual_uses_simulated_days_only() {
    let r = Trainer::error(vec![5, 5, 100], vec![0], 10, 10);
    assert_eq!(r, Residual { num: 50, den: 100 });
}

#[test]
fn per_million_truncates_towards_zero() {
    assert_eq!(Residual { num: 1, den: 3 }.per_million(), 333_333);
    assert_eq!(Residual { num: -1, den: 3 }.per_million(), -333_333);
    assert_eq!(Residual { num: 0, den: 7 }.per_million(), 0);
}

#[test]
fn hill_climbing_step() {
    assert_eq!(next_guess(500_000, 100_000, 200_000), 520_000);
    assert_eq!(next_guess(500_000, 100_000, -200_000), 480_000);
    assert_eq!(next_guess(0, 1, 999_999), 0);
    assert_eq!(next_guess(0, -1, 999_999), 0);
    assert_eq!(next_guess(499_999_999_999, 1_000_000, 1_000_000), 500_000_000_000);
}

#[test]
fn simple_training_records_one_guess_per_epoch() {
    let mut t = trainer(TrainModel::Simple, 3);
    let r = t.train(1_000);
    assert_eq!(t.guesses.len(), 3);
    assert_eq!(r, Some(t.guesses[2]));
    assert_eq!(t.baseModel.daysRun, 40);
}

#[test]
fn simple_training_without_epochs_has_no_guess() {
    let mut t = trainer(TrainModel::Simple, 0);
    assert_eq!(t.train(1_000), None);
}

#[test]
fn bayesian_mode_is_left_to_the_surrogate() {
    let mut t = trainer(TrainModel::Bayesian, 3);
    assert_eq!(t.train(1_000), None);
    assert!(t.guesses.is_empty());
}

#[test]
fn replicate_error_sets_candidate() {
    let mut t = trainer(TrainModel::Simple, 1);
    let e = t.replicate_error(250_000, 3, 1_000);
    assert_eq!(t.baseModel.spreadRate, 250_000);
    assert_eq!(t.baseModel.numInfected().len(), 40);
    assert!(e.abs() <= 0x10_0000_0000_0000);
}

#[test]
fn grid_spans_unit_interval() {
    assert_eq!(GRID_POINTS, 100);
    assert_eq!(grid_point(0), 0);
    assert_eq!(grid_point(1), 10_101);
    assert_eq!(grid_point(99), PROB_ONE);
}

#[test]
fn untrained_surrogate_selects_lowest_candidate() {
    let scores = vec![0i64; GRID_POINTS];
    assert_eq!(select_next_point(&scores), 0);
    let scores = vec![i64::MIN; GRID_POINTS];
    assert_eq!(select_next_point(&scores), 0);
}

#[test]
fn selection_takes_first_best() {
    let mut scores = vec![0i64; GRID_POINTS];
    scores[10] = 7;
    scores[20] = 7;
    assert_eq!(first_max_index(&scores), 10);
    assert_eq!(select_next_point(&scores), 101_010);
    scores[99] = 8;
    assert_eq!(select_next_point(&scores), PROB_ONE);
}

#[test]
fn folding_into_unit_interval() {
    assert_eq!(fold_unit(300_000), 300_000);
    assert_eq!(fold_unit(-300_000), 300_000);
    assert_eq!(fold_unit(2_000_000), 500_000);
    assert_eq!(fold_unit(-4_000_000), 250_000);
    assert_eq!(fold_unit(PROB_ONE as i64), PROB_ONE as i64);
}

#[test]
fn draws_stay_below_one() {
    for _ in 0..1000 {
        assert!(draw_unit() < PROB_ONE);
    }
    let v = draw_units(50);
    assert_eq!(v.len(), 50);
    assert!(v.iter().all(|d| *d < PROB_ONE));
}

#[test]
fn mean_of_replicate_residuals() {
    let runs = vec![vec![0, 1, 2], vec![0, 3, 2]];
    // 100_000 and 33_333 per million
    assert_eq!(mean_replicate_error(&runs, &vec![0, 2, 4], 10, 10), 66_666);
    assert_eq!(mean_replicate_error(&vec![vec![1]], &vec![0], 4, 2), -500_000);
}
