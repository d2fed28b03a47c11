//! The phase-1 doubling count and the starting population arithmetic

use steps_core::cfg::SimConfig;
use steps_core::mechanics::phase_1_doublings_required;

fn config_with_dilution(d: u64) -> SimConfig {
    SimConfig {
        replicates: 1,
        transfers: 1000,
        markers: 2,
        dilution_factor: d,
        max_pop_size: 500_000_000,
        seed: Some(42),
        total_mutation_rate: 0,
        founder_fitness: (1.0f64).to_bits(),
        initial_lambda: (1.0f64 / 0.015873f64).to_bits(),
    }
}

#[test]
fn two_fold_dilution_runs_no_phase_1_doubling() {
    assert_eq!(phase_1_doublings_required(&config_with_dilution(2)), 0);
}

#[test]
fn three_fold_dilution_runs_one_phase_1_doubling() {
    // log2(3) has fractional part ~0.585, at least one half
    assert_eq!(phase_1_doublings_required(&config_with_dilution(3)), 1);
}

#[test]
fn four_fold_dilution_runs_one_phase_1_doubling() {
    assert_eq!(phase_1_doublings_required(&config_with_dilution(4)), 1);
}

#[test]
fn hundred_fold_dilution_runs_six_phase_1_doublings() {
    // log2(100) is about 6.644
    assert_eq!(phase_1_doublings_required(&config_with_dilution(100)), 6);
}

#[test]
fn powers_of_two_reserve_a_full_doubling_for_phase_2() {
    assert_eq!(phase_1_doublings_required(&config_with_dilution(8)), 2);
    assert_eq!(phase_1_doublings_required(&config_with_dilution(1024)), 9);
}

#[test]
fn large_dilution_factors_are_handled() {
    // 2^63: the largest power of two a factor can hold
    assert_eq!(
        phase_1_doublings_required(&config_with_dilution(1u64 << 63)),
        62
    );
    assert_eq!(phase_1_doublings_required(&config_with_dilution(u64::MAX)), 63);
}

#[test]
fn initial_population_splits_the_diluted_ceiling_between_markers() {
    let cfg = config_with_dilution(100);
    assert_eq!(cfg.initial_marker_population(), 2_500_000);
}

#[test]
fn initial_population_rounds_half_up() {
    let mut cfg = config_with_dilution(4);
    cfg.markers = 3;
    cfg.max_pop_size = 100;
    // 100 / 4 / 3 = 8.33… rounds to 8
    assert_eq!(cfg.initial_marker_population(), 8);
    cfg.max_pop_size = 102;
    // 102 / 4 / 3 = 8.5 rounds up to 9
    assert_eq!(cfg.initial_marker_population(), 9);
}
