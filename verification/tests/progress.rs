//! The replicate/transfer state machine and the summaries

use steps_core::cfg::SimConfig;
use steps_core::driver::{
    end_of_replicate, has_state, initial_progress, is_finished, next_progress, StepAction,
};
use steps_core::mechanics::{add_mutants, bottleneck, MutantEvent};
use steps_core::summarize::{
    genotype_count, marker_1_split, max_accumulated_muts, min_accumulated_muts, sum_N,
    sum_weighted_accumulated_muts,
};
use steps_core::types::{LineagesData, MutationsData};

fn config(replicates: u32, transfers: u32) -> SimConfig {
    SimConfig {
        replicates,
        transfers,
        markers: 2,
        dilution_factor: 100,
        max_pop_size: 500_000_000,
        seed: Some(42),
        total_mutation_rate: (0.0f64).to_bits(),
        founder_fitness: (1.0f64).to_bits(),
        initial_lambda: (1.0f64 / 0.015873f64).to_bits(),
    }
}

#[test]
fn a_zero_transfer_run_emits_one_final_state_per_replicate() {
    let cfg = config(1, 0);
    let start = initial_progress();
    assert!(!has_state(start));
    assert!(!is_finished(start, &cfg));

    let (state, action) = next_progress(start, &cfg).unwrap();
    assert_eq!(state.replicate, 1);
    assert_eq!(state.transfer, 0);
    assert!(matches!(action, StepAction::StartReplicate));
    assert!(has_state(state));
    assert!(end_of_replicate(state, &cfg));
    assert!(is_finished(state, &cfg));
    assert!(next_progress(state, &cfg).is_none());
}

#[test]
fn the_run_walks_every_transfer_of_every_replicate_in_order() {
    let cfg = config(2, 2);
    let mut p = initial_progress();
    let mut seen = Vec::new();
    loop {
        // finished and un-advanceable are one and the same state
        assert_eq!(is_finished(p, &cfg), next_progress(p, &cfg).is_none());
        match next_progress(p, &cfg) {
            Some((next, action)) => {
                seen.push((next.replicate, next.transfer, matches!(action, StepAction::StartReplicate)));
                p = next;
            }
            None => break,
        }
    }
    assert_eq!(
        seen,
        vec![
            (1, 0, true),
            (1, 1, false),
            (1, 2, false),
            (2, 0, true),
            (2, 1, false),
            (2, 2, false),
        ]
    );
}

#[test]
fn a_run_without_replicates_never_produces_a_state() {
    let cfg = config(0, 5);
    let start = initial_progress();
    assert!(is_finished(start, &cfg));
    assert!(next_progress(start, &cfg).is_none());
}

#[test]
fn summaries_count_whole_individuals() {
    let cfg = config(1, 0);
    let mut tracking: Option<MutationsData> = None;
    let mut lineages = LineagesData::for_sim_config(&cfg, &mut tracking);
    bottleneck(&mut lineages, &vec![1, 5]);
    let w = (1.0f64).to_bits();
    let events = vec![MutantEvent { parent_index: 0, order: 2, W: w, lambda: w, delta_W: 0 }];
    add_mutants(&mut lineages, &mut tracking, &events);
    // sizes [0, 5, 1]; markers [1, 2, 1]; accumulated [1, 1, 3]

    assert_eq!(sum_N(&lineages), 6);
    assert_eq!(genotype_count(&lineages), 2);
    assert_eq!(max_accumulated_muts(&lineages), 2);
    assert_eq!(min_accumulated_muts(&lineages), 0);
    let (marker_1, others) = marker_1_split(&lineages);
    assert_eq!(marker_1, 1);
    assert_eq!(others, 5);
    // the mean numerator: 0·0 + 5·0 + 1·2
    assert_eq!(sum_weighted_accumulated_muts(&lineages), Some(2));
}

#[test]
fn equal_seeds_mean_equal_stores_step_for_step() {
    // the verified core is deterministic: the same configuration and the
    // same drawn outcomes rebuild identical stores and trackers
    let run = || {
        let cfg = config(1, 1);
        let mut tracking = Some(MutationsData::new());
        let mut lineages = LineagesData::for_sim_config(&cfg, &mut tracking);
        bottleneck(&mut lineages, &vec![4, 9]);
        let w = (1.2f64).to_bits();
        let events = vec![MutantEvent {
            parent_index: 1,
            order: 1,
            W: w,
            lambda: w,
            delta_W: (0.2f64).to_bits(),
        }];
        add_mutants(&mut lineages, &mut tracking, &events);
        steps_core::sequencing::update_sizes(tracking.as_mut().unwrap(), &lineages);
        (lineages, tracking)
    };
    let (l1, t1) = run();
    let (l2, t2) = run();
    assert_eq!(l1.sizes(), l2.sizes());
    assert_eq!(l1.fitness_words(), l2.fitness_words());
    assert_eq!(l1.rate_words(), l2.rate_words());
    assert_eq!(l1.secondary(), l2.secondary());
    let (m1, m2) = (t1.as_ref().unwrap(), t2.as_ref().unwrap());
    assert_eq!(m1.muts().len(), m2.muts().len());
    for (a, b) in m1.muts().iter().zip(m2.muts().iter()) {
        assert_eq!(a.id, b.id);
        assert_eq!(a.background_id, b.background_id);
        assert_eq!(a.N, b.N);
        assert_eq!(a.first_transfer, b.first_transfer);
        assert_eq!(a.order, b.order);
    }
}

#[test]
fn the_documented_zero_transfer_snapshot_comes_out_exactly() {
    // replicates 1, transfers 0, markers 2, dilution 100, ceiling 5e8: one
    // state, final for its replicate, holding two founders of 2,500,000
    // individuals at unit fitness on markers 1 and 2
    let cfg = config(1, 0);
    let mut tracking = Some(MutationsData::new());
    let mut p = initial_progress();
    let mut snapshots = 0;
    while let Some((next, action)) = next_progress(p, &cfg) {
        p = next;
        assert!(matches!(action, StepAction::StartReplicate));
        let lineages = LineagesData::for_sim_config(&cfg, &mut tracking);
        steps_core::sequencing::update_sizes(tracking.as_mut().unwrap(), &lineages);

        assert!(end_of_replicate(p, &cfg));
        assert_eq!(p.replicate, 1);
        assert_eq!(p.transfer, 0);
        assert_eq!(lineages.len(), 2);
        for k in 0..2usize {
            let lin = lineages.get(k);
            assert_eq!(lin.N, 2_500_000);
            assert_eq!(f64::from_bits(lin.W), 1.0);
            assert_eq!(lin.secondary.marker, (k + 1) as u16);
        }
        snapshots += 1;
    }
    assert_eq!(snapshots, 1);
}
