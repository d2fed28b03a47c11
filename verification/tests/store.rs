//! The lineage store: replicate start, child insertion, mutant commits and
//! the bottleneck

use steps_core::cfg::SimConfig;
use steps_core::mechanics::{add_mutants, bottleneck, MutantEvent};
use steps_core::types::{Lineage, LineagesData, MutationsData, SecondaryLineageData};

fn test_config() -> SimConfig {
    SimConfig {
        replicates: 1,
        transfers: 0,
        markers: 2,
        dilution_factor: 100,
        max_pop_size: 500_000_000,
        seed: Some(42),
        total_mutation_rate: (0.0f64).to_bits(),
        founder_fitness: (1.0f64).to_bits(),
        initial_lambda: (1.0f64 / 0.015873f64).to_bits(),
    }
}

#[test]
fn replicate_start_builds_one_founder_per_marker() {
    let cfg = test_config();
    let mut tracking: Option<MutationsData> = None;
    let lineages = LineagesData::for_sim_config(&cfg, &mut tracking);

    assert_eq!(lineages.len(), 2);
    assert_eq!(lineages.id_counter(), 2);
    for k in 0..2usize {
        let lin = lineages.get(k);
        assert_eq!(lin.N, 2_500_000);
        assert_eq!(lin.W, (1.0f64).to_bits());
        assert_eq!(lin.secondary.id, (k + 1) as u64);
        assert_eq!(lin.secondary.parent_id, 0);
        assert_eq!(lin.secondary.marker, (k + 1) as u16);
        // every lineage ever inserted counts at least its marker mutation
        assert!(lin.secondary.accumulated_muts >= 1);
        assert_eq!(lin.secondary.accumulated_muts, 1);
    }
}

#[test]
fn replicate_start_registers_the_marker_founders() {
    let cfg = test_config();
    let mut tracking = Some(MutationsData::new());
    let _lineages = LineagesData::for_sim_config(&cfg, &mut tracking);

    let muts = tracking.as_ref().unwrap().muts();
    assert_eq!(muts.len(), 2);
    for k in 0..2usize {
        assert_eq!(muts[k].id, (k + 1) as u64);
        assert_eq!(muts[k].background_id, 0);
        assert_eq!(muts[k].delta_W, 0);
        assert_eq!(muts[k].delta_U, 0);
        assert_eq!(muts[k].first_transfer, 0);
        assert_eq!(muts[k].order, 1);
        assert!(muts[k].N.is_empty());
    }
}

#[test]
fn push_child_adds_the_order_to_the_parent_count() {
    let cfg = test_config();
    let mut tracking: Option<MutationsData> = None;
    let mut lineages = LineagesData::for_sim_config(&cfg, &mut tracking);

    let parent = lineages.get(0);
    let child = Lineage {
        N: 1,
        W: (1.25f64).to_bits(),
        U: parent.U,
        secondary: SecondaryLineageData {
            lambda: parent.secondary.lambda,
            id: 0,
            parent_id: 0,
            marker: parent.secondary.marker,
            accumulated_muts: 0,
        },
    };
    lineages.push_child(child, parent, 3, (0.25f64).to_bits(), &mut tracking);

    let added = lineages.get(2);
    assert_eq!(
        added.secondary.accumulated_muts,
        parent.secondary.accumulated_muts + 3
    );
    assert_eq!(added.secondary.id, 3);
    assert_eq!(added.secondary.parent_id, parent.secondary.id);
    assert_eq!(lineages.id_counter(), 3);
}

#[test]
fn committed_mutants_join_the_store_and_charge_their_parents() {
    let cfg = test_config();
    let mut tracking = Some(MutationsData::new());
    tracking.as_mut().unwrap().set_transfer(1);
    let mut lineages = LineagesData::for_sim_config(&cfg, &mut tracking);
    bottleneck(&mut lineages, &vec![3, 5]);

    let w_up = (1.1f64).to_bits();
    let delta = (0.1f64).to_bits();
    let lambda = (60.0f64).to_bits();
    let events = vec![
        MutantEvent { parent_index: 0, order: 2, W: w_up, lambda, delta_W: delta },
        MutantEvent { parent_index: 0, order: 1, W: w_up, lambda, delta_W: delta },
    ];
    add_mutants(&mut lineages, &mut tracking, &events);

    assert_eq!(lineages.len(), 4);
    // the parent paid one individual per mutant
    assert_eq!(lineages.get(0).N, 1);
    assert_eq!(lineages.get(1).N, 5);
    // each mutant starts as a single individual on its parent's marker
    let first = lineages.get(2);
    let second = lineages.get(3);
    assert_eq!(first.N, 1);
    assert_eq!(first.W, w_up);
    assert_eq!(first.secondary.id, 3);
    assert_eq!(first.secondary.parent_id, 1);
    assert_eq!(first.secondary.marker, 1);
    assert_eq!(first.secondary.accumulated_muts, 3);
    assert_eq!(second.secondary.id, 4);
    assert_eq!(second.secondary.accumulated_muts, 2);

    let muts = tracking.as_ref().unwrap().muts();
    assert_eq!(muts.len(), 4);
    assert_eq!(muts[2].id, 3);
    assert_eq!(muts[2].background_id, 1);
    assert_eq!(muts[2].order, 2);
    assert_eq!(muts[2].first_transfer, 1);
    assert_eq!(muts[2].delta_W, delta);
}

#[test]
fn parents_never_go_below_zero_when_paying_for_mutants() {
    let cfg = test_config();
    let mut tracking: Option<MutationsData> = None;
    let mut lineages = LineagesData::for_sim_config(&cfg, &mut tracking);
    bottleneck(&mut lineages, &vec![1, 2]);

    let w = (1.0f64).to_bits();
    let events = vec![
        MutantEvent { parent_index: 0, order: 1, W: w, lambda: w, delta_W: 0 },
        MutantEvent { parent_index: 0, order: 1, W: w, lambda: w, delta_W: 0 },
    ];
    add_mutants(&mut lineages, &mut tracking, &events);

    // one individual left, then the count stops at zero
    assert_eq!(lineages.get(0).N, 0);
    assert_eq!(lineages.len(), 4);
}

#[test]
fn bottleneck_keeps_survivors_in_order_and_drops_the_rest() {
    let cfg = SimConfig { markers: 4, ..test_config() };
    let mut tracking: Option<MutationsData> = None;
    let mut lineages = LineagesData::for_sim_config(&cfg, &mut tracking);
    assert_eq!(lineages.len(), 4);

    bottleneck(&mut lineages, &vec![0, 7, 0, 9]);

    assert_eq!(lineages.len(), 2);
    assert_eq!(lineages.id_counter(), 4);
    let first = lineages.get(0);
    let second = lineages.get(1);
    assert_eq!(first.N, 7);
    assert_eq!(first.secondary.id, 2);
    assert_eq!(first.secondary.marker, 2);
    assert_eq!(second.N, 9);
    assert_eq!(second.secondary.id, 4);
    assert_eq!(second.secondary.marker, 4);
}

#[test]
fn columns_share_one_length_after_every_step() {
    let cfg = test_config();
    let mut tracking = Some(MutationsData::new());
    let mut lineages = LineagesData::for_sim_config(&cfg, &mut tracking);
    let check = |l: &LineagesData| {
        let n = l.sizes().len();
        assert_eq!(l.fitness_words().len(), n);
        assert_eq!(l.rate_words().len(), n);
        assert_eq!(l.secondary().len(), n);
    };
    check(&lineages);
    bottleneck(&mut lineages, &vec![2, 3]);
    check(&lineages);
    let w = (1.0f64).to_bits();
    let events = vec![MutantEvent { parent_index: 1, order: 1, W: w, lambda: w, delta_W: 0 }];
    add_mutants(&mut lineages, &mut tracking, &events);
    check(&lineages);
}

#[test]
fn committing_no_mutants_changes_nothing() {
    let cfg = test_config();
    let mut tracking = Some(MutationsData::new());
    let mut lineages = LineagesData::for_sim_config(&cfg, &mut tracking);
    bottleneck(&mut lineages, &vec![4, 6]);
    let before_sizes = lineages.sizes().clone();
    let before_secondary = lineages.secondary().clone();

    add_mutants(&mut lineages, &mut tracking, &Vec::new());

    assert_eq!(lineages.sizes(), &before_sizes);
    assert_eq!(lineages.secondary(), &before_secondary);
    assert_eq!(lineages.id_counter(), 2);
    assert_eq!(tracking.as_ref().unwrap().muts().len(), 2);
}
