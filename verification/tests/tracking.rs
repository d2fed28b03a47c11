//! The mutation tracker: size histories along background chains, and pruning
//! of fixed and extinct mutations

use steps_core::cfg::SimConfig;
use steps_core::mechanics::{add_mutants, bottleneck, MutantEvent};
use steps_core::sequencing::update_sizes;
use steps_core::types::{LineagesData, MutationsData};

fn test_config(markers: u16) -> SimConfig {
    SimConfig {
        replicates: 1,
        transfers: 50,
        markers,
        dilution_factor: 100,
        max_pop_size: 500_000_000,
        seed: Some(7),
        total_mutation_rate: (2e-6f64).to_bits(),
        founder_fitness: (1.0f64).to_bits(),
        initial_lambda: (1.0f64 / 0.012f64).to_bits(),
    }
}

#[test]
fn founders_record_their_starting_sizes() {
    let cfg = test_config(2);
    let mut tracking = Some(MutationsData::new());
    let lineages = LineagesData::for_sim_config(&cfg, &mut tracking);
    let md = tracking.as_mut().unwrap();
    update_sizes(md, &lineages);

    let muts = md.muts();
    assert_eq!(muts.len(), 2);
    assert_eq!(muts[0].N, vec![2_500_000u128]);
    assert_eq!(muts[1].N, vec![2_500_000u128]);
    assert!(md.pruned_muts().is_empty());
}

#[test]
fn chain_walk_sums_descendants_into_each_ancestor() {
    let cfg = test_config(2);
    let mut tracking = Some(MutationsData::new());
    let mut lineages = LineagesData::for_sim_config(&cfg, &mut tracking);
    update_sizes(tracking.as_mut().unwrap(), &lineages);

    bottleneck(&mut lineages, &vec![3, 5]);
    tracking.as_mut().unwrap().set_transfer(1);
    let w = (1.05f64).to_bits();
    let events = vec![MutantEvent {
        parent_index: 0,
        order: 2,
        W: w,
        lambda: w,
        delta_W: (0.05f64).to_bits(),
    }];
    add_mutants(&mut lineages, &mut tracking, &events);
    // sizes are now [2, 5, 1]: the mutant (id 3) sits on founder 1's chain
    update_sizes(tracking.as_mut().unwrap(), &lineages);

    let md = tracking.as_ref().unwrap();
    let muts = md.muts();
    assert_eq!(muts.len(), 3);
    // founder 1 carries its own lineage and the mutant's: 2 + 1
    assert_eq!(muts[0].id, 1);
    assert_eq!(muts[0].N, vec![2_500_000u128, 3]);
    // founder 2 only carries itself
    assert_eq!(muts[1].id, 2);
    assert_eq!(muts[1].N, vec![2_500_000u128, 5]);
    // the mutant tracks only its own lineage, starting at its first transfer
    assert_eq!(muts[2].id, 3);
    assert_eq!(muts[2].N, vec![1u128]);
    assert!(md.pruned_muts().is_empty());
}

#[test]
fn extinct_and_fixed_mutations_are_pruned_and_never_duplicated() {
    let cfg = test_config(2);
    let mut tracking = Some(MutationsData::new());
    let mut lineages = LineagesData::for_sim_config(&cfg, &mut tracking);
    update_sizes(tracking.as_mut().unwrap(), &lineages);
    bottleneck(&mut lineages, &vec![3, 5]);
    tracking.as_mut().unwrap().set_transfer(1);
    let w = (1.05f64).to_bits();
    let events = vec![MutantEvent {
        parent_index: 0,
        order: 1,
        W: w,
        lambda: w,
        delta_W: (0.05f64).to_bits(),
    }];
    add_mutants(&mut lineages, &mut tracking, &events);
    update_sizes(tracking.as_mut().unwrap(), &lineages);

    // only the mutant's lineage survives this bottleneck: founder 2's
    // mutation goes extinct, and founder 1's and the mutant's both fix
    bottleneck(&mut lineages, &vec![0, 0, 4]);
    tracking.as_mut().unwrap().clear_pruned();
    tracking.as_mut().unwrap().set_transfer(2);
    let md = tracking.as_mut().unwrap();
    update_sizes(md, &lineages);

    assert!(md.muts().is_empty());
    let pruned = md.pruned_muts();
    assert_eq!(pruned.len(), 3);
    // pruned in registration order; every tracked mutation went exactly one way
    assert_eq!(pruned[0].id, 1);
    assert_eq!(pruned[0].N, vec![2_500_000u128, 3, 4]);
    assert_eq!(pruned[1].id, 2);
    assert_eq!(pruned[1].N, vec![2_500_000u128, 5]);
    assert_eq!(pruned[2].id, 3);
    assert_eq!(pruned[2].N, vec![1u128, 4]);
}

#[test]
fn a_single_marker_fixes_and_is_pruned_at_once() {
    let cfg = test_config(1);
    let mut tracking = Some(MutationsData::new());
    let lineages = LineagesData::for_sim_config(&cfg, &mut tracking);
    let md = tracking.as_mut().unwrap();
    update_sizes(md, &lineages);

    // the lone founder holds the whole population, so it has already fixed
    assert!(md.muts().is_empty());
    assert_eq!(md.pruned_muts().len(), 1);
    assert_eq!(md.pruned_muts()[0].id, 1);
}

#[test]
fn clearing_pruned_mutations_leaves_active_ones_alone() {
    let cfg = test_config(1);
    let mut tracking = Some(MutationsData::new());
    let lineages = LineagesData::for_sim_config(&cfg, &mut tracking);
    let md = tracking.as_mut().unwrap();
    update_sizes(md, &lineages);
    assert_eq!(md.pruned_muts().len(), 1);

    md.clear_pruned();
    assert!(md.pruned_muts().is_empty());
    assert!(md.muts().is_empty());
    assert_eq!(md.on_transfer(), 0);
    md.set_transfer(3);
    assert_eq!(md.on_transfer(), 3);
}

#[test]
fn an_emptied_population_prunes_every_tracked_mutation() {
    let cfg = test_config(2);
    let mut tracking = Some(MutationsData::new());
    let mut lineages = LineagesData::for_sim_config(&cfg, &mut tracking);
    update_sizes(tracking.as_mut().unwrap(), &lineages);

    bottleneck(&mut lineages, &vec![0, 0]);
    let md = tracking.as_mut().unwrap();
    md.clear_pruned();
    md.set_transfer(1);
    update_sizes(md, &lineages);

    assert!(md.muts().is_empty());
    assert_eq!(md.pruned_muts().len(), 2);
    // the pruned histories keep only what was recorded while they lived
    assert_eq!(md.pruned_muts()[0].N, vec![2_500_000u128]);
    assert_eq!(md.pruned_muts()[1].N, vec![2_500_000u128]);
}
