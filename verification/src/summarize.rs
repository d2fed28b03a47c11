//! Summarizing operations for lineage data
//!
//! Whatever can be computed in whole individuals is computed and proved
//! here: population totals, marker totals, genotype counts and the
//! accumulated-mutation statistics.  The front end derives its ratios and
//! averages from these totals.

use vstd::prelude::*;

use crate::sequencing::total_population;
use crate::types::{LineagesData, LineagesView};

verus! {

/// Population held by those of the first `k` lineages that carry marker 1
pub open spec fn marker_1_population(v: LineagesView, k: int) -> nat
    decreases k,
{
    if k <= 0 {
        0nat
    } else {
        marker_1_population(v, k - 1) + if v.secondary[k - 1].marker == 1 {
            v.N[k - 1] as nat
        } else {
            0nat
        }
    }
}

/// Number of the first `k` lineages whose population is not zero
pub open spec fn spec_genotype_count(v: LineagesView, k: int) -> nat
    decreases k,
{
    if k <= 0 {
        0nat
    } else {
        spec_genotype_count(v, k - 1) + if v.N[k - 1] != 0 {
            1nat
        } else {
            0nat
        }
    }
}

/// Largest accumulated-mutation count among the first `k` lineages, not
/// counting the founding marker mutation
pub open spec fn spec_max_accumulated_muts(v: LineagesView, k: int) -> int
    decreases k,
{
    if k <= 1 {
        v.secondary[0].accumulated_muts - 1
    } else {
        let prev = spec_max_accumulated_muts(v, k - 1);
        let cur = v.secondary[k - 1].accumulated_muts - 1;
        if cur > prev {
            cur
        } else {
            prev
        }
    }
}

/// Smallest accumulated-mutation count among the first `k` lineages, not
/// counting the founding marker mutation
pub open spec fn spec_min_accumulated_muts(v: LineagesView, k: int) -> int
    decreases k,
{
    if k <= 1 {
        v.secondary[0].accumulated_muts - 1
    } else {
        let prev = spec_min_accumulated_muts(v, k - 1);
        let cur = v.secondary[k - 1].accumulated_muts - 1;
        if cur < prev {
            cur
        } else {
            prev
        }
    }
}

/// Accumulated-mutation counts of the first `k` lineages, not counting the
/// founding marker mutation, each weighted by its lineage's population
pub open spec fn spec_weighted_accumulated_muts(v: LineagesView, k: int) -> nat
    decreases k,
{
    if k <= 0 {
        0nat
    } else {
        spec_weighted_accumulated_muts(v, k - 1) + (v.N[k - 1] as nat) * ((
        v.secondary[k - 1].accumulated_muts - 1) as nat)
    }
}

/// Get the total population size of all of the lineages in `lineages`, in
/// whole individuals
#[verifier::loop_isolation(false)]
pub fn sum_N(lineages: &LineagesData) -> (r: u128)
    requires
        lineages@.wf(),
    ensures
        r == total_population(lineages@, lineages@.len() as int),
{
    let sizes = lineages.sizes();
    let len = lineages.len();
    let mut total: u128 = 0;
    let mut i: usize = 0;
    while i < len
        invariant
            i <= len,
            total == total_population(lineages@, i as int),
        decreases len - i,
    {
        proof {
            crate::sequencing::lemma_total_population_bound(lineages@, i as int);
            assert((i as int) * 0xffff_ffff_ffff_ffff
                < 0x1_0000_0000_0000_0000_0000_0000_0000_0000 - 0xffff_ffff_ffff_ffff)
                by (nonlinear_arith)
                requires
                    0 <= i < 0x1_0000_0000_0000_0000,
            ;
        }
        total = total + (sizes[i] as u128);
        i = i + 1;
    }
    total
}

/// Get the population carrying marker 1 and the population carrying any
/// other marker, in whole individuals
///
/// The ratio of the two is the marker-1 ratio; the front end divides them
/// (so a run with a single marker divides by zero there, which it must
/// guard or report as an infinite ratio).
#[verifier::loop_isolation(false)]
pub fn marker_1_split(lineages: &LineagesData) -> (r: (u128, u128))
    requires
        lineages@.wf(),
    ensures
        r.0 == marker_1_population(lineages@, lineages@.len() as int),
        r.0 + r.1 == total_population(lineages@, lineages@.len() as int),
{
    let sizes = lineages.sizes();
    let secondary = lineages.secondary();
    let len = lineages.len();
    let mut marker_1: u128 = 0;
    let mut others: u128 = 0;
    let mut i: usize = 0;
    while i < len
        invariant
            i <= len,
            marker_1 == marker_1_population(lineages@, i as int),
            marker_1 + others == total_population(lineages@, i as int),
        decreases len - i,
    {
        proof {
            crate::sequencing::lemma_total_population_bound(lineages@, i as int);
            assert((i as int) * 0xffff_ffff_ffff_ffff
                < 0x1_0000_0000_0000_0000_0000_0000_0000_0000 - 0xffff_ffff_ffff_ffff)
                by (nonlinear_arith)
                requires
                    0 <= i < 0x1_0000_0000_0000_0000,
            ;
        }
        if secondary[i].marker == 1 {
            marker_1 = marker_1 + (sizes[i] as u128);
        } else {
            others = others + (sizes[i] as u128);
        }
        i = i + 1;
    }
    (marker_1, others)
}

/// Number of lineages/genotypes in the population
#[verifier::loop_isolation(false)]
pub fn genotype_count(lineages: &LineagesData) -> (r: usize)
    requires
        lineages@.wf(),
    ensures
        r == spec_genotype_count(lineages@, lineages@.len() as int),
{
    let sizes = lineages.sizes();
    let len = lineages.len();
    let mut count: usize = 0;
    let mut i: usize = 0;
    while i < len
        invariant
            i <= len,
            count <= i,
            count == spec_genotype_count(lineages@, i as int),
        decreases len - i,
    {
        // Zero-size lineages can happen when all members of a lineage are
        // replaced with new mutants
        if sizes[i] != 0 {
            count = count + 1;
        }
        i = i + 1;
    }
    count
}

/// Maximum number of mutations away from the ancestor of any lineage in the
/// population
#[verifier::loop_isolation(false)]
pub fn max_accumulated_muts(lineages: &LineagesData) -> (r: u32)
    requires
        lineages@.wf(),
        lineages@.len() >= 1,
    ensures
        r == spec_max_accumulated_muts(lineages@, lineages@.len() as int),
{
    let secondary = lineages.secondary();
    let len = lineages.len();
    let mut best: u32 = secondary[0].accumulated_muts - 1;
    let mut i: usize = 1;
    while i < len
        invariant
            1 <= i <= len,
            best == spec_max_accumulated_muts(lineages@, i as int),
        decreases len - i,
    {
        let cur = secondary[i].accumulated_muts - 1;
        if cur > best {
            best = cur;
        }
        i = i + 1;
    }
    best
}

/// Minimum number of mutations away from the ancestor of any lineage in the
/// population
#[verifier::loop_isolation(false)]
pub fn min_accumulated_muts(lineages: &LineagesData) -> (r: u32)
    requires
        lineages@.wf(),
        lineages@.len() >= 1,
    ensures
        r == spec_min_accumulated_muts(lineages@, lineages@.len() as int),
{
    let secondary = lineages.secondary();
    let len = lineages.len();
    let mut best: u32 = secondary[0].accumulated_muts - 1;
    let mut i: usize = 1;
    while i < len
        invariant
            1 <= i <= len,
            best == spec_min_accumulated_muts(lineages@, i as int),
        decreases len - i,
    {
        let cur = secondary[i].accumulated_muts - 1;
        if cur < best {
            best = cur;
        }
        i = i + 1;
    }
    best
}

/// Get the population-weighted sum of accumulated-mutation counts, the
/// numerator of their mean, or nothing if it cannot be held in 128 bits
#[verifier::loop_isolation(false)]
pub fn sum_weighted_accumulated_muts(lineages: &LineagesData) -> (r: Option<u128>)
    requires
        lineages@.wf(),
    ensures
        r matches Some(s) ==> s == spec_weighted_accumulated_muts(
            lineages@,
            lineages@.len() as int,
        ),
        r is None ==> spec_weighted_accumulated_muts(lineages@, lineages@.len() as int)
            > u128::MAX,
{
    let sizes = lineages.sizes();
    let secondary = lineages.secondary();
    let len = lineages.len();
    let mut total: u128 = 0;
    let mut i: usize = 0;
    while i < len
        invariant
            i <= len,
            total == spec_weighted_accumulated_muts(lineages@, i as int),
        decreases len - i,
    {
        proof {
            assert((sizes@[i as int] as int) * ((secondary@[i as int].accumulated_muts - 1) as int)
                < 0x1_0000_0000_0000_0000_0000_0000_0000_0000) by (nonlinear_arith)
                requires
                    sizes@[i as int] <= u64::MAX,
                    secondary@[i as int].accumulated_muts <= u32::MAX,
            ;
        }
        let term: u128 = (sizes[i] as u128) * ((secondary[i].accumulated_muts - 1) as u128);
        if term > u128::MAX - total {
            proof {
                lemma_weighted_accumulated_monotone(lineages@, i as int + 1, lineages@.len() as int);
            }
            return None;
        }
        total = total + term;
        i = i + 1;
    }
    Some(total)
}

/// Counting more lineages never lowers the weighted sum
proof fn lemma_weighted_accumulated_monotone(v: LineagesView, k1: int, k2: int)
    requires
        0 <= k1 <= k2,
    ensures
        spec_weighted_accumulated_muts(v, k1) <= spec_weighted_accumulated_muts(v, k2),
    decreases k2 - k1,
{
    if k1 < k2 {
        lemma_weighted_accumulated_monotone(v, k1, k2 - 1);
    }
}

} // verus!
