//! Mechanics of the growth, mutation, and bottlenecking processes
//!
//! Mid-level details between the high-level transfer process and the growth
//! kernels.  The random draws themselves (how many mutations occur, where the
//! cutoffs fall, how many individuals survive dilution) are made by the
//! caller; the functions here commit their outcomes to the lineage store and
//! the mutation tracker, and carry exact contracts for doing so.

use vstd::arithmetic::power2::{
    lemma_pow2_adds, lemma_pow2_pos, lemma_pow2_strictly_increases, lemma_pow2_unfold, pow2,
};
use vstd::prelude::*;

use crate::cfg::SimConfig;
use crate::types::{Lineage, LineagesData, LineagesView, MutationsData, MutationView, SecondaryLineageData};

verus! {

/// The exponent of the largest power of two no greater than `d`
pub open spec fn floor_log2(d: nat) -> nat
    decreases d,
{
    if d <= 1 {
        0
    } else {
        1 + floor_log2(d / 2)
    }
}

/// `floor_log2` earns its name: `d` lies between consecutive powers of two
pub proof fn lemma_floor_log2(d: nat)
    requires
        d >= 1,
    ensures
        pow2(floor_log2(d)) <= d < 2 * pow2(floor_log2(d)),
    decreases d,
{
    if d <= 1 {
        assert(pow2(0) == 1) by {
            vstd::arithmetic::power2::lemma2_to64();
        }
    } else {
        lemma_floor_log2(d / 2);
        lemma_pow2_unfold((1 + floor_log2(d / 2)) as nat);
    }
}

/// Number of Phase-1 doublings that a dilution factor `d` calls for
///
/// The total number of doublings a transfer must recover is `log2(d)`.  With
/// `f = floor_log2(d)`, the fractional part of `log2(d)` is below one half
/// exactly when `d * d < pow2(2 * f + 1)`; in that case one fewer whole
/// doubling runs in Phase 1, so that at least half a doubling remains for
/// Phase 2.
pub open spec fn spec_phase_1_doublings(d: nat) -> int
    recommends
        d >= 2,
{
    let f = floor_log2(d);
    if d * d < pow2(2 * f + 1) {
        f - 1
    } else {
        f as int
    }
}

/// Get the number of phase 1 doublings that must take place before phase 2,
/// given the dilution factor in `cfg`
#[verifier::loop_isolation(false)]
pub fn phase_1_doublings_required(cfg: &SimConfig) -> (r: usize)
    requires
        cfg.dilution_factor >= 2,
    ensures
        r == spec_phase_1_doublings(cfg.dilution_factor as nat),
{
    let d = cfg.dilution_factor;
    proof {
        vstd::arithmetic::power2::lemma2_to64();
    }

    // Find the whole part of log2(d)
    let mut f: u32 = 0;
    let mut x: u64 = d;
    while x >= 2
        invariant
            x >= 1,
            f <= 63,
            floor_log2(d as nat) == f + floor_log2(x as nat),
            pow2(f as nat) * x <= d,
        decreases x,
    {
        proof {
            let pf = pow2(f as nat);
            let pf1 = pow2((f + 1) as nat);
            lemma_pow2_unfold((f + 1) as nat);
            lemma_pow2_pos(f as nat);
            assert(pf1 * (x as nat / 2) <= pf * x) by (nonlinear_arith)
                requires
                    pf1 == 2 * pf,
                    pf > 0,
                    x >= 2,
            ;
            assert(pf1 <= pf1 * (x as nat / 2)) by (nonlinear_arith)
                requires
                    pf1 > 0,
                    x >= 2,
            ;
            if f + 1 > 63 {
                assert(pow2(64) <= pf1) by {
                    if f + 1 > 64 {
                        lemma_pow2_strictly_increases(64, (f + 1) as nat);
                    }
                };
                assert(false);
            }
        }
        x = x / 2;
        f = f + 1;
    }
    proof {
        assert(floor_log2(x as nat) == 0);
        assert(floor_log2(d as nat) == f);
        assert(f >= 1);
    }

    // The fractional part of log2(d) is at least one half exactly when
    // d * d reaches pow2(2 * f + 1)
    proof {
        vstd::arithmetic::power2::lemma2_to64();
    }
    let mut threshold: u128 = 2;
    let mut i: u32 = 0;
    while i < 2 * f
        invariant
            i <= 2 * f,
            f <= 63,
            threshold == 2 * pow2(i as nat),
        decreases 2 * f - i,
    {
        proof {
            lemma_pow2_unfold((i + 1) as nat);
            assert(pow2((i + 1) as nat) == 2 * pow2(i as nat));
            assert(i + 1 <= 127);
            assert(pow2((i + 1) as nat) < pow2(127)) by {
                lemma_pow2_strictly_increases((i + 1) as nat, 127);
            };
            assert(pow2(127) == 0x8000_0000_0000_0000_0000_0000_0000_0000) by {
                lemma_pow2_127_value();
            };
        }
        threshold = threshold * 2;
        i = i + 1;
    }
    proof {
        assert(threshold == 2 * pow2((2 * f) as nat));
        assert(2 * pow2((2 * f) as nat) == pow2((2 * f + 1) as nat)) by {
            lemma_pow2_unfold((2 * f + 1) as nat);
        };
    }

    proof {
        assert((d as int) * (d as int) < 0x1_0000_0000_0000_0000_0000_0000_0000_0000)
            by (nonlinear_arith)
            requires
                d <= u64::MAX,
        ;
    }
    let square: u128 = (d as u128) * (d as u128);
    if square < threshold {
        (f - 1) as usize
    } else {
        f as usize
    }
}

/// `pow2(127)` written out, for bounding the threshold loop
proof fn lemma_pow2_127_value()
    ensures
        pow2(127) == 0x8000_0000_0000_0000_0000_0000_0000_0000,
{
    vstd::arithmetic::power2::lemma2_to64();
    assert(pow2(64) == 0x1_0000_0000_0000_0000);
    assert(pow2(127) == pow2(64) * pow2(63)) by {
        lemma_pow2_adds(64, 63);
    };
    assert(pow2(63) == 0x8000_0000_0000_0000) by {
        vstd::arithmetic::power2::lemma2_to64_rest();
    };
}

/// When the dilution factor is exactly a power of two, `pow2(k)` with
/// `k >= 1`, Phase 1 runs `k - 1` doublings: the fractional part of `log2`
/// is zero, so a full doubling — more than the promised half — is reserved
/// for Phase 2.
pub proof fn lemma_phase_1_doublings_power_of_two(k: nat)
    requires
        k >= 1,
    ensures
        spec_phase_1_doublings(pow2(k)) == k - 1,
{
    lemma_floor_log2_pow2(k);
    let d = pow2(k);
    assert(d * d == pow2(2 * k)) by {
        lemma_pow2_adds(k, k);
    };
    assert(pow2(2 * k) < pow2(2 * k + 1)) by {
        lemma_pow2_strictly_increases(2 * k, 2 * k + 1);
    };
}

/// `floor_log2` inverts `pow2`
pub proof fn lemma_floor_log2_pow2(k: nat)
    ensures
        floor_log2(pow2(k)) == k,
    decreases k,
{
    if k == 0 {
        assert(pow2(0) == 1) by {
            vstd::arithmetic::power2::lemma2_to64();
        };
    } else {
        lemma_floor_log2_pow2((k - 1) as nat);
        lemma_pow2_unfold(k);
        lemma_pow2_pos((k - 1) as nat);
        assert(pow2(k) / 2 == pow2((k - 1) as nat));
        assert(pow2(k) > 1);
    }
}


/// The lineages that dilution keeps, among the first `k`
///
/// `draws[i]` is the number of individuals of lineage `i` that survive the
/// bottleneck; a lineage with no survivors is dropped, and a survivor keeps
/// every column but its size, which becomes its draw.  The id counter is
/// inherited unchanged.
pub open spec fn bottleneck_prefix(v: LineagesView, draws: Seq<u64>, k: int) -> LineagesView
    recommends
        v.wf(),
        draws.len() == v.len(),
        k <= v.len(),
    decreases k,
{
    if k <= 0 {
        LineagesView {
            N: Seq::empty(),
            W: Seq::empty(),
            U: Seq::empty(),
            secondary: Seq::empty(),
            id_counter: v.id_counter,
        }
    } else {
        let prev = bottleneck_prefix(v, draws, k - 1);
        if draws[k - 1] > 0 {
            LineagesView {
                N: prev.N.push(draws[k - 1]),
                W: prev.W.push(v.W[k - 1]),
                U: prev.U.push(v.U[k - 1]),
                secondary: prev.secondary.push(v.secondary[k - 1]),
                id_counter: v.id_counter,
            }
        } else {
            prev
        }
    }
}

/// Replace the population with its bottlenecked successor
///
/// `survivors[i]` is the sampled number of individuals of lineage `i` that
/// pass the dilution.  Lineages with no survivors are dropped; the rest keep
/// their order, their columns and their ids, with their sizes replaced by
/// their draws.  A fresh container is built and swapped in, so no interior
/// deletions happen; the id counter carries over.
#[verifier::loop_isolation(false)]
pub fn bottleneck(lineages: &mut LineagesData, survivors: &Vec<u64>)
    requires
        old(lineages)@.wf(),
        survivors@.len() == old(lineages)@.len(),
    ensures
        final(lineages)@ == bottleneck_prefix(
            old(lineages)@,
            survivors@,
            old(lineages)@.len() as int,
        ),
        final(lineages)@.wf(),
        final(lineages)@.id_counter == old(lineages)@.id_counter,
{
    let len = lineages.len();
    let mut bottlenecked_data = LineagesData::successor(lineages);
    proof {
        assert(bottlenecked_data@ =~= bottleneck_prefix(lineages@, survivors@, 0));
    }
    let mut i: usize = 0;
    while i < len
        invariant
            i <= len,
            lineages@ == old(lineages)@,
            bottlenecked_data@.wf(),
            bottlenecked_data@.id_counter == lineages@.id_counter,
            bottlenecked_data@ == bottleneck_prefix(lineages@, survivors@, i as int),
            forall|j: int, idx: int|
                0 <= j < bottlenecked_data@.len() && i <= idx < len
                    ==> bottlenecked_data@.secondary[j].id < lineages@.secondary[idx].id,
        decreases len - i,
    {
        let ghost prev = bottlenecked_data@;
        let n_bottlenecked = survivors[i];
        if n_bottlenecked > 0 {
            let mut lineage = lineages.get(i);
            lineage.N = n_bottlenecked;
            bottlenecked_data.push(lineage);
        }
        proof {
            let cur = bottleneck_prefix(lineages@, survivors@, i + 1);
            assert(cur == if survivors@[i as int] > 0 {
                LineagesView {
                    N: prev.N.push(survivors@[i as int]),
                    W: prev.W.push(lineages@.W[i as int]),
                    U: prev.U.push(lineages@.U[i as int]),
                    secondary: prev.secondary.push(lineages@.secondary[i as int]),
                    id_counter: lineages@.id_counter,
                }
            } else {
                prev
            });
            assert(bottlenecked_data@ =~= cur);
        }
        i = i + 1;
    }

    // Make the data refer to the bottlenecked data, dropping the old data
    *lineages = bottlenecked_data;
}

/// One committed mutant: the outcome of the caller's draws for a single new
/// individual
///
/// `parent_index` names the pre-existing lineage the individual mutated out
/// of, `order` counts the elementary mutations that hit it, and the words
/// carry the caller's updated fitness, mean-size reciprocal and recorded
/// fitness change.
#[derive(Copy, Clone, Debug, PartialEq, Eq, Structural)]
pub struct MutantEvent {
    /// Index of the parent lineage among the lineages that existed when the
    /// mutants were drawn
    pub parent_index: usize,
    /// Number of elementary mutations fused on this individual (at least 1)
    pub order: u32,
    /// Fitness word of the mutant
    pub W: u64,
    /// Mean-size-reciprocal word of the mutant
    pub lambda: u64,
    /// Fitness-change payload recorded for the tracker
    pub delta_W: u64,
}

/// How many of the first `k` events take their individual out of lineage `i`
pub open spec fn count_hits(events: Seq<MutantEvent>, i: int, k: int) -> nat
    decreases k,
{
    if k <= 0 {
        0nat
    } else {
        count_hits(events, i, k - 1) + if events[k - 1].parent_index == i {
            1nat
        } else {
            0nat
        }
    }
}

/// `n` individuals after `c` have left, one at a time, stopping at zero
pub open spec fn remaining_after(n: u64, c: nat) -> u64 {
    if c >= n {
        0u64
    } else {
        (n - c) as u64
    }
}

/// The lineage that event `e` appends when the store's id counter last
/// assigned `counter` and the parent columns still read as in `v`
pub open spec fn spec_mutant(v: LineagesView, e: MutantEvent, counter: int) -> Lineage {
    Lineage {
        N: 1u64,
        W: e.W,
        U: v.U[e.parent_index as int],
        secondary: SecondaryLineageData {
            lambda: e.lambda,
            id: (counter + 1) as u64,
            parent_id: v.secondary[e.parent_index as int].id,
            marker: v.secondary[e.parent_index as int].marker,
            accumulated_muts: (v.secondary[e.parent_index as int].accumulated_muts + e.order) as u32,
        },
    }
}

/// Add the mutants corresponding to the caller's draws to `lineages`, while
/// adjusting existing population sizes to remove the new mutants from old
/// lineage sizes
///
/// The caller has already distributed the Poisson-drawn mutation count over
/// the pre-existing lineages (one event per distinct new individual, in
/// cutoff order, collisions fused into the event's `order`) and applied the
/// drawn mutations to the parent's fitness and mean-size words.  This commits
/// the events: each appends a child of size one — inheriting its parent's
/// rate word and marker, carrying the event's words — registers it with the
/// tracker if one is given, and removes one individual from the parent,
/// stopping at zero.
#[verifier::loop_isolation(false)]
pub fn add_mutants(
    lineages: &mut LineagesData,
    mutations: &mut Option<MutationsData>,
    events: &Vec<MutantEvent>,
)
    requires
        old(lineages)@.wf(),
        forall|k: int|
            0 <= k < events@.len() ==> (#[trigger] events@[k]).parent_index < old(
                lineages,
            )@.len(),
        forall|k: int| 0 <= k < events@.len() ==> (#[trigger] events@[k]).order >= 1,
        old(lineages)@.id_counter + events@.len() <= u64::MAX,
        forall|k: int|
            0 <= k < events@.len() ==> old(lineages)@.secondary[(#[trigger] events@[k]).parent_index as int].accumulated_muts
                + events@[k].order <= u32::MAX,
        (*old(mutations)) matches Some(md) ==> md@.wf() && md@.ids_at_most(
            old(lineages)@.id_counter as int,
        ),
    ensures
        final(lineages)@.wf(),
        final(lineages)@.len() == old(lineages)@.len() + events@.len(),
        final(lineages)@.id_counter == old(lineages)@.id_counter + events@.len(),
        forall|i: int|
            0 <= i < old(lineages)@.len() ==> (#[trigger] final(lineages)@.W[i]) == old(
                lineages,
            )@.W[i],
        forall|i: int|
            0 <= i < old(lineages)@.len() ==> (#[trigger] final(lineages)@.U[i]) == old(
                lineages,
            )@.U[i],
        forall|i: int|
            0 <= i < old(lineages)@.len() ==> (#[trigger] final(lineages)@.secondary[i]) == old(
                lineages,
            )@.secondary[i],
        forall|i: int|
            0 <= i < old(lineages)@.len() ==> (#[trigger] final(lineages)@.N[i])
                == remaining_after(
                old(lineages)@.N[i],
                count_hits(events@, i, events@.len() as int),
            ),
        forall|k: int|
            0 <= k < events@.len() ==> (#[trigger] final(lineages)@.lineage(
                old(lineages)@.len() + k,
            )) == spec_mutant(old(lineages)@, events@[k], old(lineages)@.id_counter + k),
        (*old(mutations)) matches Some(md) ==> (*final(mutations)) matches Some(fmd)
            && fmd@.muts.len() == md@.muts.len() + events@.len() && (forall|i: int|
            0 <= i < md@.muts.len() ==> (#[trigger] fmd@.muts[i]) == md@.muts[i]) && (forall|
            k: int,
        |
            0 <= k < events@.len() ==> (#[trigger] fmd@.muts[md@.muts.len() + k])
                == (MutationView {
                id: (old(lineages)@.id_counter + k + 1) as u64,
                background_id: old(lineages)@.secondary[events@[k].parent_index as int].id,
                delta_W: events@[k].delta_W,
                delta_U: 0u64,
                first_transfer: md@.on_transfer,
                N: Seq::empty(),
                order: events@[k].order,
                just_updated: false,
            })) && fmd@.pruned_muts == md@.pruned_muts && fmd@.on_transfer == md@.on_transfer
            && fmd@.wf() && fmd@.ids_at_most(
            old(lineages)@.id_counter + events@.len(),
        ),
        (*old(mutations)) is None ==> (*final(mutations)) is None,
{
    let ghost orig = old(lineages)@;
    let len = events.len();
    let mut k: usize = 0;
    while k < len
        invariant
            k <= len,
            lineages@.wf(),
            lineages@.len() == orig.len() + k,
            lineages@.id_counter == orig.id_counter + k,
            forall|i: int|
                0 <= i < orig.len() ==> (#[trigger] lineages@.W[i]) == orig.W[i],
            forall|i: int|
                0 <= i < orig.len() ==> (#[trigger] lineages@.U[i]) == orig.U[i],
            forall|i: int|
                0 <= i < orig.len() ==> (#[trigger] lineages@.secondary[i]) == orig.secondary[i],
            forall|i: int|
                0 <= i < orig.len() ==> (#[trigger] lineages@.N[i]) == remaining_after(
                    orig.N[i],
                    count_hits(events@, i, k as int),
                ),
            forall|j: int|
                0 <= j < k ==> (#[trigger] lineages@.lineage(orig.len() + j)) == spec_mutant(
                    orig,
                    events@[j],
                    orig.id_counter + j,
                ),
            (*old(mutations)) matches Some(md) ==> (*mutations) matches Some(cmd)
                && cmd@.muts.len() == md@.muts.len() + k && (forall|i: int|
                0 <= i < md@.muts.len() ==> (#[trigger] cmd@.muts[i]) == md@.muts[i]) && (forall|
                j: int,
            |
                0 <= j < k ==> (#[trigger] cmd@.muts[md@.muts.len() + j]) == (MutationView {
                    id: (orig.id_counter + j + 1) as u64,
                    background_id: orig.secondary[events@[j].parent_index as int].id,
                    delta_W: events@[j].delta_W,
                    delta_U: 0u64,
                    first_transfer: md@.on_transfer,
                    N: Seq::empty(),
                    order: events@[j].order,
                    just_updated: false,
                })) && cmd@.pruned_muts == md@.pruned_muts && cmd@.on_transfer == md@.on_transfer
                && cmd@.wf() && cmd@.ids_at_most(orig.id_counter + k),
            (*old(mutations)) is None ==> (*mutations) is None,
        decreases len - k,
    {
        let ghost pre = lineages@;
        let e = events[k];
        let parent = lineages.get(e.parent_index);
        let mutant = Lineage {
            N: 1,
            W: e.W,
            U: parent.U,
            secondary: SecondaryLineageData {
                lambda: e.lambda,
                id: 0,
                parent_id: 0,
                marker: parent.secondary.marker,
                accumulated_muts: 0,
            },
        };
        lineages.push_child(mutant, parent, e.order, e.delta_W, mutations);
        // N still includes the mutant that came from the lineage up to this
        // point, so one individual leaves the parent
        lineages.deduct_individual(e.parent_index);
        proof {
            let pi = e.parent_index as int;
            assert forall|i: int| 0 <= i < orig.len() implies (#[trigger] lineages@.N[i])
                == remaining_after(orig.N[i], count_hits(events@, i, k + 1)) by {
                let c: nat = count_hits(events@, i, k as int);
                assert(count_hits(events@, i, k + 1) == c + (if events@[k as int].parent_index
                    == i {
                    1nat
                } else {
                    0nat
                }));
                assert(pre.N[i] == remaining_after(orig.N[i], c));
                if i == pi {
                    assert(lineages@.N[i] == (if pre.N[pi] > 0 {
                        (pre.N[pi] - 1) as u64
                    } else {
                        0u64
                    }));
                } else {
                    assert(lineages@.N[i] == pre.N[i]);
                }
            }
            assert forall|j: int| 0 <= j < k + 1 implies (#[trigger] lineages@.lineage(
                orig.len() + j,
            )) == spec_mutant(orig, events@[j], orig.id_counter + j) by {
                if j < k {
                    assert(pre.lineage(orig.len() + j) == spec_mutant(
                        orig,
                        events@[j],
                        orig.id_counter + j,
                    ));
                    assert(lineages@.N[orig.len() + j] == pre.N[orig.len() + j]);
                    assert(lineages@.W[orig.len() + j] == pre.W[orig.len() + j]);
                    assert(lineages@.U[orig.len() + j] == pre.U[orig.len() + j]);
                    assert(lineages@.secondary[orig.len() + j] == pre.secondary[orig.len() + j]);
                } else {
                    assert(pre.secondary[pi] == orig.secondary[pi]);
                    assert(pre.U[pi] == orig.U[pi]);
                    assert(lineages@.N[orig.len() + k] == 1u64);
                    assert(lineages@.W[orig.len() + k] == e.W);
                    assert(lineages@.U[orig.len() + k] == pre.U[pi]);
                    assert(lineages@.secondary[orig.len() + k] == (SecondaryLineageData {
                        lambda: e.lambda,
                        id: (pre.id_counter + 1) as u64,
                        parent_id: pre.secondary[pi].id,
                        marker: pre.secondary[pi].marker,
                        accumulated_muts: (pre.secondary[pi].accumulated_muts + e.order) as u32,
                    }));
                }
            }
        }
        k = k + 1;
    }
}


/// Marker conservation: a committed mutant carries the marker of the lineage
/// it mutated out of, so every lineage's marker is its founder's
pub proof fn lemma_marker_conserved(v: LineagesView, e: MutantEvent, counter: int)
    ensures
        spec_mutant(v, e, counter).secondary.marker == v.secondary[e.parent_index as int].marker,
{
}

} // verus!
