//! Implementation of mutation tracking
//!
//! `update_sizes` is the end-of-transfer accounting pass: every lineage walks
//! its chain of background mutations and deposits its population size with
//! each tracked ancestor, and mutations that went extinct or fixed are moved
//! to the pruned list.  The contract pins the result down exactly, through
//! the chain model below.

use vstd::prelude::*;

use crate::types::{mut_views, LineagesData, LineagesView, Mutation, MutationView, MutationsData};

verus! {

broadcast use crate::types::lemma_mut_views_len, crate::types::lemma_mut_views_index, crate::types::MutationsData::lemma_view;


/// The background edge of every tracked mutation: its id mapped to the id of
/// the mutation it arose on
pub open spec fn tracked_backgrounds(muts: Seq<MutationView>) -> Map<u64, u64>
    decreases muts.len(),
{
    if muts.len() == 0 {
        Map::empty()
    } else {
        tracked_backgrounds(muts.drop_last()).insert(muts.last().id, muts.last().background_id)
    }
}

/// What `tracked_backgrounds` holds, record by record
pub proof fn lemma_tracked_backgrounds(muts: Seq<MutationView>)
    requires
        forall|i: int, j: int| 0 <= i < j < muts.len() ==> muts[i].id != muts[j].id,
    ensures
        forall|q: int|
            0 <= q < muts.len() ==> #[trigger] tracked_backgrounds(muts).dom().contains(
                muts[q].id,
            ),
        forall|q: int|
            0 <= q < muts.len() ==> tracked_backgrounds(muts)[(#[trigger] muts[q]).id]
                == muts[q].background_id,
        forall|t: u64|
            #[trigger] tracked_backgrounds(muts).dom().contains(t) ==> exists|q: int|
                0 <= q < muts.len() && (#[trigger] muts[q]).id == t,
    decreases muts.len(),
{
    if muts.len() > 0 {
        let prefix = muts.drop_last();
        lemma_tracked_backgrounds(prefix);
        assert(forall|q: int| 0 <= q < prefix.len() ==> prefix[q] == muts[q]);
        assert forall|t: u64| #[trigger] tracked_backgrounds(muts).dom().contains(t) implies exists|
            q: int,
        | 0 <= q < muts.len() && (#[trigger] muts[q]).id == t by {
            if t == muts.last().id {
                assert(muts[muts.len() - 1].id == t);
            } else {
                assert(tracked_backgrounds(prefix).dom().contains(t));
                let q = choose|q: int| 0 <= q < prefix.len() && (#[trigger] prefix[q]).id == t;
                assert(muts[q].id == t);
            }
        }
    }
}

/// Whether following background edges from `start` reaches `target`, both
/// among the tracked ids in `back`
///
/// The walk stops at the first id that is not tracked, so a chain is
/// truncated where an ancestor was pruned.  Background ids are older than
/// the mutations they back, which bounds the walk.
pub open spec fn reaches(back: Map<u64, u64>, start: u64, target: u64) -> bool
    decreases start,
{
    if back.dom().contains(start) {
        start == target || (back[start] < start && reaches(back, back[start], target))
    } else {
        false
    }
}

/// Summed sizes of the first `k` lineages whose background chains reach
/// `target`
pub open spec fn descendant_weight(
    back: Map<u64, u64>,
    v: LineagesView,
    target: u64,
    k: int,
) -> nat
    decreases k,
{
    if k <= 0 {
        0nat
    } else {
        descendant_weight(back, v, target, k - 1) + if reaches(
            back,
            v.secondary[k - 1].id,
            target,
        ) {
            v.N[k - 1] as nat
        } else {
            0nat
        }
    }
}

/// Whether any of the first `k` lineages' background chains reach `target`
pub open spec fn lineage_reaches(back: Map<u64, u64>, v: LineagesView, k: int, target: u64) -> bool {
    exists|i: int| 0 <= i < k && reaches(back, v.secondary[i].id, target)
}

/// Taking one more lineage into account extends the reach by that lineage's
/// own chain
pub proof fn lemma_lineage_reaches_step(back: Map<u64, u64>, v: LineagesView, k: int, target: u64)
    requires
        k >= 0,
    ensures
        lineage_reaches(back, v, k + 1, target) == (lineage_reaches(back, v, k, target) || reaches(
            back,
            v.secondary[k].id,
            target,
        )),
{
    if lineage_reaches(back, v, k + 1, target) {
        let i = choose|i: int| 0 <= i < k + 1 && reaches(back, v.secondary[i].id, target);
        if i < k {
            assert(lineage_reaches(back, v, k, target));
        }
    }
    if lineage_reaches(back, v, k, target) {
        let i = choose|i: int| 0 <= i < k && reaches(back, v.secondary[i].id, target);
        assert(0 <= i < k + 1 && reaches(back, v.secondary[i].id, target));
    }
    if reaches(back, v.secondary[k].id, target) {
        assert(0 <= k < k + 1 && reaches(back, v.secondary[k].id, target));
    }
}

/// A mutation no lineage reaches gathers no weight
pub proof fn lemma_unreached_weight_zero(back: Map<u64, u64>, v: LineagesView, target: u64, k: int)
    requires
        !lineage_reaches(back, v, k, target),
    ensures
        descendant_weight(back, v, target, k) == 0,
    decreases k,
{
    if k > 0 {
        assert(!lineage_reaches(back, v, k - 1, target)) by {
            if lineage_reaches(back, v, k - 1, target) {
                let i = choose|i: int| 0 <= i < k - 1 && reaches(back, v.secondary[i].id, target);
                assert(0 <= i < k && reaches(back, v.secondary[i].id, target));
            }
        }
        assert(!reaches(back, v.secondary[k - 1].id, target)) by {
            if reaches(back, v.secondary[k - 1].id, target) {
                assert(0 <= k - 1 < k && reaches(back, v.secondary[k - 1].id, target));
            }
        }
        lemma_unreached_weight_zero(back, v, target, k - 1);
    }
}

/// Total population held by the first `k` lineages
pub open spec fn total_population(v: LineagesView, k: int) -> nat
    decreases k,
{
    if k <= 0 {
        0nat
    } else {
        total_population(v, k - 1) + v.N[k - 1] as nat
    }
}

/// No mutation outweighs the whole population
pub proof fn lemma_weight_le_total(back: Map<u64, u64>, v: LineagesView, target: u64, k: int)
    ensures
        descendant_weight(back, v, target, k) <= total_population(v, k),
    decreases k,
{
    if k > 0 {
        lemma_weight_le_total(back, v, target, k - 1);
    }
}

/// The total population of `k` lineages fits their counts
pub proof fn lemma_total_population_bound(v: LineagesView, k: int)
    requires
        k >= 0,
    ensures
        total_population(v, k) <= k * 0xffff_ffff_ffff_ffff,
    decreases k,
{
    if k > 0 {
        lemma_total_population_bound(v, k - 1);
    }
}

/// The record of mutation `m` after the first `k` lineages have deposited
/// their sizes: reached mutations carry a fresh history entry holding their
/// descendant weight, the rest only had their flag cleared
pub open spec fn partial_record(
    m: MutationView,
    back: Map<u64, u64>,
    v: LineagesView,
    k: int,
) -> MutationView {
    if lineage_reaches(back, v, k, m.id) {
        MutationView {
            N: m.N.push(descendant_weight(back, v, m.id, k) as u128),
            just_updated: true,
            ..m
        }
    } else {
        MutationView { just_updated: false, ..m }
    }
}

/// Whether a freshly sized record stays tracked: some lineage reached it and
/// it has not fixed (its weight is not the whole population)
pub open spec fn keeps(m: MutationView, total: nat) -> bool {
    m.just_updated && m.N.last() != total
}

/// The records among the first `q` that a round of size updates keeps, in
/// order
pub open spec fn kept_prefix(
    muts: Seq<MutationView>,
    back: Map<u64, u64>,
    v: LineagesView,
    total: nat,
    q: int,
) -> Seq<MutationView>
    decreases q,
{
    if q <= 0 {
        Seq::empty()
    } else {
        let prev = kept_prefix(muts, back, v, total, q - 1);
        let r = partial_record(muts[q - 1], back, v, v.len() as int);
        if keeps(r, total) {
            prev.push(r)
        } else {
            prev
        }
    }
}

/// The records among the first `q` that a round of size updates prunes, in
/// order
pub open spec fn pruned_prefix(
    muts: Seq<MutationView>,
    back: Map<u64, u64>,
    v: LineagesView,
    total: nat,
    q: int,
) -> Seq<MutationView>
    decreases q,
{
    if q <= 0 {
        Seq::empty()
    } else {
        let prev = pruned_prefix(muts, back, v, total, q - 1);
        let r = partial_record(muts[q - 1], back, v, v.len() as int);
        if keeps(r, total) {
            prev
        } else {
            prev.push(r)
        }
    }
}

/// What a round of size updates against population `v` leaves tracked
pub open spec fn kept_records(muts: Seq<MutationView>, v: LineagesView) -> Seq<MutationView> {
    kept_prefix(
        muts,
        tracked_backgrounds(muts),
        v,
        total_population(v, v.len() as int),
        muts.len() as int,
    )
}

/// What a round of size updates against population `v` prunes
pub open spec fn newly_pruned_records(muts: Seq<MutationView>, v: LineagesView) -> Seq<
    MutationView,
> {
    pruned_prefix(
        muts,
        tracked_backgrounds(muts),
        v,
        total_population(v, v.len() as int),
        muts.len() as int,
    )
}

/// Find the position of the tracked mutation with the given id
fn find_index(muts: &Vec<Mutation>, id: u64) -> (r: Option<usize>)
    ensures
        r matches Some(p) ==> p < muts@.len() && muts@[p as int].id == id,
        r is None ==> forall|q: int| 0 <= q < muts@.len() ==> (#[trigger] muts@[q]).id != id,
{
    let mut q: usize = 0;
    while q < muts.len()
        invariant
            q <= muts@.len(),
            forall|r: int| 0 <= r < q ==> (#[trigger] muts@[r]).id != id,
        decreases muts@.len() - q,
    {
        if muts[q].id == id {
            return Some(q);
        }
        q = q + 1;
    }
    None
}

/// A field-for-field copy of a tracked mutation
fn clone_mutation(m: &Mutation) -> (r: Mutation)
    ensures
        r@ == m@,
{
    let mut hist: Vec<u128> = Vec::new();
    let mut q: usize = 0;
    while q < m.N.len()
        invariant
            q <= m.N@.len(),
            hist@ == m.N@.take(q as int),
        decreases m.N@.len() - q,
    {
        hist.push(m.N[q]);
        proof {
            assert(hist@ =~= m.N@.take(q as int + 1));
        }
        q = q + 1;
    }
    proof {
        assert(hist@ =~= m.N@);
    }
    Mutation {
        id: m.id,
        background_id: m.background_id,
        delta_W: m.delta_W,
        delta_U: m.delta_U,
        first_transfer: m.first_transfer,
        N: hist,
        order: m.order,
        just_updated: m.just_updated,
    }
}

/// Update the population sizes of mutations being tracked in
/// `sequencing_data` based on the lineages in `population_data`
///
/// Mutations must already have been registered to be updated; this will not
/// create or register any new mutations.
///
/// Every lineage walks its chain of background ids: each tracked mutation on
/// the chain receives the lineage's size, in a new history entry the first
/// time a lineage reaches it this round, added to that entry afterwards.
/// A mutation that no lineage reached this round is extinct, and one whose
/// new entry equals the whole population has fixed: both are moved to the
/// pruned list, in registration order.
#[verifier::loop_isolation(false)]
#[verifier::rlimit(60)]
pub fn update_sizes(sequencing_data: &mut MutationsData, population_data: &LineagesData)
    requires
        old(sequencing_data)@.wf(),
        population_data@.wf(),
    ensures
        final(sequencing_data)@.muts == kept_records(
            old(sequencing_data)@.muts,
            population_data@,
        ),
        final(sequencing_data)@.pruned_muts == old(sequencing_data)@.pruned_muts
            + newly_pruned_records(old(sequencing_data)@.muts, population_data@),
        final(sequencing_data)@.on_transfer == old(sequencing_data)@.on_transfer,
        final(sequencing_data)@.wf(),
{
    let ghost muts0 = old(sequencing_data)@.muts;
    let ghost back = tracked_backgrounds(muts0);
    let ghost v = population_data@;
    let ghost pruned0 = old(sequencing_data)@.pruned_muts;
    proof {
        lemma_tracked_backgrounds(muts0);
        assert(forall|r: int|
            0 <= r < muts0.len() ==> (#[trigger] old(sequencing_data).muts@[r])@ == muts0[r]);
        assert(forall|j: int|
            0 <= j < pruned0.len() ==> (#[trigger] old(sequencing_data).pruned_muts@[j])@
                == pruned0[j]);
    }

    let mlen = sequencing_data.muts.len();

    // No mutations are "just updated" now; after the walk the reached ones
    // will be
    let mut q: usize = 0;
    while q < mlen
        invariant
            q <= mlen,
            sequencing_data.muts@.len() == muts0.len(),
            forall|r: int|
                0 <= r < q ==> (#[trigger] sequencing_data.muts@[r])@ == partial_record(
                    muts0[r],
                    back,
                    v,
                    0,
                ),
            forall|r: int|
                q <= r < mlen ==> (#[trigger] sequencing_data.muts@[r])@ == muts0[r],
            sequencing_data.pruned_muts@ == old(sequencing_data).pruned_muts@,
            sequencing_data.on_transfer == old(sequencing_data).on_transfer,
        decreases mlen - q,
    {
        sequencing_data.muts[q].just_updated = false;
        q = q + 1;
    }

    let sizes = population_data.sizes();
    let secondary = population_data.secondary();
    let llen = population_data.len();

    // Each lineage deposits its size along its background chain
    let mut i: usize = 0;
    while i < llen
        invariant
            i <= llen,
            sequencing_data.muts@.len() == muts0.len(),
            forall|r: int|
                0 <= r < mlen ==> (#[trigger] sequencing_data.muts@[r])@ == partial_record(
                    muts0[r],
                    back,
                    v,
                    i as int,
                ),
            sequencing_data.pruned_muts@ == old(sequencing_data).pruned_muts@,
            sequencing_data.on_transfer == old(sequencing_data).on_transfer,
        decreases llen - i,
    {
        let start = secondary[i].id;
        let n_i = sizes[i];
        let mut cur: u64 = start;
        let ghost mut visited: Set<u64> = Set::empty();
        let mut found = find_index(&sequencing_data.muts, cur);
        while found.is_some()
            invariant
                sequencing_data.muts@.len() == muts0.len(),
                forall|t: u64| #[trigger] visited.contains(t) ==> cur < t,
                forall|r: int|
                    0 <= r < mlen ==> reaches(back, start, (#[trigger] muts0[r]).id) == (
                    visited.contains(muts0[r].id) || reaches(back, cur, muts0[r].id)),
                forall|r: int|
                    0 <= r < mlen ==> (#[trigger] sequencing_data.muts@[r])@ == (
                    if visited.contains(muts0[r].id) {
                        partial_record(muts0[r], back, v, i + 1)
                    } else {
                        partial_record(muts0[r], back, v, i as int)
                    }),
                found matches Some(p) ==> p < mlen && sequencing_data.muts@[p as int].id == cur,
                found is None ==> forall|r: int|
                    0 <= r < mlen ==> (#[trigger] sequencing_data.muts@[r]).id != cur,
                sequencing_data.pruned_muts@ == old(sequencing_data).pruned_muts@,
                sequencing_data.on_transfer == old(sequencing_data).on_transfer,
            decreases cur,
        {
            let pos = found.unwrap();
            proof {
                assert(sequencing_data.muts@[pos as int]@.id == muts0[pos as int].id);
                assert(muts0[pos as int].id == cur);
                assert(!visited.contains(cur));
                assert(back.dom().contains(muts0[pos as int].id));
                assert(back.dom().contains(cur));
                assert(reaches(back, cur, cur));
                assert(reaches(back, cur, muts0[pos as int].id));
                assert(reaches(back, start, cur));
                assert(back[muts0[pos as int].id] == muts0[pos as int].background_id);
                assert(back[cur] == muts0[pos as int].background_id);
                assert(lineage_reaches(back, v, i + 1, cur)) by {
                    assert(reaches(back, v.secondary[i as int].id, cur));
                    assert(0 <= i < i + 1);
                }
                lemma_weight_le_total(back, v, cur, i as int);
                lemma_total_population_bound(v, i as int);
                assert((i as int) * 0xffff_ffff_ffff_ffff
                    < 0x1_0000_0000_0000_0000_0000_0000_0000_0000 - 0xffff_ffff_ffff_ffff)
                    by (nonlinear_arith)
                    requires
                        0 <= i < 0x1_0000_0000_0000_0000,
                ;
            }
            let ghost pre = sequencing_data.muts@[pos as int]@;
            let n_hist = sequencing_data.muts[pos].N.len();
            if sequencing_data.muts[pos].just_updated {
                proof {
                    assert(pre == partial_record(muts0[pos as int], back, v, i as int));
                    assert(lineage_reaches(back, v, i as int, cur));
                    assert(pre.N == muts0[pos as int].N.push(
                        descendant_weight(back, v, cur, i as int) as u128,
                    ));
                    assert(n_hist >= 1);
                }
                let val = sequencing_data.muts[pos].N[n_hist - 1];
                sequencing_data.muts[pos].N[n_hist - 1] = val + (n_i as u128);
                proof {
                    assert(sequencing_data.muts@[pos as int]@.N =~= muts0[pos as int].N.push(
                        descendant_weight(back, v, cur, i + 1) as u128,
                    ));
                    assert(sequencing_data.muts@[pos as int]@ == partial_record(
                        muts0[pos as int],
                        back,
                        v,
                        i + 1,
                    ));
                }
            } else {
                proof {
                    assert(pre == partial_record(muts0[pos as int], back, v, i as int));
                    assert(!lineage_reaches(back, v, i as int, cur));
                    lemma_unreached_weight_zero(back, v, cur, i as int);
                }
                sequencing_data.muts[pos].N.push(n_i as u128);
                sequencing_data.muts[pos].just_updated = true;
                proof {
                    assert(sequencing_data.muts@[pos as int]@.N =~= muts0[pos as int].N.push(
                        descendant_weight(back, v, cur, i + 1) as u128,
                    ));
                    assert(sequencing_data.muts@[pos as int]@ == partial_record(
                        muts0[pos as int],
                        back,
                        v,
                        i + 1,
                    ));
                }
            }
            let next = sequencing_data.muts[pos].background_id;
            proof {
                assert(next == back[cur]);
                assert(next < cur);
                visited = visited.insert(cur);
                assert forall|r2: int| 0 <= r2 < mlen implies reaches(
                    back,
                    start,
                    (#[trigger] muts0[r2]).id,
                ) == (visited.contains(muts0[r2].id) || reaches(back, next, muts0[r2].id)) by {
                    let t = muts0[r2].id;
                    assert(reaches(back, cur, t) == (cur == t || reaches(back, next, t)));
                }
            }
            cur = next;
            found = find_index(&sequencing_data.muts, cur);
        }
        proof {
            assert(!back.dom().contains(cur)) by {
                if back.dom().contains(cur) {
                    let w = choose|w: int| 0 <= w < muts0.len() && (#[trigger] muts0[w]).id == cur;
                    assert(sequencing_data.muts@[w]@.id == muts0[w].id);
                    assert(sequencing_data.muts@[w].id == sequencing_data.muts@[w]@.id);
                }
            }
            assert forall|r2: int| 0 <= r2 < mlen implies (#[trigger] sequencing_data.muts@[r2])@
                == partial_record(muts0[r2], back, v, i + 1) by {
                let t = muts0[r2].id;
                lemma_lineage_reaches_step(back, v, i as int, t);
                if !visited.contains(t) {
                    assert(!reaches(back, cur, t));
                    assert(!reaches(back, start, t));
                    assert(lineage_reaches(back, v, i + 1, t) == lineage_reaches(
                        back,
                        v,
                        i as int,
                        t,
                    ));
                    assert(descendant_weight(back, v, t, i + 1) == descendant_weight(
                        back,
                        v,
                        t,
                        i as int,
                    ));
                }
            }
        }
        i = i + 1;
    }

    // Any mutation which has fixed or gone extinct after having its
    // population size tracked can be pruned
    let mut total: u128 = 0;
    let mut ti: usize = 0;
    while ti < llen
        invariant
            ti <= llen,
            total == total_population(v, ti as int),
        decreases llen - ti,
    {
        proof {
            lemma_total_population_bound(v, ti as int);
            assert((ti as int) * 0xffff_ffff_ffff_ffff
                < 0x1_0000_0000_0000_0000_0000_0000_0000_0000 - 0xffff_ffff_ffff_ffff)
                by (nonlinear_arith)
                requires
                    0 <= ti < 0x1_0000_0000_0000_0000,
            ;
        }
        total = total + (sizes[ti] as u128);
        ti = ti + 1;
    }
    let ghost tot = total_population(v, v.len() as int);
    proof {
        lemma_total_population_bound(v, v.len() as int);
        assert((v.len() as int) * 0xffff_ffff_ffff_ffff
            < 0x1_0000_0000_0000_0000_0000_0000_0000_0000) by (nonlinear_arith)
            requires
                0 <= v.len() < 0x1_0000_0000_0000_0000,
        ;
    }

    let mut kept: Vec<Mutation> = Vec::new();
    proof {
        assert(mut_views(kept@) =~= kept_prefix(muts0, back, v, tot, 0));
        assert(mut_views(sequencing_data.pruned_muts@) =~= pruned0 + pruned_prefix(
            muts0,
            back,
            v,
            tot,
            0,
        ));
    }
    let mut q2: usize = 0;
    while q2 < mlen
        invariant
            q2 <= mlen,
            sequencing_data.muts@.len() == muts0.len(),
            forall|r: int|
                0 <= r < mlen ==> (#[trigger] sequencing_data.muts@[r])@ == partial_record(
                    muts0[r],
                    back,
                    v,
                    v.len() as int,
                ),
            mut_views(kept@) == kept_prefix(muts0, back, v, tot, q2 as int),
            mut_views(sequencing_data.pruned_muts@) == pruned0 + pruned_prefix(
                muts0,
                back,
                v,
                tot,
                q2 as int,
            ),
            sequencing_data.on_transfer == old(sequencing_data).on_transfer,
        decreases mlen - q2,
    {
        let ghost rec = partial_record(muts0[q2 as int], back, v, v.len() as int);
        let keep_it = if sequencing_data.muts[q2].just_updated {
            let hl = sequencing_data.muts[q2].N.len();
            proof {
                assert(rec.just_updated);
                assert(rec.N.len() > 0);
            }
            sequencing_data.muts[q2].N[hl - 1] != total
        } else {
            false
        };
        proof {
            assert(keep_it == keeps(rec, tot));
        }
        let m = clone_mutation(&sequencing_data.muts[q2]);
        if keep_it {
            kept.push(m);
            proof {
                assert(mut_views(kept@) =~= kept_prefix(muts0, back, v, tot, q2 + 1));
            }
        } else {
            let ghost pbefore = sequencing_data.pruned_muts@;
            sequencing_data.pruned_muts.push(m);
            proof {
                assert(m@ == rec);
                assert(pruned_prefix(muts0, back, v, tot, q2 + 1) =~= pruned_prefix(
                    muts0,
                    back,
                    v,
                    tot,
                    q2 as int,
                ).push(rec));
                assert(mut_views(pbefore.push(m)) =~= mut_views(pbefore).push(rec));
                assert(pruned0 + pruned_prefix(muts0, back, v, tot, q2 as int).push(rec) =~= (
                pruned0 + pruned_prefix(muts0, back, v, tot, q2 as int)).push(rec));
                assert(mut_views(sequencing_data.pruned_muts@) =~= pruned0 + pruned_prefix(
                    muts0,
                    back,
                    v,
                    tot,
                    q2 + 1,
                ));
            }
        }
        q2 = q2 + 1;
    }
    sequencing_data.muts = kept;
    proof {
        let kp = kept_prefix(muts0, back, v, tot, muts0.len() as int);
        let pp = pruned_prefix(muts0, back, v, tot, muts0.len() as int);
        lemma_partition_props(muts0, back, v, tot, muts0.len() as int);
        assert(sequencing_data@.muts =~= kp);
        assert(sequencing_data@.pruned_muts =~= pruned0 + pp);
        assert(kept_records(muts0, v) == kp);
        assert(newly_pruned_records(muts0, v) == pp);

        // Well-formedness of the result: ids of the kept records still
        // strictly increase and never collide with a pruned id, old or new
        let fin = sequencing_data@;
        assert forall|j1: int, j2: int|
            0 <= j1 < fin.muts.len() && 0 <= j2 < fin.pruned_muts.len() implies fin.muts[j1].id
            != fin.pruned_muts[j2].id by {
            let wk = choose|w: int|
                0 <= w < muts0.len() && (#[trigger] muts0[w]).id == kp[j1].id && kp[j1]
                    == partial_record(muts0[w], back, v, v.len() as int) && keeps(kp[j1], tot);
            if j2 < pruned0.len() {
                assert(old(sequencing_data)@.muts[wk].id != old(
                    sequencing_data,
                )@.pruned_muts[j2].id);
            } else {
                let jp = j2 - pruned0.len();
                assert(fin.pruned_muts[j2] == pp[jp]);
                assert(kp[j1].id != pp[jp].id);
            }
        }
        assert forall|j1: int, j2: int|
            0 <= j1 < j2 < fin.pruned_muts.len() implies fin.pruned_muts[j1].id
            != fin.pruned_muts[j2].id by {
            if j1 < pruned0.len() && j2 >= pruned0.len() {
                let jp = j2 - pruned0.len();
                assert(fin.pruned_muts[j2] == pp[jp]);
                let wp = choose|w: int|
                    0 <= w < muts0.len() && (#[trigger] muts0[w]).id == pp[jp].id && pp[jp]
                        == partial_record(muts0[w], back, v, v.len() as int) && !keeps(
                        pp[jp],
                        tot,
                    );
                assert(old(sequencing_data)@.muts[wp].id != old(
                    sequencing_data,
                )@.pruned_muts[j1].id);
            }
        }
    }
}

/// Structural facts about one round's kept and pruned records, by prefix
///
/// The two prefixes keep the tracked order (so their ids strictly increase),
/// keep background ids older than their mutations, share no id, cover every
/// record, and each of their records is the sized form of a tracked record.
pub proof fn lemma_partition_props(
    muts: Seq<MutationView>,
    back: Map<u64, u64>,
    v: LineagesView,
    total: nat,
    q: int,
)
    requires
        0 <= q <= muts.len(),
        forall|i: int, j: int| 0 <= i < j < muts.len() ==> muts[i].id < muts[j].id,
        forall|i: int|
            0 <= i < muts.len() ==> (#[trigger] muts[i]).background_id < muts[i].id,
    ensures
        kept_prefix(muts, back, v, total, q).len() + pruned_prefix(muts, back, v, total, q).len()
            == q,
        forall|j1: int, j2: int|
            0 <= j1 < j2 < kept_prefix(muts, back, v, total, q).len() ==> kept_prefix(
                muts,
                back,
                v,
                total,
                q,
            )[j1].id < kept_prefix(muts, back, v, total, q)[j2].id,
        forall|j1: int, j2: int|
            0 <= j1 < j2 < pruned_prefix(muts, back, v, total, q).len() ==> pruned_prefix(
                muts,
                back,
                v,
                total,
                q,
            )[j1].id < pruned_prefix(muts, back, v, total, q)[j2].id,
        forall|j: int|
            0 <= j < kept_prefix(muts, back, v, total, q).len() ==> (#[trigger] kept_prefix(
                muts,
                back,
                v,
                total,
                q,
            )[j]).background_id < kept_prefix(muts, back, v, total, q)[j].id,
        forall|j: int|
            0 <= j < pruned_prefix(muts, back, v, total, q).len() ==> (#[trigger] pruned_prefix(
                muts,
                back,
                v,
                total,
                q,
            )[j]).background_id < pruned_prefix(muts, back, v, total, q)[j].id,
        forall|j1: int, j2: int|
            0 <= j1 < kept_prefix(muts, back, v, total, q).len() && 0 <= j2 < pruned_prefix(
                muts,
                back,
                v,
                total,
                q,
            ).len() ==> kept_prefix(muts, back, v, total, q)[j1].id != pruned_prefix(
                muts,
                back,
                v,
                total,
                q,
            )[j2].id,
        forall|j: int|
            0 <= j < kept_prefix(muts, back, v, total, q).len() ==> exists|w: int|
                0 <= w < q && (#[trigger] muts[w]).id == (#[trigger] kept_prefix(
                    muts,
                    back,
                    v,
                    total,
                    q,
                )[j]).id && kept_prefix(muts, back, v, total, q)[j] == partial_record(
                    muts[w],
                    back,
                    v,
                    v.len() as int,
                ) && keeps(kept_prefix(muts, back, v, total, q)[j], total),
        forall|j: int|
            0 <= j < pruned_prefix(muts, back, v, total, q).len() ==> exists|w: int|
                0 <= w < q && (#[trigger] muts[w]).id == (#[trigger] pruned_prefix(
                    muts,
                    back,
                    v,
                    total,
                    q,
                )[j]).id && pruned_prefix(muts, back, v, total, q)[j] == partial_record(
                    muts[w],
                    back,
                    v,
                    v.len() as int,
                ) && !keeps(pruned_prefix(muts, back, v, total, q)[j], total),
        forall|j: int, w: int|
            0 <= j < kept_prefix(muts, back, v, total, q).len() && q <= w < muts.len()
                ==> (#[trigger] kept_prefix(muts, back, v, total, q)[j]).id < (
            #[trigger] muts[w]).id,
        forall|j: int, w: int|
            0 <= j < pruned_prefix(muts, back, v, total, q).len() && q <= w < muts.len()
                ==> (#[trigger] pruned_prefix(muts, back, v, total, q)[j]).id < (
            #[trigger] muts[w]).id,
        forall|w: int|
            0 <= w < q ==> (exists|j: int|
                0 <= j < kept_prefix(muts, back, v, total, q).len() && (#[trigger] kept_prefix(
                    muts,
                    back,
                    v,
                    total,
                    q,
                )[j]).id == (#[trigger] muts[w]).id) || (exists|j: int|
                0 <= j < pruned_prefix(muts, back, v, total, q).len() && (#[trigger] pruned_prefix(
                    muts,
                    back,
                    v,
                    total,
                    q,
                )[j]).id == muts[w].id),
    decreases q,
{
    if q > 0 {
        lemma_partition_props(muts, back, v, total, q - 1);
        let r = partial_record(muts[q - 1], back, v, v.len() as int);
        let kp_prev = kept_prefix(muts, back, v, total, q - 1);
        let pp_prev = pruned_prefix(muts, back, v, total, q - 1);
        let kp = kept_prefix(muts, back, v, total, q);
        let pp = pruned_prefix(muts, back, v, total, q);
        assert forall|w: int| 0 <= w < q implies (exists|j: int|
            0 <= j < kp.len() && (#[trigger] kp[j]).id == (#[trigger] muts[w]).id) || (exists|
            j: int,
        |
            0 <= j < pp.len() && (#[trigger] pp[j]).id == muts[w].id) by {
            if w == q - 1 {
                if keeps(r, total) {
                    assert(kp[kp.len() - 1].id == muts[w].id);
                } else {
                    assert(pp[pp.len() - 1].id == muts[w].id);
                }
            } else {
                if exists|j: int|
                    0 <= j < kp_prev.len() && (#[trigger] kp_prev[j]).id == muts[w].id {
                    let j = choose|j: int|
                        0 <= j < kp_prev.len() && (#[trigger] kp_prev[j]).id == muts[w].id;
                    assert(kp[j].id == muts[w].id);
                } else {
                    let j = choose|j: int|
                        0 <= j < pp_prev.len() && (#[trigger] pp_prev[j]).id == muts[w].id;
                    assert(pp[j].id == muts[w].id);
                }
            }
        }
    }
}


/// Mutation provenance: every mutation still tracked after a round of size
/// updates carries, as the last entry of its size history, the summed sizes
/// of the extant lineages whose background chains — truncated at untracked
/// ids — contain it
pub proof fn lemma_mutation_provenance(muts: Seq<MutationView>, v: LineagesView)
    requires
        forall|i: int, j: int| 0 <= i < j < muts.len() ==> muts[i].id < muts[j].id,
        forall|i: int| 0 <= i < muts.len() ==> (#[trigger] muts[i]).background_id < muts[i].id,
    ensures
        forall|j: int|
            0 <= j < kept_records(muts, v).len() ==> (#[trigger] kept_records(muts, v)[j]).N.len()
                > 0 && kept_records(muts, v)[j].N.last() == descendant_weight(
                tracked_backgrounds(muts),
                v,
                kept_records(muts, v)[j].id,
                v.len() as int,
            ) as u128,
{
    let back = tracked_backgrounds(muts);
    let tot = total_population(v, v.len() as int);
    lemma_partition_props(muts, back, v, tot, muts.len() as int);
    let kp = kept_records(muts, v);
    assert forall|j: int| 0 <= j < kp.len() implies (#[trigger] kp[j]).N.len() > 0 && kp[j].N.last()
        == descendant_weight(back, v, kp[j].id, v.len() as int) as u128 by {
        let w = choose|w: int|
            0 <= w < muts.len() && (#[trigger] muts[w]).id == kp[j].id && kp[j] == partial_record(
                muts[w],
                back,
                v,
                v.len() as int,
            ) && keeps(kp[j], tot);
        assert(lineage_reaches(back, v, v.len() as int, muts[w].id));
    }
}

/// Pruning: a round of size updates sends every tracked mutation either to
/// the kept set or to the newly pruned set, and no id lands in both
pub proof fn lemma_pruning_partition(muts: Seq<MutationView>, v: LineagesView)
    requires
        forall|i: int, j: int| 0 <= i < j < muts.len() ==> muts[i].id < muts[j].id,
        forall|i: int| 0 <= i < muts.len() ==> (#[trigger] muts[i]).background_id < muts[i].id,
    ensures
        kept_records(muts, v).len() + newly_pruned_records(muts, v).len() == muts.len(),
        forall|j1: int, j2: int|
            0 <= j1 < kept_records(muts, v).len() && 0 <= j2 < newly_pruned_records(
                muts,
                v,
            ).len() ==> (#[trigger] kept_records(muts, v)[j1]).id != (
            #[trigger] newly_pruned_records(muts, v)[j2]).id,
        forall|w: int|
            0 <= w < muts.len() ==> (exists|j: int|
                0 <= j < kept_records(muts, v).len() && (#[trigger] kept_records(muts, v)[j]).id
                    == (#[trigger] muts[w]).id) || (exists|j: int|
                0 <= j < newly_pruned_records(muts, v).len() && (#[trigger] newly_pruned_records(
                    muts,
                    v,
                )[j]).id == muts[w].id),
{
    let back = tracked_backgrounds(muts);
    let tot = total_population(v, v.len() as int);
    lemma_partition_props(muts, back, v, tot, muts.len() as int);
    let kp = kept_prefix(muts, back, v, tot, muts.len() as int);
    let pp = pruned_prefix(muts, back, v, tot, muts.len() as int);
    assert forall|w: int| 0 <= w < muts.len() implies (exists|j: int|
        0 <= j < kept_records(muts, v).len() && (#[trigger] kept_records(muts, v)[j]).id == (
        #[trigger] muts[w]).id) || (exists|j: int|
        0 <= j < newly_pruned_records(muts, v).len() && (#[trigger] newly_pruned_records(
            muts,
            v,
        )[j]).id == muts[w].id) by {
        if exists|j: int| 0 <= j < kp.len() && (#[trigger] kp[j]).id == muts[w].id {
            let j = choose|j: int| 0 <= j < kp.len() && (#[trigger] kp[j]).id == muts[w].id;
            assert(kept_records(muts, v)[j].id == muts[w].id);
        } else {
            let j = choose|j: int| 0 <= j < pp.len() && (#[trigger] pp[j]).id == muts[w].id;
            assert(newly_pruned_records(muts, v)[j].id == muts[w].id);
        }
    }
}

} // verus!
