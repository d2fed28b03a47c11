//! Types used for storing simulation data
//!
//! Population sizes (`N` columns) are whole individuals.  Fitness (`W`),
//! mutation rate (`U`), mean-mutation-size reciprocal (`lambda`) and the
//! per-mutation fitness change (`delta_W`) are opaque 64-bit words: the store
//! and the tracker move them around but never interpret them, so the caller
//! fixes their encoding once and reads them back unchanged.

use vstd::prelude::*;

use crate::cfg::SimConfig;

verus! {

/// Secondary data for lineages
///
/// Used for data that is not accessed in vectorized computational kernels, and
/// therefore can be efficiently stored in individual structs
#[derive(Copy, Clone, Debug, PartialEq, Eq, Structural)]
pub struct SecondaryLineageData {
    /// Reciprocal of the mean of the beneficial mutation size, an opaque word
    pub lambda: u64,
    /// Unique lineage identifier
    ///
    /// Also uniquely identifies the mutation between the parent and this lineage
    pub id: u64,
    /// Lineage identifier for the parent
    pub parent_id: u64,
    /// Lineage identifier for the initial neutral marker mutation
    pub marker: u16,
    /// Number of accumulated mutations relative to the ancestor mutation (each marker starts at 1)
    pub accumulated_muts: u32,
}

/// Complete data for a single lineage
#[derive(Copy, Clone, Debug, PartialEq, Eq, Structural)]
pub struct Lineage {
    /// Population size, in whole individuals
    pub N: u64,
    /// Fitness, an opaque word
    pub W: u64,
    /// Mutation rate, an opaque word
    pub U: u64,
    /// Additional data
    pub secondary: SecondaryLineageData,
}

/// Types of mutations which can occur
#[derive(Copy, Clone, Debug, PartialEq, Eq, Structural)]
pub enum MutationType {
    /// A mutation increasing fitness
    Beneficial,
    /// A mutation with no effect
    Neutral,
    /// A mutation decreasing fitness
    Deleterious,
}

/// Mathematical value of a [`Mutation`]
#[verifier::ext_equal]
pub ghost struct MutationView {
    /// Identifier of the mutation
    pub id: u64,
    /// Identifier of the background the mutation arose on
    pub background_id: u64,
    /// Fitness change payload
    pub delta_W: u64,
    /// Mutation-rate change payload
    pub delta_U: u64,
    /// Transfer the mutation first appeared at
    pub first_transfer: u32,
    /// Population-size history, one entry per transfer tracked
    pub N: Seq<u128>,
    /// Number of elementary mutations fused in this record
    pub order: u32,
    /// Whether the last round of size updates reached this mutation
    pub just_updated: bool,
}

/// Data for one `Mutation` being tracked
#[derive(Debug)]
pub struct Mutation {
    /// ID of the `Mutation`
    ///
    /// Corresponds to the ID of the first `Lineage` instance with this mutation
    pub id: u64,
    /// ID of the background of the `Mutation`
    ///
    /// Corresponds to the ID of the *parent* of the first `Lineage` instance with this mutation
    pub background_id: u64,
    /// Change in fitness as a result of this mutation, an opaque word
    pub delta_W: u64,
    /// Change in mutation rate as a result of this mutation, an opaque word
    pub delta_U: u64,
    /// The first transfer at which this mutation appeared
    ///
    /// This is also the transfer corresponding to the first entry in the vector of population sizes
    pub first_transfer: u32,
    /// Vector of population sizes for each transfer tracked starting from `self.first_transfer`
    pub N: Vec<u128>,
    /// Number of mutations this record represents
    pub order: u32,
    /// Was the mutation just updated in the last round of updating sizes?
    pub just_updated: bool,
}

impl View for Mutation {
    type V = MutationView;

    open spec fn view(&self) -> MutationView {
        MutationView {
            id: self.id,
            background_id: self.background_id,
            delta_W: self.delta_W,
            delta_U: self.delta_U,
            first_transfer: self.first_transfer,
            N: self.N@,
            order: self.order,
            just_updated: self.just_updated,
        }
    }
}

/// The values of a sequence of tracked mutations
pub open spec fn mut_views(s: Seq<Mutation>) -> Seq<MutationView> {
    s.map_values(|m: Mutation| m@)
}

/// `mut_views` keeps the length
pub broadcast proof fn lemma_mut_views_len(s: Seq<Mutation>)
    ensures
        #[trigger] mut_views(s).len() == s.len(),
{
}

/// `mut_views` maps each record to its value
pub broadcast proof fn lemma_mut_views_index(s: Seq<Mutation>, i: int)
    requires
        0 <= i < s.len(),
    ensures
        #[trigger] mut_views(s)[i] == s[i]@,
{
}

/// Mathematical value of a [`MutationsData`]
#[verifier::ext_equal]
pub ghost struct MutationsView {
    /// Actively tracked mutations, in order of registration
    pub muts: Seq<MutationView>,
    /// Mutations pruned since the list was last cleared
    pub pruned_muts: Seq<MutationView>,
    /// Transfer the simulations are currently on
    pub on_transfer: u32,
}

impl MutationsView {
    /// Well-formedness: ids of active mutations strictly increase in
    /// registration order, every background identifier is older than the
    /// mutation it backs, pruned records keep distinct ids, and no id is both
    /// active and pruned
    pub open spec fn wf(self) -> bool {
        &&& forall|i: int, j: int|
            0 <= i < j < self.muts.len() ==> self.muts[i].id < self.muts[j].id
        &&& forall|i: int|
            0 <= i < self.muts.len() ==> (#[trigger] self.muts[i]).background_id < self.muts[i].id
        &&& forall|i: int|
            0 <= i < self.pruned_muts.len()
                ==> (#[trigger] self.pruned_muts[i]).background_id < self.pruned_muts[i].id
        &&& forall|i: int, j: int|
            0 <= i < j < self.pruned_muts.len() ==> self.pruned_muts[i].id != self.pruned_muts[j].id
        &&& forall|i: int, j: int|
            0 <= i < self.muts.len() && 0 <= j < self.pruned_muts.len()
                ==> self.muts[i].id != self.pruned_muts[j].id
    }

    /// Every id that the tracker has seen, active or pruned, is at most `c`
    pub open spec fn ids_at_most(self, c: int) -> bool {
        &&& forall|i: int| 0 <= i < self.muts.len() ==> (#[trigger] self.muts[i]).id <= c
        &&& forall|i: int|
            0 <= i < self.pruned_muts.len() ==> (#[trigger] self.pruned_muts[i]).id <= c
    }
}

/// Data on a set of `Mutation`s being tracked
///
/// To use when sequencing, you must call the `register` method every time a
/// new mutation you want to track arises, so that mutation's information will
/// be stored
///
/// You must also call `set_transfer` after each transfer to have meaningful
/// data about the transfer times each mutation occurred at
#[derive(Debug)]
pub struct MutationsData {
    /// Mutations which are being actively tracked, in order of registration
    /// (their ids strictly increase)
    pub(crate) muts: Vec<Mutation>,
    /// Mutations which have been pruned, in pruning order
    pub(crate) pruned_muts: Vec<Mutation>,
    /// Transfer the simulations are currently on
    pub(crate) on_transfer: u32,
}

impl View for MutationsData {
    type V = MutationsView;

    closed spec fn view(&self) -> MutationsView {
        MutationsView {
            muts: mut_views(self.muts@),
            pruned_muts: mut_views(self.pruned_muts@),
            on_transfer: self.on_transfer,
        }
    }
}

impl MutationsData {
    /// How the tracker's value is composed from its parts, for the modules
    /// of this crate that operate on them directly
    pub(crate) broadcast proof fn lemma_view(d: &MutationsData)
        ensures
            (#[trigger] d@).muts == mut_views(d.muts@),
            d@.pruned_muts == mut_views(d.pruned_muts@),
            d@.on_transfer == d.on_transfer,
    {
    }

    /// Create a new empty `MutationsData` instance
    pub fn new() -> (r: Self)
        ensures
            r@.muts == Seq::<MutationView>::empty(),
            r@.pruned_muts == Seq::<MutationView>::empty(),
            r@.on_transfer == 0u32,
            r@.wf(),
    {
        let r = MutationsData { muts: Vec::new(), pruned_muts: Vec::new(), on_transfer: 0 };
        proof {
            assert(r@.muts =~= Seq::<MutationView>::empty());
            assert(r@.pruned_muts =~= Seq::<MutationView>::empty());
        }
        r
    }

    /// Borrow the actively tracked mutations, in registration order
    pub fn muts(&self) -> (r: &Vec<Mutation>)
        ensures
            mut_views(r@) == self@.muts,
    {
        &self.muts
    }

    /// Borrow the mutations pruned since the list was last cleared
    pub fn pruned_muts(&self) -> (r: &Vec<Mutation>)
        ensures
            mut_views(r@) == self@.pruned_muts,
    {
        &self.pruned_muts
    }

    /// The transfer the tracker is currently on
    pub fn on_transfer(&self) -> (r: u32)
        ensures
            r == self@.on_transfer,
    {
        self.on_transfer
    }

    /// Drop the record of recently pruned mutations
    ///
    /// The driver does this at the start of each step, so that after the step
    /// the list holds exactly the mutations pruned by that step
    pub fn clear_pruned(&mut self)
        ensures
            final(self)@.muts == old(self)@.muts,
            final(self)@.pruned_muts == Seq::<MutationView>::empty(),
            final(self)@.on_transfer == old(self)@.on_transfer,
            old(self)@.wf() ==> final(self)@.wf(),
    {
        self.pruned_muts.clear();
        proof {
            assert(self@.pruned_muts =~= Seq::<MutationView>::empty());
        }
    }

    /// Increment the transfer the mutation data is being called for
    ///
    /// Must be called every time transfer changes to get correct results
    pub fn set_transfer(&mut self, transfer: u32)
        ensures
            final(self)@.muts == old(self)@.muts,
            final(self)@.pruned_muts == old(self)@.pruned_muts,
            final(self)@.on_transfer == transfer,
            old(self)@.wf() ==> final(self)@.wf(),
    {
        self.on_transfer = transfer;
    }

    /// The record that registering `child` against `parent` inserts
    pub open spec fn registered(
        child: Lineage,
        parent: Lineage,
        mutation_order: u32,
        delta_W: u64,
        on_transfer: u32,
    ) -> MutationView {
        MutationView {
            id: child.secondary.id,
            background_id: parent.secondary.id,
            delta_W: delta_W,
            delta_U: 0u64,
            first_transfer: on_transfer,
            N: Seq::empty(),
            order: mutation_order,
            just_updated: false,
        }
    }

    /// Register a new `child` `Lineage` of `parent`
    ///
    /// The caller supplies `delta_W`, the payload recording how the child's
    /// fitness differs from the parent's, since the tracker does not
    /// interpret fitness words
    pub fn register(&mut self, child: Lineage, parent: Lineage, mutation_order: u32, delta_W: u64)
        requires
            old(self)@.wf(),
            old(self)@.ids_at_most(child.secondary.id - 1),
            parent.secondary.id < child.secondary.id,
        ensures
            final(self)@.muts == old(self)@.muts.push(
                (MutationsData::registered(
                    child,
                    parent,
                    mutation_order,
                    delta_W,
                    old(self)@.on_transfer,
                )),
            ),
            final(self)@.pruned_muts == old(self)@.pruned_muts,
            final(self)@.on_transfer == old(self)@.on_transfer,
            final(self)@.wf(),
            final(self)@.ids_at_most(child.secondary.id as int),
    {
        let mutation = Mutation {
            id: child.secondary.id,
            background_id: parent.secondary.id,
            delta_W: delta_W,
            delta_U: 0,
            first_transfer: self.on_transfer,
            N: Vec::new(),
            order: mutation_order,
            just_updated: false,
        };
        proof {
            assert(mutation@.N =~= Seq::<u128>::empty());
        }
        self.muts.push(mutation);
        proof {
            let rec = MutationsData::registered(
                child,
                parent,
                mutation_order,
                delta_W,
                old(self)@.on_transfer,
            );
            assert(self@.muts =~= old(self)@.muts.push(rec));
            assert(forall|i: int|
                0 <= i < old(self)@.muts.len() ==> self@.muts[i] == old(self)@.muts[i]);
            assert(self@.muts[self@.muts.len() - 1] == rec);
            assert(self@.pruned_muts == old(self)@.pruned_muts);
            assert(self@.muts.len() == old(self)@.muts.len() + 1);
            assert(forall|i: int, j: int|
                0 <= i < j < self@.muts.len() ==> self@.muts[i].id < self@.muts[j].id);
            assert(forall|i: int|
                0 <= i < self@.muts.len() ==> (#[trigger] self@.muts[i]).background_id
                    < self@.muts[i].id);
            assert(forall|i: int|
                0 <= i < self@.muts.len() ==> (#[trigger] self@.muts[i]).id
                    <= child.secondary.id as int);
        }
    }
}

impl Default for MutationsData {
    /// An empty tracker, as `MutationsData::new` builds it
    fn default() -> (r: Self)
        ensures
            r@.muts == Seq::<MutationView>::empty(),
            r@.pruned_muts == Seq::<MutationView>::empty(),
            r@.on_transfer == 0u32,
            r@.wf(),
    {
        MutationsData::new()
    }
}

/// Mathematical value of a [`LineagesData`]
#[verifier::ext_equal]
pub ghost struct LineagesView {
    /// Population sizes of lineages, in whole individuals
    pub N: Seq<u64>,
    /// Fitness words of lineages
    pub W: Seq<u64>,
    /// Mutation-rate words of lineages
    pub U: Seq<u64>,
    /// Additional data
    pub secondary: Seq<SecondaryLineageData>,
    /// The last lineage id that was assigned
    pub id_counter: u64,
}

impl LineagesView {
    /// Number of lineages held
    pub open spec fn len(self) -> nat {
        self.N.len()
    }

    /// All four columns gathered for one lineage
    pub open spec fn lineage(self, i: int) -> Lineage {
        Lineage { N: self.N[i], W: self.W[i], U: self.U[i], secondary: self.secondary[i] }
    }

    /// Well-formedness: the four columns share one length, ids are at most
    /// the id counter and strictly increase along the columns, every parent
    /// id is older than its lineage's id, and every lineage counts at least
    /// its founding marker mutation
    pub open spec fn wf(self) -> bool {
        &&& self.W.len() == self.N.len()
        &&& self.U.len() == self.N.len()
        &&& self.secondary.len() == self.N.len()
        &&& forall|i: int|
            0 <= i < self.N.len() ==> (#[trigger] self.secondary[i]).id <= self.id_counter
        &&& forall|i: int, j: int|
            0 <= i < j < self.N.len() ==> self.secondary[i].id < self.secondary[j].id
        &&& forall|i: int|
            0 <= i < self.N.len() ==> (#[trigger] self.secondary[i]).parent_id
                < self.secondary[i].id
        &&& forall|i: int|
            0 <= i < self.N.len() ==> (#[trigger] self.secondary[i]).accumulated_muts >= 1
    }
}

/// Every lineage a well-formed store holds counts at least the marker
/// mutation that founded its ancestral chain
pub proof fn lemma_accumulated_muts_positive(v: LineagesView, i: int)
    requires
        v.wf(),
        0 <= i < v.len(),
    ensures
        v.secondary[i].accumulated_muts >= 1,
{
}

/// Container for data on a population of lineages
///
/// The columns are parallel arrays: entry `i` of each describes lineage `i`.
#[derive(Debug)]
pub struct LineagesData {
    /// Population sizes of lineages, in whole individuals
    N: Vec<u64>,
    /// Fitnesses of lineages, opaque words
    W: Vec<u64>,
    /// Total mutation rates of lineages, opaque words
    ///
    /// Defer to `SimConfig` for relative rates of specific mutation types
    U: Vec<u64>,
    /// Additional data in AoS format
    secondary: Vec<SecondaryLineageData>,
    /// Counter which saves the *last ID* that was assigned
    unique_id_counter: u64,
}

impl View for LineagesData {
    type V = LineagesView;

    closed spec fn view(&self) -> LineagesView {
        LineagesView {
            N: self.N@,
            W: self.W@,
            U: self.U@,
            secondary: self.secondary@,
            id_counter: self.unique_id_counter,
        }
    }
}

impl Default for LineagesData {
    /// An empty container whose id counter starts at 0
    fn default() -> (r: Self)
        ensures
            r@.N == Seq::<u64>::empty(),
            r@.W == Seq::<u64>::empty(),
            r@.U == Seq::<u64>::empty(),
            r@.secondary == Seq::<SecondaryLineageData>::empty(),
            r@.id_counter == 0u64,
            r@.wf(),
    {
        let r = LineagesData {
            N: Vec::new(),
            W: Vec::new(),
            U: Vec::new(),
            secondary: Vec::new(),
            unique_id_counter: 0,
        };
        proof {
            assert(r@.N =~= Seq::<u64>::empty());
            assert(r@.W =~= Seq::<u64>::empty());
            assert(r@.U =~= Seq::<u64>::empty());
            assert(r@.secondary =~= Seq::<SecondaryLineageData>::empty());
        }
        r
    }
}

impl LineagesData {
    /// Number of lineages held
    pub fn len(&self) -> (r: usize)
        requires
            self@.wf(),
        ensures
            r == self@.len(),
    {
        self.N.len()
    }

    /// The last lineage id that was assigned
    pub fn id_counter(&self) -> (r: u64)
        ensures
            r == self@.id_counter,
    {
        self.unique_id_counter
    }

    /// Borrow the population-size column
    pub fn sizes(&self) -> (r: &Vec<u64>)
        ensures
            r@ == self@.N,
    {
        &self.N
    }

    /// Borrow the fitness column
    pub fn fitness_words(&self) -> (r: &Vec<u64>)
        ensures
            r@ == self@.W,
    {
        &self.W
    }

    /// Borrow the mutation-rate column
    pub fn rate_words(&self) -> (r: &Vec<u64>)
        ensures
            r@ == self@.U,
    {
        &self.U
    }

    /// Borrow the secondary-data column
    pub fn secondary(&self) -> (r: &Vec<SecondaryLineageData>)
        ensures
            r@ == self@.secondary,
    {
        &self.secondary
    }

    /// Access a `Lineage` from the collection
    pub fn get(&self, index: usize) -> (r: Lineage)
        requires
            self@.wf(),
            index < self@.len(),
        ensures
            r == self@.lineage(index as int),
    {
        Lineage {
            N: self.N[index],
            W: self.W[index],
            U: self.U[index],
            secondary: self.secondary[index],
        }
    }

    /// Create a new, empty instance from an old instance, preserving the
    /// counter used to generate unique IDs
    ///
    /// This is the proper way to generate a new instance to move lineages
    /// into from an old instance when bottlenecking.  To start a new
    /// replicate, use `LineagesData::for_sim_config`
    pub fn successor(old: &LineagesData) -> (r: Self)
        ensures
            r@.N == Seq::<u64>::empty(),
            r@.W == Seq::<u64>::empty(),
            r@.U == Seq::<u64>::empty(),
            r@.secondary == Seq::<SecondaryLineageData>::empty(),
            r@.id_counter == old@.id_counter,
            r@.wf(),
    {
        let capacity = old.N.len();
        let r = LineagesData {
            N: Vec::with_capacity(capacity),
            W: Vec::with_capacity(capacity),
            U: Vec::with_capacity(capacity),
            secondary: Vec::with_capacity(capacity),
            unique_id_counter: old.unique_id_counter,
        };
        proof {
            assert(r@.N =~= Seq::<u64>::empty());
            assert(r@.W =~= Seq::<u64>::empty());
            assert(r@.U =~= Seq::<u64>::empty());
            assert(r@.secondary =~= Seq::<SecondaryLineageData>::empty());
        }
        r
    }

    /// Push a new `Lineage` to the collection
    ///
    /// The lineage keeps the id it arrives with, so it must be newer than
    /// every lineage already held and no newer than the id counter
    pub fn push(&mut self, data: Lineage)
        requires
            old(self)@.wf(),
            data.secondary.id <= old(self)@.id_counter,
            forall|i: int|
                0 <= i < old(self)@.len() ==> (#[trigger] old(self)@.secondary[i]).id
                    < data.secondary.id,
            data.secondary.parent_id < data.secondary.id,
            data.secondary.accumulated_muts >= 1,
        ensures
            final(self)@.N == old(self)@.N.push(data.N),
            final(self)@.W == old(self)@.W.push(data.W),
            final(self)@.U == old(self)@.U.push(data.U),
            final(self)@.secondary == old(self)@.secondary.push(data.secondary),
            final(self)@.id_counter == old(self)@.id_counter,
            final(self)@.wf(),
    {
        self.N.push(data.N);
        self.W.push(data.W);
        self.U.push(data.U);
        self.secondary.push(data.secondary);
    }

    /// Push a new `child` `Lineage` of `parent` to the collection, properly
    /// assigning its parent ID, its own ID and its accumulated-mutation
    /// count, and registering the mutation with the `MutationsData` if
    /// applicable
    ///
    /// `delta_W` is the payload the registered mutation records for the
    /// change between the parent's and the child's fitness words
    pub fn push_child(
        &mut self,
        child: Lineage,
        parent: Lineage,
        mutation_order: u32,
        delta_W: u64,
        mutations: &mut Option<MutationsData>,
    )
        requires
            old(self)@.wf(),
            parent.secondary.id <= old(self)@.id_counter,
            old(self)@.id_counter < u64::MAX,
            mutation_order >= 1,
            parent.secondary.accumulated_muts + mutation_order <= u32::MAX,
            (*old(mutations)) matches Some(md) ==> md@.wf() && md@.ids_at_most(
                old(self)@.id_counter as int,
            ),
        ensures
            final(self)@.N == old(self)@.N.push(child.N),
            final(self)@.W == old(self)@.W.push(child.W),
            final(self)@.U == old(self)@.U.push(child.U),
            final(self)@.secondary == old(self)@.secondary.push(
                (SecondaryLineageData {
                    lambda: child.secondary.lambda,
                    id: (old(self)@.id_counter + 1) as u64,
                    parent_id: parent.secondary.id,
                    marker: child.secondary.marker,
                    accumulated_muts: (parent.secondary.accumulated_muts + mutation_order) as u32,
                }),
            ),
            final(self)@.id_counter == old(self)@.id_counter + 1,
            final(self)@.wf(),
            (*old(mutations)) matches Some(md) ==> (*final(mutations)) matches Some(fmd)
                && fmd@.muts == md@.muts.push(
                (MutationsData::registered(
                    (Lineage {
                        secondary: SecondaryLineageData {
                            id: (old(self)@.id_counter + 1) as u64,
                            ..child.secondary
                        },
                        ..child
                    }),
                    parent,
                    mutation_order,
                    delta_W,
                    md@.on_transfer,
                )),
            ) && fmd@.pruned_muts == md@.pruned_muts && fmd@.on_transfer == md@.on_transfer
                && fmd@.wf() && fmd@.ids_at_most(old(self)@.id_counter + 1),
            (*old(mutations)) is None ==> (*final(mutations)) is None,
    {
        let mut child = child;
        // Appropriate parent_id must be assigned
        child.secondary.parent_id = parent.secondary.id;
        // unique_id_counter stores the last assigned ID, starting with 0 as
        // the ID of the common ancestor of the markers, which is never
        // actually used by any lineage, so it must increment *before* use
        self.unique_id_counter = self.unique_id_counter + 1;
        child.secondary.id = self.unique_id_counter;
        child.secondary.accumulated_muts = parent.secondary.accumulated_muts + mutation_order;

        self.N.push(child.N);
        self.W.push(child.W);
        self.U.push(child.U);
        self.secondary.push(child.secondary);

        if let Some(mutations) = mutations {
            mutations.register(child, parent, mutation_order, delta_W);
        }
    }

    /// Create a new instance from a `SimConfig`
    ///
    /// Use this only to start a new replicate.  For creating a new container
    /// to transfer into use `LineagesData::successor` to ensure that the IDs
    /// remain properly numbered
    #[verifier::loop_isolation(false)]
    pub fn for_sim_config(cfg: &SimConfig, mutations: &mut Option<MutationsData>) -> (r: Self)
        requires
            cfg.markers >= 1,
            cfg.dilution_factor >= 1,
            (*old(mutations)) matches Some(md) ==> md@.wf() && md@.muts.len() == 0
                && md@.pruned_muts.len() == 0,
        ensures
            r@.wf(),
            r@.len() == cfg.markers,
            r@.id_counter == cfg.markers,
            forall|k: int| 0 <= k < cfg.markers ==> r@.N[k] == cfg.spec_initial_marker_population(),
            forall|k: int| 0 <= k < cfg.markers ==> r@.W[k] == cfg.founder_fitness,
            forall|k: int| 0 <= k < cfg.markers ==> r@.U[k] == cfg.total_mutation_rate,
            forall|k: int|
                0 <= k < cfg.markers ==> r@.secondary[k] == (SecondaryLineageData {
                    lambda: cfg.initial_lambda,
                    id: (k + 1) as u64,
                    parent_id: 0u64,
                    marker: (k + 1) as u16,
                    accumulated_muts: 1u32,
                }),
            (*old(mutations)) matches Some(md) ==> (*final(mutations)) matches Some(fmd)
                && fmd@.muts.len() == cfg.markers && (forall|k: int|
                0 <= k < cfg.markers ==> fmd@.muts[k] == (MutationView {
                    id: (k + 1) as u64,
                    background_id: 0u64,
                    delta_W: 0u64,
                    delta_U: 0u64,
                    first_transfer: md@.on_transfer,
                    N: Seq::empty(),
                    order: 1u32,
                    just_updated: false,
                })) && fmd@.pruned_muts == md@.pruned_muts && fmd@.on_transfer == md@.on_transfer
                && fmd@.wf() && fmd@.ids_at_most(cfg.markers as int),
            (*old(mutations)) is None ==> (*final(mutations)) is None,
    {
        let mut output = LineagesData::default();

        // Size, parent ID, and marker won't matter
        let ancestor = Lineage {
            N: 0,
            // W and U may be used for comparison to the markers in the case of mutation tracking
            W: cfg.founder_fitness,
            U: cfg.total_mutation_rate,
            secondary: SecondaryLineageData {
                // Lambda will be carried over to the children
                lambda: cfg.initial_lambda,
                id: 0,
                parent_id: 0,
                marker: 0,
                // accumulated_muts is incremented for each child
                accumulated_muts: 0,
            },
        };

        // Initialize with a lineage for each marker and a population size of
        // Nmax/D, evenly divided between the markers
        let n0 = cfg.initial_marker_population();

        // 1-index the markers because the "0" ID is reserved for the
        // immediate ancestor of the neutral marker mutations
        let mut m: u16 = 0;
        while m < cfg.markers
            invariant
                m <= cfg.markers,
                n0 == cfg.spec_initial_marker_population(),
                output@.wf(),
                output@.len() == m,
                output@.id_counter == m,
                forall|k: int| 0 <= k < m ==> output@.N[k] == n0,
                forall|k: int| 0 <= k < m ==> output@.W[k] == cfg.founder_fitness,
                forall|k: int| 0 <= k < m ==> output@.U[k] == cfg.total_mutation_rate,
                forall|k: int|
                    0 <= k < m ==> output@.secondary[k] == (SecondaryLineageData {
                        lambda: cfg.initial_lambda,
                        id: (k + 1) as u64,
                        parent_id: 0u64,
                        marker: (k + 1) as u16,
                        accumulated_muts: 1u32,
                    }),
                (*old(mutations)) matches Some(md) ==> (*mutations) matches Some(cmd)
                    && cmd@.muts.len() == m && (forall|k: int|
                    0 <= k < m ==> cmd@.muts[k] == (MutationView {
                        id: (k + 1) as u64,
                        background_id: 0u64,
                        delta_W: 0u64,
                        delta_U: 0u64,
                        first_transfer: md@.on_transfer,
                        N: Seq::empty(),
                        order: 1u32,
                        just_updated: false,
                    })) && cmd@.pruned_muts == md@.pruned_muts && cmd@.on_transfer
                    == md@.on_transfer && cmd@.wf() && cmd@.ids_at_most(m as int),
                (*old(mutations)) is None ==> (*mutations) is None,
            decreases cfg.markers - m,
        {
            // ID, parent ID, and accumulated muts will be assigned by
            // push_child so it doesn't matter what we use for them here
            let marker_mutant = Lineage {
                N: n0,
                secondary: SecondaryLineageData { marker: m + 1, ..ancestor.secondary },
                ..ancestor
            };

            // The founders leave the ancestor's fitness word unchanged, so
            // their recorded fitness change is the zero payload
            output.push_child(marker_mutant, ancestor, 1, 0, mutations);
            m = m + 1;
        }

        output
    }

    /// Remove one individual from lineage `index`, stopping at zero
    ///
    /// This is how a parent lineage pays for a new mutant: the mutant's
    /// single founding individual leaves its parent's count
    pub fn deduct_individual(&mut self, index: usize)
        requires
            old(self)@.wf(),
            index < old(self)@.len(),
        ensures
            final(self)@.N == old(self)@.N.update(
                index as int,
                (if old(self)@.N[index as int] > 0 {
                    (old(self)@.N[index as int] - 1) as u64
                } else {
                    0u64
                }),
            ),
            final(self)@.W == old(self)@.W,
            final(self)@.U == old(self)@.U,
            final(self)@.secondary == old(self)@.secondary,
            final(self)@.id_counter == old(self)@.id_counter,
            final(self)@.wf(),
    {
        let n = self.N[index];
        if n > 0 {
            self.N[index] = n - 1;
        } else {
            proof {
                assert(self@.N =~= old(self)@.N.update(index as int, 0u64));
            }
        }
    }
}

} // verus!
