//! Configuration options for the simulations and for summary output

use vstd::prelude::*;

verus! {

/// Options for summary output statistics
///
/// Each flag enables one derived statistic in the summary output.
pub struct SummaryOutputConfig {
    /// Output weighted arithmetic mean of lineage fitnesses
    pub avg_W: bool,
    /// Output the ratio of marker 1 to other markers
    pub marker_1_ratio: bool,
    /// Output weighted standard deviation of lineage fitnesses
    pub stdev_W: bool,
    /// Output maximum lineage fitness
    pub max_W: bool,
    /// Output the standard deviation of the number of mutations accumulated since the ancestor
    pub stdev_accumulated_muts: bool,
    /// Output the maximum number of mutations accumulated since the ancestor
    pub max_accumulated_muts: bool,
    /// Output the mean number of mutations accumulated since the ancestor
    pub mean_accumulated_muts: bool,
    /// Output the minimum number of mutations accumulated since the ancestor
    pub min_accumulated_muts: bool,
    /// Output the number of genotypes present in the population
    pub genotype_count: bool,
    /// Output the Shannon diversity of genotypes in the population
    pub shannon_diversity: bool,
}

/// Options for STEPS simulations, as the verified core reads them
///
/// Population counts are whole individuals and the dilution factor is a whole
/// fold.  The per-individual rates and the initial mean mutation size are
/// opaque 64-bit words: the core stores them in the lineages it creates and
/// never interprets them, so their encoding is fixed by the caller.
pub struct SimConfig {
    /// Number of replicates to perform
    pub replicates: u32,
    /// Number of transfers to run the experiment for in each replicate
    pub transfers: u32,
    /// Number of neutral markers to include in the experiment (at least 1)
    pub markers: u16,
    /// The dilution factor (at least 2)
    pub dilution_factor: u64,
    /// Maximum population size reached before bottleneck, in individuals
    pub max_pop_size: u64,
    /// Seed for the RNG, if a fixed one was requested
    pub seed: Option<u64>,
    /// Total per-individual mutation rate, an opaque word stored in the
    /// `U` column of every founder lineage
    pub total_mutation_rate: u64,
    /// Fitness of the marker founders, an opaque word stored in their `W` column
    pub founder_fitness: u64,
    /// Reciprocal of the initial mean beneficial mutation size, an opaque
    /// word stored in the `lambda` field of every founder lineage
    pub initial_lambda: u64,
}

impl SimConfig {
    /// Population size each marker founder starts a replicate with:
    /// `max_pop_size / dilution_factor / markers`, rounded half-up
    pub open spec fn spec_initial_marker_population(&self) -> int
        recommends
            self.markers >= 1,
            self.dilution_factor >= 1,
    {
        let den = self.dilution_factor as int * self.markers as int;
        (2 * self.max_pop_size as int + den) / (2 * den)
    }

    /// Compute the starting population size of each marker founder, the
    /// ceiling divided by the dilution factor and split evenly between the
    /// markers, rounded to the nearest whole individual (half rounds up)
    pub fn initial_marker_population(&self) -> (n: u64)
        requires
            self.markers >= 1,
            self.dilution_factor >= 1,
        ensures
            n == self.spec_initial_marker_population(),
    {
        proof {
            assert(1 <= (self.dilution_factor as int) * (self.markers as int)
                && (self.dilution_factor as int) * (self.markers as int) < 0x1_0000_0000_0000_0000_0000)
                by (nonlinear_arith)
                requires
                    1 <= self.dilution_factor <= u64::MAX,
                    1 <= self.markers <= u16::MAX,
            ;
        }
        let den: u128 = (self.dilution_factor as u128) * (self.markers as u128);
        let num: u128 = 2 * (self.max_pop_size as u128) + den;
        let q: u128 = num / (2 * den);
        proof {
            let den_i = den as int;
            let num_i = num as int;
            assert(num_i / (2 * den_i) <= self.max_pop_size as int) by (nonlinear_arith)
                requires
                    den_i >= 1,
                    num_i == 2 * self.max_pop_size as int + den_i,
            ;
        }
        q as u64
    }
}

} // verus!
