//! The replicate/transfer state machine that drives the simulations
//!
//! The loop that owns the random generator and the growth arithmetic calls
//! `next_progress` to decide, from the position alone, whether the run is
//! over, and otherwise which kind of step comes next: starting a replicate
//! or performing a transfer on the current one.

use vstd::prelude::*;

use crate::cfg::SimConfig;

verus! {

/// Where a run stands: which replicate it is on and which transfer of it
///
/// Before the first advance both counters are zero; replicates are numbered
/// from 1 once started.
#[derive(Copy, Clone, Debug, PartialEq, Eq, Structural)]
pub struct SimulationProgress {
    /// Current replicate, 0 before the first one starts
    pub replicate: u32,
    /// Current transfer within the replicate
    pub transfer: u32,
}

/// What the next advance must do
#[derive(Copy, Clone, Debug, PartialEq, Eq, Structural)]
pub enum StepAction {
    /// Rebuild the lineage and mutation containers for a fresh replicate
    StartReplicate,
    /// Run the growth phases and the bottleneck on the current lineages
    PerformTransfer,
}

impl SimulationProgress {
    /// Positions that a run can actually be in: counters never pass the
    /// configured totals
    pub open spec fn wf(self, cfg: SimConfig) -> bool {
        self.replicate <= cfg.replicates && self.transfer <= cfg.transfers
    }
}

/// Whether a current state exists: nothing has been produced before the
/// first replicate starts
pub open spec fn spec_has_state(p: SimulationProgress) -> bool {
    p.replicate > 0
}

/// Whether the position is the last state of its replicate
pub open spec fn spec_end_of_replicate(p: SimulationProgress, cfg: SimConfig) -> bool {
    p.transfer == cfg.transfers
}

/// Whether the run is over: the last replicate has reached its last
/// transfer, or there are no replicates at all
pub open spec fn spec_is_finished(p: SimulationProgress, cfg: SimConfig) -> bool {
    p.replicate == cfg.replicates && (p.replicate == 0 || p.transfer == cfg.transfers)
}

/// The next position and the step that reaches it, or nothing when the run
/// cannot be advanced any more
pub open spec fn spec_next(p: SimulationProgress, cfg: SimConfig) -> Option<
    (SimulationProgress, StepAction),
> {
    if p.replicate > 0 && p.transfer != cfg.transfers {
        Some(
            (
                SimulationProgress { replicate: p.replicate, transfer: (p.transfer + 1) as u32 },
                StepAction::PerformTransfer,
            ),
        )
    } else if p.replicate < cfg.replicates {
        Some(
            (
                SimulationProgress { replicate: (p.replicate + 1) as u32, transfer: 0u32 },
                StepAction::StartReplicate,
            ),
        )
    } else {
        None
    }
}

/// The position of a freshly built run, before any state exists
pub fn initial_progress() -> (r: SimulationProgress)
    ensures
        r.replicate == 0u32,
        r.transfer == 0u32,
        forall|cfg: SimConfig| #[trigger] r.wf(cfg),
{
    SimulationProgress { replicate: 0, transfer: 0 }
}

/// Whether the run has a current state to report
pub fn has_state(p: SimulationProgress) -> (r: bool)
    ensures
        r == spec_has_state(p),
{
    p.replicate > 0
}

/// Whether the current state is the last one of its replicate
pub fn end_of_replicate(p: SimulationProgress, cfg: &SimConfig) -> (r: bool)
    ensures
        r == spec_end_of_replicate(p, *cfg),
{
    p.transfer == cfg.transfers
}

/// Whether the simulations are finished
///
/// This returning `true` means `next_progress` will return `None`, and vice
/// versa; see `lemma_finished_iff_no_next`
pub fn is_finished(p: SimulationProgress, cfg: &SimConfig) -> (r: bool)
    ensures
        r == spec_is_finished(p, *cfg),
{
    // The number of transfers doesn't matter if replicates is 0
    p.replicate == cfg.replicates && (p.replicate == 0 || p.transfer == cfg.transfers)
}

/// Decide the next step of the run: advance within the replicate while its
/// transfers last, then start the next replicate, and stop after the last
pub fn next_progress(p: SimulationProgress, cfg: &SimConfig) -> (r: Option<
    (SimulationProgress, StepAction),
>)
    requires
        p.wf(*cfg),
    ensures
        r == spec_next(p, *cfg),
        r matches Some(n) ==> n.0.wf(*cfg) && spec_has_state(n.0),
{
    if p.replicate > 0 && p.transfer != cfg.transfers {
        Some(
            (
                SimulationProgress { replicate: p.replicate, transfer: p.transfer + 1 },
                StepAction::PerformTransfer,
            ),
        )
    } else if p.replicate < cfg.replicates {
        Some(
            (
                SimulationProgress { replicate: p.replicate + 1, transfer: 0 },
                StepAction::StartReplicate,
            ),
        )
    } else {
        None
    }
}

/// The run is finished exactly when it cannot be advanced any more
pub proof fn lemma_finished_iff_no_next(p: SimulationProgress, cfg: SimConfig)
    requires
        p.wf(cfg),
    ensures
        spec_is_finished(p, cfg) <==> spec_next(p, cfg) is None,
{
}

/// How many advances the run still has in front of it
pub open spec fn remaining_steps(p: SimulationProgress, cfg: SimConfig) -> int {
    (cfg.replicates - p.replicate) * (cfg.transfers + 1) + (cfg.transfers - p.transfer)
}

/// Every advance brings the run strictly closer to its end, so a loop that
/// calls `next_progress` until it returns nothing terminates
pub proof fn lemma_next_decreases(p: SimulationProgress, cfg: SimConfig)
    requires
        p.wf(cfg),
        spec_next(p, cfg) matches Some(n),
    ensures
        spec_next(p, cfg) matches Some(n) ==> 0 <= remaining_steps(n.0, cfg) < remaining_steps(
            p,
            cfg,
        ),
{
    let n = spec_next(p, cfg)->Some_0;
    let r = p.replicate as int;
    let t = p.transfer as int;
    let cr = cfg.replicates as int;
    let ct = cfg.transfers as int;
    if p.replicate > 0 && p.transfer != cfg.transfers {
        assert(remaining_steps(n.0, cfg) == remaining_steps(p, cfg) - 1);
    } else {
        assert((cr - r) * (ct + 1) - (cr - r - 1) * (ct + 1) == ct + 1) by (nonlinear_arith);
        assert((cr - n.0.replicate as int) * (ct + 1) >= 0) by (nonlinear_arith)
            requires
                n.0.replicate as int <= cr,
                ct >= 0,
        ;
    }
}

} // verus!
