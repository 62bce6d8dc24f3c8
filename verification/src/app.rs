use vstd::prelude::*;

verus! {

/// The tabs of the main workspace.
#[derive(Debug, Clone, Copy, PartialEq, Eq, Structural)]
pub enum AppTab {
    EstimationAndGraph,
    CandidateRankings,
    ForwardSimulator,
    FormulaReference,
}

} // verus!
