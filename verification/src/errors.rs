//! What can go wrong in one cycle.

use vstd::prelude::*;

verus! {

/// Why a cycle produced no colours.
#[derive(Clone, Copy, Debug, PartialEq, Eq, Structural)]
pub enum PipelineError {
    /// The screen could not be captured. The library itself never reports
    /// this: it is there for the caller that captures.
    CaptureFailed,
    /// The extraction routine failed or found no colour.
    ExtractionFailed,
}

} // verus!
