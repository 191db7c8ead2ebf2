//! How a run of a pipeline ends.

use vstd::prelude::*;

verus! {

/// The result of running a pipeline: exactly one of three endings.
#[derive(Debug)]
pub enum PipelineResult<T, E> {
    /// Every stage succeeded and no callback cancelled; carries the output of
    /// the last stage.
    Success(T),
    /// A stage failed; carries that stage's error, unchanged.
    Failure(E),
    /// An inspection callback chose to stop. No value is carried.
    Cancelled,
}

} // verus!
