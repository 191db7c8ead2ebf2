//! A single step of a pipeline, and what one step followed by its inspection
//! callback may end in.

use vstd::prelude::*;
use crate::outcome::PipelineResult;
use crate::signal::{decides, signal_of, Continue};

verus! {

/// One fallible, single-use transformation. `Error` is the error type shared
/// by the whole pipeline.
///
/// An implementor describes its behaviour by two predicates: `accepts` says
/// on which inputs `run` may be called, `yields` which results it may return.
pub trait Stage<Error>: Sized {
    /// What the stage consumes.
    type Input;

    /// What the stage produces when it succeeds.
    type Output;

    /// `run` may be called with `input`. A stage that does not say accepts
    /// every input.
    open spec fn accepts(self, input: Self::Input) -> bool {
        true
    }

    /// `result` is a possible result of `run` on `input`. A stage that does
    /// not say may return anything.
    open spec fn yields(self, input: Self::Input, result: Result<Self::Output, Error>) -> bool {
        true
    }

    /// Runs the stage, consuming it.
    fn run(self, input: Self::Input) -> (result: Result<Self::Output, Error>)
        requires
            self.accepts(input),
        ensures
            self.yields(input, result),
    ;
}

/// The step made of `stage` and `callback` may be run on `input`: the stage
/// accepts it, and the callback may be called on whatever the stage produces.
pub open spec fn step_ready<Error, S, F, R>(stage: S, callback: F, input: S::Input) -> bool where
    S: Stage<Error>,
    F: FnOnce(&S::Output) -> R,
    R: Into<Continue>,
 {
    &&& stage.accepts(input)
    &&& forall|output: S::Output| #[trigger]
        stage.yields(input, Ok(output)) ==> call_requires(callback, (&output,))
}

/// The step made of `stage` and `callback` may end in `result` on `input`:
/// - in failure with `e`, if the stage may fail with `e`;
/// - in success with `output`, if the stage may produce `output` and the
///   callback may then decide to continue;
/// - cancelled, if the stage may produce some output on which the callback
///   may decide to cancel.
pub open spec fn step_outcome<Error, S, F, R>(
    stage: S,
    callback: F,
    input: S::Input,
    result: PipelineResult<S::Output, Error>,
) -> bool where S: Stage<Error>, F: FnOnce(&S::Output) -> R, R: Into<Continue> {
    match result {
        PipelineResult::Failure(e) => stage.yields(input, Err(e)),
        PipelineResult::Success(output) => {
            &&& stage.yields(input, Ok(output))
            &&& decides(callback, output, Continue::Continue)
        },
        PipelineResult::Cancelled => exists|output: S::Output| #[trigger]
            stage.yields(input, Ok(output)) && decides(callback, output, Continue::Cancel),
    }
}

/// The step may stop early on `input`, and `result` is that stop as seen by a
/// pipeline that ends in values of type `T`.
pub open spec fn step_stops<Error, S, F, R, T>(
    stage: S,
    callback: F,
    input: S::Input,
    result: PipelineResult<T, Error>,
) -> bool where S: Stage<Error>, F: FnOnce(&S::Output) -> R, R: Into<Continue> {
    match result {
        PipelineResult::Failure(e) => step_outcome(stage, callback, input, PipelineResult::Failure(e)),
        PipelineResult::Cancelled => step_outcome::<Error, S, F, R>(
            stage,
            callback,
            input,
            PipelineResult::Cancelled,
        ),
        PipelineResult::Success(_) => false,
    }
}

/// What a step ends in once its stage has produced `output` and its callback
/// has decided `signal`: success with the output, or cancellation, which
/// drops it.
pub open spec fn concluded<T, E>(output: T, signal: Continue) -> PipelineResult<T, E> {
    match signal {
        Continue::Continue => PipelineResult::Success(output),
        Continue::Cancel => PipelineResult::Cancelled,
    }
}

/// Ends a step whose stage has produced `output` and whose callback has
/// decided `signal`.
pub fn conclude<T, E>(output: T, signal: Continue) -> (result: PipelineResult<T, E>)
    ensures
        result == concluded::<T, E>(output, signal),
{
    match signal {
        Continue::Continue => PipelineResult::Success(output),
        Continue::Cancel => PipelineResult::Cancelled,
    }
}

/// Runs one step: the stage, then its callback on the output.
pub fn run_step<Error, S, F, R>(stage: S, callback: F, input: S::Input) -> (result: PipelineResult<
    S::Output,
    Error,
>) where S: Stage<Error>, F: FnOnce(&S::Output) -> R, R: Into<Continue>
    requires
        step_ready(stage, callback, input),
    ensures
        step_outcome(stage, callback, input, result),
{
    match stage.run(input) {
        Ok(output) => {
            let signal = signal_of(callback(&output));
            conclude(output, signal)
        },
        Err(e) => PipelineResult::Failure(e),
    }
}

} // verus!
