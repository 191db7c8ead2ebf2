//! What every pipeline offers: running it, and extending it by one more stage.

use vstd::prelude::*;
use crate::detail::PipelineEnd;
use crate::outcome::PipelineResult;
use crate::signal::Continue;
use crate::stage::{step_outcome, step_ready, Stage};

verus! {

/// A sequence of stages that run one after another. `Start` is what the first
/// stage consumes, `End` what the last one produces.
pub trait Pipeline<Error>: Sized {
    /// The input of the first stage.
    type Start;

    /// The output of the last stage.
    type End;

    /// The pipeline may be run on `input`: every stage that a run can reach
    /// accepts what it is handed, and so does every callback.
    spec fn ready(self, input: Self::Start) -> bool;

    /// `result` is a possible ending of a run on `input`.
    spec fn outcome(self, input: Self::Start, result: PipelineResult<Self::End, Error>) -> bool;

    /// Runs the stages in order, consuming the pipeline. The run stops at the
    /// first stage that fails or whose callback cancels.
    fn run(self, input: Self::Start) -> (result: PipelineResult<Self::End, Error>)
        requires
            self.ready(input),
        ensures
            self.outcome(input, result),
    ;
}

/// A pipeline that can take `stage`, inspected by `callback`, as a new last
/// stage. The stage's input must be what the pipeline ends in.
pub trait Extend<Error, S, F, R>: Pipeline<Error> where
    S: Stage<Error, Input = Self::End>,
    F: FnOnce(&S::Output) -> R,
    R: Into<Continue>,
 {
    /// The longer pipeline: same start, ending in the new stage's output.
    type Extended: Pipeline<Error, Start = Self::Start, End = S::Output>;

    /// The pipeline that `and_then` builds.
    spec fn extended(self, stage: S, callback: F) -> Self::Extended;

    /// Appends `stage` with its `callback` behind the last stage. The stages
    /// already there keep their order and run before the new one.
    fn and_then(self, stage: S, callback: F) -> (longer: Self::Extended)
        ensures
            longer == self.extended(stage, callback),
            forall|input: Self::Start| #[trigger]
                longer.ready(input) <==> extension_ready(self, stage, callback, input),
            forall|input: Self::Start, result: PipelineResult<S::Output, Error>| #[trigger]
                longer.outcome(input, result) <==> sequel(self, stage, callback, input, result),
    ;

    /// The extended pipeline is ready exactly when the old one is and the new
    /// step is ready for every value the old one may succeed with.
    proof fn lemma_extended_ready(self, stage: S, callback: F, input: Self::Start)
        ensures
            self.extended(stage, callback).ready(input) <==> extension_ready(
                self,
                stage,
                callback,
                input,
            ),
    ;

    /// A run of the extended pipeline is a run of the old one, followed, if
    /// that succeeded, by the new step on its value. An early stop of the old
    /// pipeline is the ending of the extended one.
    proof fn lemma_extended_outcome(
        self,
        stage: S,
        callback: F,
        input: Self::Start,
        result: PipelineResult<S::Output, Error>,
    )
        ensures
            self.extended(stage, callback).outcome(input, result) <==> sequel(
                self,
                stage,
                callback,
                input,
                result,
            ),
    ;
}

/// `first` may stop early on `input`, and `result` is that stop, the same error
/// or the same cancellation, as seen by a longer pipeline that ends in values
/// of type `T`.
pub open spec fn halts<Error, P, T>(first: P, input: P::Start, result: PipelineResult<T, Error>) -> bool where
    P: Pipeline<Error>,
 {
    match result {
        PipelineResult::Failure(e) => first.outcome(input, PipelineResult::Failure(e)),
        PipelineResult::Cancelled => first.outcome(input, PipelineResult::Cancelled),
        PipelineResult::Success(_) => false,
    }
}

/// `first` may be run on `input`, and the step of `stage` and `callback` may be
/// run on every value that `first` may succeed with.
pub open spec fn extension_ready<Error, P, S, F, R>(
    first: P,
    stage: S,
    callback: F,
    input: P::Start,
) -> bool where
    P: Pipeline<Error>,
    S: Stage<Error, Input = P::End>,
    F: FnOnce(&S::Output) -> R,
    R: Into<Continue>,
 {
    &&& first.ready(input)
    &&& forall|mid: P::End| #[trigger]
        first.outcome(input, PipelineResult::Success(mid)) ==> step_ready(stage, callback, mid)
}

/// `result` is a possible ending of running `first` on `input` and then, if
/// it succeeded, the step of `stage` and `callback` on its value.
pub open spec fn sequel<Error, P, S, F, R>(
    first: P,
    stage: S,
    callback: F,
    input: P::Start,
    result: PipelineResult<S::Output, Error>,
) -> bool where
    P: Pipeline<Error>,
    S: Stage<Error, Input = P::End>,
    F: FnOnce(&S::Output) -> R,
    R: Into<Continue>,
 {
    ||| halts(first, input, result)
    ||| exists|mid: P::End| #[trigger]
        first.outcome(input, PipelineResult::Success(mid)) && step_outcome(
            stage,
            callback,
            mid,
            result,
        )
}

/// Starts a pipeline: one stage with its inspection callback.
pub fn pipeline<S, FR, F, Error>(stage: S, callback: F) -> (start: PipelineEnd<S, F>) where
    S: Stage<Error>,
    FR: Into<Continue>,
    F: FnOnce(&S::Output) -> FR,

    ensures
        start.stage() == stage,
        start.callback() == callback,
        forall|input: S::Input| #[trigger] start.ready(input) <==> step_ready(stage, callback, input),
        forall|input: S::Input, result: PipelineResult<S::Output, Error>| #[trigger]
            start.outcome(input, result) <==> step_outcome(stage, callback, input, result),
{
    PipelineEnd::new(stage, callback)
}

} // verus!
