//! What holds of every pipeline, whatever its stages and callbacks do.
//!
//! The statements are over the relations `ready` and `outcome` of a pipeline
//! and `step_ready` and `step_outcome` of a single step. That a stage "never
//! executes" shows as nothing being asked of it: the pipeline is ready without
//! the stage accepting anything, and the endings do not depend on it.

use vstd::prelude::*;
use crate::detail::{PipelineEnd, PipelineStage};
use crate::outcome::PipelineResult;
use crate::pipeline::{halts, Extend, Pipeline};
use crate::signal::{decides, Continue};
use crate::stage::{step_outcome, step_ready, step_stops, Stage};

verus! {

/// `stage` accepts `input` and cannot fail on it.
pub open spec fn always_succeeds<Error, S: Stage<Error>>(stage: S, input: S::Input) -> bool {
    forall|r: Result<S::Output, Error>| #[trigger] stage.yields(input, r) ==> r is Ok
}

/// `stage` cannot succeed on `input`.
pub open spec fn always_fails<Error, S: Stage<Error>>(stage: S, input: S::Input) -> bool {
    forall|r: Result<S::Output, Error>| #[trigger] stage.yields(input, r) ==> r is Err
}

/// Whatever `stage` produces on `input`, `callback` can only decide `signal`
/// on it.
pub open spec fn always_decides<Error, S, F, R>(
    stage: S,
    callback: F,
    input: S::Input,
    signal: Continue,
) -> bool where S: Stage<Error>, F: FnOnce(&S::Output) -> R, R: Into<Continue> {
    forall|output: S::Output, other: Continue|
        stage.yields(input, Ok(output)) && #[trigger] decides(callback, output, other) ==> other
            == signal
}

/// A pipeline of one stage that cannot fail, with a callback that always
/// continues, can only end in success, carrying what the stage produced.
pub proof fn lemma_single_stage_succeeds<Error, S, F, R>(
    start: PipelineEnd<S, F>,
    input: S::Input,
    result: PipelineResult<S::Output, Error>,
) where S: Stage<Error>, F: FnOnce(&S::Output) -> R, R: Into<Continue>
    requires
        always_succeeds(start.stage(), input),
        always_decides(start.stage(), start.callback(), input, Continue::Continue),
        start.outcome(input, result),
    ensures
        result is Success,
        start.stage().yields(input, Ok(result->Success_0)),
{
}

/// A failure is final. If the pipeline may fail with `e` on `input`, so may
/// every extension of it, with the same error, unchanged.
pub proof fn lemma_failure_is_final<Error, P, S, F, R>(
    first: P,
    stage: S,
    callback: F,
    input: P::Start,
    e: Error,
) where
    P: Extend<Error, S, F, R>,
    S: Stage<Error, Input = P::End>,
    F: FnOnce(&S::Output) -> R,
    R: Into<Continue>,

    requires
        first.outcome(input, PipelineResult::Failure(e)),
    ensures
        first.extended(stage, callback).outcome(input, PipelineResult::Failure(e)),
{
    first.lemma_extended_outcome(stage, callback, input, PipelineResult::Failure(e));
}

/// A cancellation is final. If the pipeline may be cancelled on `input`, so
/// may every extension of it.
pub proof fn lemma_cancellation_is_final<Error, P, S, F, R>(
    first: P,
    stage: S,
    callback: F,
    input: P::Start,
) where
    P: Extend<Error, S, F, R>,
    S: Stage<Error, Input = P::End>,
    F: FnOnce(&S::Output) -> R,
    R: Into<Continue>,

    requires
        first.outcome(input, PipelineResult::Cancelled),
    ensures
        first.extended(stage, callback).outcome(input, PipelineResult::Cancelled),
{
    first.lemma_extended_outcome(stage, callback, input, PipelineResult::Cancelled);
}

/// Stages behind a stop do not run. If the pipeline cannot succeed on `input`,
/// then an extension of it is ready as soon as the pipeline itself is, with
/// nothing asked of the new stage or its callback, and it ends exactly as the
/// pipeline does. Applied once per added stage, this covers every stage behind
/// the one that failed or was cancelled.
pub proof fn lemma_stop_skips_later_stages<Error, P, S, F, R>(
    first: P,
    stage: S,
    callback: F,
    input: P::Start,
    result: PipelineResult<S::Output, Error>,
) where
    P: Extend<Error, S, F, R>,
    S: Stage<Error, Input = P::End>,
    F: FnOnce(&S::Output) -> R,
    R: Into<Continue>,

    requires
        forall|mid: P::End| !#[trigger] first.outcome(input, PipelineResult::Success(mid)),
    ensures
        first.extended(stage, callback).ready(input) <==> first.ready(input),
        first.extended(stage, callback).outcome(input, result) <==> halts(first, input, result),
{
    first.lemma_extended_ready(stage, callback, input);
    first.lemma_extended_outcome(stage, callback, input, result);
}

/// A failing first stage ends the run. If the first stage of a chain cannot
/// succeed on `input`, the chain is ready as soon as that stage accepts the
/// input, whatever stands behind it, and every ending is a failure with an
/// error of that stage.
pub proof fn lemma_failing_head_ends_run<Error, S, F, R, Next>(
    chain: PipelineStage<S, F, Next>,
    input: S::Input,
    result: PipelineResult<Next::End, Error>,
) where
    S: Stage<Error>,
    F: FnOnce(&S::Output) -> R,
    R: Into<Continue>,
    Next: Pipeline<Error, Start = S::Output>,

    requires
        always_fails(chain.stage(), input),
    ensures
        chain.ready(input) <==> chain.stage().accepts(input),
        chain.outcome(input, result) <==> (result is Failure && chain.stage().yields(
            input,
            Err(result->Failure_0),
        )),
{
}

/// A cancelling first callback ends the run. If the first stage of a chain
/// cannot fail on `input` and its callback can only decide to cancel, the
/// chain is ready as soon as the first step is, whatever stands behind it,
/// and the only ending is cancellation, reached when the first step is
/// cancelled.
pub proof fn lemma_cancelling_head_ends_run<Error, S, F, R, Next>(
    chain: PipelineStage<S, F, Next>,
    input: S::Input,
    result: PipelineResult<Next::End, Error>,
) where
    S: Stage<Error>,
    F: FnOnce(&S::Output) -> R,
    R: Into<Continue>,
    Next: Pipeline<Error, Start = S::Output>,

    requires
        always_succeeds(chain.stage(), input),
        always_decides(chain.stage(), chain.callback(), input, Continue::Cancel),
    ensures
        chain.ready(input) <==> step_ready(chain.stage(), chain.callback(), input),
        chain.outcome(input, result) <==> (result is Cancelled && step_outcome(
            chain.stage(),
            chain.callback(),
            input,
            PipelineResult::<S::Output, Error>::Cancelled,
        )),
{
}

/// Extending builds a new chain and leaves what was built as it was. The
/// extension is a value computed from the pipeline, the stage and the
/// callback; every run of it begins with a run of the pipeline it was built
/// from, so it is ready only where that pipeline is, and each of its endings
/// follows an ending of that pipeline: the same stop, or a success that the
/// new step then took up.
pub proof fn lemma_extension_begins_as_before<Error, P, S, F, R>(
    first: P,
    stage: S,
    callback: F,
    input: P::Start,
    result: PipelineResult<S::Output, Error>,
) where
    P: Extend<Error, S, F, R>,
    S: Stage<Error, Input = P::End>,
    F: FnOnce(&S::Output) -> R,
    R: Into<Continue>,

    ensures
        first.extended(stage, callback).ready(input) ==> first.ready(input),
        first.extended(stage, callback).outcome(input, result) ==> exists|
            before: PipelineResult<P::End, Error>,
        | #[trigger]
            first.outcome(input, before) && match before {
                PipelineResult::Success(mid) => step_outcome(stage, callback, mid, result),
                PipelineResult::Failure(e) => result == PipelineResult::<S::Output, Error>::Failure(e),
                PipelineResult::Cancelled => result is Cancelled,
            },
{
    first.lemma_extended_ready(stage, callback, input);
    first.lemma_extended_outcome(stage, callback, input, result);
    if first.extended(stage, callback).outcome(input, result) {
        if halts(first, input, result) {
            match result {
                PipelineResult::Failure(e) => {
                    assert(first.outcome(input, PipelineResult::Failure(e)));
                },
                PipelineResult::Cancelled => {
                    assert(first.outcome(input, PipelineResult::Cancelled));
                },
                PipelineResult::Success(_) => {},
            }
        } else {
            let mid = choose|mid: P::End| #[trigger]
                first.outcome(input, PipelineResult::Success(mid)) && step_outcome(
                    stage,
                    callback,
                    mid,
                    result,
                );
            assert(first.outcome(input, PipelineResult::Success(mid)));
        }
    }
}

/// The first step runs first. A run of a chain is a run of its first step,
/// followed, if that step succeeded and its callback let it continue, by a
/// run of the rest on the step's output, and by nothing otherwise.
pub proof fn lemma_head_runs_first<Error, S, F, R, Next>(
    chain: PipelineStage<S, F, Next>,
    input: S::Input,
    result: PipelineResult<Next::End, Error>,
) where
    S: Stage<Error>,
    F: FnOnce(&S::Output) -> R,
    R: Into<Continue>,
    Next: Pipeline<Error, Start = S::Output>,

    ensures
        chain.outcome(input, result) <==> {
            ||| step_stops(chain.stage(), chain.callback(), input, result)
            ||| exists|mid: S::Output| #[trigger]
                step_outcome(chain.stage(), chain.callback(), input, PipelineResult::Success(mid))
                    && chain.next().outcome(mid, result)
        },
{
}

/// Stages run in the order in which they were added. A pipeline started with
/// `a` and extended by `b` and then by `c` runs the step of `a` on the input,
/// the step of `b` on what `a` produced, and the step of `c` on what `b`
/// produced; it stops at the first step that fails or is cancelled.
pub proof fn lemma_three_stages_in_order<Error, A, FA, RA, B, FB, RB, C, FC, RC>(
    start: PipelineEnd<A, FA>,
    b: B,
    inspect_b: FB,
    c: C,
    inspect_c: FC,
    input: A::Input,
    result: PipelineResult<C::Output, Error>,
) where
    A: Stage<Error>,
    FA: FnOnce(&A::Output) -> RA,
    RA: Into<Continue>,
    B: Stage<Error, Input = A::Output>,
    FB: FnOnce(&B::Output) -> RB,
    RB: Into<Continue>,
    C: Stage<Error, Input = B::Output>,
    FC: FnOnce(&C::Output) -> RC,
    RC: Into<Continue>,

    ensures
        start.extended(b, inspect_b).extended(c, inspect_c).outcome(input, result) <==> {
            ||| step_stops(start.stage(), start.callback(), input, result)
            ||| exists|from_a: A::Output| #[trigger]
                step_outcome(
                    start.stage(),
                    start.callback(),
                    input,
                    PipelineResult::Success(from_a),
                ) && {
                    ||| step_stops(b, inspect_b, from_a, result)
                    ||| exists|from_b: B::Output| #[trigger]
                        step_outcome(b, inspect_b, from_a, PipelineResult::Success(from_b))
                            && step_outcome(c, inspect_c, from_b, result)
                }
        },
{
    let two = start.extended(b, inspect_b);
    start.lemma_extended_shape::<Error, B, FB, RA, RB>(b, inspect_b);
    two.lemma_extended_shape::<Error, C, FC, RA, RC>(c, inspect_c);
    two.next().lemma_extended_shape::<Error, C, FC, RB, RC>(c, inspect_c);
}

} // verus!
