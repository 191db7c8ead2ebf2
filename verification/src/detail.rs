//! The two shapes of a chain: its last step, and a step followed by the rest.

use vstd::prelude::*;
use crate::outcome::PipelineResult;
use crate::pipeline::{extension_ready, sequel, Extend, Pipeline};
use crate::signal::Continue;
use crate::stage::{run_step, step_outcome, step_ready, step_stops, Stage};

verus! {

/// The last step of a chain: a stage and its callback.
pub struct PipelineEnd<S, F> {
    stage: S,
    callback: F,
}

/// A step followed by the rest of the chain, which consumes what the step's
/// stage produces.
pub struct PipelineStage<S, F, Next> {
    stage: S,
    callback: F,
    next: Next,
}

impl<S, F> PipelineEnd<S, F> {
    /// The stage of this step.
    pub closed spec fn stage(self) -> S {
        self.stage
    }

    /// The callback that inspects the stage's output.
    pub closed spec fn callback(self) -> F {
        self.callback
    }

    /// A chain of the one step made of `stage` and `callback`.
    pub fn new(stage: S, callback: F) -> (end: Self)
        ensures
            end.stage() == stage,
            end.callback() == callback,
    {
        Self { stage, callback }
    }

    /// Extending a one-step chain keeps its step first and puts the new step
    /// behind it as the last one.
    pub proof fn lemma_extended_shape<Error, S2, F2, R, R2>(self, stage: S2, callback: F2) where
        S: Stage<Error>,
        F: FnOnce(&S::Output) -> R,
        R: Into<Continue>,
        S2: Stage<Error, Input = S::Output>,
        F2: FnOnce(&S2::Output) -> R2,
        R2: Into<Continue>,

        ensures
            Extend::<Error, S2, F2, R2>::extended(self, stage, callback).stage() == self.stage(),
            Extend::<Error, S2, F2, R2>::extended(self, stage, callback).callback()
                == self.callback(),
            Extend::<Error, S2, F2, R2>::extended(self, stage, callback).next().stage() == stage,
            Extend::<Error, S2, F2, R2>::extended(self, stage, callback).next().callback()
                == callback,
    {
    }
}

impl<S, F, Next> PipelineStage<S, F, Next> {
    /// The stage of the first step.
    pub closed spec fn stage(self) -> S {
        self.stage
    }

    /// The callback of the first step.
    pub closed spec fn callback(self) -> F {
        self.callback
    }

    /// The chain behind the first step.
    pub closed spec fn next(self) -> Next {
        self.next
    }

    /// Extending a longer chain keeps its first step and extends the chain
    /// behind it.
    pub proof fn lemma_extended_shape<Error, S2, F2, R, R2>(self, stage: S2, callback: F2) where
        S: Stage<Error>,
        F: FnOnce(&S::Output) -> R,
        R: Into<Continue>,
        Next: Extend<Error, S2, F2, R2, Start = S::Output>,
        S2: Stage<Error, Input = Next::End>,
        F2: FnOnce(&S2::Output) -> R2,
        R2: Into<Continue>,

        ensures
            Extend::<Error, S2, F2, R2>::extended(self, stage, callback).stage() == self.stage(),
            Extend::<Error, S2, F2, R2>::extended(self, stage, callback).callback()
                == self.callback(),
            Extend::<Error, S2, F2, R2>::extended(self, stage, callback).next()
                == self.next().extended(stage, callback),
    {
    }
}

impl<PS, PF, PR, Error> Pipeline<Error> for PipelineEnd<PS, PF> where
    PS: Stage<Error>,
    PF: FnOnce(&PS::Output) -> PR,
    PR: Into<Continue>,
 {
    type Start = PS::Input;

    type End = PS::Output;

    open spec fn ready(self, input: Self::Start) -> bool {
        step_ready(self.stage(), self.callback(), input)
    }

    open spec fn outcome(self, input: Self::Start, result: PipelineResult<Self::End, Error>) -> bool {
        step_outcome(self.stage(), self.callback(), input, result)
    }

    fn run(self, input: Self::Start) -> (result: PipelineResult<Self::End, Error>) {
        run_step(self.stage, self.callback, input)
    }
}

impl<PS, PF, PR, Error, Next> Pipeline<Error> for PipelineStage<PS, PF, Next> where
    PS: Stage<Error>,
    PF: FnOnce(&PS::Output) -> PR,
    PR: Into<Continue>,
    Next: Pipeline<Error, Start = PS::Output>,
 {
    type Start = PS::Input;

    type End = Next::End;

    open spec fn ready(self, input: Self::Start) -> bool {
        &&& step_ready(self.stage(), self.callback(), input)
        &&& forall|mid: PS::Output| #[trigger]
            step_outcome(self.stage(), self.callback(), input, PipelineResult::Success(mid))
                ==> self.next().ready(mid)
    }

    open spec fn outcome(self, input: Self::Start, result: PipelineResult<Self::End, Error>) -> bool {
        ||| step_stops(self.stage(), self.callback(), input, result)
        ||| exists|mid: PS::Output| #[trigger]
            step_outcome(self.stage(), self.callback(), input, PipelineResult::Success(mid))
                && self.next().outcome(mid, result)
    }

    fn run(self, input: Self::Start) -> (result: PipelineResult<Self::End, Error>) {
        match run_step(self.stage, self.callback, input) {
            PipelineResult::Success(mid) => self.next.run(mid),
            PipelineResult::Failure(e) => PipelineResult::Failure(e),
            PipelineResult::Cancelled => PipelineResult::Cancelled,
        }
    }
}

impl<PS, PF, PR, Error, S, F, R> Extend<Error, S, F, R> for PipelineEnd<PS, PF> where
    PS: Stage<Error>,
    PF: FnOnce(&PS::Output) -> PR,
    PR: Into<Continue>,
    S: Stage<Error, Input = PS::Output>,
    F: FnOnce(&S::Output) -> R,
    R: Into<Continue>,
 {
    type Extended = PipelineStage<PS, PF, PipelineEnd<S, F>>;

    closed spec fn extended(self, stage: S, callback: F) -> Self::Extended {
        PipelineStage {
            stage: self.stage,
            callback: self.callback,
            next: PipelineEnd { stage, callback },
        }
    }

    fn and_then(self, stage: S, callback: F) -> (longer: Self::Extended)
        ensures
            forall|input: PS::Input| #[trigger]
                longer.ready(input) <==> extension_ready(self, stage, callback, input),
            forall|input: PS::Input, result: PipelineResult<S::Output, Error>| #[trigger]
                longer.outcome(input, result) <==> sequel(self, stage, callback, input, result),
    {
        proof {
            assert forall|input: Self::Start| #[trigger]
                self.extended(stage, callback).ready(input) <==> extension_ready(
                    self,
                    stage,
                    callback,
                    input,
                ) by {
                self.lemma_extended_ready(stage, callback, input);
            }
            assert forall|input: Self::Start, result: PipelineResult<S::Output, Error>| #[trigger]
                self.extended(stage, callback).outcome(input, result) <==> sequel(
                    self,
                    stage,
                    callback,
                    input,
                    result,
                ) by {
                self.lemma_extended_outcome(stage, callback, input, result);
            }
        }
        PipelineStage {
            stage: self.stage,
            callback: self.callback,
            next: PipelineEnd { stage, callback },
        }
    }

    proof fn lemma_extended_ready(self, stage: S, callback: F, input: Self::Start) {
        let longer = self.extended(stage, callback);
        if self.ready(input) && (forall|mid: PS::Output| #[trigger]
            self.outcome(input, PipelineResult::Success(mid)) ==> step_ready(stage, callback, mid)) {
            assert forall|mid: PS::Output| #[trigger]
                step_outcome(
                    longer.stage(),
                    longer.callback(),
                    input,
                    PipelineResult::Success(mid),
                ) implies longer.next().ready(mid) by {
                assert(self.outcome(input, PipelineResult::Success(mid)));
            }
        }
    }

    proof fn lemma_extended_outcome(
        self,
        stage: S,
        callback: F,
        input: Self::Start,
        result: PipelineResult<S::Output, Error>,
    ) {
        let longer = self.extended(stage, callback);
        if longer.outcome(input, result) && !step_stops(
            self.stage(),
            self.callback(),
            input,
            result,
        ) {
            let mid = choose|mid: PS::Output| #[trigger]
                step_outcome(self.stage(), self.callback(), input, PipelineResult::Success(mid))
                    && longer.next().outcome(mid, result);
            assert(self.outcome(input, PipelineResult::Success(mid)));
        }
    }
}

impl<PS, PF, PR, Error, Next, S, F, R> Extend<Error, S, F, R> for PipelineStage<PS, PF, Next> where
    PS: Stage<Error>,
    PF: FnOnce(&PS::Output) -> PR,
    PR: Into<Continue>,
    Next: Extend<Error, S, F, R, Start = PS::Output>,
    S: Stage<Error, Input = Next::End>,
    F: FnOnce(&S::Output) -> R,
    R: Into<Continue>,
 {
    type Extended = PipelineStage<PS, PF, Next::Extended>;

    closed spec fn extended(self, stage: S, callback: F) -> Self::Extended {
        PipelineStage {
            stage: self.stage,
            callback: self.callback,
            next: self.next.extended(stage, callback),
        }
    }

    fn and_then(self, stage: S, callback: F) -> (longer: Self::Extended)
        ensures
            forall|input: PS::Input| #[trigger]
                longer.ready(input) <==> extension_ready(self, stage, callback, input),
            forall|input: PS::Input, result: PipelineResult<S::Output, Error>| #[trigger]
                longer.outcome(input, result) <==> sequel(self, stage, callback, input, result),
    {
        proof {
            assert forall|input: Self::Start| #[trigger]
                self.extended(stage, callback).ready(input) <==> extension_ready(
                    self,
                    stage,
                    callback,
                    input,
                ) by {
                self.lemma_extended_ready(stage, callback, input);
            }
            assert forall|input: Self::Start, result: PipelineResult<S::Output, Error>| #[trigger]
                self.extended(stage, callback).outcome(input, result) <==> sequel(
                    self,
                    stage,
                    callback,
                    input,
                    result,
                ) by {
                self.lemma_extended_outcome(stage, callback, input, result);
            }
        }
        PipelineStage {
            stage: self.stage,
            callback: self.callback,
            next: self.next.and_then(stage, callback),
        }
    }

    proof fn lemma_extended_ready(self, stage: S, callback: F, input: Self::Start) {
        let longer = self.extended(stage, callback);
        let first = self.stage();
        let inspect = self.callback();
        if longer.ready(input) {
            assert forall|mid: PS::Output| #[trigger]
                step_outcome(first, inspect, input, PipelineResult::Success(mid)) implies self.next().ready(
                mid,
            ) by {
                self.next().lemma_extended_ready(stage, callback, mid);
            }
            assert forall|last: Next::End| #[trigger]
                self.outcome(input, PipelineResult::Success(last)) implies step_ready(
                stage,
                callback,
                last,
            ) by {
                let mid = choose|mid: PS::Output| #[trigger]
                    step_outcome(first, inspect, input, PipelineResult::Success(mid))
                        && self.next().outcome(mid, PipelineResult::Success(last));
                self.next().lemma_extended_ready(stage, callback, mid);
            }
        }
        if self.ready(input) && (forall|last: Next::End| #[trigger]
            self.outcome(input, PipelineResult::Success(last)) ==> step_ready(
                stage,
                callback,
                last,
            )) {
            assert forall|mid: PS::Output| #[trigger]
                step_outcome(first, inspect, input, PipelineResult::Success(mid)) implies longer.next().ready(
                mid,
            ) by {
                assert forall|last: Next::End| #[trigger]
                    self.next().outcome(mid, PipelineResult::Success(last)) implies step_ready(
                    stage,
                    callback,
                    last,
                ) by {
                    assert(self.outcome(input, PipelineResult::Success(last)));
                }
                self.next().lemma_extended_ready(stage, callback, mid);
            }
        }
    }

    proof fn lemma_extended_outcome(
        self,
        stage: S,
        callback: F,
        input: Self::Start,
        result: PipelineResult<S::Output, Error>,
    ) {
        let longer = self.extended(stage, callback);
        let first = self.stage();
        let inspect = self.callback();
        if longer.outcome(input, result) && !step_stops(first, inspect, input, result) {
            let mid = choose|mid: PS::Output| #[trigger]
                step_outcome(first, inspect, input, PipelineResult::Success(mid))
                    && longer.next().outcome(mid, result);
            self.next().lemma_extended_outcome(stage, callback, mid, result);
            if exists|last: Next::End| #[trigger]
                self.next().outcome(mid, PipelineResult::Success(last)) && step_outcome(
                    stage,
                    callback,
                    last,
                    result,
                ) {
                let last = choose|last: Next::End| #[trigger]
                    self.next().outcome(mid, PipelineResult::Success(last)) && step_outcome(
                        stage,
                        callback,
                        last,
                        result,
                    );
                assert(self.outcome(input, PipelineResult::Success(last)));
            }
        }
        if sequel(self, stage, callback, input, result) && !step_stops(
            first,
            inspect,
            input,
            result,
        ) {
            if exists|last: Next::End| #[trigger]
                self.outcome(input, PipelineResult::Success(last)) && step_outcome(
                    stage,
                    callback,
                    last,
                    result,
                ) {
                let last = choose|last: Next::End| #[trigger]
                    self.outcome(input, PipelineResult::Success(last)) && step_outcome(
                        stage,
                        callback,
                        last,
                        result,
                    );
                let mid = choose|mid: PS::Output| #[trigger]
                    step_outcome(first, inspect, input, PipelineResult::Success(mid))
                        && self.next().outcome(mid, PipelineResult::Success(last));
                self.next().lemma_extended_outcome(stage, callback, mid, result);
            } else {
                match result {
                    PipelineResult::Failure(e) => {
                        let mid = choose|mid: PS::Output| #[trigger]
                            step_outcome(first, inspect, input, PipelineResult::Success(mid))
                                && self.next().outcome(mid, PipelineResult::Failure(e));
                        self.next().lemma_extended_outcome(stage, callback, mid, result);
                    },
                    PipelineResult::Cancelled => {
                        let mid = choose|mid: PS::Output| #[trigger]
                            step_outcome(first, inspect, input, PipelineResult::Success(mid))
                                && self.next().outcome(mid, PipelineResult::Cancelled);
                        self.next().lemma_extended_outcome(stage, callback, mid, result);
                    },
                    PipelineResult::Success(_) => {},
                }
            }
        }
    }
}

} // verus!
