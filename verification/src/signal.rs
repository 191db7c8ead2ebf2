//! The decision an inspection callback hands back.

use vstd::prelude::*;

verus! {

/// Whether a pipeline goes on after an inspection callback has seen a stage's
/// output.
#[derive(Debug)]
pub enum Continue {
    /// Go on: the output is handed to the next stage, or returned if there is
    /// none.
    Continue,
    /// Stop: the run ends as cancelled and the output is dropped.
    Cancel,
}

impl From<()> for Continue {
    /// A callback with no opinion lets the pipeline go on.
    fn from(_unit: ()) -> (signal: Continue)
        ensures
            signal == Continue::Continue,
    {
        Continue::Continue
    }
}

impl vstd::std_specs::convert::FromSpecImpl<()> for Continue {
    open spec fn obeys_from_spec() -> bool {
        true
    }

    open spec fn from_spec(_unit: ()) -> Continue {
        Continue::Continue
    }
}

/// `From<T> for T` of the standard library, which its documentation calls
/// reflexive: converting a value into its own type hands the value back.
/// Trusted; it is what fixes the signal of a callback that returns a
/// `Continue` directly.
pub assume_specification<X>[ <X as std::convert::From<X>>::from ](x: X) -> (same: X)
    ensures
        same == x,
;

/// `signal` is a decision that the callback's return value `answer` may
/// convert to.
pub open spec fn converts_to<R: Into<Continue>>(answer: R, signal: Continue) -> bool {
    call_ensures(<R as Into<Continue>>::into, (answer,), signal)
}

/// `signal` is a decision that `callback` may take on seeing `output`.
pub open spec fn decides<T, F, R>(callback: F, output: T, signal: Continue) -> bool where
    F: FnOnce(&T) -> R,
    R: Into<Continue>,
 {
    exists|answer: R| #[trigger]
        call_ensures(callback, (&output,), answer) && converts_to(answer, signal)
}

/// Reads the decision out of a callback's return value.
pub fn signal_of<R: Into<Continue>>(answer: R) -> (signal: Continue)
    ensures
        converts_to(answer, signal),
{
    let convert = <R as Into<Continue>>::into;
    convert(answer)
}

/// A callback that returns nothing always lets the pipeline go on.
pub proof fn lemma_unit_continues(signal: Continue)
    requires
        converts_to((), signal),
    ensures
        signal == Continue::Continue,
{
}

/// A callback that returns a `Continue` decides exactly that.
pub proof fn lemma_signal_is_itself(answer: Continue, signal: Continue)
    requires
        converts_to(answer, signal),
    ensures
        signal == answer,
{
}

} // verus!
