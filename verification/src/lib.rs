//! Linear pipelines of fallible stages.
//!
//! A pipeline is a chain of stages. Each stage consumes one value and yields
//! the next one or an error; after every stage an inspection callback looks at
//! the value and decides whether the run goes on. The run ends in one of three
//! ways: success with the last stage's output, failure with the error of the
//! stage that failed, or cancellation.
//!
//! Stages and callbacks may be nondeterministic, so contracts are stated as
//! relations: which results a run may end in. For stages and callbacks that
//! are functions of their input, the relations pin the result exactly.
//!
//! A note for verified callers. Verus learns what a callback returns from
//! `call_ensures`, and it resolves the result type of a callback only where
//! the callback's type is a generic parameter. A function that wants to prove
//! something of a run therefore takes its callbacks as parameters
//! `F: FnOnce(&T) -> R` and states what it needs of them in its `requires`;
//! its own caller may then pass closures.

pub mod detail;
pub mod laws;
pub mod outcome;
pub mod pipeline;
pub mod signal;
pub mod stage;

pub use crate::outcome::PipelineResult;
pub use crate::pipeline::{pipeline, Extend, Pipeline};
pub use crate::signal::Continue;
pub use crate::stage::Stage;
