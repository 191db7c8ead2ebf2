use staged_pipeline::{pipeline, Continue, Extend, Pipeline, PipelineResult, Stage};
use std::cell::RefCell;
use std::rc::Rc;

/// What happened during a run, in order.
type Log = Rc<RefCell<Vec<String>>>;

fn new_log() -> Log {
    Rc::new(RefCell::new(Vec::new()))
}

fn entries(log: &Log) -> Vec<String> {
    log.borrow().clone()
}

/// An error with a payload, to see that it is handed through unchanged.
#[derive(Debug, PartialEq)]
struct Broken {
    at: &'static str,
    code: u32,
}

/// Adds `add` to its input and records that it ran; fails with `code` if
/// `fail` is set.
#[derive(Clone)]
struct Step {
    name: &'static str,
    add: u64,
    fail: Option<u32>,
    log: Log,
}

impl Step {
    fn ok(name: &'static str, add: u64, log: &Log) -> Step {
        Step { name, add, fail: None, log: log.clone() }
    }

    fn failing(name: &'static str, code: u32, log: &Log) -> Step {
        Step { name, add: 0, fail: Some(code), log: log.clone() }
    }
}

impl Stage<Broken> for Step {
    type Input = u64;
    type Output = u64;

    fn run(self, input: u64) -> Result<u64, Broken> {
        self.log.borrow_mut().push(format!("{}({})", self.name, input));
        match self.fail {
            Some(code) => Err(Broken { at: self.name, code }),
            None => Ok(input + self.add),
        }
    }
}

/// Turns a number into text; a stage whose output type differs from its input.
struct Show;

impl Stage<Broken> for Show {
    type Input = u64;
    type Output = String;

    fn run(self, input: u64) -> Result<String, Broken> {
        Ok(input.to_string())
    }
}

/// Measures a text.
struct Measure;

impl Stage<Broken> for Measure {
    type Input = String;
    type Output = usize;

    fn run(self, input: String) -> Result<usize, Broken> {
        Ok(input.len())
    }
}

fn watch(name: &'static str, log: &Log, signal: Continue) -> impl FnOnce(&u64) -> Continue {
    let log = log.clone();
    move |v: &u64| {
        log.borrow_mut().push(format!("{}?{}", name, v));
        signal
    }
}

#[test]
fn one_stage_success_carries_the_output() {
    let log = new_log();
    let ended = pipeline(Step::ok("a", 5, &log), |_| {}).run(37);
    assert!(matches!(ended, PipelineResult::Success(42)));
    assert_eq!(entries(&log), vec!["a(37)"]);
}

#[test]
fn three_stages_run_in_the_order_added() {
    let log = new_log();
    let ended = pipeline(Step::ok("a", 1, &log), watch("a", &log, Continue::Continue))
        .and_then(Step::ok("b", 10, &log), watch("b", &log, Continue::Continue))
        .and_then(Step::ok("c", 100, &log), watch("c", &log, Continue::Continue))
        .run(0);
    assert!(matches!(ended, PipelineResult::Success(111)));
    assert_eq!(entries(&log), vec!["a(0)", "a?1", "b(1)", "b?11", "c(11)", "c?111"]);
}

#[test]
fn four_stages_thread_each_output_to_the_next() {
    let log = new_log();
    let ended = pipeline(Step::ok("a", 1, &log), |_| {})
        .and_then(Step::ok("b", 2, &log), |_| {})
        .and_then(Step::ok("c", 3, &log), |_| {})
        .and_then(Step::ok("d", 4, &log), |_| {})
        .run(1000);
    assert!(matches!(ended, PipelineResult::Success(1010)));
    assert_eq!(entries(&log), vec!["a(1000)", "b(1001)", "c(1003)", "d(1006)"]);
}

#[test]
fn failure_at_first_stage_skips_everything_behind() {
    let log = new_log();
    let ended = pipeline(Step::failing("a", 7, &log), watch("a", &log, Continue::Continue))
        .and_then(Step::ok("b", 10, &log), watch("b", &log, Continue::Continue))
        .and_then(Step::ok("c", 100, &log), watch("c", &log, Continue::Continue))
        .run(0);
    match ended {
        PipelineResult::Failure(e) => assert_eq!(e, Broken { at: "a", code: 7 }),
        other => panic!("unexpected ending: {:?}", other),
    }
    assert_eq!(entries(&log), vec!["a(0)"]);
}

#[test]
fn failure_at_second_stage_skips_the_third() {
    let log = new_log();
    let ended = pipeline(Step::ok("a", 1, &log), watch("a", &log, Continue::Continue))
        .and_then(Step::failing("b", 8, &log), watch("b", &log, Continue::Continue))
        .and_then(Step::ok("c", 100, &log), watch("c", &log, Continue::Continue))
        .run(0);
    match ended {
        PipelineResult::Failure(e) => assert_eq!(e, Broken { at: "b", code: 8 }),
        other => panic!("unexpected ending: {:?}", other),
    }
    assert_eq!(entries(&log), vec!["a(0)", "a?1", "b(1)"]);
}

#[test]
fn failure_at_last_stage_comes_back() {
    let log = new_log();
    let ended = pipeline(Step::ok("a", 1, &log), watch("a", &log, Continue::Continue))
        .and_then(Step::ok("b", 10, &log), watch("b", &log, Continue::Continue))
        .and_then(Step::failing("c", 9, &log), watch("c", &log, Continue::Continue))
        .run(0);
    match ended {
        PipelineResult::Failure(e) => assert_eq!(e, Broken { at: "c", code: 9 }),
        other => panic!("unexpected ending: {:?}", other),
    }
    assert_eq!(entries(&log), vec!["a(0)", "a?1", "b(1)", "b?11", "c(11)"]);
}

#[test]
fn failure_of_a_single_stage_skips_its_callback() {
    let log = new_log();
    let ended = pipeline(Step::failing("a", 3, &log), watch("a", &log, Continue::Cancel)).run(4);
    match ended {
        PipelineResult::Failure(e) => assert_eq!(e, Broken { at: "a", code: 3 }),
        other => panic!("unexpected ending: {:?}", other),
    }
    assert_eq!(entries(&log), vec!["a(4)"]);
}

#[test]
fn cancel_at_first_callback_skips_everything_behind() {
    let log = new_log();
    let ended = pipeline(Step::ok("a", 1, &log), watch("a", &log, Continue::Cancel))
        .and_then(Step::ok("b", 10, &log), watch("b", &log, Continue::Continue))
        .and_then(Step::ok("c", 100, &log), watch("c", &log, Continue::Continue))
        .run(0);
    assert!(matches!(ended, PipelineResult::Cancelled));
    assert_eq!(entries(&log), vec!["a(0)", "a?1"]);
}

#[test]
fn cancel_at_second_callback_skips_the_third_stage() {
    let log = new_log();
    let ended = pipeline(Step::ok("a", 1, &log), watch("a", &log, Continue::Continue))
        .and_then(Step::ok("b", 10, &log), watch("b", &log, Continue::Cancel))
        .and_then(Step::ok("c", 100, &log), watch("c", &log, Continue::Continue))
        .run(0);
    assert!(matches!(ended, PipelineResult::Cancelled));
    assert_eq!(entries(&log), vec!["a(0)", "a?1", "b(1)", "b?11"]);
}

#[test]
fn cancel_at_last_callback_gives_no_value() {
    let log = new_log();
    let ended = pipeline(Step::ok("a", 1, &log), watch("a", &log, Continue::Continue))
        .and_then(Step::ok("b", 10, &log), watch("b", &log, Continue::Cancel))
        .run(0);
    assert!(matches!(ended, PipelineResult::Cancelled));
    assert_eq!(entries(&log), vec!["a(0)", "a?1", "b(1)", "b?11"]);
}

#[test]
fn cancel_is_not_a_failure() {
    let log = new_log();
    let ended = pipeline(Step::ok("a", 1, &log), watch("a", &log, Continue::Cancel)).run(0);
    assert!(!matches!(ended, PipelineResult::Failure(_)));
    assert!(!matches!(ended, PipelineResult::Success(_)));
}

#[test]
fn extension_leaves_an_equal_chain_as_it_was() {
    let log = new_log();
    let first = Step::ok("a", 1, &log);
    let short = pipeline(first.clone(), |_| {});
    let long = pipeline(first, |_| {}).and_then(Step::ok("b", 10, &log), |_| {});
    assert!(matches!(long.run(0), PipelineResult::Success(11)));
    assert!(matches!(short.run(0), PipelineResult::Success(1)));
    assert_eq!(entries(&log), vec!["a(0)", "b(1)", "a(0)"]);
}

#[test]
fn extension_changes_the_end_type_only() {
    let log = new_log();
    let numbers = pipeline(Step::ok("a", 41, &log), |_| {});
    let texts = numbers.and_then(Show, |_| {});
    let lengths = texts.and_then(Measure, |_| {});
    assert!(matches!(lengths.run(1), PipelineResult::Success(2)));
}

#[test]
fn stage_types_may_differ_along_the_chain() {
    let log = new_log();
    let ended = pipeline(Step::ok("a", 2, &log), |_| {})
        .and_then(Show, |text: &String| assert_eq!(text, "12"))
        .run(10);
    match ended {
        PipelineResult::Success(text) => assert_eq!(text, "12"),
        other => panic!("unexpected ending: {:?}", other),
    }
}

#[test]
fn failure_before_a_type_change_keeps_the_error() {
    let log = new_log();
    let ended = pipeline(Step::failing("a", 21, &log), |_| {})
        .and_then(Show, |_| {})
        .and_then(Measure, |_| {})
        .run(10);
    match ended {
        PipelineResult::Failure(e) => assert_eq!(e, Broken { at: "a", code: 21 }),
        other => panic!("unexpected ending: {:?}", other),
    }
}
