//! The vocabulary of test lifecycle events.
//!
//! A harness run produces a stream of [`TestEvent`] values: groups open and
//! close, each executed test contributes exactly one [`TestResult`], and the
//! stream is terminated by a single `End` event carrying the total number of
//! tests. Contracts throughout the crate speak about events through their
//! mathematical models ([`EventModel`], [`ResultModel`]).

use vstd::prelude::*;

verus! {

/// The status of one executed test.
#[derive(Clone, Copy, Debug, PartialEq, Eq, Structural)]
pub enum TestStatus {
    /// The test succeeded.
    Success,
    /// The test failed.
    Failed,
    /// The test was ignored.
    Ignored,
}

/// The outcome of one test.
#[derive(Clone, Debug, PartialEq)]
pub struct TestResult {
    /// The name of the test.
    pub name: String,
    /// The status of the test.
    pub status: TestStatus,
    /// Description of the test failure; empty for a successful test.
    pub failure: String,
}

/// One event of the test lifecycle stream.
#[derive(Clone, Debug, PartialEq)]
pub enum TestEvent {
    /// There are no more tests; carries the total number of tests run.
    End { count: usize },
    /// Begin a test group with the given name and expected test count.
    BeginGroup { name: String, count: usize },
    /// End the innermost open test group of the given name.
    EndGroup(String),
    /// The result of a single test.
    Result(TestResult),
}

/// Mathematical model of a [`TestResult`].
pub struct ResultModel {
    pub name: Seq<char>,
    pub status: TestStatus,
    pub failure: Seq<char>,
}

/// Mathematical model of a [`TestEvent`].
pub enum EventModel {
    End { count: int },
    BeginGroup { name: Seq<char>, count: int },
    EndGroup { name: Seq<char> },
    Result { result: ResultModel },
}

impl View for TestResult {
    type V = ResultModel;

    open spec fn view(&self) -> ResultModel {
        ResultModel { name: self.name@, status: self.status, failure: self.failure@ }
    }
}

impl View for TestEvent {
    type V = EventModel;

    open spec fn view(&self) -> EventModel {
        match self {
            TestEvent::End { count } => EventModel::End { count: *count as int },
            TestEvent::BeginGroup { name, count } => EventModel::BeginGroup {
                name: name@,
                count: *count as int,
            },
            TestEvent::EndGroup(name) => EventModel::EndGroup { name: name@ },
            TestEvent::Result(result) => EventModel::Result { result: result@ },
        }
    }
}

} // verus!
