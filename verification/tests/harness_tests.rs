//! Tests for the harness: event ordering, panic conversion, exit codes.

use keter_test::events::TestEvent;
use keter_test::events::TestResult;
use keter_test::events::TestStatus;
use keter_test::harness::BodyOutcome;
use keter_test::harness::TestHarness;
use keter_test::reporter::ConsoleReporter;
use keter_test::reporter::relay_events;

fn result_event(name: &str, status: TestStatus, failure: &str) -> TestEvent {
    TestEvent::Result(TestResult {
        name: name.to_string(),
        status,
        failure: failure.to_string(),
    })
}

#[test]
fn suite_scenario_event_order_and_exit_code() {
    // Two tests named "a" (passes) and "b" (panics with "boom") inside a
    // group "suite" of count 2.
    let mut harness = TestHarness::new();
    harness.begin_group("suite".to_string(), 2);
    harness.test("a".to_string(), BodyOutcome::Completed);
    harness.test(
        "b".to_string(),
        BodyOutcome::PanickedMessage("boom".to_string()),
    );
    harness.end_group();
    let events = harness.finish();

    let expected = vec![
        TestEvent::BeginGroup {
            name: "suite".to_string(),
            count: 2,
        },
        result_event("a", TestStatus::Success, ""),
        result_event("b", TestStatus::Failed, "boom"),
        TestEvent::EndGroup("suite".to_string()),
        TestEvent::End { count: 2 },
    ];
    assert_eq!(events, expected);

    // The final process exit code is 1, and the console renders the exact
    // lines, indented by nesting depth.
    let mut reporter = ConsoleReporter::new();
    let lines = relay_events(&mut reporter, &events);
    assert_eq!(
        lines,
        vec![
            "running test group 'suite' with 2 tests...".to_string(),
            "  test a... ok".to_string(),
            "  test b... FAILED".to_string(),
            String::new(),
            "test result: FAILED".to_string(),
        ]
    );
    assert_eq!(reporter.finish(), 1);
}

#[test]
fn passing_console_lines_end_with_ok() {
    let events = vec![
        TestEvent::BeginGroup {
            name: "g".to_string(),
            count: 12,
        },
        result_event("t", TestStatus::Ignored, ""),
        TestEvent::EndGroup("g".to_string()),
        TestEvent::End { count: 1 },
    ];
    let mut reporter = ConsoleReporter::new();
    let lines = relay_events(&mut reporter, &events);
    assert_eq!(
        lines,
        vec![
            "running test group 'g' with 12 tests...".to_string(),
            "  test t... ignored".to_string(),
            String::new(),
            "test result: ok".to_string(),
        ]
    );
    assert_eq!(reporter.finish(), 0);
}

#[test]
fn passing_run_exits_zero() {
    let mut harness = TestHarness::new();
    harness.test("only".to_string(), BodyOutcome::Completed);
    let events = harness.finish();
    assert_eq!(
        events,
        vec![
            result_event("only", TestStatus::Success, ""),
            TestEvent::End { count: 1 },
        ]
    );
    let mut reporter = ConsoleReporter::new();
    relay_events(&mut reporter, &events);
    assert_eq!(reporter.finish(), 0);
}

#[test]
fn string_panic_becomes_failed_result_with_that_text() {
    let mut harness = TestHarness::new();
    harness.test(
        "t".to_string(),
        BodyOutcome::PanickedMessage("it broke".to_string()),
    );
    let events = harness.finish();
    assert_eq!(events[0], result_event("t", TestStatus::Failed, "it broke"));
}

#[test]
fn opaque_panic_becomes_failed_result_with_placeholder() {
    let mut harness = TestHarness::new();
    harness.test("t".to_string(), BodyOutcome::PanickedOpaque);
    let events = harness.finish();
    assert_eq!(
        events[0],
        result_event("t", TestStatus::Failed, "<unintelligible panic>")
    );
}

#[test]
fn normal_completion_becomes_success_with_empty_text() {
    let mut harness = TestHarness::new();
    harness.test("t".to_string(), BodyOutcome::Completed);
    let events = harness.finish();
    assert_eq!(events[0], result_event("t", TestStatus::Success, ""));
}

#[test]
fn end_group_without_open_group_is_a_no_op() {
    let mut harness = TestHarness::new();
    assert_eq!(harness.end_group(), None);
    let events = harness.finish();
    assert_eq!(events, vec![TestEvent::End { count: 0 }]);
}

#[test]
fn finish_closes_still_open_groups_innermost_first() {
    let mut harness = TestHarness::new();
    harness.begin_group("outer".to_string(), 1);
    harness.begin_group("inner".to_string(), 1);
    harness.test("t".to_string(), BodyOutcome::Completed);
    let events = harness.finish();
    assert_eq!(
        events,
        vec![
            TestEvent::BeginGroup {
                name: "outer".to_string(),
                count: 1,
            },
            TestEvent::BeginGroup {
                name: "inner".to_string(),
                count: 1,
            },
            result_event("t", TestStatus::Success, ""),
            TestEvent::EndGroup("inner".to_string()),
            TestEvent::EndGroup("outer".to_string()),
            TestEvent::End { count: 1 },
        ]
    );
}

#[test]
fn nested_groups_close_in_order() {
    let mut harness = TestHarness::new();
    harness.begin_group("a".to_string(), 1);
    harness.begin_group("b".to_string(), 1);
    assert_eq!(harness.end_group(), Some("b".to_string()));
    assert_eq!(harness.end_group(), Some("a".to_string()));
    assert_eq!(harness.end_group(), None);
    let events = harness.finish();
    assert_eq!(events.last(), Some(&TestEvent::End { count: 0 }));
    assert_eq!(events.len(), 5);
}

#[test]
fn end_count_equals_number_of_test_invocations() {
    let mut harness = TestHarness::new();
    for i in 0..7 {
        harness.test(format!("t{i}"), BodyOutcome::Completed);
    }
    let events = harness.finish();
    assert_eq!(events.last(), Some(&TestEvent::End { count: 7 }));
}

#[test]
fn ignored_result_does_not_fail_the_run() {
    let events = vec![
        TestEvent::Result(TestResult {
            name: "skipped".to_string(),
            status: TestStatus::Ignored,
            failure: String::new(),
        }),
        TestEvent::End { count: 1 },
    ];
    let mut reporter = ConsoleReporter::new();
    relay_events(&mut reporter, &events);
    assert_eq!(reporter.finish(), 0);
}
