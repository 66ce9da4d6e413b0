//! The in-process test harness.
//!
//! The harness records the event stream of one test run: groups are opened
//! and closed, each executed test body contributes exactly one result event,
//! and finishing the run appends the terminal `End` event. The harness
//! guarantees, for every sequence of calls, that the finished stream is
//! well-nested and ends with exactly one `End` event whose count equals the
//! number of executed tests.
//!
//! Test bodies themselves run outside the harness (panic isolation cannot be
//! expressed here); the caller hands the harness the [`BodyOutcome`] of each
//! body, and the harness turns it into a result event.

use vstd::prelude::*;

use crate::events::EventModel;
use crate::events::ResultModel;
use crate::events::TestEvent;
use crate::events::TestResult;
use crate::events::TestStatus;

verus! {

/// How one test body terminated.
#[derive(Clone, Debug)]
pub enum BodyOutcome {
    /// The body returned normally.
    Completed,
    /// The body panicked with a textual payload.
    PanickedMessage(String),
    /// The body panicked with a payload that is not text.
    PanickedOpaque,
}

/// The models of a sequence of events.
pub open spec fn models(s: Seq<TestEvent>) -> Seq<EventModel> {
    s.map_values(|e: TestEvent| e@)
}

/// The views of a sequence of group names.
pub open spec fn names(s: Seq<String>) -> Seq<Seq<char>> {
    s.map_values(|n: String| n@)
}

/// The number of result events in a stream.
pub open spec fn num_results(t: Seq<EventModel>) -> int
    decreases t.len(),
{
    if t.len() == 0 {
        0
    } else {
        num_results(t.drop_last()) + if t.last() is Result {
            1int
        } else {
            0int
        }
    }
}

/// The stack of group names still open after the stream `t`, or `None` if
/// `t` is not a well-nested prefix: an `EndGroup` must close the innermost
/// open group of the same name, and no `End` event may occur inside.
pub open spec fn open_groups_after(t: Seq<EventModel>) -> Option<Seq<Seq<char>>>
    decreases t.len(),
{
    if t.len() == 0 {
        Some(Seq::empty())
    } else {
        match open_groups_after(t.drop_last()) {
            Option::None => Option::None,
            Option::Some(stack) => match t.last() {
                EventModel::BeginGroup { name, count: _ } => Some(stack.push(name)),
                EventModel::EndGroup { name } => if stack.len() > 0 && stack.last() == name {
                    Some(stack.drop_last())
                } else {
                    Option::None
                },
                EventModel::Result { .. } => Some(stack),
                EventModel::End { .. } => Option::None,
            },
        }
    }
}

/// A complete, well-nested run: every `BeginGroup` is closed by an
/// `EndGroup` of the same name at the same depth before any ancestor group
/// closes, exactly one `End` event occurs, it comes last, and its count
/// equals the number of result events.
pub open spec fn well_nested_run(t: Seq<EventModel>) -> bool {
    &&& t.len() > 0
    &&& t.last() matches EventModel::End { count } && count == num_results(t.drop_last())
    &&& open_groups_after(t.drop_last()) == Some(Seq::<Seq<char>>::empty())
    &&& forall|i: int| 0 <= i < t.len() - 1 ==> !(#[trigger] t[i] is End)
}

/// The status a body outcome maps to.
pub open spec fn outcome_status(o: BodyOutcome) -> TestStatus {
    match o {
        BodyOutcome::Completed => TestStatus::Success,
        BodyOutcome::PanickedMessage(_) => TestStatus::Failed,
        BodyOutcome::PanickedOpaque => TestStatus::Failed,
    }
}

/// The failure text a body outcome maps to: the panic message when it was
/// textual, a fixed placeholder when it was not, empty on success.
pub open spec fn outcome_failure(o: BodyOutcome) -> Seq<char> {
    match o {
        BodyOutcome::Completed => Seq::empty(),
        BodyOutcome::PanickedMessage(m) => m@,
        BodyOutcome::PanickedOpaque => "<unintelligible panic>"@,
    }
}

/// The result event recorded for one test.
pub open spec fn result_event(name: Seq<char>, o: BodyOutcome) -> EventModel {
    EventModel::Result {
        result: ResultModel { name, status: outcome_status(o), failure: outcome_failure(o) },
    }
}

/// The `EndGroup` events that close the open-group stack `stack`, innermost
/// first.
pub open spec fn closing_events(stack: Seq<Seq<char>>) -> Seq<EventModel>
    decreases stack.len(),
{
    if stack.len() == 0 {
        Seq::empty()
    } else {
        seq![EventModel::EndGroup { name: stack.last() }] + closing_events(stack.drop_last())
    }
}

proof fn lemma_models_push(s: Seq<TestEvent>, e: TestEvent)
    ensures
        models(s.push(e)) == models(s).push(e@),
{
    assert(models(s.push(e)) =~= models(s).push(e@));
}

proof fn lemma_names_push(s: Seq<String>, n: String)
    ensures
        names(s.push(n)) == names(s).push(n@),
{
    assert(names(s.push(n)) =~= names(s).push(n@));
}

/// Appending one event steps the open-group stack as `open_groups_after`
/// prescribes for that event.
proof fn lemma_open_groups_push(t: Seq<EventModel>, e: EventModel)
    ensures
        open_groups_after(t.push(e)) == (match open_groups_after(t) {
            Option::None => Option::None::<Seq<Seq<char>>>,
            Option::Some(stack) => match e {
                EventModel::BeginGroup { name, count: _ } => Some(stack.push(name)),
                EventModel::EndGroup { name } => if stack.len() > 0 && stack.last() == name {
                    Some(stack.drop_last())
                } else {
                    Option::None
                },
                EventModel::Result { .. } => Some(stack),
                EventModel::End { .. } => Option::None,
            },
        }),
        num_results(t.push(e)) == num_results(t) + if e is Result {
            1int
        } else {
            0int
        },
{
    assert(t.push(e).drop_last() =~= t);
    assert(t.push(e).last() == e);
}

/// A well-nested prefix holds no `End` event.
proof fn lemma_open_groups_no_end(t: Seq<EventModel>)
    requires
        open_groups_after(t) is Some,
    ensures
        forall|i: int| 0 <= i < t.len() ==> !(#[trigger] t[i] is End),
    decreases t.len(),
{
    if t.len() > 0 {
        lemma_open_groups_no_end(t.drop_last());
        assert(forall|i: int| 0 <= i < t.len() - 1 ==> t[i] == t.drop_last()[i]);
    }
}

/// Closing every open group, innermost first, empties the stack and adds no
/// result events.
proof fn lemma_closing_events(t: Seq<EventModel>, stack: Seq<Seq<char>>)
    requires
        open_groups_after(t) == Some(stack),
    ensures
        open_groups_after(t + closing_events(stack)) == Some(Seq::<Seq<char>>::empty()),
        num_results(t + closing_events(stack)) == num_results(t),
    decreases stack.len(),
{
    if stack.len() == 0 {
        assert(t + closing_events(stack) =~= t);
    } else {
        let e = EventModel::EndGroup { name: stack.last() };
        lemma_open_groups_push(t, e);
        assert(t + closing_events(stack) =~= t.push(e) + closing_events(stack.drop_last()));
        lemma_closing_events(t.push(e), stack.drop_last());
    }
}

/// The in-process test harness: records the event stream of one run.
pub struct TestHarness {
    events: Vec<TestEvent>,
    open: Vec<String>,
    count: usize,
}

impl TestHarness {
    /// The event stream recorded so far.
    pub closed spec fn trace(self) -> Seq<EventModel> {
        models(self.events@)
    }

    /// The names of the groups currently open, outermost first.
    pub closed spec fn open_names(self) -> Seq<Seq<char>> {
        names(self.open@)
    }

    /// The number of tests executed so far.
    pub closed spec fn tests_run(self) -> int {
        self.count as int
    }

    /// The harness invariant: the recorded events form a well-nested prefix
    /// whose open groups are exactly the open stack, and the test counter
    /// equals the number of recorded result events.
    pub open spec fn wf(self) -> bool {
        &&& open_groups_after(self.trace()) == Some(self.open_names())
        &&& num_results(self.trace()) == self.tests_run()
    }

    /// Create a harness with an empty trace.
    pub fn new() -> (r: TestHarness)
        ensures
            r.wf(),
            r.trace() == Seq::<EventModel>::empty(),
            r.open_names() == Seq::<Seq<char>>::empty(),
            r.tests_run() == 0,
    {
        let r = TestHarness { events: Vec::new(), open: Vec::new(), count: 0 };
        proof {
            assert(r.trace() =~= Seq::<EventModel>::empty());
            assert(r.open_names() =~= Seq::<Seq<char>>::empty());
        }
        r
    }

    /// Open a test group: records a `BeginGroup` event and pushes the group
    /// onto the open stack.
    pub fn begin_group(&mut self, name: String, count: usize)
        requires
            old(self).wf(),
        ensures
            final(self).wf(),
            final(self).trace() == old(self).trace().push(
                EventModel::BeginGroup { name: name@, count: count as int },
            ),
            final(self).open_names() == old(self).open_names().push(name@),
            final(self).tests_run() == old(self).tests_run(),
    {
        let ghost t0 = self.trace();
        let name_for_stack = name.clone();
        let event = TestEvent::BeginGroup { name, count };
        proof {
            lemma_models_push(self.events@, event);
            lemma_names_push(self.open@, name_for_stack);
            lemma_open_groups_push(t0, event@);
        }
        self.open.push(name_for_stack);
        self.events.push(event);
    }

    /// Close the innermost open group: records an `EndGroup` event for it and
    /// returns its name. With no group open, nothing is recorded and `None`
    /// is returned.
    pub fn end_group(&mut self) -> (r: Option<String>)
        requires
            old(self).wf(),
        ensures
            final(self).wf(),
            final(self).tests_run() == old(self).tests_run(),
            old(self).open_names().len() == 0 ==> {
                &&& r is None
                &&& final(self).trace() == old(self).trace()
                &&& final(self).open_names() == old(self).open_names()
            },
            old(self).open_names().len() > 0 ==> {
                &&& r matches Some(name) && name@ == old(self).open_names().last()
                &&& final(self).trace() == old(self).trace().push(
                    EventModel::EndGroup { name: old(self).open_names().last() },
                )
                &&& final(self).open_names() == old(self).open_names().drop_last()
            },
    {
        let ghost t0 = self.trace();
        match self.open.pop() {
            Option::None => {
                Option::None
            },
            Option::Some(name) => {
                let event = TestEvent::EndGroup(name.clone());
                proof {
                    lemma_models_push(self.events@, event);
                    lemma_open_groups_push(t0, event@);
                    assert(names(self.open@) =~= names(old(self).open@).drop_last());
                }
                self.events.push(event);
                Option::Some(name)
            },
        }
    }

    /// Record the outcome of one executed test: exactly one result event is
    /// appended, whose status and failure text are determined by the outcome,
    /// and the test counter is incremented.
    pub fn test(&mut self, name: String, outcome: BodyOutcome)
        requires
            old(self).wf(),
            old(self).tests_run() < usize::MAX,
        ensures
            final(self).wf(),
            final(self).trace() == old(self).trace().push(result_event(name@, outcome)),
            final(self).open_names() == old(self).open_names(),
            final(self).tests_run() == old(self).tests_run() + 1,
    {
        let ghost t0 = self.trace();
        self.count = self.count + 1;
        let status = match &outcome {
            BodyOutcome::Completed => TestStatus::Success,
            BodyOutcome::PanickedMessage(_) => TestStatus::Failed,
            BodyOutcome::PanickedOpaque => TestStatus::Failed,
        };
        let failure = match outcome {
            BodyOutcome::Completed => String::new(),
            BodyOutcome::PanickedMessage(m) => m,
            BodyOutcome::PanickedOpaque => ("<unintelligible panic>").to_owned(),
        };
        let event = TestEvent::Result(TestResult { name, status, failure });
        proof {
            lemma_models_push(self.events@, event);
            lemma_open_groups_push(t0, event@);
        }
        self.events.push(event);
    }

    /// Finish the run: any still-open groups are closed innermost first, the
    /// terminal `End` event is appended, and the full stream is returned.
    /// The returned stream is well-nested and ends with exactly one `End`
    /// event whose count equals the number of executed tests.
    pub fn finish(self) -> (r: Vec<TestEvent>)
        requires
            self.wf(),
        ensures
            models(r@) == self.trace() + closing_events(self.open_names()) + seq![
                EventModel::End { count: self.tests_run() },
            ],
            well_nested_run(models(r@)),
            num_results(models(r@).drop_last()) == self.tests_run(),
    {
        let ghost initial = self;
        let mut h = self;
        while h.open.len() > 0
            invariant
                h.wf(),
                h.tests_run() == initial.tests_run(),
                h.trace() + closing_events(h.open_names()) == initial.trace() + closing_events(
                    initial.open_names(),
                ),
            decreases h.open.len(),
        {
            let ghost tb = h.trace();
            let ghost ob = h.open_names();
            let _ = h.end_group();
            proof {
                assert(closing_events(ob) == seq![
                    EventModel::EndGroup { name: ob.last() },
                ] + closing_events(ob.drop_last()));
                assert(h.trace() + closing_events(h.open_names()) =~= tb + closing_events(ob));
            }
        }
        proof {
            assert(h.trace() + closing_events(h.open_names()) =~= h.trace());
            lemma_closing_events(initial.trace(), initial.open_names());
        }
        let ghost body = h.trace();
        let event = TestEvent::End { count: h.count };
        proof {
            lemma_models_push(h.events@, event);
            lemma_open_groups_no_end(body);
        }
        let TestHarness { mut events, open: _, count: _ } = h;
        events.push(event);
        proof {
            let t = models(events@);
            assert(t.drop_last() =~= body);
            assert(t =~= initial.trace() + closing_events(initial.open_names()) + seq![
                EventModel::End { count: initial.tests_run() },
            ]);
            assert(forall|i: int|
                0 <= i < t.len() - 1 ==> t[i] == body[i] && !(#[trigger] t[i] is End));
        }
        events
    }
}

} // verus!
