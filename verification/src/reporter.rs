//! Reporters: sinks that consume test events and render or forward them.
//!
//! Three reporters mirror the three transports: the console reporter renders
//! human-readable lines and accumulates the process exit code, the stream
//! reporter turns each event into one length-prefixed frame for a socket,
//! and the dump reporter embeds each event between fixed marker tokens in a
//! line of standard output, for hosts that can only scrape logs. Each
//! reporter here computes text or bytes; the caller performs the actual
//! printing or sending.

use vstd::prelude::*;
use vstd::string::StringExecFns;

use crate::codec::encode_event;
use crate::codec::event_model_wf;
use crate::codec::spec_decode;
use crate::codec::spec_event_bytes;
use crate::codec::starts_at;
use crate::codec::lemma_decode_encode;
use crate::events::EventModel;
use crate::events::TestEvent;
use crate::events::TestStatus;
use crate::frame::encode_frame;
use crate::frame::spec_frame;
use crate::frame::spec_parse_frame;
use crate::frame::lemma_frame_round_trip;
use crate::harness::models;

verus! {

/// The event is a result whose status is `Failed`.
pub open spec fn is_failed_result(m: EventModel) -> bool {
    m matches EventModel::Result { result } && result.status is Failed
}

/// The exit code a stream of events earns: 1 if any result failed, else 0.
pub open spec fn any_failed(t: Seq<EventModel>) -> bool {
    exists|i: int| 0 <= i < t.len() && is_failed_result(#[trigger] t[i])
}

/// The indentation of a nesting depth: two spaces per level.
pub open spec fn spec_indent(depth: int) -> Seq<char>
    decreases depth,
{
    if depth <= 0 {
        Seq::empty()
    } else {
        spec_indent(depth - 1) + "  "@
    }
}

/// The console word for a status: `ok` for success, `FAILED` for a
/// failure, `ignored` for an ignored test.
pub open spec fn spec_status_word(s: TestStatus) -> Seq<char> {
    match s {
        TestStatus::Success => "ok"@,
        TestStatus::Failed => "FAILED"@,
        TestStatus::Ignored => "ignored"@,
    }
}

/// The character of one decimal digit.
pub open spec fn spec_digit(d: int) -> char {
    if d == 0 {
        '0'
    } else if d == 1 {
        '1'
    } else if d == 2 {
        '2'
    } else if d == 3 {
        '3'
    } else if d == 4 {
        '4'
    } else if d == 5 {
        '5'
    } else if d == 6 {
        '6'
    } else if d == 7 {
        '7'
    } else if d == 8 {
        '8'
    } else {
        '9'
    }
}

/// The decimal rendering of a nonnegative number, as characters.
pub open spec fn spec_dec_chars(n: int) -> Seq<char>
    recommends
        n >= 0,
    decreases n,
{
    if n < 10 {
        seq![spec_digit(if n >= 0 {
            n
        } else {
            0
        })]
    } else {
        spec_dec_chars(n / 10) + seq![spec_digit(n % 10)]
    }
}

/// The console text rendered for one event, at the nesting depth and exit
/// code the reporter held before the event: group openings announce the
/// group and its count, results name the test and its status word, the
/// terminal event names the overall result, and group closings render
/// nothing.
pub open spec fn spec_console_line(depth: int, code: int, m: EventModel) -> Seq<char> {
    match m {
        EventModel::End { .. } => spec_indent(depth) + (if code == 0 {
            "test result: ok"@
        } else {
            "test result: FAILED"@
        }),
        EventModel::BeginGroup { name, count } => spec_indent(depth) + "running test group '"@
            + name + "' with "@ + spec_dec_chars(count) + " tests..."@,
        EventModel::EndGroup { .. } => Seq::empty(),
        EventModel::Result { result } => spec_indent(depth) + "test "@ + result.name + "... "@
            + spec_status_word(result.status),
    }
}

/// How one event steps the nesting depth: group openings indent, group
/// closings dedent, nothing else moves it.
pub open spec fn depth_step(d: int, m: EventModel) -> int {
    match m {
        EventModel::BeginGroup { .. } => if d < usize::MAX {
            d + 1
        } else {
            d
        },
        EventModel::EndGroup { .. } => if d > 0 {
            d - 1
        } else {
            0
        },
        _ => d,
    }
}

/// The nesting depth after a stream of events.
pub open spec fn depth_after(d0: int, t: Seq<EventModel>) -> int
    decreases t.len(),
{
    if t.len() == 0 {
        d0
    } else {
        depth_step(depth_after(d0, t.drop_last()), t.last())
    }
}

/// Append one decimal digit.
fn append_digit(out: &mut String, d: usize)
    requires
        d < 10,
    ensures
        final(out)@ == old(out)@ + seq![spec_digit(d as int)],
{
    if d == 0 {
        out.append("0");
        proof {
            reveal_strlit("0");
            assert(out@ =~= old(out)@ + seq![spec_digit(d as int)]);
        }
    } else if d == 1 {
        out.append("1");
        proof {
            reveal_strlit("1");
            assert(out@ =~= old(out)@ + seq![spec_digit(d as int)]);
        }
    } else if d == 2 {
        out.append("2");
        proof {
            reveal_strlit("2");
            assert(out@ =~= old(out)@ + seq![spec_digit(d as int)]);
        }
    } else if d == 3 {
        out.append("3");
        proof {
            reveal_strlit("3");
            assert(out@ =~= old(out)@ + seq![spec_digit(d as int)]);
        }
    } else if d == 4 {
        out.append("4");
        proof {
            reveal_strlit("4");
            assert(out@ =~= old(out)@ + seq![spec_digit(d as int)]);
        }
    } else if d == 5 {
        out.append("5");
        proof {
            reveal_strlit("5");
            assert(out@ =~= old(out)@ + seq![spec_digit(d as int)]);
        }
    } else if d == 6 {
        out.append("6");
        proof {
            reveal_strlit("6");
            assert(out@ =~= old(out)@ + seq![spec_digit(d as int)]);
        }
    } else if d == 7 {
        out.append("7");
        proof {
            reveal_strlit("7");
            assert(out@ =~= old(out)@ + seq![spec_digit(d as int)]);
        }
    } else if d == 8 {
        out.append("8");
        proof {
            reveal_strlit("8");
            assert(out@ =~= old(out)@ + seq![spec_digit(d as int)]);
        }
    } else {
        out.append("9");
        proof {
            reveal_strlit("9");
            assert(out@ =~= old(out)@ + seq![spec_digit(d as int)]);
        }
    }
}

/// Append the decimal digits of `n`.
fn append_dec_chars(out: &mut String, n: usize)
    ensures
        final(out)@ == old(out)@ + spec_dec_chars(n as int),
    decreases n,
{
    if n >= 10 {
        append_dec_chars(out, n / 10);
    }
    append_digit(out, n % 10);
    proof {
        assert(out@ =~= old(out)@ + spec_dec_chars(n as int));
    }
}

/// The decimal rendering of a number, for display.
fn decimal_string(n: usize) -> (r: String)
    ensures
        r@ == spec_dec_chars(n as int),
{
    let mut out = String::new();
    append_dec_chars(&mut out, n);
    proof {
        assert(out@ =~= spec_dec_chars(n as int));
    }
    out
}

/// Report tests to an interactive console.
///
/// Accumulates the exit code (0 unless any result is `Failed`), the current
/// nesting depth for indentation, and the list of failures.
pub struct ConsoleReporter {
    exit_code: i32,
    indent: usize,
    failures: Vec<(String, String)>,
}

impl ConsoleReporter {
    /// The exit code accumulated so far: 1 after any failed result, else 0.
    pub closed spec fn code(self) -> int {
        self.exit_code as int
    }

    /// The current nesting depth.
    pub closed spec fn depth(self) -> int {
        self.indent as int
    }

    /// The failures seen so far, as (name, failure text) pairs.
    pub closed spec fn failure_names(self) -> Seq<Seq<char>> {
        self.failures@.map_values(|f: (String, String)| f.0@)
    }

    /// The reporter invariant: the exit code is 0 or 1.
    pub open spec fn wf(self) -> bool {
        self.code() == 0 || self.code() == 1
    }

    /// Create a console reporter with exit code 0 and no indentation.
    pub fn new() -> (r: ConsoleReporter)
        ensures
            r.wf(),
            r.code() == 0,
            r.depth() == 0,
            r.failure_names() == Seq::<Seq<char>>::empty(),
    {
        let r = ConsoleReporter { exit_code: 0, indent: 0, failures: Vec::new() };
        proof {
            assert(r.failure_names() =~= Seq::<Seq<char>>::empty());
        }
        r
    }

    /// Consume one event: renders exactly the console text of
    /// [`spec_console_line`] and updates the exit code, the nesting depth,
    /// and the failure list.
    pub fn report(&mut self, event: &TestEvent) -> (line: String)
        requires
            old(self).wf(),
        ensures
            final(self).wf(),
            line@ == spec_console_line(old(self).depth(), old(self).code(), event@),
            final(self).code() == (if old(self).code() == 1 || is_failed_result(event@) {
                1int
            } else {
                0int
            }),
            final(self).depth() == (match event@ {
                EventModel::BeginGroup { .. } => if old(self).depth() < usize::MAX {
                    old(self).depth() + 1
                } else {
                    old(self).depth()
                },
                EventModel::EndGroup { .. } => if old(self).depth() > 0 {
                    old(self).depth() - 1
                } else {
                    0int
                },
                _ => old(self).depth(),
            }),
            final(self).failure_names() == (match event@ {
                EventModel::Result { result } => if result.status is Failed {
                    old(self).failure_names().push(result.name)
                } else {
                    old(self).failure_names()
                },
                _ => old(self).failure_names(),
            }),
    {
        let ghost d0 = self.depth();
        let ghost c0 = self.code();
        let line: String;
        match event {
            TestEvent::End { count: _ } => {
                let mut l = indent_text(self.indent);
                if self.exit_code == 0 {
                    l.append("test result: ok");
                } else {
                    l.append("test result: FAILED");
                }
                line = l;
            },
            TestEvent::BeginGroup { name, count } => {
                let mut l = indent_text(self.indent);
                l.append("running test group '");
                l.append(name.as_str());
                l.append("' with ");
                let rendered = decimal_string(*count);
                l.append(rendered.as_str());
                l.append(" tests...");
                if self.indent < usize::MAX {
                    self.indent = self.indent + 1;
                }
                line = l;
            },
            TestEvent::EndGroup(_) => {
                if self.indent > 0 {
                    self.indent = self.indent - 1;
                }
                line = String::new();
            },
            TestEvent::Result(result) => {
                let mut l = indent_text(self.indent);
                l.append("test ");
                l.append(result.name.as_str());
                l.append("... ");
                match result.status {
                    TestStatus::Failed => {
                        let pair = (result.name.clone(), result.failure.clone());
                        proof {
                            assert(self.failures@.push(pair).map_values(
                                |f: (String, String)| f.0@,
                            ) =~= self.failures@.map_values(|f: (String, String)| f.0@).push(
                                result.name@,
                            ));
                        }
                        self.failures.push(pair);
                        self.exit_code = 1;
                        l.append("FAILED");
                    },
                    TestStatus::Ignored => {
                        l.append("ignored");
                    },
                    TestStatus::Success => {
                        l.append("ok");
                    },
                }
                line = l;
            },
        }
        proof {
            assert(line@ =~= spec_console_line(d0, c0, event@));
        }
        line
    }

    /// Finish the report: the accumulated exit code.
    pub fn finish(&self) -> (r: i32)
        ensures
            r == self.code(),
    {
        self.exit_code
    }
}

/// Two spaces per indentation level.
fn indent_text(depth: usize) -> (r: String)
    ensures
        r@ == spec_indent(depth as int),
{
    let mut s = String::new();
    let mut i: usize = 0;
    proof {
        assert(s@ =~= spec_indent(0));
    }
    while i < depth
        invariant
            i <= depth,
            s@ == spec_indent(i as int),
        decreases depth - i,
    {
        s.append("  ");
        i = i + 1;
        proof {
            assert(s@ =~= spec_indent(i as int));
        }
    }
    s
}

/// Relay a whole event stream into a console reporter, as the listener
/// side of the stream protocol does: each event's rendered console text is
/// returned in order, exactly as [`spec_console_line`] prescribes at the
/// reporter state the event met, the nesting depth follows [`depth_after`],
/// and the reporter's exit code is left at 1 exactly when the stream holds
/// a failed result (or the reporter had already seen one).
pub fn relay_events(rep: &mut ConsoleReporter, events: &Vec<TestEvent>) -> (lines: Vec<String>)
    requires
        old(rep).wf(),
    ensures
        final(rep).wf(),
        final(rep).code() == (if old(rep).code() == 1 || any_failed(models(events@)) {
            1int
        } else {
            0int
        }),
        final(rep).depth() == depth_after(old(rep).depth(), models(events@)),
        lines@.len() == events@.len(),
        forall|i: int|
            0 <= i < events@.len() ==> (#[trigger] lines@[i])@ == spec_console_line(
                depth_after(old(rep).depth(), models(events@).take(i)),
                if old(rep).code() == 1 || any_failed(models(events@).take(i)) {
                    1int
                } else {
                    0int
                },
                events@[i]@,
            ),
{
    let ghost t = models(events@);
    let ghost d0 = old(rep).depth();
    let ghost c0 = old(rep).code();
    let mut lines: Vec<String> = Vec::new();
    let mut i: usize = 0;
    proof {
        assert(t.take(0) =~= Seq::<EventModel>::empty());
    }
    while i < events.len()
        invariant
            old(rep).wf(),
            rep.wf(),
            i <= events@.len(),
            t == models(events@),
            d0 == old(rep).depth(),
            c0 == old(rep).code(),
            lines@.len() == i,
            rep.code() == (if c0 == 1 || any_failed(t.take(i as int)) {
                1int
            } else {
                0int
            }),
            rep.depth() == depth_after(d0, t.take(i as int)),
            forall|j: int|
                0 <= j < i ==> (#[trigger] lines@[j])@ == spec_console_line(
                    depth_after(d0, t.take(j)),
                    if c0 == 1 || any_failed(t.take(j)) {
                        1int
                    } else {
                        0int
                    },
                    events@[j]@,
                ),
        decreases events@.len() - i,
    {
        let ghost before = t.take(i as int);
        let line = rep.report(&events[i]);
        lines.push(line);
        i = i + 1;
        proof {
            let now = t.take(i as int);
            assert(now.drop_last() =~= before);
            assert(now.last() == t[i - 1]);
            assert(t[i - 1] == events@[i - 1]@);
            if any_failed(now) {
                let k = choose|k: int| 0 <= k < now.len() && is_failed_result(#[trigger] now[k]);
                if k < i - 1 {
                    assert(is_failed_result(before[k]));
                }
            }
            if any_failed(before) {
                let k = choose|k: int|
                    0 <= k < before.len() && is_failed_result(#[trigger] before[k]);
                assert(is_failed_result(now[k]));
            }
            if is_failed_result(t[i - 1]) {
                assert(is_failed_result(now[i - 1]));
            }
            assert(rep.depth() == depth_after(d0, now));
            assert((#[trigger] lines@[i - 1])@ == spec_console_line(
                depth_after(d0, before),
                if c0 == 1 || any_failed(before) {
                    1int
                } else {
                    0int
                },
                events@[i - 1]@,
            ));
        }
    }
    proof {
        assert(t.take(events@.len() as int) =~= t);
    }
    lines
}

/// Report tests as length-prefixed frames for a stream transport.
///
/// Each event becomes one frame; the caller writes the frames to its socket.
pub struct StreamReporter {
    exit_code: i32,
}

impl StreamReporter {
    /// The exit code accumulated so far.
    pub closed spec fn code(self) -> int {
        self.exit_code as int
    }

    /// Create a stream reporter with exit code 0.
    pub fn new() -> (r: StreamReporter)
        ensures
            r.code() == 0,
    {
        StreamReporter { exit_code: 0 }
    }

    /// Consume one event: returns the frame to write to the stream.
    pub fn report(&mut self, event: &TestEvent) -> (frame: Vec<u8>)
        ensures
            frame@ == spec_frame(spec_event_bytes(event@)),
            final(self).code() == (if old(self).code() == 1 || is_failed_result(event@) {
                1int
            } else {
                old(self).code()
            }),
    {
        if let TestEvent::Result(result) = event {
            if let TestStatus::Failed = result.status {
                self.exit_code = 1;
            }
        }
        let payload = encode_event(event);
        encode_frame(&payload)
    }

    /// Finish the report. The stream side never drives the process exit
    /// code itself: the listener at the other end does.
    pub fn finish(&self) -> (r: i32)
        ensures
            r == 0,
    {
        0
    }
}

/// `TEST_DUMP(` as bytes: the opening marker token.
pub open spec fn lit_dump_open() -> Seq<u8> {
    seq![84u8, 69, 83, 84, 95, 68, 85, 77, 80, 40]
}

/// `)TEST_DUMP` as bytes: the closing marker token.
pub open spec fn lit_dump_close() -> Seq<u8> {
    seq![41u8, 84, 69, 83, 84, 95, 68, 85, 77, 80]
}

/// One dump line: the encoded event between the marker tokens.
pub open spec fn spec_dump_line(m: EventModel) -> Seq<u8> {
    lit_dump_open() + spec_event_bytes(m) + lit_dump_close()
}

/// Build the opening marker token as a vector.
fn make_dump_open() -> (r: Vec<u8>)
    ensures
        r@ == lit_dump_open(),
{
    let mut v: Vec<u8> = Vec::new();
    v.push(84);
    v.push(69);
    v.push(83);
    v.push(84);
    v.push(95);
    v.push(68);
    v.push(85);
    v.push(77);
    v.push(80);
    v.push(40);
    proof {
        assert(v@ =~= lit_dump_open());
    }
    v
}

/// Build the closing marker token as a vector.
fn make_dump_close() -> (r: Vec<u8>)
    ensures
        r@ == lit_dump_close(),
{
    let mut v: Vec<u8> = Vec::new();
    v.push(41);
    v.push(84);
    v.push(69);
    v.push(83);
    v.push(84);
    v.push(95);
    v.push(68);
    v.push(85);
    v.push(77);
    v.push(80);
    proof {
        assert(v@ =~= lit_dump_close());
    }
    v
}

/// Report tests as marker lines on standard output, for scraping by a
/// host-side log reader where no socket is reachable.
pub struct DumpReporter {
    _private: (),
}

impl DumpReporter {
    /// Create a dump reporter.
    pub fn new() -> (r: DumpReporter) {
        DumpReporter { _private: () }
    }

    /// Consume one event: returns the marker line to print.
    pub fn report(&mut self, event: &TestEvent) -> (line: Vec<u8>)
        ensures
            line@ == spec_dump_line(event@),
    {
        let mut line = make_dump_open();
        let mut payload = encode_event(event);
        line.append(&mut payload);
        let mut close = make_dump_close();
        line.append(&mut close);
        proof {
            assert(line@ =~= spec_dump_line(event@));
        }
        line
    }

    /// Finish the report. The dump side never drives the process exit code
    /// itself: the scraper at the other end does.
    pub fn finish(&self) -> (r: i32)
        ensures
            r == 0,
    {
        0
    }
}

/// The first position at or after `i` where the opening marker occurs.
pub open spec fn find_open_from(bs: Seq<u8>, i: int) -> Option<int>
    recommends
        0 <= i,
    decreases bs.len() - i,
{
    if i < 0 || i + 10 > bs.len() {
        Option::None
    } else if starts_at(bs, i, lit_dump_open()) {
        Some(i)
    } else {
        find_open_from(bs, i + 1)
    }
}

/// The last position at or before `i` where the closing marker occurs.
pub open spec fn find_close_last(bs: Seq<u8>, i: int) -> Option<int>
    decreases i + 1,
{
    if i < 0 || i + 10 > bs.len() {
        Option::None
    } else if starts_at(bs, i, lit_dump_close()) {
        Some(i)
    } else {
        find_close_last(bs, i - 1)
    }
}

/// Extract the marker payload of a captured output line: the bytes between
/// the first opening token and the last closing token.
pub open spec fn spec_find_marker(bs: Seq<u8>) -> Option<Seq<u8>> {
    match find_open_from(bs, 0) {
        Option::None => Option::None,
        Option::Some(o) => match find_close_last(bs, bs.len() - 10) {
            Option::None => Option::None,
            Option::Some(c) => if o + 10 <= c {
                Some(bs.subrange(o + 10, c))
            } else {
                Option::None
            },
        },
    }
}

/// The first occurrence of the opening marker token in `line`.
fn find_open(line: &Vec<u8>) -> (r: Option<usize>)
    ensures
        match find_open_from(line@, 0) {
            Option::None => r is None,
            Option::Some(o) => r == Some(o as usize),
        },
{
    let open = make_dump_open();
    let n = line.len();
    let mut i: usize = 0;
    loop
        invariant
            i <= n,
            n == line@.len(),
            open@ == lit_dump_open(),
            find_open_from(line@, 0) == find_open_from(line@, i as int),
        decreases line@.len() - i,
    {
        if n - i < 10 {
            assert(find_open_from(line@, i as int) is None);
            return Option::None;
        }
        if crate::codec::match_lit(line, i, &open) {
            assert(find_open_from(line@, i as int) == Some(i as int));
            return Option::Some(i);
        }
        i = i + 1;
    }
}

/// The last occurrence of the closing marker token in `line`.
fn find_close(line: &Vec<u8>) -> (r: Option<usize>)
    ensures
        match find_close_last(line@, line@.len() - 10) {
            Option::None => r is None,
            Option::Some(c) => r == Some(c as usize),
        },
{
    let close = make_dump_close();
    let n = line.len();
    if n < 10 {
        return Option::None;
    }
    let mut j: usize = n - 10;
    loop
        invariant
            j <= n - 10,
            n == line@.len(),
            n >= 10,
            close@ == lit_dump_close(),
            find_close_last(line@, line@.len() - 10) == find_close_last(line@, j as int),
        decreases j,
    {
        if crate::codec::match_lit(line, j, &close) {
            assert(find_close_last(line@, j as int) == Some(j as int));
            return Option::Some(j);
        }
        if j == 0 {
            assert(find_close_last(line@, 0int) is None);
            return Option::None;
        }
        j = j - 1;
    }
}

/// Scan one captured output line for an embedded marker payload, exactly as
/// [`spec_find_marker`] prescribes.
pub fn find_marker(line: &Vec<u8>) -> (r: Option<Vec<u8>>)
    ensures
        match spec_find_marker(line@) {
            Option::None => r is None,
            Option::Some(payload) => r matches Some(p) && p@ == payload,
        },
{
    let o = match find_open(line) {
        Option::Some(o) => o,
        Option::None => {
            return Option::None;
        },
    };
    let j = match find_close(line) {
        Option::Some(j) => j,
        Option::None => {
            return Option::None;
        },
    };
    let n = line.len();
    proof {
        lemma_find_open_bounds(line@, 0);
        lemma_find_close_bounds(line@, line@.len() - 10);
        assert(o + 10 <= n);
        assert(j <= n);
    }
    if o + 10 <= j {
        let payload = vstd::slice::slice_to_vec(
            vstd::slice::slice_subrange(line.as_slice(), o + 10, j),
        );
        proof {
            assert(payload@ =~= line@.subrange(o + 10, j as int));
        }
        Option::Some(payload)
    } else {
        Option::None
    }
}

/// A found opening marker lies inside the line.
proof fn lemma_find_open_bounds(bs: Seq<u8>, i: int)
    requires
        0 <= i,
    ensures
        find_open_from(bs, i) matches Some(o) ==> i <= o && o + 10 <= bs.len(),
    decreases bs.len() - i,
{
    if i + 10 <= bs.len() && !starts_at(bs, i, lit_dump_open()) {
        lemma_find_open_bounds(bs, i + 1);
    }
}

/// A found closing marker lies inside the line.
proof fn lemma_find_close_bounds(bs: Seq<u8>, i: int)
    ensures
        find_close_last(bs, i) matches Some(c) ==> 0 <= c && c + 10 <= bs.len() && c <= i,
    decreases i + 1,
{
    if 0 <= i && i + 10 <= bs.len() && !starts_at(bs, i, lit_dump_close()) {
        lemma_find_close_bounds(bs, i - 1);
    }
}

/// The marker round trip: scanning a dump line recovers exactly the encoded
/// event, whatever bytes the payload itself holds.
pub proof fn lemma_find_marker_dump(m: EventModel)
    ensures
        spec_find_marker(spec_dump_line(m)) == Some(spec_event_bytes(m)),
{
    let bs = spec_dump_line(m);
    let payload = spec_event_bytes(m);
    let pl = payload.len() as int;
    assert(bs =~= lit_dump_open() + (payload + lit_dump_close()));
    assert(bs.len() == 10 + pl + 10);
    assert(bs.subrange(0, 10) =~= lit_dump_open());
    assert(starts_at(bs, 0, lit_dump_open()));
    assert(find_open_from(bs, 0) == Some(0int));
    assert(bs.subrange(10 + pl, 10 + pl + 10) =~= lit_dump_close());
    assert(starts_at(bs, 10 + pl, lit_dump_close()));
    assert(find_close_last(bs, bs.len() - 10) == Some(10 + pl));
    assert(bs.subrange(10int, 10 + pl) =~= payload);
}

/// The index of the first newline byte of `bs` at or after `pos`, or the
/// length of `bs` when there is none.
pub open spec fn nl_pos(bs: Seq<u8>, pos: int) -> int
    decreases bs.len() - pos,
{
    if pos < 0 || pos >= bs.len() {
        bs.len() as int
    } else if bs[pos] == 10 {
        pos
    } else {
        nl_pos(bs, pos + 1)
    }
}

/// Captured output split into lines: each newline ends a line, and a
/// trailing partial line without a newline is kept.
pub open spec fn spec_lines(bs: Seq<u8>) -> Seq<Seq<u8>>
    decreases bs.len(),
{
    if bs.len() == 0 {
        Seq::empty()
    } else {
        let k = nl_pos(bs, 0);
        if 0 <= k < bs.len() {
            seq![bs.take(k)] + spec_lines(bs.skip(k + 1))
        } else {
            seq![bs]
        }
    }
}

/// The views of a sequence of byte vectors.
pub open spec fn line_views(s: Seq<Vec<u8>>) -> Seq<Seq<u8>> {
    s.map_values(|v: Vec<u8>| v@)
}

/// `nl_pos` finds the first newline at or after `pos`.
proof fn lemma_nl_pos(bs: Seq<u8>, pos: int)
    requires
        0 <= pos <= bs.len(),
    ensures
        pos <= nl_pos(bs, pos) <= bs.len(),
        forall|j: int| pos <= j < nl_pos(bs, pos) ==> bs[j] != 10,
        nl_pos(bs, pos) < bs.len() ==> bs[nl_pos(bs, pos)] == 10,
    decreases bs.len() - pos,
{
    if pos < bs.len() && bs[pos] != 10 {
        lemma_nl_pos(bs, pos + 1);
    }
}

/// `nl_pos` of a suffix mirrors `nl_pos` of the whole.
proof fn lemma_nl_pos_skip(bs: Seq<u8>, base: int, pos: int)
    requires
        0 <= base <= pos <= bs.len(),
    ensures
        nl_pos(bs.skip(base), pos - base) == nl_pos(bs, pos) - base,
    decreases bs.len() - pos,
{
    let suffix = bs.skip(base);
    if pos < bs.len() {
        assert(suffix[pos - base] == bs[pos]);
        if bs[pos] != 10 {
            lemma_nl_pos_skip(bs, base, pos + 1);
        }
    }
}

/// Split captured output into lines, exactly as [`spec_lines`] prescribes.
pub fn split_lines(buf: &Vec<u8>) -> (r: Vec<Vec<u8>>)
    ensures
        line_views(r@) == spec_lines(buf@),
{
    let n = buf.len();
    let mut out: Vec<Vec<u8>> = Vec::new();
    let mut start: usize = 0;
    let mut i: usize = 0;
    proof {
        assert(buf@.skip(0) =~= buf@);
        assert(line_views(out@) =~= Seq::<Seq<u8>>::empty());
        assert(Seq::<Seq<u8>>::empty() + spec_lines(buf@) =~= spec_lines(buf@));
    }
    while i < n
        invariant
            n == buf@.len(),
            start <= i <= n,
            forall|j: int| start <= j < i ==> buf@[j] != 10,
            spec_lines(buf@) == line_views(out@) + spec_lines(buf@.skip(start as int)),
        decreases n - i,
    {
        if buf[i] == 10 {
            let ghost tail = buf@.skip(start as int);
            let line = vstd::slice::slice_to_vec(
                vstd::slice::slice_subrange(buf.as_slice(), start, i),
            );
            proof {
                lemma_nl_pos(buf@, start as int);
                lemma_nl_pos_skip(buf@, start as int, i as int);
                assert(nl_pos(buf@, start as int) == i);
                assert(nl_pos(tail, i - start) == i - start);
                assert(nl_pos(tail, 0) == i - start) by {
                    lemma_nl_pos(tail, 0);
                    if nl_pos(tail, 0) < i - start {
                        assert(tail[nl_pos(tail, 0)] == buf@[start + nl_pos(tail, 0)]);
                    } else {
                        lemma_nl_pos_rejoin(tail, 0, i - start);
                    }
                }
                assert(tail.take(i - start) =~= line@);
                assert(tail.skip(i - start + 1) =~= buf@.skip(i + 1));
                assert(spec_lines(tail) == seq![line@] + spec_lines(buf@.skip(i + 1)));
                assert(line_views(out@.push(line)) =~= line_views(out@).push(line@));
                assert(line_views(out@) + spec_lines(tail) =~= line_views(out@.push(line))
                    + spec_lines(buf@.skip(i + 1)));
            }
            out.push(line);
            start = i + 1;
        }
        i = i + 1;
    }
    let ghost tail = buf@.skip(start as int);
    if start < n {
        let line = vstd::slice::slice_to_vec(
            vstd::slice::slice_subrange(buf.as_slice(), start, n),
        );
        proof {
            lemma_nl_pos(tail, 0);
            if nl_pos(tail, 0) < tail.len() {
                assert(tail[nl_pos(tail, 0)] == buf@[start + nl_pos(tail, 0)]);
            }
            assert(nl_pos(tail, 0) == tail.len());
            assert(tail =~= line@);
            assert(spec_lines(tail) == seq![line@]);
            assert(line_views(out@.push(line)) =~= line_views(out@).push(line@));
            assert(line_views(out@) + spec_lines(tail) =~= line_views(out@.push(line)));
        }
        out.push(line);
    } else {
        proof {
            assert(tail.len() == 0);
            assert(line_views(out@) + spec_lines(tail) =~= line_views(out@));
        }
    }
    out
}

/// A stretch of non-newline bytes moves `nl_pos` past itself.
proof fn lemma_nl_pos_rejoin(bs: Seq<u8>, pos: int, upto: int)
    requires
        0 <= pos <= upto <= bs.len(),
        forall|j: int| pos <= j < upto ==> bs[j] != 10,
    ensures
        nl_pos(bs, pos) >= upto,
    decreases upto - pos,
{
    if pos < upto {
        lemma_nl_pos_rejoin(bs, pos + 1, upto);
    } else {
        lemma_nl_pos(bs, pos);
    }
}

/// The events embedded in captured output lines: each line may carry one
/// marker payload holding one event; scanning stops after an `End` event.
pub open spec fn spec_scan(lines: Seq<Seq<u8>>) -> Seq<EventModel>
    decreases lines.len(),
{
    if lines.len() == 0 {
        Seq::empty()
    } else {
        let rest = spec_scan(lines.drop_first());
        match spec_find_marker(lines.first()) {
            Option::None => rest,
            Option::Some(payload) => match spec_decode(payload) {
                Option::None => rest,
                Option::Some(m) => if m is End {
                    seq![m]
                } else {
                    seq![m] + rest
                },
            },
        }
    }
}

/// Scan captured process output for embedded test events: split it into
/// lines, extract each line's marker payload, decode it, and stop after
/// the `End` event. This is how results from a remote device surface
/// exactly like local ones.
pub fn scan_output_for_events(output: &Vec<u8>) -> (r: Vec<TestEvent>)
    ensures
        models(r@) == spec_scan(spec_lines(output@)),
{
    let lines = split_lines(output);
    let ghost all = line_views(lines@);
    let mut out: Vec<TestEvent> = Vec::new();
    let mut i: usize = 0;
    proof {
        assert(all.skip(0) =~= all);
        assert(models(out@) =~= Seq::<EventModel>::empty());
    }
    while i < lines.len()
        invariant
            i <= lines@.len(),
            all == line_views(lines@),
            all == spec_lines(output@),
            spec_scan(all) == models(out@) + spec_scan(all.skip(i as int)),
        decreases lines@.len() - i,
    {
        let ghost tail = all.skip(i as int);
        proof {
            assert(tail.first() == lines@[i as int]@);
            assert(tail.drop_first() =~= all.skip(i + 1));
        }
        match find_marker(&lines[i]) {
            Option::Some(payload) => {
                match crate::codec::decode_event(&payload) {
                    Option::Some(event) => {
                        let ghost ev = event@;
                        let ghost before = models(out@);
                        let is_end = matches!(&event, TestEvent::End { .. });
                        proof {
                            assert(models(out@.push(event)) =~= models(out@).push(ev));
                        }
                        out.push(event);
                        if is_end {
                            proof {
                                assert(spec_scan(tail) == seq![ev]);
                                assert(before + seq![ev] =~= models(out@));
                            }
                            return out;
                        }
                        proof {
                            assert(spec_scan(tail) == seq![ev] + spec_scan(all.skip(i + 1)));
                            assert(models(out@) + spec_scan(all.skip(i + 1)) =~= before
                                + spec_scan(tail));
                        }
                    },
                    Option::None => {},
                }
            },
            Option::None => {},
        }
        i = i + 1;
    }
    proof {
        assert(spec_scan(all.skip(lines@.len() as int)) =~= Seq::<EventModel>::empty());
        assert(models(out@) + Seq::<EventModel>::empty() =~= models(out@));
    }
    out
}

/// Which reporter a harness run uses.
#[derive(Clone, Copy, Debug, PartialEq, Eq, Structural)]
pub enum ReporterChoice {
    /// Stream frames to the configured TCP address.
    Tcp,
    /// Stream frames to the configured Unix domain socket.
    UnixSocket,
    /// Dump marker lines to standard output, for scraping.
    Dump,
    /// Render to the interactive console.
    Console,
}

/// Reporter priority: a configured TCP address first, else (on Unix) a
/// configured domain-socket path, else the dump reporter when targeting a
/// mobile OS, else the interactive console.
pub open spec fn spec_select_reporter(
    tcp_address: Option<Seq<char>>,
    socket_path: Option<Seq<char>>,
    is_unix: bool,
    is_mobile: bool,
) -> ReporterChoice {
    if tcp_address is Some {
        ReporterChoice::Tcp
    } else if is_unix && socket_path is Some {
        ReporterChoice::UnixSocket
    } else if is_mobile {
        ReporterChoice::Dump
    } else {
        ReporterChoice::Console
    }
}

/// Select the reporter for a harness run, exactly as
/// [`spec_select_reporter`] prescribes.
pub fn select_reporter(
    tcp_address: &Option<String>,
    socket_path: &Option<String>,
    is_unix: bool,
    is_mobile: bool,
) -> (r: ReporterChoice)
    ensures
        r == spec_select_reporter(
            match tcp_address {
                Option::Some(a) => Some(a@),
                Option::None => Option::None,
            },
            match socket_path {
                Option::Some(p) => Some(p@),
                Option::None => Option::None,
            },
            is_unix,
            is_mobile,
        ),
{
    if tcp_address.is_some() {
        ReporterChoice::Tcp
    } else if is_unix && socket_path.is_some() {
        ReporterChoice::UnixSocket
    } else if is_mobile {
        ReporterChoice::Dump
    } else {
        ReporterChoice::Console
    }
}

/// The stream protocol round trip: framing an encoded event and parsing the
/// frame out of the stream on the receiving side yields an event equal to
/// the original, for every variant, Unicode names and empty failure text
/// included.
pub proof fn lemma_stream_round_trip(m: EventModel, rest: Seq<u8>)
    requires
        event_model_wf(m),
        spec_event_bytes(m).len() <= usize::MAX,
    ensures
        spec_parse_frame(spec_frame(spec_event_bytes(m)) + rest) == Some(
            (spec_event_bytes(m), 8 + spec_event_bytes(m).len() as int),
        ),
        spec_decode(spec_event_bytes(m)) == Some(m),
{
    lemma_frame_round_trip(spec_event_bytes(m), rest);
    lemma_decode_encode(m);
}

} // verus!
