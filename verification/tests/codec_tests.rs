//! Tests for the event codec, the length-prefixed framing, and the marker
//! protocol: every variant round-trips, Unicode names and empty failure
//! text included.

use keter_test::codec::decode_event;
use keter_test::codec::encode_event;
use keter_test::events::TestEvent;
use keter_test::events::TestResult;
use keter_test::events::TestStatus;
use keter_test::frame::decode_frame;
use keter_test::frame::encode_frame;
use keter_test::reporter::find_marker;
use keter_test::reporter::DumpReporter;
use keter_test::reporter::StreamReporter;

fn sample_events() -> Vec<TestEvent> {
    vec![
        TestEvent::End { count: 0 },
        TestEvent::End { count: 12345 },
        TestEvent::BeginGroup {
            name: "suite".to_string(),
            count: 2,
        },
        TestEvent::BeginGroup {
            name: String::new(),
            count: 0,
        },
        TestEvent::EndGroup("suite".to_string()),
        TestEvent::EndGroup("grüße-测试-🚀".to_string()),
        TestEvent::Result(TestResult {
            name: "a".to_string(),
            status: TestStatus::Success,
            failure: String::new(),
        }),
        TestEvent::Result(TestResult {
            name: "b".to_string(),
            status: TestStatus::Failed,
            failure: "boom".to_string(),
        }),
        TestEvent::Result(TestResult {
            name: "荷物".to_string(),
            status: TestStatus::Ignored,
            failure: String::new(),
        }),
        TestEvent::Result(TestResult {
            name: "quo\"te\\back".to_string(),
            status: TestStatus::Failed,
            failure: "line\none\ttab\rret".to_string(),
        }),
    ]
}

#[test]
fn encode_decode_round_trip_every_variant() {
    for event in sample_events() {
        let bytes = encode_event(&event);
        let back = decode_event(&bytes);
        assert_eq!(back, Some(event));
    }
}

#[test]
fn encoding_is_compact_json() {
    let bytes = encode_event(&TestEvent::End { count: 3 });
    assert_eq!(bytes, b"{\"End\":{\"count\":3}}".to_vec());

    let bytes = encode_event(&TestEvent::BeginGroup {
        name: "suite".to_string(),
        count: 2,
    });
    assert_eq!(bytes, b"{\"BeginGroup\":{\"name\":\"suite\",\"count\":2}}".to_vec());

    let bytes = encode_event(&TestEvent::EndGroup("suite".to_string()));
    assert_eq!(bytes, b"{\"EndGroup\":\"suite\"}".to_vec());

    let bytes = encode_event(&TestEvent::Result(TestResult {
        name: "a".to_string(),
        status: TestStatus::Success,
        failure: String::new(),
    }));
    assert_eq!(
        bytes,
        b"{\"Result\":{\"name\":\"a\",\"status\":\"Success\",\"failure\":\"\"}}".to_vec()
    );
}

#[test]
fn control_characters_are_escaped() {
    let bytes = encode_event(&TestEvent::EndGroup("a\nb".to_string()));
    assert_eq!(bytes, b"{\"EndGroup\":\"a\\u000ab\"}".to_vec());
    assert_eq!(decode_event(&bytes), Some(TestEvent::EndGroup("a\nb".to_string())));
}

#[test]
fn malformed_bytes_do_not_decode() {
    assert_eq!(decode_event(&Vec::new()), None);
    assert_eq!(decode_event(&b"{\"End\":{\"count\":}}".to_vec()), None);
    assert_eq!(decode_event(&b"{\"Nope\":3}".to_vec()), None);
    // Truncated frames of every variant.
    for event in sample_events() {
        let mut bytes = encode_event(&event);
        bytes.pop();
        assert_eq!(decode_event(&bytes), None);
    }
}

#[test]
fn frame_round_trip() {
    let payload = b"hello frame".to_vec();
    let frame = encode_frame(&payload);
    assert_eq!(frame.len(), 8 + payload.len());
    assert_eq!(&frame[0..8], &[11, 0, 0, 0, 0, 0, 0, 0]);
    let (back, next) = decode_frame(&frame, 0).expect("frame should parse");
    assert_eq!(back, payload);
    assert_eq!(next, frame.len());
}

#[test]
fn truncated_frame_does_not_parse() {
    let payload = b"hello".to_vec();
    let mut frame = encode_frame(&payload);
    frame.pop();
    assert_eq!(decode_frame(&frame, 0), None);
    assert_eq!(decode_frame(&b"1234567".to_vec(), 0), None);
}

#[test]
fn stream_reporter_frames_decode_back() {
    let mut reporter = StreamReporter::new();
    let mut stream: Vec<u8> = Vec::new();
    for event in sample_events() {
        let mut frame = reporter.report(&event);
        stream.append(&mut frame);
    }
    // The receiving side reads exactly `length` bytes per frame and decodes
    // one event from each.
    let mut pos = 0;
    let mut decoded = Vec::new();
    while pos < stream.len() {
        let (payload, next) = decode_frame(&stream, pos).expect("frame should parse");
        decoded.push(decode_event(&payload).expect("event should decode"));
        pos = next;
    }
    assert_eq!(decoded, sample_events());
    // A failed result was reported, but the stream side leaves the exit
    // code to the listener.
    assert_eq!(reporter.finish(), 0);
}

#[test]
fn dump_lines_scan_back_to_the_event() {
    let mut reporter = DumpReporter::new();
    for event in sample_events() {
        let line = reporter.report(&event);
        let payload = find_marker(&line).expect("marker should be found");
        assert_eq!(decode_event(&payload), Some(event));
    }
    assert_eq!(reporter.finish(), 0);
}

#[test]
fn dump_line_shape() {
    let mut reporter = DumpReporter::new();
    let line = reporter.report(&TestEvent::End { count: 1 });
    assert_eq!(line, b"TEST_DUMP({\"End\":{\"count\":1}})TEST_DUMP".to_vec());
}

#[test]
fn marker_scan_survives_marker_text_in_the_payload() {
    // The failure text itself contains the closing token; the scan still
    // recovers the whole payload, as the last closing token ends the line.
    let event = TestEvent::Result(TestResult {
        name: "tricky".to_string(),
        status: TestStatus::Failed,
        failure: ")TEST_DUMP".to_string(),
    });
    let mut reporter = DumpReporter::new();
    let line = reporter.report(&event);
    let payload = find_marker(&line).expect("marker should be found");
    assert_eq!(decode_event(&payload), Some(event));
}

#[test]
fn lines_without_marker_yield_nothing() {
    assert_eq!(find_marker(&b"plain build output".to_vec()), None);
    assert_eq!(find_marker(&b"TEST_DUMP(only open".to_vec()), None);
    assert_eq!(find_marker(&Vec::new()), None);
}
