//! The compact structured text encoding of test events.
//!
//! Each [`TestEvent`] is serialized as one compact JSON object whose outer
//! key names the variant, for example `{"End":{"count":3}}` or
//! `{"EndGroup":"suite"}`. String payloads are UTF-8 with `"`, `\` and
//! control characters escaped; counts are decimal numbers. The decoder
//! accepts exactly the bytes the encoder produces ([`spec_decode`] is its
//! full functional specification), and decoding an encoded event yields the
//! original event for every variant ([`lemma_decode_encode`]).

use vstd::prelude::*;
use vstd::utf8::encode_utf8;
use vstd::utf8::decode_utf8;
use vstd::utf8::valid_utf8;
use vstd::utf8::encode_utf8_valid_utf8;
use vstd::utf8::encode_utf8_decode_utf8;
use vstd::string::StrSliceExecFns;
use vstd::string::StringSliceAdditionalSpecFns;

use crate::events::EventModel;
use crate::events::ResultModel;
use crate::events::TestEvent;
use crate::events::TestResult;
use crate::events::TestStatus;

verus! {

// ---------------------------------------------------------------------------
// The encoding, as spec functions.
// ---------------------------------------------------------------------------

/// `{"End":{"count":` as bytes.
pub open spec fn lit_end_head() -> Seq<u8> {
    seq![123u8, 34, 69, 110, 100, 34, 58, 123, 34, 99, 111, 117, 110, 116, 34, 58]
}

/// `{"BeginGroup":{"name":` as bytes.
pub open spec fn lit_begin_head() -> Seq<u8> {
    seq![
        123u8,
        34,
        66,
        101,
        103,
        105,
        110,
        71,
        114,
        111,
        117,
        112,
        34,
        58,
        123,
        34,
        110,
        97,
        109,
        101,
        34,
        58,
    ]
}

/// `,"count":` as bytes.
pub open spec fn lit_count_mid() -> Seq<u8> {
    seq![44u8, 34, 99, 111, 117, 110, 116, 34, 58]
}

/// `{"EndGroup":` as bytes.
pub open spec fn lit_endgroup_head() -> Seq<u8> {
    seq![123u8, 34, 69, 110, 100, 71, 114, 111, 117, 112, 34, 58]
}

/// `{"Result":{"name":` as bytes.
pub open spec fn lit_result_head() -> Seq<u8> {
    seq![123u8, 34, 82, 101, 115, 117, 108, 116, 34, 58, 123, 34, 110, 97, 109, 101, 34, 58]
}

/// `,"status":` as bytes.
pub open spec fn lit_status_mid() -> Seq<u8> {
    seq![44u8, 34, 115, 116, 97, 116, 117, 115, 34, 58]
}

/// `,"failure":` as bytes.
pub open spec fn lit_failure_mid() -> Seq<u8> {
    seq![44u8, 34, 102, 97, 105, 108, 117, 114, 101, 34, 58]
}

/// `"Success"` as bytes.
pub open spec fn lit_success() -> Seq<u8> {
    seq![34u8, 83, 117, 99, 99, 101, 115, 115, 34]
}

/// `"Failed"` as bytes.
pub open spec fn lit_failed() -> Seq<u8> {
    seq![34u8, 70, 97, 105, 108, 101, 100, 34]
}

/// `"Ignored"` as bytes.
pub open spec fn lit_ignored() -> Seq<u8> {
    seq![34u8, 73, 103, 110, 111, 114, 101, 100, 34]
}

/// `}}` as bytes.
pub open spec fn lit_close2() -> Seq<u8> {
    seq![125u8, 125]
}

/// `}` as bytes.
pub open spec fn lit_close1() -> Seq<u8> {
    seq![125u8]
}

/// An ASCII decimal digit.
pub open spec fn is_digit(b: u8) -> bool {
    48 <= b <= 57
}

/// The lowercase hexadecimal digit for a value below 16.
pub open spec fn hex_digit(n: int) -> u8 {
    if n < 10 {
        (48 + n) as u8
    } else {
        (87 + n) as u8
    }
}

/// A lowercase hexadecimal digit.
pub open spec fn is_hex(b: u8) -> bool {
    is_digit(b) || (97 <= b <= 102)
}

/// The value of a lowercase hexadecimal digit.
pub open spec fn hex_val(b: u8) -> int {
    if is_digit(b) {
        b - 48
    } else {
        b - 87
    }
}

/// How one byte of string content is escaped: `"` and `\` get a backslash,
/// control bytes become `\u00xx`, all other bytes stand for themselves.
pub open spec fn esc_byte(b: u8) -> Seq<u8> {
    if b == 34 {
        seq![92u8, 34u8]
    } else if b == 92 {
        seq![92u8, 92u8]
    } else if b < 32 {
        seq![92u8, 117u8, 48u8, 48u8, hex_digit(b as int / 16), hex_digit(b as int % 16)]
    } else {
        seq![b]
    }
}

/// The escaped form of a byte sequence.
pub open spec fn spec_escape(bs: Seq<u8>) -> Seq<u8>
    decreases bs.len(),
{
    if bs.len() == 0 {
        Seq::empty()
    } else {
        esc_byte(bs.first()) + spec_escape(bs.drop_first())
    }
}

/// A JSON string: quoted, escaped UTF-8.
pub open spec fn spec_json_string(s: Seq<char>) -> Seq<u8> {
    seq![34u8] + spec_escape(encode_utf8(s)) + seq![34u8]
}

/// The decimal digits of a nonnegative number, most significant first.
pub open spec fn spec_dec(n: int) -> Seq<u8>
    recommends
        n >= 0,
    decreases n,
{
    if n < 10 {
        seq![(48 + if n >= 0 { n } else { 0 }) as u8]
    } else {
        spec_dec(n / 10) + seq![(48 + n % 10) as u8]
    }
}

/// The bytes of a status literal.
pub open spec fn spec_status_bytes(s: TestStatus) -> Seq<u8> {
    match s {
        TestStatus::Success => lit_success(),
        TestStatus::Failed => lit_failed(),
        TestStatus::Ignored => lit_ignored(),
    }
}

/// The canonical encoding of one event.
pub open spec fn spec_event_bytes(m: EventModel) -> Seq<u8> {
    match m {
        EventModel::End { count } => lit_end_head() + spec_dec(count) + lit_close2(),
        EventModel::BeginGroup { name, count } => lit_begin_head() + spec_json_string(name)
            + lit_count_mid() + spec_dec(count) + lit_close2(),
        EventModel::EndGroup { name } => lit_endgroup_head() + spec_json_string(name)
            + lit_close1(),
        EventModel::Result { result } => lit_result_head() + spec_json_string(result.name)
            + lit_status_mid() + spec_status_bytes(result.status) + lit_failure_mid()
            + spec_json_string(result.failure) + lit_close2(),
    }
}

/// An event model whose counts a machine event can carry.
pub open spec fn event_model_wf(m: EventModel) -> bool {
    match m {
        EventModel::End { count } => 0 <= count <= usize::MAX,
        EventModel::BeginGroup { name: _, count } => 0 <= count <= usize::MAX,
        EventModel::EndGroup { .. } => true,
        EventModel::Result { .. } => true,
    }
}

// ---------------------------------------------------------------------------
// The decoding, as spec functions.
// ---------------------------------------------------------------------------

/// `lit` occurs in `bs` at position `pos`.
pub open spec fn starts_at(bs: Seq<u8>, pos: int, lit: Seq<u8>) -> bool {
    &&& 0 <= pos
    &&& pos + lit.len() <= bs.len()
    &&& bs.subrange(pos, pos + lit.len()) == lit
}

/// Parse escaped string content up to and including the closing quote:
/// yields the unescaped content bytes and the number of bytes consumed.
/// Exactly the escapes that [`esc_byte`] produces are accepted, and raw
/// control bytes are rejected.
pub open spec fn spec_unescape(bs: Seq<u8>) -> Option<(Seq<u8>, int)>
    decreases bs.len(),
{
    if bs.len() == 0 {
        Option::None
    } else if bs.first() == 34 {
        Some((Seq::empty(), 1int))
    } else if bs.first() == 92 {
        if bs.len() < 2 {
            Option::None
        } else if bs[1] == 34 || bs[1] == 92 {
            match spec_unescape(bs.skip(2)) {
                Option::None => Option::None,
                Option::Some((c, n)) => Some((seq![bs[1]] + c, 2 + n)),
            }
        } else if bs[1] == 117 {
            if bs.len() < 6 {
                Option::None
            } else if bs[2] == 48 && bs[3] == 48 && is_hex(bs[4]) && is_hex(bs[5]) && hex_val(bs[4])
                * 16 + hex_val(bs[5]) < 32 {
                match spec_unescape(bs.skip(6)) {
                    Option::None => Option::None,
                    Option::Some((c, n)) => Some(
                        (seq![(hex_val(bs[4]) * 16 + hex_val(bs[5])) as u8] + c, 6 + n),
                    ),
                }
            } else {
                Option::None
            }
        } else {
            Option::None
        }
    } else if bs.first() < 32 {
        Option::None
    } else {
        match spec_unescape(bs.drop_first()) {
            Option::None => Option::None,
            Option::Some((c, n)) => Some((seq![bs.first()] + c, 1 + n)),
        }
    }
}

/// Parse one JSON string at the front of `bs`: yields the decoded characters
/// and the number of bytes consumed, quotes included.
pub open spec fn spec_parse_jstr(bs: Seq<u8>) -> Option<(Seq<char>, int)> {
    if bs.len() > 0 && bs.first() == 34 {
        match spec_unescape(bs.drop_first()) {
            Option::None => Option::None,
            Option::Some((content, used)) => if valid_utf8(content) {
                Some((decode_utf8(content), 1 + used))
            } else {
                Option::None
            },
        }
    } else {
        Option::None
    }
}

/// The length of the digit run at the front of `bs`.
pub open spec fn digits_len(bs: Seq<u8>) -> int
    decreases bs.len(),
{
    if bs.len() == 0 || !is_digit(bs.first()) {
        0
    } else {
        1 + digits_len(bs.drop_first())
    }
}

/// The value of a digit sequence, most significant first.
pub open spec fn dec_value(ds: Seq<u8>) -> int
    decreases ds.len(),
{
    if ds.len() == 0 {
        0
    } else {
        dec_value(ds.drop_last()) * 10 + (ds.last() - 48)
    }
}

/// Parse the decimal number at the front of `bs`: yields its value and the
/// number of digits consumed.
pub open spec fn spec_parse_dec(bs: Seq<u8>) -> Option<(int, int)> {
    if digits_len(bs) == 0 {
        Option::None
    } else {
        Some((dec_value(bs.take(digits_len(bs))), digits_len(bs)))
    }
}

/// The full functional specification of [`decode_event`]: which byte strings
/// decode, and to which event.
pub open spec fn spec_decode(bs: Seq<u8>) -> Option<EventModel> {
    if starts_at(bs, 0, lit_end_head()) {
        match spec_parse_dec(bs.skip(16)) {
            Option::None => Option::None,
            Option::Some((v, u)) => if v <= usize::MAX && bs.len() == 16 + u + 2 && starts_at(
                bs,
                16 + u,
                lit_close2(),
            ) {
                Some(EventModel::End { count: v })
            } else {
                Option::None
            },
        }
    } else if starts_at(bs, 0, lit_begin_head()) {
        match spec_parse_jstr(bs.skip(22)) {
            Option::None => Option::None,
            Option::Some((name, u1)) => if starts_at(bs, 22 + u1, lit_count_mid()) {
                match spec_parse_dec(bs.skip(22 + u1 + 9)) {
                    Option::None => Option::None,
                    Option::Some((v, u2)) => if v <= usize::MAX && bs.len() == 22 + u1 + 9 + u2 + 2
                        && starts_at(bs, 22 + u1 + 9 + u2, lit_close2()) {
                        Some(EventModel::BeginGroup { name, count: v })
                    } else {
                        Option::None
                    },
                }
            } else {
                Option::None
            },
        }
    } else if starts_at(bs, 0, lit_endgroup_head()) {
        match spec_parse_jstr(bs.skip(12)) {
            Option::None => Option::None,
            Option::Some((name, u)) => if bs.len() == 12 + u + 1 && starts_at(
                bs,
                12 + u,
                lit_close1(),
            ) {
                Some(EventModel::EndGroup { name })
            } else {
                Option::None
            },
        }
    } else if starts_at(bs, 0, lit_result_head()) {
        match spec_parse_jstr(bs.skip(18)) {
            Option::None => Option::None,
            Option::Some((name, u1)) => if starts_at(bs, 18 + u1, lit_status_mid()) {
                let p = 18 + u1 + 10;
                let st: Option<(TestStatus, int)> = if starts_at(bs, p, lit_success()) {
                    Some((TestStatus::Success, 9int))
                } else if starts_at(bs, p, lit_failed()) {
                    Some((TestStatus::Failed, 8int))
                } else if starts_at(bs, p, lit_ignored()) {
                    Some((TestStatus::Ignored, 9int))
                } else {
                    Option::None
                };
                match st {
                    Option::None => Option::None,
                    Option::Some((status, su)) => if starts_at(bs, p + su, lit_failure_mid()) {
                        match spec_parse_jstr(bs.skip(p + su + 11)) {
                            Option::None => Option::None,
                            Option::Some((failure, u2)) => if bs.len() == p + su + 11 + u2 + 2
                                && starts_at(bs, p + su + 11 + u2, lit_close2()) {
                                Some(
                                    EventModel::Result {
                                        result: ResultModel { name, status, failure },
                                    },
                                )
                            } else {
                                Option::None
                            },
                        }
                    } else {
                        Option::None
                    },
                }
            } else {
                Option::None
            },
        }
    } else {
        Option::None
    }
}

// ---------------------------------------------------------------------------
// Inverse lemmas: parsing a canonical encoding recovers the original.
// ---------------------------------------------------------------------------

/// A successful unescape consumes between one byte and the whole input.
pub proof fn lemma_unescape_bound(bs: Seq<u8>)
    ensures
        spec_unescape(bs) matches Some((c, n)) ==> 1 <= n <= bs.len(),
    decreases bs.len(),
{
    if bs.len() == 0 {
    } else if bs.first() == 34 {
    } else if bs.first() == 92 {
        if bs.len() >= 2 && (bs[1] == 34 || bs[1] == 92) {
            lemma_unescape_bound(bs.skip(2));
        } else if bs.len() >= 6 && bs[1] == 117 {
            lemma_unescape_bound(bs.skip(6));
        }
    } else if bs.first() < 32 {
    } else {
        lemma_unescape_bound(bs.drop_first());
    }
}

/// The hexadecimal digit of a value below 16 is a hex digit with that value.
proof fn lemma_hex_digit(x: int)
    requires
        0 <= x < 16,
    ensures
        is_hex(hex_digit(x)),
        hex_val(hex_digit(x)) == x,
{
}

/// Unescaping inverts escaping: after the escaped content, the closing quote
/// ends the parse with exactly the original content.
pub proof fn lemma_unescape_escape(content: Seq<u8>, rest: Seq<u8>)
    ensures
        spec_unescape(spec_escape(content) + seq![34u8] + rest) == Some(
            (content, spec_escape(content).len() as int + 1),
        ),
    decreases content.len(),
{
    if content.len() == 0 {
        assert(spec_escape(content) + seq![34u8] + rest =~= seq![34u8] + rest);
        assert((seq![34u8] + rest).first() == 34);
        assert(spec_unescape(seq![34u8] + rest) == Some((Seq::<u8>::empty(), 1int)));
        assert(content =~= Seq::<u8>::empty());
    } else {
        let c0 = content.first();
        let content1 = content.drop_first();
        let tail = spec_escape(content1) + seq![34u8] + rest;
        let full = spec_escape(content) + seq![34u8] + rest;
        assert(spec_escape(content) == esc_byte(c0) + spec_escape(content1));
        assert(full =~= esc_byte(c0) + tail);
        lemma_unescape_escape(content1, rest);
        if c0 == 34 || c0 == 92 {
            assert(full.len() == 2 + tail.len());
            assert(full.first() == 92);
            assert(full[1] == c0);
            assert(full.skip(2) =~= tail);
            assert(seq![full[1]] + content1 =~= content);
            assert(spec_unescape(full) == Some((content, spec_escape(content).len() as int + 1)));
        } else if c0 < 32 {
            let h1 = hex_digit(c0 as int / 16);
            let h2 = hex_digit(c0 as int % 16);
            lemma_hex_digit(c0 as int / 16);
            lemma_hex_digit(c0 as int % 16);
            assert(full.len() == 6 + tail.len());
            assert(full.first() == 92);
            assert(full[1] == 117);
            assert(full[2] == 48);
            assert(full[3] == 48);
            assert(full[4] == h1);
            assert(full[5] == h2);
            assert(hex_val(h1) * 16 + hex_val(h2) == c0);
            assert(full.skip(6) =~= tail);
            assert(seq![(hex_val(full[4]) * 16 + hex_val(full[5])) as u8] + content1 =~= content);
            assert(spec_unescape(full) == Some((content, spec_escape(content).len() as int + 1)));
        } else {
            assert(full.first() == c0);
            assert(full.drop_first() =~= tail);
            assert(seq![full.first()] + content1 =~= content);
            assert(spec_unescape(full) == Some((content, spec_escape(content).len() as int + 1)));
        }
    }
}

/// Parsing a canonical JSON string followed by anything yields exactly the
/// original characters.
pub proof fn lemma_parse_jstr_canonical(s: Seq<char>, rest: Seq<u8>)
    ensures
        spec_parse_jstr(spec_json_string(s) + rest) == Some(
            (s, spec_json_string(s).len() as int),
        ),
{
    let bs = spec_json_string(s) + rest;
    let content = encode_utf8(s);
    assert(bs.first() == 34);
    assert(bs.drop_first() =~= spec_escape(content) + seq![34u8] + rest);
    lemma_unescape_escape(content, rest);
    broadcast use encode_utf8_valid_utf8;
    broadcast use encode_utf8_decode_utf8;

    assert(valid_utf8(content));
    assert(decode_utf8(content) == s);
    assert(1 + (spec_escape(content).len() + 1) == spec_json_string(s).len());
}

/// The digits of a nonnegative number are digits, at least one of them.
proof fn lemma_spec_dec_digits(n: int)
    requires
        n >= 0,
    ensures
        spec_dec(n).len() >= 1,
        forall|i: int| 0 <= i < spec_dec(n).len() ==> is_digit(#[trigger] spec_dec(n)[i]),
    decreases n,
{
    if n >= 10 {
        lemma_spec_dec_digits(n / 10);
        assert(forall|i: int|
            0 <= i < spec_dec(n / 10).len() ==> #[trigger] spec_dec(n)[i] == spec_dec(n / 10)[i]);
        assert(spec_dec(n).last() == (48 + n % 10) as u8);
    }
}

/// The digit run of a digit sequence followed by a non-digit is the whole
/// digit sequence.
proof fn lemma_digits_len(a: Seq<u8>, rest: Seq<u8>)
    requires
        forall|i: int| 0 <= i < a.len() ==> is_digit(#[trigger] a[i]),
        rest.len() == 0 || !is_digit(rest.first()),
    ensures
        digits_len(a + rest) == a.len(),
    decreases a.len(),
{
    if a.len() == 0 {
        assert(a + rest =~= rest);
    } else {
        assert((a + rest).first() == a.first());
        assert((a + rest).drop_first() =~= a.drop_first() + rest);
        lemma_digits_len(a.drop_first(), rest);
    }
}

/// Digit values are nonnegative.
proof fn lemma_dec_value_nonneg(ds: Seq<u8>)
    requires
        forall|i: int| 0 <= i < ds.len() ==> is_digit(#[trigger] ds[i]),
    ensures
        dec_value(ds) >= 0,
    decreases ds.len(),
{
    if ds.len() > 0 {
        assert(forall|i: int|
            0 <= i < ds.len() - 1 ==> #[trigger] ds.drop_last()[i] == ds[i]);
        lemma_dec_value_nonneg(ds.drop_last());
    }
}

/// The value of a digit prefix never exceeds the value of the whole run.
proof fn lemma_dec_value_prefix(ds: Seq<u8>, i: int)
    requires
        forall|j: int| 0 <= j < ds.len() ==> is_digit(#[trigger] ds[j]),
        0 <= i <= ds.len(),
    ensures
        dec_value(ds.take(i)) <= dec_value(ds),
    decreases ds.len() - i,
{
    if i == ds.len() {
        assert(ds.take(i) =~= ds);
    } else {
        let e = ds.take(i + 1);
        assert(forall|j: int| 0 <= j < e.len() ==> #[trigger] e[j] == ds[j]);
        assert(e.drop_last() =~= ds.take(i));
        assert(e.last() == ds[i]);
        lemma_dec_value_nonneg(ds.take(i));
        assert(dec_value(ds.take(i)) <= dec_value(ds.take(i + 1)));
        lemma_dec_value_prefix(ds, i + 1);
    }
}

/// The decimal digits of a nonnegative number evaluate back to it.
proof fn lemma_dec_value_spec_dec(n: int)
    requires
        n >= 0,
    ensures
        dec_value(spec_dec(n)) == n,
    decreases n,
{
    if n < 10 {
        let ds = spec_dec(n);
        assert(ds.drop_last() =~= Seq::<u8>::empty());
        assert(dec_value(Seq::<u8>::empty()) == 0);
    } else {
        let ds = spec_dec(n);
        assert(ds.drop_last() =~= spec_dec(n / 10));
        assert(ds.last() == (48 + n % 10) as u8);
        lemma_dec_value_spec_dec(n / 10);
    }
}

/// Parsing a canonical decimal followed by a non-digit yields exactly the
/// original number.
pub proof fn lemma_parse_dec_canonical(n: int, rest: Seq<u8>)
    requires
        n >= 0,
        rest.len() == 0 || !is_digit(rest.first()),
    ensures
        spec_parse_dec(spec_dec(n) + rest) == Some((n, spec_dec(n).len() as int)),
{
    let bs = spec_dec(n) + rest;
    lemma_spec_dec_digits(n);
    lemma_digits_len(spec_dec(n), rest);
    assert(bs.take(spec_dec(n).len() as int) =~= spec_dec(n));
    lemma_dec_value_spec_dec(n);
}

// ---------------------------------------------------------------------------
// The encoder.
// ---------------------------------------------------------------------------

/// Append the escaped form of `bs` to `out`.
fn append_escaped(out: &mut Vec<u8>, bs: &[u8])
    ensures
        final(out)@ == old(out)@ + spec_escape(bs@),
{
    let ghost start = out@;
    let mut i: usize = 0;
    while i < bs.len()
        invariant
            i <= bs.len(),
            out@ == start + spec_escape(bs@.take(i as int)),
        decreases bs.len() - i,
    {
        let ghost done = bs@.take(i as int);
        let b = bs[i];
        if b == 34 {
            out.push(92);
            out.push(34);
        } else if b == 92 {
            out.push(92);
            out.push(92);
        } else if b < 32 {
            out.push(92);
            out.push(117);
            out.push(48);
            out.push(48);
            let hi = b / 16;
            let lo = b % 16;
            out.push(if hi < 10 { 48 + hi } else { 87 + hi });
            out.push(if lo < 10 { 48 + lo } else { 87 + lo });
        } else {
            out.push(b);
        }
        i = i + 1;
        proof {
            lemma_escape_concat(done, seq![b]);
            assert(bs@.take(i as int) =~= done + seq![b]);
            assert(seq![b].drop_first() =~= Seq::<u8>::empty());
            assert(spec_escape(Seq::<u8>::empty()) =~= Seq::<u8>::empty());
            assert(spec_escape(seq![b]) =~= esc_byte(b));
            assert(out@ =~= start + spec_escape(bs@.take(i as int)));
        }
    }
    proof {
        assert(bs@.take(bs@.len() as int) =~= bs@);
    }
}

/// Escaping distributes over concatenation.
pub proof fn lemma_escape_concat(a: Seq<u8>, b: Seq<u8>)
    ensures
        spec_escape(a + b) == spec_escape(a) + spec_escape(b),
    decreases a.len(),
{
    if a.len() == 0 {
        assert(a + b =~= b);
        assert(spec_escape(a) + spec_escape(b) =~= spec_escape(b));
    } else {
        assert((a + b).drop_first() =~= a.drop_first() + b);
        assert((a + b).first() == a.first());
        assert((a + b).len() > 0);
        lemma_escape_concat(a.drop_first(), b);
        assert(spec_escape(a + b) =~= spec_escape(a) + spec_escape(b));
    }
}

/// Append the quoted, escaped form of `s` to `out`.
fn append_json_string(out: &mut Vec<u8>, s: &str)
    ensures
        final(out)@ == old(out)@ + spec_json_string(s@),
{
    out.push(34);
    append_escaped(out, s.as_bytes());
    out.push(34);
    proof {
        assert(out@ =~= old(out)@ + spec_json_string(s@));
    }
}

/// Append the decimal digits of `n` to `out`.
fn append_dec(out: &mut Vec<u8>, n: usize)
    ensures
        final(out)@ == old(out)@ + spec_dec(n as int),
    decreases n,
{
    if n < 10 {
        out.push(48 + n as u8);
        proof {
            assert(out@ =~= old(out)@ + spec_dec(n as int));
        }
    } else {
        append_dec(out, n / 10);
        out.push(48 + (n % 10) as u8);
        proof {
            assert(out@ =~= old(out)@ + spec_dec(n as int));
        }
    }
}

/// Build `{"End":{"count":` as a vector.
fn make_end_head() -> (r: Vec<u8>)
    ensures
        r@ == lit_end_head(),
{
    let mut v: Vec<u8> = Vec::new();
    v.push(123);
    v.push(34);
    v.push(69);
    v.push(110);
    v.push(100);
    v.push(34);
    v.push(58);
    v.push(123);
    v.push(34);
    v.push(99);
    v.push(111);
    v.push(117);
    v.push(110);
    v.push(116);
    v.push(34);
    v.push(58);
    proof {
        assert(v@ =~= lit_end_head());
    }
    v
}

/// Build `{"BeginGroup":{"name":` as a vector.
fn make_begin_head() -> (r: Vec<u8>)
    ensures
        r@ == lit_begin_head(),
{
    let mut v: Vec<u8> = Vec::new();
    v.push(123);
    v.push(34);
    v.push(66);
    v.push(101);
    v.push(103);
    v.push(105);
    v.push(110);
    v.push(71);
    v.push(114);
    v.push(111);
    v.push(117);
    v.push(112);
    v.push(34);
    v.push(58);
    v.push(123);
    v.push(34);
    v.push(110);
    v.push(97);
    v.push(109);
    v.push(101);
    v.push(34);
    v.push(58);
    proof {
        assert(v@ =~= lit_begin_head());
    }
    v
}

/// Build `,"count":` as a vector.
fn make_count_mid() -> (r: Vec<u8>)
    ensures
        r@ == lit_count_mid(),
{
    let mut v: Vec<u8> = Vec::new();
    v.push(44);
    v.push(34);
    v.push(99);
    v.push(111);
    v.push(117);
    v.push(110);
    v.push(116);
    v.push(34);
    v.push(58);
    proof {
        assert(v@ =~= lit_count_mid());
    }
    v
}

/// Build `{"EndGroup":` as a vector.
fn make_endgroup_head() -> (r: Vec<u8>)
    ensures
        r@ == lit_endgroup_head(),
{
    let mut v: Vec<u8> = Vec::new();
    v.push(123);
    v.push(34);
    v.push(69);
    v.push(110);
    v.push(100);
    v.push(71);
    v.push(114);
    v.push(111);
    v.push(117);
    v.push(112);
    v.push(34);
    v.push(58);
    proof {
        assert(v@ =~= lit_endgroup_head());
    }
    v
}

/// Build `{"Result":{"name":` as a vector.
fn make_result_head() -> (r: Vec<u8>)
    ensures
        r@ == lit_result_head(),
{
    let mut v: Vec<u8> = Vec::new();
    v.push(123);
    v.push(34);
    v.push(82);
    v.push(101);
    v.push(115);
    v.push(117);
    v.push(108);
    v.push(116);
    v.push(34);
    v.push(58);
    v.push(123);
    v.push(34);
    v.push(110);
    v.push(97);
    v.push(109);
    v.push(101);
    v.push(34);
    v.push(58);
    proof {
        assert(v@ =~= lit_result_head());
    }
    v
}

/// Build `,"status":` as a vector.
fn make_status_mid() -> (r: Vec<u8>)
    ensures
        r@ == lit_status_mid(),
{
    let mut v: Vec<u8> = Vec::new();
    v.push(44);
    v.push(34);
    v.push(115);
    v.push(116);
    v.push(97);
    v.push(116);
    v.push(117);
    v.push(115);
    v.push(34);
    v.push(58);
    proof {
        assert(v@ =~= lit_status_mid());
    }
    v
}

/// Build `,"failure":` as a vector.
fn make_failure_mid() -> (r: Vec<u8>)
    ensures
        r@ == lit_failure_mid(),
{
    let mut v: Vec<u8> = Vec::new();
    v.push(44);
    v.push(34);
    v.push(102);
    v.push(97);
    v.push(105);
    v.push(108);
    v.push(117);
    v.push(114);
    v.push(101);
    v.push(34);
    v.push(58);
    proof {
        assert(v@ =~= lit_failure_mid());
    }
    v
}

/// Build `"Success"` as a vector.
fn make_success() -> (r: Vec<u8>)
    ensures
        r@ == lit_success(),
{
    let mut v: Vec<u8> = Vec::new();
    v.push(34);
    v.push(83);
    v.push(117);
    v.push(99);
    v.push(99);
    v.push(101);
    v.push(115);
    v.push(115);
    v.push(34);
    proof {
        assert(v@ =~= lit_success());
    }
    v
}

/// Build `"Failed"` as a vector.
fn make_failed() -> (r: Vec<u8>)
    ensures
        r@ == lit_failed(),
{
    let mut v: Vec<u8> = Vec::new();
    v.push(34);
    v.push(70);
    v.push(97);
    v.push(105);
    v.push(108);
    v.push(101);
    v.push(100);
    v.push(34);
    proof {
        assert(v@ =~= lit_failed());
    }
    v
}

/// Build `"Ignored"` as a vector.
fn make_ignored() -> (r: Vec<u8>)
    ensures
        r@ == lit_ignored(),
{
    let mut v: Vec<u8> = Vec::new();
    v.push(34);
    v.push(73);
    v.push(103);
    v.push(110);
    v.push(111);
    v.push(114);
    v.push(101);
    v.push(100);
    v.push(34);
    proof {
        assert(v@ =~= lit_ignored());
    }
    v
}

// ---------------------------------------------------------------------------
// The decoder.
// ---------------------------------------------------------------------------

/// Whether `lit` occurs in `buf` at position `pos`.
pub(crate) fn match_lit(buf: &Vec<u8>, pos: usize, lit: &Vec<u8>) -> (r: bool)
    ensures
        r == starts_at(buf@, pos as int, lit@),
{
    if pos > buf.len() || lit.len() > buf.len() - pos {
        assert(!starts_at(buf@, pos as int, lit@));
        return false;
    }
    let mut i: usize = 0;
    while i < lit.len()
        invariant
            pos + lit.len() <= buf.len(),
            i <= lit.len(),
            forall|j: int| 0 <= j < i ==> buf@[pos + j] == lit@[j],
        decreases lit.len() - i,
    {
        if buf[pos + i] != lit[i] {
            proof {
                assert(buf@.subrange(pos as int, pos + lit@.len())[i as int] != lit@[i as int]);
            }
            return false;
        }
        i = i + 1;
    }
    proof {
        assert(buf@.subrange(pos as int, pos + lit@.len()) =~= lit@);
    }
    true
}

/// Parse the decimal number at `pos`: its value and the position after it.
fn parse_dec_at(buf: &Vec<u8>, pos: usize) -> (r: Option<(usize, usize)>)
    requires
        pos <= buf@.len(),
    ensures
        match spec_parse_dec(buf@.skip(pos as int)) {
            Option::None => r is None,
            Option::Some((v, u)) => if v <= usize::MAX {
                r matches Some((value, next)) && value == v && next == pos + u && next
                    <= buf@.len()
            } else {
                r is None
            },
        },
{
    if pos >= buf.len() || buf[pos] < 48 || buf[pos] > 57 {
        proof {
            let suffix = buf@.skip(pos as int);
            if pos < buf.len() {
                assert(suffix.first() == buf@[pos as int]);
            }
            assert(digits_len(suffix) == 0);
        }
        return Option::None;
    }
    let mut j: usize = pos;
    let mut acc: usize = 0;
    while j < buf.len() && buf[j] >= 48 && buf[j] <= 57
        invariant
            pos <= j <= buf@.len(),
            forall|k: int| pos <= k < j ==> is_digit(#[trigger] buf@[k]),
            acc == dec_value(buf@.subrange(pos as int, j as int)),
        decreases buf@.len() - j,
    {
        let ghost run = buf@.subrange(pos as int, j as int);
        let d = buf[j] - 48;
        let step = match acc.checked_mul(10) {
            Option::Some(m) => m.checked_add(d as usize),
            Option::None => Option::None,
        };
        match step {
            Option::Some(next_acc) => {
                acc = next_acc;
                j = j + 1;
                proof {
                    let run2 = buf@.subrange(pos as int, j as int);
                    assert(run2.drop_last() =~= run);
                    assert(run2.last() == buf@[j - 1]);
                }
            },
            Option::None => {
                // The run's full value exceeds `usize::MAX`: the parse fails.
                proof {
                    let suffix = buf@.skip(pos as int);
                    lemma_digits_suffix(buf@, pos as int);
                    let full = digits_run_end(buf@, pos as int);
                    if full <= j {
                        assert(is_digit(buf@[full]));
                        assert(false);
                    }
                    let dl = digits_len(suffix);
                    assert(dl == full - pos);
                    let run_all = suffix.take(dl);
                    let upto = suffix.take(j - pos + 1);
                    assert(upto =~= buf@.subrange(pos as int, j + 1));
                    assert(upto.drop_last() =~= run);
                    assert(upto.last() == buf@[j as int]);
                    assert(dec_value(upto) == acc * 10 + d);
                    assert(forall|k: int|
                        0 <= k < run_all.len() ==> is_digit(#[trigger] run_all[k]));
                    lemma_dec_value_prefix(run_all, j - pos + 1);
                    assert(run_all.take(j - pos + 1) =~= upto);
                    assert(dec_value(run_all) >= acc * 10 + d > usize::MAX);
                }
                return Option::None;
            },
        }
    }
    proof {
        let suffix = buf@.skip(pos as int);
        lemma_digits_suffix(buf@, pos as int);
        let full = digits_run_end(buf@, pos as int);
        if full < j {
            assert(is_digit(buf@[full]));
            assert(false);
        }
        if full > j {
            assert(is_digit(buf@[j as int]));
            assert(false);
        }
        assert(suffix.take(j - pos) =~= buf@.subrange(pos as int, j as int));
    }
    Option::Some((acc, j))
}

/// The end of the digit run of `bs` that starts at `pos`.
spec fn digits_run_end(bs: Seq<u8>, pos: int) -> int
    decreases bs.len() - pos,
{
    if pos < 0 || pos >= bs.len() || !is_digit(bs[pos]) {
        pos
    } else {
        digits_run_end(bs, pos + 1)
    }
}

/// `digits_len` of the suffix at `pos` reaches to the end of the digit run,
/// and every byte before that end is a digit.
proof fn lemma_digits_suffix(bs: Seq<u8>, pos: int)
    requires
        0 <= pos <= bs.len(),
    ensures
        pos <= digits_run_end(bs, pos) <= bs.len(),
        digits_len(bs.skip(pos)) == digits_run_end(bs, pos) - pos,
        forall|k: int| pos <= k < digits_run_end(bs, pos) ==> is_digit(#[trigger] bs[k]),
        digits_run_end(bs, pos) < bs.len() ==> !is_digit(bs[digits_run_end(bs, pos)]),
    decreases bs.len() - pos,
{
    let suffix = bs.skip(pos);
    if pos == bs.len() {
        assert(suffix.len() == 0);
    } else {
        assert(suffix.first() == bs[pos]);
        if !is_digit(bs[pos]) {
        } else {
            lemma_digits_suffix(bs, pos + 1);
            assert(suffix.drop_first() =~= bs.skip(pos + 1));
        }
    }
}

/// Turn UTF-8 bytes into the string they spell.
///
/// Relies on `String::from_utf8`: it succeeds exactly on valid UTF-8, and
/// the returned string's byte encoding is the input.
#[verifier::external_body]
fn bytes_to_string(v: Vec<u8>) -> (r: Option<String>)
    ensures
        r matches Some(s) ==> encode_utf8(s@) == v@,
        valid_utf8(v@) ==> r is Some,
{
    String::from_utf8(v).ok()
}

/// Unescape string content from `start` up to and including the closing
/// quote: the content bytes and the position after the quote.
fn unescape_at(buf: &Vec<u8>, start: usize) -> (r: Option<(Vec<u8>, usize)>)
    requires
        start <= buf@.len(),
    ensures
        match spec_unescape(buf@.skip(start as int)) {
            Option::None => r is None,
            Option::Some((c, n)) => r matches Some((content, next)) && content@ == c && next
                == start + n,
        },
{
    proof {
        lemma_unescape_bound(buf@.skip(start as int));
    }
    let mut acc: Vec<u8> = Vec::new();
    let mut j: usize = start;
    loop
        invariant
            start <= j <= buf@.len(),
            spec_unescape(buf@.skip(start as int)) == (match spec_unescape(buf@.skip(j as int)) {
                Option::None => Option::None::<(Seq<u8>, int)>,
                Option::Some((c, n)) => Some((acc@ + c, (j - start) + n)),
            }),
        decreases buf@.len() - j,
    {
        let ghost sj = buf@.skip(j as int);
        let ghost whole = spec_unescape(buf@.skip(start as int));
        if j >= buf.len() {
            assert(whole is None);
            return Option::None;
        }
        let b = buf[j];
        proof {
            assert(sj.first() == buf@[j as int]);
        }
        if b == 34 {
            proof {
                assert(spec_unescape(sj) == Some((Seq::<u8>::empty(), 1int)));
                assert(acc@ + Seq::<u8>::empty() =~= acc@);
            }
            return Option::Some((acc, j + 1));
        } else if b == 92 {
            if buf.len() - j < 2 {
                assert(sj.len() < 2);
                assert(whole is None);
                return Option::None;
            }
            let e = buf[j + 1];
            proof {
                assert(sj[1] == buf@[j + 1]);
            }
            if e == 34 || e == 92 {
                proof {
                    assert(sj.skip(2) =~= buf@.skip(j + 2));
                    assert(forall|c: Seq<u8>| acc@ + (seq![e] + c) =~= (acc@ + seq![e]) + c);
                }
                acc.push(e);
                j = j + 2;
            } else if e == 117 {
                if buf.len() - j < 6 {
                    assert(sj.len() < 6);
                    assert(whole is None);
                    return Option::None;
                }
                let z1 = buf[j + 2];
                let z2 = buf[j + 3];
                let h1 = buf[j + 4];
                let h2 = buf[j + 5];
                proof {
                    assert(sj[2] == buf@[j + 2]);
                    assert(sj[3] == buf@[j + 3]);
                    assert(sj[4] == buf@[j + 4]);
                    assert(sj[5] == buf@[j + 5]);
                }
                let h1_ok = (h1 >= 48 && h1 <= 57) || (h1 >= 97 && h1 <= 102);
                let h2_ok = (h2 >= 48 && h2 <= 57) || (h2 >= 97 && h2 <= 102);
                if z1 == 48 && z2 == 48 && h1_ok && h2_ok {
                    let v1: u8 = if h1 <= 57 {
                        h1 - 48
                    } else {
                        h1 - 87
                    };
                    let v2: u8 = if h2 <= 57 {
                        h2 - 48
                    } else {
                        h2 - 87
                    };
                    if v1 * 16 + v2 < 32 {
                        let val = v1 * 16 + v2;
                        proof {
                            assert(val == (hex_val(sj[4]) * 16 + hex_val(sj[5])) as u8);
                            assert(sj.skip(6) =~= buf@.skip(j + 6));
                            assert(forall|c: Seq<u8>|
                                acc@ + (seq![val] + c) =~= (acc@ + seq![val]) + c);
                        }
                        acc.push(val);
                        j = j + 6;
                    } else {
                        assert(whole is None);
                        return Option::None;
                    }
                } else {
                    assert(whole is None);
                    return Option::None;
                }
            } else {
                assert(whole is None);
                return Option::None;
            }
        } else if b < 32 {
            assert(whole is None);
            return Option::None;
        } else {
            proof {
                assert(sj.drop_first() =~= buf@.skip(j + 1));
                assert(forall|c: Seq<u8>| acc@ + (seq![b] + c) =~= (acc@ + seq![b]) + c);
            }
            acc.push(b);
            j = j + 1;
        }
    }
}

/// Parse the JSON string at `pos`: its characters and the position after
/// its closing quote.
fn parse_jstr_at(buf: &Vec<u8>, pos: usize) -> (r: Option<(String, usize)>)
    requires
        pos <= buf@.len(),
    ensures
        match spec_parse_jstr(buf@.skip(pos as int)) {
            Option::None => r is None,
            Option::Some((s, u)) => r matches Some((name, next)) && name@ == s && next == pos + u
                && next <= buf@.len(),
        },
{
    let ghost suffix = buf@.skip(pos as int);
    if pos >= buf.len() || buf[pos] != 34 {
        proof {
            if pos < buf.len() {
                assert(suffix.first() == buf@[pos as int]);
            }
        }
        return Option::None;
    }
    proof {
        assert(suffix.first() == buf@[pos as int]);
        assert(suffix.drop_first() =~= buf@.skip(pos + 1));
        lemma_unescape_bound(buf@.skip(pos + 1));
    }
    match unescape_at(buf, pos + 1) {
        Option::Some((content, next)) => {
            let ghost c = content@;
            match bytes_to_string(content) {
                Option::Some(s) => {
                    proof {
                        broadcast use encode_utf8_valid_utf8;
                        broadcast use encode_utf8_decode_utf8;

                        assert(valid_utf8(c));
                        assert(decode_utf8(c) == s@);
                    }
                    Option::Some((s, next))
                },
                Option::None => {
                    proof {
                        assert(!valid_utf8(c));
                    }
                    Option::None
                },
            }
        },
        Option::None => Option::None,
    }
}

/// Decode one event from its canonical compact JSON bytes: the exact
/// inverse of [`encode_event`], as [`spec_decode`] prescribes.
pub fn decode_event(buf: &Vec<u8>) -> (r: Option<TestEvent>)
    ensures
        match spec_decode(buf@) {
            Option::None => r is None,
            Option::Some(m) => r matches Some(e) && e@ == m,
        },
{
    let n = buf.len();
    proof {
        assert(buf@.len() == n);
    }
    let end_head = make_end_head();
    let begin_head = make_begin_head();
    let endgroup_head = make_endgroup_head();
    let result_head = make_result_head();
    if match_lit(buf, 0, &end_head) {
        match parse_dec_at(buf, 16) {
            Option::Some((count, p)) => {
                let close2 = make_close2();
                if match_lit(buf, p, &close2) && 2 <= n - p {
                    proof {
                        assert(p + 2 <= buf@.len());
                    }
                    if p + 2 == n {
                        Option::Some(TestEvent::End { count })
                    } else {
                        Option::None
                    }
                } else {
                    Option::None
                }
            },
            Option::None => Option::None,
        }
    } else if match_lit(buf, 0, &begin_head) {
        match parse_jstr_at(buf, 22) {
            Option::Some((name, p1)) => {
                let count_mid = make_count_mid();
                if match_lit(buf, p1, &count_mid) {
                    proof {
                        assert(p1 + lit_count_mid().len() <= buf@.len());
                    }
                    match parse_dec_at(buf, p1 + 9) {
                        Option::Some((count, p2)) => {
                            let close2 = make_close2();
                            if match_lit(buf, p2, &close2) && 2 <= n - p2 {
                                proof {
                                    assert(p2 + 2 <= buf@.len());
                                }
                                if p2 + 2 == n {
                                    Option::Some(TestEvent::BeginGroup { name, count })
                                } else {
                                    Option::None
                                }
                            } else {
                                Option::None
                            }
                        },
                        Option::None => Option::None,
                    }
                } else {
                    Option::None
                }
            },
            Option::None => Option::None,
        }
    } else if match_lit(buf, 0, &endgroup_head) {
        match parse_jstr_at(buf, 12) {
            Option::Some((name, p)) => {
                let close1 = make_close1();
                if match_lit(buf, p, &close1) && 1 <= n - p {
                    proof {
                        assert(p + 1 <= buf@.len());
                    }
                    if p + 1 == n {
                        Option::Some(TestEvent::EndGroup(name))
                    } else {
                        Option::None
                    }
                } else {
                    Option::None
                }
            },
            Option::None => Option::None,
        }
    } else if match_lit(buf, 0, &result_head) {
        match parse_jstr_at(buf, 18) {
            Option::Some((name, p1)) => {
                let status_mid = make_status_mid();
                if match_lit(buf, p1, &status_mid) {
                    proof {
                        assert(p1 + lit_status_mid().len() <= buf@.len());
                    }
                    let p = p1 + 10;
                    let success = make_success();
                    let failed = make_failed();
                    let ignored = make_ignored();
                    let st: Option<(TestStatus, usize)> = if match_lit(buf, p, &success) {
                        Option::Some((TestStatus::Success, 9))
                    } else if match_lit(buf, p, &failed) {
                        Option::Some((TestStatus::Failed, 8))
                    } else if match_lit(buf, p, &ignored) {
                        Option::Some((TestStatus::Ignored, 9))
                    } else {
                        Option::None
                    };
                    match st {
                        Option::Some((status, su)) => {
                            let failure_mid = make_failure_mid();
                            if match_lit(buf, p + su, &failure_mid) {
                                proof {
                                    assert(p + su + lit_failure_mid().len() <= buf@.len());
                                }
                                match parse_jstr_at(buf, p + su + 11) {
                                    Option::Some((failure, p2)) => {
                                        let close2 = make_close2();
                                        if match_lit(buf, p2, &close2) && 2 <= n - p2 {
                                            proof {
                                                assert(p2 + 2 <= buf@.len());
                                            }
                                            if p2 + 2 == n {
                                                Option::Some(
                                                    TestEvent::Result(
                                                        TestResult { name, status, failure },
                                                    ),
                                                )
                                            } else {
                                                Option::None
                                            }
                                        } else {
                                            Option::None
                                        }
                                    },
                                    Option::None => Option::None,
                                }
                            } else {
                                Option::None
                            }
                        },
                        Option::None => Option::None,
                    }
                } else {
                    Option::None
                }
            },
            Option::None => Option::None,
        }
    } else {
        Option::None
    }
}

/// Build `}}` as a vector.
fn make_close2() -> (r: Vec<u8>)
    ensures
        r@ == lit_close2(),
{
    let mut v: Vec<u8> = Vec::new();
    v.push(125);
    v.push(125);
    proof {
        assert(v@ =~= lit_close2());
    }
    v
}

/// Build `}` as a vector.
fn make_close1() -> (r: Vec<u8>)
    ensures
        r@ == lit_close1(),
{
    let mut v: Vec<u8> = Vec::new();
    v.push(125);
    proof {
        assert(v@ =~= lit_close1());
    }
    v
}

/// Encode one event as its canonical compact JSON bytes.
pub fn encode_event(e: &TestEvent) -> (r: Vec<u8>)
    ensures
        r@ == spec_event_bytes(e@),
{
    let mut out: Vec<u8> = Vec::new();
    match e {
        TestEvent::End { count } => {
            let mut head = make_end_head();
            out.append(&mut head);
            append_dec(&mut out, *count);
            out.push(125);
            out.push(125);
            proof {
                assert(out@ =~= spec_event_bytes(e@));
            }
        },
        TestEvent::BeginGroup { name, count } => {
            let mut head = make_begin_head();
            out.append(&mut head);
            append_json_string(&mut out, name.as_str());
            let mut mid = make_count_mid();
            out.append(&mut mid);
            append_dec(&mut out, *count);
            out.push(125);
            out.push(125);
            proof {
                assert(out@ =~= spec_event_bytes(e@));
            }
        },
        TestEvent::EndGroup(name) => {
            let mut head = make_endgroup_head();
            out.append(&mut head);
            append_json_string(&mut out, name.as_str());
            out.push(125);
            proof {
                assert(out@ =~= spec_event_bytes(e@));
            }
        },
        TestEvent::Result(result) => {
            let mut head = make_result_head();
            out.append(&mut head);
            append_json_string(&mut out, result.name.as_str());
            let mut mid = make_status_mid();
            out.append(&mut mid);
            let mut status = match result.status {
                TestStatus::Success => make_success(),
                TestStatus::Failed => make_failed(),
                TestStatus::Ignored => make_ignored(),
            };
            out.append(&mut status);
            let mut mid2 = make_failure_mid();
            out.append(&mut mid2);
            append_json_string(&mut out, result.failure.as_str());
            out.push(125);
            out.push(125);
            proof {
                assert(out@ =~= spec_event_bytes(e@));
            }
        },
    }
    out
}


// ---------------------------------------------------------------------------
// The round-trip law.
// ---------------------------------------------------------------------------

/// Decoding inverts encoding: the canonical bytes of every event decode to
/// exactly that event, for every variant, every name (Unicode included) and
/// every failure text.
pub proof fn lemma_decode_encode(m: EventModel)
    requires
        event_model_wf(m),
    ensures
        spec_decode(spec_event_bytes(m)) == Some(m),
{
    match m {
        EventModel::End { count } => lemma_decode_encode_end(count),
        EventModel::BeginGroup { name, count } => lemma_decode_encode_begin(name, count),
        EventModel::EndGroup { name } => lemma_decode_encode_endgroup(name),
        EventModel::Result { result } => lemma_decode_encode_result(result),
    }
}

#[verifier::rlimit(60)]
proof fn lemma_decode_encode_end(count: int)
    requires
        0 <= count <= usize::MAX,
    ensures
        spec_decode(spec_event_bytes(EventModel::End { count })) == Some(
            EventModel::End { count },
        ),
{
    let bs = spec_event_bytes(EventModel::End { count });
    let d = spec_dec(count);
    let dl = d.len() as int;
    assert(bs =~= lit_end_head() + (d + lit_close2()));
    assert(bs.len() == 16 + dl + 2);
    assert(bs.subrange(0, 16) =~= lit_end_head());
    assert(starts_at(bs, 0, lit_end_head()));
    assert(bs.skip(16) =~= d + lit_close2());
    lemma_parse_dec_canonical(count, lit_close2());
    assert(spec_parse_dec(bs.skip(16)) == Some((count, dl)));
    assert(bs.subrange(16 + dl, 16 + dl + 2) =~= lit_close2());
    assert(starts_at(bs, 16 + dl, lit_close2()));
}

#[verifier::rlimit(60)]
proof fn lemma_decode_encode_begin(name: Seq<char>, count: int)
    requires
        0 <= count <= usize::MAX,
    ensures
        spec_decode(spec_event_bytes(EventModel::BeginGroup { name, count })) == Some(
            EventModel::BeginGroup { name, count },
        ),
{
    let bs = spec_event_bytes(EventModel::BeginGroup { name, count });
    let j = spec_json_string(name);
    let jl = j.len() as int;
    let d = spec_dec(count);
    let dl = d.len() as int;
    let tail = lit_count_mid() + (d + lit_close2());
    assert(bs =~= lit_begin_head() + (j + tail));
    assert(j.len() >= 2);
    assert(bs.len() == 22 + jl + 9 + dl + 2);
    // Not an `End` encoding: the tag bytes differ.
    assert(bs[2] == 66);
    if starts_at(bs, 0, lit_end_head()) {
        assert(bs.subrange(0, 16)[2] == bs[2]);
        assert(false);
    }
    assert(bs.subrange(0, 22) =~= lit_begin_head());
    assert(starts_at(bs, 0, lit_begin_head()));
    assert(bs.skip(22) =~= j + tail);
    lemma_parse_jstr_canonical(name, tail);
    assert(spec_parse_jstr(bs.skip(22)) == Some((name, jl)));
    assert(bs.subrange(22 + jl, 22 + jl + 9) =~= lit_count_mid());
    assert(starts_at(bs, 22 + jl, lit_count_mid()));
    assert(bs.skip(22 + jl + 9) =~= d + lit_close2());
    lemma_parse_dec_canonical(count, lit_close2());
    assert(spec_parse_dec(bs.skip(22 + jl + 9)) == Some((count, dl)));
    assert(bs.subrange(22 + jl + 9 + dl, 22 + jl + 9 + dl + 2) =~= lit_close2());
    assert(starts_at(bs, 22 + jl + 9 + dl, lit_close2()));
}

#[verifier::rlimit(60)]
proof fn lemma_decode_encode_endgroup(name: Seq<char>)
    ensures
        spec_decode(spec_event_bytes(EventModel::EndGroup { name })) == Some(
            EventModel::EndGroup { name },
        ),
{
    let bs = spec_event_bytes(EventModel::EndGroup { name });
    let j = spec_json_string(name);
    let jl = j.len() as int;
    assert(bs =~= lit_endgroup_head() + (j + lit_close1()));
    assert(j.len() >= 2);
    assert(bs.len() == 12 + jl + 1);
    // Not an `End` encoding: byte 5 differs.
    assert(bs[5] == 71);
    if starts_at(bs, 0, lit_end_head()) {
        assert(bs.subrange(0, 16)[5] == bs[5]);
        assert(false);
    }
    // Not a `BeginGroup` encoding: the tag bytes differ.
    assert(bs[2] == 69);
    if starts_at(bs, 0, lit_begin_head()) {
        assert(bs.subrange(0, 22)[2] == bs[2]);
        assert(false);
    }
    assert(bs.subrange(0, 12) =~= lit_endgroup_head());
    assert(starts_at(bs, 0, lit_endgroup_head()));
    assert(bs.skip(12) =~= j + lit_close1());
    lemma_parse_jstr_canonical(name, lit_close1());
    assert(spec_parse_jstr(bs.skip(12)) == Some((name, jl)));
    assert(bs.subrange(12 + jl, 12 + jl + 1) =~= lit_close1());
    assert(starts_at(bs, 12 + jl, lit_close1()));
}

/// A sequence starts with its own first summand.
proof fn lemma_starts_concat(a: Seq<u8>, b: Seq<u8>)
    ensures
        starts_at(a + b, 0, a),
{
    assert((a + b).subrange(0, a.len() as int) =~= a);
}

/// An occurrence in a suffix is an occurrence in the whole, shifted.
proof fn lemma_starts_shift(bs: Seq<u8>, k: int, a: int, lit: Seq<u8>)
    requires
        0 <= k <= bs.len(),
        starts_at(bs.skip(k), a, lit),
    ensures
        starts_at(bs, k + a, lit),
{
    assert(bs.subrange(k + a, k + a + lit.len()) =~= bs.skip(k).subrange(a, a + lit.len()));
}

/// A mismatched byte rules an occurrence out.
proof fn lemma_not_starts(bs: Seq<u8>, lit: Seq<u8>, i: int)
    requires
        0 <= i < lit.len(),
        i < bs.len(),
        bs[i] != lit[i],
    ensures
        !starts_at(bs, 0, lit),
{
    if starts_at(bs, 0, lit) {
        assert(bs.subrange(0, lit.len() as int)[i] == bs[i]);
    }
}

#[verifier::rlimit(100)]
proof fn lemma_decode_encode_result(result: ResultModel)
    ensures
        spec_decode(spec_event_bytes(EventModel::Result { result })) == Some(
            EventModel::Result { result },
        ),
{
    let bs = spec_event_bytes(EventModel::Result { result });
    let j = spec_json_string(result.name);
    let jl = j.len() as int;
    let st = spec_status_bytes(result.status);
    let sl = st.len() as int;
    let g = spec_json_string(result.failure);
    let gl = g.len() as int;
    let tail2 = g + lit_close2();
    let tail1 = lit_failure_mid() + tail2;
    let rest0 = st + tail1;
    let tail0 = lit_status_mid() + rest0;
    let s1 = j + tail0;
    assert(bs =~= lit_result_head() + s1);
    assert(j.len() >= 2);
    assert(g.len() >= 2);
    assert(bs.len() == 18 + jl + 10 + sl + 11 + gl + 2);
    // Not an `End`, `BeginGroup` or `EndGroup` encoding: byte 2 differs.
    assert(bs[2] == (lit_result_head() + s1)[2]);
    assert(bs[2] == 82);
    lemma_not_starts(bs, lit_end_head(), 2);
    lemma_not_starts(bs, lit_begin_head(), 2);
    lemma_not_starts(bs, lit_endgroup_head(), 2);
    // The head, the name, and each separator stand where the decoder looks.
    lemma_starts_concat(lit_result_head(), s1);
    assert(starts_at(bs, 0, lit_result_head()));
    assert(bs.skip(18) =~= s1);
    lemma_parse_jstr_canonical(result.name, tail0);
    assert(spec_parse_jstr(bs.skip(18)) == Some((result.name, jl)));
    assert(s1.skip(jl) =~= tail0);
    lemma_starts_concat(lit_status_mid(), rest0);
    lemma_starts_shift(s1, jl, 0, lit_status_mid());
    lemma_starts_shift(bs, 18, jl, lit_status_mid());
    assert(starts_at(bs, 18 + jl, lit_status_mid()));
    let p = 18 + jl + 10;
    // The status literal stands at `p`.
    assert(tail0.skip(10) =~= rest0);
    lemma_starts_concat(st, tail1);
    lemma_starts_shift(tail0, 10, 0, st);
    lemma_starts_shift(s1, jl, 10, st);
    lemma_starts_shift(bs, 18, jl + 10, st);
    assert(starts_at(bs, p, st));
    // The status literal at `p` determines the status: the three literals
    // differ pairwise in their second byte.
    let sp = bs.skip(p);
    assert(sp.len() == sl + 11 + gl + 2);
    assert(sp.take(sl) =~= bs.subrange(p, p + sl));
    assert(sp.take(sl) == st);
    match result.status {
        TestStatus::Success => {
            assert(sp[1] == st[1]);
            assert(bs.subrange(p, p + 9) =~= sp.take(9));
            assert(starts_at(bs, p, lit_success()));
        },
        TestStatus::Failed => {
            assert(sp[1] == st[1]);
            assert(sp[1] == 70);
            if starts_at(bs, p, lit_success()) {
                assert(bs.subrange(p, p + 9)[1] == bs[p + 1]);
                assert(bs[p + 1] == sp[1]);
                assert(false);
            }
            assert(bs.subrange(p, p + 8) =~= sp.take(8));
            assert(starts_at(bs, p, lit_failed()));
        },
        TestStatus::Ignored => {
            assert(sp[1] == st[1]);
            assert(sp[1] == 73);
            if starts_at(bs, p, lit_success()) {
                assert(bs.subrange(p, p + 9)[1] == bs[p + 1]);
                assert(bs[p + 1] == sp[1]);
                assert(false);
            }
            if starts_at(bs, p, lit_failed()) {
                assert(bs.subrange(p, p + 8)[1] == bs[p + 1]);
                assert(bs[p + 1] == sp[1]);
                assert(false);
            }
            assert(bs.subrange(p, p + 9) =~= sp.take(9));
            assert(starts_at(bs, p, lit_ignored()));
        },
    }
    // The failure separator, the failure string, and the closing braces.
    assert(rest0.skip(sl) =~= tail1);
    lemma_starts_concat(lit_failure_mid(), tail2);
    lemma_starts_shift(rest0, sl, 0, lit_failure_mid());
    lemma_starts_shift(tail0, 10, sl, lit_failure_mid());
    lemma_starts_shift(s1, jl, 10 + sl, lit_failure_mid());
    lemma_starts_shift(bs, 18, jl + 10 + sl, lit_failure_mid());
    assert(starts_at(bs, p + sl, lit_failure_mid()));
    assert(tail1.skip(11) =~= tail2);
    assert(bs.skip(p + sl + 11) =~= tail2);
    lemma_parse_jstr_canonical(result.failure, lit_close2());
    assert(spec_parse_jstr(bs.skip(p + sl + 11)) == Some((result.failure, gl)));
    assert(tail2.skip(gl) =~= lit_close2());
    assert(lit_close2().subrange(0, 2) =~= lit_close2());
    assert(starts_at(lit_close2(), 0, lit_close2()));
    lemma_starts_shift(tail2, gl, 0, lit_close2());
    assert(starts_at(tail2, gl, lit_close2()));
    lemma_starts_shift(bs, p + sl + 11, gl, lit_close2());
    assert(starts_at(bs, p + sl + 11 + gl, lit_close2()));
}

} // verus!
