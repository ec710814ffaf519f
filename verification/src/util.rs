//! Request-building helpers for the signed REST endpoints, and small
//! utilities: URL-encoded query strings, JSON request bodies, timestamps,
//! date parsing, and random identifiers.

use vstd::prelude::*;
use vstd::string::StringSliceAdditionalSpecFns;
use vstd::utf8::encode_utf8;
use std::borrow::ToOwned;

use crate::codec::{push_bytes, push_quoted, spec_dec_u64, spec_escape, spec_escape_byte,
    spec_hex_digit, spec_quoted, u64_to_dec};

verus! {

/// The characters of an all-ASCII byte string.
pub open spec fn ascii_chars_of(bs: Seq<u8>) -> Seq<char> {
    Seq::new(bs.len(), |i: int| bs[i] as char)
}

/// Relies on `String::from_utf8`: an all-ASCII byte string is valid UTF-8 and
/// converts to the string with exactly those characters.
#[verifier::external_body]
pub(crate) fn ascii_to_string(v: Vec<u8>) -> (r: String)
    requires
        forall|i: int| 0 <= i < v@.len() ==> v@[i] < 128,
    ensures
        r@ == ascii_chars_of(v@),
{
    String::from_utf8(v).unwrap_or_default()
}

/// A byte that the form-urlencoded serializer passes through unchanged:
/// ASCII letters, digits, `*`, `-`, `.`, `_`.
pub open spec fn is_url_unreserved(b: u8) -> bool {
    (48 <= b <= 57) || (65 <= b <= 90) || (97 <= b <= 122) || b == 42 || b == 45 || b == 46
        || b == 95
}

/// The uppercase hex digit for a value below 16.
pub open spec fn spec_hex_upper(n: u8) -> u8 {
    if n < 10 {
        (48 + n) as u8
    } else {
        (55 + n) as u8
    }
}

/// The form-urlencoding of one byte: unreserved bytes unchanged, space as
/// `+`, anything else percent-encoded with uppercase hex.
pub open spec fn spec_urlencode_byte(b: u8) -> Seq<u8> {
    if is_url_unreserved(b) {
        seq![b]
    } else if b == 32 {
        seq![43u8]
    } else {
        seq![37u8, spec_hex_upper(b / 16), spec_hex_upper(b % 16)]
    }
}

/// The form-urlencoding of a byte string.
pub open spec fn spec_urlencode(s: Seq<u8>) -> Seq<u8>
    decreases s.len(),
{
    if s.len() == 0 {
        Seq::<u8>::empty()
    } else {
        spec_urlencode_byte(s[0]) + spec_urlencode(s.skip(1))
    }
}

/// Relies on `url::form_urlencoded::byte_serialize`: ASCII letters, digits
/// and `*-._` unchanged, space as `+`, every other byte percent-encoded with
/// uppercase hex.
#[verifier::external_body]
fn urlencode_bytes(input: &[u8]) -> (r: Vec<u8>)
    ensures
        r@ == spec_urlencode(input@),
{
    url::form_urlencoded::byte_serialize(input).collect::<String>().into_bytes()
}

proof fn lemma_urlencode_ascii(s: Seq<u8>)
    ensures
        forall|i: int| 0 <= i < spec_urlencode(s).len() ==> #[trigger] spec_urlencode(s)[i] < 128,
    decreases s.len(),
{
    if s.len() > 0 {
        lemma_urlencode_ascii(s.skip(1));
        assert forall|i: int| 0 <= i < spec_urlencode(s).len() implies #[trigger] spec_urlencode(
            s,
        )[i] < 128 by {
            let head = spec_urlencode_byte(s[0]);
            if i < head.len() {
                assert(spec_urlencode(s)[i] == head[i]);
            } else {
                assert(spec_urlencode(s)[i] == spec_urlencode(s.skip(1))[i - head.len()]);
            }
        }
    }
}

/// The byte strings of the key-value pairs of a parameter list.
pub open spec fn param_bytes(ps: Seq<(String, String)>) -> Seq<(Seq<u8>, Seq<u8>)> {
    Seq::new(ps.len(), |i: int| (encode_utf8(ps[i].0@), encode_utf8(ps[i].1@)))
}

/// One urlencoded `key=value` pair.
pub open spec fn spec_query_pair(p: (Seq<u8>, Seq<u8>)) -> Seq<u8> {
    spec_urlencode(p.0) + seq![61u8] + spec_urlencode(p.1)
}

/// The urlencoded query string of a parameter list: pairs joined with `&`.
pub open spec fn spec_query(ps: Seq<(Seq<u8>, Seq<u8>)>) -> Seq<u8>
    decreases ps.len(),
{
    if ps.len() == 0 {
        Seq::<u8>::empty()
    } else if ps.len() == 1 {
        spec_query_pair(ps[0])
    } else {
        spec_query_pair(ps[0]) + seq![38u8] + spec_query(ps.skip(1))
    }
}

proof fn lemma_query_ascii(ps: Seq<(Seq<u8>, Seq<u8>)>)
    ensures
        forall|i: int| 0 <= i < spec_query(ps).len() ==> #[trigger] spec_query(ps)[i] < 128,
    decreases ps.len(),
{
    if ps.len() == 0 {
    } else {
        lemma_urlencode_ascii(ps[0].0);
        lemma_urlencode_ascii(ps[0].1);
        assert forall|i: int| 0 <= i < spec_query_pair(ps[0]).len() implies #[trigger]
            spec_query_pair(ps[0])[i] < 128 by {
            let a = spec_urlencode(ps[0].0);
            let b = spec_urlencode(ps[0].1);
            if i < a.len() {
                assert(spec_query_pair(ps[0])[i] == a[i]);
            } else if i == a.len() {
                assert(spec_query_pair(ps[0])[i] == 61u8);
            } else {
                assert(spec_query_pair(ps[0])[i] == b[i - a.len() - 1]);
            }
        }
        if ps.len() > 1 {
            lemma_query_ascii(ps.skip(1));
            assert forall|i: int| 0 <= i < spec_query(ps).len() implies #[trigger] spec_query(
                ps,
            )[i] < 128 by {
                let head = spec_query_pair(ps[0]);
                if i < head.len() {
                    assert(spec_query(ps)[i] == head[i]);
                } else if i == head.len() {
                    assert(spec_query(ps)[i] == 38u8);
                } else {
                    assert(spec_query(ps)[i] == spec_query(ps.skip(1))[i - head.len() - 1]);
                }
            }
        }
    }
}

/// Builds the urlencoded query string `k1=v1&k2=v2&...` for a parameter
/// list, in the list's order. Callers that need the exchange's canonical
/// ordering pass the pairs sorted by key, as a `BTreeMap` would iterate them.
pub fn build_request(parameters: &Vec<(String, String)>) -> (r: String)
    ensures
        r@ == ascii_chars_of(spec_query(param_bytes(parameters@))),
{
    let ghost pb = param_bytes(parameters@);
    let mut out: Vec<u8> = Vec::new();
    let mut i: usize = 0;
    proof {
        assert(pb.skip(0) =~= pb);
    }
    while i < parameters.len()
        invariant
            i <= parameters@.len(),
            pb == param_bytes(parameters@),
            out@ + spec_query(pb.skip(i as int)) == spec_query(pb),
        decreases parameters@.len() - i,
    {
        proof {
            assert(pb.skip(i as int)[0] == pb[i as int]);
            assert(pb.skip(i as int).skip(1) =~= pb.skip(i + 1));
        }
        let k = urlencode_bytes(parameters[i].0.as_str().as_bytes());
        push_bytes(&mut out, k.as_slice());
        out.push(61);
        let v = urlencode_bytes(parameters[i].1.as_str().as_bytes());
        push_bytes(&mut out, v.as_slice());
        if i + 1 < parameters.len() {
            out.push(38);
        }
        proof {
            assert(out@ + spec_query(pb.skip(i + 1)) =~= spec_query(pb));
        }
        i = i + 1;
    }
    proof {
        assert(spec_query(pb.skip(pb.len() as int)) =~= Seq::<u8>::empty());
        assert(out@ + Seq::<u8>::empty() =~= out@);
        lemma_query_ascii(pb);
    }
    ascii_to_string(out)
}

/// A JSON parameter value: a string, an integer, or a flag.
#[derive(Clone, Debug, PartialEq, Eq)]
pub enum ParamValue {
    Text(String),
    Int(i64),
    UInt(u64),
    Flag(bool),
}

/// The decimal digits of `i`, with a leading minus sign when negative.
pub open spec fn spec_dec_i64(i: i64) -> Seq<u8> {
    if i >= 0 {
        spec_dec_u64(i as nat)
    } else {
        seq![45u8] + spec_dec_u64((-(i as int)) as nat)
    }
}

/// The decimal digits of `i` as bytes.
pub fn i64_to_dec(i: i64) -> (r: Vec<u8>)
    ensures
        r@ == spec_dec_i64(i),
{
    if i >= 0 {
        u64_to_dec(i as u64)
    } else {
        let mag: u64 = if i == i64::MIN {
            9223372036854775808u64
        } else {
            (-i) as u64
        };
        let mut out: Vec<u8> = Vec::new();
        out.push(45);
        let digits = u64_to_dec(mag);
        push_bytes(&mut out, digits.as_slice());
        proof {
            assert(out@ =~= spec_dec_i64(i));
        }
        out
    }
}

/// The JSON text of one parameter value.
pub open spec fn spec_param_value(v: ParamValue) -> Seq<u8> {
    match v {
        ParamValue::Text(s) => spec_quoted(encode_utf8(s@)),
        ParamValue::Int(i) => spec_dec_i64(i),
        ParamValue::UInt(u) => spec_dec_u64(u as nat),
        ParamValue::Flag(b) => {
            if b {
                seq![116u8, 114u8, 117u8, 101u8]
            } else {
                seq![102u8, 97u8, 108u8, 115u8, 101u8]
            }
        },
    }
}

/// The members of a JSON object body, comma-separated.
pub open spec fn spec_json_members(ps: Seq<(String, ParamValue)>) -> Seq<u8>
    decreases ps.len(),
{
    if ps.len() == 0 {
        Seq::<u8>::empty()
    } else if ps.len() == 1 {
        spec_quoted(encode_utf8(ps[0].0@)) + seq![58u8] + spec_param_value(ps[0].1)
    } else {
        spec_quoted(encode_utf8(ps[0].0@)) + seq![58u8] + spec_param_value(ps[0].1) + seq![44u8]
            + spec_json_members(ps.skip(1))
    }
}

/// The JSON object body for a parameter list, in the list's order.
pub open spec fn spec_json_request(ps: Seq<(String, ParamValue)>) -> Seq<u8> {
    seq![123u8] + spec_json_members(ps) + seq![125u8]
}

/// Every key is ASCII, and every string value is ASCII.
pub open spec fn params_ascii(ps: Seq<(String, ParamValue)>) -> bool {
    forall|i: int|
        0 <= i < ps.len() ==> vstd::utf8::is_ascii_chars(#[trigger] ps[i].0@) && (match ps[i].1 {
            ParamValue::Text(s) => vstd::utf8::is_ascii_chars(s@),
            _ => true,
        })
}

proof fn lemma_escape_ascii(s: Seq<u8>)
    requires
        forall|i: int| 0 <= i < s.len() ==> #[trigger] s[i] < 128,
    ensures
        forall|i: int| 0 <= i < spec_escape(s).len() ==> #[trigger] spec_escape(s)[i] < 128,
    decreases s.len(),
{
    if s.len() > 0 {
        assert(s[0] < 128);
        assert forall|i: int| 0 <= i < s.skip(1).len() implies #[trigger] s.skip(1)[i] < 128 by {
            assert(s.skip(1)[i] == s[i + 1]);
        }
        lemma_escape_ascii(s.skip(1));
        assert forall|i: int| 0 <= i < spec_escape(s).len() implies #[trigger] spec_escape(s)[i]
            < 128 by {
            let head = spec_escape_byte(s[0]);
            if i < head.len() {
                assert(spec_escape(s)[i] == head[i]);
                assert(head[i] < 128) by {
                    if s[0] < 32 && s[0] != 34 && s[0] != 92 && s[0] != 10 && s[0] != 13 && s[0]
                        != 9 {
                        assert(spec_hex_digit(s[0] / 16) < 128);
                        assert(spec_hex_digit(s[0] % 16) < 128);
                    }
                }
            } else {
                assert(spec_escape(s)[i] == spec_escape(s.skip(1))[i - head.len()]);
            }
        }
    }
}

proof fn lemma_ascii_chars_bytes(s: Seq<char>)
    requires
        vstd::utf8::is_ascii_chars(s),
    ensures
        forall|i: int| 0 <= i < encode_utf8(s).len() ==> #[trigger] encode_utf8(s)[i] < 128,
{
    vstd::utf8::is_ascii_chars_encode_utf8(s);
    assert forall|i: int| 0 <= i < encode_utf8(s).len() implies #[trigger] encode_utf8(s)[i]
        < 128 by {
        assert(encode_utf8(s)[i] == s[i] as u8);
        assert(s[i] <= '\u{7f}');
    }
}

proof fn lemma_quoted_ascii(s: Seq<u8>)
    requires
        forall|i: int| 0 <= i < s.len() ==> #[trigger] s[i] < 128,
    ensures
        forall|i: int| 0 <= i < spec_quoted(s).len() ==> #[trigger] spec_quoted(s)[i] < 128,
{
    lemma_escape_ascii(s);
    assert forall|i: int| 0 <= i < spec_quoted(s).len() implies #[trigger] spec_quoted(s)[i]
        < 128 by {
        if i == 0 {
            assert(spec_quoted(s)[i] == 34u8);
        } else if i < 1 + spec_escape(s).len() {
            assert(spec_quoted(s)[i] == spec_escape(s)[i - 1]);
        } else {
            assert(spec_quoted(s)[i] == 34u8);
        }
    }
}

proof fn lemma_dec_u64_ascii(n: nat)
    ensures
        forall|i: int| 0 <= i < spec_dec_u64(n).len() ==> #[trigger] spec_dec_u64(n)[i] < 128,
    decreases n,
{
    if n >= 10 {
        lemma_dec_u64_ascii(n / 10);
        assert forall|i: int| 0 <= i < spec_dec_u64(n).len() implies #[trigger] spec_dec_u64(n)[i]
            < 128 by {
            let head = spec_dec_u64(n / 10);
            if i < head.len() {
                assert(spec_dec_u64(n)[i] == head[i]);
            } else {
                assert(spec_dec_u64(n)[i] == (48 + n % 10) as u8);
            }
        }
    }
}

proof fn lemma_param_value_ascii(v: ParamValue)
    requires
        (match v {
            ParamValue::Text(s) => vstd::utf8::is_ascii_chars(s@),
            _ => true,
        }),
    ensures
        forall|i: int|
            0 <= i < spec_param_value(v).len() ==> #[trigger] spec_param_value(v)[i] < 128,
{
    match v {
        ParamValue::Text(s) => {
            lemma_ascii_chars_bytes(s@);
            lemma_quoted_ascii(encode_utf8(s@));
        },
        ParamValue::Int(i) => {
            lemma_dec_u64_ascii((if i >= 0 {
                i as int
            } else {
                -(i as int)
            }) as nat);
            if i < 0 {
                assert forall|k: int|
                    0 <= k < spec_param_value(v).len() implies #[trigger] spec_param_value(v)[k]
                    < 128 by {
                    if k == 0 {
                        assert(spec_param_value(v)[k] == 45u8);
                    } else {
                        assert(spec_param_value(v)[k] == spec_dec_u64((-(i as int)) as nat)[k
                            - 1]);
                    }
                }
            }
        },
        ParamValue::UInt(u) => {
            lemma_dec_u64_ascii(u as nat);
        },
        ParamValue::Flag(_) => {},
    }
}

proof fn lemma_json_members_ascii(ps: Seq<(String, ParamValue)>)
    requires
        params_ascii(ps),
    ensures
        forall|i: int|
            0 <= i < spec_json_members(ps).len() ==> #[trigger] spec_json_members(ps)[i] < 128,
    decreases ps.len(),
{
    if ps.len() > 0 {
        lemma_ascii_chars_bytes(ps[0].0@);
        lemma_quoted_ascii(encode_utf8(ps[0].0@));
        lemma_param_value_ascii(ps[0].1);
        let head = spec_quoted(encode_utf8(ps[0].0@)) + seq![58u8] + spec_param_value(ps[0].1);
        assert forall|i: int| 0 <= i < head.len() implies #[trigger] head[i] < 128 by {
            let q = spec_quoted(encode_utf8(ps[0].0@));
            if i < q.len() {
                assert(head[i] == q[i]);
            } else if i == q.len() {
                assert(head[i] == 58u8);
            } else {
                assert(head[i] == spec_param_value(ps[0].1)[i - q.len() - 1]);
            }
        }
        if ps.len() > 1 {
            assert(params_ascii(ps.skip(1))) by {
                assert forall|j: int|
                    0 <= j < ps.skip(1).len() implies vstd::utf8::is_ascii_chars(
                    #[trigger] ps.skip(1)[j].0@,
                ) && (match ps.skip(1)[j].1 {
                    ParamValue::Text(s) => vstd::utf8::is_ascii_chars(s@),
                    _ => true,
                }) by {
                    assert(ps.skip(1)[j] == ps[j + 1]);
                }
            }
            lemma_json_members_ascii(ps.skip(1));
            assert forall|i: int|
                0 <= i < spec_json_members(ps).len() implies #[trigger] spec_json_members(ps)[i]
                < 128 by {
                if i < head.len() {
                    assert(spec_json_members(ps)[i] == head[i]);
                } else if i == head.len() {
                    assert(spec_json_members(ps)[i] == 44u8);
                } else {
                    assert(spec_json_members(ps)[i] == spec_json_members(ps.skip(1))[i - head.len()
                        - 1]);
                }
            }
        }
    }
}

/// Builds the JSON object body `{"k1":v1,...}` for a parameter list, in the
/// list's order. Keys and string values must be ASCII, as the exchange's
/// parameters are.
pub fn build_json_request(parameters: &Vec<(String, ParamValue)>) -> (r: String)
    requires
        params_ascii(parameters@),
    ensures
        r@ == ascii_chars_of(spec_json_request(parameters@)),
{
    let ghost ps = parameters@;
    let mut out: Vec<u8> = Vec::new();
    out.push(123);
    let ghost body_start = out@;
    let mut i: usize = 0;
    proof {
        assert(ps.skip(0) =~= ps);
    }
    while i < parameters.len()
        invariant
            i <= parameters@.len(),
            ps == parameters@,
            out@ + spec_json_members(ps.skip(i as int)) == body_start + spec_json_members(ps),
        decreases parameters@.len() - i,
    {
        proof {
            assert(ps.skip(i as int)[0] == ps[i as int]);
            assert(ps.skip(i as int).skip(1) =~= ps.skip(i + 1));
        }
        push_quoted(&mut out, parameters[i].0.as_str().as_bytes());
        out.push(58);
        match &parameters[i].1 {
            ParamValue::Text(s) => {
                push_quoted(&mut out, s.as_str().as_bytes());
            },
            ParamValue::Int(n) => {
                let digits = i64_to_dec(*n);
                push_bytes(&mut out, digits.as_slice());
            },
            ParamValue::UInt(n) => {
                let digits = u64_to_dec(*n);
                push_bytes(&mut out, digits.as_slice());
            },
            ParamValue::Flag(b) => {
                if *b {
                    out.push(116);
                    out.push(114);
                    out.push(117);
                    out.push(101);
                } else {
                    out.push(102);
                    out.push(97);
                    out.push(108);
                    out.push(115);
                    out.push(101);
                }
            },
        }
        if i + 1 < parameters.len() {
            out.push(44);
        }
        proof {
            assert(out@ + spec_json_members(ps.skip(i + 1)) =~= body_start + spec_json_members(
                ps,
            ));
        }
        i = i + 1;
    }
    out.push(125);
    proof {
        assert(spec_json_members(ps.skip(ps.len() as int)) =~= Seq::<u8>::empty());
        assert(out@ =~= spec_json_request(ps));
        lemma_json_members_ascii(ps);
        assert forall|k: int| 0 <= k < out@.len() implies #[trigger] out@[k] < 128 by {
            if k == 0 || k == out@.len() - 1 {
            } else {
                assert(out@[k] == spec_json_members(ps)[k - 1]);
            }
        }
    }
    ascii_to_string(out)
}

/// Relies on `std::time::SystemTime::now` and `duration_since(UNIX_EPOCH)`:
/// the wall clock's milliseconds since the Unix epoch. The clock is outside
/// state, so nothing is promised of the value.
#[verifier::external_body]
fn now_unix_millis() -> u64 {
    std::time::SystemTime::now()
        .duration_since(std::time::UNIX_EPOCH)
        .map(|d| d.as_millis() as u64)
        .unwrap_or(0)
}

/// The current wall-clock time in milliseconds since the Unix epoch.
pub fn get_timestamp() -> u64 {
    now_unix_millis()
}


/// A leap year in the supported window (all divisible-by-4 years of
/// 2000-2068 are leap years, 2000 included).
pub open spec fn spec_is_leap(y: int) -> bool {
    y % 4 == 0
}

/// Days in a month of the given year.
pub open spec fn spec_days_in_month(y: int, m: int) -> int {
    if m == 2 {
        if spec_is_leap(y) {
            29
        } else {
            28
        }
    } else if m == 4 || m == 6 || m == 9 || m == 11 {
        30
    } else {
        31
    }
}

/// A valid calendar date in the supported window.
pub open spec fn spec_valid_date(y: int, m: int, d: int) -> bool {
    2000 <= y <= 2068 && 1 <= m <= 12 && 1 <= d <= spec_days_in_month(y, m)
}

/// Days in the months before month `m`.
pub open spec fn spec_month_prefix(y: int, m: int) -> int {
    let feb: int = if spec_is_leap(y) {
        29
    } else {
        28
    };
    if m == 1 {
        0
    } else if m == 2 {
        31
    } else if m == 3 {
        31 + feb
    } else if m == 4 {
        62 + feb
    } else if m == 5 {
        92 + feb
    } else if m == 6 {
        123 + feb
    } else if m == 7 {
        153 + feb
    } else if m == 8 {
        184 + feb
    } else if m == 9 {
        215 + feb
    } else if m == 10 {
        245 + feb
    } else if m == 11 {
        276 + feb
    } else {
        306 + feb
    }
}

/// Leap years in [2000, y).
pub open spec fn spec_leaps_before(y: int) -> int {
    if y == 2000 {
        0
    } else {
        (y - 2001) / 4 + 1
    }
}

/// Days from 1970-01-01 to the given date; 10957 days reach 2000-01-01.
pub open spec fn spec_days_from_epoch(y: int, m: int, d: int) -> int {
    10957 + 365 * (y - 2000) + spec_leaps_before(y) + spec_month_prefix(y, m) + (d - 1)
}

/// Relies on `chrono::NaiveDate::from_ymd_opt` and
/// `chrono::Datelike::num_days_from_ce`: a valid proleptic Gregorian date in
/// this window converts, an invalid one gives `None`, and the day count from
/// 0001-01-01 (day 1) puts 1970-01-01 at 719163, so it exceeds the epoch day
/// by 719163.
#[verifier::external_body]
fn ymd_to_day_from_ce(y: u32, m: u32, d: u32) -> (r: Option<u32>)
    requires
        2000 <= y <= 2068,
    ensures
        (match r {
            Some(n) => spec_valid_date(y as int, m as int, d as int) && n
                == spec_days_from_epoch(y as int, m as int, d as int) + 719163,
            None => !spec_valid_date(y as int, m as int, d as int),
        }),
{
    match chrono::NaiveDate::from_ymd_opt(y as i32, m, d) {
        Some(date) => Some(chrono::Datelike::num_days_from_ce(&date) as u32),
        None => None,
    }
}

/// The string is exactly six ASCII digits, day-month-year, naming a valid
/// date whose two-digit year means 2000-2068.
pub open spec fn spec_valid_ddmmyy(s: Seq<char>) -> bool {
    let d = (s[0] as int - 48) * 10 + (s[1] as int - 48);
    let m = (s[2] as int - 48) * 10 + (s[3] as int - 48);
    let yy = (s[4] as int - 48) * 10 + (s[5] as int - 48);
    &&& s.len() == 6
    &&& (forall|i: int| 0 <= i < 6 ==> '0' <= #[trigger] s[i] <= '9')
    &&& yy <= 68
    &&& spec_valid_date(2000 + yy, m, d)
}

/// The Unix timestamp, in milliseconds, of midnight of a valid `DDMMYY`
/// date string.
pub open spec fn spec_ddmmyy_millis(s: Seq<char>) -> int {
    let d = (s[0] as int - 48) * 10 + (s[1] as int - 48);
    let m = (s[2] as int - 48) * 10 + (s[3] as int - 48);
    let yy = (s[4] as int - 48) * 10 + (s[5] as int - 48);
    86400000 * spec_days_from_epoch(2000 + yy, m, d)
}

/// Parses a `DDMMYY` date string and returns the Unix timestamp of that
/// day's midnight, in milliseconds. Two-digit years map into 2000-2068, as
/// the underlying date parser maps them.
pub fn date_to_milliseconds(date_str: &str) -> (r: u64)
    requires
        spec_valid_ddmmyy(date_str@),
    ensures
        ({
            let s = date_str@;
            let d = (s[0] as int - 48) * 10 + (s[1] as int - 48);
            let m = (s[2] as int - 48) * 10 + (s[3] as int - 48);
            let yy = (s[4] as int - 48) * 10 + (s[5] as int - 48);
            r == 86400000 * spec_days_from_epoch(2000 + yy, m, d)
        }),
        r == spec_ddmmyy_millis(date_str@),
{
    proof {
        broadcast use vstd::string::is_ascii_spec_bytes;

        assert(vstd::string::is_ascii(date_str));
    }
    let b = date_str.as_bytes();
    let d: u32 = (b[0] - 48) as u32 * 10 + (b[1] - 48) as u32;
    let m: u32 = (b[2] - 48) as u32 * 10 + (b[3] - 48) as u32;
    let yy: u32 = (b[4] - 48) as u32 * 10 + (b[5] - 48) as u32;
    let y: u32 = 2000 + yy;
    match ymd_to_day_from_ce(y, m, d) {
        Some(n) => {
            let epoch_day = (n - 719163) as u64;
            epoch_day * 86400000
        },
        None => {
            proof {
                assert(false);
            }
            0
        },
    }
}

/// An ASCII letter or digit.
pub open spec fn is_alnum_byte(b: u8) -> bool {
    (48 <= b <= 57) || (65 <= b <= 90) || (97 <= b <= 122)
}

/// Relies on rand's `Alphanumeric` distribution sampled from `thread_rng`:
/// every sample is one of the 62 ASCII letters or digits. Which one is
/// chance, so nothing more is promised.
#[verifier::external_body]
fn sample_alphanumeric() -> (r: u8)
    ensures
        is_alnum_byte(r),
{
    rand::Rng::sample(&mut rand::thread_rng(), rand::distributions::Alphanumeric)
}

/// A random identifier of ASCII letters and digits, of the given length.
pub fn generate_random_uid(length: usize) -> (r: String)
    ensures
        r@.len() == length,
        forall|i: int| 0 <= i < r@.len() ==> is_alnum_byte(#[trigger] r@[i] as u8),
{
    let mut bytes: Vec<u8> = Vec::new();
    let mut i: usize = 0;
    while i < length
        invariant
            i <= length,
            bytes@.len() == i,
            forall|j: int| 0 <= j < i ==> is_alnum_byte(#[trigger] bytes@[j]),
        decreases length - i,
    {
        bytes.push(sample_alphanumeric());
        i = i + 1;
    }
    let r = ascii_to_string(bytes);
    proof {
        assert forall|j: int| 0 <= j < r@.len() implies is_alnum_byte(#[trigger] r@[j] as u8) by {
            assert(r@[j] == ascii_chars_of(bytes@)[j]);
        }
    }
    r
}


pub(crate) proof fn lemma_encode_ascii_chars(bs: Seq<u8>)
    requires
        forall|i: int| 0 <= i < bs.len() ==> #[trigger] bs[i] < 128,
    ensures
        encode_utf8(ascii_chars_of(bs)) == bs,
{
    let cs = ascii_chars_of(bs);
    assert(vstd::utf8::is_ascii_chars(cs)) by {
        assert forall|i: int| 0 <= i < cs.len() implies '\0' <= #[trigger] cs[i] <= '\u{7f}' by {
            assert(cs[i] == bs[i] as char);
        }
    }
    vstd::utf8::is_ascii_chars_encode_utf8(cs);
    assert(encode_utf8(cs) =~= bs);
}

/// The decimal digits of `n` as a string.
pub fn u64_to_string(n: u64) -> (r: String)
    ensures
        r@ == ascii_chars_of(spec_dec_u64(n as nat)),
        encode_utf8(r@) == spec_dec_u64(n as nat),
        vstd::utf8::is_ascii_chars(r@),
{
    let digits = u64_to_dec(n);
    proof {
        lemma_dec_u64_ascii(n as nat);
        lemma_encode_ascii_chars(digits@);
        assert forall|i: int|
            0 <= i < ascii_chars_of(digits@).len() implies '\0' <= #[trigger] ascii_chars_of(
            digits@,
        )[i] <= '\u{7f}' by {
            assert(ascii_chars_of(digits@)[i] == digits@[i] as char);
        }
    }
    ascii_to_string(digits)
}

/// The decimal digits of `i` as a string, with a minus sign when negative.
pub fn i64_to_string(i: i64) -> (r: String)
    ensures
        r@ == ascii_chars_of(spec_dec_i64(i)),
        encode_utf8(r@) == spec_dec_i64(i),
        vstd::utf8::is_ascii_chars(r@),
{
    let digits = i64_to_dec(i);
    proof {
        lemma_dec_u64_ascii((if i >= 0 {
            i as int
        } else {
            -(i as int)
        }) as nat);
        if i < 0 {
            assert forall|k: int| 0 <= k < spec_dec_i64(i).len() implies #[trigger] spec_dec_i64(
                i,
            )[k] < 128 by {
                if k == 0 {
                    assert(spec_dec_i64(i)[k] == 45u8);
                } else {
                    assert(spec_dec_i64(i)[k] == spec_dec_u64((-(i as int)) as nat)[k - 1]);
                }
            }
        }
        lemma_encode_ascii_chars(digits@);
        assert forall|i: int|
            0 <= i < ascii_chars_of(digits@).len() implies '\0' <= #[trigger] ascii_chars_of(
            digits@,
        )[i] <= '\u{7f}' by {
            assert(ascii_chars_of(digits@)[i] == digits@[i] as char);
        }
    }
    ascii_to_string(digits)
}

/// Appends one query parameter pair.
pub fn push_param(params: &mut Vec<(String, String)>, key: &str, value: String)
    ensures
        param_bytes(final(params)@) == param_bytes(old(params)@).push(
            (encode_utf8(key@), encode_utf8(value@)),
        ),
{
    let ghost value_chars = value@;
    let key_string = key.to_owned();
    params.push((key_string, value));
    proof {
        assert(param_bytes(params@) =~= param_bytes(old(params)@).push(
            (encode_utf8(key@), encode_utf8(value_chars)),
        ));
    }
}

/// The rendered key and value bytes of JSON body parameters.
pub open spec fn jparam_bytes(ps: Seq<(String, ParamValue)>) -> Seq<(Seq<u8>, Seq<u8>)> {
    Seq::new(ps.len(), |i: int| (encode_utf8(ps[i].0@), spec_param_value(ps[i].1)))
}

/// The members of a JSON object, from rendered key and value bytes.
pub open spec fn spec_members_bytes(ps: Seq<(Seq<u8>, Seq<u8>)>) -> Seq<u8>
    decreases ps.len(),
{
    if ps.len() == 0 {
        Seq::<u8>::empty()
    } else if ps.len() == 1 {
        spec_quoted(ps[0].0) + seq![58u8] + ps[0].1
    } else {
        spec_quoted(ps[0].0) + seq![58u8] + ps[0].1 + seq![44u8] + spec_members_bytes(ps.skip(1))
    }
}

/// A JSON object, from rendered key and value bytes.
pub open spec fn spec_json_obj_bytes(ps: Seq<(Seq<u8>, Seq<u8>)>) -> Seq<u8> {
    seq![123u8] + spec_members_bytes(ps) + seq![125u8]
}

proof fn lemma_members_bytes(ps: Seq<(String, ParamValue)>)
    ensures
        spec_json_members(ps) == spec_members_bytes(jparam_bytes(ps)),
    decreases ps.len(),
{
    if ps.len() > 1 {
        lemma_members_bytes(ps.skip(1));
        assert(jparam_bytes(ps).skip(1) =~= jparam_bytes(ps.skip(1)));
        assert(spec_json_members(ps) =~= spec_members_bytes(jparam_bytes(ps)));
    } else if ps.len() == 1 {
        assert(spec_json_members(ps) =~= spec_members_bytes(jparam_bytes(ps)));
    }
}

/// As `lemma_members_bytes`, lifted to whole objects, so that request
/// contracts can speak of rendered byte fragments.
pub proof fn lemma_json_request_bytes(ps: Seq<(String, ParamValue)>)
    ensures
        spec_json_request(ps) == spec_json_obj_bytes(jparam_bytes(ps)),
{
    lemma_members_bytes(ps);
    assert(spec_json_request(ps) =~= spec_json_obj_bytes(jparam_bytes(ps)));
}

/// Appends one JSON body parameter pair.
pub fn push_jparam(params: &mut Vec<(String, ParamValue)>, key: &str, value: ParamValue)
    ensures
        jparam_bytes(final(params)@) == jparam_bytes(old(params)@).push(
            (encode_utf8(key@), spec_param_value(value)),
        ),
        params_ascii(old(params)@) && vstd::utf8::is_ascii_chars(key@) && (match value {
            ParamValue::Text(s) => vstd::utf8::is_ascii_chars(s@),
            _ => true,
        }) ==> params_ascii(final(params)@),
{
    let ghost value_model = value;
    let key_string = key.to_owned();
    params.push((key_string, value));
    proof {
        assert(jparam_bytes(params@) =~= jparam_bytes(old(params)@).push(
            (encode_utf8(key@), spec_param_value(value_model)),
        ));
        if params_ascii(old(params)@) && vstd::utf8::is_ascii_chars(key@) && (match value_model {
            ParamValue::Text(s) => vstd::utf8::is_ascii_chars(s@),
            _ => true,
        }) {
            assert forall|i: int|
                0 <= i < params@.len() implies vstd::utf8::is_ascii_chars(
                #[trigger] params@[i].0@,
            ) && (match params@[i].1 {
                ParamValue::Text(s) => vstd::utf8::is_ascii_chars(s@),
                _ => true,
            }) by {
                if i < old(params)@.len() {
                    assert(params@[i] == old(params)@[i]);
                }
            }
        }
    }
}

} // verus!
