//! The small HTTP test interface: reading a request's first line and headers,
//! choosing the route, and framing the responses.

use vstd::prelude::*;
use vstd::utf8::encode_utf8;
use crate::text::{
    views, trim, split_on, dec, chars_of, string_of, string_from, trim_chars,
    split_chars, push_str, extend, push_dec, eq_str,
};

verus! {

// ---------------------------------------------------------------------------
// Reading a request
// ---------------------------------------------------------------------------

/// The method and path of a request line: the first two space-separated
/// fields of the trimmed line, if there are two.
pub open spec fn request_line_spec(line: Seq<char>) -> Option<(Seq<char>, Seq<char>)> {
    let ps = split_on(trim(line), ' ');
    if ps.len() < 2 {
        None
    } else {
        Some((ps[0], ps[1]))
    }
}

/// Splits a request line into its method and path.
pub fn parse_request_line(line: &str) -> (r: Option<(String, String)>)
    ensures
        match r {
            Some((m, p)) => request_line_spec(line@) == Some((m@, p@)),
            None => request_line_spec(line@) is None,
        },
{
    let v = chars_of(line);
    let t = trim_chars(v.as_slice());
    let ps = split_chars(t.as_slice(), ' ');
    if ps.len() < 2 {
        return None;
    }
    assert(ps@[0]@ == views(ps@)[0]);
    assert(ps@[1]@ == views(ps@)[1]);
    Some((string_of(ps[0].as_slice()), string_of(ps[1].as_slice())))
}

pub open spec fn is_digit(c: char) -> bool {
    '0' <= c && c <= '9'
}

pub open spec fn digit_value(c: char) -> nat {
    ((c as u32) - 48) as nat
}

/// The number that a string of decimal digits writes.
pub open spec fn digits_value(s: Seq<char>) -> nat
    decreases s.len(),
{
    if s.len() == 0 {
        0
    } else {
        digits_value(s.drop_last()) * 10 + digit_value(s.last())
    }
}

/// Every character is an ASCII digit.
pub open spec fn all_digits(b: Seq<char>) -> bool {
    forall|i: int| 0 <= i < b.len() ==> is_digit(#[trigger] b[i])
}

/// One or more ASCII digits whose value fits `usize`.
pub open spec fn parse_digits(b: Seq<char>) -> Option<usize> {
    if b.len() > 0 && all_digits(b) && digits_value(b) <= usize::MAX {
        Some(digits_value(b) as usize)
    } else {
        None
    }
}

/// `str::parse::<usize>`: an optional `+`, then one or more ASCII digits whose
/// value fits `usize`.
pub open spec fn parse_usize_spec(s: Seq<char>) -> Option<usize> {
    if s.len() > 0 && s[0] == '+' {
        parse_digits(s.drop_first())
    } else {
        parse_digits(s)
    }
}

proof fn lemma_digits_grow(s: Seq<char>, k: int)
    requires
        0 <= k <= s.len(),
    ensures
        digits_value(s.take(k)) <= digits_value(s),
    decreases s.len() - k,
{
    if k < s.len() {
        lemma_digits_grow(s.drop_last(), k);
        assert(s.drop_last().take(k) =~= s.take(k));
        let v = digits_value(s.drop_last());
        assert(v <= v * 10) by (nonlinear_arith);
    } else {
        assert(s.take(k) =~= s);
    }
}

/// Parses `s` as a `usize` (see `parse_usize_spec`).
pub fn parse_usize(s: &[char]) -> (r: Option<usize>)
    ensures
        r == parse_usize_spec(s@),
{
    let start: usize = if s.len() > 0 && s[0] == '+' {
        1
    } else {
        0
    };
    let b = &s[start..s.len()];
    let ghost bv = if s@.len() > 0 && s@[0] == '+' {
        s@.drop_first()
    } else {
        s@
    };
    assert(b@ =~= bv);
    if b.len() == 0 {
        return None;
    }
    let mut v: usize = 0;
    let mut i: usize = 0;
    assert(bv.take(0) =~= Seq::<char>::empty());
    while i < b.len()
        invariant
            b@ == bv,
            bv == (if s@.len() > 0 && s@[0] == '+' {
                s@.drop_first()
            } else {
                s@
            }),
            bv.len() > 0,
            i <= bv.len(),
            v == digits_value(bv.take(i as int)),
            forall|j: int| 0 <= j < i ==> is_digit(#[trigger] bv[j]),
        decreases bv.len() - i,
    {
        let c = b[i];
        if !(c >= '0' && c <= '9') {
            assert(!is_digit(bv[i as int]));
            assert(!all_digits(bv));
            return None;
        }
        let d: usize = ((c as u32) - 48) as usize;
        assert(bv.take(i + 1).drop_last() =~= bv.take(i as int));
        assert(bv.take(i + 1).last() == c);
        assert(digit_value(c) == d);
        assert(digits_value(bv.take(i + 1)) == v * 10 + d);
        match v.checked_mul(10) {
            None => {
                proof {
                    lemma_digits_grow(bv, i + 1);
                    assert(digits_value(bv.take(i + 1)) >= v * 10);
                }
                return None;
            },
            Some(t) => match t.checked_add(d) {
                None => {
                    proof {
                        lemma_digits_grow(bv, i + 1);
                        assert(t + d > usize::MAX);
                    }
                    return None;
                },
                Some(n) => {
                    v = n;
                },
            },
        }
        i = i + 1;
    }
    assert(bv.take(i as int) =~= bv);
    Some(v)
}

/// The content length a header line gives: the number after the
/// `Content-Length:` (or `content-length:`) prefix, or 0 when it does not parse.
pub open spec fn length_of(value: Seq<char>) -> usize {
    match parse_usize_spec(trim(value)) {
        Some(n) => n,
        None => 0,
    }
}

/// The code of `c` with ASCII upper-case letters taken as lower-case.
pub open spec fn folded(c: char) -> int {
    if 65 <= (c as u32) && (c as u32) <= 90 {
        (c as u32) + 32
    } else {
        (c as u32) as int
    }
}

/// `s` begins with `p`, ASCII letter case aside.
pub open spec fn starts_with_folded(s: Seq<char>, p: Seq<char>) -> bool {
    p.len() <= s.len() && forall|i: int| 0 <= i < p.len() ==> #[trigger] folded(s[i]) == folded(p[i])
}

/// What a header line tells: `None` for the blank line that ends the headers,
/// else the content length known after it. The header's name is matched
/// without regard to ASCII letter case.
pub open spec fn header_spec(line: Seq<char>, current: usize) -> Option<usize> {
    let t = trim(line);
    if t.len() == 0 {
        None
    } else if starts_with_folded(t, "content-length:"@) {
        Some(length_of(t.skip("content-length:"@.len() as int)))
    } else {
        Some(current)
    }
}

fn fold_exec(c: char) -> (r: u32)
    ensures
        r == folded(c),
{
    let u = c as u32;
    if 65 <= u && u <= 90 {
        u + 32
    } else {
        u
    }
}

fn has_prefix_folded(t: &[char], lit: &str) -> (r: bool)
    ensures
        r == starts_with_folded(t@, lit@),
{
    let p = chars_of(lit);
    if p.len() > t.len() {
        return false;
    }
    let mut i: usize = 0;
    while i < p.len()
        invariant
            p@ == lit@,
            p@.len() <= t@.len(),
            i <= p@.len(),
            forall|k: int| 0 <= k < i ==> #[trigger] folded(t@[k]) == folded(p@[k]),
        decreases p@.len() - i,
    {
        if fold_exec(t[i]) != fold_exec(p[i]) {
            return false;
        }
        i = i + 1;
    }
    true
}

fn length_after(t: &[char], prefix: &str) -> (r: usize)
    requires
        prefix@.len() <= t@.len(),
    ensures
        r == length_of(t@.skip(prefix@.len() as int)),
{
    let p = chars_of(prefix);
    let rest = &t[p.len()..t.len()];
    assert(rest@ =~= t@.skip(prefix@.len() as int));
    let v = trim_chars(rest);
    match parse_usize(v.as_slice()) {
        Some(n) => n,
        None => 0,
    }
}

/// Reads one header line: `None` ends the headers, `Some(n)` is the content
/// length known after this line (`current` unless the line sets it); the
/// header's name is matched without regard to ASCII letter case.
pub fn header_line(line: &str, current: usize) -> (r: Option<usize>)
    ensures
        r == header_spec(line@, current),
{
    let v = chars_of(line);
    let t = trim_chars(v.as_slice());
    if t.len() == 0 {
        return None;
    }
    if has_prefix_folded(t.as_slice(), "content-length:") {
        Some(length_after(t.as_slice(), "content-length:"))
    } else {
        Some(current)
    }
}

// ---------------------------------------------------------------------------
// Routing and responses
// ---------------------------------------------------------------------------

/// What the test interface does with a request.
#[derive(PartialEq, Eq, Debug, Structural)]
pub enum Route {
    /// A CORS preflight: answer with no content.
    Preflight,
    /// `POST /api/send`: send a chat message.
    Send,
    /// `GET /api/messages`: report the chat's state.
    Messages,
    /// `GET /api/health`.
    Health,
    /// Anything else.
    NotFound,
}

pub open spec fn route_spec(method: Seq<char>, path: Seq<char>) -> Route {
    if method == "OPTIONS"@ {
        Route::Preflight
    } else if method == "POST"@ && path == "/api/send"@ {
        Route::Send
    } else if method == "GET"@ && path == "/api/messages"@ {
        Route::Messages
    } else if method == "GET"@ && path == "/api/health"@ {
        Route::Health
    } else {
        Route::NotFound
    }
}

/// The route of a request with this method and path.
pub fn route(method: &str, path: &str) -> (r: Route)
    ensures
        r == route_spec(method@, path@),
{
    let m = chars_of(method);
    let p = chars_of(path);
    if eq_str(m.as_slice(), "OPTIONS") {
        Route::Preflight
    } else if eq_str(m.as_slice(), "POST") && eq_str(p.as_slice(), "/api/send") {
        Route::Send
    } else if eq_str(m.as_slice(), "GET") && eq_str(p.as_slice(), "/api/messages") {
        Route::Messages
    } else if eq_str(m.as_slice(), "GET") && eq_str(p.as_slice(), "/api/health") {
        Route::Health
    } else {
        Route::NotFound
    }
}

/// The CORS headers of every response.
pub open spec fn cors() -> Seq<char> {
    "Access-Control-Allow-Origin: *\r\nAccess-Control-Allow-Methods: GET, POST, OPTIONS\r\nAccess-Control-Allow-Headers: Content-Type\r\n"@
}

fn push_cors(out: &mut Vec<char>)
    ensures
        final(out)@ == old(out)@ + cors(),
{
    push_str(
        out,
        "Access-Control-Allow-Origin: *\r\nAccess-Control-Allow-Methods: GET, POST, OPTIONS\r\nAccess-Control-Allow-Headers: Content-Type\r\n",
    );
}

/// The answer to a preflight request.
pub fn preflight_response() -> (r: String)
    ensures
        r@ == "HTTP/1.1 204 No Content\r\n"@ + cors() + "\r\n"@,
{
    let mut out: Vec<char> = Vec::new();
    push_str(&mut out, "HTTP/1.1 204 No Content\r\n");
    push_cors(&mut out);
    push_str(&mut out, "\r\n");
    string_of(out.as_slice())
}

/// A JSON response: status line, CORS headers, type, the body's length in bytes, and the body.
pub open spec fn json_response_spec(status: Seq<char>, body: Seq<char>) -> Seq<char> {
    "HTTP/1.1 "@ + status + "\r\n"@ + cors() + "Content-Type: application/json\r\nContent-Length: "@
        + dec((encode_utf8(body).len() as usize) as nat) + "\r\n\r\n"@ + body
}

/// Frames `body` as a JSON response with the status `status`.
pub fn json_response(status: &str, body: &str) -> (r: String)
    ensures
        r@ == json_response_spec(status@, body@),
{
    let mut out: Vec<char> = Vec::new();
    push_str(&mut out, "HTTP/1.1 ");
    push_str(&mut out, status);
    push_str(&mut out, "\r\n");
    push_cors(&mut out);
    push_str(&mut out, "Content-Type: application/json\r\nContent-Length: ");
    let n = body.len();
    push_dec(&mut out, n);
    push_str(&mut out, "\r\n\r\n");
    push_str(&mut out, body);
    string_of(out.as_slice())
}

/// The answer to a health check.
pub fn health_response() -> (r: String)
    ensures
        r@ == json_response_spec("200 OK"@, "{\"ok\":true}"@),
{
    json_response("200 OK", "{\"ok\":true}")
}

/// The answer to a request for anything else.
pub fn not_found_response() -> (r: String)
    ensures
        r@ == json_response_spec("404 Not Found"@, "{\"error\":\"not found\"}"@),
{
    json_response("404 Not Found", "{\"error\":\"not found\"}")
}

/// The answer to a state report: the state as it stands.
pub fn messages_response(state_json: &str) -> (r: String)
    ensures
        r@ == json_response_spec("200 OK"@, state_json@),
{
    json_response("200 OK", state_json)
}

// ---------------------------------------------------------------------------
// Sending a message
// ---------------------------------------------------------------------------

/// The string member `key` of `body` read as a JSON object, if it has one.
pub uninterp spec fn json_string_member(body: Seq<char>, key: Seq<char>) -> Option<Seq<char>>;

/// The hexadecimal digit of `n` (below 16), in lower case.
pub open spec fn hex_digit(n: int) -> char {
    "0123456789abcdef"@[n]
}

/// A character as it stands inside a JSON string literal: `"` and `\` and the
/// control characters below U+0020 are escaped (the short forms where JSON has
/// them, else `\u00XX`); every other character stands for itself.
pub open spec fn json_char(c: char) -> Seq<char> {
    if c == '"' {
        seq!['\\', '"']
    } else if c == '\\' {
        seq!['\\', '\\']
    } else if c == '\u{8}' {
        seq!['\\', 'b']
    } else if c == '\t' {
        seq!['\\', 't']
    } else if c == '\n' {
        seq!['\\', 'n']
    } else if c == '\u{c}' {
        seq!['\\', 'f']
    } else if c == '\r' {
        seq!['\\', 'r']
    } else if (c as u32) < 0x20 {
        seq!['\\', 'u', '0', '0', hex_digit((c as u32) as int / 16), hex_digit((c as u32) as int % 16)]
    } else {
        seq![c]
    }
}

/// The characters of `s` as they stand inside a JSON string literal.
pub open spec fn json_escaped(s: Seq<char>) -> Seq<char>
    decreases s.len(),
{
    if s.len() == 0 {
        Seq::empty()
    } else {
        json_escaped(s.drop_last()) + json_char(s.last())
    }
}

/// The JSON string literal of `s`: the escaped characters between double quotes.
pub open spec fn json_string(s: Seq<char>) -> Seq<char> {
    seq!['"'] + json_escaped(s) + seq!['"']
}

/// Trusted: parses `body` with `serde_json::from_str::<serde_json::Value>`
/// and takes its string member `key` (`Value::get`, `Value::as_str`); the
/// result is named, not described.
#[verifier::external_body]
fn string_member(body: &str, key: &str) -> (r: Option<String>)
    ensures
        match r {
            Some(s) => json_string_member(body@, key@) == Some(s@),
            None => json_string_member(body@, key@) is None,
        },
{
    serde_json::from_str::<serde_json::Value>(body).ok().and_then(
        |v| v.get(key).and_then(|t| t.as_str()).map(String::from),
    )
}

/// Trusted: the display of `serde_json::Value::String(s)` (its compact
/// serialization), which is the JSON string literal of `s` as `json_string`
/// states it.
#[verifier::external_body]
fn quoted(s: &str) -> (r: String)
    ensures
        r@ == json_string(s@),
{
    serde_json::Value::String(s.to_string()).to_string()
}

/// The message a send request carries, given what reading its body as JSON found:
/// the `text` member, or else the whole body.
pub fn sent_text(body: &str, member: Option<String>) -> (r: String)
    ensures
        r@ == match member {
            Some(t) => t@,
            None => body@,
        },
{
    match member {
        Some(t) => t,
        None => string_from_str(body),
    }
}

fn string_from_str(s: &str) -> (r: String)
    ensures
        r@ == s@,
{
    let v = chars_of(s);
    string_of(v.as_slice())
}

/// The message a send request carries: the body's `text` member when the body
/// is a JSON object with one, else the whole body.
pub fn send_text(body: &str) -> (r: String)
    ensures
        r@ == match json_string_member(body@, "text"@) {
            Some(t) => t,
            None => body@,
        },
{
    let m = string_member(body, "text");
    sent_text(body, m)
}

/// The body that acknowledges a sent message, given its JSON string literal.
pub fn sent_body(quoted_text: &str) -> (r: String)
    ensures
        r@ == "{\"ok\":true,\"sent\":"@ + quoted_text@ + "}"@,
{
    let mut out: Vec<char> = Vec::new();
    push_str(&mut out, "{\"ok\":true,\"sent\":");
    push_str(&mut out, quoted_text);
    push_str(&mut out, "}");
    string_of(out.as_slice())
}

/// The answer to a send request that carried `text`.
pub fn send_response(text: &str) -> (r: String)
    ensures
        r@ == json_response_spec(
            "200 OK"@,
            "{\"ok\":true,\"sent\":"@ + json_string(text@) + "}"@,
        ),
{
    let q = quoted(text);
    let body = sent_body(q.as_str());
    json_response("200 OK", body.as_str())
}

} // verus!
