//! The redirect capture core: parsing of the single HTTP request line that the
//! browser sends back after the external authorization step, validation of the
//! echoed `state` value, and selection of the HTTP response to serve.
//!
//! The socket work (bind, accept, read, write) lives outside the library; it
//! hands the request line in as a string and ships the chosen response back.

use vstd::prelude::*;
use vstd::string::StrSliceExecFns;
use vstd::string::StringExecFns;

verus! {

/// A successfully captured authorization redirect: the token handed back by
/// the authorization flow together with the state value that was echoed.
#[derive(Debug)]
pub struct AuthResult {
    pub token: String,
    pub state: String,
}

/// Why a capture attempt produced no `AuthResult`. Each failure is terminal:
/// the attempt is never retried and the caller restarts the whole flow.
#[derive(Debug)]
pub enum CaptureFailure {
    /// The loopback listener could not be bound to the requested port.
    BindFailed { port: u16, detail: String },
    /// Accepting the single inbound connection failed (including an external
    /// close of the listener used as cancellation).
    AcceptFailed { detail: String },
    /// The connection closed or errored before a full request line arrived.
    RequestReadFailed { detail: String },
    /// The request line does not have a second whitespace-separated field.
    MalformedRequest,
    /// The request target carries no query string.
    MissingQuery,
    /// The query string has no `token` parameter.
    MissingToken,
    /// The query string has no `state` parameter.
    MissingState,
    /// The echoed state differs from the expected one; both are kept for
    /// caller-side diagnostics.
    StateMismatch { expected: String, received: String },
}

// ---------------------------------------------------------------------------
// Spec model of the request-line syntax
// ---------------------------------------------------------------------------

/// Whitespace as the request-line fields are separated by: the characters of
/// the Unicode white-space set, the one the standard library's
/// `char::is_whitespace` accepts.
pub open spec fn is_space(c: char) -> bool {
    let u = c as u32;
    u == 0x20 || (0x09 <= u && u <= 0x0D) || u == 0x85 || u == 0xA0 || u == 0x1680 || (0x2000 <= u
        && u <= 0x200A) || u == 0x2028 || u == 0x2029 || u == 0x202F || u == 0x205F || u == 0x3000
}

/// Index of the first occurrence of `c` at or after `from`; `s.len()` if none.
pub open spec fn find_char(s: Seq<char>, from: int, c: char) -> int
    decreases s.len() - from,
{
    if from < 0 || from >= s.len() {
        s.len() as int
    } else if s[from] == c {
        from
    } else {
        find_char(s, from + 1, c)
    }
}

/// Index of the first whitespace character at or after `from`; `s.len()` if none.
pub open spec fn find_space(s: Seq<char>, from: int) -> int
    decreases s.len() - from,
{
    if from < 0 || from >= s.len() {
        s.len() as int
    } else if is_space(s[from]) {
        from
    } else {
        find_space(s, from + 1)
    }
}

/// Index of the first non-whitespace character at or after `from`; `s.len()` if none.
pub open spec fn find_nonspace(s: Seq<char>, from: int) -> int
    decreases s.len() - from,
{
    if from < 0 || from >= s.len() {
        s.len() as int
    } else if !is_space(s[from]) {
        from
    } else {
        find_nonspace(s, from + 1)
    }
}

pub proof fn lemma_find_char_at(s: Seq<char>, from: int, c: char, i: int)
    requires
        0 <= from <= i <= s.len(),
        forall|j: int| from <= j < i ==> s[j] != c,
        i == s.len() || s[i] == c,
    ensures
        find_char(s, from, c) == i,
    decreases i - from,
{
    if from < i {
        lemma_find_char_at(s, from + 1, c, i);
    }
}

pub proof fn lemma_find_char_props(s: Seq<char>, from: int, c: char)
    requires
        0 <= from <= s.len(),
    ensures
        from <= find_char(s, from, c) <= s.len(),
        find_char(s, from, c) < s.len() ==> s[find_char(s, from, c)] == c,
        forall|j: int| from <= j < find_char(s, from, c) ==> s[j] != c,
    decreases s.len() - from,
{
    if from < s.len() && s[from] != c {
        lemma_find_char_props(s, from + 1, c);
    }
}

pub proof fn lemma_find_space_at(s: Seq<char>, from: int, i: int)
    requires
        0 <= from <= i <= s.len(),
        forall|j: int| from <= j < i ==> !is_space(s[j]),
        i == s.len() || is_space(s[i]),
    ensures
        find_space(s, from) == i,
    decreases i - from,
{
    if from < i {
        lemma_find_space_at(s, from + 1, i);
    }
}

pub proof fn lemma_find_nonspace_at(s: Seq<char>, from: int, i: int)
    requires
        0 <= from <= i <= s.len(),
        forall|j: int| from <= j < i ==> is_space(s[j]),
        i == s.len() || !is_space(s[i]),
    ensures
        find_nonspace(s, from) == i,
    decreases i - from,
{
    if from < i {
        lemma_find_nonspace_at(s, from + 1, i);
    }
}

// ---------------------------------------------------------------------------
// Spec model of one capture attempt
// ---------------------------------------------------------------------------

/// The request target: the second whitespace-separated field of the request
/// line (`GET <target> HTTP/1.1`), or `None` when fewer than two fields exist.
pub open spec fn request_target(line: Seq<char>) -> Option<Seq<char>> {
    let b = find_space(line, find_nonspace(line, 0));
    let c = find_nonspace(line, b);
    let d = find_space(line, c);
    if c >= line.len() {
        None
    } else {
        Some(line.subrange(c, d))
    }
}

/// The query string of a request target: everything after the first `?`, or
/// `None` when the target holds no `?` at all.
pub open spec fn query_of(target: Seq<char>) -> Option<Seq<char>> {
    let q = find_char(target, 0, '?');
    if q >= target.len() {
        None
    } else {
        Some(target.subrange(q + 1, target.len() as int))
    }
}

/// The value bound to `key` among the `&`-separated `key=value` parameters of
/// `query`, starting at `from`; the first occurrence wins. A parameter without
/// `=` binds its whole text as the key and the empty value.
pub open spec fn param_value_from(query: Seq<char>, from: int, key: Seq<char>) -> Option<Seq<char>>
    decreases query.len() - from,
    via param_value_from_decreases
{
    if !(0 <= from <= query.len()) {
        None
    } else {
        let amp = find_char(query, from, '&');
        let e = find_char(query, from, '=');
        let k = if e < amp {
            query.subrange(from, e)
        } else {
            query.subrange(from, amp)
        };
        if k == key {
            Some(
                if e < amp {
                    query.subrange(e + 1, amp)
                } else {
                    Seq::<char>::empty()
                },
            )
        } else if amp >= query.len() {
            None
        } else {
            param_value_from(query, amp + 1, key)
        }
    }
}

#[via_fn]
proof fn param_value_from_decreases(query: Seq<char>, from: int, key: Seq<char>) {
    if 0 <= from <= query.len() {
        lemma_find_char_props(query, from, '&');
    }
}

pub open spec fn token_key() -> Seq<char> {
    "token"@
}

pub open spec fn state_key() -> Seq<char> {
    "state"@
}

/// What one capture attempt decides, as a function of the request line and the
/// expected state value alone.
pub enum SpecOutcome {
    Accepted { token: Seq<char>, state: Seq<char> },
    Malformed,
    NoQuery,
    NoToken,
    NoState,
    Mismatch { received: Seq<char> },
}

/// The decision taken on one request line: extract the target, then the query,
/// then the `token` and `state` parameters, then compare the state with the
/// expected value, each missing piece ending the attempt with its own failure.
pub open spec fn capture_outcome(line: Seq<char>, expected: Seq<char>) -> SpecOutcome {
    match request_target(line) {
        None => SpecOutcome::Malformed,
        Some(target) => match query_of(target) {
            None => SpecOutcome::NoQuery,
            Some(query) => match param_value_from(query, 0, token_key()) {
                None => SpecOutcome::NoToken,
                Some(token) => match param_value_from(query, 0, state_key()) {
                    None => SpecOutcome::NoState,
                    Some(state) => if state == expected {
                        SpecOutcome::Accepted { token, state }
                    } else {
                        SpecOutcome::Mismatch { received: state }
                    },
                },
            },
        },
    }
}

/// How an executable capture result must reflect the modelled outcome.
pub open spec fn reflects_outcome(
    r: Result<AuthResult, CaptureFailure>,
    line: Seq<char>,
    expected: Seq<char>,
) -> bool {
    match capture_outcome(line, expected) {
        SpecOutcome::Accepted { token, state } => r matches Ok(a) && a.token@ == token
            && a.state@ == state,
        SpecOutcome::Malformed => r matches Err(CaptureFailure::MalformedRequest),
        SpecOutcome::NoQuery => r matches Err(CaptureFailure::MissingQuery),
        SpecOutcome::NoToken => r matches Err(CaptureFailure::MissingToken),
        SpecOutcome::NoState => r matches Err(CaptureFailure::MissingState),
        SpecOutcome::Mismatch { received } => r matches Err(
            CaptureFailure::StateMismatch { expected: e, received: g },
        ) && e@ == expected && g@ == received,
    }
}

// ---------------------------------------------------------------------------
// Executable scanning
// ---------------------------------------------------------------------------

fn scan_char(s: &str, from: usize, c: char) -> (i: usize)
    requires
        from as int <= s@.len(),
    ensures
        i == find_char(s@, from as int, c),
        from <= i <= s@.len(),
{
    let n = s.unicode_len();
    let mut i: usize = from;
    while i < n
        invariant
            from <= i <= n,
            n == s@.len(),
            forall|j: int| from <= j < i ==> s@[j] != c,
        decreases n - i,
    {
        if s.get_char(i) == c {
            proof {
                lemma_find_char_at(s@, from as int, c, i as int);
            }
            return i;
        }
        i = i + 1;
    }
    proof {
        lemma_find_char_at(s@, from as int, c, n as int);
    }
    n
}

/// Whether `c` is one of the whitespace separators.
fn space_char(c: char) -> (r: bool)
    ensures
        r == is_space(c),
{
    let u = c as u32;
    u == 0x20 || (0x09 <= u && u <= 0x0D) || u == 0x85 || u == 0xA0 || u == 0x1680 || (0x2000 <= u
        && u <= 0x200A) || u == 0x2028 || u == 0x2029 || u == 0x202F || u == 0x205F || u == 0x3000
}

fn scan_space(s: &str, from: usize) -> (i: usize)
    requires
        from as int <= s@.len(),
    ensures
        i == find_space(s@, from as int),
        from <= i <= s@.len(),
{
    let n = s.unicode_len();
    let mut i: usize = from;
    while i < n
        invariant
            from <= i <= n,
            n == s@.len(),
            forall|j: int| from <= j < i ==> !is_space(s@[j]),
        decreases n - i,
    {
        if space_char(s.get_char(i)) {
            proof {
                lemma_find_space_at(s@, from as int, i as int);
            }
            return i;
        }
        i = i + 1;
    }
    proof {
        lemma_find_space_at(s@, from as int, n as int);
    }
    n
}

fn scan_nonspace(s: &str, from: usize) -> (i: usize)
    requires
        from as int <= s@.len(),
    ensures
        i == find_nonspace(s@, from as int),
        from <= i <= s@.len(),
{
    let n = s.unicode_len();
    let mut i: usize = from;
    while i < n
        invariant
            from <= i <= n,
            n == s@.len(),
            forall|j: int| from <= j < i ==> is_space(s@[j]),
        decreases n - i,
    {
        if !space_char(s.get_char(i)) {
            proof {
                lemma_find_nonspace_at(s@, from as int, i as int);
            }
            return i;
        }
        i = i + 1;
    }
    proof {
        lemma_find_nonspace_at(s@, from as int, n as int);
    }
    n
}

/// Whether the characters of `s` in `[from, to)` are exactly those of `key`.
fn range_eq(s: &str, from: usize, to: usize, key: &str) -> (r: bool)
    requires
        from <= to <= s@.len(),
    ensures
        r == (s@.subrange(from as int, to as int) == key@),
{
    let kn = key.unicode_len();
    if to - from != kn {
        proof {
            assert(s@.subrange(from as int, to as int).len() != key@.len());
        }
        return false;
    }
    let mut i: usize = 0;
    while i < kn
        invariant
            0 <= i <= kn,
            kn == key@.len(),
            from + kn == to <= s@.len(),
            forall|j: int| 0 <= j < i ==> s@[from + j] == key@[j],
        decreases kn - i,
    {
        if s.get_char(from + i) != key.get_char(i) {
            proof {
                assert(s@.subrange(from as int, to as int)[i as int] != key@[i as int]);
            }
            return false;
        }
        i = i + 1;
    }
    proof {
        assert(s@.subrange(from as int, to as int) =~= key@);
    }
    true
}

/// Whether two strings hold the same characters.
fn str_eq(a: &str, b: &str) -> (r: bool)
    ensures
        r == (a@ == b@),
{
    let n = a.unicode_len();
    let r = range_eq(a, 0, n, b);
    proof {
        assert(a@.subrange(0, n as int) =~= a@);
    }
    r
}

/// The value bound to `key` in `query`, if any, as the model `param_value_from`
/// gives it.
fn lookup_param(query: &str, key: &str) -> (r: Option<String>)
    ensures
        match param_value_from(query@, 0, key@) {
            Some(v) => r matches Some(x) && x@ == v,
            None => r is None,
        },
{
    let n = query.unicode_len();
    let mut pos: usize = 0;
    loop
        invariant
            0 <= pos <= n,
            n == query@.len(),
            param_value_from(query@, 0, key@) == param_value_from(query@, pos as int, key@),
        decreases n - pos,
    {
        let amp = scan_char(query, pos, '&');
        let e = scan_char(query, pos, '=');
        let kend = if e < amp {
            e
        } else {
            amp
        };
        if range_eq(query, pos, kend, key) {
            if e < amp {
                let v = query.substring_char(e + 1, amp);
                return Some(String::from_str(v));
            } else {
                return Some(String::new());
            }
        }
        if amp >= n {
            return None;
        }
        pos = amp + 1;
    }
}

/// Parse one HTTP request line and validate the echoed state against the
/// expected one. This is the whole decision of a capture attempt; the socket
/// failures (`BindFailed`, `AcceptFailed`, `RequestReadFailed`) are reported by
/// the caller that owns the socket and never by this function.
pub fn process_request_line(line: &str, expected_state: &str) -> (r: Result<
    AuthResult,
    CaptureFailure,
>)
    ensures
        reflects_outcome(r, line@, expected_state@),
{
    let n = line.unicode_len();
    let a = scan_nonspace(line, 0);
    let b = scan_space(line, a);
    let c = scan_nonspace(line, b);
    let d = scan_space(line, c);
    if c >= n {
        return Err(CaptureFailure::MalformedRequest);
    }
    let target = line.substring_char(c, d);
    proof {
        assert(request_target(line@) == Some(target@));
    }
    let tn = target.unicode_len();
    let q = scan_char(target, 0, '?');
    if q >= tn {
        return Err(CaptureFailure::MissingQuery);
    }
    let query = target.substring_char(q + 1, tn);
    proof {
        assert(query_of(target@) == Some(query@));
    }
    let token = match lookup_param(query, "token") {
        Some(t) => t,
        None => {
            return Err(CaptureFailure::MissingToken);
        },
    };
    let state = match lookup_param(query, "state") {
        Some(s) => s,
        None => {
            return Err(CaptureFailure::MissingState);
        },
    };
    if str_eq(state.as_str(), expected_state) {
        Ok(AuthResult { token, state })
    } else {
        Err(
            CaptureFailure::StateMismatch {
                expected: String::from_str(expected_state),
                received: state,
            },
        )
    }
}

// ---------------------------------------------------------------------------
// The two HTTP responses the browser can be served
// ---------------------------------------------------------------------------

/// The HTTP 200 page served when the capture succeeded.
pub open spec fn success_response() -> Seq<char> {
    "HTTP/1.1 200 OK\r\nContent-Type: text/html\r\n\r\n<html><body><h1>Authentication successful!</h1><p>You can close this tab and return to Specra.</p></body></html>"@
}

/// The HTTP 400 page served when the echoed state did not match.
pub open spec fn mismatch_response() -> Seq<char> {
    "HTTP/1.1 400 Bad Request\r\nContent-Type: text/html\r\n\r\n<html><body><h1>Authentication failed</h1><p>State mismatch.</p></body></html>"@
}

/// The raw HTTP response owed to the browser for a capture outcome: the
/// success page on success, the failure page on a state mismatch, and nothing
/// at all for the other failures, which never complete an HTTP exchange.
pub fn http_response(outcome: &Result<AuthResult, CaptureFailure>) -> (r: Option<&'static str>)
    ensures
        match outcome {
            Ok(_) => r matches Some(s) && s@ == success_response(),
            Err(f) => if f is StateMismatch {
                r matches Some(s) && s@ == mismatch_response()
            } else {
                r is None
            },
        },
{
    match outcome {
        Ok(_) => Some(
            "HTTP/1.1 200 OK\r\nContent-Type: text/html\r\n\r\n<html><body><h1>Authentication successful!</h1><p>You can close this tab and return to Specra.</p></body></html>",
        ),
        Err(CaptureFailure::StateMismatch { .. }) => Some(
            "HTTP/1.1 400 Bad Request\r\nContent-Type: text/html\r\n\r\n<html><body><h1>Authentication failed</h1><p>State mismatch.</p></body></html>",
        ),
        Err(_) => None,
    }
}

// ---------------------------------------------------------------------------
// Laws of the capture decision
// ---------------------------------------------------------------------------

/// Text that can stand as one parameter value of a redirect line: free of
/// whitespace and of the three query separators.
pub open spec fn plain_param_text(s: Seq<char>) -> bool {
    forall|i: int|
        0 <= i < s.len() ==> !is_space(#[trigger] s[i]) && s[i] != '?' && s[i] != '&' && s[i]
            != '='
}

/// The request line the browser sends for a redirect carrying `token` and `state`.
pub open spec fn redirect_line(token: Seq<char>, state: Seq<char>) -> Seq<char> {
    "GET /?token="@ + token + "&state="@ + state + " HTTP/1.1"@
}

/// The request target of such a line.
pub open spec fn redirect_target(token: Seq<char>, state: Seq<char>) -> Seq<char> {
    "/?token="@ + token + "&state="@ + state
}

/// The query string of such a line.
pub open spec fn redirect_query(token: Seq<char>, state: Seq<char>) -> Seq<char> {
    "token="@ + token + "&state="@ + state
}

proof fn lemma_redirect_line_parses(token: Seq<char>, state: Seq<char>)
    requires
        plain_param_text(token),
        plain_param_text(state),
    ensures
        request_target(redirect_line(token, state)) == Some(redirect_target(token, state)),
        query_of(redirect_target(token, state)) == Some(redirect_query(token, state)),
        param_value_from(redirect_query(token, state), 0, token_key()) == Some(token),
        param_value_from(redirect_query(token, state), 0, state_key()) == Some(state),
{
    reveal_strlit("GET /?token=");
    reveal_strlit("&state=");
    reveal_strlit(" HTTP/1.1");
    reveal_strlit("/?token=");
    reveal_strlit("token=");
    reveal_strlit("token");
    reveal_strlit("state");
    let line = redirect_line(token, state);
    let t = token.len() as int;
    let s = state.len() as int;
    assert(line.len() == 28 + t + s);
    // the fixed characters of the line
    assert(line[0] == 'G' && line[1] == 'E' && line[2] == 'T' && line[3] == ' ');
    assert(line[4] == '/' && line[5] == '?');
    assert(line[6] == 't' && line[7] == 'o' && line[8] == 'k' && line[9] == 'e' && line[10] == 'n'
        && line[11] == '=');
    assert(forall|j: int| 12 <= j < 12 + t ==> line[j] == token[j - 12]);
    assert(line[12 + t] == '&');
    assert(line[13 + t] == 's' && line[14 + t] == 't' && line[15 + t] == 'a' && line[16 + t] == 't'
        && line[17 + t] == 'e' && line[18 + t] == '=');
    assert(forall|j: int| 19 + t <= j < 19 + t + s ==> line[j] == state[j - 19 - t]);
    assert(line[19 + t + s] == ' ');
    assert(line[20 + t + s] == 'H' && line[21 + t + s] == 'T' && line[22 + t + s] == 'T' && line[23
        + t + s] == 'P');
    assert(line[24 + t + s] == '/' && line[25 + t + s] == '1' && line[26 + t + s] == '.' && line[27
        + t + s] == '1');
    // the second whitespace-separated field spans [4, 19 + t + s)
    lemma_find_nonspace_at(line, 0, 0);
    lemma_find_space_at(line, 0, 3);
    lemma_find_nonspace_at(line, 3, 4);
    assert forall|j: int| 4 <= j < 19 + t + s implies !is_space(line[j]) by {
        if 12 <= j < 12 + t {
            assert(line[j] == token[j - 12]);
        } else if 19 + t <= j {
            assert(line[j] == state[j - 19 - t]);
        }
    }
    lemma_find_space_at(line, 4, 19 + t + s);
    let target = redirect_target(token, state);
    assert(target.len() == 15 + t + s);
    assert(line.subrange(4, 19 + t + s) =~= target);
    assert(request_target(line) == Some(target));
    // the query begins after the `?` at index 1 of the target
    assert(target[0] == '/' && target[1] == '?');
    lemma_find_char_at(target, 0, '?', 1);
    let query = redirect_query(token, state);
    assert(query.len() == 13 + t + s);
    assert(target.subrange(2, 15 + t + s) =~= query);
    assert(query_of(target) == Some(query));
    // the characters of the query
    assert(query[0] == 't' && query[1] == 'o' && query[2] == 'k' && query[3] == 'e' && query[4]
        == 'n' && query[5] == '=');
    assert(forall|j: int| 6 <= j < 6 + t ==> query[j] == token[j - 6]);
    assert(query[6 + t] == '&');
    assert(query[7 + t] == 's' && query[8 + t] == 't' && query[9 + t] == 'a' && query[10 + t] == 't'
        && query[11 + t] == 'e' && query[12 + t] == '=');
    assert(forall|j: int| 13 + t <= j < 13 + t + s ==> query[j] == state[j - 13 - t]);
    // the first parameter binds `token`
    assert forall|j: int| 0 <= j < 6 + t implies query[j] != '&' by {
        if 6 <= j < 6 + t {
            assert(query[j] == token[j - 6]);
        }
    }
    lemma_find_char_at(query, 0, '&', 6 + t);
    lemma_find_char_at(query, 0, '=', 5);
    assert(query.subrange(0, 5) =~= token_key());
    assert(query.subrange(6, 6 + t) =~= token);
    assert(param_value_from(query, 0, token_key()) == Some(token));
    // the second parameter binds `state`
    assert(token_key()[0] == 't' && state_key()[0] == 's');
    assert(token_key() != state_key());
    assert forall|j: int| 7 + t <= j < 13 + t + s implies query[j] != '&' by {
        if 13 + t <= j {
            assert(query[j] == state[j - 13 - t]);
        }
    }
    lemma_find_char_at(query, 7 + t, '&', 13 + t + s);
    assert forall|j: int| 7 + t <= j < 12 + t implies query[j] != '=' by {}
    lemma_find_char_at(query, 7 + t, '=', 12 + t);
    assert(query.subrange(7 + t, 12 + t) =~= state_key());
    assert(query.subrange(13 + t, 13 + t + s) =~= state);
    assert(param_value_from(query, 7 + t, state_key()) == Some(state));
    assert(param_value_from(query, 0, state_key()) == Some(state));
}

/// Law: a redirect request whose echoed state equals the expected one is
/// accepted, and yields exactly the token and state the request line carries.
pub proof fn lemma_matching_state_accepted(token: Seq<char>, state: Seq<char>, expected: Seq<char>)
    requires
        plain_param_text(token),
        plain_param_text(state),
        state == expected,
    ensures
        capture_outcome(redirect_line(token, state), expected) == (SpecOutcome::Accepted {
            token,
            state,
        }),
{
    lemma_redirect_line_parses(token, state);
}

/// Law: a redirect request whose echoed state differs from the expected one is
/// rejected as a state mismatch carrying the received state.
pub proof fn lemma_mismatched_state_rejected(
    token: Seq<char>,
    state: Seq<char>,
    expected: Seq<char>,
)
    requires
        plain_param_text(token),
        plain_param_text(state),
        state != expected,
    ensures
        capture_outcome(redirect_line(token, state), expected) == (SpecOutcome::Mismatch {
            received: state,
        }),
{
    lemma_redirect_line_parses(token, state);
}

/// Law: any capture result for a matching well-formed redirect is a success
/// holding that token and state.
pub proof fn lemma_valid_redirect_captured(
    r: Result<AuthResult, CaptureFailure>,
    token: Seq<char>,
    state: Seq<char>,
    expected: Seq<char>,
)
    requires
        plain_param_text(token),
        plain_param_text(state),
        state == expected,
        reflects_outcome(r, redirect_line(token, state), expected),
    ensures
        r matches Ok(a) && a.token@ == token && a.state@ == state,
{
    lemma_matching_state_accepted(token, state, expected);
}

/// Law: any capture result for a well-formed redirect with the wrong state is
/// a `StateMismatch` carrying both the expected and the received state.
pub proof fn lemma_wrong_state_reported(
    r: Result<AuthResult, CaptureFailure>,
    token: Seq<char>,
    state: Seq<char>,
    expected: Seq<char>,
)
    requires
        plain_param_text(token),
        plain_param_text(state),
        state != expected,
        reflects_outcome(r, redirect_line(token, state), expected),
    ensures
        r matches Err(CaptureFailure::StateMismatch { expected: e, received: g }) && e@ == expected
            && g@ == state,
{
    lemma_mismatched_state_rejected(token, state, expected);
}

/// Law: a request whose query lacks a `token` parameter fails with
/// `MissingToken`, whatever other parameters are present.
pub proof fn lemma_missing_token(
    r: Result<AuthResult, CaptureFailure>,
    line: Seq<char>,
    expected: Seq<char>,
)
    requires
        reflects_outcome(r, line, expected),
        request_target(line) matches Some(target) && query_of(target) matches Some(query)
            && param_value_from(query, 0, token_key()) is None,
    ensures
        r matches Err(CaptureFailure::MissingToken),
{
}

/// Law: a request whose query lacks a `state` parameter fails with
/// `MissingState`, whatever token is present.
pub proof fn lemma_missing_state(
    r: Result<AuthResult, CaptureFailure>,
    line: Seq<char>,
    expected: Seq<char>,
)
    requires
        reflects_outcome(r, line, expected),
        request_target(line) matches Some(target) && query_of(target) matches Some(query)
            && param_value_from(query, 0, token_key()) is Some && param_value_from(
            query,
            0,
            state_key(),
        ) is None,
    ensures
        r matches Err(CaptureFailure::MissingState),
{
}

/// Law: a request whose target has no query string fails with `MissingQuery`,
/// before any parameter is looked at.
pub proof fn lemma_missing_query(
    r: Result<AuthResult, CaptureFailure>,
    line: Seq<char>,
    expected: Seq<char>,
)
    requires
        reflects_outcome(r, line, expected),
        request_target(line) matches Some(target) && query_of(target) is None,
    ensures
        r matches Err(CaptureFailure::MissingQuery),
{
}

} // verus!
