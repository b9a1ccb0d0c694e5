//! Request parsing: from a raw byte buffer to method, path and optional
//! query string.
//!
//! The request line is tokenized by repeatedly splitting at the first space
//! or carriage return; exactly three tokens — method, target, protocol —
//! are consumed, and everything after the protocol token (headers, body) is
//! discarded unread. All splitting happens at character positions and only
//! at single-byte delimiter characters, so it can never land inside a
//! multi-byte encoding. Path and query string borrow from the input buffer;
//! no string storage is copied.

use vstd::prelude::*;

use crate::method::{lemma_token_round_trip, spec_method_of, spec_token, Method};
use crate::query_string::{spec_parse_query, QueryString};
use crate::text::{find_char, lemma_spec_find, spec_find, str_eq};

verus! {

broadcast use vstd::string::group_string_axioms;

/// Why a buffer failed to parse as a request.
#[derive(Clone, Copy, Debug, PartialEq, Eq, Structural)]
pub enum ParseError {
    /// The request line is missing an expected token boundary.
    InvalidRequest,
    /// The buffer is not valid UTF-8.
    InvalidEncoding,
    /// The protocol token is not exactly `HTTP/1.1`.
    InvalidProtocol,
    /// The method token is not a recognized verb.
    InvalidMethod,
}

/// The fixed description of each parse failure.
pub open spec fn spec_message(e: ParseError) -> Seq<char> {
    match e {
        ParseError::InvalidRequest => "Invalid Request"@,
        ParseError::InvalidEncoding => "Invalid Encoding"@,
        ParseError::InvalidProtocol => "Invalid Protocol"@,
        ParseError::InvalidMethod => "Invalid Method"@,
    }
}

impl ParseError {
    /// A short human-readable description of the failure.
    pub fn message(&self) -> (r: &str)
        ensures
            r@ == spec_message(*self),
    {
        match self {
            ParseError::InvalidRequest => "Invalid Request",
            ParseError::InvalidEncoding => "Invalid Encoding",
            ParseError::InvalidProtocol => "Invalid Protocol",
            ParseError::InvalidMethod => "Invalid Method",
        }
    }
}

/// Word delimiters of the request line: space and carriage return.
pub open spec fn is_delim(c: char) -> bool {
    c == ' ' || c == '\r'
}

/// Index of the first delimiter in `s`, if any.
pub open spec fn spec_find_delim(s: Seq<char>) -> Option<int>
    decreases s.len(),
{
    if s.len() == 0 {
        None
    } else if is_delim(s[0]) {
        Some(0int)
    } else {
        match spec_find_delim(s.drop_first()) {
            Some(i) => Some(i + 1),
            None => None,
        }
    }
}

/// `spec_find_delim` really is the first delimiter position.
pub proof fn lemma_spec_find_delim(s: Seq<char>)
    ensures
        match spec_find_delim(s) {
            Some(i) => 0 <= i < s.len() && is_delim(s[i]) && (forall|j: int|
                0 <= j < i ==> !is_delim(s[j])),
            None => forall|j: int| 0 <= j < s.len() ==> !is_delim(s[j]),
        },
    decreases s.len(),
{
    if s.len() == 0 {
    } else if is_delim(s[0]) {
    } else {
        lemma_spec_find_delim(s.drop_first());
        match spec_find_delim(s.drop_first()) {
            Some(i) => {
                assert forall|j: int| 0 <= j < i + 1 implies !is_delim(s[j]) by {
                    if j > 0 {
                        assert(!is_delim(s.drop_first()[j - 1]));
                    }
                }
            },
            None => {
                assert forall|j: int| 0 <= j < s.len() implies !is_delim(s[j]) by {
                    if j > 0 {
                        assert(!is_delim(s.drop_first()[j - 1]));
                    }
                }
            },
        }
    }
}

/// Conversely, an in-bounds delimiter with none before it pins
/// `spec_find_delim` down.
pub proof fn lemma_spec_find_delim_at(s: Seq<char>, i: int)
    requires
        0 <= i < s.len(),
        is_delim(s[i]),
        forall|j: int| 0 <= j < i ==> !is_delim(s[j]),
    ensures
        spec_find_delim(s) == Some(i),
    decreases i,
{
    if i == 0 {
    } else {
        assert(!is_delim(s[0]));
        assert(s.drop_first()[i - 1] == s[i]);
        assert forall|j: int| 0 <= j < i - 1 implies !is_delim(s.drop_first()[j]) by {
            assert(!is_delim(s[j + 1]));
        }
        lemma_spec_find_delim_at(s.drop_first(), i - 1);
    }
}

/// The next word of the request line and what follows it: the text before
/// the first delimiter, and the text after that delimiter (which is
/// discarded). `None` when no delimiter is present.
pub open spec fn spec_next_word(s: Seq<char>) -> Option<(Seq<char>, Seq<char>)> {
    match spec_find_delim(s) {
        None => None,
        Some(i) => Some((s.take(i), s.skip(i + 1))),
    }
}

/// Split off the next word: the text before the first space or carriage
/// return, and everything after that delimiter.
pub fn get_next_word(request: &str) -> (r: Option<(&str, &str)>)
    ensures
        match spec_next_word(request@) {
            None => r is None,
            Some(parts) => r is Some && (r->0).0@ == parts.0 && (r->0).1@ == parts.1,
        },
{
    let n = request.unicode_len();
    let mut k: usize = 0;
    while k < n
        invariant
            n == request@.len(),
            0 <= k <= n,
            forall|j: int| 0 <= j < k ==> !is_delim(request@[j]),
        decreases n - k,
    {
        let c = request.get_char(k);
        if c == ' ' || c == '\r' {
            proof {
                lemma_spec_find_delim_at(request@, k as int);
            }
            let word = request.substring_char(0, k);
            let rest = request.substring_char(k + 1, n);
            return Some((word, rest));
        }
        k += 1;
    }
    proof {
        lemma_spec_find_delim(request@);
    }
    None
}

/// What a request line denotes: the spec-level outcome of tokenizing and
/// validating the decoded text.
pub ghost struct SpecRequest {
    /// The recognized verb.
    pub method: Method,
    /// The path, with any query part stripped.
    pub path: Seq<char>,
    /// The raw query text after the first `?` of the target, if one occurs.
    pub query: Option<Seq<char>>,
}

/// Parse the decoded request line: three words (method, target, protocol),
/// protocol exactly `HTTP/1.1`, a recognized method, and the target split
/// at its first `?` into path and query text.
pub open spec fn spec_parse_line(t: Seq<char>) -> Result<SpecRequest, ParseError> {
    match spec_next_word(t) {
        None => Err(ParseError::InvalidRequest),
        Some((method_tok, rest1)) => match spec_next_word(rest1) {
            None => Err(ParseError::InvalidRequest),
            Some((target, rest2)) => match spec_next_word(rest2) {
                None => Err(ParseError::InvalidRequest),
                Some((protocol, _)) => if protocol != "HTTP/1.1"@ {
                    Err(ParseError::InvalidProtocol)
                } else {
                    match spec_method_of(method_tok) {
                        None => Err(ParseError::InvalidMethod),
                        Some(m) => Ok(
                            SpecRequest {
                                method: m,
                                path: match spec_find(target, '?') {
                                    None => target,
                                    Some(i) => target.take(i),
                                },
                                query: match spec_find(target, '?') {
                                    None => None,
                                    Some(i) => Some(target.skip(i + 1)),
                                },
                            },
                        ),
                    }
                },
            },
        },
    }
}

/// What a raw buffer parses to: invalid UTF-8 is rejected outright, valid
/// text is parsed as a request line.
pub open spec fn spec_parse_buffer(bytes: Seq<u8>) -> Result<SpecRequest, ParseError> {
    if !vstd::utf8::valid_utf8(bytes) {
        Err(ParseError::InvalidEncoding)
    } else {
        spec_parse_line(vstd::utf8::decode_utf8(bytes))
    }
}

/// A parsed request. All string data borrows from the buffer it was parsed
/// from; the request must not outlive that buffer.
#[derive(Debug)]
pub struct Request<'buf> {
    path: &'buf str,
    query_string: Option<QueryString<'buf>>,
    method: Method,
}

/// Relies on str::from_utf8: it succeeds exactly when the bytes are valid
/// UTF-8, and then returns those bytes viewed as their decoded characters.
#[verifier::external_body]
fn decode_buffer(buf: &[u8]) -> (r: Option<&str>)
    ensures
        r is Some <==> vstd::utf8::valid_utf8(buf@),
        r is Some ==> r->0@ == vstd::utf8::decode_utf8(buf@),
{
    core::str::from_utf8(buf).ok()
}

impl<'buf> Request<'buf> {
    /// The recognized verb of this request.
    pub closed spec fn spec_method(self) -> Method {
        self.method
    }

    /// The path of this request; it never contains the `?` separator.
    pub closed spec fn spec_path(self) -> Seq<char> {
        self.path@
    }

    /// The parsed query entries, if the target carried a query part.
    pub closed spec fn spec_query(self) -> Option<Seq<(Seq<char>, Seq<Seq<char>>)>> {
        match self.query_string {
            Some(q) => Some(q@),
            None => None,
        }
    }

    /// Structural invariant, established by parsing.
    pub closed spec fn wf(self) -> bool {
        match self.query_string {
            Some(q) => q.wf(),
            None => true,
        }
    }

    /// The path, with any query part stripped.
    pub fn path(&self) -> (r: &str)
        ensures
            r@ == self.spec_path(),
    {
        self.path
    }

    /// The verb this request carries.
    pub fn method(&self) -> (r: &Method)
        ensures
            *r == self.spec_method(),
    {
        &self.method
    }

    /// The query string, if the request target carried one.
    pub fn query_string(&self) -> (r: Option<&QueryString<'buf>>)
        ensures
            r is Some <==> self.spec_query() is Some,
            r is Some ==> r->0@ == self.spec_query()->0,
            r is Some && self.wf() ==> r->0.wf(),
    {
        self.query_string.as_ref()
    }

    /// Parse a raw byte buffer into a request.
    ///
    /// The outcome is exactly `spec_parse_buffer`: `InvalidEncoding` for
    /// bytes that are not valid UTF-8, `InvalidRequest` when one of the
    /// three expected delimiters is missing, `InvalidProtocol` for a
    /// protocol token other than `HTTP/1.1`, `InvalidMethod` for an
    /// unrecognized verb, and otherwise the parsed request, borrowing path
    /// and query text from `buf`.
    pub fn parse(buf: &'buf [u8]) -> (r: Result<Request<'buf>, ParseError>)
        ensures
            parse_result_matches(buf@, r),
    {
        let decoded = decode_buffer(buf);
        let request = match decoded {
            Some(s) => s,
            None => {
                return Err(ParseError::InvalidEncoding);
            },
        };
        let (method_tok, request) = match get_next_word(request) {
            Some(parts) => parts,
            None => {
                return Err(ParseError::InvalidRequest);
            },
        };
        let (target, request) = match get_next_word(request) {
            Some(parts) => parts,
            None => {
                return Err(ParseError::InvalidRequest);
            },
        };
        let (protocol, _) = match get_next_word(request) {
            Some(parts) => parts,
            None => {
                return Err(ParseError::InvalidRequest);
            },
        };
        if !str_eq(protocol, "HTTP/1.1") {
            return Err(ParseError::InvalidProtocol);
        }
        let method = match Method::parse(method_tok) {
            Ok(m) => m,
            Err(_) => {
                return Err(ParseError::InvalidMethod);
            },
        };
        let n = target.unicode_len();
        let mut path: &'buf str = target;
        let mut query_string: Option<QueryString<'buf>> = None;
        match find_char(target, '?') {
            Some(i) => {
                proof {
                    lemma_spec_find(target@, '?');
                }
                query_string = Some(QueryString::parse(target.substring_char(i + 1, n)));
                path = target.substring_char(0, i);
            },
            None => {},
        }
        Ok(Request { path, query_string, method })
    }
}

/// `r` is the outcome `spec_parse_buffer` assigns to `bytes`: the same
/// error, or a well-formed request with that method, that path, and those
/// query entries.
pub open spec fn parse_result_matches<'buf>(
    bytes: Seq<u8>,
    r: Result<Request<'buf>, ParseError>,
) -> bool {
    match spec_parse_buffer(bytes) {
        Err(e) => r matches Err(e2) && e2 == e,
        Ok(m) => r matches Ok(req) && req.wf() && req.spec_method() == m.method
            && req.spec_path() == m.path && (match m.query {
            None => req.spec_query() is None,
            Some(q) => req.spec_query() == Some(spec_parse_query(q)),
        }),
    }
}

/// Scanning a word followed by a delimiter and arbitrary text finds exactly
/// that word and leaves exactly that text.
proof fn lemma_next_word_concat(w: Seq<char>, d: char, rest: Seq<char>)
    requires
        is_delim(d),
        forall|j: int| 0 <= j < w.len() ==> !is_delim(w[j]),
    ensures
        spec_next_word(w + seq![d] + rest) matches Some(parts) && parts.0 == w && parts.1 == rest,
{
    let s = w + seq![d] + rest;
    assert(s[w.len() as int] == d);
    assert forall|j: int| 0 <= j < w.len() implies !is_delim(s[j]) by {
        assert(s[j] == w[j]);
    }
    lemma_spec_find_delim_at(s, w.len() as int);
    assert(s.take(w.len() as int) =~= w);
    assert(s.skip(w.len() as int + 1) =~= rest);
}

/// A verb's spelling contains no delimiter and no `?`.
proof fn lemma_token_clean(m: Method)
    ensures
        forall|j: int| 0 <= j < spec_token(m).len() ==> !is_delim(spec_token(m)[j]) && spec_token(
            m,
        )[j] != '?',
{
    reveal_strlit("GET");
    reveal_strlit("POST");
    reveal_strlit("DELETE");
    reveal_strlit("PUT");
    reveal_strlit("HEAD");
    reveal_strlit("CONNECT");
    reveal_strlit("OPTIONS");
    reveal_strlit("TRACE");
    reveal_strlit("PATCH");
    let t = spec_token(m);
    assert forall|j: int| 0 <= j < t.len() implies !is_delim(t[j]) && t[j] != '?' by {
        match m {
            Method::GET => {
                assert(t[0] == 'G' && t[1] == 'E' && t[2] == 'T');
            },
            Method::POST => {
                assert(t[0] == 'P' && t[1] == 'O' && t[2] == 'S' && t[3] == 'T');
            },
            Method::DELETE => {
                assert(t[0] == 'D' && t[1] == 'E' && t[2] == 'L' && t[3] == 'E' && t[4] == 'T'
                    && t[5] == 'E');
            },
            Method::PUT => {
                assert(t[0] == 'P' && t[1] == 'U' && t[2] == 'T');
            },
            Method::HEAD => {
                assert(t[0] == 'H' && t[1] == 'E' && t[2] == 'A' && t[3] == 'D');
            },
            Method::CONNECT => {
                assert(t[0] == 'C' && t[1] == 'O' && t[2] == 'N' && t[3] == 'N' && t[4] == 'E'
                    && t[5] == 'C' && t[6] == 'T');
            },
            Method::OPTIONS => {
                assert(t[0] == 'O' && t[1] == 'P' && t[2] == 'T' && t[3] == 'I' && t[4] == 'O'
                    && t[5] == 'N' && t[6] == 'S');
            },
            Method::TRACE => {
                assert(t[0] == 'T' && t[1] == 'R' && t[2] == 'A' && t[3] == 'C' && t[4] == 'E');
            },
            Method::PATCH => {
                assert(t[0] == 'P' && t[1] == 'A' && t[2] == 'T' && t[3] == 'C' && t[4] == 'H');
            },
        }
    }
}

/// Every well-formed request line parses to its own pieces: for a
/// recognized verb `m` and a path `p` that contains no space, carriage
/// return or `?`, the line `<m> <p> HTTP/1.1\r\n` parses to exactly that
/// verb and path, with no query string.
pub proof fn lemma_parse_valid_request_line(m: Method, p: Seq<char>)
    requires
        forall|j: int| 0 <= j < p.len() ==> p[j] != ' ' && p[j] != '\r' && p[j] != '?',
    ensures
        ({
            let line = spec_token(m) + " "@ + p + " "@ + "HTTP/1.1"@ + "\r\n"@;
            spec_parse_line(line) matches Ok(sr) && sr.method == m && sr.path == p && sr.query
                is None
        }),
{
    reveal_strlit(" ");
    reveal_strlit("HTTP/1.1");
    reveal_strlit("\r\n");
    let tok = spec_token(m);
    let line = tok + " "@ + p + " "@ + "HTTP/1.1"@ + "\r\n"@;
    let proto = "HTTP/1.1"@;
    assert(" "@ =~= seq![' ']);
    assert("\r\n"@ =~= seq!['\r'] + seq!['\n']);
    lemma_token_clean(m);
    lemma_token_round_trip(m);
    let rest1 = p + seq![' '] + (proto + seq!['\r'] + seq!['\n']);
    assert(line =~= tok + seq![' '] + rest1);
    lemma_next_word_concat(tok, ' ', rest1);
    assert(spec_next_word(line) == spec_next_word(tok + seq![' '] + rest1));
    let rest2 = proto + seq!['\r'] + seq!['\n'];
    assert(rest1 =~= p + seq![' '] + rest2);
    lemma_next_word_concat(p, ' ', rest2);
    assert forall|j: int| 0 <= j < proto.len() implies !is_delim(proto[j]) by {
        assert(proto[0] == 'H' && proto[1] == 'T' && proto[2] == 'T' && proto[3] == 'P' && proto[4]
            == '/' && proto[5] == '1' && proto[6] == '.' && proto[7] == '1');
    }
    assert(rest2 =~= proto + seq!['\r'] + seq!['\n']);
    lemma_next_word_concat(proto, '\r', seq!['\n']);
    lemma_spec_find(p, '?');
}

/// The same, stated of the raw buffer: bytes that decode to a well-formed
/// request line parse to exactly that line's verb and path.
pub proof fn lemma_parse_valid_request_bytes(m: Method, p: Seq<char>, bytes: Seq<u8>)
    requires
        forall|j: int| 0 <= j < p.len() ==> p[j] != ' ' && p[j] != '\r' && p[j] != '?',
        vstd::utf8::valid_utf8(bytes),
        vstd::utf8::decode_utf8(bytes) == spec_token(m) + " "@ + p + " "@ + "HTTP/1.1"@
            + "\r\n"@,
    ensures
        spec_parse_buffer(bytes) matches Ok(sr) && sr.method == m && sr.path == p && sr.query
            is None,
{
    lemma_parse_valid_request_line(m, p);
}

/// A parsed request's path never contains the `?` separator: whenever a
/// line parses successfully, the query part was stripped at the target's
/// first `?`.
pub proof fn lemma_path_never_holds_separator(t: Seq<char>)
    ensures
        spec_parse_line(t) matches Ok(sr) ==> forall|j: int|
            0 <= j < sr.path.len() ==> #[trigger] sr.path[j] != '?',
{
    if spec_parse_line(t) is Ok {
        let target = (spec_next_word((spec_next_word(t)->0).1)->0).0;
        lemma_spec_find(target, '?');
        let sr = spec_parse_line(t)->Ok_0;
        match spec_find(target, '?') {
            None => {
                assert(sr.path == target);
            },
            Some(i) => {
                assert(sr.path == target.take(i));
                assert forall|j: int| 0 <= j < sr.path.len() implies #[trigger] sr.path[j]
                    != '?' by {
                    assert(sr.path[j] == target[j]);
                }
            },
        }
    }
}

/// Parsing is a pure function of the buffer: any two results that parsing
/// may return for the same bytes agree on success, on the error, and on
/// every observable part of the request.
pub proof fn lemma_parse_deterministic<'a, 'b>(
    bytes: Seq<u8>,
    r1: Result<Request<'a>, ParseError>,
    r2: Result<Request<'b>, ParseError>,
)
    requires
        parse_result_matches(bytes, r1),
        parse_result_matches(bytes, r2),
    ensures
        r1 is Ok <==> r2 is Ok,
        r1 matches Err(e1) ==> (r2 matches Err(e2) && e1 == e2),
        r1 matches Ok(q1) ==> (r2 matches Ok(q2) && q1.spec_method() == q2.spec_method()
            && q1.spec_path() == q2.spec_path() && q1.spec_query() == q2.spec_query()),
{
}

} // verus!
