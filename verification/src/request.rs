//! The request parser: a single pass over a fully buffered message that
//! yields a structured request or the first error it meets.

use vstd::prelude::*;
use vstd::slice::slice_to_vec;
use crate::ascii::{ascii_bytes, chars_of, string_from_ascii, NonAsciiCharacterError};
use crate::bytes::{
    find_byte, spec_lines, split_bytes, split_lines, split_on, trim_ws, trim_ws_slice, views_of,
};
use crate::headers::Headers;
use crate::method::{method_for, InvalidMethodError, Method};
use crate::version::{version_for, InvalidVersionError, Version};

verus! {

/// How a raw buffer fails to parse as a request.  Parsing is all-or-nothing:
/// any failure discards all partial state.
#[derive(Debug, PartialEq, Eq, Structural)]
pub enum RequestError {
    /// Reserved: line splitting always yields at least one line, so this
    /// variant is part of the declared error surface but never produced.
    NoRequestLine,
    /// The start line has fewer than three space-separated tokens.
    InvalidRequestLine,
    /// A text field holds a non-ASCII byte.
    NotAsciiEncoding(NonAsciiCharacterError),
    /// The method token is outside the closed method set.
    InvalidMethod(InvalidMethodError),
    /// The version token is outside the closed version set.
    InvalidVersion(InvalidVersionError),
    /// The buffer ends before the blank line terminating the headers, or
    /// before the body line.
    NoEnd,
    /// A header line carries no colon.
    NoHeaderColon,
}

impl RequestError {
    /// A human-readable description of the error.
    pub fn message(&self) -> (r: String)
        ensures
            r@ == request_error_text(*self),
    {
        match self {
            RequestError::NoRequestLine => String::from_str("no request line"),
            RequestError::InvalidRequestLine => String::from_str("invalid request line"),
            RequestError::NotAsciiEncoding(_) => String::from_str("non ASCII character"),
            RequestError::InvalidMethod(_) => String::from_str("invalid http method"),
            RequestError::InvalidVersion(_) => String::from_str("invalid http version"),
            RequestError::NoEnd => String::from_str("no message end"),
            RequestError::NoHeaderColon => String::from_str("no colon in header"),
        }
    }
}

/// The description of each parse error.
pub open spec fn request_error_text(e: RequestError) -> Seq<char> {
    match e {
        RequestError::NoRequestLine => "no request line"@,
        RequestError::InvalidRequestLine => "invalid request line"@,
        RequestError::NotAsciiEncoding(_) => "non ASCII character"@,
        RequestError::InvalidMethod(_) => "invalid http method"@,
        RequestError::InvalidVersion(_) => "invalid http version"@,
        RequestError::NoEnd => "no message end"@,
        RequestError::NoHeaderColon => "no colon in header"@,
    }
}

/// The abstract value of a parsed request.
pub ghost struct RequestView {
    pub method: Method,
    pub target: Seq<char>,
    pub version: Version,
    pub headers: Map<Seq<char>, Seq<char>>,
    pub body: Seq<u8>,
}

/// A parsed request.  All text fields are ASCII; the target is the raw
/// request-URI token, stored without decoding or normalization.
#[derive(Debug, PartialEq, Eq)]
pub struct Request {
    pub method: Method,
    pub target: String,
    pub version: Version,
    pub headers: Headers,
    pub body: Vec<u8>,
}

impl View for Request {
    type V = RequestView;

    open spec fn view(&self) -> RequestView {
        RequestView {
            method: self.method,
            target: self.target@,
            version: self.version,
            headers: self.headers@,
            body: self.body@,
        }
    }
}

/// Parses header lines from index `i` on, accumulating into `acc`, until a
/// blank line.  Each header line must carry a colon; its name is the bytes
/// before the colon, untrimmed, and its value the bytes after it, trimmed
/// of ASCII whitespace; both must be ASCII, and a repeated name takes the
/// later value.  The blank line is consumed and the index after it returned.
pub open spec fn parse_headers(
    lines: Seq<Seq<u8>>,
    i: int,
    acc: Map<Seq<char>, Seq<char>>,
) -> Result<(Map<Seq<char>, Seq<char>>, int), RequestError>
    decreases lines.len() - i,
{
    if i >= lines.len() {
        Err(RequestError::NoEnd)
    } else if lines[i].len() == 0 {
        Ok((acc, i + 1))
    } else {
        let line = lines[i];
        let c = crate::bytes::first_index(line, 58);
        if c == line.len() {
            Err(RequestError::NoHeaderColon)
        } else {
            let name = line.take(c);
            let value = trim_ws(line.skip(c + 1));
            if !ascii_bytes(name) {
                Err(RequestError::NotAsciiEncoding(NonAsciiCharacterError))
            } else if !ascii_bytes(value) {
                Err(RequestError::NotAsciiEncoding(NonAsciiCharacterError))
            } else {
                parse_headers(lines, i + 1, acc.insert(chars_of(name), chars_of(value)))
            }
        }
    }
}

/// What parsing a raw buffer yields: the request it denotes, or the first
/// error met in one pass over start line, headers and body.
pub open spec fn spec_parse(input: Seq<u8>) -> Result<RequestView, RequestError> {
    let lines = spec_lines(input);
    let toks = split_on(lines[0], 32);
    if !ascii_bytes(toks[0]) {
        Err(RequestError::NotAsciiEncoding(NonAsciiCharacterError))
    } else {
        match method_for(chars_of(toks[0])) {
            None => Err(RequestError::InvalidMethod(InvalidMethodError)),
            Some(method) => {
                if toks.len() < 2 {
                    Err(RequestError::InvalidRequestLine)
                } else if !ascii_bytes(toks[1]) {
                    Err(RequestError::NotAsciiEncoding(NonAsciiCharacterError))
                } else if toks.len() < 3 {
                    Err(RequestError::InvalidRequestLine)
                } else if !ascii_bytes(toks[2]) {
                    Err(RequestError::NotAsciiEncoding(NonAsciiCharacterError))
                } else {
                    match version_for(chars_of(toks[2])) {
                        None => Err(RequestError::InvalidVersion(InvalidVersionError)),
                        Some(version) => match parse_headers(
                            lines,
                            1,
                            Map::<Seq<char>, Seq<char>>::empty(),
                        ) {
                            Err(e) => Err(e),
                            Ok((headers, next)) => {
                                if next >= lines.len() {
                                    Err(RequestError::NoEnd)
                                } else {
                                    Ok(
                                        RequestView {
                                            method,
                                            target: chars_of(toks[1]),
                                            version,
                                            headers,
                                            body: lines[next],
                                        },
                                    )
                                }
                            },
                        },
                    }
                }
            },
        }
    }
}

impl Request {
    /// Parses a raw byte buffer into a request, or reports the first error
    /// of the single pass.  Note that the body is exactly one line: any
    /// bytes beyond it are discarded, and no `Content-Length` framing is
    /// honoured.
    #[verifier::loop_isolation(false)]
    pub fn from(v: &[u8]) -> (r: Result<Request, RequestError>)
        ensures
            match r {
                Ok(req) => spec_parse(v@) == Ok::<RequestView, RequestError>(req@)
                    && req.headers.wf(),
                Err(e) => spec_parse(v@) == Err::<RequestView, RequestError>(e),
            },
    {
        let lines = split_lines(v);
        let ghost glines = views_of(lines@);
        let toks = split_bytes(lines[0].as_slice(), 32);
        proof {
            crate::bytes::lemma_split_on_len(glines[0], 32);
        }
        let method = match string_from_ascii(toks[0].as_slice()) {
            Err(_) => {
                return Err(RequestError::NotAsciiEncoding(NonAsciiCharacterError));
            },
            Ok(s) => match Method::try_from(s.as_str()) {
                Err(_) => {
                    return Err(RequestError::InvalidMethod(InvalidMethodError));
                },
                Ok(m) => m,
            },
        };
        if toks.len() < 2 {
            return Err(RequestError::InvalidRequestLine);
        }
        let target = match string_from_ascii(toks[1].as_slice()) {
            Err(_) => {
                return Err(RequestError::NotAsciiEncoding(NonAsciiCharacterError));
            },
            Ok(s) => s,
        };
        if toks.len() < 3 {
            return Err(RequestError::InvalidRequestLine);
        }
        let version = match string_from_ascii(toks[2].as_slice()) {
            Err(_) => {
                return Err(RequestError::NotAsciiEncoding(NonAsciiCharacterError));
            },
            Ok(s) => match Version::try_from(s.as_str()) {
                Err(_) => {
                    return Err(RequestError::InvalidVersion(InvalidVersionError));
                },
                Ok(ver) => ver,
            },
        };
        let mut headers = Headers::new();
        let mut i: usize = 1;
        while i < lines.len() && lines[i].len() > 0
            invariant
                1 <= i <= lines@.len(),
                headers.wf(),
                parse_headers(glines, 1, Map::<Seq<char>, Seq<char>>::empty()) == parse_headers(
                    glines,
                    i as int,
                    headers@,
                ),
            decreases lines@.len() - i,
        {
            let line = &lines[i];
            proof {
                assert(glines.len() == lines@.len());
                assert(glines[i as int] == lines@[i as int]@);
                assert(line@ == glines[i as int]);
            }
            let c = match find_byte(line.as_slice(), 58) {
                None => {
                    return Err(RequestError::NoHeaderColon);
                },
                Some(c) => c,
            };
            let name_bytes = &line.as_slice()[0..c];
            let value_bytes = trim_ws_slice(&line.as_slice()[c + 1..line.len()]);
            proof {
                assert(name_bytes@ =~= glines[i as int].take(c as int));
                assert(line@.subrange(c + 1, line@.len() as int) =~= glines[i as int].skip(c + 1));
            }
            let name = match string_from_ascii(name_bytes) {
                Err(_) => {
                    return Err(RequestError::NotAsciiEncoding(NonAsciiCharacterError));
                },
                Ok(s) => s,
            };
            let value = match string_from_ascii(value_bytes) {
                Err(_) => {
                    return Err(RequestError::NotAsciiEncoding(NonAsciiCharacterError));
                },
                Ok(s) => s,
            };
            headers.insert(name, value);
            i += 1;
        }
        if i >= lines.len() {
            return Err(RequestError::NoEnd);
        }
        let body_index = i + 1;
        if body_index >= lines.len() {
            return Err(RequestError::NoEnd);
        }
        let body = slice_to_vec(lines[body_index].as_slice());
        Ok(Request { method, target, version, headers, body })
    }
}

/// All names and values of the mapping are ASCII.
pub open spec fn headers_ascii(m: Map<Seq<char>, Seq<char>>) -> bool {
    forall|k: Seq<char>| #[trigger]
        m.contains_key(k) ==> vstd::utf8::is_ascii_chars(k) && vstd::utf8::is_ascii_chars(m[k])
}

/// ASCII bytes spell ASCII characters.
pub proof fn lemma_chars_of_ascii(b: Seq<u8>)
    requires
        ascii_bytes(b),
    ensures
        vstd::utf8::is_ascii_chars(chars_of(b)),
{
    assert forall|i: int|
        0 <= i < chars_of(b).len() implies '\0' <= #[trigger] chars_of(b)[i] <= '\u{7f}' by {
        assert(chars_of(b)[i] == b[i] as char);
        assert(b[i] < 128);
    }
}

proof fn lemma_parse_headers_ascii(lines: Seq<Seq<u8>>, i: int, acc: Map<Seq<char>, Seq<char>>)
    requires
        headers_ascii(acc),
    ensures
        parse_headers(lines, i, acc) matches Ok(r) ==> headers_ascii(r.0),
    decreases lines.len() - i,
{
    if i >= lines.len() {
    } else if lines[i].len() == 0 {
    } else {
        let line = lines[i];
        let c = crate::bytes::first_index(line, 58);
        if c != line.len() {
            let name = line.take(c);
            let value = trim_ws(line.skip(c + 1));
            if ascii_bytes(name) && ascii_bytes(value) {
                lemma_chars_of_ascii(name);
                lemma_chars_of_ascii(value);
                lemma_parse_headers_ascii(
                    lines,
                    i + 1,
                    acc.insert(chars_of(name), chars_of(value)),
                );
            }
        }
    }
}

/// Law: every text field of a successfully parsed request is ASCII — the
/// target and all header names and values.
pub proof fn lemma_parse_ok_ascii(input: Seq<u8>)
    ensures
        spec_parse(input) matches Ok(rv) ==> vstd::utf8::is_ascii_chars(rv.target)
            && headers_ascii(rv.headers),
{
    if spec_parse(input) is Ok {
        let lines = spec_lines(input);
        let toks = split_on(lines[0], 32);
        lemma_chars_of_ascii(toks[1]);
        lemma_parse_headers_ascii(lines, 1, Map::<Seq<char>, Seq<char>>::empty());
    }
}

/// Law: a non-ASCII byte in one of the three examined start-line tokens is
/// reported as `NotAsciiEncoding` and as no other error, provided no
/// earlier check fails first: the start line has at least three tokens,
/// and if the method token is ASCII it decodes.  (Without that proviso an
/// earlier error wins: a start line whose first token is an unknown but
/// ASCII method is reported as `InvalidMethod` even when a later token
/// holds a non-ASCII byte.)
pub proof fn lemma_non_ascii_start_line_rejected(input: Seq<u8>)
    requires
        split_on(spec_lines(input)[0], 32).len() >= 3,
        !ascii_bytes(split_on(spec_lines(input)[0], 32)[0]) || !ascii_bytes(
            split_on(spec_lines(input)[0], 32)[1],
        ) || !ascii_bytes(split_on(spec_lines(input)[0], 32)[2]),
        ascii_bytes(split_on(spec_lines(input)[0], 32)[0]) ==> method_for(
            chars_of(split_on(spec_lines(input)[0], 32)[0]),
        ) is Some,
    ensures
        spec_parse(input) == Err::<RequestView, RequestError>(
            RequestError::NotAsciiEncoding(NonAsciiCharacterError),
        ),
{
}

/// Law: a non-ASCII byte in a header name or trimmed header value is
/// reported as `NotAsciiEncoding` and as no other error, provided parsing
/// reaches that line intact: every header line before it is non-blank,
/// carries a colon and is ASCII, and the offending line itself is
/// non-blank and carries a colon.
pub proof fn lemma_non_ascii_header_rejected(
    lines: Seq<Seq<u8>>,
    i: int,
    acc: Map<Seq<char>, Seq<char>>,
    j: int,
)
    requires
        0 <= i <= j < lines.len(),
        forall|k: int| i <= k <= j ==> lines[k].len() > 0,
        forall|k: int|
            i <= k < j ==> crate::bytes::first_index(#[trigger] lines[k], 58) < lines[k].len()
                && ascii_bytes(lines[k].take(crate::bytes::first_index(lines[k], 58)))
                && ascii_bytes(
                trim_ws(lines[k].skip(crate::bytes::first_index(lines[k], 58) + 1)),
            ),
        crate::bytes::first_index(lines[j], 58) < lines[j].len(),
        !ascii_bytes(lines[j].take(crate::bytes::first_index(lines[j], 58))) || !ascii_bytes(
            trim_ws(lines[j].skip(crate::bytes::first_index(lines[j], 58) + 1)),
        ),
    ensures
        parse_headers(lines, i, acc) == Err::<(Map<Seq<char>, Seq<char>>, int), RequestError>(
            RequestError::NotAsciiEncoding(NonAsciiCharacterError),
        ),
    decreases j - i,
{
    if i < j {
        let line = lines[i];
        let c = crate::bytes::first_index(line, 58);
        lemma_non_ascii_header_rejected(
            lines,
            i + 1,
            acc.insert(chars_of(line.take(c)), chars_of(trim_ws(line.skip(c + 1)))),
            j,
        );
    }
}

} // verus!
