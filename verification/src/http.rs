//! The request side of the status server: a small buffer that collects a
//! request until it is whole, and the readers of its parts.

use crate::text::{
    find_bytes, is_digit, lemma_find_bytes_is_first, matches_at, parse_decimal, skip_run_of,
    spec_find_bytes, spec_is_digit, spec_matches_at, spec_parse_decimal, spec_run_of,
};
use vstd::prelude::*;
use vstd::string::StringSliceAdditionalSpecFns;
use vstd::utf8::valid_utf8;

verus! {

/// Bytes of a request that are kept; what comes behind them is dropped.
pub const MAX_REQUEST: usize = 512;

#[derive(Clone, Copy, Debug, PartialEq, Eq, Structural)]
pub enum Method {
    Get,
    Post,
    Unknown,
}

/// How far a request has come.
#[derive(Clone, Copy, Debug, PartialEq, Eq, Structural)]
pub enum ParseState {
    /// The blank line behind the headers has not come yet.
    ReadingHeaders,
    /// The headers are whole and announce a body that is not.
    ReadingBody { content_length: usize, body_start: usize },
    Complete,
}

/// A request as contracts see it.
pub struct RequestView {
    /// The bytes collected so far.
    pub bytes: Seq<u8>,
    pub state: ParseState,
}

pub struct HttpRequest {
    buf: [u8; 512],
    len: usize,
    state: ParseState,
}

/// The blank line that ends the headers.
pub open spec fn spec_header_end_mark() -> Seq<u8> {
    seq![13u8, 10, 13, 10]
}

/// The bytes of `Content-Length: `.
pub open spec fn spec_length_name() -> Seq<u8> {
    seq![67u8, 111, 110, 116, 101, 110, 116, 45, 76, 101, 110, 103, 116, 104, 58, 32]
}

/// The bytes of `content-length: `.
pub open spec fn spec_length_name_lower() -> Seq<u8> {
    seq![99u8, 111, 110, 116, 101, 110, 116, 45, 108, 101, 110, 103, 116, 104, 58, 32]
}

/// Where the blank line behind the headers starts.
pub open spec fn spec_find_header_end(buf: Seq<u8>) -> Option<int> {
    spec_find_bytes(buf, spec_header_end_mark())
}

/// The number of digits at the start of `s`.
pub open spec fn spec_digit_run(s: Seq<u8>) -> nat
    decreases s.len(),
{
    if s.len() > 0 && spec_is_digit(s[0]) {
        1 + spec_digit_run(s.drop_first())
    } else {
        0
    }
}

/// The number that stands in `headers` at `start`, as far as its digits
/// go; 0 where no digit stands there or the number does not fit.
pub open spec fn spec_number_at(headers: Seq<u8>, start: int) -> usize {
    let tail = headers.skip(start);
    match spec_parse_decimal(tail.take(spec_digit_run(tail) as int), usize::MAX as nat) {
        Some(v) => v as usize,
        None => 0,
    }
}

/// The body length that `headers` announce: the number behind the first
/// `Content-Length: `, or, where that name does not occur, behind the
/// first `content-length: `; 0 where neither occurs.
pub open spec fn spec_content_length(headers: Seq<u8>) -> usize {
    match spec_find_bytes(headers, spec_length_name()) {
        Some(at) => spec_number_at(headers, at + 16),
        None => match spec_find_bytes(headers, spec_length_name_lower()) {
            Some(at) => spec_number_at(headers, at + 16),
            None => 0,
        },
    }
}

/// The state of a request that holds `bytes` and was in `state` before
/// the last of them came.
pub open spec fn spec_next_state(bytes: Seq<u8>, state: ParseState) -> ParseState {
    match state {
        ParseState::ReadingHeaders => match spec_find_header_end(bytes) {
            Some(end) => {
                let length = spec_content_length(bytes.take(end));
                if length > 0 && bytes.len() < end + 4 + length {
                    ParseState::ReadingBody { content_length: length, body_start: (end + 4) as usize }
                } else {
                    ParseState::Complete
                }
            },
            None => if bytes.len() >= MAX_REQUEST {
                ParseState::Complete
            } else {
                ParseState::ReadingHeaders
            },
        },
        ParseState::ReadingBody { content_length, body_start } => if bytes.len() >= body_start
            + content_length || bytes.len() >= MAX_REQUEST {
            ParseState::Complete
        } else {
            state
        },
        ParseState::Complete => ParseState::Complete,
    }
}

/// The request after `data` was fed to it: as much of `data` as the
/// buffer has room for is kept, and the state moves on.
pub open spec fn spec_feed(req: RequestView, data: Seq<u8>) -> RequestView {
    let room = MAX_REQUEST - req.bytes.len();
    let kept = if data.len() <= room {
        data
    } else {
        data.take(room)
    };
    RequestView { bytes: req.bytes + kept, state: spec_next_state(req.bytes + kept, req.state) }
}

/// The method of the request that starts with `bytes`.
pub open spec fn spec_method(bytes: Seq<u8>) -> Method {
    if bytes.len() >= 4 && bytes.take(4) == seq![71u8, 69, 84, 32] {
        Method::Get
    } else if bytes.len() >= 5 && bytes.take(5) == seq![80u8, 79, 83, 84, 32] {
        Method::Post
    } else {
        Method::Unknown
    }
}

/// The number of bytes at the start of `s` that are neither a space nor
/// a carriage return.
pub open spec fn spec_path_run(s: Seq<u8>) -> nat
    decreases s.len(),
{
    if s.len() > 0 && s[0] != 32 && s[0] != 13 {
        1 + spec_path_run(s.drop_first())
    } else {
        0
    }
}

/// The bytes of the path of the request `bytes`: what stands behind the
/// method up to the next space or carriage return. `None` where the
/// method is unknown.
pub open spec fn spec_path_bytes(bytes: Seq<u8>) -> Option<Seq<u8>> {
    let start: int = match spec_method(bytes) {
        Method::Get => 4,
        Method::Post => 5,
        Method::Unknown => 0,
    };
    if start == 0 {
        None
    } else {
        let tail = bytes.skip(start);
        Some(tail.take(spec_path_run(tail) as int))
    }
}

/// The bytes of the body of the request `bytes`: what stands behind the
/// blank line; empty where there is no blank line.
pub open spec fn spec_body_bytes(bytes: Seq<u8>) -> Seq<u8> {
    match spec_find_header_end(bytes) {
        Some(end) => if end + 4 < bytes.len() {
            bytes.skip(end + 4)
        } else {
            Seq::empty()
        },
        None => Seq::empty(),
    }
}

/// `core::str::from_utf8`: the text whose bytes are `bytes`, if they are
/// valid UTF-8, and nothing otherwise.
#[verifier::external_body]
pub(crate) fn str_from_utf8(bytes: &[u8]) -> (text: Option<&str>)
    ensures
        match text {
            Some(s) => valid_utf8(bytes@) && s.spec_bytes() == bytes@,
            None => !valid_utf8(bytes@),
        },
{
    core::str::from_utf8(bytes).ok()
}

/// Finds the blank line that ends the headers.
pub fn find_header_end(buf: &[u8]) -> (end: Option<usize>)
    ensures
        match end {
            Some(at) => spec_find_header_end(buf@) == Some(at as int) && at + 4 <= buf@.len(),
            None => spec_find_header_end(buf@) is None,
        },
{
    let mark: [u8; 4] = [13, 10, 13, 10];
    assert(mark@ =~= spec_header_end_mark());
    proof {
        lemma_find_bytes_is_first(buf@, spec_header_end_mark());
    }
    find_bytes(buf, mark.as_slice())
}

pub proof fn lemma_digit_run_is(s: Seq<u8>, n: int)
    requires
        0 <= n <= s.len(),
        forall|i: int| 0 <= i < n ==> spec_is_digit(#[trigger] s[i]),
        n < s.len() ==> !spec_is_digit(s[n]),
    ensures
        spec_digit_run(s) == n,
    decreases s.len(),
{
    if n > 0 {
        assert(spec_is_digit(s[0]));
        let rest = s.drop_first();
        assert forall|i: int| 0 <= i < n - 1 implies spec_is_digit(#[trigger] rest[i]) by {
            assert(rest[i] == s[i + 1]);
        }
        if n - 1 < rest.len() {
            assert(rest[n - 1] == s[n]);
        }
        lemma_digit_run_is(rest, n - 1);
    }
}

pub proof fn lemma_path_run_is(s: Seq<u8>, n: int)
    requires
        0 <= n <= s.len(),
        forall|i: int| 0 <= i < n ==> (#[trigger] s[i]) != 32 && s[i] != 13,
        n < s.len() ==> s[n] == 32 || s[n] == 13,
    ensures
        spec_path_run(s) == n,
    decreases s.len(),
{
    if n > 0 {
        assert(s[0] != 32 && s[0] != 13);
        let rest = s.drop_first();
        assert forall|i: int| 0 <= i < n - 1 implies (#[trigger] rest[i]) != 32 && rest[i]
            != 13 by {
            assert(rest[i] == s[i + 1]);
        }
        if n - 1 < rest.len() {
            assert(rest[n - 1] == s[n]);
        }
        lemma_path_run_is(rest, n - 1);
    }
}

/// Reads a number that fits the machine word.
pub fn parse_usize(s: &[u8]) -> (n: Result<usize, ()>)
    ensures
        match n {
            Ok(v) => spec_parse_decimal(s@, usize::MAX as nat) == Some(v as nat),
            Err(_) => spec_parse_decimal(s@, usize::MAX as nat) is None,
        },
{
    match parse_decimal(s, usize::MAX as u64) {
        Some(v) => Ok(v as usize),
        None => Err(()),
    }
}

fn number_at(headers: &[u8], start: usize) -> (n: usize)
    requires
        start <= headers@.len(),
    ensures
        n == spec_number_at(headers@, start as int),
{
    let len: usize = headers.len();
    let ghost tail = headers@.skip(start as int);
    let mut end: usize = start;
    while end < len && is_digit(headers[end])
        invariant
            start <= end <= len == headers@.len(),
            tail == headers@.skip(start as int),
            forall|i: int| 0 <= i < end - start ==> spec_is_digit(#[trigger] tail[i]),
        decreases len - end,
    {
        end += 1;
    }
    proof {
        lemma_digit_run_is(tail, end - start);
    }
    let digits = &headers[start..end];
    assert(digits@ =~= tail.take(end - start));
    match parse_usize(digits) {
        Ok(v) => v,
        Err(_) => 0,
    }
}

/// The body length that the headers announce.
pub fn parse_content_length(headers: &[u8]) -> (length: usize)
    ensures
        length == spec_content_length(headers@),
{
    let name: [u8; 16] = [67, 111, 110, 116, 101, 110, 116, 45, 76, 101, 110, 103, 116, 104, 58, 32];
    let lower: [u8; 16] = [
        99,
        111,
        110,
        116,
        101,
        110,
        116,
        45,
        108,
        101,
        110,
        103,
        116,
        104,
        58,
        32,
    ];
    assert(name@ =~= spec_length_name());
    assert(lower@ =~= spec_length_name_lower());
    let len: usize = headers.len();
    proof {
        lemma_find_bytes_is_first(headers@, spec_length_name());
        lemma_find_bytes_is_first(headers@, spec_length_name_lower());
    }
    match find_bytes(headers, name.as_slice()) {
        Some(at) => {
            assert(crate::text::spec_matches_at(headers@, spec_length_name(), at as int));
            number_at(headers, at + 16)
        },
        None => match find_bytes(headers, lower.as_slice()) {
            Some(at) => {
                assert(crate::text::spec_matches_at(headers@, spec_length_name_lower(), at as int));
                number_at(headers, at + 16)
            },
            None => 0,
        },
    }
}

/// The state of a request that holds `bytes` and was in `state` before
/// the last of them came.
pub fn next_state(bytes: &[u8], state: ParseState) -> (next: ParseState)
    requires
        bytes@.len() <= MAX_REQUEST,
    ensures
        next == spec_next_state(bytes@, state),
{
    let len: usize = bytes.len();
    match state {
        ParseState::ReadingHeaders => {
            match find_header_end(bytes) {
                Some(end) => {
                    let body_start: usize = end + 4;
                    let headers = &bytes[0..end];
                    assert(headers@ =~= bytes@.take(end as int));
                    let cl = parse_content_length(headers);
                    if cl > 0 && (cl > MAX_REQUEST || len < body_start + cl) {
                        ParseState::ReadingBody { content_length: cl, body_start }
                    } else {
                        ParseState::Complete
                    }
                },
                None => {
                    if len >= MAX_REQUEST {
                        ParseState::Complete
                    } else {
                        ParseState::ReadingHeaders
                    }
                },
            }
        },
        ParseState::ReadingBody { content_length, body_start } => {
            if len >= MAX_REQUEST || (content_length <= MAX_REQUEST && body_start <= MAX_REQUEST
                && len >= body_start + content_length) {
                ParseState::Complete
            } else {
                state
            }
        },
        ParseState::Complete => ParseState::Complete,
    }
}

impl View for HttpRequest {
    type V = RequestView;

    closed spec fn view(&self) -> RequestView {
        RequestView { bytes: self.buf@.take(self.len as int), state: self.state }
    }
}

impl HttpRequest {
    pub closed spec fn inv(&self) -> bool {
        self.len <= MAX_REQUEST
    }

    /// The buffer never holds more than it keeps.
    pub open spec fn wf(&self) -> bool {
        self.inv() && self@.bytes.len() <= MAX_REQUEST
    }

    /// An empty request.
    pub fn new() -> (req: Self)
        ensures
            req.wf(),
            req@.bytes == Seq::<u8>::empty(),
            req@.state == ParseState::ReadingHeaders,
    {
        let req = Self { buf: [0; 512], len: 0, state: ParseState::ReadingHeaders };
        assert(req@.bytes =~= Seq::<u8>::empty());
        req
    }

    /// Makes the request empty again.
    pub fn reset(&mut self)
        ensures
            final(self).wf(),
            final(self)@.bytes == Seq::<u8>::empty(),
            final(self)@.state == ParseState::ReadingHeaders,
    {
        self.len = 0;
        self.state = ParseState::ReadingHeaders;
        assert(self@.bytes =~= Seq::<u8>::empty());
    }

    pub fn is_complete(&self) -> (complete: bool)
        ensures
            complete == (self@.state == ParseState::Complete),
    {
        match self.state {
            ParseState::Complete => true,
            _ => false,
        }
    }

    /// The bytes collected so far.
    pub fn bytes(&self) -> (bytes: &[u8])
        requires
            self.wf(),
        ensures
            bytes@ == self@.bytes,
    {
        let all = self.buf.as_slice();
        let part = &all[0..self.len];
        assert(part@ =~= self@.bytes);
        part
    }

    /// Takes in bytes that were received and says whether the request is
    /// whole now.
    pub fn feed(&mut self, data: &[u8]) -> (complete: bool)
        requires
            old(self).wf(),
        ensures
            final(self).wf(),
            final(self)@ == spec_feed(old(self)@, data@),
            complete == (final(self)@.state == ParseState::Complete),
    {
        self.append(data);
        self.state = next_state(self.bytes(), self.state);
        self.is_complete()
    }

    /// Keeps as much of `data` as the buffer has room for.
    fn append(&mut self, data: &[u8])
        requires
            old(self).wf(),
        ensures
            final(self).wf(),
            final(self)@.state == old(self)@.state,
            final(self)@.bytes == old(self)@.bytes + (if data@.len() <= MAX_REQUEST - old(
                self,
            )@.bytes.len() {
                data@
            } else {
                data@.take(MAX_REQUEST - old(self)@.bytes.len())
            }),
    {
        let space: usize = MAX_REQUEST - self.len;
        let n: usize = if data.len() < space {
            data.len()
        } else {
            space
        };
        let start: usize = self.len;
        let mut k: usize = 0;
        while k < n
            invariant
                k <= n,
                n <= data@.len(),
                start + n <= MAX_REQUEST,
                self.len == start,
                self.state == old(self).state,
                forall|i: int| 0 <= i < start ==> self.buf@[i] == old(self).buf@[i],
                forall|i: int| 0 <= i < k ==> self.buf@[start + i] == data@[i],
            decreases n - k,
        {
            self.buf[start + k] = data[k];
            k += 1;
        }
        self.len = start + n;
        let ghost kept = if data@.len() <= space {
            data@
        } else {
            data@.take(space as int)
        };
        assert(self@.bytes =~= old(self)@.bytes + kept);
    }

    pub fn method(&self) -> (m: Method)
        requires
            self.wf(),
        ensures
            m == spec_method(self@.bytes),
    {
        let bytes = self.bytes();
        let get: [u8; 4] = [71, 69, 84, 32];
        let post: [u8; 5] = [80, 79, 83, 84, 32];
        assert(get@ =~= seq![71u8, 69, 84, 32]);
        assert(post@ =~= seq![80u8, 79, 83, 84, 32]);
        if bytes.len() >= 4 && crate::layout::bytes_equal(&bytes[0..4], get.as_slice()) {
            assert(bytes@.subrange(0, 4) =~= bytes@.take(4));
            Method::Get
        } else if bytes.len() >= 5 && crate::layout::bytes_equal(&bytes[0..5], post.as_slice()) {
            assert(bytes@.subrange(0, 5) =~= bytes@.take(5));
            Method::Post
        } else {
            proof {
                if bytes@.len() >= 4 {
                    assert(bytes@.subrange(0, 4) =~= bytes@.take(4));
                }
                if bytes@.len() >= 5 {
                    assert(bytes@.subrange(0, 5) =~= bytes@.take(5));
                }
            }
            Method::Unknown
        }
    }

    /// The bytes of the path, if the method is known.
    pub fn path_bytes(&self) -> (path: Option<&[u8]>)
        requires
            self.wf(),
        ensures
            match path {
                Some(p) => spec_path_bytes(self@.bytes) == Some(p@),
                None => spec_path_bytes(self@.bytes) is None,
            },
    {
        let start: usize = match self.method() {
            Method::Get => 4,
            Method::Post => 5,
            Method::Unknown => {
                return None;
            },
        };
        let bytes = self.bytes();
        let len: usize = bytes.len();
        let ghost tail = bytes@.skip(start as int);
        let mut end: usize = start;
        while end < len && bytes[end] != 32 && bytes[end] != 13
            invariant
                start <= end <= len == bytes@.len(),
                tail == bytes@.skip(start as int),
                forall|i: int| 0 <= i < end - start ==> (#[trigger] tail[i]) != 32 && tail[i] != 13,
            decreases len - end,
        {
            end += 1;
        }
        proof {
            lemma_path_run_is(tail, end - start);
        }
        let path = &bytes[start..end];
        assert(path@ =~= tail.take(end - start));
        Some(path)
    }

    /// The path of the request. It is `/` where the method is unknown or
    /// the path is not valid UTF-8.
    pub fn path(&self) -> (path: &str)
        requires
            self.wf(),
        ensures
            path.spec_bytes() == (match spec_path_bytes(self@.bytes) {
                Some(p) => if valid_utf8(p) {
                    p
                } else {
                    "/".spec_bytes()
                },
                None => "/".spec_bytes(),
            }),
    {
        match self.path_bytes() {
            Some(p) => match str_from_utf8(p) {
                Some(s) => s,
                None => "/",
            },
            None => "/",
        }
    }

    /// The bytes of the body.
    pub fn body_bytes(&self) -> (body: &[u8])
        requires
            self.wf(),
        ensures
            body@ == spec_body_bytes(self@.bytes),
    {
        let bytes = self.bytes();
        match find_header_end(bytes) {
            Some(end) => {
                if end + 4 < bytes.len() {
                    let body = &bytes[end + 4..bytes.len()];
                    assert(body@ =~= bytes@.skip(end + 4));
                    body
                } else {
                    let body = &bytes[0..0];
                    assert(body@ =~= Seq::<u8>::empty());
                    body
                }
            },
            None => {
                let body = &bytes[0..0];
                assert(body@ =~= Seq::<u8>::empty());
                body
            },
        }
    }

    /// The body of the request. It is empty where the body is not valid
    /// UTF-8.
    pub fn body_str(&self) -> (body: &str)
        requires
            self.wf(),
        ensures
            body.spec_bytes() == (if valid_utf8(spec_body_bytes(self@.bytes)) {
                spec_body_bytes(self@.bytes)
            } else {
                "".spec_bytes()
            }),
    {
        match str_from_utf8(self.body_bytes()) {
            Some(s) => s,
            None => "",
        }
    }
}

/// Where the value of the member `key` of the object text `json` starts
/// and ends, if the member's name starts at position `at`: a quote at
/// `at`, the key, a quote, a colon and a quote with any number of spaces
/// around the colon, and then the value up to the next quote.
pub open spec fn spec_json_value_at(json: Seq<u8>, key: Seq<u8>, at: int) -> Option<(int, int)> {
    let key_end = at + 1 + key.len();
    let colon = key_end + 1 + spec_run_of(json.skip(key_end + 1), 32, true);
    let quote = colon + 1 + spec_run_of(json.skip(colon + 1), 32, true);
    let end = quote + 1 + spec_run_of(json.skip(quote + 1), 34, false);
    if 0 <= at < json.len() && json[at] == 34 && key_end < json.len() && spec_matches_at(
        json,
        key,
        at + 1,
    ) && json[key_end] == 34 && colon < json.len() && json[colon] == 58 && quote < json.len()
        && json[quote] == 34 && end < json.len() {
        Some((quote + 1, end))
    } else {
        None
    }
}

/// Start and end of the value of the first member `key` whose name starts
/// at `from` or later.
pub open spec fn spec_json_find(json: Seq<u8>, key: Seq<u8>, from: int) -> Option<(int, int)>
    decreases json.len() - from,
{
    if from < 0 || from >= json.len() {
        None
    } else {
        match spec_json_value_at(json, key, from) {
            Some(found) => Some(found),
            None => spec_json_find(json, key, from + 1),
        }
    }
}

/// The text value of the first member `key` of the object text `json`.
/// There is none where no such member is found or its value is not valid
/// UTF-8.
pub open spec fn spec_json_get(json: Seq<u8>, key: Seq<u8>) -> Option<Seq<u8>> {
    match spec_json_find(json, key, 0) {
        Some((start, end)) => if valid_utf8(json.subrange(start, end)) {
            Some(json.subrange(start, end))
        } else {
            None
        },
        None => None,
    }
}

fn json_value_at(json: &[u8], key: &[u8], at: usize) -> (found: Option<(usize, usize)>)
    requires
        at < json@.len(),
    ensures
        match found {
            Some((start, end)) => spec_json_value_at(json@, key@, at as int) == Some(
                (start as int, end as int),
            ) && start <= end < json@.len(),
            None => spec_json_value_at(json@, key@, at as int) is None,
        },
{
    let len: usize = json.len();
    if json[at] != 34 {
        return None;
    }
    if key.len() >= len - at - 1 {
        return None;
    }
    let key_end: usize = at + 1 + key.len();
    if !matches_at(json, key, at + 1) || json[key_end] != 34 {
        return None;
    }
    let colon = skip_run_of(json, key_end + 1, 32, true);
    if colon >= len || json[colon] != 58 {
        return None;
    }
    let quote = skip_run_of(json, colon + 1, 32, true);
    if quote >= len || json[quote] != 34 {
        return None;
    }
    let end = skip_run_of(json, quote + 1, 34, false);
    if end >= len {
        return None;
    }
    Some((quote + 1, end))
}

/// The bytes of the value of the first member `key` of the object text
/// `json`.
pub fn json_get_bytes<'a>(json: &'a [u8], key: &[u8]) -> (value: Option<&'a [u8]>)
    ensures
        match value {
            Some(v) => match spec_json_find(json@, key@, 0) {
                Some((start, end)) => v@ == json@.subrange(start, end),
                None => false,
            },
            None => spec_json_find(json@, key@, 0) is None,
        },
{
    let len: usize = json.len();
    let mut i: usize = 0;
    while i < len
        invariant
            i <= len == json@.len(),
            spec_json_find(json@, key@, 0) == spec_json_find(json@, key@, i as int),
        decreases len - i,
    {
        match json_value_at(json, key, i) {
            Some((start, end)) => {
                let value = &json[start..end];
                assert(spec_json_find(json@, key@, i as int) == Some((start as int, end as int)));
                return Some(value);
            },
            None => {},
        }
        i += 1;
    }
    None
}

/// The text value of the first member `key` of the object text `json`,
/// given as bytes.
pub fn json_get_text<'a>(json: &'a [u8], key: &[u8]) -> (value: Option<&'a str>)
    ensures
        match value {
            Some(v) => spec_json_get(json@, key@) == Some(v.spec_bytes()),
            None => spec_json_get(json@, key@) is None,
        },
{
    match json_get_bytes(json, key) {
        Some(v) => str_from_utf8(v),
        None => None,
    }
}

/// The text value of the first member `key` of the object text `json`,
/// such as `value` in `{"key":"value"}`.
pub fn json_get_str<'a>(json: &'a str, key: &str) -> (value: Option<&'a str>)
    ensures
        match value {
            Some(v) => spec_json_get(json.spec_bytes(), key.spec_bytes()) == Some(v.spec_bytes()),
            None => spec_json_get(json.spec_bytes(), key.spec_bytes()) is None,
        },
{
    json_get_text(json.as_bytes(), key.as_bytes())
}

} // verus!
