//! The parts of an HTTP exchange that are decided rather than sent: which
//! method a name stands for, whether a content type is binary, and how the
//! bytes of a body are handed on as text.

use crate::text::{contains, equals, has_substring, to_chars};
use base64::Engine;
use vstd::prelude::*;
use vstd::string::StringExecFns;
use vstd::utf8::{decode_utf8, valid_utf8};

verus! {

// ---------------------------------------------------------------------------
// What the outside computes
// ---------------------------------------------------------------------------

/// What `str::to_uppercase` returns for the text `s`.
pub uninterp spec fn uppercase_of(s: Seq<char>) -> Seq<char>;

/// What `str::to_lowercase` returns for the text `s`.
pub uninterp spec fn lowercase_of(s: Seq<char>) -> Seq<char>;

/// What the standard base64 engine, with padding, encodes `bytes` to.
pub uninterp spec fn base64_of(bytes: Seq<u8>) -> Seq<char>;

/// `str::to_uppercase` of the standard library: the upper case of a text by
/// the Unicode tables, which depends on the text alone.
pub assume_specification[ str::to_uppercase ](s: &str) -> (out: String)
    ensures
        out@ == uppercase_of(s@),
;

/// `str::to_lowercase` of the standard library: the lower case of a text by
/// the Unicode tables, which depends on the text alone.
pub assume_specification[ str::to_lowercase ](s: &str) -> (out: String)
    ensures
        out@ == lowercase_of(s@),
;

/// The length of the base64 encoding of `n` bytes, with padding.
pub open spec fn encoded_len(n: nat) -> nat {
    4 * ((n + 2) / 3)
}

/// `Engine::encode` of the crate `base64`, on its engine
/// `general_purpose::STANDARD`: the encoding of the bytes, which depends on
/// the bytes alone. The call panics where the length of the encoding does
/// not fit in `usize`, so such inputs are left out.
#[verifier::external_body]
fn base64_encode(bytes: &[u8]) -> (out: String)
    requires
        encoded_len(bytes@.len()) <= usize::MAX,
    ensures
        out@ == base64_of(bytes@),
{
    base64::engine::general_purpose::STANDARD.encode(bytes)
}

/// `str::from_utf8` of the standard library: the text that the bytes encode
/// where they are valid UTF-8, and none where they are not.
#[verifier::external_body]
fn utf8_text(bytes: &[u8]) -> (out: Option<String>)
    ensures
        out is Some <==> valid_utf8(bytes@),
        out matches Some(s) ==> s@ == decode_utf8(bytes@),
{
    match std::str::from_utf8(bytes) {
        Ok(text) => Some(text.to_string()),
        Err(_) => None,
    }
}

// ---------------------------------------------------------------------------
// Methods
// ---------------------------------------------------------------------------

/// The request methods that are forwarded.
#[derive(Debug, Clone, Copy, PartialEq, Eq, Structural)]
pub enum HttpMethod {
    Get,
    Post,
    Put,
    Delete,
    Patch,
    Head,
}

/// The method that an upper-case name stands for.
pub open spec fn method_named(upper: Seq<char>) -> Option<HttpMethod> {
    if upper == "GET"@ {
        Some(HttpMethod::Get)
    } else if upper == "POST"@ {
        Some(HttpMethod::Post)
    } else if upper == "PUT"@ {
        Some(HttpMethod::Put)
    } else if upper == "DELETE"@ {
        Some(HttpMethod::Delete)
    } else if upper == "PATCH"@ {
        Some(HttpMethod::Patch)
    } else if upper == "HEAD"@ {
        Some(HttpMethod::Head)
    } else {
        None
    }
}

/// The message for a method that is not forwarded.
pub open spec fn unsupported_method(name: Seq<char>) -> Seq<char> {
    "Unsupported HTTP method: "@ + name
}

/// The method of a request: `GET` where none is named, else the method that
/// the name stands for in any mix of cases.
pub open spec fn method_of(name: Option<Seq<char>>) -> Result<HttpMethod, Seq<char>> {
    match name {
        None => Ok(HttpMethod::Get),
        Some(n) => match method_named(uppercase_of(n)) {
            Some(m) => Ok(m),
            None => Err(unsupported_method(n)),
        },
    }
}

/// The view of a parsed method.
pub open spec fn method_result_view(r: Result<HttpMethod, String>) -> Result<
    HttpMethod,
    Seq<char>,
> {
    match r {
        Ok(m) => Ok(m),
        Err(e) => Err(e@),
    }
}

/// The method that an upper-case name stands for.
pub fn method_from_upper(upper: &str) -> (out: Option<HttpMethod>)
    ensures
        out == method_named(upper@),
{
    let name = to_chars(upper);
    if equals(name.as_slice(), "GET") {
        Some(HttpMethod::Get)
    } else if equals(name.as_slice(), "POST") {
        Some(HttpMethod::Post)
    } else if equals(name.as_slice(), "PUT") {
        Some(HttpMethod::Put)
    } else if equals(name.as_slice(), "DELETE") {
        Some(HttpMethod::Delete)
    } else if equals(name.as_slice(), "PATCH") {
        Some(HttpMethod::Patch)
    } else if equals(name.as_slice(), "HEAD") {
        Some(HttpMethod::Head)
    } else {
        None
    }
}

/// The method of a request, or the message that rejects its name.
pub fn parse_method(name: Option<String>) -> (out: Result<HttpMethod, String>)
    ensures
        method_result_view(out) == method_of(name.deep_view()),
        name is None ==> out == Ok::<HttpMethod, String>(HttpMethod::Get),
{
    match name {
        None => Ok(HttpMethod::Get),
        Some(n) => {
            let upper = n.as_str().to_uppercase();
            match method_from_upper(upper.as_str()) {
                Some(m) => Ok(m),
                None => {
                    let mut message = String::from_str("Unsupported HTTP method: ");
                    message.append(n.as_str());
                    Err(message)
                },
            }
        },
    }
}

// ---------------------------------------------------------------------------
// Content types
// ---------------------------------------------------------------------------

/// Whether a lower-case content type names text: JSON, XML, plain text or a
/// playlist.
pub open spec fn is_text_type(lower: Seq<char>) -> bool {
    ||| has_substring(lower, "json"@)
    ||| has_substring(lower, "xml"@)
    ||| has_substring(lower, "text/"@)
    ||| has_substring(lower, "mpegurl"@)
    ||| has_substring(lower, "x-mpegurl"@)
    ||| has_substring(lower, "m3u"@)
}

/// Whether a lower-case content type names binary data: it names no text
/// and names video, audio, an image or a stream of octets.
pub open spec fn is_binary_type(lower: Seq<char>) -> bool {
    !is_text_type(lower) && (has_substring(lower, "video/"@) || has_substring(lower, "audio/"@)
        || has_substring(lower, "image/"@) || has_substring(lower, "octet-stream"@))
}

/// Whether a response with the given content type is binary. A response
/// without a content type is not.
pub open spec fn is_binary_content(content_type: Option<Seq<char>>) -> bool {
    match content_type {
        Some(t) => is_binary_type(lowercase_of(t)),
        None => false,
    }
}

/// Tests whether a lower-case content type names binary data.
pub fn binary_type(lower: &str) -> (b: bool)
    ensures
        b == is_binary_type(lower@),
{
    let t = to_chars(lower);
    let s = t.as_slice();
    let is_text = contains(s, "json") || contains(s, "xml") || contains(s, "text/") || contains(
        s,
        "mpegurl",
    ) || contains(s, "x-mpegurl") || contains(s, "m3u");
    !is_text && (contains(s, "video/") || contains(s, "audio/") || contains(s, "image/")
        || contains(s, "octet-stream"))
}

/// Tests whether a response with the given content type is binary.
pub fn binary_content(content_type: Option<&String>) -> (b: bool)
    ensures
        b == is_binary_content(
            match content_type {
                Some(t) => Some(t@),
                None => None,
            },
        ),
{
    match content_type {
        Some(t) => {
            let lower = t.as_str().to_lowercase();
            binary_type(lower.as_str())
        },
        None => false,
    }
}

// ---------------------------------------------------------------------------
// Bodies
// ---------------------------------------------------------------------------

/// The text that stands for a body: the base64 encoding of its bytes where
/// the body is binary or is not valid UTF-8, else the text that the bytes
/// encode.
pub open spec fn body_text(bytes: Seq<u8>, is_binary: bool) -> Seq<char> {
    if is_binary || !valid_utf8(bytes) {
        base64_of(bytes)
    } else {
        decode_utf8(bytes)
    }
}

/// Whether the base64 encoding of a body of `n` bytes has a length that
/// fits in `usize`.
pub open spec fn can_encode(n: nat) -> bool {
    encoded_len(n) <= usize::MAX
}

/// Tests whether a body of `n` bytes can be encoded.
pub fn body_fits(n: usize) -> (b: bool)
    ensures
        b == can_encode(n as nat),
{
    let chunks: usize = n / 3 + (if n % 3 > 0 {
        1
    } else {
        0
    });
    assert(chunks == (n + 2) / 3);
    chunks <= usize::MAX / 4
}

/// The text that stands for a body.
pub fn encode_body(bytes: &[u8], is_binary: bool) -> (out: String)
    requires
        can_encode(bytes@.len()),
    ensures
        out@ == body_text(bytes@, is_binary),
{
    if is_binary {
        base64_encode(bytes)
    } else {
        match utf8_text(bytes) {
            Some(text) => text,
            None => base64_encode(bytes),
        }
    }
}

// ---------------------------------------------------------------------------
// Headers
// ---------------------------------------------------------------------------

/// The views of header names and values.
pub open spec fn pairs_view(v: Seq<(String, String)>) -> Seq<(Seq<char>, Seq<char>)> {
    Seq::new(v.len(), |i: int| (v[i].0@, v[i].1@))
}

/// The headers that a list of names and values amounts to: of two values
/// under one name the later stays.
pub open spec fn header_map(pairs: Seq<(Seq<char>, Seq<char>)>) -> Map<Seq<char>, Seq<char>>
    decreases pairs.len(),
{
    if pairs.len() == 0 {
        Map::empty()
    } else {
        header_map(pairs.drop_last()).insert(pairs.last().0, pairs.last().1)
    }
}

/// Whether no name stands twice in `pairs`.
pub open spec fn distinct_names(pairs: Seq<(Seq<char>, Seq<char>)>) -> bool {
    forall|i: int, j: int| 0 <= i < j < pairs.len() ==> pairs[i].0 != pairs[j].0
}

/// Among distinct names, a new value under a name that is there amounts to
/// an insertion.
proof fn lemma_header_map_update(
    pairs: Seq<(Seq<char>, Seq<char>)>,
    j: int,
    value: Seq<char>,
)
    requires
        distinct_names(pairs),
        0 <= j < pairs.len(),
    ensures
        header_map(pairs.update(j, (pairs[j].0, value))) == header_map(pairs).insert(
            pairs[j].0,
            value,
        ),
        distinct_names(pairs.update(j, (pairs[j].0, value))),
    decreases pairs.len(),
{
    let name = pairs[j].0;
    let after = pairs.update(j, (name, value));
    let d = pairs.drop_last();
    if j == pairs.len() - 1 {
        assert(after.drop_last() == d);
        assert(header_map(d).insert(name, pairs[j].1).insert(name, value) == header_map(
            d,
        ).insert(name, value));
    } else {
        assert(after.drop_last() == d.update(j, (name, value)));
        assert(d[j] == pairs[j]);
        lemma_header_map_update(d, j, value);
        let last = pairs.last();
        assert(last.0 != name);
        assert(header_map(d).insert(name, value).insert(last.0, last.1) == header_map(d).insert(
            last.0,
            last.1,
        ).insert(name, value));
    }
}

/// Among distinct names, the headers hold each name with its one value, and
/// no other name.
proof fn lemma_header_map_holds(pairs: Seq<(Seq<char>, Seq<char>)>, name: Seq<char>)
    requires
        distinct_names(pairs),
    ensures
        forall|i: int|
            0 <= i < pairs.len() && (#[trigger] pairs[i]).0 == name ==> header_map(
                pairs,
            ).contains_key(name) && header_map(pairs)[name] == pairs[i].1,
        (forall|i: int| 0 <= i < pairs.len() ==> (#[trigger] pairs[i]).0 != name) ==> !header_map(
            pairs,
        ).contains_key(name),
    decreases pairs.len(),
{
    if pairs.len() > 0 {
        let d = pairs.drop_last();
        lemma_header_map_holds(d, name);
        assert forall|i: int| 0 <= i < pairs.len() && (#[trigger] pairs[i]).0 == name implies
            header_map(pairs).contains_key(name) && header_map(pairs)[name] == pairs[i].1 by {
            if i < pairs.len() - 1 {
                assert(d[i] == pairs[i]);
                assert(pairs.last().0 != name);
            }
        }
        if forall|i: int| 0 <= i < pairs.len() ==> (#[trigger] pairs[i]).0 != name {
            assert forall|i: int| 0 <= i < d.len() implies (#[trigger] d[i]).0 != name by {
                assert(d[i] == pairs[i]);
            }
            assert(pairs[pairs.len() - 1].0 != name);
        }
    }
}

/// The index of the header called `name`, if there is one.
fn find_header(headers: &Vec<(String, String)>, name: &str) -> (found: Option<usize>)
    ensures
        match found {
            Some(j) => j < headers.len() && headers@[j as int].0@ == name@,
            None => forall|i: int| 0 <= i < headers.len() ==> headers@[i].0@ != name@,
        },
{
    let mut j: usize = 0;
    while j < headers.len()
        invariant
            j <= headers.len(),
            forall|i: int| 0 <= i < j ==> headers@[i].0@ != name@,
        decreases headers.len() - j,
    {
        let candidate = to_chars(headers[j].0.as_str());
        if equals(candidate.as_slice(), name) {
            return Some(j);
        }
        j += 1;
    }
    None
}

/// Puts `value` under `name`, in place of the value that is there.
fn insert_header(headers: &mut Vec<(String, String)>, name: String, value: String)
    requires
        distinct_names(pairs_view(old(headers)@)),
    ensures
        distinct_names(pairs_view(final(headers)@)),
        header_map(pairs_view(final(headers)@)) == header_map(pairs_view(old(headers)@)).insert(
            name@,
            value@,
        ),
{
    let ghost before = pairs_view(headers@);
    match find_header(headers, name.as_str()) {
        Some(j) => {
            proof {
                lemma_header_map_update(before, j as int, value@);
            }
            headers.set(j, (name, value));
            assert(pairs_view(headers@) == before.update(j as int, (before[j as int].0, value@)));
        },
        None => {
            headers.push((name, value));
            assert(pairs_view(headers@) == before.push((name@, value@)));
            assert(pairs_view(headers@).drop_last() == before);
        },
    }
}

// ---------------------------------------------------------------------------
// Responses
// ---------------------------------------------------------------------------

/// A response as it is handed to the caller: the body as text, the status
/// code, the headers by name, and whether the body is binary.
#[derive(Debug)]
pub struct HttpResponse {
    body: String,
    status: u16,
    headers: Vec<(String, String)>,
    is_binary: Option<bool>,
}

/// The mathematical content of an `HttpResponse`.
pub struct ResponseModel {
    pub body: Seq<char>,
    pub status: u16,
    pub headers: Map<Seq<char>, Seq<char>>,
    pub is_binary: Option<bool>,
}

/// The value under `name`, if the headers hold the name.
pub open spec fn header_value(headers: Map<Seq<char>, Seq<char>>, name: Seq<char>) -> Option<
    Seq<char>,
> {
    if headers.contains_key(name) {
        Some(headers[name])
    } else {
        None
    }
}

/// The response made of a status code, the headers in the order they came
/// in, and the bytes of the body. The body counts as binary by its content
/// type, and is handed on as `body_text` says.
pub open spec fn response_model(
    status: u16,
    headers: Seq<(Seq<char>, Seq<char>)>,
    bytes: Seq<u8>,
) -> ResponseModel {
    let map = header_map(headers);
    let binary = is_binary_content(header_value(map, "content-type"@));
    ResponseModel { body: body_text(bytes, binary), status, headers: map, is_binary: Some(binary) }
}

impl View for HttpResponse {
    type V = ResponseModel;

    closed spec fn view(&self) -> ResponseModel {
        ResponseModel {
            body: self.body@,
            status: self.status,
            headers: header_map(pairs_view(self.headers@)),
            is_binary: self.is_binary,
        }
    }
}

impl HttpResponse {
    /// No header name stands twice.
    #[verifier::type_invariant]
    spec fn well_formed(&self) -> bool {
        distinct_names(pairs_view(self.headers@))
    }

    /// Makes the response from what was received.
    pub fn from_parts(status: u16, headers: Vec<(String, String)>, bytes: &[u8]) -> (out:
        HttpResponse)
        requires
            can_encode(bytes@.len()),
        ensures
            out@ == response_model(status, pairs_view(headers@), bytes@),
    {
        let ghost all = pairs_view(headers@);
        let mut kept: Vec<(String, String)> = Vec::new();
        let mut i: usize = 0;
        assert(all.take(0) == Seq::<(Seq<char>, Seq<char>)>::empty());
        assert(pairs_view(kept@) == Seq::<(Seq<char>, Seq<char>)>::empty());
        while i < headers.len()
            invariant
                i <= headers.len(),
                all == pairs_view(headers@),
                distinct_names(pairs_view(kept@)),
                header_map(pairs_view(kept@)) == header_map(all.take(i as int)),
            decreases headers.len() - i,
        {
            assert(all.take(i + 1).drop_last() == all.take(i as int));
            assert(all.take(i + 1).last() == all[i as int]);
            insert_header(&mut kept, headers[i].0.clone(), headers[i].1.clone());
            i += 1;
        }
        assert(all.take(headers.len() as int) == all);
        let binary = match find_header(&kept, "content-type") {
            Some(j) => {
                proof {
                    lemma_header_map_holds(pairs_view(kept@), "content-type"@);
                    assert(pairs_view(kept@)[j as int].0 == "content-type"@);
                }
                binary_content(Some(&kept[j].1))
            },
            None => {
                proof {
                    lemma_header_map_holds(pairs_view(kept@), "content-type"@);
                    assert forall|i: int| 0 <= i < kept.len() implies (#[trigger] pairs_view(
                        kept@,
                    )[i]).0 != "content-type"@ by {}
                }
                false
            },
        };
        let body = encode_body(bytes, binary);
        HttpResponse { body, status, headers: kept, is_binary: Some(binary) }
    }

    /// The body as text.
    pub fn body(&self) -> (body: &String)
        ensures
            body@ == self@.body,
    {
        &self.body
    }

    /// The status code.
    pub fn status(&self) -> (status: u16)
        ensures
            status == self@.status,
    {
        self.status
    }

    /// Whether the body is binary, where that is known.
    pub fn is_binary(&self) -> (is_binary: Option<bool>)
        ensures
            is_binary == self@.is_binary,
    {
        self.is_binary
    }

    /// The headers, each name once.
    pub fn headers(&self) -> (headers: &Vec<(String, String)>)
        ensures
            distinct_names(pairs_view(headers@)),
            header_map(pairs_view(headers@)) == self@.headers,
    {
        proof {
            use_type_invariant(self);
        }
        &self.headers
    }

    /// The value of the header called `name`.
    pub fn header(&self, name: &str) -> (value: Option<&String>)
        ensures
            (match value {
                Some(v) => Some(v@),
                None => None,
            }) == header_value(self@.headers, name@),
    {
        proof {
            use_type_invariant(self);
            lemma_header_map_holds(pairs_view(self.headers@), name@);
        }
        match find_header(&self.headers, name) {
            Some(j) => {
                assert(pairs_view(self.headers@)[j as int].0 == name@);
                Some(&self.headers[j].1)
            },
            None => {
                assert forall|i: int| 0 <= i < self.headers.len() implies (#[trigger] pairs_view(
                    self.headers@,
                )[i]).0 != name@ by {}
                None
            },
        }
    }
}

} // verus!
