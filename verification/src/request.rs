//! The data the pipeline moves: requests, responses, headers and bodies.
//!
//! A request is immutable once materialised; materialisation validates the
//! pending headers and is the only step of the fluent surface that can fail.

use vstd::prelude::*;
use vstd::string::StrSliceExecFns;
use crate::error::BuildError;

verus! {

/// The request method, as the fluent surface names them.
#[derive(Clone, Copy, PartialEq, Eq, Structural, Debug)]
pub enum Method {
    Get,
    Post,
    Put,
    Patch,
    Delete,
    Head,
}

/// A header as the mathematical model sees it: two character sequences.
pub ghost struct HeaderView {
    pub name: Seq<char>,
    pub value: Seq<char>,
}

/// One pending or materialised header.
#[derive(Debug, PartialEq, Eq)]
pub struct Header {
    pub name: String,
    pub value: String,
}

impl View for Header {
    type V = HeaderView;

    open spec fn view(&self) -> HeaderView {
        HeaderView { name: self.name@, value: self.value@ }
    }
}

/// The views of a header list, in order.
pub open spec fn header_views(s: Seq<Header>) -> Seq<HeaderView> {
    s.map_values(|h: Header| h@)
}

/// Appending a header appends its view.
pub broadcast proof fn lemma_header_views_push(s: Seq<Header>, h: Header)
    ensures
        #[trigger] header_views(s.push(h)) == header_views(s).push(h@),
{
    assert(header_views(s.push(h)) =~= header_views(s).push(h@));
}

/// The views of a query pair list, in order.
pub open spec fn pair_views(s: Seq<(String, String)>) -> Seq<(Seq<char>, Seq<char>)> {
    s.map_values(|p: (String, String)| (p.0@, p.1@))
}

/// A request body: either buffered bytes, which can be replayed, or a
/// streaming source, which cannot.
#[derive(Debug, PartialEq, Eq)]
pub enum Body {
    Buffered(Vec<u8>),
    Streaming,
}

impl Body {
    /// Whether the body can be replayed, and hence cloned.
    pub open spec fn is_replayable(&self) -> bool {
        self is Buffered
    }
}

/// A materialised request, owned by one pipeline invocation until it is
/// handed to the transport unit.
#[derive(Debug, PartialEq, Eq)]
pub struct Request {
    pub method: Method,
    pub url: String,
    pub headers: Vec<Header>,
    pub query: Vec<(String, String)>,
    pub body: Option<Body>,
    pub timeout_ms: Option<u64>,
}

/// A response, owned by the caller once the invocation returns.
#[derive(Debug, PartialEq, Eq)]
pub struct Response {
    pub status: u16,
    pub headers: Vec<Header>,
    pub body: Vec<u8>,
}

/// A character accepted in a header name: ASCII letters, digits and `-`.
pub open spec fn name_char_ok(c: char) -> bool {
    ('a' <= c && c <= 'z') || ('A' <= c && c <= 'Z') || ('0' <= c && c <= '9') || c == '-'
}

/// A character accepted in a header value: visible ASCII and the space.
pub open spec fn value_char_ok(c: char) -> bool {
    ' ' <= c && c <= '~'
}

/// A header name is valid when it is non-empty and every character is accepted.
pub open spec fn valid_header_name(name: Seq<char>) -> bool {
    name.len() > 0 && forall|i: int| 0 <= i < name.len() ==> name_char_ok(#[trigger] name[i])
}

/// A header value is valid when every character is accepted.
pub open spec fn valid_header_value(value: Seq<char>) -> bool {
    forall|i: int| 0 <= i < value.len() ==> value_char_ok(#[trigger] value[i])
}

/// The first fault in a header list at or after position `i`, if any.
pub open spec fn first_fault_from(hs: Seq<HeaderView>, i: int) -> Option<BuildError>
    decreases hs.len() - i,
{
    if i < 0 || i >= hs.len() {
        None
    } else if !valid_header_name(hs[i].name) {
        Some(BuildError::InvalidHeaderName { index: i as usize })
    } else if !valid_header_value(hs[i].value) {
        Some(BuildError::InvalidHeaderValue { index: i as usize })
    } else {
        first_fault_from(hs, i + 1)
    }
}

/// The build error a header list earns, if any: the first invalid entry,
/// its name checked before its value.
pub open spec fn first_header_fault(hs: Seq<HeaderView>) -> Option<BuildError> {
    first_fault_from(hs, 0)
}

/// Whether every character of `s` satisfies `name_char_ok`.
fn all_name_chars(s: &String) -> (b: bool)
    ensures
        b == forall|i: int| 0 <= i < s@.len() ==> name_char_ok(#[trigger] s@[i]),
{
    let n = s.as_str().unicode_len();
    let mut j: usize = 0;
    while j < n
        invariant
            j <= n,
            n == s@.len(),
            forall|i: int| 0 <= i < j ==> name_char_ok(#[trigger] s@[i]),
        decreases n - j,
    {
        let c = s.as_str().get_char(j);
        if !(('a' <= c && c <= 'z') || ('A' <= c && c <= 'Z') || ('0' <= c && c <= '9') || c == '-')
        {
            return false;
        }
        j += 1;
    }
    true
}

/// Whether every character of `s` satisfies `value_char_ok`.
fn all_value_chars(s: &String) -> (b: bool)
    ensures
        b == forall|i: int| 0 <= i < s@.len() ==> value_char_ok(#[trigger] s@[i]),
{
    let n = s.as_str().unicode_len();
    let mut j: usize = 0;
    while j < n
        invariant
            j <= n,
            n == s@.len(),
            forall|i: int| 0 <= i < j ==> value_char_ok(#[trigger] s@[i]),
        decreases n - j,
    {
        let c = s.as_str().get_char(j);
        if !(' ' <= c && c <= '~') {
            return false;
        }
        j += 1;
    }
    true
}

/// Scans a pending header list for the first entry that would make
/// materialisation fail.
pub fn find_header_fault(headers: &Vec<Header>) -> (r: Option<BuildError>)
    ensures
        r == first_header_fault(header_views(headers@)),
{
    let ghost hs = header_views(headers@);
    let mut i: usize = 0;
    while i < headers.len()
        invariant
            i <= headers@.len(),
            hs == header_views(headers@),
            hs.len() == headers@.len(),
            forall|j: int| 0 <= j < hs.len() ==> #[trigger] hs[j] == headers@[j]@,
            first_fault_from(hs, 0) == first_fault_from(hs, i as int),
        decreases headers@.len() - i,
    {
        let h = &headers[i];
        if !all_name_chars(&h.name) {
            assert(first_fault_from(hs, i as int) == Some(
                BuildError::InvalidHeaderName { index: i },
            ));
            return Some(BuildError::InvalidHeaderName { index: i });
        }
        if h.name.as_str().unicode_len() == 0 {
            assert(first_fault_from(hs, i as int) == Some(
                BuildError::InvalidHeaderName { index: i },
            ));
            return Some(BuildError::InvalidHeaderName { index: i });
        }
        if !all_value_chars(&h.value) {
            assert(first_fault_from(hs, i as int) == Some(
                BuildError::InvalidHeaderValue { index: i },
            ));
            return Some(BuildError::InvalidHeaderValue { index: i });
        }
        assert(first_fault_from(hs, i as int) == first_fault_from(hs, i + 1));
        i += 1;
    }
    None
}

} // verus!
