//! Plain values for the requests this library asks for and the responses it is handed.
//!
//! Nothing here performs I/O: a `Request` says what to send, and a `Response`
//! holds what came back.

use crate::text::{eq_ignore_case, same_text_ignore_case};
use vstd::prelude::*;

verus! {

/// The HTTP methods that the registry protocol uses.
#[derive(Clone, Copy, Debug, PartialEq, Eq, Structural)]
pub enum Method {
    Get,
    Post,
    Put,
    Patch,
}

/// One header line: a name and its value.
#[derive(Clone, Debug, PartialEq, Eq)]
pub struct Header {
    pub name: String,
    pub value: String,
}

/// What a `Header` holds.
pub struct HeaderView {
    pub name: Seq<char>,
    pub value: Seq<char>,
}

impl View for Header {
    type V = HeaderView;

    open spec fn view(&self) -> HeaderView {
        HeaderView { name: self.name@, value: self.value@ }
    }
}

impl DeepView for Header {
    type V = HeaderView;

    open spec fn deep_view(&self) -> HeaderView {
        self@
    }
}

impl Header {
    /// A header line with the given name and value.
    pub fn new(name: &str, value: String) -> (out: Header)
        ensures
            out@ == (HeaderView { name: name@, value: value@ }),
    {
        Header { name: name.to_string(), value }
    }
}

/// A request for the transport to send.
#[derive(Clone, Debug, PartialEq, Eq)]
pub struct Request {
    pub method: Method,
    pub url: String,
    pub headers: Vec<Header>,
    pub body: Vec<u8>,
}

/// What a `Request` holds.
pub struct RequestView {
    pub method: Method,
    pub url: Seq<char>,
    pub headers: Seq<HeaderView>,
    pub body: Seq<u8>,
}

impl View for Request {
    type V = RequestView;

    open spec fn view(&self) -> RequestView {
        RequestView {
            method: self.method,
            url: self.url@,
            headers: self.headers.deep_view(),
            body: self.body@,
        }
    }
}

/// A response that the transport received.
#[derive(Clone, Debug, PartialEq, Eq)]
pub struct Response {
    pub status: u16,
    pub headers: Vec<Header>,
    pub body: Vec<u8>,
}

/// What a `Response` holds.
pub struct ResponseView {
    pub status: u16,
    pub headers: Seq<HeaderView>,
    pub body: Seq<u8>,
}

impl View for Response {
    type V = ResponseView;

    open spec fn view(&self) -> ResponseView {
        ResponseView { status: self.status, headers: self.headers.deep_view(), body: self.body@ }
    }
}

/// The value of the first header at or after `from` whose name is `name`, whatever its case.
pub open spec fn find_header(headers: Seq<HeaderView>, name: Seq<char>, from: int) -> Option<
    Seq<char>,
>
    decreases headers.len() - from,
{
    if from < 0 || from >= headers.len() {
        None
    } else if eq_ignore_case(headers[from].name, name) {
        Some(headers[from].value)
    } else {
        find_header(headers, name, from + 1)
    }
}

/// The value of the first header named `name`; header names are compared without regard to case.
pub open spec fn header_value(headers: Seq<HeaderView>, name: Seq<char>) -> Option<Seq<char>> {
    find_header(headers, name, 0)
}

/// Whether a status is one of the 2xx family.
pub open spec fn is_success(status: u16) -> bool {
    200 <= status < 300
}

impl Response {
    /// The value of the first header named `name`, if the response has one.
    pub fn header(&self, name: &str) -> (out: Option<&str>)
        ensures
            match out {
                Some(v) => header_value(self@.headers, name@) == Some(v@),
                None => header_value(self@.headers, name@).is_none(),
            },
    {
        let mut i: usize = 0;
        while i < self.headers.len()
            invariant
                i <= self.headers.len(),
                header_value(self@.headers, name@) == find_header(self@.headers, name@, i as int),
            decreases self.headers.len() - i,
        {
            assert(self@.headers[i as int] == self.headers@[i as int]@);
            if same_text_ignore_case(self.headers[i].name.as_str(), name) {
                return Some(self.headers[i].value.as_str());
            }
            i += 1;
        }
        None
    }

    /// Whether the status is one of the 2xx family.
    pub fn is_success(&self) -> (out: bool)
        ensures
            out == is_success(self.status),
    {
        200 <= self.status && self.status < 300
    }
}

/// Whether `hyper::Uri` accepts a text as a URI.
pub uninterp spec fn uri_accepted(url: Seq<char>) -> bool;

/// Calls `hyper::Uri::from_str` and reports whether it returned a URI.
///
/// The parser reads nothing but its argument, so the answer is a function
/// of the text alone; the contract gives that answer its name.
#[verifier::external_body]
pub(crate) fn parses_as_uri(url: &str) -> (accepted: bool)
    ensures
        accepted == uri_accepted(url@),
{
    url.parse::<hyper::Uri>().is_ok()
}

} // verus!
