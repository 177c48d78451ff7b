//! In-flight request and response descriptors.
//!
//! A [`RequestDescriptor`] is the fully-resolved outgoing request the
//! pipeline decorates before the transport sends it; a
//! [`ResponseDescriptor`] is what came back.  Both are plain data, owned by
//! one execution, and are modelled by [`ReqModel`] / [`RespModel`] in
//! contracts.
#![allow(unused_imports)]
use crate::headers::entries_insert;
use crate::headers::valid_header_name;
use crate::headers::valid_header_value;
use crate::headers::HeaderMap;
use vstd::prelude::*;

verus! {

/// The HTTP methods the client issues.
#[derive(Debug, Clone, Copy, PartialEq, Eq, Structural)]
pub enum Method {
    Get,
    Post,
    Put,
    Patch,
    Delete,
    Head,
}

/// The wire name of each method.
pub open spec fn method_name(m: Method) -> Seq<char> {
    match m {
        Method::Get => "GET"@,
        Method::Post => "POST"@,
        Method::Put => "PUT"@,
        Method::Patch => "PATCH"@,
        Method::Delete => "DELETE"@,
        Method::Head => "HEAD"@,
    }
}

impl Method {
    /// The wire name of this method.
    pub fn as_str(&self) -> (r: &'static str)
        ensures
            r@ == method_name(*self),
    {
        match self {
            Method::Get => "GET",
            Method::Post => "POST",
            Method::Put => "PUT",
            Method::Patch => "PATCH",
            Method::Delete => "DELETE",
            Method::Head => "HEAD",
        }
    }
}

/// The mathematical model of a request descriptor.
#[verifier::ext_equal]
pub struct ReqModel {
    pub method: Method,
    pub url: Seq<char>,
    pub headers: Seq<(Seq<char>, Seq<char>)>,
    pub body: Option<Seq<u8>>,
}

/// An outgoing request: method, resolved absolute URL, headers, and an
/// optional body.  Owned exclusively by one execution.
#[derive(Debug)]
pub struct RequestDescriptor {
    pub method: Method,
    pub url: String,
    pub headers: HeaderMap,
    pub body: Option<Vec<u8>>,
}

impl View for RequestDescriptor {
    type V = ReqModel;

    open spec fn view(&self) -> ReqModel {
        ReqModel {
            method: self.method,
            url: self.url@,
            headers: self.headers@,
            body: match self.body {
                Some(b) => Some(b@),
                None => None,
            },
        }
    }
}

impl RequestDescriptor {
    /// A fresh descriptor with no headers yet.
    pub fn new(method: Method, url: String, body: Option<Vec<u8>>) -> (r: RequestDescriptor)
        ensures
            r@.method == method,
            r@.url == url@,
            r@.headers == Seq::<(Seq<char>, Seq<char>)>::empty(),
            r@.body == (match body {
                Some(b) => Some(b@),
                None => None::<Seq<u8>>,
            }),
    {
        RequestDescriptor { method, url, headers: HeaderMap::new(), body }
    }

    /// Sets one header, case-insensitively, last write winning.
    pub fn set_header(&mut self, name: &str, value: &str)
        requires
            valid_header_name(name@),
            valid_header_value(value@),
        ensures
            final(self)@ == (ReqModel {
                headers: entries_insert(old(self)@.headers, name@, value@),
                ..old(self)@
            }),
    {
        self.headers.insert(name, value);
    }
}

/// The mathematical model of a response descriptor.
#[verifier::ext_equal]
pub struct RespModel {
    pub status: u16,
    pub headers: Seq<(Seq<char>, Seq<char>)>,
    pub body: Seq<u8>,
}

/// An incoming response: status code, headers, and the body as bytes.
#[derive(Debug)]
pub struct ResponseDescriptor {
    pub status: u16,
    pub headers: HeaderMap,
    pub body: Vec<u8>,
}

impl View for ResponseDescriptor {
    type V = RespModel;

    open spec fn view(&self) -> RespModel {
        RespModel { status: self.status, headers: self.headers@, body: self.body@ }
    }
}

impl ResponseDescriptor {
    /// A response value assembled from its parts.
    pub fn new(status: u16, headers: HeaderMap, body: Vec<u8>) -> (r: ResponseDescriptor)
        ensures
            r@.status == status,
            r@.headers == headers@,
            r@.body == body@,
    {
        ResponseDescriptor { status, headers, body }
    }

    /// True exactly when the status signals success (2xx).
    pub fn is_success(&self) -> (r: bool)
        ensures
            r == status_is_success(self@.status),
    {
        200 <= self.status && self.status < 300
    }
}

/// A status code that signals success.
pub open spec fn status_is_success(status: u16) -> bool {
    200 <= status < 300
}

} // verus!
