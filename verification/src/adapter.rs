//! The seam between the proxy's request and the routing rules.
//!
//! A decoded [`FilterRequest`] is classified once into owned [`RequestParts`], and
//! every later decision reads those through a [`RequestCtx`]. Both ways of running
//! the extension decode into the same request, so this seam serves both.
use vstd::prelude::*;
use vstd::slice::slice_to_vec;
use crate::abi::copy_headers;
use crate::abi::find_header;
use crate::abi::header_value;
use crate::abi::header_views;
use crate::abi::FilterRequest;
use crate::abi::HeaderView;
use crate::abi::HttpVersion;
use crate::abi::RequestView;
use crate::classify::classification;
use crate::classify::classify;
use crate::classify::EndpointKind;
use crate::classify::HttpMethod;
use crate::text;

verus! {

/// The principal id used when no validated client certificate was presented.
pub const ANONYMOUS: &'static str = "anonymous";

/// The protocol a request arrived on.
#[derive(Debug, Clone, Copy, PartialEq, Eq, Structural)]
pub enum Protocol {
    /// HTTP/1.1.
    Http1,
    /// HTTP/2.
    Http2,
    /// gRPC over HTTP/2.
    Grpc,
}

/// Why a request cannot be mapped. Classification never fails, so the only hard
/// error is a method that the proxy does not handle.
#[derive(Debug, PartialEq, Eq)]
pub enum AdaptError {
    /// The HTTP method is not one the proxy handles.
    UnsupportedMethod(String),
}

impl AdaptError {
    /// The error in words.
    #[must_use]
    pub fn message(&self) -> (r: String)
        ensures
            r@ == "unsupported HTTP method: "@ + self->UnsupportedMethod_0@,
    {
        match self {
            AdaptError::UnsupportedMethod(method) => text::concat(
                "unsupported HTTP method: ",
                method.as_str(),
            ),
        }
    }
}

/// Owned request facets, extracted once from a [`FilterRequest`].
#[derive(Debug, Clone)]
pub struct RequestParts {
    principal: String,
    identified: bool,
    request_id: String,
    method: HttpMethod,
    protocol: Protocol,
    endpoint: EndpointKind,
    logical_index: String,
    doc_id: Option<String>,
    query: Option<String>,
    path: String,
    headers: Vec<(String, String)>,
    body: Vec<u8>,
}

/// The view of [`RequestParts`].
#[verifier::ext_equal]
pub struct PartsView {
    /// The principal id.
    pub principal: Seq<char>,
    /// Whether the principal is that of a validated identity.
    pub identified: bool,
    /// The request id.
    pub request_id: Seq<char>,
    /// The method.
    pub method: HttpMethod,
    /// The protocol.
    pub protocol: Protocol,
    /// The endpoint class.
    pub endpoint: EndpointKind,
    /// The logical index.
    pub logical_index: Seq<char>,
    /// The document id.
    pub doc_id: Option<Seq<char>>,
    /// The raw query.
    pub query: Option<Seq<char>>,
    /// The path without the query.
    pub path: Seq<char>,
    /// The headers.
    pub headers: Seq<HeaderView>,
    /// The body.
    pub body: Seq<u8>,
}

impl PartsView {
    /// The principal of the validated identity, where there is one.
    pub open spec fn identity(self) -> Option<Seq<char>> {
        if self.identified {
            Some(self.principal)
        } else {
            None
        }
    }
}

impl View for RequestParts {
    type V = PartsView;

    closed spec fn view(&self) -> PartsView {
        PartsView {
            principal: self.principal@,
            identified: self.identified,
            request_id: self.request_id@,
            method: self.method,
            protocol: self.protocol,
            endpoint: self.endpoint,
            logical_index: self.logical_index@,
            doc_id: text::optional(self.doc_id),
            query: text::optional(self.query),
            path: self.path@,
            headers: header_views(self.headers@),
            body: self.body@,
        }
    }
}

/// The method that a method string names, if the proxy handles it.
pub open spec fn method_of(method: Seq<char>) -> Option<HttpMethod> {
    if method == "GET"@ {
        Some(HttpMethod::Get)
    } else if method == "PUT"@ {
        Some(HttpMethod::Put)
    } else if method == "POST"@ {
        Some(HttpMethod::Post)
    } else if method == "DELETE"@ {
        Some(HttpMethod::Delete)
    } else if method == "HEAD"@ {
        Some(HttpMethod::Head)
    } else {
        None
    }
}

/// gRPC when the content type says so, else the negotiated version.
pub open spec fn protocol_for(req: RequestView) -> Protocol {
    if req.is_grpc() {
        Protocol::Grpc
    } else {
        match req.version {
            HttpVersion::Http11 => Protocol::Http1,
            HttpVersion::Http2 => Protocol::Http2,
        }
    }
}

/// Whether a request comes with a validated identity that has a name.
pub open spec fn is_identified(req: RequestView) -> bool {
    req.identity.presented && req.identity.stable_id().len() > 0
}

/// The validated identity, else the anonymous principal.
pub open spec fn principal_for(req: RequestView) -> Seq<char> {
    if is_identified(req) {
        req.identity.stable_id()
    } else {
        ANONYMOUS@
    }
}

/// The parts of a request, where its method is handled.
pub open spec fn parts_of(req: RequestView, request_id: Seq<char>) -> Option<PartsView> {
    match method_of(req.method) {
        None => None,
        Some(method) => {
            let c = classification(method, req.path());
            Some(
                PartsView {
                    principal: principal_for(req),
                    identified: is_identified(req),
                    request_id,
                    method,
                    protocol: protocol_for(req),
                    endpoint: c.endpoint,
                    logical_index: c.logical_index,
                    doc_id: c.doc_id,
                    query: req.query(),
                    path: req.path(),
                    headers: req.headers,
                    body: req.body,
                },
            )
        },
    }
}

impl RequestParts {
    /// Extracts the parts from a request. `request_id` is the proxy's own id for
    /// it, so that it survives the whole hop.
    ///
    /// # Errors
    /// [`AdaptError::UnsupportedMethod`] if the method is not GET/PUT/POST/DELETE/HEAD.
    pub fn from_filter(req: &FilterRequest, request_id: &str) -> (r: Result<Self, AdaptError>)
        ensures
            match r {
                Ok(parts) => parts_of(req@, request_id@) == Some(parts@),
                Err(AdaptError::UnsupportedMethod(method)) => {
                    &&& parts_of(req@, request_id@) is None
                    &&& method@ == req@.method
                },
            },
    {
        let method = match parse_method(req.method.as_str()) {
            Ok(method) => method,
            Err(err) => return Err(err),
        };
        let c = classify(method, req.path());
        let query = match req.query() {
            Some(query) => Some(query.to_owned()),
            None => None,
        };
        Ok(
            RequestParts {
                principal: principal_of(req).to_owned(),
                identified: req.identity.presented && !req.identity.stable_id().is_empty(),
                request_id: request_id.to_owned(),
                method,
                protocol: protocol_of(req),
                endpoint: c.endpoint,
                logical_index: c.logical_index,
                doc_id: c.doc_id,
                query,
                path: req.path().to_owned(),
                headers: copy_headers(req.headers.as_slice()),
                body: slice_to_vec(req.body.as_slice()),
            },
        )
    }

    /// The read-only context that routing works on; it borrows the parts.
    #[must_use]
    pub fn ctx(&self) -> (ctx: RequestCtx<'_>)
        ensures
            ctx@ == self@,
    {
        RequestCtx { parts: self }
    }

    /// The classified endpoint, so that a filter can decide whether it needs the
    /// body at all.
    #[must_use]
    pub fn endpoint(&self) -> (kind: EndpointKind)
        ensures
            kind == self@.endpoint,
    {
        self.endpoint
    }
}

/// A read-only view of one request.
#[derive(Debug, Clone, Copy)]
pub struct RequestCtx<'a> {
    parts: &'a RequestParts,
}

impl<'a> View for RequestCtx<'a> {
    type V = PartsView;

    closed spec fn view(&self) -> PartsView {
        self.parts@
    }
}

impl<'a> RequestCtx<'a> {
    /// The principal id.
    #[must_use]
    pub fn principal_id(&self) -> (r: &'a str)
        ensures
            r@ == self@.principal,
    {
        self.parts.principal.as_str()
    }

    /// The principal of the validated identity; nobody where there is none, whatever
    /// the anonymous principal is called.
    #[must_use]
    pub fn identity(&self) -> (r: Option<&'a str>)
        ensures
            text::viewed(r) == self@.identity(),
    {
        if self.parts.identified {
            Some(self.parts.principal.as_str())
        } else {
            None
        }
    }

    /// The request id.
    #[must_use]
    pub fn request_id(&self) -> (r: &'a str)
        ensures
            r@ == self@.request_id,
    {
        self.parts.request_id.as_str()
    }

    /// The method.
    #[must_use]
    pub fn method(&self) -> (r: HttpMethod)
        ensures
            r == self@.method,
    {
        self.parts.method
    }

    /// The endpoint class.
    #[must_use]
    pub fn endpoint(&self) -> (r: EndpointKind)
        ensures
            r == self@.endpoint,
    {
        self.parts.endpoint
    }

    /// The protocol.
    #[must_use]
    pub fn protocol(&self) -> (r: Protocol)
        ensures
            r == self@.protocol,
    {
        self.parts.protocol
    }

    /// The logical index.
    #[must_use]
    pub fn logical_index(&self) -> (r: &'a str)
        ensures
            r@ == self@.logical_index,
    {
        self.parts.logical_index.as_str()
    }

    /// The document id the client addressed, if any.
    #[must_use]
    pub fn doc_id(&self) -> (r: Option<&'a str>)
        ensures
            text::viewed(r) == self@.doc_id,
    {
        match &self.parts.doc_id {
            Some(id) => Some(id.as_str()),
            None => None,
        }
    }

    /// The raw query, if any.
    #[must_use]
    pub fn query(&self) -> (r: Option<&'a str>)
        ensures
            text::viewed(r) == self@.query,
    {
        match &self.parts.query {
            Some(query) => Some(query.as_str()),
            None => None,
        }
    }

    /// The path without the query.
    #[must_use]
    pub fn path(&self) -> (r: &'a str)
        ensures
            r@ == self@.path,
    {
        self.parts.path.as_str()
    }

    /// All headers, in presentation order.
    #[must_use]
    pub fn headers(&self) -> (r: &'a [(String, String)])
        ensures
            header_views(r@) == self@.headers,
    {
        self.parts.headers.as_slice()
    }

    /// The first header called `name`, whatever its case.
    #[must_use]
    pub fn header(&self, name: &str) -> (r: Option<&'a str>)
        ensures
            text::viewed(r) == header_value(self@.headers, name@),
    {
        find_header(self.parts.headers.as_slice(), name)
    }

    /// The body.
    #[must_use]
    pub fn body(&self) -> (r: &'a [u8])
        ensures
            r@ == self@.body,
    {
        self.parts.body.as_slice()
    }
}

/// Maps a method string to an [`HttpMethod`].
fn parse_method(method: &str) -> (r: Result<HttpMethod, AdaptError>)
    ensures
        match r {
            Ok(m) => method_of(method@) == Some(m),
            Err(AdaptError::UnsupportedMethod(other)) => method_of(method@) is None && other@
                == method@,
        },
{
    if text::same(method, "GET") {
        Ok(HttpMethod::Get)
    } else if text::same(method, "PUT") {
        Ok(HttpMethod::Put)
    } else if text::same(method, "POST") {
        Ok(HttpMethod::Post)
    } else if text::same(method, "DELETE") {
        Ok(HttpMethod::Delete)
    } else if text::same(method, "HEAD") {
        Ok(HttpMethod::Head)
    } else {
        Err(AdaptError::UnsupportedMethod(method.to_owned()))
    }
}

/// gRPC when the content type says so, else the negotiated HTTP version.
fn protocol_of(req: &FilterRequest) -> (r: Protocol)
    ensures
        r == protocol_for(req@),
{
    if req.is_grpc() {
        Protocol::Grpc
    } else {
        match req.version {
            HttpVersion::Http11 => Protocol::Http1,
            HttpVersion::Http2 => Protocol::Http2,
        }
    }
}

/// The principal comes from the validated identity: first URI name, else subject,
/// else anonymous.
fn principal_of(req: &FilterRequest) -> (r: &str)
    ensures
        r@ == principal_for(req@),
{
    let id = req.identity.stable_id();
    if req.identity.presented && !id.is_empty() {
        id
    } else {
        ANONYMOUS
    }
}

/// What a request is adapted to. The five methods are taken by their names, and any other
/// is not handled. The principal is the validated identity or else the anonymous one; the
/// protocol is gRPC where the content type says so, and else that of the connection; and
/// everything else is what the request holds.
pub proof fn requests_are_adapted_as_they_are(req: RequestView, request_id: Seq<char>)
    ensures
        match parts_of(req, request_id) {
            Some(parts) => {
                &&& req.method == match parts.method {
                    HttpMethod::Get => "GET"@,
                    HttpMethod::Put => "PUT"@,
                    HttpMethod::Post => "POST"@,
                    HttpMethod::Delete => "DELETE"@,
                    HttpMethod::Head => "HEAD"@,
                }
                &&& parts.request_id == request_id
                &&& parts.headers == req.headers
                &&& parts.body == req.body
                &&& parts.path == req.path()
                &&& parts.query == req.query()
                &&& parts.logical_index == classification(parts.method, req.path()).logical_index
                &&& parts.endpoint == classification(parts.method, req.path()).endpoint
                &&& parts.doc_id == classification(parts.method, req.path()).doc_id
                &&& parts.identified == (req.identity.presented && req.identity.stable_id().len()
                    > 0)
                &&& parts.principal == if parts.identified {
                    req.identity.stable_id()
                } else {
                    "anonymous"@
                }
                &&& parts.identity() == if parts.identified {
                    Some(req.identity.stable_id())
                } else {
                    None
                }
                &&& parts.protocol == if req.is_grpc() {
                    Protocol::Grpc
                } else if req.version is Http2 {
                    Protocol::Http2
                } else {
                    Protocol::Http1
                }
            },
            None => {
                &&& req.method != "GET"@
                &&& req.method != "PUT"@
                &&& req.method != "POST"@
                &&& req.method != "DELETE"@
                &&& req.method != "HEAD"@
            },
        },
{
}

} // verus!
