//! What crosses the boundary between the proxy and the extension: the decoded
//! request, the validated downstream identity, and an immediate reply.
//!
//! The proxy owns the wire (TLS, codecs, connection pools), so these are plain
//! owned values with nothing of a transport in them.
use vstd::prelude::*;
use vstd::slice::slice_to_vec;
use crate::text;
use crate::text::string_views;

verus! {

/// A header name and its value.
pub type HeaderView = (Seq<char>, Seq<char>);

/// The HTTP version negotiated with the downstream client.
#[derive(Debug, Clone, Copy, PartialEq, Eq, Structural)]
pub enum HttpVersion {
    /// HTTP/1.1.
    Http11,
    /// HTTP/2.
    Http2,
}

/// A downstream identity that the proxy validated during mutual TLS.
#[derive(Debug, Clone, PartialEq, Eq)]
pub struct MtlsIdentity {
    /// Whether a client certificate was presented and validated at all.
    pub presented: bool,
    /// The certificate's subject distinguished name, if any.
    pub subject: String,
    /// URI subject alternative names, in presentation order.
    pub uri_sans: Vec<String>,
}

/// The view of an [`MtlsIdentity`].
#[verifier::ext_equal]
pub struct IdentityView {
    /// Whether a certificate was presented.
    pub presented: bool,
    /// The subject distinguished name.
    pub subject: Seq<char>,
    /// The URI subject alternative names.
    pub uri_sans: Seq<Seq<char>>,
}

/// The identity of a client that presented no certificate.
pub open spec fn no_identity() -> IdentityView {
    IdentityView { presented: false, subject: seq![], uri_sans: seq![] }
}

impl View for MtlsIdentity {
    type V = IdentityView;

    open spec fn view(&self) -> IdentityView {
        IdentityView {
            presented: self.presented,
            subject: self.subject@,
            uri_sans: string_views(self.uri_sans@),
        }
    }
}

impl IdentityView {
    /// The principal that tenancy is keyed on: the first URI name, else the
    /// subject; empty when no certificate was presented.
    pub open spec fn stable_id(self) -> Seq<char> {
        if !self.presented {
            seq![]
        } else if self.uri_sans.len() > 0 {
            self.uri_sans[0]
        } else {
            self.subject
        }
    }
}

impl Default for MtlsIdentity {
    fn default() -> (r: Self)
        ensures
            r@ == no_identity(),
    {
        MtlsIdentity { presented: false, subject: String::new(), uri_sans: Vec::new() }
    }
}

impl MtlsIdentity {
    /// The stable principal string to key tenancy on: the first URI name if
    /// present, else the subject. Empty when no certificate was presented.
    #[must_use]
    pub fn stable_id(&self) -> (id: &str)
        ensures
            id@ == self@.stable_id(),
    {
        if !self.presented {
            proof {
                reveal_strlit("");
            }
            ""
        } else if self.uri_sans.len() > 0 {
            self.uri_sans[0].as_str()
        } else {
            self.subject.as_str()
        }
    }

    /// A copy of the identity.
    #[must_use]
    pub fn copy(&self) -> (r: Self)
        ensures
            r@ == self@,
    {
        MtlsIdentity {
            presented: self.presented,
            subject: self.subject.clone(),
            uri_sans: text::copy_strings(&self.uri_sans),
        }
    }
}

/// The views of a list of headers.
pub open spec fn header_views(headers: Seq<(String, String)>) -> Seq<HeaderView> {
    Seq::new(headers.len(), |i: int| (headers[i].0@, headers[i].1@))
}

/// The value of the first header called `name`, whatever the case of either.
pub open spec fn header_value(headers: Seq<HeaderView>, name: Seq<char>) -> Option<Seq<char>>
    decreases headers.len(),
{
    if headers.len() == 0 {
        None
    } else if text::lower(headers[0].0) == text::lower(name) {
        Some(headers[0].1)
    } else {
        header_value(headers.drop_first(), name)
    }
}

/// A header lookup sees names only up to the case of their ASCII letters.
pub proof fn header_lookup_ignores_case(
    headers: Seq<HeaderView>,
    one: Seq<char>,
    other: Seq<char>,
)
    requires
        text::lower(one) == text::lower(other),
    ensures
        header_value(headers, one) == header_value(headers, other),
    decreases headers.len(),
{
    if headers.len() > 0 {
        header_lookup_ignores_case(headers.drop_first(), one, other);
    }
}

/// Looks up the first header called `name` in `headers`, whatever its case.
pub fn find_header<'a>(headers: &'a [(String, String)], name: &str) -> (r: Option<&'a str>)
    ensures
        text::viewed(r) == header_value(header_views(headers@), name@),
{
    let ghost all = header_views(headers@);
    let mut i: usize = 0;
    assert(all.skip(0) =~= all);
    while i < headers.len()
        invariant
            i <= headers@.len(),
            all == header_views(headers@),
            header_value(all, name@) == header_value(all.skip(i as int), name@),
        decreases headers@.len() - i,
    {
        assert(all.skip(i as int)[0] == all[i as int]);
        if text::same_ignoring_case(headers[i].0.as_str(), name) {
            return Some(headers[i].1.as_str());
        }
        assert(all.skip(i as int).drop_first() =~= all.skip(i + 1));
        i += 1;
    }
    None
}

/// The headers that are not called `name`, whatever the case of either, in order.
pub open spec fn without_header(headers: Seq<HeaderView>, name: Seq<char>) -> Seq<HeaderView>
    decreases headers.len(),
{
    if headers.len() == 0 {
        seq![]
    } else if text::lower(headers.last().0) == text::lower(name) {
        without_header(headers.drop_last(), name)
    } else {
        without_header(headers.drop_last(), name).push(headers.last())
    }
}

/// A header that is put behind all others, with those of its name taken out, is the one
/// that a lookup finds.
pub proof fn replaced_headers_are_found(
    headers: Seq<HeaderView>,
    name: Seq<char>,
    value: Seq<char>,
)
    ensures
        header_value(without_header(headers, name).push((name, value)), name) == Some(value),
        forall|other: Seq<char>|
            text::lower(other) != text::lower(name) ==> #[trigger] header_value(
                without_header(headers, name).push((name, value)),
                other,
            ) == header_value(headers, other),
{
    lemma_without(headers, name);
    lemma_value_behind(without_header(headers, name), (name, value), name);
    assert forall|other: Seq<char>| text::lower(other) != text::lower(name) implies #[trigger]
        header_value(without_header(headers, name).push((name, value)), other) == header_value(
            headers,
            other,
        ) by {
        lemma_value_behind(without_header(headers, name), (name, value), other);
        lemma_without_keeps(headers, name, other);
    }
}

/// A lookup in headers with one more behind them.
proof fn lemma_value_behind(headers: Seq<HeaderView>, last: HeaderView, name: Seq<char>)
    ensures
        header_value(headers.push(last), name) == match header_value(headers, name) {
            Some(value) => Some(value),
            None => if text::lower(last.0) == text::lower(name) {
                Some(last.1)
            } else {
                None
            },
        },
    decreases headers.len(),
{
    let all = headers.push(last);
    if headers.len() > 0 {
        assert(all.drop_first() =~= headers.drop_first().push(last));
        lemma_value_behind(headers.drop_first(), last, name);
    } else {
        assert(all.drop_first() =~= Seq::<HeaderView>::empty());
        assert(header_value(all.drop_first(), name) is None);
    }
}

proof fn lemma_without(headers: Seq<HeaderView>, name: Seq<char>)
    ensures
        header_value(without_header(headers, name), name) is None,
    decreases headers.len(),
{
    if headers.len() > 0 {
        lemma_without(headers.drop_last(), name);
        if text::lower(headers.last().0) != text::lower(name) {
            lemma_value_behind(
                without_header(headers.drop_last(), name),
                headers.last(),
                name,
            );
        }
    }
}

proof fn lemma_without_keeps(headers: Seq<HeaderView>, name: Seq<char>, other: Seq<char>)
    requires
        text::lower(other) != text::lower(name),
    ensures
        header_value(without_header(headers, name), other) == header_value(headers, other),
    decreases headers.len(),
{
    if headers.len() > 0 {
        let front = headers.drop_last();
        lemma_without_keeps(front, name, other);
        lemma_value_behind(front, headers.last(), other);
        assert(front.push(headers.last()) =~= headers);
        lemma_value_behind(without_header(front, name), headers.last(), other);
    }
}

/// The headers without those called `name`, and with one of that name behind them.
pub fn replace_header(headers: &[(String, String)], name: &str, value: String) -> (out: Vec<
    (String, String),
>)
    ensures
        header_views(out@) == without_header(header_views(headers@), name@).push((name@, value@)),
{
    let ghost all = header_views(headers@);
    let mut out: Vec<(String, String)> = Vec::new();
    let mut i: usize = 0;
    assert(all.take(0) =~= Seq::<HeaderView>::empty());
    assert(header_views(out@) =~= without_header(all.take(0), name@));
    while i < headers.len()
        invariant
            i <= headers@.len(),
            all == header_views(headers@),
            header_views(out@) == without_header(all.take(i as int), name@),
        decreases headers@.len() - i,
    {
        assert(all.take(i + 1).drop_last() =~= all.take(i as int));
        assert(all.take(i + 1).last() == all[i as int]);
        if !text::same_ignoring_case(headers[i].0.as_str(), name) {
            let ghost seen = out@;
            out.push((headers[i].0.clone(), headers[i].1.clone()));
            assert(header_views(out@) =~= header_views(seen).push(all[i as int]));
        }
        i += 1;
    }
    assert(all.take(i as int) =~= all);
    let ghost kept = out@;
    out.push((name.to_owned(), value));
    assert(header_views(out@) =~= header_views(kept).push((name@, value@)));
    out
}

/// A copy of a list of headers.
pub fn copy_headers(headers: &[(String, String)]) -> (out: Vec<(String, String)>)
    ensures
        header_views(out@) == header_views(headers@),
{
    let mut out: Vec<(String, String)> = Vec::new();
    let mut i: usize = 0;
    while i < headers.len()
        invariant
            i <= headers@.len(),
            out@.len() == i,
            forall|k: int|
                0 <= k < i ==> (#[trigger] out@[k]).0@ == headers@[k].0@ && out@[k].1@
                    == headers@[k].1@,
        decreases headers@.len() - i,
    {
        out.push((headers[i].0.clone(), headers[i].1.clone()));
        i += 1;
    }
    assert(header_views(out@) =~= header_views(headers@));
    out
}

/// The decoded request a filter processes.
#[derive(Debug, Clone)]
pub struct FilterRequest {
    /// The HTTP method verbatim.
    pub method: String,
    /// The request target: path plus optional `?query`.
    pub path_and_query: String,
    /// The `:authority` / `Host` value.
    pub authority: String,
    /// The negotiated HTTP version.
    pub version: HttpVersion,
    /// Request headers in presentation order.
    pub headers: Vec<(String, String)>,
    /// The request body.
    pub body: Vec<u8>,
    /// The validated downstream identity, if mutual TLS was in play.
    pub identity: MtlsIdentity,
}

/// The view of a [`FilterRequest`].
#[verifier::ext_equal]
pub struct RequestView {
    /// The method.
    pub method: Seq<char>,
    /// Path plus optional query.
    pub path_and_query: Seq<char>,
    /// The authority.
    pub authority: Seq<char>,
    /// The HTTP version.
    pub version: HttpVersion,
    /// The headers.
    pub headers: Seq<HeaderView>,
    /// The body.
    pub body: Seq<u8>,
    /// The downstream identity.
    pub identity: IdentityView,
}

impl View for FilterRequest {
    type V = RequestView;

    open spec fn view(&self) -> RequestView {
        RequestView {
            method: self.method@,
            path_and_query: self.path_and_query@,
            authority: self.authority@,
            version: self.version,
            headers: header_views(self.headers@),
            body: self.body@,
            identity: self.identity@,
        }
    }
}

impl RequestView {
    /// The target up to its first `?`.
    pub open spec fn path(self) -> Seq<char> {
        text::before(self.path_and_query, '?')
    }

    /// What follows the first `?` of the target, if there is one.
    pub open spec fn query(self) -> Option<Seq<char>> {
        match text::cut(self.path_and_query, '?') {
            Some((_, query)) => Some(query),
            None => None,
        }
    }

    /// The value of the first header called `name`.
    pub open spec fn header(self, name: Seq<char>) -> Option<Seq<char>> {
        header_value(self.headers, name)
    }

    /// Whether the content type marks a gRPC call.
    pub open spec fn is_grpc(self) -> bool {
        match self.header("content-type"@) {
            Some(value) => "application/grpc"@.is_prefix_of(value),
            None => false,
        }
    }
}

impl FilterRequest {
    /// The path component, with any `?query` stripped.
    #[must_use]
    pub fn path(&self) -> (path: &str)
        ensures
            path@ == self@.path(),
    {
        proof {
            text::lemma_find(self.path_and_query@, '?');
        }
        match text::split_once(self.path_and_query.as_str(), '?') {
            Some((path, _)) => path,
            None => {
                assert(self@.path() =~= self.path_and_query@);
                self.path_and_query.as_str()
            },
        }
    }

    /// The raw query string, without the leading `?`, if present.
    #[must_use]
    pub fn query(&self) -> (query: Option<&str>)
        ensures
            text::viewed(query) == self@.query(),
    {
        match text::split_once(self.path_and_query.as_str(), '?') {
            Some((_, query)) => Some(query),
            None => None,
        }
    }

    /// A header value by case-insensitive name (first match).
    #[must_use]
    pub fn header(&self, name: &str) -> (value: Option<&str>)
        ensures
            text::viewed(value) == self@.header(name@),
    {
        find_header(self.headers.as_slice(), name)
    }

    /// Whether this looks like a gRPC call.
    #[must_use]
    pub fn is_grpc(&self) -> (r: bool)
        ensures
            r == self@.is_grpc(),
    {
        match self.header("content-type") {
            Some(value) => text::starts_with(value, "application/grpc"),
            None => false,
        }
    }

    /// A copy of the request.
    #[must_use]
    pub fn copy(&self) -> (r: Self)
        ensures
            r@ == self@,
    {
        FilterRequest {
            method: self.method.clone(),
            path_and_query: self.path_and_query.clone(),
            authority: self.authority.clone(),
            version: self.version,
            headers: copy_headers(self.headers.as_slice()),
            body: slice_to_vec(self.body.as_slice()),
            identity: self.identity.copy(),
        }
    }
}

/// The target of a request is its path, or its path, a `?` and its query.
pub proof fn target_is_path_and_query(req: RequestView)
    ensures
        match req.query() {
            Some(query) => req.path_and_query == req.path() + seq!['?'] + query,
            None => req.path_and_query == req.path(),
        },
        !req.path().contains('?'),
{
    let target = req.path_and_query;
    text::lemma_find(target, '?');
    let at = text::find(target, '?');
    if at < target.len() {
        assert(target =~= target.take(at) + seq!['?'] + target.skip(at + 1));
    } else {
        assert(target =~= target.take(at));
    }
}

/// An immediate response a filter returns instead of forwarding upstream.
#[derive(Debug, Clone)]
pub struct FilterResponse {
    /// The HTTP status code.
    pub status: u16,
    /// Response headers in presentation order.
    pub headers: Vec<(String, String)>,
    /// The response body.
    pub body: Vec<u8>,
}

/// The view of a [`FilterResponse`].
#[verifier::ext_equal]
pub struct ResponseView {
    /// The status code.
    pub status: u16,
    /// The headers.
    pub headers: Seq<HeaderView>,
    /// The body.
    pub body: Seq<u8>,
}

impl View for FilterResponse {
    type V = ResponseView;

    open spec fn view(&self) -> ResponseView {
        ResponseView {
            status: self.status,
            headers: header_views(self.headers@),
            body: self.body@,
        }
    }
}

/// A response with one content-type header.
pub open spec fn typed_response(
    status: u16,
    content_type: Seq<char>,
    body: Seq<u8>,
) -> ResponseView {
    ResponseView { status, headers: seq![("content-type"@, content_type)], body }
}

/// A JSON response.
pub open spec fn json_response(status: u16, body: Seq<u8>) -> ResponseView {
    typed_response(status, "application/json"@, body)
}

impl FilterResponse {
    /// A response with the given status, content type and body.
    #[must_use]
    pub fn typed(status: u16, content_type: &str, body: Vec<u8>) -> (r: Self)
        ensures
            r@ == typed_response(status, content_type@, body@),
    {
        let headers: Vec<(String, String)> = vec![
            ("content-type".to_owned(), content_type.to_owned()),
        ];
        let r = FilterResponse { status, headers, body };
        assert(r@.headers =~= seq![("content-type"@, content_type@)]);
        r
    }

    /// A JSON response with the given status and body.
    #[must_use]
    pub fn json(status: u16, body: Vec<u8>) -> (r: Self)
        ensures
            r@ == json_response(status, body@),
    {
        FilterResponse::typed(status, "application/json", body)
    }
}

/// A lookup finds the first header of the name, whatever the case of either, and nothing
/// where there is none.
pub proof fn lookups_find_the_first_header(headers: Seq<HeaderView>, name: Seq<char>)
    ensures
        match header_value(headers, name) {
            Some(value) => exists|i: int|
                {
                    &&& 0 <= i < headers.len()
                    &&& text::lower((#[trigger] headers[i]).0) == text::lower(name)
                    &&& headers[i].1 == value
                    &&& forall|k: int|
                        0 <= k < i ==> text::lower((#[trigger] headers[k]).0) != text::lower(name)
                },
            None => forall|k: int|
                0 <= k < headers.len() ==> text::lower((#[trigger] headers[k]).0) != text::lower(
                    name,
                ),
        },
    decreases headers.len(),
{
    if headers.len() > 0 {
        let rest = headers.drop_first();
        if text::lower(headers[0].0) == text::lower(name) {
            assert(headers[0].1 == header_value(headers, name)->0);
        } else {
            lookups_find_the_first_header(rest, name);
            match header_value(headers, name) {
                Some(value) => {
                    let i = choose|i: int|
                        {
                            &&& 0 <= i < rest.len()
                            &&& text::lower((#[trigger] rest[i]).0) == text::lower(name)
                            &&& rest[i].1 == value
                            &&& forall|k: int|
                                0 <= k < i ==> text::lower((#[trigger] rest[k]).0) != text::lower(
                                    name,
                                )
                        };
                    assert(headers[i + 1] == rest[i]);
                    assert forall|k: int| 0 <= k < i + 1 implies text::lower(
                        (#[trigger] headers[k]).0,
                    ) != text::lower(name) by {
                        if k > 0 {
                            assert(headers[k] == rest[k - 1]);
                        }
                    }
                },
                None => {
                    assert forall|k: int| 0 <= k < headers.len() implies text::lower(
                        (#[trigger] headers[k]).0,
                    ) != text::lower(name) by {
                        if k > 0 {
                            assert(headers[k] == rest[k - 1]);
                        }
                    }
                },
            }
        }
    }
}

/// An identity goes by its first URI, else by its subject, and by nothing where no
/// certificate was presented.
pub proof fn identities_go_by_uri_then_subject(id: IdentityView)
    ensures
        !id.presented ==> id.stable_id().len() == 0,
        id.presented && id.uri_sans.len() > 0 ==> id.stable_id() == id.uri_sans[0],
        id.presented && id.uri_sans.len() == 0 ==> id.stable_id() == id.subject,
{
}

/// A call is gRPC exactly where its content type begins like that of gRPC.
pub proof fn grpc_is_told_by_the_content_type(req: RequestView)
    ensures
        req.is_grpc() <==> header_value(req.headers, "content-type"@) is Some
            && "application/grpc"@.is_prefix_of(
            header_value(req.headers, "content-type"@)->0,
        ),
{
}

/// A response that the filter makes has one header, its content type, which is that of
/// JSON where it is a JSON response.
pub proof fn responses_have_one_content_type(
    status: u16,
    content_type: Seq<char>,
    body: Seq<u8>,
)
    ensures
        typed_response(status, content_type, body) == (ResponseView {
            status,
            headers: seq![("content-type"@, content_type)],
            body,
        }),
        json_response(status, body) == (ResponseView {
            status,
            headers: seq![("content-type"@, "application/json"@)],
            body,
        }),
{
}

} // verus!
