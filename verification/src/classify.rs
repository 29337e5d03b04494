//! From a method and a path to an endpoint.
//!
//! The proxy hands over a raw path. Here it is classed into an [`EndpointKind`],
//! and the logical index and the document id are taken out of it.
use vstd::prelude::*;
use crate::text;
use crate::text::fields;
use crate::text::views;

verus! {

/// The methods the proxy handles.
#[derive(Debug, Clone, Copy, PartialEq, Eq, Structural)]
pub enum HttpMethod {
    /// `GET`.
    Get,
    /// `PUT`.
    Put,
    /// `POST`.
    Post,
    /// `DELETE`.
    Delete,
    /// `HEAD`.
    Head,
}

/// The endpoint class that selects how a request is rewritten.
#[derive(Debug, Clone, Copy, PartialEq, Eq, Structural)]
pub enum EndpointKind {
    /// A single-document write.
    IngestDoc,
    /// A `_bulk` write.
    IngestBulk,
    /// A `_search`.
    Search,
    /// An `_msearch`.
    MultiSearch,
    /// A `_count`.
    Count,
    /// A read by document id.
    GetById,
    /// An `_mget`.
    MultiGet,
    /// A delete by document id.
    DeleteById,
    /// A `_delete_by_query`.
    DeleteByQuery,
    /// A scroll or point-in-time cursor.
    Cursor,
    /// A cluster administration endpoint.
    Admin,
    /// Anything else.
    Unknown,
}

impl EndpointKind {
    /// The stable name of the endpoint.
    pub open spec fn name(self) -> Seq<char> {
        match self {
            EndpointKind::IngestDoc => "IngestDoc"@,
            EndpointKind::IngestBulk => "IngestBulk"@,
            EndpointKind::Search => "Search"@,
            EndpointKind::MultiSearch => "MultiSearch"@,
            EndpointKind::Count => "Count"@,
            EndpointKind::GetById => "GetById"@,
            EndpointKind::MultiGet => "MultiGet"@,
            EndpointKind::DeleteById => "DeleteById"@,
            EndpointKind::DeleteByQuery => "DeleteByQuery"@,
            EndpointKind::Cursor => "Cursor"@,
            EndpointKind::Admin => "Admin"@,
            EndpointKind::Unknown => "Unknown"@,
        }
    }

    /// Whether the endpoint changes documents that a placement holds.
    pub open spec fn writes(self) -> bool {
        self is IngestDoc || self is IngestBulk || self is DeleteById
    }

    /// The stable name of the endpoint.
    #[must_use]
    pub fn as_str(self) -> (name: &'static str)
        ensures
            name@ == self.name(),
    {
        match self {
            EndpointKind::IngestDoc => "IngestDoc",
            EndpointKind::IngestBulk => "IngestBulk",
            EndpointKind::Search => "Search",
            EndpointKind::MultiSearch => "MultiSearch",
            EndpointKind::Count => "Count",
            EndpointKind::GetById => "GetById",
            EndpointKind::MultiGet => "MultiGet",
            EndpointKind::DeleteById => "DeleteById",
            EndpointKind::DeleteByQuery => "DeleteByQuery",
            EndpointKind::Cursor => "Cursor",
            EndpointKind::Admin => "Admin",
            EndpointKind::Unknown => "Unknown",
        }
    }

    /// Whether the endpoint is a write that a migration may hold back.
    #[must_use]
    pub fn is_write(self) -> (r: bool)
        ensures
            r == self.writes(),
    {
        match self {
            EndpointKind::IngestDoc | EndpointKind::IngestBulk | EndpointKind::DeleteById => true,
            _ => false,
        }
    }
}

/// The routing-relevant facets parsed out of the request line.
#[derive(Debug, Clone, PartialEq, Eq)]
pub struct Classified {
    /// The logical index the client addressed, empty for cluster-level endpoints.
    pub logical_index: String,
    /// The endpoint class.
    pub endpoint: EndpointKind,
    /// The client-supplied document id, for by-id endpoints.
    pub doc_id: Option<String>,
}

/// The view of a [`Classified`].
#[verifier::ext_equal]
pub struct ClassifiedView {
    /// The logical index.
    pub logical_index: Seq<char>,
    /// The endpoint class.
    pub endpoint: EndpointKind,
    /// The document id.
    pub doc_id: Option<Seq<char>>,
}

impl View for Classified {
    type V = ClassifiedView;

    open spec fn view(&self) -> ClassifiedView {
        ClassifiedView {
            logical_index: self.logical_index@,
            endpoint: self.endpoint,
            doc_id: text::optional(self.doc_id),
        }
    }
}

/// The entries of `parts` that are not empty, in order.
pub open spec fn nonempty(parts: Seq<Seq<char>>) -> Seq<Seq<char>>
    decreases parts.len(),
{
    if parts.len() == 0 {
        seq![]
    } else if parts.last().len() > 0 {
        nonempty(parts.drop_last()).push(parts.last())
    } else {
        nonempty(parts.drop_last())
    }
}

/// The segments of a path: what stands between its slashes, if anything.
pub open spec fn segments(path: Seq<char>) -> Seq<Seq<char>> {
    nonempty(fields(path, '/'))
}

/// A classification without a document id.
pub open spec fn located(index: Seq<char>, endpoint: EndpointKind) -> ClassifiedView {
    ClassifiedView { logical_index: index, endpoint, doc_id: None }
}

/// The first segment of an administration path.
pub open spec fn is_admin_segment(seg: Seq<char>) -> bool {
    ||| seg == "_cat"@
    ||| seg == "_cluster"@
    ||| seg == "_nodes"@
    ||| seg == "_aliases"@
    ||| seg == "_tasks"@
    ||| seg == "_snapshot"@
}

/// The endpoint of `_doc`, `_create` and `_update`: only `_doc` depends on the
/// method.
pub open spec fn doc_endpoint_of(method: HttpMethod, verb: Seq<char>) -> EndpointKind {
    if verb == "_doc"@ && (method is Get || method is Head) {
        EndpointKind::GetById
    } else if verb == "_doc"@ && method is Delete {
        EndpointKind::DeleteById
    } else {
        EndpointKind::IngestDoc
    }
}

/// The endpoint that a verb names under an index, where it takes no document id.
pub open spec fn verb_endpoint(verb: Seq<char>) -> EndpointKind {
    if verb == "_bulk"@ {
        EndpointKind::IngestBulk
    } else if verb == "_search"@ {
        EndpointKind::Search
    } else if verb == "_count"@ {
        EndpointKind::Count
    } else if verb == "_mget"@ {
        EndpointKind::MultiGet
    } else if verb == "_msearch"@ {
        EndpointKind::MultiSearch
    } else if verb == "_delete_by_query"@ {
        EndpointKind::DeleteByQuery
    } else if verb == "_pit"@ {
        EndpointKind::Cursor
    } else {
        EndpointKind::Unknown
    }
}

/// The classification of `/{index}/{verb}` and of `/{index}/{verb}/{next}..`.
pub open spec fn classify_in_index(
    method: HttpMethod,
    index: Seq<char>,
    verb: Seq<char>,
    next: Option<Seq<char>>,
) -> ClassifiedView {
    if verb == "_doc"@ || verb == "_create"@ || verb == "_update"@ {
        ClassifiedView {
            logical_index: index,
            endpoint: doc_endpoint_of(method, verb),
            doc_id: next,
        }
    } else {
        located(index, verb_endpoint(verb))
    }
}

/// The endpoint that one segment names on the cluster itself.
pub open spec fn cluster_endpoint(seg: Seq<char>) -> Option<EndpointKind> {
    if seg == "_bulk"@ {
        Some(EndpointKind::IngestBulk)
    } else if seg == "_mget"@ {
        Some(EndpointKind::MultiGet)
    } else if seg == "_msearch"@ {
        Some(EndpointKind::MultiSearch)
    } else if seg == "_search"@ {
        Some(EndpointKind::Search)
    } else if seg == "_count"@ {
        Some(EndpointKind::Count)
    } else {
        None
    }
}

/// The classification of a list of segments.
pub open spec fn classify_segments(method: HttpMethod, s: Seq<Seq<char>>) -> ClassifiedView {
    if s.len() == 0 {
        located(seq![], EndpointKind::Unknown)
    } else if s.len() == 1 && cluster_endpoint(s[0]) is Some {
        located(seq![], cluster_endpoint(s[0])->0)
    } else if s.len() >= 2 && s[0] == "_search"@ && s[1] == "scroll"@ {
        located(seq![], EndpointKind::Cursor)
    } else if is_admin_segment(s[0]) {
        located(seq![], EndpointKind::Admin)
    } else if s.len() >= 2 {
        let next = if s.len() > 2 {
            Some(s[2])
        } else {
            None
        };
        classify_in_index(method, s[0], s[1], next)
    } else {
        located(s[0], EndpointKind::Unknown)
    }
}

/// The classification of a path.
pub open spec fn classification(method: HttpMethod, path: Seq<char>) -> ClassifiedView {
    classify_segments(method, segments(path))
}

fn path_segments<'a>(path: &'a str) -> (out: Vec<&'a str>)
    ensures
        views(out@) == segments(path@),
{
    let all = text::split(path, '/');
    let ghost parts = views(all@);
    let mut out: Vec<&'a str> = Vec::new();
    let mut i: usize = 0;
    assert(parts.take(0) =~= Seq::<Seq<char>>::empty());
    assert(views(out@) =~= nonempty(parts.take(0)));
    while i < all.len()
        invariant
            i <= all@.len(),
            parts == views(all@),
            views(out@) == nonempty(parts.take(i as int)),
        decreases all@.len() - i,
    {
        assert(parts.take(i + 1).drop_last() =~= parts.take(i as int));
        assert(parts.take(i + 1).last() == all@[i as int]@);
        if !all[i].is_empty() {
            let ghost seen = out@;
            out.push(all[i]);
            assert(views(out@) =~= views(seen).push(all@[i as int]@));
        }
        i += 1;
    }
    assert(parts.take(i as int) =~= parts);
    out
}

/// Classifies a request from its method and path. Never fails: a shape that is
/// not recognized is [`EndpointKind::Unknown`].
#[must_use]
pub fn classify(method: HttpMethod, path: &str) -> (c: Classified)
    ensures
        c@ == classification(method, path@),
{
    let segs = path_segments(path);
    let ghost s = views(segs@);
    proof {
        reveal_strlit("");
        assert(""@ =~= Seq::<char>::empty());
        assert(s.len() == segs@.len());
        assert(forall|i: int| 0 <= i < s.len() ==> #[trigger] s[i] == segs@[i]@);
    }
    if segs.len() == 0 {
        return unknown("");
    }
    if segs.len() == 1 {
        if text::same(segs[0], "_bulk") {
            return at("", EndpointKind::IngestBulk, None);
        }
        if text::same(segs[0], "_mget") {
            return at("", EndpointKind::MultiGet, None);
        }
        if text::same(segs[0], "_msearch") {
            return at("", EndpointKind::MultiSearch, None);
        }
        if text::same(segs[0], "_search") {
            return at("", EndpointKind::Search, None);
        }
        if text::same(segs[0], "_count") {
            return at("", EndpointKind::Count, None);
        }
    } else if text::same(segs[0], "_search") && text::same(segs[1], "scroll") {
        return at("", EndpointKind::Cursor, None);
    }
    if is_admin_root(segs[0]) {
        return at("", EndpointKind::Admin, None);
    }
    if segs.len() >= 2 {
        let next = if segs.len() > 2 {
            Some(segs[2])
        } else {
            None
        };
        return index_scoped(method, segs[0], segs[1], next);
    }
    unknown(segs[0])
}

/// Classifies the verb under an index; `next` is the segment behind the verb.
fn index_scoped(
    method: HttpMethod,
    index: &str,
    verb: &str,
    next: Option<&str>,
) -> (c: Classified)
    ensures
        c@ == classify_in_index(method, index@, verb@, text::viewed(next)),
{
    if text::same(verb, "_doc") || text::same(verb, "_create") || text::same(verb, "_update") {
        at(index, doc_endpoint(method, verb), next)
    } else if text::same(verb, "_bulk") {
        at(index, EndpointKind::IngestBulk, None)
    } else if text::same(verb, "_search") {
        at(index, EndpointKind::Search, None)
    } else if text::same(verb, "_count") {
        at(index, EndpointKind::Count, None)
    } else if text::same(verb, "_mget") {
        at(index, EndpointKind::MultiGet, None)
    } else if text::same(verb, "_msearch") {
        at(index, EndpointKind::MultiSearch, None)
    } else if text::same(verb, "_delete_by_query") {
        at(index, EndpointKind::DeleteByQuery, None)
    } else if text::same(verb, "_pit") {
        at(index, EndpointKind::Cursor, None)
    } else {
        unknown(index)
    }
}

/// `_doc` is method-polymorphic; `_create` and `_update` are always ingest.
fn doc_endpoint(method: HttpMethod, verb: &str) -> (kind: EndpointKind)
    ensures
        kind == doc_endpoint_of(method, verb@),
{
    if text::same(verb, "_doc") {
        match method {
            HttpMethod::Get | HttpMethod::Head => EndpointKind::GetById,
            HttpMethod::Delete => EndpointKind::DeleteById,
            _ => EndpointKind::IngestDoc,
        }
    } else {
        EndpointKind::IngestDoc
    }
}

fn is_admin_root(seg: &str) -> (r: bool)
    ensures
        r == is_admin_segment(seg@),
{
    text::same(seg, "_cat") || text::same(seg, "_cluster") || text::same(seg, "_nodes")
        || text::same(seg, "_aliases") || text::same(seg, "_tasks") || text::same(seg, "_snapshot")
}

fn at(index: &str, endpoint: EndpointKind, doc_id: Option<&str>) -> (c: Classified)
    ensures
        c@ == (ClassifiedView {
            logical_index: index@,
            endpoint,
            doc_id: text::viewed(doc_id),
        }),
{
    Classified {
        logical_index: index.to_owned(),
        endpoint,
        doc_id: match doc_id {
            Some(id) => Some(id.to_owned()),
            None => None,
        },
    }
}

fn unknown(index: &str) -> (c: Classified)
    ensures
        c@ == located(index@, EndpointKind::Unknown),
{
    at(index, EndpointKind::Unknown, None)
}

proof fn lemma_nonempty_entries(parts: Seq<Seq<char>>)
    ensures
        forall|i: int|
            0 <= i < nonempty(parts).len() ==> (#[trigger] nonempty(parts)[i]).len() > 0
                && parts.contains(nonempty(parts)[i]),
    decreases parts.len(),
{
    if parts.len() > 0 {
        let front = parts.drop_last();
        lemma_nonempty_entries(front);
        assert forall|i: int| 0 <= i < nonempty(parts).len() implies (#[trigger] nonempty(
            parts,
        )[i]).len() > 0 && parts.contains(nonempty(parts)[i]) by {
            if i < nonempty(front).len() {
                let e = nonempty(front)[i];
                assert(nonempty(parts)[i] == e);
                let k = choose|k: int| 0 <= k < front.len() && front[k] == e;
                assert(parts[k] == e);
            } else {
                assert(parts[parts.len() - 1] == nonempty(parts)[i]);
            }
        }
    }
}

/// What a classification takes from a path is one segment of it: neither the
/// logical index nor the document id holds a slash, and a document id is never
/// empty. Only document endpoints carry one.
pub proof fn addresses_are_single_segments(method: HttpMethod, path: Seq<char>)
    ensures
        !classification(method, path).logical_index.contains('/'),
        match classification(method, path).doc_id {
            Some(id) => {
                &&& id.len() > 0
                &&& !id.contains('/')
                &&& classification(method, path).endpoint is IngestDoc || classification(
                    method,
                    path,
                ).endpoint is GetById || classification(method, path).endpoint is DeleteById
            },
            None => true,
        },
{
    let parts = fields(path, '/');
    text::lemma_fields_free(path, '/');
    lemma_nonempty_entries(parts);
    let s = segments(path);
    assert forall|i: int| 0 <= i < s.len() implies s[i].len() > 0 && !(#[trigger] s[i]).contains(
        '/',
    ) by {
        let e = s[i];
        assert(parts.contains(e));
        let k = choose|k: int| 0 <= k < parts.len() && parts[k] == e;
        assert(!parts[k].contains('/'));
    }
}

/// A document of an index is addressed by `/{index}/_doc/{id}`: `GET` and `HEAD` read
/// it, `DELETE` deletes it, and `PUT` and `POST` store it. Whatever follows the id does
/// not count. No `GET` or `HEAD` of a document is a write.
pub proof fn documents_are_addressed_by_index_and_id(
    method: HttpMethod,
    segs: Seq<Seq<char>>,
)
    requires
        segs.len() >= 2,
        segs[1] == "_doc"@,
        !starts_administration(segs[0]),
        !(segs[0] == "_search"@ && segs[1] == "scroll"@),
    ensures
        classify_segments(method, segs) == (ClassifiedView {
            logical_index: segs[0],
            endpoint: match method {
                HttpMethod::Get => EndpointKind::GetById,
                HttpMethod::Head => EndpointKind::GetById,
                HttpMethod::Delete => EndpointKind::DeleteById,
                HttpMethod::Put => EndpointKind::IngestDoc,
                HttpMethod::Post => EndpointKind::IngestDoc,
            },
            doc_id: if segs.len() > 2 {
                Some(segs[2])
            } else {
                None
            },
        }),
        (method is Get || method is Head) ==> !classify_segments(method, segs).endpoint.writes(),
{
}

/// Whether a path that begins with this segment administers the cluster.
pub open spec fn starts_administration(seg: Seq<char>) -> bool {
    ||| seg == "_cat"@
    ||| seg == "_cluster"@
    ||| seg == "_nodes"@
    ||| seg == "_aliases"@
    ||| seg == "_tasks"@
    ||| seg == "_snapshot"@
}

/// What a path without an index asks of the cluster, whatever the method: the five
/// cluster-level endpoints, a scroll, the administration, or nothing that is known. A
/// lone index is not known either.
pub proof fn cluster_paths_have_no_index(method: HttpMethod, segs: Seq<Seq<char>>)
    ensures
        segs.len() == 0 ==> classify_segments(method, segs) == (ClassifiedView {
            logical_index: seq![],
            endpoint: EndpointKind::Unknown,
            doc_id: None,
        }),
        segs.len() == 1 && segs[0] == "_bulk"@ ==> classify_segments(method, segs) == (
        ClassifiedView {
            logical_index: seq![],
            endpoint: EndpointKind::IngestBulk,
            doc_id: None,
        }),
        segs.len() == 1 && segs[0] == "_mget"@ ==> classify_segments(method, segs) == (
        ClassifiedView {
            logical_index: seq![],
            endpoint: EndpointKind::MultiGet,
            doc_id: None,
        }),
        segs.len() == 1 && segs[0] == "_msearch"@ ==> classify_segments(method, segs) == (
        ClassifiedView {
            logical_index: seq![],
            endpoint: EndpointKind::MultiSearch,
            doc_id: None,
        }),
        segs.len() == 1 && segs[0] == "_search"@ ==> classify_segments(method, segs) == (
        ClassifiedView {
            logical_index: seq![],
            endpoint: EndpointKind::Search,
            doc_id: None,
        }),
        segs.len() == 1 && segs[0] == "_count"@ ==> classify_segments(method, segs) == (
        ClassifiedView {
            logical_index: seq![],
            endpoint: EndpointKind::Count,
            doc_id: None,
        }),
        segs.len() >= 2 && segs[0] == "_search"@ && segs[1] == "scroll"@ ==> classify_segments(
            method,
            segs,
        ) == (ClassifiedView {
            logical_index: seq![],
            endpoint: EndpointKind::Cursor,
            doc_id: None,
        }),
        segs.len() >= 1 && starts_administration(segs[0]) ==> classify_segments(method, segs) == (
        ClassifiedView { logical_index: seq![], endpoint: EndpointKind::Admin, doc_id: None }),
        segs.len() == 1 && segs[0] != "_bulk"@ && segs[0] != "_mget"@ && segs[0] != "_msearch"@
            && segs[0] != "_search"@ && segs[0] != "_count"@ && !starts_administration(segs[0])
            ==> classify_segments(method, segs) == (ClassifiedView {
            logical_index: segs[0],
            endpoint: EndpointKind::Unknown,
            doc_id: None,
        }),
{
    reveal_strlit("_bulk");
    reveal_strlit("_mget");
    reveal_strlit("_msearch");
    reveal_strlit("_search");
    reveal_strlit("_count");
    reveal_strlit("_cat");
    reveal_strlit("_cluster");
    reveal_strlit("_nodes");
    reveal_strlit("_aliases");
    reveal_strlit("_tasks");
    reveal_strlit("_snapshot");
    assert("_bulk"@.len() == 5 && "_mget"@.len() == 5 && "_msearch"@.len() == 8);
    assert("_search"@.len() == 7 && "_count"@.len() == 6 && "_cat"@.len() == 4);
    assert("_cluster"@.len() == 8 && "_nodes"@.len() == 6 && "_aliases"@.len() == 8);
    assert("_tasks"@.len() == 6 && "_snapshot"@.len() == 9);
    assert("_bulk"@[1] == 'b' && "_mget"@[1] == 'm' && "_msearch"@[1] == 'm');
    assert("_cluster"@[1] == 'c' && "_aliases"@[1] == 'a' && "_count"@[1] == 'c');
    assert("_nodes"@[1] == 'n' && "_tasks"@[1] == 't');
}

/// What a path asks of one index, whatever the method: `_create` and `_update` store a
/// document; the verbs that name no document carry no id; and a verb that is not known
/// is an unknown endpoint of that index.
pub proof fn index_paths_name_their_endpoint(method: HttpMethod, segs: Seq<Seq<char>>)
    requires
        segs.len() >= 2,
        !starts_administration(segs[0]),
        !(segs[0] == "_search"@ && segs[1] == "scroll"@),
        segs[1] != "_doc"@,
    ensures
        classify_segments(method, segs).logical_index == segs[0],
        classify_segments(method, segs).endpoint == if segs[1] == "_create"@ || segs[1]
            == "_update"@ {
            EndpointKind::IngestDoc
        } else if segs[1] == "_bulk"@ {
            EndpointKind::IngestBulk
        } else if segs[1] == "_search"@ {
            EndpointKind::Search
        } else if segs[1] == "_count"@ {
            EndpointKind::Count
        } else if segs[1] == "_mget"@ {
            EndpointKind::MultiGet
        } else if segs[1] == "_msearch"@ {
            EndpointKind::MultiSearch
        } else if segs[1] == "_delete_by_query"@ {
            EndpointKind::DeleteByQuery
        } else if segs[1] == "_pit"@ {
            EndpointKind::Cursor
        } else {
            EndpointKind::Unknown
        },
        classify_segments(method, segs).doc_id == if (segs[1] == "_create"@ || segs[1]
            == "_update"@) && segs.len() > 2 {
            Some(segs[2])
        } else {
            None
        },
{
}

/// The path `/{index}/{verb}/{id}` has these three segments, and a path that joins
/// segments by slashes has just those.
pub proof fn paths_are_their_segments(a: Seq<char>, b: Seq<char>)
    requires
        a.len() > 0,
        !a.contains('/'),
    ensures
        segments(seq!['/'] + a) == seq![a],
        segments(a + seq!['/'] + b) == seq![a] + segments(b),
        segments(seq!['/'] + a + seq!['/'] + b) == seq![a] + segments(b),
        segments(Seq::<char>::empty()) == Seq::<Seq<char>>::empty(),
{
    let none = Seq::<char>::empty();
    text::lemma_find(none, '/');
    text::lemma_find(a, '/');
    assert(fields(none, '/') =~= seq![none]);
    assert forall|i: int| 0 <= i < a.len() implies a[i] != '/' by {
        assert(a.contains(a[i]));
    }
    assert(text::find(a, '/') == a.len());
    assert(fields(a, '/') =~= seq![a]);
    reveal_with_fuel(nonempty, 2);
    assert(seq![none].drop_last() =~= Seq::<Seq<char>>::empty());
    assert(seq![a].drop_last() =~= Seq::<Seq<char>>::empty());
    assert(nonempty(seq![none]) =~= Seq::<Seq<char>>::empty());
    assert(nonempty(seq![a]) =~= seq![a]);
    assert(seq!['/'] + a =~= none + seq!['/'] + a);
    lemma_fields_split(none, a, '/');
    lemma_nonempty_concat(fields(none, '/'), fields(a, '/'));
    assert(segments(seq!['/'] + a) =~= seq![a]);
    lemma_fields_split(a, b, '/');
    lemma_nonempty_concat(fields(a, '/'), fields(b, '/'));
    let whole = a + seq!['/'] + b;
    assert(seq!['/'] + a + seq!['/'] + b =~= none + seq!['/'] + whole);
    lemma_fields_split(none, whole, '/');
    lemma_nonempty_concat(fields(none, '/'), fields(whole, '/'));
    assert(segments(seq!['/'] + a + seq!['/'] + b) =~= seq![a] + segments(b));
}

/// A client addresses a document as `/{index}/_doc/{id}`, with any index that is no
/// administration root and any id.
pub proof fn document_paths_are_classified(method: HttpMethod, index: Seq<char>, id: Seq<char>)
    requires
        index.len() > 0,
        !index.contains('/'),
        id.len() > 0,
        !id.contains('/'),
        !starts_administration(index),
    ensures
        classification(method, seq!['/'] + index + "/_doc/"@ + id) == (ClassifiedView {
            logical_index: index,
            endpoint: match method {
                HttpMethod::Get => EndpointKind::GetById,
                HttpMethod::Head => EndpointKind::GetById,
                HttpMethod::Delete => EndpointKind::DeleteById,
                HttpMethod::Put => EndpointKind::IngestDoc,
                HttpMethod::Post => EndpointKind::IngestDoc,
            },
            doc_id: Some(id),
        }),
{
    reveal_strlit("/_doc/");
    reveal_strlit("_doc");
    reveal_strlit("scroll");
    let verb = "_doc"@;
    let rest = verb + seq!['/'] + id;
    assert("/_doc/"@ =~= seq!['/'] + verb + seq!['/']);
    assert(seq!['/'] + index + "/_doc/"@ + id =~= seq!['/'] + index + seq!['/'] + rest);
    assert(!verb.contains('/')) by {
        assert(verb =~= seq!['_', 'd', 'o', 'c']);
    }
    assert(id =~= id + Seq::<char>::empty());
    paths_are_their_segments(index, rest);
    paths_are_their_segments(verb, id);
    paths_are_their_segments(id, Seq::empty());
    extra_slashes_do_not_count(method, id, Seq::empty());
    lemma_one_segment(id);
    let segs = segments(seq!['/'] + index + "/_doc/"@ + id);
    assert(segs =~= seq![index, verb, id]);
    assert("scroll"@.len() == 6 && verb.len() == 4);
    documents_are_addressed_by_index_and_id(method, segs);
}

proof fn lemma_one_segment(a: Seq<char>)
    requires
        a.len() > 0,
        !a.contains('/'),
    ensures
        segments(a) == seq![a],
{
    text::lemma_find(a, '/');
    assert forall|i: int| 0 <= i < a.len() implies a[i] != '/' by {
        assert(a.contains(a[i]));
    }
    assert(fields(a, '/') =~= seq![a]);
    reveal_with_fuel(nonempty, 2);
    assert(seq![a].drop_last() =~= Seq::<Seq<char>>::empty());
    assert(nonempty(seq![a]) =~= seq![a]);
}

/// Only storing and deleting documents writes.
pub proof fn writes_are_ingests_and_deletes(kind: EndpointKind)
    ensures
        kind.writes() == match kind {
            EndpointKind::IngestDoc => true,
            EndpointKind::IngestBulk => true,
            EndpointKind::DeleteById => true,
            EndpointKind::Search => false,
            EndpointKind::MultiSearch => false,
            EndpointKind::Count => false,
            EndpointKind::GetById => false,
            EndpointKind::MultiGet => false,
            EndpointKind::DeleteByQuery => false,
            EndpointKind::Cursor => false,
            EndpointKind::Admin => false,
            EndpointKind::Unknown => false,
        },
{
}

proof fn lemma_nonempty_concat(a: Seq<Seq<char>>, b: Seq<Seq<char>>)
    ensures
        nonempty(a + b) == nonempty(a) + nonempty(b),
    decreases b.len(),
{
    if b.len() == 0 {
        assert(a + b =~= a);
        assert(nonempty(a) + nonempty(b) =~= nonempty(a));
    } else {
        lemma_nonempty_concat(a, b.drop_last());
        assert((a + b).drop_last() =~= a + b.drop_last());
        assert((a + b).last() == b.last());
        assert(nonempty(a + b) =~= nonempty(a) + nonempty(b));
    }
}

proof fn lemma_fields_split(a: Seq<char>, b: Seq<char>, c: char)
    ensures
        fields(a + seq![c] + b, c) == fields(a, c) + fields(b, c),
    decreases a.len(),
{
    let whole = a + seq![c] + b;
    text::lemma_find(a, c);
    text::lemma_find(whole, c);
    let at = text::find(a, c);
    assert(whole.take(at).len() == at);
    if at < a.len() {
        assert(whole[at] == a[at]);
    } else {
        assert(whole[at] == c);
    }
    assert forall|i: int| 0 <= i < at implies whole[i] != c by {
        assert(whole[i] == a[i]);
    }
    assert(text::find(whole, c) == at);
    if at < a.len() {
        let rest = a.skip(at + 1);
        lemma_fields_split(rest, b, c);
        assert(whole.skip(at + 1) =~= rest + seq![c] + b);
        assert(whole.take(at) =~= a.take(at));
        assert(fields(whole, c) =~= fields(a, c) + fields(b, c));
    } else {
        assert(whole.skip(at + 1) =~= b);
        assert(whole.take(at) =~= a);
        assert(fields(a, c) =~= seq![a]);
    }
}

/// A slash more at the front, at the end or between two parts of a path changes
/// nothing where one stands already, nor does one at either end.
pub proof fn extra_slashes_do_not_count(method: HttpMethod, a: Seq<char>, b: Seq<char>)
    ensures
        classification(method, seq!['/'] + a) == classification(method, a),
        classification(method, a + seq!['/']) == classification(method, a),
        classification(method, a + seq!['/', '/'] + b) == classification(
            method,
            a + seq!['/'] + b,
        ),
{
    let none = Seq::<char>::empty();
    text::lemma_find(none, '/');
    assert(fields(none, '/') =~= seq![none]);
    reveal_with_fuel(nonempty, 2);
    assert(nonempty(seq![none]) =~= Seq::<Seq<char>>::empty()) by {
        assert(seq![none].drop_last() =~= Seq::<Seq<char>>::empty());
    }
    assert(seq!['/'] + a =~= none + seq!['/'] + a);
    lemma_fields_split(none, a, '/');
    lemma_nonempty_concat(fields(none, '/'), fields(a, '/'));
    assert(segments(seq!['/'] + a) =~= segments(a));
    assert(a + seq!['/'] =~= a + seq!['/'] + none);
    lemma_fields_split(a, none, '/');
    lemma_nonempty_concat(fields(a, '/'), fields(none, '/'));
    assert(segments(a + seq!['/']) =~= segments(a));
    let tail = seq!['/'] + b;
    assert(a + seq!['/', '/'] + b =~= a + seq!['/'] + tail);
    assert(tail =~= none + seq!['/'] + b);
    lemma_fields_split(a, tail, '/');
    lemma_fields_split(none, b, '/');
    lemma_fields_split(a, b, '/');
    lemma_nonempty_concat(fields(a, '/'), fields(tail, '/'));
    lemma_nonempty_concat(fields(none, '/'), fields(b, '/'));
    lemma_nonempty_concat(fields(a, '/'), fields(b, '/'));
    assert(segments(a + seq!['/', '/'] + b) =~= segments(a + seq!['/'] + b));
}

} // verus!
