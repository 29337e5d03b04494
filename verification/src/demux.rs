//! Rewriting the requests that carry many operations: `_mget`, `_msearch` and
//! `_bulk`.
//!
//! Every operation of such a request is rewritten to the one resolved placement,
//! and the whole is forwarded once. The partition is resolved once, from the request.
use vstd::prelude::*;
use crate::decision::Resolved;
use crate::decision::ResolvedView;
use crate::json;
use crate::json::json_of;
use crate::json::jsons;
use crate::json::no_fields;
use crate::json::serialized;
use crate::json::single;
use crate::json::Json;
use crate::read;
use crate::read::confines;
use crate::read::filtered;
use crate::read::ids_are_framed_by_the_template;
use crate::read::ids_round_trip;
use crate::read::is_scoped;
use crate::read::mapped_id;
use crate::read::mapped_ids_are_scoped;
use crate::read::partition_terms;
use crate::read::query_base;
use crate::read::searches_are_wrapped_as_they_came;
use crate::read::terms_are_the_partition_fields;
use crate::read::unmapped_id;
use crate::rewrite;
use crate::rewrite::bulk_items;
use crate::rewrite::byte_views;
use crate::rewrite::encloses;
use crate::rewrite::is_filtered;
use crate::rewrite::item_views;
use crate::rewrite::mget_ids;
use crate::rewrite::msearch_queries;
use crate::rewrite::named;
use crate::rewrite::wrapped_query;
use crate::rewrite::BulkAction;
use crate::rewrite::BulkItem;
use crate::rewrite::BulkItemView;
use crate::template::id_frame;
use crate::text;
use crate::text::string_views;
use crate::transform;
use crate::transform::bytes_result;
use crate::transform::stamps;
use crate::transform::transformed;
use crate::transform::ErrorKind;
use crate::transform::PrepareError;
use crate::transform::Transformed;
use crate::transform::TransformedView;

verus! {

/// The fields that address one document: its physical index, its id and its routing
/// value, as far as they are known.
pub open spec fn address(
    index: Seq<char>,
    id: Option<Seq<char>>,
    routing: Option<Seq<char>>,
) -> Map<Seq<char>, Json> {
    let base = no_fields().insert("_index"@, Json::Text(index));
    let named = match id {
        Some(id) => base.insert("_id"@, Json::Text(id)),
        None => base,
    };
    match routing {
        Some(routing) => named.insert("routing"@, Json::Text(routing)),
        None => named,
    }
}

fn address_value(index: &str, id: Option<&str>, routing: Option<String>) -> (v: serde_json::Value)
    ensures
        json_of(v) == Json::Fields(address(index@, text::viewed(id), text::optional(routing))),
{
    let mut m = serde_json::Map::new();
    m.insert("_index".to_owned(), json::text_value(index));
    if let Some(id) = id {
        m.insert("_id".to_owned(), json::text_value(id));
    }
    if let Some(routing) = routing {
        m.insert("routing".to_owned(), json::text_value(routing.as_str()));
    }
    json::object_value(m)
}

fn single_value(key: &str, value: serde_json::Value) -> (v: serde_json::Value)
    ensures
        json_of(v) == single(key@, json_of(value)),
{
    let mut m = serde_json::Map::new();
    m.insert(key.to_owned(), value);
    json::object_value(m)
}

/// The text of a document.
pub(crate) fn write_json(v: &serde_json::Value) -> (bytes: Vec<u8>)
    ensures
        bytes@ == serialized(json_of(*v)),
{
    match json::serialize(v) {
        Ok(bytes) => bytes,
        Err(_) => vstd::pervasive::unreached(),
    }
}

/// The `_mget` entry that fetches the document a client calls `id`.
pub open spec fn mget_entry(resolved: ResolvedView, id: Seq<char>) -> Result<Json, ErrorKind> {
    match mapped_id(resolved.transform, resolved.partition, id) {
        Ok(physical) => Ok(
            Json::Fields(
                address(
                    resolved.target.index,
                    Some(physical),
                    resolved.transform.routing(resolved.partition),
                ),
            ),
        ),
        Err(kind) => Err(kind),
    }
}

/// The `_mget` entries for a list of ids: one each, in order.
pub open spec fn mget_entries(resolved: ResolvedView, ids: Seq<Seq<char>>) -> Result<
    Seq<Json>,
    ErrorKind,
>
    decreases ids.len(),
{
    if ids.len() == 0 {
        Ok(seq![])
    } else {
        match mget_entries(resolved, ids.drop_last()) {
            Err(kind) => Err(kind),
            Ok(docs) => match mget_entry(resolved, ids.last()) {
                Err(kind) => Err(kind),
                Ok(doc) => Ok(docs.push(doc)),
            },
        }
    }
}

/// The `_mget` document for a list of ids.
pub open spec fn mget_document(resolved: ResolvedView, ids: Seq<Seq<char>>) -> Result<
    Json,
    ErrorKind,
> {
    match mget_entries(resolved, ids) {
        Ok(docs) => Ok(single("docs"@, Json::List(docs))),
        Err(kind) => Err(kind),
    }
}

/// Whether every fetch of an `_mget` asks for a document of its own partition.
pub open spec fn fetches_are_scoped(resolved: ResolvedView, ids: Seq<Seq<char>>) -> bool {
    forall|i: int| 0 <= i < ids.len() ==> fetch_is_scoped(resolved, #[trigger] ids[i])
}

/// Whether one fetch asks for a document of its own partition.
pub open spec fn fetch_is_scoped(resolved: ResolvedView, id: Seq<char>) -> bool {
    match mapped_id(resolved.transform, resolved.partition, id) {
        Ok(physical) => is_scoped(resolved.transform, resolved.partition, physical),
        Err(_) => false,
    }
}

/// The rewritten `_mget` body.
pub open spec fn mget_body(resolved: ResolvedView, body: Seq<u8>) -> Result<Seq<u8>, ErrorKind> {
    match mget_ids(body) {
        None => Err(ErrorKind::Rewrite),
        Some(ids) => match mget_document(resolved, ids) {
            Ok(doc) => Ok(serialized(doc)),
            Err(kind) => Err(kind),
        },
    }
}

/// An `_mget` fetches exactly what the client asked for: one entry for each id, in order.
/// Each entry names the physical index, an id that is shown to the client as the id it
/// used, and the partition as its routing value exactly where the id rule sets one; it
/// holds nothing else.
pub proof fn every_fetch_is_addressed(resolved: ResolvedView, ids: Seq<Seq<char>>) -> (entries:
    Seq<Map<Seq<char>, Json>>)
    requires
        mget_document(resolved, ids) is Ok,
    ensures
        entries.len() == ids.len(),
        mget_document(resolved, ids)->Ok_0 == Json::Fields(
            Map::empty().insert(
                "docs"@,
                Json::List(Seq::new(ids.len(), |i: int| Json::Fields(entries[i]))),
            ),
        ),
        forall|i: int|
            #![trigger entries[i]]
            0 <= i < ids.len() ==> {
                &&& Json::Fields(entries[i]).get("_index"@) == Some(
                    Json::Text(resolved.target.index),
                )
                &&& Json::Fields(entries[i]).text_at("_id"@) is Some
                &&& unmapped_id(
                    resolved.transform,
                    resolved.partition,
                    Json::Fields(entries[i]).text_at("_id"@)->0,
                ) == ids[i]
                &&& resolved.transform.id_rule() is None ==> Json::Fields(entries[i]).text_at(
                    "_id"@,
                ) == Some(ids[i])
                &&& Json::Fields(entries[i]).get("routing"@) == match resolved.transform.id_rule() {
                    Some(rule) => if rule.set_routing {
                        Some(Json::Text(resolved.partition))
                    } else {
                        None
                    },
                    None => None,
                }
                &&& forall|key: Seq<char>| #[trigger]
                    entries[i].dom().contains(key) ==> key == "_index"@ || key == "_id"@ || key
                        == "routing"@
            },
{
    lemma_mget_entries(resolved, ids);
    let docs = mget_entries(resolved, ids)->Ok_0;
    let entries = Seq::new(ids.len(), |i: int| docs[i]->Fields_0);
    assert(docs =~= Seq::new(ids.len(), |i: int| Json::Fields(entries[i])));
    assert forall|i: int| #![trigger entries[i]] 0 <= i < ids.len() implies {
        &&& Json::Fields(entries[i]).get("_index"@) == Some(Json::Text(resolved.target.index))
        &&& Json::Fields(entries[i]).text_at("_id"@) is Some
        &&& unmapped_id(
            resolved.transform,
            resolved.partition,
            Json::Fields(entries[i]).text_at("_id"@)->0,
        ) == ids[i]
        &&& resolved.transform.id_rule() is None ==> Json::Fields(entries[i]).text_at("_id"@)
            == Some(ids[i])
        &&& Json::Fields(entries[i]).get("routing"@) == match resolved.transform.id_rule() {
            Some(rule) => if rule.set_routing {
                Some(Json::Text(resolved.partition))
            } else {
                None
            },
            None => None,
        }
        &&& forall|key: Seq<char>| #[trigger]
            entries[i].dom().contains(key) ==> key == "_index"@ || key == "_id"@ || key
                == "routing"@
    } by {
        let _ = docs[i];
        lemma_address_keys();
        ids_round_trip(resolved.transform, resolved.partition, ids[i]);
    }
    entries
}

/// The keys of an address are three.
proof fn lemma_address_keys()
    ensures
        "_index"@ != "_id"@,
        "_index"@ != "routing"@,
        "_id"@ != "routing"@,
{
    reveal_strlit("_index");
    reveal_strlit("_id");
    reveal_strlit("routing");
    assert("_index"@.len() == 6 && "_id"@.len() == 3 && "routing"@.len() == 7);
}

/// The entries of an `_mget`, one by one.
proof fn lemma_mget_entries(resolved: ResolvedView, ids: Seq<Seq<char>>)
    requires
        mget_entries(resolved, ids) is Ok,
    ensures
        mget_entries(resolved, ids)->Ok_0.len() == ids.len(),
        forall|i: int|
            0 <= i < ids.len() ==> mget_entry(resolved, ids[i]) == Ok::<Json, ErrorKind>(
                #[trigger] mget_entries(resolved, ids)->Ok_0[i],
            ),
    decreases ids.len(),
{
    if ids.len() > 0 {
        let front = ids.drop_last();
        lemma_mget_entries(resolved, front);
        let docs = mget_entries(resolved, ids)->Ok_0;
        let earlier = mget_entries(resolved, front)->Ok_0;
        assert forall|i: int| 0 <= i < ids.len() implies mget_entry(resolved, ids[i]) == Ok::<
            Json,
            ErrorKind,
        >(#[trigger] docs[i]) by {
            if i < front.len() {
                assert(docs[i] == earlier[i]);
                assert(front[i] == ids[i]);
            }
        }
    }
}

/// Builds the `_mget` document that fetches the given logical ids from the resolved
/// placement.
///
/// # Errors
/// [`PrepareError::Rewrite`] where an id cannot be mapped.
pub fn mget_of_ids(resolved: &Resolved, ids: &Vec<String>) -> (r: Result<
    serde_json::Value,
    PrepareError,
>)
    ensures
        match r {
            Ok(v) => {
                &&& mget_document(resolved@, string_views(ids@)) is Ok
                &&& mget_document(resolved@, string_views(ids@))->Ok_0 == json_of(v)
            },
            Err(err) => {
                &&& mget_document(resolved@, string_views(ids@)) is Err
                &&& mget_document(resolved@, string_views(ids@))->Err_0 == err@
            },
        },
        r is Ok ==> fetches_are_scoped(resolved@, string_views(ids@)),
{
    let ghost all = string_views(ids@);
    let mut docs: Vec<serde_json::Value> = Vec::new();
    let mut i: usize = 0;
    assert(all.take(0) =~= Seq::<Seq<char>>::empty());
    assert(jsons(docs@) =~= Seq::<Json>::empty());
    while i < ids.len()
        invariant
            i <= ids@.len(),
            all == string_views(ids@),
            mget_entries(resolved@, all.take(i as int)) == Ok::<Seq<Json>, ErrorKind>(jsons(docs@)),
            forall|k: int| 0 <= k < i ==> fetch_is_scoped(resolved@, #[trigger] all[k]),
        decreases ids@.len() - i,
    {
        proof {
            assert(all.take(i + 1).drop_last() =~= all.take(i as int));
            assert(all.take(i + 1).last() == ids@[i as int]@);
        }
        let mapped = read::physical_id(
            &resolved.decision.body_transform,
            resolved.partition.as_str(),
            ids[i].as_str(),
        );
        let (id, routing) = match mapped {
            Ok(mapped) => mapped,
            Err(err) => {
                proof {
                    lemma_mget_error(resolved@, all, i + 1);
                }
                return Err(err);
            },
        };
        let doc = address_value(
            resolved.decision.target.index.as_str(),
            Some(id.as_str()),
            routing,
        );
        let ghost seen = docs@;
        docs.push(doc);
        assert(jsons(docs@) =~= jsons(seen).push(json_of(doc)));
        i += 1;
    }
    assert(all.take(i as int) =~= all);
    Ok(single_value("docs", json::list_value(docs)))
}

proof fn lemma_mget_error(resolved: ResolvedView, ids: Seq<Seq<char>>, n: int)
    requires
        0 <= n <= ids.len(),
        mget_entries(resolved, ids.take(n)) is Err,
    ensures
        mget_entries(resolved, ids) == mget_entries(resolved, ids.take(n)),
    decreases ids.len() - n,
{
    if n == ids.len() {
        assert(ids.take(n) =~= ids);
    } else {
        assert(ids.take(n + 1).drop_last() =~= ids.take(n));
        lemma_mget_error(resolved, ids, n + 1);
    }
}

/// Rewrites an `_mget` body: each fetch targets the physical index with a
/// partition-scoped id, and the routing value where the id rule sets one.
///
/// # Errors
/// [`PrepareError::Rewrite`] where the body is no `_mget` body or an id cannot be
/// mapped.
pub fn rewrite_mget(resolved: &Resolved, body: &[u8]) -> (r: Result<Vec<u8>, PrepareError>)
    ensures
        bytes_result(r) == mget_body(resolved@, body@),
        r is Ok ==> fetches_are_scoped(resolved@, mget_ids(body@)->0),
{
    let ids = match rewrite::parse_mget(body) {
        Ok(ids) => ids,
        Err(err) => return Err(PrepareError::Rewrite(err)),
    };
    match mget_of_ids(resolved, &ids) {
        Ok(doc) => Ok(write_json(&doc)),
        Err(err) => Err(err),
    }
}

/// The header line of every rewritten search: pinned to the physical index.
pub open spec fn search_header(resolved: ResolvedView) -> Json {
    single("index"@, Json::Text(resolved.target.index))
}

/// One line.
pub open spec fn line(bytes: Seq<u8>) -> Seq<u8> {
    bytes.push(0x0a)
}

/// Lines, each with the line feed that ends it.
pub open spec fn stacked(lines: Seq<Seq<u8>>) -> Seq<u8>
    decreases lines.len(),
{
    if lines.len() == 0 {
        seq![]
    } else {
        stacked(lines.drop_last()) + lines.last().push(0x0a)
    }
}

proof fn lemma_stacked_push(lines: Seq<Seq<u8>>, last: Seq<u8>)
    ensures
        stacked(lines.push(last)) == stacked(lines) + last.push(0x0a),
{
    assert(lines.push(last).drop_last() =~= lines);
}

/// Texts, one behind the other.
pub open spec fn concatenated(parts: Seq<Seq<u8>>) -> Seq<u8>
    decreases parts.len(),
{
    if parts.len() == 0 {
        seq![]
    } else {
        concatenated(parts.drop_last()) + parts.last()
    }
}

/// Whether a line asks for what a client's query asks for, within its partition: where
/// the placement has fields for the partition, it is the query enclosed in the filter on
/// them, and else the query itself.
pub open spec fn asks_for(resolved: ResolvedView, query: Seq<u8>, line: Seq<u8>) -> bool {
    let terms = partition_terms(resolved.transform.fields(), resolved.partition);
    if terms.len() == 0 {
        line == query
    } else {
        is_filtered(line, terms) && encloses(query_base(query), terms, line)
    }
}

/// Whether a text is that of an `_msearch` with the clients' queries in order: for each a
/// line that names the physical index, and behind it a line that asks for that query.
pub open spec fn asks_for_all(
    resolved: ResolvedView,
    queries: Seq<Seq<u8>>,
    out: Seq<u8>,
) -> bool {
    exists|lines: Seq<Seq<u8>>|
        {
            &&& out == #[trigger] stacked(lines)
            &&& lines.len() == 2 * queries.len()
            &&& forall|i: int|
                0 <= i < queries.len() ==> asks_for(
                    resolved,
                    #[trigger] queries[i],
                    lines[2 * i + 1],
                ) && lines[2 * i] == serialized(
                    Json::Fields(
                        Map::empty().insert("index"@, Json::Text(resolved.target.index)),
                    ),
                )
        }
}

/// The two lines of one rewritten search.
pub open spec fn search_lines(resolved: ResolvedView, query: Seq<u8>) -> Result<
    Seq<u8>,
    ErrorKind,
> {
    match filtered(query, partition_terms(resolved.transform.fields(), resolved.partition)) {
        Err(kind) => Err(kind),
        Ok(out) => Ok(line(serialized(search_header(resolved))) + line(out)),
    }
}

/// The lines of a list of rewritten searches, in order.
pub open spec fn msearch_lines(resolved: ResolvedView, queries: Seq<Seq<u8>>) -> Result<
    Seq<u8>,
    ErrorKind,
>
    decreases queries.len(),
{
    if queries.len() == 0 {
        Ok(seq![])
    } else {
        match msearch_lines(resolved, queries.drop_last()) {
            Err(kind) => Err(kind),
            Ok(front) => match search_lines(resolved, queries.last()) {
                Err(kind) => Err(kind),
                Ok(lines) => Ok(front + lines),
            },
        }
    }
}

/// Whether every search of an `_msearch` is rewritten to read nothing but its own
/// partition.
pub open spec fn searches_are_confined(resolved: ResolvedView, queries: Seq<Seq<u8>>) -> bool {
    forall|i: int|
        0 <= i < queries.len() ==> search_is_confined(resolved, #[trigger] queries[i])
}

/// Whether one search is rewritten to read nothing but its own partition.
pub open spec fn search_is_confined(resolved: ResolvedView, query: Seq<u8>) -> bool {
    match filtered(query, partition_terms(resolved.transform.fields(), resolved.partition)) {
        Ok(out) => confines(resolved.transform, resolved.partition, out),
        Err(_) => false,
    }
}

/// The rewritten `_msearch` body.
pub open spec fn msearch_body(resolved: ResolvedView, body: Seq<u8>) -> Result<
    Seq<u8>,
    ErrorKind,
> {
    match msearch_queries(body) {
        None => Err(ErrorKind::Rewrite),
        Some(queries) => msearch_lines(resolved, queries),
    }
}

proof fn lemma_msearch_error(resolved: ResolvedView, queries: Seq<Seq<u8>>, n: int)
    requires
        0 <= n <= queries.len(),
        msearch_lines(resolved, queries.take(n)) is Err,
    ensures
        msearch_lines(resolved, queries) == msearch_lines(resolved, queries.take(n)),
    decreases queries.len() - n,
{
    if n == queries.len() {
        assert(queries.take(n) =~= queries);
    } else {
        assert(queries.take(n + 1).drop_last() =~= queries.take(n));
        lemma_msearch_error(resolved, queries, n + 1);
    }
}

fn push_line(out: &mut Vec<u8>, bytes: &[u8])
    ensures
        final(out)@ == old(out)@ + line(bytes@),
{
    let ghost before = out@;
    out.extend_from_slice(bytes);
    assert(out@ =~= before + bytes@);
    out.push(0x0a);
    assert(out@ =~= before + line(bytes@));
}

/// No search of an `_msearch` is lost or changed but for its filter: the rewritten body
/// has two lines for each, in order. The first names the physical index and nothing
/// else. The second is the client's query line as it came, where no field of the
/// placement holds the partition, and else that very line with the partition's terms
/// wrapped around it.
pub proof fn every_search_is_asked_for(resolved: ResolvedView, queries: Seq<Seq<u8>>) -> (lines:
    Seq<Seq<u8>>)
    requires
        msearch_lines(resolved, queries) is Ok,
    ensures
        msearch_lines(resolved, queries)->Ok_0 == stacked(lines),
        lines.len() == 2 * queries.len(),
        forall|i: int|
            0 <= i < queries.len() ==> #[trigger] lines[2 * i] == serialized(
                Json::Fields(Map::empty().insert("index"@, Json::Text(resolved.target.index))),
            ),
        forall|i: int|
            #![trigger queries[i]]
            0 <= i < queries.len() ==> if forall|k: int|
                0 <= k < resolved.transform.fields().len() ==> !((
                #[trigger] resolved.transform.fields()[k]).value is PartitionId) {
                lines[2 * i + 1] == queries[i]
            } else {
                wrapped_query(
                    if queries[i].len() == 0 {
                        seq![0x7bu8, 0x7du8]
                    } else {
                        queries[i]
                    },
                    partition_terms(resolved.transform.fields(), resolved.partition),
                ) == Some(lines[2 * i + 1])
            },
    decreases queries.len(),
{
    let terms = partition_terms(resolved.transform.fields(), resolved.partition);
    terms_are_the_partition_fields(resolved.transform.fields(), resolved.partition);
    if queries.len() == 0 {
        seq![]
    } else {
        let front = queries.drop_last();
        let n = front.len() as int;
        let earlier = every_search_is_asked_for(resolved, front);
        let header = serialized(search_header(resolved));
        let query = filtered(queries.last(), terms)->Ok_0;
        let lines = earlier.push(header).push(query);
        lemma_stacked_push(earlier, header);
        lemma_stacked_push(earlier.push(header), query);
        assert(msearch_lines(resolved, queries)->Ok_0 =~= stacked(lines));
        assert forall|i: int| 0 <= i < queries.len() implies #[trigger] lines[2 * i]
            == serialized(
            Json::Fields(Map::empty().insert("index"@, Json::Text(resolved.target.index))),
        ) by {
            if i < n {
                assert(earlier[2 * i] == lines[2 * i]);
            }
        }
        assert forall|i: int|
            #![trigger queries[i]]
            0 <= i < queries.len() implies if forall|k: int|
            0 <= k < resolved.transform.fields().len() ==> !((
            #[trigger] resolved.transform.fields()[k]).value is PartitionId) {
            lines[2 * i + 1] == queries[i]
        } else {
            wrapped_query(
                if queries[i].len() == 0 {
                    seq![0x7bu8, 0x7du8]
                } else {
                    queries[i]
                },
                terms,
            ) == Some(lines[2 * i + 1])
        } by {
            if i < n {
                assert(front[i] == queries[i]);
                assert(earlier[2 * i + 1] == lines[2 * i + 1]);
            }
        }
        lines
    }
}

/// Whether the first queries of a list have their two lines each.
#[verifier::opaque]
spec fn asked(
    resolved: ResolvedView,
    queries: Seq<Seq<u8>>,
    lines: Seq<Seq<u8>>,
    n: int,
) -> bool {
    &&& lines.len() == 2 * n
    &&& forall|k: int|
        0 <= k < n ==> asks_for(resolved, #[trigger] queries[k], lines[2 * k + 1]) && lines[2 * k]
            == serialized(search_header(resolved))
}

proof fn lemma_none_asked(resolved: ResolvedView, queries: Seq<Seq<u8>>)
    ensures
        asked(resolved, queries, seq![], 0),
{
    reveal(asked);
}

proof fn lemma_one_more_asked(
    resolved: ResolvedView,
    queries: Seq<Seq<u8>>,
    lines: Seq<Seq<u8>>,
    n: int,
    query: Seq<u8>,
)
    requires
        0 <= n < queries.len(),
        asked(resolved, queries, lines, n),
        asks_for(resolved, queries[n], query),
    ensures
        asked(
            resolved,
            queries,
            lines.push(serialized(search_header(resolved))).push(query),
            n + 1,
        ),
{
    reveal(asked);
    let head = serialized(search_header(resolved));
    let all = lines.push(head).push(query);
    assert forall|k: int| 0 <= k < n + 1 implies asks_for(
        resolved,
        #[trigger] queries[k],
        all[2 * k + 1],
    ) && all[2 * k] == head by {
        if k < n {
            assert(asks_for(resolved, queries[k], lines[2 * k + 1]));
            assert(all[2 * k] == lines[2 * k]);
            assert(all[2 * k + 1] == lines[2 * k + 1]);
        } else {
            assert(all[2 * k] == head);
            assert(all[2 * k + 1] == query);
        }
    }
}

proof fn lemma_all_asked(
    resolved: ResolvedView,
    queries: Seq<Seq<u8>>,
    lines: Seq<Seq<u8>>,
)
    requires
        asked(resolved, queries, lines, queries.len() as int),
    ensures
        asks_for_all(resolved, queries, stacked(lines)),
{
    reveal(asked);
    let head = serialized(search_header(resolved));
    assert(head == serialized(
        Json::Fields(Map::empty().insert("index"@, Json::Text(resolved.target.index))),
    ));
    assert forall|k: int| 0 <= k < queries.len() implies asks_for(
        resolved,
        #[trigger] queries[k],
        lines[2 * k + 1],
    ) && lines[2 * k] == head by {
        let query = queries[k];
        assert(asks_for(resolved, query, lines[2 * k + 1]));
        assert(lines[2 * k] == head);
    }
}

/// Rewrites the given query lines of an `_msearch`: every header line is pinned to
/// the physical index, and every query gets the partition filter.
///
/// # Errors
/// [`PrepareError::Rewrite`] where a query cannot be filtered.
pub fn msearch_of_queries(resolved: &Resolved, queries: &Vec<Vec<u8>>) -> (r: Result<
    Vec<u8>,
    PrepareError,
>)
    ensures
        bytes_result(r) == msearch_lines(resolved@, byte_views(queries@)),
        match r {
            Ok(out) => {
                &&& searches_are_confined(resolved@, byte_views(queries@))
                &&& asks_for_all(resolved@, byte_views(queries@), out@)
            },
            Err(_) => true,
        },
{
    let filter = read::filter_terms(
        &resolved.decision.body_transform,
        resolved.partition.as_str(),
    );
    let ghost all = byte_views(queries@);
    let mut out: Vec<u8> = Vec::new();
    let mut i: usize = 0;
    let ghost mut lines: Seq<Seq<u8>> = seq![];
    proof {
        lemma_none_asked(resolved@, all);
    }
    assert(all.take(0) =~= Seq::<Seq<u8>>::empty());
    assert(out@ =~= Seq::<u8>::empty());
    while i < queries.len()
        invariant
            i <= queries@.len(),
            all == byte_views(queries@),
            named(filter@) == partition_terms(
                resolved@.transform.fields(),
                resolved@.partition,
            ),
            msearch_lines(resolved@, all.take(i as int)) == Ok::<Seq<u8>, ErrorKind>(out@),
            forall|k: int| 0 <= k < i ==> search_is_confined(resolved@, #[trigger] all[k]),
            out@ == stacked(lines),
            asked(resolved@, all, lines, i as int),
        decreases queries@.len() - i,
    {
        let ghost front = out@;
        proof {
            assert(all.take(i + 1).drop_last() =~= all.take(i as int));
            assert(all.take(i + 1).last() == queries@[i as int]@);
        }
        let header = single_value("index", json::text_value(resolved.decision.target.index.as_str()));
        let header = write_json(&header);
        let query = match read::filtered_query(queries[i].as_slice(), &filter) {
            Ok(bytes) => bytes,
            Err(err) => {
                proof {
                    lemma_msearch_error(resolved@, all, i + 1);
                }
                return Err(err);
            },
        };
        push_line(&mut out, header.as_slice());
        push_line(&mut out, query.as_slice());
        assert(out@ =~= front + (line(header@) + line(query@)));
        proof {
            let before = lines;
            lemma_stacked_push(before, header@);
            lemma_stacked_push(before.push(header@), query@);
            lines = before.push(header@).push(query@);
            assert(out@ =~= stacked(lines));
            assert(asks_for(resolved@, all[i as int], query@));
            lemma_one_more_asked(resolved@, all, before, i as int, query@);
        }
        i += 1;
    }
    assert(all.take(i as int) =~= all);
    proof {
        lemma_all_asked(resolved@, all, lines);
    }
    Ok(out)
}

/// Rewrites an `_msearch` body for the resolved placement.
///
/// # Errors
/// [`PrepareError::Rewrite`] where the body is no `_msearch` body or a query cannot
/// be filtered.
pub fn rewrite_msearch(resolved: &Resolved, body: &[u8]) -> (r: Result<Vec<u8>, PrepareError>)
    ensures
        bytes_result(r) == msearch_body(resolved@, body@),
        match r {
            Ok(out) => {
                &&& searches_are_confined(resolved@, msearch_queries(body@)->0)
                &&& asks_for_all(resolved@, msearch_queries(body@)->0, out@)
            },
            Err(_) => true,
        },
{
    match rewrite::parse_msearch(body) {
        Ok(queries) => msearch_of_queries(resolved, &queries),
        Err(err) => Err(PrepareError::Rewrite(err)),
    }
}

/// The rewritten action line of a `_bulk` operation, as a document.
pub open spec fn action_document(
    resolved: ResolvedView,
    action: BulkAction,
    id: Option<Seq<char>>,
) -> Json {
    single(
        action.verb(),
        Json::Fields(
            address(
                resolved.target.index,
                id,
                resolved.transform.routing(resolved.partition),
            ),
        ),
    )
}

/// The physical id of an explicit id, where there is one.
pub open spec fn mapped_explicit(resolved: ResolvedView, id: Option<Seq<char>>) -> Result<
    Option<Seq<char>>,
    ErrorKind,
> {
    match id {
        None => Ok(None),
        Some(explicit) => match mapped_id(resolved.transform, resolved.partition, explicit) {
            Ok(physical) => Ok(Some(physical)),
            Err(kind) => Err(kind),
        },
    }
}

/// The lines of one rewritten `_bulk` operation whose source, where it has one, became
/// `done`: its action line, and its source. An explicit id of the action line wins over
/// the id that the transform constructed.
pub open spec fn item_lines(
    resolved: ResolvedView,
    action: BulkAction,
    id: Option<Seq<char>>,
    done: Option<TransformedView>,
) -> Result<Seq<u8>, ErrorKind> {
    match (mapped_explicit(resolved, id), done) {
        (Err(kind), _) => Err(kind),
        (Ok(explicit), None) => Ok(line(serialized(action_document(resolved, action, explicit)))),
        (Ok(explicit), Some(t)) => Ok(
            line(
                serialized(
                    action_document(
                        resolved,
                        action,
                        if explicit is Some {
                            explicit
                        } else {
                            t.id
                        },
                    ),
                ),
            ) + line(t.body),
        ),
    }
}

/// The lines of one rewritten `_bulk` operation.
pub open spec fn bulk_item_lines(resolved: ResolvedView, item: BulkItemView) -> Result<
    Seq<u8>,
    ErrorKind,
> {
    match item.source {
        None => item_lines(resolved, item.action, item.id, None),
        Some(source) => match transformed(source, resolved.transform, resolved.partition) {
            Err(kind) => Err(kind),
            Ok(t) => item_lines(resolved, item.action, item.id, Some(t)),
        },
    }
}

/// The lines of a list of rewritten `_bulk` operations, in order.
pub open spec fn bulk_lines(resolved: ResolvedView, items: Seq<BulkItemView>) -> Result<
    Seq<u8>,
    ErrorKind,
>
    decreases items.len(),
{
    if items.len() == 0 {
        Ok(seq![])
    } else {
        match bulk_lines(resolved, items.drop_last()) {
            Err(kind) => Err(kind),
            Ok(front) => match bulk_item_lines(resolved, items.last()) {
                Err(kind) => Err(kind),
                Ok(lines) => Ok(front + lines),
            },
        }
    }
}

/// Whether every operation of a `_bulk` keeps to its partition.
pub open spec fn items_keep_to_partition(
    resolved: ResolvedView,
    items: Seq<BulkItemView>,
) -> bool {
    forall|i: int| 0 <= i < items.len() ==> item_keeps_to_partition(resolved, #[trigger] items[i])
}

/// Whether an operation of a `_bulk` keeps to its partition: its source is stored with
/// the placement's fields, and a document that it addresses belongs to the partition.
pub open spec fn item_keeps_to_partition(resolved: ResolvedView, item: BulkItemView) -> bool {
    &&& source_is_stamped(resolved, item.source)
    &&& match (item.id, item.source) {
        (Some(id), _) => fetch_is_scoped(resolved, id),
        (None, Some(source)) => constructed_id_is_scoped(resolved, source),
        (None, None) => true,
    }
}

/// Whether the id that the placement constructs for a source, if it can be told by its
/// form, belongs to the partition.
pub open spec fn constructed_id_is_scoped(resolved: ResolvedView, source: Seq<u8>) -> bool {
    match (
        resolved.transform.id_rule(),
        transformed(source, resolved.transform, resolved.partition),
    ) {
        (Some(rule), Ok(t)) => id_frame(rule.template, resolved.partition) is Some ==> t.id is Some
            && is_scoped(resolved.transform, resolved.partition, t.id->0),
        _ => true,
    }
}

/// Whether a source, where there is one, is stored with the placement's fields.
pub open spec fn source_is_stamped(resolved: ResolvedView, source: Option<Seq<u8>>) -> bool {
    match source {
        Some(source) => match transformed(source, resolved.transform, resolved.partition) {
            Ok(t) => stamps(source, resolved.transform, resolved.partition, t.body),
            Err(_) => false,
        },
        None => true,
    }
}

/// The rewritten `_bulk` body.
pub open spec fn bulk_body(resolved: ResolvedView, body: Seq<u8>) -> Result<Seq<u8>, ErrorKind> {
    match bulk_items(body) {
        None => Err(ErrorKind::Rewrite),
        Some(items) => bulk_lines(resolved, items),
    }
}

proof fn lemma_bulk_error(resolved: ResolvedView, items: Seq<BulkItemView>, n: int)
    requires
        0 <= n <= items.len(),
        bulk_lines(resolved, items.take(n)) is Err,
    ensures
        bulk_lines(resolved, items) == bulk_lines(resolved, items.take(n)),
    decreases items.len() - n,
{
    if n == items.len() {
        assert(items.take(n) =~= items);
    } else {
        assert(items.take(n + 1).drop_last() =~= items.take(n));
        lemma_bulk_error(resolved, items, n + 1);
    }
}

/// A `_bulk` body is rewritten as a whole or not at all: one operation that cannot
/// be rewritten fails the request.
pub proof fn bulk_is_all_or_nothing(resolved: ResolvedView, items: Seq<BulkItemView>, i: int)
    requires
        0 <= i < items.len(),
        bulk_item_lines(resolved, items[i]) is Err,
    ensures
        bulk_lines(resolved, items) is Err,
{
    let upto = items.take(i + 1);
    assert(upto.drop_last() =~= items.take(i));
    assert(upto.last() == items[i]);
    assert(bulk_lines(resolved, upto) is Err);
    lemma_bulk_error(resolved, items, i + 1);
}

/// A `_bulk` operation goes to the document the client meant. Its action line, under its
/// own verb, names the physical index and, where the client gave an id, an id that is
/// shown to the client as that very id; else it names the id that the transform
/// constructed, if any. The partition is its routing value exactly where the id rule sets
/// one. Behind it stands the rewritten source, where the operation has one.
pub proof fn bulk_operations_are_addressed(
    resolved: ResolvedView,
    action: BulkAction,
    id: Option<Seq<char>>,
    done: Option<TransformedView>,
) -> (meta: Map<Seq<char>, Json>)
    requires
        item_lines(resolved, action, id, done) is Ok,
    ensures
        item_lines(resolved, action, id, done)->Ok_0 == stacked(
            match done {
                Some(t) => seq![
                    serialized(
                        Json::Fields(
                            Map::empty().insert(
                                match action {
                                    BulkAction::Index => "index"@,
                                    BulkAction::Create => "create"@,
                                    BulkAction::Update => "update"@,
                                    BulkAction::Delete => "delete"@,
                                },
                                Json::Fields(meta),
                            ),
                        ),
                    ),
                    t.body,
                ],
                None => seq![
                    serialized(
                        Json::Fields(
                            Map::empty().insert(
                                match action {
                                    BulkAction::Index => "index"@,
                                    BulkAction::Create => "create"@,
                                    BulkAction::Update => "update"@,
                                    BulkAction::Delete => "delete"@,
                                },
                                Json::Fields(meta),
                            ),
                        ),
                    ),
                ],
            },
        ),
        Json::Fields(meta).get("_index"@) == Some(Json::Text(resolved.target.index)),
        match id {
            Some(explicit) => {
                &&& Json::Fields(meta).text_at("_id"@) is Some
                &&& unmapped_id(
                    resolved.transform,
                    resolved.partition,
                    Json::Fields(meta).text_at("_id"@)->0,
                ) == explicit
                &&& resolved.transform.id_rule() is None ==> Json::Fields(meta).text_at("_id"@)
                    == Some(explicit)
            },
            None => Json::Fields(meta).get("_id"@) == match done {
                Some(t) => match t.id {
                    Some(constructed) => Some(Json::Text(constructed)),
                    None => None,
                },
                None => None,
            },
        },
        Json::Fields(meta).get("routing"@) == match resolved.transform.id_rule() {
            Some(rule) => if rule.set_routing {
                Some(Json::Text(resolved.partition))
            } else {
                None
            },
            None => None,
        },
        forall|key: Seq<char>| #[trigger]
            meta.dom().contains(key) ==> key == "_index"@ || key == "_id"@ || key == "routing"@,
{
    lemma_address_keys();
    let physical = match (mapped_explicit(resolved, id), done) {
        (Ok(explicit), Some(t)) => if explicit is Some {
            explicit
        } else {
            t.id
        },
        (Ok(explicit), None) => explicit,
        (Err(_), _) => None,
    };
    if let Some(explicit) = id {
        ids_round_trip(resolved.transform, resolved.partition, explicit);
    }
    let meta = address(
        resolved.target.index,
        physical,
        resolved.transform.routing(resolved.partition),
    );
    let action_line = serialized(single(action.verb(), Json::Fields(meta)));
    let one = seq![action_line];
    assert(one.drop_last() =~= Seq::<Seq<u8>>::empty());
    assert(stacked(one.drop_last()) =~= Seq::<u8>::empty());
    assert(stacked(one) =~= action_line.push(0x0a));
    if let Some(t) = done {
        let two = seq![action_line, t.body];
        assert(two.drop_last() =~= one);
        assert(stacked(two) =~= line(action_line) + line(t.body));
    }
    meta
}

/// A `_bulk` body holds every operation, in order, and each is made of its own source
/// alone: the lines of one are those of its verb, its id and what became of its source.
pub proof fn bulk_bodies_hold_every_operation(
    resolved: ResolvedView,
    items: Seq<BulkItemView>,
) -> (parts: Seq<Seq<u8>>)
    requires
        bulk_lines(resolved, items) is Ok,
    ensures
        bulk_lines(resolved, items)->Ok_0 == concatenated(parts),
        parts.len() == items.len(),
        forall|i: int|
            0 <= i < items.len() ==> exists|done: Option<TransformedView>|
                {
                    &&& #[trigger] item_lines(resolved, items[i].action, items[i].id, done)
                        == Ok::<Seq<u8>, ErrorKind>(#[trigger] parts[i])
                    &&& match (items[i].source, done) {
                        (Some(source), Some(t)) => transformed(
                            source,
                            resolved.transform,
                            resolved.partition,
                        ) == Ok::<TransformedView, ErrorKind>(t),
                        (None, None) => true,
                        _ => false,
                    }
                },
    decreases items.len(),
{
    if items.len() == 0 {
        seq![]
    } else {
        let front = items.drop_last();
        let earlier = bulk_bodies_hold_every_operation(resolved, front);
        let last = items.last();
        let parts = earlier.push(bulk_item_lines(resolved, last)->Ok_0);
        assert(parts.drop_last() =~= earlier);
        let made = match last.source {
            Some(source) => Some(
                transformed(source, resolved.transform, resolved.partition)->Ok_0,
            ),
            None => None,
        };
        assert forall|i: int| 0 <= i < items.len() implies exists|done: Option<TransformedView>|
            {
                &&& #[trigger] item_lines(resolved, items[i].action, items[i].id, done) == Ok::<
                    Seq<u8>,
                    ErrorKind,
                >(#[trigger] parts[i])
                &&& match (items[i].source, done) {
                    (Some(source), Some(t)) => transformed(
                        source,
                        resolved.transform,
                        resolved.partition,
                    ) == Ok::<TransformedView, ErrorKind>(t),
                    (None, None) => true,
                    _ => false,
                }
            } by {
            if i < front.len() {
                assert(front[i] == items[i]);
                assert(earlier[i] == parts[i]);
            } else {
                assert(item_lines(resolved, items[i].action, items[i].id, made) == Ok::<
                    Seq<u8>,
                    ErrorKind,
                >(parts[i]));
            }
        }
        parts
    }
}

/// The verb of a `_bulk` action.
fn verb(action: BulkAction) -> (r: &'static str)
    ensures
        r@ == action.verb(),
{
    match action {
        BulkAction::Index => "index",
        BulkAction::Create => "create",
        BulkAction::Update => "update",
        BulkAction::Delete => "delete",
    }
}

/// Appends one rewritten action line.
fn write_action_line(
    out: &mut Vec<u8>,
    action: BulkAction,
    resolved: &Resolved,
    physical_id: Option<&str>,
)
    ensures
        final(out)@ == old(out)@ + line(
            serialized(action_document(resolved@, action, text::viewed(physical_id))),
        ),
{
    let routing = resolved.decision.body_transform.routing_for(resolved.partition.as_str());
    let meta = address_value(resolved.decision.target.index.as_str(), physical_id, routing);
    let doc = single_value(verb(action), meta);
    push_line(out, write_json(&doc).as_slice());
}

/// The view of what became of a source, where there is one.
pub open spec fn done_view(done: Option<Transformed>) -> Option<TransformedView> {
    match done {
        Some(t) => Some(t@),
        None => None,
    }
}

/// Writes the lines of one `_bulk` operation whose source, where it has one, became
/// `done`.
///
/// # Errors
/// [`PrepareError::Rewrite`] where the explicit id cannot be mapped.
pub fn write_item(
    resolved: &Resolved,
    action: BulkAction,
    id: Option<&str>,
    done: Option<Transformed>,
) -> (r: Result<Vec<u8>, PrepareError>)
    ensures
        bytes_result(r) == item_lines(resolved@, action, text::viewed(id), done_view(done)),
{
    let explicit = match id {
        Some(id) => match read::map_id(
            &resolved.decision.body_transform,
            resolved.partition.as_str(),
            id,
        ) {
            Ok(id) => Some(id),
            Err(err) => return Err(err),
        },
        None => None,
    };
    let mut out: Vec<u8> = Vec::new();
    assert(out@ =~= Seq::<u8>::empty());
    match done {
        Some(t) => {
            let physical = match &explicit {
                Some(id) => Some(id.as_str()),
                None => match &t.id {
                    Some(id) => Some(id.as_str()),
                    None => None,
                },
            };
            write_action_line(&mut out, action, resolved, physical);
            push_line(&mut out, t.body.as_slice());
        },
        None => {
            let physical = match &explicit {
                Some(id) => Some(id.as_str()),
                None => None,
            };
            write_action_line(&mut out, action, resolved, physical);
        },
    }
    assert(item_lines(resolved@, action, text::viewed(id), done_view(done))->Ok_0 =~= out@);
    Ok(out)
}

/// Rewrites one operation of a `_bulk`.
fn rewrite_item(resolved: &Resolved, item: &BulkItem) -> (r: Result<Vec<u8>, PrepareError>)
    ensures
        bytes_result(r) == bulk_item_lines(resolved@, item@),
        r is Ok ==> item_keeps_to_partition(resolved@, item@),
{
    let done = match &item.source {
        Some(source) => match transform::apply(
            source.as_slice(),
            &resolved.decision.body_transform,
            resolved.partition.as_str(),
        ) {
            Ok(t) => Some(t),
            Err(err) => return Err(err),
        },
        None => None,
    };
    let id = match &item.id {
        Some(id) => Some(id.as_str()),
        None => None,
    };
    proof {
        if let Some(id) = item@.id {
            if mapped_id(resolved@.transform, resolved@.partition, id) is Ok {
                mapped_ids_are_scoped(resolved@.transform, resolved@.partition, id);
            }
        }
    }
    write_item(resolved, item.action, id, done)
}

/// Rewrites the given operations of a `_bulk`: each action line gets the physical
/// index and the partition-scoped id, and each source the injected fields.
///
/// # Errors
/// [`PrepareError`] of the first operation that cannot be rewritten.
pub fn bulk_of_items(resolved: &Resolved, items: &Vec<BulkItem>) -> (r: Result<
    Vec<u8>,
    PrepareError,
>)
    ensures
        bytes_result(r) == bulk_lines(resolved@, item_views(items@)),
        r is Ok ==> items_keep_to_partition(resolved@, item_views(items@)),
{
    let ghost all = item_views(items@);
    let mut out: Vec<u8> = Vec::new();
    let mut i: usize = 0;
    assert(all.take(0) =~= Seq::<BulkItemView>::empty());
    assert(out@ =~= Seq::<u8>::empty());
    while i < items.len()
        invariant
            i <= items@.len(),
            all == item_views(items@),
            bulk_lines(resolved@, all.take(i as int)) == Ok::<Seq<u8>, ErrorKind>(out@),
            forall|k: int| 0 <= k < i ==> item_keeps_to_partition(resolved@, #[trigger] all[k]),
        decreases items@.len() - i,
    {
        let ghost front = out@;
        proof {
            assert(all.take(i + 1).drop_last() =~= all.take(i as int));
            assert(all.take(i + 1).last() == items@[i as int]@);
        }
        let lines = match rewrite_item(resolved, &items[i]) {
            Ok(lines) => lines,
            Err(err) => {
                proof {
                    lemma_bulk_error(resolved@, all, i + 1);
                }
                return Err(err);
            },
        };
        out.extend_from_slice(lines.as_slice());
        assert(out@ =~= front + lines@);
        i += 1;
    }
    assert(all.take(i as int) =~= all);
    Ok(out)
}

/// Rewrites a `_bulk` body for the resolved placement.
///
/// # Errors
/// [`PrepareError`] where the body is no `_bulk` body, or of the first operation
/// that cannot be rewritten.
pub fn rewrite_bulk(resolved: &Resolved, body: &[u8]) -> (r: Result<Vec<u8>, PrepareError>)
    ensures
        bytes_result(r) == bulk_body(resolved@, body@),
        r is Ok ==> items_keep_to_partition(resolved@, bulk_items(body@)->0),
{
    match rewrite::parse_bulk(body) {
        Ok(items) => bulk_of_items(resolved, &items),
        Err(err) => Err(PrepareError::Rewrite(err)),
    }
}

/// Fetches are refused only where an id rule cannot be reversed, and then with the error of
/// a rewrite.
pub proof fn fetches_are_refused_only_by_the_id_rule(
    resolved: ResolvedView,
    body: Seq<u8>,
    ids: Seq<Seq<char>>,
)
    ensures
        match resolved.transform.id_rule() {
            Some(rule) => id_frame(rule.template, resolved.partition) is Some,
            None => true,
        } ==> mget_document(resolved, ids) is Ok,
        mget_document(resolved, ids) is Err ==> mget_document(resolved, ids)->Err_0 is Rewrite,
        mget_ids(body) == Some(ids) ==> mget_body(resolved, body) == match mget_document(
            resolved,
            ids,
        ) {
            Ok(doc) => Ok(serialized(doc)),
            Err(_) => Err(ErrorKind::Rewrite),
        },
        mget_ids(body) is None ==> mget_body(resolved, body) == Err::<Seq<u8>, ErrorKind>(
            ErrorKind::Rewrite,
        ),
    decreases ids.len(),
{
    if ids.len() > 0 {
        fetches_are_refused_only_by_the_id_rule(resolved, body, ids.drop_last());
        ids_are_framed_by_the_template(resolved.transform, resolved.partition, ids.last());
    }
}

/// Searches are refused only where one of them cannot be filtered, and then with the
/// error of a rewrite.
pub proof fn searches_are_refused_only_by_their_queries(
    resolved: ResolvedView,
    body: Seq<u8>,
    queries: Seq<Seq<u8>>,
)
    ensures
        (forall|i: int|
            0 <= i < queries.len() ==> partition_terms(
                resolved.transform.fields(),
                resolved.partition,
            ).len() == 0 || wrapped_query(
                if (#[trigger] queries[i]).len() == 0 {
                    seq![0x7bu8, 0x7du8]
                } else {
                    queries[i]
                },
                partition_terms(resolved.transform.fields(), resolved.partition),
            ) is Some) ==> msearch_lines(resolved, queries) is Ok,
        msearch_lines(resolved, queries) is Err ==> msearch_lines(resolved, queries)->Err_0
            is Rewrite,
        msearch_queries(body) == Some(queries) ==> msearch_body(resolved, body) == msearch_lines(
            resolved,
            queries,
        ),
        msearch_queries(body) is None ==> msearch_body(resolved, body) == Err::<Seq<u8>, ErrorKind>(
            ErrorKind::Rewrite,
        ),
    decreases queries.len(),
{
    let terms = partition_terms(resolved.transform.fields(), resolved.partition);
    if queries.len() > 0 {
        let front = queries.drop_last();
        searches_are_refused_only_by_their_queries(resolved, body, front);
        searches_are_wrapped_as_they_came(queries.last(), terms);
        if forall|i: int|
            0 <= i < queries.len() ==> terms.len() == 0 || wrapped_query(
                if (#[trigger] queries[i]).len() == 0 {
                    seq![0x7bu8, 0x7du8]
                } else {
                    queries[i]
                },
                terms,
            ) is Some {
            assert forall|i: int| 0 <= i < front.len() implies terms.len() == 0 || wrapped_query(
                if (#[trigger] front[i]).len() == 0 {
                    seq![0x7bu8, 0x7du8]
                } else {
                    front[i]
                },
                terms,
            ) is Some by {
                assert(front[i] == queries[i]);
            }
            assert(queries[queries.len() - 1] == queries.last());
        }
    }
}

/// A `_bulk` is refused only where an operation's source is, or where an explicit id comes
/// with an id rule that cannot be reversed.
pub proof fn bulks_are_refused_only_by_their_operations(
    resolved: ResolvedView,
    body: Seq<u8>,
    items: Seq<BulkItemView>,
)
    ensures
        (forall|i: int|
            0 <= i < items.len() ==> {
                &&& match (#[trigger] items[i]).source {
                    Some(source) => transformed(source, resolved.transform, resolved.partition)
                        is Ok,
                    None => true,
                }
                &&& match (items[i].id, resolved.transform.id_rule()) {
                    (Some(_), Some(rule)) => id_frame(rule.template, resolved.partition) is Some,
                    _ => true,
                }
            }) ==> bulk_lines(resolved, items) is Ok,
        bulk_items(body) == Some(items) ==> bulk_body(resolved, body) == bulk_lines(
            resolved,
            items,
        ),
        bulk_items(body) is None ==> bulk_body(resolved, body) == Err::<Seq<u8>, ErrorKind>(
            ErrorKind::Rewrite,
        ),
    decreases items.len(),
{
    if items.len() > 0 {
        let front = items.drop_last();
        bulks_are_refused_only_by_their_operations(resolved, body, front);
        if let Some(id) = items.last().id {
            ids_are_framed_by_the_template(resolved.transform, resolved.partition, id);
        }
        if forall|i: int|
            0 <= i < items.len() ==> {
                &&& match (#[trigger] items[i]).source {
                    Some(source) => transformed(source, resolved.transform, resolved.partition)
                        is Ok,
                    None => true,
                }
                &&& match (items[i].id, resolved.transform.id_rule()) {
                    (Some(_), Some(rule)) => id_frame(rule.template, resolved.partition) is Some,
                    _ => true,
                }
            } {
            assert forall|i: int| 0 <= i < front.len() implies {
                &&& match (#[trigger] front[i]).source {
                    Some(source) => transformed(source, resolved.transform, resolved.partition)
                        is Ok,
                    None => true,
                }
                &&& match (front[i].id, resolved.transform.id_rule()) {
                    (Some(_), Some(rule)) => id_frame(rule.template, resolved.partition) is Some,
                    _ => true,
                }
            } by {
                assert(front[i] == items[i]);
            }
            assert(items[items.len() - 1] == items.last());
        }
    }
}

/// What a source became is written as it is, and where there is no source there is nothing
/// to write.
pub proof fn sources_are_seen_as_they_became(t: Transformed)
    ensures
        done_view(Some(t)) == Some(t@),
        t@.body == t.body@,
        t.id is None <==> t@.id is None,
        done_view(None) is None,
{
}

} // verus!
