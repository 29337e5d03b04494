//! Reshaping responses: the inverse of the write transform.
//!
//! On the way back a document is shown in the client's logical view: the injected
//! fields stripped from its source, the physical id mapped back, and the index shown
//! as the logical one.
use vstd::prelude::*;
use crate::decision::field_views;
use crate::decision::BodyTransform;
use crate::decision::FieldView;
use crate::decision::Resolved;
use crate::decision::ResolvedView;
use crate::decision::TransformView;
use crate::demux::write_json;
use crate::json;
use crate::json::fields_of;
use crate::json::json_of;
use crate::json::jsons;
use crate::json::parsed;
use crate::json::serialized;
use crate::json::Json;
use crate::read::ids_round_trip;
use crate::read::mapped_id;
use crate::read::unmapped_id;
use crate::rewrite;
use crate::rewrite::adds;
use crate::rewrite::reads_as;
use crate::rewrite::stripped;
use crate::rewrite::with_all;
use crate::text::string_views;
use crate::transform::bytes_result;
use crate::transform::concrete;
use crate::transform::injects_no_raw;
use crate::transform::injects_text;
use crate::transform::lemma_concrete;
use crate::transform::lemma_kept;
use crate::transform::stamps;
use crate::transform::ErrorKind;
use crate::transform::PrepareError;

verus! {

/// The names of the fields that a placement injects.
pub open spec fn field_names(fields: Seq<FieldView>) -> Seq<Seq<char>> {
    Seq::new(fields.len(), |i: int| fields[i].name)
}

/// A document's fields with the injected ones stripped from its source.
pub open spec fn without_injected(m: Map<Seq<char>, Json>, transform: TransformView) -> Map<
    Seq<char>,
    Json,
> {
    if m.dom().contains("_source"@) {
        m.insert("_source"@, stripped(m["_source"@], field_names(transform.fields())))
    } else {
        m
    }
}

/// A document's fields with its physical id mapped back, where it has one.
pub open spec fn with_logical_id(
    m: Map<Seq<char>, Json>,
    transform: TransformView,
    partition: Seq<char>,
) -> Map<Seq<char>, Json> {
    if m.dom().contains("_id"@) {
        match m["_id"@] {
            Json::Text(id) => m.insert(
                "_id"@,
                Json::Text(unmapped_id(transform, partition, id)),
            ),
            _ => m,
        }
    } else {
        m
    }
}

/// A document with one field changed, where it has that field.
pub open spec fn edited(doc: Json, key: Seq<char>, f: spec_fn(Json) -> Json) -> Json {
    match doc.get(key) {
        Some(field) => Json::Fields(doc->Fields_0.insert(key, f(field))),
        None => doc,
    }
}

/// A list with each element changed; anything else as it is.
pub open spec fn each(doc: Json, f: spec_fn(Json) -> Json) -> Json {
    match doc {
        Json::List(items) => Json::List(items.map_values(f)),
        other => other,
    }
}

/// A get-by-id response in the client's view.
pub open spec fn shaped_get(
    doc: Json,
    transform: TransformView,
    index: Seq<char>,
    id: Seq<char>,
) -> Json {
    match doc {
        Json::Fields(m) => Json::Fields(
            without_injected(
                m.insert("_index"@, Json::Text(index)).insert("_id"@, Json::Text(id)),
                transform,
            ),
        ),
        other => other,
    }
}

/// One hit in the client's view.
pub open spec fn shaped_hit(hit: Json, resolved: ResolvedView, index: Seq<char>) -> Json {
    match hit {
        Json::Fields(m) => Json::Fields(
            without_injected(
                with_logical_id(
                    m.insert("_index"@, Json::Text(index)),
                    resolved.transform,
                    resolved.partition,
                ),
                resolved.transform,
            ),
        ),
        other => other,
    }
}

/// A list of hits in the client's view.
pub open spec fn shaped_hits(list: Json, resolved: ResolvedView, index: Seq<char>) -> Json {
    each(list, |hit: Json| shaped_hit(hit, resolved, index))
}

/// A search response in the client's view.
pub open spec fn shaped_search(doc: Json, resolved: ResolvedView, index: Seq<char>) -> Json {
    edited(
        doc,
        "hits"@,
        |hits: Json|
            edited(hits, "hits"@, |list: Json| shaped_hits(list, resolved, index)),
    )
}

/// An `_mget` response in the client's view.
pub open spec fn shaped_mget(doc: Json, resolved: ResolvedView, index: Seq<char>) -> Json {
    edited(doc, "docs"@, |list: Json| shaped_hits(list, resolved, index))
}

/// An `_msearch` response in the client's view: each of its responses is that of a
/// search.
pub open spec fn shaped_msearch(doc: Json, resolved: ResolvedView, index: Seq<char>) -> Json {
    edited(
        doc,
        "responses"@,
        |list: Json| each(list, |one: Json| shaped_search(one, resolved, index)),
    )
}

/// One item of a `_bulk` response in the client's view: it is keyed by its verb.
pub open spec fn shaped_bulk_item(item: Json, resolved: ResolvedView, index: Seq<char>) -> Json {
    let hit = |hit: Json| shaped_hit(hit, resolved, index);
    edited(edited(edited(edited(item, "index"@, hit), "create"@, hit), "update"@, hit), "delete"@, hit)
}

/// A `_bulk` response in the client's view.
pub open spec fn shaped_bulk(doc: Json, resolved: ResolvedView, index: Seq<char>) -> Json {
    edited(
        doc,
        "items"@,
        |list: Json| each(list, |item: Json| shaped_bulk_item(item, resolved, index)),
    )
}

/// A shaped hit shows the logical index, and its source holds no injected field: no
/// trace of the tenancy reaches the client.
pub proof fn shaped_hits_are_logical(
    m: Map<Seq<char>, Json>,
    resolved: ResolvedView,
    index: Seq<char>,
)
    ensures
        shaped_hit(Json::Fields(m), resolved, index).get("_index"@) == Some(Json::Text(index)),
        forall|i: int, source: Map<Seq<char>, Json>|
            0 <= i < resolved.transform.fields().len() && shaped_hit(
                Json::Fields(m),
                resolved,
                index,
            ).get("_source"@) == Some(Json::Fields(source)) ==> !#[trigger] source.dom().contains(
                (#[trigger] resolved.transform.fields()[i]).name,
            ),
{
    reveal_strlit("_index");
    reveal_strlit("_id");
    reveal_strlit("_source");
    assert("_index"@[1] == 'i' && "_source"@[1] == 's');
    assert("_index"@.len() != "_id"@.len() && "_source"@.len() != "_id"@.len());
    let fields = resolved.transform.fields();
    let names = field_names(fields);
    assert forall|i: int, source: Map<Seq<char>, Json>|
        0 <= i < fields.len() && shaped_hit(Json::Fields(m), resolved, index).get("_source"@)
            == Some(Json::Fields(source)) implies !#[trigger] source.dom().contains(
        (#[trigger] fields[i]).name,
    ) by {
        assert(names[i] == fields[i].name);
        assert(names.contains(fields[i].name));
    }
}

/// A hit that the client addressed as `id` comes back to it as `id`.
pub proof fn shaped_hits_show_the_clients_id(
    m: Map<Seq<char>, Json>,
    resolved: ResolvedView,
    index: Seq<char>,
    id: Seq<char>,
)
    requires
        mapped_id(resolved.transform, resolved.partition, id) is Ok,
        m.dom().contains("_id"@),
        m["_id"@] == Json::Text(mapped_id(resolved.transform, resolved.partition, id)->Ok_0),
    ensures
        shaped_hit(Json::Fields(m), resolved, index).get("_id"@) == Some(Json::Text(id)),
{
    reveal_strlit("_index");
    reveal_strlit("_id");
    reveal_strlit("_source");
    assert("_index"@.len() != "_id"@.len() && "_source"@.len() != "_id"@.len());
    ids_round_trip(resolved.transform, resolved.partition, id);
}

/// Whether a source is shown as the client knows it: without the fields that the
/// placement injects, and with every other field as it is. What is no object is shown as
/// it is, and what is absent stays absent.
pub open spec fn is_shown_source(
    stored: Option<Json>,
    shown: Option<Json>,
    fields: Seq<FieldView>,
) -> bool {
    match (stored, shown) {
        (Some(Json::Fields(old)), Some(Json::Fields(new))) => forall|key: Seq<char>|
            #![trigger new.dom().contains(key)]
            #![trigger old.dom().contains(key)]
            if exists|i: int| 0 <= i < fields.len() && (#[trigger] fields[i]).name == key {
                !new.dom().contains(key)
            } else {
                &&& new.dom().contains(key) == old.dom().contains(key)
                &&& old.dom().contains(key) ==> new[key] == old[key]
            },
        (Some(Json::Fields(_)), _) => false,
        _ => shown == stored,
    }
}

proof fn lemma_document_keys()
    ensures
        "_index"@ != "_id"@,
        "_index"@ != "_source"@,
        "_id"@ != "_source"@,
{
    reveal_strlit("_index");
    reveal_strlit("_id");
    reveal_strlit("_source");
    assert("_index"@.len() == 6 && "_id"@.len() == 3 && "_source"@.len() == 7);
}

proof fn lemma_shown_source(doc: Json, fields: Seq<FieldView>)
    ensures
        is_shown_source(Some(doc), Some(stripped(doc, field_names(fields))), fields),
{
    let names = field_names(fields);
    if let Json::Fields(old) = doc {
        let new = stripped(doc, names)->Fields_0;
        assert forall|key: Seq<char>|
            #![trigger new.dom().contains(key)]
            #![trigger old.dom().contains(key)]
            if exists|i: int| 0 <= i < fields.len() && (#[trigger] fields[i]).name == key {
                !new.dom().contains(key)
            } else {
                &&& new.dom().contains(key) == old.dom().contains(key)
                &&& old.dom().contains(key) ==> new[key] == old[key]
            } by {
            if exists|i: int| 0 <= i < fields.len() && (#[trigger] fields[i]).name == key {
                let i = choose|i: int| 0 <= i < fields.len() && (#[trigger] fields[i]).name == key;
                assert(names[i] == key);
            } else if names.contains(key) {
                let i = choose|i: int| 0 <= i < names.len() && names[i] == key;
                assert(fields[i].name == key);
            }
        }
    }
}

/// A hit is shown in the client's terms and is otherwise left alone: the logical index;
/// the id mapped back, where it is a string; the source without the injected fields; and
/// every other field as the cluster gave it. What is no object is shown as it is.
pub proof fn hits_are_shown_in_the_clients_terms(
    hit: Json,
    resolved: ResolvedView,
    index: Seq<char>,
)
    ensures
        !(hit is Fields) ==> shaped_hit(hit, resolved, index) == hit,
        hit is Fields ==> {
            let shown = shaped_hit(hit, resolved, index);
            &&& shown is Fields
            &&& shown.get("_index"@) == Some(Json::Text(index))
            &&& shown.get("_id"@) == match hit.get("_id"@) {
                Some(Json::Text(physical)) => Some(
                    Json::Text(unmapped_id(resolved.transform, resolved.partition, physical)),
                ),
                other => other,
            }
            &&& is_shown_source(
                hit.get("_source"@),
                shown.get("_source"@),
                resolved.transform.fields(),
            )
            &&& forall|key: Seq<char>|
                key != "_index"@ && key != "_id"@ && key != "_source"@ ==> #[trigger] shown.get(key)
                    == hit.get(key)
        },
{
    lemma_document_keys();
    if let Some(source) = hit.get("_source"@) {
        lemma_shown_source(source, resolved.transform.fields());
    }
}

/// A fetched document is shown under the index and the id that the client used, with its
/// source as the client knows it, and every other field as the cluster gave it.
pub proof fn fetched_documents_are_shown_in_the_clients_terms(
    doc: Json,
    transform: TransformView,
    index: Seq<char>,
    id: Seq<char>,
)
    ensures
        !(doc is Fields) ==> shaped_get(doc, transform, index, id) == doc,
        doc is Fields ==> {
            let shown = shaped_get(doc, transform, index, id);
            &&& shown is Fields
            &&& shown.get("_index"@) == Some(Json::Text(index))
            &&& shown.get("_id"@) == Some(Json::Text(id))
            &&& is_shown_source(
                doc.get("_source"@),
                shown.get("_source"@),
                transform.fields(),
            )
            &&& forall|key: Seq<char>|
                key != "_index"@ && key != "_id"@ && key != "_source"@ ==> #[trigger] shown.get(key)
                    == doc.get(key)
        },
{
    lemma_document_keys();
    if let Some(source) = doc.get("_source"@) {
        lemma_shown_source(source, transform.fields());
    }
}

/// Whether `shown` is the list `found` with each element shown as a hit, in order; what
/// is no list is shown as it is.
pub open spec fn are_shown_hits(
    found: Json,
    shown: Json,
    resolved: ResolvedView,
    index: Seq<char>,
) -> bool {
    match (found, shown) {
        (Json::List(old), Json::List(new)) => {
            &&& new.len() == old.len()
            &&& forall|i: int|
                0 <= i < old.len() ==> #[trigger] new[i] == shaped_hit(old[i], resolved, index)
        },
        (Json::List(_), _) => false,
        _ => shown == found,
    }
}

/// Every hit of a search is shown in the client's terms, in order, and nothing else of
/// the response changes.
pub proof fn every_hit_of_a_search_is_shown(doc: Json, resolved: ResolvedView, index: Seq<char>)
    ensures
        match doc.get("hits"@) {
            Some(hits) => {
                let shown = shaped_search(doc, resolved, index);
                &&& shown.get("hits"@) is Some
                &&& match hits.get("hits"@) {
                    Some(list) => {
                        &&& shown.get("hits"@)->0.get("hits"@) is Some
                        &&& are_shown_hits(
                            list,
                            shown.get("hits"@)->0.get("hits"@)->0,
                            resolved,
                            index,
                        )
                    },
                    None => shown.get("hits"@) == Some(hits),
                }
                &&& forall|key: Seq<char>|
                    key != "hits"@ ==> #[trigger] shown.get("hits"@)->0.get(key) == hits.get(key)
                &&& forall|key: Seq<char>|
                    key != "hits"@ ==> #[trigger] shown.get(key) == doc.get(key)
            },
            None => shaped_search(doc, resolved, index) == doc,
        },
{
}

/// Every document of an `_mget` is shown in the client's terms, in order, and nothing
/// else of the response changes.
pub proof fn every_fetched_document_is_shown(doc: Json, resolved: ResolvedView, index: Seq<char>)
    ensures
        match doc.get("docs"@) {
            Some(list) => {
                let shown = shaped_mget(doc, resolved, index);
                &&& shown.get("docs"@) is Some
                &&& are_shown_hits(list, shown.get("docs"@)->0, resolved, index)
                &&& forall|key: Seq<char>|
                    key != "docs"@ ==> #[trigger] shown.get(key) == doc.get(key)
            },
            None => shaped_mget(doc, resolved, index) == doc,
        },
{
}

/// Every search of an `_msearch` is shown as a search of its own, in order, and nothing
/// else of the response changes.
pub proof fn every_search_of_many_is_shown(doc: Json, resolved: ResolvedView, index: Seq<char>)
    ensures
        match doc.get("responses"@) {
            Some(list) => {
                let shown = shaped_msearch(doc, resolved, index);
                &&& shown.get("responses"@) is Some
                &&& match (list, shown.get("responses"@)->0) {
                    (Json::List(old), Json::List(new)) => {
                        &&& new.len() == old.len()
                        &&& forall|i: int|
                            0 <= i < old.len() ==> #[trigger] new[i] == shaped_search(
                                old[i],
                                resolved,
                                index,
                            )
                    },
                    (Json::List(_), _) => false,
                    (_, new) => new == list,
                }
                &&& forall|key: Seq<char>|
                    key != "responses"@ ==> #[trigger] shown.get(key) == doc.get(key)
            },
            None => shaped_msearch(doc, resolved, index) == doc,
        },
{
}

proof fn lemma_verbs()
    ensures
        "index"@ != "create"@,
        "index"@ != "update"@,
        "index"@ != "delete"@,
        "create"@ != "update"@,
        "create"@ != "delete"@,
        "update"@ != "delete"@,
{
    reveal_strlit("index");
    reveal_strlit("create");
    reveal_strlit("update");
    reveal_strlit("delete");
    assert("index"@.len() == 5 && "create"@.len() == 6);
    assert("update"@.len() == 6 && "delete"@.len() == 6);
    assert("create"@[0] == 'c' && "update"@[0] == 'u' && "delete"@[0] == 'd');
}

/// The outcome of a bulk operation is shown in the client's terms whatever its verb:
/// under each of `index`, `create`, `update` and `delete` stands the logical index, and
/// the id that the client used where the cluster names the physical id of one. Nothing
/// else of the item changes.
pub proof fn bulk_outcomes_are_shown_in_the_clients_terms(
    item: Json,
    resolved: ResolvedView,
    index: Seq<char>,
)
    ensures
        ({
            let shown = shaped_bulk_item(item, resolved, index);
            &&& forall|verb: Seq<char>|
                verb == "index"@ || verb == "create"@ || verb == "update"@ || verb == "delete"@
                    ==> match item.get(verb) {
                    Some(outcome) => {
                        &&& #[trigger] shown.get(verb) == Some(
                            shaped_hit(outcome, resolved, index),
                        )
                        &&& outcome is Fields ==> shown.get(verb)->0.get("_index"@) == Some(
                            Json::Text(index),
                        )
                        &&& forall|id: Seq<char>|
                            mapped_id(resolved.transform, resolved.partition, id) is Ok
                                && outcome.get("_id"@) == Some(
                                Json::Text(
                                    (#[trigger] mapped_id(
                                        resolved.transform,
                                        resolved.partition,
                                        id,
                                    ))->Ok_0,
                                ),
                            ) ==> shown.get(verb)->0.get("_id"@) == Some(Json::Text(id))
                    },
                    None => shown.get(verb) is None,
                }
            &&& forall|key: Seq<char>|
                key != "index"@ && key != "create"@ && key != "update"@ && key != "delete"@
                    ==> #[trigger] shown.get(key) == item.get(key)
            &&& !(item is Fields) ==> shown == item
        }),
{
    lemma_verbs();
    let shown = shaped_bulk_item(item, resolved, index);
    assert forall|verb: Seq<char>|
        verb == "index"@ || verb == "create"@ || verb == "update"@ || verb
            == "delete"@ implies match item.get(verb) {
        Some(outcome) => {
            &&& #[trigger] shown.get(verb) == Some(shaped_hit(outcome, resolved, index))
            &&& outcome is Fields ==> shown.get(verb)->0.get("_index"@) == Some(Json::Text(index))
            &&& forall|id: Seq<char>|
                mapped_id(resolved.transform, resolved.partition, id) is Ok && outcome.get("_id"@)
                    == Some(
                    Json::Text(
                        (#[trigger] mapped_id(
                            resolved.transform,
                            resolved.partition,
                            id,
                        ))->Ok_0,
                    ),
                ) ==> shown.get(verb)->0.get("_id"@) == Some(Json::Text(id))
        },
        None => shown.get(verb) is None,
    } by {
        if let Some(outcome) = item.get(verb) {
            hits_are_shown_in_the_clients_terms(outcome, resolved, index);
            assert forall|id: Seq<char>|
                mapped_id(resolved.transform, resolved.partition, id) is Ok && outcome.get("_id"@)
                    == Some(
                    Json::Text(
                        (#[trigger] mapped_id(
                            resolved.transform,
                            resolved.partition,
                            id,
                        ))->Ok_0,
                    ),
                ) implies shown.get(verb)->0.get("_id"@) == Some(Json::Text(id)) by {
                ids_round_trip(resolved.transform, resolved.partition, id);
            }
        }
    }
}

/// Every item of a `_bulk` response is shown, in order, and nothing else of the response
/// changes.
pub proof fn every_bulk_item_is_shown(doc: Json, resolved: ResolvedView, index: Seq<char>)
    ensures
        match doc.get("items"@) {
            Some(list) => {
                let shown = shaped_bulk(doc, resolved, index);
                &&& shown.get("items"@) is Some
                &&& match (list, shown.get("items"@)->0) {
                    (Json::List(old), Json::List(new)) => {
                        &&& new.len() == old.len()
                        &&& forall|i: int|
                            0 <= i < old.len() ==> #[trigger] new[i] == shaped_bulk_item(
                                old[i],
                                resolved,
                                index,
                            )
                    },
                    (Json::List(_), _) => false,
                    (_, new) => new == list,
                }
                &&& forall|key: Seq<char>|
                    key != "items"@ ==> #[trigger] shown.get(key) == doc.get(key)
            },
            None => shaped_bulk(doc, resolved, index) == doc,
        },
{
}

/// What a client wrote it reads back. Where a document was stored with the placement's
/// fields and the cluster's answer holds what was stored, the shaped answer holds an
/// object that reads as the document the client wrote, under the index and the id that
/// the client used.
pub proof fn reads_give_back_writes(
    body: Seq<u8>,
    stored: Seq<u8>,
    answer: Map<Seq<char>, Json>,
    resolved: ResolvedView,
    index: Seq<char>,
    id: Seq<char>,
) -> (own: Map<Seq<char>, Json>)
    requires
        parsed(body) is Some,
        injects_text(resolved.transform.fields()),
        injects_no_raw(resolved.transform.fields()),
        resolved.transform.fields().len() > 0,
        stamps(body, resolved.transform, resolved.partition, stored),
        answer.dom().contains("_source"@),
        parsed(stored) == Some(answer["_source"@]),
    ensures
        reads_as(own, parsed(body)->0),
        shaped_get(Json::Fields(answer), resolved.transform, index, id).get("_source"@) == Some(
            Json::Fields(own),
        ),
        shaped_get(Json::Fields(answer), resolved.transform, index, id).get("_index"@) == Some(
            Json::Text(index),
        ),
        shaped_get(Json::Fields(answer), resolved.transform, index, id).get("_id"@) == Some(
            Json::Text(id),
        ),
        shaped_hit(Json::Fields(answer), resolved, index).get("_source"@) == Some(
            Json::Fields(own),
        ),
{
    reveal_strlit("_index");
    reveal_strlit("_id");
    reveal_strlit("_source");
    assert("_index"@[1] == 'i' && "_source"@[1] == 's');
    assert("_index"@.len() != "_id"@.len() && "_source"@.len() != "_id"@.len());
    let fields = resolved.transform.fields();
    let values = concrete(fields, resolved.partition)->0;
    lemma_concrete(fields, resolved.partition);
    let own = choose|own: Map<Seq<char>, Json>|
        #[trigger] reads_as(own, parsed(body)->0) && adds(own, values, stored);
    let names = field_names(fields);
    let all = with_all(own, values);
    let kept = all.restrict(all.dom().filter(|key: Seq<char>| !names.contains(key)));
    assert(answer["_source"@] == Json::Fields(all));
    assert forall|key: Seq<char>|
        {
            &&& #[trigger] kept.dom().contains(key) == own.dom().contains(key)
            &&& own.dom().contains(key) ==> kept[key] == own[key]
        } by {
        if names.contains(key) {
            let i = choose|i: int| 0 <= i < names.len() && names[i] == key;
            assert(values[i].0 == key);
        } else {
            assert forall|i: int| 0 <= i < values.len() implies (#[trigger] values[i]).0 != key by {
                assert(names[i] == values[i].0);
            }
            lemma_kept(own, values, key);
        }
    }
    assert(kept.dom() =~= own.dom());
    assert(kept =~= own);
    own
}

/// An unstamped document is read back as it was written: a placement without fields of
/// its own strips nothing.
pub proof fn plain_documents_are_left_alone(
    body: Seq<u8>,
    stored: Seq<u8>,
    answer: Map<Seq<char>, Json>,
    resolved: ResolvedView,
    index: Seq<char>,
    id: Seq<char>,
)
    requires
        resolved.transform.fields().len() == 0,
        stamps(body, resolved.transform, resolved.partition, stored),
        answer.dom().contains("_source"@),
    ensures
        stored == body,
        shaped_get(Json::Fields(answer), resolved.transform, index, id).get("_source"@) == Some(
            answer["_source"@],
        ),
        shaped_hit(Json::Fields(answer), resolved, index).get("_source"@) == Some(
            answer["_source"@],
        ),
{
    reveal_strlit("_index");
    reveal_strlit("_id");
    reveal_strlit("_source");
    assert("_index"@[1] == 'i' && "_source"@[1] == 's');
    assert("_index"@.len() != "_id"@.len() && "_source"@.len() != "_id"@.len());
    let names = field_names(resolved.transform.fields());
    if let Json::Fields(m) = answer["_source"@] {
        let kept = m.restrict(m.dom().filter(|key: Seq<char>| !names.contains(key)));
        assert(kept.dom() =~= m.dom());
        assert(kept =~= m);
    }
}

fn injected_names(transform: &BodyTransform) -> (names: Vec<String>)
    ensures
        string_views(names@) == field_names(transform@.fields()),
{
    let mut names: Vec<String> = Vec::new();
    if let Some(fields) = transform.fields() {
        let mut i: usize = 0;
        while i < fields.len()
            invariant
                i <= fields@.len(),
                names@.len() == i,
                forall|k: int| 0 <= k < i ==> (#[trigger] names@[k])@ == fields@[k].name@,
            decreases fields@.len() - i,
        {
            names.push(fields[i].name.clone());
            i += 1;
        }
        assert(string_views(names@) =~= field_names(field_views(fields@)));
    } else {
        assert(string_views(names@) =~= field_names(transform@.fields()));
    }
    names
}

fn parse_upstream(body: &[u8]) -> (r: Result<serde_json::Value, PrepareError>)
    ensures
        match r {
            Ok(v) => parsed(body@) == Some(json_of(v)),
            Err(err) => parsed(body@) is None && err@ == ErrorKind::Rewrite,
        },
{
    match json::parse(body) {
        Ok(v) => Ok(v),
        Err(_) => Err(PrepareError::Rewrite(rewrite::invalid_json())),
    }
}

/// What reshaping a response body gives: the text of the reshaped document, or an
/// error for a body that is no JSON.
pub open spec fn reshaped(body: Seq<u8>, f: spec_fn(Json) -> Json) -> Result<Seq<u8>, ErrorKind> {
    match parsed(body) {
        None => Err(ErrorKind::Rewrite),
        Some(doc) => Ok(serialized(f(doc))),
    }
}

/// Shows a fetched document under the id the client used.
pub fn shape_get_document(
    resolved: &Resolved,
    logical_index: &str,
    logical_id: &str,
    doc: &mut serde_json::Value,
)
    ensures
        json_of(*final(doc)) == shaped_get(
            json_of(*old(doc)),
            resolved@.transform,
            logical_index@,
            logical_id@,
        ),
{
    let names = injected_names(&resolved.decision.body_transform);
    if let Some(obj) = doc.as_object_mut() {
        obj.insert("_index".to_owned(), json::text_value(logical_index));
        obj.insert("_id".to_owned(), json::text_value(logical_id));
        if let Some(source) = json::field_mut(obj, "_source") {
            rewrite::strip_fields(source, &names);
        }
    }
}

/// Reshapes one hit in place. An id that does not fit the placement's template is
/// left as it is.
fn shape_hit(
    hit: &mut serde_json::Value,
    resolved: &Resolved,
    names: &Vec<String>,
    logical_index: &str,
)
    requires
        string_views(names@) == field_names(resolved@.transform.fields()),
    ensures
        json_of(*final(hit)) == shaped_hit(json_of(*old(hit)), resolved@, logical_index@),
{
    if let Some(obj) = hit.as_object_mut() {
        obj.insert("_index".to_owned(), json::text_value(logical_index));
        let ghost indexed = fields_of(*obj);
        let logical = match json::field(obj, "_id") {
            Some(id) => match id.as_str() {
                Some(physical) => unmap(resolved, physical),
                None => None,
            },
            None => None,
        };
        if let Some(logical) = logical {
            obj.insert("_id".to_owned(), json::text_value(logical.as_str()));
        } else {
            proof {
                let same = with_logical_id(indexed, resolved@.transform, resolved@.partition);
                assert(same =~= indexed);
            }
        }
        if let Some(source) = json::field_mut(obj, "_source") {
            rewrite::strip_fields(source, names);
        }
    }
}

/// The logical id of a physical one, where there is another.
fn unmap(resolved: &Resolved, physical: &str) -> (r: Option<String>)
    ensures
        unmapped_id(resolved@.transform, resolved@.partition, physical@) == match r {
            Some(logical) => logical@,
            None => physical@,
        },
{
    match resolved.decision.body_transform.id_rule() {
        Some(rule) => match rewrite::map_to_logical(
            rule.template.as_str(),
            resolved.partition.as_str(),
            physical,
        ) {
            Ok(logical) => logical,
            Err(_) => None,
        },
        None => None,
    }
}

/// Reshapes each hit of a list in place.
fn shape_hits(
    list: &mut serde_json::Value,
    resolved: &Resolved,
    names: &Vec<String>,
    logical_index: &str,
)
    requires
        string_views(names@) == field_names(resolved@.transform.fields()),
    ensures
        json_of(*final(list)) == shaped_hits(json_of(*old(list)), resolved@, logical_index@),
{
    if let Some(items) = list.as_array_mut() {
        let ghost start = items@;
        let n: usize = items.len();
        let mut i: usize = 0;
        while i < n
            invariant
                string_views(names@) == field_names(resolved@.transform.fields()),
                n == items@.len(),
                start.len() == n,
                i <= n,
                forall|k: int|
                    0 <= k < i ==> json_of(#[trigger] items@[k]) == shaped_hit(
                        json_of(start[k]),
                        resolved@,
                        logical_index@,
                    ),
                forall|k: int| i <= k < n ==> #[trigger] items@[k] == start[k],
            decreases n - i,
        {
            shape_hit(&mut items[i], resolved, names, logical_index);
            i += 1;
        }
        assert(jsons(items@) =~= jsons(start).map_values(
            |hit: Json| shaped_hit(hit, resolved@, logical_index@),
        ));
    }
}

/// Reshapes a search response in place.
fn shape_search(
    doc: &mut serde_json::Value,
    resolved: &Resolved,
    names: &Vec<String>,
    logical_index: &str,
)
    requires
        string_views(names@) == field_names(resolved@.transform.fields()),
    ensures
        json_of(*final(doc)) == shaped_search(json_of(*old(doc)), resolved@, logical_index@),
{
    if let Some(hits) = json::get_mut(doc, "hits") {
        if let Some(list) = json::get_mut(hits, "hits") {
            shape_hits(list, resolved, names, logical_index);
        }
    }
}

/// Reshapes one item of a `_bulk` response in place.
fn shape_bulk_item(
    item: &mut serde_json::Value,
    resolved: &Resolved,
    names: &Vec<String>,
    logical_index: &str,
)
    requires
        string_views(names@) == field_names(resolved@.transform.fields()),
    ensures
        json_of(*final(item)) == shaped_bulk_item(json_of(*old(item)), resolved@, logical_index@),
{
    if let Some(outcome) = json::get_mut(item, "index") {
        shape_hit(outcome, resolved, names, logical_index);
    }
    if let Some(outcome) = json::get_mut(item, "create") {
        shape_hit(outcome, resolved, names, logical_index);
    }
    if let Some(outcome) = json::get_mut(item, "update") {
        shape_hit(outcome, resolved, names, logical_index);
    }
    if let Some(outcome) = json::get_mut(item, "delete") {
        shape_hit(outcome, resolved, names, logical_index);
    }
}

/// Shows each hit of a search response in the client's view.
pub fn shape_search_document(
    resolved: &Resolved,
    logical_index: &str,
    doc: &mut serde_json::Value,
)
    ensures
        json_of(*final(doc)) == shaped_search(json_of(*old(doc)), resolved@, logical_index@),
{
    let names = injected_names(&resolved.decision.body_transform);
    shape_search(doc, resolved, &names, logical_index);
}

/// Shows each document of an `_mget` response in the client's view.
pub fn shape_mget_document(
    resolved: &Resolved,
    logical_index: &str,
    doc: &mut serde_json::Value,
)
    ensures
        json_of(*final(doc)) == shaped_mget(json_of(*old(doc)), resolved@, logical_index@),
{
    let names = injected_names(&resolved.decision.body_transform);
    if let Some(list) = json::get_mut(doc, "docs") {
        shape_hits(list, resolved, &names, logical_index);
    }
}

/// Shows each search of an `_msearch` response in the client's view.
pub fn shape_msearch_document(
    resolved: &Resolved,
    logical_index: &str,
    doc: &mut serde_json::Value,
)
    ensures
        json_of(*final(doc)) == shaped_msearch(json_of(*old(doc)), resolved@, logical_index@),
{
    let names = injected_names(&resolved.decision.body_transform);
    if let Some(list) = json::get_mut(doc, "responses") {
        if let Some(items) = list.as_array_mut() {
            let ghost start = items@;
            let n: usize = items.len();
            let mut i: usize = 0;
            while i < n
                invariant
                    string_views(names@) == field_names(resolved@.transform.fields()),
                    n == items@.len(),
                    start.len() == n,
                    i <= n,
                    forall|k: int|
                        0 <= k < i ==> json_of(#[trigger] items@[k]) == shaped_search(
                            json_of(start[k]),
                            resolved@,
                            logical_index@,
                        ),
                    forall|k: int| i <= k < n ==> #[trigger] items@[k] == start[k],
                decreases n - i,
            {
                shape_search(&mut items[i], resolved, &names, logical_index);
                i += 1;
            }
            assert(jsons(items@) =~= jsons(start).map_values(
                |one: Json| shaped_search(one, resolved@, logical_index@),
            ));
        }
    }
}

/// Shows each item of a `_bulk` response in the client's view.
pub fn shape_bulk_document(
    resolved: &Resolved,
    logical_index: &str,
    doc: &mut serde_json::Value,
)
    ensures
        json_of(*final(doc)) == shaped_bulk(json_of(*old(doc)), resolved@, logical_index@),
{
    let names = injected_names(&resolved.decision.body_transform);
    if let Some(list) = json::get_mut(doc, "items") {
        if let Some(items) = list.as_array_mut() {
            let ghost start = items@;
            let n: usize = items.len();
            let mut i: usize = 0;
            while i < n
                invariant
                    string_views(names@) == field_names(resolved@.transform.fields()),
                    n == items@.len(),
                    start.len() == n,
                    i <= n,
                    forall|k: int|
                        0 <= k < i ==> json_of(#[trigger] items@[k]) == shaped_bulk_item(
                            json_of(start[k]),
                            resolved@,
                            logical_index@,
                        ),
                    forall|k: int| i <= k < n ==> #[trigger] items@[k] == start[k],
                decreases n - i,
            {
                shape_bulk_item(&mut items[i], resolved, &names, logical_index);
                i += 1;
            }
            assert(jsons(items@) =~= jsons(start).map_values(
                |item: Json| shaped_bulk_item(item, resolved@, logical_index@),
            ));
        }
    }
}

/// Reshapes a get-by-id response into the client's logical view: the logical
/// `_index` and `_id`, and a `_source` without injected fields.
///
/// # Errors
/// [`PrepareError::Rewrite`] if the upstream body is not valid JSON.
pub fn shape_get_response(
    resolved: &Resolved,
    logical_index: &str,
    logical_id: &str,
    upstream_body: &[u8],
) -> (r: Result<Vec<u8>, PrepareError>)
    ensures
        bytes_result(r) == reshaped(
            upstream_body@,
            |doc: Json| shaped_get(doc, resolved@.transform, logical_index@, logical_id@),
        ),
{
    let mut doc = match parse_upstream(upstream_body) {
        Ok(doc) => doc,
        Err(err) => return Err(err),
    };
    shape_get_document(resolved, logical_index, logical_id, &mut doc);
    Ok(write_json(&doc))
}

/// Reshapes a search response: each hit shows the logical `_index` and `_id`, and a
/// `_source` without injected fields.
///
/// # Errors
/// [`PrepareError::Rewrite`] if the upstream body is not valid JSON.
pub fn shape_search_response(
    resolved: &Resolved,
    logical_index: &str,
    upstream_body: &[u8],
) -> (r: Result<Vec<u8>, PrepareError>)
    ensures
        bytes_result(r) == reshaped(
            upstream_body@,
            |doc: Json| shaped_search(doc, resolved@, logical_index@),
        ),
{
    let mut doc = match parse_upstream(upstream_body) {
        Ok(doc) => doc,
        Err(err) => return Err(err),
    };
    shape_search_document(resolved, logical_index, &mut doc);
    Ok(write_json(&doc))
}

/// Reshapes an `_mget` response: each of its documents as a hit of a search.
///
/// # Errors
/// [`PrepareError::Rewrite`] if the upstream body is not valid JSON.
pub fn shape_mget_response(
    resolved: &Resolved,
    logical_index: &str,
    upstream_body: &[u8],
) -> (r: Result<Vec<u8>, PrepareError>)
    ensures
        bytes_result(r) == reshaped(
            upstream_body@,
            |doc: Json| shaped_mget(doc, resolved@, logical_index@),
        ),
{
    let mut doc = match parse_upstream(upstream_body) {
        Ok(doc) => doc,
        Err(err) => return Err(err),
    };
    shape_mget_document(resolved, logical_index, &mut doc);
    Ok(write_json(&doc))
}

/// Reshapes an `_msearch` response: each of its responses as that of a search.
///
/// # Errors
/// [`PrepareError::Rewrite`] if the upstream body is not valid JSON.
pub fn shape_msearch_response(
    resolved: &Resolved,
    logical_index: &str,
    upstream_body: &[u8],
) -> (r: Result<Vec<u8>, PrepareError>)
    ensures
        bytes_result(r) == reshaped(
            upstream_body@,
            |doc: Json| shaped_msearch(doc, resolved@, logical_index@),
        ),
{
    let mut doc = match parse_upstream(upstream_body) {
        Ok(doc) => doc,
        Err(err) => return Err(err),
    };
    shape_msearch_document(resolved, logical_index, &mut doc);
    Ok(write_json(&doc))
}

/// Reshapes a `_bulk` response: each item, under its verb, shows the logical
/// `_index` and `_id`.
///
/// # Errors
/// [`PrepareError::Rewrite`] if the upstream body is not valid JSON.
pub fn shape_bulk_response(
    resolved: &Resolved,
    logical_index: &str,
    upstream_body: &[u8],
) -> (r: Result<Vec<u8>, PrepareError>)
    ensures
        bytes_result(r) == reshaped(
            upstream_body@,
            |doc: Json| shaped_bulk(doc, resolved@, logical_index@),
        ),
{
    let mut doc = match parse_upstream(upstream_body) {
        Ok(doc) => doc,
        Err(err) => return Err(err),
    };
    shape_bulk_document(resolved, logical_index, &mut doc);
    Ok(write_json(&doc))
}

/// A response body is shown as the client's view of the document that it holds; one that
/// is no JSON is not.
pub proof fn bodies_are_shown_as_their_documents(body: Seq<u8>, f: spec_fn(Json) -> Json)
    ensures
        match parsed(body) {
            Some(doc) => reshaped(body, f) == Ok::<Seq<u8>, ErrorKind>(serialized(f(doc))),
            None => reshaped(body, f) == Err::<Seq<u8>, ErrorKind>(ErrorKind::Rewrite),
        },
{
}

} // verus!
