//! The body transforms of `osproxy_rewrite`, as this crate uses them.
//!
//! These items are trusted: each makes one call into `osproxy_rewrite` and states
//! what the call does. Where the result takes a JSON scanner to describe, it gets a
//! name, which stands for the outside function applied to plain values; what this
//! crate does with the result is stated over the name.
use vstd::prelude::*;
use crate::json::json_of;
use crate::json::no_fields;
use crate::json::parsed;
use crate::json::single;
use crate::json::Json;
use crate::json::RAW_KEY;
use crate::template::fits_frame;
use crate::template::id_frame;
use crate::template::keyless;
use crate::template::logical_of;
use crate::template::physical_of;
use crate::template::pieces;
use crate::text;

verus! {

#[verifier::external_type_specification]
#[verifier::external_body]
pub struct ExRewriteError(osproxy_rewrite::RewriteError);

/// A named JSON value, as a view.
pub type NamedJson = (Seq<char>, Json);

/// The views of a list of named values.
pub open spec fn named(fields: Seq<(String, serde_json::Value)>) -> Seq<NamedJson> {
    Seq::new(fields.len(), |i: int| (fields[i].0@, json_of(fields[i].1)))
}

/// The verb of one `_bulk` operation.
#[derive(Debug, Clone, Copy, PartialEq, Eq, Structural)]
pub enum BulkAction {
    /// Index a document.
    Index,
    /// Create a document.
    Create,
    /// Update a document.
    Update,
    /// Delete a document.
    Delete,
}

impl BulkAction {
    /// The verb on the wire.
    pub open spec fn verb(self) -> Seq<char> {
        match self {
            BulkAction::Index => "index"@,
            BulkAction::Create => "create"@,
            BulkAction::Update => "update"@,
            BulkAction::Delete => "delete"@,
        }
    }
}

/// What one `_bulk` operation asks for, as far as rewriting it depends on it.
#[derive(Debug, Clone)]
pub struct BulkItem {
    /// The verb.
    pub action: BulkAction,
    /// The explicit document id of the action line, if any.
    pub id: Option<String>,
    /// The source document, for every verb but delete.
    pub source: Option<Vec<u8>>,
}

/// The view of a [`BulkItem`].
pub struct BulkItemView {
    /// The verb.
    pub action: BulkAction,
    /// The explicit document id.
    pub id: Option<Seq<char>>,
    /// The source document.
    pub source: Option<Seq<u8>>,
}

impl View for BulkItem {
    type V = BulkItemView;

    open spec fn view(&self) -> BulkItemView {
        BulkItemView {
            action: self.action,
            id: text::optional(self.id),
            source: match self.source {
                Some(source) => Some(source@),
                None => None,
            },
        }
    }
}

/// The views of a list of `_bulk` operations.
pub open spec fn item_views(items: Seq<BulkItem>) -> Seq<BulkItemView> {
    Seq::new(items.len(), |i: int| items[i]@)
}

/// The views of a list of byte strings.
pub open spec fn byte_views(parts: Seq<Vec<u8>>) -> Seq<Seq<u8>> {
    Seq::new(parts.len(), |i: int| parts[i]@)
}

/// A JSON object with fields spliced in behind its opening brace; `None` where the
/// body is no object or has one of the fields already.
pub uninterp spec fn injected(body: Seq<u8>, fields: Seq<NamedJson>) -> Option<Seq<u8>>;

/// Whether a body is a single well-formed JSON document.
pub uninterp spec fn validated(body: Seq<u8>) -> bool;

/// The document id that a template gives for a document.
pub uninterp spec fn constructed_id(
    template: Seq<char>,
    partition: Seq<char>,
    body: Seq<u8>,
) -> Option<Seq<char>>;

/// A search body with its query enclosed in a `bool` whose `filter` holds the given
/// terms.
pub uninterp spec fn wrapped_query(body: Seq<u8>, filter: Seq<NamedJson>) -> Option<Seq<u8>>;

/// The operations of a `_bulk` body.
pub uninterp spec fn bulk_items(body: Seq<u8>) -> Option<Seq<BulkItemView>>;

/// The texts of a list of values, where each is a string.
pub open spec fn texts(values: Seq<Option<Json>>) -> Option<Seq<Seq<char>>> {
    if forall|i: int| 0 <= i < values.len() ==> is_text(#[trigger] values[i]) {
        Some(Seq::new(values.len(), |i: int| values[i]->0->Text_0))
    } else {
        None
    }
}

/// Whether a value is there and is a string.
pub open spec fn is_text(value: Option<Json>) -> bool {
    match value {
        Some(Json::Text(_)) => true,
        _ => false,
    }
}

/// The document ids that an `_mget` body asks for: the `_id` of each of its `docs`, or
/// else its `ids`.
pub open spec fn mget_ids(body: Seq<u8>) -> Option<Seq<Seq<char>>> {
    match parsed(body) {
        None => None,
        Some(doc) => match (doc.get("docs"@), doc.get("ids"@)) {
            (Some(Json::List(docs)), _) => texts(docs.map_values(|doc: Json| doc.get("_id"@))),
            (_, Some(Json::List(ids))) => texts(ids.map_values(|id: Json| Some(id))),
            _ => None,
        },
    }
}

/// The lines of a text, without the line feeds between them; there is always at least
/// one.
pub open spec fn lines(body: Seq<u8>) -> Seq<Seq<u8>>
    decreases body.len(),
{
    if body.len() == 0 {
        seq![seq![]]
    } else {
        let rest = lines(body.drop_first());
        if body[0] == 0x0a {
            seq![seq![]] + rest
        } else {
            rest.update(0, seq![body[0]] + rest[0])
        }
    }
}

/// Whether a line holds nothing but ASCII white space.
pub open spec fn is_blank(line: Seq<u8>) -> bool {
    forall|i: int| 0 <= i < line.len() ==> is_ascii_space(#[trigger] line[i])
}

/// The ASCII white space: space, tab, line feed, form feed and carriage return.
pub open spec fn is_ascii_space(b: u8) -> bool {
    b == 0x20 || b == 0x09 || b == 0x0a || b == 0x0c || b == 0x0d
}

/// The query lines of an `_msearch` body: of the lines that are not blank, each of
/// which is JSON, every second one.
pub open spec fn msearch_queries(body: Seq<u8>) -> Option<Seq<Seq<u8>>> {
    let filled = lines(body).filter(|line: Seq<u8>| !is_blank(line));
    if filled.len() % 2 == 0 && forall|i: int|
        0 <= i < filled.len() ==> parsed(#[trigger] filled[i]) is Some {
        Some(Seq::new(filled.len() / 2, |i: int| filled[2 * i + 1]))
    } else {
        None
    }
}

/// Whether every value is a string.
pub open spec fn all_text(fields: Seq<NamedJson>) -> bool {
    forall|i: int| 0 <= i < fields.len() ==> (#[trigger] fields[i]).1 is Text
}

/// A map with fields set in it, one after the other.
pub open spec fn with_all(m: Map<Seq<char>, Json>, fields: Seq<NamedJson>) -> Map<
    Seq<char>,
    Json,
>
    decreases fields.len(),
{
    if fields.len() == 0 {
        m
    } else {
        with_all(m, fields.drop_last()).insert(fields.last().0, fields.last().1)
    }
}

/// Whether an object has none of some fields.
pub open spec fn has_none(m: Map<Seq<char>, Json>, fields: Seq<NamedJson>) -> bool {
    forall|i: int| 0 <= i < fields.len() ==> !m.dom().contains((#[trigger] fields[i]).0)
}

/// Whether no field is named like the key of a raw text.
pub open spec fn names_no_raw(fields: Seq<NamedJson>) -> bool {
    forall|i: int| 0 <= i < fields.len() ==> (#[trigger] fields[i]).0 != RAW_KEY@
}

/// Whether an object of the given fields is read as `doc`: it is read as its fields,
/// unless its one field is the raw text of another document.
pub open spec fn reads_as(own: Map<Seq<char>, Json>, doc: Json) -> bool {
    ||| doc == Json::Fields(own)
    ||| exists|raw: Seq<char>|
        Json::Fields(own) == #[trigger] single(RAW_KEY@, Json::Text(raw)) && parsed(
            vstd::utf8::encode_utf8(raw),
        ) == Some(doc)
}

/// Whether `out` is the object `body` with the fields added: of its own fields none was
/// among them, and it has them now. Nothing is said of a body that is no JSON to
/// `serde_json`, nor of what a value that is no string reads as again.
pub open spec fn carries(body: Seq<u8>, fields: Seq<NamedJson>, out: Seq<u8>) -> bool {
    match parsed(body) {
        Some(doc) => exists|own: Map<Seq<char>, Json>|
            #[trigger] reads_as(own, doc) && adds(own, fields, out),
        None => true,
    }
}

/// Whether `out` is an object of its own fields and, next to them, the given ones.
pub open spec fn adds(
    own: Map<Seq<char>, Json>,
    fields: Seq<NamedJson>,
    out: Seq<u8>,
) -> bool {
    &&& has_none(own, fields)
    &&& fields.len() > 0 && all_text(fields) && names_no_raw(fields) ==> parsed(out) == Some(
        Json::Fields(with_all(own, fields)),
    )
}

/// The filter clause that asks for a field to have a value.
pub open spec fn term(field: NamedJson) -> Json {
    single("term"@, single(field.0, field.1))
}

/// A query enclosed in a filter: what the query finds is found only where every term
/// of the filter holds.
pub open spec fn enclosed(query: Option<Json>, filter: Seq<NamedJson>) -> Json {
    let must = match query {
        Some(query) => seq![query],
        None => seq![],
    };
    single(
        "bool"@,
        Json::Fields(
            no_fields().insert("must"@, Json::List(must)).insert(
                "filter"@,
                Json::List(filter.map_values(|field: NamedJson| term(field))),
            ),
        ),
    )
}

/// Whether a search body, read again, asks for what some query finds within the
/// filter.
pub open spec fn is_filtered(out: Seq<u8>, filter: Seq<NamedJson>) -> bool {
    match parsed(out) {
        Some(doc) => all_text(filter) && names_no_raw(filter) ==> exists|query: Option<Json>|
            doc.get("query"@) == Some(#[trigger] enclosed(query, filter)),
        None => true,
    }
}

/// Whether `out` is the search `body` with its own query enclosed in the filter and
/// everything else as it was, as far as both read as JSON; a search that has a
/// `suggest` is never enclosed.
pub open spec fn encloses(body: Seq<u8>, filter: Seq<NamedJson>, out: Seq<u8>) -> bool {
    match (parsed(body), parsed(out)) {
        (Some(Json::Fields(m)), Some(doc)) => {
            &&& filter.len() > 0 ==> !m.dom().contains("suggest"@)
            &&& all_text(filter) && names_no_raw(filter) ==> doc == Json::Fields(
                m.insert("query"@, enclosed(Json::Fields(m).get("query"@), filter)),
            )
        },
        _ => true,
    }
}

/// `osproxy_rewrite::inject_fields_bytes` splices fields into a JSON object. With no
/// fields to splice it checks that the body is an object and gives it back as it is.
/// It refuses a body that has one of the fields already. It scans the body
/// recursively, one call per nesting level.
#[verifier::external_body]
pub(crate) fn inject_fields(body: &[u8], fields: &Vec<(String, serde_json::Value)>) -> (r: Result<
    Vec<u8>,
    osproxy_rewrite::RewriteError,
>)
    ensures
        match r {
            Ok(out) => injected(body@, named(fields@)) == Some(out@),
            Err(_) => injected(body@, named(fields@)) is None,
        },
        match r {
            Ok(out) => {
                &&& fields@.len() == 0 ==> out@ == body@
                &&& carries(body@, named(fields@), out@)
            },
            Err(_) => true,
        },
{
    let fields: Vec<(osproxy_core::FieldName, serde_json::Value)> = fields.iter().map(
        |(name, value)| (osproxy_core::FieldName::from(name.as_str()), value.clone()),
    ).collect();
    osproxy_rewrite::inject_fields_bytes(body, &fields)
}

/// `osproxy_rewrite::construct_id_bytes` expands an id template against a document.
/// It fails on a malformed template. Where the template has no key, the id is its
/// text; where it has one, the id is its frame around some text. Which text a path
/// finds in a document is left to the name. It scans the body recursively, one call per
/// nesting level.
#[verifier::external_body]
pub(crate) fn construct_id(template: &str, partition: &str, body: &[u8]) -> (r: Result<
    String,
    osproxy_rewrite::RewriteError,
>)
    ensures
        match r {
            Ok(id) => constructed_id(template@, partition@, body@) == Some(id@),
            Err(_) => constructed_id(template@, partition@, body@) is None,
        },
        match (r, pieces(template@)) {
            (Ok(id), Some(pieces)) => match keyless(pieces, partition@) {
                Some(text) => id@ == text,
                None => true,
            },
            (Ok(_), None) => false,
            (Err(_), Some(pieces)) => keyless(pieces, partition@) is None,
            (Err(_), None) => true,
        },
        match (r, id_frame(template@, partition@)) {
            (Ok(id), Some((prefix, suffix))) => fits_frame(prefix, suffix, id@),
            _ => true,
        },
{
    osproxy_rewrite::construct_id_bytes(template, partition, body)
}

/// `osproxy_rewrite::map_logical_to_physical` puts the template's frame around a
/// logical id; it fails where the template has no frame, whatever the id.
#[verifier::external_body]
pub(crate) fn map_to_physical(template: &str, partition: &str, logical: &str) -> (r: Result<
    String,
    osproxy_rewrite::RewriteError,
>)
    ensures
        match r {
            Ok(id) => physical_of(template@, partition@, logical@) == Some(id@),
            Err(_) => physical_of(template@, partition@, logical@) is None,
        },
{
    osproxy_rewrite::map_logical_to_physical(template, partition, logical)
}

/// `osproxy_rewrite::map_physical_to_logical` takes the template's frame off a
/// physical id: `Ok(None)` where the id does not fit it, an error where the template
/// has none.
#[verifier::external_body]
pub(crate) fn map_to_logical(template: &str, partition: &str, physical: &str) -> (r: Result<
    Option<String>,
    osproxy_rewrite::RewriteError,
>)
    ensures
        match r {
            Ok(id) => {
                &&& id_frame(template@, partition@) is Some
                &&& text::optional(id) == logical_of(template@, partition@, physical@)
            },
            Err(_) => id_frame(template@, partition@) is None,
        },
{
    osproxy_rewrite::map_physical_to_logical(template, partition, physical)
}

/// `osproxy_rewrite::wrap_query` encloses the query of a search body in a mandatory
/// filter, or refuses a body that is no object or that would escape the filter. Which
/// aggregations escape it is left to the name.
#[verifier::external_body]
pub(crate) fn wrap_query(body: &[u8], filter: &Vec<(String, serde_json::Value)>) -> (r: Result<
    Vec<u8>,
    osproxy_rewrite::RewriteError,
>)
    ensures
        match r {
            Ok(out) => wrapped_query(body@, named(filter@)) == Some(out@),
            Err(_) => wrapped_query(body@, named(filter@)) is None,
        },
        match r {
            Ok(out) => {
                &&& is_filtered(out@, named(filter@))
                &&& encloses(body@, named(filter@), out@)
            },
            Err(_) => true,
        },
{
    let filter: Vec<(osproxy_core::FieldName, serde_json::Value)> = filter.iter().map(
        |(name, value)| (osproxy_core::FieldName::from(name.as_str()), value.clone()),
    ).collect();
    osproxy_rewrite::wrap_query(body, &filter)
}

/// `osproxy_rewrite::strip_fields` removes the named fields from an object and
/// leaves everything else, a value that is no object included.
#[verifier::external_body]
pub(crate) fn strip_fields(doc: &mut serde_json::Value, names: &Vec<String>)
    ensures
        json_of(*final(doc)) == stripped(json_of(*old(doc)), text::string_views(names@)),
{
    let names: Vec<osproxy_core::FieldName> = names.iter().map(
        |name| osproxy_core::FieldName::from(name.as_str()),
    ).collect();
    osproxy_rewrite::strip_fields(doc, &names);
}

/// A document without the named fields.
pub open spec fn stripped(doc: Json, names: Seq<Seq<char>>) -> Json {
    match doc {
        Json::Fields(m) => Json::Fields(
            m.restrict(m.dom().filter(|key: Seq<char>| !names.contains(key))),
        ),
        other => other,
    }
}

/// `osproxy_rewrite::parse_bulk` reads the operations of a `_bulk` body, in order.
/// Every verb but delete has a source. It scans each source recursively, one call per
/// nesting level.
#[verifier::external_body]
pub(crate) fn parse_bulk(body: &[u8]) -> (r: Result<Vec<BulkItem>, osproxy_rewrite::RewriteError>)
    ensures
        match r {
            Ok(items) => bulk_items(body@) == Some(item_views(items@)),
            Err(_) => bulk_items(body@) is None,
        },
        match r {
            Ok(items) => forall|i: int|
                0 <= i < items@.len() ==> ((#[trigger] items@[i]).source is Some <==> items@[i].action
                    != BulkAction::Delete),
            Err(_) => true,
        },
{
    let items = osproxy_rewrite::parse_bulk(body)?;
    Ok(items.into_iter().map(|item| BulkItem {
        action: match item.action {
            osproxy_rewrite::BulkAction::Index => BulkAction::Index,
            osproxy_rewrite::BulkAction::Create => BulkAction::Create,
            osproxy_rewrite::BulkAction::Update => BulkAction::Update,
            osproxy_rewrite::BulkAction::Delete => BulkAction::Delete,
        },
        id: item.id,
        source: item.source,
    }).collect())
}

/// `osproxy_rewrite::parse_mget` reads the fetches of an `_mget` body, in order; of
/// each, the document id is handed on. It fails where the body is no object with a
/// list of `docs` or of `ids`, or where an id is missing or no string.
#[verifier::external_body]
pub(crate) fn parse_mget(body: &[u8]) -> (r: Result<Vec<String>, osproxy_rewrite::RewriteError>)
    ensures
        match r {
            Ok(ids) => mget_ids(body@) == Some(text::string_views(ids@)),
            Err(_) => mget_ids(body@) is None,
        },
{
    let items = osproxy_rewrite::parse_mget(body)?;
    Ok(items.into_iter().map(|item| item.id).collect())
}

/// `osproxy_rewrite::parse_msearch` reads the searches of an `_msearch` body, in
/// order, each a header line and a query line; of each, the query line is handed on.
/// Blank lines are skipped. It fails where a line is no JSON or the last header has no
/// query.
#[verifier::external_body]
pub(crate) fn parse_msearch(body: &[u8]) -> (r: Result<Vec<Vec<u8>>, osproxy_rewrite::RewriteError>)
    ensures
        match r {
            Ok(queries) => msearch_queries(body@) == Some(byte_views(queries@)),
            Err(_) => msearch_queries(body@) is None,
        },
{
    let items = osproxy_rewrite::parse_msearch(body)?;
    Ok(items.into_iter().map(|item| item.query).collect())
}

/// `osproxy_rewrite::validate_json` accepts a single well-formed JSON document. Which
/// bytes are one to it is left to the name. It scans the body recursively, one call per
/// nesting level.
#[verifier::external_body]
pub(crate) fn validate_json(body: &[u8]) -> (r: Result<(), osproxy_rewrite::RewriteError>)
    ensures
        match r {
            Ok(()) => validated(body@),
            Err(_) => !validated(body@),
        },
{
    osproxy_rewrite::validate_json(body)
}

/// The `RewriteError` for a body that is no object, as a value.
#[verifier::external_body]
pub(crate) fn not_an_object() -> osproxy_rewrite::RewriteError {
    osproxy_rewrite::RewriteError::NotAnObject
}

/// The `RewriteError` for a body that is no JSON, as a value.
#[verifier::external_body]
pub(crate) fn invalid_json() -> osproxy_rewrite::RewriteError {
    osproxy_rewrite::RewriteError::InvalidJson
}

} // verus!
