//! Rewriting reads: the physical id of a by-id request, and the partition filter of
//! a search, which is where read isolation is enforced.
use vstd::prelude::*;
use vstd::slice::slice_to_vec;
use crate::decision::field_views;
use crate::decision::BodyTransform;
use crate::decision::FieldView;
use crate::decision::InjectedValue;
use crate::decision::TransformView;
use crate::json;
use crate::json::parsed;
use crate::json::Json;
use crate::json::RAW_KEY;
use crate::rewrite;
use crate::rewrite::all_text;
use crate::rewrite::enclosed;
use crate::rewrite::encloses;
use crate::rewrite::is_filtered;
use crate::rewrite::named;
use crate::rewrite::names_no_raw;
use crate::rewrite::wrapped_query;
use crate::rewrite::NamedJson;
use crate::template::fits_frame;
use crate::template::id_frame;
use crate::template::logical_ids_map_back;
use crate::template::logical_of;
use crate::template::physical_ids_map_back;
use crate::template::physical_of;
use crate::text;
use crate::transform::bytes_result;
use crate::transform::injects_no_raw;
use crate::transform::ErrorKind;
use crate::transform::PrepareError;

verus! {

/// The physical id of a logical one: partition-scoped where the placement
/// constructs ids, else the id as it is.
pub open spec fn mapped_id(
    transform: TransformView,
    partition: Seq<char>,
    logical: Seq<char>,
) -> Result<Seq<char>, ErrorKind> {
    match transform.id_rule() {
        None => Ok(logical),
        Some(rule) => match physical_of(rule.template, partition, logical) {
            Some(physical) => Ok(physical),
            None => Err(ErrorKind::Rewrite),
        },
    }
}

/// The id a client sees for a physical one: mapped back where the placement
/// constructs ids and the id fits, else the id as it is.
pub open spec fn unmapped_id(
    transform: TransformView,
    partition: Seq<char>,
    physical: Seq<char>,
) -> Seq<char> {
    match transform.id_rule() {
        None => physical,
        Some(rule) => match logical_of(rule.template, partition, physical) {
            Some(logical) => logical,
            None => physical,
        },
    }
}

/// Whatever id a client addresses, the physical id it is mapped to is shown to the
/// client as the id it used.
pub proof fn ids_round_trip(transform: TransformView, partition: Seq<char>, logical: Seq<char>)
    requires
        mapped_id(transform, partition, logical) is Ok,
    ensures
        unmapped_id(transform, partition, mapped_id(transform, partition, logical)->Ok_0)
            == logical,
{
    match transform.id_rule() {
        None => {},
        Some(rule) => physical_ids_map_back(rule.template, partition, logical),
    }
}

/// A document whose id has the template's form is found again by the id it is shown
/// under.
pub proof fn shown_ids_are_found_again(
    transform: TransformView,
    partition: Seq<char>,
    physical: Seq<char>,
)
    requires
        match transform.id_rule() {
            Some(rule) => logical_of(rule.template, partition, physical) is Some,
            None => true,
        },
    ensures
        mapped_id(transform, partition, unmapped_id(transform, partition, physical)) == Ok::<
            Seq<char>,
            ErrorKind,
        >(physical),
{
    match transform.id_rule() {
        None => {},
        Some(rule) => logical_ids_map_back(rule.template, partition, physical),
    }
}

/// Whether a physical id belongs to a partition: where the placement constructs ids, it
/// has the form that the template gives the ids of that partition.
pub open spec fn is_scoped(transform: TransformView, partition: Seq<char>, id: Seq<char>) -> bool {
    match transform.id_rule() {
        Some(rule) => match id_frame(rule.template, partition) {
            Some((prefix, suffix)) => fits_frame(prefix, suffix, id),
            None => false,
        },
        None => true,
    }
}

/// Whatever id a client addresses, the physical id it is mapped to belongs to the
/// client's partition.
pub proof fn mapped_ids_are_scoped(
    transform: TransformView,
    partition: Seq<char>,
    logical: Seq<char>,
)
    requires
        mapped_id(transform, partition, logical) is Ok,
    ensures
        is_scoped(transform, partition, mapped_id(transform, partition, logical)->Ok_0),
{
    match transform.id_rule() {
        None => {},
        Some(rule) => physical_ids_map_back(rule.template, partition, logical),
    }
}

/// Two logical ids of one partition are never mapped to one physical id.
pub proof fn mapped_ids_are_distinct(
    transform: TransformView,
    partition: Seq<char>,
    one: Seq<char>,
    other: Seq<char>,
)
    requires
        mapped_id(transform, partition, one) is Ok,
        mapped_id(transform, partition, one) == mapped_id(transform, partition, other),
    ensures
        one == other,
{
    ids_round_trip(transform, partition, one);
    ids_round_trip(transform, partition, other);
}

/// Maps a client's logical id to the physical id.
///
/// # Errors
/// [`PrepareError::Rewrite`] where the id template cannot be reversed.
pub fn map_id(transform: &BodyTransform, partition: &str, logical: &str) -> (r: Result<
    String,
    PrepareError,
>)
    ensures
        match r {
            Ok(id) => mapped_id(transform@, partition@, logical@) is Ok && mapped_id(
                transform@,
                partition@,
                logical@,
            )->Ok_0 == id@,
            Err(err) => mapped_id(transform@, partition@, logical@) is Err && err@
                == ErrorKind::Rewrite,
        },
{
    match transform.id_rule() {
        Some(rule) => match rewrite::map_to_physical(rule.template.as_str(), partition, logical) {
            Ok(id) => Ok(id),
            Err(err) => Err(PrepareError::Rewrite(err)),
        },
        None => Ok(logical.to_owned()),
    }
}

/// Maps a client's logical id to the physical id and the routing value of a by-id
/// request. Without an id rule the client's id is already physical.
///
/// # Errors
/// [`PrepareError::Rewrite`] where the id template cannot be reversed.
pub fn physical_id(transform: &BodyTransform, partition: &str, logical_id: &str) -> (r: Result<
    (String, Option<String>),
    PrepareError,
>)
    ensures
        match r {
            Ok((id, routing)) => {
                &&& mapped_id(transform@, partition@, logical_id@) is Ok
                &&& mapped_id(transform@, partition@, logical_id@)->Ok_0 == id@
                &&& text::optional(routing) == transform@.routing(partition@)
                &&& unmapped_id(transform@, partition@, id@) == logical_id@
                &&& is_scoped(transform@, partition@, id@)
            },
            Err(err) => mapped_id(transform@, partition@, logical_id@) is Err && err@
                == ErrorKind::Rewrite,
        },
{
    match map_id(transform, partition, logical_id) {
        Ok(id) => {
            proof {
                ids_round_trip(transform@, partition@, logical_id@);
                mapped_ids_are_scoped(transform@, partition@, logical_id@);
            }
            Ok((id, transform.routing_for(partition)))
        },
        Err(err) => Err(err),
    }
}

/// The fields whose value is the partition, with the partition as their value.
pub open spec fn partition_terms(fields: Seq<FieldView>, partition: Seq<char>) -> Seq<NamedJson>
    decreases fields.len(),
{
    if fields.len() == 0 {
        seq![]
    } else if fields.last().value is PartitionId {
        partition_terms(fields.drop_last(), partition).push(
            (fields.last().name, Json::Text(partition)),
        )
    } else {
        partition_terms(fields.drop_last(), partition)
    }
}

/// A placement that injects the partition id filters every search by it.
pub proof fn searches_are_filtered(fields: Seq<FieldView>, partition: Seq<char>, i: int)
    requires
        0 <= i < fields.len(),
        fields[i].value is PartitionId,
    ensures
        partition_terms(fields, partition).contains((fields[i].name, Json::Text(partition))),
    decreases fields.len(),
{
    let front = fields.drop_last();
    let terms = partition_terms(fields, partition);
    let wanted = (fields[i].name, Json::Text(partition));
    if i == fields.len() - 1 {
        assert(terms[terms.len() - 1] == wanted);
    } else {
        searches_are_filtered(front, partition, i);
        let earlier = partition_terms(front, partition);
        let k = choose|k: int| 0 <= k < earlier.len() && earlier[k] == wanted;
        assert(terms[k] == wanted);
    }
}

/// The filter of a search is on the partition's own fields, each with the partition as
/// its value, and on nothing else: there is none where no field holds the partition, and
/// every term is that of a field that does.
pub proof fn terms_are_the_partition_fields(fields: Seq<FieldView>, partition: Seq<char>)
    ensures
        partition_terms(fields, partition).len() == 0 <==> forall|k: int|
            0 <= k < fields.len() ==> !((#[trigger] fields[k]).value is PartitionId),
        forall|j: int|
            #![trigger partition_terms(fields, partition)[j]]
            0 <= j < partition_terms(fields, partition).len() ==> partition_terms(
                fields,
                partition,
            )[j].1 == Json::Text(partition) && exists|k: int|
                0 <= k < fields.len() && (#[trigger] fields[k]).value is PartitionId
                    && fields[k].name == partition_terms(fields, partition)[j].0,
        forall|k: int|
            0 <= k < fields.len() && (#[trigger] fields[k]).value is PartitionId
                ==> partition_terms(fields, partition).contains(
                (fields[k].name, Json::Text(partition)),
            ),
    decreases fields.len(),
{
    assert forall|k: int|
        0 <= k < fields.len() && (#[trigger] fields[k]).value is PartitionId implies partition_terms(
        fields,
        partition,
    ).contains((fields[k].name, Json::Text(partition))) by {
        searches_are_filtered(fields, partition, k);
    }
    if fields.len() > 0 {
        let front = fields.drop_last();
        terms_are_the_partition_fields(front, partition);
        let terms = partition_terms(fields, partition);
        let earlier = partition_terms(front, partition);
        assert forall|j: int| #![trigger terms[j]] 0 <= j < terms.len() implies terms[j].1
            == Json::Text(partition) && exists|k: int|
            0 <= k < fields.len() && (#[trigger] fields[k]).value is PartitionId && fields[k].name
                == terms[j].0 by {
            if j < earlier.len() {
                assert(terms[j] == earlier[j]);
                let k = choose|k: int|
                    0 <= k < front.len() && (#[trigger] front[k]).value is PartitionId
                        && front[k].name == earlier[j].0;
                assert(fields[k].value is PartitionId && fields[k].name == terms[j].0);
            } else {
                let k = fields.len() - 1;
                assert(fields[k].value is PartitionId && fields[k].name == terms[j].0);
            }
        }
        if terms.len() == 0 {
            assert forall|k: int| 0 <= k < fields.len() implies !((#[trigger] fields[k]).value
                is PartitionId) by {
                if fields[k].value is PartitionId {
                    assert(terms.contains((fields[k].name, Json::Text(partition))));
                }
            }
        } else {
            let t = terms[0];
        }
    }
}

/// Whether a search reads nothing but its own partition: where the placement has a
/// field for the partition, the search asks for it to hold the partition.
pub open spec fn confines(transform: TransformView, partition: Seq<char>, out: Seq<u8>) -> bool {
    let terms = partition_terms(transform.fields(), partition);
    terms.len() > 0 ==> is_filtered(out, terms)
}

/// A confined search, as it reads upstream, is enclosed in a filter that asks each
/// field of the partition for the partition. No client query gets around it.
pub proof fn confined_searches_are_enclosed(
    transform: TransformView,
    partition: Seq<char>,
    out: Seq<u8>,
    i: int,
)
    requires
        confines(transform, partition, out),
        injects_no_raw(transform.fields()),
        0 <= i < transform.fields().len(),
        transform.fields()[i].value is PartitionId,
        parsed(out) is Some,
    ensures
        exists|query: Option<Json>, filter: Seq<NamedJson>|
            {
                &&& parsed(out)->0.get("query"@) == Some(#[trigger] enclosed(query, filter))
                &&& filter.contains((transform.fields()[i].name, Json::Text(partition)))
            },
{
    let terms = partition_terms(transform.fields(), partition);
    searches_are_filtered(transform.fields(), partition, i);
    lemma_terms(transform.fields(), partition);
    let query = choose|query: Option<Json>|
        parsed(out)->0.get("query"@) == Some(#[trigger] enclosed(query, terms));
    assert(parsed(out)->0.get("query"@) == Some(enclosed(query, terms)));
}

proof fn lemma_terms(fields: Seq<FieldView>, partition: Seq<char>)
    ensures
        all_text(partition_terms(fields, partition)),
        injects_no_raw(fields) ==> names_no_raw(partition_terms(fields, partition)),
    decreases fields.len(),
{
    if fields.len() > 0 {
        let front = fields.drop_last();
        lemma_terms(front, partition);
        let earlier = partition_terms(front, partition);
        let terms = partition_terms(fields, partition);
        assert forall|k: int| 0 <= k < terms.len() implies (#[trigger] terms[k]).1 is Text by {
            if k < earlier.len() {
                assert(earlier[k].1 is Text);
            }
        }
        if injects_no_raw(fields) {
            assert forall|k: int| 0 <= k < front.len() implies (#[trigger] front[k]).name
                != RAW_KEY@ by {
                assert(fields[k].name != RAW_KEY@);
            }
            assert(fields[fields.len() - 1].name != RAW_KEY@);
            assert forall|k: int| 0 <= k < terms.len() implies (#[trigger] terms[k]).0
                != RAW_KEY@ by {
                if k < earlier.len() {
                    assert(earlier[k].0 != RAW_KEY@);
                }
            }
        }
    }
}

/// The partition filter terms of a search or count: each injected field whose value
/// is the partition id. Other injected fields are never filtered on, because their
/// value can differ between write and read.
#[must_use]
pub fn filter_terms(transform: &BodyTransform, partition: &str) -> (r: Vec<
    (String, serde_json::Value),
>)
    ensures
        named(r@) == partition_terms(transform@.fields(), partition@),
{
    let mut out: Vec<(String, serde_json::Value)> = Vec::new();
    let fields = match transform.fields() {
        Some(fields) => fields,
        None => {
            assert(named(out@) =~= partition_terms(transform@.fields(), partition@));
            return out;
        },
    };
    let ghost all = field_views(fields@);
    let mut i: usize = 0;
    assert(all.take(0) =~= Seq::<FieldView>::empty());
    assert(named(out@) =~= partition_terms(all.take(0), partition@));
    while i < fields.len()
        invariant
            i <= fields@.len(),
            all == field_views(fields@),
            named(out@) == partition_terms(all.take(i as int), partition@),
        decreases fields@.len() - i,
    {
        assert(all.take(i + 1).drop_last() =~= all.take(i as int));
        assert(all.take(i + 1).last() == fields@[i as int]@);
        if let InjectedValue::PartitionId = &fields[i].value {
            let ghost seen = out@;
            out.push((fields[i].name.clone(), json::text_value(partition)));
            assert(named(out@) =~= named(seen).push(
                (fields@[i as int].name@, Json::Text(partition@)),
            ));
        }
        i += 1;
    }
    assert(all.take(i as int) =~= all);
    out
}

/// The text of an empty object.
pub open spec fn empty_object() -> Seq<u8> {
    seq![0x7bu8, 0x7du8]
}

/// The body that stands for an empty one.
pub open spec fn query_base(body: Seq<u8>) -> Seq<u8> {
    if body.len() == 0 {
        empty_object()
    } else {
        body
    }
}

/// A search body with the filter in it. Without a filter the body is left alone; an
/// empty body stands for an empty object.
pub open spec fn filtered(body: Seq<u8>, filter: Seq<NamedJson>) -> Result<Seq<u8>, ErrorKind> {
    if filter.len() == 0 {
        Ok(body)
    } else {
        match wrapped_query(query_base(body), filter) {
            Some(out) => Ok(out),
            None => Err(ErrorKind::Rewrite),
        }
    }
}

/// Wraps a query body with the partition filter. With no filter terms (a dedicated
/// placement) the body passes through unchanged; an empty body becomes `{}` first,
/// so the filter still applies to a bodyless search.
///
/// # Errors
/// [`PrepareError::Rewrite`] where the body cannot be filtered.
pub fn filtered_query(body: &[u8], filter: &Vec<(String, serde_json::Value)>) -> (r: Result<
    Vec<u8>,
    PrepareError,
>)
    ensures
        bytes_result(r) == filtered(body@, named(filter@)),
        match r {
            Ok(out) => filter@.len() > 0 ==> {
                &&& is_filtered(out@, named(filter@))
                &&& encloses(query_base(body@), named(filter@), out@)
            },
            Err(_) => true,
        },
{
    if filter.len() == 0 {
        return Ok(slice_to_vec(body));
    }
    let braces: Vec<u8> = vec![0x7b, 0x7d];
    let base: &[u8] = if body.len() == 0 {
        assert(braces@ =~= empty_object());
        braces.as_slice()
    } else {
        body
    };
    match rewrite::wrap_query(base, filter) {
        Ok(out) => Ok(out),
        Err(err) => Err(PrepareError::Rewrite(err)),
    }
}

/// A search body goes upstream as it came where there is nothing to filter by, and else
/// as it came within the filter; an empty one stands for an empty object. It is refused
/// exactly where the filter cannot be wrapped around it.
pub proof fn searches_are_wrapped_as_they_came(body: Seq<u8>, filter: Seq<NamedJson>)
    ensures
        filter.len() == 0 ==> filtered(body, filter) == Ok::<Seq<u8>, ErrorKind>(body),
        filter.len() > 0 ==> match wrapped_query(
            if body.len() == 0 {
                seq![0x7bu8, 0x7du8]
            } else {
                body
            },
            filter,
        ) {
            Some(out) => filtered(body, filter) == Ok::<Seq<u8>, ErrorKind>(out),
            None => filtered(body, filter) == Err::<Seq<u8>, ErrorKind>(ErrorKind::Rewrite),
        },
{
}

/// Without an id rule the client's id is the physical one, both ways; with one, the
/// physical id is the client's between what the template puts before and behind it.
pub proof fn ids_are_framed_by_the_template(
    transform: TransformView,
    partition: Seq<char>,
    id: Seq<char>,
)
    ensures
        match transform.id_rule() {
            None => {
                &&& mapped_id(transform, partition, id) == Ok::<Seq<char>, ErrorKind>(id)
                &&& unmapped_id(transform, partition, id) == id
            },
            Some(rule) => match id_frame(rule.template, partition) {
                Some((prefix, suffix)) => {
                    &&& mapped_id(transform, partition, id) == Ok::<Seq<char>, ErrorKind>(
                        prefix + id + suffix,
                    )
                    &&& unmapped_id(transform, partition, prefix + id + suffix) == id
                    &&& !fits_frame(prefix, suffix, id) ==> unmapped_id(transform, partition, id)
                        == id
                },
                None => {
                    &&& mapped_id(transform, partition, id) == Err::<Seq<char>, ErrorKind>(
                        ErrorKind::Rewrite,
                    )
                    &&& unmapped_id(transform, partition, id) == id
                },
            },
        },
{
    if mapped_id(transform, partition, id) is Ok {
        ids_round_trip(transform, partition, id);
    }
}

} // verus!
