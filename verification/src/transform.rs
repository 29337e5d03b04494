//! Applying a body transform to a document: the constructed id, the bytes to
//! forward, and the routing value.
use vstd::prelude::*;
use vstd::slice::slice_to_vec;
use crate::decision::field_views;
use crate::decision::BodyTransform;
use crate::decision::DocIdRule;
use crate::decision::FieldView;
use crate::decision::InjectedField;
use crate::decision::InjectedValue;
use crate::decision::TransformView;
use crate::decision::ValueView;
use crate::json;
use crate::json::json_of;
use crate::json::parsed;
use crate::json::Json;
use crate::json::RAW_KEY;
use crate::rewrite;
use crate::rewrite::adds;
use crate::rewrite::all_text;
use crate::rewrite::carries;
use crate::rewrite::constructed_id;
use crate::rewrite::injected;
use crate::rewrite::named;
use crate::rewrite::names_no_raw;
use crate::rewrite::reads_as;
use crate::rewrite::validated;
use crate::rewrite::with_all;
use crate::rewrite::NamedJson;
use crate::template::id_frame;
use crate::template::logical_of;
use crate::text;

verus! {

/// Why a request could not be rewritten.
#[derive(Debug)]
pub enum PrepareError {
    /// The body could not be transformed: it is not an object, has a reserved field
    /// already, gives no value for an id template, and so on.
    Rewrite(osproxy_rewrite::RewriteError),
    /// A context-derived injected value reached the transform unresolved, which the
    /// tenancy should have prevented.
    UnresolvedInjectedValue,
}

/// The kinds of [`PrepareError`].
#[derive(Debug, Clone, Copy, PartialEq, Eq, Structural)]
pub enum ErrorKind {
    /// The body could not be transformed.
    Rewrite,
    /// An injected value was unresolved.
    UnresolvedInjectedValue,
}

impl View for PrepareError {
    type V = ErrorKind;

    open spec fn view(&self) -> ErrorKind {
        match self {
            PrepareError::Rewrite(_) => ErrorKind::Rewrite,
            PrepareError::UnresolvedInjectedValue => ErrorKind::UnresolvedInjectedValue,
        }
    }
}

/// The view of a result that is a string of bytes.
pub open spec fn bytes_result(r: Result<Vec<u8>, PrepareError>) -> Result<Seq<u8>, ErrorKind> {
    match r {
        Ok(bytes) => Ok(bytes@),
        Err(err) => Err(err@),
    }
}

/// What a body transform makes of a document.
#[derive(Debug, Clone)]
pub struct Transformed {
    /// The id the transform constructed, if any.
    pub id: Option<String>,
    /// The bytes to forward.
    pub body: Vec<u8>,
    /// The routing value, if the id rule asks for one.
    pub routing: Option<String>,
}

/// The view of a [`Transformed`].
#[verifier::ext_equal]
pub struct TransformedView {
    /// The constructed id.
    pub id: Option<Seq<char>>,
    /// The bytes to forward.
    pub body: Seq<u8>,
    /// The routing value.
    pub routing: Option<Seq<char>>,
}

impl View for Transformed {
    type V = TransformedView;

    open spec fn view(&self) -> TransformedView {
        TransformedView {
            id: text::optional(self.id),
            body: self.body@,
            routing: text::optional(self.routing),
        }
    }
}

/// Whether a value can be injected as it stands.
pub open spec fn is_resolved(value: ValueView) -> bool {
    value is PartitionId || value is Constant
}

/// The JSON value that a resolved injected value stands for.
pub open spec fn value_for(value: ValueView, partition: Seq<char>) -> Json {
    match value {
        ValueView::Constant(v) => v,
        _ => Json::Text(partition),
    }
}

/// The concrete fields to inject, where every value is resolved.
pub open spec fn concrete(fields: Seq<FieldView>, partition: Seq<char>) -> Option<
    Seq<NamedJson>,
> {
    if forall|i: int| 0 <= i < fields.len() ==> is_resolved((#[trigger] fields[i]).value) {
        Some(
            Seq::new(
                fields.len(),
                |i: int| (fields[i].name, value_for(fields[i].value, partition)),
            ),
        )
    } else {
        None
    }
}

/// The body with the fields injected.
pub open spec fn with_fields(
    body: Seq<u8>,
    fields: Seq<FieldView>,
    partition: Seq<char>,
) -> Result<Seq<u8>, ErrorKind> {
    match concrete(fields, partition) {
        None => Err(ErrorKind::UnresolvedInjectedValue),
        Some(values) => match injected(body, values) {
            None => Err(ErrorKind::Rewrite),
            Some(out) => Ok(out),
        },
    }
}

/// The white space that may stand before a JSON document.
pub open spec fn is_json_space(b: u8) -> bool {
    b == 0x20 || b == 0x09 || b == 0x0a || b == 0x0d
}

/// Whether a JSON document is an object: the first of its bytes that is no white space
/// is an opening brace.
pub open spec fn opens_object(body: Seq<u8>) -> bool
    decreases body.len(),
{
    if body.len() == 0 {
        false
    } else if is_json_space(body[0]) {
        opens_object(body.drop_first())
    } else {
        body[0] == 0x7b
    }
}

/// The body to forward: with the fields injected where the transform injects any, else
/// as it is, if it is a JSON object.
pub open spec fn forwarded(
    body: Seq<u8>,
    transform: TransformView,
    partition: Seq<char>,
) -> Result<Seq<u8>, ErrorKind> {
    if transform.injects() {
        with_fields(body, transform.fields(), partition)
    } else if validated(body) && opens_object(body) {
        Ok(body)
    } else {
        Err(ErrorKind::Rewrite)
    }
}

/// Whether `out` is the document `body` with the placement's fields added to it, as
/// far as the document reads as JSON; without fields to add it is the document as it is.
pub open spec fn stamps(
    body: Seq<u8>,
    transform: TransformView,
    partition: Seq<char>,
    out: Seq<u8>,
) -> bool {
    match concrete(transform.fields(), partition) {
        Some(values) => if values.len() == 0 {
            out == body
        } else {
            carries(body, values, out)
        },
        None => false,
    }
}

/// What a body transform makes of a document. The fields are injected first; the id
/// is read from the document as it came.
pub open spec fn transformed(
    body: Seq<u8>,
    transform: TransformView,
    partition: Seq<char>,
) -> Result<TransformedView, ErrorKind> {
    match forwarded(body, transform, partition) {
        Err(kind) => Err(kind),
        Ok(out) => match transform.id_rule() {
            None => Ok(TransformedView { id: None, body: out, routing: None }),
            Some(rule) => match constructed_id(rule.template, partition, body) {
                None => Err(ErrorKind::Rewrite),
                Some(id) => Ok(
                    TransformedView {
                        id: Some(id),
                        body: out,
                        routing: transform.routing(partition),
                    },
                ),
            },
        },
    }
}

/// Whether every injected value is the partition or a string.
pub open spec fn injects_text(fields: Seq<FieldView>) -> bool {
    forall|i: int|
        0 <= i < fields.len() ==> match (#[trigger] fields[i]).value {
            ValueView::PartitionId => true,
            ValueView::Constant(value) => value is Text,
            _ => false,
        }
}

/// Whether no injected field is named like the key of a raw text.
pub open spec fn injects_no_raw(fields: Seq<FieldView>) -> bool {
    forall|i: int| 0 <= i < fields.len() ==> (#[trigger] fields[i]).name != RAW_KEY@
}

/// A stored document carries the partition: whatever document a client writes, each
/// field that the placement reserves for the partition holds the partition in what is
/// stored, and the document's own fields, which read as what the client wrote, are
/// stored as they are.
pub proof fn stored_documents_carry_the_partition(
    body: Seq<u8>,
    transform: TransformView,
    partition: Seq<char>,
    out: Seq<u8>,
) -> (own: Map<Seq<char>, Json>)
    requires
        stamps(body, transform, partition, out),
        parsed(body) is Some,
        injects_text(transform.fields()),
        injects_no_raw(transform.fields()),
        transform.fields().len() > 0,
    ensures
        reads_as(own, parsed(body)->0),
        parsed(out) is Some,
        forall|key: Seq<char>| #[trigger]
            own.dom().contains(key) ==> parsed(out)->0.get(key) == Some(own[key]),
        forall|i: int|
            0 <= i < transform.fields().len() && (#[trigger] transform.fields()[i]).value
                is PartitionId && (forall|k: int|
                i < k < transform.fields().len() ==> (#[trigger] transform.fields()[k]).name
                    != transform.fields()[i].name) ==> parsed(out)->0.get(
                transform.fields()[i].name,
            ) == Some(Json::Text(partition)),
{
    let fields = transform.fields();
    let values = concrete(fields, partition)->0;
    lemma_concrete(fields, partition);
    let own = choose|own: Map<Seq<char>, Json>|
        #[trigger] reads_as(own, parsed(body)->0) && adds(own, values, out);
    assert forall|key: Seq<char>| #[trigger]
        own.dom().contains(key) implies parsed(out)->0.get(key) == Some(own[key]) by {
        lemma_kept(own, values, key);
    }
    assert forall|i: int|
        0 <= i < fields.len() && (#[trigger] fields[i]).value is PartitionId && (forall|k: int|
            i < k < fields.len() ==> (#[trigger] fields[k]).name != fields[i].name) implies parsed(
        out,
    )->0.get(fields[i].name) == Some(Json::Text(partition)) by {
        assert forall|k: int| i < k < values.len() implies (#[trigger] values[k]).0
            != values[i].0 by {
            let _ = fields[k];
        }
        lemma_set(own, values, i);
    }
    own
}

/// Fields that inject strings under ordinary names come to such values.
pub proof fn lemma_concrete(fields: Seq<FieldView>, partition: Seq<char>)
    requires
        injects_text(fields),
        injects_no_raw(fields),
    ensures
        concrete(fields, partition) is Some,
        concrete(fields, partition)->0.len() == fields.len(),
        all_text(concrete(fields, partition)->0),
        names_no_raw(concrete(fields, partition)->0),
{
    assert forall|i: int| 0 <= i < fields.len() implies is_resolved(
        (#[trigger] fields[i]).value,
    ) by {}
    let values = concrete(fields, partition)->0;
    assert forall|i: int| 0 <= i < values.len() implies (#[trigger] values[i]).1 is Text
        && values[i].0 != RAW_KEY@ by {
        let _ = fields[i];
    }
}

/// A field that is not among those set is kept.
pub proof fn lemma_kept(m: Map<Seq<char>, Json>, fields: Seq<NamedJson>, key: Seq<char>)
    requires
        forall|i: int| 0 <= i < fields.len() ==> (#[trigger] fields[i]).0 != key,
    ensures
        with_all(m, fields).dom().contains(key) == m.dom().contains(key),
        m.dom().contains(key) ==> with_all(m, fields)[key] == m[key],
    decreases fields.len(),
{
    if fields.len() > 0 {
        let front = fields.drop_last();
        assert forall|i: int| 0 <= i < front.len() implies (#[trigger] front[i]).0 != key by {
            let _ = fields[i];
        }
        assert(fields[fields.len() - 1].0 != key);
        lemma_kept(m, front, key);
    }
}

/// The last field of a name that is set is the one that stays.
proof fn lemma_set(m: Map<Seq<char>, Json>, fields: Seq<NamedJson>, i: int)
    requires
        0 <= i < fields.len(),
        forall|k: int| i < k < fields.len() ==> (#[trigger] fields[k]).0 != fields[i].0,
    ensures
        with_all(m, fields).dom().contains(fields[i].0),
        with_all(m, fields)[fields[i].0] == fields[i].1,
    decreases fields.len(),
{
    if i < fields.len() - 1 {
        let front = fields.drop_last();
        assert forall|k: int| i < k < front.len() implies (#[trigger] front[k]).0
            != front[i].0 by {
            assert(fields[k].0 != fields[i].0);
        }
        assert(fields[fields.len() - 1].0 != fields[i].0);
        lemma_set(m, front, i);
    }
}

/// Applies `transform` to `body` for `partition`. A body that is not injected into
/// is forwarded as it is, once it is known to be a JSON object; an id is read
/// straight from the original bytes. An id that a reversible template constructs
/// can be mapped back when the document is read.
///
/// # Errors
/// [`PrepareError`] where the body or an injected value does not allow it.
pub fn apply(body: &[u8], transform: &BodyTransform, partition: &str) -> (r: Result<
    Transformed,
    PrepareError,
>)
    ensures
        match r {
            Ok(t) => transformed(body@, transform@, partition@) is Ok && transformed(
                body@,
                transform@,
                partition@,
            )->Ok_0 == t@,
            Err(err) => transformed(body@, transform@, partition@) is Err && transformed(
                body@,
                transform@,
                partition@,
            )->Err_0 == err@,
        },
        match r {
            Ok(t) => stamps(body@, transform@, partition@, t@.body),
            Err(_) => true,
        },
        match (r, transform@.id_rule()) {
            (Ok(t), Some(rule)) => id_frame(rule.template, partition@) is Some ==> logical_of(
                rule.template,
                partition@,
                t@.id->0,
            ) is Some,
            _ => true,
        },
{
    let out = match transform.fields() {
        Some(fields) => match inject(body, fields, partition) {
            Ok(out) => out,
            Err(err) => return Err(err),
        },
        None => match check_object(body) {
            Ok(()) => slice_to_vec(body),
            Err(err) => return Err(err),
        },
    };
    let id = match transform.id_rule() {
        Some(rule) => match build_id(rule, body, partition) {
            Ok(id) => Some(id),
            Err(err) => return Err(err),
        },
        None => None,
    };
    let routing = transform.routing_for(partition);
    Ok(Transformed { id, body: out, routing })
}

/// Checks that a body is a JSON object.
fn check_object(body: &[u8]) -> (r: Result<(), PrepareError>)
    ensures
        match r {
            Ok(()) => validated(body@) && opens_object(body@),
            Err(err) => !(validated(body@) && opens_object(body@)) && err@ == ErrorKind::Rewrite,
        },
{
    if let Err(err) = rewrite::validate_json(body) {
        return Err(PrepareError::Rewrite(err));
    }
    let mut i: usize = 0;
    assert(body@.skip(0) =~= body@);
    while i < body.len() && (body[i] == 0x20 || body[i] == 0x09 || body[i] == 0x0a || body[i]
        == 0x0d)
        invariant
            i <= body@.len(),
            opens_object(body@) == opens_object(body@.skip(i as int)),
        decreases body@.len() - i,
    {
        assert(body@.skip(i as int).drop_first() =~= body@.skip(i + 1));
        i += 1;
    }
    if i < body.len() && body[i] == 0x7b {
        Ok(())
    } else {
        Err(PrepareError::Rewrite(rewrite::not_an_object()))
    }
}

/// Splices the resolved fields into the body.
fn inject(body: &[u8], fields: &Vec<InjectedField>, partition: &str) -> (r: Result<
    Vec<u8>,
    PrepareError,
>)
    ensures
        bytes_result(r) == with_fields(body@, field_views(fields@), partition@),
        match r {
            Ok(out) => {
                &&& fields@.len() == 0 ==> out@ == body@
                &&& concrete(field_views(fields@), partition@) is Some
                &&& carries(body@, concrete(field_views(fields@), partition@)->0, out@)
            },
            Err(_) => true,
        },
{
    let values = match resolve_values(fields, partition) {
        Ok(values) => values,
        Err(err) => return Err(err),
    };
    match rewrite::inject_fields(body, &values) {
        Ok(out) => Ok(out),
        Err(err) => Err(PrepareError::Rewrite(err)),
    }
}

/// Constructs the document id from a rule by reading scalars from the bytes.
fn build_id(rule: &DocIdRule, body: &[u8], partition: &str) -> (r: Result<String, PrepareError>)
    ensures
        match r {
            Ok(id) => constructed_id(rule@.template, partition@, body@) == Some(id@),
            Err(err) => constructed_id(rule@.template, partition@, body@) is None && err@
                == ErrorKind::Rewrite,
        },
        match r {
            Ok(id) => id_frame(rule@.template, partition@) is Some ==> logical_of(
                rule@.template,
                partition@,
                id@,
            ) is Some,
            Err(_) => true,
        },
{
    match rewrite::construct_id(rule.template.as_str(), partition, body) {
        Ok(id) => Ok(id),
        Err(err) => Err(PrepareError::Rewrite(err)),
    }
}

/// Resolves each injected field to a concrete value. The tenancy has resolved the
/// context-derived ones already; one that reaches this point is an internal error,
/// not the client's.
fn resolve_values(fields: &Vec<InjectedField>, partition: &str) -> (r: Result<
    Vec<(String, serde_json::Value)>,
    PrepareError,
>)
    ensures
        match r {
            Ok(values) => {
                &&& concrete(field_views(fields@), partition@) == Some(named(values@))
                &&& values@.len() == fields@.len()
            },
            Err(err) => {
                &&& concrete(field_views(fields@), partition@) is None
                &&& err@ == ErrorKind::UnresolvedInjectedValue
            },
        },
{
    let ghost all = field_views(fields@);
    let mut values: Vec<(String, serde_json::Value)> = Vec::new();
    let mut i: usize = 0;
    while i < fields.len()
        invariant
            i <= fields@.len(),
            all == field_views(fields@),
            values@.len() == i,
            forall|k: int| 0 <= k < i ==> is_resolved((#[trigger] all[k]).value),
            forall|k: int|
                0 <= k < i ==> (#[trigger] values@[k]).0@ == all[k].name && json_of(values@[k].1)
                    == value_for(all[k].value, partition@),
        decreases fields@.len() - i,
    {
        assert(all[i as int] == fields@[i as int]@);
        let value = match &fields[i].value {
            InjectedValue::Constant(v) => v.clone(),
            InjectedValue::PartitionId => json::text_value(partition),
            InjectedValue::FromPrincipal(_) | InjectedValue::FromHeader(_) => {
                assert(!is_resolved(all[i as int].value));
                return Err(PrepareError::UnresolvedInjectedValue);
            },
        };
        values.push((fields[i].name.clone(), value));
        i += 1;
    }
    assert(concrete(all, partition@)->0 =~= named(values@));
    Ok(values)
}

/// A transform does what it names, and no more. The id is the one that the rule's template
/// gives for the document as it came; the routing value is the partition, exactly where
/// the rule asks for it; and the body is the document as it came with every field
/// injected under its own name, in order, the partition's fields with the partition as
/// their value. Without fields to inject the body is the document itself.
pub proof fn transforms_do_what_they_name(
    body: Seq<u8>,
    transform: TransformView,
    partition: Seq<char>,
)
    ensures
        match transformed(body, transform, partition) {
            Ok(t) => {
                &&& match transform.id_rule() {
                    Some(rule) => {
                        &&& t.id is Some
                        &&& t.id == constructed_id(rule.template, partition, body)
                        &&& t.routing == if rule.set_routing {
                            Some(partition)
                        } else {
                            None
                        }
                    },
                    None => t.id is None && t.routing is None,
                }
                &&& match transform {
                    TransformView::Inject(fields) => is_injected(body, fields, partition, t.body),
                    TransformView::Both { inject, .. } => is_injected(
                        body,
                        inject,
                        partition,
                        t.body,
                    ),
                    _ => t.body == body && validated(body) && opens_object(body),
                }
            },
            Err(kind) => kind is UnresolvedInjectedValue <==> exists|i: int|
                0 <= i < transform.fields().len() && {
                    ||| (#[trigger] transform.fields()[i]).value is FromPrincipal
                    ||| transform.fields()[i].value is FromHeader
                },
        },
{
    let fields = transform.fields();
    if transform.injects() {
        if let Some(values) = concrete(fields, partition) {
            assert forall|i: int| 0 <= i < fields.len() implies is_resolved(
                (#[trigger] fields[i]).value,
            ) by {}
            if let Some(out) = injected(body, values) {
                assert(is_injected(body, fields, partition, out)) by {
                    assert(injected(body, values) == Some(out));
                }
            }
        } else {
            let i = choose|i: int|
                0 <= i < fields.len() && !is_resolved((#[trigger] fields[i]).value);
            assert(fields[i].value is FromPrincipal || fields[i].value is FromHeader);
        }
    }
}

/// Whether `out` is the body with these fields spliced in.
pub open spec fn is_injected(
    body: Seq<u8>,
    fields: Seq<FieldView>,
    partition: Seq<char>,
    out: Seq<u8>,
) -> bool {
    exists|values: Seq<NamedJson>|
        {
            &&& #[trigger] injected(body, values) == Some(out)
            &&& values.len() == fields.len()
            &&& forall|i: int|
                0 <= i < fields.len() ==> {
                    &&& (#[trigger] values[i]).0 == fields[i].name
                    &&& match fields[i].value {
                        ValueView::PartitionId => values[i].1 == Json::Text(partition),
                        ValueView::Constant(value) => values[i].1 == value,
                        _ => false,
                    }
                }
        }
}

/// A document that is injected into, and only such a one, goes through the splice: one
/// that has a reserved field already, or that gives no id where the rule wants one, is
/// refused.
pub proof fn refused_documents_are_not_forwarded(
    body: Seq<u8>,
    transform: TransformView,
    partition: Seq<char>,
)
    ensures
        match transform.id_rule() {
            Some(rule) => constructed_id(rule.template, partition, body) is None ==> transformed(
                body,
                transform,
                partition,
            ) is Err,
            None => true,
        },
        transform.injects() && concrete(transform.fields(), partition) is Some && injected(
            body,
            concrete(transform.fields(), partition)->0,
        ) is None ==> transformed(body, transform, partition) is Err,
        !transform.injects() && !validated(body) ==> transformed(body, transform, partition)
            is Err,
{
}

/// A document is taken where every part of its transform can be: its fields, with their
/// values, can be spliced in, or it is an object and there are none; and its id can be
/// constructed, where the placement constructs ids.
pub proof fn documents_are_taken_where_they_can_be(
    body: Seq<u8>,
    transform: TransformView,
    partition: Seq<char>,
    values: Seq<NamedJson>,
)
    requires
        match transform.id_rule() {
            Some(rule) => constructed_id(rule.template, partition, body) is Some,
            None => true,
        },
        match transform {
            TransformView::Inject(_) | TransformView::Both { .. } => injected(body, values) is Some,
            _ => validated(body) && opens_object(body),
        },
        values.len() == transform.fields().len(),
        forall|i: int|
            0 <= i < values.len() ==> {
                &&& (#[trigger] values[i]).0 == transform.fields()[i].name
                &&& match transform.fields()[i].value {
                    ValueView::PartitionId => values[i].1 == Json::Text(partition),
                    ValueView::Constant(value) => values[i].1 == value,
                    _ => false,
                }
            },
    ensures
        transformed(body, transform, partition) is Ok,
        match transform {
            TransformView::Inject(_) | TransformView::Both { .. } => Some(
                transformed(body, transform, partition)->Ok_0.body,
            ) == injected(body, values),
            _ => true,
        },
{
    let fields = transform.fields();
    assert forall|i: int| 0 <= i < fields.len() implies is_resolved(
        (#[trigger] fields[i]).value,
    ) by {
        let _ = values[i];
        assert(values[i].0 == fields[i].name);
    }
    if transform.injects() {
        let made = concrete(fields, partition)->0;
        assert(made =~= values);
    }
}

/// Whether a document is an object is told by its first byte behind the blanks, tabs, line
/// feeds and carriage returns that lead it.
pub proof fn objects_are_told_by_their_first_byte(lead: Seq<u8>, first: u8, rest: Seq<u8>)
    requires
        forall|i: int|
            0 <= i < lead.len() ==> {
                ||| #[trigger] lead[i] == 0x20
                ||| lead[i] == 0x09
                ||| lead[i] == 0x0a
                ||| lead[i] == 0x0d
            },
        first != 0x20,
        first != 0x09,
        first != 0x0a,
        first != 0x0d,
    ensures
        opens_object(lead + seq![first] + rest) <==> first == 0x7b,
        !opens_object(lead),
    decreases lead.len(),
{
    let whole = lead + seq![first] + rest;
    if lead.len() > 0 {
        let less = lead.drop_first();
        assert forall|i: int| 0 <= i < less.len() implies {
            ||| #[trigger] less[i] == 0x20
            ||| less[i] == 0x09
            ||| less[i] == 0x0a
            ||| less[i] == 0x0d
        } by {
            assert(less[i] == lead[i + 1]);
        }
        objects_are_told_by_their_first_byte(less, first, rest);
        assert(whole[0] == lead[0]);
        assert(whole.drop_first() =~= less + seq![first] + rest);
    } else {
        assert(whole[0] == first);
    }
}

} // verus!
