//! The W3C trace context that ties a decision to the proxy's span.
use vstd::prelude::*;
use crate::abi::FilterRequest;
use crate::abi::RequestView;
use crate::text;
use crate::text::views;

verus! {

/// A lowercase hexadecimal digit.
pub open spec fn is_lower_hex(c: char) -> bool {
    '0' <= c <= '9' || 'a' <= c <= 'f'
}

/// 32 lowercase hexadecimal digits, not all of them zero.
pub open spec fn is_trace_id(s: Seq<char>) -> bool {
    &&& s.len() == 32
    &&& forall|i: int| 0 <= i < s.len() ==> is_lower_hex(#[trigger] s[i])
    &&& exists|i: int| 0 <= i < s.len() && #[trigger] s[i] != '0'
}

/// The second of the four `-`-separated fields of a `traceparent`, if it is a
/// trace id.
pub open spec fn trace_id_spec(traceparent: Seq<char>) -> Option<Seq<char>> {
    let parts = text::fields(traceparent, '-');
    if parts.len() == 4 && is_trace_id(parts[1]) {
        Some(parts[1])
    } else {
        None
    }
}

fn check_trace_id(s: &str) -> (r: bool)
    ensures
        r == is_trace_id(s@),
{
    let chars = text::to_chars(s);
    if chars.len() != 32 {
        return false;
    }
    let mut any: bool = false;
    let mut i: usize = 0;
    while i < 32
        invariant
            chars@ == s@,
            chars@.len() == 32,
            i <= 32,
            forall|k: int| 0 <= k < i ==> is_lower_hex(#[trigger] s@[k]),
            any == exists|k: int| 0 <= k < i && #[trigger] s@[k] != '0',
        decreases 32 - i,
    {
        let c: char = chars[i];
        if !(('0' <= c && c <= '9') || ('a' <= c && c <= 'f')) {
            assert(!is_lower_hex(s@[i as int]));
            return false;
        }
        if c != '0' {
            assert(s@[i as int] != '0');
            any = true;
        }
        i += 1;
    }
    any
}

/// The trace-id field of a W3C `traceparent`, or `None` if it is malformed. The
/// header is `version-traceid-spanid-flags`; a valid trace id is 32 lowercase hex
/// digits and not all zero.
#[must_use]
pub fn trace_id_of<'a>(traceparent: &'a str) -> (r: Option<&'a str>)
    ensures
        text::viewed(r) == trace_id_spec(traceparent@),
{
    let parts = text::split(traceparent, '-');
    assert(views(parts@).len() == parts@.len());
    if parts.len() != 4 {
        return None;
    }
    assert(views(parts@)[1] == parts@[1]@);
    if check_trace_id(parts[1]) {
        Some(parts[1])
    } else {
        None
    }
}

impl RequestView {
    /// The trace id in the request's `traceparent`, if there is a valid one.
    pub open spec fn trace_id(self) -> Option<Seq<char>> {
        match self.header("traceparent"@) {
            Some(value) => trace_id_spec(value),
            None => None,
        }
    }
}

impl FilterRequest {
    /// The W3C trace id from this request's `traceparent`, if present and valid.
    #[must_use]
    pub fn trace_id(&self) -> (r: Option<&str>)
        ensures
            text::viewed(r) == self@.trace_id(),
    {
        match self.header("traceparent") {
            Some(value) => trace_id_of(value),
            None => None,
        }
    }
}

/// A trace id is the second of four fields between dashes, where it is 32 lowercase
/// hexadecimal digits that are not all zero; any other `traceparent` has none.
pub proof fn trace_ids_are_the_second_of_four_fields(traceparent: Seq<char>)
    ensures
        match trace_id_spec(traceparent) {
            Some(id) => {
                &&& text::fields(traceparent, '-').len() == 4
                &&& id == text::fields(traceparent, '-')[1]
                &&& id.len() == 32
                &&& exists|k: int| 0 <= k < 32 && #[trigger] id[k] != '0'
                &&& forall|k: int|
                    0 <= k < 32 ==> {
                        ||| '0' <= #[trigger] id[k] <= '9'
                        ||| 'a' <= id[k] <= 'f'
                    }
            },
            None => text::fields(traceparent, '-').len() == 4 ==> {
                let id = text::fields(traceparent, '-')[1];
                ||| id.len() != 32
                ||| forall|k: int| 0 <= k < 32 ==> #[trigger] id[k] == '0'
                ||| exists|k: int|
                    0 <= k < 32 && !{
                        ||| '0' <= #[trigger] id[k] <= '9'
                        ||| 'a' <= id[k] <= 'f'
                    }
            },
        },
{
}

/// A request carries the trace id of its `traceparent`, and none without one.
pub proof fn requests_carry_the_trace_id_of_their_header(req: RequestView)
    ensures
        match req.header("traceparent"@) {
            Some(value) => req.trace_id() == trace_id_spec(value),
            None => req.trace_id() is None,
        },
{
}

} // verus!
