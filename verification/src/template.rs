//! Id templates: literal text with `{partition}` and `{body.<path>}` in between.
//!
//! A template says how the physical id of a document is put together from its
//! partition and a key of its own. With exactly one key in it a template can be
//! reversed: what stands before and behind the key is its frame.
use vstd::prelude::*;
use crate::text::find;

verus! {

/// One piece of an id template.
pub enum Piece {
    /// Text that is copied.
    Literal(Seq<char>),
    /// `{partition}`: the partition.
    Partition,
    /// `{body.<path>}`: a key of the document, found by its path.
    Key(Seq<char>),
}

/// The piece that a name in braces stands for.
pub open spec fn placeholder(name: Seq<char>) -> Option<Piece> {
    if name == "partition"@ {
        Some(Piece::Partition)
    } else if name.len() >= 5 && name.take(5) == "body."@ {
        Some(Piece::Key(name.skip(5)))
    } else {
        None
    }
}

/// The pieces of a template: `None` where a brace is not closed or encloses anything
/// but a placeholder.
pub open spec fn pieces(template: Seq<char>) -> Option<Seq<Piece>>
    decreases template.len(),
{
    let open = find(template, '{');
    if 0 <= open < template.len() {
        let after = template.skip(open + 1);
        let close = find(after, '}');
        if 0 <= close < after.len() {
            match (placeholder(after.take(close)), pieces(after.skip(close + 1))) {
                (Some(piece), Some(rest)) => Some(
                    seq![Piece::Literal(template.take(open)), piece] + rest,
                ),
                _ => None,
            }
        } else {
            None
        }
    } else {
        Some(seq![Piece::Literal(template)])
    }
}

/// The text of a piece that is no key.
pub open spec fn expanded(piece: Piece, partition: Seq<char>) -> Seq<char> {
    match piece {
        Piece::Literal(text) => text,
        Piece::Partition => partition,
        Piece::Key(_) => seq![],
    }
}

/// The text of pieces none of which is a key.
pub open spec fn keyless(pieces: Seq<Piece>, partition: Seq<char>) -> Option<Seq<char>>
    decreases pieces.len(),
{
    if pieces.len() == 0 {
        Some(seq![])
    } else {
        match (pieces[0], keyless(pieces.drop_first(), partition)) {
            (Piece::Key(_), _) => None,
            (piece, Some(rest)) => Some(expanded(piece, partition) + rest),
            (_, None) => None,
        }
    }
}

/// What pieces exactly one of which is a key put before and behind the key.
pub open spec fn framed(pieces: Seq<Piece>, partition: Seq<char>) -> Option<
    (Seq<char>, Seq<char>),
>
    decreases pieces.len(),
{
    if pieces.len() == 0 {
        None
    } else {
        match pieces[0] {
            Piece::Key(_) => match keyless(pieces.drop_first(), partition) {
                Some(suffix) => Some((seq![], suffix)),
                None => None,
            },
            piece => match framed(pieces.drop_first(), partition) {
                Some((prefix, suffix)) => Some((expanded(piece, partition) + prefix, suffix)),
                None => None,
            },
        }
    }
}

/// What a template puts before and behind the document's own key: `None` where the
/// template is malformed, or has no key or several.
pub open spec fn id_frame(template: Seq<char>, partition: Seq<char>) -> Option<
    (Seq<char>, Seq<char>),
> {
    match pieces(template) {
        Some(pieces) => framed(pieces, partition),
        None => None,
    }
}

/// Whether a text begins with `prefix` and, behind it, ends with `suffix`.
pub open spec fn fits_frame(prefix: Seq<char>, suffix: Seq<char>, s: Seq<char>) -> bool {
    &&& prefix.len() + suffix.len() <= s.len()
    &&& s.take(prefix.len() as int) == prefix
    &&& s.skip(s.len() - suffix.len()) == suffix
}

/// The physical id of a logical one.
pub open spec fn physical_of(
    template: Seq<char>,
    partition: Seq<char>,
    logical: Seq<char>,
) -> Option<Seq<char>> {
    match id_frame(template, partition) {
        Some((prefix, suffix)) => Some(prefix + logical + suffix),
        None => None,
    }
}

/// The logical id of a physical one: `None` where the template has no frame, or the
/// id does not fit it.
pub open spec fn logical_of(
    template: Seq<char>,
    partition: Seq<char>,
    physical: Seq<char>,
) -> Option<Seq<char>> {
    match id_frame(template, partition) {
        Some((prefix, suffix)) => if fits_frame(prefix, suffix, physical) {
            Some(physical.subrange(prefix.len() as int, physical.len() - suffix.len()))
        } else {
            None
        },
        None => None,
    }
}

/// The logical id of the physical id of a logical id is that id: whatever a client
/// asked for by id comes back to it under the same id.
pub proof fn physical_ids_map_back(
    template: Seq<char>,
    partition: Seq<char>,
    logical: Seq<char>,
)
    requires
        id_frame(template, partition) is Some,
    ensures
        physical_of(template, partition, logical) is Some,
        logical_of(template, partition, physical_of(template, partition, logical)->0) == Some(
            logical,
        ),
{
    let (prefix, suffix) = id_frame(template, partition)->0;
    let physical = prefix + logical + suffix;
    assert(physical.take(prefix.len() as int) =~= prefix);
    assert(physical.skip(physical.len() - suffix.len()) =~= suffix);
    assert(physical.subrange(prefix.len() as int, physical.len() - suffix.len()) =~= logical);
}

/// The physical id of the logical id of a physical id is that id: a document that was
/// stored under an id of the template's form is found again by the id it is shown
/// under.
pub proof fn logical_ids_map_back(
    template: Seq<char>,
    partition: Seq<char>,
    physical: Seq<char>,
)
    requires
        logical_of(template, partition, physical) is Some,
    ensures
        physical_of(template, partition, logical_of(template, partition, physical)->0) == Some(
            physical,
        ),
{
    let (prefix, suffix) = id_frame(template, partition)->0;
    let logical = logical_of(template, partition, physical)->0;
    assert(prefix + logical + suffix =~= physical) by {
        assert forall|i: int| 0 <= i < physical.len() implies (prefix + logical + suffix)[i]
            == physical[i] by {
            if i < prefix.len() {
                assert(physical.take(prefix.len() as int)[i] == physical[i]);
            } else if i >= physical.len() - suffix.len() {
                let at = physical.len() - suffix.len();
                assert(physical.skip(at)[i - at] == physical[i]);
            }
        }
    }
}

/// Two documents of one partition with different logical ids have different
/// physical ids.
pub proof fn physical_ids_are_distinct(
    template: Seq<char>,
    partition: Seq<char>,
    one: Seq<char>,
    other: Seq<char>,
)
    requires
        physical_of(template, partition, one) is Some,
        physical_of(template, partition, one) == physical_of(template, partition, other),
    ensures
        one == other,
{
    physical_ids_map_back(template, partition, one);
    physical_ids_map_back(template, partition, other);
}

} // verus!
