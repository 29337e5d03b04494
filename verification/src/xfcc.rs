//! Reading the downstream identity out of `x-forwarded-client-cert`.
//!
//! The header lists certificates, the peer's own first, separated by commas. One
//! certificate is a list of `key=value` pairs separated by semicolons. A value may
//! be double-quoted, and separators inside quotes do not count.
use vstd::prelude::*;
use vstd::string::StrSliceExecFns;
use crate::abi::no_identity;
use crate::abi::IdentityView;
use crate::abi::MtlsIdentity;
use crate::text;
use crate::text::cut;
use crate::text::lower;
use crate::text::string_views;
use crate::text::trimmed;
use crate::text::views;

verus! {

/// Where a reader stands after some text: inside a quoted span or not, and
/// whether the next character is escaped.
pub struct Quoting {
    /// Inside double quotes.
    pub quoted: bool,
    /// Right behind a backslash.
    pub escaped: bool,
}

/// One more character read.
pub open spec fn quoting_step(q: Quoting, c: char) -> Quoting {
    if q.escaped {
        Quoting { quoted: q.quoted, escaped: false }
    } else if c == '\\' {
        Quoting { quoted: q.quoted, escaped: true }
    } else if c == '"' {
        Quoting { quoted: !q.quoted, escaped: false }
    } else {
        q
    }
}

/// The state after reading all of `s`.
pub open spec fn quoting(s: Seq<char>) -> Quoting
    decreases s.len(),
{
    if s.len() == 0 {
        Quoting { quoted: false, escaped: false }
    } else {
        quoting_step(quoting(s.drop_last()), s.last())
    }
}

/// Whether the character of `s` at `i` is a separator: a `delim` that is neither
/// quoted nor escaped.
pub open spec fn separates(s: Seq<char>, delim: char, i: int) -> bool {
    &&& s[i] == delim
    &&& quoting(s.take(i)) == (Quoting { quoted: false, escaped: false })
}

/// The first separator of `s` at or behind `from`, or the end of `s`.
pub open spec fn next_separator(s: Seq<char>, delim: char, from: int) -> int
    decreases s.len() - from,
{
    if from >= s.len() {
        s.len() as int
    } else if separates(s, delim, from) {
        from
    } else {
        next_separator(s, delim, from + 1)
    }
}

/// The parts of `s` behind `from`, cut at its separators.
pub open spec fn parts_from(s: Seq<char>, delim: char, from: int) -> Seq<Seq<char>>
    decreases s.len() - from when 0 <= from <= s.len()
    via parts_from_decreases
{
    let at = next_separator(s, delim, from);
    if at < s.len() {
        seq![s.subrange(from, at)] + parts_from(s, delim, at + 1)
    } else {
        seq![s.subrange(from, s.len() as int)]
    }
}

#[via_fn]
proof fn parts_from_decreases(s: Seq<char>, delim: char, from: int) {
    lemma_next_separator(s, delim, from);
}

/// `s` cut at its separators.
pub open spec fn parts(s: Seq<char>, delim: char) -> Seq<Seq<char>> {
    parts_from(s, delim, 0)
}

/// `s` with each backslash dropped and the character behind it kept.
pub open spec fn unescaped(s: Seq<char>) -> Seq<char>
    decreases s.len(),
{
    if s.len() == 0 {
        seq![]
    } else if s[0] != '\\' {
        seq![s[0]] + unescaped(s.drop_first())
    } else if s.len() == 1 {
        seq![]
    } else {
        seq![s[1]] + unescaped(s.skip(2))
    }
}

/// The value that a possibly quoted value stands for.
pub open spec fn unquoted(s: Seq<char>) -> Seq<char> {
    if s.len() >= 2 && s[0] == '"' && s.last() == '"' {
        unescaped(s.subrange(1, s.len() - 1))
    } else {
        s
    }
}

/// The identity after one more `key=value` pair of the peer's certificate.
pub open spec fn with_pair(id: IdentityView, pair: Seq<char>) -> IdentityView {
    match cut(trimmed(pair), '=') {
        None => id,
        Some((key, raw)) => {
            let value = unquoted(trimmed(raw));
            if lower(key) == lower("Subject"@) {
                IdentityView { subject: value, ..id }
            } else if lower(key) == lower("URI"@) && value.len() > 0 {
                IdentityView { uri_sans: id.uri_sans.push(value), ..id }
            } else {
                id
            }
        },
    }
}

/// The identity that a list of pairs describes: the last subject, and every
/// non-empty URI in order.
pub open spec fn identity_of_pairs(pairs: Seq<Seq<char>>) -> IdentityView
    decreases pairs.len(),
{
    if pairs.len() == 0 {
        IdentityView { presented: true, ..no_identity() }
    } else {
        with_pair(identity_of_pairs(pairs.drop_last()), pairs.last())
    }
}

/// The identity that a header value describes: that of its first certificate.
pub open spec fn identity_of(header: Seq<char>) -> IdentityView {
    if trimmed(header).len() == 0 {
        no_identity()
    } else {
        identity_of_pairs(parts(trimmed(parts(header, ',')[0]), ';'))
    }
}

proof fn lemma_next_separator(s: Seq<char>, delim: char, from: int)
    requires
        0 <= from <= s.len(),
    ensures
        from <= next_separator(s, delim, from) <= s.len(),
        next_separator(s, delim, from) < s.len() ==> separates(
            s,
            delim,
            next_separator(s, delim, from),
        ),
        forall|i: int|
            from <= i < next_separator(s, delim, from) ==> !#[trigger] separates(s, delim, i),
    decreases s.len() - from,
{
    if from < s.len() && !separates(s, delim, from) {
        lemma_next_separator(s, delim, from + 1);
    }
}

proof fn lemma_no_separator_between(s: Seq<char>, delim: char, from: int, to: int)
    requires
        0 <= from <= to <= s.len(),
        forall|i: int| from <= i < to ==> !#[trigger] separates(s, delim, i),
    ensures
        next_separator(s, delim, from) == next_separator(s, delim, to),
    decreases to - from,
{
    if from < to {
        assert(!separates(s, delim, from));
        lemma_no_separator_between(s, delim, from + 1, to);
    }
}

/// Trimming leaves nothing exactly where there is nothing but white space.
proof fn lemma_trimmed_empty(s: Seq<char>)
    ensures
        trimmed(s).len() == 0 <==> forall|i: int| 0 <= i < s.len() ==> text::is_space(#[trigger] s[i]),
{
    lemma_leading(s);
    let rest = s.skip(text::leading_space(s));
    lemma_trailing(rest);
    if rest.len() > 0 {
        assert(rest[0] == s[text::leading_space(s)]);
    }
}

proof fn lemma_leading(s: Seq<char>)
    ensures
        0 <= text::leading_space(s) <= s.len(),
        forall|i: int| 0 <= i < text::leading_space(s) ==> text::is_space(#[trigger] s[i]),
        text::leading_space(s) < s.len() ==> !text::is_space(s[text::leading_space(s)]),
    decreases s.len(),
{
    if s.len() > 0 && text::is_space(s[0]) {
        let rest = s.drop_first();
        lemma_leading(rest);
        assert forall|i: int| 0 <= i < text::leading_space(s) implies text::is_space(
            #[trigger] s[i],
        ) by {
            if i > 0 {
                assert(s[i] == rest[i - 1]);
            }
        }
        if text::leading_space(s) < s.len() {
            assert(s[text::leading_space(s)] == rest[text::leading_space(rest)]);
        }
    }
}

proof fn lemma_trailing(s: Seq<char>)
    ensures
        s.len() > 0 && !text::is_space(s[0]) ==> text::trimmed_end(s).len() > 0,
        s.len() == 0 ==> text::trimmed_end(s).len() == 0,
    decreases s.len(),
{
    if s.len() > 0 && text::is_space(s.last()) {
        lemma_trailing(s.drop_last());
    }
}

/// The identity is the peer's own: whatever chain of issuers follows the first
/// certificate of a header changes nothing.
pub proof fn issuers_do_not_count(peer: Seq<char>, chain: Seq<char>)
    requires
        quoting(peer) == (Quoting { quoted: false, escaped: false }),
        forall|i: int| 0 <= i < peer.len() ==> !#[trigger] separates(peer, ',', i),
    ensures
        identity_of(peer + seq![','] + chain) == identity_of_pairs(parts(trimmed(peer), ';')),
        trimmed(peer).len() > 0 ==> identity_of(peer + seq![','] + chain) == identity_of(peer),
{
    let whole = peer + seq![','] + chain;
    let n = peer.len() as int;
    assert(whole[n] == ',');
    assert(whole.take(n) =~= peer);
    assert forall|i: int| 0 <= i < n implies !#[trigger] separates(whole, ',', i) by {
        assert(whole.take(i) =~= peer.take(i));
        assert(!separates(peer, ',', i));
    }
    lemma_no_separator_between(whole, ',', 0, n);
    lemma_no_separator_between(peer, ',', 0, n);
    assert(separates(whole, ',', n));
    assert(whole.subrange(0, n) =~= peer);
    assert(peer.subrange(0, n) =~= peer);
    lemma_trimmed_empty(whole);
    assert(!text::is_space(whole[n]));
}

/// Cuts `input` at each `delim` outside a double-quoted span. The parts keep
/// their quotes.
fn split_top_level<'a>(input: &'a str, delim: char) -> (out: Vec<&'a str>)
    requires
        delim != '\\',
        delim != '"',
    ensures
        views(out@) == parts(input@, delim),
{
    let chars = text::to_chars(input);
    let len: usize = chars.len();
    let mut out: Vec<&'a str> = Vec::new();
    let mut start: usize = 0;
    let mut quoted: bool = false;
    let mut escaped: bool = false;
    let mut i: usize = 0;
    proof {
        assert(input@.take(0) =~= Seq::<char>::empty());
    }
    while i < len
        invariant
            delim != '\\',
            delim != '"',
            chars@ == input@,
            len == input@.len(),
            start <= i <= len,
            quoting(input@.take(i as int)) == (Quoting { quoted, escaped }),
            forall|k: int| start <= k < i ==> !#[trigger] separates(input@, delim, k),
            views(out@) + parts_from(input@, delim, start as int) == parts(input@, delim),
        decreases len - i,
    {
        let c: char = chars[i];
        proof {
            let next = input@.take(i + 1);
            assert(next.drop_last() =~= input@.take(i as int));
            assert(next.last() == c);
        }
        if escaped {
            escaped = false;
        } else if c == '\\' {
            escaped = true;
        } else if c == '"' {
            quoted = !quoted;
        } else if c == delim && !quoted {
            let part = input.substring_char(start, i);
            proof {
                assert(separates(input@, delim, i as int));
                lemma_no_separator_between(input@, delim, start as int, i as int);
                assert(next_separator(input@, delim, i as int) == i);
                let tail = parts_from(input@, delim, i + 1);
                assert(views(out@.push(part)) =~= views(out@).push(part@));
                assert(views(out@) + (seq![part@] + tail) =~= views(out@.push(part)) + tail);
            }
            out.push(part);
            start = i + 1;
        }
        i += 1;
    }
    let last = input.substring_char(start, len);
    proof {
        lemma_no_separator_between(input@, delim, start as int, len as int);
        assert(views(out@.push(last)) =~= views(out@) + parts_from(input@, delim, start as int));
    }
    out.push(last);
    out
}

/// Strips surrounding double quotes and unescapes what they held; a bare value is
/// returned as it is.
fn unquote(value: &str) -> (out: String)
    ensures
        out@ == unquoted(value@),
{
    let chars = text::to_chars(value);
    let len: usize = chars.len();
    if len < 2 || chars[0] != '"' || chars[len - 1] != '"' {
        return value.to_owned();
    }
    let ghost inner = value@.subrange(1, len - 1);
    let mut out = String::new();
    let mut i: usize = 1;
    assert(inner.skip(0) =~= inner);
    while i < len - 1
        invariant
            chars@ == value@,
            len == value@.len(),
            len >= 2,
            inner == value@.subrange(1, len - 1),
            1 <= i <= len - 1,
            out@ + unescaped(inner.skip(i - 1)) == unescaped(inner),
        decreases len - i,
    {
        let ghost rest = inner.skip(i - 1);
        let ghost seen = out@;
        let c: char = chars[i];
        assert(rest[0] == c);
        if c != '\\' {
            out.push(c);
            proof {
                assert(rest.drop_first() =~= inner.skip(i as int));
                assert(seen.push(c) + unescaped(inner.skip(i as int)) =~= seen + unescaped(rest));
            }
            i += 1;
        } else if i + 1 < len - 1 {
            let d: char = chars[i + 1];
            out.push(d);
            proof {
                assert(rest[1] == d);
                assert(rest.skip(2) =~= inner.skip(i + 1));
                assert(seen.push(d) + unescaped(inner.skip(i + 1)) =~= seen + unescaped(rest));
            }
            i += 2;
        } else {
            proof {
                assert(rest.len() == 1);
                assert(inner.skip(i as int) =~= Seq::<char>::empty());
            }
            i += 1;
        }
    }
    assert(inner.skip(i - 1) =~= Seq::<char>::empty());
    assert(out@ + Seq::<char>::empty() =~= out@);
    out
}

impl MtlsIdentity {
    /// Parses an `x-forwarded-client-cert` value into an identity. An empty (or
    /// whitespace-only) header yields the default identity.
    #[must_use]
    pub fn from_xfcc(header: &str) -> (identity: Self)
        ensures
            identity@ == identity_of(header@),
    {
        if text::trim(header).is_empty() {
            assert(trimmed(header@) =~= Seq::<char>::empty());
            return MtlsIdentity::default();
        }
        // Only the first element, the peer's own certificate, is the identity that
        // tenancy is keyed on; the rest are the issuing chain.
        let elements = split_top_level(header, ',');
        proof {
            lemma_next_separator(header@, ',', 0);
            assert(views(elements@).len() == elements@.len());
            assert(views(elements@)[0] == elements@[0]@);
        }
        let peer = text::trim(elements[0]);
        let pairs = split_top_level(peer, ';');
        let ghost all = views(pairs@);
        let mut identity = MtlsIdentity {
            presented: true,
            subject: String::new(),
            uri_sans: Vec::new(),
        };
        let mut i: usize = 0;
        assert(all.take(0) =~= Seq::<Seq<char>>::empty());
        assert(identity@ =~= identity_of_pairs(all.take(0)));
        while i < pairs.len()
            invariant
                i <= pairs@.len(),
                all == views(pairs@),
                identity@ == identity_of_pairs(all.take(i as int)),
            decreases pairs@.len() - i,
        {
            let ghost before = identity@;
            proof {
                assert(all.take(i + 1).drop_last() =~= all.take(i as int));
                assert(all.take(i + 1).last() == pairs@[i as int]@);
            }
            if let Some((key, raw)) = text::split_once(text::trim(pairs[i]), '=') {
                let value = unquote(text::trim(raw));
                if text::same_ignoring_case(key, "Subject") {
                    identity.subject = value;
                    assert(identity@ =~= with_pair(before, pairs@[i as int]@));
                } else if text::same_ignoring_case(key, "URI") {
                    if !value.as_str().is_empty() {
                        let ghost sans = identity.uri_sans@;
                        identity.uri_sans.push(value);
                        assert(string_views(sans.push(value)) =~= string_views(sans).push(value@));
                        assert(identity@ =~= with_pair(before, pairs@[i as int]@));
                    }
                }
            }
            i += 1;
        }
        assert(all.take(i as int) =~= all);
        identity
    }
}

/// Reading on from where nothing is open is like reading from the start.
proof fn lemma_quoting_from(a: Seq<char>, b: Seq<char>)
    requires
        quoting(a) == (Quoting { quoted: false, escaped: false }),
    ensures
        quoting(a + b) == quoting(b),
    decreases b.len(),
{
    if b.len() == 0 {
        assert(a + b =~= a);
    } else {
        assert((a + b).drop_last() =~= a + b.drop_last());
        assert((a + b).last() == b.last());
        lemma_quoting_from(a, b.drop_last());
    }
}

/// Behind a separator the parts are those of the rest.
proof fn lemma_parts_behind(a: Seq<char>, b: Seq<char>, delim: char, from: int)
    requires
        quoting(a) == (Quoting { quoted: false, escaped: false }),
        0 <= from <= b.len(),
    ensures
        parts_from(a + b, delim, a.len() + from) == parts_from(b, delim, from),
    decreases b.len() - from,
{
    let whole = a + b;
    let n = a.len() as int;
    lemma_next_separator(b, delim, from);
    lemma_next_separator(whole, delim, n + from);
    let at = next_separator(b, delim, from);
    assert forall|i: int| 0 <= i < b.len() implies separates(whole, delim, n + i) == separates(
        b,
        delim,
        i,
    ) by {
        assert(whole.take(n + i) =~= a + b.take(i));
        lemma_quoting_from(a, b.take(i));
    }
    assert forall|i: int| n + from <= i < n + at implies !#[trigger] separates(
        whole,
        delim,
        i,
    ) by {
        assert(!separates(b, delim, i - n));
    }
    lemma_no_separator_between(whole, delim, n + from, n + at);
    if at < b.len() {
        assert(separates(whole, delim, n + at));
        assert(next_separator(whole, delim, n + at) == n + at);
        assert(whole.subrange(n + from, n + at) =~= b.subrange(from, at));
        lemma_parts_behind(a, b, delim, at + 1);
    } else {
        assert(next_separator(whole, delim, n + at) == whole.len());
        assert(whole.subrange(n + from, whole.len() as int) =~= b.subrange(from, b.len() as int));
    }
}

/// A list is its first part and the parts of the rest: a separator counts where it is
/// neither quoted nor escaped, and nowhere else.
pub proof fn lists_are_cut_at_open_separators(first: Seq<char>, rest: Seq<char>, delim: char)
    requires
        delim != '"',
        delim != '\\',
        quoting(first) == (Quoting { quoted: false, escaped: false }),
        forall|i: int| 0 <= i < first.len() ==> !#[trigger] separates(first, delim, i),
    ensures
        parts(first, delim) == seq![first],
        parts(first + seq![delim] + rest, delim) == seq![first] + parts(rest, delim),
{
    let n = first.len() as int;
    lemma_next_separator(first, delim, 0);
    lemma_no_separator_between(first, delim, 0, n);
    assert(first.subrange(0, n) =~= first);
    let head = first + seq![delim];
    let whole = head + rest;
    assert(head.drop_last() =~= first);
    assert(quoting(head) == (Quoting { quoted: false, escaped: false }));
    assert(whole.take(n) =~= first);
    assert forall|i: int| 0 <= i < n implies !#[trigger] separates(whole, delim, i) by {
        assert(whole.take(i) =~= first.take(i));
        assert(!separates(first, delim, i));
    }
    lemma_no_separator_between(whole, delim, 0, n);
    assert(separates(whole, delim, n));
    assert(next_separator(whole, delim, n) == n);
    assert(whole.subrange(0, n) =~= first);
    lemma_parts_behind(head, rest, delim, 0);
}

/// A text as it stands between quotes: a backslash before every quote and backslash.
pub open spec fn escaped(s: Seq<char>) -> Seq<char>
    decreases s.len(),
{
    if s.len() == 0 {
        seq![]
    } else if s[0] == '"' || s[0] == '\\' {
        seq!['\\', s[0]] + escaped(s.drop_first())
    } else {
        seq![s[0]] + escaped(s.drop_first())
    }
}

/// A value that was quoted is read as what was quoted, and a bare one as it stands.
pub proof fn quoted_values_are_read_as_they_were(s: Seq<char>)
    ensures
        unquoted(seq!['"'] + escaped(s) + seq!['"']) == s,
        s.len() < 2 || s[0] != '"' || s.last() != '"' ==> unquoted(s) == s,
{
    let whole = seq!['"'] + escaped(s) + seq!['"'];
    assert(whole.subrange(1, whole.len() - 1) =~= escaped(s));
    lemma_unescaped(s);
}

proof fn lemma_unescaped(s: Seq<char>)
    ensures
        unescaped(escaped(s)) == s,
    decreases s.len(),
{
    if s.len() > 0 {
        let rest = s.drop_first();
        lemma_unescaped(rest);
        let e = escaped(s);
        if s[0] == '"' || s[0] == '\\' {
            assert(e[0] == '\\' && e[1] == s[0]);
            assert(e.skip(2) =~= escaped(rest));
        } else {
            assert(e.drop_first() =~= escaped(rest));
        }
        assert(seq![s[0]] + rest =~= s);
    }
}

/// What one pair of a certificate says: `Subject` gives the subject, the last one counting;
/// each `URI` that is not empty is added behind those before; the case of the key does not
/// count; and any other pair, or one without an equals sign, says nothing.
pub proof fn pairs_give_subject_and_uris(
    pairs: Seq<Seq<char>>,
    key: Seq<char>,
    value: Seq<char>,
    bare: Seq<char>,
)
    requires
        !key.contains('='),
        trimmed(key + seq!['='] + value) == key + seq!['='] + value,
        !trimmed(bare).contains('='),
    ensures
        ({
            let before = identity_of_pairs(pairs);
            let after = identity_of_pairs(pairs.push(key + seq!['='] + value));
            let said = unquoted(trimmed(value));
            &&& lower(key) == lower("Subject"@) ==> after == (IdentityView {
                subject: said,
                ..before
            })
            &&& lower(key) == lower("URI"@) && said.len() > 0 ==> after == (IdentityView {
                uri_sans: before.uri_sans.push(said),
                ..before
            })
            &&& lower(key) == lower("URI"@) && said.len() == 0 ==> after == before
            &&& lower(key) != lower("Subject"@) && lower(key) != lower("URI"@) ==> after == before
            &&& identity_of_pairs(pairs.push(bare)) == before
            &&& identity_of_pairs(Seq::empty()) == (IdentityView {
                presented: true,
                subject: seq![],
                uri_sans: seq![],
            })
            &&& before.presented
        }),
{
    reveal_strlit("Subject");
    reveal_strlit("URI");
    assert(lower("Subject"@).len() == 7 && lower("URI"@).len() == 3);
    let pair = key + seq!['='] + value;
    assert forall|i: int| 0 <= i < key.len() implies pair[i] != '=' by {
        assert(key.contains(key[i]));
    }
    text::lemma_first_at(pair, '=', key.len() as int);
    assert(pair.take(key.len() as int) =~= key);
    assert(pair.skip(key.len() as int + 1) =~= value);
    assert(pairs.push(pair).drop_last() =~= pairs);
    assert(pairs.push(bare).drop_last() =~= pairs);
    let t = trimmed(bare);
    text::lemma_find(t, '=');
    if text::find(t, '=') < t.len() {
        assert(t.contains(t[text::find(t, '=')]));
    }
    lemma_presented(pairs);
    assert(no_identity().subject =~= Seq::<char>::empty());
}

proof fn lemma_presented(pairs: Seq<Seq<char>>)
    ensures
        identity_of_pairs(pairs).presented,
    decreases pairs.len(),
{
    if pairs.len() > 0 {
        lemma_presented(pairs.drop_last());
    }
}

/// A header that holds nothing but white space presents nobody.
pub proof fn blank_headers_present_nobody(header: Seq<char>)
    ensures
        (forall|i: int| 0 <= i < header.len() ==> text::is_space(#[trigger] header[i]))
            ==> !identity_of(header).presented,
        !(forall|i: int| 0 <= i < header.len() ==> text::is_space(#[trigger] header[i]))
            ==> identity_of(header).presented,
{
    lemma_trimmed_empty(header);
    lemma_presented(parts(trimmed(parts(header, ',')[0]), ';'));
}

/// Inside quotes nothing but an unescaped quote ends them.
proof fn lemma_inside(before: Seq<char>, s: Seq<char>)
    requires
        quoting(before) == (Quoting { quoted: true, escaped: false }),
    ensures
        quoting(before + escaped(s)) == (Quoting { quoted: true, escaped: false }),
        forall|i: int|
            0 <= i <= escaped(s).len() ==> #[trigger] quoting(
                before + escaped(s).take(i),
            ).quoted,
    decreases s.len(),
{
    let e = escaped(s);
    if s.len() == 0 {
        assert(before + e =~= before);
        assert(e.take(0) =~= e);
    } else {
        let rest = s.drop_first();
        let bare = before.push(s[0]);
        let slashed = before.push('\\');
        let both = slashed.push(s[0]);
        assert(bare.drop_last() =~= before);
        assert(slashed.drop_last() =~= before);
        assert(both.drop_last() =~= slashed);
        assert(quoting(slashed) == (Quoting { quoted: true, escaped: true }));
        if s[0] == '"' || s[0] == '\\' {
            lemma_inside(both, rest);
            assert(before + e =~= both + escaped(rest));
            assert forall|i: int| 0 <= i <= e.len() implies #[trigger] quoting(
                before + e.take(i),
            ).quoted by {
                if i == 0 {
                    assert(before + e.take(0) =~= before);
                } else if i == 1 {
                    assert(before + e.take(1) =~= slashed);
                } else {
                    assert(before + e.take(i) =~= both + escaped(rest).take(i - 2));
                }
            }
        } else {
            lemma_inside(bare, rest);
            assert(before + e =~= bare + escaped(rest));
            assert forall|i: int| 0 <= i <= e.len() implies #[trigger] quoting(
                before + e.take(i),
            ).quoted by {
                if i == 0 {
                    assert(before + e.take(0) =~= before);
                } else {
                    assert(before + e.take(i) =~= bare + escaped(rest).take(i - 1));
                }
            }
        }
    }
}

/// Text without quotes and backslashes opens nothing.
proof fn lemma_open(s: Seq<char>)
    requires
        !s.contains('"'),
        !s.contains('\\'),
    ensures
        quoting(s) == (Quoting { quoted: false, escaped: false }),
    decreases s.len(),
{
    if s.len() > 0 {
        let front = s.drop_last();
        assert forall|c: char| front.contains(c) implies s.contains(c) by {
            let i = choose|i: int| 0 <= i < front.len() && front[i] == c;
            assert(s[i] == c);
        }
        assert(s.contains(s.last()));
        lemma_open(front);
    }
}

/// A list is cut at a separator behind plain text, behind a quoted value, whatever the
/// value holds, and behind an escaped character, whichever it is.
pub proof fn quoted_and_escaped_separators_do_not_count(
    plain: Seq<char>,
    value: Seq<char>,
    c: char,
    rest: Seq<char>,
    delim: char,
)
    requires
        delim != '"',
        delim != '\\',
        !plain.contains(delim),
        !plain.contains('"'),
        !plain.contains('\\'),
    ensures
        parts(plain + seq![delim] + rest, delim) == seq![plain] + parts(rest, delim),
        ({
            let quoted = plain + seq!['"'] + escaped(value) + seq!['"'];
            &&& parts(quoted, delim) == seq![quoted]
            &&& parts(quoted + seq![delim] + rest, delim) == seq![quoted] + parts(rest, delim)
        }),
        ({
            let slashed = plain + seq!['\\', c];
            &&& parts(slashed, delim) == seq![slashed]
            &&& parts(slashed + seq![delim] + rest, delim) == seq![slashed] + parts(rest, delim)
        }),
{
    let n = plain.len() as int;
    lemma_open(plain);
    assert forall|i: int| 0 <= i < n implies !#[trigger] separates(plain, delim, i) by {
        assert(plain.contains(plain[i]));
    }
    lists_are_cut_at_open_separators(plain, rest, delim);
    let opened = plain.push('"');
    assert(opened.drop_last() =~= plain);
    lemma_inside(opened, value);
    let inner = opened + escaped(value);
    let quoted = plain + seq!['"'] + escaped(value) + seq!['"'];
    assert(quoted =~= inner.push('"'));
    assert(inner.push('"').drop_last() =~= inner);
    assert forall|i: int| 0 <= i < quoted.len() implies !#[trigger] separates(
        quoted,
        delim,
        i,
    ) by {
        if i < n {
            assert(plain.contains(plain[i]));
            assert(quoted[i] == plain[i]);
        } else if i == n {
            assert(quoted[i] == '"');
        } else if i < quoted.len() - 1 {
            assert(quoted.take(i) =~= opened + escaped(value).take(i - n - 1));
        } else {
            assert(quoted[i] == '"');
        }
    }
    lists_are_cut_at_open_separators(quoted, rest, delim);
    let slash = plain.push('\\');
    let slashed = plain + seq!['\\', c];
    assert(slash.drop_last() =~= plain);
    assert(slashed.drop_last() =~= slash);
    assert(slashed.last() == c);
    assert(quoting(slash) == (Quoting { quoted: false, escaped: true }));
    assert forall|i: int| 0 <= i < slashed.len() implies !#[trigger] separates(
        slashed,
        delim,
        i,
    ) by {
        if i < n {
            assert(plain.contains(plain[i]));
            assert(slashed[i] == plain[i]);
        } else if i == n {
            assert(slashed[i] == '\\');
        } else {
            assert(slashed.take(i) =~= slash);
        }
    }
    lists_are_cut_at_open_separators(slashed, rest, delim);
}

} // verus!
