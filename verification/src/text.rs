//! Text as a sequence of characters.
//!
//! The rest of the crate reads request lines, headers and certificates. What it
//! says about them is said over `Seq<char>`, the view of `str` and `String`, and
//! this module holds the handful of operations it needs, each stated once as a
//! spec function and implemented next to it.
use vstd::prelude::*;
use vstd::slice::slice_to_vec;
use vstd::string::StrSliceExecFns;
use vstd::string::StringExecFns;

verus! {

/// `String::push` appends one character at the end of the string.
pub assume_specification[ String::push ](s: &mut String, c: char)
    ensures
        final(s)@ == old(s)@.push(c),
;

/// The index of the first `c` in `s`, or `s.len()` where there is none.
pub open spec fn find(s: Seq<char>, c: char) -> int
    decreases s.len(),
{
    if s.len() == 0 || s[0] == c {
        0
    } else {
        1 + find(s.drop_first(), c)
    }
}

/// `s` cut at its first `c`, which belongs to neither part.
pub open spec fn cut(s: Seq<char>, c: char) -> Option<(Seq<char>, Seq<char>)> {
    let at = find(s, c);
    if at < s.len() {
        Some((s.take(at), s.skip(at + 1)))
    } else {
        None
    }
}

/// What stands before the first `c` of `s`: all of `s` where there is none.
pub open spec fn before(s: Seq<char>, c: char) -> Seq<char> {
    s.take(find(s, c))
}

/// The fields of `s` between its separators `c`; there is always at least one.
pub open spec fn fields(s: Seq<char>, c: char) -> Seq<Seq<char>>
    decreases s.len(),
{
    let at = find(s, c);
    if 0 <= at < s.len() {
        seq![s.take(at)] + fields(s.skip(at + 1), c)
    } else {
        seq![s]
    }
}

/// Whether `pat` stands in `s` at `i`.
pub open spec fn occurs_at(s: Seq<char>, pat: Seq<char>, i: int) -> bool {
    i + pat.len() <= s.len() && s.subrange(i, i + pat.len()) == pat
}

/// The first place of `pat` in `s` at or behind `from`.
pub open spec fn find_text(s: Seq<char>, pat: Seq<char>, from: int) -> Option<int>
    decreases s.len() - from + 1,
{
    if from < 0 || from > s.len() {
        None
    } else if occurs_at(s, pat, from) {
        Some(from)
    } else {
        find_text(s, pat, from + 1)
    }
}

/// `s` cut at the first `pat`, which belongs to neither part.
pub open spec fn cut_text(s: Seq<char>, pat: Seq<char>) -> Option<(Seq<char>, Seq<char>)> {
    match find_text(s, pat, 0) {
        Some(at) => Some((s.take(at), s.skip(at + pat.len()))),
        None => None,
    }
}

/// `s` with each `pat` in it, taken from the left, replaced by `with`.
pub open spec fn replaced(s: Seq<char>, pat: Seq<char>, with: Seq<char>) -> Seq<char>
    decreases s.len(),
{
    match cut_text(s, pat) {
        Some((head, tail)) => if tail.len() < s.len() {
            head + with + replaced(tail, pat, with)
        } else {
            s
        },
        None => s,
    }
}

/// A decimal digit.
pub open spec fn digit_char(n: int) -> char {
    ((0x30 + n) as u8) as char
}

/// A number in decimal, without leading zeros.
pub open spec fn decimal(n: nat) -> Seq<char>
    decreases n,
{
    if n < 10 {
        seq![digit_char(n as int)]
    } else {
        decimal(n / 10).push(digit_char((n % 10) as int))
    }
}

/// The Unicode `White_Space` property.
pub open spec fn is_space(c: char) -> bool {
    ||| '\u{9}' <= c <= '\u{d}'
    ||| c == '\u{20}'
    ||| c == '\u{85}'
    ||| c == '\u{a0}'
    ||| c == '\u{1680}'
    ||| '\u{2000}' <= c <= '\u{200a}'
    ||| c == '\u{2028}'
    ||| c == '\u{2029}'
    ||| c == '\u{202f}'
    ||| c == '\u{205f}'
    ||| c == '\u{3000}'
}

/// How many characters at the front of `s` are white space.
pub open spec fn leading_space(s: Seq<char>) -> int
    decreases s.len(),
{
    if s.len() > 0 && is_space(s[0]) {
        1 + leading_space(s.drop_first())
    } else {
        0
    }
}

/// `s` without the white space at its end.
pub open spec fn trimmed_end(s: Seq<char>) -> Seq<char>
    decreases s.len(),
{
    if s.len() > 0 && is_space(s.last()) {
        trimmed_end(s.drop_last())
    } else {
        s
    }
}

/// `s` without the white space at either end.
pub open spec fn trimmed(s: Seq<char>) -> Seq<char> {
    trimmed_end(s.skip(leading_space(s)))
}

/// An ASCII capital as its small letter; every other character as it is.
pub open spec fn lower_char(c: char) -> char {
    if 'A' <= c <= 'Z' {
        ((c as u32 + 32) as u32) as char
    } else {
        c
    }
}

/// `s` with its ASCII capitals made small.
pub open spec fn lower(s: Seq<char>) -> Seq<char> {
    Seq::new(s.len(), |i: int| lower_char(s[i]))
}

/// The views of a sequence of string slices.
pub open spec fn views(parts: Seq<&str>) -> Seq<Seq<char>> {
    Seq::new(parts.len(), |i: int| parts[i]@)
}

/// The views of a sequence of strings.
pub open spec fn string_views(parts: Seq<String>) -> Seq<Seq<char>> {
    Seq::new(parts.len(), |i: int| parts[i]@)
}

/// The view of an optional string.
pub open spec fn optional(s: Option<String>) -> Option<Seq<char>> {
    match s {
        Some(s) => Some(s@),
        None => None,
    }
}

/// The view of an optional string slice.
pub open spec fn viewed(s: Option<&str>) -> Option<Seq<char>> {
    match s {
        Some(s) => Some(s@),
        None => None,
    }
}

/// `find` is the one index with no `c` before it that is either the end of `s`
/// or the place of a `c`.
pub proof fn lemma_find(s: Seq<char>, c: char)
    ensures
        0 <= find(s, c) <= s.len(),
        forall|i: int| 0 <= i < find(s, c) ==> s[i] != c,
        find(s, c) < s.len() ==> s[find(s, c)] == c,
        forall|n: int|
            #![trigger s.take(n)]
            0 <= n <= s.len() && (forall|i: int| 0 <= i < n ==> s[i] != c) && (n < s.len() ==> s[n]
                == c) ==> n == find(s, c),
    decreases s.len(),
{
    if s.len() == 0 || s[0] == c {
    } else {
        let rest = s.drop_first();
        lemma_find(rest, c);
        assert forall|i: int| 0 <= i < find(s, c) implies s[i] != c by {
            if i > 0 {
                assert(s[i] == rest[i - 1]);
            }
        }
        if find(s, c) < s.len() {
            assert(s[find(s, c)] == rest[find(rest, c)]);
        }
    }
    assert forall|n: int|
        #![trigger s.take(n)]
        0 <= n <= s.len() && (forall|i: int| 0 <= i < n ==> s[i] != c) && (n < s.len() ==> s[n]
            == c) implies n == find(s, c) by {
        let at = find(s, c);
        if n < at {
            assert(s[n] != c);
        } else if at < n {
            assert(s[at] != c);
        }
    }
}

/// The first place of a character, where nothing before it is that character.
pub proof fn lemma_first_at(s: Seq<char>, c: char, at: int)
    requires
        0 <= at < s.len(),
        s[at] == c,
        forall|i: int| 0 <= i < at ==> s[i] != c,
    ensures
        find(s, c) == at,
{
    lemma_find(s, c);
    let _ = s.take(at);
}

/// Every field of a text is free of the separator.
pub proof fn lemma_fields_free(s: Seq<char>, c: char)
    ensures
        forall|i: int| 0 <= i < fields(s, c).len() ==> !(#[trigger] fields(s, c)[i]).contains(c),
    decreases s.len(),
{
    lemma_find(s, c);
    let at = find(s, c);
    if at < s.len() {
        let rest = s.skip(at + 1);
        lemma_fields_free(rest, c);
        assert forall|i: int| 0 <= i < fields(s, c).len() implies !(#[trigger] fields(
            s,
            c,
        )[i]).contains(c) by {
            if i > 0 {
                assert(fields(s, c)[i] == fields(rest, c)[i - 1]);
            }
        }
    }
}

/// The characters of `s`, one by one.
pub fn to_chars(s: &str) -> (out: Vec<char>)
    ensures
        out@ == s@,
{
    let mut out: Vec<char> = Vec::new();
    for c in it: s.chars()
        invariant
            it.seq() == s@,
            out@ == s@.take(it.index() as int),
    {
        out.push(c);
    }
    out
}

/// Whether two texts are the same.
pub fn same(a: &str, b: &str) -> (r: bool)
    ensures
        r == (a@ == b@),
{
    let x = a.as_bytes();
    let y = b.as_bytes();
    proof {
        vstd::utf8::encode_utf8_decode_utf8(a@);
        vstd::utf8::encode_utf8_decode_utf8(b@);
    }
    if x.len() != y.len() {
        return false;
    }
    let mut i: usize = 0;
    while i < x.len()
        invariant
            x@ == vstd::utf8::encode_utf8(a@),
            y@ == vstd::utf8::encode_utf8(b@),
            i <= x@.len() == y@.len(),
            forall|k: int| 0 <= k < i ==> x@[k] == y@[k],
        decreases x@.len() - i,
    {
        if x[i] != y[i] {
            return false;
        }
        i += 1;
    }
    assert(x@ =~= y@);
    true
}

/// The character index of the first `c` in `s`, or the number of characters.
pub fn find_char(s: &str, c: char) -> (at: usize)
    ensures
        at == find(s@, c),
        at <= s@.len(),
{
    let chars = to_chars(s);
    let mut i: usize = 0;
    proof {
        lemma_find(s@, c);
    }
    while i < chars.len()
        invariant
            i <= chars@.len(),
            chars@ == s@,
            forall|k: int| 0 <= k < i ==> s@[k] != c,
        ensures
            i <= chars@.len(),
            forall|k: int| 0 <= k < i ==> s@[k] != c,
            i < chars@.len() ==> s@[i as int] == c,
        decreases chars@.len() - i,
    {
        if chars[i] == c {
            break;
        }
        i += 1;
    }
    assert(s@.take(i as int).len() == i);
    i
}

/// Cuts `s` at its first `c`.
pub fn split_once<'a>(s: &'a str, c: char) -> (r: Option<(&'a str, &'a str)>)
    ensures
        match r {
            Some((head, tail)) => cut(s@, c) == Some((head@, tail@)),
            None => cut(s@, c) is None,
        },
{
    let at: usize = find_char(s, c);
    let len: usize = s.unicode_len();
    if at < len {
        let head = s.substring_char(0, at);
        let tail = s.substring_char(at + 1, len);
        assert(head@ =~= s@.take(at as int));
        assert(tail@ =~= s@.skip(at + 1));
        Some((head, tail))
    } else {
        None
    }
}

/// The fields of `s` between its separators `c`.
pub fn split<'a>(s: &'a str, c: char) -> (parts: Vec<&'a str>)
    ensures
        views(parts@) == fields(s@, c),
{
    let mut parts: Vec<&'a str> = Vec::new();
    let mut rest: &'a str = s;
    loop
        invariant
            views(parts@) + fields(rest@, c) == fields(s@, c),
        decreases rest@.len(),
    {
        proof {
            lemma_find(rest@, c);
        }
        match split_once(rest, c) {
            Some((head, tail)) => {
                proof {
                    assert(views(parts@.push(head)) =~= views(parts@).push(head@));
                    assert(views(parts@).push(head@) + fields(tail@, c) =~= views(parts@) + fields(
                        rest@,
                        c,
                    ));
                }
                parts.push(head);
                rest = tail;
            },
            None => {
                proof {
                    assert(views(parts@.push(rest)) =~= views(parts@) + fields(rest@, c));
                }
                parts.push(rest);
                return parts;
            },
        }
    }
}

/// Whether `c` is white space in Unicode's sense.
pub fn char_is_space(c: char) -> (r: bool)
    ensures
        r == is_space(c),
{
    ('\u{9}' <= c && c <= '\u{d}') || c == '\u{20}' || c == '\u{85}' || c == '\u{a0}' || c
        == '\u{1680}' || ('\u{2000}' <= c && c <= '\u{200a}') || c == '\u{2028}' || c == '\u{2029}'
        || c == '\u{202f}' || c == '\u{205f}' || c == '\u{3000}'
}

/// `s` without the white space at either end.
pub fn trim<'a>(s: &'a str) -> (r: &'a str)
    ensures
        r@ == trimmed(s@),
{
    let chars = to_chars(s);
    let len: usize = chars.len();
    let mut start: usize = 0;
    assert(s@.skip(0) =~= s@);
    while start < len && char_is_space(chars[start])
        invariant
            chars@ == s@,
            start <= len == s@.len(),
            leading_space(s@) == start + leading_space(s@.skip(start as int)),
        decreases len - start,
    {
        assert(s@.skip(start as int).drop_first() =~= s@.skip(start + 1));
        start += 1;
    }
    let mut end: usize = len;
    assert(s@.subrange(start as int, len as int) =~= s@.skip(start as int));
    while end > start && char_is_space(chars[end - 1])
        invariant
            chars@ == s@,
            start <= end <= len == s@.len(),
            trimmed_end(s@.skip(start as int)) == trimmed_end(
                s@.subrange(start as int, end as int),
            ),
        decreases end,
    {
        assert(s@.subrange(start as int, end as int).drop_last() =~= s@.subrange(
            start as int,
            end - 1,
        ));
        end -= 1;
    }
    s.substring_char(start, end)
}

/// An ASCII capital as its small letter.
pub fn char_lower(c: char) -> (r: char)
    ensures
        r == lower_char(c),
{
    if 'A' <= c && c <= 'Z' {
        ((c as u32 + 32) as u8) as char
    } else {
        c
    }
}

/// Whether two texts are the same up to the case of their ASCII letters.
pub fn same_ignoring_case(a: &str, b: &str) -> (r: bool)
    ensures
        r == (lower(a@) == lower(b@)),
{
    let x = to_chars(a);
    let y = to_chars(b);
    if x.len() != y.len() {
        assert(lower(a@).len() != lower(b@).len());
        return false;
    }
    let mut i: usize = 0;
    while i < x.len()
        invariant
            x@ == a@,
            y@ == b@,
            i <= x@.len() == y@.len(),
            forall|k: int| 0 <= k < i ==> lower_char(#[trigger] x@[k]) == lower_char(y@[k]),
        decreases x@.len() - i,
    {
        if char_lower(x[i]) != char_lower(y[i]) {
            assert(lower(a@)[i as int] != lower(b@)[i as int]);
            return false;
        }
        i += 1;
    }
    assert(lower(a@) =~= lower(b@));
    true
}

/// Whether `s` begins with `prefix`.
pub fn starts_with(s: &str, prefix: &str) -> (r: bool)
    ensures
        r == prefix@.is_prefix_of(s@),
{
    let len: usize = s.unicode_len();
    let head: usize = prefix.unicode_len();
    if head > len {
        return false;
    }
    let front = s.substring_char(0, head);
    assert(prefix@.is_prefix_of(s@) <==> front@ =~= prefix@);
    same(front, prefix)
}

/// What follows `prefix` in `s`, where `s` begins with it.
pub fn strip_prefix<'a>(s: &'a str, prefix: &str) -> (r: Option<&'a str>)
    ensures
        match r {
            Some(rest) => prefix@.is_prefix_of(s@) && rest@ == s@.skip(prefix@.len() as int),
            None => !prefix@.is_prefix_of(s@),
        },
{
    if starts_with(s, prefix) {
        let rest = s.substring_char(prefix.unicode_len(), s.unicode_len());
        assert(rest@ =~= s@.skip(prefix@.len() as int));
        Some(rest)
    } else {
        None
    }
}

proof fn lemma_find_text(s: Seq<char>, pat: Seq<char>, from: int)
    requires
        0 <= from,
    ensures
        match find_text(s, pat, from) {
            Some(at) => from <= at && at + pat.len() <= s.len() && occurs_at(s, pat, at),
            None => true,
        },
    decreases s.len() - from + 1,
{
    if from <= s.len() && !occurs_at(s, pat, from) {
        lemma_find_text(s, pat, from + 1);
    }
}

/// Cuts `s` at the first `pat`.
pub fn split_once_text<'a>(s: &'a str, pat: &str) -> (r: Option<(&'a str, &'a str)>)
    ensures
        match r {
            Some((head, tail)) => {
                &&& cut_text(s@, pat@) == Some((head@, tail@))
                &&& head@.len() + pat@.len() + tail@.len() == s@.len()
            },
            None => cut_text(s@, pat@) is None,
        },
{
    let len: usize = s.unicode_len();
    let width: usize = pat.unicode_len();
    if width > len {
        proof {
            lemma_find_text(s@, pat@, 0);
        }
        return None;
    }
    let last: usize = len - width;
    let mut i: usize = 0;
    loop
        invariant
            len == s@.len(),
            width == pat@.len(),
            last + width == len,
            i <= last,
            find_text(s@, pat@, 0) == find_text(s@, pat@, i as int),
        decreases last - i,
    {
        if same(s.substring_char(i, i + width), pat) {
            let head = s.substring_char(0, i);
            let tail = s.substring_char(i + width, len);
            assert(head@ =~= s@.take(i as int));
            assert(tail@ =~= s@.skip(i + width));
            return Some((head, tail));
        }
        if i == last {
            proof {
                lemma_find_text(s@, pat@, i + 1);
            }
            return None;
        }
        i += 1;
    }
}

/// `s` with each `pat` in it replaced by `with`.
pub fn replace(s: &str, pat: &str, with: &str) -> (out: String)
    requires
        pat@.len() > 0,
    ensures
        out@ == replaced(s@, pat@, with@),
{
    let mut out = String::new();
    let mut rest = s;
    assert(out@ + replaced(rest@, pat@, with@) =~= replaced(s@, pat@, with@));
    loop
        invariant
            pat@.len() > 0,
            out@ + replaced(rest@, pat@, with@) == replaced(s@, pat@, with@),
        decreases rest@.len(),
    {
        match split_once_text(rest, pat) {
            Some((head, tail)) => {
                let ghost before = out@;
                out.append(head);
                out.append(with);
                assert(before + (head@ + with@ + replaced(tail@, pat@, with@)) =~= out@ + replaced(
                    tail@,
                    pat@,
                    with@,
                ));
                rest = tail;
            },
            None => {
                out.append(rest);
                return out;
            },
        }
    }
}

/// Appends a number in decimal.
pub fn push_decimal(out: &mut String, n: u128)
    ensures
        final(out)@ == old(out)@ + decimal(n as nat),
    decreases n,
{
    let ghost before = out@;
    if n >= 10 {
        push_decimal(out, n / 10);
    }
    out.push((0x30 + (n % 10) as u8) as char);
    assert(out@ =~= before + decimal(n as nat));
}

/// The UTF-8 bytes of a text.
pub fn bytes_of(s: &str) -> (out: Vec<u8>)
    ensures
        out@ == vstd::utf8::encode_utf8(s@),
{
    slice_to_vec(s.as_bytes())
}

/// A copy of a list of strings.
pub fn copy_strings(parts: &Vec<String>) -> (out: Vec<String>)
    ensures
        string_views(out@) == string_views(parts@),
{
    let mut out: Vec<String> = Vec::new();
    let mut i: usize = 0;
    while i < parts.len()
        invariant
            i <= parts@.len(),
            out@.len() == i,
            forall|k: int| 0 <= k < i ==> (#[trigger] out@[k])@ == parts@[k]@,
        decreases parts@.len() - i,
    {
        out.push(parts[i].clone());
        i += 1;
    }
    assert(string_views(out@) =~= string_views(parts@));
    out
}

/// Two texts, one after the other.
pub fn concat(a: &str, b: &str) -> (r: String)
    ensures
        r@ == a@ + b@,
{
    let mut out = String::from_str(a);
    out.append(b);
    out
}

/// What a row of decimal digits is worth.
pub open spec fn decimal_worth(s: Seq<char>) -> int
    decreases s.len(),
{
    if s.len() == 0 {
        0
    } else {
        decimal_worth(s.drop_last()) * 10 + (s.last() as int - '0' as int)
    }
}

/// A number in decimal is worth the number, is made of digits, and begins with zero only
/// where it is zero.
pub proof fn decimals_are_worth_their_number(n: nat)
    ensures
        decimal_worth(decimal(n)) == n,
        decimal(n).len() > 0,
        n > 0 ==> decimal(n)[0] != '0',
        forall|i: int| 0 <= i < decimal(n).len() ==> '0' <= #[trigger] decimal(n)[i] <= '9',
    decreases n,
{
    let row = decimal(n);
    if n < 10 {
        assert(row.drop_last() =~= Seq::<char>::empty());
        assert(decimal_worth(row.drop_last()) == 0);
    } else {
        decimals_are_worth_their_number(n / 10);
        assert(row.drop_last() =~= decimal(n / 10));
    }
}

/// Making letters small changes the ASCII capitals alone, each to its own small letter.
pub proof fn only_capitals_are_made_small(s: Seq<char>, i: int)
    requires
        0 <= i < s.len(),
    ensures
        lower(s).len() == s.len(),
        'A' <= s[i] <= 'Z' ==> lower(s)[i] as int == s[i] as int + 32,
        !('A' <= s[i] <= 'Z') ==> lower(s)[i] == s[i],
        lower(lower(s)) == lower(s),
{
    assert(lower(lower(s)) =~= lower(s));
}

/// Trimming takes the white space off both ends and nothing else: what is left stands in
/// the text between white space only, and has none at either end.
pub proof fn trimming_takes_white_space_off_both_ends(s: Seq<char>) -> (at: (int, int))
    ensures
        0 <= at.0 <= at.1 <= s.len(),
        trimmed(s) == s.subrange(at.0, at.1),
        forall|i: int| 0 <= i < at.0 ==> is_space(#[trigger] s[i]),
        forall|i: int| at.1 <= i < s.len() ==> is_space(#[trigger] s[i]),
        trimmed(s).len() > 0 ==> !is_space(trimmed(s)[0]) && !is_space(trimmed(s).last()),
{
    lemma_leading_space(s);
    let from = leading_space(s);
    let rest = s.skip(from);
    lemma_trimmed_end(rest);
    let n = trimmed_end(rest).len();
    assert(trimmed(s) =~= s.subrange(from, from + n));
    assert forall|i: int| from + n <= i < s.len() implies is_space(#[trigger] s[i]) by {
        assert(rest[i - from] == s[i]);
    }
    if n > 0 {
        assert(trimmed(s)[0] == s[from]);
    }
    (from, from + n)
}

proof fn lemma_leading_space(s: Seq<char>)
    ensures
        0 <= leading_space(s) <= s.len(),
        forall|i: int| 0 <= i < leading_space(s) ==> is_space(#[trigger] s[i]),
        leading_space(s) < s.len() ==> !is_space(s[leading_space(s)]),
    decreases s.len(),
{
    if s.len() > 0 && is_space(s[0]) {
        let rest = s.drop_first();
        lemma_leading_space(rest);
        assert forall|i: int| 0 <= i < leading_space(s) implies is_space(#[trigger] s[i]) by {
            if i > 0 {
                assert(s[i] == rest[i - 1]);
            }
        }
        if leading_space(s) < s.len() {
            assert(s[leading_space(s)] == rest[leading_space(rest)]);
        }
    }
}

proof fn lemma_trimmed_end(s: Seq<char>)
    ensures
        trimmed_end(s).len() <= s.len(),
        trimmed_end(s) == s.take(trimmed_end(s).len() as int),
        forall|i: int| trimmed_end(s).len() <= i < s.len() ==> is_space(#[trigger] s[i]),
        trimmed_end(s).len() > 0 ==> !is_space(trimmed_end(s).last()),
    decreases s.len(),
{
    if s.len() > 0 && is_space(s.last()) {
        let front = s.drop_last();
        lemma_trimmed_end(front);
        assert(trimmed_end(s) =~= s.take(trimmed_end(s).len() as int));
        assert forall|i: int| trimmed_end(s).len() <= i < s.len() implies is_space(
            #[trigger] s[i],
        ) by {
            if i < front.len() {
                assert(s[i] == front[i]);
            }
        }
    } else {
        assert(s =~= s.take(s.len() as int));
    }
}

/// A text in which a pattern does not stand is left alone, and one that begins with the
/// pattern gets what replaces it, before the rest is looked at.
pub proof fn replacing_takes_each_pattern_from_the_left(
    s: Seq<char>,
    pat: Seq<char>,
    with: Seq<char>,
    rest: Seq<char>,
)
    requires
        pat.len() > 0,
    ensures
        find_text(s, pat, 0) is None ==> replaced(s, pat, with) == s,
        replaced(pat + rest, pat, with) == with + replaced(rest, pat, with),
{
    let whole = pat + rest;
    assert(whole.subrange(0, pat.len() as int) =~= pat);
    assert(occurs_at(whole, pat, 0));
    assert(whole.skip(pat.len() as int) =~= rest);
    assert(whole.take(0) + with =~= with);
}

/// A text is found at the first place where it stands, and a cut takes it out there.
pub proof fn texts_are_cut_at_their_first_place(s: Seq<char>, pat: Seq<char>)
    ensures
        match cut_text(s, pat) {
            Some((head, tail)) => {
                &&& s == head + pat + tail
                &&& forall|i: int|
                    0 <= i < head.len() ==> !(#[trigger] s.subrange(i, i + pat.len()) == pat && i
                        + pat.len() <= s.len())
            },
            None => forall|i: int|
                0 <= i && i + pat.len() <= s.len() ==> #[trigger] s.subrange(i, i + pat.len())
                    != pat,
        },
{
    lemma_find_text(s, pat, 0);
    lemma_nowhere_before(s, pat, 0);
    if let Some(at) = find_text(s, pat, 0) {
        assert(s =~= s.take(at) + pat + s.skip(at + pat.len())) by {
            assert(s.subrange(at, at + pat.len()) == pat);
        }
        assert forall|i: int| 0 <= i < at implies !(#[trigger] s.subrange(i, i + pat.len()) == pat
            && i + pat.len() <= s.len()) by {
            assert(!occurs_at(s, pat, i));
        }
    } else {
        assert forall|i: int| 0 <= i && i + pat.len() <= s.len() implies #[trigger] s.subrange(
            i,
            i + pat.len(),
        ) != pat by {
            assert(!occurs_at(s, pat, i));
        }
    }
}

proof fn lemma_nowhere_before(s: Seq<char>, pat: Seq<char>, from: int)
    requires
        0 <= from,
    ensures
        match find_text(s, pat, from) {
            Some(at) => forall|i: int| from <= i < at ==> !#[trigger] occurs_at(s, pat, i),
            None => forall|i: int| from <= i <= s.len() ==> !#[trigger] occurs_at(s, pat, i),
        },
    decreases s.len() - from + 1,
{
    if from <= s.len() && !occurs_at(s, pat, from) {
        lemma_nowhere_before(s, pat, from + 1);
    }
}

/// A text is cut at the first of its separators, and not at all where it has none.
pub proof fn cuts_are_at_the_first_separator(head: Seq<char>, tail: Seq<char>, c: char)
    requires
        !head.contains(c),
    ensures
        cut(head, c) is None,
        cut(head + seq![c] + tail, c) == Some((head, tail)),
        before(head, c) == head,
        before(head + seq![c] + tail, c) == head,
{
    lemma_find(head, c);
    if find(head, c) < head.len() {
        assert(head.contains(head[find(head, c)]));
    }
    assert(head.take(head.len() as int) =~= head);
    let whole = head + seq![c] + tail;
    assert forall|i: int| 0 <= i < head.len() implies whole[i] != c by {
        assert(head.contains(head[i]));
    }
    lemma_first_at(whole, c, head.len() as int);
    assert(whole.take(head.len() as int) =~= head);
    assert(whole.skip(head.len() as int + 1) =~= tail);
}

} // verus!
