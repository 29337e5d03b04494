//! The authority of an endpoint URL, which the proxy dials.
use vstd::prelude::*;
use vstd::string::StrSliceExecFns;
use crate::text;
use crate::text::cut;
use crate::text::cut_text;

verus! {

/// Whether a character ends the authority of a URL.
pub open spec fn ends_authority(c: char) -> bool {
    c == '/' || c == '?' || c == '#'
}

/// How long the authority at the front of `s` is.
pub open spec fn authority_len(s: Seq<char>) -> int
    decreases s.len(),
{
    if s.len() == 0 || ends_authority(s[0]) {
        0
    } else {
        1 + authority_len(s.drop_first())
    }
}

/// Whether an authority names a port. The colons inside a bracketed IPv6 literal
/// belong to the host.
pub open spec fn has_port(authority: Seq<char>) -> bool {
    if authority.len() > 0 && authority[0] == '[' {
        match cut(authority.skip(1), ']') {
            Some((_, tail)) => tail.len() > 0 && tail[0] == ':',
            None => false,
        }
    } else {
        authority.contains(':')
    }
}

/// The scheme of an endpoint, if it has one, and what follows it.
pub open spec fn scheme_split(endpoint: Seq<char>) -> (Option<Seq<char>>, Seq<char>) {
    match cut_text(endpoint, "://"@) {
        Some((scheme, rest)) => (Some(scheme), rest),
        None => (None, endpoint),
    }
}

/// The authority as an endpoint names it.
pub open spec fn named_authority(endpoint: Seq<char>) -> Seq<char> {
    let rest = scheme_split(endpoint).1;
    rest.take(authority_len(rest))
}

/// The authority of an endpoint, with the default port of its scheme filled in where
/// it names none.
pub open spec fn authority_spec(endpoint: Seq<char>) -> Option<Seq<char>> {
    let scheme = scheme_split(endpoint).0;
    let authority = named_authority(endpoint);
    if authority.len() == 0 {
        None
    } else if has_port(authority) {
        Some(authority)
    } else if scheme == Some("https"@) {
        Some(authority + ":443"@)
    } else if scheme == Some("http"@) {
        Some(authority + ":80"@)
    } else {
        Some(authority)
    }
}

proof fn lemma_authority_len(s: Seq<char>)
    ensures
        0 <= authority_len(s) <= s.len(),
        forall|i: int| 0 <= i < authority_len(s) ==> !ends_authority(#[trigger] s[i]),
        authority_len(s) < s.len() ==> ends_authority(s[authority_len(s)]),
    decreases s.len(),
{
    if s.len() > 0 && !ends_authority(s[0]) {
        let rest = s.drop_first();
        lemma_authority_len(rest);
        assert forall|i: int| 0 <= i < authority_len(s) implies !ends_authority(#[trigger] s[i]) by {
            if i > 0 {
                assert(s[i] == rest[i - 1]);
            }
        }
        if authority_len(s) < s.len() {
            assert(s[authority_len(s)] == rest[authority_len(rest)]);
        }
    }
}

/// Whether the brackets of a literal close it: behind them stands a port, or nothing.
pub open spec fn is_closed(authority: Seq<char>) -> bool {
    match cut(authority.skip(1), ']') {
        Some((_, tail)) => tail.len() == 0 || tail[0] == ':',
        None => false,
    }
}

/// An authority is one that can be dialed: it holds nothing of the path, the query or
/// the fragment, and that of an `http` or `https` endpoint names a port, as long as a
/// bracketed literal in it is closed.
pub proof fn authorities_are_dialable(endpoint: Seq<char>)
    ensures
        match authority_spec(endpoint) {
            Some(a) => {
                &&& a.len() > 0
                &&& forall|i: int| 0 <= i < a.len() ==> !ends_authority(#[trigger] a[i])
                &&& (scheme_split(endpoint).0 == Some("https"@) || scheme_split(endpoint).0
                    == Some("http"@)) && (a[0] == '[' ==> is_closed(named_authority(endpoint)))
                    ==> has_port(a)
            },
            None => true,
        },
{
    reveal_strlit(":443");
    reveal_strlit(":80");
    let (scheme, rest) = scheme_split(endpoint);
    lemma_authority_len(rest);
    let authority = named_authority(endpoint);
    if authority.len() > 0 && !has_port(authority) {
        let a = authority_spec(endpoint)->0;
        if a.len() > authority.len() {
            assert(a[authority.len() as int] == ':');
            if a[0] == '[' && is_closed(authority) {
                let inner = authority.skip(1);
                text::lemma_find(inner, ']');
                let at = text::find(inner, ']');
                assert forall|i: int| 0 <= i < at implies a.skip(1)[i] != ']' by {
                    assert(inner[i] != ']');
                }
                text::lemma_first_at(a.skip(1), ']', at);
                assert(a.skip(1).skip(at + 1)[0] == ':');
            }
        }
    }
}

fn authority_end(s: &str) -> (n: usize)
    ensures
        n == authority_len(s@),
        n <= s@.len(),
{
    let chars = text::to_chars(s);
    let mut i: usize = 0;
    assert(s@.skip(0) =~= s@);
    while i < chars.len()
        invariant
            chars@ == s@,
            i <= chars@.len(),
            authority_len(s@) == i + authority_len(s@.skip(i as int)),
        decreases chars@.len() - i,
    {
        let c: char = chars[i];
        assert(s@.skip(i as int)[0] == c);
        if c == '/' || c == '?' || c == '#' {
            return i;
        }
        assert(s@.skip(i as int).drop_first() =~= s@.skip(i + 1));
        i += 1;
    }
    i
}

fn names_port(authority: &str) -> (r: bool)
    requires
        authority@.len() > 0,
    ensures
        r == has_port(authority@),
{
    if authority.get_char(0) == '[' {
        let inner = authority.substring_char(1, authority.unicode_len());
        assert(inner@ =~= authority@.skip(1));
        match text::split_once(inner, ']') {
            Some((_, tail)) => tail.unicode_len() > 0 && tail.get_char(0) == ':',
            None => false,
        }
    } else {
        proof {
            text::lemma_find(authority@, ':');
        }
        text::find_char(authority, ':') < authority.unicode_len()
    }
}

/// The `host:port` authority of an endpoint URL. The path is dropped. Where the URL
/// names no port, the default of its scheme is filled in, so that a bare `https` URL
/// dials 443. A bare `host:port` with no scheme is returned unchanged.
#[must_use]
pub fn authority_of(endpoint: &str) -> (r: Option<String>)
    ensures
        text::optional(r) == authority_spec(endpoint@),
{
    let (scheme, rest) = match text::split_once_text(endpoint, "://") {
        Some((scheme, rest)) => (Some(scheme), rest),
        None => (None, endpoint),
    };
    let end: usize = authority_end(rest);
    let authority = rest.substring_char(0, end);
    assert(authority@ =~= rest@.take(authority_len(rest@)));
    if end == 0 {
        return None;
    }
    if names_port(authority) {
        return Some(authority.to_owned());
    }
    match scheme {
        Some(scheme) => if text::same(scheme, "https") {
            Some(text::concat(authority, ":443"))
        } else if text::same(scheme, "http") {
            Some(text::concat(authority, ":80"))
        } else {
            Some(authority.to_owned())
        },
        None => Some(authority.to_owned()),
    }
}

/// Where a text first stands, when it stands nowhere before.
proof fn lemma_found_at(s: Seq<char>, pat: Seq<char>, from: int, at: int)
    requires
        0 <= from <= at <= s.len(),
        text::occurs_at(s, pat, at),
        forall|i: int| from <= i < at ==> !text::occurs_at(s, pat, i),
    ensures
        text::find_text(s, pat, from) == Some(at),
    decreases at - from,
{
    if from < at {
        lemma_found_at(s, pat, from + 1, at);
    }
}

/// The authority ends where the path, the query or the fragment begins.
proof fn lemma_authority_ends(authority: Seq<char>, tail: Seq<char>)
    requires
        forall|i: int|
            0 <= i < authority.len() ==> #[trigger] authority[i] != '/' && authority[i] != '?'
                && authority[i] != '#',
        tail.len() == 0 || tail[0] == '/' || tail[0] == '?' || tail[0] == '#',
    ensures
        authority_len(authority + tail) == authority.len(),
    decreases authority.len(),
{
    let s = authority + tail;
    if authority.len() > 0 {
        let rest = authority.drop_first();
        assert(s[0] == authority[0]);
        assert(s.drop_first() =~= rest + tail);
        assert forall|i: int| 0 <= i < rest.len() implies #[trigger] rest[i] != '/' && rest[i]
            != '?' && rest[i] != '#' by {
            assert(rest[i] == authority[i + 1]);
        }
        lemma_authority_ends(rest, tail);
    } else {
        assert(s =~= tail);
    }
}

/// The authority of a URL is what stands between its scheme and its path, query or
/// fragment, with the default port of `https` or `http` where it names none; a port that
/// is named is kept, and without a scheme nothing is filled in. An endpoint without an
/// authority has none.
pub proof fn authorities_are_what_the_url_names(authority: Seq<char>, tail: Seq<char>)
    requires
        forall|i: int|
            0 <= i < authority.len() ==> #[trigger] authority[i] != '/' && authority[i] != '?'
                && authority[i] != '#',
        tail.len() == 0 || tail[0] == '/' || tail[0] == '?' || tail[0] == '#',
    ensures
        authority.len() == 0 ==> authority_spec("https://"@ + authority + tail) is None,
        authority.len() == 0 ==> authority_spec("http://"@ + authority + tail) is None,
        authority.len() > 0 && !has_port(authority) ==> authority_spec(
            "https://"@ + authority + tail,
        ) == Some(authority + ":443"@),
        authority.len() > 0 && !has_port(authority) ==> authority_spec(
            "http://"@ + authority + tail,
        ) == Some(authority + ":80"@),
        authority.len() > 0 && has_port(authority) ==> authority_spec(
            "https://"@ + authority + tail,
        ) == Some(authority),
        authority.len() > 0 && has_port(authority) ==> authority_spec(
            "http://"@ + authority + tail,
        ) == Some(authority),
        authority.len() > 0 && text::find_text(authority + tail, "://"@, 0) is None
            ==> authority_spec(authority + tail) == Some(authority),
{
    reveal_strlit("://");
    reveal_strlit("https");
    reveal_strlit("http");
    reveal_strlit("https://");
    reveal_strlit("http://");
    lemma_authority_ends(authority, tail);
    let rest = authority + tail;
    assert(rest.take(authority.len() as int) =~= authority);
    let secure = "https://"@ + authority + tail;
    assert(secure.subrange(5, 8) =~= "://"@);
    assert forall|i: int| 0 <= i < 5 implies !text::occurs_at(secure, "://"@, i) by {
        if text::occurs_at(secure, "://"@, i) {
            assert(secure.subrange(i, i + 3)[0] == ':');
            assert(secure[i] == "https://"@[i]);
        }
    }
    lemma_found_at(secure, "://"@, 0, 5);
    assert(secure.take(5) =~= "https"@);
    assert(secure.skip(8) =~= rest);
    let plain = "http://"@ + authority + tail;
    assert(plain.subrange(4, 7) =~= "://"@);
    assert forall|i: int| 0 <= i < 4 implies !text::occurs_at(plain, "://"@, i) by {
        if text::occurs_at(plain, "://"@, i) {
            assert(plain.subrange(i, i + 3)[0] == ':');
            assert(plain[i] == "http://"@[i]);
        }
    }
    lemma_found_at(plain, "://"@, 0, 4);
    assert(plain.take(4) =~= "http"@);
    assert(plain.skip(7) =~= rest);
    assert("https"@.len() == 5 && "http"@.len() == 4);
}

/// A port is what a colon behind the host names: behind the brackets of a literal, and
/// anywhere in another host.
pub proof fn ports_stand_behind_a_colon(host: Seq<char>, port: Seq<char>)
    requires
        host.len() > 0,
        !host.contains(']'),
        host[0] != '[',
    ensures
        !host.contains(':') ==> !has_port(host),
        has_port(host + seq![':'] + port),
        !has_port(seq!['['] + host + seq![']']),
        has_port(seq!['['] + host + seq![']', ':'] + port),
{
    let named = host + seq![':'] + port;
    assert(named[host.len() as int] == ':');
    let literal = seq!['['] + host + seq![']'];
    assert forall|i: int| 0 <= i < host.len() implies literal.skip(1)[i] != ']' by {
        assert(host.contains(host[i]));
    }
    text::lemma_first_at(literal.skip(1), ']', host.len() as int);
    let whole = seq!['['] + host + seq![']', ':'] + port;
    assert forall|i: int| 0 <= i < host.len() implies whole.skip(1)[i] != ']' by {
        assert(host.contains(host[i]));
    }
    text::lemma_first_at(whole.skip(1), ']', host.len() as int);
    assert(whole.skip(1).skip(host.len() as int + 1)[0] == ':');
}

} // verus!
