//! Percent-encoding for the document-id path segment and the `routing` value.
//!
//! A physical document id may hold reserved characters, above all `/`, when the
//! partition is a URI. Left raw in the forwarded path, the slashes would split it
//! into further segments. Encoded, the id stays one segment, and the server decodes
//! it back to the exact id.
use vstd::prelude::*;

verus! {

/// The hexadecimal digits, as the encoding writes them.
pub open spec fn hex_digit(n: int) -> char {
    if n == 0 { '0' } else if n == 1 { '1' } else if n == 2 { '2' } else if n == 3 { '3' }
    else if n == 4 { '4' } else if n == 5 { '5' } else if n == 6 { '6' } else if n == 7 { '7' }
    else if n == 8 { '8' } else if n == 9 { '9' } else if n == 10 { 'A' } else if n == 11 { 'B' }
    else if n == 12 { 'C' } else if n == 13 { 'D' } else if n == 14 { 'E' } else { 'F' }
}

/// The value of a digit that [`hex_digit`] writes.
pub open spec fn hex_value(c: char) -> int {
    if '0' <= c <= '9' {
        c as u32 - '0' as u32
    } else {
        c as u32 - 'A' as u32 + 10
    }
}

/// The RFC 3986 unreserved bytes: letters, digits, `-`, `.`, `_` and `~`.
pub open spec fn is_unreserved(b: u8) -> bool {
    ||| 0x30 <= b <= 0x39
    ||| 0x41 <= b <= 0x5a
    ||| 0x61 <= b <= 0x7a
    ||| b == 0x2d
    ||| b == 0x2e
    ||| b == 0x5f
    ||| b == 0x7e
}

/// One byte as the encoding writes it.
pub open spec fn encoded_byte(b: u8) -> Seq<char> {
    if is_unreserved(b) {
        seq![b as char]
    } else {
        seq!['%', hex_digit(b as int / 16), hex_digit(b as int % 16)]
    }
}

/// A string of bytes as the encoding writes it.
pub open spec fn encoded_bytes(bytes: Seq<u8>) -> Seq<char>
    decreases bytes.len(),
{
    if bytes.len() == 0 {
        seq![]
    } else {
        encoded_bytes(bytes.drop_last()) + encoded_byte(bytes.last())
    }
}

/// A text as the encoding writes it: its UTF-8 bytes, each encoded.
pub open spec fn encoded(s: Seq<char>) -> Seq<char> {
    encoded_bytes(vstd::utf8::encode_utf8(s))
}

/// What a server reads from an encoded text: an escape is the byte it names, and
/// every other character is its own byte.
pub open spec fn decoded_bytes(s: Seq<char>) -> Seq<u8>
    decreases s.len(),
{
    if s.len() == 0 {
        seq![]
    } else if s[0] == '%' && s.len() >= 3 {
        seq![(hex_value(s[1]) * 16 + hex_value(s[2])) as u8] + decoded_bytes(s.skip(3))
    } else {
        seq![s[0] as u8] + decoded_bytes(s.drop_first())
    }
}

fn digit(n: u8) -> (c: char)
    requires
        n < 16,
    ensures
        c == hex_digit(n as int),
{
    if n < 10 {
        (48 + n) as char
    } else {
        (55 + n) as char
    }
}

/// Percent-encodes `s` as one URL path segment or query value: every byte outside
/// the unreserved set is escaped. Encoding more than strictly necessary is safe,
/// because the server decodes it either way.
pub fn encode(s: &str) -> (out: String)
    ensures
        out@ == encoded(s@),
{
    let bytes = s.as_bytes();
    let mut out = String::new();
    let mut i: usize = 0;
    assert(bytes@.take(0) =~= Seq::<u8>::empty());
    while i < bytes.len()
        invariant
            i <= bytes@.len(),
            out@ == encoded_bytes(bytes@.take(i as int)),
        decreases bytes@.len() - i,
    {
        let b: u8 = bytes[i];
        let ghost seen = out@;
        proof {
            assert(bytes@.take(i + 1).drop_last() =~= bytes@.take(i as int));
            assert(bytes@.take(i + 1).last() == b);
        }
        if (0x30 <= b && b <= 0x39) || (0x41 <= b && b <= 0x5a) || (0x61 <= b && b <= 0x7a) || b
            == 0x2d || b == 0x2e || b == 0x5f || b == 0x7e {
            out.push(b as char);
            assert(out@ =~= seen + encoded_byte(b));
        } else {
            out.push('%');
            out.push(digit(b / 16));
            out.push(digit(b % 16));
            assert(out@ =~= seen + encoded_byte(b));
        }
        i += 1;
    }
    assert(bytes@.take(i as int) =~= bytes@);
    out
}

/// Whether a character may stand in an encoded text.
pub open spec fn is_url_safe(c: char) -> bool {
    ||| '0' <= c <= '9'
    ||| 'A' <= c <= 'Z'
    ||| 'a' <= c <= 'z'
    ||| c == '-'
    ||| c == '.'
    ||| c == '_'
    ||| c == '~'
    ||| c == '%'
}

/// An encoded text is one path segment and one query value: it holds nothing but
/// unreserved characters and escapes, so no `/`, `?`, `#`, `&`, `:` or space.
pub proof fn encoded_is_one_segment(s: Seq<char>)
    ensures
        forall|i: int| 0 <= i < encoded(s).len() ==> is_url_safe(#[trigger] encoded(s)[i]),
        !encoded(s).contains('/'),
        !encoded(s).contains('?'),
        !encoded(s).contains('#'),
        !encoded(s).contains('&'),
{
    lemma_encoded_safe(vstd::utf8::encode_utf8(s));
}

proof fn lemma_encoded_safe(bytes: Seq<u8>)
    ensures
        forall|i: int|
            0 <= i < encoded_bytes(bytes).len() ==> is_url_safe(#[trigger] encoded_bytes(bytes)[i]),
    decreases bytes.len(),
{
    if bytes.len() > 0 {
        lemma_encoded_safe(bytes.drop_last());
        let b = bytes.last();
        let one = encoded_byte(b);
        let front = encoded_bytes(bytes.drop_last());
        assert forall|i: int| 0 <= i < encoded_bytes(bytes).len() implies is_url_safe(
            #[trigger] encoded_bytes(bytes)[i],
        ) by {
            if i < front.len() {
                assert(encoded_bytes(bytes)[i] == front[i]);
            } else {
                assert(encoded_bytes(bytes)[i] == one[i - front.len()]);
            }
        }
    }
}

proof fn lemma_decode_step(b: u8, rest: Seq<char>)
    ensures
        decoded_bytes(encoded_byte(b) + rest) == seq![b] + decoded_bytes(rest),
{
    let one = encoded_byte(b);
    let all = one + rest;
    if is_unreserved(b) {
        assert(all[0] == b as char);
        assert(all.drop_first() =~= rest);
    } else {
        assert(all.skip(3) =~= rest);
        assert(hex_value(all[1]) == b as int / 16);
        assert(hex_value(all[2]) == b as int % 16);
        assert((b as int / 16) * 16 + b as int % 16 == b as int);
    }
}

proof fn lemma_encoded_front(bytes: Seq<u8>)
    requires
        bytes.len() > 0,
    ensures
        encoded_bytes(bytes) == encoded_byte(bytes[0]) + encoded_bytes(bytes.drop_first()),
    decreases bytes.len(),
{
    let front = bytes.drop_last();
    if front.len() == 0 {
        assert(encoded_bytes(front) =~= Seq::<char>::empty());
        assert(encoded_bytes(bytes.drop_first()) =~= Seq::<char>::empty());
        assert(encoded_bytes(bytes) =~= encoded_byte(bytes[0]) + encoded_bytes(bytes.drop_first()));
    } else {
        lemma_encoded_front(front);
        let tail = bytes.drop_first();
        assert(front.drop_first() =~= tail.drop_last());
        assert(encoded_bytes(bytes) =~= encoded_byte(bytes[0]) + encoded_bytes(tail));
    }
}

proof fn lemma_decode_encoded(bytes: Seq<u8>)
    ensures
        decoded_bytes(encoded_bytes(bytes)) == bytes,
    decreases bytes.len(),
{
    if bytes.len() > 0 {
        lemma_encoded_front(bytes);
        lemma_decode_encoded(bytes.drop_first());
        lemma_decode_step(bytes[0], encoded_bytes(bytes.drop_first()));
        assert(seq![bytes[0]] + bytes.drop_first() =~= bytes);
    }
}

/// The encoding is invisible past the URL: decoding an encoded text gives back its
/// exact bytes.
pub proof fn decoding_gives_back_the_text(s: Seq<char>)
    ensures
        decoded_bytes(encoded(s)) == vstd::utf8::encode_utf8(s),
{
    lemma_decode_encoded(vstd::utf8::encode_utf8(s));
}

/// Different texts have different encodings, so two documents never share a path.
pub proof fn encoding_is_injective(a: Seq<char>, b: Seq<char>)
    requires
        encoded(a) == encoded(b),
    ensures
        a == b,
{
    decoding_gives_back_the_text(a);
    decoding_gives_back_the_text(b);
    vstd::utf8::encode_utf8_decode_utf8(a);
    vstd::utf8::encode_utf8_decode_utf8(b);
}

/// What needs no escape is left as it is.
pub proof fn unreserved_bytes_are_left_alone(bytes: Seq<u8>)
    requires
        forall|i: int|
            0 <= i < bytes.len() ==> {
                ||| 0x30 <= #[trigger] bytes[i] <= 0x39
                ||| 0x41 <= bytes[i] <= 0x5a
                ||| 0x61 <= bytes[i] <= 0x7a
                ||| bytes[i] == 0x2d
                ||| bytes[i] == 0x2e
                ||| bytes[i] == 0x5f
                ||| bytes[i] == 0x7e
            },
    ensures
        encoded_bytes(bytes).len() == bytes.len(),
        forall|i: int|
            0 <= i < bytes.len() ==> #[trigger] encoded_bytes(bytes)[i] == bytes[i] as char,
    decreases bytes.len(),
{
    if bytes.len() > 0 {
        let front = bytes.drop_last();
        assert forall|i: int| 0 <= i < front.len() implies {
            ||| 0x30 <= #[trigger] front[i] <= 0x39
            ||| 0x41 <= front[i] <= 0x5a
            ||| 0x61 <= front[i] <= 0x7a
            ||| front[i] == 0x2d
            ||| front[i] == 0x2e
            ||| front[i] == 0x5f
            ||| front[i] == 0x7e
        } by {
            assert(front[i] == bytes[i]);
        }
        unreserved_bytes_are_left_alone(front);
        let last = bytes[bytes.len() - 1];
        assert(is_unreserved(last));
        assert forall|i: int| 0 <= i < bytes.len() implies #[trigger] encoded_bytes(bytes)[i]
            == bytes[i] as char by {
            if i < front.len() {
                assert(encoded_bytes(front)[i] == front[i] as char);
            }
        }
    }
}

/// Every other byte is escaped: a percent sign and two digits take its place.
pub proof fn other_bytes_are_escaped(bytes: Seq<u8>, b: u8)
    requires
        !(0x30 <= b <= 0x39 || 0x41 <= b <= 0x5a || 0x61 <= b <= 0x7a || b == 0x2d || b == 0x2e
            || b == 0x5f || b == 0x7e),
    ensures
        encoded_bytes(bytes.push(b)).len() == encoded_bytes(bytes).len() + 3,
        encoded_bytes(bytes.push(b))[encoded_bytes(bytes).len() as int] == '%',
{
    assert(bytes.push(b).drop_last() =~= bytes);
}

} // verus!
