//! Percent-encoding of text for URLs.

use vstd::prelude::*;
use vstd::utf8;
use crate::text::Text;

verus! {

/// A byte that RFC 3986 calls unreserved: it stands for itself in any part of a URL.
pub open spec fn unreserved(byte: u8) -> bool {
    ||| 65 <= byte <= 90
    ||| 97 <= byte <= 122
    ||| 48 <= byte <= 57
    ||| byte == 45
    ||| byte == 95
    ||| byte == 46
    ||| byte == 126
}

/// The hexadecimal digit, in upper case, of value `d`.
pub open spec fn hex_digit(d: int) -> char
    recommends
        0 <= d < 16,
{
    if d < 10 {
        (48 + d) as char
    } else {
        (55 + d) as char
    }
}

/// One byte, percent-encoded.
pub open spec fn encoded_byte(byte: u8) -> Text {
    if unreserved(byte) {
        seq![byte as char]
    } else {
        seq!['%', hex_digit(byte as int / 16), hex_digit(byte as int % 16)]
    }
}

/// Bytes, percent-encoded one by one.
pub open spec fn encoded_bytes(bytes: Seq<u8>) -> Text
    decreases bytes.len(),
{
    if bytes.len() == 0 {
        Seq::empty()
    } else {
        encoded_byte(bytes.first()) + encoded_bytes(bytes.drop_first())
    }
}

/// A text, percent-encoded: its UTF-8 bytes, one by one.
pub open spec fn percent_encoded(s: Text) -> Text {
    encoded_bytes(utf8::encode_utf8(s))
}

fn hex_char(d: u8) -> (c: char)
    requires
        d < 16,
    ensures
        c == hex_digit(d as int),
{
    if d < 10 {
        (48 + d) as char
    } else {
        (55 + d) as char
    }
}

/// Percent-encodes a string for safe use in a URL path or query.
pub fn percent_encode(input: &str) -> (r: String)
    ensures
        r@ == percent_encoded(input@),
{
    let bytes = input.as_bytes();
    let mut out = String::new();
    let mut i: usize = 0;
    assert(bytes@.skip(0) =~= bytes@);
    assert(out@ + encoded_bytes(bytes@.skip(0)) =~= encoded_bytes(bytes@));
    while i < bytes.len()
        invariant
            i <= bytes@.len(),
            out@ + encoded_bytes(bytes@.skip(i as int)) == encoded_bytes(bytes@),
        decreases bytes@.len() - i,
    {
        let byte: u8 = bytes[i];
        let ghost before = out@;
        let plain = (65 <= byte && byte <= 90) || (97 <= byte && byte <= 122)
            || (48 <= byte && byte <= 57) || byte == 45 || byte == 95 || byte == 46 || byte == 126;
        if plain {
            out.push(byte as char);
        } else {
            out.push('%');
            out.push(hex_char(byte / 16));
            out.push(hex_char(byte % 16));
        }
        assert(out@ =~= before + encoded_byte(byte));
        assert(bytes@.skip(i as int).drop_first() =~= bytes@.skip(i + 1));
        assert(out@ + encoded_bytes(bytes@.skip(i + 1)) =~= before + encoded_bytes(
            bytes@.skip(i as int),
        ));
        i += 1;
    }
    assert(out@ =~= out@ + encoded_bytes(bytes@.skip(i as int)));
    out
}

/// The value of an upper-case hexadecimal digit.
pub open spec fn hex_value(c: char) -> int {
    if c <= '9' {
        c as int - 48
    } else {
        c as int - 55
    }
}

/// The bytes that a percent-encoded text stands for.
pub open spec fn decoded(s: Text) -> Seq<u8>
    decreases s.len(),
{
    if s.len() == 0 {
        Seq::empty()
    } else if s.first() == '%' && s.len() >= 3 {
        seq![(16 * hex_value(s[1]) + hex_value(s[2])) as u8] + decoded(s.skip(3))
    } else {
        seq![s.first() as u8] + decoded(s.drop_first())
    }
}

/// Decoding a percent-encoded text gives back the bytes of the text.
pub proof fn decoding_undoes_encoding(s: Text)
    ensures
        decoded(percent_encoded(s)) == utf8::encode_utf8(s),
        utf8::decode_utf8(decoded(percent_encoded(s))) == s,
{
    decoding_undoes_encoding_of_bytes(utf8::encode_utf8(s));
    utf8::encode_utf8_decode_utf8(s);
}

proof fn decoding_undoes_encoding_of_bytes(bytes: Seq<u8>)
    ensures
        decoded(encoded_bytes(bytes)) == bytes,
    decreases bytes.len(),
{
    if bytes.len() > 0 {
        let first = bytes.first();
        let rest = encoded_bytes(bytes.drop_first());
        let all = encoded_bytes(bytes);
        decoding_undoes_encoding_of_bytes(bytes.drop_first());
        if unreserved(first) {
            assert(all.first() == first as char);
            assert(all.drop_first() =~= rest);
        } else {
            assert(all.skip(3) =~= rest);
            assert(all[1] == hex_digit(first as int / 16));
            assert(all[2] == hex_digit(first as int % 16));
            assert(16 * hex_value(all[1]) + hex_value(all[2]) == first);
        }
        assert(decoded(all) =~= bytes);
    }
}

/// Two texts with the same percent-encoding are the same text.
pub proof fn encoding_is_injective(a: Text, b: Text)
    requires
        percent_encoded(a) == percent_encoded(b),
    ensures
        a == b,
{
    decoding_undoes_encoding(a);
    decoding_undoes_encoding(b);
}

/// A character that may stand in a percent-encoded text.
pub open spec fn url_safe(c: char) -> bool {
    c == '%' || ((c as u32) < 128 && unreserved(c as u8))
}

/// Percent-encoded text holds unreserved characters and `%` alone. In particular none of the
/// characters that delimit the parts of a URL occurs in it.
pub proof fn encoded_text_is_url_safe(s: Text)
    ensures
        forall|i: int|
            0 <= i < percent_encoded(s).len() ==> url_safe(#[trigger] percent_encoded(s)[i]),
        !percent_encoded(s).contains('&'),
        !percent_encoded(s).contains('='),
        !percent_encoded(s).contains('?'),
        !percent_encoded(s).contains('/'),
        !percent_encoded(s).contains('#'),
{
    encoded_bytes_are_url_safe(utf8::encode_utf8(s));
}

proof fn encoded_bytes_are_url_safe(bytes: Seq<u8>)
    ensures
        forall|i: int|
            0 <= i < encoded_bytes(bytes).len() ==> url_safe(#[trigger] encoded_bytes(bytes)[i]),
    decreases bytes.len(),
{
    if bytes.len() > 0 {
        let head = encoded_byte(bytes.first());
        let rest = encoded_bytes(bytes.drop_first());
        encoded_bytes_are_url_safe(bytes.drop_first());
        assert forall|i: int| 0 <= i < encoded_bytes(bytes).len() implies url_safe(
            #[trigger] encoded_bytes(bytes)[i],
        ) by {
            if i >= head.len() {
                assert(encoded_bytes(bytes)[i] == rest[i - head.len()]);
            }
        }
    }
}

} // verus!
