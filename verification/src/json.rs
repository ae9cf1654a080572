//! JSON that the library writes.

use vstd::prelude::*;
use vstd::utf8;
use crate::text;
use crate::text::Text;

verus! {

/// The error of `serde_json`.
#[verifier::external_type_specification]
#[verifier::external_body]
pub struct ExJsonError(serde_json::Error);

/// A character that stands for itself in a JSON string: no control character below U+0020, no
/// quotation mark and no backslash.
pub open spec fn plain_char(c: char) -> bool {
    c >= '\u{20}' && c != '\u{22}' && c != '\u{5c}'
}

/// A text that stands for itself in a JSON string.
pub open spec fn plain(s: Text) -> bool {
    forall|i: int| 0 <= i < s.len() ==> plain_char(#[trigger] s[i])
}

/// A JSON object of two fields, the first a string and the second a number, whose names and
/// string need no escapes.
pub open spec fn object_text(first: Text, string: Text, second: Text, number: int) -> Text {
    seq!['{', '\u{22}'] + first + seq!['\u{22}', ':', '\u{22}'] + string + seq![
        '\u{22}',
        ',',
        '\u{22}',
    ] + second + seq!['\u{22}', ':'] + text::decimal(number) + seq!['}']
}

/// What `serde_json::to_vec` writes for an object of two fields, the first a string and the second
/// a number.
pub uninterp spec fn object_json(first: Text, string: Text, second: Text, number: i64) -> Seq<u8>;

/// `serde_json::to_vec` on a `serde_json::Value` that is an object of a string field and a number
/// field, inserted in this order, which is also the order of their names. It does not fail: the
/// keys are strings and the bytes go to memory. The object is written without white space, its
/// fields in order; where no escape is needed the bytes are spelled out.
#[verifier::external_body]
pub(crate) fn object_to_vec(first: &str, string: &str, second: &str, number: i64) -> (r: Result<
    Vec<u8>,
    serde_json::Error,
>)
    requires
        first@.len() > 0,
        second@.len() > 0,
        first@[0] < second@[0],
    ensures
        r is Ok,
        r matches Ok(bytes) ==> bytes@ == object_json(first@, string@, second@, number),
        r matches Ok(bytes) ==> (plain(first@) && plain(string@) && plain(second@) ==> bytes@
            == utf8::encode_utf8(object_text(first@, string@, second@, number as int))),
{
    let mut object = serde_json::Map::new();
    object.insert(first.to_string(), serde_json::Value::from(string));
    object.insert(second.to_string(), serde_json::Value::from(number));
    serde_json::to_vec(&serde_json::Value::Object(object))
}

} // verus!
