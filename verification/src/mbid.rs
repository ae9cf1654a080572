//! MusicBrainz identifiers.

use vstd::prelude::*;
use crate::text::Text;

verus! {

/// The number of characters of a MusicBrainz identifier.
pub const MBID_LEN: usize = 36;

/// A hexadecimal digit, in either case.
pub open spec fn hex_letter_or_digit(c: char) -> bool {
    '0' <= c <= '9' || 'a' <= c <= 'f' || 'A' <= c <= 'F'
}

/// A place where a MusicBrainz identifier has its dash.
pub open spec fn dash_position(i: int) -> bool {
    i == 8 || i == 13 || i == 18 || i == 23
}

/// The shape of a UUID: 32 hexadecimal digits in groups of 8, 4, 4, 4 and 12, with a dash between
/// the groups.
pub open spec fn mbid_shaped(s: Text) -> bool {
    &&& s.len() == MBID_LEN
    &&& forall|i: int|
        0 <= i < s.len() ==> if dash_position(i) {
            #[trigger] s[i] == '-'
        } else {
            hex_letter_or_digit(s[i])
        }
}

/// Accepts only UUID-shaped MusicBrainz IDs. A merely 36-character hex-and-dash string would be
/// looked up on every pass and could never match.
pub fn is_valid_mbid(value: &str) -> (r: bool)
    ensures
        r == mbid_shaped(value@),
{
    broadcast use vstd::string::is_ascii_spec_bytes;

    if !value.is_ascii() {
        assert(mbid_shaped(value@) ==> vstd::utf8::is_ascii_chars(value@));
        return false;
    }
    let bytes = value.as_bytes();
    if bytes.len() != MBID_LEN {
        return false;
    }
    let mut i: usize = 0;
    while i < bytes.len()
        invariant
            i <= bytes@.len(),
            bytes@.len() == MBID_LEN,
            value@.len() == MBID_LEN,
            forall|j: int| 0 <= j < MBID_LEN ==> #[trigger] bytes@[j] == value@[j] as u8,
            vstd::utf8::is_ascii_chars(value@),
            forall|j: int|
                0 <= j < i ==> if dash_position(j) {
                    #[trigger] value@[j] == '-'
                } else {
                    hex_letter_or_digit(value@[j])
                },
        decreases bytes@.len() - i,
    {
        let byte: u8 = bytes[i];
        let dash = i == 8 || i == 13 || i == 18 || i == 23;
        let hex = (48 <= byte && byte <= 57) || (97 <= byte && byte <= 102) || (65 <= byte && byte
            <= 70);
        assert(value@[i as int] as u8 == byte);
        if (dash && byte != 45) || (!dash && !hex) {
            return false;
        }
        i += 1;
    }
    true
}

} // verus!
