//! The calls and requests of a pass, read back as whoever receives them reads them.

use vstd::prelude::*;
use vstd::utf8;
use crate::critiquebrainz;
use crate::critiquebrainz::CbEntity;
use crate::encoding;
use crate::http::{HttpRequestView, Method};
use crate::json;
use crate::listenbrainz;
use crate::mbid;
use crate::settings::SettingsView;
use crate::subsonic;
use crate::text;
use crate::text::Text;

verus! {

/// The pieces of a text between the occurrences of a character.
pub open spec fn cut(s: Text, c: char) -> Seq<Text>
    decreases s.len(),
{
    if s.len() == 0 {
        seq![Seq::empty()]
    } else {
        let before = cut(s.drop_last(), c);
        if s.last() == c {
            before.push(Seq::empty())
        } else {
            before.drop_last().push(before.last().push(s.last()))
        }
    }
}

proof fn there_is_a_piece(s: Text, c: char)
    ensures
        cut(s, c).len() > 0,
    decreases s.len(),
{
    if s.len() > 0 {
        there_is_a_piece(s.drop_last(), c);
    }
}

/// A text without the character is one piece.
pub proof fn one_piece(s: Text, c: char)
    requires
        !s.contains(c),
    ensures
        cut(s, c) == seq![s],
    decreases s.len(),
{
    if s.len() > 0 {
        let rest = s.drop_last();
        assert forall|i: int| 0 <= i < rest.len() implies rest[i] != c by {
            assert(s[i] == rest[i]);
        }
        one_piece(rest, c);
        assert(s[s.len() - 1] == s.last());
        assert(rest.push(s.last()) =~= s);
        assert(s.last() != c);
        assert(seq![rest].drop_last() =~= Seq::<Text>::empty());
        assert(cut(s, c) =~= seq![s]);
    } else {
        assert(s =~= Seq::<char>::empty());
    }
}

/// The pieces before and behind an occurrence of the character are the pieces of the whole.
pub proof fn pieces_add_up(a: Text, b: Text, c: char)
    ensures
        cut(a.push(c) + b, c) == cut(a, c) + cut(b, c),
    decreases b.len(),
{
    let all = a.push(c) + b;
    if b.len() == 0 {
        assert(all =~= a.push(c));
        assert(a.push(c).drop_last() =~= a);
        assert(cut(all, c) =~= cut(a, c) + cut(b, c));
    } else {
        pieces_add_up(a, b.drop_last(), c);
        there_is_a_piece(b.drop_last(), c);
        assert(all.drop_last() =~= a.push(c) + b.drop_last());
        assert(all.last() == b.last());
        assert(cut(all, c) =~= cut(a, c) + cut(b, c));
    }
}

/// The text that a part of an address stands for.
pub open spec fn meant(s: Text) -> Text {
    utf8::decode_utf8(encoding::decoded(s))
}

/// What an address is for: what stands before its query.
pub open spec fn subject(address: Text) -> Text {
    cut(address, '?')[0]
}

/// The name and the value of a parameter.
pub open spec fn parameter(piece: Text) -> (Text, Text) {
    (cut(piece, '=')[0], meant(cut(piece, '=')[1]))
}

/// The parameters of an address, in order.
pub open spec fn parameters(address: Text) -> Seq<(Text, Text)> {
    cut(cut(address, '?')[1], '&').map_values(|piece: Text| parameter(piece))
}

/// An address that is for `subject`, with these parameters and no others.
pub open spec fn reads_as(address: Text, about: Text, named: Seq<(Text, Text)>) -> bool {
    &&& cut(address, '?').len() == 2
    &&& subject(address) == about
    &&& parameters(address) == named
    &&& forall|i: int|
        0 <= i < cut(cut(address, '?')[1], '&').len() ==> cut(
            #[trigger] cut(cut(address, '?')[1], '&')[i],
            '=',
        ).len() == 2
}

/// A character that stands for itself in any part of an address: a letter, a digit, or one of
/// `-`, `_`, `.` and `~`.
pub open spec fn stands_for_itself(c: char) -> bool {
    ||| 'A' <= c <= 'Z'
    ||| 'a' <= c <= 'z'
    ||| '0' <= c <= '9'
    ||| c == '-'
    ||| c == '_'
    ||| c == '.'
    ||| c == '~'
}

/// A text whose characters all stand for themselves.
pub open spec fn is_plain(s: Text) -> bool {
    forall|i: int| 0 <= i < s.len() ==> stands_for_itself(#[trigger] s[i])
}

proof fn plain_bytes_are_kept(bytes: Seq<u8>, s: Text)
    requires
        bytes.len() == s.len(),
        is_plain(s),
        forall|i: int| 0 <= i < s.len() ==> #[trigger] bytes[i] == s[i] as u8,
    ensures
        encoding::encoded_bytes(bytes) == s,
    decreases s.len(),
{
    if s.len() > 0 {
        let rest = s.drop_first();
        assert forall|i: int| 0 <= i < rest.len() implies #[trigger] bytes.drop_first()[i]
            == rest[i] as u8 by {
            assert(bytes[i + 1] == s[i + 1] as u8);
        }
        assert forall|i: int| 0 <= i < rest.len() implies stands_for_itself(#[trigger] rest[i]) by {
            assert(stands_for_itself(s[i + 1]));
        }
        plain_bytes_are_kept(bytes.drop_first(), rest);
        assert(stands_for_itself(s[0]));
        assert(bytes[0] == s[0] as u8);
        assert(bytes[0] as char == s[0]);
        assert(encoding::encoded_bytes(bytes) =~= s);
    } else {
        assert(encoding::encoded_bytes(bytes) =~= s);
    }
}

/// Letters, digits, `-`, `_`, `.` and `~` stand for themselves in percent-encoded text, and nothing
/// else does: a text of these alone is kept as it is, and besides them only `%` occurs.
pub proof fn only_plain_characters_stand_for_themselves(s: Text)
    ensures
        is_plain(s) ==> encoding::percent_encoded(s) == s,
        forall|i: int|
            0 <= i < encoding::percent_encoded(s).len() ==> {
                let c = #[trigger] encoding::percent_encoded(s)[i];
                stands_for_itself(c) || c == '%'
            },
{
    if is_plain(s) {
        assert forall|i: int| 0 <= i < s.len() implies '\0' <= #[trigger] s[i] <= '\u{7f}' by {
            assert(stands_for_itself(s[i]));
        }
        assert(utf8::is_ascii_chars(s));
        utf8::is_ascii_chars_encode_utf8(s);
        plain_bytes_are_kept(utf8::encode_utf8(s), s);
    }
    encoded_bytes_hold_plain_characters(utf8::encode_utf8(s));
}

proof fn encoded_bytes_hold_plain_characters(bytes: Seq<u8>)
    ensures
        forall|i: int|
            0 <= i < encoding::encoded_bytes(bytes).len() ==> {
                let c = #[trigger] encoding::encoded_bytes(bytes)[i];
                stands_for_itself(c) || c == '%'
            },
    decreases bytes.len(),
{
    if bytes.len() > 0 {
        let head = encoding::encoded_byte(bytes.first());
        let rest = encoding::encoded_bytes(bytes.drop_first());
        encoded_bytes_hold_plain_characters(bytes.drop_first());
        assert forall|i: int| 0 <= i < encoding::encoded_bytes(bytes).len() implies {
            let c = #[trigger] encoding::encoded_bytes(bytes)[i];
            stands_for_itself(c) || c == '%'
        } by {
            if i >= head.len() {
                assert(encoding::encoded_bytes(bytes)[i] == rest[i - head.len()]);
            } else {
                assert(encoding::encoded_bytes(bytes)[i] == head[i]);
            }
        }
    }
}

proof fn plain_text_is_meant(s: Text)
    requires
        is_plain(s),
    ensures
        meant(s) == s,
        !s.contains('&'),
        !s.contains('='),
        !s.contains('?'),
        !s.contains('/'),
{
    only_plain_characters_stand_for_themselves(s);
    encoding::decoding_undoes_encoding(s);
    encoding::encoded_text_is_url_safe(s);
}

proof fn a_number_is_plain(n: int)
    ensures
        is_plain(text::decimal(n)),
{
    let s = text::decimal(n);
    if n < 0 {
        text::decimal_nat_writes_the_number((-n) as nat);
        assert forall|i: int| 0 <= i < s.len() implies stands_for_itself(#[trigger] s[i]) by {
            if i > 0 {
                assert(text::is_digit(text::decimal_nat((-n) as nat)[i - 1]));
            }
        }
    } else {
        text::decimal_nat_writes_the_number(n as nat);
        assert forall|i: int| 0 <= i < s.len() implies stands_for_itself(#[trigger] s[i]) by {
            assert(text::is_digit(s[i]));
        }
    }
}

/// A number is written in its shortest form: no zero stands before its other digits, and only a
/// negative one has a sign.
pub proof fn a_number_is_written_in_its_shortest_form(n: int)
    ensures
        text::written_int(text::decimal(n)) == Some(n),
        n > 0 ==> '1' <= text::decimal(n)[0] <= '9',
        n == 0 ==> text::decimal(n) == seq!['0'],
        n < 0 ==> text::decimal(n)[0] == '-' && '1' <= text::decimal(n)[1] <= '9',
{
    text::decimal_is_read_back(n);
    if n > 0 {
        a_natural_number_begins_with_no_zero(n as nat);
    } else if n < 0 {
        a_natural_number_begins_with_no_zero((-n) as nat);
        assert(text::decimal(n)[1] == text::decimal_nat((-n) as nat)[0]);
    }
}

proof fn a_natural_number_begins_with_no_zero(n: nat)
    requires
        n > 0,
    ensures
        text::decimal_nat(n).len() > 0,
        '1' <= text::decimal_nat(n)[0] <= '9',
    decreases n,
{
    if n >= 10 {
        a_natural_number_begins_with_no_zero(n / 10);
    }
}

/// One parameter as it is written.
spec fn written_parameter(named: (Text, Text)) -> Text {
    named.0.push('=') + encoding::percent_encoded(named.1)
}

/// Parameters as they are written.
spec fn written_parameters(named: Seq<(Text, Text)>) -> Text
    decreases named.len(),
{
    if named.len() <= 1 {
        written_parameter(named[0])
    } else {
        written_parameters(named.drop_last()).push('&') + written_parameter(named.last())
    }
}

proof fn a_parameter_reads_back(named: (Text, Text))
    requires
        is_plain(named.0),
    ensures
        parameter(written_parameter(named)) == named,
        cut(written_parameter(named), '=').len() == 2,
        !written_parameter(named).contains('&'),
        !written_parameter(named).contains('?'),
{
    let value = encoding::percent_encoded(named.1);
    plain_text_is_meant(named.0);
    encoding::encoded_text_is_url_safe(named.1);
    encoding::decoding_undoes_encoding(named.1);
    one_piece(named.0, '=');
    one_piece(value, '=');
    pieces_add_up(named.0, value, '=');
    let piece = written_parameter(named);
    assert(cut(piece, '=') =~= seq![named.0, value]);
    assert forall|i: int| 0 <= i < piece.len() implies piece[i] != '&' && piece[i] != '?' by {
        if i < named.0.len() {
            assert(stands_for_itself(named.0[i]));
        } else if i > named.0.len() {
            assert(piece[i] == value[i - named.0.len() - 1]);
            assert(encoding::url_safe(value[i - named.0.len() - 1]));
        }
    }
}

proof fn parameters_read_back(named: Seq<(Text, Text)>)
    requires
        named.len() > 0,
        forall|i: int| 0 <= i < named.len() ==> is_plain((#[trigger] named[i]).0),
    ensures
        cut(written_parameters(named), '&') == named.map_values(
            |n: (Text, Text)| written_parameter(n),
        ),
        !written_parameters(named).contains('?'),
    decreases named.len(),
{
    let all = written_parameters(named);
    let pieces = named.map_values(|n: (Text, Text)| written_parameter(n));
    a_parameter_reads_back(named.last());
    one_piece(written_parameter(named.last()), '&');
    if named.len() == 1 {
        assert(cut(all, '&') =~= pieces);
    } else {
        let rest = named.drop_last();
        let before = written_parameters(rest);
        assert forall|i: int| 0 <= i < rest.len() implies is_plain((#[trigger] rest[i]).0) by {
            assert(rest[i] == named[i]);
        }
        parameters_read_back(rest);
        pieces_add_up(before, written_parameter(named.last()), '&');
        assert(cut(all, '&') =~= pieces);
        assert forall|i: int| 0 <= i < all.len() implies all[i] != '?' by {
            if i < before.len() {
                assert(before[i] == all[i]);
            } else if i > before.len() {
                assert(all[i] == written_parameter(named.last())[i - before.len() - 1]);
            }
        }
    }
}

proof fn an_address_reads_back(address: Text, about: Text, named: Seq<(Text, Text)>)
    requires
        named.len() > 0,
        forall|i: int| 0 <= i < named.len() ==> is_plain((#[trigger] named[i]).0),
        !about.contains('?'),
        address == about.push('?') + written_parameters(named),
    ensures
        reads_as(address, about, named),
{
    let query = written_parameters(named);
    parameters_read_back(named);
    one_piece(about, '?');
    one_piece(query, '?');
    pieces_add_up(about, query, '?');
    assert(cut(address, '?') =~= seq![about, query]);
    let pieces = cut(query, '&');
    assert forall|i: int| 0 <= i < named.len() implies parameter(#[trigger] pieces[i]) == named[i]
        && cut(pieces[i], '=').len() == 2 by {
        assert(is_plain(named[i].0));
        a_parameter_reads_back(named[i]);
        assert(pieces[i] == written_parameter(named[i]));
    }
    assert(parameters(address) =~= named);
}

proof fn names_are_plain()
    ensures
        is_plain("u"@),
        is_plain("id"@),
        is_plain("rating"@),
        is_plain("query"@),
        is_plain("artistCount"@),
        is_plain("albumCount"@),
        is_plain("songCount"@),
        is_plain("artistId"@),
        is_plain("albumId"@),
        is_plain("score"@),
        is_plain("count"@),
        is_plain("offset"@),
        is_plain("user_id"@),
        is_plain("entity_type"@),
        is_plain("review_type"@),
        is_plain("limit"@),
{
    reveal_strlit("u");
    reveal_strlit("id");
    reveal_strlit("rating");
    reveal_strlit("query");
    reveal_strlit("artistCount");
    reveal_strlit("albumCount");
    reveal_strlit("songCount");
    reveal_strlit("artistId");
    reveal_strlit("albumId");
    reveal_strlit("score");
    reveal_strlit("count");
    reveal_strlit("offset");
    reveal_strlit("user_id");
    reveal_strlit("entity_type");
    reveal_strlit("review_type");
    reveal_strlit("limit");
}

proof fn two_parameters(a: (Text, Text), b: (Text, Text))
    ensures
        written_parameters(seq![a, b]) == written_parameter(a).push('&') + written_parameter(b),
{
    reveal_with_fuel(written_parameters, 2);
    assert(seq![a, b].drop_last() =~= seq![a]);
}

proof fn three_parameters(a: (Text, Text), b: (Text, Text), c: (Text, Text))
    ensures
        written_parameters(seq![a, b, c]) == (written_parameter(a).push('&') + written_parameter(
            b,
        )).push('&') + written_parameter(c),
{
    two_parameters(a, b);
    assert(seq![a, b, c].drop_last() =~= seq![a, b]);
}

proof fn five_parameters(
    a: (Text, Text),
    b: (Text, Text),
    c: (Text, Text),
    d: (Text, Text),
    e: (Text, Text),
)
    ensures
        written_parameters(seq![a, b, c, d, e]) == ((written_parameters(seq![a, b, c]).push('&')
            + written_parameter(d)).push('&') + written_parameter(e)),
{
    reveal_with_fuel(written_parameters, 2);
    assert(seq![a, b, c, d].drop_last() =~= seq![a, b, c]);
    assert(seq![a, b, c, d, e].drop_last() =~= seq![a, b, c, d]);
}

/// The songs that a user starred are asked for by `getStarred2`, for that user.
pub proof fn starred_songs_are_asked_for_by_user(nd_username: Text)
    ensures
        reads_as(subsonic::starred_call(nd_username), "getStarred2"@, seq![("u"@, nd_username)]),
{
    names_are_plain();
    reveal_strlit("getStarred2?u=");
    reveal_strlit("getStarred2");
    reveal_strlit("u");
    let named = seq![("u"@, nd_username)];
    assert(subsonic::starred_call(nd_username) =~= "getStarred2"@.push('?') + written_parameters(
        named,
    ));
    an_address_reads_back(subsonic::starred_call(nd_username), "getStarred2"@, named);
}

/// One `id` for each song, in order, and the user behind them.
pub open spec fn ids_and_user(ids: Seq<Text>, nd_username: Text) -> Seq<(Text, Text)> {
    ids.map_values(|id: Text| ("id"@, id)).push(("u"@, nd_username))
}

proof fn ids_are_written_in_turn(ids: Seq<Text>)
    requires
        ids.len() > 0,
    ensures
        written_parameters(ids.map_values(|id: Text| ("id"@, id))).push('&')
            == subsonic::id_parameters(ids),
    decreases ids.len(),
{
    reveal_strlit("id");
    reveal_strlit("id=");
    let named = ids.map_values(|id: Text| ("id"@, id));
    let rest = ids.drop_last();
    if ids.len() == 1 {
        assert(subsonic::id_parameters(rest) =~= Seq::<char>::empty());
        assert(written_parameters(named).push('&') =~= subsonic::id_parameters(ids));
    } else {
        ids_are_written_in_turn(rest);
        assert(named.drop_last() =~= rest.map_values(|id: Text| ("id"@, id)));
        assert(written_parameters(named).push('&') =~= subsonic::id_parameters(ids));
    }
}

/// The star call names every song that it is for, in order and no other, and the user whose stars
/// they are.
pub proof fn a_star_call_names_every_song(nd_username: Text, ids: Seq<Text>)
    ensures
        reads_as(
            subsonic::star_songs_call(nd_username, ids),
            "star"@,
            ids_and_user(ids, nd_username),
        ),
{
    names_are_plain();
    reveal_strlit("star?");
    reveal_strlit("star");
    reveal_strlit("u=");
    reveal_strlit("u");
    let named = ids_and_user(ids, nd_username);
    let call = subsonic::star_songs_call(nd_username, ids);
    assert(named.drop_last() =~= ids.map_values(|id: Text| ("id"@, id)));
    if ids.len() > 0 {
        ids_are_written_in_turn(ids);
    } else {
        assert(subsonic::id_parameters(ids) =~= Seq::<char>::empty());
    }
    assert(call =~= "star"@.push('?') + written_parameters(named));
    assert forall|i: int| 0 <= i < named.len() implies is_plain((#[trigger] named[i]).0) by {
        if i < ids.len() {
            assert(named[i] == ("id"@, ids[i]));
        }
    }
    an_address_reads_back(call, "star"@, named);
}

/// Two star calls with the same text are for the same songs of the same user.
pub proof fn a_star_call_is_for_its_songs_alone(
    user1: Text,
    ids1: Seq<Text>,
    user2: Text,
    ids2: Seq<Text>,
)
    requires
        subsonic::star_songs_call(user1, ids1) == subsonic::star_songs_call(user2, ids2),
    ensures
        user1 == user2,
        ids1 == ids2,
{
    a_star_call_names_every_song(user1, ids1);
    a_star_call_names_every_song(user2, ids2);
    let named1 = ids_and_user(ids1, user1);
    let named2 = ids_and_user(ids2, user2);
    assert(named1.last() == named2.last());
    assert forall|i: int| 0 <= i < ids1.len() implies ids1[i] == ids2[i] by {
        assert(named1[i] == named2[i]);
    }
    assert(ids1 =~= ids2);
}

/// The local items of an entity are asked for by `search3` with its MusicBrainz id, for the user,
/// fifty of each kind.
pub proof fn items_are_searched_by_their_entity(nd_username: Text, mbid: Text)
    ensures
        reads_as(
            subsonic::lookup_call(nd_username, mbid),
            "search3"@,
            seq![
                ("query"@, mbid),
                ("artistCount"@, "50"@),
                ("albumCount"@, "50"@),
                ("songCount"@, "50"@),
                ("u"@, nd_username),
            ],
        ),
{
    names_are_plain();
    reveal_strlit("search3?query=");
    reveal_strlit("search3");
    reveal_strlit("query");
    reveal_strlit("&artistCount=");
    reveal_strlit("artistCount");
    reveal_strlit("&albumCount=");
    reveal_strlit("albumCount");
    reveal_strlit("&songCount=");
    reveal_strlit("songCount");
    reveal_strlit("&u=");
    reveal_strlit("u");
    reveal_strlit("50");
    reveal_with_fuel(text::decimal_nat, 2);
    assert(text::decimal(50) =~= "50"@);
    only_plain_characters_stand_for_themselves("50"@);
    let q = ("query"@, mbid);
    let a = ("artistCount"@, "50"@);
    let b = ("albumCount"@, "50"@);
    let c = ("songCount"@, "50"@);
    let u = ("u"@, nd_username);
    let call = subsonic::lookup_call(nd_username, mbid);
    three_parameters(q, a, b);
    five_parameters(q, a, b, c, u);
    assert(call =~= "search3"@.push('?') + written_parameters(seq![q, a, b, c, u]));
    an_address_reads_back(call, "search3"@, seq![q, a, b, c, u]);
}

/// A rating is set by `setRating` on the item with the id, to the number of stars, for the user.
pub proof fn a_rating_call_sets_the_rating(nd_username: Text, id: Text, rating: int)
    ensures
        reads_as(
            subsonic::rating_call(nd_username, id, rating),
            "setRating"@,
            seq![("id"@, id), ("rating"@, text::decimal(rating)), ("u"@, nd_username)],
        ),
        text::written_int(parameters(subsonic::rating_call(nd_username, id, rating))[1].1) == Some(
            rating,
        ),
{
    names_are_plain();
    reveal_strlit("setRating?id=");
    reveal_strlit("setRating");
    reveal_strlit("id");
    reveal_strlit("&rating=");
    reveal_strlit("rating");
    reveal_strlit("&u=");
    reveal_strlit("u");
    a_number_is_plain(rating);
    text::decimal_is_read_back(rating);
    only_plain_characters_stand_for_themselves(text::decimal(rating));
    let i = ("id"@, id);
    let r = ("rating"@, text::decimal(rating));
    let u = ("u"@, nd_username);
    let call = subsonic::rating_call(nd_username, id, rating);
    three_parameters(i, r, u);
    assert(call =~= "setRating"@.push('?') + written_parameters(seq![i, r, u]));
    an_address_reads_back(call, "setRating"@, seq![i, r, u]);
}

/// The `star` parameter that names an item of each kind: only songs are named `id`.
pub open spec fn naming(entity: CbEntity) -> Text {
    match entity {
        CbEntity::Artist => "artistId"@,
        CbEntity::ReleaseGroup => "albumId"@,
        CbEntity::Recording => "id"@,
    }
}

/// The call that favourites an item names it by the parameter of its kind, and the user whose
/// favourite it is.
pub proof fn a_favourite_is_named_by_its_kind(nd_username: Text, entity: CbEntity, id: Text)
    ensures
        reads_as(
            subsonic::star_call(nd_username, entity, id),
            "star"@,
            seq![(naming(entity), id), ("u"@, nd_username)],
        ),
{
    names_are_plain();
    reveal_strlit("star?");
    reveal_strlit("star");
    reveal_strlit("=");
    reveal_strlit("&u=");
    reveal_strlit("u");
    let i = (naming(entity), id);
    let u = ("u"@, nd_username);
    let call = subsonic::star_call(nd_username, entity, id);
    two_parameters(i, u);
    assert(call =~= "star"@.push('?') + written_parameters(seq![i, u]));
    an_address_reads_back(call, "star"@, seq![i, u]);
}

/// Two favouriting calls with the same text are for the same item, of the same kind and user: so
/// calls for different kinds differ.
pub proof fn a_favourite_is_of_one_kind(
    user1: Text,
    entity1: CbEntity,
    id1: Text,
    user2: Text,
    entity2: CbEntity,
    id2: Text,
)
    requires
        subsonic::star_call(user1, entity1, id1) == subsonic::star_call(user2, entity2, id2),
    ensures
        user1 == user2,
        entity1 == entity2,
        id1 == id2,
{
    reveal_strlit("artistId");
    reveal_strlit("albumId");
    reveal_strlit("id");
    a_favourite_is_named_by_its_kind(user1, entity1, id1);
    a_favourite_is_named_by_its_kind(user2, entity2, id2);
    let call = subsonic::star_call(user1, entity1, id1);
    assert(parameters(call)[0] == (naming(entity1), id1));
    assert(parameters(call)[0] == (naming(entity2), id2));
    assert(parameters(call)[1] == ("u"@, user1));
    assert(parameters(call)[1] == ("u"@, user2));
    assert(naming(CbEntity::Artist).len() == 8);
    assert(naming(CbEntity::ReleaseGroup).len() == 7);
    assert(naming(CbEntity::Recording).len() == 2);
}

/// A page of loves is asked for of the user, a thousand at a time, from the offset on: records with
/// a score of one alone.
pub proof fn loves_are_asked_for_by_page(lb_username: Text, offset: int)
    ensures
        ({
            let url = listenbrainz::feedback_url(lb_username, offset);
            &&& reads_as(
                url,
                "https://api.listenbrainz.org/1/feedback/user/"@ + encoding::percent_encoded(
                    lb_username,
                ) + "/get-feedback"@,
                seq![("score"@, "1"@), ("count"@, "1000"@), ("offset"@, text::decimal(offset))],
            )
            &&& text::written_int(parameters(url)[2].1) == Some(offset)
        }),
{
    let name = encoding::percent_encoded(lb_username);
    let about = "https://api.listenbrainz.org/1/feedback/user/"@ + name + "/get-feedback"@;
    let url = listenbrainz::feedback_url(lb_username, offset);
    names_are_plain();
    reveal_strlit("https://api.listenbrainz.org/1");
    reveal_strlit("https://api.listenbrainz.org/1/feedback/user/");
    reveal_strlit("/feedback/user/");
    reveal_strlit("/get-feedback");
    reveal_strlit("/get-feedback?score=1&count=");
    reveal_strlit("&offset=");
    reveal_strlit("score");
    reveal_strlit("count");
    reveal_strlit("offset");
    reveal_strlit("1");
    reveal_strlit("1000");
    reveal_with_fuel(text::decimal_nat, 4);
    assert(text::decimal(1000) =~= "1000"@);
    only_plain_characters_stand_for_themselves("1"@);
    only_plain_characters_stand_for_themselves("1000"@);
    a_number_is_plain(offset);
    text::decimal_is_read_back(offset);
    only_plain_characters_stand_for_themselves(text::decimal(offset));
    encoding::encoded_text_is_url_safe(lb_username);
    let s = ("score"@, "1"@);
    let c = ("count"@, "1000"@);
    let o = ("offset"@, text::decimal(offset));
    three_parameters(s, c, o);
    assert(url =~= about.push('?') + written_parameters(seq![s, c, o]));
    assert forall|i: int| 0 <= i < about.len() implies about[i] != '?' by {
        let front = "https://api.listenbrainz.org/1/feedback/user/"@;
        if front.len() <= i < front.len() + name.len() {
            assert(about[i] == name[i - front.len()]);
        }
    }
    an_address_reads_back(url, about, seq![s, c, o]);
}

/// The `entity_type` under which CritiqueBrainz knows each kind.
pub open spec fn kind_name(entity: CbEntity) -> Text {
    match entity {
        CbEntity::Artist => "artist"@,
        CbEntity::ReleaseGroup => "release_group"@,
        CbEntity::Recording => "recording"@,
    }
}

proof fn kinds_are_plain(entity: CbEntity)
    ensures
        is_plain(kind_name(entity)),
        is_plain("rating"@),
        is_plain("50"@),
        text::decimal(50) == "50"@,
{
    reveal_strlit("artist");
    reveal_strlit("release_group");
    reveal_strlit("recording");
    reveal_strlit("rating");
    reveal_strlit("50");
    reveal_with_fuel(text::decimal_nat, 2);
    assert(text::decimal(50) =~= "50"@);
}

proof fn a_page_of_ratings_is_written_out(id: Text, kind: Text, size: Text, offset: Text)
    ensures
        "https://critiquebrainz.org/ws/1"@ + "/review/?user_id"@.push('=') + id
            + "&entity_type="@ + kind + "&review_type=rating&limit="@ + size + "&offset="@ + offset
            == "https://critiquebrainz.org/ws/1/review/"@.push('?') + (((("user_id"@.push('=')
            + id).push('&') + ("entity_type"@.push('=') + kind)).push('&') + (
        "review_type"@.push('=') + "rating"@)).push('&') + ("limit"@.push('=') + size)).push('&') + (
        "offset"@.push('=') + offset),
{
    reveal_strlit("https://critiquebrainz.org/ws/1");
    reveal_strlit("https://critiquebrainz.org/ws/1/review/");
    reveal_strlit("/review/?user_id");
    reveal_strlit("&entity_type=");
    reveal_strlit("&review_type=rating&limit=");
    reveal_strlit("&offset=");
    reveal_strlit("user_id");
    reveal_strlit("entity_type");
    reveal_strlit("review_type");
    reveal_strlit("rating");
    reveal_strlit("limit");
    reveal_strlit("offset");
    let root = "https://critiquebrainz.org/ws/1/review/"@;
    assert("https://critiquebrainz.org/ws/1"@ + "/review/?user_id"@ =~= root.push('?')
        + "user_id"@);
    assert("&entity_type="@ =~= seq!['&'] + "entity_type"@ + seq!['=']);
    assert("&review_type=rating&limit="@ =~= seq!['&'] + "review_type"@ + seq!['='] + "rating"@
        + seq!['&'] + "limit"@ + seq!['=']);
    assert("&offset="@ =~= seq!['&'] + "offset"@ + seq!['=']);
    glued(
        "https://critiquebrainz.org/ws/1"@,
        "/review/?user_id"@,
        root.push('?'),
        "user_id"@,
        id,
        "entity_type"@,
        kind,
        "review_type"@,
        "rating"@,
        "limit"@,
        size,
        "offset"@,
        offset,
    );
}

proof fn glued(
    h: Text,
    h2: Text,
    about: Text,
    a: Text,
    av: Text,
    b: Text,
    bv: Text,
    c: Text,
    cv: Text,
    d: Text,
    dv: Text,
    e: Text,
    ev: Text,
)
    requires
        h + h2 == about + a,
    ensures
        h + h2.push('=') + av + (seq!['&'] + b + seq!['=']) + bv + (seq!['&'] + c + seq!['='] + cv
            + seq!['&'] + d + seq!['=']) + dv + (seq!['&'] + e + seq!['=']) + ev == about + ((((a.push(
            '=',
        ) + av).push('&') + (b.push('=') + bv)).push('&') + (c.push('=') + cv)).push('&') + (
        d.push('=') + dv)).push('&') + (e.push('=') + ev),
{
    assert(h + h2.push('=') =~= (h + h2).push('='));
    assert((about + a).push('=') =~= about + a.push('='));
    let left = about + a.push('=') + av + (seq!['&'] + b + seq!['=']) + bv + (seq!['&'] + c
        + seq!['='] + cv + seq!['&'] + d + seq!['=']) + dv + (seq!['&'] + e + seq!['=']) + ev;
    let right = about + ((((a.push('=') + av).push('&') + (b.push('=') + bv)).push('&') + (c.push(
        '=',
    ) + cv)).push('&') + (d.push('=') + dv)).push('&') + (e.push('=') + ev);
    assert(left =~= right);
}

/// A page of ratings is asked for of the user and of one kind, fifty at a time, from the offset on.
pub proof fn ratings_are_asked_for_by_page(user_id: Text, entity: CbEntity, offset: int)
    ensures
        ({
            let url = critiquebrainz::reviews_url(user_id, entity, offset);
            &&& reads_as(
                url,
                "https://critiquebrainz.org/ws/1/review/"@,
                seq![
                    ("user_id"@, user_id),
                    ("entity_type"@, kind_name(entity)),
                    ("review_type"@, "rating"@),
                    ("limit"@, "50"@),
                    ("offset"@, text::decimal(offset)),
                ],
            )
            &&& text::written_int(parameters(url)[4].1) == Some(offset)
        }),
{
    let about = "https://critiquebrainz.org/ws/1/review/"@;
    let url = critiquebrainz::reviews_url(user_id, entity, offset);
    names_are_plain();
    kinds_are_plain(entity);
    only_plain_characters_stand_for_themselves(kind_name(entity));
    only_plain_characters_stand_for_themselves("rating"@);
    only_plain_characters_stand_for_themselves("50"@);
    a_number_is_plain(offset);
    text::decimal_is_read_back(offset);
    only_plain_characters_stand_for_themselves(text::decimal(offset));
    let p = ("user_id"@, user_id);
    let e = ("entity_type"@, kind_name(entity));
    let r = ("review_type"@, "rating"@);
    let l = ("limit"@, "50"@);
    let o = ("offset"@, text::decimal(offset));
    three_parameters(p, e, r);
    five_parameters(p, e, r, l, o);
    a_page_of_ratings_is_written_out(
        encoding::percent_encoded(user_id),
        kind_name(entity),
        "50"@,
        text::decimal(offset),
    );
    assert("/review/?user_id="@ =~= "/review/?user_id"@.push('=')) by {
        reveal_strlit("/review/?user_id=");
        reveal_strlit("/review/?user_id");
    }
    assert(!about.contains('?')) by {
        reveal_strlit("https://critiquebrainz.org/ws/1/review/");
    }
    assert(url == about.push('?') + written_parameters(seq![p, e, r, l, o]));
    an_address_reads_back(url, about, seq![p, e, r, l, o]);
}

/// A request that only reads `url`: it says that JSON is accepted and who asks, bears the
/// authorization where there is one and none where there is none, has no body, may take half a
/// minute, and keeps the configured gap.
pub open spec fn reads(
    request: HttpRequestView,
    url: Text,
    auth: Option<Text>,
    settings: SettingsView,
) -> bool {
    &&& request.method == Method::Get
    &&& request.url == url
    &&& request.body.len() == 0
    &&& request.timeout_ms == 30000
    &&& request.gap_ms == settings.request_delay_ms
    &&& request.headers.contains(("Accept"@, "application/json"@))
    &&& request.headers.contains(("User-Agent"@, settings.user_agent))
    &&& auth matches Some(auth) ==> request.headers.contains(("Authorization"@, auth))
    &&& request.headers.len() == if auth is Some {
        3int
    } else {
        2int
    }
}

/// A token is checked at ListenBrainz, and bears witness of itself.
pub proof fn a_token_check_bears_the_token(token: Text, settings: SettingsView)
    ensures
        reads(
            listenbrainz::token_check(token, settings),
            "https://api.listenbrainz.org/1/validate-token"@,
            Some("Token "@ + token),
            settings,
        ),
{
    reveal_strlit("https://api.listenbrainz.org/1");
    reveal_strlit("/validate-token");
    reveal_strlit("https://api.listenbrainz.org/1/validate-token");
    let request = listenbrainz::token_check(token, settings);
    assert(request.url =~= "https://api.listenbrainz.org/1/validate-token"@);
    assert(request.headers[0] == ("Authorization"@, "Token "@ + token));
    assert(request.headers[1] == ("Accept"@, "application/json"@));
    assert(request.headers[2] == ("User-Agent"@, settings.user_agent));
}

/// A page of loves is read with the token of the user.
pub proof fn a_page_of_loves_is_read_with_the_token(
    token: Text,
    lb_username: Text,
    offset: int,
    settings: SettingsView,
)
    ensures
        reads(
            listenbrainz::feedback_read(token, lb_username, offset, settings),
            listenbrainz::feedback_url(lb_username, offset),
            Some("Token "@ + token),
            settings,
        ),
{
    let request = listenbrainz::feedback_read(token, lb_username, offset, settings);
    assert(request.headers[0] == ("Authorization"@, "Token "@ + token));
    assert(request.headers[1] == ("Accept"@, "application/json"@));
    assert(request.headers[2] == ("User-Agent"@, settings.user_agent));
}

/// A page of ratings is read without a token.
pub proof fn a_page_of_ratings_is_read_without_a_token(
    user_id: Text,
    entity: CbEntity,
    offset: int,
    settings: SettingsView,
)
    ensures
        reads(
            critiquebrainz::reviews_read(user_id, entity, offset, settings),
            critiquebrainz::reviews_url(user_id, entity, offset),
            None,
            settings,
        ),
{
    let request = critiquebrainz::reviews_read(user_id, entity, offset, settings);
    assert(request.headers[0] == ("Accept"@, "application/json"@));
    assert(request.headers[1] == ("User-Agent"@, settings.user_agent));
}

/// A CritiqueBrainz user is looked up under the username, without a token.
pub proof fn a_user_is_looked_up_by_name(username: Text, settings: SettingsView)
    ensures
        ({
            let request = critiquebrainz::user_read(username, settings);
            &&& reads(
                request,
                "https://critiquebrainz.org/ws/1/user/"@ + encoding::percent_encoded(username),
                None,
                settings,
            )
            &&& cut(request.url, '/').len() == 7
            &&& meant(cut(request.url, '/')[6]) == username
        }),
{
    reveal_strlit("https://critiquebrainz.org/ws/1");
    reveal_strlit("/user/");
    reveal_strlit("https://critiquebrainz.org/ws/1/user/");
    reveal_strlit("https:");
    reveal_strlit("critiquebrainz.org");
    reveal_strlit("ws");
    reveal_strlit("1");
    reveal_strlit("user");
    let request = critiquebrainz::user_read(username, settings);
    let name = encoding::percent_encoded(username);
    assert(request.url =~= "https://critiquebrainz.org/ws/1/user/"@ + name);
    assert(request.headers[0] == ("Accept"@, "application/json"@));
    assert(request.headers[1] == ("User-Agent"@, settings.user_agent));
    encoding::encoded_text_is_url_safe(username);
    encoding::decoding_undoes_encoding(username);
    let nothing = Seq::<char>::empty();
    let a = "https:"@;
    let b = "critiquebrainz.org"@;
    let c = "ws"@;
    let d = "1"@;
    let e = "user"@;
    one_piece(a, '/');
    one_piece(nothing, '/');
    one_piece(b, '/');
    one_piece(c, '/');
    one_piece(d, '/');
    one_piece(e, '/');
    one_piece(name, '/');
    pieces_add_up(e, name, '/');
    pieces_add_up(d, e.push('/') + name, '/');
    pieces_add_up(c, d.push('/') + (e.push('/') + name), '/');
    pieces_add_up(b, c.push('/') + (d.push('/') + (e.push('/') + name)), '/');
    let rest = b.push('/') + (c.push('/') + (d.push('/') + (e.push('/') + name)));
    pieces_add_up(nothing, rest, '/');
    pieces_add_up(a, nothing.push('/') + rest, '/');
    assert(request.url =~= a.push('/') + (nothing.push('/') + rest));
    assert(cut(request.url, '/') =~= seq![a, nothing, b, c, d, e, name]);
}

/// A love is sent to ListenBrainz with the token of the user: the body is a JSON object that names
/// the recording, and its score is one.
pub proof fn a_love_names_its_recording(token: Text, mbid: Text, settings: SettingsView)
    requires
        mbid::mbid_shaped(mbid),
    ensures
        ({
            let request = listenbrainz::love_write(token, mbid, settings);
            &&& request.method == Method::Post
            &&& request.url == "https://api.listenbrainz.org/1/feedback/recording-feedback"@
            &&& request.body == utf8::encode_utf8(
                "{\"recording_mbid\":\""@ + mbid + "\",\"score\":1}"@,
            )
            &&& request.timeout_ms == 30000
            &&& request.gap_ms == settings.request_delay_ms
            &&& request.headers.len() == 3
            &&& request.headers.contains(("Authorization"@, "Token "@ + token))
            &&& request.headers.contains(("Content-Type"@, "application/json"@))
            &&& request.headers.contains(("User-Agent"@, settings.user_agent))
        }),
{
    reveal_strlit("https://api.listenbrainz.org/1");
    reveal_strlit("/feedback/recording-feedback");
    reveal_strlit("https://api.listenbrainz.org/1/feedback/recording-feedback");
    reveal_strlit("recording_mbid");
    reveal_strlit("score");
    reveal_strlit("{\"recording_mbid\":\"");
    reveal_strlit("\",\"score\":1}");
    let request = listenbrainz::love_write(token, mbid, settings);
    assert(request.url =~= "https://api.listenbrainz.org/1/feedback/recording-feedback"@);
    assert(json::plain(mbid));
    assert(json::object_text("recording_mbid"@, mbid, "score"@, 1)
        =~= "{\"recording_mbid\":\""@ + mbid + "\",\"score\":1}"@);
    assert(request.headers[0] == ("Authorization"@, "Token "@ + token));
    assert(request.headers[1] == ("Content-Type"@, "application/json"@));
    assert(request.headers[2] == ("User-Agent"@, settings.user_agent));
}

} // verus!
