//! What the library makes of what it is told: responses, records, reviews and local items.

use vstd::prelude::*;
use vstd::utf8;
use crate::critiquebrainz;
use crate::critiquebrainz::{CbEntity, CbReviewView, CbRule};
use crate::http;
use crate::http::{HttpResponse, Status, StopView};
use crate::inbound;
use crate::inbound::{PageEnd, StarTargetView};
use crate::laws::addresses;
use crate::listenbrainz;
use crate::listenbrainz::FeedbackEntryView;
use crate::mbid;
use crate::protocol;
use crate::protocol::{CbUserEnvelope, NoteView, TrackView};
use crate::ratings;
use crate::settled;
use crate::subsonic;
use crate::subsonic::{SearchItemView, SearchResult3View, SubsonicEnvelopeView};
use crate::text;
use crate::text::Text;

verus! {

/// A read gives the text of the body just when a response came, its status is one of success and
/// its body is text. It is rate limited just when a response came with the status 429 or one from
/// 500 on. Whatever else came of it, it failed.
pub proof fn a_read_succeeds_is_limited_or_failed(sent: Result<Option<HttpResponse>, String>)
    ensures
        http::read_outcome(sent) matches Ok((body, exhausted)) ==> {
            &&& sent matches Ok(Some(response)) && 200 <= response.status_code <= 299
                && utf8::encode_utf8(body) == response.body@
        },
        sent matches Ok(Some(response)) && 200 <= response.status_code <= 299 && utf8::valid_utf8(
            response.body@,
        ) ==> http::read_outcome(sent) is Ok,
        http::read_outcome(sent) == Err::<(Text, bool), StopView>(StopView::RateLimited) <==> (
        sent matches Ok(Some(response)) && (response.status_code == 429 || response.status_code
            >= 500)),
{
    if let Ok((body, exhausted)) = http::read_outcome(sent) {
        if let Ok(Some(response)) = sent {
            utf8::decode_utf8_encode_utf8(response.body@);
        }
    }
}

/// The message of a failed read: the status that refused it, the error of the host, that nothing
/// came back, or that the body is no text.
pub proof fn a_failed_read_says_why(sent: Result<Option<HttpResponse>, String>)
    ensures
        sent matches Err(message) ==> http::read_outcome(sent) == Err::<(Text, bool), StopView>(
            StopView::Fatal(message@),
        ),
        sent matches Ok(None) ==> http::read_outcome(sent) == Err::<(Text, bool), StopView>(
            StopView::Fatal("empty HTTP response"@),
        ),
        sent matches Ok(Some(response)) && response.status_code != 429 && response.status_code < 500
            && !(200 <= response.status_code <= 299) ==> (http::read_outcome(sent) matches Err(
            StopView::Fatal(message),
        ) && message == "HTTP "@ + text::decimal((sent->Ok_0->0).status_code as int)),
        sent matches Ok(Some(response)) && 200 <= response.status_code <= 299 && !utf8::valid_utf8(
            response.body@,
        ) ==> (http::read_outcome(sent) matches Err(StopView::Fatal(message))
            && "invalid UTF-8 response: "@.is_prefix_of(message)),
{
}

/// A write is applied just when its status is one of success. It stops the pass where the token is
/// refused, the service is rate limited or fails, that is at 401, 403, 429 and from 500 to 599. Any
/// other status rejects the record alone. Without a response it failed.
pub proof fn a_write_is_applied_stops_or_is_rejected(sent: Result<Option<HttpResponse>, String>)
    ensures
        http::write_outcome(sent) is Ok <==> sent matches Ok(Some(_)),
        sent matches Ok(Some(response)) ==> {
            let status = (http::write_outcome(sent)->Ok_0).0;
            let code = response.status_code;
            &&& status is Applied <==> 200 <= code < 300
            &&& status is Stop <==> code == 401 || code == 403 || code == 429 || 500 <= code < 600
        },
        sent matches Err(message) ==> http::write_outcome(sent) == Err::<(Status, bool), Text>(
            message@,
        ),
        sent matches Ok(None) ==> http::write_outcome(sent) == Err::<(Status, bool), Text>(
            "empty HTTP response"@,
        ),
{
}

/// The first header with a name, in any case.
pub open spec fn is_first_named(headers: Seq<(Text, Text)>, name: Text, i: int) -> bool {
    &&& 0 <= i < headers.len()
    &&& text::ascii_lower(headers[i].0) == text::ascii_lower(name)
    &&& forall|j: int|
        0 <= j < i ==> text::ascii_lower((#[trigger] headers[j]).0) != text::ascii_lower(name)
}

/// A header is found by its name in any case: the value is that of the first with the name, and
/// there is none just when no header has it.
pub proof fn a_header_is_found_by_name(headers: Seq<(Text, Text)>, name: Text)
    ensures
        forall|i: int| #[trigger]
            is_first_named(headers, name, i) ==> http::header_named(headers, name) == Some(
                headers[i].1,
            ),
        (forall|i: int|
            0 <= i < headers.len() ==> text::ascii_lower((#[trigger] headers[i]).0)
                != text::ascii_lower(name)) ==> http::header_named(headers, name) is None,
    decreases headers.len(),
{
    if headers.len() > 0 {
        let rest = headers.drop_first();
        a_header_is_found_by_name(rest, name);
        assert forall|i: int| #[trigger] is_first_named(headers, name, i) implies http::header_named(
            headers,
            name,
        ) == Some(headers[i].1) by {
            if i > 0 {
                assert(text::ascii_lower(headers[0].0) != text::ascii_lower(name));
                assert(rest[i - 1] == headers[i]);
                assert forall|j: int| 0 <= j < i - 1 implies text::ascii_lower(
                    (#[trigger] rest[j]).0,
                ) != text::ascii_lower(name) by {
                    assert(rest[j] == headers[j + 1]);
                }
                assert(is_first_named(rest, name, i - 1));
            }
        }
        if forall|i: int|
            0 <= i < headers.len() ==> text::ascii_lower((#[trigger] headers[i]).0)
                != text::ascii_lower(name) {
            assert(text::ascii_lower(headers[0].0) != text::ascii_lower(name));
            assert forall|i: int| 0 <= i < rest.len() implies text::ascii_lower(
                (#[trigger] rest[i]).0,
            ) != text::ascii_lower(name) by {
                assert(rest[i] == headers[i + 1]);
            }
        }
    }
}

/// A response exhausts its window just when the first header `X-RateLimit-Remaining` writes, but
/// for white space around it, a number that is not positive; so a response without the header, or
/// with anything else in it, does not.
pub proof fn a_window_is_exhausted_by_its_header(headers: Seq<(Text, Text)>)
    ensures
        forall|i: int| #[trigger]
            is_first_named(headers, "X-RateLimit-Remaining"@, i) ==> (http::window_exhausted(headers)
                <==> (text::written_int(text::trim(headers[i].1)) matches Some(n) && i64::MIN <= n
                <= 0)),
        (forall|i: int|
            0 <= i < headers.len() ==> text::ascii_lower((#[trigger] headers[i]).0)
                != text::ascii_lower("X-RateLimit-Remaining"@)) ==> !http::window_exhausted(headers),
{
    a_header_is_found_by_name(headers, "X-RateLimit-Remaining"@);
}

/// The window that a read or a write tells of is that of its response.
pub proof fn the_window_is_that_of_the_response(sent: Result<Option<HttpResponse>, String>)
    ensures
        http::read_outcome(sent) matches Ok((_, exhausted)) ==> (sent matches Ok(Some(response))
            && exhausted == http::window_exhausted(
            response.headers@.map_values(|h: (String, String)| (h.0@, h.1@)),
        )),
        http::write_outcome(sent) matches Ok((_, exhausted)) ==> (sent matches Ok(Some(response))
            && exhausted == http::window_exhausted(
            response.headers@.map_values(|h: (String, String)| (h.0@, h.1@)),
        )),
{
}

/// A token check gives the username that comes with it just when the token is valid and the name is
/// not empty.
pub proof fn only_a_valid_token_gives_a_name(valid: bool, user_name: Option<Text>, name: Text)
    ensures
        listenbrainz::validated_name(valid, user_name) == Some(name) <==> valid && user_name == Some(
            name,
        ) && name.len() > 0,
{
}

/// A user lookup gives the id that comes with it just when the id is not empty.
pub proof fn only_a_known_user_has_an_id(reply: CbUserEnvelope, id: Text)
    ensures
        protocol::user_id_of(reply) == Some(id) <==> (reply.user matches Some(user) && user.id@ == id
            && id.len() > 0),
{
}

/// A run of hexadecimal digits, in either case, of a length.
pub open spec fn hex_run(s: Text, len: int) -> bool {
    &&& s.len() == len
    &&& forall|i: int|
        0 <= i < s.len() ==> {
            let c = #[trigger] s[i];
            '0' <= c <= '9' || 'a' <= c <= 'f' || 'A' <= c <= 'F'
        }
}

/// Five runs of hexadecimal digits, of 8, 4, 4, 4 and 12, joined by dashes.
pub open spec fn grouped(s: Text, a: Text, b: Text, c: Text, d: Text, e: Text) -> bool {
    &&& hex_run(a, 8)
    &&& hex_run(b, 4)
    &&& hex_run(c, 4)
    &&& hex_run(d, 4)
    &&& hex_run(e, 12)
    &&& s == a + seq!['-'] + b + seq!['-'] + c + seq!['-'] + d + seq!['-'] + e
}

/// A MusicBrainz id is five runs of hexadecimal digits, joined by dashes, and every text of that
/// form is one.
pub proof fn an_mbid_is_five_groups(s: Text)
    ensures
        mbid::mbid_shaped(s) <==> exists|a: Text, b: Text, c: Text, d: Text, e: Text|
            grouped(s, a, b, c, d, e),
{
    if mbid::mbid_shaped(s) {
        let a = s.subrange(0, 8);
        let b = s.subrange(9, 13);
        let c = s.subrange(14, 18);
        let d = s.subrange(19, 23);
        let e = s.subrange(24, 36);
        assert(s =~= a + seq!['-'] + b + seq!['-'] + c + seq!['-'] + d + seq!['-'] + e);
        assert(grouped(s, a, b, c, d, e));
    }
    if exists|a: Text, b: Text, c: Text, d: Text, e: Text| grouped(s, a, b, c, d, e) {
        let (a, b, c, d, e) = choose|a: Text, b: Text, c: Text, d: Text, e: Text|
            grouped(s, a, b, c, d, e);
        assert(s.len() == 36);
        assert forall|i: int| 0 <= i < 36 implies if i == 8 || i == 13 || i == 18 || i == 23 {
            #[trigger] s[i] == '-'
        } else {
            mbid::hex_letter_or_digit(s[i])
        } by {
            if i < 8 {
                assert(s[i] == a[i]);
            } else if 8 < i < 13 {
                assert(s[i] == b[i - 9]);
            } else if 13 < i < 18 {
                assert(s[i] == c[i - 14]);
            } else if 18 < i < 23 {
                assert(s[i] == d[i - 19]);
            } else if 23 < i {
                assert(s[i] == e[i - 24]);
            }
        }
    }
}

proof fn one_more_is_picked<A, B>(s: Seq<A>, x: A, f: spec_fn(A) -> Option<B>)
    ensures
        s.push(x).filter_map(f) == match f(x) {
            Some(y) => s.filter_map(f).push(y),
            None => s.filter_map(f),
        },
{
    reveal(Seq::filter_map);
    assert(s.push(x).drop_last() =~= s);
    assert(s.push(x).filter_map(f) =~= match f(x) {
        Some(y) => s.filter_map(f).push(y),
        None => s.filter_map(f),
    });
}

proof fn one_more_is_distinct(s: Seq<Text>, x: Text)
    ensures
        text::distinct(s.push(x)) == if s.contains(x) {
            text::distinct(s)
        } else {
            text::distinct(s).push(x)
        },
{
    assert(s.push(x).drop_last() =~= s);
    text::distinct_keeps_each_once(s);
}

/// A record loves a recording that is not settled: its score is one, and its id is well formed.
pub open spec fn loves(entry: FeedbackEntryView, settled: Set<Text>, mbid: Text) -> bool {
    &&& entry.score == 1
    &&& entry.recording_mbid == Some(mbid)
    &&& mbid::mbid_shaped(mbid)
    &&& !settled.contains(mbid)
}

/// The candidates of a feedback page follow its records in order: a record more adds the recording
/// that it loves behind the others, where that is not settled and not among them yet, and nothing
/// else.
pub proof fn each_love_is_a_candidate_once(
    feedback: Seq<FeedbackEntryView>,
    entry: FeedbackEntryView,
    settled: Set<Text>,
)
    ensures
        listenbrainz::inbound_wanted(Seq::<FeedbackEntryView>::empty(), settled).len() == 0,
        ({
            let before = listenbrainz::inbound_wanted(feedback, settled);
            let after = listenbrainz::inbound_wanted(feedback.push(entry), settled);
            if entry.recording_mbid matches Some(mbid) && loves(entry, settled, mbid)
                && !before.contains(mbid) {
                after == before.push(entry.recording_mbid->0)
            } else {
                after == before
            }
        }),
{
    let pick = |e: FeedbackEntryView| listenbrainz::loved(e, settled);
    assert(Seq::<FeedbackEntryView>::empty().filter_map(pick) =~= Seq::<Text>::empty());
    one_more_is_picked(feedback, entry, pick);
    text::distinct_keeps_each_once(feedback.filter_map(pick));
    if let Some(mbid) = entry.recording_mbid {
        one_more_is_distinct(feedback.filter_map(pick), mbid);
    }
}

/// A love with a malformed id is told of, each in its place, and nothing else is.
pub proof fn each_malformed_love_is_told_of(
    feedback: Seq<FeedbackEntryView>,
    entry: FeedbackEntryView,
)
    ensures
        listenbrainz::malformed_notes(Seq::<FeedbackEntryView>::empty()).len() == 0,
        ({
            let before = listenbrainz::malformed_notes(feedback);
            let after = listenbrainz::malformed_notes(feedback.push(entry));
            if entry.score == 1 && (entry.recording_mbid matches Some(mbid) && !mbid::mbid_shaped(
                mbid,
            )) {
                after == before.push(NoteView::MalformedMbid { mbid: entry.recording_mbid->0 })
            } else {
                after == before
            }
        }),
{
    let pick = |e: FeedbackEntryView| listenbrainz::malformed(e);
    assert(Seq::<FeedbackEntryView>::empty().filter_map(pick) =~= Seq::<NoteView>::empty());
    one_more_is_picked(feedback, entry, pick);
}

/// The candidates among the starred songs follow their order: a song more adds its recording behind
/// the others, where that is well formed, not settled and not among them yet, and nothing else.
pub proof fn each_star_is_a_candidate_once(starred: Seq<Text>, mbid: Text, settled: Set<Text>)
    ensures
        listenbrainz::outbound_wanted(Seq::<Text>::empty(), settled).len() == 0,
        ({
            let before = listenbrainz::outbound_wanted(starred, settled);
            let after = listenbrainz::outbound_wanted(starred.push(mbid), settled);
            if mbid::mbid_shaped(mbid) && !settled.contains(mbid) && !before.contains(mbid) {
                after == before.push(mbid)
            } else {
                after == before
            }
        }),
{
    let pick = |m: Text| listenbrainz::unloved(m, settled);
    assert(Seq::<Text>::empty().filter_map(pick) =~= Seq::<Text>::empty());
    one_more_is_picked(starred, mbid, pick);
    text::distinct_keeps_each_once(starred.filter_map(pick));
    one_more_is_distinct(starred.filter_map(pick), mbid);
}

/// A Subsonic call succeeded just when its response says `ok`, and the starred songs are those that
/// the response lists.
pub proof fn a_response_says_whether_it_succeeded(envelope: SubsonicEnvelopeView)
    ensures
        envelope.succeeded() <==> envelope.status == "ok"@,
        envelope.starred2 matches Some(mbids) ==> envelope.starred_mbids() == mbids,
        envelope.starred2 is None ==> envelope.starred_mbids().len() == 0,
{
}

/// What `search3` found, with one more result of a kind.
pub open spec fn with_one_more(
    found: SearchResult3View,
    entity: CbEntity,
    item: SearchItemView,
) -> SearchResult3View {
    match entity {
        CbEntity::Artist => SearchResult3View { artist: found.artist.push(item), ..found },
        CbEntity::ReleaseGroup => SearchResult3View { album: found.album.push(item), ..found },
        CbEntity::Recording => SearchResult3View { song: found.song.push(item), ..found },
    }
}

/// A response with what `search3` found.
pub open spec fn finding(found: SearchResult3View) -> SubsonicEnvelopeView {
    SubsonicEnvelopeView { status: "ok"@, starred2: None, search_result3: Some(found) }
}

/// The local items of an entity are the results of its kind with an id, in their order: artists for
/// an artist, albums for a release group and songs for a recording. A result with another
/// MusicBrainz id, in any case, is left out, but for albums, which have the id of a release. A
/// result of another kind changes nothing.
pub proof fn each_result_of_the_kind_is_an_item(
    found: SearchResult3View,
    entity: CbEntity,
    mbid: Text,
    kind: CbEntity,
    item: SearchItemView,
)
    ensures
        ({
            let before = subsonic::local_items(finding(found), entity, mbid);
            let after = subsonic::local_items(
                finding(with_one_more(found, kind, item)),
                entity,
                mbid,
            );
            if kind == entity && item.id.len() > 0 && (entity is ReleaseGroup || item.mbid.len() == 0
                || text::ascii_lower(item.mbid) == text::ascii_lower(mbid)) {
                after == before.push(item)
            } else {
                after == before
            }
        }),
{
    let keep = |i: SearchItemView| subsonic::is_match(i, entity, mbid);
    subsonic::results_of(found, entity).lemma_filter_push(item, keep);
}

/// Without a result there is no local item, and the rest of a response is nothing to go by.
pub proof fn without_results_there_are_no_items(
    envelope: SubsonicEnvelopeView,
    entity: CbEntity,
    mbid: Text,
)
    ensures
        envelope.search_result3 is None ==> subsonic::local_items(envelope, entity, mbid).len() == 0,
        envelope.search_result3 matches Some(found) ==> {
            &&& subsonic::local_items(envelope, entity, mbid) == subsonic::local_items(
                finding(found),
                entity,
                mbid,
            )
            &&& entity is Artist && found.artist.len() == 0 ==> subsonic::local_items(
                envelope,
                entity,
                mbid,
            ).len() == 0
            &&& entity is ReleaseGroup && found.album.len() == 0 ==> subsonic::local_items(
                envelope,
                entity,
                mbid,
            ).len() == 0
            &&& entity is Recording && found.song.len() == 0 ==> subsonic::local_items(
                envelope,
                entity,
                mbid,
            ).len() == 0
        },
{
    if let Some(found) = envelope.search_result3 {
        let keep = |i: SearchItemView| subsonic::is_match(i, entity, mbid);
        if subsonic::results_of(found, entity).len() == 0 {
            assert(subsonic::results_of(found, entity) =~= Seq::<SearchItemView>::empty());
            reveal(Seq::filter);
            assert(subsonic::local_items(envelope, entity, mbid).len() == 0);
        }
    }
}

/// The items that a rule touches follow the local items in order. One more is to be rated just when
/// the rule sets ratings and the item does not hold this one; it is to be favourited just when the
/// rating reaches a threshold that is on, and the item is not favourited.
pub proof fn each_item_missing_the_state_is_touched(
    items: Seq<SearchItemView>,
    item: SearchItemView,
    rating: i64,
    rule: CbRule,
)
    ensures
        ratings::rating_targets(Seq::<SearchItemView>::empty(), rating, rule).len() == 0,
        ratings::star_targets(Seq::<SearchItemView>::empty(), rating, rule).len() == 0,
        ratings::rating_targets(items.push(item), rating, rule) == if rule.sync_rating
            && item.user_rating != Some(rating) {
            ratings::rating_targets(items, rating, rule).push(item)
        } else {
            ratings::rating_targets(items, rating, rule)
        },
        ratings::star_targets(items.push(item), rating, rule) == if 0 < rule.favorite_at <= rating
            && item.starred is None {
            ratings::star_targets(items, rating, rule).push(item)
        } else {
            ratings::star_targets(items, rating, rule)
        },
{
    reveal(Seq::filter);
    let unrated = |i: SearchItemView| i.user_rating != Some(rating);
    let unstarred = |i: SearchItemView| i.starred is None;
    assert(Seq::<SearchItemView>::empty().filter(unrated).len() == 0);
    assert(Seq::<SearchItemView>::empty().filter(unstarred).len() == 0);
    items.lemma_filter_push(item, unrated);
    items.lemma_filter_push(item, unstarred);
}

/// The rating of a review is that of its newest revision, and its own only where that has none.
pub proof fn the_newest_revision_wins(review: CbReviewView)
    ensures
        review.last_revision matches Some(revision) && revision.rating is Some
            ==> review.shown_rating() == (review.last_revision->0).rating,
        !(review.last_revision matches Some(revision) && revision.rating is Some)
            ==> review.shown_rating() == review.rating,
{
}

/// The state of a review is outstanding just when the review is of the wanted kind, shows one to
/// five stars for a well-formed id, and its state is not settled.
pub proof fn a_useful_review_is_outstanding(
    review: CbReviewView,
    entity: CbEntity,
    rule: CbRule,
    settled: Set<Text>,
)
    ensures
        critiquebrainz::outstanding(review, entity, rule, settled) <==> {
            &&& review.entity_type == addresses::kind_name(entity)
            &&& mbid::mbid_shaped(review.entity_id)
            &&& review.shown_rating() matches Some(rating) && 1 <= rating <= 5
                && !settled.contains(
                critiquebrainz::state_key(entity, review.entity_id, rating as int, rule),
            )
        },
{
}

/// A review that is of no use is told of: as one of another kind, or else as one off the scale, or
/// else as one with a malformed id. The notes follow the reviews in order.
pub proof fn each_useless_review_is_told_of(
    reviews: Seq<CbReviewView>,
    review: CbReviewView,
    entity: CbEntity,
)
    ensures
        critiquebrainz::passed_over_notes(Seq::<CbReviewView>::empty(), entity).len() == 0,
        ({
            let before = critiquebrainz::passed_over_notes(reviews, entity);
            let after = critiquebrainz::passed_over_notes(reviews.push(review), entity);
            if review.entity_type != addresses::kind_name(entity) {
                after == before.push(
                    NoteView::UnexpectedEntityType { entity_type: review.entity_type },
                )
            } else if review.shown_rating() matches Some(rating) && !(1 <= rating <= 5) {
                after == before.push(
                    NoteView::RatingOffScale { rating: review.shown_rating()->0 as int },
                )
            } else if review.shown_rating() is Some && !mbid::mbid_shaped(review.entity_id) {
                after == before.push(NoteView::MalformedEntityId { entity_id: review.entity_id })
            } else {
                after == before
            }
        }),
{
    let pick = |r: CbReviewView| critiquebrainz::passed_over(r, entity);
    assert(Seq::<CbReviewView>::empty().filter_map(pick) =~= Seq::<NoteView>::empty());
    one_more_is_picked(reviews, review, pick);
}

/// The parts of a state key, between its colons: the kind, the id, and one part for each action
/// that the rule asks for. The first of these writes the rating behind an `r`, and the second is
/// `f1` where the rating reaches the threshold and `f0` where it does not.
pub proof fn a_state_key_spells_out_the_state(
    entity: CbEntity,
    mbid: Text,
    rating: int,
    rule: CbRule,
)
    requires
        mbid::mbid_shaped(mbid),
    ensures
        ({
            let parts = addresses::cut(
                critiquebrainz::state_key(entity, mbid, rating, rule),
                ':',
            );
            let last = if rule.favorite_at <= 0 {
                Seq::empty()
            } else if rating >= rule.favorite_at {
                "f1"@
            } else {
                "f0"@
            };
            &&& parts[0] == addresses::kind_name(entity)
            &&& parts[1] == mbid
            &&& parts.last() == last
            &&& rule.sync_rating ==> parts.len() == 4 && parts[2] == seq!['r'] + text::decimal(rating)
            &&& !rule.sync_rating ==> parts.len() == 3
        }),
{
    reveal_strlit("f1");
    reveal_strlit("f0");
    let key = critiquebrainz::state_key(entity, mbid, rating, rule);
    let name = entity.name();
    let last = critiquebrainz::favourite_part(rating, rule);
    critiquebrainz::names_are_plain_and_differ(entity, entity);
    critiquebrainz::decimal_has_no_colon(rating);
    assert(!mbid.contains(':')) by {
        if mbid.contains(':') {
            let i = choose|i: int| 0 <= i < mbid.len() && mbid[i] == ':';
            assert(mbid[i] == ':');
        }
    }
    assert(!last.contains(':'));
    addresses::one_piece(name, ':');
    addresses::one_piece(mbid, ':');
    addresses::one_piece(last, ':');
    if rule.sync_rating {
        let rated = seq!['r'] + text::decimal(rating);
        addresses::one_piece(rated, ':');
        addresses::pieces_add_up(rated, last, ':');
        addresses::pieces_add_up(mbid, rated.push(':') + last, ':');
        addresses::pieces_add_up(name, mbid.push(':') + (rated.push(':') + last), ':');
        assert(key =~= name.push(':') + (mbid.push(':') + (rated.push(':') + last)));
        assert(addresses::cut(key, ':') =~= seq![name, mbid, rated, last]);
    } else {
        addresses::pieces_add_up(mbid, last, ':');
        addresses::pieces_add_up(name, mbid.push(':') + last, ':');
        assert(key =~= name.push(':') + (mbid.push(':') + last));
        assert(addresses::cut(key, ':') =~= seq![name, mbid, last]);
    }
    if rule.favorite_at > 0 {
        if rating >= rule.favorite_at {
            assert(last =~= "f1"@);
        } else {
            assert(last =~= "f0"@);
        }
    }
}

/// A rule favourites from its threshold on: a rating that reaches it and every higher one, no lower
/// one, and none at all where the threshold is off.
pub proof fn a_rule_favourites_from_its_threshold_on(rule: CbRule, rating: int)
    ensures
        rule.favorite_at > 0 && rating >= rule.favorite_at ==> rule.favourites(rating),
        rating < rule.favorite_at ==> !rule.favourites(rating),
        rule.favorite_at <= 0 ==> !rule.favourites(rating),
{
}

/// Behind a page of ratings the list goes on at the row behind its last one, just when the page had
/// rows and there are more than these and the ones before them.
pub proof fn the_list_of_ratings_goes_on_behind_the_page(
    offset: int,
    page_len: int,
    count: int,
    next: int,
)
    ensures
        critiquebrainz::next_offset(offset, page_len, count) == Some(next) <==> next == offset
            + page_len && page_len > 0 && next < count,
{
}

/// Behind a page of loves the list goes on at the record behind its last one, and by one at least.
/// It does so just when the total is not reached or, where no total is told, when the page was a
/// full one of a thousand and the offset fits in 64 bits.
pub proof fn the_list_of_loves_goes_on_behind_the_page(end: PageEnd, offset: int)
    ensures
        end.count >= 1 ==> end.next_offset(offset) == offset + end.count,
        end.count < 1 ==> end.next_offset(offset) == offset + 1,
        end.total_count > 0 ==> (end.goes_on(offset) <==> end.next_offset(offset) < end.total_count),
        end.total_count <= 0 ==> (end.goes_on(offset) <==> end.count >= 1000 && end.next_offset(
            offset,
        ) <= i64::MAX),
{
}

/// The recordings asked for are paired with the answers of the matcher, one by one, as far as it
/// answered.
pub proof fn each_recording_has_its_answer(mbids: Seq<Text>, results: Seq<Option<TrackView>>)
    ensures
        ({
            let pairs = inbound::paired(mbids, results);
            &&& pairs.len() <= mbids.len()
            &&& pairs.len() <= results.len()
            &&& pairs.len() == mbids.len() || pairs.len() == results.len()
            &&& forall|i: int|
                0 <= i < pairs.len() ==> (#[trigger] pairs[i]).0 == mbids[i] && pairs[i].1
                    == results[i]
        }),
{
}

/// What an answer of the matcher adds: a local song that is starred adds its recording to those
/// that are settled; one that is not adds the song to those to star or, in a dry run, its title to
/// those that are told of. A recording without a local song, or with one without an id, adds
/// nothing.
pub proof fn each_answer_adds_what_it_says(
    pairs: Seq<(Text, Option<TrackView>)>,
    mbid: Text,
    found: Option<TrackView>,
)
    ensures
        inbound::all_already_starred(Seq::<(Text, Option<TrackView>)>::empty()).len() == 0,
        inbound::all_to_star(false, Seq::<(Text, Option<TrackView>)>::empty()).len() == 0,
        inbound::all_star_previews(true, Seq::<(Text, Option<TrackView>)>::empty()).len() == 0,
        inbound::all_to_star(true, pairs).len() == 0,
        inbound::all_star_previews(false, pairs).len() == 0,
        ({
            let more = pairs.push((mbid, found));
            let known = found matches Some(track) && track.id.len() > 0;
            let settled = inbound::all_already_starred(pairs);
            let songs = inbound::all_to_star(false, pairs);
            let told = inbound::all_star_previews(true, pairs);
            &&& inbound::all_already_starred(more) == if known && (found->0).starred {
                settled.push(mbid)
            } else {
                settled
            }
            &&& inbound::all_to_star(false, more) == if known && !(found->0).starred {
                songs.push(StarTargetView { id: (found->0).id, mbid })
            } else {
                songs
            }
            &&& inbound::all_star_previews(true, more) == if known && !(found->0).starred {
                told.push(NoteView::WouldStar { title: (found->0).title })
            } else {
                told
            }
        }),
{
    let none = Seq::<(Text, Option<TrackView>)>::empty();
    let done = |p: (Text, Option<TrackView>)| inbound::already_starred(p);
    let song = |p: (Text, Option<TrackView>)| inbound::to_star(p);
    let told = |p: (Text, Option<TrackView>)| inbound::star_preview(p);
    assert(none.filter_map(done) =~= Seq::<Text>::empty());
    assert(none.filter_map(song) =~= Seq::<StarTargetView>::empty());
    assert(none.filter_map(told) =~= Seq::<NoteView>::empty());
    one_more_is_picked(pairs, (mbid, found), done);
    one_more_is_picked(pairs, (mbid, found), song);
    one_more_is_picked(pairs, (mbid, found), told);
}

/// Songs are cut to the room there is from the first on: none is left out while there is room.
pub proof fn songs_are_cut_to_the_room(songs: Seq<StarTargetView>, room: int)
    requires
        0 <= room,
    ensures
        inbound::up_to(songs, room).is_prefix_of(songs),
        inbound::up_to(songs, room).len() == if songs.len() <= room {
            songs.len() as int
        } else {
            room
        },
{
    assert(inbound::up_to(songs, room) =~= songs.take(inbound::up_to(songs, room).len() as int));
}

/// A star call is for the songs in store, and settles their recordings, song by song.
pub proof fn each_song_has_its_id_and_recording(songs: Seq<StarTargetView>)
    ensures
        inbound::target_ids(songs).len() == songs.len(),
        inbound::target_mbids(songs).len() == songs.len(),
        forall|i: int|
            0 <= i < songs.len() ==> (#[trigger] inbound::target_ids(songs)[i]) == songs[i].id,
        forall|i: int|
            0 <= i < songs.len() ==> (#[trigger] inbound::target_mbids(songs)[i]) == songs[i].mbid,
{
}

/// What is dealt with is recorded for the user, each thing under a key of its own and in order:
/// recordings behind `synced:` and the user, states behind `cbsynced:` and the user. A dry run
/// records nothing.
pub proof fn each_thing_is_recorded_under_its_key(nd_username: Text, items: Seq<Text>)
    ensures
        settled::recording(true, settled::synced_prefix(nd_username), items).len() == 0,
        settled::recording(true, settled::cbsynced_prefix(nd_username), items).len() == 0,
        settled::recording(false, settled::synced_prefix(nd_username), items).len() == items.len(),
        settled::recording(false, settled::cbsynced_prefix(nd_username), items).len()
            == items.len(),
        forall|i: int|
            0 <= i < items.len() ==> (#[trigger] settled::recording(
                false,
                settled::synced_prefix(nd_username),
                items,
            )[i]) == "synced:"@ + nd_username + seq![':'] + items[i],
        forall|i: int|
            0 <= i < items.len() ==> (#[trigger] settled::recording(
                false,
                settled::cbsynced_prefix(nd_username),
                items,
            )[i]) == "cbsynced:"@ + nd_username + seq![':'] + items[i],
{
    assert(settled::synced_prefix(nd_username) =~= "synced:"@ + nd_username + seq![':']);
    assert(settled::cbsynced_prefix(nd_username) =~= "cbsynced:"@ + nd_username + seq![':']);
}

} // verus!
