//! What a view says of a value: all that the value holds, each thing under its own name.

use vstd::prelude::*;
use crate::critiquebrainz::{CbReview, CbReviewPage};
use crate::http;
use crate::http::{HttpRequest, Status, Stop, StopView};
use crate::inbound;
use crate::inbound::{StarTarget, Target};
use crate::listenbrainz;
use crate::listenbrainz::{FeedbackEntry, FeedbackPage};
use crate::protocol::{
    Action,
    ActionView,
    Event,
    EventView,
    Note,
    NoteView,
    Output,
    Track,
};
use crate::ratings::Rater;
use crate::settings;
use crate::settings::{LinkConfig, Settings, UserLink};
use crate::subsonic;
use crate::subsonic::{SearchItem, SearchResult3, StarredSong, SubsonicEnvelope};
use crate::text;
use crate::text::Text;

verus! {

/// An optional text is that of the string.
pub proof fn an_optional_string_holds_its_text(s: Option<String>)
    ensures
        s is None <==> settings::opt_text(s) is None,
        s matches Some(string) ==> settings::opt_text(s) == Some(string@),
{
}

/// The texts of strings, one by one.
pub proof fn strings_hold_their_texts(strings: Seq<String>)
    ensures
        text::texts(strings).len() == strings.len(),
        forall|i: int|
            0 <= i < strings.len() ==> (#[trigger] text::texts(strings)[i]) == strings[i]@,
{
}

/// A link and an entry of the configuration, value by value.
pub proof fn links_say_their_values(link: UserLink, entry: LinkConfig)
    ensures
        link@.nd_username == link.nd_username@,
        link@.token == link.token@,
        link@.cb_username is None <==> link.cb_username is None,
        link.cb_username matches Some(username) ==> link@.cb_username == Some(username@),
        entry@.navidrome_username == entry.navidrome_username@,
        entry@.listenbrainz_token == entry.listenbrainz_token@,
        entry@.critiquebrainz_username == entry.critiquebrainz_username@,
{
}

/// The settings, value by value, and what a sync is for.
pub proof fn settings_say_their_values(config: Settings, target: Target<'_>, rater: Rater<'_>)
    ensures
        config@.links.len() == config.links@.len(),
        forall|i: int|
            0 <= i < config.links@.len() ==> (#[trigger] config@.links[i]) == config.links@[i]@,
        config@.sync_inbound == config.sync_inbound,
        config@.sync_outbound == config.sync_outbound,
        config@.dry_run == config.dry_run,
        config@.batch_size == config.batch_size,
        config@.request_delay_ms == config.request_delay_ms,
        config@.max_per_run == config.max_per_run,
        config@.cb_rules == config.cb_rules@,
        config@.user_agent == config.user_agent@,
        target@.settings == target.settings@,
        target@.link == target.link@,
        target@.lb_username == target.lb_username@,
        rater@.settings == rater.settings@,
        rater@.link == rater.link@,
        rater@.user_id == rater.user_id@,
{
}

/// A feedback page and its records, value by value.
pub proof fn a_feedback_page_says_its_records(page: FeedbackPage, entry: FeedbackEntry)
    ensures
        page@.count == page.count,
        page@.total_count == page.total_count,
        page@.feedback.len() == page.feedback@.len(),
        forall|i: int|
            0 <= i < page.feedback@.len() ==> (#[trigger] page@.feedback[i]) == page.feedback@[i]@,
        entry@.score == entry.score,
        entry.recording_mbid is None <==> entry@.recording_mbid is None,
        entry.recording_mbid matches Some(mbid) ==> entry@.recording_mbid == Some(mbid@),
{
}

/// A page of reviews and the reviews, value by value.
pub proof fn a_page_of_reviews_says_its_reviews(page: CbReviewPage, review: CbReview)
    ensures
        page@.count == page.count,
        page@.reviews.len() == page.reviews@.len(),
        forall|i: int|
            0 <= i < page.reviews@.len() ==> (#[trigger] page@.reviews[i]) == page.reviews@[i]@,
        review@.entity_id == review.entity_id@,
        review@.entity_type == review.entity_type@,
        review@.rating == review.rating,
        review@.last_revision == review.last_revision,
{
}

/// A Subsonic response: its status, the recordings of the starred songs, and what was found.
pub proof fn a_response_says_what_it_lists(
    envelope: SubsonicEnvelope,
    found: SearchResult3,
    item: SearchItem,
)
    ensures
        envelope@.status == envelope.response.status@,
        envelope.response.starred2 is None <==> envelope@.starred2 is None,
        envelope.response.starred2 matches Some(starred) ==> {
            let mbids = envelope@.starred2->0;
            &&& mbids.len() == starred.song@.len()
            &&& forall|i: int|
                0 <= i < mbids.len() ==> (#[trigger] mbids[i]) == starred.song@[i].music_brainz_id@
        },
        envelope.response.search_result3 is None <==> envelope@.search_result3 is None,
        envelope.response.search_result3 matches Some(results) ==> envelope@.search_result3 == Some(
            results@,
        ),
        found@.artist.len() == found.artist@.len(),
        found@.album.len() == found.album@.len(),
        found@.song.len() == found.song@.len(),
        forall|i: int|
            0 <= i < found.artist@.len() ==> (#[trigger] found@.artist[i]) == found.artist@[i]@,
        forall|i: int|
            0 <= i < found.album@.len() ==> (#[trigger] found@.album[i]) == found.album@[i]@,
        forall|i: int| 0 <= i < found.song@.len() ==> (#[trigger] found@.song[i]) == found.song@[i]@,
        item@.id == item.id@,
        item@.mbid == item.mbid@,
        item@.user_rating == item.user_rating,
        item.starred is None <==> item@.starred is None,
        item.starred matches Some(when) ==> item@.starred == Some(when@),
{
}

/// A local song and a song to star, value by value.
pub proof fn songs_say_their_values(track: Track, song: StarTarget)
    ensures
        track@.id == track.id@,
        track@.title == track.title@,
        track@.starred == track.starred,
        song@.id == song.id@,
        song@.mbid == song.mbid@,
{
}

/// An answer says what it brings: a token check the name that a valid token gives, a user lookup
/// the id, and every other answer what it holds.
pub proof fn an_answer_says_what_it_brings(event: Event)
    ensures
        event matches Event::Token(reply, exhausted) ==> event@ == EventView::Token(
            listenbrainz::validated_name(reply.valid, settings::opt_text(reply.user_name)),
            exhausted,
        ),
        event matches Event::CbUser(reply, exhausted) ==> event@ == EventView::CbUser(
            crate::protocol::user_id_of(reply),
            exhausted,
        ),
        event matches Event::Feedback(page, exhausted) ==> event@ == EventView::Feedback(
            page@,
            exhausted,
        ),
        event matches Event::Reviews(page, exhausted) ==> event@ == EventView::Reviews(
            page@,
            exhausted,
        ),
        event matches Event::Love(status, exhausted) ==> event@ == EventView::Love(
            status,
            exhausted,
        ),
        event matches Event::Keys(keys) ==> event@ == EventView::Keys(text::texts(keys@)),
        event matches Event::Matches(results) ==> event@ is Matches && {
            let found = event@->Matches_0;
            &&& found.len() == results@.len()
            &&& forall|i: int|
                0 <= i < found.len() ==> {
                    &&& (#[trigger] found[i]) is None <==> results@[i] is None
                    &&& results@[i] matches Some(track) ==> found[i] == Some(track@)
                }
        },
        event matches Event::Envelope(envelope) ==> event@ == EventView::Envelope(envelope@),
        event matches Event::Malformed(exhausted) ==> event@ == EventView::Malformed(exhausted),
        event matches Event::Failed(stop) ==> event@ == EventView::Failed(stop@),
{
}

/// A stop, and the outcome of a read or a write, as they are.
pub proof fn an_outcome_says_what_it_is(
    stop: Stop,
    read: Result<(String, bool), Stop>,
    write: Result<(Status, bool), String>,
)
    ensures
        stop is RateLimited <==> stop@ is RateLimited,
        stop matches Stop::Fatal(message) ==> stop@ == StopView::Fatal(message@),
        read matches Ok((body, exhausted)) ==> http::read_result(read) == Ok::<
            (Text, bool),
            StopView,
        >((body@, exhausted)),
        read matches Err(reason) ==> http::read_result(read) == Err::<(Text, bool), StopView>(
            reason@,
        ),
        write matches Ok(outcome) ==> http::write_result(write) == Ok::<(Status, bool), Text>(
            outcome,
        ),
        write matches Err(message) ==> http::write_result(write) == Err::<(Status, bool), Text>(
            message@,
        ),
{
}

/// A request, part by part.
pub proof fn a_request_says_its_parts(request: HttpRequest)
    ensures
        request@.method == request.method,
        request@.url == request.url@,
        request@.body == request.body@,
        request@.timeout_ms == request.timeout_ms,
        request@.gap_ms == request.gap_ms,
        request@.headers.len() == request.headers@.len(),
        forall|i: int|
            0 <= i < request.headers@.len() ==> (#[trigger] request@.headers[i]).0
                == request.headers@[i].0@ && request@.headers[i].1 == request.headers@[i].1@,
{
}

/// An action asks for what it holds.
pub proof fn an_action_asks_for_what_it_holds(action: Action)
    ensures
        action matches Action::Fetch { request, reply } ==> action@ == (ActionView::Fetch {
            request: request@,
            reply,
        }),
        action matches Action::Love { request } ==> action@ == (ActionView::Love {
            request: request@,
        }),
        action matches Action::ListKeys { prefix } ==> action@ == (ActionView::ListKeys {
            prefix: prefix@,
        }),
        action matches Action::MatchSongs { username, mbids } ==> action@ == (
        ActionView::MatchSongs { username: username@, mbids: text::texts(mbids@) }),
        action matches Action::Query { uri } ==> action@ == (ActionView::Query { uri: uri@ }),
        action matches Action::Update { uri } ==> action@ == (ActionView::Update { uri: uri@ }),
{
}

/// An output gives what it holds: each key and each note in its place, and the action where there
/// is one.
pub proof fn an_output_gives_what_it_holds(output: Output)
    ensures
        output@.persist == text::texts(output.persist@),
        output@.notes.len() == output.notes@.len(),
        forall|i: int|
            0 <= i < output.notes@.len() ==> (#[trigger] output@.notes[i]) == output.notes@[i]@,
        output.action is None <==> output@.action is None,
        output.action matches Some(action) ==> output@.action == Some(action@),
{
}

/// A note tells what it holds.
pub proof fn a_note_tells_what_it_holds(note: Note)
    ensures
        note matches Note::WouldStar { title } ==> note@ == (NoteView::WouldStar { title: title@ }),
        note matches Note::WouldLove { mbid } ==> note@ == (NoteView::WouldLove { mbid: mbid@ }),
        note matches Note::WouldRate { entity, mbid, rating, items } ==> note@ == (
        NoteView::WouldRate { entity, mbid: mbid@, rating: rating as int, items: items as int }),
        note matches Note::WouldFavourite { entity, mbid, items } ==> note@ == (
        NoteView::WouldFavourite { entity, mbid: mbid@, items: items as int }),
        note matches Note::Account { username, user_id, nd_username } ==> note@ == (
        NoteView::Account {
            username: username@,
            user_id: user_id@,
            nd_username: nd_username@,
        }),
        note matches Note::Tally { entity, nd_username, examined, changes, unmatched } ==> note@ == (
        NoteView::Tally {
            entity,
            nd_username: nd_username@,
            examined: examined as int,
            changes: changes as int,
            unmatched: unmatched as int,
        }),
        note is IncompleteLink <==> note@ is IncompleteLink,
        note matches Note::ThresholdOffScale { entity } ==> note@ == (NoteView::ThresholdOffScale {
            entity,
        }),
        note matches Note::InvalidToken { nd_username } ==> note@ == (NoteView::InvalidToken {
            nd_username: nd_username@,
        }),
        note matches Note::NoCbUsername { nd_username } ==> note@ == (NoteView::NoCbUsername {
            nd_username: nd_username@,
        }),
        note matches Note::NoCbUserId { username } ==> note@ == (NoteView::NoCbUserId {
            username: username@,
        }),
        note matches Note::MalformedMbid { mbid } ==> note@ == (NoteView::MalformedMbid {
            mbid: mbid@,
        }),
        note matches Note::UnexpectedEntityType { entity_type } ==> note@ == (
        NoteView::UnexpectedEntityType { entity_type: entity_type@ }),
        note matches Note::RatingOffScale { rating } ==> note@ == (NoteView::RatingOffScale {
            rating: rating as int,
        }),
        note matches Note::MalformedEntityId { entity_id } ==> note@ == (
        NoteView::MalformedEntityId { entity_id: entity_id@ }),
        note matches Note::LimitReached { entity, budget } ==> note@ == (NoteView::LimitReached {
            entity,
            budget: budget as int,
        }),
        note matches Note::WindowExhausted { nd_username } ==> note@ == (
        NoteView::WindowExhausted { nd_username: nd_username@ }),
        note matches Note::OutboundPausing { nd_username } ==> note@ == (
        NoteView::OutboundPausing { nd_username: nd_username@ }),
        note matches Note::PassStopped { nd_username } ==> note@ == (NoteView::PassStopped {
            nd_username: nd_username@,
        }),
        note matches Note::StateApplied { entity, mbid, state, rated, starred } ==> note@ == (
        NoteView::StateApplied {
            entity,
            mbid: mbid@,
            state: state@,
            rated: rated as int,
            starred: starred as int,
        }),
{
}

/// Lists of values, one by one: local items and references to them, starred songs, links and the
/// entries that they come from, songs to star, and headers.
pub proof fn lists_say_each_value(
    items: Seq<SearchItem>,
    refs: Seq<&SearchItem>,
    songs: Seq<StarredSong>,
    links: Seq<UserLink>,
    entries: Seq<LinkConfig>,
    targets: Seq<StarTarget>,
    headers: Seq<(String, String)>,
)
    ensures
        subsonic::item_views(items).len() == items.len(),
        forall|i: int|
            0 <= i < items.len() ==> (#[trigger] subsonic::item_views(items)[i]) == items[i]@,
        subsonic::item_ref_views(refs).len() == refs.len(),
        forall|i: int|
            0 <= i < refs.len() ==> (#[trigger] subsonic::item_ref_views(refs)[i]) == refs[i]@,
        subsonic::song_mbids(songs).len() == songs.len(),
        forall|i: int|
            0 <= i < songs.len() ==> (#[trigger] subsonic::song_mbids(songs)[i])
                == songs[i].music_brainz_id@,
        settings::link_views(links).len() == links.len(),
        forall|i: int|
            0 <= i < links.len() ==> (#[trigger] settings::link_views(links)[i]) == links[i]@,
        settings::link_config_views(entries).len() == entries.len(),
        forall|i: int|
            0 <= i < entries.len() ==> (#[trigger] settings::link_config_views(entries)[i])
                == entries[i]@,
        inbound::target_views(targets).len() == targets.len(),
        forall|i: int|
            0 <= i < targets.len() ==> (#[trigger] inbound::target_views(targets)[i])
                == targets[i]@,
        http::header_views(headers).len() == headers.len(),
        forall|i: int|
            0 <= i < headers.len() ==> (#[trigger] http::header_views(headers)[i]).0
                == headers[i].0@ && http::header_views(headers)[i].1 == headers[i].1@,
{
}

} // verus!
