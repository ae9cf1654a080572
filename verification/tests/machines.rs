use navidrome_listenbrainz_plugin::critique::Critique;
use navidrome_listenbrainz_plugin::critiquebrainz::{
    resolve_cb_user_id, reviews_request, CbEntity, CbReview, CbReviewPage, CbRule,
};
use navidrome_listenbrainz_plugin::http::{Method, Stop};
use navidrome_listenbrainz_plugin::inbound::{Inbound, Target};
use navidrome_listenbrainz_plugin::listenbrainz::{FeedbackEntry, FeedbackPage};
use navidrome_listenbrainz_plugin::outbound::Outbound;
use navidrome_listenbrainz_plugin::protocol::{
    cb_user_id, Action, CbUser, CbUserEnvelope, Event, Note, Reply, Track,
};
use navidrome_listenbrainz_plugin::ratings::{Rater, Ratings};
use navidrome_listenbrainz_plugin::settings::{Settings, UserLink};
use navidrome_listenbrainz_plugin::settled::TextSet;
use navidrome_listenbrainz_plugin::subsonic::{SubsonicEnvelope, SubsonicResponse};
use navidrome_listenbrainz_plugin::user::sync_user;

const A: &str = "63f689ce-a3bb-4c6c-b468-50a21e9c77a8";
const B: &str = "958b7ebf-163c-4d1b-a9bc-de394a2880be";

fn link() -> UserLink {
    UserLink {
        nd_username: "ann".to_string(),
        token: "t".to_string(),
        cb_username: None,
    }
}

fn settings() -> Settings {
    Settings {
        links: vec![],
        sync_inbound: true,
        sync_outbound: true,
        dry_run: false,
        batch_size: 10,
        request_delay_ms: 1000,
        max_per_run: 500,
        cb_rules: vec![(CbEntity::Artist, CbRule { sync_rating: true, favorite_at: 0 })],
        user_agent: "agent".to_string(),
    }
}

fn loves(mbids: &[&str], count: i64, total_count: i64) -> Event {
    Event::Feedback(
        FeedbackPage {
            count,
            total_count,
            feedback: mbids
                .iter()
                .map(|mbid| FeedbackEntry { recording_mbid: Some(mbid.to_string()), score: 1 })
                .collect(),
        },
        false,
    )
}

#[test]
fn a_critiquebrainz_user_needs_an_id() {
    let reply = |id: Option<&str>| CbUserEnvelope {
        user: id.map(|id| CbUser { id: id.to_string() }),
    };
    assert_eq!(cb_user_id(reply(Some("u"))), Some("u".to_string()));
    assert_eq!(cb_user_id(reply(Some(""))), None);
    assert_eq!(cb_user_id(reply(None)), None);
}

#[test]
fn critiquebrainz_is_read_without_a_token() {
    let user = resolve_cb_user_id("a b", &settings());
    assert_eq!(user.url, "https://critiquebrainz.org/ws/1/user/a%20b");
    assert_eq!(user.method, Method::Get);
    assert!(user.headers.iter().all(|(name, _)| name != "Authorization"));
    assert!(user.body.is_empty());
    let page = reviews_request("u 1", CbEntity::ReleaseGroup, 50, &settings());
    assert_eq!(
        page.url,
        "https://critiquebrainz.org/ws/1/review/?user_id=u%201&entity_type=release_group&review_type=rating&limit=50&offset=50"
    );
    assert!(page.headers.iter().all(|(name, _)| name != "Authorization"));
}

#[test]
fn an_account_without_an_id_ends_the_critiquebrainz_half() {
    let settings = settings();
    let link = link();
    let (sync, output) = Critique::start(&Some("lb".to_string()), &settings, &link);
    assert!(matches!(output.action, Some(Action::Fetch { reply: Reply::CbUser, .. })));
    let (sync, output) =
        sync.step(Event::CbUser(CbUserEnvelope { user: None }, false), &settings, &link);
    assert!(sync.is_finished() && !sync.is_halted());
    assert!(output.action.is_none());
    assert_eq!(output.notes, vec![Note::NoCbUserId { username: "lb".to_string() }]);
    assert_eq!(sync.left(), 500);
}

#[test]
fn a_failed_listing_counts_as_nothing_settled() {
    let settings = settings();
    let link = link();
    let target = Target { settings: &settings, link: &link, lb_username: "lb" };
    let (sync, output) = sync_user(&settings, &link, "lb", 500);
    assert_eq!(output.action, Some(Action::ListKeys { prefix: "synced:ann:".to_string() }));
    let (sync, output) = sync.step(Event::Failed(Stop::Fatal("store".to_string())), &target);
    assert!(matches!(output.action, Some(Action::Fetch { reply: Reply::Feedback, .. })));
    assert!(!sync.is_finished());
}

#[test]
fn a_failed_page_ends_the_inbound_half_and_begins_the_other() {
    let settings = settings();
    let link = link();
    let target = Target { settings: &settings, link: &link, lb_username: "lb" };
    let (sync, _) = sync_user(&settings, &link, "lb", 500);
    let (sync, _) = sync.step(Event::Keys(vec![]), &target);
    let (sync, output) = sync.step(Event::Failed(Stop::Fatal("HTTP 404".to_string())), &target);
    assert_eq!(output.action, Some(Action::Query { uri: "getStarred2?u=ann".to_string() }));
    let (sync, output) = sync.step(Event::Failed(Stop::Fatal("call".to_string())), &target);
    assert!(sync.is_finished() && !sync.is_halted());
    assert!(output.action.is_none());

    let (sync, _) = sync_user(&settings, &link, "lb", 500);
    let (sync, _) = sync.step(Event::Keys(vec![]), &target);
    let (sync, output) = sync.step(Event::Failed(Stop::RateLimited), &target);
    assert!(sync.is_finished() && sync.is_halted());
    assert!(output.action.is_none());
}

#[test]
fn an_inbound_walk_ends_where_the_offset_would_not_fit() {
    let settings = settings();
    let link = link();
    let target = Target { settings: &settings, link: &link, lb_username: "lb" };
    let (sync, _) = Inbound::start(TextSet::new(), 5, &target);
    let (sync, _) = sync.step(loves(&["x"], i64::MAX - 5, 0), &target);
    assert!(!sync.is_finished());
    let (sync, output) = sync.step(loves(&["x"], 1000, 0), &target);
    assert!(sync.is_finished());
    assert!(output.action.is_none());
}

#[test]
fn an_empty_page_or_the_total_ends_an_inbound_walk() {
    let settings = settings();
    let link = link();
    let target = Target { settings: &settings, link: &link, lb_username: "lb" };
    let (sync, _) = Inbound::start(TextSet::new(), 5, &target);
    assert!(sync.step(loves(&[], 1000, 5000), &target).0.is_finished());
    let (sync, _) = Inbound::start(TextSet::new(), 5, &target);
    assert!(!sync.step(loves(&["x"], 999, 5000), &target).0.is_finished());
    let (sync, _) = Inbound::start(TextSet::new(), 5, &target);
    let (_, output) = sync.step(loves(&["x"], 500, 800), &target);
    assert!(
        matches!(output.action, Some(Action::Fetch { request, .. }) if request.url.ends_with("&offset=500"))
    );
    // Without a total, only a full page has one behind it.
    let (sync, _) = Inbound::start(TextSet::new(), 5, &target);
    assert!(sync.step(loves(&["x"], 999, 0), &target).0.is_finished());
    let (sync, _) = Inbound::start(TextSet::new(), 5, &target);
    assert!(sync.step(loves(&["x"], 1000, 1000), &target).0.is_finished());
    let (sync, _) = Inbound::start(TextSet::new(), 5, &target);
    assert!(!sync.step(loves(&["x"], 1000, 1001), &target).0.is_finished());
    let (sync, _) = Inbound::start(TextSet::new(), 5, &target);
    assert!(!sync.step(loves(&["x"], 1000, 0), &target).0.is_finished());
}

#[test]
fn without_a_budget_nothing_is_asked_for() {
    let settings = settings();
    let link = link();
    let target = Target { settings: &settings, link: &link, lb_username: "lb" };
    let (sync, output) = Inbound::start(TextSet::new(), 0, &target);
    assert!(sync.is_finished() && output.action.is_none());
    let rater = Rater { settings: &settings, link: &link, user_id: "u" };
    let rule = CbRule { sync_rating: true, favorite_at: 0 };
    let (sync, output) = Ratings::start(CbEntity::Artist, rule, TextSet::new(), 0, &rater);
    assert!(sync.is_finished() && output.action.is_none());
    let (sync, output) = Outbound::start(TextSet::new(), 0, &target);
    assert!(!sync.is_finished() && output.action.is_some());
}

#[test]
fn a_track_without_an_id_is_no_match() {
    let settings = settings();
    let link = link();
    let target = Target { settings: &settings, link: &link, lb_username: "lb" };
    let (sync, _) = Inbound::start(TextSet::new(), 5, &target);
    let (sync, output) = sync.step(loves(&[A, B], 2, 2), &target);
    assert_eq!(
        output.action,
        Some(Action::MatchSongs {
            username: "ann".to_string(),
            mbids: vec![A.to_string(), B.to_string()],
        })
    );
    let blank = Track { id: String::new(), title: "x".to_string(), starred: true };
    let (sync, output) = sync.step(Event::Matches(vec![Some(blank), None]), &target);
    assert!(output.persist.is_empty() && output.action.is_none());
    let (settled, left) = sync.into_result();
    assert!(!settled.contains(A) && !settled.contains(B));
    assert_eq!(left, 5);
}

#[test]
fn a_short_answer_of_the_matcher_leaves_the_rest_unmatched() {
    let settings = settings();
    let link = link();
    let target = Target { settings: &settings, link: &link, lb_username: "lb" };
    let (sync, _) = Inbound::start(TextSet::new(), 5, &target);
    let (sync, _) = sync.step(loves(&[A, B], 2, 2), &target);
    let track = Track { id: "s".to_string(), title: "x".to_string(), starred: true };
    let (sync, output) = sync.step(Event::Matches(vec![Some(track)]), &target);
    assert_eq!(output.persist, vec![format!("synced:ann:{A}")]);
    let (settled, _) = sync.into_result();
    assert!(settled.contains(A) && !settled.contains(B));
}

#[test]
fn the_budget_cuts_the_songs_and_not_the_loves() {
    let settings = settings();
    let link = link();
    let target = Target { settings: &settings, link: &link, lb_username: "lb" };
    let (sync, _) = Inbound::start(TextSet::new(), 1, &target);
    let (sync, output) = sync.step(loves(&[A, B], 2, 2), &target);
    assert_eq!(
        output.action,
        Some(Action::MatchSongs {
            username: "ann".to_string(),
            mbids: vec![A.to_string(), B.to_string()],
        })
    );
    let track = |id: &str| Track { id: id.to_string(), title: "x".to_string(), starred: false };
    let (sync, output) =
        sync.step(Event::Matches(vec![Some(track("a")), Some(track("b"))]), &target);
    assert_eq!(output.action, Some(Action::Update { uri: "star?id=a&u=ann".to_string() }));
    let ok = Event::Envelope(SubsonicEnvelope {
        response: SubsonicResponse {
            status: "ok".to_string(),
            starred2: None,
            search_result3: None,
        },
    });
    let (sync, output) = sync.step(ok, &target);
    assert!(sync.is_finished() && output.action.is_none());
    let (settled, left) = sync.into_result();
    assert!(settled.contains(A) && !settled.contains(B));
    assert_eq!(left, 0);
}

#[test]
fn a_failed_lookup_is_an_unmatched_rating() {
    let settings = settings();
    let link = link();
    let rater = Rater { settings: &settings, link: &link, user_id: "u" };
    let rule = CbRule { sync_rating: true, favorite_at: 0 };
    let (sync, _) = Ratings::start(CbEntity::Artist, rule, TextSet::new(), 3, &rater);
    let page = CbReviewPage {
        count: 1,
        reviews: vec![CbReview {
            entity_id: A.to_string(),
            entity_type: "artist".to_string(),
            rating: Some(3),
            last_revision: None,
        }],
    };
    let (sync, output) = sync.step(Event::Reviews(page, false), &rater);
    assert!(matches!(output.action, Some(Action::Query { .. })));
    let (sync, output) = sync.step(Event::Failed(Stop::Fatal("search".to_string())), &rater);
    assert!(sync.is_finished());
    assert!(output.persist.is_empty());
    assert_eq!(output.notes.len(), 1);
    let (settled, changes) = sync.into_result();
    assert_eq!(changes, 0);
    assert!(!settled.contains(&format!("artist:{A}:r3:")));
}
