use navidrome_listenbrainz_plugin::http::Method;
use navidrome_listenbrainz_plugin::listenbrainz::{
    feedback_request, inbound_candidates, lb_username, love_request, outbound_candidates,
    resolve_lb_username, FeedbackEntry, FeedbackPage, TokenValidation,
};
use navidrome_listenbrainz_plugin::settings::Settings;
use navidrome_listenbrainz_plugin::settled::TextSet;
use navidrome_listenbrainz_plugin::subsonic::StarredSong;

const A: &str = "63f689ce-a3bb-4c6c-b468-50a21e9c77a8";
const B: &str = "958b7ebf-163c-4d1b-a9bc-de394a2880be";
const C: &str = "E2BB3E11-2B48-4C71-B257-5E5BA79CE270";

fn settings() -> Settings {
    Settings {
        links: vec![],
        sync_inbound: true,
        sync_outbound: true,
        dry_run: false,
        batch_size: 100,
        request_delay_ms: 1000,
        max_per_run: 500,
        cb_rules: vec![],
        user_agent: "agent".to_string(),
    }
}

fn set_of(texts: &[&str]) -> TextSet {
    let mut set = TextSet::new();
    for text in texts {
        set.insert(text.to_string());
    }
    set
}

fn entry(mbid: Option<&str>, score: i64) -> FeedbackEntry {
    FeedbackEntry { recording_mbid: mbid.map(str::to_string), score }
}

#[test]
fn only_a_valid_token_with_a_name_gives_a_username() {
    let reply = |valid: bool, name: Option<&str>| TokenValidation {
        valid,
        user_name: name.map(str::to_string),
    };
    assert_eq!(lb_username(&reply(true, Some("ann"))), Some("ann".to_string()));
    assert_eq!(lb_username(&reply(true, Some(""))), None);
    assert_eq!(lb_username(&reply(true, None)), None);
    assert_eq!(lb_username(&reply(false, Some("ann"))), None);
}

#[test]
fn reads_go_to_their_addresses_with_the_token() {
    let check = resolve_lb_username("secret", &settings());
    assert_eq!(check.url, "https://api.listenbrainz.org/1/validate-token");
    assert_eq!(check.method, Method::Get);
    assert_eq!(check.headers[0], ("Authorization".to_string(), "Token secret".to_string()));

    let page = feedback_request("secret", "a b/\u{e9}", 2000, &settings());
    assert_eq!(
        page.url,
        "https://api.listenbrainz.org/1/feedback/user/a%20b%2F%C3%A9/get-feedback?score=1&count=1000&offset=2000"
    );
    assert_eq!(page.headers[0], ("Authorization".to_string(), "Token secret".to_string()));
}

#[test]
fn love_feedback_says_one_recording_and_its_score() {
    let love = love_request("secret", A, &settings());
    assert_eq!(love.method, Method::Post);
    assert_eq!(love.url, "https://api.listenbrainz.org/1/feedback/recording-feedback");
    assert_eq!(
        String::from_utf8(love.body).expect("text"),
        format!("{{\"recording_mbid\":\"{A}\",\"score\":1}}")
    );
    assert_eq!(
        love.headers,
        vec![
            ("Authorization".to_string(), "Token secret".to_string()),
            ("Content-Type".to_string(), "application/json".to_string()),
            ("User-Agent".to_string(), "agent".to_string()),
        ]
    );
    assert_eq!(love.timeout_ms, 30_000);
    assert_eq!(love.gap_ms, 1000);
}

#[test]
fn a_text_that_needs_escapes_is_escaped_in_the_body() {
    let love = love_request("t", "a\"b", &settings());
    assert_eq!(
        String::from_utf8(love.body).expect("text"),
        "{\"recording_mbid\":\"a\\\"b\",\"score\":1}"
    );
}

#[test]
fn candidates_are_the_unsettled_loves_of_a_page_each_once() {
    let page = FeedbackPage {
        count: 8,
        total_count: 8,
        feedback: vec![
            entry(Some(B), 1),
            entry(Some(A), 0),
            entry(Some(A), -1),
            entry(None, 1),
            entry(Some("no-mbid"), 1),
            entry(Some(C), 1),
            entry(Some(B), 1),
            entry(Some(A), 1),
        ],
    };
    assert_eq!(inbound_candidates(&page, &TextSet::new()), vec![B, C, A]);
    assert_eq!(inbound_candidates(&page, &set_of(&[C])), vec![B, A]);
    assert!(inbound_candidates(&page, &set_of(&[A, B, C])).is_empty());
}

#[test]
fn candidates_are_the_unsettled_stars_each_once() {
    let songs: Vec<StarredSong> = [A, "", B, "x", A, C]
        .iter()
        .map(|mbid| StarredSong { music_brainz_id: mbid.to_string() })
        .collect();
    assert_eq!(outbound_candidates(&songs, &TextSet::new()), vec![A, B, C]);
    assert_eq!(outbound_candidates(&songs, &set_of(&[A, C])), vec![B]);
}
