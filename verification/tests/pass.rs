use navidrome_listenbrainz_plugin::critiquebrainz::{CbEntity, CbReview, CbReviewPage, CbRule};
use navidrome_listenbrainz_plugin::http::{Method, Status, Stop};
use navidrome_listenbrainz_plugin::listenbrainz::{FeedbackEntry, FeedbackPage, TokenValidation};
use navidrome_listenbrainz_plugin::pass::Pass;
use navidrome_listenbrainz_plugin::protocol::{
    Action, CbUser, CbUserEnvelope, Event, Note, Output, Reply, Track,
};
use navidrome_listenbrainz_plugin::settings::{Settings, UserLink};
use navidrome_listenbrainz_plugin::settled::TextSet;
use navidrome_listenbrainz_plugin::subsonic::{
    SearchItem, SearchResult3, Starred2, StarredSong, SubsonicEnvelope, SubsonicResponse,
};

fn mbid(n: usize) -> String {
    format!("00000000-0000-0000-0000-{n:012}")
}

struct Song {
    id: String,
    mbid: String,
    starred: bool,
    rating: Option<i64>,
}

fn song(id: &str, n: usize, starred: bool) -> Song {
    Song { id: id.to_string(), mbid: mbid(n), starred, rating: None }
}

/// A host that keeps a library, a store and the accounts of one listener.
struct Host {
    songs: Vec<Song>,
    loves: Vec<String>,
    reviews: Vec<(&'static str, CbReview)>,
    keys: Vec<String>,
    token_valid: bool,
    token_fails: Option<Stop>,
    token_exhausts: bool,
    account_fails: Option<Stop>,
    account_exhausts: bool,
    page_fails: Option<Stop>,
    garbled: Option<(&'static str, bool)>,
    updates_fail: bool,
    love_status: Status,
    exhausted: bool,
    love_exhausts: bool,
    matcher_fails: bool,
    asked: Vec<String>,
    notes: Vec<Note>,
    writes: usize,
    gaps: Vec<u64>,
}

fn host() -> Host {
    Host {
        songs: vec![],
        loves: vec![],
        reviews: vec![],
        keys: vec![],
        token_valid: true,
        token_fails: None,
        token_exhausts: false,
        account_fails: None,
        account_exhausts: false,
        page_fails: None,
        garbled: None,
        updates_fail: false,
        love_status: Status::Applied,
        exhausted: false,
        love_exhausts: false,
        matcher_fails: false,
        asked: vec![],
        notes: vec![],
        writes: 0,
        gaps: vec![],
    }
}

fn parameter(uri: &str, name: &str) -> String {
    uri.split(['?', '&'])
        .find_map(|part| part.strip_prefix(&format!("{name}=")))
        .unwrap_or_default()
        .to_string()
}

fn envelope(ok: bool, starred2: Option<Starred2>, found: Option<SearchResult3>) -> Event {
    Event::Envelope(SubsonicEnvelope {
        response: SubsonicResponse {
            status: if ok { "ok" } else { "failed" }.to_string(),
            starred2,
            search_result3: found,
        },
    })
}

impl Host {
    fn fetch(&mut self, url: &str, reply: Reply) -> Event {
        if let Some((part, exhausted)) = self.garbled {
            if url.contains(part) {
                return Event::Malformed(exhausted);
            }
        }
        match reply {
            Reply::Token => match self.token_fails.take() {
                Some(stop) => Event::Failed(stop),
                None => Event::Token(
                    TokenValidation {
                        valid: self.token_valid,
                        user_name: Some("lb-ann".to_string()),
                    },
                    self.token_exhausts,
                ),
            },
            Reply::CbUser => match self.account_fails.take() {
                Some(stop) => Event::Failed(stop),
                None => Event::CbUser(
                    CbUserEnvelope { user: Some(CbUser { id: "cb-1".to_string() }) },
                    self.account_exhausts,
                ),
            },
            Reply::Feedback | Reply::Reviews if self.page_fails.is_some() => {
                Event::Failed(self.page_fails.take().expect("a failure"))
            }
            Reply::Feedback => {
                let offset: usize = parameter(url, "offset").parse().expect("an offset");
                let page: Vec<String> =
                    self.loves.iter().skip(offset).take(1000).cloned().collect();
                Event::Feedback(
                    FeedbackPage {
                        count: page.len() as i64,
                        total_count: self.loves.len() as i64,
                        feedback: page
                            .into_iter()
                            .map(|mbid| FeedbackEntry { recording_mbid: Some(mbid), score: 1 })
                            .collect(),
                    },
                    self.exhausted,
                )
            }
            Reply::Reviews => {
                let offset: usize = parameter(url, "offset").parse().expect("an offset");
                let kind = parameter(url, "entity_type");
                let all: Vec<&CbReview> =
                    self.reviews.iter().filter(|(k, _)| *k == kind).map(|(_, r)| r).collect();
                Event::Reviews(
                    CbReviewPage {
                        count: all.len() as i64,
                        reviews: all
                            .iter()
                            .skip(offset)
                            .take(50)
                            .map(|r| CbReview {
                                entity_id: r.entity_id.clone(),
                                entity_type: r.entity_type.clone(),
                                rating: r.rating,
                                last_revision: None,
                            })
                            .collect(),
                    },
                    self.exhausted,
                )
            }
        }
    }

    fn update(&mut self, uri: &str) -> Event {
        self.writes += 1;
        if self.updates_fail {
            return envelope(false, None, None);
        }
        for part in uri.split(['?', '&']) {
            if let Some(id) = part.strip_prefix("id=") {
                for song in self.songs.iter_mut().filter(|song| song.id == id) {
                    if uri.starts_with("star?") {
                        song.starred = true;
                    } else {
                        song.rating = parameter(uri, "rating").parse().ok();
                    }
                }
            }
        }
        envelope(true, None, None)
    }

    fn answer(&mut self, action: Action) -> Event {
        match action {
            Action::Fetch { request, reply } => {
                assert_eq!(request.method, Method::Get);
                self.gaps.push(request.gap_ms);
                self.asked.push(request.url.clone());
                self.fetch(&request.url, reply)
            }
            Action::Love { request } => {
                assert_eq!(request.method, Method::Post);
                self.gaps.push(request.gap_ms);
                self.writes += 1;
                let body = String::from_utf8(request.body).expect("text");
                self.asked.push(format!("love {body}"));
                if self.love_status == Status::Applied {
                    let mbid = body.split('"').nth(3).expect("an id").to_string();
                    self.loves.push(mbid);
                }
                Event::Love(self.love_status, self.love_exhausts)
            }
            Action::ListKeys { prefix } => Event::Keys(
                self.keys.iter().filter(|key| key.starts_with(&prefix)).cloned().collect(),
            ),
            Action::MatchSongs { username, mbids } => {
                assert_eq!(username, "ann");
                self.asked.push(format!("match {}", mbids.len()));
                if self.matcher_fails {
                    return Event::Failed(Stop::Fatal("matcher".to_string()));
                }
                Event::Matches(
                    mbids
                        .iter()
                        .map(|mbid| {
                            self.songs.iter().find(|song| &song.mbid == mbid).map(|song| Track {
                                id: song.id.clone(),
                                title: format!("title of {}", song.id),
                                starred: song.starred,
                            })
                        })
                        .collect(),
                )
            }
            Action::Query { uri } => {
                self.asked.push(uri.clone());
                if uri.starts_with("getStarred2?") {
                    let song = self
                        .songs
                        .iter()
                        .filter(|song| song.starred)
                        .map(|song| StarredSong { music_brainz_id: song.mbid.clone() })
                        .collect();
                    return envelope(true, Some(Starred2 { song }), None);
                }
                let wanted = parameter(&uri, "query");
                let song = self
                    .songs
                    .iter()
                    .filter(|song| song.mbid == wanted)
                    .map(|song| SearchItem {
                        id: song.id.clone(),
                        mbid: song.mbid.clone(),
                        starred: song.starred.then_some("2024".to_string()),
                        user_rating: song.rating,
                    })
                    .collect();
                envelope(true, None, Some(SearchResult3 { artist: vec![], album: vec![], song }))
            }
            Action::Update { uri } => {
                self.asked.push(uri.clone());
                self.update(&uri)
            }
        }
    }

    /// Runs one pass to its end.
    fn run(&mut self, settings: Settings, authorized: &[&str]) {
        let mut users = TextSet::new();
        for user in authorized {
            users.insert(user.to_string());
        }
        self.asked.clear();
        self.notes.clear();
        self.writes = 0;
        self.gaps.clear();
        let (mut pass, mut output): (Pass, Output) = Pass::start(settings, users);
        loop {
            self.keys.append(&mut output.persist);
            self.notes.append(&mut output.notes);
            match output.action.take() {
                Some(action) => {
                    assert!(!pass.is_finished());
                    let event = self.answer(action);
                    let (next, following) = pass.step(event);
                    pass = next;
                    output = following;
                }
                None => break,
            }
        }
        assert!(pass.is_finished());
    }
}

fn link(nd_username: &str, cb_username: Option<&str>) -> UserLink {
    UserLink {
        nd_username: nd_username.to_string(),
        token: format!("token-{nd_username}"),
        cb_username: cb_username.map(str::to_string),
    }
}

fn settings() -> Settings {
    Settings {
        links: vec![link("ann", None)],
        sync_inbound: true,
        sync_outbound: true,
        dry_run: false,
        batch_size: 2,
        request_delay_ms: 1000,
        max_per_run: 500,
        cb_rules: vec![],
        user_agent: "agent".to_string(),
    }
}

fn rated(kind: &'static str, n: usize, rating: i64) -> (&'static str, CbReview) {
    (
        kind,
        CbReview {
            entity_id: mbid(n),
            entity_type: kind.to_string(),
            rating: Some(rating),
            last_revision: None,
        },
    )
}

#[test]
fn loves_become_hearts_and_hearts_become_loves() {
    let mut host = host();
    host.loves = vec![mbid(1), mbid(2), mbid(3), "broken".to_string()];
    host.songs = vec![song("s1", 1, false), song("s2", 2, true), song("s4", 4, true)];
    host.run(settings(), &["ann"]);
    assert_eq!(
        host.asked,
        vec![
            "https://api.listenbrainz.org/1/validate-token".to_string(),
            "https://api.listenbrainz.org/1/feedback/user/lb-ann/get-feedback?score=1&count=1000&offset=0"
                .to_string(),
            "match 2".to_string(),
            "match 1".to_string(),
            "star?id=s1&u=ann".to_string(),
            "getStarred2?u=ann".to_string(),
            format!("love {{\"recording_mbid\":\"{}\",\"score\":1}}", mbid(4)),
        ]
    );
    assert!(host.songs.iter().all(|song| song.starred));
    assert_eq!(
        host.keys,
        vec![
            format!("synced:ann:{}", mbid(2)),
            format!("synced:ann:{}", mbid(1)),
            format!("synced:ann:{}", mbid(4)),
        ]
    );
    // Every request is followed by the gap.
    assert_eq!(host.gaps, vec![1000, 1000, 1000]);
}

#[test]
fn a_repeat_pass_redoes_only_what_is_outstanding() {
    let mut host = host();
    host.loves = vec![mbid(1), mbid(2), mbid(3)];
    host.songs = vec![song("s1", 1, false), song("s2", 2, true), song("s4", 4, true)];
    host.run(settings(), &["ann"]);
    host.run(settings(), &["ann"]);
    // The love without a local match is tried again; nothing else is.
    assert_eq!(host.asked.iter().filter(|asked| asked.starts_with("match")).count(), 1);
    assert!(host.asked.contains(&"match 1".to_string()));
    assert_eq!(host.writes, 0);
    assert_eq!(host.keys.len(), 3);

    // Once the library has the song, it is starred.
    host.songs.push(song("s3", 3, false));
    host.run(settings(), &["ann"]);
    assert!(host.asked.contains(&"star?id=s3&u=ann".to_string()));
    assert_eq!(host.writes, 1);
    assert_eq!(host.keys.len(), 4);
}

#[test]
fn a_removal_is_never_propagated() {
    let mut host = host();
    host.loves = vec![mbid(1)];
    host.songs = vec![song("s1", 1, false)];
    host.run(settings(), &["ann"]);
    assert!(host.songs[0].starred);
    // The heart is taken back: the love stays, and the song is not starred again.
    host.songs[0].starred = false;
    host.run(settings(), &["ann"]);
    assert!(!host.songs[0].starred);
    assert_eq!(host.loves, vec![mbid(1)]);
    assert_eq!(host.writes, 0);
}

#[test]
fn a_dry_run_says_what_it_would_do_and_writes_nothing() {
    let mut host = host();
    host.loves = vec![mbid(1), mbid(2)];
    host.songs = vec![song("s1", 1, false), song("s2", 2, true), song("s4", 4, true)];
    host.reviews = vec![rated("recording", 1, 5)];
    let mut dry = settings();
    dry.dry_run = true;
    dry.cb_rules =
        vec![(CbEntity::Recording, CbRule { sync_rating: true, favorite_at: 4 })];
    host.run(dry, &["ann"]);
    assert_eq!(host.writes, 0);
    assert!(host.keys.is_empty());
    assert_eq!(
        host.notes,
        vec![
            Note::Account {
                username: "lb-ann".to_string(),
                user_id: "cb-1".to_string(),
                nd_username: "ann".to_string(),
            },
            Note::WouldRate {
                entity: CbEntity::Recording,
                mbid: mbid(1),
                rating: 5,
                items: 1,
            },
            Note::WouldFavourite { entity: CbEntity::Recording, mbid: mbid(1), items: 1 },
            Note::Tally {
                entity: CbEntity::Recording,
                nd_username: "ann".to_string(),
                examined: 1,
                changes: 0,
                unmatched: 0,
            },
            Note::WouldStar { title: "title of s1".to_string() },
            Note::WouldLove { mbid: mbid(4) },
        ]
    );
}

#[test]
fn only_assigned_users_are_worked_for() {
    let mut host = host();
    let mut two = settings();
    two.links = vec![link("bob", None), link("ann", None)];
    host.run(two, &["ann", "cleo"]);
    assert_eq!(host.asked.iter().filter(|a| a.ends_with("validate-token")).count(), 1);
    assert!(host.asked.contains(&"getStarred2?u=ann".to_string()));

    host.run(settings(), &[]);
    assert!(host.asked.is_empty());
}

#[test]
fn hearts_and_loves_share_one_limit() {
    let mut host = host();
    host.loves = vec![mbid(1), mbid(2), mbid(3)];
    host.songs = vec![
        song("s1", 1, false),
        song("s2", 2, false),
        song("s3", 3, false),
        song("s4", 4, true),
        song("s5", 5, true),
    ];
    let mut limited = settings();
    limited.max_per_run = 2;
    host.run(limited, &["ann"]);
    // Two hearts spend the limit, so the outbound half is not begun.
    assert!(host.songs[0].starred && host.songs[1].starred && !host.songs[2].starred);
    assert!(!host.asked.iter().any(|asked| asked.starts_with("getStarred2")));

    let mut more = settings();
    more.max_per_run = 2;
    host.run(more, &["ann"]);
    // One heart is left, and one love fits.
    assert!(host.songs[2].starred);
    assert_eq!(host.loves.len(), 4);
    assert_eq!(host.writes, 2);
}

#[test]
fn a_half_that_is_off_is_left_alone() {
    let mut host = host();
    host.loves = vec![mbid(1)];
    host.songs = vec![song("s1", 1, false), song("s2", 2, true)];
    let mut outbound_only = settings();
    outbound_only.sync_inbound = false;
    host.run(outbound_only, &["ann"]);
    assert!(!host.asked.iter().any(|asked| asked.contains("get-feedback")));
    assert!(!host.songs[0].starred);
    assert_eq!(host.loves.len(), 2);

    host.songs.push(song("s3", 3, true));
    let mut inbound_only = settings();
    inbound_only.sync_outbound = false;
    host.run(inbound_only, &["ann"]);
    assert!(!host.asked.iter().any(|asked| asked.starts_with("getStarred2")));
    assert!(host.songs[0].starred);
    assert_eq!(host.loves.len(), 2);
}

#[test]
fn a_failed_star_call_is_retried_on_the_next_pass() {
    let mut host = host();
    host.loves = vec![mbid(1)];
    host.songs = vec![song("s1", 1, false)];
    host.updates_fail = true;
    host.run(settings(), &["ann"]);
    assert!(host.keys.is_empty());
    assert_eq!(host.writes, 1);
    host.updates_fail = false;
    host.run(settings(), &["ann"]);
    assert!(host.songs[0].starred);
    assert_eq!(host.keys, vec![format!("synced:ann:{}", mbid(1))]);
}

#[test]
fn a_failed_matcher_leaves_the_loves_outstanding() {
    let mut host = host();
    host.loves = vec![mbid(1), mbid(2), mbid(3)];
    host.songs = vec![song("s1", 1, false)];
    host.matcher_fails = true;
    host.run(settings(), &["ann"]);
    // Each batch is tried, and nothing comes of it.
    assert_eq!(host.asked.iter().filter(|asked| asked.starts_with("match")).count(), 2);
    assert!(host.keys.is_empty());
    assert_eq!(host.writes, 0);
}

#[test]
fn a_rejected_love_is_passed_over_and_a_stop_ends_the_pass() {
    let mut host = host();
    host.songs = vec![song("s1", 1, true), song("s2", 2, true), song("s3", 3, true)];
    host.love_status = Status::Skip;
    host.run(settings(), &["ann"]);
    assert_eq!(host.writes, 3);
    assert!(host.keys.is_empty());

    let two = || {
        let mut two = settings();
        two.links = vec![link("ann", None), link("bob", None)];
        two
    };
    let stopped = Note::PassStopped { nd_username: "ann".to_string() };
    host.love_status = Status::Stop;
    host.run(two(), &["ann", "bob"]);
    assert_eq!(host.writes, 1);
    assert!(host.keys.is_empty());
    assert_eq!(host.asked.iter().filter(|a| a.ends_with("validate-token")).count(), 1);
    assert_eq!(
        host.notes,
        vec![Note::OutboundPausing { nd_username: "ann".to_string() }, stopped]
    );

    host.love_status = Status::Applied;
    host.love_exhausts = true;
    host.run(two(), &["ann", "bob"]);
    assert_eq!(host.writes, 1);
    assert_eq!(host.keys.len(), 1);
    assert_eq!(host.asked.iter().filter(|a| a.ends_with("validate-token")).count(), 1);
    assert_eq!(host.notes[0], Note::WindowExhausted { nd_username: "ann".to_string() });
}

#[test]
fn a_limited_feedback_page_keeps_loves_from_being_sent() {
    let mut host = host();
    host.loves = vec![mbid(1)];
    host.songs = vec![song("s1", 1, false), song("s2", 2, true)];
    host.page_fails = Some(Stop::RateLimited);
    host.run(settings(), &["ann"]);
    assert_eq!(host.writes, 0);
    assert!(!host.asked.iter().any(|asked| asked.starts_with("getStarred2")));

    // What an exhausting page holds is still starred, and nothing is sent behind it.
    host.exhausted = true;
    host.run(settings(), &["ann"]);
    assert_eq!(host.writes, 1);
    assert!(host.songs[0].starred);
    assert_eq!(host.loves, vec![mbid(1)]);

    // Any other failure of a page leaves the outbound half alone.
    host.exhausted = false;
    host.page_fails = Some(Stop::Fatal("HTTP 404".to_string()));
    host.run(settings(), &["ann"]);
    assert_eq!(host.loves.len(), 2);
}

#[test]
fn a_limit_of_critiquebrainz_ends_the_pass() {
    let both = || {
        let mut both = settings();
        both.cb_rules = vec![
            (CbEntity::Recording, CbRule { sync_rating: true, favorite_at: 0 }),
            (CbEntity::Artist, CbRule { sync_rating: true, favorite_at: 0 }),
        ];
        both
    };
    let mut host = host();
    host.songs = vec![song("a", 1, false)];
    host.reviews = vec![rated("recording", 1, 4)];
    host.account_fails = Some(Stop::RateLimited);
    host.run(both(), &["ann"]);
    assert_eq!(host.asked.len(), 2);

    host.account_exhausts = true;
    host.run(both(), &["ann"]);
    assert_eq!(host.asked.len(), 2);
    assert_eq!(host.notes[0], Note::WindowExhausted { nd_username: "ann".to_string() });

    host.account_exhausts = false;
    host.page_fails = Some(Stop::RateLimited);
    host.run(both(), &["ann"]);
    assert_eq!(host.asked.iter().filter(|asked| asked.contains("/review/")).count(), 1);
    assert!(!host.asked.iter().any(|asked| asked.contains("get-feedback")));

    // The page that exhausts the window is dealt with, and nothing is asked behind it.
    host.exhausted = true;
    host.run(both(), &["ann"]);
    assert_eq!(host.songs[0].rating, Some(4));
    assert_eq!(host.asked.iter().filter(|asked| asked.contains("/review/")).count(), 1);
    assert!(!host.asked.iter().any(|asked| asked.contains("get-feedback")));

    // A failure that is no limit ends only the rule at work.
    host.exhausted = false;
    host.page_fails = Some(Stop::Fatal("HTTP 400".to_string()));
    host.run(both(), &["ann"]);
    assert_eq!(host.asked.iter().filter(|asked| asked.contains("/review/")).count(), 2);
    assert!(host.asked.iter().any(|asked| asked.contains("get-feedback")));
}

#[test]
fn an_unmatched_love_takes_up_no_room() {
    let mut host = host();
    host.loves = vec![mbid(1), mbid(2), mbid(3)];
    host.songs = vec![song("s2", 2, false), song("s3", 3, false)];
    let mut one = settings();
    one.max_per_run = 1;
    host.run(one, &["ann"]);
    assert!(host.songs[0].starred && !host.songs[1].starred);
    assert_eq!(host.keys, vec![format!("synced:ann:{}", mbid(2))]);
    assert_eq!(host.writes, 1);
    let mut again = settings();
    again.max_per_run = 1;
    host.run(again, &["ann"]);
    assert!(host.songs[1].starred);
}

#[test]
fn all_changes_of_a_user_share_one_limit() {
    let mut host = host();
    host.loves = vec![mbid(1)];
    host.songs = vec![song("s1", 1, false), song("s2", 2, true)];
    host.reviews = vec![rated("recording", 2, 4)];
    let limited = |max_per_run: i64| {
        let mut limited = settings();
        limited.max_per_run = max_per_run;
        limited.cb_rules =
            vec![(CbEntity::Recording, CbRule { sync_rating: true, favorite_at: 0 })];
        limited
    };
    // The rating spends the limit.
    host.run(limited(1), &["ann"]);
    assert_eq!(host.writes, 1);
    assert_eq!(host.songs[1].rating, Some(4));
    assert!(!host.songs[0].starred);
    // With the rating settled, the heart has its turn, and then the love.
    host.run(limited(1), &["ann"]);
    assert_eq!(host.writes, 1);
    assert!(host.songs[0].starred);
    host.run(limited(1), &["ann"]);
    assert_eq!(host.writes, 1);
    assert_eq!(host.loves.len(), 2);
}

#[test]
fn records_that_are_passed_over_are_told_of() {
    let mut host = host();
    host.loves = vec!["broken".to_string()];
    host.run(settings(), &["ann"]);
    assert_eq!(host.notes, vec![Note::MalformedMbid { mbid: "broken".to_string() }]);

    host.token_valid = false;
    let mut rules = settings();
    rules.cb_rules =
        vec![(CbEntity::Recording, CbRule { sync_rating: true, favorite_at: 0 })];
    host.run(rules, &["ann"]);
    assert_eq!(
        host.notes,
        vec![
            Note::InvalidToken { nd_username: "ann".to_string() },
            Note::NoCbUsername { nd_username: "ann".to_string() },
        ]
    );
}

#[test]
fn pages_of_loves_are_walked_to_the_end() {
    let mut host = host();
    host.loves = (0..2500).map(mbid).collect();
    host.songs = vec![song("first", 0, false), song("last", 2499, false)];
    let mut wide = settings();
    wide.batch_size = 1000;
    wide.max_per_run = 5000;
    host.run(wide, &["ann"]);
    let offsets: Vec<String> = host
        .asked
        .iter()
        .filter(|asked| asked.contains("get-feedback"))
        .map(|asked| parameter(asked, "offset"))
        .collect();
    assert_eq!(offsets, vec!["0", "1000", "2000"]);
    assert!(host.songs.iter().all(|song| song.starred));

    // An exhausted window ends the walk behind the page.
    host.exhausted = true;
    let mut again = settings();
    again.max_per_run = 5000;
    host.run(again, &["ann"]);
    assert_eq!(host.asked.iter().filter(|asked| asked.contains("get-feedback")).count(), 1);
}

#[test]
fn an_invalid_token_disables_only_the_listenbrainz_half() {
    let mut host = host();
    host.token_valid = false;
    host.songs = vec![song("s1", 1, false)];
    host.reviews = vec![rated("recording", 1, 4)];
    let mut both = settings();
    both.links = vec![link("ann", Some("cb ann"))];
    both.cb_rules =
        vec![(CbEntity::Recording, CbRule { sync_rating: true, favorite_at: 0 })];
    host.run(both, &["ann"]);
    assert_eq!(
        host.asked,
        vec![
            "https://api.listenbrainz.org/1/validate-token".to_string(),
            "https://critiquebrainz.org/ws/1/user/cb%20ann".to_string(),
            "https://critiquebrainz.org/ws/1/review/?user_id=cb-1&entity_type=recording&review_type=rating&limit=50&offset=0".to_string(),
            format!("search3?query={}&artistCount=50&albumCount=50&songCount=50&u=ann", mbid(1)),
            "setRating?id=s1&rating=4&u=ann".to_string(),
        ]
    );
    assert_eq!(host.songs[0].rating, Some(4));
    assert_eq!(host.keys, vec![format!("cbsynced:ann:recording:{}:r4:", mbid(1))]);
}

#[test]
fn without_any_username_nothing_is_asked_of_critiquebrainz() {
    let mut host = host();
    host.token_valid = false;
    let mut rules = settings();
    rules.cb_rules =
        vec![(CbEntity::Recording, CbRule { sync_rating: true, favorite_at: 0 })];
    host.run(rules, &["ann"]);
    assert_eq!(host.asked, vec!["https://api.listenbrainz.org/1/validate-token"]);
}

#[test]
fn a_rate_limited_token_check_ends_the_pass_behind_its_link() {
    let mut host = host();
    host.token_fails = Some(Stop::RateLimited);
    let mut two = settings();
    two.links = vec![link("ann", None), link("bob", None)];
    host.run(two, &["ann", "bob"]);
    assert_eq!(host.asked.len(), 1);
    assert_eq!(host.notes, vec![Note::PassStopped { nd_username: "ann".to_string() }]);

    // CritiqueBrainz needs no token, so the link is still worked for there.
    host.token_fails = Some(Stop::RateLimited);
    host.run(two_with_ratings(), &["ann", "bob"]);
    assert_eq!(
        host.asked,
        vec![
            "https://api.listenbrainz.org/1/validate-token".to_string(),
            "https://critiquebrainz.org/ws/1/user/cb-ann".to_string(),
            "https://critiquebrainz.org/ws/1/review/?user_id=cb-1&entity_type=recording&review_type=rating&limit=50&offset=0".to_string(),
        ]
    );

    // Any other failure disables only the link's own half.
    host.token_fails = Some(Stop::Fatal("HTTP 400".to_string()));
    let mut again = settings();
    again.links = vec![link("bob", None), link("ann", None)];
    again.sync_inbound = false;
    again.sync_outbound = false;
    host.run(again, &["ann", "bob"]);
    assert_eq!(host.asked.len(), 2);
}

fn two_with_ratings() -> Settings {
    let mut two = settings();
    two.links = vec![link("ann", Some("cb-ann")), link("bob", Some("cb-bob"))];
    two.cb_rules =
        vec![(CbEntity::Recording, CbRule { sync_rating: true, favorite_at: 0 })];
    two
}

#[test]
fn a_token_check_that_exhausts_the_window_is_the_last_request() {
    let mut host = host();
    host.token_exhausts = true;
    host.run(two_with_ratings(), &["ann", "bob"]);
    assert_eq!(host.asked, vec!["https://api.listenbrainz.org/1/validate-token"]);
    assert_eq!(
        host.notes,
        vec![
            Note::WindowExhausted { nd_username: "ann".to_string() },
            Note::PassStopped { nd_username: "ann".to_string() },
        ]
    );

    // An invalid token makes no difference, nor does a reply that does not decode.
    host.token_valid = false;
    host.run(two_with_ratings(), &["ann", "bob"]);
    assert_eq!(host.asked.len(), 1);
    assert_eq!(host.notes[0], Note::InvalidToken { nd_username: "ann".to_string() });
    host.garbled = Some(("/validate-token", true));
    host.run(two_with_ratings(), &["ann", "bob"]);
    assert_eq!(host.asked.len(), 1);
    assert_eq!(host.notes[0], Note::WindowExhausted { nd_username: "ann".to_string() });
}

#[test]
fn a_reply_that_does_not_decode_still_tells_of_its_window() {
    for part in ["/user/cb-ann", "/review/", "get-feedback"] {
        let mut host = host();
        host.songs = vec![song("s1", 1, true)];
        host.garbled = Some((part, true));
        host.run(two_with_ratings(), &["ann"]);
        assert!(host.asked.last().is_some_and(|asked| asked.contains(part)));
        assert!(host.notes.contains(&Note::WindowExhausted { nd_username: "ann".to_string() }));
        assert!(host.loves.is_empty());

        // With calls left it is a failure like any other.
        host.garbled = Some((part, false));
        host.run(two_with_ratings(), &["ann"]);
        assert!(host.notes.iter().all(|note| !matches!(note, Note::WindowExhausted { .. })));
        assert_eq!(host.loves, vec![mbid(1)]);
    }
}

fn recording_rule(sync_rating: bool, favorite_at: i64) -> Settings {
    let mut settings = settings();
    settings.sync_inbound = false;
    settings.sync_outbound = false;
    settings.cb_rules = vec![(CbEntity::Recording, CbRule { sync_rating, favorite_at })];
    settings
}

#[test]
fn ratings_are_copied_once_and_only_where_they_are_missing() {
    let mut host = host();
    host.songs = vec![song("a", 1, false), song("b", 1, true), song("c", 2, false)];
    host.songs[1].rating = Some(5);
    host.reviews = vec![rated("recording", 1, 5), rated("recording", 2, 3), rated("recording", 9, 4)];
    host.run(recording_rule(true, 4), &["ann"]);
    let updates: Vec<&String> = host
        .asked
        .iter()
        .filter(|asked| asked.starts_with("star?") || asked.starts_with("setRating?"))
        .collect();
    assert_eq!(
        updates,
        vec!["setRating?id=a&rating=5&u=ann", "star?id=a&u=ann", "setRating?id=c&rating=3&u=ann"]
    );
    assert_eq!(
        host.keys,
        vec![
            format!("cbsynced:ann:recording:{}:r5:f1", mbid(1)),
            format!("cbsynced:ann:recording:{}:r3:f0", mbid(2)),
        ]
    );
    assert_eq!(
        host.notes.last(),
        Some(&Note::Tally {
            entity: CbEntity::Recording,
            nd_username: "ann".to_string(),
            examined: 3,
            changes: 3,
            unmatched: 1,
        })
    );

    // The applied states are not looked up again; the unmatched rating is.
    host.run(recording_rule(true, 4), &["ann"]);
    assert_eq!(host.asked.iter().filter(|asked| asked.starts_with("search3?")).count(), 1);
    assert_eq!(host.writes, 0);

    // A changed rating is applied anew.
    host.reviews[1] = rated("recording", 2, 4);
    host.run(recording_rule(true, 4), &["ann"]);
    assert_eq!(host.songs[2].rating, Some(4));
    assert!(host.songs[2].starred);
}

#[test]
fn ratings_that_are_of_no_use_are_passed_over_without_a_lookup() {
    let mut host = host();
    host.reviews = vec![rated("recording", 1, 0), rated("recording", 2, 6)];
    host.reviews.push((
        "recording",
        CbReview {
            entity_id: mbid(3),
            entity_type: "artist".to_string(),
            rating: Some(4),
            last_revision: None,
        },
    ));
    host.reviews.push((
        "recording",
        CbReview {
            entity_id: "broken".to_string(),
            entity_type: "recording".to_string(),
            rating: Some(4),
            last_revision: None,
        },
    ));
    host.reviews.push((
        "recording",
        CbReview {
            entity_id: mbid(4),
            entity_type: "recording".to_string(),
            rating: None,
            last_revision: None,
        },
    ));
    host.run(recording_rule(true, 0), &["ann"]);
    assert!(!host.asked.iter().any(|asked| asked.starts_with("search3?")));
    assert!(host.keys.is_empty());
    assert_eq!(
        host.notes[1..5],
        [
            Note::RatingOffScale { rating: 0 },
            Note::RatingOffScale { rating: 6 },
            Note::UnexpectedEntityType { entity_type: "artist".to_string() },
            Note::MalformedEntityId { entity_id: "broken".to_string() },
        ]
    );
}

#[test]
fn ratings_are_told_of_as_the_walk_reaches_them() {
    let mut host = host();
    host.songs = vec![song("a", 1, false), song("b", 1, true), song("c", 2, false)];
    host.reviews = vec![
        rated("recording", 7, 0),
        rated("recording", 1, 5),
        rated("recording", 8, 6),
        rated("recording", 2, 5),
        rated("recording", 9, 7),
    ];
    let applied = |n: usize, rated: usize, starred: usize| Note::StateApplied {
        entity: CbEntity::Recording,
        mbid: mbid(n),
        state: format!("recording:{}:r5:f1", mbid(n)),
        rated,
        starred,
    };
    let tally = |examined: u128, changes: i64| Note::Tally {
        entity: CbEntity::Recording,
        nd_username: "ann".to_string(),
        examined,
        changes,
        unmatched: 0,
    };
    // The first rating spends the limit, so the walk ends before it comes to the ones behind it.
    let mut three = recording_rule(true, 5);
    three.max_per_run = 3;
    host.run(three, &["ann"]);
    assert_eq!(
        host.notes[1..],
        [Note::RatingOffScale { rating: 0 }, applied(1, 2, 1), tally(1, 3)]
    );
    host.run(recording_rule(true, 5), &["ann"]);
    assert_eq!(
        host.notes[1..],
        [
            Note::RatingOffScale { rating: 0 },
            Note::RatingOffScale { rating: 6 },
            applied(2, 1, 1),
            Note::RatingOffScale { rating: 7 },
            tally(1, 2),
        ]
    );
}

#[test]
fn a_failed_write_counts_and_leaves_the_state_unsettled() {
    let mut host = host();
    host.songs = vec![song("a", 1, false), song("b", 2, false)];
    host.reviews = vec![rated("recording", 1, 5), rated("recording", 2, 5)];
    host.updates_fail = true;
    let mut one = recording_rule(true, 1);
    one.max_per_run = 1;
    host.run(one, &["ann"]);
    // The failure spends the limit, so the second rating is not begun.
    assert_eq!(host.writes, 1);
    assert!(host.keys.is_empty());

    host.updates_fail = false;
    let mut again = recording_rule(true, 1);
    again.max_per_run = 1;
    host.run(again, &["ann"]);
    // The limit cuts the rating short, so its state stays unsettled.
    assert_eq!(host.writes, 1);
    assert!(host.keys.is_empty());
    assert_eq!(host.songs[0].rating, Some(5));
    assert!(host.notes.contains(&Note::LimitReached { entity: CbEntity::Recording, budget: 1 }));

    let mut rest = recording_rule(true, 1);
    rest.max_per_run = 1;
    host.run(rest, &["ann"]);
    // The next pass writes only what is still missing.
    assert_eq!(host.writes, 1);
    assert!(host.songs[0].starred);
    assert_eq!(host.keys, vec![format!("cbsynced:ann:recording:{}:r5:f1", mbid(1))]);
    assert!(host.notes.contains(&Note::StateApplied {
        entity: CbEntity::Recording,
        mbid: mbid(1),
        state: format!("recording:{}:r5:f1", mbid(1)),
        rated: 0,
        starred: 1,
    }));
}

#[test]
fn unmatched_ratings_do_not_starve_the_ones_behind_them() {
    let mut host = host();
    host.reviews = (0..120).map(|n| rated("recording", n, 4)).collect();
    host.songs = vec![song("z", 119, false)];
    let mut one = recording_rule(true, 0);
    one.max_per_run = 1;
    host.run(one, &["ann"]);
    let offsets: Vec<String> = host
        .asked
        .iter()
        .filter(|asked| asked.contains("/review/"))
        .map(|asked| parameter(asked, "offset"))
        .collect();
    assert_eq!(offsets, vec!["0", "50", "100"]);
    assert_eq!(host.songs[0].rating, Some(4));
}

#[test]
fn the_rules_share_one_limit_and_an_exhausted_window_ends_a_walk() {
    let mut host = host();
    host.songs = vec![song("a", 1, false)];
    host.reviews = (1..80).map(|n| rated("recording", n, 4)).collect();
    host.exhausted = true;
    host.run(recording_rule(true, 0), &["ann"]);
    assert_eq!(host.asked.iter().filter(|asked| asked.contains("/review/")).count(), 1);

    host.exhausted = false;
    host.keys.clear();
    host.songs[0].rating = None;
    let mut spent = recording_rule(true, 0);
    spent.max_per_run = 1;
    spent.cb_rules.push((CbEntity::Artist, CbRule { sync_rating: true, favorite_at: 0 }));
    host.run(spent, &["ann"]);
    assert_eq!(host.writes, 1);
    assert!(!host.asked.iter().any(|asked| asked.contains("entity_type=artist")));
}

#[test]
fn a_favourite_only_rule_ignores_a_change_of_rating() {
    let mut host = host();
    host.songs = vec![song("a", 1, false)];
    host.reviews = vec![rated("recording", 1, 4)];
    host.run(recording_rule(false, 4), &["ann"]);
    assert_eq!(host.writes, 1);
    assert_eq!(host.keys, vec![format!("cbsynced:ann:recording:{}:f1", mbid(1))]);
    host.reviews = vec![rated("recording", 1, 5)];
    host.run(recording_rule(false, 4), &["ann"]);
    assert_eq!(host.writes, 0);
    assert!(!host.asked.iter().any(|asked| asked.starts_with("search3?")));
}

#[test]
fn an_answer_that_does_not_fit_counts_as_a_failure() {
    let mut users = TextSet::new();
    users.insert("ann".to_string());
    let (pass, output) = Pass::start(settings(), users);
    assert!(matches!(output.action, Some(Action::Fetch { reply: Reply::Token, .. })));
    let (pass, output) = pass.step(Event::Keys(vec![]));
    assert!(output.action.is_none());
    assert!(pass.is_finished());
    let (pass, output) = pass.step(Event::Keys(vec![]));
    assert!(output.action.is_none() && output.persist.is_empty());
    assert!(pass.is_finished());
}
