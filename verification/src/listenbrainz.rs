//! ListenBrainz: its token check, its feedback pages, and the love feedback sent to it.

use vstd::prelude::*;
use vstd::utf8;
use crate::encoding;
use crate::http;
use crate::http::{HttpRequest, HttpRequestView, Method};
use crate::json;
use crate::mbid;
use crate::protocol;
use crate::protocol::{Note, NoteView};
use crate::settings;
use crate::settings::{Settings, SettingsView};
use crate::settled::TextSet;
use crate::subsonic;
use crate::subsonic::StarredSong;
use crate::text;
use crate::text::Text;

verus! {

/// ListenBrainz API root.
pub const LB_ROOT: &'static str = "https://api.listenbrainz.org/1";

/// Feedback records requested per page. The API caps this value.
pub const PAGE_SIZE: i64 = 1000;

/// The score of a love.
pub const LOVE: i64 = 1;

/// Response from `/validate-token`.
#[derive(Debug, PartialEq, Eq)]
pub struct TokenValidation {
    pub valid: bool,
    pub user_name: Option<String>,
}

/// A single love/hate feedback record.
#[derive(Debug, PartialEq, Eq)]
pub struct FeedbackEntry {
    pub recording_mbid: Option<String>,
    pub score: i64,
}

/// What a feedback record says.
pub struct FeedbackEntryView {
    pub recording_mbid: Option<Text>,
    pub score: int,
}

impl View for FeedbackEntry {
    type V = FeedbackEntryView;

    open spec fn view(&self) -> FeedbackEntryView {
        FeedbackEntryView {
            recording_mbid: settings::opt_text(self.recording_mbid),
            score: self.score as int,
        }
    }
}

/// What a sequence of feedback records says.
pub open spec fn entry_views(entries: Seq<FeedbackEntry>) -> Seq<FeedbackEntryView> {
    entries.map_values(|e: FeedbackEntry| e@)
}

/// One page of the ListenBrainz feedback endpoint.
#[derive(Debug, PartialEq, Eq)]
pub struct FeedbackPage {
    pub count: i64,
    pub total_count: i64,
    pub feedback: Vec<FeedbackEntry>,
}

/// What a feedback page says.
pub struct FeedbackPageView {
    pub count: i64,
    pub total_count: i64,
    pub feedback: Seq<FeedbackEntryView>,
}

impl View for FeedbackPage {
    type V = FeedbackPageView;

    open spec fn view(&self) -> FeedbackPageView {
        FeedbackPageView {
            count: self.count,
            total_count: self.total_count,
            feedback: entry_views(self.feedback@),
        }
    }
}

/// The username that a token check gives: that of a valid token, where it is not empty.
pub open spec fn validated_name(valid: bool, user_name: Option<Text>) -> Option<Text> {
    match user_name {
        Some(name) if valid && name.len() > 0 => Some(name),
        _ => None,
    }
}

/// The ListenBrainz username of a token check. `None` means the token is invalid.
pub fn lb_username(reply: &TokenValidation) -> (r: Option<String>)
    ensures
        settings::opt_text(r) == validated_name(reply.valid, settings::opt_text(reply.user_name)),
{
    if !reply.valid {
        return None;
    }
    match &reply.user_name {
        Some(name) => if name.as_str().is_empty() {
            None
        } else {
            Some(name.clone())
        },
        None => None,
    }
}

/// The authorization that a token gives.
pub open spec fn token_auth(token: Text) -> Text {
    "Token "@ + token
}

fn auth_header(token: &str) -> (r: String)
    ensures
        r@ == token_auth(token@),
{
    "Token ".to_owned().concat(token)
}

/// The request that checks a token.
pub open spec fn token_check(token: Text, settings: SettingsView) -> HttpRequestView {
    http::read_of(LB_ROOT@ + "/validate-token"@, Some(token_auth(token)), settings)
}

/// The request that checks a user token and tells the username behind it.
pub fn resolve_lb_username(token: &str, settings: &Settings) -> (r: HttpRequest)
    ensures
        r@ == token_check(token@, settings@),
{
    let url = LB_ROOT.to_owned().concat("/validate-token");
    http::get_request(url, Some(auth_header(token)), settings)
}

/// The address of a page of a user's loves.
pub open spec fn feedback_url(lb_username: Text, offset: int) -> Text {
    LB_ROOT@ + "/feedback/user/"@ + encoding::percent_encoded(lb_username)
        + "/get-feedback?score=1&count="@ + text::decimal(PAGE_SIZE as int) + "&offset="@
        + text::decimal(offset)
}

/// The request for a page of a user's loves.
pub open spec fn feedback_read(
    token: Text,
    lb_username: Text,
    offset: int,
    settings: SettingsView,
) -> HttpRequestView {
    http::read_of(feedback_url(lb_username, offset), Some(token_auth(token)), settings)
}

/// The request for the page of a user's loves at `offset`.
pub fn feedback_request(token: &str, lb_username: &str, offset: i64, settings: &Settings) -> (r:
    HttpRequest)
    ensures
        r@ == feedback_read(token@, lb_username@, offset as int, settings@),
{
    let url = LB_ROOT.to_owned().concat("/feedback/user/").concat(
        encoding::percent_encode(lb_username).as_str(),
    ).concat("/get-feedback?score=1&count=").concat(text::decimal_text(PAGE_SIZE).as_str()).concat(
        "&offset=",
    ).concat(text::decimal_text(offset).as_str());
    http::get_request(url, Some(auth_header(token)), settings)
}

/// The body of love feedback for a recording.
pub open spec fn love_body(mbid: Text) -> Seq<u8> {
    if json::plain(mbid) {
        utf8::encode_utf8(
            json::object_text("recording_mbid"@, mbid, "score"@, LOVE as int),
        )
    } else {
        json::object_json("recording_mbid"@, mbid, "score"@, LOVE)
    }
}

/// The headers of love feedback.
pub open spec fn love_headers(token: Text, user_agent: Text) -> Seq<(Text, Text)> {
    seq![
        ("Authorization"@, token_auth(token)),
        ("Content-Type"@, "application/json"@),
        ("User-Agent"@, user_agent),
    ]
}

/// The request that loves a recording.
pub open spec fn love_write(token: Text, mbid: Text, settings: SettingsView) -> HttpRequestView {
    HttpRequestView {
        method: Method::Post,
        url: LB_ROOT@ + "/feedback/recording-feedback"@,
        headers: love_headers(token, settings.user_agent),
        body: love_body(mbid),
        timeout_ms: http::TIMEOUT_MS as int,
        gap_ms: settings.request_delay_ms,
    }
}

/// The request that submits love feedback for a single recording. One feedback per request is an
/// API constraint.
pub fn love_request(token: &str, mbid: &str, settings: &Settings) -> (r: HttpRequest)
    ensures
        r@ == love_write(token@, mbid@, settings@),
{
    proof {
        reveal_strlit("recording_mbid");
        reveal_strlit("score");
    }
    let body = json::object_to_vec("recording_mbid", mbid, "score", LOVE).unwrap();
    let mut headers: Vec<(String, String)> = Vec::new();
    headers.push(("Authorization".to_owned(), auth_header(token)));
    headers.push(("Content-Type".to_owned(), "application/json".to_owned()));
    headers.push(("User-Agent".to_owned(), settings.user_agent.clone()));
    assert(http::header_views(headers@) =~= love_headers(token@, settings@.user_agent));
    HttpRequest {
        method: Method::Post,
        url: LB_ROOT.to_owned().concat("/feedback/recording-feedback"),
        headers,
        body,
        timeout_ms: http::TIMEOUT_MS,
        gap_ms: settings.request_delay_ms,
    }
}

/// The recording that a feedback record loves, where it is well formed and not settled.
pub open spec fn loved(entry: FeedbackEntryView, settled: Set<Text>) -> Option<Text> {
    match entry.recording_mbid {
        Some(mbid) if entry.score == LOVE && mbid::mbid_shaped(mbid) && !settled.contains(mbid) => {
            Some(mbid)
        },
        _ => None,
    }
}

/// The recordings that a feedback page loves and that are not settled, each once.
pub open spec fn inbound_wanted(feedback: Seq<FeedbackEntryView>, settled: Set<Text>) -> Seq<Text> {
    text::distinct(feedback.filter_map(|e: FeedbackEntryView| loved(e, settled)))
}

fn add_candidate(candidates: &mut Vec<String>, seen: &mut TextSet, mbid: &str, all: Ghost<Seq<Text>>)
    requires
        text::texts(old(candidates)@) == text::distinct(all@),
        old(seen)@ == all@.to_set(),
    ensures
        text::texts(final(candidates)@) == text::distinct(all@.push(mbid@)),
        final(seen)@ == all@.push(mbid@).to_set(),
{
    proof {
        text::distinct_keeps_each_once(all@);
        assert(all@.push(mbid@).drop_last() =~= all@);
        all@.lemma_push_to_set_commute(mbid@);
    }
    let ghost before = candidates@;
    if seen.insert(mbid.to_owned()) {
        candidates.push(mbid.to_owned());
        assert(text::texts(candidates@) =~= text::texts(before).push(mbid@));
    } else {
        assert(all@.contains(mbid@));
        assert(text::distinct(all@).contains(mbid@));
    }
}

/// Selects the loved, not-yet-settled, valid recording MBIDs from a feedback page.
pub fn inbound_candidates(page: &FeedbackPage, settled: &TextSet) -> (r: Vec<String>)
    ensures
        text::texts(r@) == inbound_wanted(page@.feedback, settled@),
{
    let mut seen = TextSet::new();
    let mut candidates: Vec<String> = Vec::new();
    let ghost all = page@.feedback;
    let ghost pick = |e: FeedbackEntryView| loved(e, settled@);
    let mut i: usize = 0;
    assert(all.take(0).filter_map(pick) =~= Seq::<Text>::empty());
    assert(text::texts(candidates@) =~= Seq::<Text>::empty());
    assert(seen@ =~= Seq::<Text>::empty().to_set());
    while i < page.feedback.len()
        invariant
            i <= page.feedback@.len(),
            all == entry_views(page.feedback@),
            pick == |e: FeedbackEntryView| loved(e, settled@),
            text::texts(candidates@) == text::distinct(all.take(i as int).filter_map(pick)),
            seen@ == all.take(i as int).filter_map(pick).to_set(),
        decreases page.feedback@.len() - i,
    {
        let ghost before = all.take(i as int).filter_map(pick);
        proof {
            all.lemma_filter_map_take_succ(pick, i as int);
        }
        let entry = &page.feedback[i];
        assert(all[i as int] == entry@);
        let mut picked: Option<&str> = None;
        if entry.score == LOVE {
            if let Some(mbid) = &entry.recording_mbid {
                if mbid::is_valid_mbid(mbid.as_str()) && !settled.contains(mbid.as_str()) {
                    picked = Some(mbid.as_str());
                }
            }
        }
        match picked {
            Some(mbid) => {
                add_candidate(&mut candidates, &mut seen, mbid, Ghost(before));
                assert(all.take(i + 1).filter_map(pick) =~= before.push(mbid@));
            },
            None => {
                assert(all.take(i + 1).filter_map(pick) =~= before);
            },
        }
        i += 1;
    }
    assert(all.take(i as int) =~= all);
    candidates
}

/// What is said of a feedback record that loves a recording with a malformed id.
pub open spec fn malformed(entry: FeedbackEntryView) -> Option<NoteView> {
    match entry.recording_mbid {
        Some(mbid) if entry.score == LOVE && !mbid::mbid_shaped(mbid) => Some(
            NoteView::MalformedMbid { mbid },
        ),
        _ => None,
    }
}

/// What is said of the loves of a page that are passed over.
pub open spec fn malformed_notes(feedback: Seq<FeedbackEntryView>) -> Seq<NoteView> {
    feedback.filter_map(|e: FeedbackEntryView| malformed(e))
}

/// Tells of the loves of a page whose recording ids are malformed.
pub fn note_malformed(page: &FeedbackPage) -> (r: Vec<Note>)
    ensures
        protocol::note_views(r@) == malformed_notes(page@.feedback),
{
    let mut notes: Vec<Note> = Vec::new();
    let ghost all = page@.feedback;
    let ghost pick = |e: FeedbackEntryView| malformed(e);
    let mut i: usize = 0;
    assert(all.take(0).filter_map(pick) =~= Seq::<NoteView>::empty());
    assert(protocol::note_views(notes@) =~= Seq::<NoteView>::empty());
    while i < page.feedback.len()
        invariant
            i <= page.feedback@.len(),
            all == entry_views(page.feedback@),
            pick == |e: FeedbackEntryView| malformed(e),
            protocol::note_views(notes@) == all.take(i as int).filter_map(pick),
        decreases page.feedback@.len() - i,
    {
        let ghost before = notes@;
        proof {
            all.lemma_filter_map_take_succ(pick, i as int);
        }
        let entry = &page.feedback[i];
        assert(all[i as int] == entry@);
        if entry.score == LOVE {
            if let Some(mbid) = &entry.recording_mbid {
                if !mbid::is_valid_mbid(mbid.as_str()) {
                    notes.push(Note::MalformedMbid { mbid: mbid.clone() });
                    assert(protocol::note_views(notes@) =~= protocol::note_views(before).push(
                        NoteView::MalformedMbid { mbid: mbid@ },
                    ));
                }
            }
        }
        assert(protocol::note_views(notes@) =~= all.take(i + 1).filter_map(pick));
        i += 1;
    }
    assert(all.take(i as int) =~= all);
    notes
}

/// The recording of a starred song, where its id is well formed and not settled.
pub open spec fn unloved(mbid: Text, settled: Set<Text>) -> Option<Text> {
    if mbid::mbid_shaped(mbid) && !settled.contains(mbid) {
        Some(mbid)
    } else {
        None
    }
}

/// The recordings among the starred songs that are not settled, each once.
pub open spec fn outbound_wanted(starred: Seq<Text>, settled: Set<Text>) -> Seq<Text> {
    text::distinct(starred.filter_map(|mbid: Text| unloved(mbid, settled)))
}

/// Selects the not-yet-settled, valid recording MBIDs among those of the starred songs.
pub fn outbound_candidates(starred: &Vec<StarredSong>, settled: &TextSet) -> (r: Vec<String>)
    ensures
        text::texts(r@) == outbound_wanted(subsonic::song_mbids(starred@), settled@),
{
    let mut seen = TextSet::new();
    let mut candidates: Vec<String> = Vec::new();
    let ghost all = subsonic::song_mbids(starred@);
    let ghost pick = |mbid: Text| unloved(mbid, settled@);
    let mut i: usize = 0;
    assert(all.take(0).filter_map(pick) =~= Seq::<Text>::empty());
    assert(text::texts(candidates@) =~= Seq::<Text>::empty());
    assert(seen@ =~= Seq::<Text>::empty().to_set());
    while i < starred.len()
        invariant
            i <= starred@.len(),
            all == subsonic::song_mbids(starred@),
            pick == |mbid: Text| unloved(mbid, settled@),
            text::texts(candidates@) == text::distinct(all.take(i as int).filter_map(pick)),
            seen@ == all.take(i as int).filter_map(pick).to_set(),
        decreases starred@.len() - i,
    {
        let ghost before = all.take(i as int).filter_map(pick);
        proof {
            all.lemma_filter_map_take_succ(pick, i as int);
        }
        let mbid = starred[i].music_brainz_id.as_str();
        assert(all[i as int] == mbid@);
        if mbid::is_valid_mbid(mbid) && !settled.contains(mbid) {
            add_candidate(&mut candidates, &mut seen, mbid, Ghost(before));
            assert(all.take(i + 1).filter_map(pick) =~= before.push(mbid@));
        } else {
            assert(all.take(i + 1).filter_map(pick) =~= before);
        }
        i += 1;
    }
    assert(all.take(i as int) =~= all);
    candidates
}

} // verus!
