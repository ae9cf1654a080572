//! What a pass asks of the host, and what the host answers.
//!
//! A pass is a sequence of steps. Each step takes the answer to the last action and gives the next
//! one, together with the keys to record and the notes for the administrator.

use vstd::prelude::*;
use crate::critiquebrainz::{CbEntity, CbReviewPage, CbReviewPageView};
use crate::http::{HttpRequest, HttpRequestView, Status, Stop, StopView};
use crate::listenbrainz::{FeedbackPage, FeedbackPageView, TokenValidation};
use crate::settings;
use crate::subsonic::{SubsonicEnvelope, SubsonicEnvelopeView};
use crate::text;
use crate::text::Text;

verus! {

/// A local song that the matcher found.
#[derive(Debug, PartialEq, Eq)]
pub struct Track {
    pub id: String,
    pub title: String,
    pub starred: bool,
}

/// What is known of a local song.
pub struct TrackView {
    pub id: Text,
    pub title: Text,
    pub starred: bool,
}

impl View for Track {
    type V = TrackView;

    open spec fn view(&self) -> TrackView {
        TrackView { id: self.id@, title: self.title@, starred: self.starred }
    }
}

/// What is known of each of the songs that were looked for.
pub open spec fn match_views(results: Seq<Option<Track>>) -> Seq<Option<TrackView>> {
    results.map_values(
        |r: Option<Track>|
            match r {
                Some(track) => Some(track@),
                None => None,
            },
    )
}

/// The user that CritiqueBrainz knows under a name.
#[derive(Debug, PartialEq, Eq)]
pub struct CbUser {
    pub id: String,
}

/// Response from `/user/<username>`.
#[derive(Debug, PartialEq, Eq)]
pub struct CbUserEnvelope {
    pub user: Option<CbUser>,
}

/// The id of a CritiqueBrainz user, where there is one.
pub open spec fn user_id_of(reply: CbUserEnvelope) -> Option<Text> {
    match reply.user {
        Some(user) => if user.id@.len() > 0 {
            Some(user.id@)
        } else {
            None
        },
        None => None,
    }
}

/// The id under which CritiqueBrainz lists a user's reviews.
pub fn cb_user_id(reply: CbUserEnvelope) -> (r: Option<String>)
    ensures
        settings::opt_text(r) == user_id_of(reply),
{
    match reply.user {
        Some(user) => if user.id.as_str().is_empty() {
            None
        } else {
            Some(user.id)
        },
        None => None,
    }
}

/// An answer of the host. An answer that does not belong to the action asked for counts as the
/// failure of that action.
#[derive(Debug, PartialEq, Eq)]
pub enum Event {
    /// The reply to a token check, and whether the rate-limit window is exhausted.
    Token(TokenValidation, bool),
    /// The reply to a user lookup, and whether the rate-limit window is exhausted.
    CbUser(CbUserEnvelope, bool),
    /// A page of loves, and whether the rate-limit window is exhausted.
    Feedback(FeedbackPage, bool),
    /// A page of reviews, and whether the rate-limit window is exhausted.
    Reviews(CbReviewPage, bool),
    /// The outcome of love feedback, and whether the rate-limit window is exhausted.
    Love(Status, bool),
    /// The keys of the store that begin with the prefix.
    Keys(Vec<String>),
    /// For each song asked for, the local one that matches.
    Matches(Vec<Option<Track>>),
    /// The response to a Subsonic call.
    Envelope(SubsonicEnvelope),
    /// The body of a fetched response does not decode; whether the rate-limit window is exhausted.
    Malformed(bool),
    /// The action failed.
    Failed(Stop),
}

/// What an answer says.
pub enum EventView {
    /// The username that the token gives.
    Token(Option<Text>, bool),
    /// The id that the user has.
    CbUser(Option<Text>, bool),
    Feedback(FeedbackPageView, bool),
    Reviews(CbReviewPageView, bool),
    Love(Status, bool),
    Keys(Seq<Text>),
    Matches(Seq<Option<TrackView>>),
    Envelope(SubsonicEnvelopeView),
    Malformed(bool),
    Failed(StopView),
}

impl View for Event {
    type V = EventView;

    open spec fn view(&self) -> EventView {
        match self {
            Event::Token(reply, exhausted) => EventView::Token(
                crate::listenbrainz::validated_name(
                    reply.valid,
                    settings::opt_text(reply.user_name),
                ),
                *exhausted,
            ),
            Event::CbUser(reply, exhausted) => EventView::CbUser(user_id_of(*reply), *exhausted),
            Event::Feedback(page, exhausted) => EventView::Feedback(page@, *exhausted),
            Event::Reviews(page, exhausted) => EventView::Reviews(page@, *exhausted),
            Event::Love(status, exhausted) => EventView::Love(*status, *exhausted),
            Event::Keys(keys) => EventView::Keys(text::texts(keys@)),
            Event::Matches(results) => EventView::Matches(match_views(results@)),
            Event::Envelope(envelope) => EventView::Envelope(envelope@),
            Event::Malformed(exhausted) => EventView::Malformed(*exhausted),
            Event::Failed(stop) => EventView::Failed(stop@),
        }
    }
}

impl EventView {
    /// Whether the answer says that the service is rate limited or fails for now.
    pub open spec fn rate_limited(self) -> bool {
        self == EventView::Failed(StopView::RateLimited)
    }

    /// Whether the answer does not decode, but says that the rate-limit window is exhausted.
    pub open spec fn exhausts_unread(self) -> bool {
        self == EventView::Malformed(true)
    }

    /// Whether an answer that is of no use says that no further calls may be made.
    pub open spec fn limits(self) -> bool {
        self.rate_limited() || self.exhausts_unread()
    }
}

impl Event {
    /// Whether the answer says that the service is rate limited or fails for now.
    pub fn is_rate_limited(&self) -> (r: bool)
        ensures
            r == self@.rate_limited(),
    {
        match self {
            Event::Failed(Stop::RateLimited) => true,
            _ => false,
        }
    }

    /// Whether the answer does not decode, but says that the rate-limit window is exhausted.
    pub fn is_exhausting_unread(&self) -> (r: bool)
        ensures
            r == self@.exhausts_unread(),
    {
        match self {
            Event::Malformed(exhausted) => *exhausted,
            _ => false,
        }
    }

    /// Whether an answer that is of no use says that no further calls may be made.
    pub fn is_limiting(&self) -> (r: bool)
        ensures
            r == self@.limits(),
    {
        self.is_rate_limited() || self.is_exhausting_unread()
    }
}

/// How the body of a fetched response is to be decoded.
#[derive(Clone, Copy, Debug, PartialEq, Eq, Structural)]
pub enum Reply {
    Token,
    CbUser,
    Feedback,
    Reviews,
}

/// An action of the host.
#[derive(Debug, PartialEq, Eq)]
pub enum Action {
    /// Read from ListenBrainz or CritiqueBrainz.
    Fetch { request: HttpRequest, reply: Reply },
    /// Send love feedback to ListenBrainz.
    Love { request: HttpRequest },
    /// List the keys of the store that begin with a prefix.
    ListKeys { prefix: String },
    /// Match recordings with a user's local songs.
    MatchSongs { username: String, mbids: Vec<String> },
    /// Make a Subsonic call that only reads.
    Query { uri: String },
    /// Make a Subsonic call that changes something.
    Update { uri: String },
}

/// What an action says.
pub enum ActionView {
    Fetch { request: HttpRequestView, reply: Reply },
    Love { request: HttpRequestView },
    ListKeys { prefix: Text },
    MatchSongs { username: Text, mbids: Seq<Text> },
    Query { uri: Text },
    Update { uri: Text },
}

impl View for Action {
    type V = ActionView;

    open spec fn view(&self) -> ActionView {
        match self {
            Action::Fetch { request, reply } => ActionView::Fetch { request: request@, reply: *reply },
            Action::Love { request } => ActionView::Love { request: request@ },
            Action::ListKeys { prefix } => ActionView::ListKeys { prefix: prefix@ },
            Action::MatchSongs { username, mbids } => ActionView::MatchSongs {
                username: username@,
                mbids: text::texts(mbids@),
            },
            Action::Query { uri } => ActionView::Query { uri: uri@ },
            Action::Update { uri } => ActionView::Update { uri: uri@ },
        }
    }
}

impl ActionView {
    /// Whether the action changes something outside the plugin.
    pub open spec fn is_write(self) -> bool {
        self is Love || self is Update
    }
}

/// What an optional action says.
pub open spec fn opt_action(action: Option<Action>) -> Option<ActionView> {
    match action {
        Some(action) => Some(action@),
        None => None,
    }
}

/// Something the administrator is told.
#[derive(Debug, PartialEq, Eq)]
pub enum Note {
    /// A dry run would star this song.
    WouldStar { title: String },
    /// A dry run would love this recording.
    WouldLove { mbid: String },
    /// A dry run would set this rating on some items.
    WouldRate { entity: CbEntity, mbid: String, rating: i64, items: usize },
    /// A dry run would favourite some items.
    WouldFavourite { entity: CbEntity, mbid: String, items: usize },
    /// The CritiqueBrainz account that is used for a user.
    Account { username: String, user_id: String, nd_username: String },
    /// What came of the ratings of one entity type.
    Tally { entity: CbEntity, nd_username: String, examined: u128, changes: i64, unmatched: u128 },
    /// A user link of the configuration lacks its username or its token, and is skipped.
    IncompleteLink,
    /// The threshold of a rule is off the scale, so favouriting stays off.
    ThresholdOffScale { entity: CbEntity },
    /// The token of a user is invalid.
    InvalidToken { nd_username: String },
    /// There is no CritiqueBrainz username for a user, nor a ListenBrainz one to fall back on.
    NoCbUsername { nd_username: String },
    /// CritiqueBrainz has no id for a username.
    NoCbUserId { username: String },
    /// A love is passed over, as its recording id is malformed.
    MalformedMbid { mbid: String },
    /// A rating is passed over, as it is of another entity type than was asked for.
    UnexpectedEntityType { entity_type: String },
    /// A rating is passed over, as it is off the scale.
    RatingOffScale { rating: i64 },
    /// A rating is passed over, as the id of its entity is malformed.
    MalformedEntityId { entity_id: String },
    /// The changes left for an entity type are made; its other ratings continue next pass.
    LimitReached { entity: CbEntity, budget: i64 },
    /// The rate-limit window is exhausted.
    WindowExhausted { nd_username: String },
    /// ListenBrainz is rate limited, fails, or refuses the token of a user.
    OutboundPausing { nd_username: String },
    /// The pass stops with this user; the next one continues.
    PassStopped { nd_username: String },
    /// A state was applied: its rating was set on some items, and some were favourited.
    StateApplied { entity: CbEntity, mbid: String, state: String, rated: usize, starred: usize },
}

/// What a note says.
pub enum NoteView {
    WouldStar { title: Text },
    WouldLove { mbid: Text },
    WouldRate { entity: CbEntity, mbid: Text, rating: int, items: int },
    WouldFavourite { entity: CbEntity, mbid: Text, items: int },
    Account { username: Text, user_id: Text, nd_username: Text },
    Tally { entity: CbEntity, nd_username: Text, examined: int, changes: int, unmatched: int },
    IncompleteLink,
    ThresholdOffScale { entity: CbEntity },
    InvalidToken { nd_username: Text },
    NoCbUsername { nd_username: Text },
    NoCbUserId { username: Text },
    MalformedMbid { mbid: Text },
    UnexpectedEntityType { entity_type: Text },
    RatingOffScale { rating: int },
    MalformedEntityId { entity_id: Text },
    LimitReached { entity: CbEntity, budget: int },
    WindowExhausted { nd_username: Text },
    OutboundPausing { nd_username: Text },
    PassStopped { nd_username: Text },
    StateApplied { entity: CbEntity, mbid: Text, state: Text, rated: int, starred: int },
}

impl View for Note {
    type V = NoteView;

    open spec fn view(&self) -> NoteView {
        match self {
            Note::WouldStar { title } => NoteView::WouldStar { title: title@ },
            Note::WouldLove { mbid } => NoteView::WouldLove { mbid: mbid@ },
            Note::WouldRate { entity, mbid, rating, items } => NoteView::WouldRate {
                entity: *entity,
                mbid: mbid@,
                rating: *rating as int,
                items: *items as int,
            },
            Note::WouldFavourite { entity, mbid, items } => NoteView::WouldFavourite {
                entity: *entity,
                mbid: mbid@,
                items: *items as int,
            },
            Note::Account { username, user_id, nd_username } => NoteView::Account {
                username: username@,
                user_id: user_id@,
                nd_username: nd_username@,
            },
            Note::Tally { entity, nd_username, examined, changes, unmatched } => NoteView::Tally {
                entity: *entity,
                nd_username: nd_username@,
                examined: *examined as int,
                changes: *changes as int,
                unmatched: *unmatched as int,
            },
            Note::IncompleteLink => NoteView::IncompleteLink,
            Note::ThresholdOffScale { entity } => NoteView::ThresholdOffScale { entity: *entity },
            Note::InvalidToken { nd_username } => NoteView::InvalidToken {
                nd_username: nd_username@,
            },
            Note::NoCbUsername { nd_username } => NoteView::NoCbUsername {
                nd_username: nd_username@,
            },
            Note::NoCbUserId { username } => NoteView::NoCbUserId { username: username@ },
            Note::MalformedMbid { mbid } => NoteView::MalformedMbid { mbid: mbid@ },
            Note::UnexpectedEntityType { entity_type } => NoteView::UnexpectedEntityType {
                entity_type: entity_type@,
            },
            Note::RatingOffScale { rating } => NoteView::RatingOffScale { rating: *rating as int },
            Note::MalformedEntityId { entity_id } => NoteView::MalformedEntityId {
                entity_id: entity_id@,
            },
            Note::LimitReached { entity, budget } => NoteView::LimitReached {
                entity: *entity,
                budget: *budget as int,
            },
            Note::WindowExhausted { nd_username } => NoteView::WindowExhausted {
                nd_username: nd_username@,
            },
            Note::OutboundPausing { nd_username } => NoteView::OutboundPausing {
                nd_username: nd_username@,
            },
            Note::PassStopped { nd_username } => NoteView::PassStopped {
                nd_username: nd_username@,
            },
            Note::StateApplied { entity, mbid, state, rated, starred } => NoteView::StateApplied {
                entity: *entity,
                mbid: mbid@,
                state: state@,
                rated: *rated as int,
                starred: *starred as int,
            },
        }
    }
}

/// What a sequence of notes says.
pub open spec fn note_views(notes: Seq<Note>) -> Seq<NoteView> {
    notes.map_values(|n: Note| n@)
}

/// What a step gives: the keys to record, the notes, and the next action. Without an action the
/// work is done.
#[derive(Debug, PartialEq, Eq)]
pub struct Output {
    pub persist: Vec<String>,
    pub notes: Vec<Note>,
    pub action: Option<Action>,
}

/// What an output says.
pub struct OutputView {
    pub persist: Seq<Text>,
    pub notes: Seq<NoteView>,
    pub action: Option<ActionView>,
}

impl View for Output {
    type V = OutputView;

    open spec fn view(&self) -> OutputView {
        OutputView {
            persist: text::texts(self.persist@),
            notes: note_views(self.notes@),
            action: opt_action(self.action),
        }
    }
}

/// What is said of the rate-limit window, where it is exhausted.
pub open spec fn window_notes(exhausted: bool, nd_username: Text) -> Seq<NoteView> {
    if exhausted {
        seq![NoteView::WindowExhausted { nd_username }]
    } else {
        Seq::empty()
    }
}

/// Notes that the rate-limit window is exhausted, where it is.
pub fn note_window(notes: &mut Vec<Note>, exhausted: bool, nd_username: &str)
    ensures
        note_views(final(notes)@) == note_views(old(notes)@) + window_notes(
            exhausted,
            nd_username@,
        ),
{
    if exhausted {
        notes.push(Note::WindowExhausted { nd_username: nd_username.to_owned() });
    }
    assert(note_views(notes@) =~= note_views(old(notes)@) + window_notes(exhausted, nd_username@));
}

/// The output that says something and asks for an action.
pub open spec fn telling(notes: Seq<NoteView>, action: Option<ActionView>) -> OutputView {
    OutputView { persist: Seq::empty(), notes, action }
}

/// The output that only asks for an action.
pub open spec fn asking(action: Option<ActionView>) -> OutputView {
    OutputView { persist: Seq::empty(), notes: Seq::empty(), action }
}

/// An output with keys and notes put before its own.
pub open spec fn preceded(
    output: OutputView,
    persist: Seq<Text>,
    notes: Seq<NoteView>,
) -> OutputView {
    OutputView {
        persist: persist + output.persist,
        notes: notes + output.notes,
        action: output.action,
    }
}

impl Output {
    /// The output with keys and notes put before its own.
    pub fn precede(self, persist: Vec<String>, notes: Vec<Note>) -> (r: Self)
        ensures
            r@ == preceded(self@, text::texts(persist@), note_views(notes@)),
    {
        let mut persist = persist;
        let mut notes = notes;
        let mut own_persist = self.persist;
        let mut own_notes = self.notes;
        let ghost all_persist = text::texts(persist@) + text::texts(own_persist@);
        let ghost all_notes = note_views(notes@) + note_views(own_notes@);
        persist.append(&mut own_persist);
        notes.append(&mut own_notes);
        assert(text::texts(persist@) =~= all_persist);
        assert(note_views(notes@) =~= all_notes);
        Output { persist, notes, action: self.action }
    }

    /// The output that says something and asks for an action.
    pub fn tell(notes: Vec<Note>, action: Option<Action>) -> (r: Self)
        ensures
            r@ == telling(note_views(notes@), opt_action(action)),
    {
        let r = Output { persist: Vec::new(), notes, action };
        assert(text::texts(r.persist@) =~= Seq::<Text>::empty());
        r
    }

    /// The output that ends the work, and tells of the rate-limit window where it is exhausted.
    pub fn end(exhausted: bool, nd_username: &str) -> (r: Self)
        ensures
            r@ == telling(window_notes(exhausted, nd_username@), None),
    {
        let mut notes: Vec<Note> = Vec::new();
        note_window(&mut notes, exhausted, nd_username);
        assert(note_views(notes@) =~= window_notes(exhausted, nd_username@));
        Output::tell(notes, None)
    }

    /// The output that says one thing and ends the work.
    pub fn say(note: Note) -> (r: Self)
        ensures
            r@ == telling(seq![note@], None),
    {
        let mut notes: Vec<Note> = Vec::new();
        notes.push(note);
        assert(note_views(notes@) =~= seq![note@]);
        Output::tell(notes, None)
    }

    /// The output that only asks for an action.
    pub fn ask(action: Option<Action>) -> (r: Self)
        ensures
            r@ == asking(opt_action(action)),
    {
        let r = Output { persist: Vec::new(), notes: Vec::new(), action };
        assert(text::texts(r.persist@) =~= Seq::<Text>::empty());
        assert(note_views(r.notes@) =~= Seq::<NoteView>::empty());
        r
    }
}

} // verus!
