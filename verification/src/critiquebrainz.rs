//! CritiqueBrainz: the entities it rates, its reviews, and what a rule makes of them.

use vstd::prelude::*;
use crate::encoding;
use crate::http;
use crate::http::{HttpRequest, HttpRequestView};
use crate::mbid;
use crate::protocol;
use crate::protocol::{Note, NoteView};
use crate::settings::{Settings, SettingsView};
use crate::text;
use crate::text::Text;

verus! {

/// CritiqueBrainz API root.
pub const CB_ROOT: &'static str = "https://critiquebrainz.org/ws/1";

/// Ratings requested per CritiqueBrainz page. The API rejects anything above 50.
pub const CB_PAGE_SIZE: i64 = 50;

/// A CritiqueBrainz entity type that maps onto a Navidrome item.
#[derive(Clone, Copy, Debug, PartialEq, Eq, Structural)]
pub enum CbEntity {
    /// CritiqueBrainz `artist`, a Navidrome artist.
    Artist,
    /// CritiqueBrainz `release_group`, a Navidrome album.
    ReleaseGroup,
    /// CritiqueBrainz `recording`, a Navidrome song.
    Recording,
}

impl CbEntity {
    /// The `entity_type` value of the CritiqueBrainz API.
    pub open spec fn name(self) -> Text {
        match self {
            CbEntity::Artist => "artist"@,
            CbEntity::ReleaseGroup => "release_group"@,
            CbEntity::Recording => "recording"@,
        }
    }

    /// The parameter of the Subsonic `star` call that carries this entity's id.
    pub open spec fn star_parameter(self) -> Text {
        match self {
            CbEntity::Artist => "artistId"@,
            CbEntity::ReleaseGroup => "albumId"@,
            CbEntity::Recording => "id"@,
        }
    }

    /// The `entity_type` value the CritiqueBrainz API expects and returns.
    pub fn cb_name(self) -> (r: &'static str)
        ensures
            r@ == self.name(),
    {
        match self {
            CbEntity::Artist => "artist",
            CbEntity::ReleaseGroup => "release_group",
            CbEntity::Recording => "recording",
        }
    }

    /// The Subsonic `star` parameter carrying this entity's id. Only songs are named `id`.
    pub fn star_param(self) -> (r: &'static str)
        ensures
            r@ == self.star_parameter(),
    {
        match self {
            CbEntity::Artist => "artistId",
            CbEntity::ReleaseGroup => "albumId",
            CbEntity::Recording => "id",
        }
    }

    /// Whether Navidrome echoes back the same MusicBrainz id that was queried against it.
    ///
    /// Songs and artists do. Albums do not: Navidrome reports the release id, while CritiqueBrainz
    /// rates release groups, so for albums the two differ legitimately and must never be compared.
    pub fn echoes_queried_mbid(self) -> (r: bool)
        ensures
            r == !(self is ReleaseGroup),
    {
        match self {
            CbEntity::Artist | CbEntity::Recording => true,
            CbEntity::ReleaseGroup => false,
        }
    }
}

/// What to apply to one CritiqueBrainz entity type. `favorite_at == 0` disables favouriting, so
/// the two toggles independently cover rating-only, favourite-only, both, or neither.
#[derive(Clone, Copy, Debug, PartialEq, Eq, Structural)]
pub struct CbRule {
    pub sync_rating: bool,
    pub favorite_at: i64,
}

impl CbRule {
    /// True when the rule asks for no action, so the entity type is dropped entirely.
    pub fn is_disabled(self) -> (r: bool)
        ensures
            r == (!self.sync_rating && self.favorite_at == 0),
    {
        !self.sync_rating && self.favorite_at == 0
    }

    /// Whether a rating reaches the threshold from which the rule favourites.
    pub open spec fn favourites(self, rating: int) -> bool {
        self.favorite_at > 0 && rating >= self.favorite_at
    }
}

/// The newest revision of a review.
#[derive(Clone, Copy, Debug, PartialEq, Eq, Structural)]
pub struct CbRevision {
    pub rating: Option<i64>,
}

/// One rating or review.
#[derive(Debug, PartialEq, Eq)]
pub struct CbReview {
    pub entity_id: String,
    pub entity_type: String,
    pub rating: Option<i64>,
    pub last_revision: Option<CbRevision>,
}

/// What a review says.
pub struct CbReviewView {
    pub entity_id: Text,
    pub entity_type: Text,
    pub rating: Option<i64>,
    pub last_revision: Option<CbRevision>,
}

impl View for CbReview {
    type V = CbReviewView;

    open spec fn view(&self) -> CbReviewView {
        CbReviewView {
            entity_id: self.entity_id@,
            entity_type: self.entity_type@,
            rating: self.rating,
            last_revision: self.last_revision,
        }
    }
}

impl CbReviewView {
    /// The rating of the newest revision, or else that of the review itself.
    pub open spec fn shown_rating(self) -> Option<i64> {
        match self.last_revision {
            Some(CbRevision { rating: Some(rating) }) => Some(rating),
            _ => self.rating,
        }
    }
}

impl CbReview {
    /// The rating the CritiqueBrainz website shows. The newest revision wins, which is also what
    /// its own list endpoint filters on; the review row's copy is only a fallback.
    pub fn rating(&self) -> (r: Option<i64>)
        ensures
            r == self@.shown_rating(),
    {
        match self.last_revision {
            Some(revision) => match revision.rating {
                Some(rating) => Some(rating),
                None => self.rating,
            },
            None => self.rating,
        }
    }
}

/// One page of the CritiqueBrainz review list. `count` is the total for the entity type.
#[derive(Debug, PartialEq, Eq)]
pub struct CbReviewPage {
    pub count: i64,
    pub reviews: Vec<CbReview>,
}

/// What a sequence of reviews says.
pub open spec fn review_views(reviews: Seq<CbReview>) -> Seq<CbReviewView> {
    reviews.map_values(|r: CbReview| r@)
}

/// What a page of reviews says.
pub struct CbReviewPageView {
    pub count: i64,
    pub reviews: Seq<CbReviewView>,
}

impl View for CbReviewPage {
    type V = CbReviewPageView;

    open spec fn view(&self) -> CbReviewPageView {
        CbReviewPageView { count: self.count, reviews: review_views(self.reviews@) }
    }
}

/// The part of a state key that tells the rating a rule sets.
pub open spec fn rating_part(rating: int, rule: CbRule) -> Text {
    if rule.sync_rating {
        (seq!['r'] + text::decimal(rating)).push(':')
    } else {
        Seq::empty()
    }
}

/// The part of a state key that tells whether a rule favourites.
pub open spec fn favourite_part(rating: int, rule: CbRule) -> Text {
    if rule.favorite_at > 0 {
        if rating >= rule.favorite_at {
            seq!['f', '1']
        } else {
            seq!['f', '0']
        }
    } else {
        Seq::empty()
    }
}

/// The state that a rule wants of an entity with a rating: the entity, and one part for each
/// action that the rule asks for.
pub open spec fn state_key(entity: CbEntity, mbid: Text, rating: int, rule: CbRule) -> Text {
    (entity.name().push(':') + mbid).push(':') + rating_part(rating, rule) + favourite_part(
        rating,
        rule,
    )
}

/// The applied state of one entity under one rule. It lists only the actions the rule asks for, so
/// a changed rating re-applies just that action, and a rule that only favourites is never
/// re-applied because of a rating change it does not care about.
pub fn cb_state_key(entity: CbEntity, mbid: &str, rating: i64, rule: CbRule) -> (r: String)
    ensures
        r@ == state_key(entity, mbid@, rating as int, rule),
{
    let mut key = entity.cb_name().to_owned();
    key.push(':');
    key.append(mbid);
    key.push(':');
    let ghost head = key@;
    if rule.sync_rating {
        key.push('r');
        key.append(text::decimal_text(rating).as_str());
        key.push(':');
    }
    assert(key@ =~= head + rating_part(rating as int, rule));
    if rule.favorite_at > 0 {
        key.push('f');
        key.push(if rating >= rule.favorite_at { '1' } else { '0' });
    }
    assert(key@ =~= head + rating_part(rating as int, rule) + favourite_part(rating as int, rule));
    key
}

/// The names of the entity types hold no colon, are shorter than a MusicBrainz id, and differ.
pub proof fn names_are_plain_and_differ(a: CbEntity, b: CbEntity)
    ensures
        !a.name().contains(':'),
        0 < a.name().len() < mbid::MBID_LEN,
        a.name() == b.name() ==> a == b,
{
    reveal_strlit("artist");
    reveal_strlit("release_group");
    reveal_strlit("recording");
    assert(CbEntity::Artist.name().len() == 6);
    assert(CbEntity::ReleaseGroup.name().len() == 13);
    assert(CbEntity::Recording.name().len() == 9);
}

proof fn parts_tell_the_actions(r1: int, rule1: CbRule, r2: int, rule2: CbRule)
    requires
        rating_part(r1, rule1) + favourite_part(r1, rule1) == rating_part(r2, rule2)
            + favourite_part(r2, rule2),
    ensures
        rule1.sync_rating == rule2.sync_rating,
        rule1.sync_rating ==> r1 == r2,
        (rule1.favorite_at > 0) == (rule2.favorite_at > 0),
        rule1.favorite_at > 0 ==> rule1.favourites(r1) == rule2.favourites(r2),
{
    let f1 = favourite_part(r1, rule1);
    let f2 = favourite_part(r2, rule2);
    let s1 = rating_part(r1, rule1) + f1;
    let s2 = rating_part(r2, rule2) + f2;
    if rule1.sync_rating {
        assert(s1[0] == 'r');
    }
    if rule2.sync_rating {
        assert(s2[0] == 'r');
    }
    assert(rule1.sync_rating == rule2.sync_rating);
    if rule1.sync_rating {
        let d1 = text::decimal(r1);
        let d2 = text::decimal(r2);
        decimal_has_no_colon(r1);
        decimal_has_no_colon(r2);
        assert(s1 == (seq!['r'] + d1).push(':') + f1);
        assert(s2 == (seq!['r'] + d2).push(':') + f2);
        text::split_is_unique(seq!['r'] + d1, f1, seq!['r'] + d2, f2, ':');
        assert(d1 =~= (seq!['r'] + d1).skip(1));
        assert(d2 =~= (seq!['r'] + d2).skip(1));
        text::decimal_is_read_back(r1);
        text::decimal_is_read_back(r2);
    } else {
        assert(s1 =~= f1);
        assert(s2 =~= f2);
    }
    assert(f1 == f2);
    if rule1.favorite_at > 0 {
        assert(f1[1] == f2[1]);
    }
}

/// An integer in decimal holds no colon, nor does it behind an `r`.
pub proof fn decimal_has_no_colon(n: int)
    ensures
        !text::decimal(n).contains(':'),
        !(seq!['r'] + text::decimal(n)).contains(':'),
{
    if n < 0 {
        text::decimal_nat_writes_the_number((-n) as nat);
    } else {
        text::decimal_nat_writes_the_number(n as nat);
    }
    let s = text::decimal(n);
    assert forall|i: int| 0 <= i < s.len() implies s[i] != ':' by {
        if n < 0 {
            if i > 0 {
                assert(text::is_digit(text::decimal_nat((-n) as nat)[i - 1]));
            }
        } else {
            assert(text::is_digit(s[i]));
        }
    }
}

/// Two states have the same key just when they are of the same entity and ask for the same
/// actions: the same rating where ratings are set, and favouriting or not where it is on. So a
/// changed rating gives a new key, crossing the threshold gives a new key, and a rule that only
/// favourites gives the same key for every rating on one side of its threshold.
pub proof fn state_key_tells_the_state(
    entity1: CbEntity,
    mbid1: Text,
    r1: int,
    rule1: CbRule,
    entity2: CbEntity,
    mbid2: Text,
    r2: int,
    rule2: CbRule,
)
    requires
        !mbid1.contains(':'),
        !mbid2.contains(':'),
    ensures
        state_key(entity1, mbid1, r1, rule1) == state_key(entity2, mbid2, r2, rule2) <==> {
            &&& entity1 == entity2
            &&& mbid1 == mbid2
            &&& rule1.sync_rating == rule2.sync_rating
            &&& rule1.sync_rating ==> r1 == r2
            &&& (rule1.favorite_at > 0) == (rule2.favorite_at > 0)
            &&& rule1.favorite_at > 0 ==> rule1.favourites(r1) == rule2.favourites(r2)
        },
{
    let key1 = state_key(entity1, mbid1, r1, rule1);
    let key2 = state_key(entity2, mbid2, r2, rule2);
    let parts1 = rating_part(r1, rule1) + favourite_part(r1, rule1);
    let parts2 = rating_part(r2, rule2) + favourite_part(r2, rule2);
    let rest1 = mbid1.push(':') + parts1;
    let rest2 = mbid2.push(':') + parts2;
    assert(key1 =~= entity1.name().push(':') + rest1);
    assert(key2 =~= entity2.name().push(':') + rest2);
    names_are_plain_and_differ(entity1, entity2);
    names_are_plain_and_differ(entity2, entity1);
    if key1 == key2 {
        text::split_is_unique(entity1.name(), rest1, entity2.name(), rest2, ':');
        text::split_is_unique(mbid1, parts1, mbid2, parts2, ':');
        parts_tell_the_actions(r1, rule1, r2, rule2);
    }
}

/// The next page offset behind a page of `page_len` rows at `offset`, where the list of `count`
/// rows goes on.
pub open spec fn next_offset(offset: int, page_len: int, count: int) -> Option<int> {
    if page_len <= 0 || offset + page_len >= count {
        None
    } else {
        Some(offset + page_len)
    }
}

/// The next CritiqueBrainz page offset, or `None` when the list is exhausted. Advancing by the
/// number of rows actually returned, rather than the page size that was asked for, keeps a short
/// final page from skipping rows.
pub fn cb_next_offset(offset: i64, page_len: i64, count: i64) -> (r: Option<i64>)
    ensures
        match r {
            Some(next) => next_offset(offset as int, page_len as int, count as int) == Some(
                next as int,
            ),
            None => next_offset(offset as int, page_len as int, count as int) is None,
        },
{
    if page_len <= 0 {
        return None;
    }
    match offset.checked_add(page_len) {
        Some(next) => if next >= count {
            None
        } else {
            Some(next)
        },
        None => None,
    }
}

/// The request that looks a user up.
pub open spec fn user_read(username: Text, settings: SettingsView) -> HttpRequestView {
    http::read_of(CB_ROOT@ + "/user/"@ + encoding::percent_encoded(username), None, settings)
}

/// The request that resolves a CritiqueBrainz username (or user id) to the id the reviews API
/// filters on.
pub fn resolve_cb_user_id(username: &str, settings: &Settings) -> (r: HttpRequest)
    ensures
        r@ == user_read(username@, settings@),
{
    let url = CB_ROOT.to_owned().concat("/user/").concat(
        encoding::percent_encode(username).as_str(),
    );
    http::get_request(url, None, settings)
}

/// The address of a page of a user's ratings.
pub open spec fn reviews_url(user_id: Text, entity: CbEntity, offset: int) -> Text {
    CB_ROOT@ + "/review/?user_id="@ + encoding::percent_encoded(user_id) + "&entity_type="@
        + entity.name() + "&review_type=rating&limit="@ + text::decimal(CB_PAGE_SIZE as int)
        + "&offset="@ + text::decimal(offset)
}

/// The request for a page of a user's ratings.
pub open spec fn reviews_read(
    user_id: Text,
    entity: CbEntity,
    offset: int,
    settings: SettingsView,
) -> HttpRequestView {
    http::read_of(reviews_url(user_id, entity, offset), None, settings)
}

/// The request for the page of a user's ratings at `offset`. The API takes concrete entity types
/// only, so each type is paged separately; `review_type=rating` keeps reviews that carry a rating.
pub fn reviews_request(user_id: &str, entity: CbEntity, offset: i64, settings: &Settings) -> (r:
    HttpRequest)
    ensures
        r@ == reviews_read(user_id@, entity, offset as int, settings@),
{
    let url = CB_ROOT.to_owned().concat("/review/?user_id=").concat(
        encoding::percent_encode(user_id).as_str(),
    ).concat("&entity_type=").concat(entity.cb_name()).concat("&review_type=rating&limit=").concat(
        text::decimal_text(CB_PAGE_SIZE).as_str(),
    ).concat("&offset=").concat(text::decimal_text(offset).as_str());
    http::get_request(url, None, settings)
}

/// A rating that is on the scale: one to five stars.
pub open spec fn on_scale(rating: int) -> bool {
    1 <= rating <= 5
}

/// A review whose state is outstanding: it rates an entity of the wanted kind on the scale, its id
/// is well formed, and the state that the rule wants is not among the settled ones.
pub open spec fn outstanding(
    review: CbReviewView,
    entity: CbEntity,
    rule: CbRule,
    settled: Set<Text>,
) -> bool {
    &&& review.entity_type == entity.name()
    &&& review.shown_rating() matches Some(rating) && on_scale(rating as int) && mbid::mbid_shaped(
        review.entity_id,
    ) && !settled.contains(state_key(entity, review.entity_id, rating as int, rule))
}

/// Whether the state of a review is outstanding.
pub fn is_outstanding(
    review: &CbReview,
    entity: CbEntity,
    rule: CbRule,
    settled: &crate::settled::TextSet,
) -> (r: bool)
    ensures
        r == outstanding(review@, entity, rule, settled@),
{
    // The server filters by entity type, but a mismatch would silently apply a rating to the wrong
    // kind of item, so it is verified rather than assumed.
    if !text::same_text(review.entity_type.as_str(), entity.cb_name()) {
        return false;
    }
    match review.rating() {
        Some(rating) => 1 <= rating && rating <= 5 && mbid::is_valid_mbid(
            review.entity_id.as_str(),
        ) && !settled.contains(
            cb_state_key(entity, review.entity_id.as_str(), rating, rule).as_str(),
        ),
        None => false,
    }
}

/// What is said of a review that is passed over: it is of another entity type, off the scale, or
/// its entity id is malformed. A review without a rating is nothing to speak of.
pub open spec fn passed_over(review: CbReviewView, entity: CbEntity) -> Option<NoteView> {
    if review.entity_type != entity.name() {
        Some(NoteView::UnexpectedEntityType { entity_type: review.entity_type })
    } else {
        match review.shown_rating() {
            Some(rating) => if !on_scale(rating as int) {
                Some(NoteView::RatingOffScale { rating: rating as int })
            } else if !mbid::mbid_shaped(review.entity_id) {
                Some(NoteView::MalformedEntityId { entity_id: review.entity_id })
            } else {
                None
            },
            None => None,
        }
    }
}

/// What is said of the reviews that are passed over.
pub open spec fn passed_over_notes(reviews: Seq<CbReviewView>, entity: CbEntity) -> Seq<NoteView> {
    reviews.filter_map(|review: CbReviewView| passed_over(review, entity))
}

fn note_review(review: &CbReview, entity: CbEntity) -> (r: Option<Note>)
    ensures
        match r {
            Some(note) => passed_over(review@, entity) == Some(note@),
            None => passed_over(review@, entity) is None,
        },
{
    if !text::same_text(review.entity_type.as_str(), entity.cb_name()) {
        return Some(Note::UnexpectedEntityType { entity_type: review.entity_type.clone() });
    }
    match review.rating() {
        Some(rating) => if !(1 <= rating && rating <= 5) {
            Some(Note::RatingOffScale { rating })
        } else if !mbid::is_valid_mbid(review.entity_id.as_str()) {
            Some(Note::MalformedEntityId { entity_id: review.entity_id.clone() })
        } else {
            None
        },
        None => None,
    }
}

/// Tells of the reviews from `from` up to `upto` that are passed over.
pub fn note_passed_over(reviews: &Vec<CbReview>, from: usize, upto: usize, entity: CbEntity) -> (r:
    Vec<Note>)
    requires
        from <= upto <= reviews@.len(),
    ensures
        protocol::note_views(r@) == passed_over_notes(
            review_views(reviews@).subrange(from as int, upto as int),
            entity,
        ),
{
    let mut notes: Vec<Note> = Vec::new();
    let ghost part = review_views(reviews@).subrange(from as int, upto as int);
    let ghost pick = |review: CbReviewView| passed_over(review, entity);
    let mut i: usize = from;
    assert(part.take(0).filter_map(pick) =~= Seq::<NoteView>::empty());
    assert(protocol::note_views(notes@) =~= Seq::<NoteView>::empty());
    while i < upto
        invariant
            from <= i <= upto <= reviews@.len(),
            part == review_views(reviews@).subrange(from as int, upto as int),
            pick == |review: CbReviewView| passed_over(review, entity),
            protocol::note_views(notes@) == part.take(i - from).filter_map(pick),
        decreases upto - i,
    {
        let ghost before = notes@;
        proof {
            part.lemma_filter_map_take_succ(pick, i - from);
        }
        assert(part[i - from] == reviews@[i as int]@);
        if let Some(note) = note_review(&reviews[i], entity) {
            let ghost view = note@;
            notes.push(note);
            assert(protocol::note_views(notes@) =~= protocol::note_views(before).push(view));
        }
        assert(protocol::note_views(notes@) =~= part.take(i - from + 1).filter_map(pick));
        i += 1;
    }
    assert(part.take(i - from) =~= part);
    notes
}

} // verus!
