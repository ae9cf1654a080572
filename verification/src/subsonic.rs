//! The Subsonic API of Navidrome: its calls, its responses, and which local items to touch.

use vstd::prelude::*;
use crate::critiquebrainz::CbEntity;
use crate::encoding;
use crate::settings;
use crate::settings::UserLink;
use crate::text;
use crate::text::Text;

verus! {

/// Local items requested per CritiqueBrainz entity lookup. One entity can cover several local items
/// (a release group may hold duplicate albums, a recording can sit on many compilations), so the
/// lookup asks for all of them rather than just the first.
pub const MATCH_COUNT: i64 = 50;

/// One local item found by `search3`. `starred` is absent unless the user favourited it, and
/// `user_rating` is absent unless it is non-zero.
#[derive(Debug, PartialEq, Eq)]
pub struct SearchItem {
    pub id: String,
    pub mbid: String,
    pub starred: Option<String>,
    pub user_rating: Option<i64>,
}

/// What is known of a local item.
pub struct SearchItemView {
    pub id: Text,
    pub mbid: Text,
    pub starred: Option<Text>,
    pub user_rating: Option<i64>,
}

impl View for SearchItem {
    type V = SearchItemView;

    open spec fn view(&self) -> SearchItemView {
        SearchItemView {
            id: self.id@,
            mbid: self.mbid@,
            starred: settings::opt_text(self.starred),
            user_rating: self.user_rating,
        }
    }
}

/// What is known of a sequence of local items.
pub open spec fn item_views(items: Seq<SearchItem>) -> Seq<SearchItemView> {
    items.map_values(|i: SearchItem| i@)
}

/// What is known of a sequence of references to local items.
pub open spec fn item_ref_views(items: Seq<&SearchItem>) -> Seq<SearchItemView> {
    items.map_values(|i: &SearchItem| i@)
}

/// `search3` results, grouped by the kind of entity that matched the query.
#[derive(Debug, PartialEq, Eq)]
pub struct SearchResult3 {
    pub artist: Vec<SearchItem>,
    pub album: Vec<SearchItem>,
    pub song: Vec<SearchItem>,
}

/// What `search3` found.
pub struct SearchResult3View {
    pub artist: Seq<SearchItemView>,
    pub album: Seq<SearchItemView>,
    pub song: Seq<SearchItemView>,
}

impl View for SearchResult3 {
    type V = SearchResult3View;

    open spec fn view(&self) -> SearchResult3View {
        SearchResult3View {
            artist: item_views(self.artist@),
            album: item_views(self.album@),
            song: item_views(self.song@),
        }
    }
}

/// A starred song. `music_brainz_id` carries the recording MBID.
#[derive(Debug, PartialEq, Eq)]
pub struct StarredSong {
    pub music_brainz_id: String,
}

/// The recording MBIDs of a sequence of songs.
pub open spec fn song_mbids(songs: Seq<StarredSong>) -> Seq<Text> {
    songs.map_values(|s: StarredSong| s.music_brainz_id@)
}

/// The songs of `getStarred2`.
#[derive(Debug, PartialEq, Eq)]
pub struct Starred2 {
    pub song: Vec<StarredSong>,
}

/// A Subsonic response.
#[derive(Debug, PartialEq, Eq)]
pub struct SubsonicResponse {
    pub status: String,
    pub starred2: Option<Starred2>,
    pub search_result3: Option<SearchResult3>,
}

/// Top-level Subsonic response envelope.
#[derive(Debug, PartialEq, Eq)]
pub struct SubsonicEnvelope {
    pub response: SubsonicResponse,
}

/// What a Subsonic response says. `starred2` are the recording MBIDs of the starred songs.
pub struct SubsonicEnvelopeView {
    pub status: Text,
    pub starred2: Option<Seq<Text>>,
    pub search_result3: Option<SearchResult3View>,
}

impl View for SubsonicEnvelope {
    type V = SubsonicEnvelopeView;

    open spec fn view(&self) -> SubsonicEnvelopeView {
        SubsonicEnvelopeView {
            status: self.response.status@,
            starred2: match self.response.starred2 {
                Some(starred) => Some(song_mbids(starred.song@)),
                None => None,
            },
            search_result3: match self.response.search_result3 {
                Some(found) => Some(found@),
                None => None,
            },
        }
    }
}

impl SubsonicEnvelopeView {
    /// Whether the response reports success.
    pub open spec fn succeeded(self) -> bool {
        self.status == "ok"@
    }

    /// The recording MBIDs of the starred songs.
    pub open spec fn starred_mbids(self) -> Seq<Text> {
        match self.starred2 {
            Some(mbids) => mbids,
            None => Seq::empty(),
        }
    }
}

/// Checks the Subsonic envelope status.
pub fn subsonic_ok(envelope: &SubsonicEnvelope) -> (r: bool)
    ensures
        r == envelope@.succeeded(),
{
    text::same_text(envelope.response.status.as_str(), "ok")
}

/// The songs that a response lists as starred.
pub fn starred_songs(envelope: SubsonicEnvelope) -> (r: Vec<StarredSong>)
    ensures
        song_mbids(r@) == envelope@.starred_mbids(),
{
    match envelope.response.starred2 {
        Some(starred) => starred.song,
        None => {
            let none: Vec<StarredSong> = Vec::new();
            assert(song_mbids(none@) =~= Seq::<Text>::empty());
            none
        },
    }
}

/// The call that lists a user's starred songs.
pub open spec fn starred_call(nd_username: Text) -> Text {
    "getStarred2?u="@ + encoding::percent_encoded(nd_username)
}

/// The call that lists a user's starred songs.
pub fn starred_uri(link: &UserLink) -> (r: String)
    ensures
        r@ == starred_call(link@.nd_username),
{
    "getStarred2?u=".to_owned().concat(
        encoding::percent_encode(link.nd_username.as_str()).as_str(),
    )
}

/// One `id` parameter for each id.
pub open spec fn id_parameters(ids: Seq<Text>) -> Text
    decreases ids.len(),
{
    if ids.len() == 0 {
        Seq::empty()
    } else {
        id_parameters(ids.drop_last()) + "id="@ + encoding::percent_encoded(ids.last()) + seq!['&']
    }
}

/// The call that stars songs.
pub open spec fn star_songs_call(nd_username: Text, ids: Seq<Text>) -> Text {
    "star?"@ + id_parameters(ids) + "u="@ + encoding::percent_encoded(nd_username)
}

/// The one batched `star` call for several songs.
pub fn star_tracks(link: &UserLink, media_ids: &Vec<String>) -> (r: String)
    ensures
        r@ == star_songs_call(link@.nd_username, text::texts(media_ids@)),
{
    let ghost all = text::texts(media_ids@);
    let mut query = "star?".to_owned();
    let mut i: usize = 0;
    assert(query@ =~= "star?"@ + id_parameters(all.take(0)));
    while i < media_ids.len()
        invariant
            i <= media_ids@.len(),
            all == text::texts(media_ids@),
            query@ == "star?"@ + id_parameters(all.take(i as int)),
        decreases media_ids@.len() - i,
    {
        assert(all.take(i + 1).drop_last() =~= all.take(i as int));
        assert(all.take(i + 1).last() == media_ids@[i as int]@);
        query.append("id=");
        query.append(encoding::percent_encode(media_ids[i].as_str()).as_str());
        query.push('&');
        assert(query@ =~= "star?"@ + id_parameters(all.take(i + 1)));
        i += 1;
    }
    assert(all.take(i as int) =~= all);
    query.append("u=");
    query.append(encoding::percent_encode(link.nd_username.as_str()).as_str());
    query
}

/// The call that finds the local items of a MusicBrainz id.
pub open spec fn lookup_call(nd_username: Text, mbid: Text) -> Text {
    "search3?query="@ + encoding::percent_encoded(mbid) + "&artistCount="@ + text::decimal(
        MATCH_COUNT as int,
    ) + "&albumCount="@ + text::decimal(MATCH_COUNT as int) + "&songCount="@ + text::decimal(
        MATCH_COUNT as int,
    ) + "&u="@ + encoding::percent_encoded(nd_username)
}

/// The call that finds the local items of a MusicBrainz id.
pub fn lookup_uri(link: &UserLink, mbid: &str) -> (r: String)
    ensures
        r@ == lookup_call(link@.nd_username, mbid@),
{
    let count = text::decimal_text(MATCH_COUNT);
    "search3?query=".to_owned().concat(encoding::percent_encode(mbid).as_str()).concat(
        "&artistCount=",
    ).concat(count.as_str()).concat("&albumCount=").concat(count.as_str()).concat(
        "&songCount=",
    ).concat(count.as_str()).concat("&u=").concat(
        encoding::percent_encode(link.nd_username.as_str()).as_str(),
    )
}

/// The call that sets a rating.
pub open spec fn rating_call(nd_username: Text, id: Text, rating: int) -> Text {
    "setRating?id="@ + encoding::percent_encoded(id) + "&rating="@ + text::decimal(rating) + "&u="@
        + encoding::percent_encoded(nd_username)
}

/// The call that sets one Navidrome rating.
pub fn set_rating(link: &UserLink, id: &str, rating: i64) -> (r: String)
    ensures
        r@ == rating_call(link@.nd_username, id@, rating as int),
{
    "setRating?id=".to_owned().concat(encoding::percent_encode(id).as_str()).concat(
        "&rating=",
    ).concat(text::decimal_text(rating).as_str()).concat("&u=").concat(
        encoding::percent_encode(link.nd_username.as_str()).as_str(),
    )
}

/// The call that favourites an item.
pub open spec fn star_call(nd_username: Text, entity: CbEntity, id: Text) -> Text {
    "star?"@ + entity.star_parameter() + "="@ + encoding::percent_encoded(id) + "&u="@
        + encoding::percent_encoded(nd_username)
}

/// The call that favourites (hearts) one Navidrome item.
pub fn star_item(link: &UserLink, entity: CbEntity, id: &str) -> (r: String)
    ensures
        r@ == star_call(link@.nd_username, entity, id@),
{
    "star?".to_owned().concat(entity.star_param()).concat("=").concat(
        encoding::percent_encode(id).as_str(),
    ).concat("&u=").concat(encoding::percent_encode(link.nd_username.as_str()).as_str())
}

/// The results of the kind that a CritiqueBrainz entity type maps onto.
pub open spec fn results_of(found: SearchResult3View, entity: CbEntity) -> Seq<SearchItemView> {
    match entity {
        CbEntity::Artist => found.artist,
        CbEntity::ReleaseGroup => found.album,
        CbEntity::Recording => found.song,
    }
}

/// Whether a search result is an item of the queried entity. It has an id, and where Navidrome
/// reports the kind of MBID that was queried, it reports none or the same one.
pub open spec fn is_match(item: SearchItemView, entity: CbEntity, mbid: Text) -> bool {
    &&& item.id.len() > 0
    &&& entity is ReleaseGroup || item.mbid.len() == 0 || text::ascii_lower(item.mbid)
        == text::ascii_lower(mbid)
}

/// The local items of a CritiqueBrainz entity that a response lists.
pub open spec fn local_items(
    envelope: SubsonicEnvelopeView,
    entity: CbEntity,
    mbid: Text,
) -> Seq<SearchItemView> {
    match envelope.search_result3 {
        Some(found) => results_of(found, entity).filter(
            |item: SearchItemView| is_match(item, entity, mbid),
        ),
        None => Seq::empty(),
    }
}

/// Finds every local Navidrome item matching one CritiqueBrainz entity id.
///
/// `search3` matches a UUID query directly against Navidrome's MusicBrainz id columns, so every
/// entity type resolves without scanning the library. One entity can span several local items, and
/// since they are all the same entity, all of them are returned. Trusting that match means the
/// returned ids may be cross-checked only where Navidrome reports the same kind of MBID back.
pub fn lookup_local_items(envelope: SubsonicEnvelope, entity: CbEntity, mbid: &str) -> (r: Vec<
    SearchItem,
>)
    ensures
        item_views(r@) == local_items(envelope@, entity, mbid@),
{
    let mut kept: Vec<SearchItem> = Vec::new();
    let found = match envelope.response.search_result3 {
        Some(found) => found,
        None => {
            assert(item_views(kept@) =~= Seq::<SearchItemView>::empty());
            return kept;
        },
    };
    let items = match entity {
        CbEntity::Artist => found.artist,
        CbEntity::ReleaseGroup => found.album,
        CbEntity::Recording => found.song,
    };
    let ghost all = item_views(items@);
    let ghost keep = |item: SearchItemView| is_match(item, entity, mbid@);
    assert(all.take(0).filter(keep) =~= Seq::<SearchItemView>::empty());
    assert(item_views(kept@) =~= all.take(0).filter(keep));
    for item in it: items
        invariant
            all == item_views(it.seq()),
            keep == |item: SearchItemView| is_match(item, entity, mbid@),
            item_views(kept@) == all.take(it.index() as int).filter(keep),
    {
        let ghost i = it.index() as int;
        let ghost before = kept@;
        assert(all[i] == item@);
        assert(all.take(i + 1) =~= all.take(i).push(item@));
        proof {
            all.take(i).lemma_filter_push(item@, keep);
        }
        let same_kind = entity.echoes_queried_mbid();
        let other = same_kind && !item.mbid.as_str().is_empty()
            && !item.mbid.as_str().eq_ignore_ascii_case(mbid);
        if !item.id.as_str().is_empty() && !other {
            let ghost added = item@;
            kept.push(item);
            assert(item_views(kept@) =~= item_views(before).push(added));
        }
    }
    assert(all.take(all.len() as int) =~= all);
    kept
}

/// The items that do not hold a rating yet.
pub open spec fn without_rating(items: Seq<SearchItemView>, rating: i64) -> Seq<SearchItemView> {
    items.filter(|item: SearchItemView| item.user_rating != Some(rating))
}

/// The items that are not favourited yet.
pub open spec fn without_star(items: Seq<SearchItemView>) -> Seq<SearchItemView> {
    items.filter(|item: SearchItemView| item.starred is None)
}

/// The local items that do not hold the wanted rating yet.
pub fn pending_rating(items: &[SearchItem], rating: i64) -> (r: Vec<&SearchItem>)
    ensures
        item_ref_views(r@) == without_rating(item_views(items@), rating),
{
    let mut pending: Vec<&SearchItem> = Vec::new();
    let ghost all = item_views(items@);
    let ghost keep = |item: SearchItemView| item.user_rating != Some(rating);
    let mut i: usize = 0;
    assert(all.take(0).filter(keep) =~= Seq::<SearchItemView>::empty());
    assert(item_ref_views(pending@) =~= all.take(0).filter(keep));
    while i < items.len()
        invariant
            i <= items@.len(),
            all == item_views(items@),
            keep == |item: SearchItemView| item.user_rating != Some(rating),
            item_ref_views(pending@) == all.take(i as int).filter(keep),
        decreases items@.len() - i,
    {
        let item = &items[i];
        let ghost before = pending@;
        assert(all.take(i + 1) =~= all.take(i as int).push(item@));
        proof {
            all.take(i as int).lemma_filter_push(item@, keep);
        }
        let held = match item.user_rating {
            Some(held) => held == rating,
            None => false,
        };
        if !held {
            pending.push(item);
            assert(item_ref_views(pending@) =~= item_ref_views(before).push(item@));
        }
        i += 1;
    }
    assert(all.take(i as int) =~= all);
    pending
}

/// The local items that are not favourited yet.
pub fn pending_star(items: &[SearchItem]) -> (r: Vec<&SearchItem>)
    ensures
        item_ref_views(r@) == without_star(item_views(items@)),
{
    let mut pending: Vec<&SearchItem> = Vec::new();
    let ghost all = item_views(items@);
    let ghost keep = |item: SearchItemView| item.starred is None;
    let mut i: usize = 0;
    assert(all.take(0).filter(keep) =~= Seq::<SearchItemView>::empty());
    assert(item_ref_views(pending@) =~= all.take(0).filter(keep));
    while i < items.len()
        invariant
            i <= items@.len(),
            all == item_views(items@),
            keep == |item: SearchItemView| item.starred is None,
            item_ref_views(pending@) == all.take(i as int).filter(keep),
        decreases items@.len() - i,
    {
        let item = &items[i];
        let ghost before = pending@;
        assert(all.take(i + 1) =~= all.take(i as int).push(item@));
        proof {
            all.take(i as int).lemma_filter_push(item@, keep);
        }
        if item.starred.is_none() {
            pending.push(item);
            assert(item_ref_views(pending@) =~= item_ref_views(before).push(item@));
        }
        i += 1;
    }
    assert(all.take(i as int) =~= all);
    pending
}

} // verus!
