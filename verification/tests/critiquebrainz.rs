use navidrome_listenbrainz_plugin::critiquebrainz::{
    cb_next_offset, cb_state_key, is_outstanding, CbEntity, CbReview, CbReviewPage, CbRevision,
    CbRule,
};
use navidrome_listenbrainz_plugin::settled::TextSet;
use serde_json::Value;

const MBID: &str = "63f689ce-a3bb-4c6c-b468-50a21e9c77a8";

fn text(value: &Value) -> String {
    value.as_str().unwrap_or_default().to_string()
}

fn rule_of(raw: &str) -> CbRule {
    let value: Value = serde_json::from_str(raw).expect("a JSON object");
    CbRule {
        sync_rating: value["sync_rating"].as_bool().unwrap_or(false),
        favorite_at: value["favorite_at"].as_i64().unwrap_or(0),
    }
}

fn review_of(value: &Value) -> CbReview {
    CbReview {
        entity_id: text(&value["entity_id"]),
        entity_type: text(&value["entity_type"]),
        rating: value["rating"].as_i64(),
        last_revision: value.get("last_revision").map(|revision| CbRevision {
            rating: revision["rating"].as_i64(),
        }),
    }
}

fn page_of(raw: &str) -> CbReviewPage {
    let value: Value = serde_json::from_str(raw).expect("real CritiqueBrainz page shape");
    CbReviewPage {
        count: value["count"].as_i64().unwrap_or(0),
        reviews: value["reviews"].as_array().expect("reviews").iter().map(review_of).collect(),
    }
}

#[test]
fn state_key_encodes_exactly_what_the_rule_applies() {
    let rating_only = CbRule { sync_rating: true, favorite_at: 0 };
    let star_only = CbRule { sync_rating: false, favorite_at: 4 };
    let both = CbRule { sync_rating: true, favorite_at: 4 };

    // A changed rating must produce a new key, or the change would never be re-applied.
    assert_ne!(
        cb_state_key(CbEntity::ReleaseGroup, "m", 4, rating_only),
        cb_state_key(CbEntity::ReleaseGroup, "m", 5, rating_only)
    );
    // The two toggles are encoded independently.
    assert_eq!(cb_state_key(CbEntity::Artist, "m", 3, star_only), "artist:m:f0");
    assert_eq!(cb_state_key(CbEntity::Artist, "m", 4, star_only), "artist:m:f1");
    assert_eq!(cb_state_key(CbEntity::Recording, "m", 4, rating_only), "recording:m:r4:");
    // Crossing the threshold re-applies the favourite without a rating change.
    assert_ne!(
        cb_state_key(CbEntity::Recording, "m", 3, both),
        cb_state_key(CbEntity::Recording, "m", 4, both)
    );
    // Entity type and MBID keep different items apart.
    assert_ne!(
        cb_state_key(CbEntity::Artist, "a", 5, both),
        cb_state_key(CbEntity::Recording, "a", 5, both)
    );
}

#[test]
fn state_key_of_both_actions_and_of_none() {
    let both = CbRule { sync_rating: true, favorite_at: 4 };
    let none = CbRule { sync_rating: false, favorite_at: 0 };
    assert_eq!(cb_state_key(CbEntity::ReleaseGroup, "m", 5, both), "release_group:m:r5:f1");
    assert_eq!(cb_state_key(CbEntity::ReleaseGroup, "m", 5, none), "release_group:m:");
    assert_eq!(cb_state_key(CbEntity::Artist, "m", -120, both), "artist:m:r-120:f0");
    assert_eq!(
        cb_state_key(CbEntity::Artist, "m", i64::MIN, both),
        "artist:m:r-9223372036854775808:f0"
    );
}

#[test]
fn cb_next_offset_advances_by_the_rows_returned_and_stops_at_the_end() {
    // A full page mid-list advances by the page size.
    assert_eq!(cb_next_offset(0, 50, 165), Some(50));
    assert_eq!(cb_next_offset(100, 50, 165), Some(150));
    // A short final page must not skip rows, and the final page exhausts the list.
    assert_eq!(cb_next_offset(150, 15, 165), None);
    assert_eq!(cb_next_offset(0, 50, 50), None);
    // An empty page ends the walk whatever total the server claims.
    assert_eq!(cb_next_offset(0, 0, 10), None);
}

#[test]
fn cb_next_offset_ends_where_the_offset_would_not_fit() {
    assert_eq!(cb_next_offset(i64::MAX, 1, i64::MAX), None);
    assert_eq!(cb_next_offset(i64::MAX - 2, 1, i64::MAX), Some(i64::MAX - 1));
    assert_eq!(cb_next_offset(0, -1, 10), None);
}

#[test]
fn rule_deserializes_from_the_manifest_keys() {
    let rule = rule_of(r#"{"sync_rating":true,"favorite_at":4}"#);
    assert!(rule.sync_rating);
    assert_eq!(rule.favorite_at, 4);
    let absent = rule_of("{}");
    assert!(absent.is_disabled());
}

#[test]
fn star_param_matches_the_subsonic_endpoint() {
    assert_eq!(CbEntity::Recording.star_param(), "id");
    assert_eq!(CbEntity::ReleaseGroup.star_param(), "albumId");
    assert_eq!(CbEntity::Artist.star_param(), "artistId");
    assert_eq!(CbEntity::ReleaseGroup.cb_name(), "release_group");
    // Navidrome reports an album's release MBID, never the release group we query by, so
    // an album id must stay out of the cross-check or every album match is discarded.
    assert!(!CbEntity::ReleaseGroup.echoes_queried_mbid());
    assert!(CbEntity::Artist.echoes_queried_mbid());
    assert!(CbEntity::Recording.echoes_queried_mbid());
}

#[test]
fn rule_is_disabled_only_when_both_actions_are_off() {
    assert!(CbRule { sync_rating: false, favorite_at: 0 }.is_disabled());
    assert!(!CbRule { sync_rating: true, favorite_at: 0 }.is_disabled());
    assert!(!CbRule { sync_rating: false, favorite_at: 5 }.is_disabled());
}

#[test]
fn review_rating_prefers_the_newest_revision() {
    // Trimmed from a real `review/?review_type=rating` response.
    let page = page_of(
        r#"{"count":165,"limit":50,"offset":0,"reviews":[
             {"entity_id":"63f689ce-a3bb-4c6c-b468-50a21e9c77a8","entity_type":"release_group","rating":4,
              "last_revision":{"id":18060,"rating":5,"text":null}},
             {"entity_id":"958b7ebf-163c-4d1b-a9bc-de394a2880be","entity_type":"event","rating":4,
              "last_revision":{"id":18096,"rating":null,"text":null}},
             {"entity_id":"e2bb3e11-2b48-4c71-b257-5e5ba79ce270","entity_type":"recording"}]}"#,
    );

    // `count` is the total for the entity type, not the size of this page, which is what the
    // paging loop relies on.
    assert_eq!(page.count, 165);
    assert_eq!(page.reviews.len(), 3);
    assert_eq!(page.reviews[0].rating(), Some(5));
    assert_eq!(page.reviews[1].rating(), Some(4));
    assert_eq!(page.reviews[2].rating(), None);
    assert!(page.reviews[0].entity_type == CbEntity::ReleaseGroup.cb_name());
}

fn review(entity_type: &str, entity_id: &str, rating: Option<i64>) -> CbReview {
    CbReview {
        entity_id: entity_id.to_string(),
        entity_type: entity_type.to_string(),
        rating,
        last_revision: None,
    }
}

#[test]
fn only_a_wellformed_unsettled_rating_of_the_kind_is_outstanding() {
    let rule = CbRule { sync_rating: true, favorite_at: 0 };
    let mut settled = TextSet::new();
    let asks = |review: &CbReview, settled: &TextSet| {
        is_outstanding(review, CbEntity::Artist, rule, settled)
    };
    assert!(asks(&review("artist", MBID, Some(5)), &settled));
    assert!(asks(&review("artist", MBID, Some(1)), &settled));
    assert!(!asks(&review("recording", MBID, Some(5)), &settled));
    assert!(!asks(&review("artist", MBID, None), &settled));
    assert!(!asks(&review("artist", MBID, Some(0)), &settled));
    assert!(!asks(&review("artist", MBID, Some(6)), &settled));
    assert!(!asks(&review("artist", "not-an-id", Some(5)), &settled));

    settled.insert(cb_state_key(CbEntity::Artist, MBID, 5, rule));
    assert!(!asks(&review("artist", MBID, Some(5)), &settled));
    assert!(asks(&review("artist", MBID, Some(4)), &settled));
}
