use navidrome_listenbrainz_plugin::critiquebrainz::CbEntity;
use navidrome_listenbrainz_plugin::settings::UserLink;
use navidrome_listenbrainz_plugin::subsonic::{
    lookup_local_items, lookup_uri, pending_rating, pending_star, set_rating, star_item,
    star_tracks, starred_uri, subsonic_ok, SearchItem, SearchResult3, SubsonicEnvelope,
    SubsonicResponse,
};
use serde_json::Value;

const MBID: &str = "63f689ce-a3bb-4c6c-b468-50a21e9c77a8";

fn item(id: &str, starred: Option<&str>, user_rating: Option<i64>) -> SearchItem {
    SearchItem {
        id: id.to_string(),
        mbid: String::new(),
        starred: starred.map(str::to_string),
        user_rating,
    }
}

#[test]
fn only_the_items_missing_the_state_are_touched() {
    let items = vec![
        item("unrated-unstarred", None, None),
        item("already-5-and-starred", Some("2024-05-05T00:00:00Z"), Some(5)),
        item("rated-4-unstarred", None, Some(4)),
        item("rated-5-unstarred", None, Some(5)),
    ];

    let rated: Vec<&str> = pending_rating(&items, 5).iter().map(|i| i.id.as_str()).collect();
    assert_eq!(rated, vec!["unrated-unstarred", "rated-4-unstarred"]);

    // Favouriting is independent of the rating, so only the already-starred item is skipped.
    let starred: Vec<&str> = pending_star(&items).iter().map(|i| i.id.as_str()).collect();
    assert_eq!(starred, vec!["unrated-unstarred", "rated-4-unstarred", "rated-5-unstarred"]);
}

fn items_of(value: &Value) -> Vec<SearchItem> {
    value
        .as_array()
        .map(|items| {
            items
                .iter()
                .map(|item| SearchItem {
                    id: item["id"].as_str().unwrap_or_default().to_string(),
                    mbid: item["musicBrainzId"].as_str().unwrap_or_default().to_string(),
                    starred: item["starred"].as_str().map(str::to_string),
                    user_rating: item["userRating"].as_i64(),
                })
                .collect()
        })
        .unwrap_or_default()
}

fn envelope_of(raw: &str) -> SubsonicEnvelope {
    let value: Value = serde_json::from_str(raw).expect("real Subsonic search3 shape");
    let response = &value["subsonic-response"];
    SubsonicEnvelope {
        response: SubsonicResponse {
            status: response["status"].as_str().unwrap_or_default().to_string(),
            starred2: None,
            search_result3: response.get("searchResult3").map(|found| SearchResult3 {
                artist: items_of(&found["artist"]),
                album: items_of(&found["album"]),
                song: items_of(&found["song"]),
            }),
        },
    }
}

const SEARCH3: &str = r#"{"subsonic-response":{"status":"ok","version":"1.16.1","searchResult3":{
         "artist":[{"id":"ar-1","name":"A","albumCount":1,"userRating":4,
                    "musicBrainzId":"2ef8e9b2-5f7d-4cfb-899a-bc4544755371"}],
         "album":[{"id":"al-1","name":"B","songCount":2,"duration":3,
                   "created":"2024-01-01T00:00:00Z","starred":"2024-05-05T00:00:00Z",
                   "musicBrainzId":"63f689ce-a3bb-4c6c-b468-50a21e9c77a8"}],
         "song":[]}}}"#;

#[test]
fn search3_response_parses_each_entity_kind() {
    let envelope = envelope_of(SEARCH3);
    let result = envelope.response.search_result3.expect("searchResult3 present");
    assert_eq!(result.artist.first().and_then(|a| a.user_rating), Some(4));
    assert_eq!(result.artist.first().map(|a| a.starred.is_none()), Some(true));
    assert_eq!(
        result.album.first().and_then(|a| a.starred.as_deref()),
        Some("2024-05-05T00:00:00Z")
    );
    assert!(result.song.is_empty());
}

fn found_ids(entity: CbEntity, mbid: &str) -> Vec<String> {
    lookup_local_items(envelope_of(SEARCH3), entity, mbid).into_iter().map(|i| i.id).collect()
}

#[test]
fn lookup_picks_the_kind_and_checks_the_id_only_where_it_is_echoed() {
    let artist = "2ef8e9b2-5f7d-4cfb-899a-bc4544755371";
    assert_eq!(found_ids(CbEntity::Artist, artist), vec!["ar-1"]);
    // The id is compared without regard to case.
    assert_eq!(found_ids(CbEntity::Artist, &artist.to_uppercase()), vec!["ar-1"]);
    // Another artist's item is discarded.
    assert!(found_ids(CbEntity::Artist, MBID).is_empty());
    // An album reports its release, so its id is never compared.
    assert_eq!(found_ids(CbEntity::ReleaseGroup, artist), vec!["al-1"]);
    assert!(found_ids(CbEntity::Recording, artist).is_empty());
}

#[test]
fn lookup_discards_items_without_an_id_and_keeps_those_without_an_mbid() {
    let envelope = SubsonicEnvelope {
        response: SubsonicResponse {
            status: "ok".to_string(),
            starred2: None,
            search_result3: Some(SearchResult3 {
                artist: vec![],
                album: vec![],
                song: vec![item("", None, None), item("so-1", None, None)],
            }),
        },
    };
    let kept = lookup_local_items(envelope, CbEntity::Recording, MBID);
    assert_eq!(kept.len(), 1);
    assert_eq!(kept[0].id, "so-1");
}

#[test]
fn only_the_status_ok_is_a_success() {
    for (status, expected) in [("ok", true), ("failed", false), ("OK", false), ("", false)] {
        let envelope = SubsonicEnvelope {
            response: SubsonicResponse {
                status: status.to_string(),
                starred2: None,
                search_result3: None,
            },
        };
        assert_eq!(subsonic_ok(&envelope), expected);
    }
}

#[test]
fn calls_carry_percent_encoded_values() {
    let link = UserLink {
        nd_username: "a b".to_string(),
        token: "t".to_string(),
        cb_username: None,
    };
    assert_eq!(starred_uri(&link), "getStarred2?u=a%20b");
    assert_eq!(
        star_tracks(&link, &vec!["x&y".to_string(), "z".to_string()]),
        "star?id=x%26y&id=z&u=a%20b"
    );
    assert_eq!(set_rating(&link, "x/1", 4), "setRating?id=x%2F1&rating=4&u=a%20b");
    assert_eq!(star_item(&link, CbEntity::Artist, "x"), "star?artistId=x&u=a%20b");
    assert_eq!(star_item(&link, CbEntity::Recording, "x"), "star?id=x&u=a%20b");
    assert_eq!(
        lookup_uri(&link, "m"),
        "search3?query=m&artistCount=50&albumCount=50&songCount=50&u=a%20b"
    );
}
