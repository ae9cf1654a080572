use navidrome_listenbrainz_plugin::critiquebrainz::{CbEntity, CbRule};
use navidrome_listenbrainz_plugin::protocol::Note;
use navidrome_listenbrainz_plugin::settings::{
    config_notes, is_sync_job, load_settings, read_bool, read_cb_rules, read_int, read_schedule, user_agent,
    user_link, ConfigValues, LinkConfig, UserLink,
};

fn entry(navidrome_username: &str, token: &str, critiquebrainz_username: &str) -> LinkConfig {
    LinkConfig {
        navidrome_username: navidrome_username.to_string(),
        listenbrainz_token: token.to_string(),
        critiquebrainz_username: critiquebrainz_username.to_string(),
    }
}

fn config(user_links: Option<Vec<LinkConfig>>) -> ConfigValues {
    ConfigValues {
        user_links,
        sync_inbound: None,
        sync_outbound: None,
        dry_run: None,
        batch_size: None,
        request_delay_ms: None,
        max_per_run: None,
        cb_sync_artists: None,
        cb_sync_albums: None,
        cb_sync_recordings: None,
    }
}

#[test]
fn what_is_not_configured_has_its_default() {
    let settings =
        load_settings(&config(Some(vec![entry("ann", "t", "")])), "0.1.0").expect("a link");
    assert!(settings.sync_inbound);
    assert!(settings.sync_outbound);
    assert!(settings.dry_run);
    assert_eq!(settings.batch_size, 100);
    assert_eq!(settings.request_delay_ms, 1000);
    assert_eq!(settings.max_per_run, 500);
    assert!(settings.cb_rules.is_empty());
    assert_eq!(settings.user_agent, "Navidrome-ListenBrainz-Plugin/0.1.0 ( ege@celikci.me )");
    assert_eq!(user_agent("2"), "Navidrome-ListenBrainz-Plugin/2 ( ege@celikci.me )");
}

#[test]
fn numbers_are_brought_into_their_bounds() {
    let mut low = config(Some(vec![entry("ann", "t", "")]));
    low.batch_size = Some(0);
    low.request_delay_ms = Some(1);
    low.max_per_run = Some(-3);
    let settings = load_settings(&low, "1").expect("a link");
    assert_eq!(settings.batch_size, 1);
    assert_eq!(settings.request_delay_ms, 1000);
    assert_eq!(settings.max_per_run, 1);

    let mut high = config(Some(vec![entry("ann", "t", "")]));
    high.batch_size = Some(5000);
    high.request_delay_ms = Some(i64::MAX);
    high.max_per_run = Some(i64::MAX);
    let settings = load_settings(&high, "1").expect("a link");
    assert_eq!(settings.batch_size, 1000);
    assert_eq!(settings.request_delay_ms, 60_000);
    assert_eq!(settings.max_per_run, i64::MAX);

    let mut between = config(Some(vec![entry("ann", "t", "")]));
    between.batch_size = Some(7);
    between.request_delay_ms = Some(2500);
    between.max_per_run = Some(12);
    let settings = load_settings(&between, "1").expect("a link");
    assert_eq!(settings.batch_size, 7);
    assert_eq!(settings.request_delay_ms, 2500);
    assert_eq!(settings.max_per_run, 12);
}

#[test]
fn without_a_usable_link_there_are_no_settings() {
    assert!(load_settings(&config(None), "1").is_none());
    assert!(load_settings(&config(Some(vec![])), "1").is_none());
    assert!(load_settings(
        &config(Some(vec![entry("", "t", ""), entry("ann", " \t", "")])),
        "1"
    )
    .is_none());
}

#[test]
fn incomplete_links_are_skipped_and_the_others_keep_their_order() {
    let settings = load_settings(
        &config(Some(vec![
            entry("ann", "t1", ""),
            entry("bob", "", "x"),
            entry("cleo", "t3", "c"),
        ])),
        "1",
    )
    .expect("two links");
    let names: Vec<&str> = settings.links.iter().map(|l| l.nd_username.as_str()).collect();
    assert_eq!(names, vec!["ann", "cleo"]);
}

#[test]
fn the_values_of_a_link_are_trimmed() {
    assert_eq!(
        user_link(&entry("  ann\n", "\tt ", " \u{a0}ann-cb\u{3000}")),
        Some(UserLink {
            nd_username: "ann".to_string(),
            token: "t".to_string(),
            cb_username: Some("ann-cb".to_string()),
        })
    );
    // Inner white space stays, and a blank CritiqueBrainz username counts as absent.
    assert_eq!(
        user_link(&entry("a b", "t", "  ")),
        Some(UserLink {
            nd_username: "a b".to_string(),
            token: "t".to_string(),
            cb_username: None,
        })
    );
    assert_eq!(user_link(&entry(" ", "t", "c")), None);
}

#[test]
fn only_true_in_any_case_switches_a_flag_on() {
    for (value, expected) in [
        ("true", true),
        ("TRUE", true),
        ("tRuE", true),
        ("false", false),
        ("1", false),
        (" true", false),
        ("", false),
    ] {
        assert_eq!(read_bool(&Some(value.to_string()), true), expected);
        assert_eq!(read_bool(&Some(value.to_string()), false), expected);
    }
    assert!(read_bool(&None, true));
    assert!(!read_bool(&None, false));
}

#[test]
fn a_number_that_is_absent_has_its_default() {
    assert_eq!(read_int(Some(-4), 9), -4);
    assert_eq!(read_int(None, 9), 9);
}

#[test]
fn disabled_rules_are_dropped_and_a_threshold_off_the_scale_is_off() {
    let off = CbRule { sync_rating: false, favorite_at: 0 };
    let ratings = CbRule { sync_rating: true, favorite_at: 0 };
    let beyond = CbRule { sync_rating: true, favorite_at: 6 };
    let below = CbRule { sync_rating: false, favorite_at: -1 };
    let stars = CbRule { sync_rating: false, favorite_at: 5 };

    assert!(read_cb_rules(Some(off), None, Some(below)).is_empty());
    assert_eq!(
        read_cb_rules(Some(stars), Some(off), Some(beyond)),
        vec![(CbEntity::Artist, stars), (CbEntity::Recording, ratings)]
    );
    assert_eq!(
        read_cb_rules(None, Some(ratings), None),
        vec![(CbEntity::ReleaseGroup, ratings)]
    );
}

#[test]
fn an_absent_or_empty_schedule_is_the_default_one() {
    assert_eq!(read_schedule(&None), "*/30 * * * *");
    assert_eq!(read_schedule(&Some(String::new())), "*/30 * * * *");
    assert_eq!(read_schedule(&Some("0 4 * * *".to_string())), "0 4 * * *");
}

#[test]
fn only_the_sync_job_starts_a_pass() {
    assert!(is_sync_job("like-sync"));
    assert!(!is_sync_job("like-sync-startup"));
    assert!(!is_sync_job(""));
}

#[test]
fn what_is_wrong_with_the_configuration_is_told() {
    let mut values =
        config(Some(vec![entry("ann", "t", ""), entry("", "t", ""), entry("bob", " ", "")]));
    values.cb_sync_albums = Some(CbRule { sync_rating: true, favorite_at: 6 });
    values.cb_sync_artists = Some(CbRule { sync_rating: true, favorite_at: 5 });
    assert_eq!(
        config_notes(&values),
        vec![
            Note::IncompleteLink,
            Note::IncompleteLink,
            Note::ThresholdOffScale { entity: CbEntity::ReleaseGroup },
        ]
    );
    assert!(config_notes(&config(None)).is_empty());

    // Without a usable link nothing is synced, so the rules are not spoken of.
    values.user_links = Some(vec![entry("", "t", "")]);
    assert_eq!(config_notes(&values), vec![Note::IncompleteLink]);
}
