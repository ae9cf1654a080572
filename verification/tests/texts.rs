use navidrome_listenbrainz_plugin::encoding::percent_encode;
use navidrome_listenbrainz_plugin::mbid::is_valid_mbid;
use navidrome_listenbrainz_plugin::settled::{
    cb_settled_prefix, load_settled, mark_cb_settled, mark_settled, settled_prefix, TextSet,
};
use navidrome_listenbrainz_plugin::text::{decimal_text, same_text, strip_prefix};

const A: &str = "63f689ce-a3bb-4c6c-b468-50a21e9c77a8";

#[test]
fn unreserved_characters_stand_for_themselves_and_others_are_encoded() {
    let plain = "ABCXYZabcxyz0189-_.~";
    assert_eq!(percent_encode(plain), plain);
    assert_eq!(percent_encode(""), "");
    assert_eq!(percent_encode("a b&c=d/e?f%"), "a%20b%26c%3Dd%2Fe%3Ff%25");
    assert_eq!(percent_encode("\u{0}\u{7f}\u{e9}\u{20ac}\u{1f3b5}"), "%00%7F%C3%A9%E2%82%AC%F0%9F%8E%B5");
}

#[test]
fn different_texts_have_different_encodings() {
    let texts = ["a b", "a+b", "a%20b", "A B", "a b ", ""];
    for (i, first) in texts.iter().enumerate() {
        for second in &texts[i + 1..] {
            assert_ne!(percent_encode(first), percent_encode(second));
        }
    }
}

#[test]
fn only_a_uuid_shape_is_an_mbid() {
    assert!(is_valid_mbid(A));
    assert!(is_valid_mbid(&A.to_uppercase()));
    assert!(is_valid_mbid("00000000-0000-0000-0000-000000000000"));
    assert!(!is_valid_mbid(""));
    assert!(!is_valid_mbid(&A[1..]));
    assert!(!is_valid_mbid(&format!("{A}0")));
    // The dashes have their places.
    assert!(!is_valid_mbid("63f689cea-3bb-4c6c-b468-50a21e9c77a8"));
    assert!(!is_valid_mbid("------------------------------------"));
    assert!(!is_valid_mbid("63f689ceaa3bb04c6c0b468050a21e9c77a8"));
    // No other letters, and no other digits.
    assert!(!is_valid_mbid("g3f689ce-a3bb-4c6c-b468-50a21e9c77a8"));
    assert!(!is_valid_mbid("63f689ce-a3bb-4c6c-b468-50a21e9c77a\u{e9}"));
    assert!(!is_valid_mbid(" 3f689ce-a3bb-4c6c-b468-50a21e9c77a8"));
}

#[test]
fn numbers_are_written_in_decimal() {
    assert_eq!(decimal_text(0), "0");
    assert_eq!(decimal_text(7), "7");
    assert_eq!(decimal_text(1000), "1000");
    assert_eq!(decimal_text(-45), "-45");
    assert_eq!(decimal_text(i64::MAX), i64::MAX.to_string());
    assert_eq!(decimal_text(i64::MIN), i64::MIN.to_string());
}

#[test]
fn a_prefix_is_stripped_only_where_it_stands() {
    assert_eq!(strip_prefix("synced:ann:x", "synced:ann:"), Some("x".to_string()));
    assert_eq!(strip_prefix("abc", "abc"), Some(String::new()));
    assert_eq!(strip_prefix("abc", ""), Some("abc".to_string()));
    assert_eq!(strip_prefix("ab", "abc"), None);
    assert_eq!(strip_prefix("xabc", "abc"), None);
    assert_eq!(strip_prefix("\u{e9}\u{e8}", "\u{e9}"), Some("\u{e8}".to_string()));
    assert!(same_text("ok", "ok"));
    assert!(!same_text("ok", "Ok"));
}

#[test]
fn the_keys_of_the_two_halves_have_their_own_prefixes() {
    assert_eq!(settled_prefix("ann"), "synced:ann:");
    assert_eq!(cb_settled_prefix("ann"), "cbsynced:ann:");
}

#[test]
fn what_was_recorded_is_read_back_for_its_user_alone() {
    let mut settled = TextSet::new();
    let mut keys: Vec<String> = vec![];
    mark_settled(false, &mut settled, "ann", A, &mut keys);
    mark_cb_settled(false, &mut settled, "ann", "artist:m:r4:", &mut keys);
    mark_settled(false, &mut settled, "ann:b", "y", &mut keys);
    assert_eq!(
        keys,
        vec![format!("synced:ann:{A}"), "cbsynced:ann:artist:m:r4:".to_string(), "synced:ann:b:y".to_string()]
    );
    assert!(settled.contains(A) && settled.contains("artist:m:r4:"));

    let read = load_settled(&keys, "synced:ann:");
    assert!(read.contains(A));
    assert!(!read.contains("artist:m:r4:"));
    // The key of the other user is no recording of this one.
    assert!(!read.contains("y"));
    let read = load_settled(&keys, "cbsynced:ann:");
    assert!(read.contains("artist:m:r4:"));
    assert!(!read.contains(A));
    assert!(load_settled(&keys, "synced:ann:b:").contains("y"));
    assert!(!load_settled(&keys, "synced:bob:").contains(A));
}

#[test]
fn a_dry_run_settles_without_recording() {
    let mut settled = TextSet::new();
    let mut keys: Vec<String> = vec![];
    mark_settled(true, &mut settled, "ann", A, &mut keys);
    mark_cb_settled(true, &mut settled, "ann", "artist:m:r4:", &mut keys);
    assert!(keys.is_empty());
    assert!(settled.contains(A));
    assert!(settled.contains("artist:m:r4:"));
}

#[test]
fn a_set_says_whether_a_text_is_new() {
    let mut set = TextSet::new();
    assert!(!set.contains("x"));
    assert!(set.insert("x".to_string()));
    assert!(!set.insert("x".to_string()));
    assert!(set.contains("x"));
}
