use navidrome_listenbrainz_plugin::http::{
    api_get, classify_stop, get_request, header_value, rate_limit_exhausted, submit_love,
    HttpRequest, HttpResponse, Method, Status, Stop,
};
use navidrome_listenbrainz_plugin::settings::{Settings, UserLink};

fn settings() -> Settings {
    Settings {
        links: vec![UserLink {
            nd_username: "ann".to_string(),
            token: "t".to_string(),
            cb_username: None,
        }],
        sync_inbound: true,
        sync_outbound: true,
        dry_run: false,
        batch_size: 100,
        request_delay_ms: 1500,
        max_per_run: 500,
        cb_rules: vec![],
        user_agent: "agent".to_string(),
    }
}

fn header(name: &str, value: &str) -> (String, String) {
    (name.to_string(), value.to_string())
}

fn response(status_code: i32, headers: Vec<(String, String)>, body: &[u8]) -> HttpResponse {
    HttpResponse { status_code, headers, body: body.to_vec() }
}

#[test]
fn a_read_carries_its_headers_and_the_gap() {
    let with_token = get_request("u".to_string(), Some("Token t".to_string()), &settings());
    assert_eq!(
        with_token,
        HttpRequest {
            method: Method::Get,
            url: "u".to_string(),
            headers: vec![
                header("Authorization", "Token t"),
                header("Accept", "application/json"),
                header("User-Agent", "agent"),
            ],
            body: vec![],
            timeout_ms: 30_000,
            gap_ms: 1500,
        }
    );
    let public = get_request("u".to_string(), None, &settings());
    assert_eq!(
        public.headers,
        vec![header("Accept", "application/json"), header("User-Agent", "agent")]
    );
}

#[test]
fn a_successful_read_gives_the_text_and_the_state_of_the_window() {
    let body = "gr\u{fc}n \u{1f3b5}";
    assert_eq!(
        api_get(Ok(Some(response(200, vec![], body.as_bytes())))),
        Ok((body.to_string(), false))
    );
    assert_eq!(
        api_get(Ok(Some(response(
            299,
            vec![header("x-ratelimit-remaining", " 0 ")],
            b"{}"
        )))),
        Ok(("{}".to_string(), true))
    );
}

#[test]
fn a_failed_read_says_why_the_pass_stops() {
    let fatal = |message: &str| Err(Stop::Fatal(message.to_string()));
    assert_eq!(api_get(Err("no route".to_string())), fatal("no route"));
    assert_eq!(api_get(Ok(None)), fatal("empty HTTP response"));
    assert_eq!(api_get(Ok(Some(response(429, vec![], b"")))), Err(Stop::RateLimited));
    assert_eq!(api_get(Ok(Some(response(503, vec![], b"")))), Err(Stop::RateLimited));
    assert_eq!(api_get(Ok(Some(response(401, vec![], b"")))), fatal("HTTP 401"));
    assert_eq!(api_get(Ok(Some(response(199, vec![], b"")))), fatal("HTTP 199"));
    assert_eq!(api_get(Ok(Some(response(300, vec![], b"")))), fatal("HTTP 300"));
}

#[test]
fn a_body_that_is_no_text_stops_the_pass() {
    let bytes = vec![b'a', 0xff, b'b'];
    let message = format!(
        "invalid UTF-8 response: {}",
        String::from_utf8(bytes.clone()).expect_err("no UTF-8")
    );
    assert_eq!(
        api_get(Ok(Some(response(200, vec![], &bytes)))),
        Err(Stop::Fatal(message))
    );
}

#[test]
fn a_status_stops_the_pass_for_its_reason() {
    assert_eq!(classify_stop(429), Stop::RateLimited);
    assert_eq!(classify_stop(500), Stop::RateLimited);
    assert_eq!(classify_stop(999), Stop::RateLimited);
    assert_eq!(classify_stop(499), Stop::Fatal("HTTP 499".to_string()));
    assert_eq!(classify_stop(0), Stop::Fatal("HTTP 0".to_string()));
    assert_eq!(classify_stop(-7), Stop::Fatal("HTTP -7".to_string()));
}

#[test]
fn headers_are_found_in_any_case() {
    let headers = vec![header("A", "1"), header("content-TYPE", "2"), header("Content-Type", "3")];
    assert_eq!(header_value(&headers, "Content-Type"), Some("2"));
    assert_eq!(header_value(&headers, "a"), Some("1"));
    assert_eq!(header_value(&headers, "b"), None);
}

#[test]
fn only_a_number_without_requests_left_exhausts_the_window() {
    for (value, expected) in [
        ("0", true),
        ("-1", true),
        (" 0\t", true),
        ("-0", true),
        ("+0", true),
        ("1", false),
        ("29", false),
        ("+5", false),
        ("", false),
        ("none", false),
        ("0.0", false),
        ("0 0", false),
        ("-9223372036854775808", true),
        ("-9223372036854775809", false),
        ("99999999999999999999", false),
    ] {
        assert_eq!(
            rate_limit_exhausted(&[header("X-RateLimit-Remaining", value)]),
            expected,
            "{value}"
        );
    }
    assert!(!rate_limit_exhausted(&[]));
    assert!(!rate_limit_exhausted(&[header("X-RateLimit-Limit", "0")]));
}

#[test]
fn the_status_of_a_write_decides_about_the_record_and_the_pass() {
    for (status, expected) in [
        (200, Status::Applied),
        (204, Status::Applied),
        (299, Status::Applied),
        (400, Status::Skip),
        (404, Status::Skip),
        (401, Status::Stop),
        (403, Status::Stop),
        (429, Status::Stop),
        (500, Status::Stop),
        (599, Status::Stop),
        (600, Status::Skip),
        (302, Status::Skip),
        (100, Status::Skip),
    ] {
        assert_eq!(submit_love(Ok(Some(response(status, vec![], b"")))), Ok((expected, false)));
    }
    assert_eq!(
        submit_love(Ok(Some(response(200, vec![header("X-RateLimit-Remaining", "0")], b"")))),
        Ok((Status::Applied, true))
    );
    assert_eq!(submit_love(Ok(None)), Err("empty HTTP response".to_string()));
    assert_eq!(submit_love(Err("gone".to_string())), Err("gone".to_string()));
}
