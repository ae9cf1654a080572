//! Requests to ListenBrainz and CritiqueBrainz, and how their responses are read.

use vstd::prelude::*;
use vstd::utf8;
use crate::settings::{Settings, SettingsView};
use crate::text;
use crate::text::Text;

verus! {

/// How long a request may take.
pub const TIMEOUT_MS: i32 = 30000;

/// The method of a request.
#[derive(Clone, Copy, Debug, PartialEq, Eq, Structural)]
pub enum Method {
    Get,
    Post,
}

/// A request. Whoever sends it waits `gap_ms` afterwards, whatever came back.
#[derive(Debug, PartialEq, Eq)]
pub struct HttpRequest {
    pub method: Method,
    pub url: String,
    pub headers: Vec<(String, String)>,
    pub body: Vec<u8>,
    pub timeout_ms: i32,
    pub gap_ms: u64,
}

/// What a request says.
pub struct HttpRequestView {
    pub method: Method,
    pub url: Text,
    pub headers: Seq<(Text, Text)>,
    pub body: Seq<u8>,
    pub timeout_ms: int,
    pub gap_ms: int,
}

/// What a sequence of headers says.
pub open spec fn header_views(headers: Seq<(String, String)>) -> Seq<(Text, Text)> {
    headers.map_values(|h: (String, String)| (h.0@, h.1@))
}

impl View for HttpRequest {
    type V = HttpRequestView;

    open spec fn view(&self) -> HttpRequestView {
        HttpRequestView {
            method: self.method,
            url: self.url@,
            headers: header_views(self.headers@),
            body: self.body@,
            timeout_ms: self.timeout_ms as int,
            gap_ms: self.gap_ms as int,
        }
    }
}

/// A response, with its headers in the order in which they came.
#[derive(Debug, PartialEq, Eq)]
pub struct HttpResponse {
    pub status_code: i32,
    pub headers: Vec<(String, String)>,
    pub body: Vec<u8>,
}

/// Why an inbound call stopped the pass instead of continuing.
#[derive(Debug, PartialEq, Eq)]
pub enum Stop {
    /// Transient: rate limited or server error. Retry on the next pass.
    RateLimited,
    /// Permanent for this pass: authentication, malformed input, network failure.
    Fatal(String),
}

/// What a stop says.
pub enum StopView {
    RateLimited,
    Fatal(Text),
}

impl View for Stop {
    type V = StopView;

    open spec fn view(&self) -> StopView {
        match self {
            Stop::RateLimited => StopView::RateLimited,
            Stop::Fatal(message) => StopView::Fatal(message@),
        }
    }
}

/// Outcome of a single ListenBrainz write.
#[derive(Clone, Copy, Debug, PartialEq, Eq, Structural)]
pub enum Status {
    /// Applied successfully.
    Applied,
    /// Rejected for this record only; continue with the rest.
    Skip,
    /// Stop the pass; retry later.
    Stop,
}

/// The reason for which an HTTP status stops the pass.
pub open spec fn stop_of(status: int) -> StopView {
    if status == 429 || status >= 500 {
        StopView::RateLimited
    } else {
        StopView::Fatal("HTTP "@ + text::decimal(status))
    }
}

/// Maps an HTTP status to the pass-stopping reason.
pub fn classify_stop(status: i32) -> (r: Stop)
    ensures
        r@ == stop_of(status as int),
{
    if status == 429 || status >= 500 {
        Stop::RateLimited
    } else {
        Stop::Fatal("HTTP ".to_owned().concat(text::decimal_text(status as i64).as_str()))
    }
}

/// The value of the first header with a name, in any case.
pub open spec fn header_named(headers: Seq<(Text, Text)>, name: Text) -> Option<Text>
    decreases headers.len(),
{
    if headers.len() == 0 {
        None
    } else if text::ascii_lower(headers.first().0) == text::ascii_lower(name) {
        Some(headers.first().1)
    } else {
        header_named(headers.drop_first(), name)
    }
}

/// Case-insensitive header lookup; HTTP header casing is not guaranteed.
pub fn header_value<'a>(headers: &'a [(String, String)], name: &str) -> (r: Option<&'a str>)
    ensures
        match r {
            Some(value) => header_named(header_views(headers@), name@) == Some(value@),
            None => header_named(header_views(headers@), name@) is None,
        },
{
    let ghost all = header_views(headers@);
    let mut i: usize = 0;
    assert(all.skip(0) =~= all);
    while i < headers.len()
        invariant
            i <= headers@.len(),
            all == header_views(headers@),
            header_named(all, name@) == header_named(all.skip(i as int), name@),
        decreases headers@.len() - i,
    {
        assert(all.skip(i as int).first() == all[i as int]);
        assert(all.skip(i as int).drop_first() =~= all.skip(i + 1));
        if headers[i].0.as_str().eq_ignore_ascii_case(name) {
            return Some(headers[i].1.as_str());
        }
        i += 1;
    }
    None
}

/// Whether the headers report that no request is left in the current window.
pub open spec fn window_exhausted(headers: Seq<(Text, Text)>) -> bool {
    match header_named(headers, "X-RateLimit-Remaining"@) {
        Some(value) => match text::written_i64(text::trim(value)) {
            Some(remaining) => remaining <= 0,
            None => false,
        },
        None => false,
    }
}

/// True when the response reports no requests left in the current window.
pub fn rate_limit_exhausted(headers: &[(String, String)]) -> (r: bool)
    ensures
        r == window_exhausted(header_views(headers@)),
{
    match header_value(headers, "X-RateLimit-Remaining") {
        Some(value) => match text::parse_i64(value.trim()) {
            Some(remaining) => remaining <= 0,
            None => false,
        },
        None => false,
    }
}

/// The headers of a read: the authorization where there is one, what is accepted, and who asks.
pub open spec fn read_headers(auth: Option<Text>, user_agent: Text) -> Seq<(Text, Text)> {
    let rest = seq![("Accept"@, "application/json"@), ("User-Agent"@, user_agent)];
    match auth {
        Some(auth) => seq![("Authorization"@, auth)] + rest,
        None => rest,
    }
}

/// The request that reads a URL.
pub open spec fn read_of(url: Text, auth: Option<Text>, settings: SettingsView) -> HttpRequestView {
    HttpRequestView {
        method: Method::Get,
        url,
        headers: read_headers(auth, settings.user_agent),
        body: Seq::empty(),
        timeout_ms: TIMEOUT_MS as int,
        gap_ms: settings.request_delay_ms,
    }
}

/// The request that GETs a JSON endpoint, sending `auth` as the Authorization header when present.
/// The CritiqueBrainz rating endpoints are public, so they pass `None`.
///
/// Every request is followed by the configured gap, so no two ListenBrainz or CritiqueBrainz calls
/// in a pass can land closer together than the politeness floor, whatever the surrounding loop
/// does.
pub fn get_request(url: String, auth: Option<String>, settings: &Settings) -> (r: HttpRequest)
    ensures
        r@ == read_of(url@, crate::settings::opt_text(auth), settings@),
{
    let ghost url_text = url@;
    let ghost auth_text = crate::settings::opt_text(auth);
    let mut headers: Vec<(String, String)> = Vec::new();
    if let Some(auth) = auth {
        headers.push(("Authorization".to_owned(), auth));
    }
    headers.push(("Accept".to_owned(), "application/json".to_owned()));
    headers.push(("User-Agent".to_owned(), settings.user_agent.clone()));
    assert(header_views(headers@) =~= read_headers(auth_text, settings@.user_agent));
    let body: Vec<u8> = Vec::new();
    let request = HttpRequest {
        method: Method::Get,
        url,
        headers,
        body,
        timeout_ms: TIMEOUT_MS,
        gap_ms: settings.request_delay_ms,
    };
    assert(request@.body =~= Seq::empty());
    request
}

/// What a read that was sent comes to: the text of the body and whether the rate-limit window is
/// exhausted, or why the pass stops.
pub open spec fn read_outcome(sent: Result<Option<HttpResponse>, String>) -> Result<
    (Text, bool),
    StopView,
> {
    match sent {
        Err(message) => Err(StopView::Fatal(message@)),
        Ok(None) => Err(StopView::Fatal("empty HTTP response"@)),
        Ok(Some(response)) => if !(200 <= response.status_code < 300) {
            Err(stop_of(response.status_code as int))
        } else if !utf8::valid_utf8(response.body@) {
            Err(
                StopView::Fatal(
                    "invalid UTF-8 response: "@ + text::utf8_error_text(response.body@),
                ),
            )
        } else {
            Ok((utf8::decode_utf8(response.body@), window_exhausted(header_views(response.headers@))))
        },
    }
}

/// What a read comes to, as text.
pub open spec fn read_result(r: Result<(String, bool), Stop>) -> Result<(Text, bool), StopView> {
    match r {
        Ok((body, exhausted)) => Ok((body@, exhausted)),
        Err(stop) => Err(stop@),
    }
}

/// Reads what came back of a GET. The bool is true when the rate-limit window is exhausted, so the
/// caller must make no further API calls.
pub fn api_get(sent: Result<Option<HttpResponse>, String>) -> (r: Result<(String, bool), Stop>)
    ensures
        read_result(r) == read_outcome(sent),
{
    match sent {
        Err(message) => Err(Stop::Fatal(message)),
        Ok(None) => Err(Stop::Fatal("empty HTTP response".to_owned())),
        Ok(Some(response)) => {
            if !(200 <= response.status_code && response.status_code < 300) {
                return Err(classify_stop(response.status_code));
            }
            let exhausted = rate_limit_exhausted(response.headers.as_slice());
            match text::text_from_utf8(response.body) {
                Ok(body) => Ok((body, exhausted)),
                Err(message) => Err(
                    Stop::Fatal(
                        "invalid UTF-8 response: ".to_owned().concat(message.as_str()),
                    ),
                ),
            }
        },
    }
}

/// What the HTTP status of a write means for the record and for the pass.
pub open spec fn write_status(status: int) -> Status {
    if 200 <= status <= 299 {
        Status::Applied
    } else if status == 401 || status == 403 || status == 429 || 500 <= status <= 599 {
        Status::Stop
    } else {
        Status::Skip
    }
}

/// What a write that was sent comes to.
pub open spec fn write_outcome(sent: Result<Option<HttpResponse>, String>) -> Result<
    (Status, bool),
    Text,
> {
    match sent {
        Err(message) => Err(message@),
        Ok(None) => Err("empty HTTP response"@),
        Ok(Some(response)) => Ok(
            (
                write_status(response.status_code as int),
                window_exhausted(header_views(response.headers@)),
            ),
        ),
    }
}

/// What a write comes to, as text.
pub open spec fn write_result(r: Result<(Status, bool), String>) -> Result<(Status, bool), Text> {
    match r {
        Ok(outcome) => Ok(outcome),
        Err(message) => Err(message@),
    }
}

/// Reads what came back of love feedback. The bool is true when the rate-limit window is
/// exhausted.
pub fn submit_love(sent: Result<Option<HttpResponse>, String>) -> (r: Result<
    (Status, bool),
    String,
>)
    ensures
        write_result(r) == write_outcome(sent),
{
    match sent {
        Err(message) => Err(message),
        Ok(None) => Err("empty HTTP response".to_owned()),
        Ok(Some(response)) => {
            let exhausted = rate_limit_exhausted(response.headers.as_slice());
            let code: i32 = response.status_code;
            let status = if 200 <= code && code <= 299 {
                Status::Applied
            } else if code == 401 || code == 403 || code == 429 || (500 <= code && code <= 599) {
                Status::Stop
            } else {
                Status::Skip
            };
            Ok((status, exhausted))
        },
    }
}

} // verus!
