//! How a pass behaves towards ListenBrainz, CritiqueBrainz and Navidrome.

use vstd::prelude::*;
use vstd::utf8;
use crate::critique::CritiquePhaseView;
use crate::critiquebrainz;
use crate::critiquebrainz::CB_ROOT;
use crate::http;
use crate::http::{HttpRequestView, Method};
use crate::json;
use crate::laws::permits;
use crate::laws::safety;
use crate::listenbrainz;
use crate::listenbrainz::{LB_ROOT, LOVE};
use crate::mbid;
use crate::pass;
use crate::pass::{PassPhaseView, PassView};
use crate::protocol::{ActionView, EventView, Reply};
use crate::ratings::{RaterView, RatingsView};
use crate::settings::{SettingsView, UserLinkView};
use crate::subsonic;
use crate::text::Text;
use crate::user::UserPhaseView;

verus! {

/// The request that an action sends, where it sends one.
pub open spec fn sent(action: ActionView) -> Option<HttpRequestView> {
    match action {
        ActionView::Fetch { request, .. } => Some(request),
        ActionView::Love { request } => Some(request),
        _ => None,
    }
}

/// Every request of a pass is followed by the configured gap and names the plugin. With settings
/// that are in bounds the gap is never shorter than the politeness floor.
pub proof fn every_request_keeps_the_gap(
    settings: SettingsView,
    authorized: Set<Text>,
    events: Seq<EventView>,
)
    requires
        settings.batch_size > 0,
    ensures
        permits::run(settings, authorized, events).1.action matches Some(action) ==> (sent(
            action,
        ) matches Some(request) ==> {
            &&& request.gap_ms == settings.request_delay_ms
            &&& settings.in_bounds() ==> request.gap_ms >= 1000
            &&& request.headers.contains(("User-Agent"@, settings.user_agent))
        }),
{
    safety::a_pass_does_only_what_it_may(settings, authorized, events);
    if let Some(action) = permits::run(settings, authorized, events).1.action {
        if let Some(request) = sent(action) {
            let link = choose|link: UserLinkView|
                #[trigger] permits::assigned(link, settings, authorized)
                    && permits::permitted_action(action, settings, link);
            let last = request.headers.len() - 1;
            assert(request.headers[last] == ("User-Agent"@, settings.user_agent));
        }
    }
}

/// What is said of a request that bears a token: it goes to ListenBrainz, and the token is that of
/// the link.
pub open spec fn bears_own_token(request: HttpRequestView, link: UserLinkView) -> bool {
    &&& LB_ROOT@.is_prefix_of(request.url)
    &&& request.headers[0] == ("Authorization"@, listenbrainz::token_auth(link.token))
}

/// What is said of a request without a token: it only reads, and from CritiqueBrainz.
pub open spec fn reads_in_public(request: HttpRequestView) -> bool {
    &&& CB_ROOT@.is_prefix_of(request.url)
    &&& request.method == Method::Get
    &&& request.body.len() == 0
    &&& forall|i: int|
        0 <= i < request.headers.len() ==> (#[trigger] request.headers[i]).0 != "Authorization"@
}

proof fn a_token_read_bears_it(url: Text, link: UserLinkView, settings: SettingsView)
    requires
        LB_ROOT@.is_prefix_of(url),
    ensures
        bears_own_token(
            http::read_of(url, Some(listenbrainz::token_auth(link.token)), settings),
            link,
        ),
{
    let headers = http::read_headers(
        Some(listenbrainz::token_auth(link.token)),
        settings.user_agent,
    );
    assert(headers[0] == ("Authorization"@, listenbrainz::token_auth(link.token)));
}

proof fn a_read_without_token_is_public(url: Text, settings: SettingsView)
    requires
        CB_ROOT@.is_prefix_of(url),
    ensures
        reads_in_public(http::read_of(url, None, settings)),
{
    reveal_strlit("Authorization");
    reveal_strlit("Accept");
    reveal_strlit("User-Agent");
    assert("Accept"@.len() != "Authorization"@.len());
    assert("User-Agent"@.len() != "Authorization"@.len());
    let headers = http::read_headers(None, settings.user_agent);
    assert(headers[0].0 == "Accept"@);
    assert(headers[1].0 == "User-Agent"@);
}

proof fn a_permitted_read_is_open(
    request: HttpRequestView,
    reply: Reply,
    settings: SettingsView,
    link: UserLinkView,
)
    requires
        permits::permitted_read(request, reply, settings, link),
    ensures
        reads_in_public(request) || bears_own_token(request, link),
{
    match reply {
        Reply::Token => {
            a_token_read_bears_it(LB_ROOT@ + "/validate-token"@, link, settings);
        },
        Reply::Feedback => {
            let (lb_username, offset) = choose|lb_username: Text, offset: int|
                request == #[trigger] listenbrainz::feedback_read(
                    link.token,
                    lb_username,
                    offset,
                    settings,
                );
            a_token_read_bears_it(listenbrainz::feedback_url(lb_username, offset), link, settings);
        },
        Reply::CbUser | Reply::Reviews => {
            a_read_without_token_is_public(request.url, settings);
        },
    }
}

/// A token is sent to ListenBrainz alone, and only for the link that it belongs to; CritiqueBrainz
/// is only read from, and never with a token.
pub proof fn a_token_goes_to_listenbrainz_alone(
    settings: SettingsView,
    authorized: Set<Text>,
    events: Seq<EventView>,
)
    requires
        settings.batch_size > 0,
    ensures
        permits::run(settings, authorized, events).1.action matches Some(action) ==> (sent(
            action,
        ) matches Some(request) ==> reads_in_public(request) || exists|link: UserLinkView|
            #[trigger] permits::assigned(link, settings, authorized) && bears_own_token(
                request,
                link,
            )),
{
    safety::a_pass_does_only_what_it_may(settings, authorized, events);
    if let Some(action) = permits::run(settings, authorized, events).1.action {
        let link = choose|link: UserLinkView|
            #[trigger] permits::assigned(link, settings, authorized) && permits::permitted_action(
                action,
                settings,
                link,
            );
        assert(permits::assigned(link, settings, authorized));
        match action {
            ActionView::Fetch { request, reply } => {
                a_permitted_read_is_open(request, reply, settings, link);
            },
            ActionView::Love { request } => {
                assert(bears_own_token(request, link));
            },
            _ => {},
        }
    }
}

/// A well-formed recording id stands for itself in JSON.
proof fn a_recording_id_is_plain(value: Text)
    requires
        mbid::mbid_shaped(value),
    ensures
        json::plain(value),
{
}

/// Only additions are propagated. Every change in Navidrome is a star call or sets a rating of one
/// to five stars, and every change on ListenBrainz is love feedback for one recording: its score is
/// never another one.
pub proof fn only_additions_are_propagated(
    settings: SettingsView,
    authorized: Set<Text>,
    events: Seq<EventView>,
)
    requires
        settings.batch_size > 0,
    ensures
        permits::run(settings, authorized, events).1.action matches Some(action) ==> match action {
            ActionView::Update { uri } => {
                ||| "star?"@.is_prefix_of(uri)
                ||| exists|nd_username: Text, id: Text, rating: int|
                    critiquebrainz::on_scale(rating) && uri == #[trigger] subsonic::rating_call(
                        nd_username,
                        id,
                        rating,
                    )
            },
            ActionView::Love { request } => exists|mbid: Text|
                mbid::mbid_shaped(mbid) && request.body == #[trigger] utf8::encode_utf8(
                    json::object_text("recording_mbid"@, mbid, "score"@, LOVE as int),
                ),
            _ => true,
        },
{
    safety::a_pass_does_only_what_it_may(settings, authorized, events);
    if let Some(action) = permits::run(settings, authorized, events).1.action {
        let link = choose|link: UserLinkView|
            #[trigger] permits::assigned(link, settings, authorized) && permits::permitted_action(
                action,
                settings,
                link,
            );
        match action {
            ActionView::Update { uri } => {
                if exists|ids: Seq<Text>| uri == #[trigger] subsonic::star_songs_call(
                    link.nd_username,
                    ids,
                ) {
                    assert("star?"@.is_prefix_of(uri));
                }
            },
            ActionView::Love { request } => {
                let mbid = choose|mbid: Text|
                    mbid::mbid_shaped(mbid) && request == #[trigger] listenbrainz::love_write(
                        link.token,
                        mbid,
                        settings,
                    );
                a_recording_id_is_plain(mbid);
                assert(request.body == utf8::encode_utf8(
                    json::object_text("recording_mbid"@, mbid, "score"@, LOVE as int),
                ));
            },
            _ => {},
        }
    }
}

/// A pass that goes on from a state with a sequence of answers.
pub open spec fn after(pass: PassView, events: Seq<EventView>) -> PassView
    decreases events.len(),
{
    if events.len() == 0 {
        pass
    } else {
        after(pass, events.drop_last()).step(events.last()).0
    }
}

/// A rate limit or an exhausted window at a token check ends the pass behind this link: whatever
/// the host answers from there on, no other link is worked for. Behind a rate limit this one is
/// still worked for as far as CritiqueBrainz goes; behind an exhausted window nothing more is asked
/// for.
pub proof fn a_limited_token_check_ends_the_pass(
    pass: PassView,
    event: EventView,
    rest: Seq<EventView>,
)
    requires
        pass.phase is Token,
        pass::token_outcome(event).1 || pass::token_exhausts(event),
    ensures
        ({
            let later = after(pass.step(event).0, rest);
            &&& later.index == pass.index
            &&& later.phase is Critique || later.phase is Finished
        }),
        pass::token_exhausts(event) ==> {
            &&& pass.step(event).1.action is None
            &&& after(pass.step(event).0, rest).phase is Finished
        },
{
    stopped_pass_stays_stopped(
        pass.step(event).0,
        pass.index,
        pass::token_exhausts(event),
        rest,
    );
}

spec fn stopping(pass: PassView, index: int, over: bool) -> bool {
    &&& pass.index == index
    &&& match pass.phase {
        PassPhaseView::Critique { stop, .. } => stop && !over,
        PassPhaseView::Finished => true,
        _ => false,
    }
}

proof fn stopped_pass_stays_stopped(
    pass: PassView,
    index: int,
    over: bool,
    rest: Seq<EventView>,
)
    requires
        stopping(pass, index, over),
    ensures
        stopping(after(pass, rest), index, over),
    decreases rest.len(),
{
    if rest.len() > 0 {
        stopped_pass_stays_stopped(pass, index, over, rest.drop_last());
    }
}

/// Where a token gives no username, the link is left behind its CritiqueBrainz half: its
/// ListenBrainz half is never begun.
pub proof fn without_a_username_listenbrainz_is_left_alone(pass: PassView, event: EventView)
    requires
        match pass.phase {
            PassPhaseView::Token => pass::token_outcome(event).0 is None,
            PassPhaseView::Critique { resolved, .. } => resolved is None,
            _ => false,
        },
    ensures
        !(pass.step(event).0.phase is User),
        pass.step(event).0.phase matches PassPhaseView::Critique { resolved, .. }
            ==> resolved is None && pass.step(event).0.index == pass.index,
{
}

/// The sync of an entity type that goes on from a state with a sequence of answers.
pub open spec fn ratings_after(
    sync: RatingsView,
    rater: RaterView,
    events: Seq<EventView>,
) -> RatingsView
    decreases events.len(),
{
    if events.len() == 0 {
        sync
    } else {
        ratings_after(sync, rater, events.drop_last()).step(events.last(), rater).0
    }
}

/// Whether an answer says that no further calls may be made: the service is rate limited or fails
/// for now, a love was answered with a stop, or the rate-limit window is exhausted, whether the
/// answer itself decodes or not.
pub open spec fn ends_the_calls(event: EventView) -> bool {
    match event {
        EventView::Token(_, exhausted) => exhausted,
        EventView::CbUser(_, exhausted) => exhausted,
        EventView::Feedback(_, exhausted) => exhausted,
        EventView::Reviews(_, exhausted) => exhausted,
        EventView::Love(status, exhausted) => status is Stop || exhausted,
        _ => event.limits(),
    }
}

/// Whether a pass waits for the answer to a request, and the answer belongs to that request, does
/// not decode or says that the request failed. A token check that failed is left out:
/// CritiqueBrainz needs no token and is still worked for.
pub open spec fn answers_a_request(pass: PassView, event: EventView) -> bool {
    match pass.phase {
        PassPhaseView::Token => event is Token || event is Malformed,
        PassPhaseView::Critique { critique, .. } => match critique.phase {
            CritiquePhaseView::Account { .. } => event is CbUser || event is Malformed
                || event is Failed,
            CritiquePhaseView::Rating { ratings, .. } => ratings.phase is Page && (event is Reviews
                || event is Malformed || event is Failed),
            _ => false,
        },
        PassPhaseView::User { user, .. } => match user {
            UserPhaseView::Inbound { inbound } => inbound.phase is Page && (event is Feedback
                || event is Malformed || event is Failed),
            UserPhaseView::Outbound { outbound } => outbound.phase is Loving && event is Love,
            _ => false,
        },
        PassPhaseView::Finished => false,
    }
}

/// Only local work is left: the songs and items of the page at hand.
spec fn winding_up(pass: PassView) -> bool {
    match pass.phase {
        PassPhaseView::Token => false,
        PassPhaseView::Critique { critique, .. } => match critique.phase {
            CritiquePhaseView::Rating { ratings, .. } => ratings.halted && !(ratings.phase is Page)
                && !(ratings.phase is Finished),
            _ => false,
        },
        PassPhaseView::User { user, .. } => match user {
            UserPhaseView::Inbound { inbound } => inbound.halted && !(inbound.phase is Page) && !(
            inbound.phase is Finished),
            _ => false,
        },
        PassPhaseView::Finished => true,
    }
}

proof fn a_step_winds_up(pass: PassView, event: EventView)
    requires
        winding_up(pass) || (answers_a_request(pass, event) && ends_the_calls(event)),
    ensures
        winding_up(pass.step(event).0),
        pass.step(event).1.action matches Some(action) ==> sent(action) is None,
{
    match pass.phase {
        PassPhaseView::Critique { critique, .. } => match critique.phase {
            CritiquePhaseView::Rating { user_id, ratings, .. } => {
                let rater = RaterView { settings: pass.settings, link: pass.link(), user_id };
                let r = ratings.step(event, rater);
                assert(r.0.halted);
                assert(!(r.0.phase is Page));
                assert(r.1.action matches Some(action) ==> sent(action) is None);
            },
            _ => {},
        },
        PassPhaseView::User { lb_username, user } => match user {
            UserPhaseView::Inbound { inbound } => {
                let r = inbound.step(event, pass.target(lb_username));
                assert(r.0.halted);
                assert(!(r.0.phase is Page));
                assert(r.1.action matches Some(action) ==> sent(action) is None);
            },
            _ => {},
        },
        _ => {},
    }
}

proof fn a_wound_up_pass_stays_so(pass: PassView, rest: Seq<EventView>)
    requires
        winding_up(pass),
    ensures
        winding_up(after(pass, rest)),
    decreases rest.len(),
{
    if rest.len() > 0 {
        a_wound_up_pass_stays_so(pass, rest.drop_last());
        a_step_winds_up(after(pass, rest.drop_last()), rest.last());
    }
}

/// Once a rate-limit window is exhausted, a love is answered with a stop, or a service is rate
/// limited or fails for now at anything but a token check, the pass makes no further request to
/// ListenBrainz or CritiqueBrainz, whatever the host answers from there on: neither for this user
/// nor for another. What is left of the page at hand is still dealt with in Navidrome.
pub proof fn a_limit_ends_the_calls_of_the_pass(
    pass: PassView,
    event: EventView,
    rest: Seq<EventView>,
    next: EventView,
)
    requires
        answers_a_request(pass, event),
        ends_the_calls(event),
    ensures
        pass.step(event).1.action matches Some(action) ==> sent(action) is None,
        after(pass.step(event).0, rest).step(next).1.action matches Some(action) ==> sent(
            action,
        ) is None,
{
    a_step_winds_up(pass, event);
    a_wound_up_pass_stays_so(pass.step(event).0, rest);
    a_step_winds_up(after(pass.step(event).0, rest), next);
}

} // verus!
