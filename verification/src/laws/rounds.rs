//! What a pass gets round to over a whole run.

use vstd::prelude::*;
use crate::critique::CritiquePhaseView;
use crate::laws::conduct;
use crate::laws::permits;
use crate::laws::turns;
use crate::listenbrainz;
use crate::pass;
use crate::pass::{PassPhaseView, PassView};
use crate::protocol::{ActionView, EventView, Reply};
use crate::ratings::{RaterView, RatingsView};
use crate::settings::SettingsView;
use crate::text::Text;
use crate::user::UserPhaseView;

verus! {

/// A run of a pass asks for the token check of the link at `i` behind the first `n` answers.
pub open spec fn checks_at(
    settings: SettingsView,
    authorized: Set<Text>,
    events: Seq<EventView>,
    n: int,
    i: int,
) -> bool {
    permits::run(settings, authorized, events.take(n)).1.action == Some(
        ActionView::Fetch {
            request: listenbrainz::token_check(settings.links[i].token, settings),
            reply: Reply::Token,
        },
    )
}

/// A run of a pass asks for the token check of the link at `i` at some time.
pub open spec fn is_checked(
    settings: SettingsView,
    authorized: Set<Text>,
    events: Seq<EventView>,
    i: int,
) -> bool {
    exists|n: int|
        0 <= n <= events.len() && #[trigger] checks_at(settings, authorized, events, n, i)
}

/// A pass to which nothing says that no further calls may be made.
spec fn undisturbed(pass: PassView) -> bool {
    match pass.phase {
        PassPhaseView::Token => true,
        PassPhaseView::Critique { stop, critique, .. } => !stop && !critique.halted && (
        critique.phase matches CritiquePhaseView::Rating { ratings, .. } ==> !ratings.halted),
        PassPhaseView::User { user, .. } => match user {
            UserPhaseView::Keys { .. } => true,
            UserPhaseView::Inbound { inbound } => !inbound.halted,
            UserPhaseView::Outbound { outbound } => !outbound.halted,
            UserPhaseView::Finished { .. } => false,
        },
        PassPhaseView::Finished => true,
    }
}

proof fn ratings_stay_undisturbed(sync: RatingsView, event: EventView, rater: RaterView)
    requires
        !sync.halted,
        !conduct::ends_the_calls(event),
    ensures
        !sync.step(event, rater).0.halted,
{
}

/// A step of an undisturbed pass leaves it with its link, or goes on with the next assigned one.
proof fn an_undisturbed_step(pass: PassView, event: EventView)
    requires
        0 <= pass.index,
        undisturbed(pass),
        !(pass.phase is Finished),
        !conduct::ends_the_calls(event),
    ensures
        ({
            let r = pass.step(event);
            &&& undisturbed(r.0)
            &&& r.0.settings == pass.settings
            &&& r.0.authorized == pass.authorized
            &&& (r.0.index == pass.index && !(r.0.phase is Finished)) || turns::goes_on_from(
                r,
                pass.settings,
                pass.authorized,
                pass.index + 1,
            )
        }),
{
    turns::the_next_link_is_the_first_assigned_one(
        pass.settings.links,
        pass.index + 1,
        pass.authorized,
    );
    match pass.phase {
        PassPhaseView::Token => {},
        PassPhaseView::Critique { resolved, stop, critique } => {
            turns::the_listenbrainz_half_follows_the_critiquebrainz_half(
                pass,
                resolved,
                stop,
                critique,
                event,
            );
            let half = critique.step(event, pass.settings, pass.settings.links[pass.index]);
            if let CritiquePhaseView::Rating { user_id, ratings, .. } = critique.phase {
                ratings_stay_undisturbed(
                    ratings,
                    event,
                    RaterView {
                        settings: pass.settings,
                        link: pass.settings.links[pass.index],
                        user_id,
                    },
                );
            }
            assert(!half.0.halted);
        },
        PassPhaseView::User { lb_username, user } => {
            turns::every_assigned_link_has_its_turn(pass, lb_username, user, event);
        },
        PassPhaseView::Finished => {},
    }
}

proof fn a_check_is_kept(
    settings: SettingsView,
    authorized: Set<Text>,
    events: Seq<EventView>,
    i: int,
)
    requires
        events.len() > 0,
        is_checked(settings, authorized, events.drop_last(), i),
    ensures
        is_checked(settings, authorized, events, i),
{
    let before = events.drop_last();
    let n = choose|n: int|
        0 <= n <= before.len() && #[trigger] checks_at(settings, authorized, before, n, i);
    assert(before.take(n) =~= events.take(n));
    assert(checks_at(settings, authorized, events, n, i));
}

proof fn links_are_checked_up_to_the_one_at_work(
    settings: SettingsView,
    authorized: Set<Text>,
    events: Seq<EventView>,
)
    requires
        forall|k: int| 0 <= k < events.len() ==> !conduct::ends_the_calls(#[trigger] events[k]),
    ensures
        ({
            let pass = permits::run(settings, authorized, events).0;
            &&& undisturbed(pass)
            &&& pass.settings == settings
            &&& pass.authorized == authorized
            &&& 0 <= pass.index
            &&& forall|i: int|
                0 <= i < settings.links.len() && authorized.contains(
                    (#[trigger] settings.links[i]).nd_username,
                ) && (pass.phase is Finished || i <= pass.index) ==> is_checked(
                    settings,
                    authorized,
                    events,
                    i,
                )
        }),
    decreases events.len(),
{
    let r = permits::run(settings, authorized, events);
    let pass = r.0;
    let links = settings.links;
    assert(events.take(events.len() as int) =~= events);
    if events.len() == 0 {
        turns::a_pass_begins_with_the_first_assigned_link(settings, authorized);
        turns::the_next_link_is_the_first_assigned_one(links, 0, authorized);
        assert forall|i: int|
            0 <= i < links.len() && authorized.contains((#[trigger] links[i]).nd_username) && (
            pass.phase is Finished || i <= pass.index) implies is_checked(
            settings,
            authorized,
            events,
            i,
        ) by {
            let first = pass::next_authorized(links, 0, authorized)->0;
            assert(turns::first_assigned(links, 0, authorized, first));
            assert(i == first);
            assert(checks_at(settings, authorized, events, 0, i));
        }
    } else {
        let rest = events.drop_last();
        assert forall|k: int| 0 <= k < rest.len() implies !conduct::ends_the_calls(
            #[trigger] rest[k],
        ) by {
            assert(rest[k] == events[k]);
        }
        links_are_checked_up_to_the_one_at_work(settings, authorized, rest);
        let before = permits::run(settings, authorized, rest).0;
        assert(!conduct::ends_the_calls(events[events.len() - 1]));
        if !(before.phase is Finished) {
            an_undisturbed_step(before, events.last());
            turns::the_next_link_is_the_first_assigned_one(links, before.index + 1, authorized);
        }
        assert forall|i: int|
            0 <= i < links.len() && authorized.contains((#[trigger] links[i]).nd_username) && (
            pass.phase is Finished || i <= pass.index) implies is_checked(
            settings,
            authorized,
            events,
            i,
        ) by {
            if before.phase is Finished || i <= before.index {
                a_check_is_kept(settings, authorized, events, i);
            } else {
                let next = pass::next_authorized(links, before.index + 1, authorized)->0;
                assert(turns::first_assigned(links, before.index + 1, authorized, next));
                assert(i == next);
                assert(checks_at(settings, authorized, events, events.len() as int, i));
            }
        }
    }
}

/// Every assigned link is worked for: in a run that came to its end without a rate limit, a stop or
/// an exhausted window, the token of every link whose user the plugin is assigned to was checked.
pub proof fn every_assigned_link_is_worked_for(
    settings: SettingsView,
    authorized: Set<Text>,
    events: Seq<EventView>,
    i: int,
)
    requires
        forall|k: int| 0 <= k < events.len() ==> !conduct::ends_the_calls(#[trigger] events[k]),
        permits::run(settings, authorized, events).0.phase is Finished,
        0 <= i < settings.links.len(),
        authorized.contains(settings.links[i].nd_username),
    ensures
        is_checked(settings, authorized, events, i),
{
    links_are_checked_up_to_the_one_at_work(settings, authorized, events);
}

} // verus!
