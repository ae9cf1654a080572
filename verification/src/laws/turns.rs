//! Whose turn it is: what follows each answer, from the links of a pass down to single writes.

use vstd::prelude::*;
use crate::critique::{CritiquePhaseView, CritiqueView};
use crate::critiquebrainz;
use crate::inbound::{InboundView, TargetView};
use crate::listenbrainz;
use crate::outbound::OutboundView;
use crate::pass;
use crate::pass::{PassPhaseView, PassView};
use crate::protocol::{ActionView, EventView, NoteView, OutputView, Reply};
use crate::ratings::{RaterView, RatingsView};
use crate::settings::{SettingsView, UserLinkView};
use crate::text::Text;
use crate::user::UserPhaseView;

verus! {

/// The first link from `from` on whose user the plugin is assigned to.
pub open spec fn first_assigned(
    links: Seq<UserLinkView>,
    from: int,
    authorized: Set<Text>,
    i: int,
) -> bool {
    &&& from <= i < links.len()
    &&& authorized.contains(links[i].nd_username)
    &&& forall|j: int| from <= j < i ==> !authorized.contains((#[trigger] links[j]).nd_username)
}

/// No link from `from` on has a user that the plugin is assigned to.
pub open spec fn none_assigned(links: Seq<UserLinkView>, from: int, authorized: Set<Text>) -> bool {
    forall|j: int|
        from <= j < links.len() ==> !authorized.contains((#[trigger] links[j]).nd_username)
}

/// No assigned link is passed over: the next one is the first that is assigned, and there is none
/// just when none is assigned.
pub proof fn the_next_link_is_the_first_assigned_one(
    links: Seq<UserLinkView>,
    from: int,
    authorized: Set<Text>,
)
    requires
        0 <= from,
    ensures
        forall|i: int| #[trigger]
            first_assigned(links, from, authorized, i) ==> pass::next_authorized(
                links,
                from,
                authorized,
            ) == Some(i),
        none_assigned(links, from, authorized) <==> pass::next_authorized(
            links,
            from,
            authorized,
        ) is None,
        pass::next_authorized(links, from, authorized) matches Some(i) ==> first_assigned(
            links,
            from,
            authorized,
            i,
        ),
    decreases links.len() - from,
{
    if from < links.len() && !authorized.contains(links[from].nd_username) {
        the_next_link_is_the_first_assigned_one(links, from + 1, authorized);
        assert forall|i: int| #[trigger] first_assigned(links, from, authorized, i) implies
            pass::next_authorized(links, from, authorized) == Some(i) by {
            assert(first_assigned(links, from + 1, authorized, i));
        }
        if let Some(i) = pass::next_authorized(links, from, authorized) {
            assert(first_assigned(links, from + 1, authorized, i));
        }
    } else if from < links.len() {
        assert forall|i: int| #[trigger] first_assigned(links, from, authorized, i) implies
            pass::next_authorized(links, from, authorized) == Some(i) by {
            if i != from {
                assert(!authorized.contains(links[from].nd_username));
            }
        }
    }
}

/// A pass that now checks the token of the link at `i`.
pub open spec fn checks_the_token(
    stepped: (PassView, OutputView),
    settings: SettingsView,
    authorized: Set<Text>,
    i: int,
) -> bool {
    &&& stepped.0.settings == settings
    &&& stepped.0.authorized == authorized
    &&& stepped.0.index == i
    &&& stepped.0.phase is Token
    &&& stepped.1.action == Some(
        ActionView::Fetch {
            request: listenbrainz::token_check(settings.links[i].token, settings),
            reply: Reply::Token,
        },
    )
}

/// A pass that goes on with the first assigned link from `from` on: its token is checked. Without
/// one the pass is over.
pub open spec fn goes_on_from(
    stepped: (PassView, OutputView),
    settings: SettingsView,
    authorized: Set<Text>,
    from: int,
) -> bool {
    &&& forall|i: int| #[trigger]
        first_assigned(settings.links, from, authorized, i) ==> checks_the_token(
            stepped,
            settings,
            authorized,
            i,
        )
    &&& none_assigned(settings.links, from, authorized) ==> stepped.0.phase is Finished
        && stepped.1.action is None
}

/// A pass that is over with the link at work, as no further calls may be made: it tells of that
/// behind what it tells of anyhow.
pub open spec fn is_stopped(
    pass: PassView,
    stepped: (PassView, OutputView),
    before: Seq<NoteView>,
) -> bool {
    &&& stepped.0.phase is Finished
    &&& stepped.1.action is None
    &&& stepped.1.notes == before.push(
        NoteView::PassStopped { nd_username: pass.settings.links[pass.index].nd_username },
    )
}

/// A pass begins with the first assigned link, and says and records nothing by that.
pub proof fn a_pass_begins_with_the_first_assigned_link(
    settings: SettingsView,
    authorized: Set<Text>,
)
    ensures
        goes_on_from(PassView::started(settings, authorized), settings, authorized, 0),
        PassView::started(settings, authorized).1.notes.len() == 0,
        PassView::started(settings, authorized).1.persist.len() == 0,
{
    the_next_link_is_the_first_assigned_one(settings.links, 0, authorized);
}

/// Whom the ListenBrainz half of the link at work is for.
pub open spec fn worked_for(pass: PassView, lb_username: Text) -> TargetView {
    TargetView { settings: pass.settings, link: pass.settings.links[pass.index], lb_username }
}

/// Behind the ListenBrainz half of a link the first assigned link behind it has its turn, unless
/// no further calls may be made: then the pass is over. Until the half is done, the pass asks for
/// what the half asks for. Whatever the half records and says, the pass records and says.
pub proof fn every_assigned_link_has_its_turn(
    pass: PassView,
    lb_username: Text,
    user: UserPhaseView,
    event: EventView,
)
    requires
        0 <= pass.index,
        pass.phase == (PassPhaseView::User { lb_username, user }),
    ensures
        ({
            let half = user.step(event, worked_for(pass, lb_username));
            let r = pass.step(event);
            &&& r.1.persist == half.1.persist
            &&& half.0 == (UserPhaseView::Finished { halted: false }) ==> goes_on_from(
                r,
                pass.settings,
                pass.authorized,
                pass.index + 1,
            ) && r.1.notes == half.1.notes
            &&& half.0 == (UserPhaseView::Finished { halted: true }) ==> is_stopped(
                pass,
                r,
                half.1.notes,
            )
            &&& !(half.0 is Finished) ==> r.0 == (PassView {
                phase: PassPhaseView::User { lb_username, user: half.0 },
                ..pass
            }) && r.1 == half.1
        }),
{
    the_next_link_is_the_first_assigned_one(
        pass.settings.links,
        pass.index + 1,
        pass.authorized,
    );
    let half = user.step(event, worked_for(pass, lb_username));
    let r = pass.step(event);
    assert(r.1.persist =~= half.1.persist);
    if half.0 == (UserPhaseView::Finished { halted: false }) {
        assert(r.1.notes =~= half.1.notes);
    } else if half.0 == (UserPhaseView::Finished { halted: true }) {
        assert(r.1.notes =~= half.1.notes.push(
            NoteView::PassStopped { nd_username: pass.settings.links[pass.index].nd_username },
        ));
    }
}

/// The key prefix of the recordings that are settled for a user.
pub open spec fn recordings_of(nd_username: Text) -> Text {
    "synced:"@ + nd_username + seq![':']
}

/// The key prefix of the states that are applied for a user.
pub open spec fn states_of(nd_username: Text) -> Text {
    "cbsynced:"@ + nd_username + seq![':']
}

/// A pass that begins the ListenBrainz half of the link at work with a budget: what is settled for
/// its user is asked for.
pub open spec fn begins_listenbrainz(
    pass: PassView,
    stepped: (PassView, OutputView),
    lb_username: Text,
    budget: int,
) -> bool {
    &&& stepped.0 == (PassView {
        phase: PassPhaseView::User { lb_username, user: UserPhaseView::Keys { budget } },
        ..pass
    })
    &&& stepped.1.action == Some(
        ActionView::ListKeys {
            prefix: recordings_of(pass.settings.links[pass.index].nd_username),
        },
    )
}

proof fn the_prefixes_are_spelled_out(nd_username: Text)
    ensures
        crate::settled::synced_prefix(nd_username) == recordings_of(nd_username),
        crate::settled::cbsynced_prefix(nd_username) == states_of(nd_username),
{
    assert(crate::settled::synced_prefix(nd_username) =~= recordings_of(nd_username));
    assert(crate::settled::cbsynced_prefix(nd_username) =~= states_of(nd_username));
}

/// What a token check gives: the name that comes with a valid token.
pub open spec fn name_given(event: EventView) -> Option<Text> {
    match event {
        EventView::Token(name, _) => name,
        _ => None,
    }
}

/// Whether an answer says that the service is rate limited.
pub open spec fn says_limited(event: EventView) -> bool {
    event matches EventView::Failed(stop) && stop is RateLimited
}

/// Whether the answer to a token check says that the window is exhausted.
pub open spec fn says_exhausted(event: EventView) -> bool {
    ||| event matches EventView::Token(_, exhausted) && exhausted
    ||| event matches EventView::Malformed(exhausted) && exhausted
}

/// Behind a token check without any rule, the ListenBrainz half begins with the whole limit where
/// the token gave a name. Where it gave none, the next link has its turn, unless the service is
/// rate limited. An invalid token is told of.
pub proof fn a_token_check_opens_the_listenbrainz_half(pass: PassView, event: EventView)
    requires
        0 <= pass.index,
        pass.phase is Token,
        pass.settings.cb_rules.len() == 0,
    ensures
        ({
            let r = pass.step(event);
            let nd_username = pass.settings.links[pass.index].nd_username;
            &&& r.1.persist.len() == 0
            &&& !says_exhausted(event) ==> match name_given(event) {
                Some(name) => begins_listenbrainz(pass, r, name, pass.settings.max_per_run)
                    && r.1.notes.len() == 0,
                None => if says_limited(event) {
                    is_stopped(pass, r, Seq::empty())
                } else {
                    &&& goes_on_from(r, pass.settings, pass.authorized, pass.index + 1)
                    &&& event is Token ==> r.1.notes == seq![
                        NoteView::InvalidToken { nd_username },
                    ]
                    &&& !(event is Token) ==> r.1.notes.len() == 0
                },
            }
        }),
{
    the_next_link_is_the_first_assigned_one(
        pass.settings.links,
        pass.index + 1,
        pass.authorized,
    );
    let nd_username = pass.settings.links[pass.index].nd_username;
    the_prefixes_are_spelled_out(nd_username);
    let r = pass.step(event);
    if !says_exhausted(event) {
        if event is Token && name_given(event) is None {
            assert(r.1.notes =~= seq![NoteView::InvalidToken { nd_username }]);
        } else if says_limited(event) {
            assert(r.1.notes =~= Seq::empty().push(NoteView::PassStopped { nd_username }));
        }
    }
}

/// A token check that exhausts the window ends the pass, and both are told of.
pub proof fn an_exhausting_token_check_is_told_of(pass: PassView, event: EventView)
    requires
        pass.phase is Token,
        says_exhausted(event),
    ensures
        ({
            let r = pass.step(event);
            let nd_username = pass.settings.links[pass.index].nd_username;
            &&& r.0.phase is Finished
            &&& r.1.action is None
            &&& r.1.persist.len() == 0
            &&& r.1.notes == if event is Token && name_given(event) is None {
                seq![
                    NoteView::InvalidToken { nd_username },
                    NoteView::WindowExhausted { nd_username },
                    NoteView::PassStopped { nd_username },
                ]
            } else {
                seq![
                    NoteView::WindowExhausted { nd_username },
                    NoteView::PassStopped { nd_username },
                ]
            }
        }),
{
    let r = pass.step(event);
    let nd_username = pass.settings.links[pass.index].nd_username;
    if event is Token && name_given(event) is None {
        assert(r.1.notes =~= seq![
            NoteView::InvalidToken { nd_username },
            NoteView::WindowExhausted { nd_username },
            NoteView::PassStopped { nd_username },
        ]);
    } else {
        assert(r.1.notes =~= seq![
            NoteView::WindowExhausted { nd_username },
            NoteView::PassStopped { nd_username },
        ]);
    }
}

/// The CritiqueBrainz name of a link: its own where it has one, and else the one that the token
/// gave.
pub open spec fn critiquebrainz_name(link: UserLinkView, given: Option<Text>) -> Option<Text> {
    if link.cb_username is Some {
        link.cb_username
    } else {
        given
    }
}

/// Behind a token check with rules, the user of the link is looked up at CritiqueBrainz first, with
/// the whole limit. Without a name for it, that is told of, and the next link has its turn.
pub proof fn a_token_check_opens_the_critiquebrainz_half(pass: PassView, event: EventView)
    requires
        0 <= pass.index,
        pass.phase is Token,
        pass.settings.cb_rules.len() > 0,
        !says_exhausted(event),
    ensures
        ({
            let r = pass.step(event);
            let link = pass.settings.links[pass.index];
            let given = name_given(event);
            &&& r.1.persist.len() == 0
            &&& match critiquebrainz_name(link, given) {
                Some(username) => {
                    &&& event is Token && given is None ==> r.1.notes == seq![
                        NoteView::InvalidToken { nd_username: link.nd_username },
                    ]
                    &&& !(event is Token && given is None) ==> r.1.notes.len() == 0
                    &&& r.0 == (PassView {
                        phase: PassPhaseView::Critique {
                            resolved: given,
                            stop: says_limited(event),
                            critique: CritiqueView {
                                budget: pass.settings.max_per_run,
                                changes: 0,
                                halted: false,
                                phase: CritiquePhaseView::Account { username },
                            },
                        },
                        ..pass
                    })
                    &&& r.1.action == Some(
                        ActionView::Fetch {
                            request: critiquebrainz::user_read(username, pass.settings),
                            reply: Reply::CbUser,
                        },
                    )
                },
                None => {
                    let told = if event is Token {
                        seq![
                            NoteView::InvalidToken { nd_username: link.nd_username },
                            NoteView::NoCbUsername { nd_username: link.nd_username },
                        ]
                    } else {
                        seq![NoteView::NoCbUsername { nd_username: link.nd_username }]
                    };
                    if says_limited(event) {
                        is_stopped(pass, r, told)
                    } else {
                        &&& r.1.notes == told
                        &&& goes_on_from(r, pass.settings, pass.authorized, pass.index + 1)
                    }
                },
            }
        }),
{
    the_next_link_is_the_first_assigned_one(
        pass.settings.links,
        pass.index + 1,
        pass.authorized,
    );
    let link = pass.settings.links[pass.index];
    let given = name_given(event);
    let r = pass.step(event);
    let nd_username = link.nd_username;
    if critiquebrainz_name(link, given) is None {
        let told = if event is Token {
            seq![NoteView::InvalidToken { nd_username }, NoteView::NoCbUsername { nd_username }]
        } else {
            seq![NoteView::NoCbUsername { nd_username }]
        };
        if says_limited(event) {
            assert(r.1.notes =~= told.push(NoteView::PassStopped { nd_username }));
        } else {
            assert(r.1.notes =~= told);
        }
    } else if event is Token && given is None {
        assert(r.1.notes =~= seq![NoteView::InvalidToken { nd_username: link.nd_username }]);
    }
}

/// Behind the CritiqueBrainz half of a link its ListenBrainz half begins, where the token gave a
/// name, with what the changes attempted leave of the limit; or else the next link has its turn.
/// Where no further calls may be made, by this half or since the token check, the pass is over.
/// Until the half is done, the pass asks for what the half asks for. Whatever the half records and
/// says, the pass records and says.
pub proof fn the_listenbrainz_half_follows_the_critiquebrainz_half(
    pass: PassView,
    resolved: Option<Text>,
    stop: bool,
    critique: CritiqueView,
    event: EventView,
)
    requires
        0 <= pass.index,
        pass.phase == (PassPhaseView::Critique { resolved, stop, critique }),
    ensures
        ({
            let half = critique.step(event, pass.settings, pass.settings.links[pass.index]);
            let r = pass.step(event);
            &&& r.1.persist == half.1.persist
            &&& if !(half.0.phase is Finished) {
                &&& r.0 == (PassView {
                    phase: PassPhaseView::Critique { resolved, stop, critique: half.0 },
                    ..pass
                })
                &&& r.1 == half.1
            } else if half.0.halted || stop {
                is_stopped(pass, r, half.1.notes)
            } else {
                &&& r.1.notes == half.1.notes
                &&& match resolved {
                    Some(name) => begins_listenbrainz(
                        pass,
                        r,
                        name,
                        half.0.budget - half.0.changes,
                    ),
                    None => goes_on_from(r, pass.settings, pass.authorized, pass.index + 1),
                }
            }
        }),
{
    the_next_link_is_the_first_assigned_one(
        pass.settings.links,
        pass.index + 1,
        pass.authorized,
    );
    let nd_username = pass.settings.links[pass.index].nd_username;
    the_prefixes_are_spelled_out(nd_username);
    let half = critique.step(event, pass.settings, pass.settings.links[pass.index]);
    let r = pass.step(event);
    assert(r.1.persist =~= half.1.persist);
    if half.0.phase is Finished {
        if half.0.halted || stop {
            assert(r.1.notes =~= half.1.notes.push(NoteView::PassStopped { nd_username }));
        } else {
            assert(r.1.notes =~= half.1.notes);
        }
    }
}

/// A pass that is over asks for nothing, records nothing and says nothing.
pub proof fn a_pass_that_is_over_stays_so(pass: PassView, event: EventView)
    requires
        pass.phase is Finished,
    ensures
        pass.step(event).0 == pass,
        pass.step(event).1.action is None,
        pass.step(event).1.persist.len() == 0,
        pass.step(event).1.notes.len() == 0,
{
}

/// So is each of its parts: what is done stays done, whatever is answered.
pub proof fn what_is_done_stays_done(
    inbound: InboundView,
    outbound: OutboundView,
    ratings: RatingsView,
    critique: CritiqueView,
    halted: bool,
    event: EventView,
    target: TargetView,
    rater: RaterView,
)
    requires
        inbound.phase is Finished,
        outbound.phase is Finished,
        ratings.phase is Finished,
        critique.phase is Finished,
    ensures
        is_idle(inbound.step(event, target).1) && inbound.step(event, target).0 == inbound,
        is_idle(outbound.step(event, target).1) && outbound.step(event, target).0 == outbound,
        is_idle(ratings.step(event, rater).1) && ratings.step(event, rater).0 == ratings,
        is_idle(critique.step(event, target.settings, target.link).1) && critique.step(
            event,
            target.settings,
            target.link,
        ).0 == critique,
        is_idle((UserPhaseView::Finished { halted }).step(event, target).1),
        (UserPhaseView::Finished { halted }).step(event, target).0 == (UserPhaseView::Finished {
            halted,
        }),
{
}

/// An output that asks for nothing, records nothing and says nothing.
pub open spec fn is_idle(output: OutputView) -> bool {
    output.action is None && output.persist.len() == 0 && output.notes.len() == 0
}

} // verus!
