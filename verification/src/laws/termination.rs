//! A pass comes to an end.

use vstd::prelude::*;
use crate::critique::{CritiquePhaseView, CritiqueView};
use crate::inbound::{InboundPhaseView, InboundView, PageEnd, StarTargetView, TargetView};
use crate::laws::permits;
use crate::outbound::{OutboundPhaseView, OutboundView};
use crate::pass;
use crate::pass::{PassPhaseView, PassView};
use crate::protocol::EventView;
use crate::ratings;
use crate::ratings::{RaterView, RatingsPhaseView, RatingsView, WalkView};
use crate::settings::{SettingsView, UserLinkView};
use crate::subsonic;
use crate::text::Text;
use crate::user::UserPhaseView;

verus! {

/// How much is left of a walk through pages: offsets, the steps of a page, its rows, the steps of a
/// row, and its writes.
struct Work {
    offsets: int,
    phase: int,
    rows: int,
    stage: int,
    writes: int,
}

/// Nothing left.
spec fn no_work() -> Work {
    Work { offsets: 0, phase: 0, rows: 0, stage: 0, writes: 0 }
}

spec fn sensible(work: Work) -> bool {
    &&& 0 <= work.offsets
    &&& 0 <= work.phase
    &&& 0 <= work.rows
    &&& 0 <= work.stage
    &&& 0 <= work.writes
}

spec fn less_work(a: Work, b: Work) -> bool {
    ||| a.offsets < b.offsets
    ||| a.offsets == b.offsets && {
        ||| a.phase < b.phase
        ||| a.phase == b.phase && {
            ||| a.rows < b.rows
            ||| a.rows == b.rows && {
                ||| a.stage < b.stage
                ||| a.stage == b.stage && a.writes < b.writes
            }
        }
    }
}

spec fn ratings_left(sync: RatingsView) -> Work {
    let offsets = i64::MAX - sync.offset;
    match sync.phase {
        RatingsPhaseView::Page => Work { offsets, phase: 2, rows: 0, stage: 0, writes: 0 },
        RatingsPhaseView::Lookup { walk, at } => Work {
            offsets,
            phase: 1,
            rows: walk.reviews.len() - at,
            stage: 1,
            writes: 0,
        },
        RatingsPhaseView::Writing { walk, at, queue, done, .. } => Work {
            offsets,
            phase: 1,
            rows: walk.reviews.len() - at,
            stage: 0,
            writes: queue.len() - done,
        },
        RatingsPhaseView::Finished => Work { offsets, phase: 0, rows: 0, stage: 0, writes: 0 },
    }
}

spec fn ratings_sensible(sync: RatingsView) -> bool {
    &&& sensible(ratings_left(sync))
    &&& match sync.phase {
        RatingsPhaseView::Lookup { walk, at } => 0 <= at < walk.reviews.len(),
        RatingsPhaseView::Writing { walk, at, queue, done, .. } => 0 <= at < walk.reviews.len() && 0
            <= done < queue.len(),
        _ => true,
    }
}

/// Going on behind the rows before `from` leaves less than a row before `from` did.
proof fn going_on_leaves_less(sync: RatingsView, walk: WalkView, from: int, rater: RaterView)
    requires
        sync.offset <= i64::MAX,
        0 <= from,
    ensures
        ({
            let r = sync.go_on(walk, from, rater).0;
            let offsets = i64::MAX - sync.offset;
            &&& ratings_sensible(r)
            &&& ratings_left(r).offsets < offsets || (ratings_left(r).offsets == offsets && (
            ratings_left(r).phase < 1 || (ratings_left(r).phase == 1 && ratings_left(r).rows
                <= walk.reviews.len() - from)))
        }),
{
    ratings::next_outstanding_is_outstanding(
        walk.reviews,
        from,
        sync.entity,
        sync.rule,
        sync.settled,
    );
}

proof fn a_write_leaves_less(
    sync: RatingsView,
    walk: WalkView,
    at: int,
    queue: Seq<Text>,
    rated: int,
    done: int,
    rater: RaterView,
)
    requires
        sync.offset <= i64::MAX,
        0 <= at < walk.reviews.len(),
        0 <= done <= queue.len(),
    ensures
        ({
            let r = sync.ask_write(walk, at, queue, rated, done, rater).0;
            let before = Work {
                offsets: i64::MAX - sync.offset,
                phase: 1,
                rows: walk.reviews.len() - at,
                stage: 0,
                writes: queue.len() - done + 1,
            };
            &&& ratings_sensible(r)
            &&& less_work(ratings_left(r), before)
        }),
{
    if done == queue.len() {
        let after = RatingsView {
            changes: sync.changes + queue.len(),
            settled: sync.settled.insert(sync.state(walk, at)),
            ..sync
        };
        going_on_leaves_less(after, walk, at + 1, rater);
    }
}

proof fn ratings_step_leaves_less(sync: RatingsView, event: EventView, rater: RaterView)
    requires
        ratings_sensible(sync),
        !(sync.phase is Finished),
    ensures
        ratings_sensible(sync.step(event, rater).0),
        less_work(ratings_left(sync.step(event, rater).0), ratings_left(sync)),
{
    match sync.phase {
        RatingsPhaseView::Page => match event {
            EventView::Reviews(page, exhausted) => {
                going_on_leaves_less(
                    RatingsView { halted: exhausted, ..sync },
                    WalkView { reviews: page.reviews, count: page.count },
                    0,
                    rater,
                );
            },
            _ => {},
        },
        RatingsPhaseView::Lookup { walk, at } => {
            let items = match event {
                EventView::Envelope(envelope) => subsonic::local_items(
                    envelope,
                    sync.entity,
                    walk.reviews[at].entity_id,
                ),
                _ => Seq::empty(),
            };
            let queue = ratings::writes(
                items,
                walk.reviews[at].shown_rating()->0,
                sync.entity,
                sync.rule,
                rater.link.nd_username,
            );
            going_on_leaves_less(
                RatingsView { unmatched: sync.unmatched + 1, ..sync },
                walk,
                at + 1,
                rater,
            );
            going_on_leaves_less(
                RatingsView { settled: sync.settled.insert(sync.state(walk, at)), ..sync },
                walk,
                at + 1,
                rater,
            );
            a_write_leaves_less(
                sync,
                walk,
                at,
                queue,
                ratings::rating_targets(
                    items,
                    walk.reviews[at].shown_rating()->0,
                    sync.rule,
                ).len() as int,
                0,
                rater,
            );
        },
        RatingsPhaseView::Writing { walk, at, queue, rated, done } => {
            a_write_leaves_less(sync, walk, at, queue, rated, done + 1, rater);
            going_on_leaves_less(
                RatingsView { changes: sync.changes + done + 1, ..sync },
                walk,
                at + 1,
                rater,
            );
        },
        RatingsPhaseView::Finished => {},
    }
}

spec fn inbound_left(sync: InboundView) -> Work {
    let offsets = i64::MAX - sync.offset;
    match sync.phase {
        InboundPhaseView::Page => Work { offsets, phase: 3, rows: 0, stage: 0, writes: 0 },
        InboundPhaseView::Matching { candidates, from, .. } => Work {
            offsets,
            phase: 2,
            rows: candidates.len() - from,
            stage: 0,
            writes: 0,
        },
        InboundPhaseView::Starring { .. } => Work {
            offsets,
            phase: 1,
            rows: 0,
            stage: 0,
            writes: 0,
        },
        InboundPhaseView::Finished => Work { offsets, phase: 0, rows: 0, stage: 0, writes: 0 },
    }
}

spec fn inbound_sensible(sync: InboundView) -> bool {
    &&& sensible(inbound_left(sync))
    &&& match sync.phase {
        InboundPhaseView::Matching { candidates, from, .. } => 0 <= from < candidates.len(),
        _ => true,
    }
}

proof fn matching_leaves_less(
    sync: InboundView,
    candidates: Seq<Text>,
    from: int,
    targets: Seq<StarTargetView>,
    end: PageEnd,
    target: TargetView,
)
    requires
        sync.offset <= i64::MAX,
        0 <= from,
    ensures
        ({
            let r = sync.ask_match(candidates, from, targets, end, target).0;
            let offsets = i64::MAX - sync.offset;
            &&& inbound_sensible(r)
            &&& inbound_left(r).offsets < offsets || (inbound_left(r).offsets == offsets && (
            inbound_left(r).phase < 2 || (inbound_left(r).phase == 2 && inbound_left(r).rows
                == candidates.len() - from)))
        }),
{
}

proof fn inbound_step_leaves_less(sync: InboundView, event: EventView, target: TargetView)
    requires
        inbound_sensible(sync),
        !(sync.phase is Finished),
        target.settings.batch_size > 0,
    ensures
        inbound_sensible(sync.step(event, target).0),
        less_work(inbound_left(sync.step(event, target).0), inbound_left(sync)),
{
    match sync.phase {
        InboundPhaseView::Page => match event {
            EventView::Feedback(page, exhausted) => {
                if page.feedback.len() > 0 {
                    matching_leaves_less(
                        InboundView { halted: exhausted, ..sync },
                        sync.candidates_of(page),
                        0,
                        Seq::empty(),
                        PageEnd { count: page.count, total_count: page.total_count },
                        target,
                    );
                }
            },
            _ => {},
        },
        InboundPhaseView::Matching { candidates, from, targets, end } => {
            let results = match event {
                EventView::Matches(results) => results,
                _ => Seq::empty(),
            };
            let batch = InboundView::batch(candidates, from, target.settings.batch_size);
            let pairs = crate::inbound::paired(batch, results);
            let done = crate::inbound::all_already_starred(pairs);
            matching_leaves_less(
                InboundView { settled: sync.settled.union(done.to_set()), ..sync },
                candidates,
                from + batch.len(),
                crate::inbound::up_to(
                    targets + crate::inbound::all_to_star(target.settings.dry_run, pairs),
                    sync.budget - sync.applied,
                ),
                end,
                target,
            );
        },
        _ => {},
    }
}

spec fn outbound_left(sync: OutboundView) -> Work {
    match sync.phase {
        OutboundPhaseView::Listing => Work { phase: 2, ..no_work() },
        OutboundPhaseView::Loving { queue, at } => Work {
            phase: 1,
            rows: queue.len() - at,
            ..no_work()
        },
        OutboundPhaseView::Finished => no_work(),
    }
}

proof fn outbound_step_leaves_less(sync: OutboundView, event: EventView, target: TargetView)
    requires
        sensible(outbound_left(sync)),
        !(sync.phase is Finished),
    ensures
        sensible(outbound_left(sync.step(event, target).0)),
        less_work(outbound_left(sync.step(event, target).0), outbound_left(sync)),
{
}

/// How much is left of a pass: links, the halves of a link, the parts of a half, the rules, and the
/// walk at work.
struct Left {
    links: int,
    half: int,
    part: int,
    rules: int,
    work: Work,
}

spec fn user_left(user: UserPhaseView) -> (int, Work) {
    match user {
        UserPhaseView::Keys { .. } => (3, no_work()),
        UserPhaseView::Inbound { inbound } => (2, inbound_left(inbound)),
        UserPhaseView::Outbound { outbound, .. } => (1, outbound_left(outbound)),
        UserPhaseView::Finished { .. } => (0, no_work()),
    }
}

spec fn user_sensible(user: UserPhaseView) -> bool {
    match user {
        UserPhaseView::Inbound { inbound } => inbound_sensible(inbound) && !(inbound.phase
            is Finished),
        UserPhaseView::Outbound { outbound, .. } => sensible(outbound_left(outbound)) && !(
        outbound.phase is Finished),
        _ => true,
    }
}

proof fn user_step_leaves_less(user: UserPhaseView, event: EventView, target: TargetView)
    requires
        user_sensible(user),
        !(user is Finished),
        target.settings.batch_size > 0,
    ensures
        ({
            let r = user.step(event, target).0;
            &&& user_sensible(r)
            &&& user_left(r).0 < user_left(user).0 || (user_left(r).0 == user_left(user).0
                && less_work(user_left(r).1, user_left(user).1))
        }),
{
    match user {
        UserPhaseView::Inbound { inbound } => {
            inbound_step_leaves_less(inbound, event, target);
        },
        UserPhaseView::Outbound { outbound, .. } => {
            outbound_step_leaves_less(outbound, event, target);
        },
        _ => {},
    }
}

spec fn critique_left(critique: CritiqueView, settings: SettingsView) -> (int, int, Work) {
    match critique.phase {
        CritiquePhaseView::Account { .. } => (3, 0, no_work()),
        CritiquePhaseView::Keys { .. } => (2, 0, no_work()),
        CritiquePhaseView::Rating { rule, ratings, .. } => (
            1,
            settings.cb_rules.len() - rule,
            ratings_left(ratings),
        ),
        CritiquePhaseView::Finished => (0, 0, no_work()),
    }
}

spec fn critique_sensible(critique: CritiqueView, settings: SettingsView) -> bool {
    match critique.phase {
        CritiquePhaseView::Rating { rule, ratings, .. } => {
            &&& 0 <= rule < settings.cb_rules.len()
            &&& ratings_sensible(ratings)
            &&& !(ratings.phase is Finished)
        },
        _ => true,
    }
}

proof fn critique_step_leaves_less(
    critique: CritiqueView,
    event: EventView,
    settings: SettingsView,
    link: UserLinkView,
)
    requires
        critique_sensible(critique, settings),
        !(critique.phase is Finished),
    ensures
        ({
            let r = critique_left(critique.step(event, settings, link).0, settings);
            let before = critique_left(critique, settings);
            &&& critique_sensible(critique.step(event, settings, link).0, settings)
            &&& r.0 < before.0 || (r.0 == before.0 && (r.1 < before.1 || (r.1 == before.1
                && less_work(r.2, before.2))))
        }),
{
    match critique.phase {
        CritiquePhaseView::Rating { user_id, ratings, .. } => {
            ratings_step_leaves_less(ratings, event, RaterView { settings, link, user_id });
        },
        _ => {},
    }
}

spec fn pass_left(pass: PassView) -> Left {
    let links = pass.settings.links.len() - pass.index;
    match pass.phase {
        PassPhaseView::Token => Left { links, half: 3, part: 0, rules: 0, work: no_work() },
        PassPhaseView::Critique { critique, .. } => {
            let (part, rules, work) = critique_left(critique, pass.settings);
            Left { links, half: 2, part, rules, work }
        },
        PassPhaseView::User { user, .. } => {
            let (part, work) = user_left(user);
            Left { links, half: 1, part, rules: 0, work }
        },
        PassPhaseView::Finished => Left {
            links: 0,
            half: 0,
            part: 0,
            rules: 0,
            work: no_work(),
        },
    }
}

spec fn pass_sensible(pass: PassView) -> bool {
    &&& pass.settings.batch_size > 0
    &&& !(pass.phase is Finished) ==> 0 <= pass.index < pass.settings.links.len()
    &&& match pass.phase {
        PassPhaseView::Critique { critique, .. } => critique_sensible(critique, pass.settings)
            && !(critique.phase is Finished),
        PassPhaseView::User { user, .. } => user_sensible(user) && !(user is Finished),
        _ => true,
    }
}

spec fn less_left(a: Left, b: Left) -> bool {
    ||| a.links < b.links
    ||| a.links == b.links && {
        ||| a.half < b.half
        ||| a.half == b.half && {
            ||| a.part < b.part
            ||| a.part == b.part && {
                ||| a.rules < b.rules
                ||| a.rules == b.rules && less_work(a.work, b.work)
            }
        }
    }
}

proof fn pass_step_leaves_less(pass: PassView, event: EventView)
    requires
        pass_sensible(pass),
        !(pass.phase is Finished),
    ensures
        pass_sensible(pass.step(event).0),
        less_left(pass_left(pass.step(event).0), pass_left(pass)),
{
    pass::next_authorized_is_assigned(pass.settings.links, pass.index + 1, pass.authorized);
    match pass.phase {
        PassPhaseView::Critique { critique, .. } => {
            critique_step_leaves_less(critique, event, pass.settings, pass.link());
        },
        PassPhaseView::User { lb_username, user } => {
            user_step_leaves_less(user, event, pass.target(lb_username));
        },
        _ => {},
    }
}

/// A pass after a number of answers of an endless stream of them.
pub open spec fn stepped(pass: PassView, answers: spec_fn(nat) -> EventView, steps: nat) -> PassView
    decreases steps,
{
    if steps == 0 {
        pass
    } else {
        stepped(pass, answers, (steps - 1) as nat).step(answers((steps - 1) as nat)).0
    }
}

proof fn a_sensible_pass_ends(
    pass: PassView,
    answers: spec_fn(nat) -> EventView,
    steps: nat,
) -> (end: nat)
    requires
        pass_sensible(stepped(pass, answers, steps)),
    ensures
        stepped(pass, answers, end).phase is Finished,
    decreases
            pass_left(stepped(pass, answers, steps)).links,
            pass_left(stepped(pass, answers, steps)).half,
            pass_left(stepped(pass, answers, steps)).part,
            pass_left(stepped(pass, answers, steps)).rules,
            pass_left(stepped(pass, answers, steps)).work.offsets,
            pass_left(stepped(pass, answers, steps)).work.phase,
            pass_left(stepped(pass, answers, steps)).work.rows,
            pass_left(stepped(pass, answers, steps)).work.stage,
            pass_left(stepped(pass, answers, steps)).work.writes,
{
    let now = stepped(pass, answers, steps);
    if now.phase is Finished {
        steps
    } else {
        let next = stepped(pass, answers, steps + 1);
        assert(next == now.step(answers(steps)).0);
        pass_step_leaves_less(now, answers(steps));
        a_sensible_pass_ends(pass, answers, steps + 1)
    }
}

/// Every pass comes to an end, whatever the host answers: no stream of answers keeps it going for
/// ever.
pub proof fn every_pass_comes_to_an_end(
    settings: SettingsView,
    authorized: Set<Text>,
    answers: spec_fn(nat) -> EventView,
)
    requires
        settings.batch_size > 0,
    ensures
        exists|steps: nat|
            (#[trigger] stepped(
                PassView::started(settings, authorized).0,
                answers,
                steps,
            )).phase is Finished,
{
    let pass = PassView::started(settings, authorized).0;
    pass::next_authorized_is_assigned(settings.links, 0, authorized);
    let end = a_sensible_pass_ends(pass, answers, 0);
}

proof fn a_step_asks_unless_it_ends(pass: PassView, event: EventView)
    requires
        pass_sensible(pass),
    ensures
        pass_sensible(pass.step(event).0),
        pass.step(event).1.action is None <==> pass.step(event).0.phase is Finished,
{
    if !(pass.phase is Finished) {
        pass_step_leaves_less(pass, event);
    }
    match pass.phase {
        PassPhaseView::Critique { critique, .. } => match critique.phase {
            CritiquePhaseView::Rating { user_id, ratings, .. } => {
                let rater = RaterView { settings: pass.settings, link: pass.link(), user_id };
                let r = ratings.step(event, rater);
                assert(r.1.action is None <==> r.0.phase is Finished);
            },
            _ => {},
        },
        PassPhaseView::User { lb_username, user } => {
            let target = pass.target(lb_username);
            match user {
                UserPhaseView::Inbound { inbound } => {
                    let r = inbound.step(event, target);
                    assert(r.1.action is None <==> r.0.phase is Finished);
                },
                UserPhaseView::Outbound { outbound, .. } => {
                    let r = outbound.step(event, target);
                    assert(r.1.action is None <==> r.0.phase is Finished);
                },
                _ => {},
            }
        },
        _ => {},
    }
}

proof fn a_run_is_sensible(settings: SettingsView, authorized: Set<Text>, events: Seq<EventView>)
    requires
        settings.batch_size > 0,
    ensures
        ({
            let r = permits::run(settings, authorized, events);
            &&& pass_sensible(r.0)
            &&& r.1.action is None <==> r.0.phase is Finished
        }),
    decreases events.len(),
{
    if events.len() == 0 {
        pass::next_authorized_is_assigned(settings.links, 0, authorized);
    } else {
        a_run_is_sensible(settings, authorized, events.drop_last());
        a_step_asks_unless_it_ends(
            permits::run(settings, authorized, events.drop_last()).0,
            events.last(),
        );
    }
}

/// A pass asks for an action as long as it is not done, and for none once it is.
pub proof fn a_pass_asks_until_it_is_done(
    settings: SettingsView,
    authorized: Set<Text>,
    events: Seq<EventView>,
)
    requires
        settings.batch_size > 0,
    ensures
        ({
            let r = permits::run(settings, authorized, events);
            r.1.action is None <==> r.0.phase is Finished
        }),
{
    a_run_is_sensible(settings, authorized, events);
}

} // verus!
