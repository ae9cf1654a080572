//! How many changes a pass makes.

use vstd::prelude::*;
use crate::critique::{CritiquePhaseView, CritiqueView};
use crate::critiquebrainz::{CbEntity, CbRule};
use crate::inbound;
use crate::inbound::{InboundPhaseView, InboundView, PageEnd, StarTargetView, TargetView};
use crate::laws::conduct;
use crate::laws::permits;
use crate::outbound::{OutboundPhaseView, OutboundView};
use crate::pass;
use crate::pass::{PassPhaseView, PassView};
use crate::protocol::EventView;
use crate::ratings::{RaterView, RatingsPhaseView, RatingsView, WalkView};
use crate::settings::{SettingsView, UserLinkView};
use crate::text::Text;
use crate::user::UserPhaseView;

verus! {

/// The songs whose starring an answer confirms to an inbound sync.
pub open spec fn starred_now(sync: InboundView, event: EventView) -> int {
    match sync.phase {
        InboundPhaseView::Starring { targets, .. } => match event {
            EventView::Envelope(envelope) => if envelope.succeeded() {
                targets.len() as int
            } else {
                0
            },
            _ => 0,
        },
        _ => 0,
    }
}

/// The recordings whose love an answer confirms to an outbound sync.
pub open spec fn loved_now(sync: OutboundView, event: EventView) -> int {
    match sync.phase {
        OutboundPhaseView::Loving { .. } => match event {
            EventView::Love(status, _) => if status is Applied {
                1
            } else {
                0
            },
            _ => 0,
        },
        _ => 0,
    }
}

/// The hearts and loves that an answer confirms to a pass.
pub open spec fn changed_now(pass: PassView, event: EventView) -> int {
    match pass.phase {
        PassPhaseView::User { user, .. } => match user {
            UserPhaseView::Inbound { inbound } => starred_now(inbound, event),
            UserPhaseView::Outbound { outbound, .. } => loved_now(outbound, event),
            _ => 0,
        },
        _ => 0,
    }
}

/// The hearts and loves that a pass made for one of its links.
pub open spec fn changes_for(
    settings: SettingsView,
    authorized: Set<Text>,
    events: Seq<EventView>,
    link: int,
) -> int
    decreases events.len(),
{
    if events.len() == 0 {
        0
    } else {
        let before = permits::run(settings, authorized, events.drop_last()).0;
        changes_for(settings, authorized, events.drop_last(), link) + if before.index == link {
            changed_now(before, events.last())
        } else {
            0
        }
    }
}

proof fn inbound_ask_match_keeps_room(
    sync: InboundView,
    candidates: Seq<Text>,
    from: int,
    targets: Seq<StarTargetView>,
    end: PageEnd,
    target: TargetView,
)
    requires
        0 <= sync.applied <= sync.budget,
        0 <= sync.offset,
        0 <= from,
        targets.len() <= sync.budget - sync.applied,
    ensures
        ({
            let r = sync.ask_match(candidates, from, targets, end, target).0;
            &&& r.wf()
            &&& r.budget == sync.budget
            &&& r.applied == sync.applied
        }),
{
}

/// An inbound sync stays within its budget and counts what was starred.
pub proof fn inbound_counts_what_was_starred(sync: InboundView, event: EventView, target: TargetView)
    requires
        sync.wf(),
        target.settings.batch_size > 0,
    ensures
        sync.step(event, target).0.wf(),
        sync.step(event, target).0.budget == sync.budget,
        sync.step(event, target).0.applied == sync.applied + starred_now(sync, event),
{
    match sync.phase {
        InboundPhaseView::Page => match event {
            EventView::Feedback(page, exhausted) => {
                if page.feedback.len() > 0 {
                    inbound_ask_match_keeps_room(
                        InboundView { halted: exhausted, ..sync },
                        sync.candidates_of(page),
                        0,
                        Seq::empty(),
                        PageEnd { count: page.count, total_count: page.total_count },
                        target,
                    );
                }
            },
            _ => {},
        },
        InboundPhaseView::Matching { candidates, from, targets, end } => {
            let results = match event {
                EventView::Matches(results) => results,
                _ => Seq::empty(),
            };
            let batch = InboundView::batch(candidates, from, target.settings.batch_size);
            let pairs = inbound::paired(batch, results);
            let done = inbound::all_already_starred(pairs);
            let added = inbound::all_to_star(target.settings.dry_run, pairs);
            inbound_ask_match_keeps_room(
                InboundView { settled: sync.settled.union(done.to_set()), ..sync },
                candidates,
                from + batch.len(),
                inbound::up_to(targets + added, sync.budget - sync.applied),
                end,
                target,
            );
        },
        InboundPhaseView::Starring { targets, end } => {},
        InboundPhaseView::Finished => {},
    }
}

proof fn outbound_counts_what_was_loved(sync: OutboundView, event: EventView, target: TargetView)
    requires
        sync.wf(),
    ensures
        sync.step(event, target).0.wf(),
        sync.step(event, target).0.budget == sync.budget,
        sync.step(event, target).0.pushed == sync.pushed + loved_now(sync, event),
{
}

/// Whether an answer is that to a write of the CritiqueBrainz half.
pub open spec fn written_now(pass: PassView) -> bool {
    match pass.phase {
        PassPhaseView::Critique { critique, .. } => match critique.phase {
            CritiquePhaseView::Rating { ratings, .. } => ratings.phase is Writing,
            _ => false,
        },
        _ => false,
    }
}

/// The writes that the CritiqueBrainz half of a pass attempted for one of its links.
pub open spec fn writes_for(
    settings: SettingsView,
    authorized: Set<Text>,
    events: Seq<EventView>,
    link: int,
) -> int
    decreases events.len(),
{
    if events.len() == 0 {
        0
    } else {
        let before = permits::run(settings, authorized, events.drop_last()).0;
        writes_for(settings, authorized, events.drop_last(), link) + if before.index == link
            && written_now(before) {
            1int
        } else {
            0
        }
    }
}

/// The writes of the rating at work that were attempted.
pub open spec fn tried(sync: RatingsView) -> int {
    match sync.phase {
        RatingsPhaseView::Writing { done, .. } => done,
        _ => 0,
    }
}

spec fn ratings_room(sync: RatingsView) -> bool {
    &&& 0 <= sync.changes <= sync.budget
    &&& match sync.phase {
        RatingsPhaseView::Writing { queue, done, .. } => {
            &&& 0 <= done < queue.len()
            &&& sync.changes + done < sync.budget
        },
        RatingsPhaseView::Finished => true,
        _ => sync.changes < sync.budget,
    }
}

proof fn ratings_go_on_keeps_count(sync: RatingsView, walk: WalkView, from: int, rater: RaterView)
    requires
        0 <= sync.changes <= sync.budget,
    ensures
        ({
            let r = sync.go_on(walk, from, rater).0;
            &&& ratings_room(r)
            &&& r.changes == sync.changes
            &&& r.budget == sync.budget
            &&& tried(r) == 0
        }),
{
}

proof fn ratings_ask_write_keeps_count(
    sync: RatingsView,
    walk: WalkView,
    at: int,
    queue: Seq<Text>,
    rated: int,
    done: int,
    rater: RaterView,
)
    requires
        0 <= sync.changes < sync.budget,
        0 <= done <= queue.len(),
        sync.changes + done <= sync.budget,
    ensures
        ({
            let r = sync.ask_write(walk, at, queue, rated, done, rater).0;
            &&& ratings_room(r)
            &&& r.changes + tried(r) == sync.changes + done
            &&& r.budget == sync.budget
        }),
{
    if done == queue.len() {
        let after = RatingsView {
            changes: sync.changes + queue.len(),
            settled: sync.settled.insert(sync.state(walk, at)),
            ..sync
        };
        ratings_go_on_keeps_count(after, walk, at + 1, rater);
    }
}

/// The sync of an entity type stays within its budget and counts the writes it attempts.
proof fn ratings_count_their_writes(sync: RatingsView, event: EventView, rater: RaterView)
    requires
        ratings_room(sync),
    ensures
        ({
            let r = sync.step(event, rater).0;
            &&& ratings_room(r)
            &&& r.changes + tried(r) == sync.changes + tried(sync) + if sync.phase is Writing {
                1int
            } else {
                0
            }
            &&& r.budget == sync.budget
        }),
{
    match sync.phase {
        RatingsPhaseView::Page => match event {
            EventView::Reviews(page, exhausted) => {
                ratings_go_on_keeps_count(
                    RatingsView { halted: exhausted, ..sync },
                    WalkView { reviews: page.reviews, count: page.count },
                    0,
                    rater,
                );
            },
            _ => {},
        },
        RatingsPhaseView::Lookup { walk, at } => {
            let items = match event {
                EventView::Envelope(envelope) => crate::subsonic::local_items(
                    envelope,
                    sync.entity,
                    walk.reviews[at].entity_id,
                ),
                _ => Seq::empty(),
            };
            ratings_go_on_keeps_count(
                RatingsView { unmatched: sync.unmatched + 1, ..sync },
                walk,
                at + 1,
                rater,
            );
            ratings_go_on_keeps_count(
                RatingsView { settled: sync.settled.insert(sync.state(walk, at)), ..sync },
                walk,
                at + 1,
                rater,
            );
            ratings_ask_write_keeps_count(
                sync,
                walk,
                at,
                crate::ratings::writes(
                    items,
                    walk.reviews[at].shown_rating()->0,
                    sync.entity,
                    sync.rule,
                    rater.link.nd_username,
                ),
                crate::ratings::rating_targets(
                    items,
                    walk.reviews[at].shown_rating()->0,
                    sync.rule,
                ).len() as int,
                0,
                rater,
            );
        },
        RatingsPhaseView::Writing { walk, at, queue, rated, done } => {
            ratings_ask_write_keeps_count(sync, walk, at, queue, rated, done + 1, rater);
            ratings_go_on_keeps_count(
                RatingsView { changes: sync.changes + done + 1, ..sync },
                walk,
                at + 1,
                rater,
            );
        },
        RatingsPhaseView::Finished => {},
    }
}

/// The budget caps the changes that the sync of an entity type attempts: whatever the host answers,
/// the writes that it has made never exceed it.
pub proof fn the_budget_caps_the_changes_attempted(
    entity: CbEntity,
    rule: CbRule,
    settled: Set<Text>,
    budget: int,
    rater: RaterView,
    events: Seq<EventView>,
)
    requires
        0 <= budget,
    ensures
        ({
            let sync = conduct::ratings_after(
                RatingsView::started(entity, rule, settled, budget, rater).0,
                rater,
                events,
            );
            0 <= sync.changes + tried(sync) <= budget
        }),
{
    ratings_stay_within_budget(entity, rule, settled, budget, rater, events);
}

proof fn ratings_stay_within_budget(
    entity: CbEntity,
    rule: CbRule,
    settled: Set<Text>,
    budget: int,
    rater: RaterView,
    events: Seq<EventView>,
)
    requires
        0 <= budget,
    ensures
        ({
            let sync = conduct::ratings_after(
                RatingsView::started(entity, rule, settled, budget, rater).0,
                rater,
                events,
            );
            ratings_room(sync) && sync.budget == budget
        }),
    decreases events.len(),
{
    if events.len() > 0 {
        ratings_stay_within_budget(entity, rule, settled, budget, rater, events.drop_last());
        ratings_count_their_writes(
            conduct::ratings_after(
                RatingsView::started(entity, rule, settled, budget, rater).0,
                rater,
                events.drop_last(),
            ),
            events.last(),
            rater,
        );
    }
}

/// Where the attempted writes of a CritiqueBrainz sync are counted.
spec fn critique_counts(critique: CritiqueView, written: int, max: int) -> bool {
    &&& critique.budget == max
    &&& 0 <= critique.changes <= max
    &&& match critique.phase {
        CritiquePhaseView::Rating { ratings, .. } => {
            &&& !(ratings.phase is Finished)
            &&& ratings_room(ratings)
            &&& ratings.budget == max - critique.changes
            &&& written == critique.changes + ratings.changes + tried(ratings)
        },
        CritiquePhaseView::Finished => written == critique.changes,
        _ => written == 0 && critique.changes == 0,
    }
}

proof fn critique_counts_its_writes(
    critique: CritiqueView,
    event: EventView,
    settings: SettingsView,
    link: UserLinkView,
    written: int,
)
    requires
        critique_counts(critique, written, settings.max_per_run),
    ensures
        critique_counts(
            critique.step(event, settings, link).0,
            written + match critique.phase {
                CritiquePhaseView::Rating { ratings, .. } => if ratings.phase is Writing {
                    1int
                } else {
                    0
                },
                _ => 0,
            },
            settings.max_per_run,
        ),
{
    match critique.phase {
        CritiquePhaseView::Rating { user_id, rule, ratings } => {
            ratings_count_their_writes(ratings, event, RaterView { settings, link, user_id });
        },
        _ => {},
    }
}

/// What a ListenBrainz sync may still change.
spec fn room_left(user: UserPhaseView) -> int {
    match user {
        UserPhaseView::Keys { budget } => budget,
        UserPhaseView::Inbound { inbound } => inbound.budget - inbound.applied,
        UserPhaseView::Outbound { outbound } => outbound.budget - outbound.pushed,
        UserPhaseView::Finished { .. } => 0,
    }
}

/// What a ListenBrainz sync changes is taken off what it may change.
proof fn user_uses_up_its_room(user: UserPhaseView, event: EventView, target: TargetView)
    requires
        user.wf(),
        0 <= room_left(user),
        target.settings.batch_size > 0,
    ensures
        ({
            let r = user.step(event, target).0;
            let now = match user {
                UserPhaseView::Inbound { inbound } => starred_now(inbound, event),
                UserPhaseView::Outbound { outbound } => loved_now(outbound, event),
                _ => 0,
            };
            &&& r.wf()
            &&& 0 <= now
            &&& 0 <= room_left(r)
            &&& now + room_left(r) <= room_left(user)
        }),
{
    match user {
        UserPhaseView::Inbound { inbound } => {
            inbound_counts_what_was_starred(inbound, event, target);
        },
        UserPhaseView::Outbound { outbound } => {
            outbound_counts_what_was_loved(outbound, event, target);
        },
        _ => {},
    }
}

/// Where the changes of the link at work are counted: the hearts and loves, and the writes that the
/// CritiqueBrainz half attempted.
spec fn pass_counts(pass: PassView, changed: int, written: int) -> bool {
    let max = pass.settings.max_per_run;
    &&& 0 <= changed
    &&& 0 <= written
    &&& match pass.phase {
        PassPhaseView::Token => changed == 0 && written == 0,
        PassPhaseView::Critique { critique, .. } => changed == 0 && critique_counts(
            critique,
            written,
            max,
        ),
        PassPhaseView::User { user, .. } => {
            &&& user.wf()
            &&& 0 <= room_left(user)
            &&& changed + written + room_left(user) <= max
        },
        PassPhaseView::Finished => changed + written <= max,
    }
}

/// What a step of a pass does to the count of the link at work: it adds what the answer confirms,
/// and where another link follows, its count starts at nothing.
proof fn pass_counts_its_changes(pass: PassView, event: EventView, changed: int, written: int)
    requires
        pass_counts(pass, changed, written),
        pass.settings.batch_size > 0,
        pass.settings.max_per_run >= 0,
    ensures
        ({
            let r = pass.step(event).0;
            let changed_by_now = changed + changed_now(pass, event);
            let written_by_now = written + if written_now(pass) {
                1int
            } else {
                0
            };
            &&& r.settings == pass.settings
            &&& 0 <= changed_by_now
            &&& 0 <= written_by_now
            &&& changed_by_now + written_by_now <= pass.settings.max_per_run
            &&& pass.index <= r.index
            &&& if r.index == pass.index {
                pass_counts(r, changed_by_now, written_by_now)
            } else {
                pass_counts(r, 0, 0)
            }
        }),
{
    pass::next_authorized_is_assigned(pass.settings.links, pass.index + 1, pass.authorized);
    match pass.phase {
        PassPhaseView::Critique { critique, .. } => {
            critique_counts_its_writes(critique, event, pass.settings, pass.link(), written);
        },
        PassPhaseView::User { lb_username, user } => {
            user_uses_up_its_room(user, event, pass.target(lb_username));
        },
        _ => {},
    }
}

proof fn counts_are_kept(
    settings: SettingsView,
    authorized: Set<Text>,
    events: Seq<EventView>,
    link: int,
)
    requires
        settings.batch_size > 0,
        settings.max_per_run >= 0,
    ensures
        ({
            let pass = permits::run(settings, authorized, events).0;
            let changed = changes_for(settings, authorized, events, link);
            let written = writes_for(settings, authorized, events, link);
            &&& pass.settings == settings
            &&& 0 <= changed
            &&& 0 <= written
            &&& changed + written <= settings.max_per_run
            &&& link == pass.index ==> pass_counts(pass, changed, written)
            &&& link > pass.index ==> changed == 0 && written == 0
        }),
    decreases events.len(),
{
    if events.len() == 0 {
        pass::next_authorized_is_assigned(settings.links, 0, authorized);
    } else {
        let before = permits::run(settings, authorized, events.drop_last()).0;
        counts_are_kept(settings, authorized, events.drop_last(), link);
        counts_are_kept(settings, authorized, events.drop_last(), before.index);
        pass_counts_its_changes(
            before,
            events.last(),
            changes_for(settings, authorized, events.drop_last(), before.index),
            writes_for(settings, authorized, events.drop_last(), before.index),
        );
    }
}

/// Whatever the host answers, a pass makes no more than `max_per_run` changes for a link: the
/// hearts and loves that were confirmed and the writes that the CritiqueBrainz half attempted, all
/// taken together.
pub proof fn changes_stay_within_the_limit(
    settings: SettingsView,
    authorized: Set<Text>,
    events: Seq<EventView>,
    link: int,
)
    requires
        settings.batch_size > 0,
        settings.max_per_run >= 0,
    ensures
        0 <= changes_for(settings, authorized, events, link) + writes_for(
            settings,
            authorized,
            events,
            link,
        ) <= settings.max_per_run,
        0 <= changes_for(settings, authorized, events, link),
        0 <= writes_for(settings, authorized, events, link),
{
    counts_are_kept(settings, authorized, events, link);
}

} // verus!
