//! Whatever the host answers, a pass asks only for what it may.

use vstd::prelude::*;
use crate::critique;
use crate::critique::{CritiquePhaseView, CritiqueView};
use crate::critiquebrainz;
use crate::critiquebrainz::{CbEntity, CbRule};
use crate::inbound;
use crate::inbound::{InboundPhaseView, InboundView, PageEnd, StarTargetView, TargetView};
use crate::laws::candidates;
use crate::laws::permits;
use crate::listenbrainz;
use crate::mbid;
use crate::outbound::{OutboundPhaseView, OutboundView};
use crate::pass;
use crate::pass::{PassPhaseView, PassView};
use crate::protocol;
use crate::protocol::{EventView, NoteView, OutputView, TrackView};
use crate::ratings;
use crate::ratings::{RaterView, RatingsPhaseView, RatingsView, WalkView};
use crate::settings::{SettingsView, UserLinkView};
use crate::settled;
use crate::subsonic;
use crate::subsonic::SearchItemView;
use crate::text::Text;
use crate::user::UserPhaseView;

verus! {

spec fn all_shaped(mbids: Seq<Text>) -> bool {
    forall|i: int| 0 <= i < mbids.len() ==> mbid::mbid_shaped(#[trigger] mbids[i])
}

proof fn recording_is_permitted(mbids: Seq<Text>, settings: SettingsView, link: UserLinkView)
    requires
        all_shaped(mbids),
    ensures
        permits::permitted_keys(
            settled::recording(
                settings.dry_run,
                settled::synced_prefix(link.nd_username),
                mbids,
            ),
            settings,
            link,
        ),
{
    let keys = settled::recording(
        settings.dry_run,
        settled::synced_prefix(link.nd_username),
        mbids,
    );
    assert forall|i: int| 0 <= i < keys.len() implies permits::permitted_key(
        #[trigger] keys[i],
        settings,
        link.nd_username,
    ) by {
        assert(mbid::mbid_shaped(mbids[i]));
    }
}

spec fn targets_shaped(targets: Seq<StarTargetView>) -> bool {
    forall|i: int| 0 <= i < targets.len() ==> mbid::mbid_shaped((#[trigger] targets[i]).mbid)
}

/// What an inbound sync holds in store: well-formed recordings, and in a dry run no song to star.
spec fn inbound_store(sync: InboundView, dry_run: bool) -> bool {
    match sync.phase {
        InboundPhaseView::Matching { candidates, from, targets, .. } => {
            &&& all_shaped(candidates)
            &&& 0 <= from < candidates.len()
            &&& targets_shaped(targets)
            &&& dry_run ==> targets.len() == 0
            &&& sync.applied <= sync.budget
        },
        InboundPhaseView::Starring { targets, .. } => !dry_run && targets_shaped(targets),
        InboundPhaseView::Page => sync.applied < sync.budget,
        InboundPhaseView::Finished => true,
    }
}

proof fn inbound_asks_for_page(sync: InboundView, target: TargetView)
    requires
        target.settings.sync_inbound,
    ensures
        ({
            let r = sync.ask_page(target);
            &&& inbound_store(r.0, target.settings.dry_run)
            &&& r.1 matches Some(action) ==> permits::permitted_action(
                action,
                target.settings,
                target.link,
            )
        }),
{
}

proof fn inbound_leaves_page(sync: InboundView, end: PageEnd, target: TargetView)
    requires
        target.settings.sync_inbound,
    ensures
        ({
            let r = sync.leave_page(end, target);
            &&& inbound_store(r.0, target.settings.dry_run)
            &&& r.1 matches Some(action) ==> permits::permitted_action(
                action,
                target.settings,
                target.link,
            )
        }),
{
    inbound_asks_for_page(
        InboundView { offset: end.next_offset(sync.offset), ..sync },
        target,
    );
}

proof fn inbound_asks_for_match(
    sync: InboundView,
    candidates: Seq<Text>,
    from: int,
    targets: Seq<StarTargetView>,
    end: PageEnd,
    target: TargetView,
)
    requires
        target.settings.sync_inbound,
        all_shaped(candidates),
        0 <= from,
        sync.applied <= sync.budget,
        targets_shaped(targets),
        target.settings.dry_run ==> targets.len() == 0,
        target.settings.batch_size > 0,
    ensures
        ({
            let r = sync.ask_match(candidates, from, targets, end, target);
            &&& inbound_store(r.0, target.settings.dry_run)
            &&& r.1 matches Some(action) ==> permits::permitted_action(
                action,
                target.settings,
                target.link,
            )
        }),
{
    if from < candidates.len() {
        let batch = InboundView::batch(candidates, from, target.settings.batch_size);
        assert forall|i: int| 0 <= i < batch.len() implies mbid::mbid_shaped(
            #[trigger] batch[i],
        ) by {
            assert(batch[i] == candidates[from + i]);
        }
    } else if targets.len() > 0 {
        let ids = inbound::target_ids(targets);
        assert(ids.len() > 0);
        assert(permits::permitted_update(
            subsonic::star_songs_call(target.link.nd_username, ids),
            target.settings,
            target.link.nd_username,
        ));
    } else {
        inbound_leaves_page(sync, end, target);
    }
}

proof fn inbound_takes_matches(
    sync: InboundView,
    results: Seq<Option<TrackView>>,
    candidates: Seq<Text>,
    from: int,
    targets: Seq<StarTargetView>,
    end: PageEnd,
    target: TargetView,
)
    requires
        target.settings.sync_inbound,
        all_shaped(candidates),
        0 <= from < candidates.len(),
        sync.applied <= sync.budget,
        targets_shaped(targets),
        target.settings.dry_run ==> targets.len() == 0,
        target.settings.batch_size > 0,
    ensures
        ({
            let r = sync.take_matches(results, candidates, from, targets, end, target);
            &&& inbound_store(r.0, target.settings.dry_run)
            &&& permits::permitted(r.1, target.settings, target.link)
        }),
{
    let dry_run = target.settings.dry_run;
    let batch = InboundView::batch(candidates, from, target.settings.batch_size);
    let pairs = inbound::paired(batch, results);
    let already = |p: (Text, Option<TrackView>)| inbound::already_starred(p);
    let fresh = |p: (Text, Option<TrackView>)| inbound::to_star(p);
    let done = inbound::all_already_starred(pairs);
    let added = inbound::all_to_star(dry_run, pairs);
    assert forall|p: (Text, Option<TrackView>)| pairs.contains(p) implies mbid::mbid_shaped(p.0) by {
        let i = choose|i: int| 0 <= i < pairs.len() && pairs[i] == p;
        assert(p.0 == candidates[from + i]);
    }
    assert forall|i: int| 0 <= i < done.len() implies mbid::mbid_shaped(#[trigger] done[i]) by {
        assert(pairs.filter_map(already).contains(done[i]));
        pairs.lemma_filter_map_contains(already, done[i]);
    }
    let all = targets + added;
    assert forall|i: int| 0 <= i < all.len() implies mbid::mbid_shaped(
        (#[trigger] all[i]).mbid,
    ) by {
        if i >= targets.len() {
            let t = added[i - targets.len()];
            assert(pairs.filter_map(fresh).contains(t));
            pairs.lemma_filter_map_contains(fresh, t);
        }
    }
    let kept = inbound::up_to(all, sync.budget - sync.applied);
    assert forall|i: int| 0 <= i < kept.len() implies mbid::mbid_shaped(
        (#[trigger] kept[i]).mbid,
    ) by {
        assert(kept[i] == all[i]);
    }
    recording_is_permitted(done, target.settings, target.link);
    inbound_asks_for_match(
        InboundView { settled: sync.settled.union(done.to_set()), ..sync },
        candidates,
        from + batch.len(),
        kept,
        end,
        target,
    );
}

proof fn inbound_takes_starred(
    sync: InboundView,
    succeeded: bool,
    targets: Seq<StarTargetView>,
    end: PageEnd,
    target: TargetView,
)
    requires
        target.settings.sync_inbound,
        targets_shaped(targets),
    ensures
        ({
            let r = sync.take_starred(succeeded, targets, end, target);
            &&& inbound_store(r.0, target.settings.dry_run)
            &&& permits::permitted(r.1, target.settings, target.link)
        }),
{
    let done = if succeeded {
        inbound::target_mbids(targets)
    } else {
        Seq::empty()
    };
    assert forall|i: int| 0 <= i < done.len() implies mbid::mbid_shaped(#[trigger] done[i]) by {
        assert(done[i] == targets[i].mbid);
    }
    recording_is_permitted(done, target.settings, target.link);
    inbound_leaves_page(
        InboundView {
            settled: sync.settled.union(done.to_set()),
            applied: sync.applied + done.len(),
            ..sync
        },
        end,
        target,
    );
}

proof fn inbound_step_is_permitted(sync: InboundView, event: EventView, target: TargetView)
    requires
        target.settings.sync_inbound,
        inbound_store(sync, target.settings.dry_run),
        target.settings.batch_size > 0,
    ensures
        ({
            let r = sync.step(event, target);
            &&& inbound_store(r.0, target.settings.dry_run)
            &&& permits::permitted(r.1, target.settings, target.link)
        }),
{
    match sync.phase {
        InboundPhaseView::Page => match event {
            EventView::Feedback(page, exhausted) => {
                if page.feedback.len() > 0 {
                    candidates::inbound_candidates_are_unsettled_loves(
                        page.feedback,
                        sync.settled,
                    );
                    inbound_asks_for_match(
                        InboundView { halted: exhausted, ..sync },
                        sync.candidates_of(page),
                        0,
                        Seq::empty(),
                        PageEnd { count: page.count, total_count: page.total_count },
                        target,
                    );
                }
            },
            _ => {},
        },
        InboundPhaseView::Matching { candidates, from, targets, end } => inbound_takes_matches(
            sync,
            match event {
                EventView::Matches(results) => results,
                _ => Seq::empty(),
            },
            candidates,
            from,
            targets,
            end,
            target,
        ),
        InboundPhaseView::Starring { targets, end } => inbound_takes_starred(
            sync,
            match event {
                EventView::Envelope(envelope) => envelope.succeeded(),
                _ => false,
            },
            targets,
            end,
            target,
        ),
        InboundPhaseView::Finished => {},
    }
}

/// What an outbound sync holds in store: well-formed recordings, and in a dry run none to love.
spec fn outbound_store(sync: OutboundView, dry_run: bool) -> bool {
    match sync.phase {
        OutboundPhaseView::Loving { queue, at } => {
            &&& !dry_run
            &&& all_shaped(queue)
            &&& 0 <= at < queue.len()
        },
        _ => true,
    }
}

proof fn outbound_asks_for_love(sync: OutboundView, queue: Seq<Text>, at: int, target: TargetView)
    requires
        target.settings.sync_outbound,
        all_shaped(queue),
        0 <= at,
        !target.settings.dry_run,
    ensures
        ({
            let r = sync.ask_love(queue, at, target);
            &&& outbound_store(r.0, target.settings.dry_run)
            &&& r.1 matches Some(action) ==> permits::permitted_action(
                action,
                target.settings,
                target.link,
            )
        }),
{
    if at < queue.len() && sync.pushed < sync.budget {
        assert(mbid::mbid_shaped(queue[at]));
    }
}

proof fn outbound_step_is_permitted(sync: OutboundView, event: EventView, target: TargetView)
    requires
        target.settings.sync_outbound,
        outbound_store(sync, target.settings.dry_run),
    ensures
        ({
            let r = sync.step(event, target);
            &&& outbound_store(r.0, target.settings.dry_run)
            &&& permits::permitted(r.1, target.settings, target.link)
        }),
{
    match sync.phase {
        OutboundPhaseView::Listing => match event {
            EventView::Envelope(envelope) => {
                if !target.settings.dry_run {
                    let queue = listenbrainz::outbound_wanted(
                        envelope.starred_mbids(),
                        sync.settled,
                    );
                    candidates::outbound_candidates_are_unsettled_stars(
                        envelope.starred_mbids(),
                        sync.settled,
                    );
                    assert(all_shaped(queue));
                    outbound_asks_for_love(sync, queue, 0, target);
                }
            },
            _ => {},
        },
        OutboundPhaseView::Loving { queue, at } => match event {
            EventView::Love(status, exhausted) => {
                let done = if status is Applied {
                    seq![queue[at]]
                } else {
                    Seq::empty()
                };
                assert(mbid::mbid_shaped(queue[at]));
                recording_is_permitted(done, target.settings, target.link);
                outbound_asks_for_love(
                    OutboundView {
                        settled: sync.settled.union(done.to_set()),
                        pushed: sync.pushed + done.len(),
                        ..sync
                    },
                    queue,
                    at + 1,
                    target,
                );
            },
            _ => {},
        },
        OutboundPhaseView::Finished => {},
    }
}

proof fn preceded_is_permitted(
    output: OutputView,
    keys: Seq<Text>,
    notes: Seq<NoteView>,
    settings: SettingsView,
    link: UserLinkView,
)
    requires
        permits::permitted(output, settings, link),
        permits::permitted_keys(keys, settings, link),
    ensures
        permits::permitted(protocol::preceded(output, keys, notes), settings, link),
{
    let all = keys + output.persist;
    assert forall|i: int| 0 <= i < all.len() implies permits::permitted_key(
        #[trigger] all[i],
        settings,
        link.nd_username,
    ) by {
        if i < keys.len() {
            assert(all[i] == keys[i]);
        } else {
            assert(all[i] == output.persist[i - keys.len()]);
        }
    }
}

/// What the sync of an entity type holds in store: the budget is not spent, the rating at work is
/// outstanding, and every write is one that the pass may make; in a dry run there is none.
spec fn ratings_store(sync: RatingsView, rater: RaterView) -> bool {
    match sync.phase {
        RatingsPhaseView::Page => sync.changes < sync.budget,
        RatingsPhaseView::Lookup { walk, at } => ratings_at_work(sync, walk, at),
        RatingsPhaseView::Writing { walk, at, queue, done, .. } => {
            &&& ratings_at_work(sync, walk, at)
            &&& 0 <= done < queue.len()
            &&& !rater.settings.dry_run
            &&& writes_permitted(queue, rater.settings, rater.link)
        },
        RatingsPhaseView::Finished => true,
    }
}

spec fn ratings_at_work(sync: RatingsView, walk: WalkView, at: int) -> bool {
    &&& sync.changes < sync.budget
    &&& 0 <= at < walk.reviews.len()
    &&& critiquebrainz::outstanding(walk.reviews[at], sync.entity, sync.rule, sync.settled)
}

spec fn writes_permitted(queue: Seq<Text>, settings: SettingsView, link: UserLinkView) -> bool {
    forall|i: int|
        0 <= i < queue.len() ==> permits::permitted_update(
            #[trigger] queue[i],
            settings,
            link.nd_username,
        )
}

proof fn ratings_leaves_page(sync: RatingsView, walk: WalkView, rater: RaterView)
    requires
        permits::enabled(sync.entity, sync.rule, rater.settings),
    ensures
        ({
            let r = sync.leave_page(walk, rater);
            &&& ratings_store(r.0, rater)
            &&& (r.0.entity, r.0.rule) == (sync.entity, sync.rule)
            &&& permits::permitted(r.1, rater.settings, rater.link)
        }),
{
}

proof fn ratings_goes_on(sync: RatingsView, walk: WalkView, from: int, rater: RaterView)
    requires
        permits::enabled(sync.entity, sync.rule, rater.settings),
        0 <= from,
    ensures
        ({
            let r = sync.go_on(walk, from, rater);
            &&& ratings_store(r.0, rater)
            &&& (r.0.entity, r.0.rule) == (sync.entity, sync.rule)
            &&& permits::permitted(r.1, rater.settings, rater.link)
        }),
{
    ratings::next_outstanding_is_outstanding(
        walk.reviews,
        from,
        sync.entity,
        sync.rule,
        sync.settled,
    );
    ratings_leaves_page(sync, walk, rater);
    assert(rater.settings.cb_rules.len() > 0);
}

proof fn ratings_settles(sync: RatingsView, walk: WalkView, at: int, rater: RaterView)
    requires
        permits::enabled(sync.entity, sync.rule, rater.settings),
        0 <= at < walk.reviews.len(),
        critiquebrainz::outstanding(walk.reviews[at], sync.entity, sync.rule, sync.settled),
    ensures
        ({
            let r = sync.settle(walk, at, rater);
            &&& ratings_store(r.0, rater)
            &&& (r.0.entity, r.0.rule) == (sync.entity, sync.rule)
            &&& permits::permitted(r.1, rater.settings, rater.link)
        }),
{
    let state = sync.state(walk, at);
    let keys = settled::recording(
        rater.settings.dry_run,
        settled::cbsynced_prefix(rater.link.nd_username),
        seq![state],
    );
    let next = RatingsView { settled: sync.settled.insert(state), ..sync };
    ratings_goes_on(next, walk, at + 1, rater);
    let all = keys + next.go_on(walk, at + 1, rater).1.persist;
    assert forall|i: int| 0 <= i < all.len() implies permits::permitted_key(
        #[trigger] all[i],
        rater.settings,
        rater.link.nd_username,
    ) by {
        if i < keys.len() {
            assert(all[i] == settled::cbsynced_prefix(rater.link.nd_username) + state);
            let review = walk.reviews[at];
            assert(permits::enabled(sync.entity, sync.rule, rater.settings));
            assert(state == critiquebrainz::state_key(
                sync.entity,
                review.entity_id,
                review.shown_rating()->0 as int,
                sync.rule,
            ));
        }
    }
}

proof fn writes_are_permitted(
    items: Seq<SearchItemView>,
    rating: i64,
    entity: CbEntity,
    rule: CbRule,
    settings: SettingsView,
    link: UserLinkView,
)
    requires
        permits::enabled(entity, rule, settings),
        critiquebrainz::on_scale(rating as int),
    ensures
        writes_permitted(
            ratings::writes(items, rating, entity, rule, link.nd_username),
            settings,
            link,
        ),
{
    let queue = ratings::writes(items, rating, entity, rule, link.nd_username);
    let rated = ratings::rating_targets(items, rating, rule);
    let starred = ratings::star_targets(items, rating, rule);
    assert forall|i: int| 0 <= i < queue.len() implies permits::permitted_update(
        #[trigger] queue[i],
        settings,
        link.nd_username,
    ) by {
        assert(permits::enabled(entity, rule, settings));
        if i < rated.len() {
            assert(queue[i] == subsonic::rating_call(
                link.nd_username,
                rated[i].id,
                rating as int,
            ));
        } else {
            assert(queue[i] == subsonic::star_call(
                link.nd_username,
                entity,
                starred[i - rated.len()].id,
            ));
        }
    }
}

proof fn ratings_asks_for_write(
    sync: RatingsView,
    walk: WalkView,
    at: int,
    queue: Seq<Text>,
    rated: int,
    done: int,
    rater: RaterView,
)
    requires
        permits::enabled(sync.entity, sync.rule, rater.settings),
        ratings_at_work(sync, walk, at),
        0 <= done,
        !rater.settings.dry_run,
        writes_permitted(queue, rater.settings, rater.link),
    ensures
        ({
            let r = sync.ask_write(walk, at, queue, rated, done, rater);
            &&& ratings_store(r.0, rater)
            &&& (r.0.entity, r.0.rule) == (sync.entity, sync.rule)
            &&& permits::permitted(r.1, rater.settings, rater.link)
        }),
{
    if done >= queue.len() {
        let after = RatingsView { changes: sync.changes + queue.len(), ..sync };
        ratings_settles(after, walk, at, rater);
        preceded_is_permitted(
            after.settle(walk, at, rater).1,
            Seq::empty(),
            sync.applied_notes(walk, at, rated, queue.len() - rated),
            rater.settings,
            rater.link,
        );
    }
}

proof fn ratings_step_is_permitted(sync: RatingsView, event: EventView, rater: RaterView)
    requires
        permits::enabled(sync.entity, sync.rule, rater.settings),
        ratings_store(sync, rater),
    ensures
        ({
            let r = sync.step(event, rater);
            &&& ratings_store(r.0, rater)
            &&& (r.0.entity, r.0.rule) == (sync.entity, sync.rule)
            &&& permits::permitted(r.1, rater.settings, rater.link)
        }),
{
    match sync.phase {
        RatingsPhaseView::Page => match event {
            EventView::Reviews(page, exhausted) => {
                let taken = RatingsView { halted: exhausted, ..sync };
                let walk = WalkView { reviews: page.reviews, count: page.count };
                ratings_goes_on(taken, walk, 0, rater);
                preceded_is_permitted(
                    if page.reviews.len() == 0 {
                        taken.finish(rater).1
                    } else {
                        taken.go_on(walk, 0, rater).1
                    },
                    Seq::empty(),
                    protocol::window_notes(exhausted, rater.link.nd_username),
                    rater.settings,
                    rater.link,
                );
            },
            _ => {},
        },
        RatingsPhaseView::Lookup { walk, at } => {
            let items = match event {
                EventView::Envelope(envelope) => subsonic::local_items(
                    envelope,
                    sync.entity,
                    walk.reviews[at].entity_id,
                ),
                _ => Seq::empty(),
            };
            let rating = walk.reviews[at].shown_rating()->0;
            ratings_goes_on(
                RatingsView { unmatched: sync.unmatched + 1, ..sync },
                walk,
                at + 1,
                rater,
            );
            if rater.settings.dry_run {
                ratings_settles(sync, walk, at, rater);
                preceded_is_permitted(
                    sync.settle(walk, at, rater).1,
                    Seq::empty(),
                    ratings::rating_previews(
                        items,
                        walk.reviews[at].entity_id,
                        rating,
                        sync.entity,
                        sync.rule,
                    ),
                    rater.settings,
                    rater.link,
                );
            } else {
                writes_are_permitted(
                    items,
                    rating,
                    sync.entity,
                    sync.rule,
                    rater.settings,
                    rater.link,
                );
                ratings_asks_for_write(
                    sync,
                    walk,
                    at,
                    ratings::writes(
                        items,
                        rating,
                        sync.entity,
                        sync.rule,
                        rater.link.nd_username,
                    ),
                    ratings::rating_targets(items, rating, sync.rule).len() as int,
                    0,
                    rater,
                );
            }
        },
        RatingsPhaseView::Writing { walk, at, queue, rated, done } => {
            ratings_asks_for_write(sync, walk, at, queue, rated, done + 1, rater);
            ratings_goes_on(
                RatingsView { changes: sync.changes + done + 1, ..sync },
                walk,
                at + 1,
                rater,
            );
        },
        RatingsPhaseView::Finished => {},
    }
}

/// What a CritiqueBrainz sync holds in store: an enabled rule is at work.
spec fn critique_store(sync: CritiqueView, settings: SettingsView, link: UserLinkView) -> bool {
    &&& settings.cb_rules.len() > 0
    &&& match sync.phase {
        CritiquePhaseView::Rating { user_id, rule, ratings } => {
            &&& 0 <= rule
            &&& permits::enabled(ratings.entity, ratings.rule, settings)
            &&& ratings_store(ratings, RaterView { settings, link, user_id })
        },
        _ => true,
    }
}

proof fn critique_goes_to_rule(
    sync: CritiqueView,
    user_id: Text,
    rule: int,
    settled: Set<Text>,
    settings: SettingsView,
    link: UserLinkView,
)
    requires
        settings.cb_rules.len() > 0,
        0 <= rule,
    ensures
        ({
            let r = sync.next_rule(user_id, rule, settled, settings, link);
            &&& critique_store(r.0, settings, link)
            &&& permits::permitted(r.1, settings, link)
        }),
{
    if rule < settings.cb_rules.len() && sync.changes < sync.budget {
        let (entity, applied) = settings.cb_rules[rule];
        assert(permits::enabled(entity, applied, settings));
    }
}

proof fn critique_start_is_permitted(
    lb_username: Option<Text>,
    budget: int,
    settings: SettingsView,
    link: UserLinkView,
)
    requires
        settings.cb_rules.len() > 0,
    ensures
        ({
            let r = CritiqueView::started(lb_username, budget, settings, link);
            &&& critique_store(r.0, settings, link)
            &&& permits::permitted(r.1, settings, link)
        }),
{
    assert(critique::account_name(link, lb_username) == critique::account_name(link, lb_username));
}

proof fn critique_step_is_permitted(
    sync: CritiqueView,
    event: EventView,
    settings: SettingsView,
    link: UserLinkView,
)
    requires
        critique_store(sync, settings, link),
    ensures
        ({
            let r = sync.step(event, settings, link);
            &&& critique_store(r.0, settings, link)
            &&& permits::permitted(r.1, settings, link)
        }),
{
    match sync.phase {
        CritiquePhaseView::Keys { user_id } => {
            critique_goes_to_rule(
                sync,
                user_id,
                0,
                match event {
                    EventView::Keys(keys) => settled::recorded(
                        keys,
                        settled::cbsynced_prefix(link.nd_username),
                    ),
                    _ => Set::empty(),
                },
                settings,
                link,
            );
        },
        CritiquePhaseView::Rating { user_id, rule, ratings } => {
            let rater = RaterView { settings, link, user_id };
            ratings_step_is_permitted(ratings, event, rater);
            let stepped = ratings.step(event, rater);
            if stepped.0.phase is Finished && !stepped.0.halted {
                let after = CritiqueView { changes: sync.changes + stepped.0.changes, ..sync };
                critique_goes_to_rule(
                    after,
                    user_id,
                    rule + 1,
                    stepped.0.settled,
                    settings,
                    link,
                );
                preceded_is_permitted(
                    after.next_rule(user_id, rule + 1, stepped.0.settled, settings, link).1,
                    stepped.1.persist,
                    stepped.1.notes,
                    settings,
                    link,
                );
            }
        },
        _ => {},
    }
}

/// What a ListenBrainz sync holds in store: a half is at work only where it is on.
spec fn user_store(sync: UserPhaseView, settings: SettingsView) -> bool {
    match sync {
        UserPhaseView::Inbound { inbound } => settings.sync_inbound && inbound_store(
            inbound,
            settings.dry_run,
        ),
        UserPhaseView::Outbound { outbound, .. } => settings.sync_outbound && outbound_store(
            outbound,
            settings.dry_run,
        ),
        _ => true,
    }
}

proof fn user_step_is_permitted(sync: UserPhaseView, event: EventView, target: TargetView)
    requires
        user_store(sync, target.settings),
        target.settings.batch_size > 0,
    ensures
        ({
            let r = sync.step(event, target);
            &&& user_store(r.0, target.settings)
            &&& permits::permitted(r.1, target.settings, target.link)
        }),
{
    match sync {
        UserPhaseView::Keys { .. } => {},
        UserPhaseView::Inbound { inbound } => {
            inbound_step_is_permitted(inbound, event, target);
            let stepped = inbound.step(event, target);
            if stepped.0.phase is Finished && !stepped.0.halted {
                preceded_is_permitted(
                    UserPhaseView::begin_outbound(
                        stepped.0.settled,
                        stepped.0.budget - stepped.0.applied,
                        target,
                    ).1,
                    stepped.1.persist,
                    stepped.1.notes,
                    target.settings,
                    target.link,
                );
            }
        },
        UserPhaseView::Outbound { outbound, .. } => {
            outbound_step_is_permitted(outbound, event, target);
        },
        UserPhaseView::Finished { .. } => {},
    }
}

/// What a pass holds in store: the link at work is an assigned one.
spec fn pass_store(pass: PassView) -> bool {
    &&& pass.settings.batch_size > 0
    &&& !(pass.phase is Finished) ==> 0 <= pass.index < pass.settings.links.len()
        && pass.authorized.contains(pass.link().nd_username)
    &&& match pass.phase {
        PassPhaseView::Critique { critique, .. } => critique_store(
            critique,
            pass.settings,
            pass.link(),
        ),
        PassPhaseView::User { user, .. } => user_store(user, pass.settings),
        _ => true,
    }
}

/// Everything in an output is on behalf of a link that the pass may work for.
pub open spec fn covered(
    output: OutputView,
    settings: SettingsView,
    authorized: Set<Text>,
) -> bool {
    &&& output.persist.len() > 0 ==> exists|link: UserLinkView|
        #[trigger] permits::assigned(link, settings, authorized) && permits::permitted_keys(
            output.persist,
            settings,
            link,
        )
    &&& output.action matches Some(action) ==> exists|link: UserLinkView|
        #[trigger] permits::assigned(link, settings, authorized) && permits::permitted_action(
            action,
            settings,
            link,
        )
}

spec fn same_pass(a: PassView, b: PassView) -> bool {
    a.settings == b.settings && a.authorized == b.authorized
}

proof fn pass_goes_to_link(pass: PassView, from: int)
    requires
        pass.settings.batch_size > 0,
    ensures
        ({
            let r = pass.next_link(from);
            &&& pass_store(r.0)
            &&& same_pass(r.0, pass)
            &&& r.1.persist.len() == 0
            &&& covered(r.1, pass.settings, pass.authorized)
        }),
{
    pass::next_authorized_is_assigned(pass.settings.links, from, pass.authorized);
    match pass::next_authorized(pass.settings.links, from, pass.authorized) {
        Some(index) => {
            let link = pass.settings.links[index];
            assert(permits::assigned(link, pass.settings, pass.authorized));
        },
        None => {},
    }
}

proof fn pass_begins_user(pass: PassView, lb_username: Option<Text>, stop: bool, budget: int)
    requires
        pass.settings.batch_size > 0,
        0 <= pass.index < pass.settings.links.len(),
        pass.authorized.contains(pass.link().nd_username),
    ensures
        ({
            let r = pass.begin_user(lb_username, stop, budget);
            &&& pass_store(r.0)
            &&& same_pass(r.0, pass)
            &&& r.1.persist.len() == 0
            &&& covered(r.1, pass.settings, pass.authorized)
        }),
{
    assert(permits::assigned(pass.link(), pass.settings, pass.authorized));
    pass_goes_to_link(pass, pass.index + 1);
}

proof fn keys_before_are_covered(
    output: OutputView,
    keys: Seq<Text>,
    notes: Seq<NoteView>,
    pass: PassView,
)
    requires
        output.persist.len() == 0,
        covered(output, pass.settings, pass.authorized),
        permits::assigned(pass.link(), pass.settings, pass.authorized),
        permits::permitted_keys(keys, pass.settings, pass.link()),
    ensures
        covered(protocol::preceded(output, keys, notes), pass.settings, pass.authorized),
{
    assert(keys + output.persist =~= keys);
}

proof fn pass_takes_critique(
    pass: PassView,
    stepped: (CritiqueView, OutputView),
    lb_username: Option<Text>,
    stop: bool,
)
    requires
        pass.settings.batch_size > 0,
        0 <= pass.index < pass.settings.links.len(),
        pass.authorized.contains(pass.link().nd_username),
        critique_store(stepped.0, pass.settings, pass.link()),
        permits::permitted(stepped.1, pass.settings, pass.link()),
    ensures
        ({
            let r = pass.take_critique(stepped, lb_username, stop);
            &&& pass_store(r.0)
            &&& same_pass(r.0, pass)
            &&& covered(r.1, pass.settings, pass.authorized)
        }),
{
    assert(permits::assigned(pass.link(), pass.settings, pass.authorized));
    if stepped.0.phase is Finished {
        let budget = stepped.0.budget - stepped.0.changes;
        pass_begins_user(pass, lb_username, stop, budget);
        keys_before_are_covered(
            if stepped.0.halted {
                pass.halt().1
            } else {
                pass.begin_user(lb_username, stop, budget).1
            },
            stepped.1.persist,
            stepped.1.notes,
            pass,
        );
    }
}

proof fn pass_step_is_covered(pass: PassView, event: EventView)
    requires
        pass_store(pass),
    ensures
        ({
            let r = pass.step(event);
            &&& pass_store(r.0)
            &&& same_pass(r.0, pass)
            &&& covered(r.1, pass.settings, pass.authorized)
        }),
{
    match pass.phase {
        PassPhaseView::Token => {
            let (lb_username, stop) = pass::token_outcome(event);
            if pass.settings.cb_rules.len() > 0 {
                let started = CritiqueView::started(
                    lb_username,
                    pass.settings.max_per_run,
                    pass.settings,
                    pass.link(),
                );
                critique_start_is_permitted(
                    lb_username,
                    pass.settings.max_per_run,
                    pass.settings,
                    pass.link(),
                );
                pass_takes_critique(pass, started, lb_username, stop);
                let next = pass.take_critique(started, lb_username, stop);
                assert(Seq::<Text>::empty() + next.1.persist =~= next.1.persist);
            } else {
                pass_begins_user(pass, lb_username, stop, pass.settings.max_per_run);
                let next = pass.begin_user(lb_username, stop, pass.settings.max_per_run);
                assert(Seq::<Text>::empty() + next.1.persist =~= next.1.persist);
            }
        },
        PassPhaseView::Critique { resolved, stop, critique } => {
            critique_step_is_permitted(critique, event, pass.settings, pass.link());
            pass_takes_critique(
                pass,
                critique.step(event, pass.settings, pass.link()),
                resolved,
                stop,
            );
        },
        PassPhaseView::User { lb_username, user } => {
            let target = pass.target(lb_username);
            user_step_is_permitted(user, event, target);
            assert(permits::assigned(pass.link(), pass.settings, pass.authorized));
            let stepped = user.step(event, target);
            if let UserPhaseView::Finished { halted } = stepped.0 {
                pass_goes_to_link(pass, pass.index + 1);
                keys_before_are_covered(
                    pass.leave_link(halted).1,
                    stepped.1.persist,
                    stepped.1.notes,
                    pass,
                );
            }
        },
        PassPhaseView::Finished => {},
    }
}

proof fn run_is_covered(settings: SettingsView, authorized: Set<Text>, events: Seq<EventView>)
    requires
        settings.batch_size > 0,
    ensures
        ({
            let r = permits::run(settings, authorized, events);
            &&& pass_store(r.0)
            &&& r.0.settings == settings
            &&& r.0.authorized == authorized
            &&& covered(r.1, settings, authorized)
        }),
    decreases events.len(),
{
    if events.len() == 0 {
        pass_goes_to_link(
            PassView { settings, authorized, index: 0, phase: PassPhaseView::Finished },
            0,
        );
    } else {
        run_is_covered(settings, authorized, events.drop_last());
        pass_step_is_covered(
            permits::run(settings, authorized, events.drop_last()).0,
            events.last(),
        );
    }
}

/// Whatever the host answers, every action of a pass is one that it may ask for on behalf of a user
/// that the plugin is assigned to, and so is every key that it records.
pub proof fn a_pass_does_only_what_it_may(
    settings: SettingsView,
    authorized: Set<Text>,
    events: Seq<EventView>,
)
    requires
        settings.batch_size > 0,
    ensures
        covered(permits::run(settings, authorized, events).1, settings, authorized),
{
    run_is_covered(settings, authorized, events);
}

/// A dry run writes nothing: whatever the host answers, it changes nothing in Navidrome or on
/// ListenBrainz, and records nothing.
pub proof fn a_dry_run_writes_nothing(
    settings: SettingsView,
    authorized: Set<Text>,
    events: Seq<EventView>,
)
    requires
        settings.batch_size > 0,
        settings.dry_run,
    ensures
        permits::run(settings, authorized, events).1.persist.len() == 0,
        permits::run(settings, authorized, events).1.action matches Some(action)
            ==> !action.is_write(),
{
    run_is_covered(settings, authorized, events);
}

} // verus!
