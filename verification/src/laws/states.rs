//! What a CritiqueBrainz state that was applied means for the passes behind it.

use vstd::prelude::*;
use crate::critique::{CritiquePhaseView, CritiqueView};
use crate::critiquebrainz;
use crate::critiquebrainz::{CbEntity, CbRule};
use crate::laws::records;
use crate::protocol;
use crate::protocol::{ActionView, EventView, NoteView, OutputView};
use crate::ratings;
use crate::ratings::{RaterView, RatingsPhaseView, RatingsView, WalkView};
use crate::settings::{SettingsView, UserLinkView};
use crate::settled;
use crate::subsonic;
use crate::subsonic::{SearchItemView, SubsonicEnvelopeView};
use crate::text::Text;

verus! {

/// A CritiqueBrainz sync that goes on from a state with a sequence of answers, with the output of
/// its last step.
pub open spec fn critique_run(
    sync: CritiqueView,
    settings: SettingsView,
    link: UserLinkView,
    events: Seq<EventView>,
) -> (CritiqueView, OutputView)
    decreases events.len(),
{
    if events.len() == 0 {
        (sync, protocol::asking(None))
    } else {
        critique_run(sync, settings, link, events.drop_last()).0.step(
            events.last(),
            settings,
            link,
        )
    }
}

/// The keys that a CritiqueBrainz sync has recorded on the way.
pub open spec fn critique_records(
    sync: CritiqueView,
    settings: SettingsView,
    link: UserLinkView,
    events: Seq<EventView>,
) -> Seq<Text>
    decreases events.len(),
{
    if events.len() == 0 {
        Seq::empty()
    } else {
        critique_records(sync, settings, link, events.drop_last()) + critique_run(
            sync,
            settings,
            link,
            events,
        ).1.persist
    }
}

/// A state that none of the keys records.
pub open spec fn unapplied(
    entity: CbEntity,
    mbid: Text,
    rating: i64,
    rule: CbRule,
    keys: Seq<Text>,
    nd_username: Text,
) -> bool {
    !keys.contains(
        settled::cbsynced_prefix(nd_username) + critiquebrainz::state_key(
            entity,
            mbid,
            rating as int,
            rule,
        ),
    )
}

/// A write that brings an item into the state that a rule asks for.
pub open spec fn brings_about(
    uri: Text,
    entity: CbEntity,
    rating: i64,
    rule: CbRule,
    nd_username: Text,
) -> bool {
    exists|items: Seq<SearchItemView>|
        (#[trigger] ratings::writes(items, rating, entity, rule, nd_username)).contains(uri)
}

/// An action deals only with a state that none of the keys records: a lookup is for its entity, and
/// a write is one of those that bring its items into the state.
pub open spec fn asks_for_the_unapplied(
    action: Option<ActionView>,
    keys: Seq<Text>,
    nd_username: Text,
) -> bool {
    match action {
        Some(ActionView::Query { uri }) => exists|
            entity: CbEntity,
            mbid: Text,
            rating: i64,
            rule: CbRule,
        |
            #[trigger] unapplied(entity, mbid, rating, rule, keys, nd_username) && uri
                == subsonic::lookup_call(nd_username, mbid),
        Some(ActionView::Update { uri }) => exists|
            entity: CbEntity,
            mbid: Text,
            rating: i64,
            rule: CbRule,
        |
            #[trigger] unapplied(entity, mbid, rating, rule, keys, nd_username) && brings_about(
                uri,
                entity,
                rating,
                rule,
                nd_username,
            ),
        _ => true,
    }
}

/// What is written for the rating at `at` is what its items lack, and the first `rated` writes set
/// the rating.
spec fn is_due(
    sync: RatingsView,
    walk: WalkView,
    at: int,
    items: Seq<SearchItemView>,
    queue: Seq<Text>,
    rated: int,
    nd_username: Text,
) -> bool {
    let rating = walk.reviews[at].shown_rating()->0;
    &&& queue == ratings::writes(items, rating, sync.entity, sync.rule, nd_username)
    &&& rated == ratings::rating_targets(items, rating, sync.rule).len()
}

spec fn due_for_some_items(
    sync: RatingsView,
    walk: WalkView,
    at: int,
    queue: Seq<Text>,
    rated: int,
    nd_username: Text,
) -> bool {
    exists|items: Seq<SearchItemView>| #[trigger]
        is_due(sync, walk, at, items, queue, rated, nd_username)
}

/// The rating at work is outstanding, and what is written is what its items lack.
spec fn ratings_fresh(sync: RatingsView, nd_username: Text) -> bool {
    match sync.phase {
        RatingsPhaseView::Lookup { walk, at } => {
            &&& 0 <= at < walk.reviews.len()
            &&& critiquebrainz::outstanding(walk.reviews[at], sync.entity, sync.rule, sync.settled)
        },
        RatingsPhaseView::Writing { walk, at, queue, rated, done } => {
            &&& 0 <= at < walk.reviews.len()
            &&& 0 <= done < queue.len()
            &&& critiquebrainz::outstanding(walk.reviews[at], sync.entity, sync.rule, sync.settled)
            &&& due_for_some_items(sync, walk, at, queue, rated, nd_username)
        },
        _ => true,
    }
}

/// What is said of a step: what it asks for is not recorded yet, and what it records is settled.
spec fn step_is_fresh(stepped: (RatingsView, OutputView), keys: Seq<Text>, nd_username: Text) -> bool {
    let all = keys + stepped.1.persist;
    &&& ratings_fresh(stepped.0, nd_username)
    &&& records::remembers(stepped.0.settled, all, settled::cbsynced_prefix(nd_username))
    &&& asks_for_the_unapplied(stepped.1.action, all, nd_username)
}

proof fn outstanding_is_unapplied(
    sync: RatingsView,
    walk: WalkView,
    at: int,
    keys: Seq<Text>,
    nd_username: Text,
)
    requires
        critiquebrainz::outstanding(walk.reviews[at], sync.entity, sync.rule, sync.settled),
        records::remembers(sync.settled, keys, settled::cbsynced_prefix(nd_username)),
    ensures
        unapplied(
            sync.entity,
            walk.reviews[at].entity_id,
            walk.reviews[at].shown_rating()->0,
            sync.rule,
            keys,
            nd_username,
        ),
{
}

proof fn going_on_is_fresh(
    sync: RatingsView,
    walk: WalkView,
    from: int,
    rater: RaterView,
    keys: Seq<Text>,
)
    requires
        0 <= from,
        records::remembers(
            sync.settled,
            keys,
            settled::cbsynced_prefix(rater.link.nd_username),
        ),
    ensures
        step_is_fresh(sync.go_on(walk, from, rater), keys, rater.link.nd_username),
        sync.go_on(walk, from, rater).1.persist.len() == 0,
        sync.go_on(walk, from, rater).0.settled == sync.settled,
{
    let r = sync.go_on(walk, from, rater);
    ratings::next_outstanding_is_outstanding(
        walk.reviews,
        from,
        sync.entity,
        sync.rule,
        sync.settled,
    );
    assert(r.1.persist =~= Seq::<Text>::empty());
    assert(keys + r.1.persist =~= keys);
    if let RatingsPhaseView::Lookup { walk, at } = r.0.phase {
        if r.1.action is Some {
            outstanding_is_unapplied(sync, walk, at, keys, rater.link.nd_username);
        }
    }
}

proof fn settling_is_fresh(
    sync: RatingsView,
    walk: WalkView,
    at: int,
    rater: RaterView,
    keys: Seq<Text>,
)
    requires
        0 <= at,
        records::remembers(
            sync.settled,
            keys,
            settled::cbsynced_prefix(rater.link.nd_username),
        ),
    ensures
        step_is_fresh(sync.settle(walk, at, rater), keys, rater.link.nd_username),
{
    let nd_username = rater.link.nd_username;
    let prefix = settled::cbsynced_prefix(nd_username);
    let state = sync.state(walk, at);
    let added = settled::recording(rater.settings.dry_run, prefix, seq![state]);
    let after = RatingsView { settled: sync.settled.insert(state), ..sync };
    records::recording_is_remembered(
        sync.settled,
        keys,
        rater.settings.dry_run,
        prefix,
        seq![state],
    );
    assert(seq![state][0] == state);
    assert(sync.settled.union(seq![state].to_set()) =~= after.settled);
    going_on_is_fresh(after, walk, at + 1, rater, keys + added);
    let next = after.go_on(walk, at + 1, rater);
    let r = sync.settle(walk, at, rater);
    assert(r.1.persist =~= added);
    assert(keys + added + next.1.persist =~= keys + r.1.persist);
}

proof fn writing_is_fresh(
    sync: RatingsView,
    walk: WalkView,
    at: int,
    items: Seq<SearchItemView>,
    done: int,
    rater: RaterView,
    keys: Seq<Text>,
)
    requires
        0 <= at < walk.reviews.len(),
        0 <= done,
        critiquebrainz::outstanding(walk.reviews[at], sync.entity, sync.rule, sync.settled),
        records::remembers(
            sync.settled,
            keys,
            settled::cbsynced_prefix(rater.link.nd_username),
        ),
    ensures
        step_is_fresh(
            sync.ask_write(
                walk,
                at,
                ratings::writes(
                    items,
                    walk.reviews[at].shown_rating()->0,
                    sync.entity,
                    sync.rule,
                    rater.link.nd_username,
                ),
                ratings::rating_targets(
                    items,
                    walk.reviews[at].shown_rating()->0,
                    sync.rule,
                ).len() as int,
                done,
                rater,
            ),
            keys,
            rater.link.nd_username,
        ),
{
    let nd_username = rater.link.nd_username;
    let queue = ratings::writes(
        items,
        walk.reviews[at].shown_rating()->0,
        sync.entity,
        sync.rule,
        nd_username,
    );
    let rated = ratings::rating_targets(
        items,
        walk.reviews[at].shown_rating()->0,
        sync.rule,
    ).len() as int;
    let r = sync.ask_write(walk, at, queue, rated, done, rater);
    if done < queue.len() {
        assert(r.1.persist =~= Seq::<Text>::empty());
        assert(keys + r.1.persist =~= keys);
        outstanding_is_unapplied(sync, walk, at, keys, nd_username);
        let review = walk.reviews[at];
        let rating = review.shown_rating()->0;
        assert(unapplied(sync.entity, review.entity_id, rating, sync.rule, keys, nd_username));
        assert(ratings::writes(items, rating, sync.entity, sync.rule, nd_username).contains(
            queue[done],
        ));
        assert(brings_about(queue[done], sync.entity, rating, sync.rule, nd_username));
        assert(is_due(r.0, walk, at, items, queue, rated, nd_username));
        assert(due_for_some_items(r.0, walk, at, queue, rated, nd_username));
    } else {
        let after = RatingsView { changes: sync.changes + queue.len(), ..sync };
        settling_is_fresh(after, walk, at, rater, keys);
        assert(r.1.persist =~= after.settle(walk, at, rater).1.persist);
    }
}

proof fn ratings_step_is_fresh(
    sync: RatingsView,
    event: EventView,
    rater: RaterView,
    keys: Seq<Text>,
)
    requires
        ratings_fresh(sync, rater.link.nd_username),
        records::remembers(
            sync.settled,
            keys,
            settled::cbsynced_prefix(rater.link.nd_username),
        ),
    ensures
        step_is_fresh(sync.step(event, rater), keys, rater.link.nd_username),
{
    let nd_username = rater.link.nd_username;
    let r = sync.step(event, rater);
    match sync.phase {
        RatingsPhaseView::Page => {
            match event {
                EventView::Reviews(page, exhausted) => {
                    if page.reviews.len() > 0 {
                        let taken = RatingsView { halted: exhausted, ..sync };
                        let walk = WalkView { reviews: page.reviews, count: page.count };
                        going_on_is_fresh(taken, walk, 0, rater, keys);
                        assert(r.1.persist =~= taken.go_on(walk, 0, rater).1.persist);
                    } else {
                        assert(keys + r.1.persist =~= keys);
                    }
                },
                _ => {
                    assert(keys + r.1.persist =~= keys);
                },
            }
        },
        RatingsPhaseView::Lookup { walk, at } => {
            let items = match event {
                EventView::Envelope(envelope) => subsonic::local_items(
                    envelope,
                    sync.entity,
                    walk.reviews[at].entity_id,
                ),
                _ => Seq::empty(),
            };
            if items.len() == 0 {
                going_on_is_fresh(
                    RatingsView { unmatched: sync.unmatched + 1, ..sync },
                    walk,
                    at + 1,
                    rater,
                    keys,
                );
            } else if rater.settings.dry_run {
                settling_is_fresh(sync, walk, at, rater, keys);
                let settled = sync.settle(walk, at, rater);
                assert(r.1.persist =~= settled.1.persist);
            } else {
                writing_is_fresh(sync, walk, at, items, 0, rater, keys);
            }
        },
        RatingsPhaseView::Writing { walk, at, queue, rated, done } => {
            let succeeded = match event {
                EventView::Envelope(envelope) => envelope.succeeded(),
                _ => false,
            };
            if succeeded {
                let items = choose|items: Seq<SearchItemView>| #[trigger]
                    is_due(sync, walk, at, items, queue, rated, nd_username);
                writing_is_fresh(sync, walk, at, items, done + 1, rater, keys);
            } else {
                going_on_is_fresh(
                    RatingsView { changes: sync.changes + done + 1, ..sync },
                    walk,
                    at + 1,
                    rater,
                    keys,
                );
            }
        },
        RatingsPhaseView::Finished => {
            assert(keys + r.1.persist =~= keys);
        },
    }
}

spec fn critique_fresh(sync: CritiqueView, keys: Seq<Text>, nd_username: Text) -> bool {
    match sync.phase {
        CritiquePhaseView::Rating { ratings, .. } => {
            &&& ratings_fresh(ratings, nd_username)
            &&& records::remembers(ratings.settled, keys, settled::cbsynced_prefix(nd_username))
        },
        CritiquePhaseView::Finished => true,
        _ => false,
    }
}

proof fn next_rule_is_fresh(
    sync: CritiqueView,
    user_id: Text,
    rule: int,
    known: Set<Text>,
    settings: SettingsView,
    link: UserLinkView,
    keys: Seq<Text>,
)
    requires
        records::remembers(known, keys, settled::cbsynced_prefix(link.nd_username)),
    ensures
        ({
            let r = sync.next_rule(user_id, rule, known, settings, link);
            &&& critique_fresh(r.0, keys, link.nd_username)
            &&& r.1.persist.len() == 0
            &&& asks_for_the_unapplied(r.1.action, keys, link.nd_username)
        }),
{
}

proof fn critique_step_is_fresh(
    sync: CritiqueView,
    event: EventView,
    settings: SettingsView,
    link: UserLinkView,
    keys: Seq<Text>,
)
    requires
        critique_fresh(sync, keys, link.nd_username),
    ensures
        ({
            let r = sync.step(event, settings, link);
            let all = keys + r.1.persist;
            &&& critique_fresh(r.0, all, link.nd_username)
            &&& asks_for_the_unapplied(r.1.action, all, link.nd_username)
        }),
{
    if let CritiquePhaseView::Rating { user_id, rule, ratings } = sync.phase {
        let rater = RaterView { settings, link, user_id };
        ratings_step_is_fresh(ratings, event, rater, keys);
        let stepped = ratings.step(event, rater);
        if stepped.0.phase is Finished && !stepped.0.halted {
            let after = CritiqueView { changes: sync.changes + stepped.0.changes, ..sync };
            next_rule_is_fresh(
                after,
                user_id,
                rule + 1,
                stepped.0.settled,
                settings,
                link,
                keys + stepped.1.persist,
            );
            let next = after.next_rule(user_id, rule + 1, stepped.0.settled, settings, link);
            assert(stepped.1.persist + next.1.persist =~= stepped.1.persist);
        }
    }
}

#[verifier::rlimit(30)]
proof fn critique_run_is_fresh(
    sync: CritiqueView,
    settings: SettingsView,
    link: UserLinkView,
    keys: Seq<Text>,
    rest: Seq<EventView>,
)
    requires
        sync.phase is Keys,
    ensures
        ({
            let events = seq![EventView::Keys(keys)] + rest;
            let all = keys + critique_records(sync, settings, link, events);
            let r = critique_run(sync, settings, link, events);
            &&& critique_fresh(r.0, all, link.nd_username)
            &&& asks_for_the_unapplied(r.1.action, all, link.nd_username)
        }),
    decreases rest.len(),
{
    let prefix = settled::cbsynced_prefix(link.nd_username);
    let events = seq![EventView::Keys(keys)] + rest;
    let before = events.drop_last();
    let r = critique_run(sync, settings, link, events);
    if rest.len() == 0 {
        assert(before =~= Seq::<EventView>::empty());
        assert(critique_run(sync, settings, link, before).0 == sync);
        records::listed_keys_are_remembered(keys, prefix);
        if let CritiquePhaseView::Keys { user_id } = sync.phase {
            next_rule_is_fresh(
                sync,
                user_id,
                0,
                settled::recorded(keys, prefix),
                settings,
                link,
                keys,
            );
        }
        assert(critique_records(sync, settings, link, before) =~= Seq::<Text>::empty());
        assert(critique_records(sync, settings, link, events) =~= Seq::<Text>::empty());
        assert(keys + critique_records(sync, settings, link, events) =~= keys);
    } else {
        assert(before =~= seq![EventView::Keys(keys)] + rest.drop_last());
        critique_run_is_fresh(sync, settings, link, keys, rest.drop_last());
        let known = keys + critique_records(sync, settings, link, before);
        critique_step_is_fresh(
            critique_run(sync, settings, link, before).0,
            events.last(),
            settings,
            link,
            known,
        );
        assert(keys + critique_records(sync, settings, link, events) =~= known + r.1.persist);
    }
}

/// A state whose key is listed at the beginning, or recorded on the way, is neither looked up nor
/// written again, whatever the host answers.
pub proof fn what_is_applied_is_left_alone(
    sync: CritiqueView,
    settings: SettingsView,
    link: UserLinkView,
    keys: Seq<Text>,
    rest: Seq<EventView>,
)
    requires
        sync.phase is Keys,
    ensures
        ({
            let events = seq![EventView::Keys(keys)] + rest;
            asks_for_the_unapplied(
                critique_run(sync, settings, link, events).1.action,
                keys + critique_records(sync, settings, link, events),
                link.nd_username,
            )
        }),
{
    critique_run_is_fresh(sync, settings, link, keys, rest);
}

proof fn filtered_items(items: Seq<SearchItemView>, keep: spec_fn(SearchItemView) -> bool, j: int)
    requires
        0 <= j < items.filter(keep).len(),
    ensures
        exists|i: int| 0 <= i < items.len() && #[trigger] items[i] == items.filter(keep)[j],
        keep(items.filter(keep)[j]),
{
    let item = items.filter(keep)[j];
    items.lemma_filter_pred(keep, j);
    assert(items.filter(keep).contains(item));
    items.lemma_filter_contains_rev(keep, item);
}

/// A call that sets the rating on an item that does not hold it.
pub open spec fn rates_an_item(
    items: Seq<SearchItemView>,
    rating: i64,
    nd_username: Text,
    uri: Text,
) -> bool {
    exists|i: int|
        0 <= i < items.len() && (#[trigger] items[i]).user_rating != Some(rating) && uri
            == subsonic::rating_call(nd_username, items[i].id, rating as int)
}

/// A call that favourites an item that is not favourited.
pub open spec fn stars_an_item(
    items: Seq<SearchItemView>,
    entity: CbEntity,
    nd_username: Text,
    uri: Text,
) -> bool {
    exists|i: int|
        0 <= i < items.len() && (#[trigger] items[i]).starred is None && uri == subsonic::star_call(
            nd_username,
            entity,
            items[i].id,
        )
}

proof fn writes_are_for_items_missing_the_state(
    items: Seq<SearchItemView>,
    rating: i64,
    entity: CbEntity,
    rule: CbRule,
    nd_username: Text,
    j: int,
)
    requires
        0 <= j < ratings::writes(items, rating, entity, rule, nd_username).len(),
    ensures
        ({
            let uri = ratings::writes(items, rating, entity, rule, nd_username)[j];
            ||| rule.sync_rating && rates_an_item(items, rating, nd_username, uri)
            ||| rule.favourites(rating as int) && stars_an_item(items, entity, nd_username, uri)
        }),
{
    let rated = ratings::rating_targets(items, rating, rule);
    let starred = ratings::star_targets(items, rating, rule);
    let uri = ratings::writes(items, rating, entity, rule, nd_username)[j];
    if j < rated.len() {
        filtered_items(items, |item: SearchItemView| item.user_rating != Some(rating), j);
        assert(uri == subsonic::rating_call(nd_username, rated[j].id, rating as int));
    } else {
        let k = j - rated.len();
        filtered_items(items, |item: SearchItemView| item.starred is None, k);
        assert(uri == subsonic::star_call(nd_username, entity, starred[k].id));
    }
}

proof fn items_missing_the_rating_are_written(
    items: Seq<SearchItemView>,
    rating: i64,
    entity: CbEntity,
    rule: CbRule,
    nd_username: Text,
    uri: Text,
)
    requires
        rule.sync_rating,
        rates_an_item(items, rating, nd_username, uri),
    ensures
        ratings::writes(items, rating, entity, rule, nd_username).contains(uri),
{
    let rated = ratings::rating_targets(items, rating, rule);
    let unrated = |item: SearchItemView| item.user_rating != Some(rating);
    let i = choose|i: int|
        0 <= i < items.len() && (#[trigger] items[i]).user_rating != Some(rating) && uri
            == subsonic::rating_call(nd_username, items[i].id, rating as int);
    items.lemma_filter_contains(unrated, i);
    let j = choose|j: int| 0 <= j < rated.len() && rated[j] == items[i];
    assert(ratings::writes(items, rating, entity, rule, nd_username)[j] == uri);
}

proof fn items_missing_the_star_are_written(
    items: Seq<SearchItemView>,
    rating: i64,
    entity: CbEntity,
    rule: CbRule,
    nd_username: Text,
    uri: Text,
)
    requires
        rule.favourites(rating as int),
        stars_an_item(items, entity, nd_username, uri),
    ensures
        ratings::writes(items, rating, entity, rule, nd_username).contains(uri),
{
    let rated = ratings::rating_targets(items, rating, rule);
    let starred = ratings::star_targets(items, rating, rule);
    let unstarred = |item: SearchItemView| item.starred is None;
    let i = choose|i: int|
        0 <= i < items.len() && (#[trigger] items[i]).starred is None && uri == subsonic::star_call(
            nd_username,
            entity,
            items[i].id,
        );
    items.lemma_filter_contains(unstarred, i);
    let j = choose|j: int| 0 <= j < starred.len() && starred[j] == items[i];
    assert(ratings::writes(items, rating, entity, rule, nd_username)[rated.len() + j] == uri);
}

/// Only the items that are missing the state are written, and all of them are: a rating is set on
/// those that do not hold it, where the rule asks for ratings, and those that are not favourited
/// are, where the rule favourites the rating.
pub proof fn only_items_missing_the_state_are_written(
    items: Seq<SearchItemView>,
    rating: i64,
    entity: CbEntity,
    rule: CbRule,
    nd_username: Text,
    uri: Text,
)
    ensures
        ratings::writes(items, rating, entity, rule, nd_username).contains(uri) <==> {
            ||| rule.sync_rating && rates_an_item(items, rating, nd_username, uri)
            ||| rule.favourites(rating as int) && stars_an_item(items, entity, nd_username, uri)
        },
{
    let queue = ratings::writes(items, rating, entity, rule, nd_username);
    if queue.contains(uri) {
        let j = choose|j: int| 0 <= j < queue.len() && queue[j] == uri;
        writes_are_for_items_missing_the_state(items, rating, entity, rule, nd_username, j);
    }
    if rule.sync_rating && rates_an_item(items, rating, nd_username, uri) {
        items_missing_the_rating_are_written(items, rating, entity, rule, nd_username, uri);
    }
    if rule.favourites(rating as int) && stars_an_item(items, entity, nd_username, uri) {
        items_missing_the_star_are_written(items, rating, entity, rule, nd_username, uri);
    }
}

/// A failed write leaves the state outstanding: nothing is settled and nothing recorded, while the
/// attempts that were made count.
pub proof fn a_failed_write_leaves_the_state_outstanding(
    sync: RatingsView,
    event: EventView,
    rater: RaterView,
)
    requires
        sync.phase is Writing,
        !(event matches EventView::Envelope(envelope) && envelope.succeeded()),
    ensures
        sync.step(event, rater).0.settled == sync.settled,
        sync.step(event, rater).1.persist.len() == 0,
        sync.phase matches RatingsPhaseView::Writing { done, .. } ==> sync.step(
            event,
            rater,
        ).0.changes == sync.changes + done + 1,
{
}

/// The last write that succeeds settles the state and, as it is no dry run, records it. It tells of
/// the items that were rated and of those that were favourited, each by their number.
pub proof fn the_last_write_records_the_state(
    sync: RatingsView,
    event: EventView,
    rater: RaterView,
)
    requires
        sync.phase matches RatingsPhaseView::Writing { queue, done, .. } && 0 <= done && done + 1
            == queue.len(),
        event matches EventView::Envelope(envelope) && envelope.succeeded(),
        !rater.settings.dry_run,
    ensures
        sync.phase matches RatingsPhaseView::Writing { walk, at, queue, rated, .. } ==> {
            let r = sync.step(event, rater);
            &&& r.0.settled == sync.settled.insert(sync.state(walk, at))
            &&& r.1.persist.contains(
                settled::cbsynced_prefix(rater.link.nd_username) + sync.state(walk, at),
            )
            &&& r.1.notes.len() > 0
            &&& r.1.notes[0] == (NoteView::StateApplied {
                entity: sync.entity,
                mbid: walk.reviews[at].entity_id,
                state: sync.state(walk, at),
                rated,
                starred: queue.len() - rated,
            })
        },
{
    if let RatingsPhaseView::Writing { walk, at, .. } = sync.phase {
        let r = sync.step(event, rater);
        let key = settled::cbsynced_prefix(rater.link.nd_username) + sync.state(walk, at);
        assert(r.1.persist[0] == key);
    }
}

/// A rating without a local item costs nothing and stays outstanding: no write is attempted,
/// nothing is settled and nothing recorded.
pub proof fn an_unmatched_rating_costs_nothing(sync: RatingsView, event: EventView, rater: RaterView)
    requires
        sync.phase is Lookup,
        sync.phase matches RatingsPhaseView::Lookup { walk, at } ==> match event {
            EventView::Envelope(envelope) => subsonic::local_items(
                envelope,
                sync.entity,
                walk.reviews[at].entity_id,
            ).len() == 0,
            _ => true,
        },
    ensures
        ({
            let r = sync.step(event, rater);
            &&& r.0.changes == sync.changes
            &&& r.0.unmatched == sync.unmatched + 1
            &&& r.0.settled == sync.settled
            &&& r.1.persist.len() == 0
            &&& !(r.1.action matches Some(action) && action.is_write())
        }),
{
}

/// Where the budget is spent before the last write of a rating, its state stays outstanding:
/// nothing is settled and nothing recorded, and what was written counts.
pub proof fn a_rating_cut_short_stays_outstanding(
    sync: RatingsView,
    envelope: SubsonicEnvelopeView,
    rater: RaterView,
)
    requires
        envelope.succeeded(),
        sync.phase matches RatingsPhaseView::Writing { queue, done, .. } && done + 1 < queue.len()
            && sync.changes + done + 1 >= sync.budget,
    ensures
        sync.phase matches RatingsPhaseView::Writing { done, .. } ==> {
            let r = sync.step(EventView::Envelope(envelope), rater);
            &&& r.0.phase is Finished
            &&& r.0.settled == sync.settled
            &&& r.0.changes == sync.changes + done + 1
            &&& r.1.persist.len() == 0
            &&& r.1.action is None
        },
{
}

} // verus!
