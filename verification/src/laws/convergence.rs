//! What a pass has recorded, a later one leaves alone; what is still outstanding stays so.

use vstd::prelude::*;
use crate::http::Status;
use crate::inbound;
use crate::inbound::{InboundPhaseView, InboundView, PageEnd, StarTargetView, TargetView};
use crate::laws::candidates;
use crate::laws::records;
use crate::listenbrainz;
use crate::outbound::{OutboundPhaseView, OutboundView};
use crate::protocol::{ActionView, EventView, OutputView, TrackView};
use crate::settled;
use crate::text::Text;
use crate::user::UserPhaseView;

verus! {

/// The ListenBrainz sync of one user after a sequence of answers, with the output of its last step.
pub open spec fn user_run(target: TargetView, budget: int, events: Seq<EventView>) -> (
    UserPhaseView,
    OutputView,
)
    decreases events.len(),
{
    if events.len() == 0 {
        UserPhaseView::started(budget, target)
    } else {
        user_run(target, budget, events.drop_last()).0.step(events.last(), target)
    }
}

/// The keys that a ListenBrainz sync has recorded by then.
pub open spec fn user_records(target: TargetView, budget: int, events: Seq<EventView>) -> Seq<Text>
    decreases events.len(),
{
    if events.len() == 0 {
        Seq::empty()
    } else {
        user_records(target, budget, events.drop_last()) + user_run(
            target,
            budget,
            events,
        ).1.persist
    }
}

/// The recordings still to be dealt with are not settled.
spec fn inbound_fresh(sync: InboundView) -> bool {
    match sync.phase {
        InboundPhaseView::Matching { candidates, from, .. } => {
            &&& candidates.no_duplicates()
            &&& 0 <= from <= candidates.len()
            &&& forall|i: int|
                from <= i < candidates.len() ==> !sync.settled.contains(#[trigger] candidates[i])
        },
        _ => true,
    }
}

/// An action of a ListenBrainz sync deals only with recordings outside a set.
spec fn asks_outside(action: Option<ActionView>, known: Set<Text>, target: TargetView) -> bool {
    match action {
        Some(ActionView::MatchSongs { mbids, .. }) => forall|i: int|
            0 <= i < mbids.len() ==> !known.contains(#[trigger] mbids[i]),
        Some(ActionView::Love { request }) => exists|mbid: Text|
            !known.contains(mbid) && request == #[trigger] listenbrainz::love_write(
                target.link.token,
                mbid,
                target.settings,
            ),
        _ => true,
    }
}

proof fn inbound_asks_outside(
    sync: InboundView,
    candidates: Seq<Text>,
    from: int,
    targets: Seq<StarTargetView>,
    end: PageEnd,
    target: TargetView,
)
    requires
        candidates.no_duplicates(),
        0 <= from <= candidates.len(),
        forall|i: int|
            from <= i < candidates.len() ==> !sync.settled.contains(#[trigger] candidates[i]),
        target.settings.batch_size > 0,
    ensures
        ({
            let r = sync.ask_match(candidates, from, targets, end, target);
            &&& inbound_fresh(r.0)
            &&& r.0.settled == sync.settled
            &&& asks_outside(r.1, r.0.settled, target)
        }),
{
    if from < candidates.len() {
        let batch = InboundView::batch(candidates, from, target.settings.batch_size);
        assert forall|i: int| 0 <= i < batch.len() implies !sync.settled.contains(
            #[trigger] batch[i],
        ) by {
            assert(batch[i] == candidates[from + i]);
        }
    }
}

proof fn done_is_in_the_batch(pairs: Seq<(Text, Option<TrackView>)>, mbid: Text)
    requires
        inbound::all_already_starred(pairs).contains(mbid),
    ensures
        exists|i: int| 0 <= i < pairs.len() && (#[trigger] pairs[i]).0 == mbid,
{
    let already = |p: (Text, Option<TrackView>)| inbound::already_starred(p);
    pairs.lemma_filter_map_contains(already, mbid);
    let p = choose|p: (Text, Option<TrackView>)| #[trigger]
        pairs.contains(p) && already(p) == Some(mbid);
    let i = choose|i: int| 0 <= i < pairs.len() && pairs[i] == p;
    assert(pairs[i].0 == mbid);
}

proof fn inbound_step_asks_outside(
    sync: InboundView,
    event: EventView,
    target: TargetView,
    keys: Seq<Text>,
)
    requires
        inbound_fresh(sync),
        sync.phase is Page ==> sync.applied < sync.budget,
        records::remembers(sync.settled, keys, settled::synced_prefix(target.link.nd_username)),
        target.settings.batch_size > 0,
    ensures
        ({
            let r = sync.step(event, target);
            &&& inbound_fresh(r.0)
            &&& r.0.phase is Page ==> r.0.applied < r.0.budget
            &&& sync.settled.subset_of(r.0.settled)
            &&& asks_outside(r.1.action, r.0.settled, target)
            &&& records::remembers(
                r.0.settled,
                keys + r.1.persist,
                settled::synced_prefix(target.link.nd_username),
            )
        }),
{
    let prefix = settled::synced_prefix(target.link.nd_username);
    let dry_run = target.settings.dry_run;
    records::nothing_more_is_remembered(sync.settled, keys, prefix);
    match sync.phase {
        InboundPhaseView::Page => match event {
            EventView::Feedback(page, exhausted) => {
                if page.feedback.len() > 0 {
                    candidates::inbound_candidates_are_unsettled_loves(
                        page.feedback,
                        sync.settled,
                    );
                    inbound_asks_outside(
                        InboundView { halted: exhausted, ..sync },
                        sync.candidates_of(page),
                        0,
                        Seq::empty(),
                        PageEnd { count: page.count, total_count: page.total_count },
                        target,
                    );
                }
            },
            _ => {},
        },
        InboundPhaseView::Matching { candidates, from, targets, end } => {
            let results = match event {
                EventView::Matches(results) => results,
                _ => Seq::empty(),
            };
            let batch = InboundView::batch(candidates, from, target.settings.batch_size);
            let pairs = inbound::paired(batch, results);
            let done = inbound::all_already_starred(pairs);
            let upto = from + batch.len();
            let after = InboundView { settled: sync.settled.union(done.to_set()), ..sync };
            assert forall|i: int| upto <= i < candidates.len() implies !after.settled.contains(
                #[trigger] candidates[i],
            ) by {
                if done.contains(candidates[i]) {
                    done_is_in_the_batch(pairs, candidates[i]);
                    let j = choose|j: int|
                        0 <= j < pairs.len() && (#[trigger] pairs[j]).0 == candidates[i];
                    assert(pairs[j].0 == candidates[from + j]);
                }
            }
            inbound_asks_outside(
                after,
                candidates,
                upto,
                inbound::up_to(
                    targets + inbound::all_to_star(dry_run, pairs),
                    sync.budget - sync.applied,
                ),
                end,
                target,
            );
            records::recording_is_remembered(sync.settled, keys, dry_run, prefix, done);
        },
        InboundPhaseView::Starring { targets, end } => {
            let succeeded = match event {
                EventView::Envelope(envelope) => envelope.succeeded(),
                _ => false,
            };
            let done = if succeeded {
                inbound::target_mbids(targets)
            } else {
                Seq::empty()
            };
            records::recording_is_remembered(sync.settled, keys, dry_run, prefix, done);
        },
        InboundPhaseView::Finished => {},
    }
}

spec fn outbound_fresh(sync: OutboundView) -> bool {
    match sync.phase {
        OutboundPhaseView::Loving { queue, at } => {
            &&& queue.no_duplicates()
            &&& 0 <= at < queue.len()
            &&& forall|i: int| at <= i < queue.len() ==> !sync.settled.contains(#[trigger] queue[i])
        },
        _ => true,
    }
}

proof fn outbound_step_asks_outside(
    sync: OutboundView,
    event: EventView,
    target: TargetView,
    keys: Seq<Text>,
)
    requires
        outbound_fresh(sync),
        records::remembers(sync.settled, keys, settled::synced_prefix(target.link.nd_username)),
    ensures
        ({
            let r = sync.step(event, target);
            &&& outbound_fresh(r.0)
            &&& sync.settled.subset_of(r.0.settled)
            &&& asks_outside(r.1.action, r.0.settled, target)
            &&& records::remembers(
                r.0.settled,
                keys + r.1.persist,
                settled::synced_prefix(target.link.nd_username),
            )
        }),
{
    let prefix = settled::synced_prefix(target.link.nd_username);
    records::nothing_more_is_remembered(sync.settled, keys, prefix);
    match sync.phase {
        OutboundPhaseView::Listing => match event {
            EventView::Envelope(envelope) => {
                candidates::outbound_candidates_are_unsettled_stars(
                    envelope.starred_mbids(),
                    sync.settled,
                );
            },
            _ => {},
        },
        OutboundPhaseView::Loving { queue, at } => match event {
            EventView::Love(status, exhausted) => {
                let done = if status is Applied {
                    seq![queue[at]]
                } else {
                    Seq::empty()
                };
                assert forall|i: int| at < i < queue.len() implies !sync.settled.union(
                    done.to_set(),
                ).contains(#[trigger] queue[i]) by {
                    if done.contains(queue[i]) {
                        assert(queue[i] == queue[at]);
                    }
                }
                records::recording_is_remembered(
                    sync.settled,
                    keys,
                    target.settings.dry_run,
                    prefix,
                    done,
                );
            },
            _ => {},
        },
        OutboundPhaseView::Finished => {},
    }
}

spec fn user_fresh(user: UserPhaseView, keys: Seq<Text>, target: TargetView) -> bool {
    let prefix = settled::synced_prefix(target.link.nd_username);
    match user {
        UserPhaseView::Keys { .. } => false,
        UserPhaseView::Inbound { inbound } => {
            &&& inbound_fresh(inbound)
            &&& inbound.phase is Page ==> inbound.applied < inbound.budget
            &&& records::remembers(inbound.settled, keys, prefix)
        },
        UserPhaseView::Outbound { outbound, .. } => {
            &&& outbound_fresh(outbound)
            &&& records::remembers(outbound.settled, keys, prefix)
        },
        UserPhaseView::Finished { .. } => true,
    }
}

/// An action deals only with recordings that none of the keys records.
pub open spec fn asks_for_the_unrecorded(
    action: Option<ActionView>,
    keys: Seq<Text>,
    target: TargetView,
) -> bool {
    let prefix = settled::synced_prefix(target.link.nd_username);
    match action {
        Some(ActionView::MatchSongs { mbids, .. }) => forall|i: int|
            0 <= i < mbids.len() ==> !keys.contains(prefix + #[trigger] mbids[i]),
        Some(ActionView::Love { request }) => exists|mbid: Text|
            !keys.contains(prefix + mbid) && request == #[trigger] listenbrainz::love_write(
                target.link.token,
                mbid,
                target.settings,
            ),
        _ => true,
    }
}

proof fn outside_is_unrecorded(
    action: Option<ActionView>,
    known: Set<Text>,
    keys: Seq<Text>,
    target: TargetView,
)
    requires
        asks_outside(action, known, target),
        records::remembers(known, keys, settled::synced_prefix(target.link.nd_username)),
    ensures
        asks_for_the_unrecorded(action, keys, target),
{
    let prefix = settled::synced_prefix(target.link.nd_username);
    match action {
        Some(ActionView::Love { request }) => {
            let mbid = choose|mbid: Text|
                !known.contains(mbid) && request == #[trigger] listenbrainz::love_write(
                    target.link.token,
                    mbid,
                    target.settings,
                );
            assert(!keys.contains(prefix + mbid));
        },
        Some(ActionView::MatchSongs { mbids, .. }) => {
            assert forall|i: int| 0 <= i < mbids.len() implies !keys.contains(
                prefix + #[trigger] mbids[i],
            ) by {
                assert(!known.contains(mbids[i]));
            }
        },
        _ => {},
    }
}

proof fn user_step_asks_for_the_unrecorded(
    user: UserPhaseView,
    event: EventView,
    target: TargetView,
    keys: Seq<Text>,
)
    requires
        user_fresh(user, keys, target),
        target.settings.batch_size > 0,
    ensures
        ({
            let r = user.step(event, target);
            &&& user_fresh(r.0, keys + r.1.persist, target)
            &&& asks_for_the_unrecorded(r.1.action, keys + r.1.persist, target)
        }),
{
    match user {
        UserPhaseView::Inbound { inbound } => {
            inbound_step_asks_outside(inbound, event, target, keys);
            let stepped = inbound.step(event, target);
            if stepped.0.phase is Finished && !stepped.0.halted {
                assert(stepped.1.persist + Seq::<Text>::empty() =~= stepped.1.persist);
            } else {
                outside_is_unrecorded(
                    stepped.1.action,
                    stepped.0.settled,
                    keys + stepped.1.persist,
                    target,
                );
            }
        },
        UserPhaseView::Outbound { outbound, .. } => {
            outbound_step_asks_outside(outbound, event, target, keys);
            let stepped = outbound.step(event, target);
            outside_is_unrecorded(
                stepped.1.action,
                stepped.0.settled,
                keys + stepped.1.persist,
                target,
            );
        },
        _ => {},
    }
}

proof fn user_run_is_fresh(
    target: TargetView,
    budget: int,
    keys: Seq<Text>,
    rest: Seq<EventView>,
)
    requires
        target.settings.batch_size > 0,
    ensures
        ({
            let events = seq![EventView::Keys(keys)] + rest;
            let all = keys + user_records(target, budget, events);
            let r = user_run(target, budget, events);
            &&& user_fresh(r.0, all, target)
            &&& asks_for_the_unrecorded(r.1.action, all, target)
        }),
    decreases rest.len(),
{
    let prefix = settled::synced_prefix(target.link.nd_username);
    let events = seq![EventView::Keys(keys)] + rest;
    let before = events.drop_last();
    let r = user_run(target, budget, events);
    if rest.len() == 0 {
        assert(before =~= Seq::<EventView>::empty());
        assert(user_run(target, budget, before) == UserPhaseView::started(budget, target));
        assert(user_records(target, budget, before) =~= Seq::<Text>::empty());
        assert(r.1.persist =~= Seq::<Text>::empty());
        assert(user_records(target, budget, events) =~= Seq::<Text>::empty());
        assert(keys + user_records(target, budget, events) =~= keys);
        records::listed_keys_are_remembered(keys, prefix);
    } else {
        assert(before =~= seq![EventView::Keys(keys)] + rest.drop_last());
        user_run_is_fresh(target, budget, keys, rest.drop_last());
        let known = keys + user_records(target, budget, before);
        user_step_asks_for_the_unrecorded(
            user_run(target, budget, before).0,
            events.last(),
            target,
            known,
        );
        assert(keys + user_records(target, budget, events) =~= known + r.1.persist);
    }
}

/// A recording whose key is listed at the beginning, or recorded on the way, is neither matched nor
/// loved again, whatever the host answers. So a repeat pass redoes only what is still outstanding,
/// and loves no recording twice.
pub proof fn what_is_recorded_is_left_alone(
    target: TargetView,
    budget: int,
    keys: Seq<Text>,
    rest: Seq<EventView>,
)
    requires
        target.settings.batch_size > 0,
    ensures
        ({
            let events = seq![EventView::Keys(keys)] + rest;
            asks_for_the_unrecorded(
                user_run(target, budget, events).1.action,
                keys + user_records(target, budget, events),
                target,
            )
        }),
{
    user_run_is_fresh(target, budget, keys, rest);
}

/// A love without a local match stays outstanding: the answer of the matcher neither settles nor
/// records it.
pub proof fn a_love_without_a_match_stays_outstanding(
    sync: InboundView,
    results: Seq<Option<TrackView>>,
    target: TargetView,
    i: int,
)
    requires
        target.settings.batch_size > 0,
        sync.phase is Matching,
        sync.phase matches InboundPhaseView::Matching { candidates, from, .. } ==> {
            &&& candidates.no_duplicates()
            &&& 0 <= from <= i < candidates.len()
            &&& i < from + target.settings.batch_size
            &&& !sync.settled.contains(candidates[i])
            &&& i - from < results.len() ==> match results[i - from] {
                Some(track) => track.id.len() == 0,
                None => true,
            }
        },
    ensures
        sync.phase matches InboundPhaseView::Matching { candidates, from, .. } ==> {
            let r = sync.step(EventView::Matches(results), target);
            &&& !r.0.settled.contains(candidates[i])
            &&& !r.1.persist.contains(
                settled::synced_prefix(target.link.nd_username) + candidates[i],
            )
        },
{
    if let InboundPhaseView::Matching { candidates, from, .. } = sync.phase {
        let prefix = settled::synced_prefix(target.link.nd_username);
        let batch = InboundView::batch(candidates, from, target.settings.batch_size);
        let pairs = inbound::paired(batch, results);
        let done = inbound::all_already_starred(pairs);
        let mbid = candidates[i];
        if done.contains(mbid) {
            let already = |p: (Text, Option<TrackView>)| inbound::already_starred(p);
            pairs.lemma_filter_map_contains(already, mbid);
            let p = choose|p: (Text, Option<TrackView>)| #[trigger]
                pairs.contains(p) && already(p) == Some(mbid);
            let j = choose|j: int| 0 <= j < pairs.len() && pairs[j] == p;
            assert(pairs[j].0 == candidates[from + j]);
            assert(from + j == i);
        }
        let added = settled::recording(target.settings.dry_run, prefix, done);
        if added.contains(prefix + mbid) {
            let j = choose|j: int| 0 <= j < added.len() && added[j] == prefix + mbid;
            assert((prefix + done[j]).skip(prefix.len() as int) =~= done[j]);
            assert((prefix + mbid).skip(prefix.len() as int) =~= mbid);
            assert(done.contains(mbid));
        }
    }
}

/// A love with a local match is dealt with: where the song is starred already, the recording is
/// settled and, but for a dry run, recorded; else the song is among those to star, but for a dry
/// run.
pub proof fn a_love_with_a_match_is_dealt_with(
    batch: Seq<Text>,
    results: Seq<Option<TrackView>>,
    i: int,
)
    requires
        0 <= i < batch.len(),
        i < results.len(),
        results[i] matches Some(track) && track.id.len() > 0,
    ensures
        ({
            let pairs = inbound::paired(batch, results);
            let track = results[i]->0;
            if track.starred {
                inbound::all_already_starred(pairs).contains(batch[i])
            } else {
                inbound::all_to_star(false, pairs).contains(
                    (StarTargetView { id: track.id, mbid: batch[i] }),
                )
            }
        }),
{
    let pairs = inbound::paired(batch, results);
    assert(pairs[i] == (batch[i], results[i]));
    if (results[i]->0).starred {
        records::picked_is_kept(
            pairs,
            |p: (Text, Option<TrackView>)| inbound::already_starred(p),
            i,
        );
    } else {
        records::picked_is_kept(pairs, |p: (Text, Option<TrackView>)| inbound::to_star(p), i);
    }
}

/// A star call settles and records every recording that it was for when it succeeds, and none when
/// it fails.
pub proof fn a_star_call_settles_all_or_nothing(
    sync: InboundView,
    event: EventView,
    target: TargetView,
)
    requires
        sync.phase is Starring,
        !target.settings.dry_run,
    ensures
        sync.phase matches InboundPhaseView::Starring { targets, .. } ==> {
            let r = sync.step(event, target);
            let prefix = settled::synced_prefix(target.link.nd_username);
            if event matches EventView::Envelope(envelope) && envelope.succeeded() {
                forall|i: int|
                    0 <= i < targets.len() ==> r.0.settled.contains((#[trigger] targets[i]).mbid)
                        && r.1.persist.contains(prefix + targets[i].mbid)
            } else {
                r.0.settled == sync.settled && r.1.persist.len() == 0
            }
        },
{
    if let InboundPhaseView::Starring { targets, .. } = sync.phase {
        let r = sync.step(event, target);
        let prefix = settled::synced_prefix(target.link.nd_username);
        if event matches EventView::Envelope(envelope) && envelope.succeeded() {
            let done = inbound::target_mbids(targets);
            assert forall|i: int| 0 <= i < targets.len() implies r.0.settled.contains(
                (#[trigger] targets[i]).mbid,
            ) && r.1.persist.contains(prefix + targets[i].mbid) by {
                assert(done[i] == targets[i].mbid);
                assert(done.contains(targets[i].mbid));
                assert(r.1.persist[i] == prefix + targets[i].mbid);
            }
        } else {
            assert(r.0.settled =~= sync.settled);
        }
    }
}

/// Love feedback settles its recording, is recorded and counts when ListenBrainz applied it, and
/// only then. Behind it, and behind a rejected one, the next recording has its turn; a stop or an
/// exhausted rate-limit window ends the outbound half and lets no further call follow in this pass.
pub proof fn a_love_counts_only_where_it_was_applied(
    sync: OutboundView,
    status: Status,
    exhausted: bool,
    target: TargetView,
)
    requires
        sync.phase is Loving,
        !target.settings.dry_run,
    ensures
        sync.phase matches OutboundPhaseView::Loving { queue, at } ==> {
            let r = sync.step(EventView::Love(status, exhausted), target);
            let key = settled::synced_prefix(target.link.nd_username) + queue[at];
            &&& if status is Applied {
                &&& r.0.settled == sync.settled.insert(queue[at])
                &&& r.0.pushed == sync.pushed + 1
                &&& r.1.persist == seq![key]
            } else {
                &&& r.0.settled == sync.settled
                &&& r.0.pushed == sync.pushed
                &&& r.1.persist.len() == 0
            }
            &&& status is Stop || exhausted ==> r.0.phase is Finished && r.0.halted && r.1.action is None
            &&& status is Skip && !exhausted && at + 1 < queue.len() && sync.pushed < sync.budget
                ==> r.0.phase == (OutboundPhaseView::Loving { queue, at: at + 1 })
            &&& status is Applied && !exhausted && at + 1 < queue.len() && sync.pushed + 1
                < sync.budget ==> r.0.phase == (OutboundPhaseView::Loving { queue, at: at + 1 })
        },
{
    if let OutboundPhaseView::Loving { queue, at } = sync.phase {
        let r = sync.step(EventView::Love(status, exhausted), target);
        let prefix = settled::synced_prefix(target.link.nd_username);
        if status is Applied {
            assert(seq![queue[at]][0] == queue[at]);
            assert(r.0.settled =~= sync.settled.insert(queue[at]));
            assert(r.1.persist =~= seq![prefix + queue[at]]);
        } else {
            assert(r.0.settled =~= sync.settled);
        }
    }
}

} // verus!
