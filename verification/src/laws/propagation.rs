//! What is loved, starred or rated on one side arrives on the other.

use vstd::prelude::*;
use crate::critiquebrainz;
use crate::critiquebrainz::{CbEntity, CbReviewView, CbRule};
use crate::inbound;
use crate::inbound::{InboundPhaseView, InboundView, PageEnd, StarTargetView, TargetView};
use crate::laws::budget;
use crate::laws::candidates;
use crate::laws::convergence;
use crate::listenbrainz;
use crate::listenbrainz::FeedbackPageView;
use crate::mbid;
use crate::outbound;
use crate::outbound::{OutboundPhaseView, OutboundView};
use crate::protocol::{ActionView, EventView, NoteView, Reply, TrackView};
use crate::ratings;
use crate::ratings::{RaterView, RatingsPhaseView, RatingsView};
use crate::subsonic;
use crate::subsonic::{SearchItemView, SubsonicEnvelopeView};
use crate::text::Text;

verus! {

/// The songs that an inbound sync is about to star.
pub open spec fn songs_in_store(sync: InboundView) -> Seq<StarTargetView> {
    match sync.phase {
        InboundPhaseView::Matching { targets, .. } => targets,
        InboundPhaseView::Starring { targets, .. } => targets,
        _ => Seq::empty(),
    }
}

/// All recordings that a page loves and that are not settled are to be matched, in their order,
/// however little of the budget is left.
pub proof fn a_love_is_to_be_matched(
    sync: InboundView,
    page: FeedbackPageView,
    exhausted: bool,
    target: TargetView,
    k: int,
)
    requires
        sync.phase is Page,
        0 <= k < listenbrainz::inbound_wanted(page.feedback, sync.settled).len(),
    ensures
        sync.step(EventView::Feedback(page, exhausted), target).0.phase
            matches InboundPhaseView::Matching { candidates, from, .. } && from == 0 && k
            < candidates.len() && candidates[k] == listenbrainz::inbound_wanted(
            page.feedback,
            sync.settled,
        )[k],
{
    let wanted = listenbrainz::inbound_wanted(page.feedback, sync.settled);
    candidates::inbound_candidates_are_unsettled_loves(page.feedback, sync.settled);
    assert(wanted.contains(wanted[k]));
}

/// A song is in store for the star call, or the store holds all that the budget has room for.
pub open spec fn in_store(sync: InboundView, song: StarTargetView) -> bool {
    songs_in_store(sync).contains(song) || songs_in_store(sync).len() == sync.budget - sync.applied
}

proof fn the_store_keeps(songs: Seq<StarTargetView>, added: Seq<StarTargetView>, room: int)
    requires
        songs.len() <= room,
    ensures
        forall|song: StarTargetView| #[trigger]
            songs.contains(song) ==> inbound::up_to(songs + added, room).contains(song),
        songs.len() == room ==> inbound::up_to(songs + added, room).len() == room,
        forall|song: StarTargetView| #[trigger]
            added.contains(song) ==> inbound::up_to(songs + added, room).contains(song)
                || inbound::up_to(songs + added, room).len() == room,
{
    let all = songs + added;
    let kept = inbound::up_to(all, room);
    assert forall|song: StarTargetView| #[trigger] songs.contains(song) implies kept.contains(
        song,
    ) by {
        let j = choose|j: int| 0 <= j < songs.len() && songs[j] == song;
        assert(kept[j] == song);
    }
    assert forall|song: StarTargetView| #[trigger] added.contains(song) implies kept.contains(song)
        || kept.len() == room by {
        let j = choose|j: int| 0 <= j < added.len() && added[j] == song;
        if kept.len() != room {
            assert(kept[songs.len() + j] == song);
        }
    }
}

/// A recording to be matched whose local song is not starred yet is in store for the star call,
/// unless it is a dry run. A recording without a match takes up no room in the store.
pub proof fn a_matched_love_is_in_store(
    sync: InboundView,
    results: Seq<Option<TrackView>>,
    target: TargetView,
    i: int,
)
    requires
        sync.wf(),
        !target.settings.dry_run,
        target.settings.batch_size > 0,
        sync.applied < sync.budget,
        sync.phase is Matching,
        sync.phase matches InboundPhaseView::Matching { candidates, from, .. } ==> {
            &&& 0 <= from <= i < candidates.len()
            &&& i < from + target.settings.batch_size
            &&& i - from < results.len()
            &&& results[i - from] matches Some(track) && track.id.len() > 0 && !track.starred
        },
    ensures
        sync.phase matches InboundPhaseView::Matching { candidates, from, .. } ==> in_store(
            sync.step(EventView::Matches(results), target).0,
            (StarTargetView { id: (results[i - from]->0).id, mbid: candidates[i] }),
        ),
{
    if let InboundPhaseView::Matching { candidates, from, targets, end } = sync.phase {
        let batch = InboundView::batch(candidates, from, target.settings.batch_size);
        let pairs = inbound::paired(batch, results);
        let k = i - from;
        assert(batch[k] == candidates[i]);
        convergence::a_love_with_a_match_is_dealt_with(batch, results, k);
        the_store_keeps(
            targets,
            inbound::all_to_star(false, pairs),
            sync.budget - sync.applied,
        );
    }
}

/// What is in store stays in store until the star call is made, whatever the matcher answers for
/// the rest of the page.
pub proof fn what_is_in_store_is_kept(
    sync: InboundView,
    event: EventView,
    target: TargetView,
    song: StarTargetView,
)
    requires
        sync.wf(),
        sync.applied < sync.budget,
        sync.phase is Matching,
        in_store(sync, song),
    ensures
        in_store(sync.step(event, target).0, song),
{
    if let InboundPhaseView::Matching { candidates, from, targets, end } = sync.phase {
        let results = match event {
            EventView::Matches(results) => results,
            _ => Seq::empty(),
        };
        let batch = InboundView::batch(candidates, from, target.settings.batch_size);
        let pairs = inbound::paired(batch, results);
        the_store_keeps(
            targets,
            inbound::all_to_star(target.settings.dry_run, pairs),
            sync.budget - sync.applied,
        );
    }
}

/// An inbound sync once the matcher has answered up to `steps` batches of the page at hand, where
/// `library` is the local song of each recording.
pub open spec fn matched(
    sync: InboundView,
    target: TargetView,
    library: spec_fn(Text) -> Option<TrackView>,
    steps: nat,
) -> InboundView
    decreases steps,
{
    match sync.phase {
        InboundPhaseView::Matching { candidates, from, .. } if steps > 0 => matched(
            sync.step(
                EventView::Matches(
                    InboundView::batch(candidates, from, target.settings.batch_size).map_values(
                        library,
                    ),
                ),
                target,
            ).0,
            target,
            library,
            (steps - 1) as nat,
        ),
        _ => sync,
    }
}

/// A recording is still to be matched.
spec fn to_be_matched(sync: InboundView, mbid: Text) -> bool {
    sync.phase matches InboundPhaseView::Matching { candidates, from, .. } && exists|k: int|
        from <= k < candidates.len() && #[trigger] candidates[k] == mbid
}

/// A recording with a local song is settled, where the song is starred, or else in store.
spec fn dealt_with(sync: InboundView, mbid: Text, track: TrackView) -> bool {
    if track.starred {
        sync.settled.contains(mbid)
    } else {
        in_store(sync, StarTargetView { id: track.id, mbid })
    }
}

proof fn a_batch_is_dealt_with(
    sync: InboundView,
    target: TargetView,
    library: spec_fn(Text) -> Option<TrackView>,
    mbid: Text,
)
    requires
        sync.wf(),
        sync.applied < sync.budget,
        sync.phase is Matching,
        !target.settings.dry_run,
        target.settings.batch_size > 0,
        library(mbid) matches Some(track) && track.id.len() > 0,
        to_be_matched(sync, mbid) || dealt_with(sync, mbid, library(mbid)->0),
    ensures
        sync.phase matches InboundPhaseView::Matching { candidates, from, .. } ==> {
            let results = InboundView::batch(
                candidates,
                from,
                target.settings.batch_size,
            ).map_values(library);
            let next = sync.step(EventView::Matches(results), target).0;
            to_be_matched(next, mbid) || dealt_with(next, mbid, library(mbid)->0)
        },
{
    if let InboundPhaseView::Matching { candidates, from, targets, end } = sync.phase {
        let track = library(mbid)->0;
        let song = StarTargetView { id: track.id, mbid };
        let batch = InboundView::batch(candidates, from, target.settings.batch_size);
        let results = batch.map_values(library);
        let next = sync.step(EventView::Matches(results), target).0;
        if dealt_with(sync, mbid, track) {
            if !track.starred {
                what_is_in_store_is_kept(sync, EventView::Matches(results), target, song);
            }
        } else {
            let k = choose|k: int| from <= k < candidates.len() && #[trigger] candidates[k] == mbid;
            if k < from + batch.len() {
                assert(batch[k - from] == mbid);
                assert(results[k - from] == Some(track));
                if track.starred {
                    convergence::a_love_with_a_match_is_dealt_with(batch, results, k - from);
                } else {
                    a_matched_love_is_in_store(sync, results, target, k);
                }
            } else {
                assert(next.phase matches InboundPhaseView::Matching { candidates: c, .. } && c
                    == candidates);
                assert(to_be_matched(next, mbid));
            }
        }
    }
}

proof fn a_page_is_dealt_with(
    sync: InboundView,
    target: TargetView,
    library: spec_fn(Text) -> Option<TrackView>,
    mbid: Text,
    steps: nat,
)
    requires
        sync.wf(),
        sync.applied < sync.budget,
        sync.phase matches InboundPhaseView::Matching { candidates, from, .. } && candidates.len()
            - from <= steps,
        !target.settings.dry_run,
        target.settings.batch_size > 0,
        library(mbid) matches Some(track) && track.id.len() > 0,
        to_be_matched(sync, mbid) || dealt_with(sync, mbid, library(mbid)->0),
    ensures
        !(matched(sync, target, library, steps).phase is Matching),
        dealt_with(matched(sync, target, library, steps), mbid, library(mbid)->0),
        matched(sync, target, library, steps).applied == sync.applied,
        matched(sync, target, library, steps).budget == sync.budget,
    decreases steps,
{
    if let InboundPhaseView::Matching { candidates, from, .. } = sync.phase {
        let results = InboundView::batch(candidates, from, target.settings.batch_size).map_values(
            library,
        );
        let event = EventView::Matches(results);
        let next = sync.step(event, target).0;
        a_batch_is_dealt_with(sync, target, library, mbid);
        budget::inbound_counts_what_was_starred(sync, event, target);
        if next.phase is Matching {
            a_page_is_dealt_with(next, target, library, mbid, (steps - 1) as nat);
        } else {
            reveal_with_fuel(matched, 2);
        }
    }
}

/// Every love that is not settled and has a local song is starred, as far as the budget has room,
/// whatever loves without a local song stand around it: once the matcher has answered for the page,
/// the recording is settled where the song is starred already, and else the star call is made, for
/// this song or for as many others as there is room for.
pub proof fn every_love_with_a_match_is_starred(
    sync: InboundView,
    page: FeedbackPageView,
    exhausted: bool,
    target: TargetView,
    library: spec_fn(Text) -> Option<TrackView>,
    i: int,
)
    requires
        sync.wf(),
        sync.phase is Page,
        !target.settings.dry_run,
        target.settings.batch_size > 0,
        0 <= i < page.feedback.len(),
        listenbrainz::loved(page.feedback[i], sync.settled) matches Some(mbid) && (library(
            mbid,
        ) matches Some(track) && track.id.len() > 0),
    ensures
        ({
            let mbid = listenbrainz::loved(page.feedback[i], sync.settled)->0;
            let track = library(mbid)->0;
            let taken = sync.step(EventView::Feedback(page, exhausted), target).0;
            let steps = listenbrainz::inbound_wanted(page.feedback, sync.settled).len();
            let later = matched(taken, target, library, steps);
            if track.starred {
                later.settled.contains(mbid)
            } else {
                later.phase matches InboundPhaseView::Starring { targets, .. } && (targets.contains(
                    (StarTargetView { id: track.id, mbid }),
                ) || targets.len() == sync.budget - sync.applied)
            }
        }),
{
    let mbid = listenbrainz::loved(page.feedback[i], sync.settled)->0;
    let wanted = listenbrainz::inbound_wanted(page.feedback, sync.settled);
    candidates::inbound_candidates_are_unsettled_loves(page.feedback, sync.settled);
    assert(wanted.contains(mbid));
    let k = choose|k: int| 0 <= k < wanted.len() && wanted[k] == mbid;
    let event = EventView::Feedback(page, exhausted);
    let taken = sync.step(event, target).0;
    a_love_is_to_be_matched(sync, page, exhausted, target, k);
    budget::inbound_counts_what_was_starred(sync, event, target);
    assert(to_be_matched(taken, mbid));
    a_page_is_dealt_with(taken, target, library, mbid, wanted.len());
}

/// Behind the last batch of a page, one star call is made for every song in store.
pub proof fn the_star_call_is_for_all_in_store(
    sync: InboundView,
    event: EventView,
    target: TargetView,
)
    requires
        sync.phase is Matching,
    ensures
        sync.step(event, target).0.phase matches InboundPhaseView::Starring { targets, .. }
            ==> targets.len() > 0 && sync.step(event, target).1.action == Some(
            ActionView::Update {
                uri: subsonic::star_songs_call(
                    target.link.nd_username,
                    inbound::target_ids(targets),
                ),
            },
        ),
{
}

/// Behind a page the next one is asked for, as long as calls are taken, the budget is not spent and
/// the total is not reached, however short the page was.
pub proof fn the_pages_are_walked_to_the_total(sync: InboundView, end: PageEnd, target: TargetView)
    requires
        !sync.halted,
        sync.applied < sync.budget,
        0 < end.total_count,
        end.next_offset(sync.offset) < end.total_count,
    ensures
        ({
            let r = sync.leave_page(end, target);
            &&& r.0.phase is Page
            &&& r.0.offset == end.next_offset(sync.offset)
            &&& r.1 == Some(
                ActionView::Fetch {
                    request: listenbrainz::feedback_read(
                        target.link.token,
                        target.lb_username,
                        end.next_offset(sync.offset),
                        target.settings,
                    ),
                    reply: Reply::Feedback,
                },
            )
        }),
{
}

/// A starred song whose recording is well formed and not settled is loved in its turn, unless it is
/// a dry run: it is in the queue, and the queue is begun at its head.
pub proof fn a_star_is_to_be_loved(
    sync: OutboundView,
    envelope: SubsonicEnvelopeView,
    target: TargetView,
    mbid: Text,
)
    requires
        sync.phase is Listing,
        !target.settings.dry_run,
        sync.pushed < sync.budget,
        envelope.starred_mbids().contains(mbid),
        mbid::mbid_shaped(mbid),
        !sync.settled.contains(mbid),
    ensures
        sync.step(EventView::Envelope(envelope), target).0.phase
            matches OutboundPhaseView::Loving { queue, at } && at == 0 && queue.contains(mbid),
{
    candidates::outbound_candidates_are_unsettled_stars(envelope.starred_mbids(), sync.settled);
    let queue = listenbrainz::outbound_wanted(envelope.starred_mbids(), sync.settled);
    assert(queue.contains(mbid));
}

/// While recordings are loved, the request is for the one whose turn it is.
pub proof fn the_love_is_for_the_one_in_turn(
    sync: OutboundView,
    event: EventView,
    target: TargetView,
)
    requires
        sync.phase is Listing || sync.phase is Loving,
    ensures
        sync.step(event, target).0.phase matches OutboundPhaseView::Loving { queue, at }
            ==> sync.step(event, target).1.action == Some(
            ActionView::Love {
                request: listenbrainz::love_write(target.link.token, queue[at], target.settings),
            },
        ),
{
}

/// No outstanding rating of a page is passed over: before the one that is dealt with next there is
/// none, and where there is no next one there is none at all.
pub proof fn no_outstanding_rating_is_passed_over(
    reviews: Seq<CbReviewView>,
    from: int,
    entity: CbEntity,
    rule: CbRule,
    settled: Set<Text>,
    i: int,
)
    requires
        0 <= from <= i < reviews.len(),
        critiquebrainz::outstanding(reviews[i], entity, rule, settled),
    ensures
        ratings::next_outstanding(reviews, from, entity, rule, settled) matches Some(at) && from
            <= at <= i,
    decreases i - from,
{
    if !critiquebrainz::outstanding(reviews[from], entity, rule, settled) {
        no_outstanding_rating_is_passed_over(reviews, from + 1, entity, rule, settled, i);
    }
}

/// A rating with local items is copied, unless it is a dry run: the calls that bring its items into
/// the state are made in turn, first those that set the rating and then those that favourite, and
/// where no item lacks anything the state is settled at once.
pub proof fn a_rating_with_items_is_copied(
    sync: RatingsView,
    envelope: SubsonicEnvelopeView,
    rater: RaterView,
)
    requires
        !rater.settings.dry_run,
        sync.changes < sync.budget,
        sync.phase is Lookup,
        sync.phase matches RatingsPhaseView::Lookup { walk, at } ==> subsonic::local_items(
            envelope,
            sync.entity,
            walk.reviews[at].entity_id,
        ).len() > 0,
    ensures
        sync.phase matches RatingsPhaseView::Lookup { walk, at } ==> {
            let r = sync.step(EventView::Envelope(envelope), rater);
            let items = subsonic::local_items(envelope, sync.entity, walk.reviews[at].entity_id);
            let rating = walk.reviews[at].shown_rating()->0;
            let queue = ratings::writes(
                items,
                rating,
                sync.entity,
                sync.rule,
                rater.link.nd_username,
            );
            let rated = ratings::rating_targets(items, rating, sync.rule).len() as int;
            if queue.len() > 0 {
                &&& queue.len() == rated + ratings::star_targets(items, rating, sync.rule).len()
                &&& r.0.phase == (RatingsPhaseView::Writing { walk, at, queue, rated, done: 0 })
                &&& r.1.action == Some(ActionView::Update { uri: queue[0] })
            } else {
                r.0.settled == sync.settled.insert(sync.state(walk, at))
            }
        },
{
}

/// The writes of a rating are made one behind the other, as long as they succeed and the budget is
/// not spent.
pub proof fn the_next_write_follows(sync: RatingsView, envelope: SubsonicEnvelopeView, rater: RaterView)
    requires
        sync.phase matches RatingsPhaseView::Writing { queue, done, .. } && done + 1 < queue.len()
            && sync.changes + done + 1 < sync.budget,
        envelope.succeeded(),
    ensures
        sync.phase matches RatingsPhaseView::Writing { walk, at, queue, rated, done } ==> {
            let r = sync.step(EventView::Envelope(envelope), rater);
            &&& r.0.phase == (RatingsPhaseView::Writing {
                walk,
                at,
                queue,
                rated,
                done: done + 1,
            })
            &&& r.1.action == Some(ActionView::Update { uri: queue[done + 1] })
        },
{
}

/// A dry run tells of every song that is to be starred by the same answer, in this pass or in those
/// behind it.
pub proof fn a_dry_run_tells_what_would_be_starred(pairs: Seq<(Text, Option<TrackView>)>)
    ensures
        inbound::all_star_previews(true, pairs).len() == inbound::all_to_star(false, pairs).len(),
    decreases pairs.len(),
{
    if pairs.len() > 0 {
        a_dry_run_tells_what_would_be_starred(pairs.drop_last());
    }
}

/// A dry run tells of the recordings that a run would love, one by one, and of the items that a
/// run would write for a rating, by their number.
pub proof fn a_dry_run_tells_what_would_be_written(
    queue: Seq<Text>,
    items: Seq<SearchItemView>,
    mbid: Text,
    rating: i64,
    entity: CbEntity,
    rule: CbRule,
    nd_username: Text,
)
    ensures
        outbound::love_previews(queue).len() == queue.len(),
        forall|i: int|
            0 <= i < queue.len() ==> (#[trigger] outbound::love_previews(queue)[i])
                == (NoteView::WouldLove { mbid: queue[i] }),
        ratings::writes(items, rating, entity, rule, nd_username).len() == told(
            ratings::rating_previews(items, mbid, rating, entity, rule),
        ),
{
    let notes = ratings::rating_previews(items, mbid, rating, entity, rule);
    reveal_with_fuel(told, 3);
    let rated = ratings::rating_targets(items, rating, rule);
    let starred = ratings::star_targets(items, rating, rule);
    if notes.len() == 2 {
        assert(notes.drop_last() =~= seq![notes[0]]);
        assert(notes.drop_last().drop_last() =~= Seq::<NoteView>::empty());
    } else if notes.len() == 1 {
        assert(notes.drop_last() =~= Seq::<NoteView>::empty());
    }
}

/// The number of items that the notes of a dry run tell of.
pub open spec fn told(notes: Seq<NoteView>) -> int
    decreases notes.len(),
{
    if notes.len() == 0 {
        0
    } else {
        told(notes.drop_last()) + match notes.last() {
            NoteView::WouldRate { items, .. } => items,
            NoteView::WouldFavourite { items, .. } => items,
            _ => 0,
        }
    }
}

} // verus!
