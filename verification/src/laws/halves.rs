//! What follows each answer within the ListenBrainz half of a link.

use vstd::prelude::*;
use crate::http::Status;
use crate::inbound;
use crate::inbound::{InboundPhaseView, InboundView, PageEnd, StarTargetView, TargetView};
use crate::laws::records;
use crate::laws::turns;
use crate::listenbrainz;
use crate::listenbrainz::FeedbackPageView;
use crate::outbound::{OutboundPhaseView, OutboundView};
use crate::protocol::{ActionView, EventView, NoteView, OutputView, Reply, TrackView};
use crate::settled;
use crate::subsonic;
use crate::text::Text;
use crate::user::UserPhaseView;

verus! {

/// The keys that a listing gives; a failed one gives none.
pub open spec fn listed(event: EventView) -> Seq<Text> {
    match event {
        EventView::Keys(keys) => keys,
        _ => Seq::empty(),
    }
}

/// A set that holds just the texts whose keys behind a prefix are listed.
pub open spec fn holds_the_listed(known: Set<Text>, keys: Seq<Text>, prefix: Text) -> bool {
    forall|item: Text| #[trigger] known.contains(item) <==> keys.contains(prefix + item)
}

proof fn the_recorded_are_the_listed(keys: Seq<Text>, prefix: Text)
    ensures
        holds_the_listed(settled::recorded(keys, prefix), keys, prefix),
        holds_the_listed(Set::empty(), Seq::empty(), prefix),
{
    assert forall|item: Text| #[trigger]
        settled::recorded(keys, prefix).contains(item) <==> keys.contains(prefix + item) by {
        records::listed_keys_give_back_what_was_recorded(keys, prefix, item);
    }
}

/// An inbound sync that has just begun: the first page of loves is asked for.
pub open spec fn begins_inbound(
    stepped: (UserPhaseView, OutputView),
    budget: int,
    target: TargetView,
    keys: Seq<Text>,
) -> bool {
    &&& stepped.0 matches UserPhaseView::Inbound { inbound: sync } && {
        &&& sync.phase is Page
        &&& sync.budget == budget
        &&& sync.applied == 0
        &&& sync.offset == 0
        &&& !sync.halted
        &&& holds_the_listed(sync.settled, keys, turns::recordings_of(target.link.nd_username))
    }
    &&& stepped.1.action == Some(
        ActionView::Fetch {
            request: listenbrainz::feedback_read(
                target.link.token,
                target.lb_username,
                0,
                target.settings,
            ),
            reply: Reply::Feedback,
        },
    )
}

/// An outbound sync that has just begun: the starred songs of the user are asked for.
pub open spec fn begins_outbound(
    stepped: (UserPhaseView, OutputView),
    settled: Set<Text>,
    budget: int,
    target: TargetView,
) -> bool {
    &&& stepped.0 == (UserPhaseView::Outbound {
        outbound: OutboundView {
            settled,
            budget,
            pushed: 0,
            halted: false,
            phase: OutboundPhaseView::Listing,
        },
    })
    &&& stepped.1.action == Some(
        ActionView::Query { uri: subsonic::starred_call(target.link.nd_username) },
    )
}

/// Once the settled recordings of the user are listed, the inbound sync begins where it is on, or
/// else the outbound sync where that is, with the whole budget. Without a budget, or where both are
/// off, the half is done.
pub proof fn the_halves_begin_where_they_are_on(budget: int, event: EventView, target: TargetView)
    ensures
        ({
            let r = (UserPhaseView::Keys { budget }).step(event, target);
            let prefix = turns::recordings_of(target.link.nd_username);
            &&& r.1.persist.len() == 0
            &&& r.1.notes.len() == 0
            &&& target.settings.sync_inbound && budget > 0 ==> begins_inbound(
                r,
                budget,
                target,
                listed(event),
            )
            &&& !target.settings.sync_inbound && target.settings.sync_outbound && budget > 0 ==> (
            r.0 matches UserPhaseView::Outbound { outbound: sync } && begins_outbound(
                r,
                sync.settled,
                budget,
                target,
            ) && holds_the_listed(sync.settled, listed(event), prefix))
            &&& budget <= 0 || (!target.settings.sync_inbound && !target.settings.sync_outbound)
                ==> r.0 == (UserPhaseView::Finished { halted: false }) && r.1.action is None
        }),
{
    let prefix = turns::recordings_of(target.link.nd_username);
    assert(settled::synced_prefix(target.link.nd_username) =~= prefix);
    the_recorded_are_the_listed(listed(event), prefix);
}

/// Behind the inbound sync the outbound sync begins where it is on, with what is settled by then
/// and what is left of the budget; where nothing is left the half is done, and so it is where no
/// further calls may be made. Until the inbound sync is done, the half asks for what it asks for.
/// Whatever it records and says, the half records and says.
pub proof fn the_outbound_half_follows_the_inbound_half(
    sync: InboundView,
    event: EventView,
    target: TargetView,
)
    ensures
        ({
            let part = sync.step(event, target);
            let left = part.0.budget - part.0.applied;
            let r = (UserPhaseView::Inbound { inbound: sync }).step(event, target);
            &&& r.1.persist == part.1.persist
            &&& r.1.notes == part.1.notes
            &&& if !(part.0.phase is Finished) {
                r.0 == (UserPhaseView::Inbound { inbound: part.0 }) && r.1.action == part.1.action
            } else if part.0.halted {
                r.0 == (UserPhaseView::Finished { halted: true }) && r.1.action == part.1.action
            } else if target.settings.sync_outbound && left > 0 {
                begins_outbound(r, part.0.settled, left, target)
            } else {
                r.0 == (UserPhaseView::Finished { halted: false }) && r.1.action is None
            }
        }),
{
    let part = sync.step(event, target);
    let r = (UserPhaseView::Inbound { inbound: sync }).step(event, target);
    assert(r.1.persist =~= part.1.persist);
    assert(r.1.notes =~= part.1.notes);
}

/// Behind the outbound sync the half is done, and says whether further calls may be made. Until
/// then it asks for what the outbound sync asks for.
pub proof fn the_half_is_done_behind_the_outbound_half(
    sync: OutboundView,
    event: EventView,
    target: TargetView,
)
    ensures
        ({
            let part = sync.step(event, target);
            let r = (UserPhaseView::Outbound { outbound: sync }).step(event, target);
            &&& r.1 == part.1
            &&& part.0.phase is Finished ==> r.0 == (UserPhaseView::Finished {
                halted: part.0.halted,
            })
            &&& !(part.0.phase is Finished) ==> r.0 == (UserPhaseView::Outbound {
                outbound: part.0,
            })
        }),
{
}

/// What follows a page of loves for a sync in the state `sync`: the next page, as long as calls are
/// taken, the budget is not spent and the list goes on; or else the end.
pub open spec fn leaves_the_page(
    sync: InboundView,
    end: PageEnd,
    target: TargetView,
    after: InboundView,
    action: Option<ActionView>,
) -> bool {
    if !sync.halted && end.goes_on(sync.offset) && sync.applied < sync.budget {
        &&& after == (InboundView {
            offset: end.next_offset(sync.offset),
            phase: InboundPhaseView::Page,
            ..sync
        })
        &&& action == Some(
            ActionView::Fetch {
                request: listenbrainz::feedback_read(
                    target.link.token,
                    target.lb_username,
                    end.next_offset(sync.offset),
                    target.settings,
                ),
                reply: Reply::Feedback,
            },
        )
    } else {
        &&& after.phase is Finished
        &&& after.settled == sync.settled
        &&& after.budget == sync.budget
        &&& after.applied == sync.applied
        &&& after.halted == sync.halted
        &&& action is None
    }
}

/// The recordings that one matcher call asks for: those from `from` on, as many as a batch holds.
pub open spec fn is_batch(mbids: Seq<Text>, candidates: Seq<Text>, from: int, size: int) -> bool {
    &&& mbids.len() == if candidates.len() - from <= size {
        candidates.len() - from
    } else {
        size
    }
    &&& forall|k: int| 0 <= k < mbids.len() ==> (#[trigger] mbids[k]) == candidates[from + k]
}

/// A sync that asks the matcher for the candidates from `from` on, for its user.
pub open spec fn asks_for_matches(
    action: Option<ActionView>,
    candidates: Seq<Text>,
    from: int,
    target: TargetView,
) -> bool {
    action matches Some(ActionView::MatchSongs { username, mbids }) && username
        == target.link.nd_username && is_batch(
        mbids,
        candidates,
        from,
        target.settings.batch_size,
    )
}

/// A page of loves is dealt with: its candidates are matched from the first on. A page without
/// candidates is left at once, and one without records is the last. Malformed ids and an exhausted
/// window are told of.
pub proof fn a_page_of_loves_is_matched(
    sync: InboundView,
    page: FeedbackPageView,
    exhausted: bool,
    target: TargetView,
)
    requires
        sync.phase is Page,
        target.settings.batch_size > 0,
    ensures
        ({
            let r = sync.step(EventView::Feedback(page, exhausted), target);
            let wanted = listenbrainz::inbound_wanted(page.feedback, sync.settled);
            let end = PageEnd { count: page.count, total_count: page.total_count };
            let taken = InboundView { halted: exhausted, ..sync };
            &&& r.1.persist.len() == 0
            &&& r.1.notes == listenbrainz::malformed_notes(page.feedback) + if exhausted {
                seq![NoteView::WindowExhausted { nd_username: target.link.nd_username }]
            } else {
                Seq::empty()
            }
            &&& if page.feedback.len() == 0 {
                r.0 == (InboundView { phase: InboundPhaseView::Finished, ..taken })
                    && r.1.action is None
            } else if wanted.len() > 0 {
                &&& r.0 == (InboundView {
                    phase: InboundPhaseView::Matching {
                        candidates: wanted,
                        from: 0,
                        targets: Seq::empty(),
                        end,
                    },
                    ..taken
                })
                &&& asks_for_matches(r.1.action, wanted, 0, target)
            } else {
                leaves_the_page(taken, end, target, r.0, r.1.action)
            }
        }),
{
}

/// A page of loves that did not come ends the inbound sync. No further calls may be made just when
/// the service is rate limited or the window is exhausted; the latter is told of.
pub proof fn a_missing_page_of_loves_ends_the_sync(
    sync: InboundView,
    event: EventView,
    target: TargetView,
)
    requires
        sync.phase is Page,
        !(event is Feedback),
    ensures
        ({
            let r = sync.step(event, target);
            let unread = event == EventView::Malformed(true);
            &&& r.0.phase is Finished
            &&& r.0.settled == sync.settled
            &&& r.0.budget == sync.budget
            &&& r.0.applied == sync.applied
            &&& r.0.halted == (turns::says_limited(event) || unread)
            &&& r.1.action is None
            &&& r.1.persist.len() == 0
            &&& r.1.notes == if unread {
                seq![NoteView::WindowExhausted { nd_username: target.link.nd_username }]
            } else {
                Seq::empty()
            }
        }),
{
}

/// What the matcher found; a failed call found nothing.
pub open spec fn found_by(event: EventView) -> Seq<Option<TrackView>> {
    match event {
        EventView::Matches(results) => results,
        _ => Seq::empty(),
    }
}

/// The answer of the matcher for the batch from `from` on is taken, song by song: what is starred
/// is settled and recorded, and what is not is put in store as far as the budget has room, or told
/// of in a dry run. Then the batch behind it has its turn; behind the last one, the star call for
/// all songs in store; and where there are none, the next page.
pub proof fn batch_follows_batch(
    sync: InboundView,
    candidates: Seq<Text>,
    from: int,
    targets: Seq<StarTargetView>,
    end: PageEnd,
    event: EventView,
    target: TargetView,
    batch: Seq<Text>,
)
    requires
        sync.phase == (InboundPhaseView::Matching { candidates, from, targets, end }),
        0 <= from < candidates.len(),
        target.settings.batch_size > 0,
        is_batch(batch, candidates, from, target.settings.batch_size),
    ensures
        ({
            let r = sync.step(event, target);
            let dry_run = target.settings.dry_run;
            let pairs = inbound::paired(batch, found_by(event));
            let done = inbound::all_already_starred(pairs);
            let behind = from + batch.len();
            let store = inbound::up_to(
                targets + inbound::all_to_star(dry_run, pairs),
                sync.budget - sync.applied,
            );
            let taken = InboundView { settled: sync.settled.union(done.to_set()), ..sync };
            &&& r.1.persist == settled::recording(
                dry_run,
                turns::recordings_of(target.link.nd_username),
                done,
            )
            &&& r.1.notes == inbound::all_star_previews(dry_run, pairs)
            &&& if behind < candidates.len() {
                &&& r.0 == (InboundView {
                    phase: InboundPhaseView::Matching {
                        candidates,
                        from: behind,
                        targets: store,
                        end,
                    },
                    ..taken
                })
                &&& asks_for_matches(r.1.action, candidates, behind, target)
            } else if store.len() > 0 {
                &&& r.0 == (InboundView {
                    phase: InboundPhaseView::Starring { targets: store, end },
                    ..taken
                })
                &&& r.1.action == Some(
                    ActionView::Update {
                        uri: subsonic::star_songs_call(
                            target.link.nd_username,
                            inbound::target_ids(store),
                        ),
                    },
                )
            } else {
                leaves_the_page(taken, end, target, r.0, r.1.action)
            }
        }),
{
    let own = InboundView::batch(candidates, from, target.settings.batch_size);
    assert(own =~= batch);
    assert(settled::synced_prefix(target.link.nd_username) =~= turns::recordings_of(
        target.link.nd_username,
    ));
    let behind = from + batch.len();
    if behind < candidates.len() {
        assert(is_batch(
            InboundView::batch(candidates, behind, target.settings.batch_size),
            candidates,
            behind,
            target.settings.batch_size,
        ));
    }
}

/// A star call that succeeded counts for each of its songs, settles their recordings and records
/// them in order; one that failed does nothing of that. Either way the next page has its turn.
pub proof fn the_next_page_follows_the_star_call(
    sync: InboundView,
    targets: Seq<StarTargetView>,
    end: PageEnd,
    event: EventView,
    target: TargetView,
)
    requires
        sync.phase == (InboundPhaseView::Starring { targets, end }),
    ensures
        ({
            let r = sync.step(event, target);
            let succeeded = event matches EventView::Envelope(envelope) && envelope.status == "ok"@;
            let done = if succeeded {
                inbound::target_mbids(targets)
            } else {
                Seq::empty()
            };
            let taken = InboundView {
                settled: sync.settled.union(done.to_set()),
                applied: sync.applied + done.len(),
                ..sync
            };
            &&& r.1.persist == settled::recording(
                target.settings.dry_run,
                turns::recordings_of(target.link.nd_username),
                done,
            )
            &&& r.1.notes.len() == 0
            &&& leaves_the_page(taken, end, target, r.0, r.1.action)
        }),
{
    assert(settled::synced_prefix(target.link.nd_username) =~= turns::recordings_of(
        target.link.nd_username,
    ));
}

/// An outbound sync that loves the recording at `at`, where there is one and the budget is not
/// spent; else it is done.
pub open spec fn loves_next(
    sync: OutboundView,
    queue: Seq<Text>,
    at: int,
    target: TargetView,
    after: OutboundView,
    action: Option<ActionView>,
) -> bool {
    if at < queue.len() && sync.pushed < sync.budget {
        &&& after == (OutboundView { phase: OutboundPhaseView::Loving { queue, at }, ..sync })
        &&& action == Some(
            ActionView::Love {
                request: listenbrainz::love_write(target.link.token, queue[at], target.settings),
            },
        )
    } else {
        &&& after == (OutboundView { phase: OutboundPhaseView::Finished, ..sync })
        &&& action is None
    }
}

/// Once the starred songs are listed, their recordings are loved from the first on. A dry run loves
/// none and tells of each. A listing that failed ends the sync.
pub proof fn the_starred_are_loved_in_turn(
    sync: OutboundView,
    event: EventView,
    target: TargetView,
)
    requires
        sync.phase is Listing,
    ensures
        ({
            let r = sync.step(event, target);
            &&& r.1.persist.len() == 0
            &&& match event {
                EventView::Envelope(envelope) => {
                    let queue = listenbrainz::outbound_wanted(
                        envelope.starred_mbids(),
                        sync.settled,
                    );
                    if target.settings.dry_run {
                        &&& r.0 == (OutboundView { phase: OutboundPhaseView::Finished, ..sync })
                        &&& r.1.action is None
                        &&& sync.pushed < sync.budget ==> r.1.notes.len() == queue.len()
                            && forall|i: int|
                            0 <= i < queue.len() ==> (#[trigger] r.1.notes[i])
                                == (NoteView::WouldLove { mbid: queue[i] })
                        &&& sync.pushed >= sync.budget ==> r.1.notes.len() == 0
                    } else {
                        loves_next(sync, queue, 0, target, r.0, r.1.action)
                            && r.1.notes.len() == 0
                    }
                },
                _ => {
                    &&& r.0 == (OutboundView { phase: OutboundPhaseView::Finished, ..sync })
                    &&& r.1.action is None
                    &&& r.1.notes.len() == 0
                },
            }
        }),
{
}

/// Behind a love that was applied, and behind one that was rejected, the love of the recording
/// behind it follows, as long as the budget is not spent and the window not exhausted. A love that
/// was applied counts, settles its recording and records it. A stop or an exhausted window ends the
/// sync and lets no further calls follow, and each is told of. A love that failed ends the sync
/// alone.
pub proof fn love_follows_love(
    sync: OutboundView,
    queue: Seq<Text>,
    at: int,
    event: EventView,
    target: TargetView,
)
    requires
        sync.phase == (OutboundPhaseView::Loving { queue, at }),
    ensures
        ({
            let r = sync.step(event, target);
            let nd_username = target.link.nd_username;
            match event {
                EventView::Love(status, exhausted) => {
                    let done = if status == Status::Applied {
                        seq![queue[at]]
                    } else {
                        Seq::empty()
                    };
                    let taken = OutboundView {
                        settled: if status == Status::Applied {
                            sync.settled.insert(queue[at])
                        } else {
                            sync.settled
                        },
                        pushed: sync.pushed + done.len(),
                        ..sync
                    };
                    &&& r.1.persist == settled::recording(
                        target.settings.dry_run,
                        turns::recordings_of(nd_username),
                        done,
                    )
                    &&& if status == Status::Stop {
                        r.1.notes == seq![NoteView::OutboundPausing { nd_username }]
                    } else if exhausted {
                        r.1.notes == seq![NoteView::WindowExhausted { nd_username }]
                    } else {
                        r.1.notes.len() == 0
                    }
                    &&& if status == Status::Stop || exhausted {
                        &&& r.0 == (OutboundView {
                            halted: true,
                            phase: OutboundPhaseView::Finished,
                            ..taken
                        })
                        &&& r.1.action is None
                    } else {
                        loves_next(taken, queue, at + 1, target, r.0, r.1.action)
                    }
                },
                _ => {
                    &&& r.0 == (OutboundView { phase: OutboundPhaseView::Finished, ..sync })
                    &&& r.1.action is None
                    &&& r.1.persist.len() == 0
                    &&& r.1.notes.len() == 0
                },
            }
        }),
{
    let r = sync.step(event, target);
    assert(settled::synced_prefix(target.link.nd_username) =~= turns::recordings_of(
        target.link.nd_username,
    ));
    if let EventView::Love(status, exhausted) = event {
        if status == Status::Applied {
            assert(seq![queue[at]][0] == queue[at]);
            assert(sync.settled.union(seq![queue[at]].to_set()) =~= sync.settled.insert(queue[at]));
        } else {
            assert(sync.settled.union(Seq::<Text>::empty().to_set()) =~= sync.settled);
        }
    }
}

/// An outbound sync whose loves are all applied, once `steps` of them are answered.
pub open spec fn all_applied(sync: OutboundView, target: TargetView, steps: nat) -> (
    OutboundView,
    OutputView,
)
    decreases steps,
{
    if steps <= 1 {
        sync.step(EventView::Love(Status::Applied, false), target)
    } else {
        all_applied(sync, target, (steps - 1) as nat).0.step(
            EventView::Love(Status::Applied, false),
            target,
        )
    }
}

/// Every recording of the queue is loved where the budget has room for all and nothing stands in
/// the way: behind the first `steps` loves, the next in the queue is asked for, and behind the last
/// the sync is done, with each of them settled.
pub proof fn the_whole_queue_is_loved(
    sync: OutboundView,
    queue: Seq<Text>,
    target: TargetView,
    steps: nat,
)
    requires
        sync.phase == (OutboundPhaseView::Loving { queue, at: 0 }),
        queue.len() <= sync.budget - sync.pushed,
        1 <= steps <= queue.len(),
    ensures
        ({
            let r = all_applied(sync, target, steps);
            &&& r.0.pushed == sync.pushed + steps
            &&& r.0.budget == sync.budget
            &&& forall|i: int| 0 <= i < steps ==> r.0.settled.contains(#[trigger] queue[i])
            &&& steps < queue.len() ==> {
                &&& r.0.phase == (OutboundPhaseView::Loving { queue, at: steps as int })
                &&& r.1.action == Some(
                    ActionView::Love {
                        request: listenbrainz::love_write(
                            target.link.token,
                            queue[steps as int],
                            target.settings,
                        ),
                    },
                )
            }
            &&& steps == queue.len() ==> r.0.phase is Finished && r.1.action is None
        }),
    decreases steps,
{
    let event = EventView::Love(Status::Applied, false);
    if steps == 1 {
        love_follows_love(sync, queue, 0, event, target);
    } else {
        the_whole_queue_is_loved(sync, queue, target, (steps - 1) as nat);
        let before = all_applied(sync, target, (steps - 1) as nat).0;
        love_follows_love(before, queue, steps - 1, event, target);
    }
}

} // verus!
