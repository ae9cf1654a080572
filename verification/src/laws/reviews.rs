//! What follows each answer within the CritiqueBrainz half of a link.

use vstd::prelude::*;
use crate::critique::{CritiquePhaseView, CritiqueView};
use crate::critiquebrainz;
use crate::critiquebrainz::{CbEntity, CbReviewPageView};
use crate::laws::halves;
use crate::laws::records;
use crate::laws::turns;
use crate::protocol::{ActionView, EventView, NoteView, OutputView, Reply};
use crate::ratings;
use crate::ratings::{RaterView, RatingsPhaseView, RatingsView, WalkView};
use crate::settings::{SettingsView, UserLinkView};
use crate::settled;
use crate::subsonic;
use crate::subsonic::SearchItemView;
use crate::text::Text;

verus! {

/// The sync of a rule that has just begun: the first page of ratings of its kind is asked for.
pub open spec fn begins_rule(
    stepped: (CritiqueView, OutputView),
    before: CritiqueView,
    user_id: Text,
    rule: int,
    settled: Set<Text>,
    settings: SettingsView,
) -> bool {
    let (entity, asked) = settings.cb_rules[rule];
    &&& stepped.0 == (CritiqueView {
        phase: CritiquePhaseView::Rating {
            user_id,
            rule,
            ratings: RatingsView {
                entity,
                rule: asked,
                settled,
                budget: before.budget - before.changes,
                changes: 0,
                examined: 0,
                unmatched: 0,
                offset: 0,
                halted: false,
                phase: RatingsPhaseView::Page,
            },
        },
        ..before
    })
    &&& stepped.1.action == Some(
        ActionView::Fetch {
            request: critiquebrainz::reviews_read(user_id, entity, 0, settings),
            reply: Reply::Reviews,
        },
    )
}

/// The rule number `rule` has its turn where there is one and the budget is not spent; else the
/// half is done.
pub open spec fn goes_on_with_rule(
    stepped: (CritiqueView, OutputView),
    before: CritiqueView,
    user_id: Text,
    rule: int,
    settled: Set<Text>,
    settings: SettingsView,
) -> bool {
    if rule < settings.cb_rules.len() && before.changes < before.budget {
        begins_rule(stepped, before, user_id, rule, settled, settings)
    } else {
        &&& stepped.0 == (CritiqueView { phase: CritiquePhaseView::Finished, ..before })
        &&& stepped.1.action is None
    }
}

/// A user lookup that gave an id is followed by a listing of the states that are applied for the
/// user, and the account is told of. One that gave none, did not come or exhausted the window ends
/// the half; a missing id and an exhausted window are told of. No further calls may be made just
/// when the service is rate limited or the window is exhausted.
pub proof fn an_account_is_bound_by_its_id(
    sync: CritiqueView,
    username: Text,
    event: EventView,
    settings: SettingsView,
    link: UserLinkView,
)
    requires
        sync.phase == (CritiquePhaseView::Account { username }),
    ensures
        ({
            let r = sync.step(event, settings, link);
            let nd_username = link.nd_username;
            let exhausted = event matches EventView::CbUser(_, e) && e || event
                == EventView::Malformed(true);
            &&& r.1.persist.len() == 0
            &&& if event matches EventView::CbUser(id, e) && id is Some && !e {
                let user_id = event->CbUser_0->0;
                &&& r.0 == (CritiqueView { phase: CritiquePhaseView::Keys { user_id }, ..sync })
                &&& r.1.action == Some(
                    ActionView::ListKeys { prefix: turns::states_of(nd_username) },
                )
                &&& r.1.notes == seq![NoteView::Account { username, user_id, nd_username }]
            } else {
                &&& r.0.phase is Finished
                &&& r.0.budget == sync.budget
                &&& r.0.changes == sync.changes
                &&& r.0.halted == (exhausted || turns::says_limited(event))
                &&& r.1.action is None
                &&& r.1.notes == (if event matches EventView::CbUser(id, _) && id is None {
                    seq![NoteView::NoCbUserId { username }]
                } else {
                    Seq::empty()
                }) + if exhausted {
                    seq![NoteView::WindowExhausted { nd_username }]
                } else {
                    Seq::empty()
                }
            }
        }),
{
    let r = sync.step(event, settings, link);
    let nd_username = link.nd_username;
    assert(settled::cbsynced_prefix(nd_username) =~= turns::states_of(nd_username));
    let exhausted = event matches EventView::CbUser(_, e) && e || event == EventView::Malformed(
        true,
    );
    if !(event matches EventView::CbUser(id, e) && id is Some && !e) {
        assert(r.1.notes =~= (if event matches EventView::CbUser(id, _) && id is None {
            seq![NoteView::NoCbUserId { username }]
        } else {
            Seq::empty()
        }) + if exhausted {
            seq![NoteView::WindowExhausted { nd_username }]
        } else {
            Seq::empty()
        });
    }
}

/// Once the applied states are listed, the first rule has its turn with them and the whole budget.
pub proof fn the_first_rule_begins_with_what_is_listed(
    sync: CritiqueView,
    user_id: Text,
    event: EventView,
    settings: SettingsView,
    link: UserLinkView,
)
    requires
        sync.phase == (CritiquePhaseView::Keys { user_id }),
    ensures
        ({
            let r = sync.step(event, settings, link);
            &&& r.1.persist.len() == 0
            &&& r.1.notes.len() == 0
            &&& exists|known: Set<Text>| #[trigger]
                halves::holds_the_listed(
                    known,
                    halves::listed(event),
                    turns::states_of(link.nd_username),
                ) && (settings.cb_rules.len() > 0 && sync.changes < sync.budget ==> begins_rule(
                    r,
                    sync,
                    user_id,
                    0,
                    known,
                    settings,
                ))
            &&& settings.cb_rules.len() == 0 || sync.changes >= sync.budget ==> r.0.phase is Finished
                && r.1.action is None
        }),
{
    let prefix = turns::states_of(link.nd_username);
    assert(settled::cbsynced_prefix(link.nd_username) =~= prefix);
    let keys = halves::listed(event);
    let known = match event {
        EventView::Keys(keys) => settled::recorded(keys, prefix),
        _ => Set::empty(),
    };
    assert forall|item: Text| #[trigger] known.contains(item) <==> keys.contains(prefix + item) by {
        records::listed_keys_give_back_what_was_recorded(keys, prefix, item);
    }
    assert(halves::holds_the_listed(known, keys, prefix));
}

/// Behind a rule the rule behind it has its turn, with the states that are settled by then and what
/// the changes attempted leave of the budget; behind the last one, and where no further calls may
/// be made, the half is done. Until the rule is done, the half asks for what it asks for. Whatever
/// the rule records and says, the half records and says.
pub proof fn rule_follows_rule(
    sync: CritiqueView,
    user_id: Text,
    rule: int,
    ratings: RatingsView,
    event: EventView,
    settings: SettingsView,
    link: UserLinkView,
)
    requires
        sync.phase == (CritiquePhaseView::Rating { user_id, rule, ratings }),
    ensures
        ({
            let part = ratings.step(event, RaterView { settings, link, user_id });
            let taken = CritiqueView { changes: sync.changes + part.0.changes, ..sync };
            let r = sync.step(event, settings, link);
            &&& r.1.persist == part.1.persist
            &&& r.1.notes == part.1.notes
            &&& if !(part.0.phase is Finished) {
                &&& r.0 == (CritiqueView {
                    phase: CritiquePhaseView::Rating { user_id, rule, ratings: part.0 },
                    ..sync
                })
                &&& r.1 == part.1
            } else if part.0.halted {
                &&& r.0 == (CritiqueView {
                    halted: true,
                    phase: CritiquePhaseView::Finished,
                    ..taken
                })
                &&& r.1 == part.1
            } else {
                goes_on_with_rule(r, taken, user_id, rule + 1, part.0.settled, settings)
            }
        }),
{
    let part = ratings.step(event, RaterView { settings, link, user_id });
    let r = sync.step(event, settings, link);
    assert(r.1.persist =~= part.1.persist);
    assert(r.1.notes =~= part.1.notes);
}

/// What is told at the end of a rule: the ratings that were looked up, the writes that were
/// attempted, and the ratings without a local item.
pub open spec fn told_at_the_end(sync: RatingsView, rater: RaterView) -> NoteView {
    NoteView::Tally {
        entity: sync.entity,
        nd_username: rater.link.nd_username,
        examined: sync.examined,
        changes: sync.changes,
        unmatched: sync.unmatched,
    }
}

/// What follows a page of ratings for a sync in the state `sync`: the next page, where calls are
/// taken and rows are left behind the page; the end, with that told, where the budget is spent
/// while rows are left; or else the end. The tally is told at the end.
pub open spec fn leaves_the_ratings(
    sync: RatingsView,
    walk: WalkView,
    rater: RaterView,
    stepped: (RatingsView, OutputView),
    before: Seq<NoteView>,
) -> bool {
    let behind = sync.offset + walk.reviews.len();
    let rows_left = walk.reviews.len() > 0 && behind < walk.count && !sync.halted;
    if rows_left && sync.changes < sync.budget {
        &&& stepped.0 == (RatingsView { offset: behind, phase: RatingsPhaseView::Page, ..sync })
        &&& stepped.1.action == Some(
            ActionView::Fetch {
                request: critiquebrainz::reviews_read(
                    rater.user_id,
                    sync.entity,
                    behind,
                    rater.settings,
                ),
                reply: Reply::Reviews,
            },
        )
        &&& stepped.1.notes == before
    } else {
        &&& stepped.0.phase is Finished
        &&& stepped.0.settled == sync.settled
        &&& stepped.0.changes == sync.changes
        &&& stepped.0.budget == sync.budget
        &&& stepped.0.halted == sync.halted
        &&& stepped.1.action is None
        &&& stepped.1.notes == before + if rows_left {
            seq![
                NoteView::LimitReached { entity: sync.entity, budget: sync.budget },
                told_at_the_end(sync, rater),
            ]
        } else {
            seq![told_at_the_end(sync, rater)]
        }
    }
}

/// The first outstanding review from `from` on.
pub open spec fn first_outstanding(sync: RatingsView, walk: WalkView, from: int, at: int) -> bool {
    &&& from <= at < walk.reviews.len()
    &&& critiquebrainz::outstanding(walk.reviews[at], sync.entity, sync.rule, sync.settled)
    &&& forall|j: int|
        from <= j < at ==> !critiquebrainz::outstanding(
            #[trigger] walk.reviews[j],
            sync.entity,
            sync.rule,
            sync.settled,
        )
}

/// No review from `from` on is outstanding.
pub open spec fn none_outstanding(sync: RatingsView, walk: WalkView, from: int) -> bool {
    forall|j: int|
        from <= j < walk.reviews.len() ==> !critiquebrainz::outstanding(
            #[trigger] walk.reviews[j],
            sync.entity,
            sync.rule,
            sync.settled,
        )
}

/// What follows a rating: the lookup of the first outstanding one from `from` on, as long as the
/// budget is not spent; without one, what follows the page. The reviews passed on the way are told
/// of where they are of no use.
pub open spec fn goes_on_with_reviews(
    sync: RatingsView,
    walk: WalkView,
    from: int,
    rater: RaterView,
    stepped: (RatingsView, OutputView),
    before: Seq<NoteView>,
) -> bool {
    if sync.changes >= sync.budget {
        leaves_the_ratings(sync, walk, rater, stepped, before)
    } else {
        &&& forall|at: int| #[trigger]
            first_outstanding(sync, walk, from, at) ==> {
                &&& stepped.0 == (RatingsView {
                    examined: sync.examined + 1,
                    phase: RatingsPhaseView::Lookup { walk, at },
                    ..sync
                })
                &&& stepped.1.action == Some(
                    ActionView::Query {
                        uri: subsonic::lookup_call(
                            rater.link.nd_username,
                            walk.reviews[at].entity_id,
                        ),
                    },
                )
                &&& stepped.1.notes == before + critiquebrainz::passed_over_notes(
                    walk.reviews.subrange(from, at),
                    sync.entity,
                )
            }
        &&& none_outstanding(sync, walk, from) ==> leaves_the_ratings(
            sync,
            walk,
            rater,
            stepped,
            before + critiquebrainz::passed_over_notes(
                walk.reviews.subrange(from, walk.reviews.len() as int),
                sync.entity,
            ),
        )
    }
}

proof fn the_next_review_is_the_first_outstanding_one(sync: RatingsView, walk: WalkView, from: int)
    requires
        0 <= from,
    ensures
        forall|at: int| #[trigger]
            first_outstanding(sync, walk, from, at) ==> ratings::next_outstanding(
                walk.reviews,
                from,
                sync.entity,
                sync.rule,
                sync.settled,
            ) == Some(at),
        none_outstanding(sync, walk, from) ==> ratings::next_outstanding(
            walk.reviews,
            from,
            sync.entity,
            sync.rule,
            sync.settled,
        ) is None,
    decreases walk.reviews.len() - from,
{
    if from < walk.reviews.len() {
        if critiquebrainz::outstanding(
            walk.reviews[from],
            sync.entity,
            sync.rule,
            sync.settled,
        ) {
            assert forall|at: int| #[trigger] first_outstanding(sync, walk, from, at) implies
                ratings::next_outstanding(
                walk.reviews,
                from,
                sync.entity,
                sync.rule,
                sync.settled,
            ) == Some(at) by {
                if at != from {
                    assert(!critiquebrainz::outstanding(
                        walk.reviews[from],
                        sync.entity,
                        sync.rule,
                        sync.settled,
                    ));
                }
            }
        } else {
            the_next_review_is_the_first_outstanding_one(sync, walk, from + 1);
            assert forall|at: int| #[trigger] first_outstanding(sync, walk, from, at) implies
                ratings::next_outstanding(
                walk.reviews,
                from,
                sync.entity,
                sync.rule,
                sync.settled,
            ) == Some(at) by {
                assert(first_outstanding(sync, walk, from + 1, at));
            }
        }
    }
}

proof fn a_left_page_is_left(sync: RatingsView, walk: WalkView, rater: RaterView)
    ensures
        leaves_the_ratings(
            sync,
            walk,
            rater,
            sync.leave_page(walk, rater),
            Seq::<NoteView>::empty(),
        ),
        sync.leave_page(walk, rater).1.persist.len() == 0,
{
    let r = sync.leave_page(walk, rater);
    let behind = sync.offset + walk.reviews.len();
    let rows_left = walk.reviews.len() > 0 && behind < walk.count && !sync.halted;
    if rows_left && sync.changes >= sync.budget {
        assert(r.1.notes =~= Seq::<NoteView>::empty() + seq![
            NoteView::LimitReached { entity: sync.entity, budget: sync.budget },
            told_at_the_end(sync, rater),
        ]);
    } else if !rows_left {
        assert(r.1.notes =~= Seq::<NoteView>::empty() + seq![told_at_the_end(sync, rater)]);
    }
}

/// An output with notes put before its own.
spec fn behind_notes(
    stepped: (RatingsView, OutputView),
    before: Seq<NoteView>,
    persist: Seq<Text>,
) -> (RatingsView, OutputView) {
    (
        stepped.0,
        OutputView {
            persist: persist + stepped.1.persist,
            notes: before + stepped.1.notes,
            action: stepped.1.action,
        },
    )
}

proof fn notes_come_before(
    sync: RatingsView,
    walk: WalkView,
    rater: RaterView,
    stepped: (RatingsView, OutputView),
    told: Seq<NoteView>,
    before: Seq<NoteView>,
    persist: Seq<Text>,
)
    requires
        leaves_the_ratings(sync, walk, rater, stepped, told),
    ensures
        leaves_the_ratings(
            sync,
            walk,
            rater,
            behind_notes(stepped, before, persist),
            before + told,
        ),
{
    let r = behind_notes(stepped, before, persist);
    let rows_left = walk.reviews.len() > 0 && sync.offset + walk.reviews.len() < walk.count
        && !sync.halted;
    let end = if rows_left {
        seq![
            NoteView::LimitReached { entity: sync.entity, budget: sync.budget },
            told_at_the_end(sync, rater),
        ]
    } else {
        seq![told_at_the_end(sync, rater)]
    };
    assert(before + (told + end) =~= (before + told) + end);
}

proof fn going_on_goes_on(
    sync: RatingsView,
    walk: WalkView,
    from: int,
    rater: RaterView,
    before: Seq<NoteView>,
    persist: Seq<Text>,
)
    requires
        0 <= from,
    ensures
        goes_on_with_reviews(
            sync,
            walk,
            from,
            rater,
            behind_notes(sync.go_on(walk, from, rater), before, persist),
            before,
        ),
        sync.go_on(walk, from, rater).1.persist.len() == 0,
{
    let stepped = sync.go_on(walk, from, rater);
    let r = behind_notes(stepped, before, persist);
    the_next_review_is_the_first_outstanding_one(sync, walk, from);
    a_left_page_is_left(sync, walk, rater);
    let left = sync.leave_page(walk, rater);
    let none = Seq::<NoteView>::empty();
    assert(before + none =~= before);
    if sync.changes >= sync.budget {
        notes_come_before(sync, walk, rater, left, none, before, persist);
    } else if ratings::next_outstanding(
        walk.reviews,
        from,
        sync.entity,
        sync.rule,
        sync.settled,
    ) is None {
        let passed = critiquebrainz::passed_over_notes(
            walk.reviews.subrange(from, walk.reviews.len() as int),
            sync.entity,
        );
        assert(passed + none =~= passed);
        notes_come_before(sync, walk, rater, left, none, passed, Seq::empty());
        notes_come_before(
            sync,
            walk,
            rater,
            behind_notes(left, passed, Seq::empty()),
            passed,
            before,
            persist,
        );
        assert(stepped.1.notes == passed + left.1.notes);
        assert(behind_notes(behind_notes(left, passed, Seq::empty()), before, persist).1.notes
            == r.1.notes);
    }
}

/// A page of ratings is walked from its first outstanding rating on; one without rows is the last.
/// An exhausted window is told of.
pub proof fn a_page_of_ratings_is_walked(
    sync: RatingsView,
    page: CbReviewPageView,
    exhausted: bool,
    rater: RaterView,
)
    requires
        sync.phase is Page,
    ensures
        ({
            let r = sync.step(EventView::Reviews(page, exhausted), rater);
            let taken = RatingsView { halted: exhausted, ..sync };
            let walk = WalkView { reviews: page.reviews, count: page.count };
            let told = if exhausted {
                seq![NoteView::WindowExhausted { nd_username: rater.link.nd_username }]
            } else {
                Seq::empty()
            };
            &&& r.1.persist.len() == 0
            &&& if page.reviews.len() == 0 {
                &&& r.0.phase is Finished
                &&& r.0.halted == exhausted
                &&& r.0.changes == sync.changes
                &&& r.0.settled == sync.settled
                &&& r.1.action is None
                &&& r.1.notes == told.push(told_at_the_end(taken, rater))
            } else {
                goes_on_with_reviews(taken, walk, 0, rater, r, told)
            }
        }),
{
    let r = sync.step(EventView::Reviews(page, exhausted), rater);
    let taken = RatingsView { halted: exhausted, ..sync };
    let walk = WalkView { reviews: page.reviews, count: page.count };
    let told = if exhausted {
        seq![NoteView::WindowExhausted { nd_username: rater.link.nd_username }]
    } else {
        Seq::empty()
    };
    if page.reviews.len() > 0 {
        going_on_goes_on(taken, walk, 0, rater, told, Seq::empty());
        assert(r == behind_notes(taken.go_on(walk, 0, rater), told, Seq::empty()));
    } else {
        assert(r.1.notes =~= told.push(told_at_the_end(taken, rater)));
    }
}

/// A page of ratings that did not come ends the rule. No further calls may be made just when the
/// service is rate limited or the window is exhausted; the latter is told of.
pub proof fn a_missing_page_of_ratings_ends_the_rule(
    sync: RatingsView,
    event: EventView,
    rater: RaterView,
)
    requires
        sync.phase is Page,
        !(event is Reviews),
    ensures
        ({
            let r = sync.step(event, rater);
            let unread = event == EventView::Malformed(true);
            &&& r.0.phase is Finished
            &&& r.0.settled == sync.settled
            &&& r.0.changes == sync.changes
            &&& r.0.budget == sync.budget
            &&& r.0.halted == (turns::says_limited(event) || unread)
            &&& r.1.action is None
            &&& r.1.persist.len() == 0
            &&& r.1.notes == if unread {
                seq![
                    NoteView::WindowExhausted { nd_username: rater.link.nd_username },
                    told_at_the_end(sync, rater),
                ]
            } else {
                seq![told_at_the_end(sync, rater)]
            }
        }),
{
    let r = sync.step(event, rater);
    if event == EventView::Malformed(true) {
        assert(r.1.notes =~= seq![
            NoteView::WindowExhausted { nd_username: rater.link.nd_username },
            told_at_the_end(sync, rater),
        ]);
    } else {
        assert(r.1.notes =~= seq![told_at_the_end(sync, rater)]);
    }
}

/// The local items that the answer to a lookup lists; a failed one lists none.
pub open spec fn found_items(event: EventView, entity: CbEntity, mbid: Text) -> Seq<SearchItemView> {
    match event {
        EventView::Envelope(envelope) => subsonic::local_items(envelope, entity, mbid),
        _ => Seq::empty(),
    }
}

/// A rating whose lookup finds no local item counts as such and leaves the turn to the next one.
pub proof fn a_rating_without_items_is_passed(
    sync: RatingsView,
    walk: WalkView,
    at: int,
    event: EventView,
    rater: RaterView,
)
    requires
        0 <= at,
        sync.phase == (RatingsPhaseView::Lookup { walk, at }),
        found_items(event, sync.entity, walk.reviews[at].entity_id).len() == 0,
    ensures
        ({
            let r = sync.step(event, rater);
            &&& r.1.persist.len() == 0
            &&& goes_on_with_reviews(
                RatingsView { unmatched: sync.unmatched + 1, ..sync },
                walk,
                at + 1,
                rater,
                r,
                Seq::empty(),
            )
        }),
{
    let after = RatingsView { unmatched: sync.unmatched + 1, ..sync };
    let r = sync.step(event, rater);
    going_on_goes_on(after, walk, at + 1, rater, Seq::empty(), Seq::empty());
    let stepped = after.go_on(walk, at + 1, rater);
    assert(Seq::<NoteView>::empty() + stepped.1.notes =~= stepped.1.notes);
    assert(Seq::<Text>::empty() + stepped.1.persist =~= stepped.1.persist);
    assert(r == behind_notes(stepped, Seq::empty(), Seq::empty()));
}

/// What follows a rating whose state is brought about: the state is settled and, but for a dry run,
/// recorded for the user, and the next rating has its turn.
pub open spec fn settles_and_goes_on(
    sync: RatingsView,
    walk: WalkView,
    at: int,
    rater: RaterView,
    stepped: (RatingsView, OutputView),
    told: Seq<NoteView>,
) -> bool {
    let review = walk.reviews[at];
    let state = critiquebrainz::state_key(
        sync.entity,
        review.entity_id,
        review.shown_rating()->0 as int,
        sync.rule,
    );
    &&& stepped.1.persist == if rater.settings.dry_run {
        Seq::empty()
    } else {
        seq![turns::states_of(rater.link.nd_username) + state]
    }
    &&& goes_on_with_reviews(
        RatingsView { settled: sync.settled.insert(state), ..sync },
        walk,
        at + 1,
        rater,
        stepped,
        told,
    )
}

proof fn settling_goes_on(
    sync: RatingsView,
    walk: WalkView,
    at: int,
    rater: RaterView,
    told: Seq<NoteView>,
)
    requires
        0 <= at,
    ensures
        settles_and_goes_on(
            sync,
            walk,
            at,
            rater,
            behind_notes(sync.settle(walk, at, rater), told, Seq::empty()),
            told,
        ),
{
    let state = sync.state(walk, at);
    let after = RatingsView { settled: sync.settled.insert(state), ..sync };
    let stepped = after.go_on(walk, at + 1, rater);
    let prefix = settled::cbsynced_prefix(rater.link.nd_username);
    assert(prefix =~= turns::states_of(rater.link.nd_username));
    let added = settled::recording(rater.settings.dry_run, prefix, seq![state]);
    if !rater.settings.dry_run {
        assert(added =~= seq![prefix + state]);
    }
    going_on_goes_on(after, walk, at + 1, rater, told, added);
    let r = behind_notes(sync.settle(walk, at, rater), told, Seq::empty());
    let settled = sync.settle(walk, at, rater);
    assert(settled.1.notes =~= stepped.1.notes);
    assert(settled.1.persist =~= added + stepped.1.persist);
    assert(r.1.persist =~= added + stepped.1.persist);
    assert(r.1.persist =~= added);
    assert(r == behind_notes(stepped, told, added));
}

/// A rating with local items in a dry run: nothing is written, what would be is told of by the
/// number of items, and the state counts as settled for this pass alone.
pub proof fn a_dry_run_tells_of_a_rating_and_goes_on(
    sync: RatingsView,
    walk: WalkView,
    at: int,
    event: EventView,
    rater: RaterView,
)
    requires
        0 <= at,
        sync.phase == (RatingsPhaseView::Lookup { walk, at }),
        found_items(event, sync.entity, walk.reviews[at].entity_id).len() > 0,
        rater.settings.dry_run,
    ensures
        ({
            let review = walk.reviews[at];
            let rating = review.shown_rating()->0;
            let items = found_items(event, sync.entity, review.entity_id);
            let to_rate = ratings::rating_targets(items, rating, sync.rule).len() as int;
            let to_star = ratings::star_targets(items, rating, sync.rule).len() as int;
            let rate = NoteView::WouldRate {
                entity: sync.entity,
                mbid: review.entity_id,
                rating: rating as int,
                items: to_rate,
            };
            let star = NoteView::WouldFavourite {
                entity: sync.entity,
                mbid: review.entity_id,
                items: to_star,
            };
            let told = if to_rate > 0 && to_star > 0 {
                seq![rate, star]
            } else if to_rate > 0 {
                seq![rate]
            } else if to_star > 0 {
                seq![star]
            } else {
                Seq::empty()
            };
            settles_and_goes_on(sync, walk, at, rater, sync.step(event, rater), told)
        }),
{
    let review = walk.reviews[at];
    let rating = review.shown_rating()->0;
    let items = found_items(event, sync.entity, review.entity_id);
    let to_rate = ratings::rating_targets(items, rating, sync.rule).len() as int;
    let to_star = ratings::star_targets(items, rating, sync.rule).len() as int;
    let rate = NoteView::WouldRate {
        entity: sync.entity,
        mbid: review.entity_id,
        rating: rating as int,
        items: to_rate,
    };
    let star = NoteView::WouldFavourite {
        entity: sync.entity,
        mbid: review.entity_id,
        items: to_star,
    };
    let told = if to_rate > 0 && to_star > 0 {
        seq![rate, star]
    } else if to_rate > 0 {
        seq![rate]
    } else if to_star > 0 {
        seq![star]
    } else {
        Seq::empty()
    };
    let previews = ratings::rating_previews(
        items,
        review.entity_id,
        rating,
        sync.entity,
        sync.rule,
    );
    assert(previews =~= told);
    settling_goes_on(sync, walk, at, rater, told);
    assert(sync.step(event, rater) == behind_notes(
        sync.settle(walk, at, rater),
        told,
        Seq::empty(),
    ));
}

/// A rating with local items is written: each item that lacks the rating is rated, in order, and
/// then each that lacks the star is favourited, by a call of its own. Where none lacks anything the
/// state is settled at once.
pub proof fn a_rating_is_written_item_by_item(
    sync: RatingsView,
    walk: WalkView,
    at: int,
    event: EventView,
    rater: RaterView,
)
    requires
        0 <= at,
        sync.phase == (RatingsPhaseView::Lookup { walk, at }),
        sync.changes < sync.budget,
        found_items(event, sync.entity, walk.reviews[at].entity_id).len() > 0,
        !rater.settings.dry_run,
    ensures
        ({
            let r = sync.step(event, rater);
            let rating = walk.reviews[at].shown_rating()->0;
            let items = found_items(event, sync.entity, walk.reviews[at].entity_id);
            let to_rate = ratings::rating_targets(items, rating, sync.rule);
            let to_star = ratings::star_targets(items, rating, sync.rule);
            if to_rate.len() + to_star.len() > 0 {
                &&& r.1.persist.len() == 0
                &&& r.1.notes.len() == 0
                &&& r.0.phase matches RatingsPhaseView::Writing {
                    walk: w,
                    at: a,
                    queue,
                    rated,
                    done,
                } && {
                    &&& r.0 == (RatingsView { phase: r.0.phase, ..sync })
                    &&& w == walk
                    &&& a == at
                    &&& done == 0
                    &&& rated == to_rate.len()
                    &&& queue.len() == to_rate.len() + to_star.len()
                    &&& forall|k: int|
                        0 <= k < to_rate.len() ==> (#[trigger] queue[k]) == subsonic::rating_call(
                            rater.link.nd_username,
                            to_rate[k].id,
                            rating as int,
                        )
                    &&& forall|k: int|
                        to_rate.len() <= k < queue.len() ==> (#[trigger] queue[k])
                            == subsonic::star_call(
                            rater.link.nd_username,
                            sync.entity,
                            to_star[k - to_rate.len()].id,
                        )
                    &&& r.1.action == Some(ActionView::Update { uri: queue[0] })
                }
            } else {
                settles_and_goes_on(sync, walk, at, rater, r, Seq::empty())
            }
        }),
{
    let r = sync.step(event, rater);
    let rating = walk.reviews[at].shown_rating()->0;
    let items = found_items(event, sync.entity, walk.reviews[at].entity_id);
    let to_rate = ratings::rating_targets(items, rating, sync.rule);
    let to_star = ratings::star_targets(items, rating, sync.rule);
    if to_rate.len() + to_star.len() == 0 {
        let after = RatingsView { changes: sync.changes + 0, ..sync };
        assert(after == sync);
        settling_goes_on(sync, walk, at, rater, Seq::empty());
        assert(r == behind_notes(sync.settle(walk, at, rater), Seq::empty(), Seq::empty()));
    }
}

/// Write follows write as long as they succeed and the budget is not spent. Behind the last one the
/// writes count, the state is settled and recorded, and what was done is told. Where the budget is
/// spent before, the writes made count, the state stays as it is, and the rule is done. A failed
/// write counts with those before it and leaves the turn to the next rating.
pub proof fn write_follows_write(
    sync: RatingsView,
    walk: WalkView,
    at: int,
    queue: Seq<Text>,
    rated: int,
    done: int,
    event: EventView,
    rater: RaterView,
)
    requires
        0 <= at,
        sync.phase == (RatingsPhaseView::Writing { walk, at, queue, rated, done }),
        0 <= done < queue.len(),
    ensures
        ({
            let r = sync.step(event, rater);
            let succeeded = event matches EventView::Envelope(envelope) && envelope.status == "ok"@;
            let made = sync.changes + done + 1;
            if !succeeded {
                &&& r.1.persist.len() == 0
                &&& goes_on_with_reviews(
                    RatingsView { changes: made, ..sync },
                    walk,
                    at + 1,
                    rater,
                    r,
                    Seq::empty(),
                )
            } else if done + 1 == queue.len() {
                settles_and_goes_on(
                    RatingsView { changes: made, ..sync },
                    walk,
                    at,
                    rater,
                    r,
                    seq![
                        NoteView::StateApplied {
                            entity: sync.entity,
                            mbid: walk.reviews[at].entity_id,
                            state: critiquebrainz::state_key(
                                sync.entity,
                                walk.reviews[at].entity_id,
                                walk.reviews[at].shown_rating()->0 as int,
                                sync.rule,
                            ),
                            rated,
                            starred: queue.len() - rated,
                        },
                    ],
                )
            } else if made < sync.budget {
                &&& r.0 == (RatingsView {
                    phase: RatingsPhaseView::Writing { walk, at, queue, rated, done: done + 1 },
                    ..sync
                })
                &&& r.1.action == Some(ActionView::Update { uri: queue[done + 1] })
                &&& r.1.persist.len() == 0
                &&& r.1.notes.len() == 0
            } else {
                let after = RatingsView { changes: made, ..sync };
                &&& r.0.phase is Finished
                &&& r.0.changes == made
                &&& r.0.settled == sync.settled
                &&& r.0.halted == sync.halted
                &&& r.1.action is None
                &&& r.1.persist.len() == 0
                &&& r.1.notes == seq![
                    NoteView::LimitReached { entity: sync.entity, budget: sync.budget },
                    told_at_the_end(after, rater),
                ]
            }
        }),
{
    let r = sync.step(event, rater);
    let succeeded = event matches EventView::Envelope(envelope) && envelope.status == "ok"@;
    let after = RatingsView { changes: sync.changes + done + 1, ..sync };
    let none = Seq::<NoteView>::empty();
    if !succeeded {
        going_on_goes_on(after, walk, at + 1, rater, none, Seq::empty());
        let stepped = after.go_on(walk, at + 1, rater);
        assert(none + stepped.1.notes =~= stepped.1.notes);
        assert(Seq::<Text>::empty() + stepped.1.persist =~= stepped.1.persist);
        assert(r == behind_notes(stepped, none, Seq::empty()));
    } else if done + 1 == queue.len() {
        let told = seq![
            NoteView::StateApplied {
                entity: sync.entity,
                mbid: walk.reviews[at].entity_id,
                state: sync.state(walk, at),
                rated,
                starred: queue.len() - rated,
            },
        ];
        settling_goes_on(after, walk, at, rater, told);
        assert(r == behind_notes(after.settle(walk, at, rater), told, Seq::empty()));
    }
}

} // verus!
