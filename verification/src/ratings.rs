//! Copying the ratings of one CritiqueBrainz entity type onto a user's local items.

use vstd::prelude::*;
use crate::critiquebrainz;
use crate::critiquebrainz::{
    CbEntity,
    CbReview,
    CbReviewPage,
    CbReviewPageView,
    CbReviewView,
    CbRule,
};
use crate::protocol;
use crate::protocol::{
    Action,
    ActionView,
    Event,
    EventView,
    Note,
    NoteView,
    Output,
    OutputView,
    Reply,
};
use crate::settings::{Settings, SettingsView, UserLink, UserLinkView};
use crate::settled;
use crate::settled::TextSet;
use crate::subsonic;
use crate::subsonic::{SearchItem, SearchItemView};
use crate::text;
use crate::text::Text;

verus! {

/// Whom ratings are copied for: the settings, the user link, and the CritiqueBrainz user id.
pub struct Rater<'a> {
    pub settings: &'a Settings,
    pub link: &'a UserLink,
    pub user_id: &'a str,
}

/// What a rater says.
pub struct RaterView {
    pub settings: SettingsView,
    pub link: UserLinkView,
    pub user_id: Text,
}

impl<'a> View for Rater<'a> {
    type V = RaterView;

    open spec fn view(&self) -> RaterView {
        RaterView { settings: self.settings@, link: self.link@, user_id: self.user_id@ }
    }
}

/// A page of ratings that is being walked.
#[derive(Debug, PartialEq, Eq)]
pub struct Walk {
    pub reviews: Vec<CbReview>,
    pub count: i64,
}

/// What a page of ratings says.
pub struct WalkView {
    pub reviews: Seq<CbReviewView>,
    pub count: i64,
}

impl View for Walk {
    type V = WalkView;

    open spec fn view(&self) -> WalkView {
        WalkView {
            reviews: critiquebrainz::review_views(self.reviews@),
            count: self.count,
        }
    }
}

/// Where the sync of one entity type stands.
#[derive(Debug, PartialEq, Eq)]
pub enum RatingsPhase {
    /// A page of ratings is asked for.
    Page,
    /// The local items of the rating at `at` are asked for.
    Lookup { walk: Walk, at: usize },
    /// The state of the rating at `at` is being applied; `done` of its writes succeeded. The first
    /// `rated` of them set the rating, and the ones behind favourite.
    Writing { walk: Walk, at: usize, queue: Vec<String>, rated: usize, done: usize },
    /// Nothing is left to do.
    Finished,
}

/// What a phase says.
pub enum RatingsPhaseView {
    Page,
    Lookup { walk: WalkView, at: int },
    Writing { walk: WalkView, at: int, queue: Seq<Text>, rated: int, done: int },
    Finished,
}

impl View for RatingsPhase {
    type V = RatingsPhaseView;

    open spec fn view(&self) -> RatingsPhaseView {
        match self {
            RatingsPhase::Page => RatingsPhaseView::Page,
            RatingsPhase::Lookup { walk, at } => RatingsPhaseView::Lookup {
                walk: walk@,
                at: *at as int,
            },
            RatingsPhase::Writing { walk, at, queue, rated, done } => RatingsPhaseView::Writing {
                walk: walk@,
                at: *at as int,
                queue: text::texts(queue@),
                rated: *rated as int,
                done: *done as int,
            },
            RatingsPhase::Finished => RatingsPhaseView::Finished,
        }
    }
}

/// The sync of one entity type.
pub struct Ratings {
    entity: CbEntity,
    rule: CbRule,
    settled: TextSet,
    budget: i64,
    changes: i64,
    examined: u128,
    unmatched: u128,
    offset: i64,
    halted: bool,
    phase: RatingsPhase,
}

/// What the sync of one entity type has done and is about to do. `changes` are the writes that were
/// attempted, `examined` the outstanding ratings that were looked up, and `unmatched` those of them
/// without a local item. `halted` says that CritiqueBrainz takes no further calls in this pass: it
/// was rate limited, or the rate-limit window is exhausted.
pub struct RatingsView {
    pub entity: CbEntity,
    pub rule: CbRule,
    pub settled: Set<Text>,
    pub budget: int,
    pub changes: int,
    pub examined: int,
    pub unmatched: int,
    pub offset: int,
    pub halted: bool,
    pub phase: RatingsPhaseView,
}

impl View for Ratings {
    type V = RatingsView;

    closed spec fn view(&self) -> RatingsView {
        RatingsView {
            entity: self.entity,
            rule: self.rule,
            settled: self.settled@,
            budget: self.budget as int,
            changes: self.changes as int,
            examined: self.examined as int,
            unmatched: self.unmatched as int,
            offset: self.offset as int,
            halted: self.halted,
            phase: self.phase@,
        }
    }
}

/// The first outstanding review from `from` on.
pub open spec fn next_outstanding(
    reviews: Seq<CbReviewView>,
    from: int,
    entity: CbEntity,
    rule: CbRule,
    settled: Set<Text>,
) -> Option<int>
    decreases reviews.len() - from,
{
    if from < 0 || from >= reviews.len() {
        None
    } else if critiquebrainz::outstanding(reviews[from], entity, rule, settled) {
        Some(from)
    } else {
        next_outstanding(reviews, from + 1, entity, rule, settled)
    }
}

/// The items whose rating a rule changes.
pub open spec fn rating_targets(items: Seq<SearchItemView>, rating: i64, rule: CbRule) -> Seq<
    SearchItemView,
> {
    if rule.sync_rating {
        subsonic::without_rating(items, rating)
    } else {
        Seq::empty()
    }
}

/// The items that a rule favourites.
pub open spec fn star_targets(items: Seq<SearchItemView>, rating: i64, rule: CbRule) -> Seq<
    SearchItemView,
> {
    if rule.favourites(rating as int) {
        subsonic::without_star(items)
    } else {
        Seq::empty()
    }
}

/// The calls that bring the items into the wanted state: first the ratings, then the favourites.
pub open spec fn writes(
    items: Seq<SearchItemView>,
    rating: i64,
    entity: CbEntity,
    rule: CbRule,
    nd_username: Text,
) -> Seq<Text> {
    rating_targets(items, rating, rule).map_values(
        |item: SearchItemView| subsonic::rating_call(nd_username, item.id, rating as int),
    ) + star_targets(items, rating, rule).map_values(
        |item: SearchItemView| subsonic::star_call(nd_username, entity, item.id),
    )
}

/// What a dry run says of the items it does not touch.
pub open spec fn rating_previews(
    items: Seq<SearchItemView>,
    mbid: Text,
    rating: i64,
    entity: CbEntity,
    rule: CbRule,
) -> Seq<NoteView> {
    let rated = rating_targets(items, rating, rule);
    let starred = star_targets(items, rating, rule);
    (if rated.len() > 0 {
        seq![
            NoteView::WouldRate {
                entity,
                mbid,
                rating: rating as int,
                items: rated.len() as int,
            },
        ]
    } else {
        Seq::empty()
    }) + (if starred.len() > 0 {
        seq![NoteView::WouldFavourite { entity, mbid, items: starred.len() as int }]
    } else {
        Seq::empty()
    })
}

impl RatingsView {
    /// The budget caps the changes that were attempted.
    pub open spec fn within_budget(self) -> bool {
        0 <= self.changes && (self.changes <= self.budget || self.changes == 0)
    }

    /// The bounds on what was counted. `upto` is how far the list of ratings was walked.
    pub open spec fn counted(self, upto: int) -> bool {
        &&& 0 <= self.offset
        &&& 0 <= self.unmatched <= self.examined <= upto
        &&& self.within_budget()
    }

    /// A rating that is being dealt with: the budget is not spent, and the rating is outstanding.
    pub open spec fn at_work(self, walk: WalkView, at: int) -> bool {
        &&& self.changes < self.budget
        &&& 0 <= at < walk.reviews.len() <= usize::MAX
        &&& self.counted(self.offset + at + 1)
        &&& self.unmatched < self.examined
        &&& critiquebrainz::outstanding(walk.reviews[at], self.entity, self.rule, self.settled)
    }

    /// What holds of every sync of an entity type: a page is asked for, a rating is dealt with and
    /// a write is made only while the budget is not spent, and a page only while calls are taken.
    pub open spec fn wf(self) -> bool {
        match self.phase {
            RatingsPhaseView::Page => {
                &&& self.changes < self.budget
                &&& !self.halted
                &&& self.counted(self.offset)
            },
            RatingsPhaseView::Lookup { walk, at } => self.at_work(walk, at),
            RatingsPhaseView::Writing { walk, at, queue, rated, done } => {
                &&& self.at_work(walk, at)
                &&& 0 <= rated <= queue.len()
                &&& 0 <= done < queue.len() <= usize::MAX
                &&& self.changes + done < self.budget
            },
            RatingsPhaseView::Finished => self.within_budget(),
        }
    }

    /// What is said at the end.
    pub open spec fn tally(self, rater: RaterView) -> NoteView {
        NoteView::Tally {
            entity: self.entity,
            nd_username: rater.link.nd_username,
            examined: self.examined,
            changes: self.changes,
            unmatched: self.unmatched,
        }
    }

    /// The end of the work. The tally is reported, so silence is never mistaken for nothing to do.
    pub open spec fn finish(self, rater: RaterView) -> (RatingsView, OutputView) {
        (
            RatingsView { phase: RatingsPhaseView::Finished, ..self },
            protocol::telling(seq![self.tally(rater)], None),
        )
    }

    /// The end of the work while some is left: the budget is spent, and the next pass continues.
    pub open spec fn cut_short(self, rater: RaterView) -> (RatingsView, OutputView) {
        (
            RatingsView { phase: RatingsPhaseView::Finished, ..self },
            protocol::telling(
                seq![
                    NoteView::LimitReached { entity: self.entity, budget: self.budget },
                    self.tally(rater),
                ],
                None,
            ),
        )
    }

    /// Asks for the page at the offset, as long as the budget is not spent.
    pub open spec fn ask_page(self, rater: RaterView) -> (RatingsView, OutputView) {
        if self.changes < self.budget {
            (
                RatingsView { phase: RatingsPhaseView::Page, ..self },
                protocol::asking(
                    Some(
                        ActionView::Fetch {
                            request: critiquebrainz::reviews_read(
                                rater.user_id,
                                self.entity,
                                self.offset,
                                rater.settings,
                            ),
                            reply: Reply::Reviews,
                        },
                    ),
                ),
            )
        } else {
            self.cut_short(rater)
        }
    }

    /// Goes on behind a page: to the next one, as long as calls are taken and the list goes on.
    pub open spec fn leave_page(self, walk: WalkView, rater: RaterView) -> (
        RatingsView,
        OutputView,
    ) {
        match critiquebrainz::next_offset(
            self.offset,
            walk.reviews.len() as int,
            walk.count as int,
        ) {
            Some(next) if !self.halted => RatingsView { offset: next, ..self }.ask_page(rater),
            _ => self.finish(rater),
        }
    }

    /// Looks up the next outstanding rating of a page from `from` on, as long as the budget is not
    /// spent. Ratings that are not outstanding are passed over without a lookup, and told of where
    /// they are of no use.
    pub open spec fn go_on(self, walk: WalkView, from: int, rater: RaterView) -> (
        RatingsView,
        OutputView,
    ) {
        if self.changes >= self.budget {
            self.leave_page(walk, rater)
        } else {
            match next_outstanding(walk.reviews, from, self.entity, self.rule, self.settled) {
                Some(at) => (
                    RatingsView {
                        examined: self.examined + 1,
                        phase: RatingsPhaseView::Lookup { walk, at },
                        ..self
                    },
                    protocol::telling(
                        critiquebrainz::passed_over_notes(
                            walk.reviews.subrange(from, at),
                            self.entity,
                        ),
                        Some(
                            ActionView::Query {
                                uri: subsonic::lookup_call(
                                    rater.link.nd_username,
                                    walk.reviews[at].entity_id,
                                ),
                            },
                        ),
                    ),
                ),
                None => {
                    let next = self.leave_page(walk, rater);
                    (
                        next.0,
                        protocol::preceded(
                            next.1,
                            Seq::empty(),
                            critiquebrainz::passed_over_notes(
                                walk.reviews.subrange(from, walk.reviews.len() as int),
                                self.entity,
                            ),
                        ),
                    )
                },
            }
        }
    }

    /// The state that the rating at `at` asks for.
    pub open spec fn state(self, walk: WalkView, at: int) -> Text {
        let review = walk.reviews[at];
        critiquebrainz::state_key(
            self.entity,
            review.entity_id,
            review.shown_rating()->0 as int,
            self.rule,
        )
    }

    /// Settles the state of the rating at `at` and goes on behind it.
    pub open spec fn settle(self, walk: WalkView, at: int, rater: RaterView) -> (
        RatingsView,
        OutputView,
    ) {
        let state = self.state(walk, at);
        let next = RatingsView { settled: self.settled.insert(state), ..self }.go_on(
            walk,
            at + 1,
            rater,
        );
        (
            next.0,
            protocol::preceded(
                next.1,
                settled::recording(
                    rater.settings.dry_run,
                    settled::cbsynced_prefix(rater.link.nd_username),
                    seq![state],
                ),
                Seq::empty(),
            ),
        )
    }

    /// What is said of the rating at `at` once its writes are made.
    pub open spec fn applied_notes(
        self,
        walk: WalkView,
        at: int,
        rated: int,
        starred: int,
    ) -> Seq<NoteView> {
        if rated + starred > 0 {
            seq![
                NoteView::StateApplied {
                    entity: self.entity,
                    mbid: walk.reviews[at].entity_id,
                    state: self.state(walk, at),
                    rated,
                    starred,
                },
            ]
        } else {
            Seq::empty()
        }
    }

    /// Makes the write number `done`, as long as the budget is not spent. Behind the last one the
    /// state is settled; where the budget is spent before, it stays unsettled, and the next pass
    /// writes what is still missing.
    pub open spec fn ask_write(
        self,
        walk: WalkView,
        at: int,
        queue: Seq<Text>,
        rated: int,
        done: int,
        rater: RaterView,
    ) -> (RatingsView, OutputView) {
        if done < queue.len() {
            if self.changes + done < self.budget {
                (
                    RatingsView {
                        phase: RatingsPhaseView::Writing { walk, at, queue, rated, done },
                        ..self
                    },
                    protocol::asking(Some(ActionView::Update { uri: queue[done] })),
                )
            } else {
                RatingsView { changes: self.changes + done, ..self }.cut_short(rater)
            }
        } else {
            let next = RatingsView { changes: self.changes + queue.len(), ..self }.settle(
                walk,
                at,
                rater,
            );
            (
                next.0,
                protocol::preceded(
                    next.1,
                    Seq::empty(),
                    self.applied_notes(walk, at, rated, queue.len() - rated),
                ),
            )
        }
    }

    /// Takes a page of ratings. One that exhausts the rate-limit window is the last.
    pub open spec fn take_page(
        self,
        page: CbReviewPageView,
        exhausted: bool,
        rater: RaterView,
    ) -> (RatingsView, OutputView) {
        let taken = RatingsView { halted: exhausted, ..self };
        let next = if page.reviews.len() == 0 {
            taken.finish(rater)
        } else {
            taken.go_on(WalkView { reviews: page.reviews, count: page.count }, 0, rater)
        };
        (
            next.0,
            protocol::preceded(
                next.1,
                Seq::empty(),
                protocol::window_notes(exhausted, rater.link.nd_username),
            ),
        )
    }

    /// Takes the local items of the rating at `at`. Without one the state stays unsettled: a later
    /// library scan may add the item. Every item gets the same state, but only the ones still
    /// missing it are touched. A dry run touches none and settles the state for this pass alone.
    pub open spec fn take_items(
        self,
        items: Seq<SearchItemView>,
        walk: WalkView,
        at: int,
        rater: RaterView,
    ) -> (RatingsView, OutputView) {
        let review = walk.reviews[at];
        let rating = review.shown_rating()->0;
        if items.len() == 0 {
            RatingsView { unmatched: self.unmatched + 1, ..self }.go_on(walk, at + 1, rater)
        } else if rater.settings.dry_run {
            let next = self.settle(walk, at, rater);
            (
                next.0,
                protocol::preceded(
                    next.1,
                    Seq::empty(),
                    rating_previews(items, review.entity_id, rating, self.entity, self.rule),
                ),
            )
        } else {
            self.ask_write(
                walk,
                at,
                writes(items, rating, self.entity, self.rule, rater.link.nd_username),
                rating_targets(items, rating, self.rule).len() as int,
                0,
                rater,
            )
        }
    }

    /// Takes the answer to the write number `done`. An attempted write counts against the budget
    /// even when it fails, and a failed one leaves the state unsettled, so the next pass retries
    /// just that entity.
    pub open spec fn take_write(
        self,
        succeeded: bool,
        walk: WalkView,
        at: int,
        queue: Seq<Text>,
        rated: int,
        done: int,
        rater: RaterView,
    ) -> (RatingsView, OutputView) {
        if succeeded {
            self.ask_write(walk, at, queue, rated, done + 1, rater)
        } else {
            RatingsView { changes: self.changes + done + 1, ..self }.go_on(walk, at + 1, rater)
        }
    }

    /// The start of the sync of an entity type.
    pub open spec fn started(
        entity: CbEntity,
        rule: CbRule,
        settled: Set<Text>,
        budget: int,
        rater: RaterView,
    ) -> (RatingsView, OutputView) {
        RatingsView {
            entity,
            rule,
            settled,
            budget,
            changes: 0,
            examined: 0,
            unmatched: 0,
            offset: 0,
            halted: false,
            phase: RatingsPhaseView::Finished,
        }.ask_page(rater)
    }

    /// One step: what an answer makes of the sync.
    pub open spec fn step(self, event: EventView, rater: RaterView) -> (RatingsView, OutputView) {
        match self.phase {
            RatingsPhaseView::Page => match event {
                EventView::Reviews(page, exhausted) => self.take_page(page, exhausted, rater),
                _ => {
                    let next = RatingsView { halted: event.limits(), ..self }.finish(rater);
                    (
                        next.0,
                        protocol::preceded(
                            next.1,
                            Seq::empty(),
                            protocol::window_notes(
                                event.exhausts_unread(),
                                rater.link.nd_username,
                            ),
                        ),
                    )
                },
            },
            RatingsPhaseView::Lookup { walk, at } => self.take_items(
                match event {
                    EventView::Envelope(envelope) => subsonic::local_items(
                        envelope,
                        self.entity,
                        walk.reviews[at].entity_id,
                    ),
                    _ => Seq::empty(),
                },
                walk,
                at,
                rater,
            ),
            RatingsPhaseView::Writing { walk, at, queue, rated, done } => self.take_write(
                match event {
                    EventView::Envelope(envelope) => envelope.succeeded(),
                    _ => false,
                },
                walk,
                at,
                queue,
                rated,
                done,
                rater,
            ),
            RatingsPhaseView::Finished => (self, protocol::asking(None)),
        }
    }
}

/// What is picked as the next outstanding review is outstanding, and stands at `from` or behind it.
pub proof fn next_outstanding_is_outstanding(
    reviews: Seq<CbReviewView>,
    from: int,
    entity: CbEntity,
    rule: CbRule,
    settled: Set<Text>,
)
    requires
        0 <= from,
    ensures
        next_outstanding(reviews, from, entity, rule, settled) matches Some(at) ==> from <= at
            < reviews.len() && critiquebrainz::outstanding(reviews[at], entity, rule, settled),
    decreases reviews.len() - from,
{
    if from < reviews.len() && !critiquebrainz::outstanding(
        reviews[from],
        entity,
        rule,
        settled,
    ) {
        next_outstanding_is_outstanding(reviews, from + 1, entity, rule, settled);
    }
}

impl Ratings {
    fn tally(&self, rater: &Rater) -> (r: Note)
        ensures
            r@ == self@.tally(rater@),
    {
        Note::Tally {
            entity: self.entity,
            nd_username: rater.link.nd_username.clone(),
            examined: self.examined,
            changes: self.changes,
            unmatched: self.unmatched,
        }
    }

    fn finish(self, rater: &Rater) -> (r: (Ratings, Output))
        requires
            self@.within_budget(),
        ensures
            (r.0@, r.1@) == self@.finish(rater@),
            r.0@.wf(),
    {
        let output = Output::say(self.tally(rater));
        (Ratings { phase: RatingsPhase::Finished, ..self }, output)
    }

    fn cut_short(self, rater: &Rater) -> (r: (Ratings, Output))
        requires
            self@.within_budget(),
        ensures
            (r.0@, r.1@) == self@.cut_short(rater@),
            r.0@.wf(),
    {
        let mut notes: Vec<Note> = Vec::new();
        notes.push(Note::LimitReached { entity: self.entity, budget: self.budget });
        notes.push(self.tally(rater));
        assert(protocol::note_views(notes@) =~= seq![
            NoteView::LimitReached { entity: self@.entity, budget: self@.budget },
            self@.tally(rater@),
        ]);
        (Ratings { phase: RatingsPhase::Finished, ..self }, Output::tell(notes, None))
    }

    fn ask_page(self, rater: &Rater) -> (r: (Ratings, Output))
        requires
            self@.counted(self@.offset),
            !self@.halted,
        ensures
            (r.0@, r.1@) == self@.ask_page(rater@),
            r.0@.wf(),
    {
        if self.changes < self.budget {
            let request = critiquebrainz::reviews_request(
                rater.user_id,
                self.entity,
                self.offset,
                rater.settings,
            );
            (
                Ratings { phase: RatingsPhase::Page, ..self },
                Output::ask(Some(Action::Fetch { request, reply: Reply::Reviews })),
            )
        } else {
            self.cut_short(rater)
        }
    }

    fn leave_page(self, walk: Walk, rater: &Rater) -> (r: (Ratings, Output))
        requires
            self@.counted(self@.offset + walk@.reviews.len()),
        ensures
            (r.0@, r.1@) == self@.leave_page(walk@, rater@),
            r.0@.wf(),
    {
        let len: u64 = walk.reviews.len() as u64;
        let rows: i64 = if len > i64::MAX as u64 {
            i64::MAX
        } else {
            len as i64
        };
        match critiquebrainz::cb_next_offset(self.offset, rows, walk.count) {
            Some(next) => if self.halted {
                self.finish(rater)
            } else {
                Ratings { offset: next, ..self }.ask_page(rater)
            },
            None => self.finish(rater),
        }
    }

    fn go_on(self, walk: Walk, from: usize, rater: &Rater) -> (r: (Ratings, Output))
        requires
            from <= walk@.reviews.len(),
            self@.counted(self@.offset + from),
        ensures
            (r.0@, r.1@) == self@.go_on(walk@, from as int, rater@),
            r.0@.wf(),
    {
        if self.changes >= self.budget {
            return self.leave_page(walk, rater);
        }
        let ghost all = walk@.reviews;
        let ghost first = next_outstanding(all, from as int, self.entity, self.rule, self.settled@);
        let mut at: usize = from;
        while at < walk.reviews.len()
            invariant
                from <= at <= walk.reviews@.len(),
                all == critiquebrainz::review_views(walk.reviews@),
                first == next_outstanding(
                    all,
                    at as int,
                    self.entity,
                    self.rule,
                    self.settled@,
                ),
                first == next_outstanding(
                    all,
                    from as int,
                    self.entity,
                    self.rule,
                    self.settled@,
                ),
                self@.changes < self@.budget,
                self@.counted(self@.offset + from),
            decreases walk.reviews@.len() - at,
        {
            assert(all[at as int] == walk.reviews@[at as int]@);
            if critiquebrainz::is_outstanding(
                &walk.reviews[at],
                self.entity,
                self.rule,
                &self.settled,
            ) {
                let uri = subsonic::lookup_uri(rater.link, walk.reviews[at].entity_id.as_str());
                let notes = critiquebrainz::note_passed_over(&walk.reviews, from, at, self.entity);
                return (
                    Ratings {
                        examined: self.examined + 1,
                        phase: RatingsPhase::Lookup { walk, at },
                        ..self
                    },
                    Output::tell(notes, Some(Action::Query { uri })),
                );
            }
            at += 1;
        }
        let notes = critiquebrainz::note_passed_over(&walk.reviews, from, at, self.entity);
        let persist: Vec<String> = Vec::new();
        assert(text::texts(persist@) =~= Seq::<Text>::empty());
        let (next, output) = self.leave_page(walk, rater);
        (next, output.precede(persist, notes))
    }

    fn settle(self, walk: Walk, at: usize, rater: &Rater) -> (r: (Ratings, Output))
        requires
            at < walk@.reviews.len(),
            walk@.reviews[at as int].shown_rating() is Some,
            self@.counted(self@.offset + at + 1),
        ensures
            (r.0@, r.1@) == self@.settle(walk@, at as int, rater@),
            r.0@.wf(),
    {
        let ghost state_text = self@.state(walk@, at as int);
        let mut settled = self.settled;
        let mut persist: Vec<String> = Vec::new();
        assert(text::texts(persist@) =~= Seq::<Text>::empty());
        let review = &walk.reviews[at];
        let rating: i64 = review.rating().unwrap();
        let state = critiquebrainz::cb_state_key(
            self.entity,
            review.entity_id.as_str(),
            rating,
            self.rule,
        );
        settled::mark_cb_settled(
            rater.settings.dry_run,
            &mut settled,
            rater.link.nd_username.as_str(),
            state.as_str(),
            &mut persist,
        );
        assert(text::texts(persist@) =~= settled::recording(
            rater@.settings.dry_run,
            settled::cbsynced_prefix(rater@.link.nd_username),
            seq![state_text],
        ));
        let after = Ratings {
            entity: self.entity,
            rule: self.rule,
            settled,
            budget: self.budget,
            changes: self.changes,
            examined: self.examined,
            unmatched: self.unmatched,
            offset: self.offset,
            halted: self.halted,
            phase: RatingsPhase::Finished,
        };
        assert(at < walk.reviews.len());
        let (next, output) = after.go_on(walk, at + 1, rater);
        let notes: Vec<Note> = Vec::new();
        assert(protocol::note_views(notes@) =~= Seq::<NoteView>::empty());
        (next, output.precede(persist, notes))
    }

    fn ask_write(
        self,
        walk: Walk,
        at: usize,
        queue: Vec<String>,
        rated: usize,
        done: usize,
        rater: &Rater,
    ) -> (r: (Ratings, Output))
        requires
            self@.at_work(walk@, at as int),
            rated <= queue@.len(),
            done <= queue@.len(),
            self@.changes + done <= self@.budget,
        ensures
            (r.0@, r.1@) == self@.ask_write(
                walk@,
                at as int,
                text::texts(queue@),
                rated as int,
                done as int,
                rater@,
            ),
            r.0@.wf(),
    {
        let made: i64 = done as i64;
        if done < queue.len() {
            if self.changes + made < self.budget {
                let uri = queue[done].clone();
                (
                    Ratings { phase: RatingsPhase::Writing { walk, at, queue, rated, done }, ..self },
                    Output::ask(Some(Action::Update { uri })),
                )
            } else {
                Ratings { changes: self.changes + made, ..self }.cut_short(rater)
            }
        } else {
            let notes = self.note_applied(&walk, at, rated, queue.len() - rated);
            let persist: Vec<String> = Vec::new();
            assert(text::texts(persist@) =~= Seq::<Text>::empty());
            let (next, output) = Ratings { changes: self.changes + made, ..self }.settle(
                walk,
                at,
                rater,
            );
            (next, output.precede(persist, notes))
        }
    }

    fn note_applied(&self, walk: &Walk, at: usize, rated: usize, starred: usize) -> (r: Vec<
        Note,
    >)
        requires
            at < walk@.reviews.len(),
            walk@.reviews[at as int].shown_rating() is Some,
        ensures
            protocol::note_views(r@) == self@.applied_notes(
                walk@,
                at as int,
                rated as int,
                starred as int,
            ),
    {
        let mut notes: Vec<Note> = Vec::new();
        if rated > 0 || starred > 0 {
            let review = &walk.reviews[at];
            let rating: i64 = review.rating().unwrap();
            let state = critiquebrainz::cb_state_key(
                self.entity,
                review.entity_id.as_str(),
                rating,
                self.rule,
            );
            notes.push(
                Note::StateApplied {
                    entity: self.entity,
                    mbid: review.entity_id.clone(),
                    state,
                    rated,
                    starred,
                },
            );
        }
        assert(protocol::note_views(notes@) =~= self@.applied_notes(
            walk@,
            at as int,
            rated as int,
            starred as int,
        ));
        notes
    }

    fn take_page(self, page: CbReviewPage, exhausted: bool, rater: &Rater) -> (r: (
        Ratings,
        Output,
    ))
        requires
            self@.counted(self@.offset),
        ensures
            (r.0@, r.1@) == self@.take_page(page@, exhausted, rater@),
            r.0@.wf(),
    {
        let mut notes: Vec<Note> = Vec::new();
        protocol::note_window(&mut notes, exhausted, rater.link.nd_username.as_str());
        assert(protocol::note_views(notes@) =~= protocol::window_notes(
            exhausted,
            rater@.link.nd_username,
        ));
        let taken = Ratings { halted: exhausted, ..self };
        let (next, output) = if page.reviews.len() == 0 {
            taken.finish(rater)
        } else {
            taken.go_on(Walk { reviews: page.reviews, count: page.count }, 0, rater)
        };
        let persist: Vec<String> = Vec::new();
        assert(text::texts(persist@) =~= Seq::<Text>::empty());
        (next, output.precede(persist, notes))
    }

    fn take_items(self, items: Vec<SearchItem>, walk: Walk, at: usize, rater: &Rater) -> (r: (
        Ratings,
        Output,
    ))
        requires
            self@.at_work(walk@, at as int),
        ensures
            (r.0@, r.1@) == self@.take_items(
                subsonic::item_views(items@),
                walk@,
                at as int,
                rater@,
            ),
            r.0@.wf(),
    {
        if items.len() == 0 {
            return Ratings { unmatched: self.unmatched + 1, ..self }.go_on(walk, at + 1, rater);
        }
        let ghost views = subsonic::item_views(items@);
        let rating: i64 = walk.reviews[at].rating().unwrap();
        let entity = self.entity;
        let rule = self.rule;
        let rated: Vec<&SearchItem> = if rule.sync_rating {
            subsonic::pending_rating(items.as_slice(), rating)
        } else {
            Vec::new()
        };
        let starred: Vec<&SearchItem> = if rule.favorite_at > 0 && rating >= rule.favorite_at {
            subsonic::pending_star(items.as_slice())
        } else {
            Vec::new()
        };
        assert(subsonic::item_ref_views(rated@) =~= rating_targets(views, rating, rule));
        assert(subsonic::item_ref_views(starred@) =~= star_targets(views, rating, rule));
        if rater.settings.dry_run {
            let mbid = walk.reviews[at].entity_id.clone();
            let notes = previews(rated.len(), starred.len(), mbid, rating, entity);
            assert(protocol::note_views(notes@) == rating_previews(
                views,
                walk@.reviews[at as int].entity_id,
                rating,
                entity,
                rule,
            ));
            let persist: Vec<String> = Vec::new();
            assert(text::texts(persist@) =~= Seq::<Text>::empty());
            let (next, output) = self.settle(walk, at, rater);
            return (next, output.precede(persist, notes));
        }
        let queue = calls(&rated, &starred, rating, entity, rater.link);
        assert(text::texts(queue@).len() == rated@.len() + starred@.len());
        self.ask_write(walk, at, queue, rated.len(), 0, rater)
    }

    fn take_write(
        self,
        succeeded: bool,
        walk: Walk,
        at: usize,
        queue: Vec<String>,
        rated: usize,
        done: usize,
        rater: &Rater,
    ) -> (r: (Ratings, Output))
        requires
            self@.at_work(walk@, at as int),
            rated <= queue@.len(),
            done < queue@.len(),
            self@.changes + done < self@.budget,
        ensures
            (r.0@, r.1@) == self@.take_write(
                succeeded,
                walk@,
                at as int,
                text::texts(queue@),
                rated as int,
                done as int,
                rater@,
            ),
            r.0@.wf(),
    {
        assert(done < queue.len());
        if succeeded {
            self.ask_write(walk, at, queue, rated, done + 1, rater)
        } else {
            let attempted: i64 = done as i64 + 1;
            Ratings { changes: self.changes + attempted, ..self }.go_on(walk, at + 1, rater)
        }
    }

    /// Starts the sync of one entity type: its ratings are paged, and every state that is not
    /// already settled is applied.
    ///
    /// The budget caps the changes attempted, down to the last write. Skipping an already-settled
    /// rating is free, and so is a rating with no local match, so the walk stays bounded by the
    /// account's rating count rather than by the budget. Counting only changes is also what stops a
    /// permanent backlog of unmatched ratings from pinning every pass to the same first page.
    pub fn start(
        entity: CbEntity,
        rule: CbRule,
        settled: TextSet,
        budget: i64,
        rater: &Rater,
    ) -> (r: (Ratings, Output))
        ensures
            (r.0@, r.1@) == RatingsView::started(entity, rule, settled@, budget as int, rater@),
            r.0@.wf(),
    {
        let sync = Ratings {
            entity,
            rule,
            settled,
            budget,
            changes: 0,
            examined: 0,
            unmatched: 0,
            offset: 0,
            halted: false,
            phase: RatingsPhase::Finished,
        };
        sync.ask_page(rater)
    }

    /// Takes an answer of the host and gives the next action.
    pub fn step(self, event: Event, rater: &Rater) -> (r: (Ratings, Output))
        requires
            self@.wf(),
        ensures
            (r.0@, r.1@) == self@.step(event@, rater@),
            r.0@.wf(),
    {
        match self.phase {
            RatingsPhase::Page => {
                let sync = Ratings { phase: RatingsPhase::Finished, ..self };
                match event {
                    Event::Reviews(page, exhausted) => sync.take_page(page, exhausted, rater),
                    _ => {
                        let following = Output::end(
                            event.is_exhausting_unread(),
                            rater.link.nd_username.as_str(),
                        );
                        let (next, output) = Ratings {
                            halted: event.is_limiting(),
                            ..sync
                        }.finish(rater);
                        (next, output.precede(following.persist, following.notes))
                    },
                }
            },
            RatingsPhase::Lookup { walk, at } => {
                let items = match event {
                    Event::Envelope(envelope) => subsonic::lookup_local_items(
                        envelope,
                        self.entity,
                        walk.reviews[at].entity_id.as_str(),
                    ),
                    _ => Vec::new(),
                };
                assert(match event@ {
                    EventView::Envelope(envelope) => subsonic::item_views(items@)
                        == subsonic::local_items(
                        envelope,
                        self.entity,
                        walk@.reviews[at as int].entity_id,
                    ),
                    _ => subsonic::item_views(items@) =~= Seq::<SearchItemView>::empty(),
                });
                Ratings { phase: RatingsPhase::Finished, ..self }.take_items(
                    items,
                    walk,
                    at,
                    rater,
                )
            },
            RatingsPhase::Writing { walk, at, queue, rated, done } => {
                let succeeded = match event {
                    Event::Envelope(envelope) => subsonic::subsonic_ok(&envelope),
                    _ => false,
                };
                Ratings { phase: RatingsPhase::Finished, ..self }.take_write(
                    succeeded,
                    walk,
                    at,
                    queue,
                    rated,
                    done,
                    rater,
                )
            },
            RatingsPhase::Finished => (
                Ratings { phase: RatingsPhase::Finished, ..self },
                Output::ask(None),
            ),
        }
    }

    /// Whether the sync has nothing left to do.
    pub fn is_finished(&self) -> (r: bool)
        ensures
            r == (self@.phase is Finished),
    {
        match self.phase {
            RatingsPhase::Finished => true,
            _ => false,
        }
    }

    /// Whether no further calls may be made in this pass.
    pub fn is_halted(&self) -> (r: bool)
        ensures
            r == self@.halted,
    {
        self.halted
    }

    /// What is settled by now, and how many changes were attempted.
    pub fn into_result(self) -> (r: (TextSet, i64))
        ensures
            r.0@ == self@.settled,
            r.1 == self@.changes,
    {
        (self.settled, self.changes)
    }
}

fn previews(rated: usize, starred: usize, mbid: String, rating: i64, entity: CbEntity) -> (r: Vec<
    Note,
>)
    ensures
        protocol::note_views(r@) == (if rated > 0 {
            seq![
                NoteView::WouldRate {
                    entity,
                    mbid: mbid@,
                    rating: rating as int,
                    items: rated as int,
                },
            ]
        } else {
            Seq::empty()
        }) + (if starred > 0 {
            seq![NoteView::WouldFavourite { entity, mbid: mbid@, items: starred as int }]
        } else {
            Seq::empty()
        }),
{
    let mut notes: Vec<Note> = Vec::new();
    if rated > 0 {
        notes.push(Note::WouldRate { entity, mbid: mbid.clone(), rating, items: rated });
    }
    if starred > 0 {
        notes.push(Note::WouldFavourite { entity, mbid: mbid.clone(), items: starred });
    }
    assert(protocol::note_views(notes@) =~= (if rated > 0 {
        seq![
            NoteView::WouldRate { entity, mbid: mbid@, rating: rating as int, items: rated as int },
        ]
    } else {
        Seq::empty()
    }) + (if starred > 0 {
        seq![NoteView::WouldFavourite { entity, mbid: mbid@, items: starred as int }]
    } else {
        Seq::empty()
    }));
    notes
}

fn calls(
    rated: &Vec<&SearchItem>,
    starred: &Vec<&SearchItem>,
    rating: i64,
    entity: CbEntity,
    link: &UserLink,
) -> (r: Vec<String>)
    ensures
        text::texts(r@) == subsonic::item_ref_views(rated@).map_values(
            |item: SearchItemView|
                subsonic::rating_call(link@.nd_username, item.id, rating as int),
        ) + subsonic::item_ref_views(starred@).map_values(
            |item: SearchItemView| subsonic::star_call(link@.nd_username, entity, item.id),
        ),
{
    let mut queue: Vec<String> = Vec::new();
    let ghost rate = |item: SearchItemView|
        subsonic::rating_call(link@.nd_username, item.id, rating as int);
    let ghost star = |item: SearchItemView|
        subsonic::star_call(link@.nd_username, entity, item.id);
    let ghost ratings = subsonic::item_ref_views(rated@).map_values(rate);
    let ghost stars = subsonic::item_ref_views(starred@).map_values(star);
    let mut i: usize = 0;
    while i < rated.len()
        invariant
            i <= rated@.len(),
            rate == |item: SearchItemView|
                subsonic::rating_call(link@.nd_username, item.id, rating as int),
            ratings == subsonic::item_ref_views(rated@).map_values(rate),
            text::texts(queue@) == ratings.take(i as int),
        decreases rated@.len() - i,
    {
        let ghost before = queue@;
        queue.push(subsonic::set_rating(link, rated[i].id.as_str(), rating));
        assert(text::texts(queue@) =~= text::texts(before).push(ratings[i as int]));
        assert(ratings.take(i + 1) =~= ratings.take(i as int).push(ratings[i as int]));
        i += 1;
    }
    let mut j: usize = 0;
    assert(text::texts(queue@) =~= ratings + stars.take(0));
    while j < starred.len()
        invariant
            j <= starred@.len(),
            star == |item: SearchItemView|
                subsonic::star_call(link@.nd_username, entity, item.id),
            stars == subsonic::item_ref_views(starred@).map_values(star),
            text::texts(queue@) == ratings + stars.take(j as int),
        decreases starred@.len() - j,
    {
        let ghost before = queue@;
        queue.push(subsonic::star_item(link, entity, starred[j].id.as_str()));
        assert(text::texts(queue@) =~= text::texts(before).push(stars[j as int]));
        assert(stars.take(j + 1) =~= stars.take(j as int).push(stars[j as int]));
        assert(text::texts(queue@) =~= ratings + stars.take(j + 1));
        j += 1;
    }
    assert(stars.take(j as int) =~= stars);
    queue
}

} // verus!
