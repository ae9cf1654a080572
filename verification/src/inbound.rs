//! Starring the local tracks of what a user loves on ListenBrainz.

use vstd::prelude::*;
use crate::listenbrainz;
use crate::listenbrainz::{FeedbackPage, FeedbackPageView, PAGE_SIZE};
use crate::protocol;
use crate::protocol::{
    Action,
    ActionView,
    Event,
    EventView,
    Note,
    NoteView,
    Output,
    OutputView,
    Reply,
    Track,
    TrackView,
};
use crate::settings::{Settings, SettingsView, UserLink, UserLinkView};
use crate::settled;
use crate::settled::TextSet;
use crate::subsonic;
use crate::text;
use crate::text::Text;

verus! {

/// Whom a sync is for: the settings, the user link, and the ListenBrainz username.
pub struct Target<'a> {
    pub settings: &'a Settings,
    pub link: &'a UserLink,
    pub lb_username: &'a str,
}

/// What a target says.
pub struct TargetView {
    pub settings: SettingsView,
    pub link: UserLinkView,
    pub lb_username: Text,
}

impl<'a> View for Target<'a> {
    type V = TargetView;

    open spec fn view(&self) -> TargetView {
        TargetView {
            settings: self.settings@,
            link: self.link@,
            lb_username: self.lb_username@,
        }
    }
}

/// A song to star, and the recording that it was matched with.
#[derive(Debug, PartialEq, Eq)]
pub struct StarTarget {
    pub id: String,
    pub mbid: String,
}

/// What a song to star says.
pub struct StarTargetView {
    pub id: Text,
    pub mbid: Text,
}

impl View for StarTarget {
    type V = StarTargetView;

    open spec fn view(&self) -> StarTargetView {
        StarTargetView { id: self.id@, mbid: self.mbid@ }
    }
}

/// What the songs to star say.
pub open spec fn target_views(targets: Seq<StarTarget>) -> Seq<StarTargetView> {
    targets.map_values(|t: StarTarget| t@)
}

/// The ids of the songs to star.
pub open spec fn target_ids(targets: Seq<StarTargetView>) -> Seq<Text> {
    targets.map_values(|t: StarTargetView| t.id)
}

/// The recordings of the songs to star.
pub open spec fn target_mbids(targets: Seq<StarTargetView>) -> Seq<Text> {
    targets.map_values(|t: StarTargetView| t.mbid)
}

/// Recordings with what the matcher found for them, as far as it answered.
pub open spec fn paired(mbids: Seq<Text>, results: Seq<Option<TrackView>>) -> Seq<
    (Text, Option<TrackView>),
> {
    Seq::new(
        if mbids.len() <= results.len() {
            mbids.len()
        } else {
            results.len()
        },
        |i: int| (mbids[i], results[i]),
    )
}

/// The recording of a pair whose local track is already starred.
pub open spec fn already_starred(pair: (Text, Option<TrackView>)) -> Option<Text> {
    match pair.1 {
        Some(track) if track.id.len() > 0 && track.starred => Some(pair.0),
        _ => None,
    }
}

/// The song to star of a pair whose local track is not starred yet.
pub open spec fn to_star(pair: (Text, Option<TrackView>)) -> Option<StarTargetView> {
    match pair.1 {
        Some(track) if track.id.len() > 0 && !track.starred => Some(
            StarTargetView { id: track.id, mbid: pair.0 },
        ),
        _ => None,
    }
}

/// What a dry run says of a pair whose local track is not starred yet.
pub open spec fn star_preview(pair: (Text, Option<TrackView>)) -> Option<NoteView> {
    match pair.1 {
        Some(track) if track.id.len() > 0 && !track.starred => Some(
            NoteView::WouldStar { title: track.title },
        ),
        _ => None,
    }
}

/// The recordings whose local tracks are already starred.
pub open spec fn all_already_starred(pairs: Seq<(Text, Option<TrackView>)>) -> Seq<Text> {
    pairs.filter_map(|p: (Text, Option<TrackView>)| already_starred(p))
}

/// The songs to star. A dry run stars none.
pub open spec fn all_to_star(dry_run: bool, pairs: Seq<(Text, Option<TrackView>)>) -> Seq<
    StarTargetView,
> {
    if dry_run {
        Seq::empty()
    } else {
        pairs.filter_map(|p: (Text, Option<TrackView>)| to_star(p))
    }
}

/// What a dry run says of the songs it does not star.
pub open spec fn all_star_previews(dry_run: bool, pairs: Seq<(Text, Option<TrackView>)>) -> Seq<
    NoteView,
> {
    if dry_run {
        pairs.filter_map(|p: (Text, Option<TrackView>)| star_preview(p))
    } else {
        Seq::empty()
    }
}

/// As many songs, from the first on, as there is room for.
pub open spec fn up_to(songs: Seq<StarTargetView>, room: int) -> Seq<StarTargetView> {
    if songs.len() <= room {
        songs
    } else {
        songs.take(room)
    }
}

/// What a feedback page says of the list: its own count, and the total.
#[derive(Clone, Copy, Debug, PartialEq, Eq, Structural)]
pub struct PageEnd {
    pub count: i64,
    pub total_count: i64,
}

impl PageEnd {
    /// The offset of the page behind this one.
    pub open spec fn next_offset(self, offset: int) -> int {
        offset + if self.count < 1 {
            1
        } else {
            self.count as int
        }
    }

    /// Whether there is a further page: the total is not reached or, where none is told, the page
    /// was a full one. An offset that does not fit in 64 bits is no page.
    pub open spec fn goes_on(self, offset: int) -> bool {
        &&& self.next_offset(offset) <= i64::MAX
        &&& if self.total_count > 0 {
            self.next_offset(offset) < self.total_count
        } else {
            self.count >= PAGE_SIZE
        }
    }
}

/// Where the inbound sync of one user stands.
#[derive(Debug, PartialEq, Eq)]
pub enum InboundPhase {
    /// A page of loves is asked for.
    Page,
    /// The candidates from `from` on are to be matched; the ones before gave `targets`.
    Matching { candidates: Vec<String>, from: usize, targets: Vec<StarTarget>, end: PageEnd },
    /// The star call for `targets` is made.
    Starring { targets: Vec<StarTarget>, end: PageEnd },
    /// Nothing is left to do.
    Finished,
}

/// What a phase says.
pub enum InboundPhaseView {
    Page,
    Matching { candidates: Seq<Text>, from: int, targets: Seq<StarTargetView>, end: PageEnd },
    Starring { targets: Seq<StarTargetView>, end: PageEnd },
    Finished,
}

impl View for InboundPhase {
    type V = InboundPhaseView;

    open spec fn view(&self) -> InboundPhaseView {
        match self {
            InboundPhase::Page => InboundPhaseView::Page,
            InboundPhase::Matching { candidates, from, targets, end } => {
                InboundPhaseView::Matching {
                    candidates: text::texts(candidates@),
                    from: *from as int,
                    targets: target_views(targets@),
                    end: *end,
                }
            },
            InboundPhase::Starring { targets, end } => InboundPhaseView::Starring {
                targets: target_views(targets@),
                end: *end,
            },
            InboundPhase::Finished => InboundPhaseView::Finished,
        }
    }
}

/// The inbound sync of one user.
pub struct Inbound {
    settled: TextSet,
    budget: i64,
    applied: i64,
    offset: i64,
    halted: bool,
    phase: InboundPhase,
}

/// What an inbound sync has done and is about to do. `halted` says that ListenBrainz takes no
/// further calls in this pass: it was rate limited, or the rate-limit window is exhausted.
pub struct InboundView {
    pub settled: Set<Text>,
    pub budget: int,
    pub applied: int,
    pub offset: int,
    pub halted: bool,
    pub phase: InboundPhaseView,
}

impl View for Inbound {
    type V = InboundView;

    closed spec fn view(&self) -> InboundView {
        InboundView {
            settled: self.settled@,
            budget: self.budget as int,
            applied: self.applied as int,
            offset: self.offset as int,
            halted: self.halted,
            phase: self.phase@,
        }
    }
}

impl InboundView {
    /// What holds of every inbound sync: it never applies more than its budget, and there is room
    /// for what it is about to apply. A page is asked for only while calls are taken.
    pub open spec fn wf(self) -> bool {
        &&& 0 <= self.applied
        &&& self.applied <= self.budget || (self.applied == 0 && self.phase is Finished)
        &&& 0 <= self.offset
        &&& match self.phase {
            InboundPhaseView::Page => self.applied < self.budget && !self.halted,
            InboundPhaseView::Matching { candidates, from, targets, .. } => {
                &&& 0 <= from < candidates.len()
                &&& targets.len() <= self.budget - self.applied
            },
            InboundPhaseView::Starring { targets, .. } => targets.len() <= self.budget
                - self.applied,
            InboundPhaseView::Finished => true,
        }
    }

    /// The end of the work.
    pub open spec fn finish(self) -> (InboundView, Option<ActionView>) {
        (InboundView { phase: InboundPhaseView::Finished, ..self }, None)
    }

    /// Asks for the page at the offset, as long as the budget is not spent.
    pub open spec fn ask_page(self, target: TargetView) -> (InboundView, Option<ActionView>) {
        if self.applied < self.budget {
            (
                InboundView { phase: InboundPhaseView::Page, ..self },
                Some(
                    ActionView::Fetch {
                        request: listenbrainz::feedback_read(
                            target.link.token,
                            target.lb_username,
                            self.offset,
                            target.settings,
                        ),
                        reply: Reply::Feedback,
                    },
                ),
            )
        } else {
            self.finish()
        }
    }

    /// Goes on behind a page, as long as calls are taken and the list goes on.
    pub open spec fn leave_page(self, end: PageEnd, target: TargetView) -> (
        InboundView,
        Option<ActionView>,
    ) {
        if !self.halted && end.goes_on(self.offset) {
            InboundView { offset: end.next_offset(self.offset), ..self }.ask_page(target)
        } else {
            self.finish()
        }
    }

    /// The candidates that one matcher call asks for.
    pub open spec fn batch(candidates: Seq<Text>, from: int, batch_size: int) -> Seq<Text> {
        candidates.subrange(
            from,
            if from + batch_size <= candidates.len() {
                from + batch_size
            } else {
                candidates.len() as int
            },
        )
    }

    /// Asks for the matches of the candidates from `from` on. Behind the last one, the songs found
    /// are starred in a single call.
    pub open spec fn ask_match(
        self,
        candidates: Seq<Text>,
        from: int,
        targets: Seq<StarTargetView>,
        end: PageEnd,
        target: TargetView,
    ) -> (InboundView, Option<ActionView>) {
        if from < candidates.len() {
            (
                InboundView {
                    phase: InboundPhaseView::Matching { candidates, from, targets, end },
                    ..self
                },
                Some(
                    ActionView::MatchSongs {
                        username: target.link.nd_username,
                        mbids: Self::batch(candidates, from, target.settings.batch_size),
                    },
                ),
            )
        } else if targets.len() > 0 {
            (
                InboundView { phase: InboundPhaseView::Starring { targets, end }, ..self },
                Some(
                    ActionView::Update {
                        uri: subsonic::star_songs_call(
                            target.link.nd_username,
                            target_ids(targets),
                        ),
                    },
                ),
            )
        } else {
            self.leave_page(end, target)
        }
    }

    /// The candidates of a page: all that it loves and that is not settled.
    pub open spec fn candidates_of(self, page: FeedbackPageView) -> Seq<Text> {
        listenbrainz::inbound_wanted(page.feedback, self.settled)
    }

    /// Takes a page of loves. One that exhausts the rate-limit window is the last.
    pub open spec fn take_page(
        self,
        page: FeedbackPageView,
        exhausted: bool,
        target: TargetView,
    ) -> (InboundView, OutputView) {
        let taken = InboundView { halted: exhausted, ..self };
        let next = if page.feedback.len() == 0 {
            taken.finish()
        } else {
            taken.ask_match(
                taken.candidates_of(page),
                0,
                Seq::empty(),
                PageEnd { count: page.count, total_count: page.total_count },
                target,
            )
        };
        (
            next.0,
            protocol::telling(
                listenbrainz::malformed_notes(page.feedback) + protocol::window_notes(
                    exhausted,
                    target.link.nd_username,
                ),
                next.1,
            ),
        )
    }

    /// Takes what the matcher found for a batch. A track that is already starred settles its
    /// recording; one that is not is to be starred, as long as there is room. A recording without
    /// a local match stays unsettled and takes up no room.
    pub open spec fn take_matches(
        self,
        results: Seq<Option<TrackView>>,
        candidates: Seq<Text>,
        from: int,
        targets: Seq<StarTargetView>,
        end: PageEnd,
        target: TargetView,
    ) -> (InboundView, OutputView) {
        let dry_run = target.settings.dry_run;
        let batch = Self::batch(candidates, from, target.settings.batch_size);
        let pairs = paired(batch, results);
        let done = all_already_starred(pairs);
        let next = InboundView { settled: self.settled.union(done.to_set()), ..self }.ask_match(
            candidates,
            from + batch.len(),
            up_to(targets + all_to_star(dry_run, pairs), self.budget - self.applied),
            end,
            target,
        );
        (
            next.0,
            OutputView {
                persist: settled::recording(
                    dry_run,
                    settled::synced_prefix(target.link.nd_username),
                    done,
                ),
                notes: all_star_previews(dry_run, pairs),
                action: next.1,
            },
        )
    }

    /// Takes the answer to a star call. Only a success settles the recordings and counts.
    pub open spec fn take_starred(
        self,
        succeeded: bool,
        targets: Seq<StarTargetView>,
        end: PageEnd,
        target: TargetView,
    ) -> (InboundView, OutputView) {
        let done = if succeeded {
            target_mbids(targets)
        } else {
            Seq::empty()
        };
        let next = InboundView {
            settled: self.settled.union(done.to_set()),
            applied: self.applied + done.len(),
            ..self
        }.leave_page(end, target);
        (
            next.0,
            OutputView {
                persist: settled::recording(
                    target.settings.dry_run,
                    settled::synced_prefix(target.link.nd_username),
                    done,
                ),
                notes: Seq::empty(),
                action: next.1,
            },
        )
    }

    /// The start of an inbound sync.
    pub open spec fn started(settled: Set<Text>, budget: int, target: TargetView) -> (
        InboundView,
        OutputView,
    ) {
        let next = InboundView {
            settled,
            budget,
            applied: 0,
            offset: 0,
            halted: false,
            phase: InboundPhaseView::Finished,
        }.ask_page(target);
        (next.0, protocol::asking(next.1))
    }

    /// One step: what an answer makes of the sync.
    pub open spec fn step(self, event: EventView, target: TargetView) -> (InboundView, OutputView) {
        match self.phase {
            InboundPhaseView::Page => match event {
                EventView::Feedback(page, exhausted) => self.take_page(page, exhausted, target),
                _ => (
                    InboundView { halted: event.limits(), ..self }.finish().0,
                    protocol::telling(
                        protocol::window_notes(
                            event.exhausts_unread(),
                            target.link.nd_username,
                        ),
                        None,
                    ),
                ),
            },
            InboundPhaseView::Matching { candidates, from, targets, end } => self.take_matches(
                match event {
                    EventView::Matches(results) => results,
                    _ => Seq::empty(),
                },
                candidates,
                from,
                targets,
                end,
                target,
            ),
            InboundPhaseView::Starring { targets, end } => self.take_starred(
                match event {
                    EventView::Envelope(envelope) => envelope.succeeded(),
                    _ => false,
                },
                targets,
                end,
                target,
            ),
            InboundPhaseView::Finished => (self, protocol::asking(None)),
        }
    }
}

proof fn one_more_song(songs: Seq<StarTargetView>, song: StarTargetView, room: int)
    requires
        0 <= room,
    ensures
        up_to(songs.push(song), room) == if songs.len() < room {
            up_to(songs, room).push(song)
        } else {
            up_to(songs, room)
        },
{
    if songs.len() > room {
        assert(songs.push(song).take(room) =~= songs.take(room));
    } else if songs.len() == room {
        assert(songs.push(song).take(room) =~= songs);
    }
}

/// Sorts what the matcher found for the candidates from `from` up to `upto`.
fn triage(
    target: &Target,
    candidates: &Vec<String>,
    from: usize,
    upto: usize,
    results: &Vec<Option<Track>>,
    settled: &mut TextSet,
    targets: &mut Vec<StarTarget>,
    room: u64,
) -> (r: (Vec<String>, Vec<Note>))
    requires
        from <= upto <= candidates@.len(),
        old(targets)@.len() <= room,
    ensures
        ({
            let dry_run = target@.settings.dry_run;
            let pairs = paired(
                text::texts(candidates@).subrange(from as int, upto as int),
                protocol::match_views(results@),
            );
            let done = all_already_starred(pairs);
            &&& final(settled)@ == old(settled)@.union(done.to_set())
            &&& text::texts(r.0@) == settled::recording(
                dry_run,
                settled::synced_prefix(target@.link.nd_username),
                done,
            )
            &&& target_views(final(targets)@) == up_to(
                target_views(old(targets)@) + all_to_star(dry_run, pairs),
                room as int,
            )
            &&& protocol::note_views(r.1@) == all_star_previews(dry_run, pairs)
        }),
{
    let dry_run = target.settings.dry_run;
    let mut persist: Vec<String> = Vec::new();
    let mut notes: Vec<Note> = Vec::new();
    let ghost prefix = settled::synced_prefix(target@.link.nd_username);
    let ghost batch = text::texts(candidates@).subrange(from as int, upto as int);
    let ghost pairs = paired(batch, protocol::match_views(results@));
    let ghost already = |p: (Text, Option<TrackView>)| already_starred(p);
    let ghost fresh = |p: (Text, Option<TrackView>)| to_star(p);
    let ghost preview = |p: (Text, Option<TrackView>)| star_preview(p);
    let ghost settled_before = settled@;
    let ghost targets_before = target_views(targets@);
    let mut i: usize = 0;
    assert(pairs.take(0).filter_map(already) =~= Seq::<Text>::empty());
    assert(pairs.take(0).filter_map(fresh) =~= Seq::<StarTargetView>::empty());
    assert(pairs.take(0).filter_map(preview) =~= Seq::<NoteView>::empty());
    assert(settled@ =~= settled_before.union(Seq::<Text>::empty().to_set()));
    assert(text::texts(persist@) =~= settled::recording(dry_run, prefix, Seq::<Text>::empty()));
    assert(protocol::note_views(notes@) =~= Seq::<NoteView>::empty());
    assert(targets_before + Seq::<StarTargetView>::empty() =~= targets_before);
    while i < upto - from && i < results.len()
        invariant
            from <= upto <= candidates@.len(),
            i <= pairs.len(),
            dry_run == target@.settings.dry_run,
            prefix == settled::synced_prefix(target@.link.nd_username),
            batch == text::texts(candidates@).subrange(from as int, upto as int),
            pairs == paired(batch, protocol::match_views(results@)),
            already == |p: (Text, Option<TrackView>)| already_starred(p),
            fresh == |p: (Text, Option<TrackView>)| to_star(p),
            preview == |p: (Text, Option<TrackView>)| star_preview(p),
            settled@ == settled_before.union(pairs.take(i as int).filter_map(already).to_set()),
            text::texts(persist@) == settled::recording(
                dry_run,
                prefix,
                pairs.take(i as int).filter_map(already),
            ),
            target_views(targets@) == up_to(
                targets_before + all_to_star(dry_run, pairs.take(i as int)),
                room as int,
            ),
            protocol::note_views(notes@) == all_star_previews(dry_run, pairs.take(i as int)),
        decreases results@.len() - i,
    {
        let ghost done = pairs.take(i as int).filter_map(already);
        let ghost now = pairs.take(i + 1);
        let ghost old_persist = text::texts(persist@);
        let ghost old_targets = target_views(targets@);
        let ghost old_notes = protocol::note_views(notes@);
        let ghost old_settled = settled@;
        proof {
            pairs.lemma_filter_map_take_succ(already, i as int);
            pairs.lemma_filter_map_take_succ(fresh, i as int);
            pairs.lemma_filter_map_take_succ(preview, i as int);
        }
        let mbid = candidates[from + i].as_str();
        assert(pairs[i as int].0 == mbid@);
        if let Some(track) = &results[i] {
            assert(pairs[i as int].1 == Some(track@));
            if !track.id.as_str().is_empty() {
                if track.starred {
                    settled::mark_settled(
                        dry_run,
                        settled,
                        target.link.nd_username.as_str(),
                        mbid,
                        &mut persist,
                    );
                    proof {
                        done.lemma_push_to_set_commute(mbid@);
                    }
                    assert(now.filter_map(already) =~= done.push(mbid@));
                    assert(settled@ =~= settled_before.union(done.push(mbid@).to_set()));
                    assert(text::texts(persist@) =~= settled::recording(
                        dry_run,
                        prefix,
                        done.push(mbid@),
                    ));
                } else if dry_run {
                    notes.push(Note::WouldStar { title: track.title.clone() });
                    assert(protocol::note_views(notes@) =~= old_notes.push(
                        NoteView::WouldStar { title: track@.title },
                    ));
                } else {
                    let ghost song = StarTargetView { id: track@.id, mbid: mbid@ };
                    let ghost before = targets_before + all_to_star(dry_run, pairs.take(i as int));
                    proof {
                        one_more_song(before, song, room as int);
                    }
                    assert(targets_before + all_to_star(dry_run, now) =~= before.push(song));
                    if (targets.len() as u64) < room {
                        targets.push(StarTarget { id: track.id.clone(), mbid: mbid.to_owned() });
                        assert(target_views(targets@) =~= old_targets.push(song));
                    }
                }
            }
        }
        assert(target_views(targets@) == up_to(
            targets_before + all_to_star(dry_run, now),
            room as int,
        ));
        assert(protocol::note_views(notes@) =~= all_star_previews(dry_run, now));
        assert(now.filter_map(already) =~= done || now.filter_map(already) =~= done.push(mbid@));
        i += 1;
    }
    assert(pairs.take(i as int) =~= pairs);
    (persist, notes)
}

impl Inbound {
    fn ask_page(self, target: &Target) -> (r: (Inbound, Option<Action>))
        requires
            0 <= self@.applied,
            self@.applied <= self@.budget || self@.applied == 0,
            0 <= self@.offset,
            !self@.halted,
        ensures
            (r.0@, protocol::opt_action(r.1)) == self@.ask_page(target@),
            r.0@.wf(),
    {
        if self.applied < self.budget {
            let request = listenbrainz::feedback_request(
                target.link.token.as_str(),
                target.lb_username,
                self.offset,
                target.settings,
            );
            (
                Inbound { phase: InboundPhase::Page, ..self },
                Some(Action::Fetch { request, reply: Reply::Feedback }),
            )
        } else {
            (Inbound { phase: InboundPhase::Finished, ..self }, None)
        }
    }

    fn leave_page(self, end: PageEnd, target: &Target) -> (r: (Inbound, Option<Action>))
        requires
            0 <= self@.applied <= self@.budget,
            0 <= self@.offset,
        ensures
            (r.0@, protocol::opt_action(r.1)) == self@.leave_page(end, target@),
            r.0@.wf(),
    {
        let advance: i64 = if end.count < 1 {
            1
        } else {
            end.count
        };
        if !self.halted {
            if let Some(next) = self.offset.checked_add(advance) {
                let goes_on = if end.total_count > 0 {
                    next < end.total_count
                } else {
                    end.count >= PAGE_SIZE
                };
                if goes_on {
                    return Inbound { offset: next, ..self }.ask_page(target);
                }
            }
        }
        (Inbound { phase: InboundPhase::Finished, ..self }, None)
    }

    fn ask_match(
        self,
        candidates: Vec<String>,
        from: usize,
        targets: Vec<StarTarget>,
        end: PageEnd,
        target: &Target,
    ) -> (r: (Inbound, Option<Action>))
        requires
            0 <= self@.applied <= self@.budget,
            0 <= self@.offset,
            targets@.len() <= self@.budget - self@.applied,
            from <= candidates@.len(),
            target@.settings.batch_size > 0,
        ensures
            (r.0@, protocol::opt_action(r.1)) == self@.ask_match(
                text::texts(candidates@),
                from as int,
                target_views(targets@),
                end,
                target@,
            ),
            r.0@.wf(),
    {
        let ghost all = text::texts(candidates@);
        if from < candidates.len() {
            let upto = batch_end(candidates.len(), from, target.settings.batch_size);
            let mut mbids: Vec<String> = Vec::new();
            let mut i: usize = from;
            while i < upto
                invariant
                    from <= i <= upto <= candidates@.len(),
                    all == text::texts(candidates@),
                    text::texts(mbids@) == all.subrange(from as int, i as int),
                decreases upto - i,
            {
                let ghost before = mbids@;
                mbids.push(candidates[i].clone());
                assert(text::texts(mbids@) =~= text::texts(before).push(all[i as int]));
                assert(all.subrange(from as int, i + 1) =~= all.subrange(
                    from as int,
                    i as int,
                ).push(all[i as int]));
                i += 1;
            }
            (
                Inbound {
                    phase: InboundPhase::Matching { candidates, from, targets, end },
                    ..self
                },
                Some(Action::MatchSongs { username: target.link.nd_username.clone(), mbids }),
            )
        } else if targets.len() > 0 {
            let ghost views = target_views(targets@);
            let mut ids: Vec<String> = Vec::new();
            let mut i: usize = 0;
            while i < targets.len()
                invariant
                    i <= targets@.len(),
                    views == target_views(targets@),
                    text::texts(ids@) == target_ids(views).take(i as int),
                decreases targets@.len() - i,
            {
                let ghost before = ids@;
                ids.push(targets[i].id.clone());
                assert(text::texts(ids@) =~= text::texts(before).push(views[i as int].id));
                assert(target_ids(views).take(i + 1) =~= target_ids(views).take(i as int).push(
                    views[i as int].id,
                ));
                i += 1;
            }
            assert(target_ids(views).take(i as int) =~= target_ids(views));
            let uri = subsonic::star_tracks(target.link, &ids);
            (
                Inbound { phase: InboundPhase::Starring { targets, end }, ..self },
                Some(Action::Update { uri }),
            )
        } else {
            self.leave_page(end, target)
        }
    }

    fn take_page(self, page: FeedbackPage, exhausted: bool, target: &Target) -> (r: (
        Inbound,
        Output,
    ))
        requires
            self@.wf(),
            self@.phase is Page,
            target@.settings.batch_size > 0,
        ensures
            (r.0@, r.1@) == self@.take_page(page@, exhausted, target@),
            r.0@.wf(),
    {
        let mut notes = listenbrainz::note_malformed(&page);
        protocol::note_window(&mut notes, exhausted, target.link.nd_username.as_str());
        let taken = Inbound { halted: exhausted, ..self };
        if page.feedback.len() == 0 {
            return (
                Inbound { phase: InboundPhase::Finished, ..taken },
                Output::tell(notes, None),
            );
        }
        let candidates = listenbrainz::inbound_candidates(&page, &taken.settled);
        let end = PageEnd { count: page.count, total_count: page.total_count };
        let targets: Vec<StarTarget> = Vec::new();
        assert(target_views(targets@) =~= Seq::<StarTargetView>::empty());
        let (next, action) = taken.ask_match(candidates, 0, targets, end, target);
        (next, Output::tell(notes, action))
    }

    fn take_matches(
        self,
        results: Vec<Option<Track>>,
        candidates: Vec<String>,
        from: usize,
        targets: Vec<StarTarget>,
        end: PageEnd,
        target: &Target,
    ) -> (r: (Inbound, Output))
        requires
            0 <= self@.applied <= self@.budget,
            0 <= self@.offset,
            from < candidates@.len(),
            targets@.len() <= self@.budget - self@.applied,
            target@.settings.batch_size > 0,
        ensures
            (r.0@, r.1@) == self@.take_matches(
                protocol::match_views(results@),
                text::texts(candidates@),
                from as int,
                target_views(targets@),
                end,
                target@,
            ),
            r.0@.wf(),
    {
        let mut settled = self.settled;
        let mut targets = targets;
        let room: u64 = (self.budget - self.applied) as u64;
        let upto = batch_end(candidates.len(), from, target.settings.batch_size);
        let (persist, notes) = triage(
            target,
            &candidates,
            from,
            upto,
            &results,
            &mut settled,
            &mut targets,
            room,
        );
        let next = Inbound {
            settled,
            budget: self.budget,
            applied: self.applied,
            offset: self.offset,
            halted: self.halted,
            phase: InboundPhase::Finished,
        };
        assert(target_views(targets@).len() <= room);
        let (next, action) = next.ask_match(candidates, upto, targets, end, target);
        (next, Output { persist, notes, action })
    }

    fn take_starred(
        self,
        succeeded: bool,
        targets: Vec<StarTarget>,
        end: PageEnd,
        target: &Target,
    ) -> (r: (Inbound, Output))
        requires
            0 <= self@.applied <= self@.budget,
            0 <= self@.offset,
            targets@.len() <= self@.budget - self@.applied,
        ensures
            (r.0@, r.1@) == self@.take_starred(succeeded, target_views(targets@), end, target@),
            r.0@.wf(),
    {
        let ghost views = target_views(targets@);
        let ghost mbids = target_mbids(views);
        let ghost prefix = settled::synced_prefix(target@.link.nd_username);
        let ghost settled_before = self.settled@;
        let mut settled = self.settled;
        let mut applied = self.applied;
        let mut persist: Vec<String> = Vec::new();
        assert(settled@ =~= settled_before.union(Seq::<Text>::empty().to_set()));
        assert(text::texts(persist@) =~= settled::recording(
            target.settings.dry_run,
            prefix,
            Seq::<Text>::empty(),
        ));
        if succeeded {
            let mut i: usize = 0;
            assert(mbids.take(0) =~= Seq::<Text>::empty());
            while i < targets.len()
                invariant
                    i <= targets@.len(),
                    views == target_views(targets@),
                    mbids == target_mbids(views),
                    prefix == settled::synced_prefix(target@.link.nd_username),
                    settled@ == settled_before.union(mbids.take(i as int).to_set()),
                    text::texts(persist@) == settled::recording(
                        target.settings.dry_run,
                        prefix,
                        mbids.take(i as int),
                    ),
                decreases targets@.len() - i,
            {
                let ghost done = mbids.take(i as int);
                assert(mbids.take(i + 1) =~= done.push(mbids[i as int]));
                settled::mark_settled(
                    target.settings.dry_run,
                    &mut settled,
                    target.link.nd_username.as_str(),
                    targets[i].mbid.as_str(),
                    &mut persist,
                );
                proof {
                    done.lemma_push_to_set_commute(mbids[i as int]);
                }
                assert(settled@ =~= settled_before.union(mbids.take(i + 1).to_set()));
                assert(text::texts(persist@) =~= settled::recording(
                    target.settings.dry_run,
                    prefix,
                    mbids.take(i + 1),
                ));
                i += 1;
            }
            assert(mbids.take(i as int) =~= mbids);
            applied = applied + targets.len() as i64;
        }
        let next = Inbound {
            settled,
            budget: self.budget,
            applied,
            offset: self.offset,
            halted: self.halted,
            phase: InboundPhase::Finished,
        };
        let (next, action) = next.leave_page(end, target);
        let output = Output { persist, notes: Vec::new(), action };
        assert(output@.notes =~= Seq::<NoteView>::empty());
        (next, output)
    }

    /// Starts an inbound sync: every ListenBrainz love that is not already settled is starred. The
    /// budget caps the songs starred, not the loves looked at.
    pub fn start(settled: TextSet, budget: i64, target: &Target) -> (r: (Inbound, Output))
        ensures
            (r.0@, r.1@) == InboundView::started(settled@, budget as int, target@),
            r.0@.wf(),
    {
        let sync = Inbound {
            settled,
            budget,
            applied: 0,
            offset: 0,
            halted: false,
            phase: InboundPhase::Finished,
        };
        let (next, action) = sync.ask_page(target);
        (next, Output::ask(action))
    }

    /// Takes an answer of the host and gives the next action.
    pub fn step(self, event: Event, target: &Target) -> (r: (Inbound, Output))
        requires
            self@.wf(),
            target@.settings.batch_size > 0,
        ensures
            (r.0@, r.1@) == self@.step(event@, target@),
            r.0@.wf(),
    {
        match self.phase {
            InboundPhase::Page => match event {
                Event::Feedback(page, exhausted) => Inbound {
                    phase: InboundPhase::Page,
                    ..self
                }.take_page(page, exhausted, target),
                _ => (
                    Inbound {
                        halted: event.is_limiting(),
                        phase: InboundPhase::Finished,
                        ..self
                    },
                    Output::end(event.is_exhausting_unread(), target.link.nd_username.as_str()),
                ),
            },
            InboundPhase::Matching { candidates, from, targets, end } => {
                let results = match event {
                    Event::Matches(results) => results,
                    _ => Vec::new(),
                };
                assert(match event@ {
                    EventView::Matches(found) => protocol::match_views(results@) =~= found,
                    _ => protocol::match_views(results@) =~= Seq::<Option<TrackView>>::empty(),
                });
                Inbound { phase: InboundPhase::Finished, ..self }.take_matches(
                    results,
                    candidates,
                    from,
                    targets,
                    end,
                    target,
                )
            },
            InboundPhase::Starring { targets, end } => {
                let succeeded = match event {
                    Event::Envelope(envelope) => subsonic::subsonic_ok(&envelope),
                    _ => false,
                };
                Inbound { phase: InboundPhase::Finished, ..self }.take_starred(
                    succeeded,
                    targets,
                    end,
                    target,
                )
            },
            InboundPhase::Finished => (
                Inbound { phase: InboundPhase::Finished, ..self },
                Output::ask(None),
            ),
        }
    }

    /// Whether the sync has nothing left to do.
    pub fn is_finished(&self) -> (r: bool)
        ensures
            r == (self@.phase is Finished),
    {
        match self.phase {
            InboundPhase::Finished => true,
            _ => false,
        }
    }

    /// Whether no further calls may be made in this pass.
    pub fn is_halted(&self) -> (r: bool)
        ensures
            r == self@.halted,
    {
        self.halted
    }

    /// What is settled by now, and what is left of the budget.
    pub fn into_result(self) -> (r: (TextSet, i64))
        requires
            self@.wf(),
        ensures
            r.0@ == self@.settled,
            r.1 == self@.budget - self@.applied,
    {
        (self.settled, self.budget - self.applied)
    }
}

fn batch_end(len: usize, from: usize, batch_size: usize) -> (r: usize)
    requires
        from <= len,
    ensures
        r == if from + batch_size <= len {
            from + batch_size
        } else {
            len as int
        },
{
    if batch_size <= len - from {
        from + batch_size
    } else {
        len
    }
}

} // verus!
