//! Loving on ListenBrainz what a user starred locally.

use vstd::prelude::*;
use crate::http::Status;
use crate::inbound::{Target, TargetView};
use crate::listenbrainz;
use crate::protocol;
use crate::protocol::{Action, ActionView, Event, EventView, Note, NoteView, Output, OutputView};
use crate::settled;
use crate::settled::TextSet;
use crate::subsonic;
use crate::subsonic::{SubsonicEnvelope, SubsonicEnvelopeView};
use crate::text;
use crate::text::Text;

verus! {

/// Where the outbound sync of one user stands.
#[derive(Debug, PartialEq, Eq)]
pub enum OutboundPhase {
    /// The starred songs are asked for.
    Listing,
    /// The recording at `at` is being loved; the ones behind it follow.
    Loving { queue: Vec<String>, at: usize },
    /// Nothing is left to do.
    Finished,
}

/// What a phase says.
pub enum OutboundPhaseView {
    Listing,
    Loving { queue: Seq<Text>, at: int },
    Finished,
}

impl View for OutboundPhase {
    type V = OutboundPhaseView;

    open spec fn view(&self) -> OutboundPhaseView {
        match self {
            OutboundPhase::Listing => OutboundPhaseView::Listing,
            OutboundPhase::Loving { queue, at } => OutboundPhaseView::Loving {
                queue: text::texts(queue@),
                at: *at as int,
            },
            OutboundPhase::Finished => OutboundPhaseView::Finished,
        }
    }
}

/// The outbound sync of one user.
pub struct Outbound {
    settled: TextSet,
    budget: i64,
    pushed: i64,
    halted: bool,
    phase: OutboundPhase,
}

/// What an outbound sync has done and is about to do. `halted` says that ListenBrainz takes no
/// further calls in this pass: a love was answered with a stop, or the rate-limit window is
/// exhausted.
pub struct OutboundView {
    pub settled: Set<Text>,
    pub budget: int,
    pub pushed: int,
    pub halted: bool,
    pub phase: OutboundPhaseView,
}

impl View for Outbound {
    type V = OutboundView;

    closed spec fn view(&self) -> OutboundView {
        OutboundView {
            settled: self.settled@,
            budget: self.budget as int,
            pushed: self.pushed as int,
            halted: self.halted,
            phase: self.phase@,
        }
    }
}

/// What a dry run says of the recordings it does not love.
pub open spec fn love_previews(queue: Seq<Text>) -> Seq<NoteView> {
    queue.map_values(|mbid: Text| NoteView::WouldLove { mbid })
}

/// What is said of the outcome of love feedback.
pub open spec fn love_notes(status: Status, exhausted: bool, nd_username: Text) -> Seq<NoteView> {
    if status is Stop {
        seq![NoteView::OutboundPausing { nd_username }]
    } else {
        protocol::window_notes(exhausted, nd_username)
    }
}

impl OutboundView {
    /// What holds of every outbound sync: it never loves more than its budget.
    pub open spec fn wf(self) -> bool {
        &&& 0 <= self.pushed
        &&& self.pushed <= self.budget || self.pushed == 0
        &&& match self.phase {
            OutboundPhaseView::Loving { queue, at } => 0 <= at < queue.len() && self.pushed
                < self.budget,
            _ => true,
        }
    }

    /// The end of the work.
    pub open spec fn finish(self) -> (OutboundView, Option<ActionView>) {
        (OutboundView { phase: OutboundPhaseView::Finished, ..self }, None)
    }

    /// Loves the recording at `at`, as long as there is one and the budget is not spent.
    pub open spec fn ask_love(self, queue: Seq<Text>, at: int, target: TargetView) -> (
        OutboundView,
        Option<ActionView>,
    ) {
        if at < queue.len() && self.pushed < self.budget {
            (
                OutboundView { phase: OutboundPhaseView::Loving { queue, at }, ..self },
                Some(
                    ActionView::Love {
                        request: listenbrainz::love_write(
                            target.link.token,
                            queue[at],
                            target.settings,
                        ),
                    },
                ),
            )
        } else {
            self.finish()
        }
    }

    /// Takes the starred songs. A dry run only says what it would love.
    pub open spec fn take_starred(self, envelope: SubsonicEnvelopeView, target: TargetView) -> (
        OutboundView,
        OutputView,
    ) {
        let queue = listenbrainz::outbound_wanted(envelope.starred_mbids(), self.settled);
        if target.settings.dry_run {
            (
                self.finish().0,
                OutputView {
                    persist: Seq::empty(),
                    notes: if self.pushed < self.budget {
                        love_previews(queue)
                    } else {
                        Seq::empty()
                    },
                    action: None,
                },
            )
        } else {
            let next = self.ask_love(queue, 0, target);
            (next.0, protocol::asking(next.1))
        }
    }

    /// Takes the outcome of love feedback. Only a success settles the recording and counts; a
    /// rejected recording is passed over, and a stop or an exhausted window ends the work and the
    /// pass.
    pub open spec fn take_love(
        self,
        status: Status,
        exhausted: bool,
        queue: Seq<Text>,
        at: int,
        target: TargetView,
    ) -> (OutboundView, OutputView) {
        let done = if status is Applied {
            seq![queue[at]]
        } else {
            Seq::empty()
        };
        let after = OutboundView {
            settled: self.settled.union(done.to_set()),
            pushed: self.pushed + done.len(),
            ..self
        };
        let next = if status is Stop || exhausted {
            OutboundView { halted: true, ..after }.finish()
        } else {
            after.ask_love(queue, at + 1, target)
        };
        (
            next.0,
            OutputView {
                persist: settled::recording(
                    target.settings.dry_run,
                    settled::synced_prefix(target.link.nd_username),
                    done,
                ),
                notes: love_notes(status, exhausted, target.link.nd_username),
                action: next.1,
            },
        )
    }

    /// The start of an outbound sync.
    pub open spec fn started(settled: Set<Text>, budget: int, target: TargetView) -> (
        OutboundView,
        OutputView,
    ) {
        (
            OutboundView {
                settled,
                budget,
                pushed: 0,
                halted: false,
                phase: OutboundPhaseView::Listing,
            },
            protocol::asking(
                Some(ActionView::Query { uri: subsonic::starred_call(target.link.nd_username) }),
            ),
        )
    }

    /// One step: what an answer makes of the sync.
    pub open spec fn step(self, event: EventView, target: TargetView) -> (
        OutboundView,
        OutputView,
    ) {
        match self.phase {
            OutboundPhaseView::Listing => match event {
                EventView::Envelope(envelope) => self.take_starred(envelope, target),
                _ => (self.finish().0, protocol::asking(None)),
            },
            OutboundPhaseView::Loving { queue, at } => match event {
                EventView::Love(status, exhausted) => self.take_love(
                    status,
                    exhausted,
                    queue,
                    at,
                    target,
                ),
                _ => (self.finish().0, protocol::asking(None)),
            },
            OutboundPhaseView::Finished => (self, protocol::asking(None)),
        }
    }
}

impl Outbound {
    fn ask_love(self, queue: Vec<String>, at: usize, target: &Target) -> (r: (
        Outbound,
        Option<Action>,
    ))
        requires
            0 <= self@.pushed,
            self@.pushed <= self@.budget || self@.pushed == 0,
        ensures
            (r.0@, protocol::opt_action(r.1)) == self@.ask_love(
                text::texts(queue@),
                at as int,
                target@,
            ),
            r.0@.wf(),
    {
        if at < queue.len() && self.pushed < self.budget {
            let request = listenbrainz::love_request(
                target.link.token.as_str(),
                queue[at].as_str(),
                target.settings,
            );
            (
                Outbound { phase: OutboundPhase::Loving { queue, at }, ..self },
                Some(Action::Love { request }),
            )
        } else {
            (Outbound { phase: OutboundPhase::Finished, ..self }, None)
        }
    }

    fn take_starred(self, envelope: SubsonicEnvelope, target: &Target) -> (r: (Outbound, Output))
        requires
            self@.wf(),
            self@.phase is Listing,
        ensures
            (r.0@, r.1@) == self@.take_starred(envelope@, target@),
            r.0@.wf(),
    {
        let songs = subsonic::starred_songs(envelope);
        let queue = listenbrainz::outbound_candidates(&songs, &self.settled);
        if !target.settings.dry_run {
            let (next, action) = self.ask_love(queue, 0, target);
            return (next, Output::ask(action));
        }
        let ghost all = text::texts(queue@);
        let mut notes: Vec<Note> = Vec::new();
        if self.pushed < self.budget {
            let mut i: usize = 0;
            assert(protocol::note_views(notes@) =~= love_previews(all.take(0)));
            while i < queue.len()
                invariant
                    i <= queue@.len(),
                    all == text::texts(queue@),
                    protocol::note_views(notes@) == love_previews(all.take(i as int)),
                decreases queue@.len() - i,
            {
                let ghost before = notes@;
                notes.push(Note::WouldLove { mbid: queue[i].clone() });
                assert(protocol::note_views(notes@) =~= protocol::note_views(before).push(
                    NoteView::WouldLove { mbid: all[i as int] },
                ));
                assert(love_previews(all.take(i + 1)) =~= love_previews(all.take(i as int)).push(
                    NoteView::WouldLove { mbid: all[i as int] },
                ));
                i += 1;
            }
            assert(all.take(i as int) =~= all);
        } else {
            assert(protocol::note_views(notes@) =~= Seq::<NoteView>::empty());
        }
        let output = Output { persist: Vec::new(), notes, action: None };
        assert(output@.persist =~= Seq::<Text>::empty());
        (Outbound { phase: OutboundPhase::Finished, ..self }, output)
    }

    fn take_love(
        self,
        status: Status,
        exhausted: bool,
        queue: Vec<String>,
        at: usize,
        target: &Target,
    ) -> (r: (Outbound, Output))
        requires
            0 <= self@.pushed < self@.budget,
            at < queue@.len(),
        ensures
            (r.0@, r.1@) == self@.take_love(status, exhausted, text::texts(queue@), at as int, target@),
            r.0@.wf(),
    {
        let ghost mbid = text::texts(queue@)[at as int];
        let ghost settled_before = self.settled@;
        let ghost prefix = settled::synced_prefix(target@.link.nd_username);
        let dry_run = target.settings.dry_run;
        let mut settled = self.settled;
        let mut pushed = self.pushed;
        let mut persist: Vec<String> = Vec::new();
        if status == Status::Applied {
            settled::mark_settled(
                dry_run,
                &mut settled,
                target.link.nd_username.as_str(),
                queue[at].as_str(),
                &mut persist,
            );
            pushed = pushed + 1;
            assert(seq![mbid].to_set() =~= Set::empty().insert(mbid)) by {
                assert(seq![mbid][0] == mbid);
            }
            assert(settled@ =~= settled_before.union(seq![mbid].to_set()));
            assert(text::texts(persist@) =~= settled::recording(dry_run, prefix, seq![mbid]));
        } else {
            assert(settled@ =~= settled_before.union(Seq::<Text>::empty().to_set()));
            assert(text::texts(persist@) =~= settled::recording(
                dry_run,
                prefix,
                Seq::<Text>::empty(),
            ));
        }
        let after = Outbound {
            settled,
            budget: self.budget,
            pushed,
            halted: self.halted || status == Status::Stop || exhausted,
            phase: OutboundPhase::Finished,
        };
        assert(at < queue.len());
        let (next, action) = if status == Status::Stop || exhausted {
            (after, None)
        } else {
            after.ask_love(queue, at + 1, target)
        };
        let mut notes: Vec<Note> = Vec::new();
        if status == Status::Stop {
            notes.push(Note::OutboundPausing { nd_username: target.link.nd_username.clone() });
        } else {
            protocol::note_window(&mut notes, exhausted, target.link.nd_username.as_str());
        }
        let output = Output { persist, notes, action };
        assert(output@.notes =~= love_notes(status, exhausted, target@.link.nd_username));
        (next, output)
    }

    /// Starts an outbound sync: every locally starred recording that is not already settled is
    /// loved, up to the budget.
    pub fn start(settled: TextSet, budget: i64, target: &Target) -> (r: (Outbound, Output))
        ensures
            (r.0@, r.1@) == OutboundView::started(settled@, budget as int, target@),
            r.0@.wf(),
    {
        let uri = subsonic::starred_uri(target.link);
        (
            Outbound { settled, budget, pushed: 0, halted: false, phase: OutboundPhase::Listing },
            Output::ask(Some(Action::Query { uri })),
        )
    }

    /// Takes an answer of the host and gives the next action.
    pub fn step(self, event: Event, target: &Target) -> (r: (Outbound, Output))
        requires
            self@.wf(),
        ensures
            (r.0@, r.1@) == self@.step(event@, target@),
            r.0@.wf(),
    {
        match self.phase {
            OutboundPhase::Listing => match event {
                Event::Envelope(envelope) => Outbound {
                    phase: OutboundPhase::Listing,
                    ..self
                }.take_starred(envelope, target),
                _ => (Outbound { phase: OutboundPhase::Finished, ..self }, Output::ask(None)),
            },
            OutboundPhase::Loving { queue, at } => match event {
                Event::Love(status, exhausted) => Outbound {
                    phase: OutboundPhase::Finished,
                    ..self
                }.take_love(status, exhausted, queue, at, target),
                _ => (Outbound { phase: OutboundPhase::Finished, ..self }, Output::ask(None)),
            },
            OutboundPhase::Finished => (
                Outbound { phase: OutboundPhase::Finished, ..self },
                Output::ask(None),
            ),
        }
    }

    /// Whether the sync has nothing left to do.
    pub fn is_finished(&self) -> (r: bool)
        ensures
            r == (self@.phase is Finished),
    {
        match self.phase {
            OutboundPhase::Finished => true,
            _ => false,
        }
    }

    /// Whether no further calls may be made in this pass.
    pub fn is_halted(&self) -> (r: bool)
        ensures
            r == self@.halted,
    {
        self.halted
    }
}

} // verus!
