//! Copying CritiqueBrainz ratings into Navidrome for one user.
//!
//! CritiqueBrainz is independent of ListenBrainz: the ratings live on public reviews, so only a
//! username is needed and no token is involved. The CritiqueBrainz user id is resolved once per
//! pass, then each enabled entity type is paged.

use vstd::prelude::*;
use crate::critiquebrainz;
use crate::protocol;
use crate::protocol::{
    Action,
    ActionView,
    Event,
    EventView,
    Note,
    NoteView,
    Output,
    OutputView,
    Reply,
};
use crate::ratings::{Rater, RaterView, Ratings, RatingsView};
use crate::settings;
use crate::settings::{Settings, SettingsView, UserLink, UserLinkView};
use crate::settled;
use crate::settled::TextSet;
use crate::text::Text;

verus! {

/// Where the CritiqueBrainz sync of one user stands.
pub enum CritiquePhase {
    /// The id of the CritiqueBrainz user is asked for.
    Account { username: String },
    /// The states already applied are asked for.
    Keys { user_id: String },
    /// The rule number `rule` is at work.
    Rating { user_id: String, rule: usize, ratings: Ratings },
    /// Nothing is left to do.
    Finished,
}

/// What a phase says.
pub enum CritiquePhaseView {
    Account { username: Text },
    Keys { user_id: Text },
    Rating { user_id: Text, rule: int, ratings: RatingsView },
    Finished,
}

impl View for CritiquePhase {
    type V = CritiquePhaseView;

    open spec fn view(&self) -> CritiquePhaseView {
        match self {
            CritiquePhase::Account { username } => CritiquePhaseView::Account {
                username: username@,
            },
            CritiquePhase::Keys { user_id } => CritiquePhaseView::Keys { user_id: user_id@ },
            CritiquePhase::Rating { user_id, rule, ratings } => CritiquePhaseView::Rating {
                user_id: user_id@,
                rule: *rule as int,
                ratings: ratings@,
            },
            CritiquePhase::Finished => CritiquePhaseView::Finished,
        }
    }
}

/// The CritiqueBrainz sync of one user.
pub struct Critique {
    budget: i64,
    changes: i64,
    halted: bool,
    phase: CritiquePhase,
}

/// What a CritiqueBrainz sync has done and is about to do. `changes` are the writes that the rules
/// before the one at work attempted. `halted` says that no further calls may be made in this pass:
/// CritiqueBrainz was rate limited, or its rate-limit window is exhausted.
pub struct CritiqueView {
    pub budget: int,
    pub changes: int,
    pub halted: bool,
    pub phase: CritiquePhaseView,
}

impl View for Critique {
    type V = CritiqueView;

    closed spec fn view(&self) -> CritiqueView {
        CritiqueView {
            budget: self.budget as int,
            changes: self.changes as int,
            halted: self.halted,
            phase: self.phase@,
        }
    }
}

/// The CritiqueBrainz username of a link: its own, or else the ListenBrainz one.
pub open spec fn account_name(link: UserLinkView, lb_username: Option<Text>) -> Option<Text> {
    match link.cb_username {
        Some(username) => Some(username),
        None => lb_username,
    }
}

impl CritiqueView {
    /// What holds of every CritiqueBrainz sync: the budget caps the changes attempted, and a rule is
    /// at work only while the budget is not spent, and has what is left of it.
    pub open spec fn wf(self, settings: SettingsView) -> bool {
        &&& 0 <= self.changes
        &&& self.changes <= self.budget || self.changes == 0
        &&& match self.phase {
            CritiquePhaseView::Rating { rule, ratings, .. } => {
                &&& ratings.wf()
                &&& self.changes < self.budget
                &&& ratings.budget == self.budget - self.changes
                &&& 0 <= rule < settings.cb_rules.len()
            },
            CritiquePhaseView::Finished => true,
            _ => self.changes == 0,
        }
    }

    /// The end of the work.
    pub open spec fn finish(self) -> CritiqueView {
        CritiqueView { phase: CritiquePhaseView::Finished, ..self }
    }

    /// Goes on with the rule number `rule`, as long as there is one and the budget is not spent.
    pub open spec fn next_rule(
        self,
        user_id: Text,
        rule: int,
        settled: Set<Text>,
        settings: SettingsView,
        link: UserLinkView,
    ) -> (CritiqueView, OutputView) {
        if rule < settings.cb_rules.len() && self.changes < self.budget {
            let started = RatingsView::started(
                settings.cb_rules[rule].0,
                settings.cb_rules[rule].1,
                settled,
                self.budget - self.changes,
                RaterView { settings, link, user_id },
            );
            (
                CritiqueView {
                    phase: CritiquePhaseView::Rating { user_id, rule, ratings: started.0 },
                    ..self
                },
                started.1,
            )
        } else {
            (self.finish(), protocol::asking(None))
        }
    }

    /// The start of a CritiqueBrainz sync. Without a username there is nothing to do.
    pub open spec fn started(
        lb_username: Option<Text>,
        budget: int,
        settings: SettingsView,
        link: UserLinkView,
    ) -> (CritiqueView, OutputView) {
        match account_name(link, lb_username) {
            Some(username) => (
                CritiqueView {
                    budget,
                    changes: 0,
                    halted: false,
                    phase: CritiquePhaseView::Account { username },
                },
                protocol::asking(
                    Some(
                        ActionView::Fetch {
                            request: critiquebrainz::user_read(username, settings),
                            reply: Reply::CbUser,
                        },
                    ),
                ),
            ),
            None => (
                CritiqueView {
                    budget,
                    changes: 0,
                    halted: false,
                    phase: CritiquePhaseView::Finished,
                },
                protocol::telling(
                    seq![NoteView::NoCbUsername { nd_username: link.nd_username }],
                    None,
                ),
            ),
        }
    }

    /// Takes a failed lookup of the CritiqueBrainz user.
    pub open spec fn lose_user(self, halted: bool, notes: Seq<NoteView>) -> (
        CritiqueView,
        OutputView,
    ) {
        (CritiqueView { halted, ..self }.finish(), protocol::telling(notes, None))
    }

    /// Takes the id of the CritiqueBrainz user. The username can be inherited from the
    /// ListenBrainz link, and binding the wrong account would sync a stranger's public ratings into
    /// this library, so the binding is always noted.
    pub open spec fn take_user(self, user_id: Text, username: Text, link: UserLinkView) -> (
        CritiqueView,
        OutputView,
    ) {
        (
            CritiqueView { phase: CritiquePhaseView::Keys { user_id }, ..self },
            OutputView {
                persist: Seq::empty(),
                notes: seq![NoteView::Account { username, user_id, nd_username: link.nd_username }],
                action: Some(
                    ActionView::ListKeys { prefix: settled::cbsynced_prefix(link.nd_username) },
                ),
            },
        )
    }

    /// Goes on behind a step of the rule at work: with the next rule, once this one is finished.
    /// Where it halted, no other rule follows.
    pub open spec fn take_ratings(
        self,
        stepped: (RatingsView, OutputView),
        user_id: Text,
        rule: int,
        settings: SettingsView,
        link: UserLinkView,
    ) -> (CritiqueView, OutputView) {
        let after = CritiqueView { changes: self.changes + stepped.0.changes, ..self };
        if !(stepped.0.phase is Finished) {
            (
                CritiqueView {
                    phase: CritiquePhaseView::Rating { user_id, rule, ratings: stepped.0 },
                    ..self
                },
                stepped.1,
            )
        } else if stepped.0.halted {
            (CritiqueView { halted: true, ..after }.finish(), stepped.1)
        } else {
            let next = after.next_rule(user_id, rule + 1, stepped.0.settled, settings, link);
            (next.0, protocol::preceded(next.1, stepped.1.persist, stepped.1.notes))
        }
    }

    /// One step: what an answer makes of the sync.
    pub open spec fn step(self, event: EventView, settings: SettingsView, link: UserLinkView) -> (
        CritiqueView,
        OutputView,
    ) {
        match self.phase {
            CritiquePhaseView::Account { username } => match event {
                EventView::CbUser(Some(user_id), false) => self.take_user(user_id, username, link),
                EventView::CbUser(Some(_), true) => self.lose_user(
                    true,
                    protocol::window_notes(true, link.nd_username),
                ),
                EventView::CbUser(None, exhausted) => self.lose_user(
                    exhausted,
                    seq![NoteView::NoCbUserId { username }] + protocol::window_notes(
                        exhausted,
                        link.nd_username,
                    ),
                ),
                _ => self.lose_user(
                    event.limits(),
                    protocol::window_notes(event.exhausts_unread(), link.nd_username),
                ),
            },
            CritiquePhaseView::Keys { user_id } => self.next_rule(
                user_id,
                0,
                match event {
                    EventView::Keys(keys) => settled::recorded(
                        keys,
                        settled::cbsynced_prefix(link.nd_username),
                    ),
                    _ => Set::empty(),
                },
                settings,
                link,
            ),
            CritiquePhaseView::Rating { user_id, rule, ratings } => self.take_ratings(
                ratings.step(event, RaterView { settings, link, user_id }),
                user_id,
                rule,
                settings,
                link,
            ),
            CritiquePhaseView::Finished => (self, protocol::asking(None)),
        }
    }
}

impl Critique {
    fn next_rule(
        self,
        user_id: String,
        rule: usize,
        settled: TextSet,
        settings: &Settings,
        link: &UserLink,
    ) -> (r: (Critique, Output))
        requires
            0 <= self@.changes,
            self@.changes <= self@.budget || self@.changes == 0,
        ensures
            (r.0@, r.1@) == self@.next_rule(user_id@, rule as int, settled@, settings@, link@),
            r.0@.wf(settings@),
    {
        if rule < settings.cb_rules.len() && self.changes < self.budget {
            let (entity, applied) = settings.cb_rules[rule];
            let left: i64 = self.budget - self.changes;
            let (ratings, output) = Ratings::start(
                entity,
                applied,
                settled,
                left,
                &Rater { settings, link, user_id: user_id.as_str() },
            );
            (
                Critique { phase: CritiquePhase::Rating { user_id, rule, ratings }, ..self },
                output,
            )
        } else {
            (Critique { phase: CritiquePhase::Finished, ..self }, Output::ask(None))
        }
    }

    /// Starts the CritiqueBrainz sync of one user. Each enabled entity type is dealt with in turn,
    /// as long as the budget is not spent.
    pub fn start(lb_username: &Option<String>, settings: &Settings, link: &UserLink) -> (r: (
        Critique,
        Output,
    ))
        ensures
            (r.0@, r.1@) == CritiqueView::started(
                settings::opt_text(*lb_username),
                settings@.max_per_run,
                settings@,
                link@,
            ),
            r.0@.wf(settings@),
    {
        let username = match &link.cb_username {
            Some(username) => Some(username.clone()),
            None => match lb_username {
                Some(username) => Some(username.clone()),
                None => None,
            },
        };
        assert(settings::opt_text(username) == account_name(
            link@,
            settings::opt_text(*lb_username),
        ));
        match username {
            Some(username) => {
                let request = critiquebrainz::resolve_cb_user_id(username.as_str(), settings);
                (
                    Critique {
                        budget: settings.max_per_run,
                        changes: 0,
                        halted: false,
                        phase: CritiquePhase::Account { username },
                    },
                    Output::ask(Some(Action::Fetch { request, reply: Reply::CbUser })),
                )
            },
            None => (
                Critique {
                    budget: settings.max_per_run,
                    changes: 0,
                    halted: false,
                    phase: CritiquePhase::Finished,
                },
                Output::say(Note::NoCbUsername { nd_username: link.nd_username.clone() }),
            ),
        }
    }

    fn take_user(self, user_id: String, username: String, link: &UserLink) -> (r: (
        Critique,
        Output,
    ))
        requires
            self@.changes == 0,
        ensures
            (r.0@, r.1@) == self@.take_user(user_id@, username@, link@),
    {
        let mut notes: Vec<Note> = Vec::new();
        notes.push(
            Note::Account {
                username,
                user_id: user_id.clone(),
                nd_username: link.nd_username.clone(),
            },
        );
        let prefix = settled::cb_settled_prefix(link.nd_username.as_str());
        let output = Output {
            persist: Vec::new(),
            notes,
            action: Some(Action::ListKeys { prefix }),
        };
        assert(output@.persist =~= Seq::<Text>::empty());
        assert(output@.notes =~= seq![
            NoteView::Account {
                username: username@,
                user_id: user_id@,
                nd_username: link@.nd_username,
            },
        ]);
        (Critique { phase: CritiquePhase::Keys { user_id }, ..self }, output)
    }

    /// Takes an answer of the host and gives the next action.
    pub fn step(self, event: Event, settings: &Settings, link: &UserLink) -> (r: (Critique, Output))
        requires
            self@.wf(settings@),
        ensures
            (r.0@, r.1@) == self@.step(event@, settings@, link@),
            r.0@.wf(settings@),
    {
        match self.phase {
            CritiquePhase::Account { username } => {
                let sync = Critique { phase: CritiquePhase::Finished, ..self };
                match event {
                    Event::CbUser(reply, exhausted) => match protocol::cb_user_id(reply) {
                        Some(user_id) => if exhausted {
                            (
                                Critique { halted: true, ..sync },
                                Output::end(true, link.nd_username.as_str()),
                            )
                        } else {
                            sync.take_user(user_id, username, link)
                        },
                        None => {
                            let ghost name = username@;
                            let mut notes: Vec<Note> = Vec::new();
                            notes.push(Note::NoCbUserId { username });
                            protocol::note_window(
                                &mut notes,
                                exhausted,
                                link.nd_username.as_str(),
                            );
                            assert(protocol::note_views(notes@) =~= seq![
                                NoteView::NoCbUserId { username: name },
                            ] + protocol::window_notes(exhausted, link@.nd_username));
                            (Critique { halted: exhausted, ..sync }, Output::tell(notes, None))
                        },
                    },
                    _ => (
                        Critique { halted: event.is_limiting(), ..sync },
                        Output::end(
                            event.is_exhausting_unread(),
                            link.nd_username.as_str(),
                        ),
                    ),
                }
            },
            CritiquePhase::Keys { user_id } => {
                let settled = match event {
                    Event::Keys(keys) => {
                        let prefix = settled::cb_settled_prefix(link.nd_username.as_str());
                        settled::load_settled(&keys, prefix.as_str())
                    },
                    _ => TextSet::new(),
                };
                Critique { phase: CritiquePhase::Finished, ..self }.next_rule(
                    user_id,
                    0,
                    settled,
                    settings,
                    link,
                )
            },
            CritiquePhase::Rating { user_id, rule, ratings } => {
                let (ratings, output) = ratings.step(
                    event,
                    &Rater { settings, link, user_id: user_id.as_str() },
                );
                if !ratings.is_finished() {
                    return (
                        Critique { phase: CritiquePhase::Rating { user_id, rule, ratings }, ..self },
                        output,
                    );
                }
                let halted = ratings.is_halted();
                let (settled, changes) = ratings.into_result();
                let after = Critique {
                    budget: self.budget,
                    changes: self.changes + changes,
                    halted: self.halted,
                    phase: CritiquePhase::Finished,
                };
                if halted {
                    return (Critique { halted: true, ..after }, output);
                }
                assert(rule < settings.cb_rules.len());
                let (next, following) = after.next_rule(
                    user_id,
                    rule + 1,
                    settled,
                    settings,
                    link,
                );
                (next, following.precede(output.persist, output.notes))
            },
            CritiquePhase::Finished => (
                Critique { phase: CritiquePhase::Finished, ..self },
                Output::ask(None),
            ),
        }
    }

    /// Whether the sync has nothing left to do.
    pub fn is_finished(&self) -> (r: bool)
        ensures
            r == (self@.phase is Finished),
    {
        match self.phase {
            CritiquePhase::Finished => true,
            _ => false,
        }
    }

    /// Whether no further calls may be made in this pass.
    pub fn is_halted(&self) -> (r: bool)
        ensures
            r == self@.halted,
    {
        self.halted
    }

    /// What is left of the budget behind the changes attempted.
    pub fn left(&self) -> (r: i64)
        requires
            0 <= self@.changes,
            self@.changes <= self@.budget || self@.changes == 0,
        ensures
            r == self@.budget - self@.changes,
    {
        self.budget - self.changes
    }
}

} // verus!
