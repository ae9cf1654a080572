//! One reconciliation pass over every linked user.

use vstd::prelude::*;
use crate::critique::{Critique, CritiqueView};
use crate::inbound::{Target, TargetView};
use crate::listenbrainz;
use crate::protocol;
use crate::protocol::{
    Action,
    ActionView,
    Event,
    EventView,
    Note,
    NoteView,
    Output,
    OutputView,
    Reply,
};
use crate::settings;
use crate::settings::{Settings, SettingsView, UserLinkView};
use crate::settled::TextSet;
use crate::text;
use crate::text::Text;
use crate::user;
use crate::user::{UserPhaseView, UserSync};

verus! {

/// Where a pass stands with the link at work.
pub enum PassPhase {
    /// The token is being checked.
    Token,
    /// The CritiqueBrainz sync is at work. `resolved` is the ListenBrainz username, and `stop` ends
    /// the pass behind this link.
    Critique { resolved: Option<String>, stop: bool, critique: Critique },
    /// The ListenBrainz sync is at work.
    User { lb_username: String, user: UserSync },
    /// Nothing is left to do.
    Finished,
}

/// What a phase says.
pub enum PassPhaseView {
    Token,
    Critique { resolved: Option<Text>, stop: bool, critique: CritiqueView },
    User { lb_username: Text, user: UserPhaseView },
    Finished,
}

impl View for PassPhase {
    type V = PassPhaseView;

    open spec fn view(&self) -> PassPhaseView {
        match self {
            PassPhase::Token => PassPhaseView::Token,
            PassPhase::Critique { resolved, stop, critique } => PassPhaseView::Critique {
                resolved: settings::opt_text(*resolved),
                stop: *stop,
                critique: critique@,
            },
            PassPhase::User { lb_username, user: sync } => PassPhaseView::User {
                lb_username: lb_username@,
                user: sync@,
            },
            PassPhase::Finished => PassPhaseView::Finished,
        }
    }
}

/// A pass.
pub struct Pass {
    settings: Settings,
    authorized: TextSet,
    index: usize,
    phase: PassPhase,
}

/// What a pass has done and is about to do. `index` is the link at work.
pub struct PassView {
    pub settings: SettingsView,
    pub authorized: Set<Text>,
    pub index: int,
    pub phase: PassPhaseView,
}

impl View for Pass {
    type V = PassView;

    closed spec fn view(&self) -> PassView {
        PassView {
            settings: self.settings@,
            authorized: self.authorized@,
            index: self.index as int,
            phase: self.phase@,
        }
    }
}

/// The first link from `from` on whose user the plugin is assigned to.
pub open spec fn next_authorized(
    links: Seq<UserLinkView>,
    from: int,
    authorized: Set<Text>,
) -> Option<int>
    decreases links.len() - from,
{
    if from < 0 || from >= links.len() {
        None
    } else if authorized.contains(links[from].nd_username) {
        Some(from)
    } else {
        next_authorized(links, from + 1, authorized)
    }
}

/// What a token check comes to: the ListenBrainz username, and whether the pass ends behind this
/// link. An invalid token or a failed check only disables the ListenBrainz half, as CritiqueBrainz
/// needs no token at all; a rate limit also ends the pass.
pub open spec fn token_outcome(event: EventView) -> (Option<Text>, bool) {
    match event {
        EventView::Token(lb_username, _) => (lb_username, false),
        _ => (None, event.rate_limited()),
    }
}

/// Whether a token check exhausts the rate-limit window, so that no further calls may be made.
pub open spec fn token_exhausts(event: EventView) -> bool {
    match event {
        EventView::Token(_, exhausted) => exhausted,
        _ => event.exhausts_unread(),
    }
}

/// What is said of a token check.
pub open spec fn token_notes(event: EventView, nd_username: Text) -> Seq<NoteView> {
    match event {
        EventView::Token(lb_username, exhausted) => (if lb_username is None {
            seq![NoteView::InvalidToken { nd_username }]
        } else {
            Seq::empty()
        }) + protocol::window_notes(exhausted, nd_username),
        _ => protocol::window_notes(event.exhausts_unread(), nd_username),
    }
}

/// What is picked as the next assigned link stands at `from` or behind it, and is assigned.
pub proof fn next_authorized_is_assigned(
    links: Seq<UserLinkView>,
    from: int,
    authorized: Set<Text>,
)
    ensures
        next_authorized(links, from, authorized) matches Some(index) ==> 0 <= index && from <= index
            < links.len() && authorized.contains(links[index].nd_username),
    decreases links.len() - from,
{
    if 0 <= from < links.len() && !authorized.contains(links[from].nd_username) {
        next_authorized_is_assigned(links, from + 1, authorized);
    }
}

impl PassView {
    /// The link at work.
    pub open spec fn link(self) -> UserLinkView {
        self.settings.links[self.index]
    }

    /// The target of the ListenBrainz sync at work.
    pub open spec fn target(self, lb_username: Text) -> TargetView {
        TargetView { settings: self.settings, link: self.link(), lb_username }
    }

    /// What holds of every pass: the link at work is one that the plugin is assigned to.
    pub open spec fn wf(self) -> bool {
        &&& self.settings.batch_size > 0
        &&& !(self.phase is Finished) ==> 0 <= self.index < self.settings.links.len()
            && self.authorized.contains(self.link().nd_username)
        &&& match self.phase {
            PassPhaseView::Critique { critique: sync, .. } => sync.wf(self.settings),
            PassPhaseView::User { user: sync, .. } => sync.wf(),
            _ => true,
        }
    }

    /// The end of the pass.
    pub open spec fn finish(self) -> (PassView, OutputView) {
        (PassView { phase: PassPhaseView::Finished, ..self }, protocol::asking(None))
    }

    /// Goes on with the first assigned link from `from` on.
    pub open spec fn next_link(self, from: int) -> (PassView, OutputView) {
        match next_authorized(self.settings.links, from, self.authorized) {
            Some(index) => (
                PassView { index, phase: PassPhaseView::Token, ..self },
                protocol::asking(
                    Some(
                        ActionView::Fetch {
                            request: listenbrainz::token_check(
                                self.settings.links[index].token,
                                self.settings,
                            ),
                            reply: Reply::Token,
                        },
                    ),
                ),
            ),
            None => self.finish(),
        }
    }

    /// The end of the pass with the link at work, as no further calls may be made.
    pub open spec fn halt(self) -> (PassView, OutputView) {
        (
            PassView { phase: PassPhaseView::Finished, ..self },
            protocol::telling(
                seq![NoteView::PassStopped { nd_username: self.link().nd_username }],
                None,
            ),
        )
    }

    /// Leaves the link at work.
    pub open spec fn leave_link(self, stop: bool) -> (PassView, OutputView) {
        if stop {
            self.halt()
        } else {
            self.next_link(self.index + 1)
        }
    }

    /// Begins the ListenBrainz sync with what is left of the limit, where the username is known and
    /// the pass does not end with this link.
    pub open spec fn begin_user(self, lb_username: Option<Text>, stop: bool, budget: int) -> (
        PassView,
        OutputView,
    ) {
        match lb_username {
            Some(lb_username) if !stop => {
                let started = UserPhaseView::started(budget, self.target(lb_username));
                (
                    PassView {
                        phase: PassPhaseView::User { lb_username, user: started.0 },
                        ..self
                    },
                    started.1,
                )
            },
            _ => self.leave_link(stop),
        }
    }

    /// Goes on behind a step of the CritiqueBrainz sync: with the ListenBrainz sync and what the
    /// changes attempted leave of the limit, once it is finished. Where it halted, the pass ends.
    pub open spec fn take_critique(
        self,
        stepped: (CritiqueView, OutputView),
        lb_username: Option<Text>,
        stop: bool,
    ) -> (PassView, OutputView) {
        if stepped.0.phase is Finished {
            let next = if stepped.0.halted {
                self.halt()
            } else {
                self.begin_user(lb_username, stop, stepped.0.budget - stepped.0.changes)
            };
            (next.0, protocol::preceded(next.1, stepped.1.persist, stepped.1.notes))
        } else {
            (
                PassView {
                    phase: PassPhaseView::Critique {
                        resolved: lb_username,
                        stop,
                        critique: stepped.0,
                    },
                    ..self
                },
                stepped.1,
            )
        }
    }

    /// Takes the outcome of a token check. The ListenBrainz username doubles as the CritiqueBrainz
    /// identity when no separate one is configured. CritiqueBrainz is touched only where a rule is
    /// enabled. A check that exhausts the rate-limit window ends the pass at once.
    pub open spec fn take_token(self, event: EventView) -> (PassView, OutputView) {
        let (lb_username, stop) = token_outcome(event);
        let next = if token_exhausts(event) {
            self.halt()
        } else if self.settings.cb_rules.len() > 0 {
            self.take_critique(
                CritiqueView::started(
                    lb_username,
                    self.settings.max_per_run,
                    self.settings,
                    self.link(),
                ),
                lb_username,
                stop,
            )
        } else {
            self.begin_user(lb_username, stop, self.settings.max_per_run)
        };
        (
            next.0,
            protocol::preceded(
                next.1,
                Seq::empty(),
                token_notes(event, self.link().nd_username),
            ),
        )
    }

    /// Goes on behind a step of the ListenBrainz sync: with the next link, once it is finished.
    /// Where it halted, the pass ends.
    pub open spec fn take_user(self, stepped: (UserPhaseView, OutputView), lb_username: Text) -> (
        PassView,
        OutputView,
    ) {
        match stepped.0 {
            UserPhaseView::Finished { halted } => {
                let next = self.leave_link(halted);
                (next.0, protocol::preceded(next.1, stepped.1.persist, stepped.1.notes))
            },
            _ => (
                PassView {
                    phase: PassPhaseView::User { lb_username, user: stepped.0 },
                    ..self
                },
                stepped.1,
            ),
        }
    }

    /// The start of a pass.
    pub open spec fn started(settings: SettingsView, authorized: Set<Text>) -> (
        PassView,
        OutputView,
    ) {
        PassView { settings, authorized, index: 0, phase: PassPhaseView::Finished }.next_link(0)
    }

    /// One step: what an answer makes of the pass.
    pub open spec fn step(self, event: EventView) -> (PassView, OutputView) {
        match self.phase {
            PassPhaseView::Token => self.take_token(event),
            PassPhaseView::Critique { resolved, stop, critique: sync } => self.take_critique(
                sync.step(event, self.settings, self.link()),
                resolved,
                stop,
            ),
            PassPhaseView::User { lb_username, user: sync } => self.take_user(
                sync.step(event, self.target(lb_username)),
                lb_username,
            ),
            PassPhaseView::Finished => (self, protocol::asking(None)),
        }
    }
}

impl Pass {
    fn next_link(self, from: usize) -> (r: (Pass, Output))
        requires
            self@.settings.batch_size > 0,
        ensures
            (r.0@, r.1@) == self@.next_link(from as int),
            r.0@.wf(),
    {
        let ghost links = self@.settings.links;
        let mut index: usize = from;
        while index < self.settings.links.len()
            invariant
                from <= index,
                links == settings::link_views(self.settings.links@),
                self@.settings.batch_size > 0,
                self@.settings.links == links,
                next_authorized(links, from as int, self.authorized@) == next_authorized(
                    links,
                    index as int,
                    self.authorized@,
                ),
            decreases self.settings.links@.len() - index,
        {
            assert(links[index as int] == self.settings.links@[index as int]@);
            if self.authorized.contains(self.settings.links[index].nd_username.as_str()) {
                let request = listenbrainz::resolve_lb_username(
                    self.settings.links[index].token.as_str(),
                    &self.settings,
                );
                return (
                    Pass { index, phase: PassPhase::Token, ..self },
                    Output::ask(Some(Action::Fetch { request, reply: Reply::Token })),
                );
            }
            index += 1;
        }
        (Pass { phase: PassPhase::Finished, ..self }, Output::ask(None))
    }

    fn halt(self) -> (r: (Pass, Output))
        requires
            self@.settings.batch_size > 0,
            0 <= self@.index < self@.settings.links.len(),
        ensures
            (r.0@, r.1@) == self@.halt(),
            r.0@.wf(),
    {
        let nd_username = self.settings.links[self.index].nd_username.clone();
        (
            Pass { phase: PassPhase::Finished, ..self },
            Output::say(Note::PassStopped { nd_username }),
        )
    }

    fn leave_link(self, stop: bool) -> (r: (Pass, Output))
        requires
            self@.settings.batch_size > 0,
            0 <= self@.index < self@.settings.links.len(),
        ensures
            (r.0@, r.1@) == self@.leave_link(stop),
            r.0@.wf(),
    {
        if stop {
            self.halt()
        } else {
            assert(self.index < self.settings.links.len());
            let from: usize = self.index + 1;
            self.next_link(from)
        }
    }

    fn begin_user(self, lb_username: Option<String>, stop: bool, budget: i64) -> (r: (Pass, Output))
        requires
            self@.settings.batch_size > 0,
            0 <= self@.index < self@.settings.links.len(),
            self@.authorized.contains(self@.link().nd_username),
        ensures
            (r.0@, r.1@) == self@.begin_user(
                settings::opt_text(lb_username),
                stop,
                budget as int,
            ),
            r.0@.wf(),
    {
        if stop {
            return self.leave_link(true);
        }
        match lb_username {
            Some(lb_username) => {
                let (sync, output) = user::sync_user(
                    &self.settings,
                    &self.settings.links[self.index],
                    lb_username.as_str(),
                    budget,
                );
                (Pass { phase: PassPhase::User { lb_username, user: sync }, ..self }, output)
            },
            None => self.leave_link(false),
        }
    }

    fn take_critique(
        self,
        sync: Critique,
        output: Output,
        lb_username: Option<String>,
        stop: bool,
    ) -> (r: (Pass, Output))
        requires
            self@.settings.batch_size > 0,
            0 <= self@.index < self@.settings.links.len(),
            self@.authorized.contains(self@.link().nd_username),
            sync@.wf(self@.settings),
        ensures
            (r.0@, r.1@) == self@.take_critique(
                (sync@, output@),
                settings::opt_text(lb_username),
                stop,
            ),
            r.0@.wf(),
    {
        if !sync.is_finished() {
            return (
                Pass {
                    phase: PassPhase::Critique { resolved: lb_username, stop, critique: sync },
                    ..self
                },
                output,
            );
        }
        let (next, following) = if sync.is_halted() {
            self.halt()
        } else {
            let left: i64 = sync.left();
            self.begin_user(lb_username, stop, left)
        };
        (next, following.precede(output.persist, output.notes))
    }

    fn take_token(self, event: Event) -> (r: (Pass, Output))
        requires
            self@.settings.batch_size > 0,
            0 <= self@.index < self@.settings.links.len(),
            self@.authorized.contains(self@.link().nd_username),
        ensures
            (r.0@, r.1@) == self@.take_token(event@),
            r.0@.wf(),
    {
        let exhausted = match &event {
            Event::Token(_, exhausted) => *exhausted,
            _ => event.is_exhausting_unread(),
        };
        let ghost outcome = token_outcome(event@);
        let ghost nd_username = self@.link().nd_username;
        let mut notes: Vec<Note> = Vec::new();
        let (lb_username, stop) = match &event {
            Event::Token(reply, _) => {
                let lb_username = listenbrainz::lb_username(reply);
                if lb_username.is_none() {
                    let nd_username = self.settings.links[self.index].nd_username.clone();
                    notes.push(Note::InvalidToken { nd_username });
                }
                (lb_username, false)
            },
            _ => (None, event.is_rate_limited()),
        };
        protocol::note_window(
            &mut notes,
            exhausted,
            self.settings.links[self.index].nd_username.as_str(),
        );
        assert(settings::opt_text(lb_username) == outcome.0 && stop == outcome.1);
        assert(protocol::note_views(notes@) =~= token_notes(event@, nd_username));
        let (next, output) = if exhausted {
            self.halt()
        } else if self.settings.cb_rules.len() > 0 {
            let (sync, output) = Critique::start(
                &lb_username,
                &self.settings,
                &self.settings.links[self.index],
            );
            self.take_critique(sync, output, lb_username, stop)
        } else {
            let budget: i64 = self.settings.max_per_run;
            self.begin_user(lb_username, stop, budget)
        };
        let persist: Vec<String> = Vec::new();
        assert(text::texts(persist@) =~= Seq::<Text>::empty());
        (next, output.precede(persist, notes))
    }

    /// Starts a pass over every link whose user the plugin is assigned to.
    pub fn start(settings: Settings, authorized: TextSet) -> (r: (Pass, Output))
        requires
            settings@.batch_size > 0,
        ensures
            (r.0@, r.1@) == PassView::started(settings@, authorized@),
            r.0@.wf(),
    {
        Pass { settings, authorized, index: 0, phase: PassPhase::Finished }.next_link(0)
    }

    /// Takes an answer of the host and gives the next action. Without an action the pass is done.
    pub fn step(self, event: Event) -> (r: (Pass, Output))
        requires
            self@.wf(),
        ensures
            (r.0@, r.1@) == self@.step(event@),
            r.0@.wf(),
    {
        match self.phase {
            PassPhase::Token => Pass { phase: PassPhase::Finished, ..self }.take_token(event),
            PassPhase::Critique { resolved: lb_username, stop, critique: sync } => {
                let pass = Pass { phase: PassPhase::Finished, ..self };
                let (sync, output) = sync.step(
                    event,
                    &pass.settings,
                    &pass.settings.links[pass.index],
                );
                pass.take_critique(sync, output, lb_username, stop)
            },
            PassPhase::User { lb_username, user: sync } => {
                let pass = Pass { phase: PassPhase::Finished, ..self };
                let (sync, output) = sync.step(
                    event,
                    &Target {
                        settings: &pass.settings,
                        link: &pass.settings.links[pass.index],
                        lb_username: lb_username.as_str(),
                    },
                );
                if sync.is_finished() {
                    let (next, following) = pass.leave_link(sync.is_halted());
                    (next, following.precede(output.persist, output.notes))
                } else {
                    (Pass { phase: PassPhase::User { lb_username, user: sync }, ..pass }, output)
                }
            },
            PassPhase::Finished => (
                Pass { phase: PassPhase::Finished, ..self },
                Output::ask(None),
            ),
        }
    }

    /// Whether the pass is done.
    pub fn is_finished(&self) -> (r: bool)
        ensures
            r == (self@.phase is Finished),
    {
        match self.phase {
            PassPhase::Finished => true,
            _ => false,
        }
    }
}

} // verus!
