//! Reconciling one user's loves and stars.

use vstd::prelude::*;
use crate::inbound::{Inbound, InboundView, Target, TargetView};
use crate::outbound::{Outbound, OutboundView};
use crate::protocol;
use crate::protocol::{Action, ActionView, Event, EventView, Output, OutputView};
use crate::settings::{Settings, UserLink};
use crate::settled;
use crate::settled::TextSet;
use crate::text::Text;

verus! {

/// Where the ListenBrainz sync of one user stands.
pub enum UserPhase {
    /// The settled recordings are asked for.
    Keys { budget: i64 },
    /// Loves are being starred.
    Inbound { inbound: Inbound },
    /// Stars are being loved.
    Outbound { outbound: Outbound },
    /// Nothing is left to do. Where it halted, no further calls may be made in this pass.
    Finished { halted: bool },
}

/// What a phase says.
pub enum UserPhaseView {
    Keys { budget: int },
    Inbound { inbound: InboundView },
    Outbound { outbound: OutboundView },
    Finished { halted: bool },
}

/// The ListenBrainz sync of one user.
pub struct UserSync {
    phase: UserPhase,
}

impl View for UserSync {
    type V = UserPhaseView;

    closed spec fn view(&self) -> UserPhaseView {
        match self.phase {
            UserPhase::Keys { budget } => UserPhaseView::Keys { budget: budget as int },
            UserPhase::Inbound { inbound: sync } => UserPhaseView::Inbound { inbound: sync@ },
            UserPhase::Outbound { outbound: sync } => UserPhaseView::Outbound { outbound: sync@ },
            UserPhase::Finished { halted } => UserPhaseView::Finished { halted },
        }
    }
}

impl UserPhaseView {
    /// What holds of every ListenBrainz sync: the half at work is well formed.
    pub open spec fn wf(self) -> bool {
        match self {
            UserPhaseView::Inbound { inbound: sync } => sync.wf(),
            UserPhaseView::Outbound { outbound: sync } => sync.wf(),
            _ => true,
        }
    }

    /// The start of a ListenBrainz sync.
    pub open spec fn started(budget: int, target: TargetView) -> (UserPhaseView, OutputView) {
        (
            UserPhaseView::Keys { budget },
            protocol::asking(
                Some(
                    ActionView::ListKeys {
                        prefix: settled::synced_prefix(target.link.nd_username),
                    },
                ),
            ),
        )
    }

    /// Begins the outbound half, where it is on and budget is left.
    pub open spec fn begin_outbound(settled: Set<Text>, budget: int, target: TargetView) -> (
        UserPhaseView,
        OutputView,
    ) {
        if target.settings.sync_outbound && budget > 0 {
            let started = OutboundView::started(settled, budget, target);
            (UserPhaseView::Outbound { outbound: started.0 }, started.1)
        } else {
            (UserPhaseView::Finished { halted: false }, protocol::asking(None))
        }
    }

    /// Begins the inbound half, where it is on and there is a budget; else the outbound half.
    pub open spec fn begin_inbound(settled: Set<Text>, budget: int, target: TargetView) -> (
        UserPhaseView,
        OutputView,
    ) {
        if target.settings.sync_inbound && budget > 0 {
            let started = InboundView::started(settled, budget, target);
            (UserPhaseView::Inbound { inbound: started.0 }, started.1)
        } else {
            Self::begin_outbound(settled, budget, target)
        }
    }

    /// Goes on behind a step of the inbound half: with the outbound half and what is left of the
    /// budget, once it is finished. Where it halted, no love is sent in this pass.
    pub open spec fn take_inbound(stepped: (InboundView, OutputView), target: TargetView) -> (
        UserPhaseView,
        OutputView,
    ) {
        if !(stepped.0.phase is Finished) {
            (UserPhaseView::Inbound { inbound: stepped.0 }, stepped.1)
        } else if stepped.0.halted {
            (UserPhaseView::Finished { halted: true }, stepped.1)
        } else {
            let next = Self::begin_outbound(
                stepped.0.settled,
                stepped.0.budget - stepped.0.applied,
                target,
            );
            (next.0, protocol::preceded(next.1, stepped.1.persist, stepped.1.notes))
        }
    }

    /// Goes on behind a step of the outbound half.
    pub open spec fn take_outbound(stepped: (OutboundView, OutputView)) -> (
        UserPhaseView,
        OutputView,
    ) {
        if stepped.0.phase is Finished {
            (UserPhaseView::Finished { halted: stepped.0.halted }, stepped.1)
        } else {
            (UserPhaseView::Outbound { outbound: stepped.0 }, stepped.1)
        }
    }

    /// One step: what an answer makes of the sync.
    pub open spec fn step(self, event: EventView, target: TargetView) -> (
        UserPhaseView,
        OutputView,
    ) {
        match self {
            UserPhaseView::Keys { budget } => Self::begin_inbound(
                match event {
                    EventView::Keys(keys) => settled::recorded(
                        keys,
                        settled::synced_prefix(target.link.nd_username),
                    ),
                    _ => Set::empty(),
                },
                budget,
                target,
            ),
            UserPhaseView::Inbound { inbound: sync } => Self::take_inbound(
                sync.step(event, target),
                target,
            ),
            UserPhaseView::Outbound { outbound: sync } => Self::take_outbound(
                sync.step(event, target),
            ),
            UserPhaseView::Finished { .. } => (self, protocol::asking(None)),
        }
    }
}

/// Starts reconciling one user's loves and stars. The budget is what the changes already made for
/// the user in this pass leave of the limit.
pub fn sync_user(settings: &Settings, link: &UserLink, lb_username: &str, budget: i64) -> (r: (
    UserSync,
    Output,
))
    ensures
        (r.0@, r.1@) == UserPhaseView::started(
            budget as int,
            (TargetView { settings: settings@, link: link@, lb_username: lb_username@ }),
        ),
{
    let prefix = settled::settled_prefix(link.nd_username.as_str());
    (UserSync { phase: UserPhase::Keys { budget } }, Output::ask(Some(Action::ListKeys { prefix })))
}

impl UserSync {
    fn begin_outbound(settled: TextSet, budget: i64, target: &Target) -> (r: (UserSync, Output))
        ensures
            (r.0@, r.1@) == UserPhaseView::begin_outbound(settled@, budget as int, target@),
            r.0@.wf(),
    {
        if target.settings.sync_outbound && budget > 0 {
            let (sync, output) = Outbound::start(settled, budget, target);
            (UserSync { phase: UserPhase::Outbound { outbound: sync } }, output)
        } else {
            (UserSync { phase: UserPhase::Finished { halted: false } }, Output::ask(None))
        }
    }

    fn begin_inbound(settled: TextSet, budget: i64, target: &Target) -> (r: (UserSync, Output))
        ensures
            (r.0@, r.1@) == UserPhaseView::begin_inbound(settled@, budget as int, target@),
            r.0@.wf(),
    {
        if target.settings.sync_inbound && budget > 0 {
            let (sync, output) = Inbound::start(settled, budget, target);
            (UserSync { phase: UserPhase::Inbound { inbound: sync } }, output)
        } else {
            UserSync::begin_outbound(settled, budget, target)
        }
    }

    /// Takes an answer of the host and gives the next action.
    pub fn step(self, event: Event, target: &Target) -> (r: (UserSync, Output))
        requires
            self@.wf(),
            target@.settings.batch_size > 0,
        ensures
            (r.0@, r.1@) == self@.step(event@, target@),
            r.0@.wf(),
    {
        match self.phase {
            UserPhase::Keys { budget } => {
                let settled = match event {
                    Event::Keys(keys) => {
                        let prefix = settled::settled_prefix(target.link.nd_username.as_str());
                        settled::load_settled(&keys, prefix.as_str())
                    },
                    _ => TextSet::new(),
                };
                UserSync::begin_inbound(settled, budget, target)
            },
            UserPhase::Inbound { inbound: sync } => {
                let (sync, output) = sync.step(event, target);
                if !sync.is_finished() {
                    return (UserSync { phase: UserPhase::Inbound { inbound: sync } }, output);
                }
                if sync.is_halted() {
                    return (UserSync { phase: UserPhase::Finished { halted: true } }, output);
                }
                let (settled, left) = sync.into_result();
                let (next, following) = UserSync::begin_outbound(settled, left, target);
                (next, following.precede(output.persist, output.notes))
            },
            UserPhase::Outbound { outbound: sync } => {
                let (sync, output) = sync.step(event, target);
                if sync.is_finished() {
                    let halted = sync.is_halted();
                    (UserSync { phase: UserPhase::Finished { halted } }, output)
                } else {
                    (UserSync { phase: UserPhase::Outbound { outbound: sync } }, output)
                }
            },
            UserPhase::Finished { halted } => (
                UserSync { phase: UserPhase::Finished { halted } },
                Output::ask(None),
            ),
        }
    }

    /// Whether the sync has nothing left to do.
    pub fn is_finished(&self) -> (r: bool)
        ensures
            r == (self@ is Finished),
    {
        match self.phase {
            UserPhase::Finished { .. } => true,
            _ => false,
        }
    }

    /// Whether no further calls may be made in this pass.
    pub fn is_halted(&self) -> (r: bool)
        ensures
            r == (self@ == UserPhaseView::Finished { halted: true }),
    {
        match self.phase {
            UserPhase::Finished { halted } => halted,
            _ => false,
        }
    }
}

} // verus!
