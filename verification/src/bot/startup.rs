//! What the bot does when it has connected: it registers the catalog with
//! the store, and then brings every guild it belongs to in line with the
//! catalog, one guild after the other.
//!
//! No guild is touched before the store knows every group: a member who
//! finds the channel of a group can subscribe to it. A registration that
//! fails ends the start-up; what a guild refuses does not.

use crate::bot::{
    reconcile_start, reconcile_step, reconciler_wf, reports_view, GroupReport, GroupReportView,
    GuildAction, GuildActionView, GuildEvent, GuildEventView, ReconcilePhase, Reconciler,
    ReconcilerView,
};
use crate::config::{catalog_names, MMGroup};
use crate::database::{
    registration_start, registration_step, registration_wf, Registration, RegistrationAction,
    RegistrationActionView, RegistrationPhase, RegistrationView,
};
use vstd::prelude::*;

verus! {

/// What the start-up is waiting for.
#[derive(Clone, Copy, Debug, PartialEq, Eq, Structural)]
pub enum StartupPhase {
    /// The store's answer for a group.
    Registering,
    /// A guild's answer.
    Reconciling,
    /// Nothing: every guild has been seen to.
    Done,
    /// Nothing: the registration failed.
    Failed,
}

/// What the caller heard.
#[derive(Debug, PartialEq, Eq)]
pub enum StartupEvent {
    /// The store's answer, or the words of the failure to reach it.
    Store(Result<i32, String>),
    /// What the guild answered.
    Guild(GuildEvent),
}

/// What the caller is to do next.
#[derive(Clone, Debug, PartialEq, Eq)]
pub enum StartupAction {
    /// Ask the store to add the group of this name.
    AddGroup { name: String },
    /// Ask this of the guild with this identity.
    Guild { guild: u64, ask: GuildAction },
    /// Give up; the message says why.
    Fail { message: String },
    /// Nothing more.
    Finished,
    /// Nothing: the event was not the one waited for.
    Nothing,
}

/// The start-up of the bot.
#[derive(Clone, Debug, PartialEq, Eq)]
pub struct Startup {
    pub phase: StartupPhase,
    /// The registration of the catalog with the store.
    pub registration: Registration,
    /// The identities of the guilds, in the order in which they are seen to.
    pub guilds: Vec<u64>,
    /// What became of the guilds that have been seen to, guild by guild in
    /// that order, and for each guild group by group.
    pub reports: Vec<Vec<GroupReport>>,
    /// The reconciliation of the guild that is being seen to.
    pub reconciler: Option<Reconciler>,
}

/// The mathematical content of a [`StartupEvent`].
pub enum StartupEventView {
    Store(Result<int, Seq<char>>),
    Guild(GuildEventView),
}

/// The mathematical content of a [`StartupAction`].
pub enum StartupActionView {
    AddGroup { name: Seq<char> },
    Guild { guild: u64, ask: GuildActionView },
    Fail { message: Seq<char> },
    Finished,
    Nothing,
}

/// The mathematical content of a [`Startup`].
pub struct StartupView {
    pub phase: StartupPhase,
    pub registration: RegistrationView,
    pub guilds: Seq<u64>,
    pub reports: Seq<Seq<GroupReportView>>,
    pub reconciler: Option<ReconcilerView>,
}

impl View for StartupEvent {
    type V = StartupEventView;

    open spec fn view(&self) -> StartupEventView {
        match self {
            StartupEvent::Store(Ok(code)) => StartupEventView::Store(Ok(*code as int)),
            StartupEvent::Store(Err(words)) => StartupEventView::Store(Err(words@)),
            StartupEvent::Guild(event) => StartupEventView::Guild(event@),
        }
    }
}

impl View for StartupAction {
    type V = StartupActionView;

    open spec fn view(&self) -> StartupActionView {
        match self {
            StartupAction::AddGroup { name } => StartupActionView::AddGroup { name: name@ },
            StartupAction::Guild { guild, ask } => StartupActionView::Guild {
                guild: *guild,
                ask: ask@,
            },
            StartupAction::Fail { message } => StartupActionView::Fail { message: message@ },
            StartupAction::Finished => StartupActionView::Finished,
            StartupAction::Nothing => StartupActionView::Nothing,
        }
    }
}

/// The reports on several guilds as their contents.
pub open spec fn guild_reports_view(reports: Seq<Vec<GroupReport>>) -> Seq<Seq<GroupReportView>> {
    Seq::new(reports.len(), |i: int| reports_view(reports[i]@))
}

impl View for Startup {
    type V = StartupView;

    open spec fn view(&self) -> StartupView {
        StartupView {
            phase: self.phase,
            registration: self.registration@,
            guilds: self.guilds@,
            reports: guild_reports_view(self.reports@),
            reconciler: match self.reconciler {
                Some(reconciler) => Some(reconciler@),
                None => None,
            },
        }
    }
}

/// A start-up that registers has a group to ask the store for; one that
/// reconciles has registered every group and is at work on one of its guilds,
/// with the groups that it registered.
pub open spec fn startup_wf(s: StartupView) -> bool {
    &&& registration_wf(s.registration)
    &&& s.phase == StartupPhase::Registering ==> s.registration.phase == RegistrationPhase::Asking
    &&& s.phase != StartupPhase::Reconciling ==> s.reconciler is None
    &&& s.phase == StartupPhase::Reconciling ==> {
        &&& s.registration.phase == RegistrationPhase::Done
        &&& s.reports.len() < s.guilds.len()
        &&& s.reconciler is Some
        &&& reconciler_wf(s.reconciler->0)
        &&& s.reconciler->0.phase != ReconcilePhase::Done
        &&& s.reconciler->0.names == s.registration.names
    }
}

/// The start-up turns to the guild after those that are reported on, or
/// ends: when there is no such guild, and when the catalog names no group.
pub open spec fn enter_guild(s: StartupView) -> (StartupView, StartupActionView) {
    if s.reports.len() < s.guilds.len() && s.registration.names.len() > 0 {
        let (reconciler, ask) = reconcile_start(s.registration.names);
        (
            StartupView { phase: StartupPhase::Reconciling, reconciler: Some(reconciler), ..s },
            StartupActionView::Guild { guild: s.guilds[s.reports.len() as int], ask },
        )
    } else {
        (
            StartupView { phase: StartupPhase::Done, reconciler: None, ..s },
            StartupActionView::Finished,
        )
    }
}

/// How the start-up goes on when the registration has taken a step.
pub open spec fn registration_moved(
    s: StartupView,
    moved: (RegistrationView, RegistrationActionView),
) -> (StartupView, StartupActionView) {
    let after = StartupView { registration: moved.0, ..s };
    match moved.1 {
        RegistrationActionView::AddGroup { name } => (
            StartupView { phase: StartupPhase::Registering, ..after },
            StartupActionView::AddGroup { name },
        ),
        RegistrationActionView::Finished => enter_guild(after),
        RegistrationActionView::Fail { message } => (
            StartupView { phase: StartupPhase::Failed, ..after },
            StartupActionView::Fail { message },
        ),
        RegistrationActionView::Nothing => (s, StartupActionView::Nothing),
    }
}

/// Where a start-up starts: with the registration of the first group.
pub open spec fn startup_start(names: Seq<Seq<char>>, guilds: Seq<u64>) -> (
    StartupView,
    StartupActionView,
) {
    registration_moved(
        StartupView {
            phase: StartupPhase::Registering,
            registration: registration_start(names).0,
            guilds,
            reports: Seq::empty(),
            reconciler: None,
        },
        registration_start(names),
    )
}

/// One step of a start-up: what it becomes, and asks for, when `event` comes
/// in. An event other than the one waited for changes nothing.
pub open spec fn startup_step(s: StartupView, event: StartupEventView) -> (
    StartupView,
    StartupActionView,
) {
    match (s.phase, event) {
        (StartupPhase::Registering, StartupEventView::Store(answer)) => registration_moved(
            s,
            registration_step(s.registration, answer),
        ),
        (StartupPhase::Reconciling, StartupEventView::Guild(heard)) => {
            let (reconciler, ask) = reconcile_step(s.reconciler->0, heard);
            match ask {
                GuildActionView::Finished => enter_guild(
                    StartupView {
                        reports: s.reports.push(reconciler.report),
                        reconciler: None,
                        ..s
                    },
                ),
                GuildActionView::Nothing => (s, StartupActionView::Nothing),
                _ => (
                    StartupView { reconciler: Some(reconciler), ..s },
                    StartupActionView::Guild { guild: s.guilds[s.reports.len() as int], ask },
                ),
            }
        },
        _ => (s, StartupActionView::Nothing),
    }
}

fn copy_names(names: &Vec<String>) -> (copy: Vec<String>)
    ensures
        copy.deep_view() == names.deep_view(),
{
    let mut copy: Vec<String> = Vec::new();
    let mut i: usize = 0;
    while i < names.len()
        invariant
            i <= names.len(),
            copy.deep_view() == names.deep_view().take(i as int),
        decreases names.len() - i,
    {
        let ghost before = copy.deep_view();
        copy.push(names[i].clone());
        assert(copy.deep_view() == before.push(names@[i as int]@));
        i += 1;
    }
    assert(names.deep_view().take(i as int) == names.deep_view());
    copy
}

impl Startup {
    fn enter_guild(self) -> (r: (Startup, StartupAction))
        requires
            self.reconciler is None,
            registration_wf(self.registration@),
            self.registration.phase == RegistrationPhase::Done,
        ensures
            (r.0@, r.1@) == enter_guild(self@),
            startup_wf(r.0@),
    {
        if self.reports.len() < self.guilds.len() && self.registration.names.len() > 0 {
            let guild = self.guilds[self.reports.len()];
            let (reconciler, ask) = Reconciler::over(copy_names(&self.registration.names));
            (
                Startup {
                    phase: StartupPhase::Reconciling,
                    registration: self.registration,
                    guilds: self.guilds,
                    reports: self.reports,
                    reconciler: Some(reconciler),
                },
                StartupAction::Guild { guild, ask },
            )
        } else {
            (
                Startup {
                    phase: StartupPhase::Done,
                    registration: self.registration,
                    guilds: self.guilds,
                    reports: self.reports,
                    reconciler: None,
                },
                StartupAction::Finished,
            )
        }
    }

    /// Goes on after the registration, which is already in its new state,
    /// has asked for `action`.
    fn registration_moved(self, action: RegistrationAction) -> (r: (Startup, StartupAction))
        requires
            self.reconciler is None,
            registration_wf(self.registration@),
            action@ is AddGroup ==> self.registration.phase == RegistrationPhase::Asking,
            action@ is Finished ==> self.registration.phase == RegistrationPhase::Done,
            action@ is Nothing ==> startup_wf(self@),
        ensures
            (r.0@, r.1@) == registration_moved(self@, (self@.registration, action@)),
            startup_wf(r.0@),
    {
        match action {
            RegistrationAction::AddGroup { name } => (
                Startup {
                    phase: StartupPhase::Registering,
                    registration: self.registration,
                    guilds: self.guilds,
                    reports: self.reports,
                    reconciler: None,
                },
                StartupAction::AddGroup { name },
            ),
            RegistrationAction::Finished => self.enter_guild(),
            RegistrationAction::Fail { message } => (
                Startup {
                    phase: StartupPhase::Failed,
                    registration: self.registration,
                    guilds: self.guilds,
                    reports: self.reports,
                    reconciler: None,
                },
                StartupAction::Fail { message },
            ),
            RegistrationAction::Nothing => (self, StartupAction::Nothing),
        }
    }

    /// Starts the start-up for `catalog` and the guilds of these identities.
    /// Says what to ask first.
    pub fn start(catalog: &Vec<MMGroup>, guilds: Vec<u64>) -> (r: (Startup, StartupAction))
        ensures
            (r.0@, r.1@) == startup_start(catalog_names(catalog@), guilds@),
            startup_wf(r.0@),
    {
        let (registration, action) = Registration::start(catalog);
        let reports: Vec<Vec<GroupReport>> = Vec::new();
        assert(guild_reports_view(reports@) == Seq::<Seq<GroupReportView>>::empty());
        let startup = Startup {
            phase: StartupPhase::Registering,
            registration,
            guilds,
            reports,
            reconciler: None,
        };
        startup.registration_moved(action)
    }

    /// Tells whether the start-up is in a state that it can go on from. Every
    /// start-up that `start` and `step` hand out is.
    pub fn well_formed(&self) -> (r: bool)
        ensures
            r == startup_wf(self@),
    {
        let registering = match self.phase {
            StartupPhase::Registering => true,
            _ => false,
        };
        let reconciling = match self.phase {
            StartupPhase::Reconciling => true,
            _ => false,
        };
        let asking = match self.registration.phase {
            RegistrationPhase::Asking => true,
            _ => false,
        };
        let registered = match self.registration.phase {
            RegistrationPhase::Done => true,
            _ => false,
        };
        let answered = self.registration.outcomes.len();
        let groups = self.registration.names.len();
        let registration = answered <= groups && (!asking || answered < groups) && (!registered
            || answered == groups);
        let phases = (!registering || asking) && (reconciling || self.reconciler.is_none());
        let work = if reconciling {
            registered && self.reports.len() < self.guilds.len() && match &self.reconciler {
                None => false,
                Some(reconciler) => {
                    let at_work = match reconciler.phase {
                        ReconcilePhase::Done => false,
                        _ => true,
                    };
                    reconciler.well_formed() && at_work && same_names(
                        &reconciler.names,
                        &self.registration.names,
                    )
                },
            }
        } else {
            true
        };
        registration && phases && work
    }

    /// Takes one step: given what the caller heard, says how the start-up
    /// goes on and what to do next.
    pub fn step(self, event: StartupEvent) -> (r: (Startup, StartupAction))
        requires
            startup_wf(self@),
        ensures
            (r.0@, r.1@) == startup_step(self@, event@),
            startup_wf(r.0@),
    {
        match (self.phase, event) {
            (StartupPhase::Registering, StartupEvent::Store(answer)) => {
                let (registration, action) = self.registration.step(answer);
                let startup = Startup {
                    phase: self.phase,
                    registration,
                    guilds: self.guilds,
                    reports: self.reports,
                    reconciler: None,
                };
                startup.registration_moved(action)
            },
            (StartupPhase::Reconciling, StartupEvent::Guild(heard)) => {
                let guild = self.guilds[self.reports.len()];
                let (reconciler, ask) = self.reconciler.unwrap().step(heard);
                match ask {
                    GuildAction::Finished => {
                        let ghost before = guild_reports_view(self.reports@);
                        let mut reports = self.reports;
                        let ghost added = reports_view(reconciler.report@);
                        reports.push(reconciler.report);
                        assert(guild_reports_view(reports@) == before.push(added));
                        let startup = Startup {
                            phase: self.phase,
                            registration: self.registration,
                            guilds: self.guilds,
                            reports,
                            reconciler: None,
                        };
                        startup.enter_guild()
                    },
                    GuildAction::Nothing => (
                        Startup {
                            phase: self.phase,
                            registration: self.registration,
                            guilds: self.guilds,
                            reports: self.reports,
                            reconciler: Some(reconciler),
                        },
                        StartupAction::Nothing,
                    ),
                    _ => (
                        Startup {
                            phase: self.phase,
                            registration: self.registration,
                            guilds: self.guilds,
                            reports: self.reports,
                            reconciler: Some(reconciler),
                        },
                        StartupAction::Guild { guild, ask },
                    ),
                }
            },
            _ => (self, StartupAction::Nothing),
        }
    }
}

fn same_names(a: &Vec<String>, b: &Vec<String>) -> (same: bool)
    ensures
        same == (a.deep_view() == b.deep_view()),
{
    if a.len() != b.len() {
        assert(a.deep_view().len() != b.deep_view().len());
        return false;
    }
    let mut i: usize = 0;
    while i < a.len()
        invariant
            i <= a.len() == b.len(),
            forall|j: int| 0 <= j < i ==> a.deep_view()[j] == b.deep_view()[j],
        decreases a.len() - i,
    {
        if a[i] != b[i] {
            assert(a.deep_view()[i as int] != b.deep_view()[i as int]);
            return false;
        }
        i += 1;
    }
    assert(a.deep_view() =~= b.deep_view());
    true
}

/// The store comes first: a guild is asked for something only when every
/// group of the catalog has been registered with the store, and once the
/// registration has failed no guild is asked for anything.
pub proof fn lemma_registration_comes_first(s: StartupView, event: StartupEventView)
    requires
        startup_wf(s),
    ensures
        startup_step(s, event).1 is Guild ==> {
            &&& startup_step(s, event).0.registration.phase == RegistrationPhase::Done
            &&& startup_step(s, event).0.registration.outcomes.len()
                == startup_step(s, event).0.registration.names.len()
        },
        s.phase == StartupPhase::Failed || s.phase == StartupPhase::Done ==> startup_step(
            s,
            event,
        ) == (s, StartupActionView::Nothing),
{
}

} // verus!
