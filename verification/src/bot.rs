//! The bot: what it decides between one call to the chat platform or the
//! store and the next.
//!
//! When the bot has connected, every guild it belongs to is brought in line
//! with the catalog: each matchmaking group gets a text channel and a role of
//! its name, unless the guild has them already. A [`Reconciler`] takes one
//! guild through this. Like a command it does no talking of its own: it says
//! what to ask of the guild, and is told what came of it. It reads the guild's
//! channels and roles afresh for every group, creates only what it did not
//! find, and carries on when the guild refuses something, noting the refusal
//! in its report.

pub mod commands;
pub mod config;
pub mod startup;

use crate::config::{catalog_names, group_names, MMGroup};
use vstd::prelude::*;

verus! {

/// A channel of a guild: its name, and whether it is a text channel.
#[derive(Clone, Debug, PartialEq, Eq)]
pub struct Channel {
    pub name: String,
    pub is_text: bool,
}

/// What became of one resource of a group.
#[derive(Clone, Debug, PartialEq, Eq)]
pub enum Finding {
    /// The guild had it.
    AlreadyPresent,
    /// The guild did not have it, and it was created.
    Created,
    /// The guild could not be read, or refused to create it; its words.
    Failed(String),
}

/// What became of the channel and the role of one group.
#[derive(Clone, Debug, PartialEq, Eq)]
pub struct GroupReport {
    pub group: String,
    pub channel: Finding,
    pub role: Finding,
}

/// What a reconciler is waiting for.
#[derive(Clone, Copy, Debug, PartialEq, Eq, Structural)]
pub enum ReconcilePhase {
    /// The guild's channels.
    Channels,
    /// The creation of the group's channel.
    NewChannel,
    /// The guild's roles.
    Roles,
    /// The creation of the group's role.
    NewRole,
    /// Nothing: every group has been seen to.
    Done,
}

/// What the caller heard from the guild.
#[derive(Debug, PartialEq, Eq)]
pub enum GuildEvent {
    /// The guild's channels, or the words of the failure to list them.
    Channels(Result<Vec<Channel>, String>),
    /// The names of the guild's roles, or the words of the failure to list
    /// them.
    Roles(Result<Vec<String>, String>),
    /// Whether what was to be created now exists, and the guild's words if
    /// not.
    Created(Result<(), String>),
}

/// What the caller is to ask of the guild.
#[derive(Clone, Debug, PartialEq, Eq)]
pub enum GuildAction {
    /// List the channels.
    ListChannels,
    /// Create a text channel of this name.
    CreateChannel { name: String },
    /// List the roles.
    ListRoles,
    /// Create a role of this name; `hoist` says whether its members are to be
    /// shown apart from the others.
    CreateRole { name: String, hoist: bool },
    /// Nothing more: the report is complete.
    Finished,
    /// Nothing: the event was not the one waited for.
    Nothing,
}

/// The reconciliation of one guild with the catalog.
#[derive(Clone, Debug, PartialEq, Eq)]
pub struct Reconciler {
    /// The names of the groups, in catalog order.
    pub names: Vec<String>,
    /// The position of the group that is being seen to.
    pub next: usize,
    pub phase: ReconcilePhase,
    /// What became of the channel of that group, once that is known.
    pub channel: Option<Finding>,
    /// What became of the groups before it.
    pub report: Vec<GroupReport>,
}

/// The mathematical content of a [`Finding`].
pub enum FindingView {
    AlreadyPresent,
    Created,
    Failed(Seq<char>),
}

/// The mathematical content of a [`GroupReport`].
pub struct GroupReportView {
    pub group: Seq<char>,
    pub channel: FindingView,
    pub role: FindingView,
}

/// The mathematical content of a [`GuildEvent`]. A channel is its name and
/// whether it is a text channel.
pub enum GuildEventView {
    Channels(Result<Seq<(Seq<char>, bool)>, Seq<char>>),
    Roles(Result<Seq<Seq<char>>, Seq<char>>),
    Created(Result<(), Seq<char>>),
}

/// The mathematical content of a [`GuildAction`].
pub enum GuildActionView {
    ListChannels,
    CreateChannel { name: Seq<char> },
    ListRoles,
    CreateRole { name: Seq<char>, hoist: bool },
    Finished,
    Nothing,
}

/// The mathematical content of a [`Reconciler`].
pub struct ReconcilerView {
    pub names: Seq<Seq<char>>,
    pub next: nat,
    pub phase: ReconcilePhase,
    pub channel: Option<FindingView>,
    pub report: Seq<GroupReportView>,
}

impl View for Finding {
    type V = FindingView;

    open spec fn view(&self) -> FindingView {
        match self {
            Finding::AlreadyPresent => FindingView::AlreadyPresent,
            Finding::Created => FindingView::Created,
            Finding::Failed(words) => FindingView::Failed(words@),
        }
    }
}

impl View for GroupReport {
    type V = GroupReportView;

    open spec fn view(&self) -> GroupReportView {
        GroupReportView { group: self.group@, channel: self.channel@, role: self.role@ }
    }
}

/// Channels as names and kinds.
pub open spec fn channels_view(channels: Seq<Channel>) -> Seq<(Seq<char>, bool)> {
    Seq::new(channels.len(), |i: int| (channels[i].name@, channels[i].is_text))
}

/// Reports as their contents.
pub open spec fn reports_view(reports: Seq<GroupReport>) -> Seq<GroupReportView> {
    Seq::new(reports.len(), |i: int| reports[i]@)
}

impl View for GuildEvent {
    type V = GuildEventView;

    open spec fn view(&self) -> GuildEventView {
        match self {
            GuildEvent::Channels(Ok(channels)) => GuildEventView::Channels(
                Ok(channels_view(channels@)),
            ),
            GuildEvent::Channels(Err(words)) => GuildEventView::Channels(Err(words@)),
            GuildEvent::Roles(Ok(roles)) => GuildEventView::Roles(Ok(roles.deep_view())),
            GuildEvent::Roles(Err(words)) => GuildEventView::Roles(Err(words@)),
            GuildEvent::Created(Ok(_)) => GuildEventView::Created(Ok(())),
            GuildEvent::Created(Err(words)) => GuildEventView::Created(Err(words@)),
        }
    }
}

impl View for GuildAction {
    type V = GuildActionView;

    open spec fn view(&self) -> GuildActionView {
        match self {
            GuildAction::ListChannels => GuildActionView::ListChannels,
            GuildAction::CreateChannel { name } => GuildActionView::CreateChannel { name: name@ },
            GuildAction::ListRoles => GuildActionView::ListRoles,
            GuildAction::CreateRole { name, hoist } => GuildActionView::CreateRole {
                name: name@,
                hoist: *hoist,
            },
            GuildAction::Finished => GuildActionView::Finished,
            GuildAction::Nothing => GuildActionView::Nothing,
        }
    }
}

impl View for Reconciler {
    type V = ReconcilerView;

    open spec fn view(&self) -> ReconcilerView {
        ReconcilerView {
            names: self.names.deep_view(),
            next: self.next as nat,
            phase: self.phase,
            channel: match self.channel {
                Some(finding) => Some(finding@),
                None => None,
            },
            report: reports_view(self.report@),
        }
    }
}

/// Among `channels` there is a text channel called `name`.
pub open spec fn has_text_channel(channels: Seq<(Seq<char>, bool)>, name: Seq<char>) -> bool {
    exists|i: int| 0 <= i < channels.len() && (#[trigger] channels[i]).1 && channels[i].0 == name
}

/// Among `roles` there is one called `name`.
pub open spec fn has_role(roles: Seq<Seq<char>>, name: Seq<char>) -> bool {
    exists|i: int| 0 <= i < roles.len() && #[trigger] roles[i] == name
}

/// A reconciler that is at work is at work on one of its groups, and knows
/// what became of the group's channel when it turns to the role.
pub open spec fn reconciler_wf(s: ReconcilerView) -> bool {
    &&& s.phase != ReconcilePhase::Done ==> s.next < s.names.len()
    &&& s.phase == ReconcilePhase::Roles || s.phase == ReconcilePhase::NewRole
        ==> s.channel is Some
}

/// Where a reconciler starts: with the channels for its first group, or at
/// the end if the catalog names none.
pub open spec fn reconcile_start(names: Seq<Seq<char>>) -> (ReconcilerView, GuildActionView) {
    let s = ReconcilerView {
        names,
        next: 0,
        phase: ReconcilePhase::Channels,
        channel: None,
        report: Seq::empty(),
    };
    if names.len() == 0 {
        (ReconcilerView { phase: ReconcilePhase::Done, ..s }, GuildActionView::Finished)
    } else {
        (s, GuildActionView::ListChannels)
    }
}

/// With the channel of the group seen to, its role is next.
pub open spec fn channel_settled(s: ReconcilerView, finding: FindingView) -> (
    ReconcilerView,
    GuildActionView,
) {
    (
        ReconcilerView { phase: ReconcilePhase::Roles, channel: Some(finding), ..s },
        GuildActionView::ListRoles,
    )
}

/// With the role of the group seen to, the group is reported and the next
/// group begins, or the work ends.
pub open spec fn role_settled(s: ReconcilerView, finding: FindingView) -> (
    ReconcilerView,
    GuildActionView,
) {
    let report = s.report.push(
        GroupReportView { group: s.names[s.next as int], channel: s.channel->0, role: finding },
    );
    let after = ReconcilerView { next: s.next + 1, channel: None, report, ..s };
    if s.next + 1 < s.names.len() {
        (
            ReconcilerView { phase: ReconcilePhase::Channels, ..after },
            GuildActionView::ListChannels,
        )
    } else {
        (ReconcilerView { phase: ReconcilePhase::Done, ..after }, GuildActionView::Finished)
    }
}

/// What a finding a creation ends in.
pub open spec fn creation(created: Result<(), Seq<char>>) -> FindingView {
    match created {
        Ok(_) => FindingView::Created,
        Err(words) => FindingView::Failed(words),
    }
}

/// One step of a reconciler: what it becomes, and asks for, when `event`
/// comes in.
///
/// A text channel is created only after a list of channels that holds no text
/// channel of the group's name, a role only after a list of roles that holds
/// none of that name, and the role is always hoisted. A list that cannot be
/// had, or a creation that is refused, is noted and the work goes on. An event
/// other than the one waited for changes nothing.
pub open spec fn reconcile_step(s: ReconcilerView, event: GuildEventView) -> (
    ReconcilerView,
    GuildActionView,
) {
    let name = s.names[s.next as int];
    match (s.phase, event) {
        (ReconcilePhase::Channels, GuildEventView::Channels(Ok(channels))) => if has_text_channel(
            channels,
            name,
        ) {
            channel_settled(s, FindingView::AlreadyPresent)
        } else {
            (
                ReconcilerView { phase: ReconcilePhase::NewChannel, ..s },
                GuildActionView::CreateChannel { name },
            )
        },
        (ReconcilePhase::Channels, GuildEventView::Channels(Err(words))) => channel_settled(
            s,
            FindingView::Failed(words),
        ),
        (ReconcilePhase::NewChannel, GuildEventView::Created(created)) => channel_settled(
            s,
            creation(created),
        ),
        (ReconcilePhase::Roles, GuildEventView::Roles(Ok(roles))) => if has_role(roles, name) {
            role_settled(s, FindingView::AlreadyPresent)
        } else {
            (
                ReconcilerView { phase: ReconcilePhase::NewRole, ..s },
                GuildActionView::CreateRole { name, hoist: true },
            )
        },
        (ReconcilePhase::Roles, GuildEventView::Roles(Err(words))) => role_settled(
            s,
            FindingView::Failed(words),
        ),
        (ReconcilePhase::NewRole, GuildEventView::Created(created)) => role_settled(
            s,
            creation(created),
        ),
        _ => (s, GuildActionView::Nothing),
    }
}

/// Looks for a text channel called `name`.
fn find_text_channel(channels: &Vec<Channel>, name: &String) -> (found: bool)
    ensures
        found == has_text_channel(channels_view(channels@), name@),
{
    let ghost all = channels_view(channels@);
    let mut i: usize = 0;
    while i < channels.len()
        invariant
            i <= channels.len(),
            all == channels_view(channels@),
            forall|j: int| 0 <= j < i ==> !((#[trigger] all[j]).1 && all[j].0 == name@),
        decreases channels.len() - i,
    {
        if channels[i].is_text && channels[i].name == *name {
            assert(all[i as int].1 && all[i as int].0 == name@);
            return true;
        }
        i += 1;
    }
    false
}

/// Looks for a role called `name`.
fn find_role(roles: &Vec<String>, name: &String) -> (found: bool)
    ensures
        found == has_role(roles.deep_view(), name@),
{
    let ghost all = roles.deep_view();
    let mut i: usize = 0;
    while i < roles.len()
        invariant
            i <= roles.len(),
            all == roles.deep_view(),
            forall|j: int| 0 <= j < i ==> #[trigger] all[j] != name@,
        decreases roles.len() - i,
    {
        if roles[i] == *name {
            assert(all[i as int] == name@);
            return true;
        }
        i += 1;
    }
    false
}

fn creation_of(created: Result<(), String>) -> (finding: Finding)
    ensures
        finding@ == creation(
            match created {
                Ok(_) => Ok(()),
                Err(words) => Err(words@),
            },
        ),
{
    match created {
        Ok(_) => Finding::Created,
        Err(words) => Finding::Failed(words),
    }
}

impl Reconciler {
    /// Starts the reconciliation of a guild with `catalog`. Says what to ask
    /// first.
    pub fn start(catalog: &Vec<MMGroup>) -> (r: (Reconciler, GuildAction))
        ensures
            (r.0@, r.1@) == reconcile_start(catalog_names(catalog@)),
            reconciler_wf(r.0@),
    {
        Reconciler::over(group_names(catalog))
    }

    /// Starts the reconciliation of a guild with the groups called `names`.
    /// Says what to ask first.
    pub fn over(names: Vec<String>) -> (r: (Reconciler, GuildAction))
        ensures
            (r.0@, r.1@) == reconcile_start(names.deep_view()),
            reconciler_wf(r.0@),
    {
        let report: Vec<GroupReport> = Vec::new();
        assert(reports_view(report@) == Seq::<GroupReportView>::empty());
        if names.len() == 0 {
            (
                Reconciler {
                    names,
                    next: 0,
                    phase: ReconcilePhase::Done,
                    channel: None,
                    report,
                },
                GuildAction::Finished,
            )
        } else {
            (
                Reconciler {
                    names,
                    next: 0,
                    phase: ReconcilePhase::Channels,
                    channel: None,
                    report,
                },
                GuildAction::ListChannels,
            )
        }
    }

    fn settle_channel(self, finding: Finding) -> (r: (Reconciler, GuildAction))
        ensures
            (r.0@, r.1@) == channel_settled(self@, finding@),
    {
        (
            Reconciler {
                names: self.names,
                next: self.next,
                phase: ReconcilePhase::Roles,
                channel: Some(finding),
                report: self.report,
            },
            GuildAction::ListRoles,
        )
    }

    fn settle_role(self, finding: Finding) -> (r: (Reconciler, GuildAction))
        requires
            self.next < self.names.len(),
            self.channel is Some,
        ensures
            (r.0@, r.1@) == role_settled(self@, finding@),
    {
        let ghost before = reports_view(self.report@);
        let mut report = self.report;
        let entry = GroupReport {
            group: self.names[self.next].clone(),
            channel: self.channel.unwrap(),
            role: finding,
        };
        let ghost added = entry@;
        report.push(entry);
        assert(reports_view(report@) == before.push(added));
        assert(self.names.deep_view()[self.next as int] == self.names@[self.next as int]@);
        if self.next + 1 < self.names.len() {
            (
                Reconciler {
                    names: self.names,
                    next: self.next + 1,
                    phase: ReconcilePhase::Channels,
                    channel: None,
                    report,
                },
                GuildAction::ListChannels,
            )
        } else {
            (
                Reconciler {
                    names: self.names,
                    next: self.next + 1,
                    phase: ReconcilePhase::Done,
                    channel: None,
                    report,
                },
                GuildAction::Finished,
            )
        }
    }

    /// Tells whether the reconciler is in a state that it can go on from.
    /// Every reconciler that `start` and `step` hand out is.
    pub fn well_formed(&self) -> (r: bool)
        ensures
            r == reconciler_wf(self@),
    {
        let at_work = match self.phase {
            ReconcilePhase::Done => false,
            _ => true,
        };
        let at_role = match self.phase {
            ReconcilePhase::Roles => true,
            ReconcilePhase::NewRole => true,
            _ => false,
        };
        (!at_work || self.next < self.names.len()) && (!at_role || self.channel.is_some())
    }

    /// Takes one step: given what the caller heard from the guild, says how
    /// the reconciliation goes on and what to ask next.
    pub fn step(self, event: GuildEvent) -> (r: (Reconciler, GuildAction))
        requires
            reconciler_wf(self@),
        ensures
            (r.0@, r.1@) == reconcile_step(self@, event@),
            reconciler_wf(r.0@),
    {
        match (self.phase, event) {
            (ReconcilePhase::Channels, GuildEvent::Channels(Ok(channels))) => {
                if find_text_channel(&channels, &self.names[self.next]) {
                    self.settle_channel(Finding::AlreadyPresent)
                } else {
                    let name = self.names[self.next].clone();
                    (
                        Reconciler {
                            names: self.names,
                            next: self.next,
                            phase: ReconcilePhase::NewChannel,
                            channel: self.channel,
                            report: self.report,
                        },
                        GuildAction::CreateChannel { name },
                    )
                }
            },
            (ReconcilePhase::Channels, GuildEvent::Channels(Err(words))) => self.settle_channel(
                Finding::Failed(words),
            ),
            (ReconcilePhase::NewChannel, GuildEvent::Created(created)) => {
                let finding = creation_of(created);
                self.settle_channel(finding)
            },
            (ReconcilePhase::Roles, GuildEvent::Roles(Ok(roles))) => {
                if find_role(&roles, &self.names[self.next]) {
                    self.settle_role(Finding::AlreadyPresent)
                } else {
                    let name = self.names[self.next].clone();
                    (
                        Reconciler {
                            names: self.names,
                            next: self.next,
                            phase: ReconcilePhase::NewRole,
                            channel: self.channel,
                            report: self.report,
                        },
                        GuildAction::CreateRole { name, hoist: true },
                    )
                }
            },
            (ReconcilePhase::Roles, GuildEvent::Roles(Err(words))) => self.settle_role(
                Finding::Failed(words),
            ),
            (ReconcilePhase::NewRole, GuildEvent::Created(created)) => {
                let finding = creation_of(created);
                self.settle_role(finding)
            },
            _ => (self, GuildAction::Nothing),
        }
    }
}

/// Only what was looked for and not found is created: a creation is asked
/// for in answer to a list of the guild, never from memory; the list holds no
/// text channel, or no role, of the name of the group at hand; what is asked
/// for carries exactly that name; and a role is to be hoisted.
pub proof fn lemma_creates_only_what_is_missing(s: ReconcilerView, event: GuildEventView)
    ensures
        reconcile_step(s, event).1 is CreateChannel ==> {
            &&& s.phase == ReconcilePhase::Channels
            &&& event matches GuildEventView::Channels(Ok(channels))
            &&& !has_text_channel(channels, s.names[s.next as int])
            &&& reconcile_step(s, event).1->CreateChannel_name == s.names[s.next as int]
        },
        reconcile_step(s, event).1 is CreateRole ==> {
            &&& s.phase == ReconcilePhase::Roles
            &&& event matches GuildEventView::Roles(Ok(roles))
            &&& !has_role(roles, s.names[s.next as int])
            &&& reconcile_step(s, event).1->CreateRole_name == s.names[s.next as int]
            &&& reconcile_step(s, event).1->CreateRole_hoist
        },
{
}

/// What a reconciler reads of a guild: its channels, each with its name and
/// whether it is a text channel, and the names of its roles.
pub struct GuildView {
    pub channels: Seq<(Seq<char>, bool)>,
    pub roles: Seq<Seq<char>>,
}

/// The guild has a text channel and a role called `name`.
pub open spec fn covers(guild: GuildView, name: Seq<char>) -> bool {
    has_text_channel(guild.channels, name) && has_role(guild.roles, name)
}

/// The guild has a text channel and a role for every name from position
/// `from` on.
pub open spec fn covers_from(guild: GuildView, names: Seq<Seq<char>>, from: int) -> bool {
    forall|i: int| from <= i < names.len() ==> covers(guild, #[trigger] names[i])
}

/// How a guild that nobody else touches, and that refuses nothing, answers:
/// it lists what it has, and has what it was asked to create. To the end of
/// the work it has no answer.
pub open spec fn answer(guild: GuildView, action: GuildActionView) -> (
    GuildView,
    Option<GuildEventView>,
) {
    match action {
        GuildActionView::ListChannels => (
            guild,
            Some(GuildEventView::Channels(Ok(guild.channels))),
        ),
        GuildActionView::CreateChannel { name } => (
            GuildView { channels: guild.channels.push((name, true)), ..guild },
            Some(GuildEventView::Created(Ok(()))),
        ),
        GuildActionView::ListRoles => (guild, Some(GuildEventView::Roles(Ok(guild.roles)))),
        GuildActionView::CreateRole { name, hoist } => (
            GuildView { roles: guild.roles.push(name), ..guild },
            Some(GuildEventView::Created(Ok(()))),
        ),
        GuildActionView::Finished => (guild, None),
        GuildActionView::Nothing => (guild, None),
    }
}

/// A bound on the steps that a reconciler still has to take.
pub open spec fn work_left(s: ReconcilerView) -> nat {
    if s.phase == ReconcilePhase::Done || s.next >= s.names.len() {
        0
    } else {
        let spent: nat = match s.phase {
            ReconcilePhase::Channels => 0,
            ReconcilePhase::NewChannel => 1,
            ReconcilePhase::Roles => 2,
            _ => 3,
        };
        (4 * (s.names.len() - s.next) - spent) as nat
    }
}

/// What a pass over a guild comes to.
pub struct Pass {
    /// The reconciler at the end.
    pub end: ReconcilerView,
    /// The guild at the end.
    pub guild: GuildView,
    /// How many creations were asked for.
    pub creations: nat,
}

/// The pass that a reconciler in state `s`, having just asked for `action`,
/// makes over `guild`, when the guild answers as `answer` says.
pub open spec fn pass(s: ReconcilerView, action: GuildActionView, guild: GuildView) -> Pass
    decreases work_left(s),
{
    let asked: nat = if action is CreateChannel || action is CreateRole {
        1
    } else {
        0
    };
    match answer(guild, action) {
        (_, None) => Pass { end: s, guild, creations: 0 },
        (after, Some(event)) => {
            let (next, request) = reconcile_step(s, event);
            if work_left(next) < work_left(s) {
                let rest = pass(next, request, after);
                Pass { creations: rest.creations + asked, ..rest }
            } else {
                Pass { end: next, guild: after, creations: asked }
            }
        },
    }
}

/// The whole pass of a fresh reconciler over `guild`.
pub open spec fn reconcile(names: Seq<Seq<char>>, guild: GuildView) -> Pass {
    pass(reconcile_start(names).0, reconcile_start(names).1, guild)
}

/// The report on a group that had everything.
pub open spec fn untouched(name: Seq<char>) -> GroupReportView {
    GroupReportView {
        group: name,
        channel: FindingView::AlreadyPresent,
        role: FindingView::AlreadyPresent,
    }
}

proof fn lemma_pushed_channel(channels: Seq<(Seq<char>, bool)>, name: Seq<char>)
    ensures
        has_text_channel(channels.push((name, true)), name),
        forall|other: Seq<char>|
            has_text_channel(channels, other) ==> #[trigger] has_text_channel(
                channels.push((name, true)),
                other,
            ),
{
    let after = channels.push((name, true));
    assert(after[channels.len() as int].1 && after[channels.len() as int].0 == name);
    assert forall|other: Seq<char>| has_text_channel(channels, other) implies #[trigger] has_text_channel(
        after,
        other,
    ) by {
        let i = choose|i: int|
            0 <= i < channels.len() && (#[trigger] channels[i]).1 && channels[i].0 == other;
        assert(after[i].1 && after[i].0 == other);
    }
}

proof fn lemma_pushed_role(roles: Seq<Seq<char>>, name: Seq<char>)
    ensures
        has_role(roles.push(name), name),
        forall|other: Seq<char>| has_role(roles, other) ==> #[trigger] has_role(roles.push(name), other),
{
    let after = roles.push(name);
    assert(after[roles.len() as int] == name);
    assert forall|other: Seq<char>| has_role(roles, other) implies #[trigger] has_role(
        after,
        other,
    ) by {
        let i = choose|i: int| 0 <= i < roles.len() && #[trigger] roles[i] == other;
        assert(after[i] == other);
    }
}

/// What a pass from the start of a group comes to.
proof fn lemma_pass_from(s: ReconcilerView, guild: GuildView)
    requires
        s.phase == ReconcilePhase::Channels,
        s.next < s.names.len(),
    ensures
        ({
            let p = pass(s, GuildActionView::ListChannels, guild);
            &&& p.end.phase == ReconcilePhase::Done
            &&& p.end.names == s.names
            &&& p.end.report.len() == s.report.len() + s.names.len() - s.next
            &&& forall|i: int| 0 <= i < s.report.len() ==> p.end.report[i] == s.report[i]
            &&& covers_from(p.guild, s.names, s.next as int)
            &&& forall|name: Seq<char>| covers(guild, name) ==> #[trigger] covers(p.guild, name)
            &&& covers_from(guild, s.names, s.next as int) ==> {
                &&& p.creations == 0
                &&& p.guild == guild
                &&& forall|i: int|
                    s.next <= i < s.names.len() ==> p.end.report[s.report.len() + i - s.next]
                        == untouched(#[trigger] s.names[i])
            }
        }),
    decreases s.names.len() - s.next,
{
    reveal_with_fuel(pass, 5);
    let name = s.names[s.next as int];
    assert(covers_from(guild, s.names, s.next as int) ==> covers(guild, name));
    // The channel.
    let (s1, a1) = reconcile_step(s, GuildEventView::Channels(Ok(guild.channels)));
    let (g1, s2) = if has_text_channel(guild.channels, name) {
        (guild, s1)
    } else {
        (
            GuildView { channels: guild.channels.push((name, true)), ..guild },
            reconcile_step(s1, GuildEventView::Created(Ok(()))).0,
        )
    };
    lemma_pushed_channel(guild.channels, name);
    assert(s2.phase == ReconcilePhase::Roles);
    assert(has_text_channel(g1.channels, name));
    // The role.
    let (s3, a3) = reconcile_step(s2, GuildEventView::Roles(Ok(g1.roles)));
    let (g2, s4, a4) = if has_role(g1.roles, name) {
        (g1, s3, a3)
    } else {
        let r = reconcile_step(s3, GuildEventView::Created(Ok(())));
        (GuildView { roles: g1.roles.push(name), ..g1 }, r.0, r.1)
    };
    lemma_pushed_role(g1.roles, name);
    assert(covers(g2, name));
    assert(s4.next == s.next + 1);
    assert(s4.report.len() == s.report.len() + 1);
    assert(forall|i: int| 0 <= i < s.report.len() ==> s4.report[i] == s.report[i]);
    assert(forall|other: Seq<char>| covers(guild, other) ==> #[trigger] covers(g2, other));
    let p = pass(s, GuildActionView::ListChannels, guild);
    if s.next + 1 < s.names.len() {
        lemma_pass_from(s4, g2);
        let rest = pass(s4, GuildActionView::ListChannels, g2);
        assert(p.end == rest.end);
        assert(p.guild == rest.guild);
        assert forall|i: int| 0 <= i < s.report.len() implies p.end.report[i] == s.report[i] by {
            assert(rest.end.report[i] == s4.report[i]);
        }
        assert forall|i: int| s.next <= i < s.names.len() implies covers(
            p.guild,
            #[trigger] s.names[i],
        ) by {
            if i == s.next {
                assert(covers(g2, name));
            }
        }
        if covers_from(guild, s.names, s.next as int) {
            assert(g2 == guild);
            assert(covers_from(g2, s4.names, s4.next as int));
            assert forall|i: int| s.next <= i < s.names.len() implies p.end.report[s.report.len()
                + i - s.next] == untouched(#[trigger] s.names[i]) by {
                if i == s.next {
                    assert(p.end.report[s.report.len() as int] == s4.report[s.report.len() as int]);
                } else {
                    assert(rest.end.report[s4.report.len() + i - s4.next] == untouched(
                        s4.names[i],
                    ));
                }
            }
        }
    } else {
        assert(p.end == s4);
        assert(p.guild == g2);
    }
}

/// A pass sees to every group: it ends done, reports on each group, and
/// leaves a guild that has a text channel and a role for each.
pub proof fn lemma_pass_completes(names: Seq<Seq<char>>, guild: GuildView)
    ensures
        reconcile(names, guild).end.phase == ReconcilePhase::Done,
        reconcile(names, guild).end.report.len() == names.len(),
        covers_from(reconcile(names, guild).guild, names, 0),
{
    if names.len() > 0 {
        lemma_pass_from(reconcile_start(names).0, guild);
    }
}

/// A pass over a guild that has a text channel and a role for every group
/// asks for no creation, leaves the guild as it was, and reports every
/// channel and every role as already present.
pub proof fn lemma_covered_guild_is_left_alone(names: Seq<Seq<char>>, guild: GuildView)
    requires
        covers_from(guild, names, 0),
    ensures
        reconcile(names, guild).creations == 0,
        reconcile(names, guild).guild == guild,
        forall|i: int|
            0 <= i < names.len() ==> reconcile(names, guild).end.report[i] == untouched(
                #[trigger] names[i],
            ),
{
    if names.len() > 0 {
        lemma_pass_from(reconcile_start(names).0, guild);
    }
}

/// Reconciling is idempotent: a second pass over the guild that the first
/// pass left asks for no creation.
pub proof fn lemma_second_pass_creates_nothing(names: Seq<Seq<char>>, guild: GuildView)
    ensures
        reconcile(names, reconcile(names, guild).guild).creations == 0,
        reconcile(names, reconcile(names, guild).guild).guild == reconcile(names, guild).guild,
{
    lemma_pass_completes(names, guild);
    lemma_covered_guild_is_left_alone(names, reconcile(names, guild).guild);
}

} // verus!
