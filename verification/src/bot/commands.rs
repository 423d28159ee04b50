//! The commands that members type, as state machines.
//!
//! A command talks to the chat platform and to the membership store several
//! times before it answers. None of that talking happens here. An
//! [`Invocation`] says what to ask next, the caller asks, and hands back what
//! it heard as an [`Event`]. Whatever the events, an invocation replies to the
//! member exactly once, and then it is done.
//!
//! A command is about the group that its channel is named after, whether or
//! not the catalog holds such a group: it is for the store to say that it
//! knows none. The store takes the member by the decimal digits of the
//! platform's identifier; replies call the member by name, and give names as
//! they are, without markup.

pub mod ping;
pub mod subscribe;
pub mod unsubscribe;

use crate::bot::commands::subscribe::subscribe_step;
use crate::bot::commands::unsubscribe::unsubscribe_step;
use crate::text::{decimal_digits, push_decimal};
use vstd::prelude::*;

verus! {

/// The two commands that change a membership.
#[derive(Clone, Copy, Debug, PartialEq, Eq, Structural)]
pub enum Operation {
    Subscribe,
    Unsubscribe,
}

/// What an invocation is waiting for.
#[derive(Clone, Copy, Debug, PartialEq, Eq, Structural)]
pub enum Phase {
    /// The name of the channel the command was typed in: it names the group.
    Channel,
    /// The guild of that channel.
    Guild,
    /// The member who typed the command.
    Member,
    /// The store's answer.
    Store,
    /// The end of the role change.
    Role,
    /// Nothing: the reply went out.
    Done,
}

/// A part of the context of a command that the platform could not supply.
#[derive(Clone, Copy, Debug, PartialEq, Eq, Structural)]
pub enum Lookup {
    Channel,
    Guild,
    Member,
}

/// How a role change ended.
#[derive(Clone, Debug, PartialEq, Eq)]
pub enum RoleChange {
    /// The member has, or has lost, the role.
    Done,
    /// The guild has no role of that name.
    NoSuchRole,
    /// The platform refused; its words.
    Rejected(String),
}

/// What the caller heard when it did what the invocation asked.
#[derive(Debug, PartialEq, Eq)]
pub enum Event {
    /// The channel's name, if the platform knows it.
    ChannelName(Option<String>),
    /// Whether the platform knows the guild.
    Guild(bool),
    /// Whether the platform found the member, and its words if not.
    Member(Result<(), String>),
    /// The store's answer, or the words of the failure to reach it.
    Store(Result<i32, String>),
    /// How the role change ended.
    Role(RoleChange),
}

/// How an invocation ended.
#[derive(Clone, Debug, PartialEq, Eq)]
pub enum Resolution {
    /// The membership changed, and the role with it.
    Changed,
    /// The membership changed but the role did not; the warning says why.
    ChangedWithWarning(String),
    /// The store could not record the change.
    StoreFailed,
    /// The store knows no group of that name.
    NoSuchGroup,
    /// There was nothing to change.
    NoChange,
    /// The store's answer has no meaning.
    UnknownOutcome(i32),
    /// The store could not be reached.
    StoreUnreachable,
    /// The platform could not supply the context.
    LookupFailed(Lookup),
}

/// What the caller is to do next.
#[derive(Clone, Debug, PartialEq, Eq)]
pub enum Action {
    /// Ask the platform for the name of the channel.
    FetchChannelName,
    /// Ask the platform for the guild.
    FetchGuild,
    /// Ask the platform for the member.
    FetchMember,
    /// Ask the store to subscribe `user` to `group`.
    AddMember { user: String, group: String },
    /// Ask the store to unsubscribe `user` from `group`.
    RemoveMember { user: String, group: String },
    /// Give the member the role of this name.
    GrantRole { role: String },
    /// Take the role of this name from the member.
    RevokeRole { role: String },
    /// Send `text` to the member; the invocation is over.
    Reply { text: String, resolution: Resolution },
    /// Nothing: the event was not the one waited for.
    Nothing,
}

/// One run of a command.
#[derive(Clone, Debug, PartialEq, Eq)]
pub struct Invocation {
    pub phase: Phase,
    /// The member's identity on the platform.
    pub user_id: u64,
    /// The member's name, as replies show it.
    pub user_name: String,
    /// The group the command is about, once the channel's name is known.
    pub group: String,
}

/// The mathematical content of a [`RoleChange`].
pub enum RoleChangeView {
    Done,
    NoSuchRole,
    Rejected(Seq<char>),
}

/// The mathematical content of an [`Event`].
pub enum EventView {
    ChannelName(Option<Seq<char>>),
    Guild(bool),
    Member(Result<(), Seq<char>>),
    Store(Result<int, Seq<char>>),
    Role(RoleChangeView),
}

/// The mathematical content of a [`Resolution`].
pub enum ResolutionView {
    Changed,
    ChangedWithWarning(Seq<char>),
    StoreFailed,
    NoSuchGroup,
    NoChange,
    UnknownOutcome(int),
    StoreUnreachable,
    LookupFailed(Lookup),
}

/// The mathematical content of an [`Action`].
pub enum ActionView {
    FetchChannelName,
    FetchGuild,
    FetchMember,
    AddMember { user: Seq<char>, group: Seq<char> },
    RemoveMember { user: Seq<char>, group: Seq<char> },
    GrantRole { role: Seq<char> },
    RevokeRole { role: Seq<char> },
    Reply { text: Seq<char>, resolution: ResolutionView },
    Nothing,
}

/// The mathematical content of an [`Invocation`].
pub struct InvocationView {
    pub phase: Phase,
    pub user_id: nat,
    pub user_name: Seq<char>,
    pub group: Seq<char>,
}

impl View for RoleChange {
    type V = RoleChangeView;

    open spec fn view(&self) -> RoleChangeView {
        match self {
            RoleChange::Done => RoleChangeView::Done,
            RoleChange::NoSuchRole => RoleChangeView::NoSuchRole,
            RoleChange::Rejected(words) => RoleChangeView::Rejected(words@),
        }
    }
}

impl View for Event {
    type V = EventView;

    open spec fn view(&self) -> EventView {
        match self {
            Event::ChannelName(Some(name)) => EventView::ChannelName(Some(name@)),
            Event::ChannelName(None) => EventView::ChannelName(None),
            Event::Guild(found) => EventView::Guild(*found),
            Event::Member(Ok(_)) => EventView::Member(Ok(())),
            Event::Member(Err(words)) => EventView::Member(Err(words@)),
            Event::Store(Ok(code)) => EventView::Store(Ok(*code as int)),
            Event::Store(Err(words)) => EventView::Store(Err(words@)),
            Event::Role(change) => EventView::Role(change@),
        }
    }
}

impl View for Resolution {
    type V = ResolutionView;

    open spec fn view(&self) -> ResolutionView {
        match self {
            Resolution::Changed => ResolutionView::Changed,
            Resolution::ChangedWithWarning(warning) => ResolutionView::ChangedWithWarning(warning@),
            Resolution::StoreFailed => ResolutionView::StoreFailed,
            Resolution::NoSuchGroup => ResolutionView::NoSuchGroup,
            Resolution::NoChange => ResolutionView::NoChange,
            Resolution::UnknownOutcome(code) => ResolutionView::UnknownOutcome(*code as int),
            Resolution::StoreUnreachable => ResolutionView::StoreUnreachable,
            Resolution::LookupFailed(lookup) => ResolutionView::LookupFailed(*lookup),
        }
    }
}

impl View for Action {
    type V = ActionView;

    open spec fn view(&self) -> ActionView {
        match self {
            Action::FetchChannelName => ActionView::FetchChannelName,
            Action::FetchGuild => ActionView::FetchGuild,
            Action::FetchMember => ActionView::FetchMember,
            Action::AddMember { user, group } => ActionView::AddMember {
                user: user@,
                group: group@,
            },
            Action::RemoveMember { user, group } => ActionView::RemoveMember {
                user: user@,
                group: group@,
            },
            Action::GrantRole { role } => ActionView::GrantRole { role: role@ },
            Action::RevokeRole { role } => ActionView::RevokeRole { role: role@ },
            Action::Reply { text, resolution } => ActionView::Reply {
                text: text@,
                resolution: resolution@,
            },
            Action::Nothing => ActionView::Nothing,
        }
    }
}

impl View for Invocation {
    type V = InvocationView;

    open spec fn view(&self) -> InvocationView {
        InvocationView {
            phase: self.phase,
            user_id: self.user_id as nat,
            user_name: self.user_name@,
            group: self.group@,
        }
    }
}

/// An invocation that has replied.
pub open spec fn finished(s: InvocationView) -> InvocationView {
    InvocationView { phase: Phase::Done, ..s }
}

/// The reply that ends an invocation for want of context.
pub open spec fn lookup_failure(s: InvocationView, lookup: Lookup, text: Seq<char>) -> (
    InvocationView,
    ActionView,
) {
    (finished(s), ActionView::Reply { text, resolution: ResolutionView::LookupFailed(lookup) })
}

/// What the store is asked once the context is known.
pub open spec fn store_request(operation: Operation, s: InvocationView) -> ActionView {
    match operation {
        Operation::Subscribe => ActionView::AddMember {
            user: decimal_digits(s.user_id),
            group: s.group,
        },
        Operation::Unsubscribe => ActionView::RemoveMember {
            user: decimal_digits(s.user_id),
            group: s.group,
        },
    }
}

/// How the context of a command is gathered: the channel's name, which names
/// the group, then the guild, then the member. The first that is missing ends
/// the invocation; with all three at hand the store is asked. An event other
/// than the one waited for changes nothing.
pub open spec fn gather(operation: Operation, s: InvocationView, event: EventView) -> (
    InvocationView,
    ActionView,
)
    recommends
        s.phase == Phase::Channel || s.phase == Phase::Guild || s.phase == Phase::Member,
{
    match (s.phase, event) {
        (Phase::Channel, EventView::ChannelName(Some(name))) => (
            InvocationView { phase: Phase::Guild, group: name, ..s },
            ActionView::FetchGuild,
        ),
        (Phase::Channel, EventView::ChannelName(None)) => lookup_failure(
            s,
            Lookup::Channel,
            "error retrieving channel name."@,
        ),
        (Phase::Guild, EventView::Guild(true)) => (
            InvocationView { phase: Phase::Member, ..s },
            ActionView::FetchMember,
        ),
        (Phase::Guild, EventView::Guild(false)) => lookup_failure(
            s,
            Lookup::Guild,
            "error retrieving guild information."@,
        ),
        (Phase::Member, EventView::Member(Ok(_))) => (
            InvocationView { phase: Phase::Store, ..s },
            store_request(operation, s),
        ),
        (Phase::Member, EventView::Member(Err(words))) => lookup_failure(
            s,
            Lookup::Member,
            "error retrieving member: "@ + words + "."@,
        ),
        _ => (s, ActionView::Nothing),
    }
}

/// The reply when the store could not record the change.
pub open spec fn store_failed_text(user: Seq<char>) -> Seq<char> {
    "failed to add "@ + user + " to the database."@
}

/// The reply when the store knows no group of that name.
pub open spec fn no_such_group_text(group: Seq<char>) -> Seq<char> {
    "match making group: "@ + group + " does not exist."@
}

/// The reply when the store could not be reached.
pub open spec fn store_unreachable_text(words: Seq<char>) -> Seq<char> {
    "database error: "@ + words
}

/// The reply that ends an invocation.
pub open spec fn reply(s: InvocationView, text: Seq<char>, resolution: ResolutionView) -> (
    InvocationView,
    ActionView,
) {
    (finished(s), ActionView::Reply { text, resolution })
}

pub(crate) fn store_failed(user: &String) -> (text: String)
    ensures
        text@ == store_failed_text(user@),
{
    let mut text = "failed to add ".to_owned();
    text.append(user.as_str());
    text.append(" to the database.");
    text
}

pub(crate) fn no_such_group(group: &String) -> (text: String)
    ensures
        text@ == no_such_group_text(group@),
{
    let mut text = "match making group: ".to_owned();
    text.append(group.as_str());
    text.append(" does not exist.");
    text
}

pub(crate) fn store_unreachable(words: &String) -> (text: String)
    ensures
        text@ == store_unreachable_text(words@),
{
    let mut text = "database error: ".to_owned();
    text.append(words.as_str());
    text
}

/// The resolutions that are failures of the bot or its surroundings, to be
/// logged as errors: an answer of the store without meaning, a store out of
/// reach, and context that the platform could not supply. That the store
/// declined, or had nothing to change, is no failure; nor is a success with a
/// warning.
pub open spec fn is_failure(resolution: ResolutionView) -> bool {
    resolution is UnknownOutcome || resolution is StoreUnreachable || resolution is LookupFailed
}

impl Resolution {
    /// Tells whether the command failed, as opposed to being answered.
    pub fn is_failure(&self) -> (r: bool)
        ensures
            r == is_failure(self@),
    {
        match self {
            Resolution::UnknownOutcome(_) => true,
            Resolution::StoreUnreachable => true,
            Resolution::LookupFailed(_) => true,
            _ => false,
        }
    }
}

impl Invocation {
    /// Starts the run of a command that the member `user_name`, known to the
    /// platform as `user_id`, has typed. Says what to ask first.
    pub fn begin(user_id: u64, user_name: String) -> (r: (Invocation, Action))
        ensures
            r.0@ == (InvocationView {
                phase: Phase::Channel,
                user_id: user_id as nat,
                user_name: user_name@,
                group: Seq::empty(),
            }),
            r.1@ == ActionView::FetchChannelName,
    {
        (
            Invocation { phase: Phase::Channel, user_id, user_name, group: String::new() },
            Action::FetchChannelName,
        )
    }

    /// Ends the invocation with a reply.
    pub(crate) fn finish(self, text: String, resolution: Resolution) -> (r: (Invocation, Action))
        ensures
            r.0@ == finished(self@),
            r.1@ == (ActionView::Reply { text: text@, resolution: resolution@ }),
    {
        (
            Invocation {
                phase: Phase::Done,
                user_id: self.user_id,
                user_name: self.user_name,
                group: self.group,
            },
            Action::Reply { text, resolution },
        )
    }

    /// Leaves the invocation as it is.
    pub(crate) fn stay(self) -> (r: (Invocation, Action))
        ensures
            r.0@ == self@,
            r.1@ == ActionView::Nothing,
    {
        (self, Action::Nothing)
    }

    /// The member's identity as the store takes it: in decimal digits.
    pub(crate) fn store_user(&self) -> (user: String)
        ensures
            user@ == decimal_digits(self@.user_id),
    {
        let mut user = String::new();
        push_decimal(&mut user, self.user_id);
        assert(user@ == decimal_digits(self@.user_id));
        user
    }

    /// Takes one step of gathering the context.
    pub(crate) fn gather(self, operation: Operation, event: Event) -> (r: (Invocation, Action))
        requires
            self.phase == Phase::Channel || self.phase == Phase::Guild || self.phase
                == Phase::Member,
        ensures
            (r.0@, r.1@) == gather(operation, self@, event@),
    {
        match (self.phase, event) {
            (Phase::Channel, Event::ChannelName(Some(name))) => (
                Invocation {
                    phase: Phase::Guild,
                    user_id: self.user_id,
                    user_name: self.user_name,
                    group: name,
                },
                Action::FetchGuild,
            ),
            (Phase::Channel, Event::ChannelName(None)) => self.finish(
                "error retrieving channel name.".to_owned(),
                Resolution::LookupFailed(Lookup::Channel),
            ),
            (Phase::Guild, Event::Guild(true)) => (
                Invocation {
                    phase: Phase::Member,
                    user_id: self.user_id,
                    user_name: self.user_name,
                    group: self.group,
                },
                Action::FetchMember,
            ),
            (Phase::Guild, Event::Guild(false)) => self.finish(
                "error retrieving guild information.".to_owned(),
                Resolution::LookupFailed(Lookup::Guild),
            ),
            (Phase::Member, Event::Member(Ok(_))) => {
                let user = self.store_user();
                let group = self.group.clone();
                let request = match operation {
                    Operation::Subscribe => Action::AddMember { user, group },
                    Operation::Unsubscribe => Action::RemoveMember { user, group },
                };
                (
                    Invocation {
                        phase: Phase::Store,
                        user_id: self.user_id,
                        user_name: self.user_name,
                        group: self.group,
                    },
                    request,
                )
            },
            (Phase::Member, Event::Member(Err(words))) => {
                let mut text = "error retrieving member: ".to_owned();
                text.append(words.as_str());
                text.append(".");
                self.finish(text, Resolution::LookupFailed(Lookup::Member))
            },
            _ => self.stay(),
        }
    }
}

/// One step of the command `operation`.
pub open spec fn step(operation: Operation, s: InvocationView, event: EventView) -> (
    InvocationView,
    ActionView,
) {
    match operation {
        Operation::Subscribe => subscribe_step(s, event),
        Operation::Unsubscribe => unsubscribe_step(s, event),
    }
}

/// Where an invocation stands after a series of events.
pub open spec fn run(operation: Operation, s: InvocationView, events: Seq<EventView>) -> InvocationView
    decreases events.len(),
{
    if events.len() == 0 {
        s
    } else {
        step(operation, run(operation, s, events.drop_last()), events.last()).0
    }
}

/// How many replies an invocation asks for over a series of events.
pub open spec fn replies(operation: Operation, s: InvocationView, events: Seq<EventView>) -> nat
    decreases events.len(),
{
    if events.len() == 0 {
        0
    } else {
        let before = run(operation, s, events.drop_last());
        let asked: nat = if step(operation, before, events.last()).1 is Reply {
            1
        } else {
            0
        };
        replies(operation, s, events.drop_last()) + asked
    }
}

/// A step asks for a reply exactly when it ends the invocation, and an
/// invocation that has ended neither changes nor asks for anything.
pub proof fn lemma_reply_ends(operation: Operation, s: InvocationView, event: EventView)
    ensures
        step(operation, s, event).1 is Reply <==> s.phase != Phase::Done && step(
            operation,
            s,
            event,
        ).0.phase == Phase::Done,
        s.phase == Phase::Done ==> step(operation, s, event) == (s, ActionView::Nothing),
{
}

/// Whatever the events, the member gets one reply at most, and exactly one
/// once the invocation is done.
pub proof fn lemma_replies_exactly_once(
    operation: Operation,
    s: InvocationView,
    events: Seq<EventView>,
)
    requires
        s.phase != Phase::Done,
    ensures
        replies(operation, s, events) <= 1,
        replies(operation, s, events) == 1 <==> run(operation, s, events).phase == Phase::Done,
    decreases events.len(),
{
    if events.len() > 0 {
        lemma_replies_exactly_once(operation, s, events.drop_last());
        lemma_reply_ends(operation, run(operation, s, events.drop_last()), events.last());
    }
}

/// How often an invocation turns to the store over a series of events.
pub open spec fn store_requests(
    operation: Operation,
    s: InvocationView,
    events: Seq<EventView>,
) -> nat
    decreases events.len(),
{
    if events.len() == 0 {
        0
    } else {
        let asked = step(operation, run(operation, s, events.drop_last()), events.last()).1;
        let one: nat = if asked is AddMember || asked is RemoveMember {
            1
        } else {
            0
        };
        store_requests(operation, s, events.drop_last()) + one
    }
}

/// How often an invocation turns to the member's roles over a series of
/// events.
pub open spec fn role_requests(
    operation: Operation,
    s: InvocationView,
    events: Seq<EventView>,
) -> nat
    decreases events.len(),
{
    if events.len() == 0 {
        0
    } else {
        let asked = step(operation, run(operation, s, events.drop_last()), events.last()).1;
        let one: nat = if asked is GrantRole || asked is RevokeRole {
            1
        } else {
            0
        };
        role_requests(operation, s, events.drop_last()) + one
    }
}

/// How far an invocation has come.
pub open spec fn progress(phase: Phase) -> nat {
    match phase {
        Phase::Channel => 0,
        Phase::Guild => 1,
        Phase::Member => 2,
        Phase::Store => 3,
        Phase::Role => 4,
        Phase::Done => 5,
    }
}

/// Nothing is tried again: whatever the events, the store is asked once at
/// most, and so are the member's roles. A request that failed is never
/// repeated.
pub proof fn lemma_nothing_is_retried(
    operation: Operation,
    s: InvocationView,
    events: Seq<EventView>,
)
    ensures
        progress(s.phase) <= progress(run(operation, s, events).phase),
        store_requests(operation, s, events) <= 1,
        role_requests(operation, s, events) <= 1,
        store_requests(operation, s, events) == 1 ==> progress(s.phase) <= 2 && progress(
            run(operation, s, events).phase,
        ) >= 3,
        role_requests(operation, s, events) == 1 ==> progress(s.phase) <= 3 && progress(
            run(operation, s, events).phase,
        ) >= 4,
    decreases events.len(),
{
    if events.len() > 0 {
        lemma_nothing_is_retried(operation, s, events.drop_last());
    }
}

/// The store is asked only once the context is complete, and the role is
/// touched only after the store has recorded the change: a role change is
/// asked for in answer to the store's `0` and to nothing else, and it is
/// about the role named after the group.
pub proof fn lemma_store_comes_first(operation: Operation, s: InvocationView, event: EventView)
    ensures
        step(operation, s, event).1 is AddMember || step(operation, s, event).1 is RemoveMember
            ==> s.phase == Phase::Member && event is Member && event->Member_0 is Ok && step(
            operation,
            s,
            event,
        ).1 == store_request(operation, s),
        step(operation, s, event).1 is GrantRole ==> operation == Operation::Subscribe && s.phase
            == Phase::Store && event == EventView::Store(Ok(0)) && step(
            operation,
            s,
            event,
        ).1->GrantRole_role == s.group,
        step(operation, s, event).1 is RevokeRole ==> operation == Operation::Unsubscribe
            && s.phase == Phase::Store && event == EventView::Store(Ok(0)) && step(
            operation,
            s,
            event,
        ).1->RevokeRole_role == s.group,
{
}

} // verus!
