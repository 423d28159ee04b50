//! The membership store, as the bot sees it.
//!
//! The store keeps which user is subscribed to which matchmaking group. It is
//! reached through three stored functions, each of which answers with a small
//! integer. This module gives every answer its meaning the moment it arrives,
//! so that nothing else handles bare integers, and walks the catalog when the
//! groups are registered.
//!
//! The bot does not serialize its requests: two members, or one member twice,
//! may have commands under way at the same time. It is the store that takes
//! the requests one after the other. What the bot relies on is written down
//! here as [`add_group`], [`add_member`] and [`remove_member`], the answers of
//! a store in working order.

use crate::config::{catalog_names, group_names, MMGroup};
use crate::text::{push_signed, signed_digits};
use vstd::prelude::*;

verus! {

/// An answer of the store that has no meaning for the call that got it.
#[derive(Clone, Copy, Debug, PartialEq, Eq, Structural)]
pub struct UnknownOutcome {
    pub code: i32,
}

/// What the store did when asked to add a group.
#[derive(Clone, Copy, Debug, PartialEq, Eq, Structural)]
pub enum AddGroupOutcome {
    /// `0`: the group was added.
    Added,
    /// `1`: the group was there already. This is no error.
    AlreadyExists,
}

/// What the store did when asked to subscribe a user to a group.
#[derive(Clone, Copy, Debug, PartialEq, Eq, Structural)]
pub enum AddMemberOutcome {
    /// `0`: the user is now subscribed.
    Subscribed,
    /// `1`: the subscription could not be stored.
    Failed,
    /// `2`: the store knows no group of that name.
    NoSuchGroup,
    /// `3`: the user was subscribed already.
    AlreadySubscribed,
}

/// What the store did when asked to unsubscribe a user from a group.
#[derive(Clone, Copy, Debug, PartialEq, Eq, Structural)]
pub enum RemoveMemberOutcome {
    /// `0`: the user is no longer subscribed.
    Unsubscribed,
    /// `1`: the change could not be stored.
    Failed,
    /// `2`: the store knows no group of that name.
    NoSuchGroup,
    /// `3`: the user was not subscribed.
    NotSubscribed,
}

impl AddGroupOutcome {
    /// The meaning of `code`, if it has one.
    pub open spec fn of(code: int) -> Option<AddGroupOutcome> {
        if code == 0 {
            Some(AddGroupOutcome::Added)
        } else if code == 1 {
            Some(AddGroupOutcome::AlreadyExists)
        } else {
            None
        }
    }

    /// Gives `code` its meaning.
    pub fn from_code(code: i32) -> (r: Result<AddGroupOutcome, UnknownOutcome>)
        ensures
            r == match AddGroupOutcome::of(code as int) {
                Some(outcome) => Ok::<AddGroupOutcome, UnknownOutcome>(outcome),
                None => Err(UnknownOutcome { code }),
            },
    {
        if code == 0 {
            Ok(AddGroupOutcome::Added)
        } else if code == 1 {
            Ok(AddGroupOutcome::AlreadyExists)
        } else {
            Err(UnknownOutcome { code })
        }
    }
}

impl AddMemberOutcome {
    /// The meaning of `code`, if it has one.
    pub open spec fn of(code: int) -> Option<AddMemberOutcome> {
        if code == 0 {
            Some(AddMemberOutcome::Subscribed)
        } else if code == 1 {
            Some(AddMemberOutcome::Failed)
        } else if code == 2 {
            Some(AddMemberOutcome::NoSuchGroup)
        } else if code == 3 {
            Some(AddMemberOutcome::AlreadySubscribed)
        } else {
            None
        }
    }

    /// Gives `code` its meaning.
    pub fn from_code(code: i32) -> (r: Result<AddMemberOutcome, UnknownOutcome>)
        ensures
            r == match AddMemberOutcome::of(code as int) {
                Some(outcome) => Ok::<AddMemberOutcome, UnknownOutcome>(outcome),
                None => Err(UnknownOutcome { code }),
            },
    {
        if code == 0 {
            Ok(AddMemberOutcome::Subscribed)
        } else if code == 1 {
            Ok(AddMemberOutcome::Failed)
        } else if code == 2 {
            Ok(AddMemberOutcome::NoSuchGroup)
        } else if code == 3 {
            Ok(AddMemberOutcome::AlreadySubscribed)
        } else {
            Err(UnknownOutcome { code })
        }
    }
}

impl RemoveMemberOutcome {
    /// The meaning of `code`, if it has one.
    pub open spec fn of(code: int) -> Option<RemoveMemberOutcome> {
        if code == 0 {
            Some(RemoveMemberOutcome::Unsubscribed)
        } else if code == 1 {
            Some(RemoveMemberOutcome::Failed)
        } else if code == 2 {
            Some(RemoveMemberOutcome::NoSuchGroup)
        } else if code == 3 {
            Some(RemoveMemberOutcome::NotSubscribed)
        } else {
            None
        }
    }

    /// Gives `code` its meaning.
    pub fn from_code(code: i32) -> (r: Result<RemoveMemberOutcome, UnknownOutcome>)
        ensures
            r == match RemoveMemberOutcome::of(code as int) {
                Some(outcome) => Ok::<RemoveMemberOutcome, UnknownOutcome>(outcome),
                None => Err(UnknownOutcome { code }),
            },
    {
        if code == 0 {
            Ok(RemoveMemberOutcome::Unsubscribed)
        } else if code == 1 {
            Ok(RemoveMemberOutcome::Failed)
        } else if code == 2 {
            Ok(RemoveMemberOutcome::NoSuchGroup)
        } else if code == 3 {
            Ok(RemoveMemberOutcome::NotSubscribed)
        } else {
            Err(UnknownOutcome { code })
        }
    }
}

/// What the registration of the catalog is waiting for.
#[derive(Clone, Copy, Debug, PartialEq, Eq, Structural)]
pub enum RegistrationPhase {
    /// The store's answer for the group at hand.
    Asking,
    /// Nothing: every group is registered.
    Done,
    /// Nothing: the store gave an answer that could not be used.
    Failed,
}

/// What the caller is to do next for the registration.
#[derive(Clone, Debug, PartialEq, Eq)]
pub enum RegistrationAction {
    /// Ask the store to add the group of this name.
    AddGroup { name: String },
    /// Nothing more: every group is registered.
    Finished,
    /// Give up; the message says why.
    Fail { message: String },
    /// Nothing: the registration was over already.
    Nothing,
}

/// The registration of the catalog with the store: every group is added, in
/// catalog order, before any membership is recorded. A group that the store
/// has already is no error; the first answer without meaning, or failure to
/// reach the store, ends the registration.
#[derive(Clone, Debug, PartialEq, Eq)]
pub struct Registration {
    /// The names of the groups, in catalog order.
    pub names: Vec<String>,
    pub phase: RegistrationPhase,
    /// What became of the groups that the store has answered for.
    pub outcomes: Vec<AddGroupOutcome>,
}

/// The mathematical content of a [`RegistrationAction`].
pub enum RegistrationActionView {
    AddGroup { name: Seq<char> },
    Finished,
    Fail { message: Seq<char> },
    Nothing,
}

/// The mathematical content of a [`Registration`].
pub struct RegistrationView {
    pub names: Seq<Seq<char>>,
    pub phase: RegistrationPhase,
    pub outcomes: Seq<AddGroupOutcome>,
}

impl View for RegistrationAction {
    type V = RegistrationActionView;

    open spec fn view(&self) -> RegistrationActionView {
        match self {
            RegistrationAction::AddGroup { name } => RegistrationActionView::AddGroup {
                name: name@,
            },
            RegistrationAction::Finished => RegistrationActionView::Finished,
            RegistrationAction::Fail { message } => RegistrationActionView::Fail {
                message: message@,
            },
            RegistrationAction::Nothing => RegistrationActionView::Nothing,
        }
    }
}

impl View for Registration {
    type V = RegistrationView;

    open spec fn view(&self) -> RegistrationView {
        RegistrationView {
            names: self.names.deep_view(),
            phase: self.phase,
            outcomes: self.outcomes@,
        }
    }
}

/// A registration has an answer for the groups it has asked for and no
/// others: for fewer than all while it is asking, for all when it is done.
pub open spec fn registration_wf(s: RegistrationView) -> bool {
    &&& s.outcomes.len() <= s.names.len()
    &&& s.phase == RegistrationPhase::Asking ==> s.outcomes.len() < s.names.len()
    &&& s.phase == RegistrationPhase::Done ==> s.outcomes.len() == s.names.len()
}

/// What the message of a failed registration says of an answer without
/// meaning.
pub open spec fn unknown_outcome_text(code: int) -> Seq<char> {
    "unknown database result for add_match_making_groups function: "@ + signed_digits(code)
}

/// The registration goes on to the group after `s.outcomes`, or ends.
pub open spec fn ask_next(s: RegistrationView) -> (RegistrationView, RegistrationActionView) {
    if s.outcomes.len() < s.names.len() {
        (
            RegistrationView { phase: RegistrationPhase::Asking, ..s },
            RegistrationActionView::AddGroup { name: s.names[s.outcomes.len() as int] },
        )
    } else {
        (
            RegistrationView { phase: RegistrationPhase::Done, ..s },
            RegistrationActionView::Finished,
        )
    }
}

/// Where a registration starts.
pub open spec fn registration_start(names: Seq<Seq<char>>) -> (
    RegistrationView,
    RegistrationActionView,
) {
    ask_next(
        RegistrationView { names, phase: RegistrationPhase::Asking, outcomes: Seq::empty() },
    )
}

/// One step of a registration: what it becomes, and asks for, when the store
/// has answered `code`, or could not be reached for the reason in words.
pub open spec fn registration_step(s: RegistrationView, answer: Result<int, Seq<char>>) -> (
    RegistrationView,
    RegistrationActionView,
) {
    if s.phase != RegistrationPhase::Asking {
        (s, RegistrationActionView::Nothing)
    } else {
        match answer {
            Err(words) => (
                RegistrationView { phase: RegistrationPhase::Failed, ..s },
                RegistrationActionView::Fail { message: words },
            ),
            Ok(code) => match AddGroupOutcome::of(code) {
                Some(outcome) => ask_next(
                    RegistrationView { outcomes: s.outcomes.push(outcome), ..s },
                ),
                None => (
                    RegistrationView { phase: RegistrationPhase::Failed, ..s },
                    RegistrationActionView::Fail { message: unknown_outcome_text(code) },
                ),
            },
        }
    }
}

impl Registration {
    fn ask_next(self) -> (r: (Registration, RegistrationAction))
        ensures
            (r.0@, r.1@) == ask_next(self@),
            self.outcomes.len() <= self.names.len() ==> registration_wf(r.0@),
    {
        if self.outcomes.len() < self.names.len() {
            let name = self.names[self.outcomes.len()].clone();
            assert(self.names.deep_view()[self.outcomes.len() as int] == name@);
            (
                Registration {
                    names: self.names,
                    phase: RegistrationPhase::Asking,
                    outcomes: self.outcomes,
                },
                RegistrationAction::AddGroup { name },
            )
        } else {
            (
                Registration {
                    names: self.names,
                    phase: RegistrationPhase::Done,
                    outcomes: self.outcomes,
                },
                RegistrationAction::Finished,
            )
        }
    }

    /// Starts the registration of `catalog`. Says what to ask first.
    pub fn start(catalog: &Vec<MMGroup>) -> (r: (Registration, RegistrationAction))
        ensures
            (r.0@, r.1@) == registration_start(catalog_names(catalog@)),
            registration_wf(r.0@),
    {
        let names = group_names(catalog);
        let registration = Registration {
            names,
            phase: RegistrationPhase::Asking,
            outcomes: Vec::new(),
        };
        registration.ask_next()
    }

    /// Takes one step: given the store's answer for the group at hand, or the
    /// words of the failure to reach the store, says how the registration goes
    /// on.
    pub fn step(self, answer: Result<i32, String>) -> (r: (Registration, RegistrationAction))
        ensures
            (r.0@, r.1@) == registration_step(
                self@,
                match answer {
                    Ok(code) => Ok(code as int),
                    Err(words) => Err(words@),
                },
            ),
            registration_wf(self@) ==> registration_wf(r.0@),
    {
        if self.phase != RegistrationPhase::Asking {
            return (self, RegistrationAction::Nothing);
        }
        match answer {
            Err(words) => (
                Registration {
                    names: self.names,
                    phase: RegistrationPhase::Failed,
                    outcomes: self.outcomes,
                },
                RegistrationAction::Fail { message: words },
            ),
            Ok(code) => match AddGroupOutcome::from_code(code) {
                Ok(outcome) => {
                    let mut outcomes = self.outcomes;
                    outcomes.push(outcome);
                    let registration = Registration {
                        names: self.names,
                        phase: self.phase,
                        outcomes,
                    };
                    registration.ask_next()
                },
                Err(unknown) => {
                    let mut message =
                        "unknown database result for add_match_making_groups function: ".to_owned();
                    push_signed(&mut message, unknown.code);
                    (
                        Registration {
                            names: self.names,
                            phase: RegistrationPhase::Failed,
                            outcomes: self.outcomes,
                        },
                        RegistrationAction::Fail { message },
                    )
                },
            },
        }
    }
}

/// Where a registration stands, and what it asks for, after the store has
/// answered `codes`, one after the other.
pub open spec fn registered(names: Seq<Seq<char>>, codes: Seq<int>) -> (
    RegistrationView,
    RegistrationActionView,
)
    decreases codes.len(),
{
    if codes.len() == 0 {
        registration_start(names)
    } else {
        registration_step(registered(names, codes.drop_last()).0, Ok(codes.last()))
    }
}

/// As long as the store answers `0` or `1`, the registration walks the
/// catalog: it asks for the groups in catalog order, one for each answer, and
/// is finished exactly when every group has had its answer.
pub proof fn lemma_registration_walks_the_catalog(names: Seq<Seq<char>>, codes: Seq<int>)
    requires
        codes.len() <= names.len(),
        forall|i: int| 0 <= i < codes.len() ==> codes[i] == 0 || codes[i] == 1,
    ensures
        registered(names, codes).0.names == names,
        registered(names, codes).0.outcomes.len() == codes.len(),
        forall|i: int|
            0 <= i < codes.len() ==> AddGroupOutcome::of(codes[i]) == Some(
                #[trigger] registered(names, codes).0.outcomes[i],
            ),
        codes.len() < names.len() ==> registered(names, codes) == (
            RegistrationView {
                names,
                phase: RegistrationPhase::Asking,
                outcomes: registered(names, codes).0.outcomes,
            },
            RegistrationActionView::AddGroup { name: names[codes.len() as int] },
        ),
        codes.len() == names.len() ==> registered(names, codes).0.phase
            == RegistrationPhase::Done && registered(names, codes).1
            == RegistrationActionView::Finished,
    decreases codes.len(),
{
    if codes.len() > 0 {
        let before = codes.drop_last();
        assert forall|i: int| 0 <= i < before.len() implies before[i] == 0 || before[i] == 1 by {
            assert(before[i] == codes[i]);
        }
        lemma_registration_walks_the_catalog(names, before);
        let s = registered(names, before).0;
        assert forall|i: int| 0 <= i < codes.len() implies AddGroupOutcome::of(codes[i]) == Some(
            #[trigger] registered(names, codes).0.outcomes[i],
        ) by {
            if i < before.len() {
                assert(registered(names, codes).0.outcomes[i] == s.outcomes[i]);
                assert(before[i] == codes[i]);
            }
        }
    }
}

/// What the store holds: the names of the groups it knows, and who is
/// subscribed to which group, as pairs of user and group.
pub struct StoreView {
    pub groups: Set<Seq<char>>,
    pub members: Set<(Seq<char>, Seq<char>)>,
}

/// What a store in working order does with a request to add a group, and what
/// it answers.
pub open spec fn add_group(store: StoreView, group: Seq<char>) -> (StoreView, int) {
    if store.groups.contains(group) {
        (store, 1)
    } else {
        (StoreView { groups: store.groups.insert(group), ..store }, 0)
    }
}

/// What a store in working order does with a request to subscribe `user` to
/// `group`, and what it answers.
pub open spec fn add_member(store: StoreView, user: Seq<char>, group: Seq<char>) -> (
    StoreView,
    int,
) {
    if !store.groups.contains(group) {
        (store, 2)
    } else if store.members.contains((user, group)) {
        (store, 3)
    } else {
        (StoreView { members: store.members.insert((user, group)), ..store }, 0)
    }
}

/// What a store in working order does with a request to unsubscribe `user`
/// from `group`, and what it answers.
pub open spec fn remove_member(store: StoreView, user: Seq<char>, group: Seq<char>) -> (
    StoreView,
    int,
) {
    if !store.groups.contains(group) {
        (store, 2)
    } else if !store.members.contains((user, group)) {
        (store, 3)
    } else {
        (StoreView { members: store.members.remove((user, group)), ..store }, 0)
    }
}

/// Two requests to subscribe the same user to the same group, taken one after
/// the other, are never both answered `0`; if the group is known and the user
/// was not subscribed, the first is answered `0` and the second `3`. The
/// requests being the same, it does not matter whose was taken first.
pub proof fn lemma_one_subscription_wins(store: StoreView, user: Seq<char>, group: Seq<char>)
    ensures
        ({
            let (after, first) = add_member(store, user, group);
            let (_, second) = add_member(after, user, group);
            &&& !(first == 0 && second == 0)
            &&& store.groups.contains(group) && !store.members.contains((user, group)) ==> first
                == 0 && second == 3
        }),
{
}

/// Two requests to unsubscribe the same user from the same group, taken one
/// after the other, are never both answered `0`; if the user was subscribed,
/// the first is answered `0` and the second `3`.
pub proof fn lemma_one_unsubscription_wins(store: StoreView, user: Seq<char>, group: Seq<char>)
    ensures
        ({
            let (after, first) = remove_member(store, user, group);
            let (_, second) = remove_member(after, user, group);
            &&& !(first == 0 && second == 0)
            &&& store.groups.contains(group) && store.members.contains((user, group)) ==> first
                == 0 && second == 3
        }),
{
}

/// The store after it was asked to add the first `k` of `names`, in order.
pub open spec fn stored(store: StoreView, names: Seq<Seq<char>>, k: nat) -> StoreView
    decreases k,
{
    if k == 0 {
        store
    } else {
        add_group(stored(store, names, (k - 1) as nat), names[k - 1]).0
    }
}

/// What the store answers to each of those requests.
pub open spec fn stored_answers(store: StoreView, names: Seq<Seq<char>>, k: nat) -> Seq<int> {
    Seq::new(k, |i: int| add_group(stored(store, names, i as nat), names[i]).1)
}

/// A registration against a store in working order comes to its end, and
/// then the store knows every group of the catalog: no subscription to one of
/// them will be answered with `2`.
pub proof fn lemma_registered_groups_exist(store: StoreView, names: Seq<Seq<char>>)
    ensures
        registered(names, stored_answers(store, names, names.len())).0.phase
            == RegistrationPhase::Done,
        forall|i: int|
            0 <= i < names.len() ==> stored(store, names, names.len()).groups.contains(
                #[trigger] names[i],
            ),
        forall|i: int, user: Seq<char>|
            0 <= i < names.len() ==> (#[trigger] add_member(
                stored(store, names, names.len()),
                user,
                names[i],
            )).1 != 2,
{
    lemma_registration_walks_the_catalog(names, stored_answers(store, names, names.len()));
    lemma_stored(store, names, names.len());
}

proof fn lemma_stored(store: StoreView, names: Seq<Seq<char>>, k: nat)
    requires
        k <= names.len(),
    ensures
        forall|i: int| 0 <= i < k ==> stored(store, names, k).groups.contains(#[trigger] names[i]),
    decreases k,
{
    if k > 0 {
        lemma_stored(store, names, (k - 1) as nat);
    }
}

} // verus!
