//! The `subscribe` command: the member who types it in the channel of a
//! matchmaking group joins that group.
//!
//! The group is the one the channel is named after; the command takes no
//! argument. The store is asked first, because it is the record of who is
//! subscribed. Only when it has recorded the member is the role of the group
//! granted, and a role that cannot be granted leaves the subscription in place:
//! the member is told of the success and the caller gets a warning to log.

use crate::bot::commands::{
    gather, no_such_group, no_such_group_text, reply, store_failed, store_failed_text, store_unreachable,
    store_unreachable_text, Action, ActionView, Event, EventView, Invocation, InvocationView, Operation,
    Phase, Resolution, ResolutionView, RoleChange, RoleChangeView,
};
use crate::database::{add_member, AddMemberOutcome, StoreView};
use crate::text::{
    decimal_digits, lemma_signed_digits, lemma_signed_digits_differ, push_signed, signed_digits,
};
use vstd::prelude::*;

verus! {

/// The reply to a member who is now subscribed.
pub open spec fn subscribed_text(user: Seq<char>, group: Seq<char>) -> Seq<char> {
    user + " has been subscribed to the "@ + group + " match making group."@
}

/// The reply to a member who was subscribed already.
pub open spec fn already_subscribed_text(user: Seq<char>, group: Seq<char>) -> Seq<char> {
    user + " is already subscribed to match making group: "@ + group
}

/// The reply when the store's answer has no meaning.
pub open spec fn unknown_outcome_text(code: int) -> Seq<char> {
    "database returned an unkown result when calling add_match_making_user(): "@ + signed_digits(
        code,
    )
}

/// The warning when the guild has no role for the group.
pub open spec fn no_role_warning() -> Seq<char> {
    "error retrieving role."@
}

/// The warning when the platform refused to grant the role.
pub open spec fn rejected_warning(role: Seq<char>, user: Seq<char>, words: Seq<char>) -> Seq<
    char,
> {
    "error adding role: "@ + role + " for user: "@ + user + " error: "@ + words
}

/// What the store's answer leads to: the role of the group is granted if the
/// member is now subscribed; any other answer ends the invocation with the
/// reply that belongs to it.
pub open spec fn answered(s: InvocationView, code: int) -> (InvocationView, ActionView) {
    match AddMemberOutcome::of(code) {
        Some(AddMemberOutcome::Subscribed) => (
            InvocationView { phase: Phase::Role, ..s },
            ActionView::GrantRole { role: s.group },
        ),
        Some(AddMemberOutcome::Failed) => reply(
            s,
            store_failed_text(s.user_name),
            ResolutionView::StoreFailed,
        ),
        Some(AddMemberOutcome::NoSuchGroup) => reply(
            s,
            no_such_group_text(s.group),
            ResolutionView::NoSuchGroup,
        ),
        Some(AddMemberOutcome::AlreadySubscribed) => reply(
            s,
            already_subscribed_text(s.user_name, s.group),
            ResolutionView::NoChange,
        ),
        None => reply(s, unknown_outcome_text(code), ResolutionView::UnknownOutcome(code)),
    }
}

/// How the role change ends the invocation: the member is told of the
/// subscription either way.
pub open spec fn role_changed(s: InvocationView, change: RoleChangeView) -> (
    InvocationView,
    ActionView,
) {
    let text = subscribed_text(s.user_name, s.group);
    match change {
        RoleChangeView::Done => reply(s, text, ResolutionView::Changed),
        RoleChangeView::NoSuchRole => reply(
            s,
            text,
            ResolutionView::ChangedWithWarning(no_role_warning()),
        ),
        RoleChangeView::Rejected(words) => reply(
            s,
            text,
            ResolutionView::ChangedWithWarning(rejected_warning(s.group, s.user_name, words)),
        ),
    }
}

/// One step of `subscribe`: what an invocation in state `s` becomes, and asks
/// for, when `event` comes in. An event other than the one waited for changes
/// nothing.
pub open spec fn subscribe_step(s: InvocationView, event: EventView) -> (
    InvocationView,
    ActionView,
) {
    match s.phase {
        Phase::Channel | Phase::Guild | Phase::Member => gather(Operation::Subscribe, s, event),
        Phase::Store => match event {
            EventView::Store(Ok(code)) => answered(s, code),
            EventView::Store(Err(words)) => reply(
                s,
                store_unreachable_text(words),
                ResolutionView::StoreUnreachable,
            ),
            _ => (s, ActionView::Nothing),
        },
        Phase::Role => match event {
            EventView::Role(change) => role_changed(s, change),
            _ => (s, ActionView::Nothing),
        },
        Phase::Done => (s, ActionView::Nothing),
    }
}

fn subscribed(user: &String, group: &String) -> (text: String)
    ensures
        text@ == subscribed_text(user@, group@),
{
    let mut text = user.clone();
    text.append(" has been subscribed to the ");
    text.append(group.as_str());
    text.append(" match making group.");
    text
}

fn already_subscribed(user: &String, group: &String) -> (text: String)
    ensures
        text@ == already_subscribed_text(user@, group@),
{
    let mut text = user.clone();
    text.append(" is already subscribed to match making group: ");
    text.append(group.as_str());
    text
}

fn unknown_outcome(code: i32) -> (text: String)
    ensures
        text@ == unknown_outcome_text(code as int),
{
    let mut text =
        "database returned an unkown result when calling add_match_making_user(): ".to_owned();
    push_signed(&mut text, code);
    text
}

fn rejected(role: &String, user: &String, words: &String) -> (text: String)
    ensures
        text@ == rejected_warning(role@, user@, words@),
{
    let mut text = "error adding role: ".to_owned();
    text.append(role.as_str());
    text.append(" for user: ");
    text.append(user.as_str());
    text.append(" error: ");
    text.append(words.as_str());
    text
}

/// Takes one step of `subscribe`: given what the caller heard, says how the
/// invocation goes on and what to do next.
pub fn subscribe(invocation: Invocation, event: Event) -> (r: (Invocation, Action))
    ensures
        (r.0@, r.1@) == subscribe_step(invocation@, event@),
{
    match invocation.phase {
        Phase::Channel | Phase::Guild | Phase::Member => invocation.gather(
            Operation::Subscribe,
            event,
        ),
        Phase::Store => match event {
            Event::Store(Ok(code)) => match AddMemberOutcome::from_code(code) {
                Ok(AddMemberOutcome::Subscribed) => {
                    let role = invocation.group.clone();
                    (
                        Invocation {
                            phase: Phase::Role,
                            user_id: invocation.user_id,
                            user_name: invocation.user_name,
                            group: invocation.group,
                        },
                        Action::GrantRole { role },
                    )
                },
                Ok(AddMemberOutcome::Failed) => {
                    let text = store_failed(&invocation.user_name);
                    invocation.finish(text, Resolution::StoreFailed)
                },
                Ok(AddMemberOutcome::NoSuchGroup) => {
                    let text = no_such_group(&invocation.group);
                    invocation.finish(text, Resolution::NoSuchGroup)
                },
                Ok(AddMemberOutcome::AlreadySubscribed) => {
                    let text = already_subscribed(&invocation.user_name, &invocation.group);
                    invocation.finish(text, Resolution::NoChange)
                },
                Err(unknown) => {
                    let text = unknown_outcome(unknown.code);
                    invocation.finish(text, Resolution::UnknownOutcome(unknown.code))
                },
            },
            Event::Store(Err(words)) => {
                let text = store_unreachable(&words);
                invocation.finish(text, Resolution::StoreUnreachable)
            },
            _ => invocation.stay(),
        },
        Phase::Role => match event {
            Event::Role(change) => {
                let text = subscribed(&invocation.user_name, &invocation.group);
                let resolution = match change {
                    RoleChange::Done => Resolution::Changed,
                    RoleChange::NoSuchRole => Resolution::ChangedWithWarning(
                        "error retrieving role.".to_owned(),
                    ),
                    RoleChange::Rejected(words) => Resolution::ChangedWithWarning(
                        rejected(&invocation.group, &invocation.user_name, &words),
                    ),
                };
                invocation.finish(text, resolution)
            },
            _ => invocation.stay(),
        },
        Phase::Done => invocation.stay(),
    }
}

/// What the member reads in the end when the store answers `code`.
pub open spec fn outcome_text(user: Seq<char>, group: Seq<char>, code: int) -> Seq<char> {
    match AddMemberOutcome::of(code) {
        Some(AddMemberOutcome::Subscribed) => subscribed_text(user, group),
        Some(AddMemberOutcome::Failed) => store_failed_text(user),
        Some(AddMemberOutcome::NoSuchGroup) => no_such_group_text(group),
        Some(AddMemberOutcome::AlreadySubscribed) => already_subscribed_text(user, group),
        None => unknown_outcome_text(code),
    }
}

/// Every answer of the store has its way on: `0` leads to the role, every
/// other integer to a reply, and two different integers never to the same
/// resolution.
pub proof fn lemma_answers_are_told_apart(s: InvocationView, a: int, b: int)
    ensures
        answered(s, a).1 is GrantRole <==> a == 0,
        a != 0 ==> answered(s, a).1 is Reply && answered(s, a).0.phase == Phase::Done,
        a != b ==> answered(s, a).1 != answered(s, b).1,
{
}

/// Different answers are told to the member in different words, whoever the
/// member and whatever the group.
pub proof fn lemma_replies_differ(user: Seq<char>, group: Seq<char>, a: int, b: int)
    requires
        a != b,
    ensures
        outcome_text(user, group, a) != outcome_text(user, group, b),
{
    reveal_strlit(" has been subscribed to the ");
    reveal_strlit(" match making group.");
    reveal_strlit("failed to add ");
    reveal_strlit(" to the database.");
    reveal_strlit("match making group: ");
    reveal_strlit(" does not exist.");
    reveal_strlit(" is already subscribed to match making group: ");
    reveal_strlit("database returned an unkown result when calling add_match_making_user(): ");
    let head = "database returned an unkown result when calling add_match_making_user(): "@;
    let ta = outcome_text(user, group, a);
    let tb = outcome_text(user, group, b);
    let known_a = AddMemberOutcome::of(a) is Some;
    let known_b = AddMemberOutcome::of(b) is Some;
    lemma_signed_digits(a);
    lemma_signed_digits(b);
    if known_a && known_b {
        // Two answers with a meaning: their replies differ in length, but for
        // `1` and `2`, whose replies differ in their first letter.
        if a + b == 3 && a != 0 && b != 0 {
            assert(ta[0] != tb[0]);
        } else {
            assert(ta.len() != tb.len());
        }
    } else if !known_a && !known_b {
        // Two answers without meaning: their replies end in different digits.
        lemma_signed_digits_differ(a, b);
        if ta == tb {
            assert(signed_digits(a) == ta.skip(73));
            assert(signed_digits(b) == tb.skip(73));
        }
    } else {
        // One answer without meaning: its reply starts with `d`, ends in a
        // digit, and holds no `p`; the other reply ends in a full stop, starts
        // with `f` or `m`, or holds the `p` of "group".
        let (code, known, unknown) = if known_a {
            (a, ta, tb)
        } else {
            (b, tb, ta)
        };
        let digits = signed_digits(if known_a {
            b
        } else {
            a
        });
        assert(unknown.len() == 73 + digits.len());
        assert(unknown.last() == digits.last());
        assert(unknown[0] == 'd');
        assert forall|i: int| 0 <= i < unknown.len() implies unknown[i] != 'p' by {
            if i >= 73 {
                assert(unknown[i] == digits[i - 73]);
            } else {
                assert(unknown[i] == head[i]);
            }
        }
        if code == 0 {
            assert(known.last() == '.');
        } else if code == 1 {
            assert(known[0] == 'f');
        } else if code == 2 {
            assert(known[0] == 'm');
        } else {
            assert(known[user.len() as int + 43] == 'p');
        }
    }
}

/// When the same member has two subscriptions to the same group under way
/// at once, and the store, in working order, takes their requests one after
/// the other, one invocation is led on to the role and the other tells the
/// member that there was nothing to change. Never are both led on.
pub proof fn lemma_one_of_two_subscribes(store: StoreView, s: InvocationView)
    requires
        s.phase == Phase::Store,
        store.groups.contains(s.group),
        !store.members.contains((decimal_digits(s.user_id), s.group)),
    ensures
        ({
            let user = decimal_digits(s.user_id);
            let (after, first) = add_member(store, user, s.group);
            let (_, second) = add_member(after, user, s.group);
            &&& subscribe_step(s, EventView::Store(Ok(first))).1 == (ActionView::GrantRole {
                role: s.group,
            })
            &&& subscribe_step(s, EventView::Store(Ok(second))).1 == (ActionView::Reply {
                text: already_subscribed_text(s.user_name, s.group),
                resolution: ResolutionView::NoChange,
            })
        }),
{
}

} // verus!
