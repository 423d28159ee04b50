//! The `unsubscribe` command: the member who types it in the channel of a
//! matchmaking group leaves that group.
//!
//! It mirrors `subscribe`. The store is asked first; only when it has
//! dropped the member is the role of the group revoked, and a role that
//! cannot be revoked does not bring the subscription back: the member is told
//! of the success and the caller gets a warning to log.

use crate::bot::commands::{
    gather, no_such_group, no_such_group_text, reply, store_failed, store_failed_text, store_unreachable,
    store_unreachable_text, Action, ActionView, Event, EventView, Invocation, InvocationView, Operation,
    Phase, Resolution, ResolutionView, RoleChange, RoleChangeView,
};
use crate::database::{remove_member, RemoveMemberOutcome, StoreView};
use crate::text::{
    decimal_digits, lemma_signed_digits, lemma_signed_digits_differ, push_signed, signed_digits,
};
use vstd::prelude::*;

verus! {

/// The reply to a member who is no longer subscribed.
pub open spec fn unsubscribed_text(user: Seq<char>, group: Seq<char>) -> Seq<char> {
    user + " has been unsubscribed from the "@ + group + " match making group."@
}

/// The reply to a member who was not subscribed.
pub open spec fn not_subscribed_text(user: Seq<char>, group: Seq<char>) -> Seq<char> {
    user + " is not subscribed to match making group: "@ + group
}

/// The reply when the store's answer has no meaning.
pub open spec fn unknown_outcome_text(code: int) -> Seq<char> {
    "database returned an unkown result when calling remove_match_making_user(): "@ + signed_digits(
        code,
    )
}

/// The warning when the guild has no role for the group.
pub open spec fn no_role_warning(group: Seq<char>) -> Seq<char> {
    "error retrieving role "@ + group + "."@
}

/// The warning when the platform refused to revoke the role.
pub open spec fn rejected_warning(role: Seq<char>, user: Seq<char>, words: Seq<char>) -> Seq<
    char,
> {
    "error removing role: "@ + role + " for user: "@ + user + " error: "@ + words
}

/// What the store's answer leads to: the role of the group is revoked if the
/// member is no longer subscribed; any other answer ends the invocation with the
/// reply that belongs to it.
pub open spec fn answered(s: InvocationView, code: int) -> (InvocationView, ActionView) {
    match RemoveMemberOutcome::of(code) {
        Some(RemoveMemberOutcome::Unsubscribed) => (
            InvocationView { phase: Phase::Role, ..s },
            ActionView::RevokeRole { role: s.group },
        ),
        Some(RemoveMemberOutcome::Failed) => reply(
            s,
            store_failed_text(s.user_name),
            ResolutionView::StoreFailed,
        ),
        Some(RemoveMemberOutcome::NoSuchGroup) => reply(
            s,
            no_such_group_text(s.group),
            ResolutionView::NoSuchGroup,
        ),
        Some(RemoveMemberOutcome::NotSubscribed) => reply(
            s,
            not_subscribed_text(s.user_name, s.group),
            ResolutionView::NoChange,
        ),
        None => reply(s, unknown_outcome_text(code), ResolutionView::UnknownOutcome(code)),
    }
}

/// How the role change ends the invocation: the member is told that the
/// subscription has ended either way.
pub open spec fn role_changed(s: InvocationView, change: RoleChangeView) -> (
    InvocationView,
    ActionView,
) {
    let text = unsubscribed_text(s.user_name, s.group);
    match change {
        RoleChangeView::Done => reply(s, text, ResolutionView::Changed),
        RoleChangeView::NoSuchRole => reply(
            s,
            text,
            ResolutionView::ChangedWithWarning(no_role_warning(s.group)),
        ),
        RoleChangeView::Rejected(words) => reply(
            s,
            text,
            ResolutionView::ChangedWithWarning(rejected_warning(s.group, s.user_name, words)),
        ),
    }
}

/// One step of `unsubscribe`: what an invocation in state `s` becomes, and asks
/// for, when `event` comes in. An event other than the one waited for changes
/// nothing.
pub open spec fn unsubscribe_step(s: InvocationView, event: EventView) -> (
    InvocationView,
    ActionView,
) {
    match s.phase {
        Phase::Channel | Phase::Guild | Phase::Member => gather(Operation::Unsubscribe, s, event),
        Phase::Store => match event {
            EventView::Store(Ok(code)) => answered(s, code),
            EventView::Store(Err(words)) => reply(
                s,
                store_unreachable_text(words),
                ResolutionView::StoreUnreachable,
            ),
            _ => (s, ActionView::Nothing),
        },
        Phase::Role => match event {
            EventView::Role(change) => role_changed(s, change),
            _ => (s, ActionView::Nothing),
        },
        Phase::Done => (s, ActionView::Nothing),
    }
}

fn unsubscribed(user: &String, group: &String) -> (text: String)
    ensures
        text@ == unsubscribed_text(user@, group@),
{
    let mut text = user.clone();
    text.append(" has been unsubscribed from the ");
    text.append(group.as_str());
    text.append(" match making group.");
    text
}

fn not_subscribed(user: &String, group: &String) -> (text: String)
    ensures
        text@ == not_subscribed_text(user@, group@),
{
    let mut text = user.clone();
    text.append(" is not subscribed to match making group: ");
    text.append(group.as_str());
    text
}

fn unknown_outcome(code: i32) -> (text: String)
    ensures
        text@ == unknown_outcome_text(code as int),
{
    let mut text =
        "database returned an unkown result when calling remove_match_making_user(): ".to_owned();
    push_signed(&mut text, code);
    text
}

fn no_role(group: &String) -> (text: String)
    ensures
        text@ == no_role_warning(group@),
{
    let mut text = "error retrieving role ".to_owned();
    text.append(group.as_str());
    text.append(".");
    text
}

fn rejected(role: &String, user: &String, words: &String) -> (text: String)
    ensures
        text@ == rejected_warning(role@, user@, words@),
{
    let mut text = "error removing role: ".to_owned();
    text.append(role.as_str());
    text.append(" for user: ");
    text.append(user.as_str());
    text.append(" error: ");
    text.append(words.as_str());
    text
}

/// Takes one step of `unsubscribe`: given what the caller heard, says how the
/// invocation goes on and what to do next.
pub fn unsubscribe(invocation: Invocation, event: Event) -> (r: (Invocation, Action))
    ensures
        (r.0@, r.1@) == unsubscribe_step(invocation@, event@),
{
    match invocation.phase {
        Phase::Channel | Phase::Guild | Phase::Member => invocation.gather(
            Operation::Unsubscribe,
            event,
        ),
        Phase::Store => match event {
            Event::Store(Ok(code)) => match RemoveMemberOutcome::from_code(code) {
                Ok(RemoveMemberOutcome::Unsubscribed) => {
                    let role = invocation.group.clone();
                    (
                        Invocation {
                            phase: Phase::Role,
                            user_id: invocation.user_id,
                            user_name: invocation.user_name,
                            group: invocation.group,
                        },
                        Action::RevokeRole { role },
                    )
                },
                Ok(RemoveMemberOutcome::Failed) => {
                    let text = store_failed(&invocation.user_name);
                    invocation.finish(text, Resolution::StoreFailed)
                },
                Ok(RemoveMemberOutcome::NoSuchGroup) => {
                    let text = no_such_group(&invocation.group);
                    invocation.finish(text, Resolution::NoSuchGroup)
                },
                Ok(RemoveMemberOutcome::NotSubscribed) => {
                    let text = not_subscribed(&invocation.user_name, &invocation.group);
                    invocation.finish(text, Resolution::NoChange)
                },
                Err(unknown) => {
                    let text = unknown_outcome(unknown.code);
                    invocation.finish(text, Resolution::UnknownOutcome(unknown.code))
                },
            },
            Event::Store(Err(words)) => {
                let text = store_unreachable(&words);
                invocation.finish(text, Resolution::StoreUnreachable)
            },
            _ => invocation.stay(),
        },
        Phase::Role => match event {
            Event::Role(change) => {
                let text = unsubscribed(&invocation.user_name, &invocation.group);
                let resolution = match change {
                    RoleChange::Done => Resolution::Changed,
                    RoleChange::NoSuchRole => Resolution::ChangedWithWarning(
                        no_role(&invocation.group),
                    ),
                    RoleChange::Rejected(words) => Resolution::ChangedWithWarning(
                        rejected(&invocation.group, &invocation.user_name, &words),
                    ),
                };
                invocation.finish(text, resolution)
            },
            _ => invocation.stay(),
        },
        Phase::Done => invocation.stay(),
    }
}

/// What the member reads in the end when the store answers `code`.
pub open spec fn outcome_text(user: Seq<char>, group: Seq<char>, code: int) -> Seq<char> {
    match RemoveMemberOutcome::of(code) {
        Some(RemoveMemberOutcome::Unsubscribed) => unsubscribed_text(user, group),
        Some(RemoveMemberOutcome::Failed) => store_failed_text(user),
        Some(RemoveMemberOutcome::NoSuchGroup) => no_such_group_text(group),
        Some(RemoveMemberOutcome::NotSubscribed) => not_subscribed_text(user, group),
        None => unknown_outcome_text(code),
    }
}

/// Every answer of the store has its way on: `0` leads to the role, every
/// other integer to a reply, and two different integers never to the same
/// resolution.
pub proof fn lemma_answers_are_told_apart(s: InvocationView, a: int, b: int)
    ensures
        answered(s, a).1 is RevokeRole <==> a == 0,
        a != 0 ==> answered(s, a).1 is Reply && answered(s, a).0.phase == Phase::Done,
        a != b ==> answered(s, a).1 != answered(s, b).1,
{
}

/// Different answers are told to the member in different words, whoever the
/// member and whatever the group.
pub proof fn lemma_replies_differ(user: Seq<char>, group: Seq<char>, a: int, b: int)
    requires
        a != b,
    ensures
        outcome_text(user, group, a) != outcome_text(user, group, b),
{
    reveal_strlit(" has been unsubscribed from the ");
    reveal_strlit(" match making group.");
    reveal_strlit("failed to add ");
    reveal_strlit(" to the database.");
    reveal_strlit("match making group: ");
    reveal_strlit(" does not exist.");
    reveal_strlit(" is not subscribed to match making group: ");
    reveal_strlit("database returned an unkown result when calling remove_match_making_user(): ");
    let head = "database returned an unkown result when calling remove_match_making_user(): "@;
    let ta = outcome_text(user, group, a);
    let tb = outcome_text(user, group, b);
    let known_a = RemoveMemberOutcome::of(a) is Some;
    let known_b = RemoveMemberOutcome::of(b) is Some;
    lemma_signed_digits(a);
    lemma_signed_digits(b);
    if known_a && known_b {
        // Two answers with a meaning: their replies differ in length, but for
        // `1` and `2`, whose replies differ in their first letter.
        if a + b == 3 && a != 0 && b != 0 {
            assert(ta[0] != tb[0]);
        } else {
            assert(ta.len() != tb.len());
        }
    } else if !known_a && !known_b {
        // Two answers without meaning: their replies end in different digits.
        lemma_signed_digits_differ(a, b);
        if ta == tb {
            assert(signed_digits(a) == ta.skip(76));
            assert(signed_digits(b) == tb.skip(76));
        }
    } else {
        // One answer without meaning: its reply starts with `d`, ends in a
        // digit, and holds no `p`; the other reply ends in a full stop, starts
        // with `f` or `m`, or holds the `p` of "group".
        let (code, known, unknown) = if known_a {
            (a, ta, tb)
        } else {
            (b, tb, ta)
        };
        let digits = signed_digits(if known_a {
            b
        } else {
            a
        });
        assert(unknown.len() == 76 + digits.len());
        assert(unknown.last() == digits.last());
        assert(unknown[0] == 'd');
        assert forall|i: int| 0 <= i < unknown.len() implies unknown[i] != 'p' by {
            if i >= 76 {
                assert(unknown[i] == digits[i - 76]);
            } else {
                assert(unknown[i] == head[i]);
            }
        }
        if code == 0 {
            assert(known.last() == '.');
        } else if code == 1 {
            assert(known[0] == 'f');
        } else if code == 2 {
            assert(known[0] == 'm');
        } else {
            assert(known[user.len() as int + 39] == 'p');
        }
    }
}

/// When the same member has two unsubscriptions from the same group under
/// way at once, and the store, in working order, takes their requests one
/// after the other, one invocation is led on to the role and the other tells
/// the member that there was nothing to change. Never are both led on.
pub proof fn lemma_one_of_two_unsubscribes(store: StoreView, s: InvocationView)
    requires
        s.phase == Phase::Store,
        store.groups.contains(s.group),
        store.members.contains((decimal_digits(s.user_id), s.group)),
    ensures
        ({
            let user = decimal_digits(s.user_id);
            let (after, first) = remove_member(store, user, s.group);
            let (_, second) = remove_member(after, user, s.group);
            &&& unsubscribe_step(s, EventView::Store(Ok(first))).1 == (ActionView::RevokeRole {
                role: s.group,
            })
            &&& unsubscribe_step(s, EventView::Store(Ok(second))).1 == (ActionView::Reply {
                text: not_subscribed_text(s.user_name, s.group),
                resolution: ResolutionView::NoChange,
            })
        }),
{
}

} // verus!
