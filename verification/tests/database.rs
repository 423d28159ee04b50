use et_mm_bot::config::parse;
use et_mm_bot::database::{
    AddGroupOutcome, AddMemberOutcome, Registration, RegistrationAction, RegistrationPhase,
    RemoveMemberOutcome, UnknownOutcome,
};

#[test]
fn answers_to_adding_a_group_have_their_meaning() {
    assert_eq!(AddGroupOutcome::from_code(0), Ok(AddGroupOutcome::Added));
    assert_eq!(AddGroupOutcome::from_code(1), Ok(AddGroupOutcome::AlreadyExists));
    for code in [2, 3, -1, i32::MAX, i32::MIN] {
        assert_eq!(AddGroupOutcome::from_code(code), Err(UnknownOutcome { code }));
    }
}

#[test]
fn answers_to_adding_a_member_have_their_meaning() {
    assert_eq!(AddMemberOutcome::from_code(0), Ok(AddMemberOutcome::Subscribed));
    assert_eq!(AddMemberOutcome::from_code(1), Ok(AddMemberOutcome::Failed));
    assert_eq!(AddMemberOutcome::from_code(2), Ok(AddMemberOutcome::NoSuchGroup));
    assert_eq!(AddMemberOutcome::from_code(3), Ok(AddMemberOutcome::AlreadySubscribed));
    for code in [4, 5, -1, i32::MAX, i32::MIN] {
        assert_eq!(AddMemberOutcome::from_code(code), Err(UnknownOutcome { code }));
    }
}

#[test]
fn answers_to_removing_a_member_have_their_meaning() {
    assert_eq!(RemoveMemberOutcome::from_code(0), Ok(RemoveMemberOutcome::Unsubscribed));
    assert_eq!(RemoveMemberOutcome::from_code(1), Ok(RemoveMemberOutcome::Failed));
    assert_eq!(RemoveMemberOutcome::from_code(2), Ok(RemoveMemberOutcome::NoSuchGroup));
    assert_eq!(RemoveMemberOutcome::from_code(3), Ok(RemoveMemberOutcome::NotSubscribed));
    for code in [4, 5, -1, i32::MAX, i32::MIN] {
        assert_eq!(RemoveMemberOutcome::from_code(code), Err(UnknownOutcome { code }));
    }
}

fn add(name: &str) -> RegistrationAction {
    RegistrationAction::AddGroup { name: name.to_string() }
}

#[test]
fn every_group_is_registered_in_catalog_order() {
    let catalog = parse("[mm-groups]\n1v1: a:1\n3v3: a:3\n6v6: a:6\n").unwrap();
    let (registration, action) = Registration::start(&catalog);
    assert_eq!(action, add("1v1"));
    let (registration, action) = registration.step(Ok(0));
    assert_eq!(action, add("3v3"));
    let (registration, action) = registration.step(Ok(1));
    assert_eq!(action, add("6v6"));
    let (registration, action) = registration.step(Ok(0));
    assert_eq!(action, RegistrationAction::Finished);
    assert_eq!(registration.phase, RegistrationPhase::Done);
    assert_eq!(
        registration.outcomes,
        vec![AddGroupOutcome::Added, AddGroupOutcome::AlreadyExists, AddGroupOutcome::Added]
    );
    let (registration, action) = registration.step(Ok(0));
    assert_eq!(action, RegistrationAction::Nothing);
    assert_eq!(registration.outcomes.len(), 3);
}

#[test]
fn an_answer_without_meaning_ends_the_registration() {
    let catalog = parse("[mm-groups]\n1v1: a:1\n3v3: a:3\n").unwrap();
    let (registration, _) = Registration::start(&catalog);
    let (registration, action) = registration.step(Ok(2));
    assert_eq!(
        action,
        RegistrationAction::Fail {
            message: "unknown database result for add_match_making_groups function: 2"
                .to_string()
        }
    );
    assert_eq!(registration.phase, RegistrationPhase::Failed);
    assert!(registration.outcomes.is_empty());
    let (registration, action) = registration.step(Ok(0));
    assert_eq!(action, RegistrationAction::Nothing);
    assert_eq!(registration.phase, RegistrationPhase::Failed);
}

#[test]
fn a_store_out_of_reach_ends_the_registration() {
    let catalog = parse("[mm-groups]\n1v1: a:1\n3v3: a:3\n").unwrap();
    let (registration, _) = Registration::start(&catalog);
    let (registration, _) = registration.step(Ok(1));
    let (registration, action) = registration.step(Err("connection reset".to_string()));
    assert_eq!(action, RegistrationAction::Fail { message: "connection reset".to_string() });
    assert_eq!(registration.phase, RegistrationPhase::Failed);
    assert_eq!(registration.outcomes, vec![AddGroupOutcome::AlreadyExists]);
}

#[test]
fn nothing_is_registered_for_an_empty_catalog() {
    let (registration, action) = Registration::start(&Vec::new());
    assert_eq!(action, RegistrationAction::Finished);
    assert_eq!(registration.phase, RegistrationPhase::Done);
}
