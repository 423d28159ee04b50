use et_mm_bot::bot::{
    Channel, Finding, GroupReport, GuildAction, GuildEvent, ReconcilePhase, Reconciler,
};
use et_mm_bot::config::{parse, MMGroup};

/// A guild that does as it is asked.
struct Guild {
    channels: Vec<Channel>,
    roles: Vec<String>,
    hoisted: Vec<String>,
    creations: usize,
    lists: usize,
}

impl Guild {
    fn empty() -> Guild {
        Guild { channels: vec![], roles: vec![], hoisted: vec![], creations: 0, lists: 0 }
    }

    fn answer(&mut self, action: GuildAction) -> Option<GuildEvent> {
        match action {
            GuildAction::ListChannels => {
                self.lists += 1;
                Some(GuildEvent::Channels(Ok(self.channels.clone())))
            },
            GuildAction::ListRoles => {
                self.lists += 1;
                Some(GuildEvent::Roles(Ok(self.roles.clone())))
            },
            GuildAction::CreateChannel { name } => {
                self.creations += 1;
                self.channels.push(Channel { name, is_text: true });
                Some(GuildEvent::Created(Ok(())))
            },
            GuildAction::CreateRole { name, hoist } => {
                self.creations += 1;
                if hoist {
                    self.hoisted.push(name.clone());
                }
                self.roles.push(name);
                Some(GuildEvent::Created(Ok(())))
            },
            GuildAction::Finished | GuildAction::Nothing => None,
        }
    }
}

fn catalog(names: &[&str]) -> Vec<MMGroup> {
    let mut source = String::from("[mm-groups]\n");
    for name in names {
        source.push_str(&format!("{}: Axis:1, Allies:1\n", name));
    }
    parse(&source).unwrap()
}

fn text_channel(name: &str) -> Channel {
    Channel { name: name.to_string(), is_text: true }
}

fn pass(catalog: &Vec<MMGroup>, guild: &mut Guild) -> Vec<GroupReport> {
    let (mut reconciler, mut action) = Reconciler::start(catalog);
    let mut steps = 0;
    while let Some(event) = guild.answer(action) {
        let (next, asked) = reconciler.step(event);
        reconciler = next;
        action = asked;
        steps += 1;
        assert!(steps <= 4 * catalog.len());
    }
    assert_eq!(reconciler.phase, ReconcilePhase::Done);
    reconciler.report
}

fn report(group: &str, channel: Finding, role: Finding) -> GroupReport {
    GroupReport { group: group.to_string(), channel, role }
}

#[test]
fn a_guild_that_has_channel_and_role_is_left_alone() {
    let catalog = catalog(&["6v6"]);
    let (reconciler, action) = Reconciler::start(&catalog);
    assert_eq!(action, GuildAction::ListChannels);
    let (reconciler, action) =
        reconciler.step(GuildEvent::Channels(Ok(vec![text_channel("6v6")])));
    assert_eq!(action, GuildAction::ListRoles);
    let (reconciler, action) = reconciler.step(GuildEvent::Roles(Ok(vec!["6v6".to_string()])));
    assert_eq!(action, GuildAction::Finished);
    assert_eq!(reconciler.phase, ReconcilePhase::Done);
    assert_eq!(
        reconciler.report,
        vec![report("6v6", Finding::AlreadyPresent, Finding::AlreadyPresent)]
    );
}

#[test]
fn what_is_missing_is_created_and_the_role_is_hoisted() {
    let catalog = catalog(&["1v1"]);
    let (reconciler, _) = Reconciler::start(&catalog);
    let (reconciler, action) = reconciler.step(GuildEvent::Channels(Ok(vec![])));
    assert_eq!(action, GuildAction::CreateChannel { name: "1v1".to_string() });
    let (reconciler, action) = reconciler.step(GuildEvent::Created(Ok(())));
    assert_eq!(action, GuildAction::ListRoles);
    let (reconciler, action) = reconciler.step(GuildEvent::Roles(Ok(vec![])));
    assert_eq!(action, GuildAction::CreateRole { name: "1v1".to_string(), hoist: true });
    let (reconciler, action) = reconciler.step(GuildEvent::Created(Ok(())));
    assert_eq!(action, GuildAction::Finished);
    assert_eq!(reconciler.report, vec![report("1v1", Finding::Created, Finding::Created)]);
}

#[test]
fn only_a_text_channel_of_exactly_that_name_counts() {
    let catalog = catalog(&["1v1"]);
    for channels in [
        vec![Channel { name: "1v1".to_string(), is_text: false }],
        vec![text_channel("1V1")],
        vec![text_channel("1v1 ")],
        vec![text_channel("11v1"), text_channel("1v")],
    ] {
        let (reconciler, _) = Reconciler::start(&catalog);
        let (_, action) = reconciler.step(GuildEvent::Channels(Ok(channels)));
        assert_eq!(action, GuildAction::CreateChannel { name: "1v1".to_string() });
    }
    let (reconciler, _) = Reconciler::start(&catalog);
    let (_, action) = reconciler.step(GuildEvent::Channels(Ok(vec![
        Channel { name: "1v1".to_string(), is_text: false },
        text_channel("general"),
        text_channel("1v1"),
    ])));
    assert_eq!(action, GuildAction::ListRoles);
}

#[test]
fn only_a_role_of_exactly_that_name_counts() {
    let catalog = catalog(&["1v1"]);
    let at_roles = || {
        let (reconciler, _) = Reconciler::start(&catalog);
        reconciler.step(GuildEvent::Channels(Ok(vec![text_channel("1v1")]))).0
    };
    let (_, action) =
        at_roles().step(GuildEvent::Roles(Ok(vec!["1V1".to_string(), "@everyone".to_string()])));
    assert_eq!(action, GuildAction::CreateRole { name: "1v1".to_string(), hoist: true });
    let (_, action) =
        at_roles().step(GuildEvent::Roles(Ok(vec!["@everyone".to_string(), "1v1".to_string()])));
    assert_eq!(action, GuildAction::Finished);
}

#[test]
fn groups_are_seen_to_in_catalog_order() {
    let catalog = catalog(&["b", "a", "c"]);
    let mut guild = Guild::empty();
    guild.channels.push(text_channel("a"));
    guild.roles.push("c".to_string());
    let reports = pass(&catalog, &mut guild);
    assert_eq!(
        reports,
        vec![
            report("b", Finding::Created, Finding::Created),
            report("a", Finding::AlreadyPresent, Finding::Created),
            report("c", Finding::Created, Finding::AlreadyPresent),
        ]
    );
    assert_eq!(guild.creations, 4);
    assert_eq!(guild.hoisted, vec!["b", "a"]);
    assert_eq!(
        guild.channels.iter().map(|c| c.name.as_str()).collect::<Vec<_>>(),
        vec!["a", "b", "c"]
    );
}

#[test]
fn the_guild_is_read_afresh_for_every_group() {
    let catalog = catalog(&["1v1", "3v3", "6v6"]);
    let mut guild = Guild::empty();
    pass(&catalog, &mut guild);
    assert_eq!(guild.lists, 6);
}

#[test]
fn a_second_pass_creates_nothing() {
    let catalog = catalog(&["1v1", "3v3", "6v6"]);
    let mut guild = Guild::empty();
    guild.roles.push("3v3".to_string());
    let first = pass(&catalog, &mut guild);
    assert_eq!(guild.creations, 5);
    assert_eq!(first.len(), 3);
    guild.creations = 0;
    let second = pass(&catalog, &mut guild);
    assert_eq!(guild.creations, 0);
    assert_eq!(
        second,
        vec![
            report("1v1", Finding::AlreadyPresent, Finding::AlreadyPresent),
            report("3v3", Finding::AlreadyPresent, Finding::AlreadyPresent),
            report("6v6", Finding::AlreadyPresent, Finding::AlreadyPresent),
        ]
    );
    assert_eq!(guild.channels.len(), 3);
    assert_eq!(guild.roles.len(), 3);
}

#[test]
fn a_refusal_is_noted_and_the_work_goes_on() {
    let catalog = catalog(&["1v1", "6v6"]);
    let (reconciler, _) = Reconciler::start(&catalog);
    let (reconciler, action) =
        reconciler.step(GuildEvent::Channels(Err("Missing Access".to_string())));
    assert_eq!(action, GuildAction::ListRoles);
    let (reconciler, action) = reconciler.step(GuildEvent::Roles(Ok(vec![])));
    assert_eq!(action, GuildAction::CreateRole { name: "1v1".to_string(), hoist: true });
    let (reconciler, action) =
        reconciler.step(GuildEvent::Created(Err("Missing Permissions".to_string())));
    assert_eq!(action, GuildAction::ListChannels);
    assert_eq!(reconciler.next, 1);
    let (reconciler, action) = reconciler.step(GuildEvent::Channels(Ok(vec![])));
    assert_eq!(action, GuildAction::CreateChannel { name: "6v6".to_string() });
    let (reconciler, action) =
        reconciler.step(GuildEvent::Created(Err("Maximum number of channels".to_string())));
    assert_eq!(action, GuildAction::ListRoles);
    let (reconciler, action) = reconciler.step(GuildEvent::Roles(Err("timeout".to_string())));
    assert_eq!(action, GuildAction::Finished);
    assert_eq!(
        reconciler.report,
        vec![
            report(
                "1v1",
                Finding::Failed("Missing Access".to_string()),
                Finding::Failed("Missing Permissions".to_string())
            ),
            report(
                "6v6",
                Finding::Failed("Maximum number of channels".to_string()),
                Finding::Failed("timeout".to_string())
            ),
        ]
    );
}

#[test]
fn an_empty_catalog_is_finished_at_once() {
    let (reconciler, action) = Reconciler::start(&Vec::new());
    assert_eq!(action, GuildAction::Finished);
    assert_eq!(reconciler.phase, ReconcilePhase::Done);
    assert!(reconciler.report.is_empty());
    let (reconciler, action) = reconciler.step(GuildEvent::Channels(Ok(vec![])));
    assert_eq!(action, GuildAction::Nothing);
    assert_eq!(reconciler.phase, ReconcilePhase::Done);
}

#[test]
fn guild_events_out_of_turn_change_nothing() {
    let catalog = catalog(&["1v1"]);
    let (start, _) = Reconciler::start(&catalog);
    for event in [GuildEvent::Roles(Ok(vec![])), GuildEvent::Created(Ok(()))] {
        let (after, action) = start.clone().step(event);
        assert_eq!(after, start);
        assert_eq!(action, GuildAction::Nothing);
    }
    let (creating, _) = start.clone().step(GuildEvent::Channels(Ok(vec![])));
    for event in [GuildEvent::Roles(Ok(vec![])), GuildEvent::Channels(Ok(vec![]))] {
        let (after, action) = creating.clone().step(event);
        assert_eq!(after, creating);
        assert_eq!(action, GuildAction::Nothing);
    }
}

#[test]
fn a_reconciler_that_was_handed_out_is_well_formed() {
    let catalog = catalog(&["1v1", "6v6"]);
    let (mut reconciler, mut action) = Reconciler::start(&catalog);
    let mut guild = Guild::empty();
    assert!(reconciler.well_formed());
    while let Some(event) = guild.answer(action) {
        let (next, asked) = reconciler.step(event);
        reconciler = next;
        action = asked;
        assert!(reconciler.well_formed());
    }
    let lost = Reconciler {
        names: vec!["1v1".to_string()],
        next: 1,
        phase: ReconcilePhase::Channels,
        channel: None,
        report: vec![],
    };
    assert!(!lost.well_formed());
    let lost = Reconciler {
        names: vec!["1v1".to_string()],
        next: 0,
        phase: ReconcilePhase::Roles,
        channel: None,
        report: vec![],
    };
    assert!(!lost.well_formed());
}
