use et_mm_bot::bot::config::Config as BotConfig;
use et_mm_bot::config::{
    group_names, parse, Config, ConfigError, ConfigErrorKind, MMGroup, Team,
};

const FULL: &str = "[database]\nhost: localhost\nuser: bot\n[discord]\ntoken: abc\n[mm-groups]\n1v1: Axis:1, Allies:1\n6v6: Axis:6, Allies:6\n";

fn team(name: &str, players: i32) -> Team {
    Team { name: name.to_string(), players }
}

fn kind_of_line(line: &str) -> ConfigErrorKind {
    MMGroup::construct(line).unwrap_err().kind
}

fn kind_of_catalog(source: &str) -> ConfigErrorKind {
    parse(source).unwrap_err().kind
}

fn kind_of_config(source: &str) -> ConfigErrorKind {
    match Config::construct(source) {
        Ok(_) => panic!("accepted: {:?}", source),
        Err(e) => e.kind,
    }
}

fn kind_of_check(source: &str) -> ConfigErrorKind {
    Config::check_settings(source).unwrap_err().kind
}

#[test]
fn one_group_under_mm_groups_makes_a_catalog_of_one() {
    let catalog = parse("[mm-groups]\n1v1: Axis:1, Allies:1\n").unwrap();
    assert_eq!(catalog.len(), 1);
    assert_eq!(catalog[0].name, "1v1");
    assert_eq!(catalog[0].players, 2);
    assert_eq!(catalog[0].teams, vec![team("Axis", 1), team("Allies", 1)]);
}

#[test]
fn group_line_is_read_with_trimmed_tokens() {
    let group = MMGroup::construct("  6v6 :  Allies : 6 ,Axis:+6  ").unwrap();
    assert_eq!(
        group,
        MMGroup {
            name: "6v6".to_string(),
            teams: vec![team("Allies", 6), team("Axis", 6)],
            players: 12,
        }
    );
}

#[test]
fn capacity_is_the_sum_of_the_teams() {
    let group = MMGroup::construct("ffa: a:1, b:2, c:3, d:4").unwrap();
    assert_eq!(group.players, 10);
    assert_eq!(group.players, group.teams.iter().map(|t| t.players).sum::<i32>());
    let group = MMGroup::construct("solo: one:1").unwrap();
    assert_eq!(group.players, 1);
    let group = MMGroup::construct("big: a:2147483646, b:1").unwrap();
    assert_eq!(group.players, 2147483647);
}

#[test]
fn a_group_without_teams_is_refused() {
    assert_eq!(kind_of_line("1v1:"), ConfigErrorKind::MalformedTeamToken);
    assert_eq!(kind_of_line("1v1:   "), ConfigErrorKind::MalformedTeamToken);
    assert_eq!(kind_of_line("1v1: ,"), ConfigErrorKind::MalformedTeamToken);
}

#[test]
fn a_label_that_comes_again_replaces_its_count() {
    let group = MMGroup::construct("3v3: Axis:1, Allies:3, Axis:3").unwrap();
    assert_eq!(group.teams, vec![team("Axis", 3), team("Allies", 3)]);
    assert_eq!(group.players, 6);
}

#[test]
fn labels_are_case_sensitive_and_may_be_empty() {
    let group = MMGroup::construct("x: a:1, A:2, :3").unwrap();
    assert_eq!(group.teams, vec![team("a", 1), team("A", 2), team("", 3)]);
    assert_eq!(group.players, 6);
}

#[test]
fn group_line_without_colon_is_malformed() {
    let e = MMGroup::construct("6v6").unwrap_err();
    assert_eq!(e.kind, ConfigErrorKind::MalformedGroupLine);
    assert_eq!(e.detail, "6v6");
    assert_eq!(kind_of_line(""), ConfigErrorKind::MalformedGroupLine);
    assert_eq!(kind_of_line("   "), ConfigErrorKind::MalformedGroupLine);
}

#[test]
fn group_line_without_name_is_malformed() {
    assert_eq!(kind_of_line(": Axis:1"), ConfigErrorKind::MalformedGroupLine);
    assert_eq!(kind_of_line("  \t : Axis:1"), ConfigErrorKind::MalformedGroupLine);
}

#[test]
fn team_token_needs_exactly_one_colon() {
    assert_eq!(kind_of_line("1v1: Axis"), ConfigErrorKind::MalformedTeamToken);
    assert_eq!(kind_of_line("1v1: Axis:1:2"), ConfigErrorKind::MalformedTeamToken);
    assert_eq!(kind_of_line("1v1: Axis:1,"), ConfigErrorKind::MalformedTeamToken);
    assert_eq!(kind_of_line("1v1: Axis:1,,Allies:1"), ConfigErrorKind::MalformedTeamToken);
    assert_eq!(kind_of_line("1v1: Axis:1; Allies:1"), ConfigErrorKind::MalformedTeamToken);
}

#[test]
fn team_count_must_be_a_positive_number() {
    for line in [
        "1v1: Axis:0",
        "1v1: Axis:-1",
        "1v1: Axis:",
        "1v1: Axis: ",
        "1v1: Axis:one",
        "1v1: Axis:1.0",
        "1v1: Axis:1 1",
        "1v1: Axis:2147483648",
        "1v1: Allies:1, Axis:x",
    ] {
        assert_eq!(kind_of_line(line), ConfigErrorKind::InvalidTeamCount, "{:?}", line);
    }
}

#[test]
fn the_first_token_that_fails_decides() {
    assert_eq!(kind_of_line("1v1: Axis:x, Allies"), ConfigErrorKind::InvalidTeamCount);
    assert_eq!(kind_of_line("1v1: Axis, Allies:x"), ConfigErrorKind::MalformedTeamToken);
}

#[test]
fn too_many_players_are_refused() {
    let e = MMGroup::construct("big: a:2147483647, b:1").unwrap_err();
    assert_eq!(e.kind, ConfigErrorKind::CapacityOverflow);
    assert_eq!(e.detail, "big: a:2147483647, b:1");
    // replaced counts do not add up
    assert_eq!(MMGroup::construct("big: a:2147483647, a:1").unwrap().players, 1);
}

#[test]
fn parsing_twice_gives_the_same_catalog() {
    let source = "[mm-groups]\n1v1: Axis:1, Allies:1\n3v3: Axis:3, Allies:3\n6v6: Axis:6,Allies:6";
    let first = parse(source).unwrap();
    let second = parse(source).unwrap();
    assert_eq!(first, second);
    assert_eq!(
        first.iter().map(|g| g.name.as_str()).collect::<Vec<_>>(),
        vec!["1v1", "3v3", "6v6"]
    );
    let bad = "[mm-groups]\n1v1 Axis:1";
    assert_eq!(parse(bad), parse(bad));
}

#[test]
fn groups_keep_the_order_of_the_file() {
    let catalog = parse("[mm-groups]\nb: x:1\na: x:2\nc: x:3\n").unwrap();
    assert_eq!(catalog.iter().map(|g| g.name.as_str()).collect::<Vec<_>>(), vec!["b", "a", "c"]);
}

#[test]
fn duplicate_group_names_are_refused() {
    let e = parse("[mm-groups]\n1v1: Axis:1, Allies:1\n6v6: Axis:6, Allies:6\n1v1: A:2, B:2\n")
        .unwrap_err();
    assert_eq!(e.kind, ConfigErrorKind::DuplicateGroupName);
    assert_eq!(e.detail, "1v1");
    // the names are compared after trimming
    assert_eq!(
        kind_of_catalog("[mm-groups]\n1v1: Axis:1\n  1v1  : Axis:2\n"),
        ConfigErrorKind::DuplicateGroupName
    );
}

#[test]
fn group_names_that_differ_in_case_are_different() {
    let catalog = parse("[mm-groups]\nduel: Axis:1, Allies:1\nDuel: Axis:1, Allies:1\n").unwrap();
    assert_eq!(catalog.len(), 2);
    assert_eq!(catalog[0].name, "duel");
    assert_eq!(catalog[1].name, "Duel");
}

#[test]
fn the_first_repeated_name_is_reported() {
    let e = parse("[mm-groups]\na: x:1\nb: x:1\nb: x:1\na: x:1\n").unwrap_err();
    assert_eq!(e, ConfigError { kind: ConfigErrorKind::DuplicateGroupName, detail: "b".to_string() });
}

#[test]
fn a_catalog_needs_a_group() {
    assert_eq!(kind_of_catalog(""), ConfigErrorKind::EmptyCatalog);
    assert_eq!(kind_of_catalog("[mm-groups]\n"), ConfigErrorKind::EmptyCatalog);
    assert_eq!(kind_of_catalog("[mm-groups]\n\n\n"), ConfigErrorKind::EmptyCatalog);
    assert_eq!(kind_of_catalog("[database]\nhost: h\n"), ConfigErrorKind::EmptyCatalog);
    assert_eq!(kind_of_catalog("1v1: Axis:1\n"), ConfigErrorKind::EmptyCatalog);
}

#[test]
fn content_under_an_unknown_header_is_refused() {
    let e = parse("[mm-groups]\n1v1: Axis:1\n[maps]\nradar\n").unwrap_err();
    assert_eq!(e.kind, ConfigErrorKind::UnknownSection);
    assert_eq!(e.detail, "[maps]");
    assert_eq!(kind_of_catalog("[]\nx\n"), ConfigErrorKind::UnknownSection);
    assert_eq!(kind_of_catalog("[MM-GROUPS]\n1v1: Axis:1\n"), ConfigErrorKind::UnknownSection);
    assert_eq!(kind_of_catalog("[ mm-groups ]\n1v1: Axis:1\n"), ConfigErrorKind::UnknownSection);
}

#[test]
fn an_unknown_header_without_content_is_harmless() {
    let catalog = parse("[maps]\n\n[mm-groups]\n1v1: Axis:1\n[more]\n").unwrap();
    assert_eq!(catalog.len(), 1);
}

#[test]
fn a_header_is_never_read_as_data() {
    // inside [mm-groups] a line in brackets opens a section, whatever it holds
    let e = parse("[mm-groups]\n1v1: Axis:1\n[2v2: Axis:2]\n3v3: Axis:3\n").unwrap_err();
    assert_eq!(e.kind, ConfigErrorKind::UnknownSection);
    assert_eq!(e.detail, "[2v2: Axis:2]");
    let catalog = parse("[mm-groups]\n1v1: Axis:1\n[mm-groups]\n2v2: Axis:2\n").unwrap();
    assert_eq!(catalog.len(), 2);
}

#[test]
fn a_header_has_no_white_space_around_it() {
    // with white space around it the line is data of the section in force
    assert_eq!(
        kind_of_catalog("[mm-groups]\n [mm-groups]\n1v1: Axis:1\n"),
        ConfigErrorKind::MalformedGroupLine
    );
    assert_eq!(
        kind_of_catalog("[mm-groups]\n[mm-groups] \n1v1: Axis:1\n"),
        ConfigErrorKind::MalformedGroupLine
    );
}

#[test]
fn empty_lines_are_skipped_and_blank_lines_are_not() {
    let catalog = parse("\n[mm-groups]\n\n1v1: Axis:1\n\n\n2v2: Axis:2\n\n").unwrap();
    assert_eq!(catalog.len(), 2);
    let e = parse("[mm-groups]\n1v1: Axis:1\n   \n2v2: Axis:2\n").unwrap_err();
    assert_eq!(e.kind, ConfigErrorKind::MalformedGroupLine);
    assert_eq!(e.detail, "   ");
    assert_eq!(kind_of_catalog("[mm-groups]\n1v1: Axis:1\n\t\n"), ConfigErrorKind::MalformedGroupLine);
}

#[test]
fn lines_before_the_first_header_are_skipped() {
    let catalog = parse("stray\n1v1 Axis\nx: y:z\n[mm-groups]\n1v1: Axis:1\n").unwrap();
    assert_eq!(catalog.len(), 1);
}

#[test]
fn carriage_returns_before_line_feeds_are_dropped() {
    let catalog = parse("[mm-groups]\r\n1v1: Axis:1, Allies:1\r\n").unwrap();
    assert_eq!(catalog.len(), 1);
    assert_eq!(catalog[0].players, 2);
    assert_eq!(catalog[0].teams[1], team("Allies", 1));
}

#[test]
fn the_first_line_that_is_refused_decides() {
    assert_eq!(
        kind_of_catalog("[mm-groups]\n1v1 Axis\n[maps]\nradar\n"),
        ConfigErrorKind::MalformedGroupLine
    );
    assert_eq!(
        kind_of_catalog("[mm-groups]\n1v1: Axis:1\n1v1: Axis:1\n2v2: Axis\n"),
        ConfigErrorKind::MalformedTeamToken
    );
    assert_eq!(
        kind_of_check("[database]\nport: 1\n[mm-groups]\n1v1 Axis\n"),
        ConfigErrorKind::UnknownDatabaseKey
    );
    assert_eq!(
        kind_of_check("[mm-groups]\n1v1 Axis\n[database]\nport: 1\n"),
        ConfigErrorKind::MalformedGroupLine
    );
}

#[test]
fn whole_configuration_is_read() {
    let config = Config::construct(FULL).unwrap();
    assert_eq!(*config.database_connection_string, "host=localhost user=bot");
    assert_eq!(config.discord_token, "abc");
    assert_eq!(config.mm_groups.len(), 2);
    assert_eq!(config.mm_groups[0].name, "1v1");
    assert_eq!(config.mm_groups[1].name, "6v6");
    assert_eq!(config.mm_groups[1].players, 12);
}

#[test]
fn sections_may_come_in_any_order_and_again() {
    let config = Config::construct(
        "[mm-groups]\n1v1: Axis:1\n[discord]\ntoken: t\n[database]\nuser: u\n[mm-groups]\n2v2: Axis:2\n[database]\nhost: h\n",
    )
    .unwrap();
    assert_eq!(*config.database_connection_string, "host=h user=u");
    assert_eq!(config.mm_groups.len(), 2);
}

#[test]
fn the_last_setting_of_a_key_counts_and_its_value_is_trimmed() {
    let config = Config::construct(
        "[database]\nhost: a\nhost:   b  \nuser:u\n[discord]\ntoken:\tx y \n[mm-groups]\n1v1: Axis:1\n",
    )
    .unwrap();
    assert_eq!(*config.database_connection_string, "host=b user=u");
    assert_eq!(config.discord_token, "x y");
}

#[test]
fn setting_lines_without_exactly_one_colon_are_skipped() {
    let config = Config::construct(
        "[database]\nhost: h\nnote\nport: 54:32\nuser: u\n[discord]\ntoken: t\nhttps://example:443\n[mm-groups]\n1v1: Axis:1\n",
    )
    .unwrap();
    assert_eq!(*config.database_connection_string, "host=h user=u");
}

#[test]
fn unknown_settings_are_refused_by_the_check() {
    let e = Config::check_settings("[database]\nhost: h\nport: 5432\n").unwrap_err();
    assert_eq!(e.kind, ConfigErrorKind::UnknownDatabaseKey);
    assert_eq!(e.detail, "port");
    assert_eq!(e.message(), "unknown key in database section: port");
    // keys are taken as written
    assert_eq!(kind_of_check("[database]\n host: h\n"), ConfigErrorKind::UnknownDatabaseKey);
    assert_eq!(kind_of_check("[database]\nHost: h\n"), ConfigErrorKind::UnknownDatabaseKey);
    let e = Config::check_settings("[discord]\nsecret: s\n").unwrap_err();
    assert_eq!(e.kind, ConfigErrorKind::UnknownDiscordKey);
    assert_eq!(e.message(), "unknown key in discord section: secret");
    assert_eq!(kind_of_check("[discord]\nhost: h\n"), ConfigErrorKind::UnknownDiscordKey);
}

#[test]
fn unknown_settings_are_passed_over_by_the_reader() {
    let config = Config::construct(
        "[database]\nport: 5432\nhost: h\n Host: x\n[discord]\nsecret: s\n[mm-groups]\n1v1: Axis:1, Allies:1\n",
    )
    .unwrap();
    assert_eq!(*config.database_connection_string, "host=h user=");
    assert_eq!(config.discord_token, "");
    assert_eq!(config.mm_groups.len(), 1);
}

#[test]
fn missing_settings_are_reported_in_order() {
    let groups = "[mm-groups]\n1v1: Axis:1\n";
    assert_eq!(kind_of_check(groups), ConfigErrorKind::MissingDatabaseHost);
    assert_eq!(kind_of_check(""), ConfigErrorKind::MissingDatabaseHost);
    assert_eq!(
        kind_of_check(&format!("[database]\nhost: h\n{}", groups)),
        ConfigErrorKind::MissingDatabaseUser
    );
    assert_eq!(
        kind_of_check(&format!("[database]\nuser: u\n{}", groups)),
        ConfigErrorKind::MissingDatabaseHost
    );
    assert_eq!(
        kind_of_check(&format!("[database]\nhost: h\nuser: u\n{}", groups)),
        ConfigErrorKind::MissingDiscordToken
    );
    assert_eq!(
        kind_of_check(&format!("[discord]\ntoken: t\n{}", groups)),
        ConfigErrorKind::MissingDatabaseHost
    );
    // a setting without a value is no setting
    assert_eq!(
        kind_of_check(&format!("[database]\nhost:   \nuser: u\n{}", groups)),
        ConfigErrorKind::MissingDatabaseHost
    );
    assert_eq!(
        Config::check_settings("").unwrap_err(),
        ConfigError::bare(ConfigErrorKind::MissingDatabaseHost)
    );
}

#[test]
fn the_check_of_the_settings_leaves_the_catalog_to_the_reader() {
    // with every setting made the check passes, whatever the catalog
    let settings = "[database]\nhost: h\nuser: u\n[discord]\ntoken: t\n";
    assert_eq!(Config::check_settings(settings), Ok(()));
    assert_eq!(kind_of_config(settings), ConfigErrorKind::EmptyCatalog);
    let twice = format!("{}[mm-groups]\n1v1: a:1\n1v1: b:1\n", settings);
    assert_eq!(Config::check_settings(&twice), Ok(()));
    assert_eq!(kind_of_config(&twice), ConfigErrorKind::DuplicateGroupName);
    assert_eq!(Config::check_settings(FULL), Ok(()));
    assert!(Config::construct(FULL).is_ok());
    // a line that is refused is refused by both
    let bad = format!("{}[mm-groups]\n1v1 Axis\n", settings);
    assert_eq!(kind_of_check(&bad), ConfigErrorKind::MalformedGroupLine);
    assert_eq!(kind_of_config(&bad), ConfigErrorKind::MalformedGroupLine);
    // a missing setting is reported before an empty catalog
    assert_eq!(kind_of_check("[mm-groups]\n"), ConfigErrorKind::MissingDatabaseHost);
}

#[test]
fn a_configuration_of_groups_alone_is_read() {
    let config = Config::construct("[mm-groups]\n1v1: Axis:1, Allies:1\n").unwrap();
    assert_eq!(config.mm_groups.len(), 1);
    assert_eq!(config.mm_groups[0].name, "1v1");
    assert_eq!(config.mm_groups[0].players, 2);
    assert_eq!(config.mm_groups[0].teams, vec![team("Axis", 1), team("Allies", 1)]);
    assert_eq!(*config.database_connection_string, "host= user=");
    assert_eq!(config.discord_token, "");
}

#[test]
fn a_configuration_without_groups_is_refused_for_its_catalog() {
    assert_eq!(kind_of_config("[mm-groups]\n"), ConfigErrorKind::EmptyCatalog);
    assert_eq!(kind_of_config(""), ConfigErrorKind::EmptyCatalog);
    assert_eq!(
        kind_of_config("[database]\nhost: h\nuser: u\n[discord]\ntoken: t\n"),
        ConfigErrorKind::EmptyCatalog
    );
    assert_eq!(
        Config::construct("[mm-groups]\n").err(),
        Some(ConfigError::bare(ConfigErrorKind::EmptyCatalog))
    );
}

#[test]
fn a_configuration_with_a_duplicate_group_is_refused() {
    let source = format!("{}1v1: A:1, B:1\n", FULL);
    let e = match Config::construct(&source) {
        Ok(_) => panic!(),
        Err(e) => e,
    };
    assert_eq!(e.kind, ConfigErrorKind::DuplicateGroupName);
    assert_eq!(e.message(), "match making group information: duplicate match making group: 1v1");
    // and so without any setting
    let e = match Config::construct("[mm-groups]\n1v1: Axis:1, Allies:1\n1v1: Red:2, Blue:2\n") {
        Ok(_) => panic!(),
        Err(e) => e,
    };
    assert_eq!(e, ConfigError { kind: ConfigErrorKind::DuplicateGroupName, detail: "1v1".to_string() });
}

#[test]
fn a_configuration_keeps_names_that_differ_in_case_apart() {
    let config =
        Config::construct("[mm-groups]\nDuel: Axis:1, Allies:1\nduel: Axis:1, Allies:1\n").unwrap();
    let names: Vec<&str> = config.mm_groups.iter().map(|g| g.name.as_str()).collect();
    assert_eq!(names, vec!["Duel", "duel"]);
}

#[test]
fn the_configuration_holds_the_catalog_that_parse_reads() {
    for source in [
        FULL,
        "[mm-groups]\n1v1: Axis:1, Allies:1\n",
        "[mm-groups]\nb: x:1\na: x:2\n[database]\nport: 1\n",
        "[mm-groups]\n",
        "[mm-groups]\na: x:1\na: x:1\n",
        "[mm-groups]\na: x\n",
        "[maps]\nradar\n",
    ] {
        match (Config::construct(source), parse(source)) {
            (Ok(config), Ok(catalog)) => assert_eq!(*config.mm_groups, catalog),
            (Err(a), Err(b)) => assert_eq!(a, b),
            _ => panic!("{:?}", source),
        }
    }
}

#[test]
fn refusals_are_put_in_words() {
    let message = |kind, detail: &str| ConfigError { kind, detail: detail.to_string() }.message();
    assert_eq!(
        message(ConfigErrorKind::MalformedGroupLine, "6v6"),
        "error parsing match making group name in line: 6v6"
    );
    assert_eq!(
        message(ConfigErrorKind::MalformedTeamToken, "6v6: a"),
        "error parsing match making group teams in line: 6v6: a"
    );
    assert_eq!(
        message(ConfigErrorKind::InvalidTeamCount, "6v6: a:b"),
        "error parsing match making group team size in line: 6v6: a:b"
    );
    assert_eq!(
        message(ConfigErrorKind::CapacityOverflow, "x"),
        "too many players in match making group in line: x"
    );
    assert_eq!(
        message(ConfigErrorKind::UnknownSection, "[maps]"),
        "unknown section in file: [maps]"
    );
    assert_eq!(
        ConfigError::bare(ConfigErrorKind::EmptyCatalog).message(),
        "match making group information: no match making groups in configuration file"
    );
    assert_eq!(
        ConfigError::bare(ConfigErrorKind::MissingDatabaseHost).message(),
        "database information: db_host not in configuration file"
    );
    assert_eq!(
        ConfigError::bare(ConfigErrorKind::MissingDatabaseUser).message(),
        "database information: db_user not in configuration file"
    );
    assert_eq!(
        ConfigError::bare(ConfigErrorKind::MissingDiscordToken).message(),
        "discord information: token not in configuration file"
    );
}

#[test]
fn the_bot_keeps_group_lines_as_written() {
    let config = BotConfig::read_config(
        "[database]\nhost: h\nuser: u\n[discord]\ntoken: t\n[mm-groups]\n1v1: Axis:1, Allies:1\n\nnot a group\n 6v6 : x\n",
    )
    .unwrap();
    assert_eq!(config.db_connection_string, "host=h user=u");
    assert_eq!(config.mm_groups, vec!["1v1: Axis:1, Allies:1", "not a group", " 6v6 : x"]);
}

#[test]
fn the_bot_refuses_what_it_cannot_start_with() {
    let kind = |source: &str| match BotConfig::read_config(source) {
        Ok(_) => panic!("accepted: {:?}", source),
        Err(e) => e.kind,
    };
    assert_eq!(kind(""), ConfigErrorKind::MissingDatabaseHost);
    assert_eq!(kind("[mm-groups]\n1v1: Axis:1, Allies:1\n"), ConfigErrorKind::MissingDatabaseHost);
    assert_eq!(kind("[database]\nuser: u\n"), ConfigErrorKind::MissingDatabaseHost);
    assert_eq!(kind("[database]\nhost: h\n"), ConfigErrorKind::MissingDatabaseUser);
    assert_eq!(kind("[database]\nhost: h\nuser: u\n"), ConfigErrorKind::MissingDiscordToken);
    assert_eq!(
        kind("[database]\nhost: h\nuser: u\n[discord]\ntoken: t\n[mm-groups]\n"),
        ConfigErrorKind::EmptyCatalog
    );
    assert_eq!(kind("[database]\nname: n\n"), ConfigErrorKind::UnknownDatabaseKey);
    assert_eq!(kind("[discord]\nname: n\n"), ConfigErrorKind::UnknownDiscordKey);
    assert_eq!(kind("[other]\nname: n\n"), ConfigErrorKind::UnknownSection);
    // a missing setting comes before the want of groups, a refused line before both
    assert_eq!(kind("[mm-groups]\n"), ConfigErrorKind::MissingDatabaseHost);
    assert_eq!(
        kind("[database]\nhost: h\n[mm-groups]\n1v1: a:1\n[other]\nname: n\n"),
        ConfigErrorKind::UnknownSection
    );
}

#[test]
fn the_bot_refuses_a_text_that_sets_no_user() {
    let e = match BotConfig::read_config(
        "[database]\nhost: localhost\n[discord]\ntoken: abc\n[mm-groups]\n1v1: Axis:1, Allies:1\n",
    ) {
        Ok(_) => panic!(),
        Err(e) => e,
    };
    assert_eq!(e, ConfigError::bare(ConfigErrorKind::MissingDatabaseUser));
    assert_eq!(e.message(), "database information: db_user not in configuration file");
}

#[test]
fn the_bot_does_not_read_group_lines_as_groups() {
    let config = BotConfig::read_config(
        "[database]\nhost: h\nuser: u\n[discord]\ntoken: t\n[mm-groups]\nnot a group\n",
    )
    .unwrap();
    assert_eq!(config.mm_groups, vec!["not a group"]);
}

#[test]
fn the_names_of_a_catalog_are_copied_in_order() {
    let catalog = parse("[mm-groups]\nb: x:1\na: x:2\n").unwrap();
    assert_eq!(group_names(&catalog), vec!["b", "a"]);
    assert!(group_names(&Vec::new()).is_empty());
}

#[test]
fn the_catalog_is_read_whatever_the_settings_hold() {
    let catalog = parse(
        "[database]\nport: 5432\nhost\n[discord]\nsecret: s\n[mm-groups]\n1v1: Axis:1, Allies:1\n",
    )
    .unwrap();
    assert_eq!(catalog.len(), 1);
    assert_eq!(catalog[0].name, "1v1");
}
