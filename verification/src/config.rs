//! Configuration: the settings and the matchmaking groups that the bot is
//! started with.
//!
//! The configuration is a flat text. A line of the form `[name]` opens a
//! section. Lines of `[database]` and `[discord]` are `key: value` settings;
//! every line of `[mm-groups]` defines one group:
//!
//! ```text
//! 6v6: Allies:6, Axis:6
//! ```
//!
//! Policy on the corners of the format: group names and team labels are case
//! sensitive; lines that are literally empty are skipped wherever they stand,
//! while a line of white space inside `[mm-groups]` is a malformed group line;
//! lines before the first section header are skipped; a section header is
//! never read as data.
//!
//! Reading a catalog and checking the settings are two things. [`parse`] and
//! [`Config::construct`] read: they refuse a text for its group lines, for
//! content under an unknown header, and for a catalog that is empty or holds
//! a name twice, and for nothing else. The settings are taken as they are
//! found; one that was not made is empty. [`Config::check_settings`] checks:
//! it says whether the settings will do to run the bot.

use crate::text::{
    chars_of, cuts, find, first_index, keep, lemma_first_index, lemma_first_index_is, line_spans,
    lines_of, parse_count, parse_count_span, span_is, split, split_spans, trim, trim_span, Span,
};
use std::sync::Arc;
use vstd::prelude::*;

verus! {

/// Why a configuration was refused.
#[derive(Clone, Copy, Debug, PartialEq, Eq, Structural)]
pub enum ConfigErrorKind {
    /// A group line without `:`, or without a name before it.
    MalformedGroupLine,
    /// A team token that is not one label and one count around a single `:`.
    MalformedTeamToken,
    /// A team count that is not a whole number from 1 to `i32::MAX`.
    InvalidTeamCount,
    /// The team counts of a group add up to more than `i32::MAX`.
    CapacityOverflow,
    /// No group was defined.
    EmptyCatalog,
    /// Two group lines carry the same name.
    DuplicateGroupName,
    /// Content under a section header that is not known.
    UnknownSection,
    /// A setting of `[database]` other than `host` and `user`.
    UnknownDatabaseKey,
    /// A setting of `[discord]` other than `token`.
    UnknownDiscordKey,
    /// `[database]` sets no `host`.
    MissingDatabaseHost,
    /// `[database]` sets no `user`.
    MissingDatabaseUser,
    /// `[discord]` sets no `token`.
    MissingDiscordToken,
}

/// A refusal, with the text it is about: the offending line, key, section
/// header or group name, or nothing where the kind says it all.
#[derive(Clone, Debug, PartialEq, Eq)]
pub struct ConfigError {
    pub kind: ConfigErrorKind,
    pub detail: String,
}

/// The mathematical content of a [`ConfigError`].
pub struct Fault {
    pub kind: ConfigErrorKind,
    pub detail: Seq<char>,
}

impl View for ConfigError {
    type V = Fault;

    open spec fn view(&self) -> Fault {
        Fault { kind: self.kind, detail: self.detail@ }
    }
}

/// How the message of each kind of refusal begins.
pub open spec fn message_head(kind: ConfigErrorKind) -> Seq<char> {
    match kind {
        ConfigErrorKind::MalformedGroupLine => "error parsing match making group name in line: "@,
        ConfigErrorKind::MalformedTeamToken => "error parsing match making group teams in line: "@,
        ConfigErrorKind::InvalidTeamCount => "error parsing match making group team size in line: "@,
        ConfigErrorKind::CapacityOverflow => "too many players in match making group in line: "@,
        ConfigErrorKind::EmptyCatalog => "match making group information: no match making groups in configuration file"@,
        ConfigErrorKind::DuplicateGroupName => "match making group information: duplicate match making group: "@,
        ConfigErrorKind::UnknownSection => "unknown section in file: "@,
        ConfigErrorKind::UnknownDatabaseKey => "unknown key in database section: "@,
        ConfigErrorKind::UnknownDiscordKey => "unknown key in discord section: "@,
        ConfigErrorKind::MissingDatabaseHost => "database information: db_host not in configuration file"@,
        ConfigErrorKind::MissingDatabaseUser => "database information: db_user not in configuration file"@,
        ConfigErrorKind::MissingDiscordToken => "discord information: token not in configuration file"@,
    }
}

impl ConfigError {
    /// A refusal that needs no further text.
    pub fn bare(kind: ConfigErrorKind) -> (e: ConfigError)
        ensures
            e@ == (Fault { kind, detail: Seq::empty() }),
    {
        ConfigError { kind, detail: String::new() }
    }

    /// The refusal in words, for a log or a terminal.
    pub fn message(&self) -> (text: String)
        ensures
            text@ == message_head(self@.kind) + self@.detail,
    {
        let head: &str = match self.kind {
            ConfigErrorKind::MalformedGroupLine => "error parsing match making group name in line: ",
            ConfigErrorKind::MalformedTeamToken => "error parsing match making group teams in line: ",
            ConfigErrorKind::InvalidTeamCount => "error parsing match making group team size in line: ",
            ConfigErrorKind::CapacityOverflow => "too many players in match making group in line: ",
            ConfigErrorKind::EmptyCatalog => "match making group information: no match making groups in configuration file",
            ConfigErrorKind::DuplicateGroupName => "match making group information: duplicate match making group: ",
            ConfigErrorKind::UnknownSection => "unknown section in file: ",
            ConfigErrorKind::UnknownDatabaseKey => "unknown key in database section: ",
            ConfigErrorKind::UnknownDiscordKey => "unknown key in discord section: ",
            ConfigErrorKind::MissingDatabaseHost => "database information: db_host not in configuration file",
            ConfigErrorKind::MissingDatabaseUser => "database information: db_user not in configuration file",
            ConfigErrorKind::MissingDiscordToken => "discord information: token not in configuration file",
        };
        let mut text = head.to_owned();
        text.append(self.detail.as_str());
        text
    }
}

/// One side of a match: its label and the number of players it needs.
#[derive(Clone, Debug, PartialEq, Eq)]
pub struct Team {
    pub name: String,
    pub players: i32,
}

/// A matchmaking group: its name, its teams in the order in which their labels
/// first appeared, and the number of players that a full match needs.
#[derive(Clone, Debug, PartialEq, Eq)]
pub struct MMGroup {
    pub name: String,
    pub teams: Vec<Team>,
    pub players: i32,
}

/// The mathematical content of an [`MMGroup`]. A team is its label and its
/// player count.
pub struct GroupView {
    pub name: Seq<char>,
    pub teams: Seq<(Seq<char>, int)>,
    pub players: int,
}

/// The teams of a group as labels and counts.
pub open spec fn teams_view(teams: Seq<Team>) -> Seq<(Seq<char>, int)> {
    Seq::new(teams.len(), |i: int| (teams[i].name@, teams[i].players as int))
}

impl View for MMGroup {
    type V = GroupView;

    open spec fn view(&self) -> GroupView {
        GroupView {
            name: self.name@,
            teams: teams_view(self.teams@),
            players: self.players as int,
        }
    }
}

impl DeepView for MMGroup {
    type V = GroupView;

    open spec fn deep_view(&self) -> GroupView {
        self@
    }
}

/// The labels of a list of teams, in order.
pub open spec fn labels(teams: Seq<(Seq<char>, int)>) -> Seq<Seq<char>> {
    Seq::new(teams.len(), |i: int| teams[i].0)
}

/// The players that a list of teams needs together.
pub open spec fn total(teams: Seq<(Seq<char>, int)>) -> int
    decreases teams.len(),
{
    if teams.len() == 0 {
        0
    } else {
        total(teams.drop_last()) + teams.last().1
    }
}

/// `teams` with `team` recorded: in place of the team that already carries its
/// label, or else at the end.
pub open spec fn put_team(teams: Seq<(Seq<char>, int)>, team: (Seq<char>, int)) -> Seq<
    (Seq<char>, int),
> {
    let at = first_index(labels(teams), team.0) as int;
    if at < teams.len() {
        teams.update(at, team)
    } else {
        teams.push(team)
    }
}

/// The team that one token `label:count` defines.
pub open spec fn parse_team(token: Seq<char>) -> Result<(Seq<char>, int), ConfigErrorKind> {
    let parts = split(token, ':');
    if parts.len() != 2 {
        Err(ConfigErrorKind::MalformedTeamToken)
    } else {
        match parse_count(trim(parts[1])) {
            Some(n) => Ok((trim(parts[0]), n)),
            None => Err(ConfigErrorKind::InvalidTeamCount),
        }
    }
}

/// The teams that a list of tokens defines. Tokens are read from the left and
/// the first that fails decides the error; a label that comes again replaces
/// the count it had.
pub open spec fn parse_teams(tokens: Seq<Seq<char>>) -> Result<
    Seq<(Seq<char>, int)>,
    ConfigErrorKind,
>
    decreases tokens.len(),
{
    if tokens.len() == 0 {
        Ok(Seq::empty())
    } else {
        match parse_teams(tokens.drop_last()) {
            Err(kind) => Err(kind),
            Ok(teams) => match parse_team(tokens.last()) {
                Err(kind) => Err(kind),
                Ok(team) => Ok(put_team(teams, team)),
            },
        }
    }
}

/// The group that one line `name: label:count, label:count, ...` defines.
pub open spec fn parse_group(line: Seq<char>) -> Result<GroupView, Fault> {
    let colon = first_index(line, ':') as int;
    if colon >= line.len() || trim(line.take(colon)).len() == 0 {
        Err(Fault { kind: ConfigErrorKind::MalformedGroupLine, detail: line })
    } else {
        match parse_teams(split(line.skip(colon + 1), ',')) {
            Err(kind) => Err(Fault { kind, detail: line }),
            Ok(teams) => if total(teams) > i32::MAX {
                Err(Fault { kind: ConfigErrorKind::CapacityOverflow, detail: line })
            } else {
                Ok(GroupView { name: trim(line.take(colon)), teams, players: total(teams) })
            },
        }
    }
}

/// What a well-formed group holds: a name, at least one team, no label twice,
/// a positive count for every team, and their sum as its capacity.
pub open spec fn group_wf(g: GroupView) -> bool {
    &&& g.name.len() > 0
    &&& g.teams.len() > 0
    &&& labels(g.teams).no_duplicates()
    &&& forall|i: int| 0 <= i < g.teams.len() ==> 1 <= (#[trigger] g.teams[i]).1 <= i32::MAX
    &&& g.players == total(g.teams)
    &&& 1 <= g.players <= i32::MAX
}

/// Recording a team keeps labels apart and counts positive, and leaves at
/// least one team.
proof fn lemma_put_team(teams: Seq<(Seq<char>, int)>, team: (Seq<char>, int))
    requires
        labels(teams).no_duplicates(),
        forall|i: int| 0 <= i < teams.len() ==> 1 <= (#[trigger] teams[i]).1 <= i32::MAX,
        1 <= team.1 <= i32::MAX,
    ensures
        labels(put_team(teams, team)).no_duplicates(),
        forall|i: int|
            0 <= i < put_team(teams, team).len() ==> 1 <= (#[trigger] put_team(teams, team)[i]).1
                <= i32::MAX,
        put_team(teams, team).len() > 0,
{
    let names = labels(teams);
    let at = first_index(names, team.0) as int;
    let after = put_team(teams, team);
    lemma_first_index(names, team.0);
    assert forall|i: int, j: int|
        0 <= i < after.len() && 0 <= j < after.len() && i != j implies labels(after)[i] != labels(
        after,
    )[j] by {
        if at < teams.len() {
            if i != at && j != at {
                assert(names[i] != names[j]);
            } else if i == at {
                assert(names[at] == team.0);
                assert(names[j] != names[at]);
            } else {
                assert(names[at] == team.0);
                assert(names[i] != names[at]);
            }
        } else {
            if i < teams.len() && j < teams.len() {
                assert(names[i] != names[j]);
            } else if i < teams.len() {
                assert(names[i] != team.0);
            } else {
                assert(names[j] != team.0);
            }
        }
    }
    assert forall|i: int| 0 <= i < after.len() implies 1 <= (#[trigger] after[i]).1
        <= i32::MAX by {
        if at < teams.len() {
            if i != at {
                assert(after[i] == teams[i]);
            }
        } else {
            if i < teams.len() {
                assert(after[i] == teams[i]);
            }
        }
    }
}

/// Teams that were read from tokens carry distinct labels and positive
/// counts, and there is one at least if there was a token.
proof fn lemma_parse_teams(tokens: Seq<Seq<char>>)
    requires
        parse_teams(tokens) is Ok,
    ensures
        labels(parse_teams(tokens)->Ok_0).no_duplicates(),
        forall|i: int|
            0 <= i < parse_teams(tokens)->Ok_0.len() ==> 1 <= (#[trigger] parse_teams(
                tokens,
            )->Ok_0[i]).1 <= i32::MAX,
        tokens.len() > 0 ==> parse_teams(tokens)->Ok_0.len() > 0,
    decreases tokens.len(),
{
    if tokens.len() > 0 {
        lemma_parse_teams(tokens.drop_last());
        let teams = parse_teams(tokens.drop_last())->Ok_0;
        let team = parse_team(tokens.last())->Ok_0;
        lemma_put_team(teams, team);
    }
}

/// Positive counts add up to at least the number of teams.
proof fn lemma_total_bounds(teams: Seq<(Seq<char>, int)>)
    requires
        forall|i: int| 0 <= i < teams.len() ==> 1 <= (#[trigger] teams[i]).1,
    ensures
        total(teams) >= teams.len(),
    decreases teams.len(),
{
    if teams.len() > 0 {
        assert forall|i: int| 0 <= i < teams.drop_last().len() implies 1 <= (
        #[trigger] teams.drop_last()[i]).1 by {
            assert(teams.drop_last()[i] == teams[i]);
        }
        lemma_total_bounds(teams.drop_last());
        assert(teams.last() == teams[teams.len() - 1]);
    }
}

/// Every group that a line defines is well formed. In particular its capacity
/// is the sum of its teams' counts, and a line never yields a group without
/// teams or without players.
pub proof fn lemma_parsed_group_is_well_formed(line: Seq<char>)
    requires
        parse_group(line) is Ok,
    ensures
        group_wf(parse_group(line)->Ok_0),
{
    let colon = first_index(line, ':') as int;
    let tokens = split(line.skip(colon + 1), ',');
    lemma_parse_teams(tokens);
    lemma_total_bounds(parse_teams(tokens)->Ok_0);
}

/// Once a token fails, the tokens after it change nothing.
proof fn lemma_parse_teams_stops(tokens: Seq<Seq<char>>, k: int)
    requires
        0 < k <= tokens.len(),
        parse_teams(tokens.take(k)) is Err,
    ensures
        parse_teams(tokens) == parse_teams(tokens.take(k)),
    decreases tokens.len(),
{
    if k == tokens.len() {
        assert(tokens.take(k) == tokens);
    } else {
        assert(tokens.drop_last().take(k) == tokens.take(k));
        lemma_parse_teams_stops(tokens.drop_last(), k);
    }
}

/// Reads the team that the token at `span` defines.
fn team_from_span(text: &str, chars: &Vec<char>, span: Span) -> (r: Result<Team, ConfigErrorKind>)
    requires
        chars@ == text@,
        span.within(0, chars.len() as int),
    ensures
        match r {
            Ok(team) => parse_team(span.cut(chars@)) == Ok::<(Seq<char>, int), ConfigErrorKind>(
                (team.name@, team.players as int),
            ) && team.players >= 1,
            Err(kind) => parse_team(span.cut(chars@)) == Err::<(Seq<char>, int), ConfigErrorKind>(
                kind,
            ),
        },
{
    let parts = split_spans(chars, span.start, span.end, ':');
    if parts.len() != 2 {
        return Err(ConfigErrorKind::MalformedTeamToken);
    }
    let ghost pieces = cuts(chars@, parts@);
    assert(pieces[0] == parts@[0].cut(chars@));
    assert(pieces[1] == parts@[1].cut(chars@));
    assert(parts@[0].within(span.start as int, span.end as int));
    assert(parts@[1].within(span.start as int, span.end as int));
    let label = trim_span(chars, parts[0]);
    let count = trim_span(chars, parts[1]);
    match parse_count_span(chars, count) {
        Some(n) => Ok(Team { name: keep(text, label), players: n }),
        None => Err(ConfigErrorKind::InvalidTeamCount),
    }
}

/// Records `team` among `teams`, replacing the team that carries its label.
fn record_team(teams: &mut Vec<Team>, team: Team)
    requires
        team.players >= 1,
        forall|i: int| 0 <= i < old(teams).len() ==> (#[trigger] old(teams)@[i]).players >= 1,
    ensures
        teams_view(final(teams)@) == put_team(
            teams_view(old(teams)@),
            (team.name@, team.players as int),
        ),
        forall|i: int| 0 <= i < final(teams).len() ==> (#[trigger] final(teams)@[i]).players >= 1,
{
    let ghost before = teams_view(teams@);
    let mut i: usize = 0;
    while i < teams.len()
        invariant
            i <= teams.len(),
            teams@ == old(teams)@,
            before == teams_view(teams@),
            team.players >= 1,
            forall|j: int| 0 <= j < teams.len() ==> (#[trigger] teams@[j]).players >= 1,
            forall|j: int| 0 <= j < i ==> labels(before)[j] != team.name@,
        decreases teams.len() - i,
    {
        if teams[i].name == team.name {
            proof {
                assert(labels(before)[i as int] == team.name@);
                lemma_first_index_is(labels(before), team.name@, i as int);
            }
            let ghost entry = (team.name@, team.players as int);
            teams.set(i, team);
            assert(teams_view(teams@) =~= before.update(i as int, entry));
            assert forall|j: int| 0 <= j < teams.len() implies (#[trigger] teams@[j]).players
                >= 1 by {
                if j != i {
                    assert(teams@[j] == old(teams)@[j]);
                }
            }
            return ;
        }
        assert(labels(before)[i as int] != team.name@);
        i += 1;
    }
    proof {
        lemma_first_index_is(labels(before), team.name@, i as int);
    }
    let ghost entry = (team.name@, team.players as int);
    teams.push(team);
    assert(teams_view(teams@) =~= before.push(entry));
    assert forall|j: int| 0 <= j < teams.len() implies (#[trigger] teams@[j]).players >= 1 by {
        if j < i {
            assert(teams@[j] == old(teams)@[j]);
        }
    }
}

/// Adds up the players of `teams`.
fn count_players(teams: &Vec<Team>) -> (sum: u128)
    requires
        forall|i: int| 0 <= i < teams.len() ==> (#[trigger] teams@[i]).players >= 1,
    ensures
        sum == total(teams_view(teams@)),
{
    let ghost all = teams_view(teams@);
    let mut sum: u128 = 0;
    let mut i: usize = 0;
    while i < teams.len()
        invariant
            i <= teams.len(),
            all == teams_view(teams@),
            forall|i: int| 0 <= i < teams.len() ==> (#[trigger] teams@[i]).players >= 1,
            sum == total(all.take(i as int)),
            sum <= i * 0x8000_0000,
        decreases teams.len() - i,
    {
        assert(all.take(i + 1).drop_last() == all.take(i as int));
        assert(all.take(i + 1).last() == all[i as int]);
        assert(teams@[i as int].players >= 1);
        sum = sum + teams[i].players as u128;
        i += 1;
    }
    assert(all.take(i as int) == all);
    sum
}

/// Reads the group that the line at `span` defines.
pub(crate) fn group_from_span(text: &str, chars: &Vec<char>, span: Span) -> (r: Result<
    MMGroup,
    ConfigError,
>)
    requires
        chars@ == text@,
        span.within(0, chars.len() as int),
    ensures
        match r {
            Ok(group) => parse_group(span.cut(chars@)) == Ok::<GroupView, Fault>(group@),
            Err(e) => parse_group(span.cut(chars@)) == Err::<GroupView, Fault>(e@),
        },
{
    let ghost line = span.cut(chars@);
    let colon = find(chars, span.start, span.end, ':');
    if colon >= span.end {
        return Err(
            ConfigError { kind: ConfigErrorKind::MalformedGroupLine, detail: keep(text, span) },
        );
    }
    assert(line.take(colon - span.start) == chars@.subrange(span.start as int, colon as int));
    assert(line.skip(colon - span.start + 1) == chars@.subrange(colon + 1, span.end as int));
    let name = trim_span(chars, Span { start: span.start, end: colon });
    if name.start == name.end {
        return Err(
            ConfigError { kind: ConfigErrorKind::MalformedGroupLine, detail: keep(text, span) },
        );
    }
    let tokens = split_spans(chars, colon + 1, span.end, ',');
    let ghost pieces = cuts(chars@, tokens@);
    let mut teams: Vec<Team> = Vec::new();
    let mut k: usize = 0;
    assert(pieces.take(0) == Seq::<Seq<char>>::empty());
    assert(teams_view(teams@) == Seq::<(Seq<char>, int)>::empty());
    while k < tokens.len()
        invariant
            chars@ == text@,
            span.within(0, chars.len() as int),
            line == span.cut(chars@),
            span.start <= colon < span.end,
            first_index(line, ':') == colon - span.start,
            trim(line.take(colon - span.start)).len() > 0,
            pieces == split(line.skip(colon - span.start + 1), ','),
            k <= tokens.len(),
            pieces == cuts(chars@, tokens@),
            forall|j: int|
                0 <= j < tokens@.len() ==> (#[trigger] tokens@[j]).within(
                    colon + 1,
                    span.end as int,
                ),
            parse_teams(pieces.take(k as int)) == Ok::<Seq<(Seq<char>, int)>, ConfigErrorKind>(
                teams_view(teams@),
            ),
            forall|i: int| 0 <= i < teams.len() ==> (#[trigger] teams@[i]).players >= 1,
        decreases tokens.len() - k,
    {
        assert(pieces.take(k + 1).drop_last() == pieces.take(k as int));
        assert(pieces.take(k + 1).last() == tokens@[k as int].cut(chars@));
        assert(tokens@[k as int].within(colon + 1, span.end as int));
        match team_from_span(text, chars, tokens[k]) {
            Err(kind) => {
                proof {
                    lemma_parse_teams_stops(pieces, k + 1);
                }
                return Err(ConfigError { kind, detail: keep(text, span) });
            },
            Ok(team) => {
                record_team(&mut teams, team);
            },
        }
        k += 1;
    }
    assert(pieces.take(k as int) == pieces);
    let sum = count_players(&teams);
    if sum > 0x7fff_ffff {
        return Err(
            ConfigError { kind: ConfigErrorKind::CapacityOverflow, detail: keep(text, span) },
        );
    }
    Ok(MMGroup { name: keep(text, name), teams, players: sum as i32 })
}

impl MMGroup {
    /// Reads the group that one line of `[mm-groups]` defines.
    ///
    /// The name is what stands before the first `:`, trimmed. What follows is
    /// cut at every `,` into team tokens; a token is a label and a count
    /// around a single `:`, both trimmed.
    pub fn construct(config_entry: &str) -> (r: Result<MMGroup, ConfigError>)
        ensures
            match r {
                Ok(group) => parse_group(config_entry@) == Ok::<GroupView, Fault>(group@)
                    && group_wf(group@),
                Err(e) => parse_group(config_entry@) == Err::<GroupView, Fault>(e@),
            },
    {
        let chars = chars_of(config_entry);
        let span = Span { start: 0, end: chars.len() };
        assert(span.cut(chars@) == config_entry@);
        let r = group_from_span(config_entry, &chars, span);
        proof {
            if r is Ok {
                lemma_parsed_group_is_well_formed(config_entry@);
            }
        }
        r
    }
}

/// The section that a line belongs to.
#[derive(Clone, Copy, Debug, PartialEq, Eq, Structural)]
pub enum Section {
    /// Before the first header.
    Outside,
    /// Under `[database]`.
    Database,
    /// Under `[discord]`.
    Discord,
    /// Under `[mm-groups]`.
    Groups,
    /// Under any other header.
    Unknown,
}

/// A line opens a section when it starts with `[` and ends with `]`.
pub open spec fn is_header(line: Seq<char>) -> bool {
    line.len() >= 2 && line[0] == '[' && line.last() == ']'
}

/// The section that a header opens; the empty header stands for the lines
/// before the first one.
pub open spec fn section_of(header: Seq<char>) -> Section {
    if header.len() == 0 {
        Section::Outside
    } else if header == "[database]"@ {
        Section::Database
    } else if header == "[discord]"@ {
        Section::Discord
    } else if header == "[mm-groups]"@ {
        Section::Groups
    } else {
        Section::Unknown
    }
}

/// How a reader takes a text.
#[derive(Clone, Copy, Debug, PartialEq, Eq, Structural)]
pub struct Interest {
    /// Whether a setting of `[database]` or `[discord]` under a key that is
    /// not known is refused, or passed over.
    pub strict: bool,
    /// Whether the lines of `[mm-groups]` are read as groups, or only
    /// gathered.
    pub groups: bool,
}

/// What a reader has gathered from the lines it has seen.
pub struct Scan {
    /// The header in force, empty before the first.
    pub section: Seq<char>,
    /// The last `host` of `[database]`, empty if none was set.
    pub host: Seq<char>,
    /// The last `user` of `[database]`, empty if none was set.
    pub user: Seq<char>,
    /// The last `token` of `[discord]`, empty if none was set.
    pub token: Seq<char>,
    /// The lines of `[mm-groups]`, as written.
    pub entries: Seq<Seq<char>>,
    /// The groups that those lines define, where they were asked for.
    pub groups: Seq<GroupView>,
}

/// A reader that has seen nothing.
pub open spec fn scan_start() -> Scan {
    Scan {
        section: Seq::empty(),
        host: Seq::empty(),
        user: Seq::empty(),
        token: Seq::empty(),
        entries: Seq::empty(),
        groups: Seq::empty(),
    }
}

/// A line of `[database]`. Only a line with exactly one `:` is a setting; the
/// key is taken as written and the value trimmed. A key that is not known is
/// refused by a strict reader and passed over by any other.
pub open spec fn database_line(st: Scan, line: Seq<char>, strict: bool) -> Result<Scan, Fault> {
    let parts = split(line, ':');
    if parts.len() != 2 {
        Ok(st)
    } else if parts[0] == "host"@ {
        Ok(Scan { host: trim(parts[1]), ..st })
    } else if parts[0] == "user"@ {
        Ok(Scan { user: trim(parts[1]), ..st })
    } else if strict {
        Err(Fault { kind: ConfigErrorKind::UnknownDatabaseKey, detail: parts[0] })
    } else {
        Ok(st)
    }
}

/// A line of `[discord]`, read like one of `[database]`.
pub open spec fn discord_line(st: Scan, line: Seq<char>, strict: bool) -> Result<Scan, Fault> {
    let parts = split(line, ':');
    if parts.len() != 2 {
        Ok(st)
    } else if parts[0] == "token"@ {
        Ok(Scan { token: trim(parts[1]), ..st })
    } else if strict {
        Err(Fault { kind: ConfigErrorKind::UnknownDiscordKey, detail: parts[0] })
    } else {
        Ok(st)
    }
}

/// A line of `[mm-groups]`: kept as written and, where groups are of
/// interest, read as a group.
pub open spec fn group_line(st: Scan, line: Seq<char>, interest: Interest) -> Result<Scan, Fault> {
    if interest.groups {
        match parse_group(line) {
            Ok(group) => Ok(
                Scan { entries: st.entries.push(line), groups: st.groups.push(group), ..st },
            ),
            Err(fault) => Err(fault),
        }
    } else {
        Ok(Scan { entries: st.entries.push(line), ..st })
    }
}

/// What one more line does to a reader.
pub open spec fn scan_line(st: Scan, line: Seq<char>, interest: Interest) -> Result<Scan, Fault> {
    if is_header(line) {
        Ok(Scan { section: line, ..st })
    } else if line.len() == 0 {
        Ok(st)
    } else {
        match section_of(st.section) {
            Section::Outside => Ok(st),
            Section::Database => database_line(st, line, interest.strict),
            Section::Discord => discord_line(st, line, interest.strict),
            Section::Groups => group_line(st, line, interest),
            Section::Unknown => Err(
                Fault { kind: ConfigErrorKind::UnknownSection, detail: st.section },
            ),
        }
    }
}

/// What a reader gathers from `lines`, read from the top. The first line that
/// is refused decides the error.
pub open spec fn scan(lines: Seq<Seq<char>>, interest: Interest) -> Result<Scan, Fault>
    decreases lines.len(),
{
    if lines.len() == 0 {
        Ok(scan_start())
    } else {
        match scan(lines.drop_last(), interest) {
            Err(fault) => Err(fault),
            Ok(st) => scan_line(st, lines.last(), interest),
        }
    }
}

/// Once a line is refused, the lines after it change nothing.
proof fn lemma_scan_stops(lines: Seq<Seq<char>>, k: int, interest: Interest)
    requires
        0 < k <= lines.len(),
        scan(lines.take(k), interest) is Err,
    ensures
        scan(lines, interest) == scan(lines.take(k), interest),
    decreases lines.len(),
{
    if k == lines.len() {
        assert(lines.take(k) == lines);
    } else {
        assert(lines.drop_last().take(k) == lines.take(k));
        lemma_scan_stops(lines.drop_last(), k, interest);
    }
}

/// What was gathered from a whole text.
pub(crate) struct Scanned {
    pub section: String,
    pub host: String,
    pub user: String,
    pub token: String,
    pub entries: Vec<String>,
    pub groups: Vec<MMGroup>,
}

impl Scanned {
    /// The mathematical content of what was gathered.
    pub(crate) open spec fn model(&self) -> Scan {
        Scan {
            section: self.section@,
            host: self.host@,
            user: self.user@,
            token: self.token@,
            entries: self.entries.deep_view(),
            groups: self.groups.deep_view(),
        }
    }
}

fn span_is_header(chars: &Vec<char>, span: Span) -> (r: bool)
    requires
        span.within(0, chars.len() as int),
    ensures
        r == is_header(span.cut(chars@)),
{
    span.end - span.start >= 2 && chars[span.start] == '[' && chars[span.end - 1] == ']'
}

fn section_at(chars: &Vec<char>, span: Span) -> (r: Section)
    requires
        span.within(0, chars.len() as int),
        span.start < span.end,
    ensures
        r == section_of(span.cut(chars@)),
{
    if span_is(chars, span, "[database]") {
        Section::Database
    } else if span_is(chars, span, "[discord]") {
        Section::Discord
    } else if span_is(chars, span, "[mm-groups]") {
        Section::Groups
    } else {
        Section::Unknown
    }
}

/// Reads `text` line by line.
pub(crate) fn scan_text(text: &str, interest: Interest) -> (r: Result<Scanned, ConfigError>)
    ensures
        match r {
            Ok(scanned) => scan(lines_of(text@), interest) == Ok::<Scan, Fault>(scanned.model()),
            Err(e) => scan(lines_of(text@), interest) == Err::<Scan, Fault>(e@),
        },
{
    let chars = chars_of(text);
    let lines = line_spans(&chars);
    let ghost all = lines_of(text@);
    let mut section = Section::Outside;
    let mut header = Span { start: 0, end: 0 };
    let mut host = String::new();
    let mut user = String::new();
    let mut token = String::new();
    let mut entries: Vec<String> = Vec::new();
    let mut groups: Vec<MMGroup> = Vec::new();
    let mut k: usize = 0;
    assert(all.take(0) == Seq::<Seq<char>>::empty());
    assert(entries.deep_view() == Seq::<Seq<char>>::empty());
    assert(groups.deep_view() == Seq::<GroupView>::empty());
    assert(header.cut(chars@) == Seq::<char>::empty());
    while k < lines.len()
        invariant
            chars@ == text@,
            all == lines_of(text@),
            all == cuts(chars@, lines@),
            forall|j: int|
                0 <= j < lines@.len() ==> (#[trigger] lines@[j]).within(0, chars.len() as int),
            k <= lines.len(),
            header.within(0, chars.len() as int),
            section == section_of(header.cut(chars@)),
            scan(all.take(k as int), interest) == Ok::<Scan, Fault>(
                Scan {
                    section: header.cut(chars@),
                    host: host@,
                    user: user@,
                    token: token@,
                    entries: entries.deep_view(),
                    groups: groups.deep_view(),
                },
            ),
        decreases lines.len() - k,
    {
        let span = lines[k];
        let ghost line = span.cut(chars@);
        assert(all.take(k + 1).drop_last() == all.take(k as int));
        assert(all.take(k + 1).last() == line);
        assert(lines@[k as int].within(0, chars.len() as int));
        if span_is_header(&chars, span) {
            header = span;
            section = section_at(&chars, span);
        } else if span.start == span.end {
        } else {
            match section {
                Section::Outside => {},
                Section::Database => {
                    let parts = split_spans(&chars, span.start, span.end, ':');
                    if parts.len() == 2 {
                        let ghost pieces = cuts(chars@, parts@);
                        assert(pieces[0] == parts@[0].cut(chars@));
                        assert(pieces[1] == parts@[1].cut(chars@));
                        assert(parts@[0].within(span.start as int, span.end as int));
                        assert(parts@[1].within(span.start as int, span.end as int));
                        if span_is(&chars, parts[0], "host") {
                            host = keep(text, trim_span(&chars, parts[1]));
                        } else if span_is(&chars, parts[0], "user") {
                            user = keep(text, trim_span(&chars, parts[1]));
                        } else if interest.strict {
                            proof {
                                lemma_scan_stops(all, k + 1, interest);
                            }
                            return Err(
                                ConfigError {
                                    kind: ConfigErrorKind::UnknownDatabaseKey,
                                    detail: keep(text, parts[0]),
                                },
                            );
                        }
                    }
                },
                Section::Discord => {
                    let parts = split_spans(&chars, span.start, span.end, ':');
                    if parts.len() == 2 {
                        let ghost pieces = cuts(chars@, parts@);
                        assert(pieces[0] == parts@[0].cut(chars@));
                        assert(pieces[1] == parts@[1].cut(chars@));
                        assert(parts@[0].within(span.start as int, span.end as int));
                        assert(parts@[1].within(span.start as int, span.end as int));
                        if span_is(&chars, parts[0], "token") {
                            token = keep(text, trim_span(&chars, parts[1]));
                        } else if interest.strict {
                            proof {
                                lemma_scan_stops(all, k + 1, interest);
                            }
                            return Err(
                                ConfigError {
                                    kind: ConfigErrorKind::UnknownDiscordKey,
                                    detail: keep(text, parts[0]),
                                },
                            );
                        }
                    }
                },
                Section::Groups => {
                    if interest.groups {
                        match group_from_span(text, &chars, span) {
                            Ok(group) => {
                                let ghost before = groups.deep_view();
                                groups.push(group);
                                assert(groups.deep_view() == before.push(group@));
                            },
                            Err(e) => {
                                proof {
                                    lemma_scan_stops(all, k + 1, interest);
                                }
                                return Err(e);
                            },
                        }
                    }
                    let ghost before = entries.deep_view();
                    entries.push(keep(text, span));
                    assert(entries.deep_view() == before.push(line));
                },
                Section::Unknown => {
                    proof {
                        lemma_scan_stops(all, k + 1, interest);
                    }
                    return Err(
                        ConfigError {
                            kind: ConfigErrorKind::UnknownSection,
                            detail: keep(text, header),
                        },
                    );
                },
            }
        }
        k += 1;
    }
    assert(all.take(k as int) == all);
    Ok(Scanned { section: keep(text, header), host, user, token, entries, groups })
}

/// The names of a list of groups, in order.
pub open spec fn names_of(groups: Seq<GroupView>) -> Seq<Seq<char>> {
    Seq::new(groups.len(), |i: int| groups[i].name)
}

/// The names of the groups of a catalog, in order.
pub open spec fn catalog_names(groups: Seq<MMGroup>) -> Seq<Seq<char>> {
    Seq::new(groups.len(), |i: int| groups[i].name@)
}

/// Copies out the names of the groups of `catalog`.
pub fn group_names(catalog: &Vec<MMGroup>) -> (names: Vec<String>)
    ensures
        names.deep_view() == catalog_names(catalog@),
{
    let mut names: Vec<String> = Vec::new();
    let mut i: usize = 0;
    while i < catalog.len()
        invariant
            i <= catalog.len(),
            names.deep_view() == catalog_names(catalog@).take(i as int),
        decreases catalog.len() - i,
    {
        let ghost before = names.deep_view();
        names.push(catalog[i].name.clone());
        assert(names.deep_view() == before.push(catalog@[i as int].name@));
        i += 1;
    }
    assert(catalog_names(catalog@).take(i as int) == catalog_names(catalog@));
    names
}

/// Position of the first name that an earlier position already holds, or
/// `names.len()` where every name is new. Names are compared as written, so
/// two that differ in case are different names.
pub open spec fn first_repeat(names: Seq<Seq<char>>) -> nat
    decreases names.len(),
{
    if names.len() == 0 {
        0
    } else {
        let before = names.drop_last();
        if first_repeat(before) < before.len() {
            first_repeat(before)
        } else if first_index(before, names.last()) < before.len() {
            before.len()
        } else {
            names.len()
        }
    }
}

/// What is wrong with a list of groups as a catalog, if anything: that it is
/// empty, or that a name comes twice.
pub open spec fn check_catalog(groups: Seq<GroupView>) -> Option<Fault> {
    let names = names_of(groups);
    let at = first_repeat(names) as int;
    if groups.len() == 0 {
        Some(Fault { kind: ConfigErrorKind::EmptyCatalog, detail: Seq::empty() })
    } else if at < names.len() {
        Some(Fault { kind: ConfigErrorKind::DuplicateGroupName, detail: names[at] })
    } else {
        None
    }
}

/// What a catalog holds: at least one group, well-formed groups only, and no
/// name twice.
pub open spec fn catalog_wf(groups: Seq<GroupView>) -> bool {
    &&& groups.len() > 0
    &&& names_of(groups).no_duplicates()
    &&& forall|i: int| 0 <= i < groups.len() ==> group_wf(#[trigger] groups[i])
}

/// A repeat that was found among the first `k` names is the first repeat of
/// the whole list.
proof fn lemma_repeat_stays(names: Seq<Seq<char>>, k: int)
    requires
        0 <= k <= names.len(),
        first_repeat(names.take(k)) < k,
    ensures
        first_repeat(names) == first_repeat(names.take(k)),
    decreases names.len(),
{
    if k == names.len() {
        assert(names.take(k) == names);
    } else {
        assert(names.drop_last().take(k) == names.take(k));
        lemma_repeat_stays(names.drop_last(), k);
    }
}

/// There is a repeat exactly when some name stands at two positions.
pub proof fn lemma_first_repeat(names: Seq<Seq<char>>)
    ensures
        first_repeat(names) <= names.len(),
        first_repeat(names) == names.len() <==> names.no_duplicates(),
    decreases names.len(),
{
    if names.len() > 0 {
        let before = names.drop_last();
        lemma_first_repeat(before);
        lemma_first_index(before, names.last());
        if first_repeat(before) < before.len() {
            let (i, j) = choose|i: int, j: int|
                0 <= i < before.len() && 0 <= j < before.len() && i != j && before[i] == before[j];
            assert(names[i] == names[j]);
        } else if first_index(before, names.last()) < before.len() {
            let i = first_index(before, names.last()) as int;
            assert(names[i] == names[names.len() - 1]);
        } else {
            assert forall|i: int, j: int|
                0 <= i < names.len() && 0 <= j < names.len() && i != j implies names[i]
                != names[j] by {
                if i < before.len() && j < before.len() {
                    assert(before[i] != before[j]);
                } else if i < before.len() {
                    assert(before[i] != names.last());
                } else {
                    assert(before[j] != names.last());
                }
            }
        }
    }
}

/// Every group that a reader defined is well formed.
proof fn lemma_scanned_groups(lines: Seq<Seq<char>>, interest: Interest)
    requires
        scan(lines, interest) is Ok,
    ensures
        forall|i: int|
            0 <= i < scan(lines, interest)->Ok_0.groups.len() ==> group_wf(
                #[trigger] scan(lines, interest)->Ok_0.groups[i],
            ),
    decreases lines.len(),
{
    if lines.len() > 0 {
        lemma_scanned_groups(lines.drop_last(), interest);
        let before = scan(lines.drop_last(), interest)->Ok_0;
        let after = scan(lines, interest)->Ok_0;
        if after.groups != before.groups {
            let line = lines.last();
            lemma_parsed_group_is_well_formed(line);
            assert(after.groups == before.groups.push(parse_group(line)->Ok_0));
        }
    }
}

/// Looks for what is wrong with `groups` as a catalog.
fn check_groups(groups: &Vec<MMGroup>) -> (r: Option<ConfigError>)
    ensures
        match r {
            Some(e) => check_catalog(groups.deep_view()) == Some(e@),
            None => check_catalog(groups.deep_view()) is None,
        },
{
    let ghost names = names_of(groups.deep_view());
    if groups.len() == 0 {
        return Some(ConfigError::bare(ConfigErrorKind::EmptyCatalog));
    }
    let mut j: usize = 0;
    assert(names.take(0) == Seq::<Seq<char>>::empty());
    while j < groups.len()
        invariant
            j <= groups.len(),
            groups.len() > 0,
            names == names_of(groups.deep_view()),
            first_repeat(names.take(j as int)) == j,
        decreases groups.len() - j,
    {
        let ghost before = names.take(j as int);
        assert(names.take(j + 1).drop_last() == before);
        assert(names.take(j + 1).last() == groups@[j as int].name@);
        let mut i: usize = 0;
        while i < j
            invariant
                i <= j < groups.len(),
                names == names_of(groups.deep_view()),
                before == names.take(j as int),
                first_repeat(before) == j,
                names.take(j + 1).drop_last() == before,
                names.take(j + 1).last() == groups@[j as int].name@,
                forall|h: int| 0 <= h < i ==> before[h] != groups@[j as int].name@,
            decreases j - i,
        {
            if groups[i].name == groups[j].name {
                proof {
                    assert(before[i as int] == groups@[i as int].name@);
                    lemma_first_index_is(before, groups@[j as int].name@, i as int);
                    assert(first_repeat(names.take(j + 1)) == j);
                    lemma_repeat_stays(names, j + 1);
                    assert(names[j as int] == groups@[j as int].name@);
                }
                return Some(
                    ConfigError {
                        kind: ConfigErrorKind::DuplicateGroupName,
                        detail: groups[j].name.clone(),
                    },
                );
            }
            assert(before[i as int] == groups@[i as int].name@);
            i += 1;
        }
        proof {
            lemma_first_index_is(before, groups@[j as int].name@, j as int);
        }
        j += 1;
    }
    assert(names.take(j as int) == names);
    None
}

/// The database connection string for a host and a user.
pub open spec fn connection_string(host: Seq<char>, user: Seq<char>) -> Seq<char> {
    "host="@ + host + " user="@ + user
}

/// The catalog that a configuration text defines: its groups in the order of
/// their lines. Nothing that the settings hold, or lack, is a ground for
/// refusal.
pub open spec fn parse_catalog(source: Seq<char>) -> Result<Seq<GroupView>, Fault> {
    match scan(lines_of(source), Interest { strict: false, groups: true }) {
        Err(fault) => Err(fault),
        Ok(st) => match check_catalog(st.groups) {
            Some(fault) => Err(fault),
            None => Ok(st.groups),
        },
    }
}

/// The mathematical content of a [`Config`].
pub struct ConfigView {
    pub database_connection_string: Seq<char>,
    pub discord_token: Seq<char>,
    pub mm_groups: Seq<GroupView>,
}

/// The configuration that a text defines. A text is refused for a group line
/// that is refused, for content under an unknown header, and for its catalog:
/// that it is empty, or holds a name twice. Nothing that the settings hold,
/// or lack, is a ground for refusal: a setting that was not made is empty.
pub open spec fn parse_config(source: Seq<char>) -> Result<ConfigView, Fault> {
    match scan(lines_of(source), Interest { strict: false, groups: true }) {
        Err(fault) => Err(fault),
        Ok(st) => match check_catalog(st.groups) {
            Some(fault) => Err(fault),
            None => Ok(
                ConfigView {
                    database_connection_string: connection_string(st.host, st.user),
                    discord_token: st.token,
                    mm_groups: st.groups,
                },
            ),
        },
    }
}

/// The first of the settings that the bot cannot run without and that was
/// not made: the host of the database, its user, the token, in this order.
pub open spec fn missing_setting(st: Scan) -> Option<Fault> {
    if st.host.len() == 0 {
        Some(Fault { kind: ConfigErrorKind::MissingDatabaseHost, detail: Seq::empty() })
    } else if st.user.len() == 0 {
        Some(Fault { kind: ConfigErrorKind::MissingDatabaseUser, detail: Seq::empty() })
    } else if st.token.len() == 0 {
        Some(Fault { kind: ConfigErrorKind::MissingDiscordToken, detail: Seq::empty() })
    } else {
        None
    }
}

/// What stands in the way of running the bot on a text, as far as its lines
/// and settings go: the first line that a strict reader refuses, or else the
/// first setting that is missing.
pub open spec fn require_settings(source: Seq<char>) -> Result<(), Fault> {
    match scan(lines_of(source), Interest { strict: true, groups: true }) {
        Err(fault) => Err(fault),
        Ok(st) => match missing_setting(st) {
            Some(fault) => Err(fault),
            None => Ok(()),
        },
    }
}

/// What a strict reader accepts, any reader accepts, and gathers the same
/// from it.
pub proof fn lemma_strict_reader(lines: Seq<Seq<char>>, groups: bool)
    requires
        scan(lines, Interest { strict: true, groups }) is Ok,
    ensures
        scan(lines, Interest { strict: false, groups }) == scan(
            lines,
            Interest { strict: true, groups },
        ),
    decreases lines.len(),
{
    if lines.len() > 0 {
        lemma_strict_reader(lines.drop_last(), groups);
    }
}

/// The catalog of a configuration is the catalog that `parse` reads from the
/// same text, and the one is refused exactly when the other is, on the same
/// ground.
pub proof fn lemma_configuration_holds_the_catalog(source: Seq<char>)
    ensures
        parse_catalog(source) == match parse_config(source) {
            Ok(config) => Ok::<Seq<GroupView>, Fault>(config.mm_groups),
            Err(fault) => Err(fault),
        },
{
}

/// A text that has passed the check of its settings is refused, if at all,
/// for its catalog alone; and the configuration it defines names a host, a
/// user and a token.
pub proof fn lemma_checked_text(source: Seq<char>)
    requires
        require_settings(source) is Ok,
    ensures
        match parse_config(source) {
            Ok(config) => {
                &&& config.discord_token.len() > 0
                &&& exists|host: Seq<char>, user: Seq<char>|
                    host.len() > 0 && user.len() > 0 && config.database_connection_string
                        == #[trigger] connection_string(host, user)
            },
            Err(fault) => fault.kind == ConfigErrorKind::EmptyCatalog || fault.kind
                == ConfigErrorKind::DuplicateGroupName,
        },
{
    lemma_strict_reader(lines_of(source), true);
    let st = scan(lines_of(source), Interest { strict: true, groups: true })->Ok_0;
    if parse_config(source) is Ok {
        assert(parse_config(source)->Ok_0.database_connection_string == connection_string(
            st.host,
            st.user,
        ));
    }
}

/// Whatever catalog a text defines is well formed: it holds a group, no name
/// twice, and every capacity is the sum of its teams.
pub proof fn lemma_parsed_catalog_is_well_formed(source: Seq<char>)
    requires
        parse_catalog(source) is Ok,
    ensures
        catalog_wf(parse_catalog(source)->Ok_0),
{
    lemma_scanned_groups(lines_of(source), Interest { strict: false, groups: true });
    lemma_first_repeat(names_of(parse_catalog(source)->Ok_0));
}

/// A list of groups in which two carry the same name is never a catalog: it
/// is refused for the duplicate. Names that differ only in case are not the
/// same.
pub proof fn lemma_duplicates_are_refused(groups: Seq<GroupView>, i: int, j: int)
    requires
        0 <= i < j < groups.len(),
        groups[i].name == groups[j].name,
    ensures
        check_catalog(groups) is Some,
        check_catalog(groups)->Some_0.kind == ConfigErrorKind::DuplicateGroupName,
{
    let names = names_of(groups);
    lemma_first_repeat(names);
    assert(names[i] == names[j]);
}

/// What the reading of a catalog came to, as mathematical content.
pub open spec fn reading(r: Result<Vec<MMGroup>, ConfigError>) -> Result<Seq<GroupView>, Fault> {
    match r {
        Ok(groups) => Ok(groups.deep_view()),
        Err(e) => Err(e@),
    }
}

/// Reading is deterministic: whatever two readings of one text come to, they
/// come to the same, group for group in the same order, or to the same
/// refusal.
pub proof fn lemma_reading_is_deterministic(
    source: Seq<char>,
    first: Result<Vec<MMGroup>, ConfigError>,
    second: Result<Vec<MMGroup>, ConfigError>,
)
    requires
        reading(first) == parse_catalog(source),
        reading(second) == parse_catalog(source),
    ensures
        reading(first) == reading(second),
        first is Ok <==> second is Ok,
        first is Ok ==> first->Ok_0.deep_view() == second->Ok_0.deep_view(),
{
}

/// Reads the catalog of matchmaking groups that a configuration text defines.
pub fn parse(source: &str) -> (r: Result<Vec<MMGroup>, ConfigError>)
    ensures
        reading(r) == parse_catalog(source@),
        r matches Ok(groups) ==> catalog_wf(groups.deep_view()),
{
    match scan_text(source, Interest { strict: false, groups: true }) {
        Err(e) => Err(e),
        Ok(scanned) => match check_groups(&scanned.groups) {
            Some(e) => Err(e),
            None => {
                proof {
                    lemma_parsed_catalog_is_well_formed(source@);
                }
                Ok(scanned.groups)
            },
        },
    }
}

/// The bot's configuration.
pub struct Config {
    /// How to reach the database: `host=<host> user=<user>`.
    pub database_connection_string: Arc<String>,
    /// The token the bot presents to the chat platform.
    pub discord_token: String,
    /// The catalog of matchmaking groups, in the order of the file.
    pub mm_groups: Arc<Vec<MMGroup>>,
}

impl View for Config {
    type V = ConfigView;

    open spec fn view(&self) -> ConfigView {
        ConfigView {
            database_connection_string: self.database_connection_string@,
            discord_token: self.discord_token@,
            mm_groups: self.mm_groups.deep_view(),
        }
    }
}

/// Looks for the first setting that is missing.
pub(crate) fn find_missing_setting(scanned: &Scanned) -> (r: Option<ConfigError>)
    ensures
        match r {
            Some(e) => missing_setting(scanned.model()) == Some(e@),
            None => missing_setting(scanned.model()) is None,
        },
{
    if scanned.host.as_str().is_empty() {
        Some(ConfigError::bare(ConfigErrorKind::MissingDatabaseHost))
    } else if scanned.user.as_str().is_empty() {
        Some(ConfigError::bare(ConfigErrorKind::MissingDatabaseUser))
    } else if scanned.token.as_str().is_empty() {
        Some(ConfigError::bare(ConfigErrorKind::MissingDiscordToken))
    } else {
        None
    }
}

/// Builds the database connection string for a host and a user.
pub(crate) fn connect_to(host: &String, user: &String) -> (connection: String)
    ensures
        connection@ == connection_string(host@, user@),
{
    let mut connection = "host=".to_owned();
    connection.append(host.as_str());
    connection.append(" user=");
    connection.append(user.as_str());
    connection
}

impl Config {
    /// Reads the configuration that `source`, the text of a configuration
    /// file, defines.
    ///
    /// The text is refused for its group lines, for content under an unknown
    /// header, and for its catalog. It is not refused for its settings: a
    /// setting under an unknown key is passed over, and one that was not made
    /// is empty. Whether the settings will do to run the bot is for
    /// [`Config::check_settings`] to say.
    pub fn construct(source: &str) -> (r: Result<Config, ConfigError>)
        ensures
            match r {
                Ok(config) => parse_config(source@) == Ok::<ConfigView, Fault>(config@)
                    && catalog_wf(config@.mm_groups),
                Err(e) => parse_config(source@) == Err::<ConfigView, Fault>(e@),
            },
    {
        let scanned = match scan_text(source, Interest { strict: false, groups: true }) {
            Err(e) => { return Err(e); },
            Ok(scanned) => scanned,
        };
        match check_groups(&scanned.groups) {
            Some(e) => Err(e),
            None => {
                let connection = connect_to(&scanned.host, &scanned.user);
                proof {
                    lemma_scanned_groups(
                        lines_of(source@),
                        Interest { strict: false, groups: true },
                    );
                    lemma_first_repeat(names_of(scanned.groups.deep_view()));
                }
                Ok(
                    Config {
                        database_connection_string: Arc::new(connection),
                        discord_token: scanned.token,
                        mm_groups: Arc::new(scanned.groups),
                    },
                )
            },
        }
    }

    /// Says what stands in the way of running the bot on `source`, as far as
    /// its lines and settings go: the first line that is refused, where a
    /// setting under an unknown key is refused too; or else that the host of
    /// the database, its user, or the token was not set, in this order.
    ///
    /// A text that has passed is refused by [`Config::construct`] for its
    /// catalog alone.
    pub fn check_settings(source: &str) -> (r: Result<(), ConfigError>)
        ensures
            match r {
                Ok(_) => require_settings(source@) is Ok,
                Err(e) => require_settings(source@) == Err::<(), Fault>(e@),
            },
    {
        match scan_text(source, Interest { strict: true, groups: true }) {
            Err(e) => Err(e),
            Ok(scanned) => match find_missing_setting(&scanned) {
                Some(e) => Err(e),
                None => Ok(()),
            },
        }
    }
}

} // verus!
