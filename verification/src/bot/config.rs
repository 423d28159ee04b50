//! The configuration as the bot itself needs it: how to reach the database,
//! and the lines that define the matchmaking groups, kept as they were
//! written.
//!
//! Unlike [`crate::config::Config::construct`], which reads a catalog and
//! leaves the settings to a check of their own, this reader hands out nothing
//! that the bot could not be started with: a text whose settings will not do
//! is refused.

use crate::config::{
    connect_to, connection_string, find_missing_setting, missing_setting, scan, scan_text,
    ConfigError, ConfigErrorKind, Fault, Interest,
};
use crate::text::lines_of;
use vstd::prelude::*;

verus! {

/// What the bot is started with.
pub struct Config {
    /// How to reach the database: `host=<host> user=<user>`.
    pub db_connection_string: String,
    /// The lines of `[mm-groups]`, in the order of the file.
    pub mm_groups: Vec<String>,
}

/// The mathematical content of a [`Config`].
pub struct ConfigView {
    pub db_connection_string: Seq<char>,
    pub mm_groups: Seq<Seq<char>>,
}

impl View for Config {
    type V = ConfigView;

    open spec fn view(&self) -> ConfigView {
        ConfigView {
            db_connection_string: self.db_connection_string@,
            mm_groups: self.mm_groups.deep_view(),
        }
    }
}

/// What a configuration text holds for the bot. The lines of `[mm-groups]`
/// are only gathered, not read as groups. The first line that is refused
/// decides: content under an unknown header, or a setting under an unknown
/// key. Then comes a setting that is missing: the host of the database, its
/// user, the token, in this order. Then the want of any group line.
pub open spec fn read(source: Seq<char>) -> Result<ConfigView, Fault> {
    match scan(lines_of(source), Interest { strict: true, groups: false }) {
        Err(fault) => Err(fault),
        Ok(st) => match missing_setting(st) {
            Some(fault) => Err(fault),
            None => if st.entries.len() == 0 {
                Err(Fault { kind: ConfigErrorKind::EmptyCatalog, detail: Seq::empty() })
            } else {
                Ok(
                    ConfigView {
                        db_connection_string: connection_string(st.host, st.user),
                        mm_groups: st.entries,
                    },
                )
            },
        },
    }
}

/// Whatever is read names a host and a user, and holds a group line.
pub proof fn lemma_read_is_complete(source: Seq<char>)
    requires
        read(source) is Ok,
    ensures
        read(source)->Ok_0.mm_groups.len() > 0,
        exists|host: Seq<char>, user: Seq<char>|
            host.len() > 0 && user.len() > 0 && read(source)->Ok_0.db_connection_string
                == #[trigger] connection_string(host, user),
{
    let st = scan(lines_of(source), Interest { strict: true, groups: false })->Ok_0;
    assert(read(source)->Ok_0.db_connection_string == connection_string(st.host, st.user));
}

impl Config {
    /// Reads what `source`, the text of a configuration file, holds for the
    /// bot, and refuses a text that the bot cannot be started with.
    pub fn read_config(source: &str) -> (r: Result<Config, ConfigError>)
        ensures
            match r {
                Ok(config) => read(source@) == Ok::<ConfigView, Fault>(config@),
                Err(e) => read(source@) == Err::<ConfigView, Fault>(e@),
            },
    {
        let scanned = match scan_text(source, Interest { strict: true, groups: false }) {
            Err(e) => { return Err(e); },
            Ok(scanned) => scanned,
        };
        match find_missing_setting(&scanned) {
            Some(e) => { return Err(e); },
            None => {},
        }
        if scanned.entries.len() == 0 {
            return Err(ConfigError::bare(ConfigErrorKind::EmptyCatalog));
        }
        let connection = connect_to(&scanned.host, &scanned.user);
        Ok(Config { db_connection_string: connection, mm_groups: scanned.entries })
    }
}

} // verus!
