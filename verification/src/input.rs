use vstd::prelude::*;

use crate::config::{opt_view, or_else, DbConfig};

verus! {

/// The settings used to connect to a SurrealDB instance; each is optional
/// and falls back to the configuration file, then to a default.
pub struct SurrealdbConfiguration {
    /// Address of the instance (default `ws://localhost:8000`).
    pub address: Option<String>,
    /// Namespace (default `test`).
    pub ns: Option<String>,
    /// Database (default `test`).
    pub db: Option<String>,
    /// User name (default `root`).
    pub username: Option<String>,
    /// Password (default `root`).
    pub password: Option<String>,
}

impl Default for SurrealdbConfiguration {
    fn default() -> (r: Self)
        ensures
            r.address is None && r.ns is None && r.db is None && r.username is None && r.password is None,
    {
        SurrealdbConfiguration { address: None, ns: None, db: None, username: None, password: None }
    }
}

/// A copy of an optional string.
pub(crate) fn clone_option(o: &Option<String>) -> (r: Option<String>)
    ensures
        r == *o,
        opt_view(r) == opt_view(*o),
{
    match o {
        Some(s) => Some(s.clone()),
        None => None,
    }
}

impl SurrealdbConfiguration {
    /// Each setting given here, or else the one of the configuration file.
    pub fn merge_with_config(&self, db_config: &DbConfig) -> (r: Self)
        ensures
            opt_view(r.address) == or_else(opt_view(self.address), opt_view(db_config.address)),
            opt_view(r.username) == or_else(opt_view(self.username), opt_view(db_config.username)),
            opt_view(r.password) == or_else(opt_view(self.password), opt_view(db_config.password)),
            opt_view(r.ns) == or_else(opt_view(self.ns), opt_view(db_config.ns)),
            opt_view(r.db) == or_else(opt_view(self.db), opt_view(db_config.db)),
    {
        SurrealdbConfiguration {
            address: or_option(&self.address, &db_config.address),
            username: or_option(&self.username, &db_config.username),
            password: or_option(&self.password, &db_config.password),
            ns: or_option(&self.ns, &db_config.ns),
            db: or_option(&self.db, &db_config.db),
        }
    }
}

/// `first`, or else `second` (copied).
fn or_option(first: &Option<String>, second: &Option<String>) -> (r: Option<String>)
    ensures
        opt_view(r) == or_else(opt_view(*first), opt_view(*second)),
{
    match first {
        Some(s) => Some(s.clone()),
        None => clone_option(second),
    }
}

/// The connection settings of a new branch: those given, or else those of
/// the configuration file.
pub fn merge_db_config(db_configuration: &SurrealdbConfiguration, db_config: &DbConfig) -> (r: SurrealdbConfiguration)
    ensures
        opt_view(r.address) == or_else(opt_view(db_configuration.address), opt_view(db_config.address)),
        opt_view(r.username) == or_else(opt_view(db_configuration.username), opt_view(db_config.username)),
        opt_view(r.password) == or_else(opt_view(db_configuration.password), opt_view(db_config.password)),
        opt_view(r.ns) == or_else(opt_view(db_configuration.ns), opt_view(db_config.ns)),
        opt_view(r.db) == or_else(opt_view(db_configuration.db), opt_view(db_config.db)),
{
    db_configuration.merge_with_config(db_config)
}

} // verus!

verus! {

/// The settings used to connect: each from the command line, else from the
/// configuration file, else its default.
pub struct ConnectionSettings {
    pub address: String,
    pub username: String,
    pub password: String,
    pub ns: String,
    pub db: String,
}

/// A setting, or else its default.
pub open spec fn with_default(value: Option<Seq<char>>, default: Seq<char>) -> Seq<char> {
    match value {
        Some(v) => v,
        None => default,
    }
}

fn or_default(first: &Option<String>, second: &Option<String>, default: &str) -> (r: String)
    ensures
        r@ == with_default(or_else(opt_view(*first), opt_view(*second)), default@),
{
    match or_option(first, second) {
        Some(v) => v,
        None => String::from_str(default),
    }
}

/// The connection settings: address `ws://localhost:8000`, user and
/// password `root`, namespace and database `test` unless given on the
/// command line or in the configuration file.
pub fn connection_settings(db_configuration: &SurrealdbConfiguration, db_config: &DbConfig) -> (r: ConnectionSettings)
    ensures
        r.address@ == with_default(or_else(opt_view(db_configuration.address), opt_view(db_config.address)), "ws://localhost:8000"@),
        r.username@ == with_default(or_else(opt_view(db_configuration.username), opt_view(db_config.username)), "root"@),
        r.password@ == with_default(or_else(opt_view(db_configuration.password), opt_view(db_config.password)), "root"@),
        r.ns@ == with_default(or_else(opt_view(db_configuration.ns), opt_view(db_config.ns)), "test"@),
        r.db@ == with_default(or_else(opt_view(db_configuration.db), opt_view(db_config.db)), "test"@),
{
    ConnectionSettings {
        address: or_default(&db_configuration.address, &db_config.address, "ws://localhost:8000"),
        username: or_default(&db_configuration.username, &db_config.username, "root"),
        password: or_default(&db_configuration.password, &db_config.password, "root"),
        ns: or_default(&db_configuration.ns, &db_config.ns, "test"),
        db: or_default(&db_configuration.db, &db_config.db, "test"),
    }
}

} // verus!
