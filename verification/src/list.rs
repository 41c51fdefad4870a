use vstd::prelude::*;

use crate::cli;
use crate::common::{get_migration_display_name, skip_fields};
use crate::constants::SURQL_FILE_EXTENSION;
use crate::input::SurrealdbConfiguration;

verus! {

/// What the `list` command is asked to do.
pub struct ListArgs {
    pub db_configuration: SurrealdbConfiguration,
    /// Print without colors.
    pub no_color: bool,
    /// Path of the configuration file, if one was given.
    pub config_file: Option<String>,
}

impl ListArgs {
    /// Reads the arguments of the `list` command.
    pub fn from(value: cli::ListArgs, config_file: Option<String>) -> (r: Self)
        ensures
            r.db_configuration == (SurrealdbConfiguration {
                address: value.address,
                ns: value.ns,
                db: value.db,
                username: value.username,
                password: value.password,
            }),
            r.no_color == value.no_color,
            r.config_file == config_file,
    {
        let cli::ListArgs { address, ns, db, username, password, no_color } = value;
        let db_configuration = SurrealdbConfiguration { address, ns, db, username, password };
        ListArgs { db_configuration, no_color, config_file }
    }
}

/// The row of an applied migration in the list: its display name, how long
/// ago it ran (`N/A` when unknown) and its file name.
pub fn migration_list_row(script_name: &str, since: Option<String>) -> (r: Vec<String>)
    ensures
        r@.len() == 3,
        r@[0]@ == skip_fields(script_name@, 2),
        r@[1]@ == match since { Some(s) => s@, None => "N/A"@ },
        r@[2]@ == script_name@ + SURQL_FILE_EXTENSION@,
{
    let mut r: Vec<String> = Vec::new();
    r.push(get_migration_display_name(script_name));
    r.push(match since {
        Some(s) => s,
        None => String::from_str("N/A"),
    });
    let mut file_name = String::from_str(script_name);
    file_name.append(SURQL_FILE_EXTENSION);
    r.push(file_name);
    r
}

} // verus!
