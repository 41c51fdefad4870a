use vstd::prelude::*;

use crate::cli;
use crate::input::SurrealdbConfiguration;
use crate::statements::{string_list_contains, views};

verus! {

/// Arguments of `branch diff`.
pub struct BranchDiffArgs {
    pub name: String,
    pub db_configuration: SurrealdbConfiguration,
    pub config_file: Option<String>,
}

/// Arguments of `branch list`.
pub struct ListBranchArgs {
    pub db_configuration: SurrealdbConfiguration,
    pub no_color: bool,
    pub config_file: Option<String>,
}

/// Arguments of `branch merge`.
pub struct MergeBranchArgs {
    pub name: String,
    pub mode: cli::BranchMergeMode,
    pub db_configuration: SurrealdbConfiguration,
    pub config_file: Option<String>,
}

/// Arguments of `branch new`.
pub struct NewBranchArgs {
    pub name: Option<String>,
    pub db_configuration: SurrealdbConfiguration,
    pub config_file: Option<String>,
}

/// Arguments of `branch remove`.
pub struct RemoveBranchArgs {
    pub name: String,
    pub db_configuration: SurrealdbConfiguration,
    pub config_file: Option<String>,
}

/// Arguments of `branch status`.
pub struct BranchStatusArgs {
    pub name: String,
    pub config_file: Option<String>,
}

/// What the `branch` command is asked to do.
pub enum BranchArgs {
    Diff(BranchDiffArgs),
    List(ListBranchArgs),
    Merge(MergeBranchArgs),
    New(NewBranchArgs),
    Remove(RemoveBranchArgs),
    Status(BranchStatusArgs),
}

/// Errors of the branch commands that the library detects.
#[derive(PartialEq, Eq, Structural, Clone, Copy, Debug)]
pub enum BranchError {
    /// Neither a branch name nor a subcommand was given.
    NoActionSpecified,
    /// A branch of the requested name exists already.
    BranchAlreadyExists,
    /// No free branch name could be generated.
    CannotGenerateName,
}

/// The connection settings given on the command line.
pub open spec fn connection(
    address: Option<String>,
    ns: Option<String>,
    db: Option<String>,
    username: Option<String>,
    password: Option<String>,
) -> SurrealdbConfiguration {
    SurrealdbConfiguration { address, ns, db, username, password }
}

/// What `BranchArgs::try_from` gives: a bare name shows the status of that
/// branch; otherwise the subcommand says what to do.
pub open spec fn spec_branch_args(value: cli::BranchArgs, config_file: Option<String>) -> Result<BranchArgs, BranchError> {
    match value.name {
        Some(name) => Ok(BranchArgs::Status(BranchStatusArgs { name, config_file })),
        None => match value.command {
            Some(cli::BranchAction::New { name, address, ns, db, username, password }) =>
                Ok(BranchArgs::New(NewBranchArgs {
                    name,
                    db_configuration: connection(address, ns, db, username, password),
                    config_file,
                })),
            Some(cli::BranchAction::Remove { name, address, ns, db, username, password }) =>
                Ok(BranchArgs::Remove(RemoveBranchArgs {
                    name,
                    db_configuration: connection(address, ns, db, username, password),
                    config_file,
                })),
            Some(cli::BranchAction::Merge { name, mode, address, ns, db, username, password }) =>
                Ok(BranchArgs::Merge(MergeBranchArgs {
                    name,
                    mode,
                    db_configuration: connection(address, ns, db, username, password),
                    config_file,
                })),
            Some(cli::BranchAction::Status { name }) => Ok(BranchArgs::Status(BranchStatusArgs { name, config_file })),
            Some(cli::BranchAction::List { address, ns, db, username, password, no_color }) =>
                Ok(BranchArgs::List(ListBranchArgs {
                    db_configuration: connection(address, ns, db, username, password),
                    no_color,
                    config_file,
                })),
            Some(cli::BranchAction::Diff { name, address, ns, db, username, password }) =>
                Ok(BranchArgs::Diff(BranchDiffArgs {
                    name,
                    db_configuration: connection(address, ns, db, username, password),
                    config_file,
                })),
            None => Err(BranchError::NoActionSpecified),
        },
    }
}

impl BranchArgs {
    /// Reads the arguments of the `branch` command.
    pub fn try_from(value: cli::BranchArgs, config_file: Option<String>) -> (r: Result<BranchArgs, BranchError>)
        ensures
            r == spec_branch_args(value, config_file),
    {
        let cli::BranchArgs { command, name } = value;
        match name {
            Some(name) => Ok(BranchArgs::Status(BranchStatusArgs { name, config_file })),
            None => match command {
                Some(cli::BranchAction::New { name, address, ns, db, username, password }) => {
                    let db_configuration = SurrealdbConfiguration { address, ns, db, username, password };
                    Ok(BranchArgs::New(NewBranchArgs { name, db_configuration, config_file }))
                },
                Some(cli::BranchAction::Remove { name, address, ns, db, username, password }) => {
                    let db_configuration = SurrealdbConfiguration { address, ns, db, username, password };
                    Ok(BranchArgs::Remove(RemoveBranchArgs { name, db_configuration, config_file }))
                },
                Some(cli::BranchAction::Merge { name, mode, address, ns, db, username, password }) => {
                    let db_configuration = SurrealdbConfiguration { address, ns, db, username, password };
                    Ok(BranchArgs::Merge(MergeBranchArgs { name, mode, db_configuration, config_file }))
                },
                Some(cli::BranchAction::Status { name }) => {
                    Ok(BranchArgs::Status(BranchStatusArgs { name, config_file }))
                },
                Some(cli::BranchAction::List { address, ns, db, username, password, no_color }) => {
                    let db_configuration = SurrealdbConfiguration { address, ns, db, username, password };
                    Ok(BranchArgs::List(ListBranchArgs { db_configuration, no_color, config_file }))
                },
                Some(cli::BranchAction::Diff { name, address, ns, db, username, password }) => {
                    let db_configuration = SurrealdbConfiguration { address, ns, db, username, password };
                    Ok(BranchArgs::Diff(BranchDiffArgs { name, db_configuration, config_file }))
                },
                None => Err(BranchError::NoActionSpecified),
            },
        }
    }
}

/// A new branch may not take the name of an existing one.
pub fn fails_if_branch_already_exists(branch_name: Option<String>, existing_branch_names: &Vec<String>) -> (r: Result<(), BranchError>)
    ensures
        match branch_name {
            Some(n) => if views(existing_branch_names@).contains(n@) {
                r == Err::<(), BranchError>(BranchError::BranchAlreadyExists)
            } else {
                r is Ok
            },
            None => r is Ok,
        },
{
    if let Some(name) = branch_name {
        if string_list_contains(existing_branch_names, name.as_str()) {
            return Err(BranchError::BranchAlreadyExists);
        }
    }
    Ok(())
}

/// The form of a numbered random name: it ends with `-` and four ASCII
/// digits (`adjective-noun-number`).
pub open spec fn numbered_name_form(n: Seq<char>) -> bool {
    &&& n.len() >= 5
    &&& n[n.len() - 5] == '-'
    &&& forall|k: int| n.len() - 4 <= k < n.len() ==> '0' <= #[trigger] n[k] <= '9'
}

/// A random `adjective-noun-number` name, with
/// `names::Generator::with_naming(Name::Numbered)` and `Iterator::next`.
///
/// Trusted: a name is always produced, and it ends with `-` and a number
/// formatted on four digits (the source formats `{:04}` a number drawn in
/// `1..10000`). Which name is not stated: it is random.
#[verifier::external_body]
fn draw_numbered_name() -> (r: Option<String>)
    ensures
        r is Some,
        match r {
            Some(n) => numbered_name_form(n@),
            None => true,
        },
{
    names::Generator::with_naming(names::Name::Numbered).next()
}

/// A random `adjective-noun-number` branch name that no existing branch
/// has. Names are drawn until one is new, so without existing branches the
/// first one drawn is taken; otherwise the run gives up after `u64::MAX`
/// draws that all collide.
pub fn generate_random_branch_name(existing_branch_names: &Vec<String>) -> (r: Result<String, BranchError>)
    ensures
        r matches Ok(n) ==> !views(existing_branch_names@).contains(n@) && numbered_name_form(n@),
        r matches Err(e) ==> e == BranchError::CannotGenerateName && existing_branch_names@.len() > 0,
{
    let mut attempts: u64 = 0;
    while attempts < u64::MAX
        invariant
            existing_branch_names@.len() == 0 ==> attempts == 0,
        decreases u64::MAX - attempts,
    {
        let branch_name = match draw_numbered_name() {
            Some(n) => n,
            None => return Err(BranchError::CannotGenerateName),
        };
        if !string_list_contains(existing_branch_names, branch_name.as_str()) {
            return Ok(branch_name);
        }
        assert(views(existing_branch_names@).len() > 0);
        attempts = attempts + 1;
    }
    Err(BranchError::CannotGenerateName)
}

} // verus!
