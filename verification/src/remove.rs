use vstd::prelude::*;

use crate::common::{get_migration_display_name, skip_fields};
use crate::constants::{DOWN_MIGRATIONS_DIR_NAME, DOWN_SURQL_FILE_EXTENSION, JSON_FILE_EXTENSION, MIGRATIONS_DIR_NAME};
use crate::file::SurqlFile;
use crate::io::{concat_path, join_path, joined_path};

verus! {

/// Error of the `remove` command.
#[derive(PartialEq, Eq, Structural, Clone, Copy, Debug)]
pub enum RemoveError {
    /// There is no migration file to remove.
    NoMigrationFilesLeft,
}

/// The files that removing a migration deletes (those that exist).
pub struct RemovalPaths {
    /// The migration file.
    pub migration_file: String,
    /// Its definition file.
    pub definition_file: String,
    /// Its down file in the down folder.
    pub nested_down_file: String,
    /// Its down file beside it.
    pub inlined_down_file: String,
}

/// The migration that `remove` deletes: the last forward migration file.
pub fn last_migration(forward_migrations_files: &Vec<SurqlFile>) -> (r: Result<usize, RemoveError>)
    ensures
        forward_migrations_files@.len() == 0 ==> r == Err::<usize, RemoveError>(RemoveError::NoMigrationFilesLeft),
        forward_migrations_files@.len() > 0 ==> r == Ok::<usize, RemoveError>((forward_migrations_files@.len() - 1) as usize),
{
    if forward_migrations_files.len() == 0 {
        Err(RemoveError::NoMigrationFilesLeft)
    } else {
        Ok(forward_migrations_files.len() - 1)
    }
}

/// The files that removing `last_migration` deletes, in the migrations
/// folder of the project: the migration file, `definitions/<name>.json`,
/// `down/<file name>` and `<name>.down.surql`.
pub fn removal_paths(folder_path: &Option<String>, last_migration: &SurqlFile) -> (r: RemovalPaths)
    ensures
        ({
            let migrations = match folder_path {
                Some(f) => joined_path(f@, MIGRATIONS_DIR_NAME@),
                None => MIGRATIONS_DIR_NAME@,
            };
            &&& r.migration_file@ == joined_path(migrations, last_migration.full_name@)
            &&& r.definition_file@ == joined_path(joined_path(migrations, "definitions"@), last_migration.name@ + JSON_FILE_EXTENSION@)
            &&& r.nested_down_file@ == joined_path(joined_path(migrations, DOWN_MIGRATIONS_DIR_NAME@), last_migration.full_name@)
            &&& r.inlined_down_file@ == joined_path(migrations, last_migration.name@ + DOWN_SURQL_FILE_EXTENSION@)
        }),
{
    let migrations_path = concat_path(folder_path, MIGRATIONS_DIR_NAME);
    let migration_file = join_path(migrations_path.as_str(), last_migration.full_name.as_str());
    let definitions_path = join_path(migrations_path.as_str(), "definitions");
    let mut definition_name = last_migration.name.clone();
    definition_name.append(JSON_FILE_EXTENSION);
    let definition_file = join_path(definitions_path.as_str(), definition_name.as_str());
    let down_path = join_path(migrations_path.as_str(), DOWN_MIGRATIONS_DIR_NAME);
    let nested_down_file = join_path(down_path.as_str(), last_migration.full_name.as_str());
    let mut inlined_name = last_migration.name.clone();
    inlined_name.append(DOWN_SURQL_FILE_EXTENSION);
    let inlined_down_file = join_path(migrations_path.as_str(), inlined_name.as_str());
    RemovalPaths { migration_file, definition_file, nested_down_file, inlined_down_file }
}

/// The message that confirms the removal of a migration.
pub fn removal_message(last_migration: &SurqlFile) -> (r: String)
    ensures
        r@ == "Migration '"@ + skip_fields(last_migration.name@, 2) + "' successfully removed"@,
{
    let mut r = String::from_str("Migration '");
    r.append(get_migration_display_name(last_migration.name.as_str()).as_str());
    r.append("' successfully removed");
    r
}

} // verus!
