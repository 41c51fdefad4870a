use vstd::prelude::*;

verus! {

/// Tag that selects every file.
pub const ALL_TAGS: &'static str = "*";

/// Tag of the files found at the root of a folder.
pub const ROOT_TAG: &'static str = "root";

/// Tag of down (reverting) migration files.
pub const DOWN_TAG: &'static str = "down";

/// Folder of the schema files.
pub const SCHEMAS_DIR_NAME: &'static str = "schemas";

/// Folder of the event files.
pub const EVENTS_DIR_NAME: &'static str = "events";

/// Folder of the migration files.
pub const MIGRATIONS_DIR_NAME: &'static str = "migrations";

/// Folder of the down migration files, inside the migrations folder.
pub const DOWN_MIGRATIONS_DIR_NAME: &'static str = "down";

/// Extension of SurrealQL files.
pub const SURQL_FILE_EXTENSION: &'static str = ".surql";

/// Extension of down migration files kept beside the up migration.
pub const DOWN_SURQL_FILE_EXTENSION: &'static str = ".down.surql";

/// Extension of JSON definition files.
pub const JSON_FILE_EXTENSION: &'static str = ".json";

/// Table in which applied migrations are recorded.
pub const SCRIPT_MIGRATION_TABLE_NAME: &'static str = "script_migration";

/// File holding the first migration of a project without schema files.
pub const INITIAL_TRADITIONAL_MIGRATION_FILENAME: &'static str = "__Initial.surql";

/// Name of the initial definition file, without extension.
pub const INITIAL_DEFINITION_NAME: &'static str = "_initial";

} // verus!
