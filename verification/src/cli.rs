use vstd::prelude::*;

verus! {

/// Arguments of the `create` command as given on the command line.
pub struct CreateArgs {
    pub command: Option<CreateAction>,
    /// Name of the migration to create.
    pub name: Option<String>,
    /// Also create an empty down migration file.
    pub down: bool,
    /// Content of the migration file.
    pub content: Option<String>,
}

/// The kind of file that `create` generates.
pub enum CreateAction {
    /// A schema file.
    Schema { name: String, fields: Option<Vec<String>>, dry_run: bool, schemafull: bool },
    /// An event file.
    Event { name: String, fields: Option<Vec<String>>, dry_run: bool, schemafull: bool },
    /// A migration file.
    Migration { name: String, down: bool, content: Option<String> },
}

/// Arguments of the `apply` command as given on the command line.
pub struct ApplyArgs {
    pub up: Option<String>,
    pub down: Option<String>,
    pub reset: bool,
    pub redo: Option<String>,
    pub address: Option<String>,
    pub ns: Option<String>,
    pub db: Option<String>,
    pub username: Option<String>,
    pub password: Option<String>,
    pub dry_run: bool,
    pub validate_version_order: bool,
    pub output: bool,
}

/// Arguments of the `diff` command as given on the command line.
pub struct DiffArgs {
    pub no_color: bool,
}

/// Arguments of the `list` command as given on the command line.
pub struct ListArgs {
    pub address: Option<String>,
    pub ns: Option<String>,
    pub db: Option<String>,
    pub username: Option<String>,
    pub password: Option<String>,
    pub no_color: bool,
}

/// How a branch is merged into the main branch.
#[derive(PartialEq, Eq, Structural, Clone, Copy, Debug)]
pub enum BranchMergeMode {
    /// Only schema changes (events included).
    SchemaOnly,
    /// Schema and data changes.
    All,
    /// The main branch is replaced by the branch.
    Overwrite,
}

/// Arguments of the `branch` command as given on the command line.
pub struct BranchArgs {
    pub command: Option<BranchAction>,
    /// Branch whose information is displayed.
    pub name: Option<String>,
}

/// The branch commands.
#[allow(inconsistent_fields)]
pub enum BranchAction {
    New {
        name: Option<String>,
        address: Option<String>,
        ns: Option<String>,
        db: Option<String>,
        username: Option<String>,
        password: Option<String>,
    },
    Remove {
        name: String,
        address: Option<String>,
        ns: Option<String>,
        db: Option<String>,
        username: Option<String>,
        password: Option<String>,
    },
    Merge {
        name: String,
        mode: BranchMergeMode,
        address: Option<String>,
        ns: Option<String>,
        db: Option<String>,
        username: Option<String>,
        password: Option<String>,
    },
    Status { name: String },
    List {
        address: Option<String>,
        ns: Option<String>,
        db: Option<String>,
        username: Option<String>,
        password: Option<String>,
        no_color: bool,
    },
    Diff {
        name: String,
        address: Option<String>,
        ns: Option<String>,
        db: Option<String>,
        username: Option<String>,
        password: Option<String>,
    },
}

/// The predefined project templates.
#[derive(PartialEq, Eq, Structural, Clone, Copy, Debug)]
pub enum ScaffoldTemplate {
    Empty,
    Blog,
    Ecommerce,
}

/// The SQL dialects that a schema to import may be written in.
#[derive(PartialEq, Eq, Structural, Clone, Copy, Debug)]
pub enum ScaffoldSchemaDbType {
    BigQuery,
    ClickHouse,
    Hive,
    MsSql,
    MySql,
    PostgreSql,
    Redshift,
    SQLite,
    Snowflake,
}

/// The ways to scaffold a project.
pub enum ScaffoldAction {
    /// From a predefined template.
    Template { template: ScaffoldTemplate, traditional: bool },
    /// From an SQL schema file.
    Schema { schema: String, db_type: ScaffoldSchemaDbType, preserve_casing: bool, traditional: bool },
}

} // verus!
