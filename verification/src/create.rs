use vstd::prelude::*;

use crate::cli;
use crate::config::{configured_value, opt_view, retrieve_table_schema_design, spec_table_schema_design, TableSchemaDesign};
use crate::constants::SURQL_FILE_EXTENSION;
use crate::io::join_lines;

verus! {

/// What the `create` command is asked to do.
pub struct CreateArgs {
    /// Name of the file to create (without date, time or extension).
    pub name: String,
    pub operation: CreateOperation,
    /// Path of the configuration file, if one was given.
    pub config_file: Option<String>,
}

/// The kind of file to create.
pub enum CreateOperation {
    Schema(CreateSchemaArgs),
    Event(CreateEventArgs),
    Migration(CreateMigrationArgs),
}

/// Options of a new schema file.
pub struct CreateSchemaArgs {
    pub fields: Option<Vec<String>>,
    pub dry_run: bool,
    pub schemafull: bool,
}

/// Options of a new event file.
pub struct CreateEventArgs {
    pub fields: Option<Vec<String>>,
    pub dry_run: bool,
    pub schemafull: bool,
}

/// Options of a new migration file.
pub struct CreateMigrationArgs {
    pub down: bool,
    pub content: Option<String>,
}

/// Error of the `create` arguments.
#[derive(PartialEq, Eq, Structural, Clone, Copy, Debug)]
pub enum CreateArgsError {
    /// Neither a migration name nor a subcommand was given.
    NoActionSpecified,
}

/// What `CreateArgs::try_from` gives: a bare name creates a migration;
/// otherwise the subcommand says what to create.
pub open spec fn spec_create_args(value: cli::CreateArgs, config_file: Option<String>) -> Result<CreateArgs, CreateArgsError> {
    match value.name {
        Some(name) => Ok(CreateArgs {
            name,
            operation: CreateOperation::Migration(CreateMigrationArgs { down: value.down, content: value.content }),
            config_file,
        }),
        None => match value.command {
            Some(cli::CreateAction::Schema { name, fields, dry_run, schemafull }) => Ok(CreateArgs {
                name,
                operation: CreateOperation::Schema(CreateSchemaArgs { fields, dry_run, schemafull }),
                config_file,
            }),
            Some(cli::CreateAction::Event { name, fields, dry_run, schemafull }) => Ok(CreateArgs {
                name,
                operation: CreateOperation::Event(CreateEventArgs { fields, dry_run, schemafull }),
                config_file,
            }),
            Some(cli::CreateAction::Migration { name, down, content }) => Ok(CreateArgs {
                name,
                operation: CreateOperation::Migration(CreateMigrationArgs { down, content }),
                config_file,
            }),
            None => Err(CreateArgsError::NoActionSpecified),
        },
    }
}

impl CreateArgs {
    /// Reads the arguments of the `create` command.
    pub fn try_from(value: cli::CreateArgs, config_file: Option<String>) -> (r: Result<CreateArgs, CreateArgsError>)
        ensures
            r == spec_create_args(value, config_file),
    {
        let cli::CreateArgs { command, name, down, content } = value;
        match name {
            Some(name) => {
                let operation = CreateOperation::Migration(CreateMigrationArgs { down, content });
                Ok(CreateArgs { name, operation, config_file })
            },
            None => match command {
                Some(cli::CreateAction::Schema { name, fields, dry_run, schemafull }) => {
                    let operation = CreateOperation::Schema(CreateSchemaArgs { fields, dry_run, schemafull });
                    Ok(CreateArgs { name, operation, config_file })
                },
                Some(cli::CreateAction::Event { name, fields, dry_run, schemafull }) => {
                    let operation = CreateOperation::Event(CreateEventArgs { fields, dry_run, schemafull });
                    Ok(CreateArgs { name, operation, config_file })
                },
                Some(cli::CreateAction::Migration { name, down, content }) => {
                    let operation = CreateOperation::Migration(CreateMigrationArgs { down, content });
                    Ok(CreateArgs { name, operation, config_file })
                },
                None => Err(CreateArgsError::NoActionSpecified),
            },
        }
    }
}

/// The dry-run flag of an operation: migrations are always written.
pub open spec fn spec_is_dry_run(operation: CreateOperation) -> bool {
    match operation {
        CreateOperation::Schema(a) => a.dry_run,
        CreateOperation::Event(a) => a.dry_run,
        CreateOperation::Migration(_) => false,
    }
}

/// Whether the operation only prints the file instead of writing it.
pub fn is_dry_run(operation: &CreateOperation) -> (r: bool)
    ensures
        r == spec_is_dry_run(*operation),
{
    match operation {
        CreateOperation::Schema(args) => args.dry_run,
        CreateOperation::Event(args) => args.dry_run,
        CreateOperation::Migration(_) => false,
    }
}

/// Whether an empty down migration file is created beside the new file.
pub fn should_create_down_file(operation: &CreateOperation) -> (r: bool)
    ensures
        r == (operation matches CreateOperation::Migration(m) && m.down),
{
    match operation {
        CreateOperation::Migration(args) => args.down,
        _ => false,
    }
}

/// The folder of the project in which the new file goes.
pub fn target_dir_name(operation: &CreateOperation) -> (r: &'static str)
    ensures
        r@ == match operation {
            CreateOperation::Schema(_) => crate::constants::SCHEMAS_DIR_NAME@,
            CreateOperation::Event(_) => crate::constants::EVENTS_DIR_NAME@,
            CreateOperation::Migration(_) => crate::constants::MIGRATIONS_DIR_NAME@,
        },
{
    match operation {
        CreateOperation::Schema(_) => crate::constants::SCHEMAS_DIR_NAME,
        CreateOperation::Event(_) => crate::constants::EVENTS_DIR_NAME,
        CreateOperation::Migration(_) => crate::constants::MIGRATIONS_DIR_NAME,
    }
}

} // verus!

verus! {

/// The line that defines `field` on table `name`.
pub open spec fn field_definition_line(field: Seq<char>, name: Seq<char>) -> Seq<char> {
    "DEFINE FIELD OVERWRITE "@ + field + " ON "@ + name + ";"@
}

/// The field definitions of a new table: one line per field, or a commented
/// example when no field was given.
pub open spec fn field_definitions_text(fields: Option<Seq<String>>, name: Seq<char>) -> Seq<char> {
    match fields {
        Some(fs) => join_lines(fs.map_values(|f: String| field_definition_line(f@, name))),
        None => "# DEFINE FIELD OVERWRITE field ON "@ + name + ";"@,
    }
}

/// Text of several strings put end to end.
fn concat_all(parts: &[&str]) -> (r: String)
    ensures
        r@ == parts@.map_values(|p: &str| p@).fold_left(Seq::<char>::empty(), |acc: Seq<char>, p: Seq<char>| acc + p),
{
    let mut r = String::new();
    let mut i: usize = 0;
    while i < parts.len()
        invariant
            i <= parts.len(),
            r@ == parts@.take(i as int).map_values(|p: &str| p@).fold_left(Seq::<char>::empty(), |acc: Seq<char>, p: Seq<char>| acc + p),
        decreases parts.len() - i,
    {
        let ghost before = parts@.take(i as int).map_values(|p: &str| p@);
        r.append(parts[i]);
        proof {
            let after = parts@.take(i + 1).map_values(|p: &str| p@);
            assert(after =~= before.push(parts@[i as int]@));
            assert(after.drop_last() =~= before);
        }
        i = i + 1;
    }
    proof {
        assert(parts@.take(parts.len() as int) =~= parts@);
    }
    r
}

/// Generates the field definitions of a new table.
pub fn generate_field_definitions(fields: &Option<Vec<String>>, name: String) -> (r: String)
    ensures
        r@ == field_definitions_text(match fields { Some(f) => Some(f@), None => None }, name@),
{
    match fields {
        Some(fields) => {
            let mut r = String::new();
            let mut i: usize = 0;
            while i < fields.len()
                invariant
                    i <= fields.len(),
                    r@ == join_lines(fields@.take(i as int).map_values(|f: String| field_definition_line(f@, name@))),
                decreases fields.len() - i,
            {
                let ghost before = fields@.take(i as int).map_values(|f: String| field_definition_line(f@, name@));
                if i > 0 {
                    r.append("\n");
                }
                r.append("DEFINE FIELD OVERWRITE ");
                r.append(fields[i].as_str());
                r.append(" ON ");
                r.append(name.as_str());
                r.append(";");
                proof {
                    let after = fields@.take(i + 1).map_values(|f: String| field_definition_line(f@, name@));
                    assert(after.drop_last() =~= before);
                    assert(after.last() == field_definition_line(fields@[i as int]@, name@));
                    if i == 0 {
                        assert(after.len() == 1);
                        assert(r@ =~= after[0]);
                    } else {
                        reveal_strlit("\n");
                        assert(r@ =~= join_lines(before) + seq!['\n'] + after.last());
                    }
                }
                i = i + 1;
            }
            proof {
                assert(fields@.take(fields.len() as int) =~= fields@);
            }
            r
        },
        None => {
            let mut r = String::from_str("# DEFINE FIELD OVERWRITE field ON ");
            r.append(name.as_str());
            r.append(";");
            r
        },
    }
}

/// The table design named in new table definitions.
pub open spec fn table_schema_design_text(design: Option<TableSchemaDesign>, schemafull: bool) -> Seq<char> {
    if schemafull || design == Some(TableSchemaDesign::Schemafull) {
        "SCHEMAFULL"@
    } else {
        "SCHEMALESS"@
    }
}

/// The table design of a new table: `SCHEMAFULL` when asked for, else the
/// configured design, else `SCHEMALESS`.
pub fn get_table_schema_design_str(config: Option<&ini::Ini>, env_schema: Option<String>, schemafull: bool) -> (r: &'static str)
    ensures
        r@ == table_schema_design_text(
            match configured_value(match config { Some(c) => Some(*c), None => None }, "core"@, "schema"@, opt_view(env_schema)) {
                Some(s) => spec_table_schema_design(s),
                None => None,
            },
            schemafull,
        ),
{
    if schemafull {
        return "SCHEMAFULL";
    }
    match retrieve_table_schema_design(config, env_schema) {
        Some(TableSchemaDesign::Schemafull) => "SCHEMAFULL",
        Some(TableSchemaDesign::Schemaless) => "SCHEMALESS",
        None => "SCHEMALESS",
    }
}

/// The content of a new file: a table definition with its fields for a
/// schema, followed by an event on the table for an event; the given content
/// (or nothing) for a migration.
pub open spec fn file_content_text(design_text: Seq<char>, operation: CreateOperation, name: Seq<char>) -> Seq<char> {
    match operation {
        CreateOperation::Schema(a) =>
            "DEFINE TABLE OVERWRITE "@ + name + " "@ + design_text + ";\n\n"@
                + field_definitions_text(match a.fields { Some(f) => Some(f@), None => None }, name),
        CreateOperation::Event(a) =>
            "DEFINE TABLE OVERWRITE "@ + name + " "@ + design_text + ";\n\n"@
                + field_definitions_text(match a.fields { Some(f) => Some(f@), None => None }, name)
                + "\n\nDEFINE EVENT OVERWRITE "@ + name + " ON TABLE "@ + name
                + " WHEN $event == \"CREATE\" THEN (\n    # TODO\n);"@,
        CreateOperation::Migration(a) => match a.content {
            Some(c) => c@,
            None => Seq::empty(),
        },
    }
}

/// Generates the content of the new file (see `file_content_text`); the
/// table design comes from `get_table_schema_design_str`.
pub fn generate_file_content(config: Option<&ini::Ini>, env_schema: Option<String>, operation: &CreateOperation, name: String) -> (r: String)
    ensures
        r@ == file_content_text(
            table_schema_design_text(
                match configured_value(match config { Some(c) => Some(*c), None => None }, "core"@, "schema"@, opt_view(env_schema)) {
                    Some(s) => spec_table_schema_design(s),
                    None => None,
                },
                match operation {
                    CreateOperation::Schema(a) => a.schemafull,
                    CreateOperation::Event(a) => a.schemafull,
                    CreateOperation::Migration(_) => false,
                },
            ),
            *operation,
            name@,
        ),
{
    match operation {
        CreateOperation::Schema(args) => {
            let design = get_table_schema_design_str(config, env_schema, args.schemafull);
            let fields = generate_field_definitions(&args.fields, name.clone());
            let r = concat_all(&["DEFINE TABLE OVERWRITE ", name.as_str(), " ", design, ";\n\n", fields.as_str()]);
            proof {
                reveal_with_fuel(Seq::fold_left, 7);
            }
            r
        },
        CreateOperation::Event(args) => {
            let design = get_table_schema_design_str(config, env_schema, args.schemafull);
            let fields = generate_field_definitions(&args.fields, name.clone());
            let r = concat_all(&[
                "DEFINE TABLE OVERWRITE ", name.as_str(), " ", design, ";\n\n", fields.as_str(),
                "\n\nDEFINE EVENT OVERWRITE ", name.as_str(), " ON TABLE ", name.as_str(),
                " WHEN $event == \"CREATE\" THEN (\n    # TODO\n);",
            ]);
            proof {
                reveal_with_fuel(Seq::fold_left, 12);
            }
            r
        },
        CreateOperation::Migration(args) => match &args.content {
            Some(c) => c.clone(),
            None => String::new(),
        },
    }
}

} // verus!

verus! {

/// The characters are ASCII digits.
pub open spec fn all_ascii_digits(s: Seq<char>) -> bool {
    forall|i: int| 0 <= i < s.len() ==> '0' <= #[trigger] s[i] <= '9'
}

/// A `%Y%m%d` date: digits, save a leading sign for a year outside 0..=9999,
/// and at least eight characters.
pub open spec fn is_date_stamp(s: Seq<char>) -> bool {
    &&& s.len() >= 8
    &&& forall|i: int| 0 < i < s.len() ==> '0' <= #[trigger] s[i] <= '9'
    &&& ('0' <= s[0] <= '9' || s[0] == '+' || s[0] == '-')
}

/// A `%H%M%S` time: six digits.
pub open spec fn is_time_stamp(s: Seq<char>) -> bool {
    s.len() == 6 && all_ascii_digits(s)
}

/// The local date (`%Y%m%d`) and time (`%H%M%S`) at the moment of the call,
/// with `chrono::Local::now` and `format`.
///
/// Trusted: the date is digits, with a sign first for a year outside
/// 0..=9999, and at least eight long; the time is six digits. Which date and
/// time they hold is not stated: it depends on the clock.
#[verifier::external_body]
fn local_timestamp() -> (r: (String, String))
    ensures
        is_date_stamp(r.0@),
        is_time_stamp(r.1@),
{
    let now = chrono::Local::now();
    (now.format("%Y%m%d").to_string(), now.format("%H%M%S").to_string())
}

/// The local date (`%Y%m%d`) and time (`%H%M%S`) now.
pub fn migration_timestamp() -> (r: (String, String))
    ensures
        is_date_stamp(r.0@),
        is_time_stamp(r.1@),
{
    local_timestamp()
}

/// The file name of a migration created at `date` and `time`.
pub open spec fn migration_file_name(date: Seq<char>, time: Seq<char>, name: Seq<char>) -> Seq<char> {
    date + "_"@ + time + "_"@ + name + SURQL_FILE_EXTENSION@
}

/// Builds the file name of a migration created at `date` and `time`.
pub fn build_migration_file_name(date: &str, time: &str, name: &str) -> (r: String)
    ensures
        r@ == migration_file_name(date@, time@, name@),
{
    let mut r = String::from_str(date);
    r.append("_");
    r.append(time);
    r.append("_");
    r.append(name);
    r.append(SURQL_FILE_EXTENSION);
    r
}

/// The file name of the new file: the name with the SurrealQL extension for
/// a schema or an event; for a migration, the name prefixed with the current
/// date and time (see `migration_file_name`).
pub fn get_filename(operation: &CreateOperation, name: &String) -> (r: String)
    ensures
        operation is Migration ==> exists|date: Seq<char>, time: Seq<char>|
            is_date_stamp(date) && is_time_stamp(time) && r@ == #[trigger] migration_file_name(date, time, name@),
        !(operation is Migration) ==> r@ == name@ + SURQL_FILE_EXTENSION@,
{
    match operation {
        CreateOperation::Migration(_) => {
            let (date, time) = local_timestamp();
            build_migration_file_name(date.as_str(), time.as_str(), name.as_str())
        },
        _ => {
            let mut r = name.clone();
            r.append(SURQL_FILE_EXTENSION);
            r
        },
    }
}

} // verus!
