use vstd::prelude::*;

use crate::cli;
use crate::constants::{
    DOWN_MIGRATIONS_DIR_NAME, EVENTS_DIR_NAME, MIGRATIONS_DIR_NAME, SCHEMAS_DIR_NAME, SURQL_FILE_EXTENSION,
};
use crate::io::{concat_path, join_path, joined_path};
use crate::schema_import::{
    contents_view, distinct_files, schema_file_contents, schema_files, schema_tables, LineView, SqlStatement,
};
use crate::statements::{
    remove_statement_text, DefineStatement, ParsedStatement, RemoveStatement, Statement,
};
use crate::strings::chars_of;
use crate::sql_schema::{
    dialect_name, has_unsupported_index_column, parse_sql_schema, parsed_sql_schema, statements_view, SqlSchemaError,
};

verus! {

/// Arguments of scaffolding from a predefined template.
pub struct ScaffoldFromTemplateArgs {
    pub template: cli::ScaffoldTemplate,
    /// Turn the schema and event files into an initial migration.
    pub traditional: bool,
    pub config_file: Option<String>,
}

/// Arguments of scaffolding from an SQL schema file.
pub struct ScaffoldFromSchemaArgs {
    /// Path of the SQL schema file.
    pub schema: String,
    pub db_type: cli::ScaffoldSchemaDbType,
    /// Keep the case of table and column names instead of using snake case.
    pub preserve_casing: bool,
    /// Turn the schema and event files into an initial migration.
    pub traditional: bool,
    pub config_file: Option<String>,
}

/// What the `scaffold` command is asked to do.
pub enum ScaffoldArgs {
    Schema(ScaffoldFromSchemaArgs),
    Template(ScaffoldFromTemplateArgs),
}

impl ScaffoldArgs {
    /// Reads the arguments of the `scaffold` command.
    pub fn from(value: cli::ScaffoldAction, config_file: Option<String>) -> (r: Self)
        ensures
            r == match value {
                cli::ScaffoldAction::Template { template, traditional } =>
                    ScaffoldArgs::Template(ScaffoldFromTemplateArgs { template, traditional, config_file }),
                cli::ScaffoldAction::Schema { schema, db_type, preserve_casing, traditional } =>
                    ScaffoldArgs::Schema(ScaffoldFromSchemaArgs { schema, db_type, preserve_casing, traditional, config_file }),
            },
    {
        match value {
            cli::ScaffoldAction::Template { template, traditional } => {
                ScaffoldArgs::Template(ScaffoldFromTemplateArgs { template, traditional, config_file })
            },
            cli::ScaffoldAction::Schema { schema, db_type, preserve_casing, traditional } => {
                ScaffoldArgs::Schema(ScaffoldFromSchemaArgs { schema, db_type, preserve_casing, traditional, config_file })
            },
        }
    }
}

/// The folder of a predefined template.
pub fn get_template_name(template: cli::ScaffoldTemplate) -> (r: &'static str)
    ensures
        r@ == match template {
            cli::ScaffoldTemplate::Empty => "empty"@,
            cli::ScaffoldTemplate::Blog => "blog"@,
            cli::ScaffoldTemplate::Ecommerce => "ecommerce"@,
        },
{
    match template {
        cli::ScaffoldTemplate::Empty => "empty",
        cli::ScaffoldTemplate::Blog => "blog",
        cli::ScaffoldTemplate::Ecommerce => "ecommerce",
    }
}

/// Errors of scaffolding that the library detects.
#[derive(PartialEq, Eq, Structural, Clone, Copy, Debug)]
pub enum ScaffoldError {
    /// The schemas folder exists already.
    SchemasFolderExists,
    /// The events folder exists already.
    EventsFolderExists,
    /// The migrations folder exists already.
    MigrationsFolderExists,
    /// A statement cannot be undone by a `REMOVE` statement.
    UnsupportedRemoveStatement,
    /// The SQL schema defines no table.
    NoTableFound,
    /// The SQL schema defines the table that records applied migrations.
    ReservedTableName,
    /// The SQL schema does not parse.
    SchemaParse,
    /// An index of the SQL schema has a column that is not a plain identifier.
    UnsupportedIndexColumn,
}

/// The project folders that scaffolding creates: schemas, events and
/// migrations, inside the configured folder.
pub fn scaffold_folders(folder_path: &Option<String>) -> (r: Vec<String>)
    ensures
        r@.len() == 3,
        r@[0]@ == match folder_path { Some(f) => joined_path(f@, SCHEMAS_DIR_NAME@), None => SCHEMAS_DIR_NAME@ },
        r@[1]@ == match folder_path { Some(f) => joined_path(f@, EVENTS_DIR_NAME@), None => EVENTS_DIR_NAME@ },
        r@[2]@ == match folder_path { Some(f) => joined_path(f@, MIGRATIONS_DIR_NAME@), None => MIGRATIONS_DIR_NAME@ },
{
    let mut r: Vec<String> = Vec::new();
    r.push(concat_path(folder_path, SCHEMAS_DIR_NAME));
    r.push(concat_path(folder_path, EVENTS_DIR_NAME));
    r.push(concat_path(folder_path, MIGRATIONS_DIR_NAME));
    r
}

/// Fails when a project folder exists already.
pub fn fails_if_folder_already_exists(folder_exists: bool, error: ScaffoldError) -> (r: Result<(), ScaffoldError>)
    ensures
        r == if folder_exists { Err::<(), ScaffoldError>(error) } else { Ok(()) },
{
    if folder_exists {
        Err(error)
    } else {
        Ok(())
    }
}

/// Whether scaffolding may go on, given which of the three project folders
/// (see `scaffold_folders`) exist: the first one found, in that order, is
/// reported.
pub open spec fn scaffold_folder_check(folder_exists: Seq<bool>) -> Result<(), ScaffoldError> {
    if folder_exists[0] {
        Err(ScaffoldError::SchemasFolderExists)
    } else if folder_exists[1] {
        Err(ScaffoldError::EventsFolderExists)
    } else if folder_exists[2] {
        Err(ScaffoldError::MigrationsFolderExists)
    } else {
        Ok(())
    }
}

/// Scaffolding needs the three project folders (see `scaffold_folders`) to
/// be absent: the first one found, in that order, is reported.
pub fn apply_before_scaffold(folder_exists: &Vec<bool>) -> (r: Result<(), ScaffoldError>)
    requires
        folder_exists@.len() == 3,
    ensures
        r == scaffold_folder_check(folder_exists@),
{
    fails_if_folder_already_exists(folder_exists[0], ScaffoldError::SchemasFolderExists)?;
    fails_if_folder_already_exists(folder_exists[1], ScaffoldError::EventsFolderExists)?;
    fails_if_folder_already_exists(folder_exists[2], ScaffoldError::MigrationsFolderExists)?;
    Ok(())
}

} // verus!

verus! {

/// The table a definition is about: its name for a table, its table for a
/// field, an index or an event.
pub open spec fn statement_idiom(s: Statement) -> Option<Seq<char>> {
    match s {
        Statement::Define(DefineStatement::Table(t)) => Some(t.name@),
        Statement::Define(DefineStatement::Field(f)) => Some(f.what@),
        Statement::Define(DefineStatement::Index(i)) => Some(i.what@),
        Statement::Define(DefineStatement::Event(e)) => Some(e.what@),
        _ => None,
    }
}

/// The table of the last statement of `s` that is about a table.
pub open spec fn last_idiom(s: Seq<ParsedStatement>) -> Option<Seq<char>>
    decreases s.len(),
{
    if s.len() == 0 {
        None
    } else {
        match statement_idiom(s.last().statement) {
            Some(t) => Some(t),
            None => last_idiom(s.drop_last()),
        }
    }
}

/// A blank line between the statements of two tables.
pub open spec fn separator(previous: Option<Seq<char>>, idiom: Option<Seq<char>>) -> Seq<char> {
    if previous is Some && idiom != previous {
        "\n"@
    } else {
        Seq::empty()
    }
}

/// The initial migration: each statement followed by `;` and a line break,
/// with a blank line wherever the table changes.
pub open spec fn initial_migration_text(s: Seq<ParsedStatement>) -> Seq<char>
    decreases s.len(),
{
    if s.len() == 0 {
        Seq::empty()
    } else {
        initial_migration_text(s.drop_last()) + separator(last_idiom(s.drop_last()), statement_idiom(s.last().statement))
            + s.last().statement_text() + ";\n"@
    }
}

impl ParsedStatement {
    /// The SurrealQL text of the statement.
    pub open spec fn statement_text(self) -> Seq<char> {
        self.text@
    }
}

/// Compares two optional table names.
fn same_idiom(a: &Option<String>, b: &Option<String>) -> (r: bool)
    ensures
        r == (match a { Some(x) => Some(x@), None => None::<Seq<char>> } == match b { Some(x) => Some(x@), None => None::<Seq<char>> }),
{
    match (a, b) {
        (Some(x), Some(y)) => crate::strings::str_eq(x.as_str(), y.as_str()),
        (None, None) => true,
        _ => false,
    }
}

/// The table a statement is about (see `statement_idiom`).
fn idiom_of(s: &Statement) -> (r: Option<String>)
    ensures
        match r { Some(x) => Some(x@), None => None::<Seq<char>> } == statement_idiom(*s),
{
    match s {
        Statement::Define(DefineStatement::Table(t)) => Some(t.name.clone()),
        Statement::Define(DefineStatement::Field(f)) => Some(f.what.clone()),
        Statement::Define(DefineStatement::Index(i)) => Some(i.what.clone()),
        Statement::Define(DefineStatement::Event(e)) => Some(e.what.clone()),
        _ => None,
    }
}

/// The content of the initial migration (see `initial_migration_text`).
pub fn create_initial_migration(statements: &Vec<ParsedStatement>) -> (r: String)
    ensures
        r@ == initial_migration_text(statements@),
{
    let mut content = String::new();
    let mut previous_idiom: Option<String> = None;
    let mut i: usize = 0;
    while i < statements.len()
        invariant
            i <= statements.len(),
            content@ == initial_migration_text(statements@.take(i as int)),
            match previous_idiom { Some(x) => Some(x@), None => None::<Seq<char>> } == last_idiom(statements@.take(i as int)),
        decreases statements.len() - i,
    {
        let ghost prefix = statements@.take(i as int);
        assert(statements@.take(i + 1).drop_last() =~= prefix);
        assert(statements@.take(i + 1).last() == statements@[i as int]);
        let idiom = idiom_of(&statements[i].statement);
        if previous_idiom.is_some() && !same_idiom(&idiom, &previous_idiom) {
            content.append("\n");
        }
        content.append(statements[i].text.as_str());
        content.append(";\n");
        if idiom.is_some() {
            previous_idiom = idiom;
        }
        i = i + 1;
    }
    assert(statements@.take(statements.len() as int) =~= statements@);
    content
}

/// The `REMOVE` statement that undoes a definition, if there is one.
pub open spec fn spec_remove_statement(s: Statement) -> Option<Seq<char>> {
    match s {
        Statement::Define(DefineStatement::Table(t)) => Some("REMOVE TABLE "@ + t.name@),
        Statement::Define(DefineStatement::Field(f)) => Some("REMOVE FIELD "@ + f.name@ + " ON "@ + f.what@),
        Statement::Define(DefineStatement::Index(i)) => Some("REMOVE INDEX "@ + i.name@ + " ON "@ + i.what@),
        Statement::Define(DefineStatement::Event(e)) => Some("REMOVE EVENT "@ + e.name@ + " ON "@ + e.what@),
        Statement::Define(DefineStatement::Access(a)) => Some("REMOVE ACCESS "@ + a.name@ + " ON "@ + a.base@),
        _ => None,
    }
}

/// The initial down migration for statements taken in the order `s` (the
/// reverse of the definitions): the `REMOVE` statement of each, followed by
/// `;` and a line break, with a blank line wherever the table changes; none
/// when some statement has no `REMOVE` statement.
pub open spec fn down_migration_text(s: Seq<ParsedStatement>) -> Option<Seq<char>>
    decreases s.len(),
{
    if s.len() == 0 {
        Some(Seq::empty())
    } else {
        match down_migration_text(s.drop_last()) {
            None => None,
            Some(t) => match spec_remove_statement(s.last().statement) {
                None => None,
                Some(x) => Some(t + separator(last_idiom(s.drop_last()), statement_idiom(s.last().statement)) + x + ";\n"@),
            },
        }
    }
}

/// The `REMOVE` statement that undoes a definition.
fn remove_statement_for(s: &Statement) -> (r: Option<RemoveStatement>)
    ensures
        match r { Some(x) => Some(remove_statement_text(x@)), None => None::<Seq<char>> } == spec_remove_statement(*s),
{
    match s {
        Statement::Define(DefineStatement::Table(t)) => Some(RemoveStatement::Table { name: t.name.clone() }),
        Statement::Define(DefineStatement::Field(f)) => Some(RemoveStatement::Field { name: f.name.clone(), what: f.what.clone() }),
        Statement::Define(DefineStatement::Index(i)) => Some(RemoveStatement::Index { name: i.name.clone(), what: i.what.clone() }),
        Statement::Define(DefineStatement::Event(e)) => Some(RemoveStatement::Event { name: e.name.clone(), what: e.what.clone() }),
        Statement::Define(DefineStatement::Access(a)) => Some(RemoveStatement::Access { name: a.name.clone(), base: a.base.clone() }),
        _ => None,
    }
}

/// The content of the initial down migration: the definitions undone in
/// reverse order (see `down_migration_text`).
pub fn create_initial_down_migration(statements: &Vec<ParsedStatement>) -> (r: Result<String, ScaffoldError>)
    ensures
        match down_migration_text(statements@.reverse()) {
            Some(t) => r matches Ok(c) && c@ == t,
            None => r == Err::<String, ScaffoldError>(ScaffoldError::UnsupportedRemoveStatement),
        },
{
    let ghost rev = statements@.reverse();
    let mut content = String::new();
    let mut previous_idiom: Option<String> = None;
    let mut k: usize = 0;
    while k < statements.len()
        invariant
            k <= statements.len(),
            rev == statements@.reverse(),
            down_migration_text(rev.take(k as int)) == Some(content@),
            match previous_idiom { Some(x) => Some(x@), None => None::<Seq<char>> } == last_idiom(rev.take(k as int)),
        decreases statements.len() - k,
    {
        let i = statements.len() - 1 - k;
        let ghost prefix = rev.take(k as int);
        assert(rev.take(k + 1).drop_last() =~= prefix);
        assert(rev.take(k + 1).last() == statements@[i as int]);
        let idiom = idiom_of(&statements[i].statement);
        if previous_idiom.is_some() && !same_idiom(&idiom, &previous_idiom) {
            content.append("\n");
        }
        let remove = match remove_statement_for(&statements[i].statement) {
            Some(x) => x,
            None => {
                proof {
                    lemma_down_migration_fails(rev, (k + 1) as int);
                }
                return Err(ScaffoldError::UnsupportedRemoveStatement);
            },
        };
        content.append(remove.to_surql().as_str());
        content.append(";\n");
        if idiom.is_some() {
            previous_idiom = idiom;
        }
        k = k + 1;
    }
    assert(rev.take(statements.len() as int) =~= rev);
    Ok(content)
}

/// Once a prefix has no down migration, no longer prefix has one.
proof fn lemma_down_migration_fails(s: Seq<ParsedStatement>, i: int)
    requires
        0 <= i <= s.len(),
        down_migration_text(s.take(i)) is None,
    ensures
        down_migration_text(s) is None,
    decreases s.len() - i,
{
    if i < s.len() {
        assert(s.take(i + 1).drop_last() =~= s.take(i));
        lemma_down_migration_fails(s, i + 1);
    } else {
        assert(s.take(i) =~= s);
    }
}

} // verus!

verus! {

/// The seconds that the pattern `^YYYYMMDD_HHMM(\d{2})_` of the `regex`
/// crate captures at the start of a file name (the placeholder prefix of
/// template migration files), when it matches.
pub uninterp spec fn template_seconds_capture(name: Seq<char>) -> Option<Seq<char>>;

/// The seconds of a template migration file's placeholder prefix, with
/// `regex::Regex::captures` on the pattern `^YYYYMMDD_HHMM(\d{2})_`.
///
/// Trusted: the result is the named capture; when there is one, it is the
/// two characters that follow `YYYYMMDD_HHMM` at the start of the name, and
/// `_` comes after them (`\d` is any Unicode decimal digit).
#[verifier::external_body]
fn template_seconds(file_name: &str) -> (r: Option<String>)
    ensures
        match r {
            Some(s) => template_seconds_capture(file_name@) == Some(s@),
            None => template_seconds_capture(file_name@) is None,
        },
        r matches Some(s) ==> s@.len() == 2 && file_name@.len() >= 16
            && file_name@.subrange(0, 13) == "YYYYMMDD_HHMM"@ && file_name@.subrange(13, 15) == s@
            && file_name@[15] == '_',
{
    let pattern = regex::Regex::new(r"^YYYYMMDD_HHMM(\d{2})_").ok()?;
    let captures = pattern.captures(file_name)?;
    Some(captures.get(1)?.as_str().to_string())
}

/// The name a template migration file takes when the project is created at
/// `date` (`%Y%m%d`) and `time` (`%H%M%S`): its placeholder prefix becomes
/// the date, `_`, the hour and minute of `time`, and its own seconds.
pub open spec fn renamed_template_file(name: Seq<char>, date: Seq<char>, time: Seq<char>) -> Option<Seq<char>> {
    match template_seconds_capture(name) {
        Some(seconds) => Some(date + "_"@ + time.take(4) + seconds + "_"@ + name.subrange(16, name.len() as int)),
        None => None,
    }
}

/// The new name of a template migration file (see `renamed_template_file`),
/// or nothing when the file has no placeholder prefix.
pub fn rename_template_migration_file(file_name: &str, date: &str, time: &str) -> (r: Option<String>)
    requires
        time@.len() >= 4,
    ensures
        match r { Some(x) => Some(x@), None => None::<Seq<char>> } == renamed_template_file(file_name@, date@, time@),
{
    let seconds = match template_seconds(file_name) {
        Some(s) => s,
        None => return None,
    };
    let v = chars_of(file_name);
    let t = chars_of(time);
    let mut r = String::from_str(date);
    r.append("_");
    let mut j: usize = 0;
    while j < 4
        invariant
            j <= 4,
            t@ == time@,
            t@.len() >= 4,
            r@ == date@ + "_"@ + time@.take(j as int),
        decreases 4 - j,
    {
        crate::strings::push_char(&mut r, t[j]);
        assert(time@.take(j + 1) =~= time@.take(j as int).push(time@[j as int]));
        j = j + 1;
    }
    r.append(seconds.as_str());
    r.append("_");
    let mut k: usize = 16;
    while k < v.len()
        invariant
            16 <= k <= v.len(),
            v@ == file_name@,
            r@ == date@ + "_"@ + time@.take(4) + file_name@.subrange(13, 15) + "_"@ + file_name@.subrange(16, k as int),
        decreases v.len() - k,
    {
        crate::strings::push_char(&mut r, v[k]);
        assert(file_name@.subrange(16, k + 1) =~= file_name@.subrange(16, k as int).push(file_name@[k as int]));
        k = k + 1;
    }
    Some(r)
}

} // verus!

verus! {

/// One piece of outside work of scaffolding, for the caller to perform in
/// the order given.
pub enum ScaffoldStep {
    /// Copy the files of a predefined template into a folder.
    CopyTemplate { template: cli::ScaffoldTemplate, to: String },
    /// Write a new file.
    WriteFile { path: String, content: String },
    /// Create a folder unless it exists.
    EnsureFolder { path: String },
    /// Give the template migration files of a folder the current date and
    /// time (see `rename_template_migration_file`). A folder that is not
    /// `required` is left alone when it is absent.
    RenameMigrationFiles { folder: String, required: bool },
    /// Turn the files of the schemas and events folders into an initial
    /// migration and its down migration in the migrations folder (see
    /// `create_initial_migration`), then remove those two folders.
    MakeInitialMigration { schemas: String, events: String, migrations: String },
}

/// The mathematical view of a scaffolding step.
pub enum ScaffoldStepView {
    CopyTemplate(cli::ScaffoldTemplate, Seq<char>),
    WriteFile(Seq<char>, Seq<char>),
    EnsureFolder(Seq<char>),
    RenameMigrationFiles(Seq<char>, bool),
    MakeInitialMigration(Seq<char>, Seq<char>, Seq<char>),
}

impl View for ScaffoldStep {
    type V = ScaffoldStepView;

    open spec fn view(&self) -> ScaffoldStepView {
        match self {
            ScaffoldStep::CopyTemplate { template, to } => ScaffoldStepView::CopyTemplate(*template, to@),
            ScaffoldStep::WriteFile { path, content } => ScaffoldStepView::WriteFile(path@, content@),
            ScaffoldStep::EnsureFolder { path } => ScaffoldStepView::EnsureFolder(path@),
            ScaffoldStep::RenameMigrationFiles { folder, required } =>
                ScaffoldStepView::RenameMigrationFiles(folder@, *required),
            ScaffoldStep::MakeInitialMigration { schemas, events, migrations } =>
                ScaffoldStepView::MakeInitialMigration(schemas@, events@, migrations@),
        }
    }
}

/// The views of steps.
pub open spec fn steps_view(steps: Seq<ScaffoldStep>) -> Seq<ScaffoldStepView> {
    steps.map_values(|s: ScaffoldStep| s@)
}

/// The path of a project folder: inside the configured folder, if any.
pub open spec fn project_folder(folder_path: Option<String>, dir_name: Seq<char>) -> Seq<char> {
    match folder_path {
        Some(f) => joined_path(f@, dir_name),
        None => dir_name,
    }
}

/// Where template files go: the configured folder, or the current one.
pub open spec fn template_target(folder_path: Option<String>) -> Seq<char> {
    match folder_path {
        Some(f) => f@,
        None => "."@,
    }
}

/// What follows once the project files are in place: the three project
/// folders exist, the template migrations (and down migrations, where there
/// are any) take the current date, and a traditional project turns its
/// schema and event files into an initial migration.
pub open spec fn after_scaffold_steps(folder_path: Option<String>, traditional: bool) -> Seq<ScaffoldStepView> {
    let schemas = project_folder(folder_path, SCHEMAS_DIR_NAME@);
    let events = project_folder(folder_path, EVENTS_DIR_NAME@);
    let migrations = project_folder(folder_path, MIGRATIONS_DIR_NAME@);
    seq![
        ScaffoldStepView::EnsureFolder(schemas),
        ScaffoldStepView::EnsureFolder(events),
        ScaffoldStepView::EnsureFolder(migrations),
        ScaffoldStepView::RenameMigrationFiles(migrations, true),
        ScaffoldStepView::RenameMigrationFiles(joined_path(migrations, DOWN_MIGRATIONS_DIR_NAME@), false),
    ] + if traditional {
        seq![ScaffoldStepView::MakeInitialMigration(schemas, events, migrations)]
    } else {
        Seq::empty()
    }
}

/// Writing the schema file of each table into the schemas folder.
pub open spec fn schema_write_steps(schemas: Seq<char>, files: Seq<(String, String)>) -> Seq<ScaffoldStepView> {
    files.map_values(|f: (String, String)| ScaffoldStepView::WriteFile(joined_path(schemas, f.0@ + SURQL_FILE_EXTENSION@), f.1@))
}

/// Appends the steps that follow once the project files are in place (see
/// `after_scaffold_steps`).
pub fn apply_after_scaffold(folder_path: &Option<String>, traditional: bool, steps: &mut Vec<ScaffoldStep>)
    ensures
        steps_view(final(steps)@) == steps_view(old(steps)@) + after_scaffold_steps(*folder_path, traditional),
{
    let ghost before = steps@;
    let schemas = concat_path(folder_path, SCHEMAS_DIR_NAME);
    let events = concat_path(folder_path, EVENTS_DIR_NAME);
    let migrations = concat_path(folder_path, MIGRATIONS_DIR_NAME);
    let down = join_path(migrations.as_str(), DOWN_MIGRATIONS_DIR_NAME);
    steps.push(ScaffoldStep::EnsureFolder { path: schemas.clone() });
    steps.push(ScaffoldStep::EnsureFolder { path: events.clone() });
    steps.push(ScaffoldStep::EnsureFolder { path: migrations.clone() });
    steps.push(ScaffoldStep::RenameMigrationFiles { folder: migrations.clone(), required: true });
    steps.push(ScaffoldStep::RenameMigrationFiles { folder: down, required: false });
    if traditional {
        steps.push(ScaffoldStep::MakeInitialMigration { schemas, events, migrations });
    }
    assert(steps_view(steps@) =~= steps_view(before) + after_scaffold_steps(*folder_path, traditional));
}

/// Scaffolds a project from a predefined template. Given which of the three
/// project folders (see `scaffold_folders`) exist, it fails as
/// `apply_before_scaffold` does, or gives the work to do: copy the template
/// into the configured folder (the current one by default), then what
/// `after_scaffold_steps` says.
pub fn from_template(
    template: cli::ScaffoldTemplate,
    folder_path: &Option<String>,
    folder_exists: &Vec<bool>,
    traditional: bool,
) -> (r: Result<Vec<ScaffoldStep>, ScaffoldError>)
    requires
        folder_exists@.len() == 3,
    ensures
        match scaffold_folder_check(folder_exists@) {
            Err(e) => r == Err::<Vec<ScaffoldStep>, ScaffoldError>(e),
            Ok(_) => r matches Ok(steps) && steps_view(steps@) == seq![
                ScaffoldStepView::CopyTemplate(template, template_target(*folder_path)),
            ] + after_scaffold_steps(*folder_path, traditional),
        },
{
    apply_before_scaffold(folder_exists)?;
    let to = match folder_path {
        Some(f) => f.clone(),
        None => String::from_str("."),
    };
    let mut steps: Vec<ScaffoldStep> = Vec::new();
    steps.push(ScaffoldStep::CopyTemplate { template, to });
    apply_after_scaffold(folder_path, traditional, &mut steps);
    Ok(steps)
}

/// What scaffolding from the statements `ast` of an SQL schema gives once
/// the project folders are known to be absent: it fails as `schema_files`
/// does, or gives the work to do: copy the empty template, write the schema
/// file of each imported table into the schemas folder, then what
/// `after_scaffold_steps` says.
pub open spec fn schema_scaffolding(
    ast: Seq<SqlStatement>,
    preserve_casing: bool,
    folder_path: Option<String>,
    traditional: bool,
    r: Result<Vec<ScaffoldStep>, ScaffoldError>,
) -> bool {
    let m = schema_tables(ast, preserve_casing);
    if m == Map::<Seq<char>, Seq<LineView>>::empty() {
        r == Err::<Vec<ScaffoldStep>, ScaffoldError>(ScaffoldError::NoTableFound)
    } else if m.contains_key(crate::constants::SCRIPT_MIGRATION_TABLE_NAME@) {
        r == Err::<Vec<ScaffoldStep>, ScaffoldError>(ScaffoldError::ReservedTableName)
    } else {
        r matches Ok(steps) && exists|files: Seq<(String, String)>|
            #[trigger] contents_view(files) == schema_file_contents(m) && distinct_files(files)
                && steps_view(steps@) == seq![
                    ScaffoldStepView::CopyTemplate(cli::ScaffoldTemplate::Empty, template_target(folder_path)),
                ] + schema_write_steps(project_folder(folder_path, SCHEMAS_DIR_NAME@), files)
                    + after_scaffold_steps(folder_path, traditional)
    }
}

/// Scaffolds a project from the statements of an SQL schema. Given which of
/// the three project folders exist, it fails as `apply_before_scaffold`
/// does, then as `schema_files` does; or it gives the work to do: copy the
/// empty template, write the schema file of each imported table (see
/// `schema_files`) into the schemas folder, then what
/// `after_scaffold_steps` says.
pub fn from_schema(
    ast: Vec<SqlStatement>,
    preserve_casing: bool,
    folder_path: &Option<String>,
    folder_exists: &Vec<bool>,
    traditional: bool,
) -> (r: Result<Vec<ScaffoldStep>, ScaffoldError>)
    requires
        folder_exists@.len() == 3,
    ensures
        match scaffold_folder_check(folder_exists@) {
            Err(e) => r == Err::<Vec<ScaffoldStep>, ScaffoldError>(e),
            Ok(_) => schema_scaffolding(ast@, preserve_casing, *folder_path, traditional, r),
        },
{
    apply_before_scaffold(folder_exists)?;
    let ghost a = ast@;
    let files = schema_files(ast, preserve_casing)?;
    let to = match folder_path {
        Some(f) => f.clone(),
        None => String::from_str("."),
    };
    let schemas = concat_path(folder_path, SCHEMAS_DIR_NAME);
    let mut steps: Vec<ScaffoldStep> = Vec::new();
    steps.push(ScaffoldStep::CopyTemplate { template: cli::ScaffoldTemplate::Empty, to });
    let ghost head = steps_view(steps@);
    let mut i: usize = 0;
    while i < files.len()
        invariant
            i <= files.len(),
            schemas@ == project_folder(*folder_path, SCHEMAS_DIR_NAME@),
            steps_view(steps@) == head + schema_write_steps(schemas@, files@.take(i as int)),
        decreases files.len() - i,
    {
        let ghost prev = steps@;
        let mut name = files[i].0.clone();
        name.append(SURQL_FILE_EXTENSION);
        let path = join_path(schemas.as_str(), name.as_str());
        let content = files[i].1.clone();
        steps.push(ScaffoldStep::WriteFile { path, content });
        assert(files@.take(i + 1) =~= files@.take(i as int).push(files@[i as int]));
        assert(schema_write_steps(schemas@, files@.take(i + 1)) =~= schema_write_steps(schemas@, files@.take(i as int)).push(
            ScaffoldStepView::WriteFile(joined_path(schemas@, files@[i as int].0@ + SURQL_FILE_EXTENSION@), files@[i as int].1@)));
        assert(steps_view(steps@) =~= steps_view(prev).push(steps@[prev.len() as int]@));
        assert(steps_view(steps@) =~= head + schema_write_steps(schemas@, files@.take(i + 1)));
        i = i + 1;
    }
    assert(files@.take(files.len() as int) =~= files@);
    apply_after_scaffold(folder_path, traditional, &mut steps);
    assert(contents_view(files@) == schema_file_contents(schema_tables(a, preserve_casing)));
    assert(steps_view(steps@) == seq![
        ScaffoldStepView::CopyTemplate(cli::ScaffoldTemplate::Empty, template_target(*folder_path)),
    ] + schema_write_steps(project_folder(*folder_path, SCHEMAS_DIR_NAME@), files@)
        + after_scaffold_steps(*folder_path, traditional));
    Ok(steps)
}

} // verus!

verus! {

/// Scaffolds a project from the text of an SQL schema of the database
/// `db_type`: it fails as `apply_before_scaffold` does, then when the text
/// does not parse or an index column is not a plain identifier, then as
/// `from_schema` does on the parsed statements.
pub fn from_schema_text(
    schema: &str,
    db_type: cli::ScaffoldSchemaDbType,
    preserve_casing: bool,
    folder_path: &Option<String>,
    folder_exists: &Vec<bool>,
    traditional: bool,
) -> (r: Result<Vec<ScaffoldStep>, ScaffoldError>)
    requires
        folder_exists@.len() == 3,
    ensures
        match scaffold_folder_check(folder_exists@) {
            Err(e) => r == Err::<Vec<ScaffoldStep>, ScaffoldError>(e),
            Ok(_) => match parsed_sql_schema(dialect_name(db_type), schema@) {
                None => r == Err::<Vec<ScaffoldStep>, ScaffoldError>(ScaffoldError::SchemaParse),
                Some(v) => if has_unsupported_index_column(v) {
                    r == Err::<Vec<ScaffoldStep>, ScaffoldError>(ScaffoldError::UnsupportedIndexColumn)
                } else {
                    exists|ast: Seq<SqlStatement>| statements_view(ast) == v
                        && #[trigger] schema_scaffolding(ast, preserve_casing, *folder_path, traditional, r)
                },
            },
        },
{
    apply_before_scaffold(folder_exists)?;
    let ast = match parse_sql_schema(db_type, schema) {
        Ok(ast) => ast,
        Err(SqlSchemaError::Unparsable) => return Err(ScaffoldError::SchemaParse),
        Err(SqlSchemaError::UnsupportedIndexColumn) => return Err(ScaffoldError::UnsupportedIndexColumn),
    };
    let ghost a = ast@;
    let r = from_schema(ast, preserve_casing, folder_path, folder_exists, traditional);
    assert(schema_scaffolding(a, preserve_casing, *folder_path, traditional, r));
    r
}

} // verus!
