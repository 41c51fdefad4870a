use surrealdb_migrations::cli::{ScaffoldAction, ScaffoldSchemaDbType, ScaffoldTemplate};
use surrealdb_migrations::scaffold::{
    apply_after_scaffold, apply_before_scaffold, create_initial_down_migration, create_initial_migration, fails_if_folder_already_exists,
    from_schema, from_schema_text, from_template, get_template_name, rename_template_migration_file, scaffold_folders, ScaffoldArgs,
    ScaffoldError, ScaffoldStep,
};
use surrealdb_migrations::schema_import::{SqlColumnDef, SqlDataType, SqlStatement};
use surrealdb_migrations::statements::{
    DefineFieldStatement, DefineIndexStatement, DefineStatement, DefineTableStatement, ParsedStatement, Statement,
};

#[test]
fn template_names() {
    assert_eq!(get_template_name(ScaffoldTemplate::Empty), "empty");
    assert_eq!(get_template_name(ScaffoldTemplate::Blog), "blog");
    assert_eq!(get_template_name(ScaffoldTemplate::Ecommerce), "ecommerce");
}

#[test]
fn scaffold_arguments() {
    let args = ScaffoldArgs::from(ScaffoldAction::Template { template: ScaffoldTemplate::Blog, traditional: true }, None);
    assert!(matches!(args, ScaffoldArgs::Template(t) if t.template == ScaffoldTemplate::Blog && t.traditional));
    let args = ScaffoldArgs::from(
        ScaffoldAction::Schema { schema: "schema.sql".to_string(), db_type: ScaffoldSchemaDbType::PostgreSql, preserve_casing: true, traditional: false },
        Some("cfg".to_string()),
    );
    assert!(matches!(args, ScaffoldArgs::Schema(s) if s.schema == "schema.sql" && s.preserve_casing && s.config_file == Some("cfg".to_string())));
}

#[test]
fn project_folders_must_be_absent() {
    let folders = scaffold_folders(&Some("project".to_string()));
    assert_eq!(folders, vec!["project/schemas", "project/events", "project/migrations"]);
    assert_eq!(scaffold_folders(&None), vec!["schemas", "events", "migrations"]);
    assert_eq!(apply_before_scaffold(&vec![false, false, false]), Ok(()));
    assert_eq!(apply_before_scaffold(&vec![false, true, true]), Err(ScaffoldError::EventsFolderExists));
    assert_eq!(apply_before_scaffold(&vec![true, false, false]), Err(ScaffoldError::SchemasFolderExists));
    assert_eq!(apply_before_scaffold(&vec![false, false, true]), Err(ScaffoldError::MigrationsFolderExists));
    assert_eq!(fails_if_folder_already_exists(false, ScaffoldError::SchemasFolderExists), Ok(()));
}

fn parsed(statement: Statement, text: &str) -> ParsedStatement {
    ParsedStatement { statement, text: text.to_string() }
}

fn statements() -> Vec<ParsedStatement> {
    vec![
        parsed(Statement::Define(DefineStatement::Table(DefineTableStatement { name: "post".to_string(), view: None })), "DEFINE TABLE post SCHEMALESS"),
        parsed(
            Statement::Define(DefineStatement::Field(DefineFieldStatement {
                name: "title".to_string(),
                what: "post".to_string(),
                readonly: false,
                assert: None,
                default: None,
                kind: None,
                permissions: "FULL".to_string(),
                reference: None,
            })),
            "DEFINE FIELD title ON post",
        ),
        parsed(Statement::Define(DefineStatement::Table(DefineTableStatement { name: "user".to_string(), view: None })), "DEFINE TABLE user SCHEMALESS"),
        parsed(
            Statement::Define(DefineStatement::Index(DefineIndexStatement { name: "email".to_string(), what: "user".to_string() })),
            "DEFINE INDEX email ON user",
        ),
    ]
}

#[test]
fn initial_migration_groups_tables() {
    assert_eq!(
        create_initial_migration(&statements()),
        "DEFINE TABLE post SCHEMALESS;\nDEFINE FIELD title ON post;\n\nDEFINE TABLE user SCHEMALESS;\nDEFINE INDEX email ON user;\n"
    );
    assert_eq!(create_initial_migration(&vec![]), "");
}

#[test]
fn initial_down_migration_reverts_in_reverse_order() {
    assert_eq!(
        create_initial_down_migration(&statements()),
        Ok("REMOVE INDEX email ON user;\nREMOVE TABLE user;\n\nREMOVE FIELD title ON post;\nREMOVE TABLE post;\n".to_string())
    );
    let other = vec![parsed(Statement::Other, "CREATE post")];
    assert_eq!(create_initial_down_migration(&other), Err(ScaffoldError::UnsupportedRemoveStatement));
}

#[test]
fn template_migration_files_take_the_current_date() {
    assert_eq!(
        rename_template_migration_file("YYYYMMDD_HHMM01_AddAdminUser.surql", "20240102", "030405"),
        Some("20240102_030401_AddAdminUser.surql".to_string())
    );
    assert_eq!(rename_template_migration_file("20240102_030401_AddAdminUser.surql", "20240102", "030405"), None);
    assert_eq!(rename_template_migration_file("YYYYMMDD_HHMMa1_X.surql", "20240102", "030405"), None);
    assert_eq!(rename_template_migration_file("YYYYMMDD_HHMM01", "20240102", "030405"), None);
    assert_eq!(
        rename_template_migration_file("YYYYMMDD_HHMM\u{661}\u{662}_X.surql", "20240102", "030405"),
        Some("20240102_0304\u{661}\u{662}_X.surql".to_string())
    );
}

fn describe(step: &ScaffoldStep) -> String {
    match step {
        ScaffoldStep::CopyTemplate { template, to } => format!("copy {} to {}", get_template_name(*template), to),
        ScaffoldStep::WriteFile { path, content } => format!("write {} ({} bytes)", path, content.len()),
        ScaffoldStep::EnsureFolder { path } => format!("folder {}", path),
        ScaffoldStep::RenameMigrationFiles { folder, required } => format!("rename in {} {}", folder, required),
        ScaffoldStep::MakeInitialMigration { schemas, events, migrations } => {
            format!("initial {} {} {}", schemas, events, migrations)
        }
    }
}

#[test]
fn template_scaffolding_steps() {
    let steps = from_template(ScaffoldTemplate::Blog, &None, &vec![false, false, false], false).unwrap();
    let described: Vec<String> = steps.iter().map(describe).collect();
    assert_eq!(
        described,
        vec![
            "copy blog to .",
            "folder schemas",
            "folder events",
            "folder migrations",
            "rename in migrations true",
            "rename in migrations/down false",
        ]
    );
    let steps = from_template(ScaffoldTemplate::Empty, &Some("db".to_string()), &vec![false, false, false], true).unwrap();
    let described: Vec<String> = steps.iter().map(describe).collect();
    assert_eq!(described[0], "copy empty to db");
    assert_eq!(described[1], "folder db/schemas");
    assert_eq!(described[5], "rename in db/migrations/down false");
    assert_eq!(described[6], "initial db/schemas db/events db/migrations");
    assert_eq!(described.len(), 7);
    assert!(matches!(
        from_template(ScaffoldTemplate::Blog, &None, &vec![false, true, false], false),
        Err(ScaffoldError::EventsFolderExists)
    ));
}

fn users_table() -> Vec<SqlStatement> {
    vec![SqlStatement::CreateTable {
        name: "Users".to_string(),
        columns: vec![SqlColumnDef {
            name: "Email".to_string(),
            data_type: SqlDataType::Varchar,
            custom_type_name: vec![],
            options: vec![],
        }],
        constraints: vec![],
    }]
}

#[test]
fn schema_scaffolding_steps() {
    let steps = from_schema(users_table(), false, &None, &vec![false, false, false], false).unwrap();
    assert_eq!(steps.len(), 7);
    assert_eq!(describe(&steps[0]), "copy empty to .");
    match &steps[1] {
        ScaffoldStep::WriteFile { path, content } => {
            assert_eq!(path, "schemas/users.surql");
            assert_eq!(content, "DEFINE TABLE users SCHEMALESS;\n\nDEFINE FIELD email ON users TYPE string;\n");
        }
        _ => panic!("expected a file to write"),
    }
    assert_eq!(describe(&steps[2]), "folder schemas");
    assert!(matches!(
        from_schema(users_table(), false, &None, &vec![true, false, false], false),
        Err(ScaffoldError::SchemasFolderExists)
    ));
    assert!(matches!(
        from_schema(vec![SqlStatement::Other], false, &None, &vec![false, false, false], false),
        Err(ScaffoldError::NoTableFound)
    ));
}

#[test]
fn steps_after_scaffolding() {
    let mut steps = vec![];
    apply_after_scaffold(&Some("p".to_string()), false, &mut steps);
    let described: Vec<String> = steps.iter().map(describe).collect();
    assert_eq!(
        described,
        vec!["folder p/schemas", "folder p/events", "folder p/migrations", "rename in p/migrations true", "rename in p/migrations/down false"]
    );
}

#[test]
fn schema_text_scaffolding_steps() {
    let steps = from_schema_text(
        "CREATE TABLE Users (Email VARCHAR(255));",
        ScaffoldSchemaDbType::PostgreSql,
        false,
        &None,
        &vec![false, false, false],
        false,
    )
    .unwrap();
    assert_eq!(steps.len(), 7);
    match &steps[1] {
        ScaffoldStep::WriteFile { path, content } => {
            assert_eq!(path, "schemas/users.surql");
            assert_eq!(content, "DEFINE TABLE users SCHEMALESS;\n\nDEFINE FIELD email ON users TYPE string;\n");
        }
        _ => panic!("expected a file to write"),
    }
    assert!(matches!(
        from_schema_text("CREATE TABL", ScaffoldSchemaDbType::PostgreSql, false, &None, &vec![false, false, false], false),
        Err(ScaffoldError::SchemaParse)
    ));
    assert!(matches!(
        from_schema_text("x", ScaffoldSchemaDbType::PostgreSql, false, &None, &vec![false, true, false], false),
        Err(ScaffoldError::EventsFolderExists)
    ));
}
