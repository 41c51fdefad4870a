use surrealdb_migrations::cli;
use surrealdb_migrations::common::get_migration_display_name;
use surrealdb_migrations::create::{
    build_migration_file_name, generate_field_definitions, generate_file_content, get_filename,
    get_table_schema_design_str, is_dry_run, should_create_down_file, target_dir_name, CreateArgs, CreateArgsError,
    CreateEventArgs, CreateMigrationArgs, CreateOperation, CreateSchemaArgs,
};

fn schema_op(fields: Option<Vec<&str>>, schemafull: bool) -> CreateOperation {
    CreateOperation::Schema(CreateSchemaArgs {
        fields: fields.map(|f| f.iter().map(|s| s.to_string()).collect()),
        dry_run: false,
        schemafull,
    })
}

#[test]
fn field_definitions() {
    let fields = Some(vec!["name".to_string(), "age".to_string()]);
    assert_eq!(
        generate_field_definitions(&fields, "user".to_string()),
        "DEFINE FIELD OVERWRITE name ON user;\nDEFINE FIELD OVERWRITE age ON user;"
    );
    assert_eq!(generate_field_definitions(&None, "user".to_string()), "# DEFINE FIELD OVERWRITE field ON user;");
    assert_eq!(generate_field_definitions(&Some(vec![]), "user".to_string()), "");
}

#[test]
fn table_schema_design_text() {
    assert_eq!(get_table_schema_design_str(None, None, true), "SCHEMAFULL");
    assert_eq!(get_table_schema_design_str(None, None, false), "SCHEMALESS");
    assert_eq!(get_table_schema_design_str(None, Some("full".to_string()), false), "SCHEMAFULL");
    let config = ini::Ini::load_from_str("[core]\nschema = less\n").unwrap();
    assert_eq!(get_table_schema_design_str(Some(&config), Some("full".to_string()), false), "SCHEMALESS");
}

#[test]
fn schema_file_content() {
    let content = generate_file_content(None, None, &schema_op(Some(vec!["name"]), false), "post".to_string());
    assert_eq!(content, "DEFINE TABLE OVERWRITE post SCHEMALESS;\n\nDEFINE FIELD OVERWRITE name ON post;");
}

#[test]
fn event_file_content() {
    let op = CreateOperation::Event(CreateEventArgs { fields: None, dry_run: true, schemafull: true });
    let content = generate_file_content(None, None, &op, "publish_post".to_string());
    assert_eq!(
        content,
        "DEFINE TABLE OVERWRITE publish_post SCHEMAFULL;\n\n# DEFINE FIELD OVERWRITE field ON publish_post;\n\nDEFINE EVENT OVERWRITE publish_post ON TABLE publish_post WHEN $event == \"CREATE\" THEN (\n    # TODO\n);"
    );
    assert!(is_dry_run(&op));
}

#[test]
fn migration_file_content() {
    let op = CreateOperation::Migration(CreateMigrationArgs { down: true, content: Some("UPDATE post;".to_string()) });
    assert_eq!(generate_file_content(None, None, &op, "x".to_string()), "UPDATE post;");
    assert!(should_create_down_file(&op));
    assert!(!is_dry_run(&op));
    let op = CreateOperation::Migration(CreateMigrationArgs { down: false, content: None });
    assert_eq!(generate_file_content(None, None, &op, "x".to_string()), "");
    assert!(!should_create_down_file(&op));
    assert_eq!(target_dir_name(&op), "migrations");
}

#[test]
fn file_names() {
    assert_eq!(get_filename(&schema_op(None, false), &"post".to_string()), "post.surql");
    let op = CreateOperation::Migration(CreateMigrationArgs { down: false, content: None });
    let name = get_filename(&op, &"AddPost".to_string());
    assert!(name.ends_with("_AddPost.surql"));
    let (date, rest) = name.split_at(8);
    assert!(date.chars().all(|c| c.is_ascii_digit()));
    assert!(rest.starts_with('_'));
    assert_eq!(&rest[7..8], "_");
    assert!(rest[1..7].chars().all(|c| c.is_ascii_digit()));
    assert_eq!(get_migration_display_name(&name), "AddPost.surql");
    assert_eq!(build_migration_file_name("20230603", "123456", "AddPost"), "20230603_123456_AddPost.surql");
}

#[test]
fn arguments_of_create() {
    let value = cli::CreateArgs { command: None, name: Some("AddPost".to_string()), down: true, content: None };
    let args = CreateArgs::try_from(value, None).unwrap_or_else(|_| panic!("arguments expected"));
    assert_eq!(args.name, "AddPost");
    assert!(matches!(args.operation, CreateOperation::Migration(CreateMigrationArgs { down: true, content: None })));

    let value = cli::CreateArgs {
        command: Some(cli::CreateAction::Schema { name: "post".to_string(), fields: None, dry_run: true, schemafull: false }),
        name: None,
        down: false,
        content: None,
    };
    let args = CreateArgs::try_from(value, Some(".surrealdb".to_string())).unwrap_or_else(|_| panic!("arguments expected"));
    assert_eq!(args.name, "post");
    assert_eq!(args.config_file, Some(".surrealdb".to_string()));
    assert!(matches!(args.operation, CreateOperation::Schema(CreateSchemaArgs { dry_run: true, .. })));

    let value = cli::CreateArgs { command: None, name: None, down: false, content: None };
    assert!(matches!(CreateArgs::try_from(value, None), Err(CreateArgsError::NoActionSpecified)));
}
