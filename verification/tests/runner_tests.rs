use surrealdb_migrations::definitions::get_definition_diff;
use surrealdb_migrations::models::{SchemaMigrationDefinition, ScriptMigration};
use surrealdb_migrations::runner::{
    apply_migration_query, find_reverted_migration, initial_definitions_query, is_define_checksum_statement,
    migration_before, migration_checksum, next_definition, revert_migration_query, script_migration_record,
    supports_checksum, ApplyMigrations, ApplyProgress, RevertMigrations, RunnerError,
};
use surrealdb_migrations::statements::{
    DefineFieldStatement, DefineStatement, DefineTableStatement, RemoveStatement, Statement,
};

fn definition(schemas: &str, events: &str) -> SchemaMigrationDefinition {
    SchemaMigrationDefinition { schemas: schemas.to_string(), events: events.to_string() }
}

fn applied(name: &str) -> ScriptMigration {
    ScriptMigration { script_name: name.to_string(), executed_at: String::new(), checksum: None }
}

fn checksum_field(table: &str) -> Statement {
    Statement::Define(DefineStatement::Field(DefineFieldStatement {
        name: "checksum".to_string(),
        what: table.to_string(),
        readonly: false,
        assert: None,
        default: None,
        kind: Some("string".to_string()),
        permissions: "FULL".to_string(),
        reference: None,
    }))
}

#[test]
fn checksum_of_a_migration() {
    assert_eq!(migration_checksum(""), "e3b0c44298fc1c149afbf4c8996fb92427ae41e4649b934ca495991b7852b855");
    assert_eq!(migration_checksum("abc"), "ba7816bf8f01cfea414140de5dae2223b00361a396177a9cb410ff61f20015ad");
    let record = script_migration_record("m1", "abc", true);
    assert_eq!(record.script_name, "m1");
    assert_eq!(record.checksum, Some("ba7816bf8f01cfea414140de5dae2223b00361a396177a9cb410ff61f20015ad".to_string()));
    assert_eq!(script_migration_record("m1", "abc", false).checksum, None);
}

#[test]
fn checksum_support() {
    assert!(is_define_checksum_statement(&checksum_field("script_migration")));
    assert!(!is_define_checksum_statement(&checksum_field("post")));
    assert!(supports_checksum(true, &vec![], &vec![]));
    assert!(!supports_checksum(false, &vec![], &vec![checksum_field("post")]));
    assert!(supports_checksum(false, &vec![], &vec![checksum_field("script_migration")]));
}

#[test]
fn queries_shown_for_a_run() {
    assert_eq!(
        apply_migration_query("S", "E", "C", "20230101_000000_a"),
        "S\nE\nC\nCREATE script_migration SET script_name = '20230101_000000_a';"
    );
    assert_eq!(initial_definitions_query(&definition("S", "E")), "S\n        E");
    let rollback = vec![RemoveStatement::Table { name: "post".to_string() }, RemoveStatement::Field { name: "a".to_string(), what: "user".to_string() }];
    assert_eq!(
        revert_migration_query("DOWN", &rollback, &vec![], "S", "E", "m"),
        "DOWN\nREMOVE TABLE post\nREMOVE FIELD a ON user\n\nS\nE\nDELETE script_migration WHERE script_name = 'm';"
    );
}

#[test]
fn definitions_along_the_migrations() {
    let a = definition("", "");
    let b = definition("DEFINE TABLE post;\n", "");
    let diff = get_definition_diff(&a, &b);
    let next = next_definition(definition("", ""), Some(diff)).unwrap();
    assert_eq!(next.schemas, b.schemas);
    let same = next_definition(definition("x", "y"), None).unwrap();
    assert_eq!(same.schemas, "x");
}

#[test]
fn progress_messages() {
    let mut progress = ApplyProgress::new();
    assert!(progress.messages(false, true).is_empty());
    progress.note_applied(&definition("DEFINE TABLE post;", ""));
    assert_eq!(progress.messages(true, true), vec!["Schema files successfully executed!", "Migration files successfully executed!"]);
    assert!(progress.messages(true, false).is_empty());
    progress.note_reverted(&definition("a", "b"), &definition("a", "c"));
    assert!(progress.has_applied_events);
}

#[test]
fn migrations_to_revert() {
    let done = vec![applied("20230101_a"), applied("20230102_b"), applied("20230103_c")];
    assert_eq!(find_reverted_migration(&done, "20230102_b"), Ok(1));
    assert_eq!(find_reverted_migration(&done, "missing"), Err(RunnerError::MigrationNotApplied));
    assert_eq!(migration_before(&done, "20230103_c"), Some(1));
    assert_eq!(migration_before(&done, "20230101_a"), None);
}

#[test]
fn applying_migrations_one_after_the_other() {
    let mut run = ApplyMigrations::start(true, definition("DEFINE TABLE post;\n", ""), false);
    assert!(run.initial_definitions(true).is_none());
    let diff = get_definition_diff(&definition("DEFINE TABLE post;\n", ""), &definition("DEFINE TABLE post;\nDEFINE TABLE user;\n", ""));
    let (schemas, events) = run.next_migration(Some(diff)).unwrap();
    assert_eq!(schemas, "DEFINE TABLE post;\nDEFINE TABLE user;\n");
    assert_eq!(events, "");
    let record = run.record_migration("m1", "abc", &vec![], &vec![checksum_field("script_migration")]);
    assert!(run.supports_checksum);
    assert_eq!(record.checksum, Some("ba7816bf8f01cfea414140de5dae2223b00361a396177a9cb410ff61f20015ad".to_string()));
    let (schemas, _) = run.next_migration(None).unwrap();
    assert_eq!(schemas, "DEFINE TABLE post;\nDEFINE TABLE user;\n");
    let record = run.record_migration("m2", "", &vec![], &vec![]);
    assert!(record.checksum.is_some());
    assert_eq!(run.progress.messages(true, true), vec!["Schema files successfully executed!", "Migration files successfully executed!"]);

    let mut initial = ApplyMigrations::start(true, definition("S", "E"), false);
    let definitions = initial.initial_definitions(false).unwrap();
    assert_eq!(definitions.query, "S\n        E");
    assert!(initial.progress.has_applied_schemas && initial.progress.has_applied_events);

    let mut traditional = ApplyMigrations::start(false, definition("S", "E"), false);
    assert!(traditional.initial_definitions(false).is_none());
    assert_eq!(traditional.next_migration(None).unwrap(), (String::new(), String::new()));
    assert_eq!(traditional.record_migration("m", "x", &vec![], &vec![]).checksum, None);
    assert!(!traditional.progress.has_applied_schemas);
}

fn table(name: &str) -> Statement {
    Statement::Define(DefineStatement::Table(DefineTableStatement { name: name.to_string(), view: None }))
}

#[test]
fn reverting_migrations_one_after_the_other() {
    let done = vec![applied("20230101_a"), applied("20230102_b")];
    assert_eq!(RevertMigrations::definitions_after_revert(&done, "20230102_b"), Ok(Some(0)));
    assert_eq!(RevertMigrations::definitions_after_revert(&done, "20230101_a"), Ok(None));
    assert_eq!(RevertMigrations::definitions_after_revert(&done, "missing"), Err(RunnerError::MigrationNotApplied));
    let mut run = RevertMigrations::start(true, definition("DEFINE TABLE post;\nDEFINE TABLE user;\n", ""));
    let (schemas, events) = run.revert_migration(
        definition("DEFINE TABLE post;\n", ""),
        &vec![table("post"), table("user")],
        &vec![table("post")],
        &vec![],
        &vec![],
    );
    assert_eq!(schemas.len(), 1);
    assert!(matches!(&schemas[0], RemoveStatement::Table { name } if name == "user"));
    assert!(events.is_empty());
    assert_eq!(run.current_definition.schemas, "DEFINE TABLE post;\n");
    assert!(run.progress.has_applied_schemas && !run.progress.has_applied_events);
    let mut untracked = RevertMigrations::start(false, definition("S", ""));
    let (schemas, _) = untracked.revert_migration(definition("", ""), &vec![table("post")], &vec![], &vec![], &vec![]);
    assert!(schemas.is_empty());
    assert!(!untracked.progress.has_applied_schemas);
}
