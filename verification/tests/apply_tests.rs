use surrealdb_migrations::apply::{checked_migration_files_to_execute, NameOrderError};
use surrealdb_migrations::apply::{
    ensures_necessary_files_exists, filter_migration_file_to_execute, get_migration_files_to_execute,
    get_sorted_migrations_files, get_transaction_action,
};
use surrealdb_migrations::constants::{DOWN_TAG, ROOT_TAG};
use surrealdb_migrations::file::SurqlFile;
use surrealdb_migrations::models::{
    ApplyOperation, ApplyOperationError, MigrationDirection, ScriptMigration, TransactionAction,
};

fn migration(name: &str, down: bool) -> SurqlFile {
    let mut tags = vec![ROOT_TAG.to_string()];
    if down {
        tags.push(DOWN_TAG.to_string());
    }
    SurqlFile { name: name.to_string(), full_name: format!("{name}.surql"), tags, content: None }
}

fn applied(name: &str) -> ScriptMigration {
    ScriptMigration { script_name: name.to_string(), executed_at: "2023-06-03T12:00:00Z".to_string(), checksum: None }
}

fn names(files: &[SurqlFile]) -> Vec<&str> {
    files.iter().map(|f| f.name.as_str()).collect()
}

fn forward() -> Vec<SurqlFile> {
    vec![migration("20230101_000000_a", false), migration("20230103_000000_c", false), migration("20230102_000000_b", false)]
}

fn backward() -> Vec<SurqlFile> {
    vec![migration("20230101_000000_a", true), migration("20230102_000000_b", true), migration("20230103_000000_c", true)]
}

#[test]
fn transaction_action_of_a_dry_run() {
    assert_eq!(get_transaction_action(true), TransactionAction::Rollback);
    assert_eq!(get_transaction_action(false), TransactionAction::Commit);
}

#[test]
fn up_runs_pending_migrations_in_order() {
    let done = vec![applied("20230101_000000_a")];
    let files = get_migration_files_to_execute(forward(), backward(), &ApplyOperation::Up, &done);
    assert_eq!(names(&files), vec!["20230102_000000_b", "20230103_000000_c"]);
}

#[test]
fn up_to_stops_at_its_target_included() {
    let files = get_migration_files_to_execute(forward(), backward(), &ApplyOperation::UpTo("20230102_000000_b".to_string()), &vec![]);
    assert_eq!(names(&files), vec!["20230101_000000_a", "20230102_000000_b"]);
}

#[test]
fn up_single_applies_a_single_migration() {
    let files = get_migration_files_to_execute(forward(), backward(), &ApplyOperation::UpSingle, &vec![]);
    assert_eq!(names(&files), vec!["20230101_000000_a"]);
    let done = vec![applied("20230101_000000_a")];
    let files = get_migration_files_to_execute(forward(), backward(), &ApplyOperation::UpSingle, &done);
    assert_eq!(names(&files), vec!["20230102_000000_b"]);
}

#[test]
fn reset_reverts_applied_migrations_newest_first() {
    let done = vec![applied("20230101_000000_a"), applied("20230102_000000_b")];
    let files = get_migration_files_to_execute(forward(), backward(), &ApplyOperation::Reset, &done);
    assert_eq!(names(&files), vec!["20230102_000000_b", "20230101_000000_a"]);
    assert!(files.iter().all(|f| f.is_down_file()));
}

#[test]
fn down_to_keeps_its_target() {
    let done = vec![applied("20230101_000000_a"), applied("20230102_000000_b"), applied("20230103_000000_c")];
    let files = get_migration_files_to_execute(forward(), backward(), &ApplyOperation::DownTo("20230101_000000_a".to_string()), &done);
    assert_eq!(names(&files), vec!["20230103_000000_c", "20230102_000000_b"]);
}

#[test]
fn down_single_reverts_the_last_applied() {
    let done = vec![applied("20230101_000000_a"), applied("20230102_000000_b")];
    let files = get_migration_files_to_execute(forward(), backward(), &ApplyOperation::DownSingle, &done);
    assert_eq!(names(&files), vec!["20230102_000000_b"]);
}

#[test]
fn filter_of_one_file() {
    let done = vec![applied("a")];
    assert!(!filter_migration_file_to_execute(&migration("a", false), &ApplyOperation::Up, &done, false));
    assert!(filter_migration_file_to_execute(&migration("b", false), &ApplyOperation::Up, &done, false));
    assert!(!filter_migration_file_to_execute(&migration("b", true), &ApplyOperation::Up, &done, true));
    assert!(filter_migration_file_to_execute(&migration("a", true), &ApplyOperation::Reset, &done, true));
}

#[test]
fn sorted_by_direction() {
    let sorted = get_sorted_migrations_files(forward(), &ApplyOperation::Up);
    assert_eq!(names(&sorted), vec!["20230101_000000_a", "20230102_000000_b", "20230103_000000_c"]);
    let sorted = get_sorted_migrations_files(forward(), &ApplyOperation::Reset);
    assert_eq!(names(&sorted), vec!["20230103_000000_c", "20230102_000000_b", "20230101_000000_a"]);
}

#[test]
fn operation_from_arguments() {
    assert!(matches!(ApplyOperation::try_from(None, None, false), Ok(ApplyOperation::Up)));
    assert!(matches!(ApplyOperation::try_from(Some(String::new()), None, false), Ok(ApplyOperation::UpSingle)));
    assert!(matches!(ApplyOperation::try_from(Some("x".to_string()), None, false), Ok(ApplyOperation::UpTo(n)) if n == "x"));
    assert!(matches!(ApplyOperation::try_from(None, Some(String::new()), false), Ok(ApplyOperation::DownSingle)));
    assert!(matches!(ApplyOperation::try_from(None, Some("y".to_string()), false), Ok(ApplyOperation::DownTo(n)) if n == "y"));
    assert!(matches!(ApplyOperation::try_from(None, None, true), Ok(ApplyOperation::Reset)));
    assert!(matches!(ApplyOperation::try_from(Some("x".to_string()), None, true), Err(ApplyOperationError::ConflictingArguments)));
    assert_eq!(MigrationDirection::from(&ApplyOperation::Reset), MigrationDirection::Backward);
    assert_eq!(MigrationDirection::from(&ApplyOperation::UpSingle), MigrationDirection::Forward);
}

#[test]
fn necessary_files() {
    let schemas = vec![migration("script_migration", false)];
    assert!(ensures_necessary_files_exists(false, &schemas, &vec![]).is_ok());
    let missing = ensures_necessary_files_exists(false, &vec![], &vec![]).unwrap_err();
    assert_eq!(missing.file_name, "script_migration");
    let initial = SurqlFile { full_name: "__Initial.surql".to_string(), ..migration("__Initial", false) };
    assert!(ensures_necessary_files_exists(true, &vec![], &vec![initial]).is_ok());
    let missing = ensures_necessary_files_exists(true, &vec![], &vec![]).unwrap_err();
    assert_eq!(missing.file_name, "__Initial.surql");
}

#[test]
fn down_to_zero_reverts_every_migration() {
    let done = vec![applied("20230101_000000_a"), applied("20230102_000000_b"), applied("20230103_000000_c")];
    let files = get_migration_files_to_execute(forward(), backward(), &ApplyOperation::DownTo("0".to_string()), &done);
    assert_eq!(names(&files), vec!["20230103_000000_c", "20230102_000000_b", "20230101_000000_a"]);
}

#[test]
fn operation_names_are_checked_before_ordering() {
    let files = checked_migration_files_to_execute(forward(), backward(), &ApplyOperation::Up, &vec![]).unwrap();
    assert_eq!(files.len(), 3);
    let target = ApplyOperation::UpTo("123456789012345678901".to_string());
    assert!(matches!(
        checked_migration_files_to_execute(forward(), backward(), &target, &vec![]),
        Err(NameOrderError::UnsortableName)
    ));
}
