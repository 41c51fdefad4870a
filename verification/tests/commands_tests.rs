use surrealdb_migrations::cli;
use surrealdb_migrations::constants::ROOT_TAG;
use surrealdb_migrations::file::SurqlFile;
use surrealdb_migrations::list::{migration_list_row, ListArgs};
use surrealdb_migrations::remove::{last_migration, removal_message, removal_paths, RemoveError};

fn migration(name: &str) -> SurqlFile {
    SurqlFile { name: name.to_string(), full_name: format!("{name}.surql"), tags: vec![ROOT_TAG.to_string()], content: None }
}

#[test]
fn list_arguments_and_rows() {
    let value = cli::ListArgs { address: Some("ws://x".to_string()), ns: None, db: None, username: None, password: None, no_color: true };
    let args = ListArgs::from(value, None);
    assert_eq!(args.db_configuration.address, Some("ws://x".to_string()));
    assert!(args.no_color);
    assert_eq!(
        migration_list_row("20230603_123456_create_table_post", Some("2 days".to_string())),
        vec!["create_table_post", "2 days", "20230603_123456_create_table_post.surql"]
    );
    assert_eq!(migration_list_row("a_b_c", None)[1], "N/A");
}

#[test]
fn removal_of_the_last_migration() {
    assert_eq!(last_migration(&vec![]), Err(RemoveError::NoMigrationFilesLeft));
    let files = vec![migration("20230101_000000_a"), migration("20230102_000000_b")];
    assert_eq!(last_migration(&files), Ok(1));
    let paths = removal_paths(&Some("db".to_string()), &files[1]);
    assert_eq!(paths.migration_file, "db/migrations/20230102_000000_b.surql");
    assert_eq!(paths.definition_file, "db/migrations/definitions/20230102_000000_b.json");
    assert_eq!(paths.nested_down_file, "db/migrations/down/20230102_000000_b.surql");
    assert_eq!(paths.inlined_down_file, "db/migrations/20230102_000000_b.down.surql");
    assert_eq!(removal_message(&files[1]), "Migration 'b' successfully removed");
}
