use surrealdb_migrations::apply::get_migration_files_to_execute;
use surrealdb_migrations::common::get_migration_display_name;
use surrealdb_migrations::constants::{DOWN_TAG, ROOT_TAG};
use surrealdb_migrations::create::build_migration_file_name;
use surrealdb_migrations::definitions::{calculate_definition_using_patches, get_definition_diff};
use surrealdb_migrations::file::SurqlFile;
use surrealdb_migrations::models::{ApplyOperation, SchemaMigrationDefinition, ScriptMigration};
use surrealdb_migrations::sorting::{sort_by_name, NameOrdering};

fn migration(name: &str, down: bool) -> SurqlFile {
    let mut tags = vec![ROOT_TAG.to_string()];
    if down {
        tags.push(DOWN_TAG.to_string());
    }
    SurqlFile { name: name.to_string(), full_name: format!("{name}.surql"), tags, content: None }
}

fn applied(name: &str) -> ScriptMigration {
    ScriptMigration { script_name: name.to_string(), executed_at: String::new(), checksum: None }
}

#[test]
fn sorting_keeps_every_item_and_orders_them() {
    let names = vec!["b10".to_string(), "a".to_string(), "b9".to_string(), "a".to_string()];
    let natural = sort_by_name(names.clone(), NameOrdering::Natural);
    assert_eq!(natural, vec!["a", "a", "b9", "b10"]);
    let plain = sort_by_name(names.clone(), NameOrdering::Plain);
    assert_eq!(plain, vec!["a", "a", "b10", "b9"]);
    let reversed = sort_by_name(names, NameOrdering::NaturalReversed);
    assert_eq!(reversed, vec!["b10", "b9", "a", "a"]);
}

#[test]
fn forward_runs_only_pending_and_backward_only_applied() {
    let forward = vec![migration("1_a", false), migration("2_b", false)];
    let backward = vec![migration("1_a", true), migration("2_b", true)];
    let done = vec![applied("1_a")];
    let up = get_migration_files_to_execute(forward, backward, &ApplyOperation::Up, &done);
    assert!(up.iter().all(|f| !f.is_down_file() && f.name != "1_a"));
    let forward = vec![migration("1_a", false), migration("2_b", false)];
    let backward = vec![migration("1_a", true), migration("2_b", true)];
    let reset = get_migration_files_to_execute(forward, backward, &ApplyOperation::Reset, &done);
    assert_eq!(reset.len(), 1);
    assert!(reset[0].is_down_file() && reset[0].name == "1_a");
}

#[test]
fn patches_apply_in_batches() {
    let d0 = SchemaMigrationDefinition { schemas: String::new(), events: String::new() };
    let d1 = SchemaMigrationDefinition { schemas: "A\n".to_string(), events: String::new() };
    let d2 = SchemaMigrationDefinition { schemas: "A\nB\n".to_string(), events: "E\n".to_string() };
    let all = calculate_definition_using_patches(
        SchemaMigrationDefinition { schemas: String::new(), events: String::new() },
        vec![get_definition_diff(&d0, &d1), get_definition_diff(&d1, &d2)],
    )
    .unwrap();
    let first = calculate_definition_using_patches(
        SchemaMigrationDefinition { schemas: String::new(), events: String::new() },
        vec![get_definition_diff(&d0, &d1)],
    )
    .unwrap();
    let second = calculate_definition_using_patches(first, vec![get_definition_diff(&d1, &d2)]).unwrap();
    assert_eq!(all.schemas, second.schemas);
    assert_eq!(all.events, second.events);
}

#[test]
fn created_migration_displays_its_name() {
    let name = build_migration_file_name("20240101", "235959", "add_user_table");
    assert_eq!(get_migration_display_name(&name), "add_user_table.surql");
}
