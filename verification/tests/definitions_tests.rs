use surrealdb_migrations::definitions::{
    apply_patch, calculate_definition_using_patches, check_hunk_ranges, initial_definition_content, current_definition_texts,
    InitialDefinitionError, expect_migration_definitions_to_be_up_to_date,
    filter_except_initial_definition, get_definition_diff, order_definition_files,
    plan_definition_file_update, select_definition_files_before, select_definition_files_up_to,
    take_while_applied_or_before, DefinitionCheckError, DefinitionFileUpdate, JsonDefinitionFile, PatchError,
};
use surrealdb_migrations::models::{DefinitionDiff, SchemaMigrationDefinition, ScriptMigration};

fn definition(schemas: &str, events: &str) -> SchemaMigrationDefinition {
    SchemaMigrationDefinition { schemas: schemas.to_string(), events: events.to_string() }
}

fn file(name: &str) -> JsonDefinitionFile {
    JsonDefinitionFile { name: name.to_string(), content: Some("{}".to_string()) }
}

#[test]
fn patch_round_trip() {
    let before = definition("DEFINE TABLE post;\n", "");
    let after = definition("DEFINE TABLE post;\nDEFINE TABLE user;\n", "");
    let diff = get_definition_diff(&before, &after);
    assert!(diff.schemas.is_some());
    assert!(diff.events.is_none());
    assert!(diff.has_changes());
    let patched = apply_patch(&before.schemas, diff.schemas.as_ref().unwrap()).unwrap();
    assert_eq!(patched, after.schemas);
}

#[test]
fn no_diff_when_only_white_space_changes() {
    let before = definition("DEFINE TABLE post;", "  ");
    let after = definition("  DEFINE TABLE post;\n", "");
    let diff = get_definition_diff(&before, &after);
    assert!(!diff.has_changes());
}

#[test]
fn invalid_patch() {
    assert_eq!(apply_patch("text", "--- a\n--- b\n").unwrap_err(), PatchError::InvalidPatch);
}

#[test]
fn patches_apply_in_order() {
    let a = definition("", "");
    let b = definition("DEFINE TABLE post;\n", "");
    let c = definition("DEFINE TABLE post;\nDEFINE TABLE user;\n", "DEFINE EVENT e ON post;\n");
    let d1 = get_definition_diff(&a, &b);
    let d2 = get_definition_diff(&b, &c);
    let result = calculate_definition_using_patches(definition("", ""), vec![d1, d2]).unwrap();
    assert_eq!(result.schemas, c.schemas);
    assert_eq!(result.events, c.events);
}

#[test]
fn failing_patch_stops_the_calculation() {
    let bad = DefinitionDiff { schemas: Some("--- a\n--- b\n".to_string()), events: None };
    let result = calculate_definition_using_patches(definition("x", ""), vec![bad]);
    assert!(matches!(result, Err(PatchError::InvalidPatch)));
}

#[test]
fn definitions_up_to_date() {
    let b = definition("DEFINE TABLE post;\n", "");
    let diff = get_definition_diff(&definition("", ""), &b);
    assert!(expect_migration_definitions_to_be_up_to_date("DEFINE TABLE post;\n", "", definition("", ""), vec![diff]).is_ok());
    let diff = get_definition_diff(&definition("", ""), &b);
    let outdated = expect_migration_definitions_to_be_up_to_date("DEFINE TABLE user;\n", "", definition("", ""), vec![diff]);
    assert_eq!(outdated.unwrap_err(), DefinitionCheckError::NotUpToDate);
}

#[test]
fn definition_file_update_plan() {
    let current = definition("DEFINE TABLE post;\n", "");
    match plan_definition_file_update(definition("", ""), vec![], &current).unwrap() {
        DefinitionFileUpdate::Write(diff) => assert!(diff.schemas.is_some() && diff.events.is_none()),
        DefinitionFileUpdate::Remove => panic!("a diff was expected"),
    }
    assert!(matches!(
        plan_definition_file_update(definition("DEFINE TABLE post;\n", ""), vec![], &current).unwrap(),
        DefinitionFileUpdate::Remove
    ));
}

#[test]
fn definition_file_selection() {
    assert!(!filter_except_initial_definition(&file("_initial")));
    assert!(filter_except_initial_definition(&file("20230101_000000_a")));
    let last = ScriptMigration { script_name: "b".to_string(), executed_at: String::new(), checksum: None };
    assert!(take_while_applied_or_before(&file("a"), &last));
    assert!(take_while_applied_or_before(&file("b"), &last));
    assert!(!take_while_applied_or_before(&file("c"), &last));

    let files = vec![file("c"), file("_initial"), file("a"), file("b")];
    let before: Vec<String> = select_definition_files_before(files, "c").into_iter().map(|f| f.name).collect();
    assert_eq!(before, vec!["a".to_string(), "b".to_string()]);

    let files = vec![file("c"), file("_initial"), file("a"), file("b")];
    let up_to: Vec<String> = select_definition_files_up_to(files, &last).into_iter().map(|f| f.name).collect();
    assert_eq!(up_to, vec!["a".to_string(), "b".to_string()]);

    let files = vec![file("m10"), file("_initial"), file("m9")];
    let ordered: Vec<String> = order_definition_files(files).into_iter().map(|f| f.name).collect();
    assert_eq!(ordered, vec!["m9".to_string(), "m10".to_string()]);
}

#[test]
fn patch_that_does_not_apply() {
    let diff = get_definition_diff(&definition("a\nb\nc\n", ""), &definition("a\nx\nc\n", ""));
    let result = apply_patch("q\nw\ne\n", diff.schemas.as_ref().unwrap());
    assert_eq!(result.unwrap_err(), PatchError::ApplyFailed);
}

#[test]
fn recorded_definitions_rebuild_the_current_ones() {
    let initial = definition("DEFINE TABLE post;\n", "");
    let first = get_definition_diff(&initial, &definition("DEFINE TABLE post;\nDEFINE TABLE user;\n", ""));
    let current = definition("DEFINE TABLE user;\n", "DEFINE EVENT created ON user;\n");
    let written = match plan_definition_file_update(
        definition("DEFINE TABLE post;\n", ""),
        vec![get_definition_diff(&initial, &definition("DEFINE TABLE post;\nDEFINE TABLE user;\n", ""))],
        &current,
    )
    .unwrap()
    {
        DefinitionFileUpdate::Write(diff) => diff,
        DefinitionFileUpdate::Remove => panic!("a diff was expected"),
    };
    let rebuilt = calculate_definition_using_patches(initial, vec![first, written]).unwrap();
    assert_eq!(rebuilt.schemas, current.schemas);
    assert_eq!(rebuilt.events, current.events);
}

#[test]
fn oversized_hunk_ranges_are_refused() {
    let patch = "@@ -18446744073709551615 +1 @@\n-a\n+b\n@@ -1 +1 @@\n-a\n+b\n";
    assert!(!check_hunk_ranges(patch));
    assert_eq!(apply_patch("a\n", patch).unwrap_err(), PatchError::RangeTooLarge);
    assert!(check_hunk_ranges("--- original\n+++ modified\n@@ -1 +1 @@\n-1234567890123\n+x\n"));
    assert!(check_hunk_ranges("@@ -999999999,2 +1 @@\n"));
    assert!(!check_hunk_ranges("@@ -1,1000000000 +1 @@\n"));
}

#[test]
fn initial_definition_is_required() {
    let files = vec![
        JsonDefinitionFile { name: "20230101_a".to_string(), content: Some("x".to_string()) },
        JsonDefinitionFile { name: "_initial".to_string(), content: Some("{}".to_string()) },
    ];
    assert_eq!(initial_definition_content(&files).unwrap(), "{}");
    let unread = vec![JsonDefinitionFile { name: "_initial".to_string(), content: None }];
    assert_eq!(initial_definition_content(&unread).unwrap(), "");
    assert_eq!(initial_definition_content(&vec![]).unwrap_err(), InitialDefinitionError::NotFound);
}

#[test]
fn texts_of_the_current_definition() {
    let files = vec![
        JsonDefinitionFile { name: "20230103_c".to_string(), content: Some("C".to_string()) },
        JsonDefinitionFile { name: "_initial".to_string(), content: Some("I".to_string()) },
        JsonDefinitionFile { name: "20230101_a".to_string(), content: Some("A".to_string()) },
        JsonDefinitionFile { name: "20230102_b".to_string(), content: None },
    ];
    let last = ScriptMigration { script_name: "20230102_b".to_string(), executed_at: String::new(), checksum: None };
    let (initial, diffs) = current_definition_texts(files, &last).unwrap();
    assert_eq!(initial, "I");
    assert_eq!(diffs, vec!["A".to_string(), String::new()]);
    let none = vec![JsonDefinitionFile { name: "20230101_a".to_string(), content: None }];
    assert!(matches!(current_definition_texts(none, &last), Err(InitialDefinitionError::NotFound)));
}
