use surrealdb_migrations::branch_diff::{branch_diff_report, compare_branch_tables, full_table_definition, table_info_queries};
use surrealdb_migrations::models::ApplyOperation;
use surrealdb_migrations::runner::plan_apply;

fn pairs(v: Vec<(&str, &str)>) -> Vec<(String, String)> {
    v.into_iter().map(|(a, b)| (a.to_string(), b.to_string())).collect()
}

fn strings(v: Vec<&str>) -> Vec<String> {
    v.iter().map(|s| s.to_string()).collect()
}

#[test]
fn queries_and_full_definitions() {
    assert_eq!(table_info_queries(&strings(vec!["post", "user"])), "INFO FOR TABLE post;\nINFO FOR TABLE user;");
    assert_eq!(table_info_queries(&vec![]), "");
    let full = full_table_definition(
        "DEFINE TABLE post",
        strings(vec!["DEFINE EVENT b", "DEFINE EVENT a"]),
        strings(vec!["DEFINE FIELD x"]),
        vec![],
        strings(vec!["DEFINE INDEX i"]),
    );
    assert_eq!(full, "DEFINE TABLE post\nDEFINE EVENT a\nDEFINE EVENT b\nDEFINE FIELD x\nDEFINE INDEX i");
}

#[test]
fn branch_changes() {
    let origin = pairs(vec![("post", "A\n"), ("user", "U"), ("old", "O")]);
    let branch = pairs(vec![("post", "B\n"), ("user", "U"), ("new", "N")]);
    let changes = compare_branch_tables(&origin, &branch);
    assert_eq!(changes.created, strings(vec!["new"]));
    assert_eq!(changes.altered, strings(vec!["post"]));
    assert_eq!(changes.removed, strings(vec!["old"]));
    let report = branch_diff_report(&origin, &branch);
    assert!(report.starts_with("Schema changes detected:\n\n### 1 tables created ###\n\n## new ##\n\nN\n\n### 1 tables altered ###\n\n## post ##\n\n"));
    assert!(report.ends_with("\n### 1 tables removed ###\n\n## old ##\n\nO\n"));
    assert!(report.contains("-A\n+B\n"));
}

#[test]
fn no_branch_change() {
    let origin = pairs(vec![("post", "A")]);
    assert_eq!(branch_diff_report(&origin, &origin.clone()), "No schema changes detected\n");
}

#[test]
fn apply_plans() {
    let plan = plan_apply(&ApplyOperation::Up, "", "", 2, true, false);
    assert!(plan.use_traditional_approach && !plan.use_migration_definitions);
    assert!(plan.should_create_definition_files && plan.display_logs);
    let plan = plan_apply(&ApplyOperation::Reset, "DEFINE TABLE post;", "", 2, true, true);
    assert!(!plan.use_traditional_approach && plan.use_migration_definitions);
    assert!(!plan.should_create_definition_files && !plan.display_logs);
    let plan = plan_apply(&ApplyOperation::Up, "", "", 0, false, false);
    assert!(!plan.use_traditional_approach);
}
