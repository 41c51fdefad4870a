use surrealdb_migrations::apply::NameOrderError;
use surrealdb_migrations::io::{checked_concat_files_content, checked_select_migrations_files};
use surrealdb_migrations::constants::{DOWN_TAG, ROOT_TAG};
use surrealdb_migrations::file::SurqlFile;
use surrealdb_migrations::io::{
    concat_files_content, concat_path, get_embedded_file_full_name, get_embedded_file_is_file,
    get_embedded_file_name, get_path_file_name, get_sorted_migrations_files, is_embedded_down_file,
    join_path, merge_file_tags, select_migrations_files, text_contains,
};
use surrealdb_migrations::models::MigrationDirection;
use surrealdb_migrations::statements::{DefineStatement, DefineTableStatement, Statement};

fn create_surql_file(full_name: &str, content: &'static str) -> SurqlFile {
    SurqlFile {
        name: full_name.to_string(),
        full_name: full_name.to_string(),
        tags: vec![ROOT_TAG.to_string(), DOWN_TAG.to_string()],
        content: Some(content.to_string()),
    }
}

#[test]
fn concat_empty_list_of_files() {
    let result = concat_files_content(&vec![], &vec![]);
    assert_eq!(result, "");
}

#[test]
fn concat_files_in_alphabetic_order() {
    let files = vec![
        create_surql_file("a.text", "Text of a file"),
        create_surql_file("c.text", "Text of c file"),
        create_surql_file("b.text", "Text of b file"),
    ];

    let result = concat_files_content(&files, &vec![vec![], vec![], vec![]]);
    assert_eq!(result, "Text of a file\nText of b file\nText of c file");
}

fn table(name: &str, view: Option<Vec<&str>>) -> Statement {
    Statement::Define(DefineStatement::Table(DefineTableStatement {
        name: name.to_string(),
        view: view.map(|v| v.iter().map(|s| s.to_string()).collect()),
    }))
}

#[test]
fn concat_puts_a_view_after_the_table_it_reads() {
    let files = vec![
        create_surql_file("a_view", "DEFINE TABLE a_view AS SELECT * FROM post;"),
        create_surql_file("post", "DEFINE TABLE post;"),
    ];
    let queries = vec![vec![table("a_view", Some(vec!["post"]))], vec![table("post", None)]];
    let result = concat_files_content(&files, &queries);
    assert_eq!(result, "DEFINE TABLE post;\nDEFINE TABLE a_view AS SELECT * FROM post;");
}

#[test]
fn concat_orders_names_naturally() {
    let files = vec![
        create_surql_file("file10", "ten"),
        create_surql_file("file9", "nine"),
    ];
    let result = concat_files_content(&files, &vec![vec![], vec![]]);
    assert_eq!(result, "nine\nten");
}

#[test]
fn unreadable_file_counts_as_empty() {
    let mut file = create_surql_file("a", "");
    file.content = None;
    let result = concat_files_content(&vec![file, create_surql_file("b", "B")], &vec![vec![], vec![]]);
    assert_eq!(result, "\nB");
}

#[test]
fn folder_paths() {
    assert_eq!(concat_path(&None, "schemas"), "schemas");
    assert_eq!(concat_path(&Some("project".to_string()), "schemas"), "project/schemas");
    assert_eq!(concat_path(&Some("project/".to_string()), "schemas"), "project/schemas");
    assert_eq!(concat_path(&Some(String::new()), "schemas"), "schemas");
    assert_eq!(join_path("project", "/abs"), "/abs");
}

#[test]
fn embedded_file_kinds() {
    assert!(get_embedded_file_is_file(&Some("a.surql".to_string())));
    assert!(get_embedded_file_is_file(&Some("a.json".to_string())));
    assert!(!get_embedded_file_is_file(&Some("a.txt".to_string())));
    assert!(!get_embedded_file_is_file(&None));
}

#[test]
fn embedded_file_names() {
    assert_eq!(get_embedded_file_name("migrations/20230101_120000_AddPost.surql"), Some("20230101_120000_AddPost".to_string()));
    assert_eq!(get_embedded_file_name("migrations/20230101_120000_AddPost.down.surql"), Some("20230101_120000_AddPost".to_string()));
    assert_eq!(get_embedded_file_name("schemas/.hidden"), Some(".hidden".to_string()));
    assert_eq!(get_embedded_file_name("schemas/.."), None);
    assert_eq!(get_embedded_file_full_name("schemas/post.surql"), Some("post.surql".to_string()));
    assert_eq!(get_path_file_name("foo.txt/."), Some("foo.txt".to_string()));
    assert_eq!(get_path_file_name("/"), None);
    assert_eq!(get_path_file_name("a//b/"), Some("b".to_string()));
}

#[test]
fn embedded_down_files() {
    assert!(is_embedded_down_file("x.down.surql", "migrations/x.down.surql", false));
    assert!(is_embedded_down_file("x.surql", "migrations/down/x.surql", true));
    assert!(!is_embedded_down_file("x.surql", "migrations/down/x.surql", false));
    assert!(!is_embedded_down_file("x.surql", "migrations/x.surql", true));
    assert!(text_contains("abcdef", "cde"));
    assert!(!text_contains("abc", "abcd"));
    assert!(text_contains("abc", ""));
}

#[test]
fn embedded_file_tags() {
    let tags = merge_file_tags(&vec!["v1".to_string()], &None, true);
    assert_eq!(tags, vec!["v1".to_string(), "root".to_string(), "down".to_string()]);
    let tags = merge_file_tags(&vec!["a".to_string(), "a".to_string()], &Some(vec!["a".to_string(), "b".to_string()]), false);
    assert_eq!(tags, vec!["a".to_string(), "b".to_string()]);
}

fn migration(name: &str, down: bool) -> SurqlFile {
    let mut tags = vec![ROOT_TAG.to_string()];
    if down {
        tags.push(DOWN_TAG.to_string());
    }
    SurqlFile { name: name.to_string(), full_name: format!("{name}.surql"), tags, content: None }
}

#[test]
fn migrations_of_each_direction_sorted() {
    let files = vec![migration("2_b", false), migration("10_c", false), migration("1_a", true), migration("1_a", false)];
    let forward = select_migrations_files(files, MigrationDirection::Forward);
    let names: Vec<&str> = forward.iter().map(|f| f.name.as_str()).collect();
    assert_eq!(names, vec!["1_a", "2_b", "10_c"]);
    let files = vec![migration("2_b", true), migration("1_a", true), migration("3", false)];
    let backward = select_migrations_files(files, MigrationDirection::Backward);
    let names: Vec<&str> = backward.iter().map(|f| f.name.as_str()).collect();
    assert_eq!(names, vec!["1_a", "2_b"]);
    let sorted = get_sorted_migrations_files(vec![migration("b", false), migration("A", false)]);
    assert_eq!(sorted[0].name, "A");
}

#[test]
fn directions_split_the_migration_files() {
    let files = || vec![migration("2_b", false), migration("2_b", true), migration("1_a", false), migration("3_c", true)];
    let forward = select_migrations_files(files(), MigrationDirection::Forward);
    let backward = select_migrations_files(files(), MigrationDirection::Backward);
    assert_eq!(forward.len() + backward.len(), files().len());
    assert!(forward.iter().all(|f| !f.is_down_file()));
    assert!(backward.iter().all(|f| f.is_down_file()));
}

#[test]
fn concat_puts_readers_after_every_file_that_reads_nothing() {
    let files = vec![
        create_surql_file("a_view", "A"),
        create_surql_file("m_plain", "M"),
        create_surql_file("z_table", "Z"),
    ];
    let queries = vec![
        vec![table("a_view", Some(vec!["z_table"]))],
        vec![table("m_plain", None)],
        vec![table("z_table", None)],
    ];
    assert_eq!(concat_files_content(&files, &queries), "M\nZ\nA");
}

#[test]
fn names_are_checked_before_ordering() {
    let files = vec![migration("2_b", false), migration("1_a", false)];
    let selected = checked_select_migrations_files(files, MigrationDirection::Forward).unwrap();
    assert_eq!(selected[0].name, "1_a");
    let long = vec![migration("123456789012345678901_x", false)];
    assert!(matches!(checked_select_migrations_files(long, MigrationDirection::Forward), Err(NameOrderError::UnsortableName)));
    let cjk = vec![migration("日本", false)];
    assert_eq!(checked_select_migrations_files(cjk, MigrationDirection::Forward).unwrap().len(), 1);
    let long = vec![create_surql_file("123456789012345678901", "x")];
    assert_eq!(checked_concat_files_content(&long, &vec![vec![]]), Err(NameOrderError::UnsortableName));
    let ok = vec![create_surql_file("a", "x")];
    assert_eq!(checked_concat_files_content(&ok, &vec![vec![]]), Ok("x".to_string()));
}
