use surrealdb_migrations::constants::ALL_TAGS;
use surrealdb_migrations::file::SurqlFile;

fn create_surql_file(tags: Vec<&str>) -> SurqlFile {
    let full_name = "file.surql";
    let content = "";

    SurqlFile {
        name: full_name.to_string(),
        full_name: full_name.to_string(),
        tags: tags.iter().map(|t| t.to_string()).collect(),
        content: Some(content.to_string()),
    }
}

fn tags(values: Vec<&str>) -> Vec<String> {
    values.iter().map(|t| t.to_string()).collect()
}

#[test]
fn always_true_if_filter_all_tags() {
    let filter_tags = tags(vec![ALL_TAGS]);
    let exclude_tags = Vec::new();
    let result = create_surql_file(vec!["root"]).filter_by_tags(&filter_tags, &exclude_tags);

    assert!(result);
}

#[test]
fn always_true_if_filter_all_tags_alt() {
    let filter_tags = tags(vec![ALL_TAGS]);
    let exclude_tags = Vec::new();
    let result = create_surql_file(vec!["v2", "product"]).filter_by_tags(&filter_tags, &exclude_tags);

    assert!(result);
}

#[test]
fn false_if_no_tag_match() {
    let filter_tags = tags(vec!["v1"]);
    let exclude_tags = Vec::new();
    let result = create_surql_file(vec!["v2", "product"]).filter_by_tags(&filter_tags, &exclude_tags);

    assert!(!result);
}

#[test]
fn true_if_one_tag_match() {
    let filter_tags = tags(vec!["v2"]);
    let exclude_tags = Vec::new();
    let result = create_surql_file(vec!["v2", "product"]).filter_by_tags(&filter_tags, &exclude_tags);

    assert!(result);
}

#[test]
fn true_if_all_tag_matches() {
    let filter_tags = tags(vec!["v2", "product"]);
    let exclude_tags = Vec::new();
    let result = create_surql_file(vec!["v2", "product"]).filter_by_tags(&filter_tags, &exclude_tags);

    assert!(result);
}

#[test]
fn false_if_one_excluded_tag_match() {
    let filter_tags = tags(vec!["v2", "product"]);
    let exclude_tags = tags(vec!["old"]);
    let result = create_surql_file(vec!["v2", "product", "old"]).filter_by_tags(&filter_tags, &exclude_tags);

    assert!(!result);
}

#[test]
fn false_if_all_excluded_tag_matches() {
    let filter_tags = Vec::new();
    let exclude_tags = tags(vec!["v2", "product"]);
    let result = create_surql_file(vec!["v2", "product"]).filter_by_tags(&filter_tags, &exclude_tags);

    assert!(!result);
}

#[test]
fn exclude_tags_is_stronger_than_inclusion() {
    let filter_tags = tags(vec![ALL_TAGS]);
    let exclude_tags = tags(vec!["old"]);
    let result = create_surql_file(vec!["v2", "old"]).filter_by_tags(&filter_tags, &exclude_tags);

    assert!(!result);
}

#[test]
fn down_file_carries_the_down_tag() {
    assert!(create_surql_file(vec!["root", "down"]).is_down_file());
    assert!(!create_surql_file(vec!["root"]).is_down_file());
}

#[test]
fn content_of_a_file() {
    let file = create_surql_file(vec!["root"]);
    assert_eq!(file.get_content(), Some(String::new()));
    let unreadable = SurqlFile { content: None, ..create_surql_file(vec![]) };
    assert_eq!(unreadable.get_content(), None);
}
