use surrealdb_migrations::config::{
    parse_table_schema_design, parse_tags, retrieve_config_value, retrieve_db_config, retrieve_exclude_tags,
    retrieve_folder_path, retrieve_table_schema_design, retrieve_tags, split_text, DbEnvironment, TableSchemaDesign,
};

fn config() -> ini::Ini {
    ini::Ini::load_from_str(
        "[core]\npath = ./tests-files\nschema = FULL\n\n[db]\naddress = ws://db:8000\nns = prod\n\n[filters]\ntags = v1,product\n",
    )
    .unwrap()
}

fn no_env() -> DbEnvironment {
    DbEnvironment { address: None, username: None, password: None, ns: None, db: None }
}

#[test]
fn config_values() {
    let c = config();
    assert_eq!(retrieve_config_value(&c, "core", "path"), Some("./tests-files".to_string()));
    assert_eq!(retrieve_config_value(&c, "core", "missing"), None);
    assert_eq!(retrieve_config_value(&c, "missing", "path"), None);
}

#[test]
fn folder_path_from_config_else_environment() {
    let c = config();
    assert_eq!(retrieve_folder_path(Some(&c), Some("env".to_string())), Some("./tests-files".to_string()));
    assert_eq!(retrieve_folder_path(None, Some("env".to_string())), Some("env".to_string()));
    assert_eq!(retrieve_folder_path(None, None), None);
}

#[test]
fn db_config_from_config_else_environment() {
    let c = config();
    let env = DbEnvironment { username: Some("admin".to_string()), ns: Some("dev".to_string()), ..no_env() };
    let db = retrieve_db_config(Some(&c), env);
    assert_eq!(db.address, Some("ws://db:8000".to_string()));
    assert_eq!(db.username, Some("admin".to_string()));
    assert_eq!(db.ns, Some("prod".to_string()));
    assert_eq!(db.url, None);
    assert_eq!(db.password, None);
}

#[test]
fn table_schema_design() {
    assert_eq!(parse_table_schema_design("Full".to_string()), Some(TableSchemaDesign::Schemafull));
    assert_eq!(parse_table_schema_design("LESS".to_string()), Some(TableSchemaDesign::Schemaless));
    assert_eq!(parse_table_schema_design("other".to_string()), None);
    let c = config();
    assert_eq!(retrieve_table_schema_design(Some(&c), None), Some(TableSchemaDesign::Schemafull));
    assert_eq!(retrieve_table_schema_design(None, Some("less".to_string())), Some(TableSchemaDesign::Schemaless));
}

#[test]
fn tags_from_config_or_environment() {
    assert_eq!(parse_tags("a,b,,c"), vec!["a", "b", "", "c"]);
    assert_eq!(parse_tags(""), vec![""]);
    assert_eq!(split_text("a/b", '/'), vec!["a", "b"]);
    let c = config();
    assert_eq!(retrieve_tags(Some(&c), None), Some(vec!["v1".to_string(), "product".to_string()]));
    assert_eq!(retrieve_exclude_tags(Some(&c), Some("old".to_string())), Some(vec!["old".to_string()]));
    assert_eq!(retrieve_exclude_tags(None, None), None);
}
