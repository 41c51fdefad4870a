use surrealdb_migrations::branch::{
    fails_if_branch_already_exists, generate_random_branch_name, BranchArgs, BranchError,
};
use surrealdb_migrations::cli::{BranchAction, BranchArgs as CliBranchArgs, BranchMergeMode};
use surrealdb_migrations::config::DbConfig;
use surrealdb_migrations::input::{connection_settings, merge_db_config, SurrealdbConfiguration};

#[test]
fn bare_name_shows_status() {
    let args = BranchArgs::try_from(CliBranchArgs { command: None, name: Some("feature".to_string()) }, None);
    match args {
        Ok(BranchArgs::Status(s)) => assert_eq!(s.name, "feature"),
        _ => panic!("status expected"),
    }
}

#[test]
fn merge_arguments() {
    let action = BranchAction::Merge {
        name: "feature".to_string(),
        mode: BranchMergeMode::Overwrite,
        address: Some("ws://a".to_string()),
        ns: None,
        db: Some("db".to_string()),
        username: None,
        password: None,
    };
    match BranchArgs::try_from(CliBranchArgs { command: Some(action), name: None }, Some("cfg".to_string())) {
        Ok(BranchArgs::Merge(m)) => {
            assert_eq!(m.name, "feature");
            assert_eq!(m.mode, BranchMergeMode::Overwrite);
            assert_eq!(m.db_configuration.address, Some("ws://a".to_string()));
            assert_eq!(m.db_configuration.db, Some("db".to_string()));
            assert_eq!(m.config_file, Some("cfg".to_string()));
        },
        _ => panic!("merge expected"),
    }
}

#[test]
fn list_new_remove_diff_arguments() {
    let list = BranchAction::List { address: None, ns: None, db: None, username: None, password: None, no_color: true };
    assert!(matches!(BranchArgs::try_from(CliBranchArgs { command: Some(list), name: None }, None), Ok(BranchArgs::List(l)) if l.no_color));
    let new = BranchAction::New { name: None, address: None, ns: None, db: None, username: None, password: None };
    assert!(matches!(BranchArgs::try_from(CliBranchArgs { command: Some(new), name: None }, None), Ok(BranchArgs::New(n)) if n.name.is_none()));
    let remove = BranchAction::Remove { name: "x".to_string(), address: None, ns: None, db: None, username: None, password: None };
    assert!(matches!(BranchArgs::try_from(CliBranchArgs { command: Some(remove), name: None }, None), Ok(BranchArgs::Remove(r)) if r.name == "x"));
    let diff = BranchAction::Diff { name: "y".to_string(), address: None, ns: None, db: None, username: None, password: None };
    assert!(matches!(BranchArgs::try_from(CliBranchArgs { command: Some(diff), name: None }, None), Ok(BranchArgs::Diff(d)) if d.name == "y"));
    let status = BranchAction::Status { name: "z".to_string() };
    assert!(matches!(BranchArgs::try_from(CliBranchArgs { command: Some(status), name: None }, None), Ok(BranchArgs::Status(s)) if s.name == "z"));
}

#[test]
fn no_branch_action() {
    assert!(matches!(
        BranchArgs::try_from(CliBranchArgs { command: None, name: None }, None),
        Err(BranchError::NoActionSpecified)
    ));
}

#[test]
fn existing_branch_names() {
    let existing = vec!["a".to_string(), "b".to_string()];
    assert_eq!(fails_if_branch_already_exists(Some("a".to_string()), &existing), Err(BranchError::BranchAlreadyExists));
    assert_eq!(fails_if_branch_already_exists(Some("c".to_string()), &existing), Ok(()));
    assert_eq!(fails_if_branch_already_exists(None, &existing), Ok(()));
    let name = generate_random_branch_name(&existing).unwrap();
    assert!(!existing.contains(&name));
    // adjective-noun-number; a word of the dictionary may hold a hyphen itself.
    assert!(name.split('-').count() >= 3);
    let number = name.rsplit('-').next().unwrap();
    assert_eq!(number.len(), 4);
    assert!(number.chars().all(|c| c.is_ascii_digit()));
}

fn db_config() -> DbConfig {
    DbConfig {
        address: Some("ws://config".to_string()),
        url: None,
        username: None,
        password: Some("secret".to_string()),
        ns: Some("config_ns".to_string()),
        db: None,
    }
}

#[test]
fn settings_merge_with_the_configuration() {
    let given = SurrealdbConfiguration { address: None, ns: Some("given_ns".to_string()), db: None, username: None, password: None };
    let merged = merge_db_config(&given, &db_config());
    assert_eq!(merged.address, Some("ws://config".to_string()));
    assert_eq!(merged.ns, Some("given_ns".to_string()));
    assert_eq!(merged.password, Some("secret".to_string()));
    assert_eq!(merged.db, None);
    let merged = given.merge_with_config(&db_config());
    assert_eq!(merged.ns, Some("given_ns".to_string()));
    let settings = connection_settings(&given, &db_config());
    assert_eq!(settings.address, "ws://config");
    assert_eq!(settings.username, "root");
    assert_eq!(settings.password, "secret");
    assert_eq!(settings.ns, "given_ns");
    assert_eq!(settings.db, "test");
    let default = SurrealdbConfiguration::default();
    assert!(default.address.is_none() && default.db.is_none());
}

#[test]
fn a_name_is_always_found_without_existing_branches() {
    let name = generate_random_branch_name(&vec![]).unwrap();
    assert!(!name.is_empty());
}
