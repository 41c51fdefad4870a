use surrealdb_migrations::statements::{
    dedup_names, extract_consumed_table_names, extract_define_event_statements, extract_define_field_statements,
    extract_define_table_statements, extract_table_names, get_rollback_statements, DefineEventStatement,
    DefineFieldStatement, DefineStatement, DefineTableStatement, RemoveStatement, Statement,
};

fn table(name: &str, view: Option<Vec<&str>>) -> Statement {
    Statement::Define(DefineStatement::Table(DefineTableStatement {
        name: name.to_string(),
        view: view.map(|v| v.iter().map(|s| s.to_string()).collect()),
    }))
}

fn field(name: &str, what: &str) -> Statement {
    Statement::Define(DefineStatement::Field(DefineFieldStatement {
        name: name.to_string(),
        what: what.to_string(),
        readonly: false,
        assert: None,
        default: None,
        kind: None,
        permissions: "FULL".to_string(),
        reference: None,
    }))
}

fn event(name: &str, what: &str) -> Statement {
    Statement::Define(DefineStatement::Event(DefineEventStatement { name: name.to_string(), what: what.to_string() }))
}

#[test]
fn define_statements_of_each_kind() {
    let statements = vec![table("post", None), field("title", "post"), event("created", "post"), Statement::Other];
    assert_eq!(extract_define_table_statements(statements).len(), 1);
    let statements = vec![table("post", None), field("title", "post"), field("body", "post")];
    let fields = extract_define_field_statements(statements);
    assert_eq!(fields.len(), 2);
    assert_eq!(fields[1].name, "body");
    let statements = vec![event("created", "post"), table("post", None)];
    assert_eq!(extract_define_event_statements(statements)[0].name, "created");
}

#[test]
fn table_names() {
    let statements = vec![table("post", None), table("post_view", Some(vec!["post", "user"])), field("a", "post")];
    assert_eq!(extract_table_names(&statements), vec!["post", "post_view"]);
    assert_eq!(extract_consumed_table_names(&statements), vec!["post", "user"]);
    assert_eq!(dedup_names(&vec!["a".to_string(), "b".to_string(), "a".to_string()]), vec!["a", "b"]);
}

#[test]
fn rollback_removes_what_the_next_definitions_add() {
    let previous = vec![table("post", None), field("title", "post")];
    let next = vec![table("post", None), field("title", "post"), field("body", "post"), table("user", None), field("email", "user"), event("created", "post")];
    let rollback = get_rollback_statements(&next, &previous);
    let texts: Vec<String> = rollback.iter().map(|r| r.to_surql()).collect();
    assert_eq!(texts, vec!["REMOVE TABLE user", "REMOVE FIELD body ON post", "REMOVE EVENT created ON post"]);
    assert!(matches!(&rollback[0], RemoveStatement::Table { name } if name == "user"));
}
