use surrealdb_migrations::cli;
use surrealdb_migrations::diff::{
    compute_table_diffs, decimal, diff_report, render_diff, DiffArgs, DiffSymbol, TableDiff,
};
use surrealdb_migrations::statements::{DefineFieldStatement, DefineStatement, DefineTableStatement, Statement};

fn strings(v: Vec<&str>) -> Vec<String> {
    v.iter().map(|s| s.to_string()).collect()
}

fn table(name: &str) -> Statement {
    Statement::Define(DefineStatement::Table(DefineTableStatement { name: name.to_string(), view: None }))
}

fn field(name: &str, what: &str, kind: Option<&str>) -> Statement {
    Statement::Define(DefineStatement::Field(DefineFieldStatement {
        name: name.to_string(),
        what: what.to_string(),
        readonly: false,
        assert: None,
        default: None,
        kind: kind.map(|k| k.to_string()),
        permissions: "FULL".to_string(),
        reference: None,
    }))
}

#[test]
fn symbols_and_numbers() {
    assert_eq!(DiffSymbol::Addition.text(), "+");
    assert_eq!(DiffSymbol::Change.text(), "~");
    assert_eq!(DiffSymbol::Deletion.text(), "-");
    assert_eq!(decimal(0), "0");
    assert_eq!(decimal(1203), "1203");
    let args = DiffArgs::from(cli::DiffArgs { no_color: true }, None);
    assert!(args.no_color);
}

#[test]
fn text_of_a_table_diff() {
    let d = TableDiff {
        name: "post".to_string(),
        additions: strings(vec!["title10", "title9"]),
        changes: vec![],
        deletions: strings(vec!["old"]),
    };
    assert_eq!(d.to_text(false), "~post (2 additions, 1 deletions)\n  +title9\n  +title10\n  -old\n");
    let d = TableDiff { name: "user".to_string(), additions: strings(vec!["a"]), changes: vec![], deletions: vec![] };
    assert_eq!(d.to_text(false), "+user (1 additions)\n  +a\n");
    assert_eq!(d.to_text(true), "\x1b[32m+\x1b[39m\x1b[32muser (1 additions)\x1b[39m\n  \x1b[32m+\x1b[39m\x1b[32ma\x1b[39m\n");
    let d = TableDiff { name: "user".to_string(), additions: vec![], changes: vec![], deletions: strings(vec!["a"]) };
    assert_eq!(d.to_text(false), "-user (1 deletions)\n  -a\n");
    let d = TableDiff { name: "user".to_string(), additions: vec![], changes: strings(vec!["a"]), deletions: vec![] };
    assert_eq!(d.to_text(false), "~user (1 changes)\n  ~a\n");
    let d = TableDiff { name: "user".to_string(), additions: vec![], changes: vec![], deletions: vec![] };
    assert_eq!(d.to_text(false), "");
}

#[test]
fn differences_between_local_and_remote() {
    let local = vec![table("post"), field("title", "post", Some("string")), field("body", "post", None), table("user")];
    let remote = vec![
        table("post"),
        field("title", "post", Some("int")),
        field("views", "post", None),
        field("tags[*]", "post", None),
        field("in", "post", None),
        table("user"),
    ];
    let diffs = compute_table_diffs(&local, &remote);
    assert_eq!(diffs.len(), 1);
    assert_eq!(diffs[0].name, "post");
    assert_eq!(diffs[0].additions, strings(vec!["body"]));
    assert_eq!(diffs[0].changes, strings(vec!["title"]));
    assert_eq!(diffs[0].deletions, strings(vec!["views"]));
    let report = diff_report(diffs, false);
    assert_eq!(report, "~post (1 additions, 1 changes, 1 deletions)\n  +body\n  ~title\n  -views\n\n");
}

#[test]
fn no_difference() {
    let local = vec![table("post"), field("title", "post", None)];
    let remote = vec![table("post"), field("title", "post", None)];
    assert_eq!(render_diff(&local, &remote, false), Some("No changes detected.\n".to_string()));
}

#[test]
fn report_sorts_tables_naturally() {
    let local = vec![field("a", "t10", None), field("a", "t9", None)];
    let report = render_diff(&local, &vec![], false).unwrap();
    assert_eq!(report, "+t9 (1 additions)\n  +a\n\n+t10 (1 additions)\n  +a\n\n");
}
