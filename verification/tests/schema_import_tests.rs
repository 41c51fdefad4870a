use surrealdb_migrations::cli::ScaffoldSchemaDbType;
use surrealdb_migrations::sql_schema::{parse_sql_schema, SqlSchemaError};
use surrealdb_migrations::scaffold::ScaffoldError;
use surrealdb_migrations::schema_import::{
    convert_ast_to_surrealdb_schema, detect_field_type, schema_files, SqlColumnDef, SqlColumnOption,
    SqlColumnOptionDef, SqlDataType, SqlStatement, SqlTableConstraint, SurrealdbFieldType, SurrealdbSchemaLineDefinition,
};

fn column(name: &str, data_type: SqlDataType, options: Vec<SqlColumnOption>) -> SqlColumnDef {
    SqlColumnDef {
        name: name.to_string(),
        data_type,
        custom_type_name: vec![],
        options: options.into_iter().map(|option| SqlColumnOptionDef { name: None, option }).collect(),
    }
}

fn strings(v: Vec<&str>) -> Vec<String> {
    v.iter().map(|s| s.to_string()).collect()
}

fn blog() -> Vec<SqlStatement> {
    vec![
        SqlStatement::CreateTable {
            name: "Users".to_string(),
            columns: vec![
                column("Id", SqlDataType::Int, vec![SqlColumnOption::Unique { is_primary: true }]),
                column("Email", SqlDataType::Varchar, vec![SqlColumnOption::NotNull, SqlColumnOption::Unique { is_primary: false }]),
            ],
            constraints: vec![],
        },
        SqlStatement::CreateTable {
            name: "Posts".to_string(),
            columns: vec![
                column("Title", SqlDataType::Text, vec![]),
                column("AuthorId", SqlDataType::Int, vec![]),
            ],
            constraints: vec![SqlTableConstraint::ForeignKey {
                columns: strings(vec!["AuthorId"]),
                foreign_table: strings(vec!["Users"]),
                referred_columns: strings(vec!["ID"]),
            }],
        },
        SqlStatement::CreateIndex {
            name: None,
            table_name: strings(vec!["Posts"]),
            columns: strings(vec!["Title"]),
            unique: false,
        },
    ]
}

#[test]
fn field_types() {
    assert!(matches!(detect_field_type(&column("a", SqlDataType::BigInt, vec![])), Some(SurrealdbFieldType::Number)));
    assert!(matches!(detect_field_type(&column("a", SqlDataType::Json, vec![])), Some(SurrealdbFieldType::Object)));
    assert!(matches!(detect_field_type(&column("a", SqlDataType::Interval, vec![])), Some(SurrealdbFieldType::Duration)));
    assert!(detect_field_type(&column("a", SqlDataType::Other, vec![])).is_none());
    let bit = SqlColumnDef { custom_type_name: strings(vec!["BIT"]), ..column("a", SqlDataType::Custom, vec![]) };
    assert!(matches!(detect_field_type(&bit), Some(SurrealdbFieldType::Boolean)));
    let money = SqlColumnDef { custom_type_name: strings(vec!["MONEY"]), ..column("a", SqlDataType::Custom, vec![]) };
    assert!(detect_field_type(&money).is_none());
}

#[test]
fn schema_with_casing_preserved() {
    let schema = convert_ast_to_surrealdb_schema(blog(), true);
    assert_eq!(schema.tables.len(), 2);
    let (name, lines) = &schema.tables[1];
    assert_eq!(name, "Posts");
    assert_eq!(lines.len(), 3);
    match &lines[1] {
        SurrealdbSchemaLineDefinition::Field(f) => {
            assert_eq!(f.name, "AuthorId");
            assert!(matches!(&f.type_, Some(SurrealdbFieldType::Record(t)) if t == &strings(vec!["Users"])));
        },
        _ => panic!("field expected"),
    }
    match &lines[2] {
        SurrealdbSchemaLineDefinition::Index(i) => {
            assert_eq!(i.name, "Posts_Title_index");
            assert!(!i.unique);
        },
        _ => panic!("index expected"),
    }
}

#[test]
fn schema_files_in_snake_case() {
    let files = schema_files(blog(), false).unwrap();
    assert_eq!(files.len(), 2);
    assert_eq!(files[0].0, "users");
    assert_eq!(
        files[0].1,
        "DEFINE TABLE users SCHEMALESS;\n\nDEFINE FIELD id ON users TYPE number;\nDEFINE FIELD email ON users TYPE string ASSERT $value != NONE;\nDEFINE INDEX users_email_index ON users COLUMNS email UNIQUE;\n"
    );
    assert_eq!(files[1].0, "posts");
    assert_eq!(
        files[1].1,
        "DEFINE TABLE posts SCHEMALESS;\n\nDEFINE FIELD title ON posts TYPE string;\nDEFINE FIELD author_id ON posts TYPE record(users);\nDEFINE INDEX posts_title_index ON posts COLUMNS title;\n"
    );
}

#[test]
fn schema_errors() {
    assert!(matches!(schema_files(vec![SqlStatement::Other], false), Err(ScaffoldError::NoTableFound)));
    let reserved = vec![SqlStatement::CreateTable { name: "script_migration".to_string(), columns: vec![], constraints: vec![] }];
    assert!(matches!(schema_files(reserved, true), Err(ScaffoldError::ReservedTableName)));
}

#[test]
fn create_table_replaces_an_earlier_definition() {
    let statements = vec![
        SqlStatement::CreateIndex { name: Some(strings(vec!["idx"])), table_name: strings(vec!["t"]), columns: strings(vec!["a", "b"]), unique: true },
        SqlStatement::CreateTable { name: "t".to_string(), columns: vec![column("a", SqlDataType::Int, vec![])], constraints: vec![] },
        SqlStatement::CreateIndex { name: None, table_name: strings(vec!["t"]), columns: strings(vec!["a", "b"]), unique: true },
    ];
    let files = schema_files(statements, true).unwrap();
    assert_eq!(files.len(), 1);
    assert_eq!(
        files[0].1,
        "DEFINE TABLE t SCHEMALESS;\n\nDEFINE FIELD a ON t TYPE number;\nDEFINE INDEX t_a_b_index ON t COLUMNS a, b UNIQUE;\n"
    );
}

#[test]
fn sql_schema_text_is_parsed() {
    let ast = parse_sql_schema(
        ScaffoldSchemaDbType::PostgreSql,
        "CREATE TABLE Users (Id INT PRIMARY KEY, Email VARCHAR(255) NOT NULL UNIQUE, Active BIT);\nCREATE INDEX users_email ON Users (Email);",
    )
    .unwrap();
    assert_eq!(ast.len(), 2);
    match &ast[0] {
        SqlStatement::CreateTable { name, columns, .. } => {
            assert_eq!(name, "Users");
            assert_eq!(columns.len(), 3);
            assert_eq!(columns[0].data_type, SqlDataType::Int);
            assert!(matches!(columns[0].options[0].option, SqlColumnOption::Unique { is_primary: true }));
            assert_eq!(columns[1].data_type, SqlDataType::Varchar);
            assert!(matches!(columns[1].options[0].option, SqlColumnOption::NotNull));
            assert_eq!(columns[2].data_type, SqlDataType::Custom);
            assert_eq!(columns[2].custom_type_name, vec!["BIT".to_string()]);
        }
        _ => panic!("a table was expected"),
    }
    match &ast[1] {
        SqlStatement::CreateIndex { name, table_name, columns, unique } => {
            assert_eq!(name, &Some(vec!["users_email".to_string()]));
            assert_eq!(table_name, &vec!["Users".to_string()]);
            assert_eq!(columns, &vec!["Email".to_string()]);
            assert!(!unique);
        }
        _ => panic!("an index was expected"),
    }
    assert!(matches!(parse_sql_schema(ScaffoldSchemaDbType::MySql, "CREATE TABL x"), Err(SqlSchemaError::Unparsable)));
    assert!(matches!(
        parse_sql_schema(ScaffoldSchemaDbType::PostgreSql, "CREATE INDEX i ON t (lower(a));"),
        Err(SqlSchemaError::UnsupportedIndexColumn)
    ));
}
