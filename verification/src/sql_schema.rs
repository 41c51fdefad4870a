use sqlparser::ast::{ColumnOption, DataType, Expr, Statement, TableConstraint};
use sqlparser::dialect::dialect_from_str;
use sqlparser::parser::Parser;
use vstd::prelude::*;

use crate::cli::ScaffoldSchemaDbType;
use crate::schema_import::{SqlColumnDef, SqlColumnOption, SqlColumnOptionDef, SqlDataType, SqlStatement, SqlTableConstraint};
use crate::statements::views;

verus! {

/// What the import reads of a column option: its constraint name and what
/// it says.
pub struct SqlColumnOptionView {
    pub name: Option<Seq<char>>,
    pub option: SqlColumnOption,
}

/// What the import reads of a column.
pub struct SqlColumnView {
    pub name: Seq<char>,
    pub data_type: SqlDataType,
    pub custom_type_name: Seq<Seq<char>>,
    pub options: Seq<SqlColumnOptionView>,
}

/// What the import reads of a table constraint.
pub enum SqlTableConstraintView {
    ForeignKey(Seq<Seq<char>>, Seq<Seq<char>>, Seq<Seq<char>>),
    Other,
}

/// What the import reads of a parsed SQL statement. The columns of an index
/// are their identifiers, or nothing for an expression that is not a plain
/// identifier.
pub enum SqlStatementView {
    CreateTable(Seq<char>, Seq<SqlColumnView>, Seq<SqlTableConstraintView>),
    CreateIndex(Option<Seq<Seq<char>>>, Seq<Seq<char>>, Seq<Option<Seq<char>>>, bool),
    Other,
}

/// The statements that `sqlparser::parser::Parser::parse_sql` reads from
/// `schema` in the dialect that `sqlparser::dialect::dialect_from_str` gives
/// for `dialect`, as the import reads them; nothing when that dialect is
/// unknown or the text does not parse.
pub uninterp spec fn parsed_sql_schema(dialect: Seq<char>, schema: Seq<char>) -> Option<Seq<SqlStatementView>>;

/// The view of an optional list of identifiers.
pub open spec fn opt_views(n: Option<Vec<String>>) -> Option<Seq<Seq<char>>> {
    match n {
        Some(v) => Some(views(v@)),
        None => None,
    }
}

/// The view of an optional text.
pub open spec fn opt_text(n: Option<String>) -> Option<Seq<char>> {
    match n {
        Some(v) => Some(v@),
        None => None,
    }
}

pub open spec fn option_view(o: SqlColumnOptionDef) -> SqlColumnOptionView {
    SqlColumnOptionView { name: opt_text(o.name), option: o.option }
}

pub open spec fn column_view(c: SqlColumnDef) -> SqlColumnView {
    SqlColumnView {
        name: c.name@,
        data_type: c.data_type,
        custom_type_name: views(c.custom_type_name@),
        options: c.options@.map_values(o_view_fn()),
    }
}

pub open spec fn constraint_view(c: SqlTableConstraint) -> SqlTableConstraintView {
    match c {
        SqlTableConstraint::ForeignKey { columns, foreign_table, referred_columns } =>
            SqlTableConstraintView::ForeignKey(views(columns@), views(foreign_table@), views(referred_columns@)),
        SqlTableConstraint::Other => SqlTableConstraintView::Other,
    }
}

/// The view of a statement of the library's model: every index column is an
/// identifier.
pub open spec fn statement_view(s: SqlStatement) -> SqlStatementView {
    match s {
        SqlStatement::CreateTable { name, columns, constraints } => SqlStatementView::CreateTable(
            name@,
            columns@.map_values(column_view_fn()),
            constraints@.map_values(constraint_view_fn()),
        ),
        SqlStatement::CreateIndex { name, table_name, columns, unique } => SqlStatementView::CreateIndex(
            opt_views(name),
            views(table_name@),
            columns@.map_values(index_column_fn()),
            unique,
        ),
        SqlStatement::Other => SqlStatementView::Other,
    }
}

pub open spec fn o_view_fn() -> spec_fn(SqlColumnOptionDef) -> SqlColumnOptionView {
    |o: SqlColumnOptionDef| option_view(o)
}

pub open spec fn column_view_fn() -> spec_fn(SqlColumnDef) -> SqlColumnView {
    |c: SqlColumnDef| column_view(c)
}

pub open spec fn constraint_view_fn() -> spec_fn(SqlTableConstraint) -> SqlTableConstraintView {
    |c: SqlTableConstraint| constraint_view(c)
}

/// An index column of the library's model, as the parse reads it.
pub open spec fn index_column_fn() -> spec_fn(String) -> Option<Seq<char>> {
    |c: String| Some(c@)
}

pub open spec fn statement_view_fn() -> spec_fn(SqlStatement) -> SqlStatementView {
    |s: SqlStatement| statement_view(s)
}

/// Pushing the view of the next element extends the prefix of `t` by one.
proof fn lemma_map_push<A, B>(before: Seq<A>, x: A, f: spec_fn(A) -> B, t: Seq<B>, k: int)
    requires
        before.map_values(f) == t.take(k),
        0 <= k < t.len(),
        f(x) == t[k],
    ensures
        before.push(x).map_values(f) == t.take(k + 1),
{
    assert(before.map_values(f).len() == before.len());
    assert(before.push(x).map_values(f) =~= t.take(k + 1)) by {
        assert forall|m: int| 0 <= m < k + 1 implies before.push(x).map_values(f)[m] == #[trigger] t.take(k + 1)[m] by {
            if m < k {
                assert(before.push(x)[m] == before[m]);
                assert(before.map_values(f)[m] == t.take(k)[m]);
            }
        }
    }
}

/// The views of statements.
pub open spec fn statements_view(s: Seq<SqlStatement>) -> Seq<SqlStatementView> {
    s.map_values(statement_view_fn())
}

/// Some index of the parsed statements has a column that is not a plain
/// identifier.
pub open spec fn has_unsupported_index_column(v: Seq<SqlStatementView>) -> bool {
    exists|i: int, k: int| #[trigger] parsed_index_column(Some(v), i, k) == Some(None::<Seq<char>>)
}

/// The name that `dialect_from_str` knows for the dialect of a database.
pub open spec fn dialect_name(db_type: ScaffoldSchemaDbType) -> Seq<char> {
    match db_type {
        ScaffoldSchemaDbType::BigQuery => "bigquery"@,
        ScaffoldSchemaDbType::ClickHouse => "clickhouse"@,
        ScaffoldSchemaDbType::Hive => "hive"@,
        ScaffoldSchemaDbType::MsSql => "mssql"@,
        ScaffoldSchemaDbType::MySql => "mysql"@,
        ScaffoldSchemaDbType::PostgreSql => "postgresql"@,
        ScaffoldSchemaDbType::Redshift => "redshift"@,
        ScaffoldSchemaDbType::SQLite => "sqlite"@,
        ScaffoldSchemaDbType::Snowflake => "snowflake"@,
    }
}

/// The dialect name of a database (see `dialect_name`).
pub fn sql_dialect_name(db_type: ScaffoldSchemaDbType) -> (r: &'static str)
    ensures
        r@ == dialect_name(db_type),
{
    match db_type {
        ScaffoldSchemaDbType::BigQuery => "bigquery",
        ScaffoldSchemaDbType::ClickHouse => "clickhouse",
        ScaffoldSchemaDbType::Hive => "hive",
        ScaffoldSchemaDbType::MsSql => "mssql",
        ScaffoldSchemaDbType::MySql => "mysql",
        ScaffoldSchemaDbType::PostgreSql => "postgresql",
        ScaffoldSchemaDbType::Redshift => "redshift",
        ScaffoldSchemaDbType::SQLite => "sqlite",
        ScaffoldSchemaDbType::Snowflake => "snowflake",
    }
}

} // verus!

verus! {

/// The kind of a parsed statement, with what the import reads of it besides
/// its lists.
#[allow(inconsistent_fields)]
pub enum SqlStatementShape {
    CreateTable { name: String },
    CreateIndex { name: Option<Vec<String>>, table_name: Vec<String>, unique: bool },
    Other,
}

/// The shape agrees with the parsed statement.
pub open spec fn shape_matches(x: SqlStatementShape, v: SqlStatementView) -> bool {
    match (x, v) {
        (SqlStatementShape::CreateTable { name }, SqlStatementView::CreateTable(n, _, _)) => name@ == n,
        (SqlStatementShape::CreateIndex { name, table_name, unique }, SqlStatementView::CreateIndex(n, t, _, u)) =>
            opt_views(name) == n && views(table_name@) == t && unique == u,
        (SqlStatementShape::Other, SqlStatementView::Other) => true,
        _ => false,
    }
}

/// The `i`-th parsed statement, if the text parses and has one.
pub open spec fn parsed_statement(p: Option<Seq<SqlStatementView>>, i: int) -> Option<SqlStatementView> {
    match p {
        Some(v) => if 0 <= i < v.len() { Some(v[i]) } else { None },
        None => None,
    }
}

/// The `j`-th column of the `i`-th parsed statement, a `CREATE TABLE`.
pub open spec fn parsed_column(p: Option<Seq<SqlStatementView>>, i: int, j: int) -> Option<SqlColumnView> {
    match parsed_statement(p, i) {
        Some(SqlStatementView::CreateTable(_, cols, _)) => if 0 <= j < cols.len() { Some(cols[j]) } else { None },
        _ => None,
    }
}

/// The `k`-th option of that column.
pub open spec fn parsed_option(p: Option<Seq<SqlStatementView>>, i: int, j: int, k: int) -> Option<SqlColumnOptionView> {
    match parsed_column(p, i, j) {
        Some(c) => if 0 <= k < c.options.len() { Some(c.options[k]) } else { None },
        None => None,
    }
}

/// The `k`-th table constraint of the `i`-th parsed statement.
pub open spec fn parsed_constraint(p: Option<Seq<SqlStatementView>>, i: int, k: int) -> Option<SqlTableConstraintView> {
    match parsed_statement(p, i) {
        Some(SqlStatementView::CreateTable(_, _, cons)) => if 0 <= k < cons.len() { Some(cons[k]) } else { None },
        _ => None,
    }
}

/// The `k`-th column of the `i`-th parsed statement, a `CREATE INDEX`.
pub open spec fn parsed_index_column(p: Option<Seq<SqlStatementView>>, i: int, k: int) -> Option<Option<Seq<char>>> {
    match parsed_statement(p, i) {
        Some(SqlStatementView::CreateIndex(_, _, cols, _)) => if 0 <= k < cols.len() { Some(cols[k]) } else { None },
        _ => None,
    }
}

/// Which of the wrappers that read a column type reads `t`.
pub open spec fn type_group(t: SqlDataType) -> int {
    match t {
        SqlDataType::TinyInt | SqlDataType::UnsignedTinyInt | SqlDataType::SmallInt | SqlDataType::UnsignedSmallInt
        | SqlDataType::Int | SqlDataType::UnsignedInt | SqlDataType::Integer | SqlDataType::UnsignedInteger
        | SqlDataType::MediumInt => 0,
        SqlDataType::UnsignedMediumInt | SqlDataType::BigInt | SqlDataType::UnsignedBigInt | SqlDataType::Real
        | SqlDataType::Double | SqlDataType::DoublePrecision | SqlDataType::Dec | SqlDataType::Decimal
        | SqlDataType::BigDecimal => 1,
        SqlDataType::Float | SqlDataType::Numeric | SqlDataType::BigNumeric | SqlDataType::Char
        | SqlDataType::CharVarying | SqlDataType::Character | SqlDataType::CharacterVarying | SqlDataType::Varchar
        | SqlDataType::Nvarchar => 2,
        SqlDataType::Text | SqlDataType::Boolean | SqlDataType::Date | SqlDataType::Time | SqlDataType::Datetime
        | SqlDataType::Timestamp | SqlDataType::Interval | SqlDataType::Json | SqlDataType::Array => 3,
        SqlDataType::Custom | SqlDataType::Other => 4,
    }
}

/// Whether the schema parses, with `Parser::parse_sql` in the dialect that
/// `dialect_from_str` gives.
///
/// Trusted: the result tells whether the named parse result exists.
#[verifier::external_body]
fn sql_schema_parses(dialect: &str, schema: &str) -> (r: bool)
    ensures
        r == parsed_sql_schema(dialect@, schema@) is Some,
{
    match dialect_from_str(dialect) {
        Some(d) => Parser::parse_sql(d.as_ref(), schema).is_ok(),
        None => false,
    }
}

/// The `i`-th statement that `Parser::parse_sql` reads, without its lists.
///
/// Trusted: the result is the kind, name (`ObjectName` displayed), index and
/// table identifiers and uniqueness of the named parse result's `i`-th
/// statement; nothing past the last one or when the text does not parse.
#[verifier::external_body]
fn sql_statement_shape(dialect: &str, schema: &str, i: usize) -> (r: Option<SqlStatementShape>)
    ensures
        match parsed_statement(parsed_sql_schema(dialect@, schema@), i as int) {
            Some(v) => r matches Some(x) && shape_matches(x, v),
            None => r is None,
        },
        r is Some ==> i < usize::MAX,
{
    let ast = Parser::parse_sql(dialect_from_str(dialect)?.as_ref(), schema).ok()?;
    Some(match ast.get(i)? {
        Statement::CreateTable { name, .. } => SqlStatementShape::CreateTable { name: name.to_string() },
        Statement::CreateIndex { name, table_name, unique, .. } => SqlStatementShape::CreateIndex {
            name: name.as_ref().map(|n| n.0.iter().map(|x| x.value.clone()).collect()),
            table_name: table_name.0.iter().map(|x| x.value.clone()).collect(),
            unique: *unique,
        },
        _ => SqlStatementShape::Other,
    })
}

/// The name of the `j`-th column of the `i`-th parsed `CREATE TABLE`, and
/// the identifiers of its type when that is a custom type.
///
/// Trusted: the result is that column's name and custom type identifiers in
/// the named parse result; nothing past the last column.
#[verifier::external_body]
fn sql_column(dialect: &str, schema: &str, i: usize, j: usize) -> (r: Option<(String, Vec<String>)>)
    ensures
        match parsed_column(parsed_sql_schema(dialect@, schema@), i as int, j as int) {
            Some(c) => r matches Some(x) && x.0@ == c.name && views(x.1@) == c.custom_type_name,
            None => r is None,
        },
        r is Some ==> j < usize::MAX,
{
    let ast = Parser::parse_sql(dialect_from_str(dialect)?.as_ref(), schema).ok()?;
    let columns = match ast.get(i)? { Statement::CreateTable { columns, .. } => columns, _ => return None };
    let column = columns.get(j)?;
    let custom = match &column.data_type {
        DataType::Custom(n, _) => n.0.iter().map(|x| x.value.clone()).collect(),
        _ => Vec::new(),
    };
    Some((column.name.value.clone(), custom))
}

/// The type of that column, when it is one of the first nine integer types.
///
/// Trusted: the result is the column's type in the named parse result when
/// `type_group` puts it first, and nothing otherwise.
#[verifier::external_body]
fn sql_column_type_integer(dialect: &str, schema: &str, i: usize, j: usize) -> (r: Option<SqlDataType>)
    ensures
        match parsed_column(parsed_sql_schema(dialect@, schema@), i as int, j as int) {
            Some(c) => if type_group(c.data_type) == 0 { r == Some(c.data_type) } else { r is None },
            None => r is None,
        },
{
    let ast = Parser::parse_sql(dialect_from_str(dialect)?.as_ref(), schema).ok()?;
    let columns = match ast.get(i)? { Statement::CreateTable { columns, .. } => columns, _ => return None };
    Some(match &columns.get(j)?.data_type {
        DataType::TinyInt(_) => SqlDataType::TinyInt,
        DataType::UnsignedTinyInt(_) => SqlDataType::UnsignedTinyInt,
        DataType::SmallInt(_) => SqlDataType::SmallInt,
        DataType::UnsignedSmallInt(_) => SqlDataType::UnsignedSmallInt,
        DataType::Int(_) => SqlDataType::Int,
        DataType::UnsignedInt(_) => SqlDataType::UnsignedInt,
        DataType::Integer(_) => SqlDataType::Integer,
        DataType::UnsignedInteger(_) => SqlDataType::UnsignedInteger,
        DataType::MediumInt(_) => SqlDataType::MediumInt,
        _ => return None,
    })
}

/// The type of that column, when it is one of the second group of numeric
/// types.
///
/// Trusted: as `sql_column_type_integer`, for the second group.
#[verifier::external_body]
fn sql_column_type_numeric(dialect: &str, schema: &str, i: usize, j: usize) -> (r: Option<SqlDataType>)
    ensures
        match parsed_column(parsed_sql_schema(dialect@, schema@), i as int, j as int) {
            Some(c) => if type_group(c.data_type) == 1 { r == Some(c.data_type) } else { r is None },
            None => r is None,
        },
{
    let ast = Parser::parse_sql(dialect_from_str(dialect)?.as_ref(), schema).ok()?;
    let columns = match ast.get(i)? { Statement::CreateTable { columns, .. } => columns, _ => return None };
    Some(match &columns.get(j)?.data_type {
        DataType::UnsignedMediumInt(_) => SqlDataType::UnsignedMediumInt,
        DataType::BigInt(_) => SqlDataType::BigInt,
        DataType::UnsignedBigInt(_) => SqlDataType::UnsignedBigInt,
        DataType::Real => SqlDataType::Real,
        DataType::Double => SqlDataType::Double,
        DataType::DoublePrecision => SqlDataType::DoublePrecision,
        DataType::Dec(_) => SqlDataType::Dec,
        DataType::Decimal(_) => SqlDataType::Decimal,
        DataType::BigDecimal(_) => SqlDataType::BigDecimal,
        _ => return None,
    })
}

/// The type of that column, when it is in the third group (the last numeric
/// types and the character types).
///
/// Trusted: as `sql_column_type_integer`, for the third group.
#[verifier::external_body]
fn sql_column_type_character(dialect: &str, schema: &str, i: usize, j: usize) -> (r: Option<SqlDataType>)
    ensures
        match parsed_column(parsed_sql_schema(dialect@, schema@), i as int, j as int) {
            Some(c) => if type_group(c.data_type) == 2 { r == Some(c.data_type) } else { r is None },
            None => r is None,
        },
{
    let ast = Parser::parse_sql(dialect_from_str(dialect)?.as_ref(), schema).ok()?;
    let columns = match ast.get(i)? { Statement::CreateTable { columns, .. } => columns, _ => return None };
    Some(match &columns.get(j)?.data_type {
        DataType::Float(_) => SqlDataType::Float,
        DataType::Numeric(_) => SqlDataType::Numeric,
        DataType::BigNumeric(_) => SqlDataType::BigNumeric,
        DataType::Char(_) => SqlDataType::Char,
        DataType::CharVarying(_) => SqlDataType::CharVarying,
        DataType::Character(_) => SqlDataType::Character,
        DataType::CharacterVarying(_) => SqlDataType::CharacterVarying,
        DataType::Varchar(_) => SqlDataType::Varchar,
        DataType::Nvarchar(_) => SqlDataType::Nvarchar,
        _ => return None,
    })
}

/// The type of that column, when it is in the fourth group (text, boolean,
/// time, JSON and array types).
///
/// Trusted: as `sql_column_type_integer`, for the fourth group.
#[verifier::external_body]
fn sql_column_type_other_known(dialect: &str, schema: &str, i: usize, j: usize) -> (r: Option<SqlDataType>)
    ensures
        match parsed_column(parsed_sql_schema(dialect@, schema@), i as int, j as int) {
            Some(c) => if type_group(c.data_type) == 3 { r == Some(c.data_type) } else { r is None },
            None => r is None,
        },
{
    let ast = Parser::parse_sql(dialect_from_str(dialect)?.as_ref(), schema).ok()?;
    let columns = match ast.get(i)? { Statement::CreateTable { columns, .. } => columns, _ => return None };
    Some(match &columns.get(j)?.data_type {
        DataType::Text => SqlDataType::Text,
        DataType::Boolean => SqlDataType::Boolean,
        DataType::Date => SqlDataType::Date,
        DataType::Time(..) => SqlDataType::Time,
        DataType::Datetime(_) => SqlDataType::Datetime,
        DataType::Timestamp(..) => SqlDataType::Timestamp,
        DataType::Interval => SqlDataType::Interval,
        DataType::JSON => SqlDataType::Json,
        DataType::Array(_) => SqlDataType::Array,
        _ => return None,
    })
}

/// The type of that column as the last group reads it: `Custom` for a
/// custom type, `Other` for any type no group names.
///
/// Trusted: when `type_group` puts the column's type last, the result is
/// that type; it is something whenever the column exists.
#[verifier::external_body]
fn sql_column_type_rest(dialect: &str, schema: &str, i: usize, j: usize) -> (r: Option<SqlDataType>)
    ensures
        match parsed_column(parsed_sql_schema(dialect@, schema@), i as int, j as int) {
            Some(c) => r is Some && (type_group(c.data_type) == 4 ==> r == Some(c.data_type)),
            None => r is None,
        },
{
    let ast = Parser::parse_sql(dialect_from_str(dialect)?.as_ref(), schema).ok()?;
    let columns = match ast.get(i)? { Statement::CreateTable { columns, .. } => columns, _ => return None };
    Some(match &columns.get(j)?.data_type {
        DataType::Custom(..) => SqlDataType::Custom,
        _ => SqlDataType::Other,
    })
}

/// The `k`-th option of that column.
///
/// Trusted: the result is the option's constraint name and what it says in
/// the named parse result; nothing past the last option.
#[verifier::external_body]
fn sql_column_option(dialect: &str, schema: &str, i: usize, j: usize, k: usize) -> (r: Option<SqlColumnOptionDef>)
    ensures
        match parsed_option(parsed_sql_schema(dialect@, schema@), i as int, j as int, k as int) {
            Some(o) => r matches Some(x) && option_view(x) == o,
            None => r is None,
        },
        r is Some ==> k < usize::MAX,
{
    let ast = Parser::parse_sql(dialect_from_str(dialect)?.as_ref(), schema).ok()?;
    let columns = match ast.get(i)? { Statement::CreateTable { columns, .. } => columns, _ => return None };
    let option = columns.get(j)?.options.get(k)?;
    let kind = match option.option {
        ColumnOption::NotNull => SqlColumnOption::NotNull,
        ColumnOption::Unique { is_primary } => SqlColumnOption::Unique { is_primary },
        _ => SqlColumnOption::Other,
    };
    Some(SqlColumnOptionDef { name: option.name.as_ref().map(|n| n.value.clone()), option: kind })
}

/// The `k`-th table constraint of the `i`-th parsed `CREATE TABLE`.
///
/// Trusted: the result is that constraint in the named parse result;
/// nothing past the last constraint.
#[verifier::external_body]
fn sql_table_constraint(dialect: &str, schema: &str, i: usize, k: usize) -> (r: Option<SqlTableConstraint>)
    ensures
        match parsed_constraint(parsed_sql_schema(dialect@, schema@), i as int, k as int) {
            Some(c) => r matches Some(x) && constraint_view(x) == c,
            None => r is None,
        },
        r is Some ==> k < usize::MAX,
{
    let ast = Parser::parse_sql(dialect_from_str(dialect)?.as_ref(), schema).ok()?;
    let constraints = match ast.get(i)? { Statement::CreateTable { constraints, .. } => constraints, _ => return None };
    Some(match constraints.get(k)? {
        TableConstraint::ForeignKey { columns, foreign_table, referred_columns, .. } => SqlTableConstraint::ForeignKey {
            columns: columns.iter().map(|x| x.value.clone()).collect(),
            foreign_table: foreign_table.0.iter().map(|x| x.value.clone()).collect(),
            referred_columns: referred_columns.iter().map(|x| x.value.clone()).collect(),
        },
        _ => SqlTableConstraint::Other,
    })
}

/// The `k`-th column of the `i`-th parsed `CREATE INDEX`: its identifier, or
/// nothing when it is another expression.
///
/// Trusted: the result is that column in the named parse result; nothing
/// past the last column.
#[verifier::external_body]
fn sql_index_column(dialect: &str, schema: &str, i: usize, k: usize) -> (r: Option<Option<String>>)
    ensures
        match parsed_index_column(parsed_sql_schema(dialect@, schema@), i as int, k as int) {
            Some(c) => r matches Some(x) && opt_text(x) == c,
            None => r is None,
        },
        r is Some ==> k < usize::MAX,
{
    let ast = Parser::parse_sql(dialect_from_str(dialect)?.as_ref(), schema).ok()?;
    let columns = match ast.get(i)? { Statement::CreateIndex { columns, .. } => columns, _ => return None };
    Some(match &columns.get(k)?.expr {
        Expr::Identifier(ident) => Some(ident.value.clone()),
        _ => None,
    })
}

} // verus!

verus! {

/// Why an SQL schema cannot be read.
#[derive(PartialEq, Eq, Structural, Clone, Copy, Debug)]
pub enum SqlSchemaError {
    /// The text does not parse.
    Unparsable,
    /// An index has a column that is not a plain identifier.
    UnsupportedIndexColumn,
}

/// The type of the `j`-th column of the `i`-th parsed statement.
fn read_column_type(d: &str, s: &str, i: usize, j: usize) -> (r: SqlDataType)
    requires
        parsed_column(parsed_sql_schema(d@, s@), i as int, j as int) is Some,
    ensures
        parsed_column(parsed_sql_schema(d@, s@), i as int, j as int) matches Some(c) && r == c.data_type,
{
    if let Some(t) = sql_column_type_integer(d, s, i, j) {
        return t;
    }
    if let Some(t) = sql_column_type_numeric(d, s, i, j) {
        return t;
    }
    if let Some(t) = sql_column_type_character(d, s, i, j) {
        return t;
    }
    if let Some(t) = sql_column_type_other_known(d, s, i, j) {
        return t;
    }
    match sql_column_type_rest(d, s, i, j) {
        Some(t) => t,
        None => SqlDataType::Other,
    }
}

/// The `j`-th column of the `i`-th parsed statement, when there is one.
fn read_column(d: &str, s: &str, i: usize, j: usize) -> (r: Option<SqlColumnDef>)
    ensures
        match parsed_column(parsed_sql_schema(d@, s@), i as int, j as int) {
            Some(c) => r matches Some(x) && column_view(x) == c,
            None => r is None,
        },
        r is Some ==> j < usize::MAX,
{
    let (name, custom_type_name) = match sql_column(d, s, i, j) {
        Some(x) => x,
        None => return None,
    };
    let data_type = read_column_type(d, s, i, j);
    let ghost c = parsed_column(parsed_sql_schema(d@, s@), i as int, j as int)->Some_0;
    let mut options: Vec<SqlColumnOptionDef> = Vec::new();
    let mut k: usize = 0;
    loop
        invariant
            parsed_column(parsed_sql_schema(d@, s@), i as int, j as int) == Some(c),
            k <= c.options.len(),
            options@.map_values(o_view_fn()) == c.options.take(k as int),
        ensures
            options@.map_values(o_view_fn()) == c.options,
        decreases c.options.len() - k,
    {
        match sql_column_option(d, s, i, j, k) {
            None => {
                assert(c.options.take(k as int) =~= c.options);
                break;
            },
            Some(o) => {
                let ghost before = options@;
                options.push(o);
                proof {
                    lemma_map_push(before, options@.last(), o_view_fn(), c.options, k as int);
                }
                k = k + 1;
            },
        }
    }
    let x = SqlColumnDef { name, data_type, custom_type_name, options };
    assert(column_view(x) =~= c);
    Some(x)
}

/// The `i`-th parsed statement, a `CREATE TABLE` named `name`.
fn read_table(d: &str, s: &str, i: usize, name: String) -> (r: SqlStatement)
    requires
        parsed_statement(parsed_sql_schema(d@, s@), i as int) matches Some(SqlStatementView::CreateTable(n, _, _))
            && n == name@,
    ensures
        parsed_statement(parsed_sql_schema(d@, s@), i as int) == Some(statement_view(r)),
{
    let ghost v = parsed_statement(parsed_sql_schema(d@, s@), i as int)->Some_0;
    let ghost cs = match v { SqlStatementView::CreateTable(_, cs, _) => cs, _ => Seq::empty() };
    let ghost cons = match v { SqlStatementView::CreateTable(_, _, cons) => cons, _ => Seq::empty() };
    let mut columns: Vec<SqlColumnDef> = Vec::new();
    let mut j: usize = 0;
    loop
        invariant
            parsed_statement(parsed_sql_schema(d@, s@), i as int) == Some(v),
            v == SqlStatementView::CreateTable(name@, cs, cons),
            j <= cs.len(),
            columns@.map_values(column_view_fn()) == cs.take(j as int),
        ensures
            columns@.map_values(column_view_fn()) == cs,
        decreases cs.len() - j,
    {
        match read_column(d, s, i, j) {
            None => {
                assert(cs.take(j as int) =~= cs);
                break;
            },
            Some(c) => {
                let ghost before = columns@;
                columns.push(c);
                proof {
                    lemma_map_push(before, columns@.last(), column_view_fn(), cs, j as int);
                }
                j = j + 1;
            },
        }
    }
    let mut constraints: Vec<SqlTableConstraint> = Vec::new();
    let mut k: usize = 0;
    loop
        invariant
            parsed_statement(parsed_sql_schema(d@, s@), i as int) == Some(v),
            v == SqlStatementView::CreateTable(name@, cs, cons),
            k <= cons.len(),
            constraints@.map_values(constraint_view_fn()) == cons.take(k as int),
        ensures
            constraints@.map_values(constraint_view_fn()) == cons,
        decreases cons.len() - k,
    {
        match sql_table_constraint(d, s, i, k) {
            None => {
                assert(cons.take(k as int) =~= cons);
                break;
            },
            Some(c) => {
                let ghost before = constraints@;
                constraints.push(c);
                proof {
                    lemma_map_push(before, constraints@.last(), constraint_view_fn(), cons, k as int);
                }
                k = k + 1;
            },
        }
    }
    let r = SqlStatement::CreateTable { name, columns, constraints };
    assert(statement_view(r) =~= v);
    r
}

/// The `i`-th parsed statement, a `CREATE INDEX`; an error when one of its
/// columns is not a plain identifier.
fn read_index(d: &str, s: &str, i: usize, name: Option<Vec<String>>, table_name: Vec<String>, unique: bool)
    -> (r: Result<SqlStatement, SqlSchemaError>)
    requires
        parsed_statement(parsed_sql_schema(d@, s@), i as int) matches Some(SqlStatementView::CreateIndex(n, t, _, u))
            && n == opt_views(name) && t == views(table_name@) && u == unique,
    ensures
        match r {
            Ok(x) => parsed_statement(parsed_sql_schema(d@, s@), i as int) == Some(statement_view(x)),
            Err(e) => e == SqlSchemaError::UnsupportedIndexColumn
                && exists|k: int| #[trigger] parsed_index_column(parsed_sql_schema(d@, s@), i as int, k) == Some(None::<Seq<char>>),
        },
{
    let ghost v = parsed_statement(parsed_sql_schema(d@, s@), i as int)->Some_0;
    let ghost cols = match v { SqlStatementView::CreateIndex(_, _, cols, _) => cols, _ => Seq::empty() };
    let mut columns: Vec<String> = Vec::new();
    let mut k: usize = 0;
    loop
        invariant
            parsed_statement(parsed_sql_schema(d@, s@), i as int) == Some(v),
            v == SqlStatementView::CreateIndex(opt_views(name), views(table_name@), cols, unique),
            k <= cols.len(),
            columns@.map_values(index_column_fn()) == cols.take(k as int),
        ensures
            columns@.map_values(index_column_fn()) == cols,
        decreases cols.len() - k,
    {
        match sql_index_column(d, s, i, k) {
            None => {
                assert(cols.take(k as int) =~= cols);
                break;
            },
            Some(None) => {
                assert(parsed_index_column(parsed_sql_schema(d@, s@), i as int, k as int) == Some(None::<Seq<char>>));
                return Err(SqlSchemaError::UnsupportedIndexColumn);
            },
            Some(Some(c)) => {
                let ghost before = columns@;
                columns.push(c);
                proof {
                    lemma_map_push(before, columns@.last(), index_column_fn(), cols, k as int);
                }
                k = k + 1;
            },
        }
    }
    let r = SqlStatement::CreateIndex { name, table_name, columns, unique };
    assert(statement_view(r) =~= v);
    Ok(r)
}

/// Parses an SQL schema in the dialect of `db_type` and reads what the
/// import needs of it (see `parsed_sql_schema`): an error when the text does
/// not parse or when an index column is not a plain identifier.
pub fn parse_sql_schema(db_type: ScaffoldSchemaDbType, schema: &str) -> (r: Result<Vec<SqlStatement>, SqlSchemaError>)
    ensures
        match parsed_sql_schema(dialect_name(db_type), schema@) {
            None => r == Err::<Vec<SqlStatement>, SqlSchemaError>(SqlSchemaError::Unparsable),
            Some(v) => if has_unsupported_index_column(v) {
                r == Err::<Vec<SqlStatement>, SqlSchemaError>(SqlSchemaError::UnsupportedIndexColumn)
            } else {
                r matches Ok(ast) && statements_view(ast@) == v
            },
        },
{
    let d = sql_dialect_name(db_type);
    if !sql_schema_parses(d, schema) {
        return Err(SqlSchemaError::Unparsable);
    }
    let ghost p = parsed_sql_schema(d@, schema@);
    let ghost v = p->Some_0;
    let mut out: Vec<SqlStatement> = Vec::new();
    let mut i: usize = 0;
    loop
        invariant
            p == parsed_sql_schema(d@, schema@),
            p == Some(v),
            d@ == dialect_name(db_type),
            i <= v.len(),
            out@.map_values(statement_view_fn()) == v.take(i as int),
            forall|a: int, k: int| 0 <= a < i ==> #[trigger] parsed_index_column(p, a, k) != Some(None::<Seq<char>>),
        ensures
            out@.map_values(statement_view_fn()) == v,
            forall|a: int, k: int| 0 <= a < v.len() ==> #[trigger] parsed_index_column(p, a, k) != Some(None::<Seq<char>>),
        decreases v.len() - i,
    {
        let statement = match sql_statement_shape(d, schema, i) {
            None => {
                assert(v.take(i as int) =~= v);
                break;
            },
            Some(SqlStatementShape::CreateTable { name }) => read_table(d, schema, i, name),
            Some(SqlStatementShape::CreateIndex { name, table_name, unique }) => {
                match read_index(d, schema, i, name, table_name, unique) {
                    Ok(x) => x,
                    Err(e) => {
                        assert(has_unsupported_index_column(v));
                        return Err(e);
                    },
                }
            },
            Some(SqlStatementShape::Other) => SqlStatement::Other,
        };
        let ghost before = out@;
        out.push(statement);
        proof {
            lemma_map_push(before, out@.last(), statement_view_fn(), v, i as int);
        }
        assert forall|a: int, k: int| 0 <= a < i + 1 implies #[trigger] parsed_index_column(p, a, k) != Some(None::<Seq<char>>) by {
            if a == i {
                if parsed_index_column(p, a, k) == Some(None::<Seq<char>>) {
                    assert(statement_view(statement) == v[a]);
                }
            }
        }
        i = i + 1;
    }
    assert(!has_unsupported_index_column(v));
    Ok(out)
}

} // verus!
