use convert_case::Casing;
use vstd::prelude::*;

use crate::config::{lowercased, to_lowercase};
use crate::constants::SCRIPT_MIGRATION_TABLE_NAME;
use crate::scaffold::ScaffoldError;
use crate::statements::{clone_strings, views};
use crate::strings::str_eq;

verus! {

/// The data type of an SQL column, as far as the import reads it.
#[derive(PartialEq, Eq, Structural, Clone, Copy, Debug)]
pub enum SqlDataType {
    TinyInt,
    UnsignedTinyInt,
    SmallInt,
    UnsignedSmallInt,
    Int,
    UnsignedInt,
    Integer,
    UnsignedInteger,
    MediumInt,
    UnsignedMediumInt,
    BigInt,
    UnsignedBigInt,
    Real,
    Double,
    DoublePrecision,
    Dec,
    Decimal,
    BigDecimal,
    Float,
    Numeric,
    BigNumeric,
    Char,
    CharVarying,
    Character,
    CharacterVarying,
    Varchar,
    Nvarchar,
    Text,
    Boolean,
    Date,
    Time,
    Datetime,
    Timestamp,
    Interval,
    Json,
    Array,
    /// A type named by the schema: `BIT` is the boolean of MSSQL.
    Custom,
    /// A type that has no SurrealDB counterpart.
    Other,
}

/// What a column option says.
pub enum SqlColumnOption {
    NotNull,
    Unique { is_primary: bool },
    Other,
}

/// A column option and its constraint name, if it has one.
pub struct SqlColumnOptionDef {
    pub name: Option<String>,
    pub option: SqlColumnOption,
}

/// An SQL column: its name, its type (with the identifiers that name a
/// custom type) and its options.
pub struct SqlColumnDef {
    pub name: String,
    pub data_type: SqlDataType,
    pub custom_type_name: Vec<String>,
    pub options: Vec<SqlColumnOptionDef>,
}

/// A table constraint, as far as the import reads it.
pub enum SqlTableConstraint {
    /// `FOREIGN KEY (columns) REFERENCES foreign_table (referred_columns)`.
    ForeignKey { columns: Vec<String>, foreign_table: Vec<String>, referred_columns: Vec<String> },
    Other,
}

/// An SQL statement, as far as the import reads it.
#[allow(inconsistent_fields)]
pub enum SqlStatement {
    /// `CREATE TABLE name (columns, constraints)`.
    CreateTable { name: String, columns: Vec<SqlColumnDef>, constraints: Vec<SqlTableConstraint> },
    /// `CREATE [UNIQUE] INDEX [name] ON table_name (columns)`, with the
    /// identifiers of the index and table names and the indexed columns.
    CreateIndex { name: Option<Vec<String>>, table_name: Vec<String>, columns: Vec<String>, unique: bool },
    Other,
}

/// The SurrealDB type of a field.
pub enum SurrealdbFieldType {
    Number,
    String,
    Boolean,
    DateTime,
    Duration,
    Object,
    Array,
    Record(Vec<String>),
}

/// A field of an imported table.
pub struct SurrealdbSchemaFieldDefinition {
    pub name: String,
    pub type_: Option<SurrealdbFieldType>,
    pub not_null: bool,
}

/// An index of an imported table.
pub struct SurrealdbSchemaIndexDefinition {
    pub name: String,
    pub field_names: Vec<String>,
    pub unique: bool,
}

/// One line of an imported table.
pub enum SurrealdbSchemaLineDefinition {
    Field(SurrealdbSchemaFieldDefinition),
    Index(SurrealdbSchemaIndexDefinition),
}

/// The imported tables, each with its lines; no table name occurs twice.
pub struct SurrealdbSchema {
    pub tables: Vec<(String, Vec<SurrealdbSchemaLineDefinition>)>,
}

/// The mathematical view of a field type.
pub enum FieldTypeView {
    Number,
    String,
    Boolean,
    DateTime,
    Duration,
    Object,
    Array,
    Record(Seq<Seq<char>>),
}

/// The mathematical view of a line of an imported table.
pub enum LineView {
    /// Name, type and whether it must be set.
    Field(Seq<char>, Option<FieldTypeView>, bool),
    /// Name, fields and whether it is unique.
    Index(Seq<char>, Seq<Seq<char>>, bool),
}

impl View for SurrealdbFieldType {
    type V = FieldTypeView;

    open spec fn view(&self) -> FieldTypeView {
        match self {
            SurrealdbFieldType::Number => FieldTypeView::Number,
            SurrealdbFieldType::String => FieldTypeView::String,
            SurrealdbFieldType::Boolean => FieldTypeView::Boolean,
            SurrealdbFieldType::DateTime => FieldTypeView::DateTime,
            SurrealdbFieldType::Duration => FieldTypeView::Duration,
            SurrealdbFieldType::Object => FieldTypeView::Object,
            SurrealdbFieldType::Array => FieldTypeView::Array,
            SurrealdbFieldType::Record(t) => FieldTypeView::Record(views(t@)),
        }
    }
}

/// The view of an optional field type.
pub open spec fn type_view(t: Option<SurrealdbFieldType>) -> Option<FieldTypeView> {
    match t {
        Some(x) => Some(x@),
        None => None,
    }
}

impl View for SurrealdbSchemaLineDefinition {
    type V = LineView;

    open spec fn view(&self) -> LineView {
        match self {
            SurrealdbSchemaLineDefinition::Field(f) => LineView::Field(f.name@, type_view(f.type_), f.not_null),
            SurrealdbSchemaLineDefinition::Index(i) => LineView::Index(i.name@, views(i.field_names@), i.unique),
        }
    }
}

/// The views of lines.
pub open spec fn lines_view(lines: Seq<SurrealdbSchemaLineDefinition>) -> Seq<LineView> {
    lines.map_values(|l: SurrealdbSchemaLineDefinition| l@)
}

} // verus!

verus! {

/// What `convert_case`'s snake case gives for `s`.
pub uninterp spec fn snake_cased(s: Seq<char>) -> Seq<char>;

/// `s` in snake case, with `convert_case::Casing::to_case(Case::Snake)`.
///
/// Trusted: the result is the named snake case form of `s`.
#[verifier::external_body]
fn to_snake_case(s: &str) -> (r: String)
    ensures
        r@ == snake_cased(s@),
{
    s.to_case(convert_case::Case::Snake)
}

/// A name as imported: kept, or in snake case.
pub open spec fn cased(s: Seq<char>, preserve_casing: bool) -> Seq<char> {
    if preserve_casing { s } else { snake_cased(s) }
}

fn apply_casing(s: &str, preserve_casing: bool) -> (r: String)
    ensures
        r@ == cased(s@, preserve_casing),
{
    if preserve_casing {
        String::from_str(s)
    } else {
        to_snake_case(s)
    }
}

/// The SurrealDB type of an SQL data type: numbers, strings, booleans
/// (`BIT` too), date and time types, intervals, JSON and arrays; no type for
/// the others.
pub open spec fn spec_detect_field_type(data_type: SqlDataType, custom_type_name: Seq<Seq<char>>) -> Option<FieldTypeView> {
    match data_type {
        SqlDataType::TinyInt | SqlDataType::UnsignedTinyInt | SqlDataType::SmallInt | SqlDataType::UnsignedSmallInt
        | SqlDataType::Int | SqlDataType::UnsignedInt | SqlDataType::Integer | SqlDataType::UnsignedInteger
        | SqlDataType::MediumInt | SqlDataType::UnsignedMediumInt | SqlDataType::BigInt | SqlDataType::UnsignedBigInt
        | SqlDataType::Real | SqlDataType::Double | SqlDataType::DoublePrecision | SqlDataType::Dec
        | SqlDataType::Decimal | SqlDataType::BigDecimal | SqlDataType::Float | SqlDataType::Numeric
        | SqlDataType::BigNumeric => Some(FieldTypeView::Number),
        SqlDataType::Char | SqlDataType::CharVarying | SqlDataType::Character | SqlDataType::CharacterVarying
        | SqlDataType::Varchar | SqlDataType::Nvarchar | SqlDataType::Text => Some(FieldTypeView::String),
        SqlDataType::Boolean => Some(FieldTypeView::Boolean),
        SqlDataType::Date | SqlDataType::Time | SqlDataType::Datetime | SqlDataType::Timestamp => Some(FieldTypeView::DateTime),
        SqlDataType::Interval => Some(FieldTypeView::Duration),
        SqlDataType::Json => Some(FieldTypeView::Object),
        SqlDataType::Array => Some(FieldTypeView::Array),
        SqlDataType::Custom => if custom_type_name.len() > 0 && custom_type_name[0] == "BIT"@ {
            Some(FieldTypeView::Boolean)
        } else {
            None
        },
        SqlDataType::Other => None,
    }
}

/// The SurrealDB type of a column (see `spec_detect_field_type`).
pub fn detect_field_type(column: &SqlColumnDef) -> (r: Option<SurrealdbFieldType>)
    ensures
        type_view(r) == spec_detect_field_type(column.data_type, views(column.custom_type_name@)),
{
    match column.data_type {
        SqlDataType::TinyInt | SqlDataType::UnsignedTinyInt | SqlDataType::SmallInt | SqlDataType::UnsignedSmallInt
        | SqlDataType::Int | SqlDataType::UnsignedInt | SqlDataType::Integer | SqlDataType::UnsignedInteger
        | SqlDataType::MediumInt | SqlDataType::UnsignedMediumInt | SqlDataType::BigInt | SqlDataType::UnsignedBigInt
        | SqlDataType::Real | SqlDataType::Double | SqlDataType::DoublePrecision | SqlDataType::Dec
        | SqlDataType::Decimal | SqlDataType::BigDecimal | SqlDataType::Float | SqlDataType::Numeric
        | SqlDataType::BigNumeric => Some(SurrealdbFieldType::Number),
        SqlDataType::Char | SqlDataType::CharVarying | SqlDataType::Character | SqlDataType::CharacterVarying
        | SqlDataType::Varchar | SqlDataType::Nvarchar | SqlDataType::Text => Some(SurrealdbFieldType::String),
        SqlDataType::Boolean => Some(SurrealdbFieldType::Boolean),
        SqlDataType::Date | SqlDataType::Time | SqlDataType::Datetime | SqlDataType::Timestamp => Some(SurrealdbFieldType::DateTime),
        SqlDataType::Interval => Some(SurrealdbFieldType::Duration),
        SqlDataType::Json => Some(SurrealdbFieldType::Object),
        SqlDataType::Array => Some(SurrealdbFieldType::Array),
        SqlDataType::Custom => {
            if column.custom_type_name.len() > 0 && str_eq(column.custom_type_name[0].as_str(), "BIT") {
                Some(SurrealdbFieldType::Boolean)
            } else {
                None
            }
        },
        SqlDataType::Other => None,
    }
}

/// The table a foreign key on the single column `field_name` refers to,
/// when it refers to a single `id` column (in any case).
pub open spec fn foreign_key_target(c: SqlTableConstraint, field_name: Seq<char>, preserve_casing: bool) -> Option<Seq<char>> {
    match c {
        SqlTableConstraint::ForeignKey { columns, foreign_table, referred_columns } => {
            if columns@.len() != 1 || referred_columns@.len() != 1 {
                None
            } else if field_name != cased(columns@[0]@, preserve_casing) {
                None
            } else if lowercased(referred_columns@[0]@) != "id"@ {
                None
            } else if foreign_table@.len() == 0 {
                None
            } else {
                Some(cased(foreign_table@[0]@, preserve_casing))
            }
        },
        SqlTableConstraint::Other => None,
    }
}

/// The type of a field once the foreign keys on it are read: each one makes
/// the field a record of the tables referred to, in order.
pub open spec fn type_with_foreign_keys(
    detected: Option<FieldTypeView>,
    constraints: Seq<SqlTableConstraint>,
    field_name: Seq<char>,
    preserve_casing: bool,
) -> Option<FieldTypeView>
    decreases constraints.len(),
{
    if constraints.len() == 0 {
        detected
    } else {
        let t = type_with_foreign_keys(detected, constraints.drop_last(), field_name, preserve_casing);
        match foreign_key_target(constraints.last(), field_name, preserve_casing) {
            None => t,
            Some(target) => match t {
                Some(FieldTypeView::Record(tables)) => Some(FieldTypeView::Record(tables.push(target))),
                _ => Some(FieldTypeView::Record(seq![target])),
            },
        }
    }
}

/// Some option of the column is `NOT NULL`.
pub open spec fn is_not_null(options: Seq<SqlColumnOptionDef>) -> bool {
    exists|i: int| 0 <= i < options.len() && #[trigger] options[i].option is NotNull
}

/// The unique indexes that the column options ask for: one per non-primary
/// `UNIQUE`, named by its constraint or after the table and the field.
pub open spec fn unique_index_lines(options: Seq<SqlColumnOptionDef>, table: Seq<char>, field: Seq<char>) -> Seq<LineView>
    decreases options.len(),
{
    if options.len() == 0 {
        Seq::empty()
    } else {
        let rest = unique_index_lines(options.drop_last(), table, field);
        let o = options.last();
        match o.option {
            SqlColumnOption::Unique { is_primary } => if !is_primary {
                let name = match o.name {
                    Some(n) => n@,
                    None => table + "_"@ + field + "_index"@,
                };
                rest.push(LineView::Index(name, seq![field], true))
            } else {
                rest
            },
            _ => rest,
        }
    }
}

/// The lines of a column: its field, then the unique indexes on it.
pub open spec fn column_lines(column: SqlColumnDef, constraints: Seq<SqlTableConstraint>, table: Seq<char>, preserve_casing: bool) -> Seq<LineView> {
    let field = cased(column.name@, preserve_casing);
    seq![LineView::Field(
        field,
        type_with_foreign_keys(spec_detect_field_type(column.data_type, views(column.custom_type_name@)), constraints, field, preserve_casing),
        is_not_null(column.options@),
    )] + unique_index_lines(column.options@, table, field)
}

/// The lines of a table: those of each column, in order.
pub open spec fn table_lines(columns: Seq<SqlColumnDef>, constraints: Seq<SqlTableConstraint>, table: Seq<char>, preserve_casing: bool) -> Seq<LineView>
    decreases columns.len(),
{
    if columns.len() == 0 {
        Seq::empty()
    } else {
        table_lines(columns.drop_last(), constraints, table, preserve_casing)
            + column_lines(columns.last(), constraints, table, preserve_casing)
    }
}

/// The parts joined with `sep`.
pub open spec fn join_with(parts: Seq<Seq<char>>, sep: Seq<char>) -> Seq<char>
    decreases parts.len(),
{
    if parts.len() == 0 {
        Seq::empty()
    } else if parts.len() == 1 {
        parts[0]
    } else {
        join_with(parts.drop_last(), sep) + sep + parts.last()
    }
}

/// The view of the names of `names`, as imported.
pub open spec fn cased_names(names: Seq<Seq<char>>, preserve_casing: bool) -> Seq<Seq<char>> {
    names.map_values(|n: Seq<char>| cased(n, preserve_casing))
}

/// The index line that `CREATE INDEX` asks for: named by its first
/// identifier, or after the table and its fields.
pub open spec fn create_index_line(name: Option<Seq<Seq<char>>>, table: Seq<char>, fields: Seq<Seq<char>>, unique: bool) -> LineView {
    let index_name = match name {
        Some(n) => if n.len() > 0 { n[0] } else { table + "_"@ + join_with(fields, "_"@) + "_index"@ },
        None => table + "_"@ + join_with(fields, "_"@) + "_index"@,
    };
    LineView::Index(index_name, fields, unique)
}

/// The tables that the statements define: `CREATE TABLE` (re)defines a
/// table with its lines; `CREATE INDEX` adds an index line to a table,
/// creating it if needed.
pub open spec fn schema_tables(statements: Seq<SqlStatement>, preserve_casing: bool) -> Map<Seq<char>, Seq<LineView>>
    decreases statements.len(),
{
    if statements.len() == 0 {
        Map::empty()
    } else {
        let m = schema_tables(statements.drop_last(), preserve_casing);
        match statements.last() {
            SqlStatement::CreateTable { name, columns, constraints } => {
                let table = cased(name@, preserve_casing);
                m.insert(table, table_lines(columns@, constraints@, table, preserve_casing))
            },
            SqlStatement::CreateIndex { name, table_name, columns, unique } => {
                if table_name@.len() == 0 {
                    m
                } else {
                    let table = cased(table_name@[0]@, preserve_casing);
                    let fields = cased_names(views(columns@), preserve_casing);
                    let line = create_index_line(
                        match name { Some(n) => Some(views(n@)), None => None },
                        table,
                        fields,
                        unique,
                    );
                    let existing = if m.contains_key(table) { m[table] } else { Seq::empty() };
                    m.insert(table, existing.push(line))
                }
            },
            SqlStatement::Other => m,
        }
    }
}

/// The map of tables to their lines that a list of tables holds.
pub open spec fn tables_view(tables: Seq<(String, Vec<SurrealdbSchemaLineDefinition>)>) -> Map<Seq<char>, Seq<LineView>>
    decreases tables.len(),
{
    if tables.len() == 0 {
        Map::empty()
    } else {
        tables_view(tables.drop_last()).insert(tables.last().0@, lines_view(tables.last().1@))
    }
}

/// No table name occurs twice.
pub open spec fn distinct_tables(tables: Seq<(String, Vec<SurrealdbSchemaLineDefinition>)>) -> bool {
    forall|i: int, j: int| 0 <= i < j < tables.len() ==> #[trigger] tables[i].0@ != #[trigger] tables[j].0@
}

} // verus!

verus! {

proof fn lemma_tables_view_lookup(tables: Seq<(String, Vec<SurrealdbSchemaLineDefinition>)>, i: int)
    requires
        distinct_tables(tables),
        0 <= i < tables.len(),
    ensures
        tables_view(tables).contains_key(tables[i].0@),
        tables_view(tables)[tables[i].0@] == lines_view(tables[i].1@),
    decreases tables.len(),
{
    if i < tables.len() - 1 {
        let d = tables.drop_last();
        assert(d[i] == tables[i]);
        assert forall|a: int, b: int| 0 <= a < b < d.len() implies #[trigger] d[a].0@ != #[trigger] d[b].0@ by {
            assert(d[a] == tables[a] && d[b] == tables[b]);
        }
        lemma_tables_view_lookup(d, i);
        assert(tables[i].0@ != tables[tables.len() - 1].0@);
    }
}

proof fn lemma_tables_view_absent(tables: Seq<(String, Vec<SurrealdbSchemaLineDefinition>)>, k: Seq<char>)
    requires
        forall|i: int| 0 <= i < tables.len() ==> #[trigger] tables[i].0@ != k,
    ensures
        !tables_view(tables).contains_key(k),
    decreases tables.len(),
{
    if tables.len() > 0 {
        let d = tables.drop_last();
        assert forall|i: int| 0 <= i < d.len() implies #[trigger] d[i].0@ != k by {
            assert(d[i] == tables[i]);
        }
        lemma_tables_view_absent(d, k);
        assert(tables[tables.len() - 1].0@ != k);
    }
}

proof fn lemma_tables_view_update(
    tables: Seq<(String, Vec<SurrealdbSchemaLineDefinition>)>,
    i: int,
    entry: (String, Vec<SurrealdbSchemaLineDefinition>),
)
    requires
        distinct_tables(tables),
        0 <= i < tables.len(),
        entry.0@ == tables[i].0@,
    ensures
        tables_view(tables.update(i, entry)) == tables_view(tables).insert(entry.0@, lines_view(entry.1@)),
        distinct_tables(tables.update(i, entry)),
    decreases tables.len(),
{
    let u = tables.update(i, entry);
    let d = tables.drop_last();
    assert forall|a: int, b: int| 0 <= a < b < u.len() implies #[trigger] u[a].0@ != #[trigger] u[b].0@ by {
        assert(u[a].0@ == tables[a].0@);
        assert(u[b].0@ == tables[b].0@);
    }
    if i == tables.len() - 1 {
        assert(u.drop_last() =~= d);
        assert(tables_view(u) =~= tables_view(tables).insert(entry.0@, lines_view(entry.1@)));
    } else {
        assert forall|a: int, b: int| 0 <= a < b < d.len() implies #[trigger] d[a].0@ != #[trigger] d[b].0@ by {
            assert(d[a] == tables[a] && d[b] == tables[b]);
        }
        lemma_tables_view_update(d, i, entry);
        assert(u.drop_last() =~= d.update(i, entry));
        assert(u.last() == tables.last());
        assert(tables[tables.len() - 1].0@ != tables[i].0@);
        assert(tables_view(u) =~= tables_view(tables).insert(entry.0@, lines_view(entry.1@)));
    }
}

/// Position of the table named `name`, if any.
fn find_table(tables: &Vec<(String, Vec<SurrealdbSchemaLineDefinition>)>, name: &str) -> (r: Option<usize>)
    ensures
        match r {
            Some(i) => i < tables@.len() && tables@[i as int].0@ == name@,
            None => forall|i: int| 0 <= i < tables@.len() ==> #[trigger] tables@[i].0@ != name@,
        },
{
    let mut i: usize = 0;
    while i < tables.len()
        invariant
            i <= tables.len(),
            forall|k: int| 0 <= k < i ==> #[trigger] tables@[k].0@ != name@,
        decreases tables.len() - i,
    {
        if str_eq(tables[i].0.as_str(), name) {
            return Some(i);
        }
        i = i + 1;
    }
    None
}

/// Whether some option of the column is `NOT NULL`.
fn column_is_not_null(options: &Vec<SqlColumnOptionDef>) -> (r: bool)
    ensures
        r == is_not_null(options@),
{
    let mut i: usize = 0;
    while i < options.len()
        invariant
            i <= options.len(),
            forall|k: int| 0 <= k < i ==> !(#[trigger] options@[k].option is NotNull),
        decreases options.len() - i,
    {
        if let SqlColumnOption::NotNull = options[i].option {
            return true;
        }
        i = i + 1;
    }
    false
}

/// Appends the unique index lines of the column options (see
/// `unique_index_lines`).
fn push_unique_indexes(
    lines: &mut Vec<SurrealdbSchemaLineDefinition>,
    options: &Vec<SqlColumnOptionDef>,
    table: &String,
    field: &String,
)
    ensures
        lines_view(final(lines)@) == lines_view(old(lines)@) + unique_index_lines(options@, table@, field@),
{
    let ghost start = lines_view(lines@);
    let mut i: usize = 0;
    while i < options.len()
        invariant
            i <= options.len(),
            lines_view(lines@) == start + unique_index_lines(options@.take(i as int), table@, field@),
        decreases options.len() - i,
    {
        let ghost before = lines@;
        assert(options@.take(i + 1).drop_last() =~= options@.take(i as int));
        assert(options@.take(i + 1).last() == options@[i as int]);
        if let SqlColumnOption::Unique { is_primary } = options[i].option {
            if !is_primary {
                let name = match &options[i].name {
                    Some(n) => n.clone(),
                    None => {
                        let mut n = table.clone();
                        n.append("_");
                        n.append(field.as_str());
                        n.append("_index");
                        n
                    },
                };
                let mut field_names: Vec<String> = Vec::new();
                field_names.push(field.clone());
                lines.push(SurrealdbSchemaLineDefinition::Index(SurrealdbSchemaIndexDefinition {
                    name,
                    field_names,
                    unique: true,
                }));
                proof {
                    assert(views(field_names@) =~= seq![field@]);
                    assert(lines_view(lines@) =~= lines_view(before).push(lines@.last()@));
                }
            }
        }
        i = i + 1;
    }
    assert(options@.take(options.len() as int) =~= options@);
}

/// The type of a field once the foreign keys on it are read (see
/// `type_with_foreign_keys`).
fn field_type_with_foreign_keys(
    detected: Option<SurrealdbFieldType>,
    constraints: &Vec<SqlTableConstraint>,
    field: &String,
    preserve_casing: bool,
) -> (r: Option<SurrealdbFieldType>)
    ensures
        type_view(r) == type_with_foreign_keys(type_view(detected), constraints@, field@, preserve_casing),
{
    let mut field_type = detected;
    let mut i: usize = 0;
    while i < constraints.len()
        invariant
            i <= constraints.len(),
            type_view(field_type) == type_with_foreign_keys(type_view(detected), constraints@.take(i as int), field@, preserve_casing),
        decreases constraints.len() - i,
    {
        assert(constraints@.take(i + 1).drop_last() =~= constraints@.take(i as int));
        assert(constraints@.take(i + 1).last() == constraints@[i as int]);
        if let SqlTableConstraint::ForeignKey { columns, foreign_table, referred_columns } = &constraints[i] {
            if columns.len() == 1 && referred_columns.len() == 1 {
                let column_identifier = apply_casing(columns[0].as_str(), preserve_casing);
                if str_eq(field.as_str(), column_identifier.as_str()) {
                    let referred_column = to_lowercase(referred_columns[0].as_str());
                    if str_eq(referred_column.as_str(), "id") && foreign_table.len() > 0 {
                        let target = apply_casing(foreign_table[0].as_str(), preserve_casing);
                        field_type = match field_type {
                            Some(SurrealdbFieldType::Record(tables)) => {
                                let mut tables = tables;
                                let ghost before = tables@;
                                tables.push(target);
                                assert(views(tables@) =~= views(before).push(target@));
                                Some(SurrealdbFieldType::Record(tables))
                            },
                            _ => {
                                let mut tables: Vec<String> = Vec::new();
                                tables.push(target);
                                assert(views(tables@) =~= seq![target@]);
                                Some(SurrealdbFieldType::Record(tables))
                            },
                        };
                    }
                }
            }
        }
        i = i + 1;
    }
    assert(constraints@.take(constraints.len() as int) =~= constraints@);
    field_type
}

/// The lines of a table (see `table_lines`).
fn convert_table(columns: &Vec<SqlColumnDef>, constraints: &Vec<SqlTableConstraint>, table: &String, preserve_casing: bool) -> (r: Vec<SurrealdbSchemaLineDefinition>)
    ensures
        lines_view(r@) == table_lines(columns@, constraints@, table@, preserve_casing),
{
    let mut lines: Vec<SurrealdbSchemaLineDefinition> = Vec::new();
    let mut i: usize = 0;
    while i < columns.len()
        invariant
            i <= columns.len(),
            lines_view(lines@) == table_lines(columns@.take(i as int), constraints@, table@, preserve_casing),
        decreases columns.len() - i,
    {
        assert(columns@.take(i + 1).drop_last() =~= columns@.take(i as int));
        assert(columns@.take(i + 1).last() == columns@[i as int]);
        let column = &columns[i];
        let field_name = apply_casing(column.name.as_str(), preserve_casing);
        let field_type = field_type_with_foreign_keys(detect_field_type(column), constraints, &field_name, preserve_casing);
        let not_null = column_is_not_null(&column.options);
        let ghost before = lines_view(lines@);
        lines.push(SurrealdbSchemaLineDefinition::Field(SurrealdbSchemaFieldDefinition {
            name: field_name.clone(),
            type_: field_type,
            not_null,
        }));
        assert(lines_view(lines@) =~= before.push(lines@.last()@));
        push_unique_indexes(&mut lines, &column.options, table, &field_name);
        proof {
            assert(lines_view(lines@) =~= before + column_lines(columns@[i as int], constraints@, table@, preserve_casing));
        }
        i = i + 1;
    }
    assert(columns@.take(columns.len() as int) =~= columns@);
    lines
}

/// The parts joined with `sep`.
fn join_strings(parts: &Vec<String>, sep: &str) -> (r: String)
    ensures
        r@ == join_with(views(parts@), sep@),
{
    let mut r = String::new();
    let mut i: usize = 0;
    while i < parts.len()
        invariant
            i <= parts.len(),
            r@ == join_with(views(parts@.take(i as int)), sep@),
        decreases parts.len() - i,
    {
        assert(views(parts@.take(i + 1)).drop_last() =~= views(parts@.take(i as int)));
        assert(views(parts@.take(i + 1)).last() == parts@[i as int]@);
        if i > 0 {
            r.append(sep);
        }
        r.append(parts[i].as_str());
        i = i + 1;
    }
    assert(parts@.take(parts.len() as int) =~= parts@);
    r
}

/// The index line of a `CREATE INDEX` (see `create_index_line`).
fn convert_create_index(name: &Option<Vec<String>>, table: &String, columns: &Vec<String>, unique: bool, preserve_casing: bool) -> (r: SurrealdbSchemaLineDefinition)
    ensures
        r@ == create_index_line(
            match name { Some(n) => Some(views(n@)), None => None },
            table@,
            cased_names(views(columns@), preserve_casing),
            unique,
        ),
{
    let mut field_names: Vec<String> = Vec::new();
    let mut i: usize = 0;
    while i < columns.len()
        invariant
            i <= columns.len(),
            views(field_names@) == cased_names(views(columns@.take(i as int)), preserve_casing),
        decreases columns.len() - i,
    {
        let ghost before = field_names@;
        field_names.push(apply_casing(columns[i].as_str(), preserve_casing));
        assert(views(field_names@) =~= views(before).push(cased(columns@[i as int]@, preserve_casing)));
        assert(cased_names(views(columns@.take(i + 1)), preserve_casing) =~= cased_names(views(columns@.take(i as int)), preserve_casing).push(cased(columns@[i as int]@, preserve_casing)));
        i = i + 1;
    }
    assert(columns@.take(columns.len() as int) =~= columns@);
    let default_name = {
        let mut n = table.clone();
        n.append("_");
        n.append(join_strings(&field_names, "_").as_str());
        n.append("_index");
        n
    };
    let index_name = match name {
        Some(n) => if n.len() > 0 { n[0].clone() } else { default_name },
        None => default_name,
    };
    SurrealdbSchemaLineDefinition::Index(SurrealdbSchemaIndexDefinition { name: index_name, field_names, unique })
}

/// Reads the SQL statements into SurrealDB tables (see `schema_tables`).
pub fn convert_ast_to_surrealdb_schema(ast: Vec<SqlStatement>, preserve_casing: bool) -> (r: SurrealdbSchema)
    ensures
        distinct_tables(r.tables@),
        tables_view(r.tables@) == schema_tables(ast@, preserve_casing),
{
    let ghost orig = ast@;
    let mut tables: Vec<(String, Vec<SurrealdbSchemaLineDefinition>)> = Vec::new();
    let mut i: usize = 0;
    while i < ast.len()
        invariant
            i <= ast.len(),
            orig == ast@,
            distinct_tables(tables@),
            tables_view(tables@) == schema_tables(orig.take(i as int), preserve_casing),
        decreases ast.len() - i,
    {
        assert(orig.take(i + 1).drop_last() =~= orig.take(i as int));
        assert(orig.take(i + 1).last() == orig[i as int]);
        match &ast[i] {
            SqlStatement::CreateTable { name, columns, constraints } => {
                let table_name = apply_casing(name.as_str(), preserve_casing);
                let lines = convert_table(columns, constraints, &table_name, preserve_casing);
                match find_table(&tables, table_name.as_str()) {
                    Some(k) => {
                        let ghost before = tables@;
                        let entry = (table_name, lines);
                        proof {
                            lemma_tables_view_update(before, k as int, entry);
                        }
                        tables.set(k, entry);
                    },
                    None => {
                        let ghost before = tables@;
                        tables.push((table_name, lines));
                        proof {
                            assert(tables@.drop_last() =~= before);
                            assert forall|a: int, b: int| 0 <= a < b < tables@.len() implies #[trigger] tables@[a].0@ != #[trigger] tables@[b].0@ by {
                                if b == tables@.len() - 1 {
                                    assert(tables@[a] == before[a]);
                                } else {
                                    assert(tables@[a] == before[a] && tables@[b] == before[b]);
                                }
                            }
                        }
                    },
                }
            },
            SqlStatement::CreateIndex { name, table_name, columns, unique } => {
                if table_name.len() > 0 {
                    let table = apply_casing(table_name[0].as_str(), preserve_casing);
                    let line = convert_create_index(name, &table, columns, *unique, preserve_casing);
                    match find_table(&tables, table.as_str()) {
                        Some(k) => {
                            let ghost before = tables@;
                            proof {
                                lemma_tables_view_lookup(before, k as int);
                            }
                            let (key, mut lines) = tables.remove(k);
                            let ghost old_lines = lines@;
                            lines.push(line);
                            assert(lines_view(lines@) =~= lines_view(old_lines).push(lines@.last()@));
                            let entry = (key, lines);
                            proof {
                                lemma_tables_view_update(before, k as int, entry);
                            }
                            tables.insert(k, entry);
                            proof {
                                assert(tables@ =~= before.update(k as int, entry));
                            }
                        },
                        None => {
                            let ghost before = tables@;
                            proof {
                                lemma_tables_view_absent(before, table@);
                            }
                            let mut lines: Vec<SurrealdbSchemaLineDefinition> = Vec::new();
                            lines.push(line);
                            assert(lines_view(lines@) =~= Seq::<LineView>::empty().push(lines@.last()@));
                            tables.push((table, lines));
                            proof {
                                assert(tables@.drop_last() =~= before);
                                assert forall|a: int, b: int| 0 <= a < b < tables@.len() implies #[trigger] tables@[a].0@ != #[trigger] tables@[b].0@ by {
                                    if b == tables@.len() - 1 {
                                        assert(tables@[a] == before[a]);
                                    } else {
                                        assert(tables@[a] == before[a] && tables@[b] == before[b]);
                                    }
                                }
                            }
                        },
                    }
                }
            },
            SqlStatement::Other => {},
        }
        i = i + 1;
    }
    assert(orig.take(ast.len() as int) =~= orig);
    SurrealdbSchema { tables }
}

} // verus!

verus! {

/// The SurrealQL name of a field type.
pub open spec fn field_type_text(t: FieldTypeView) -> Seq<char> {
    match t {
        FieldTypeView::Number => "number"@,
        FieldTypeView::String => "string"@,
        FieldTypeView::Boolean => "bool"@,
        FieldTypeView::DateTime => "datetime"@,
        FieldTypeView::Duration => "duration"@,
        FieldTypeView::Object => "object"@,
        FieldTypeView::Array => "array"@,
        FieldTypeView::Record(tables) => "record("@ + join_with(tables, ", "@) + ")"@,
    }
}

/// The SurrealQL definition of a line of table `table`.
pub open spec fn line_text(table: Seq<char>, line: LineView) -> Seq<char> {
    match line {
        LineView::Field(name, t, not_null) => "DEFINE FIELD "@ + name + " ON "@ + table
            + (match t { Some(x) => " TYPE "@ + field_type_text(x), None => Seq::empty() })
            + (if not_null { " ASSERT $value != NONE"@ } else { Seq::empty() }) + ";\n"@,
        LineView::Index(name, fields, unique) => "DEFINE INDEX "@ + name + " ON "@ + table + " COLUMNS "@
            + join_with(fields, ", "@) + (if unique { " UNIQUE"@ } else { Seq::empty() }) + ";\n"@,
    }
}

/// The definitions of the lines of a table, one per line.
pub open spec fn lines_text(table: Seq<char>, lines: Seq<LineView>) -> Seq<char>
    decreases lines.len(),
{
    if lines.len() == 0 {
        Seq::empty()
    } else {
        lines_text(table, lines.drop_last()) + line_text(table, lines.last())
    }
}

/// The schema file of an imported table: a schemaless table definition,
/// then its lines.
pub open spec fn table_file_text(table: Seq<char>, lines: Seq<LineView>) -> Seq<char> {
    "DEFINE TABLE "@ + table + " SCHEMALESS;\n\n"@ + lines_text(table, lines)
}

/// The SurrealQL name of a field type.
fn field_type_name(t: &SurrealdbFieldType) -> (r: String)
    ensures
        r@ == field_type_text(t@),
{
    match t {
        SurrealdbFieldType::Number => String::from_str("number"),
        SurrealdbFieldType::String => String::from_str("string"),
        SurrealdbFieldType::Boolean => String::from_str("bool"),
        SurrealdbFieldType::DateTime => String::from_str("datetime"),
        SurrealdbFieldType::Duration => String::from_str("duration"),
        SurrealdbFieldType::Object => String::from_str("object"),
        SurrealdbFieldType::Array => String::from_str("array"),
        SurrealdbFieldType::Record(tables) => {
            let mut r = String::from_str("record(");
            r.append(join_strings(tables, ", ").as_str());
            r.append(")");
            r
        },
    }
}

/// The SurrealQL definition of a line of a table (see `line_text`).
fn line_definition(table: &String, line: &SurrealdbSchemaLineDefinition) -> (r: String)
    ensures
        r@ == line_text(table@, line@),
{
    let mut r = String::new();
    match line {
        SurrealdbSchemaLineDefinition::Field(f) => {
            r.append("DEFINE FIELD ");
            r.append(f.name.as_str());
            r.append(" ON ");
            r.append(table.as_str());
            if let Some(t) = &f.type_ {
                r.append(" TYPE ");
                r.append(field_type_name(t).as_str());
            }
            if f.not_null {
                r.append(" ASSERT $value != NONE");
            }
            r.append(";\n");
        },
        SurrealdbSchemaLineDefinition::Index(x) => {
            r.append("DEFINE INDEX ");
            r.append(x.name.as_str());
            r.append(" ON ");
            r.append(table.as_str());
            r.append(" COLUMNS ");
            r.append(join_strings(&x.field_names, ", ").as_str());
            if x.unique {
                r.append(" UNIQUE");
            }
            r.append(";\n");
        },
    }
    r
}

/// The schema file of an imported table (see `table_file_text`).
pub fn table_definition(table: &String, lines: &Vec<SurrealdbSchemaLineDefinition>) -> (r: String)
    ensures
        r@ == table_file_text(table@, lines_view(lines@)),
{
    let mut r = String::from_str("DEFINE TABLE ");
    r.append(table.as_str());
    r.append(" SCHEMALESS;\n\n");
    let ghost start = r@;
    let mut i: usize = 0;
    while i < lines.len()
        invariant
            i <= lines.len(),
            r@ == start + lines_text(table@, lines_view(lines@.take(i as int))),
        decreases lines.len() - i,
    {
        assert(lines_view(lines@.take(i + 1)).drop_last() =~= lines_view(lines@.take(i as int)));
        assert(lines_view(lines@.take(i + 1)).last() == lines@[i as int]@);
        r.append(line_definition(table, &lines[i]).as_str());
        i = i + 1;
    }
    assert(lines@.take(lines.len() as int) =~= lines@);
    r
}

/// The map of tables to file contents that a list of pairs holds.
pub open spec fn contents_view(files: Seq<(String, String)>) -> Map<Seq<char>, Seq<char>>
    decreases files.len(),
{
    if files.len() == 0 {
        Map::empty()
    } else {
        contents_view(files.drop_last()).insert(files.last().0@, files.last().1@)
    }
}

/// No table has two files.
pub open spec fn distinct_files(files: Seq<(String, String)>) -> bool {
    forall|i: int, j: int| 0 <= i < j < files.len() ==> #[trigger] files[i].0@ != #[trigger] files[j].0@
}

/// The schema files of the imported tables: for each table, its file
/// content (see `table_file_text`).
pub open spec fn schema_file_contents(m: Map<Seq<char>, Seq<LineView>>) -> Map<Seq<char>, Seq<char>> {
    Map::new(|t: Seq<char>| m.contains_key(t), |t: Seq<char>| table_file_text(t, m[t]))
}

proof fn lemma_tables_view_empty(tables: Seq<(String, Vec<SurrealdbSchemaLineDefinition>)>)
    ensures
        (tables_view(tables) == Map::<Seq<char>, Seq<LineView>>::empty()) <==> tables.len() == 0,
{
    if tables.len() > 0 {
        assert(tables_view(tables).contains_key(tables.last().0@));
    }
}

/// The schema files that importing the SQL statements creates, keyed by
/// table (each goes to the table's name with the SurrealQL extension).
/// There must be a table, and none may take the name of the table that
/// records applied migrations.
pub fn schema_files(ast: Vec<SqlStatement>, preserve_casing: bool) -> (r: Result<Vec<(String, String)>, ScaffoldError>)
    ensures
        ({
            let m = schema_tables(ast@, preserve_casing);
            if m == Map::<Seq<char>, Seq<LineView>>::empty() {
                r == Err::<Vec<(String, String)>, ScaffoldError>(ScaffoldError::NoTableFound)
            } else if m.contains_key(SCRIPT_MIGRATION_TABLE_NAME@) {
                r == Err::<Vec<(String, String)>, ScaffoldError>(ScaffoldError::ReservedTableName)
            } else {
                r matches Ok(files) && contents_view(files@) == schema_file_contents(m) && distinct_files(files@)
            }
        }),
{
    let schema = convert_ast_to_surrealdb_schema(ast, preserve_casing);
    let tables = schema.tables;
    proof {
        lemma_tables_view_empty(tables@);
    }
    if tables.len() == 0 {
        return Err(ScaffoldError::NoTableFound);
    }
    match find_table(&tables, SCRIPT_MIGRATION_TABLE_NAME) {
        Some(k) => {
            proof {
                lemma_tables_view_lookup(tables@, k as int);
            }
            return Err(ScaffoldError::ReservedTableName);
        },
        None => {
            proof {
                lemma_tables_view_absent(tables@, SCRIPT_MIGRATION_TABLE_NAME@);
            }
        },
    }
    let mut files: Vec<(String, String)> = Vec::new();
    let mut i: usize = 0;
    while i < tables.len()
        invariant
            i <= tables.len(),
            contents_view(files@) == schema_file_contents(tables_view(tables@.take(i as int))),
            files@.len() == i,
            distinct_tables(tables@),
            forall|k: int| 0 <= k < i ==> #[trigger] files@[k].0@ == tables@[k].0@,
        decreases tables.len() - i,
    {
        let ghost before = files@;
        let content = table_definition(&tables[i].0, &tables[i].1);
        files.push((tables[i].0.clone(), content));
        proof {
            assert(files@.drop_last() =~= before);
            assert(tables@.take(i + 1).drop_last() =~= tables@.take(i as int));
            assert(tables@.take(i + 1).last() == tables@[i as int]);
            assert(contents_view(files@) =~= schema_file_contents(tables_view(tables@.take(i + 1))));
        }
        i = i + 1;
    }
    assert(tables@.take(tables.len() as int) =~= tables@);
    assert forall|a: int, b: int| 0 <= a < b < files@.len() implies #[trigger] files@[a].0@ != #[trigger] files@[b].0@ by {
        assert(files@[a].0@ == tables@[a].0@ && files@[b].0@ == tables@[b].0@);
    }
    Ok(files)
}

} // verus!
