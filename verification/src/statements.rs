use vstd::prelude::*;

use crate::file::has_tag;
use crate::strings::str_eq;

verus! {

/// A copy of a list of strings.
pub fn clone_strings(v: &Vec<String>) -> (r: Vec<String>)
    ensures
        r@ == v@,
{
    let mut r: Vec<String> = Vec::new();
    let mut i: usize = 0;
    while i < v.len()
        invariant
            i <= v.len(),
            r@ == v@.take(i as int),
        decreases v.len() - i,
    {
        r.push(v[i].clone());
        assert(v@.take(i + 1) =~= v@.take(i as int).push(v@[i as int]));
        i = i + 1;
    }
    assert(v@.take(v.len() as int) =~= v@);
    r
}

/// `DEFINE TABLE name [AS SELECT ... FROM view]`: the table's name and, for a
/// computed table, the tables its view reads.
pub struct DefineTableStatement {
    pub name: String,
    pub view: Option<Vec<String>>,
}

/// `DEFINE FIELD name ON what`, with the SurrealQL text of the clauses that
/// say what the field holds.
pub struct DefineFieldStatement {
    pub name: String,
    pub what: String,
    pub readonly: bool,
    pub assert: Option<String>,
    pub default: Option<String>,
    pub kind: Option<String>,
    pub permissions: String,
    pub reference: Option<String>,
}

/// `DEFINE EVENT name ON what`.
pub struct DefineEventStatement {
    pub name: String,
    pub what: String,
}

/// `DEFINE INDEX name ON what`.
pub struct DefineIndexStatement {
    pub name: String,
    pub what: String,
}

/// `DEFINE ACCESS name ON base`.
pub struct DefineAccessStatement {
    pub name: String,
    pub base: String,
}

/// The `DEFINE` statements that the migration logic reads.
pub enum DefineStatement {
    Table(DefineTableStatement),
    Field(DefineFieldStatement),
    Event(DefineEventStatement),
    Index(DefineIndexStatement),
    Access(DefineAccessStatement),
    /// Any other `DEFINE` statement.
    Other,
}

/// A parsed SurrealQL statement, as far as the migration logic reads it.
pub enum Statement {
    Define(DefineStatement),
    /// Any statement that is not a `DEFINE`.
    Other,
}

/// A parsed statement together with its SurrealQL text.
pub struct ParsedStatement {
    pub statement: Statement,
    pub text: String,
}

} // verus!

verus! {

/// The `DEFINE TABLE` statements of `s`, in order.
pub open spec fn define_tables(s: Seq<Statement>) -> Seq<DefineTableStatement>
    decreases s.len(),
{
    if s.len() == 0 {
        Seq::empty()
    } else {
        let rest = define_tables(s.drop_last());
        match s.last() {
            Statement::Define(DefineStatement::Table(t)) => rest.push(t),
            _ => rest,
        }
    }
}

/// The `DEFINE FIELD` statements of `s`, in order.
pub open spec fn define_fields(s: Seq<Statement>) -> Seq<DefineFieldStatement>
    decreases s.len(),
{
    if s.len() == 0 {
        Seq::empty()
    } else {
        let rest = define_fields(s.drop_last());
        match s.last() {
            Statement::Define(DefineStatement::Field(f)) => rest.push(f),
            _ => rest,
        }
    }
}

/// The `DEFINE EVENT` statements of `s`, in order.
pub open spec fn define_events(s: Seq<Statement>) -> Seq<DefineEventStatement>
    decreases s.len(),
{
    if s.len() == 0 {
        Seq::empty()
    } else {
        let rest = define_events(s.drop_last());
        match s.last() {
            Statement::Define(DefineStatement::Event(e)) => rest.push(e),
            _ => rest,
        }
    }
}

/// Keeps the `DEFINE TABLE` statements, in order.
pub fn extract_define_table_statements(statements: Vec<Statement>) -> (r: Vec<DefineTableStatement>)
    ensures
        r@ == define_tables(statements@),
{
    let ghost orig = statements@;
    let mut input = statements;
    let mut r: Vec<DefineTableStatement> = Vec::new();
    let ghost mut i: int = 0;
    assert(orig.take(0) =~= Seq::<Statement>::empty());
    assert(orig.skip(0) =~= orig);
    while input.len() > 0
        invariant
            0 <= i <= orig.len(),
            input@ == orig.skip(i),
            r@ == define_tables(orig.take(i)),
        decreases input.len(),
    {
        let s = input.remove(0);
        proof {
            assert(s == orig[i]);
            assert(orig.skip(i).remove(0) =~= orig.skip(i + 1));
            assert(orig.take(i + 1).drop_last() =~= orig.take(i));
            assert(orig.take(i + 1).last() == orig[i]);
            i = i + 1;
        }
        match s {
            Statement::Define(DefineStatement::Table(t)) => r.push(t),
            _ => {},
        }
    }
    assert(orig.take(i) =~= orig);
    r
}

/// Keeps the `DEFINE FIELD` statements, in order.
pub fn extract_define_field_statements(statements: Vec<Statement>) -> (r: Vec<DefineFieldStatement>)
    ensures
        r@ == define_fields(statements@),
{
    let ghost orig = statements@;
    let mut input = statements;
    let mut r: Vec<DefineFieldStatement> = Vec::new();
    let ghost mut i: int = 0;
    assert(orig.take(0) =~= Seq::<Statement>::empty());
    assert(orig.skip(0) =~= orig);
    while input.len() > 0
        invariant
            0 <= i <= orig.len(),
            input@ == orig.skip(i),
            r@ == define_fields(orig.take(i)),
        decreases input.len(),
    {
        let s = input.remove(0);
        proof {
            assert(s == orig[i]);
            assert(orig.skip(i).remove(0) =~= orig.skip(i + 1));
            assert(orig.take(i + 1).drop_last() =~= orig.take(i));
            assert(orig.take(i + 1).last() == orig[i]);
            i = i + 1;
        }
        match s {
            Statement::Define(DefineStatement::Field(f)) => r.push(f),
            _ => {},
        }
    }
    assert(orig.take(i) =~= orig);
    r
}

/// Keeps the `DEFINE EVENT` statements, in order.
pub fn extract_define_event_statements(statements: Vec<Statement>) -> (r: Vec<DefineEventStatement>)
    ensures
        r@ == define_events(statements@),
{
    let ghost orig = statements@;
    let mut input = statements;
    let mut r: Vec<DefineEventStatement> = Vec::new();
    let ghost mut i: int = 0;
    assert(orig.take(0) =~= Seq::<Statement>::empty());
    assert(orig.skip(0) =~= orig);
    while input.len() > 0
        invariant
            0 <= i <= orig.len(),
            input@ == orig.skip(i),
            r@ == define_events(orig.take(i)),
        decreases input.len(),
    {
        let s = input.remove(0);
        proof {
            assert(s == orig[i]);
            assert(orig.skip(i).remove(0) =~= orig.skip(i + 1));
            assert(orig.take(i + 1).drop_last() =~= orig.take(i));
            assert(orig.take(i + 1).last() == orig[i]);
            i = i + 1;
        }
        match s {
            Statement::Define(DefineStatement::Event(e)) => r.push(e),
            _ => {},
        }
    }
    assert(orig.take(i) =~= orig);
    r
}

} // verus!

verus! {

/// The texts of a list of strings.
pub open spec fn views(v: Seq<String>) -> Seq<Seq<char>> {
    v.map_values(|x: String| x@)
}

/// The texts of a list of pairs of strings.
pub open spec fn pair_views(v: Seq<(String, String)>) -> Seq<(Seq<char>, Seq<char>)> {
    v.map_values(|x: (String, String)| (x.0@, x.1@))
}

/// Whether `t` is one of the strings of `v`.
pub fn string_list_contains(v: &Vec<String>, t: &str) -> (r: bool)
    ensures
        r == views(v@).contains(t@),
{
    let mut i: usize = 0;
    while i < v.len()
        invariant
            i <= v.len(),
            forall|k: int| 0 <= k < i ==> v@[k]@ != t@,
        decreases v.len() - i,
    {
        if str_eq(v[i].as_str(), t) {
            assert(views(v@)[i as int] == t@);
            return true;
        }
        i = i + 1;
    }
    proof {
        if views(v@).contains(t@) {
            let k = choose|k: int| 0 <= k < views(v@).len() && views(v@)[k] == t@;
            assert(v@[k]@ == t@);
        }
    }
    false
}

/// Whether `(a, b)` is one of the pairs of `v`.
pub fn pair_list_contains(v: &Vec<(String, String)>, a: &str, b: &str) -> (r: bool)
    ensures
        r == pair_views(v@).contains((a@, b@)),
{
    let mut i: usize = 0;
    while i < v.len()
        invariant
            i <= v.len(),
            forall|k: int| 0 <= k < i ==> (v@[k].0@, v@[k].1@) != (a@, b@),
        decreases v.len() - i,
    {
        if str_eq(v[i].0.as_str(), a) && str_eq(v[i].1.as_str(), b) {
            assert(pair_views(v@)[i as int] == (a@, b@));
            return true;
        }
        i = i + 1;
    }
    proof {
        if pair_views(v@).contains((a@, b@)) {
            let k = choose|k: int| 0 <= k < pair_views(v@).len() && pair_views(v@)[k] == (a@, b@);
            assert((v@[k].0@, v@[k].1@) == (a@, b@));
        }
    }
    false
}

/// Names of the tables that the statements define, in order.
pub open spec fn table_names(s: Seq<Statement>) -> Seq<Seq<char>>
    decreases s.len(),
{
    if s.len() == 0 {
        Seq::empty()
    } else {
        let rest = table_names(s.drop_last());
        match s.last() {
            Statement::Define(DefineStatement::Table(t)) => rest.push(t.name@),
            _ => rest,
        }
    }
}

/// Names of the tables that the views of computed tables read, in order.
pub open spec fn consumed_table_names(s: Seq<Statement>) -> Seq<Seq<char>>
    decreases s.len(),
{
    if s.len() == 0 {
        Seq::empty()
    } else {
        let rest = consumed_table_names(s.drop_last());
        match s.last() {
            Statement::Define(DefineStatement::Table(t)) => match t.view {
                Some(v) => rest + views(v@),
                None => rest,
            },
            _ => rest,
        }
    }
}

/// `(field, table)` of the fields that the statements define, in order.
pub open spec fn field_keys(s: Seq<Statement>) -> Seq<(Seq<char>, Seq<char>)>
    decreases s.len(),
{
    if s.len() == 0 {
        Seq::empty()
    } else {
        let rest = field_keys(s.drop_last());
        match s.last() {
            Statement::Define(DefineStatement::Field(f)) => rest.push((f.name@, f.what@)),
            _ => rest,
        }
    }
}

/// `(event, table)` of the events that the statements define, in order.
pub open spec fn event_keys(s: Seq<Statement>) -> Seq<(Seq<char>, Seq<char>)>
    decreases s.len(),
{
    if s.len() == 0 {
        Seq::empty()
    } else {
        let rest = event_keys(s.drop_last());
        match s.last() {
            Statement::Define(DefineStatement::Event(e)) => rest.push((e.name@, e.what@)),
            _ => rest,
        }
    }
}

/// Names of the tables that the statements define.
pub fn extract_table_names(statements: &Vec<Statement>) -> (r: Vec<String>)
    ensures
        views(r@) == table_names(statements@),
{
    let mut r: Vec<String> = Vec::new();
    let mut i: usize = 0;
    while i < statements.len()
        invariant
            i <= statements.len(),
            views(r@) == table_names(statements@.take(i as int)),
        decreases statements.len() - i,
    {
        let ghost before = r@;
        assert(statements@.take(i + 1).drop_last() =~= statements@.take(i as int));
        assert(statements@.take(i + 1).last() == statements@[i as int]);
        match &statements[i] {
            Statement::Define(DefineStatement::Table(t)) => {
                r.push(t.name.clone());
                assert(views(r@) =~= views(before).push(t.name@));
            },
            _ => {},
        }
        i = i + 1;
    }
    assert(statements@.take(statements.len() as int) =~= statements@);
    r
}

/// Names of the tables that the views of computed tables read.
pub fn extract_consumed_table_names(statements: &Vec<Statement>) -> (r: Vec<String>)
    ensures
        views(r@) == consumed_table_names(statements@),
{
    let mut r: Vec<String> = Vec::new();
    let mut i: usize = 0;
    while i < statements.len()
        invariant
            i <= statements.len(),
            views(r@) == consumed_table_names(statements@.take(i as int)),
        decreases statements.len() - i,
    {
        let ghost before = r@;
        assert(statements@.take(i + 1).drop_last() =~= statements@.take(i as int));
        assert(statements@.take(i + 1).last() == statements@[i as int]);
        match &statements[i] {
            Statement::Define(DefineStatement::Table(t)) => match &t.view {
                Some(v) => {
                    let mut j: usize = 0;
                    while j < v.len()
                        invariant
                            j <= v.len(),
                            views(r@) == views(before) + views(v@.take(j as int)),
                        decreases v.len() - j,
                    {
                        let ghost mid = r@;
                        r.push(v[j].clone());
                        assert(views(r@) =~= views(mid).push(v@[j as int]@));
                        assert(views(v@.take(j + 1)) =~= views(v@.take(j as int)).push(v@[j as int]@));
                        j = j + 1;
                    }
                    assert(v@.take(v.len() as int) =~= v@);
                },
                None => {},
            },
            _ => {},
        }
        i = i + 1;
    }
    assert(statements@.take(statements.len() as int) =~= statements@);
    r
}

} // verus!

verus! {

/// `(field, table)` of the fields that the statements define.
pub fn extract_field_keys(statements: &Vec<Statement>) -> (r: Vec<(String, String)>)
    ensures
        pair_views(r@) == field_keys(statements@),
{
    let mut r: Vec<(String, String)> = Vec::new();
    let mut i: usize = 0;
    while i < statements.len()
        invariant
            i <= statements.len(),
            pair_views(r@) == field_keys(statements@.take(i as int)),
        decreases statements.len() - i,
    {
        let ghost before = r@;
        assert(statements@.take(i + 1).drop_last() =~= statements@.take(i as int));
        assert(statements@.take(i + 1).last() == statements@[i as int]);
        match &statements[i] {
            Statement::Define(DefineStatement::Field(f)) => {
                r.push((f.name.clone(), f.what.clone()));
                assert(pair_views(r@) =~= pair_views(before).push((f.name@, f.what@)));
            },
            _ => {},
        }
        i = i + 1;
    }
    assert(statements@.take(statements.len() as int) =~= statements@);
    r
}

/// `(event, table)` of the events that the statements define.
pub fn extract_event_keys(statements: &Vec<Statement>) -> (r: Vec<(String, String)>)
    ensures
        pair_views(r@) == event_keys(statements@),
{
    let mut r: Vec<(String, String)> = Vec::new();
    let mut i: usize = 0;
    while i < statements.len()
        invariant
            i <= statements.len(),
            pair_views(r@) == event_keys(statements@.take(i as int)),
        decreases statements.len() - i,
    {
        let ghost before = r@;
        assert(statements@.take(i + 1).drop_last() =~= statements@.take(i as int));
        assert(statements@.take(i + 1).last() == statements@[i as int]);
        match &statements[i] {
            Statement::Define(DefineStatement::Event(e)) => {
                r.push((e.name.clone(), e.what.clone()));
                assert(pair_views(r@) =~= pair_views(before).push((e.name@, e.what@)));
            },
            _ => {},
        }
        i = i + 1;
    }
    assert(statements@.take(statements.len() as int) =~= statements@);
    r
}

/// A `REMOVE` statement that undoes a definition.
pub enum RemoveStatement {
    Table { name: String },
    Field { name: String, what: String },
    Event { name: String, what: String },
    Index { name: String, what: String },
    Access { name: String, base: String },
}

/// The mathematical view of a `RemoveStatement`.
pub enum RemoveStatementView {
    Table(Seq<char>),
    Field(Seq<char>, Seq<char>),
    Event(Seq<char>, Seq<char>),
    Index(Seq<char>, Seq<char>),
    Access(Seq<char>, Seq<char>),
}

impl View for RemoveStatement {
    type V = RemoveStatementView;

    open spec fn view(&self) -> RemoveStatementView {
        match self {
            RemoveStatement::Table { name } => RemoveStatementView::Table(name@),
            RemoveStatement::Field { name, what } => RemoveStatementView::Field(name@, what@),
            RemoveStatement::Event { name, what } => RemoveStatementView::Event(name@, what@),
            RemoveStatement::Index { name, what } => RemoveStatementView::Index(name@, what@),
            RemoveStatement::Access { name, base } => RemoveStatementView::Access(name@, base@),
        }
    }
}

/// The SurrealQL text of a `REMOVE` statement.
pub open spec fn remove_statement_text(r: RemoveStatementView) -> Seq<char> {
    match r {
        RemoveStatementView::Table(n) => "REMOVE TABLE "@ + n,
        RemoveStatementView::Field(n, w) => "REMOVE FIELD "@ + n + " ON "@ + w,
        RemoveStatementView::Event(n, w) => "REMOVE EVENT "@ + n + " ON "@ + w,
        RemoveStatementView::Index(n, w) => "REMOVE INDEX "@ + n + " ON "@ + w,
        RemoveStatementView::Access(n, b) => "REMOVE ACCESS "@ + n + " ON "@ + b,
    }
}

impl RemoveStatement {
    /// The SurrealQL text of the statement.
    pub fn to_surql(&self) -> (r: String)
        ensures
            r@ == remove_statement_text(self@),
    {
        let (keyword, name, on) = match self {
            RemoveStatement::Table { name } => ("REMOVE TABLE ", name, None),
            RemoveStatement::Field { name, what } => ("REMOVE FIELD ", name, Some(what)),
            RemoveStatement::Event { name, what } => ("REMOVE EVENT ", name, Some(what)),
            RemoveStatement::Index { name, what } => ("REMOVE INDEX ", name, Some(what)),
            RemoveStatement::Access { name, base } => ("REMOVE ACCESS ", name, Some(base)),
        };
        let mut r = String::from_str(keyword);
        r.append(name.as_str());
        if let Some(on) = on {
            r.append(" ON ");
            r.append(on.as_str());
        }
        r
    }
}

/// The views of a list of `REMOVE` statements.
pub open spec fn remove_views(v: Seq<RemoveStatement>) -> Seq<RemoveStatementView> {
    v.map_values(|r: RemoveStatement| r@)
}

/// The names of `names` that `others` does not hold, in order.
pub open spec fn names_absent_from(names: Seq<Seq<char>>, others: Seq<Seq<char>>) -> Seq<Seq<char>>
    decreases names.len(),
{
    if names.len() == 0 {
        Seq::empty()
    } else {
        let rest = names_absent_from(names.drop_last(), others);
        if others.contains(names.last()) {
            rest
        } else {
            rest.push(names.last())
        }
    }
}

/// The keys of `keys` that `others` does not hold and whose table is not in
/// `removed_tables`, in order.
pub open spec fn keys_to_remove(
    keys: Seq<(Seq<char>, Seq<char>)>,
    others: Seq<(Seq<char>, Seq<char>)>,
    removed_tables: Seq<Seq<char>>,
) -> Seq<(Seq<char>, Seq<char>)>
    decreases keys.len(),
{
    if keys.len() == 0 {
        Seq::empty()
    } else {
        let rest = keys_to_remove(keys.drop_last(), others, removed_tables);
        let k = keys.last();
        if !others.contains(k) && !removed_tables.contains(k.1) {
            rest.push(k)
        } else {
            rest
        }
    }
}

/// The statements that roll the definitions `next` back to `previous`: remove
/// each table that only `next` defines, then each field and each event that
/// only `next` defines on a table that stays.
pub open spec fn rollback_statements(next: Seq<Statement>, previous: Seq<Statement>) -> Seq<RemoveStatementView> {
    let tables = names_absent_from(table_names(next), table_names(previous));
    let fields = keys_to_remove(field_keys(next), field_keys(previous), tables);
    let events = keys_to_remove(event_keys(next), event_keys(previous), tables);
    tables.map_values(|n: Seq<char>| RemoveStatementView::Table(n))
        + fields.map_values(|k: (Seq<char>, Seq<char>)| RemoveStatementView::Field(k.0, k.1))
        + events.map_values(|k: (Seq<char>, Seq<char>)| RemoveStatementView::Event(k.0, k.1))
}

/// The pairs of `keys` that `others` does not hold and whose table is not in
/// `removed_tables`, in order.
fn select_keys_to_remove(keys: &Vec<(String, String)>, others: &Vec<(String, String)>, removed_tables: &Vec<String>) -> (r: Vec<(String, String)>)
    ensures
        pair_views(r@) == keys_to_remove(pair_views(keys@), pair_views(others@), views(removed_tables@)),
{
    let mut r: Vec<(String, String)> = Vec::new();
    let mut i: usize = 0;
    while i < keys.len()
        invariant
            i <= keys.len(),
            pair_views(r@) == keys_to_remove(pair_views(keys@.take(i as int)), pair_views(others@), views(removed_tables@)),
        decreases keys.len() - i,
    {
        let ghost before = r@;
        assert(pair_views(keys@.take(i + 1)).drop_last() =~= pair_views(keys@.take(i as int)));
        assert(pair_views(keys@.take(i + 1)).last() == (keys@[i as int].0@, keys@[i as int].1@));
        let k = &keys[i];
        if !pair_list_contains(others, k.0.as_str(), k.1.as_str()) && !string_list_contains(removed_tables, k.1.as_str()) {
            r.push((k.0.clone(), k.1.clone()));
            assert(pair_views(r@) =~= pair_views(before).push((k.0@, k.1@)));
        }
        i = i + 1;
    }
    assert(keys@.take(keys.len() as int) =~= keys@);
    r
}

/// The statements that roll the definitions `next_statements` back to
/// `previous_statements` (see `rollback_statements`).
pub fn get_rollback_statements(next_statements: &Vec<Statement>, previous_statements: &Vec<Statement>) -> (r: Vec<RemoveStatement>)
    ensures
        remove_views(r@) == rollback_statements(next_statements@, previous_statements@),
{
    let next_tables = extract_table_names(next_statements);
    let previous_tables = extract_table_names(previous_statements);
    let mut tables_to_remove: Vec<String> = Vec::new();
    let mut i: usize = 0;
    while i < next_tables.len()
        invariant
            i <= next_tables.len(),
            views(tables_to_remove@) == names_absent_from(views(next_tables@.take(i as int)), views(previous_tables@)),
        decreases next_tables.len() - i,
    {
        let ghost before = tables_to_remove@;
        assert(views(next_tables@.take(i + 1)).drop_last() =~= views(next_tables@.take(i as int)));
        assert(views(next_tables@.take(i + 1)).last() == next_tables@[i as int]@);
        if !string_list_contains(&previous_tables, next_tables[i].as_str()) {
            tables_to_remove.push(next_tables[i].clone());
            assert(views(tables_to_remove@) =~= views(before).push(next_tables@[i as int]@));
        }
        i = i + 1;
    }
    assert(next_tables@.take(next_tables.len() as int) =~= next_tables@);
    let next_fields = extract_field_keys(next_statements);
    let previous_fields = extract_field_keys(previous_statements);
    let fields_to_remove = select_keys_to_remove(&next_fields, &previous_fields, &tables_to_remove);
    let next_events = extract_event_keys(next_statements);
    let previous_events = extract_event_keys(previous_statements);
    let events_to_remove = select_keys_to_remove(&next_events, &previous_events, &tables_to_remove);

    let ghost tables = views(tables_to_remove@);
    let ghost fields = pair_views(fields_to_remove@);
    let ghost events = pair_views(events_to_remove@);
    let mut r: Vec<RemoveStatement> = Vec::new();
    let mut j: usize = 0;
    while j < tables_to_remove.len()
        invariant
            j <= tables_to_remove.len(),
            tables == views(tables_to_remove@),
            remove_views(r@) == tables.take(j as int).map_values(|n: Seq<char>| RemoveStatementView::Table(n)),
        decreases tables_to_remove.len() - j,
    {
        let ghost before = r@;
        r.push(RemoveStatement::Table { name: tables_to_remove[j].clone() });
        assert(tables[j as int] == tables_to_remove@[j as int]@);
        assert(remove_views(r@) =~= remove_views(before).push(RemoveStatementView::Table(tables[j as int])));
        assert(tables.take(j + 1).map_values(|n: Seq<char>| RemoveStatementView::Table(n)) =~= tables.take(j as int).map_values(|n: Seq<char>| RemoveStatementView::Table(n)).push(RemoveStatementView::Table(tables[j as int])));
        j = j + 1;
    }
    assert(tables.take(tables.len() as int) =~= tables);
    let ghost r1 = remove_views(r@);
    let mut j: usize = 0;
    while j < fields_to_remove.len()
        invariant
            j <= fields_to_remove.len(),
            fields == pair_views(fields_to_remove@),
            remove_views(r@) == r1 + fields.take(j as int).map_values(|k: (Seq<char>, Seq<char>)| RemoveStatementView::Field(k.0, k.1)),
        decreases fields_to_remove.len() - j,
    {
        let ghost before = r@;
        let f = &fields_to_remove[j];
        r.push(RemoveStatement::Field { name: f.0.clone(), what: f.1.clone() });
        assert(fields[j as int] == (f.0@, f.1@));
        assert(remove_views(r@) =~= remove_views(before).push(RemoveStatementView::Field(f.0@, f.1@)));
        assert(fields.take(j + 1).map_values(|k: (Seq<char>, Seq<char>)| RemoveStatementView::Field(k.0, k.1)) =~= fields.take(j as int).map_values(|k: (Seq<char>, Seq<char>)| RemoveStatementView::Field(k.0, k.1)).push(RemoveStatementView::Field(f.0@, f.1@)));
        j = j + 1;
    }
    assert(fields.take(fields.len() as int) =~= fields);
    let ghost r2 = remove_views(r@);
    let mut j: usize = 0;
    while j < events_to_remove.len()
        invariant
            j <= events_to_remove.len(),
            events == pair_views(events_to_remove@),
            remove_views(r@) == r2 + events.take(j as int).map_values(|k: (Seq<char>, Seq<char>)| RemoveStatementView::Event(k.0, k.1)),
        decreases events_to_remove.len() - j,
    {
        let ghost before = r@;
        let e = &events_to_remove[j];
        r.push(RemoveStatement::Event { name: e.0.clone(), what: e.1.clone() });
        assert(events[j as int] == (e.0@, e.1@));
        assert(remove_views(r@) =~= remove_views(before).push(RemoveStatementView::Event(e.0@, e.1@)));
        assert(events.take(j + 1).map_values(|k: (Seq<char>, Seq<char>)| RemoveStatementView::Event(k.0, k.1)) =~= events.take(j as int).map_values(|k: (Seq<char>, Seq<char>)| RemoveStatementView::Event(k.0, k.1)).push(RemoveStatementView::Event(e.0@, e.1@)));
        j = j + 1;
    }
    assert(events.take(events.len() as int) =~= events);
    r
}

} // verus!

verus! {

/// The names of `names`, each kept at its first occurrence only.
pub open spec fn dedup(names: Seq<Seq<char>>) -> Seq<Seq<char>>
    decreases names.len(),
{
    if names.len() == 0 {
        Seq::empty()
    } else {
        let rest = dedup(names.drop_last());
        if names.drop_last().contains(names.last()) {
            rest
        } else {
            rest.push(names.last())
        }
    }
}

/// The names of `names` that `others` does not hold, in order.
pub fn select_names_absent_from(names: &Vec<String>, others: &Vec<String>) -> (r: Vec<String>)
    ensures
        views(r@) == names_absent_from(views(names@), views(others@)),
{
    let mut r: Vec<String> = Vec::new();
    let mut i: usize = 0;
    while i < names.len()
        invariant
            i <= names.len(),
            views(r@) == names_absent_from(views(names@.take(i as int)), views(others@)),
        decreases names.len() - i,
    {
        let ghost before = r@;
        assert(views(names@.take(i + 1)).drop_last() =~= views(names@.take(i as int)));
        assert(views(names@.take(i + 1)).last() == names@[i as int]@);
        if !string_list_contains(others, names[i].as_str()) {
            r.push(names[i].clone());
            assert(views(r@) =~= views(before).push(names@[i as int]@));
        }
        i = i + 1;
    }
    assert(names@.take(names.len() as int) =~= names@);
    r
}

/// The names of `names`, each kept at its first occurrence only.
pub fn dedup_names(names: &Vec<String>) -> (r: Vec<String>)
    ensures
        views(r@) == dedup(views(names@)),
        views(r@).no_duplicates(),
{
    let mut r: Vec<String> = Vec::new();
    let mut i: usize = 0;
    while i < names.len()
        invariant
            i <= names.len(),
            views(r@) == dedup(views(names@.take(i as int))),
            views(r@).no_duplicates(),
            forall|x: Seq<char>| views(r@).contains(x) <==> views(names@.take(i as int)).contains(x),
        decreases names.len() - i,
    {
        let ghost before = r@;
        let ghost prefix = views(names@.take(i as int));
        let ghost next = views(names@.take(i + 1));
        assert(next.drop_last() =~= prefix);
        assert(next.last() == names@[i as int]@);
        assert(next =~= prefix.push(names@[i as int]@));
        assert(forall|x: Seq<char>| #[trigger] views(before).contains(x) <==> prefix.contains(x));
        if !string_list_contains(&r, names[i].as_str()) {
            assert(!views(before).contains(names@[i as int]@));
            r.push(names[i].clone());
            assert(views(r@) =~= views(before).push(names@[i as int]@));
            assert forall|a: int, b: int| 0 <= a < views(r@).len() && 0 <= b < views(r@).len() && a != b
                implies views(r@)[a] != views(r@)[b] by {
                if a < views(before).len() && b < views(before).len() {
                    assert(views(before)[a] == views(r@)[a] && views(before)[b] == views(r@)[b]);
                } else if a < views(before).len() {
                    assert(views(before)[a] == views(r@)[a]);
                    assert(views(before).contains(views(before)[a]));
                } else {
                    assert(views(before)[b] == views(r@)[b]);
                    assert(views(before).contains(views(before)[b]));
                }
            }
            assert forall|x: Seq<char>| views(r@).contains(x) <==> next.contains(x) by {
                if views(r@).contains(x) {
                    let k = choose|k: int| 0 <= k < views(r@).len() && views(r@)[k] == x;
                    if k < views(before).len() {
                        assert(views(before)[k] == x);
                        assert(views(before).contains(x));
                        let m = choose|m: int| 0 <= m < prefix.len() && prefix[m] == x;
                        assert(next[m] == x);
                    } else {
                        assert(next[i as int] == x);
                    }
                }
                if next.contains(x) {
                    let m = choose|m: int| 0 <= m < next.len() && next[m] == x;
                    if m < i {
                        assert(prefix[m] == x);
                        assert(prefix.contains(x));
                        assert(views(before).contains(x));
                        let k = choose|k: int| 0 <= k < views(before).len() && views(before)[k] == x;
                        assert(views(r@)[k] == x);
                    } else {
                        assert(views(r@)[views(before).len() as int] == x);
                    }
                }
            }
        } else {
            assert forall|x: Seq<char>| views(r@).contains(x) <==> next.contains(x) by {
                if views(r@).contains(x) {
                    assert(views(before).contains(x));
                    let m = choose|m: int| 0 <= m < prefix.len() && prefix[m] == x;
                    assert(next[m] == x);
                }
                if next.contains(x) {
                    let m = choose|m: int| 0 <= m < next.len() && next[m] == x;
                    if m < i {
                        assert(prefix[m] == x);
                        assert(prefix.contains(x));
                    } else {
                        assert(x == names@[i as int]@);
                    }
                }
            }
        }
        i = i + 1;
    }
    assert(names@.take(names.len() as int) =~= names@);
    r
}

} // verus!
