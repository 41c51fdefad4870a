use owo_colors::OwoColorize;
use vstd::prelude::*;

use crate::cli;
use crate::config::opt_view;
use crate::input::clone_option;
use crate::order_safety::{is_natural_order_safe, natural_order_safe};
use crate::sorting::{names_safe, sort_by_name, sorted_by_name, NameOrdering, Named};
use crate::statements::{
    clone_strings, dedup, dedup_names, names_absent_from, select_names_absent_from, views, DefineFieldStatement,
    DefineStatement, Statement,
};
use crate::strings::{chars_of, push_char, str_eq};

verus! {

/// What the `diff` command is asked to do.
pub struct DiffArgs {
    /// Print without colors.
    pub no_color: bool,
    /// Path of the configuration file, if one was given.
    pub config_file: Option<String>,
}

impl DiffArgs {
    /// Reads the arguments of the `diff` command.
    pub fn from(value: cli::DiffArgs, config_file: Option<String>) -> (r: Self)
        ensures
            r.no_color == value.no_color,
            r.config_file == config_file,
    {
        let cli::DiffArgs { no_color } = value;
        DiffArgs { no_color, config_file }
    }
}

/// The kind of a difference.
#[derive(PartialEq, Eq, Structural, Clone, Copy, Debug)]
pub enum DiffSymbol {
    Addition,
    Change,
    Deletion,
}

/// The symbol that marks a difference.
pub open spec fn symbol_text(symbol: DiffSymbol) -> Seq<char> {
    match symbol {
        DiffSymbol::Addition => "+"@,
        DiffSymbol::Change => "~"@,
        DiffSymbol::Deletion => "-"@,
    }
}

/// The ANSI sequence that starts the color of a difference: green for an
/// addition, yellow for a change, red for a deletion.
pub open spec fn color_start(symbol: DiffSymbol) -> Seq<char> {
    match symbol {
        DiffSymbol::Addition => "\x1b[32m"@,
        DiffSymbol::Change => "\x1b[33m"@,
        DiffSymbol::Deletion => "\x1b[31m"@,
    }
}

/// The ANSI sequence that restores the default foreground color.
pub open spec fn color_end() -> Seq<char> {
    "\x1b[39m"@
}

impl DiffSymbol {
    /// The symbol that marks the difference.
    pub fn text(&self) -> (r: &'static str)
        ensures
            r@ == symbol_text(*self),
    {
        match self {
            DiffSymbol::Addition => "+",
            DiffSymbol::Change => "~",
            DiffSymbol::Deletion => "-",
        }
    }
}

/// `text` in the color of `symbol`, with `owo_colors::OwoColorize::color`
/// and the ANSI color of the symbol (green, yellow or red).
///
/// Trusted: the result is the color's ANSI start sequence, the text, and the
/// sequence that restores the default foreground color, as the crate's
/// documented examples show.
#[verifier::external_body]
fn paint(text: &str, symbol: DiffSymbol) -> (r: String)
    ensures
        r@ == color_start(symbol) + text@ + color_end(),
{
    let color = match symbol {
        DiffSymbol::Addition => owo_colors::AnsiColors::Green,
        DiffSymbol::Change => owo_colors::AnsiColors::Yellow,
        DiffSymbol::Deletion => owo_colors::AnsiColors::Red,
    };
    format!("{}", text.color(color))
}

/// `text` as shown: in the color of `symbol` when colors are on.
pub open spec fn shown(text: Seq<char>, symbol: DiffSymbol, colored: bool) -> Seq<char> {
    if colored {
        color_start(symbol) + text + color_end()
    } else {
        text
    }
}

/// Appends `text` as shown.
fn append_shown(out: &mut String, text: &str, symbol: DiffSymbol, colored: bool)
    ensures
        final(out)@ == old(out)@ + shown(text@, symbol, colored),
{
    if colored {
        let painted = paint(text, symbol);
        out.append(painted.as_str());
    } else {
        out.append(text);
    }
}

/// The decimal digit of `d`.
pub open spec fn digit_char(d: nat) -> char {
    if d == 0 { '0' } else if d == 1 { '1' } else if d == 2 { '2' } else if d == 3 { '3' } else if d == 4 { '4' }
    else if d == 5 { '5' } else if d == 6 { '6' } else if d == 7 { '7' } else if d == 8 { '8' } else { '9' }
}

/// The decimal writing of `n`.
pub open spec fn decimal_text(n: nat) -> Seq<char>
    decreases n,
{
    if n < 10 {
        seq![digit_char(n)]
    } else {
        decimal_text(n / 10).push(digit_char(n % 10))
    }
}

fn digit(d: usize) -> (c: char)
    requires
        d < 10,
    ensures
        c == digit_char(d as nat),
{
    if d == 0 { '0' } else if d == 1 { '1' } else if d == 2 { '2' } else if d == 3 { '3' } else if d == 4 { '4' }
    else if d == 5 { '5' } else if d == 6 { '6' } else if d == 7 { '7' } else if d == 8 { '8' } else { '9' }
}

/// The decimal writing of `n`.
pub fn decimal(n: usize) -> (r: String)
    ensures
        r@ == decimal_text(n as nat),
    decreases n,
{
    if n < 10 {
        let mut r = String::new();
        push_char(&mut r, digit(n));
        r
    } else {
        let mut r = decimal(n / 10);
        push_char(&mut r, digit(n % 10));
        r
    }
}

} // verus!

verus! {

/// The differences of the fields of one table.
pub struct TableDiff {
    pub name: String,
    pub additions: Vec<String>,
    pub changes: Vec<String>,
    pub deletions: Vec<String>,
}

impl TableDiff {
    /// No field is listed twice in a list (each list is a set).
    pub open spec fn well_formed(&self) -> bool {
        &&& views(self.additions@).no_duplicates()
        &&& views(self.changes@).no_duplicates()
        &&& views(self.deletions@).no_duplicates()
    }
}

impl Named for TableDiff {
    open spec fn name_view(&self) -> Seq<char> {
        self.name@
    }

    fn name_str(&self) -> (s: &str) {
        self.name.as_str()
    }
}

/// The symbol of a table: an addition when it only gains fields, a deletion
/// when it only loses fields, a change otherwise.
pub open spec fn table_symbol(additions: nat, changes: nat, deletions: nat) -> DiffSymbol {
    if changes == 0 && deletions == 0 {
        DiffSymbol::Addition
    } else if additions == 0 && changes == 0 {
        DiffSymbol::Deletion
    } else {
        DiffSymbol::Change
    }
}

/// `"{n} {label}"` for each non-zero count, in the order additions,
/// changes, deletions, separated by `", "`.
pub open spec fn counts_text(additions: nat, changes: nat, deletions: nat) -> Seq<char> {
    let a = if additions > 0 { decimal_text(additions) + " additions"@ } else { Seq::empty() };
    let c = if changes > 0 {
        (if additions > 0 { ", "@ } else { Seq::empty() }) + decimal_text(changes) + " changes"@
    } else {
        Seq::empty()
    };
    let d = if deletions > 0 {
        (if additions > 0 || changes > 0 { ", "@ } else { Seq::empty() }) + decimal_text(deletions) + " deletions"@
    } else {
        Seq::empty()
    };
    a + c + d
}

/// The header of a table diff: its name and its counts.
pub open spec fn header_text(name: Seq<char>, additions: nat, changes: nat, deletions: nat) -> Seq<char> {
    name + " ("@ + counts_text(additions, changes, deletions) + ")"@
}

/// One line per item: two spaces, the symbol and the item.
pub open spec fn item_lines(items: Seq<String>, symbol: DiffSymbol, colored: bool) -> Seq<char>
    decreases items.len(),
{
    if items.len() == 0 {
        Seq::empty()
    } else {
        item_lines(items.drop_last(), symbol, colored) + "  "@ + shown(symbol_text(symbol), symbol, colored)
            + shown(items.last()@, symbol, colored) + "\n"@
    }
}

/// The text of a table diff: nothing without differences; otherwise the
/// symbol and header of the table, then the added, changed and deleted
/// fields, each list in natural order.
pub open spec fn table_diff_text(d: TableDiff, colored: bool) -> Seq<char> {
    let a = d.additions@.len();
    let c = d.changes@.len();
    let x = d.deletions@.len();
    if a == 0 && c == 0 && x == 0 {
        Seq::empty()
    } else {
        let symbol = table_symbol(a, c, x);
        shown(symbol_text(symbol), symbol, colored) + shown(header_text(d.name@, a, c, x), symbol, colored) + "\n"@
            + item_lines(sorted_by_name(d.additions@, NameOrdering::Natural), DiffSymbol::Addition, colored)
            + item_lines(sorted_by_name(d.changes@, NameOrdering::Natural), DiffSymbol::Change, colored)
            + item_lines(sorted_by_name(d.deletions@, NameOrdering::Natural), DiffSymbol::Deletion, colored)
    }
}

/// Appends the item lines of `items`.
fn append_item_lines(out: &mut String, items: &Vec<String>, symbol: DiffSymbol, colored: bool)
    ensures
        final(out)@ == old(out)@ + item_lines(items@, symbol, colored),
{
    let ghost start = out@;
    let mut i: usize = 0;
    while i < items.len()
        invariant
            i <= items.len(),
            out@ == start + item_lines(items@.take(i as int), symbol, colored),
        decreases items.len() - i,
    {
        out.append("  ");
        append_shown(out, symbol.text(), symbol, colored);
        append_shown(out, items[i].as_str(), symbol, colored);
        out.append("\n");
        proof {
            assert(items@.take(i + 1).drop_last() =~= items@.take(i as int));
            assert(items@.take(i + 1).last() == items@[i as int]);
        }
        i = i + 1;
    }
    assert(items@.take(items.len() as int) =~= items@);
}

impl TableDiff {
    /// The text of the table diff (see `table_diff_text`), colored or not.
    #[verifier::rlimit(40)]
    pub fn to_text(&self, colored: bool) -> (r: String)
        requires
            self.well_formed(),
            names_safe(self.additions@),
            names_safe(self.changes@),
            names_safe(self.deletions@),
        ensures
            r@ == table_diff_text(*self, colored),
    {
        let total_additions = self.additions.len();
        let total_changes = self.changes.len();
        let total_deletions = self.deletions.len();
        if total_additions == 0 && total_changes == 0 && total_deletions == 0 {
            return String::new();
        }
        let table_symbol = if total_changes == 0 && total_deletions == 0 {
            DiffSymbol::Addition
        } else if total_additions == 0 && total_changes == 0 {
            DiffSymbol::Deletion
        } else {
            DiffSymbol::Change
        };
        let mut header = self.name.clone();
        header.append(" (");
        let ghost before_counts = header@;
        let mut previous_subcontent = false;
        if total_additions > 0 {
            header.append(decimal(total_additions).as_str());
            header.append(" additions");
            previous_subcontent = true;
        }
        if total_changes > 0 {
            if previous_subcontent {
                header.append(", ");
            }
            header.append(decimal(total_changes).as_str());
            header.append(" changes");
            previous_subcontent = true;
        }
        if total_deletions > 0 {
            if previous_subcontent {
                header.append(", ");
            }
            header.append(decimal(total_deletions).as_str());
            header.append(" deletions");
        }
        header.append(")");
        proof {
            assert(header@ =~= header_text(self.name@, total_additions as nat, total_changes as nat, total_deletions as nat));
        }
        let mut out = String::new();
        append_shown(&mut out, table_symbol.text(), table_symbol, colored);
        append_shown(&mut out, header.as_str(), table_symbol, colored);
        out.append("\n");
        let additions = sort_by_name(clone_strings(&self.additions), NameOrdering::Natural);
        append_item_lines(&mut out, &additions, DiffSymbol::Addition, colored);
        let changes = sort_by_name(clone_strings(&self.changes), NameOrdering::Natural);
        append_item_lines(&mut out, &changes, DiffSymbol::Change, colored);
        let deletions = sort_by_name(clone_strings(&self.deletions), NameOrdering::Natural);
        append_item_lines(&mut out, &deletions, DiffSymbol::Deletion, colored);
        out
    }
}

} // verus!

verus! {

/// The table a statement is about: the table that a `DEFINE TABLE` defines
/// or the table of a `DEFINE FIELD`.
pub open spec fn statement_table(s: Statement) -> Option<Seq<char>> {
    match s {
        Statement::Define(DefineStatement::Table(t)) => Some(t.name@),
        Statement::Define(DefineStatement::Field(f)) => Some(f.what@),
        _ => None,
    }
}

/// The tables the statements are about, in order.
pub open spec fn statement_tables(s: Seq<Statement>) -> Seq<Seq<char>>
    decreases s.len(),
{
    if s.len() == 0 {
        Seq::empty()
    } else {
        match statement_table(s.last()) {
            Some(t) => statement_tables(s.drop_last()).push(t),
            None => statement_tables(s.drop_last()),
        }
    }
}

/// The `DEFINE FIELD` statements on `table`, in order.
pub open spec fn fields_on(s: Seq<Statement>, table: Seq<char>) -> Seq<DefineFieldStatement>
    decreases s.len(),
{
    if s.len() == 0 {
        Seq::empty()
    } else {
        match s.last() {
            Statement::Define(DefineStatement::Field(f)) => if f.what@ == table {
                fields_on(s.drop_last(), table).push(f)
            } else {
                fields_on(s.drop_last(), table)
            },
            _ => fields_on(s.drop_last(), table),
        }
    }
}

/// The names of field definitions.
pub open spec fn field_names(defs: Seq<DefineFieldStatement>) -> Seq<Seq<char>> {
    defs.map_values(|d: DefineFieldStatement| d.name@)
}

/// `"[*]"` occurs in `name` at position `i`.
pub open spec fn array_marker_at(name: Seq<char>, i: int) -> bool {
    0 <= i && i + 3 <= name.len() && name[i] == '[' && name[i + 1] == '*' && name[i + 2] == ']'
}

/// `"[*]"` occurs in `name`.
pub open spec fn has_array_marker(name: Seq<char>) -> bool {
    exists|i: int| #[trigger] array_marker_at(name, i)
}

/// A field that the server adds by itself: an array item field, or the `in`
/// and `out` fields of an edge.
pub open spec fn is_server_field(name: Seq<char>) -> bool {
    has_array_marker(name) || name == "in"@ || name == "out"@
}

/// The names that are not server fields, in order.
pub open spec fn client_fields(names: Seq<Seq<char>>) -> Seq<Seq<char>>
    decreases names.len(),
{
    if names.len() == 0 {
        Seq::empty()
    } else if is_server_field(names.last()) {
        client_fields(names.drop_last())
    } else {
        client_fields(names.drop_last()).push(names.last())
    }
}

/// The first definition named `name`.
pub open spec fn first_named(defs: Seq<DefineFieldStatement>, name: Seq<char>) -> Option<DefineFieldStatement>
    decreases defs.len(),
{
    if defs.len() == 0 {
        None
    } else if defs[0].name@ == name {
        Some(defs[0])
    } else {
        first_named(defs.drop_first(), name)
    }
}

/// The two definitions of a field do not say the same of what it holds.
pub open spec fn definitions_differ(a: DefineFieldStatement, b: DefineFieldStatement) -> bool {
    ||| a.readonly != b.readonly
    ||| opt_view(a.assert) != opt_view(b.assert)
    ||| opt_view(a.default) != opt_view(b.default)
    ||| opt_view(a.kind) != opt_view(b.kind)
    ||| a.permissions@ != b.permissions@
    ||| opt_view(a.reference) != opt_view(b.reference)
}

/// Names of the remote definitions that differ from the first local
/// definition of the same name, in order.
pub open spec fn changed_field_names(remote: Seq<DefineFieldStatement>, local: Seq<DefineFieldStatement>) -> Seq<Seq<char>>
    decreases remote.len(),
{
    if remote.len() == 0 {
        Seq::empty()
    } else {
        let rest = changed_field_names(remote.drop_last(), local);
        match first_named(local, remote.last().name@) {
            Some(l) => if definitions_differ(remote.last(), l) { rest.push(remote.last().name@) } else { rest },
            None => rest,
        }
    }
}

/// The view of a table diff: its name and its three lists.
pub open spec fn table_diff_view(d: TableDiff) -> (Seq<char>, Seq<Seq<char>>, Seq<Seq<char>>, Seq<Seq<char>>) {
    (d.name@, views(d.additions@), views(d.changes@), views(d.deletions@))
}

/// The views of table diffs.
pub open spec fn diff_views(diffs: Seq<TableDiff>) -> Seq<(Seq<char>, Seq<Seq<char>>, Seq<Seq<char>>, Seq<Seq<char>>)> {
    diffs.map_values(|d: TableDiff| table_diff_view(d))
}

/// The differences of table `t` between the local and the remote
/// definitions: fields only defined locally, fields whose definitions
/// differ, and fields only defined remotely (save those the server adds).
pub open spec fn spec_table_diff(local: Seq<Statement>, remote: Seq<Statement>, t: Seq<char>) -> (Seq<char>, Seq<Seq<char>>, Seq<Seq<char>>, Seq<Seq<char>>) {
    let lf = fields_on(local, t);
    let rf = fields_on(remote, t);
    (
        t,
        dedup(names_absent_from(field_names(lf), field_names(rf))),
        dedup(changed_field_names(rf, lf)),
        dedup(client_fields(names_absent_from(field_names(rf), field_names(lf)))),
    )
}

/// The diffs of the tables with a difference, in the order of `tables`.
pub open spec fn table_diffs_for(tables: Seq<Seq<char>>, local: Seq<Statement>, remote: Seq<Statement>) -> Seq<(Seq<char>, Seq<Seq<char>>, Seq<Seq<char>>, Seq<Seq<char>>)>
    decreases tables.len(),
{
    if tables.len() == 0 {
        Seq::empty()
    } else {
        let rest = table_diffs_for(tables.drop_last(), local, remote);
        let d = spec_table_diff(local, remote, tables.last());
        if d.1.len() > 0 || d.2.len() > 0 || d.3.len() > 0 {
            rest.push(d)
        } else {
            rest
        }
    }
}

/// The diffs of all tables that the local or the remote definitions are
/// about, in the order of their first mention (local first).
pub open spec fn spec_table_diffs(local: Seq<Statement>, remote: Seq<Statement>) -> Seq<(Seq<char>, Seq<Seq<char>>, Seq<Seq<char>>, Seq<Seq<char>>)> {
    table_diffs_for(dedup(statement_tables(local) + statement_tables(remote)), local, remote)
}

impl DefineFieldStatement {
    /// A copy of the definition.
    pub fn duplicate(&self) -> (r: Self)
        ensures
            r == *self,
    {
        DefineFieldStatement {
            name: self.name.clone(),
            what: self.what.clone(),
            readonly: self.readonly,
            assert: clone_option(&self.assert),
            default: clone_option(&self.default),
            kind: clone_option(&self.kind),
            permissions: self.permissions.clone(),
            reference: clone_option(&self.reference),
        }
    }
}

/// The tables the statements are about, in order.
fn tables_of(statements: &Vec<Statement>) -> (r: Vec<String>)
    ensures
        views(r@) == statement_tables(statements@),
{
    let mut r: Vec<String> = Vec::new();
    let mut i: usize = 0;
    while i < statements.len()
        invariant
            i <= statements.len(),
            views(r@) == statement_tables(statements@.take(i as int)),
        decreases statements.len() - i,
    {
        let ghost before = r@;
        assert(statements@.take(i + 1).drop_last() =~= statements@.take(i as int));
        assert(statements@.take(i + 1).last() == statements@[i as int]);
        match &statements[i] {
            Statement::Define(DefineStatement::Table(t)) => {
                r.push(t.name.clone());
                assert(views(r@) =~= views(before).push(t.name@));
            },
            Statement::Define(DefineStatement::Field(f)) => {
                r.push(f.what.clone());
                assert(views(r@) =~= views(before).push(f.what@));
            },
            _ => {},
        }
        i = i + 1;
    }
    assert(statements@.take(statements.len() as int) =~= statements@);
    r
}

/// The `DEFINE FIELD` statements on `table`, in order.
fn field_definitions_on(statements: &Vec<Statement>, table: &str) -> (r: Vec<DefineFieldStatement>)
    ensures
        r@ == fields_on(statements@, table@),
{
    let mut r: Vec<DefineFieldStatement> = Vec::new();
    let mut i: usize = 0;
    while i < statements.len()
        invariant
            i <= statements.len(),
            r@ == fields_on(statements@.take(i as int), table@),
        decreases statements.len() - i,
    {
        assert(statements@.take(i + 1).drop_last() =~= statements@.take(i as int));
        assert(statements@.take(i + 1).last() == statements@[i as int]);
        match &statements[i] {
            Statement::Define(DefineStatement::Field(f)) => {
                if str_eq(f.what.as_str(), table) {
                    r.push(f.duplicate());
                }
            },
            _ => {},
        }
        i = i + 1;
    }
    assert(statements@.take(statements.len() as int) =~= statements@);
    r
}

/// The names of field definitions.
fn names_of_fields(defs: &Vec<DefineFieldStatement>) -> (r: Vec<String>)
    ensures
        views(r@) == field_names(defs@),
{
    let mut r: Vec<String> = Vec::new();
    let mut i: usize = 0;
    while i < defs.len()
        invariant
            i <= defs.len(),
            views(r@) == field_names(defs@.take(i as int)),
        decreases defs.len() - i,
    {
        r.push(defs[i].name.clone());
        assert(field_names(defs@.take(i + 1)) =~= field_names(defs@.take(i as int)).push(defs@[i as int].name@));
        assert(views(r@) =~= field_names(defs@.take(i + 1)));
        i = i + 1;
    }
    assert(defs@.take(defs.len() as int) =~= defs@);
    r
}

/// Whether the server adds the field by itself.
fn is_server_field_name(name: &str) -> (r: bool)
    ensures
        r == is_server_field(name@),
{
    let v = chars_of(name);
    let mut i: usize = 0;
    while v.len() >= 3 && i <= v.len() - 3
        invariant
            v@ == name@,
            i <= v.len(),
            forall|k: int| 0 <= k < i ==> !#[trigger] array_marker_at(name@, k),
        decreases v.len() - i,
    {
        if v[i] == '[' && v[i + 1] == '*' && v[i + 2] == ']' {
            assert(array_marker_at(name@, i as int));
            return true;
        }
        i = i + 1;
    }
    assert forall|k: int| !#[trigger] array_marker_at(name@, k) by {
        if 0 <= k && k < i {
        }
    }
    str_eq(name, "in") || str_eq(name, "out")
}

/// The names that are not server fields, in order.
fn keep_client_fields(names: &Vec<String>) -> (r: Vec<String>)
    ensures
        views(r@) == client_fields(views(names@)),
{
    let mut r: Vec<String> = Vec::new();
    let mut i: usize = 0;
    while i < names.len()
        invariant
            i <= names.len(),
            views(r@) == client_fields(views(names@.take(i as int))),
        decreases names.len() - i,
    {
        let ghost before = r@;
        assert(views(names@.take(i + 1)).drop_last() =~= views(names@.take(i as int)));
        assert(views(names@.take(i + 1)).last() == names@[i as int]@);
        if !is_server_field_name(names[i].as_str()) {
            r.push(names[i].clone());
            assert(views(r@) =~= views(before).push(names@[i as int]@));
        }
        i = i + 1;
    }
    assert(names@.take(names.len() as int) =~= names@);
    r
}

/// Whether two optional texts are equal.
fn same_option(a: &Option<String>, b: &Option<String>) -> (r: bool)
    ensures
        r == (opt_view(*a) == opt_view(*b)),
{
    match (a, b) {
        (Some(x), Some(y)) => str_eq(x.as_str(), y.as_str()),
        (None, None) => true,
        _ => false,
    }
}

/// Whether the two definitions of a field differ (see `definitions_differ`).
fn field_definitions_differ(a: &DefineFieldStatement, b: &DefineFieldStatement) -> (r: bool)
    ensures
        r == definitions_differ(*a, *b),
{
    a.readonly != b.readonly
        || !same_option(&a.assert, &b.assert)
        || !same_option(&a.default, &b.default)
        || !same_option(&a.kind, &b.kind)
        || !str_eq(a.permissions.as_str(), b.permissions.as_str())
        || !same_option(&a.reference, &b.reference)
}

/// Position of the first definition named `name`.
fn find_first_named(defs: &Vec<DefineFieldStatement>, name: &str) -> (r: Option<usize>)
    ensures
        match r {
            Some(k) => k < defs@.len() && first_named(defs@, name@) == Some(defs@[k as int]),
            None => first_named(defs@, name@) is None,
        },
{
    let mut i: usize = 0;
    assert(defs@.skip(0) =~= defs@);
    while i < defs.len()
        invariant
            i <= defs.len(),
            first_named(defs@, name@) == first_named(defs@.skip(i as int), name@),
        decreases defs.len() - i,
    {
        assert(defs@.skip(i as int)[0] == defs@[i as int]);
        if str_eq(defs[i].name.as_str(), name) {
            return Some(i);
        }
        assert(defs@.skip(i as int).drop_first() =~= defs@.skip(i + 1));
        i = i + 1;
    }
    None
}

/// Names of the remote definitions that differ from their local
/// counterpart (see `changed_field_names`).
fn select_changed_fields(remote: &Vec<DefineFieldStatement>, local: &Vec<DefineFieldStatement>) -> (r: Vec<String>)
    ensures
        views(r@) == changed_field_names(remote@, local@),
{
    let mut r: Vec<String> = Vec::new();
    let mut i: usize = 0;
    while i < remote.len()
        invariant
            i <= remote.len(),
            views(r@) == changed_field_names(remote@.take(i as int), local@),
        decreases remote.len() - i,
    {
        let ghost before = r@;
        assert(remote@.take(i + 1).drop_last() =~= remote@.take(i as int));
        assert(remote@.take(i + 1).last() == remote@[i as int]);
        match find_first_named(local, remote[i].name.as_str()) {
            Some(k) => {
                if field_definitions_differ(&remote[i], &local[k]) {
                    r.push(remote[i].name.clone());
                    assert(views(r@) =~= views(before).push(remote@[i as int].name@));
                }
            },
            None => {},
        }
        i = i + 1;
    }
    assert(remote@.take(remote.len() as int) =~= remote@);
    r
}

/// The differences of table `t` (see `spec_table_diff`).
fn table_diff(local: &Vec<Statement>, remote: &Vec<Statement>, t: &String) -> (r: TableDiff)
    ensures
        table_diff_view(r) == spec_table_diff(local@, remote@, t@),
        r.well_formed(),
{
    let local_fields = field_definitions_on(local, t.as_str());
    let remote_fields = field_definitions_on(remote, t.as_str());
    let local_names = names_of_fields(&local_fields);
    let remote_names = names_of_fields(&remote_fields);
    let additions = dedup_names(&select_names_absent_from(&local_names, &remote_names));
    let changes = dedup_names(&select_changed_fields(&remote_fields, &local_fields));
    let deletions = dedup_names(&keep_client_fields(&select_names_absent_from(&remote_names, &local_names)));
    TableDiff { name: t.clone(), additions, changes, deletions }
}

/// The differences between the local and the remote definitions, one per
/// table with a difference (see `spec_table_diffs`).
pub fn compute_table_diffs(local: &Vec<Statement>, remote: &Vec<Statement>) -> (r: Vec<TableDiff>)
    ensures
        diff_views(r@) == spec_table_diffs(local@, remote@),
        forall|i: int| 0 <= i < r@.len() ==> (#[trigger] r@[i]).well_formed(),
{
    let mut all_tables = tables_of(local);
    let mut remote_tables = tables_of(remote);
    let ghost a = all_tables@;
    let ghost b = remote_tables@;
    all_tables.append(&mut remote_tables);
    assert(views(all_tables@) =~= views(a) + views(b));
    let tables = dedup_names(&all_tables);
    let ghost tv = views(tables@);
    let mut r: Vec<TableDiff> = Vec::new();
    let mut i: usize = 0;
    while i < tables.len()
        invariant
            i <= tables.len(),
            tv == views(tables@),
            r@.map_values(|d: TableDiff| table_diff_view(d)) == table_diffs_for(tv.take(i as int), local@, remote@),
            forall|k: int| 0 <= k < r@.len() ==> (#[trigger] r@[k]).well_formed(),
        decreases tables.len() - i,
    {
        let ghost before = r@;
        assert(tv.take(i + 1).drop_last() =~= tv.take(i as int));
        assert(tv.take(i + 1).last() == tables@[i as int]@);
        let d = table_diff(local, remote, &tables[i]);
        if d.additions.len() > 0 || d.changes.len() > 0 || d.deletions.len() > 0 {
            r.push(d);
            assert(r@.map_values(|d: TableDiff| table_diff_view(d)) =~= before.map_values(|d: TableDiff| table_diff_view(d)).push(table_diff_view(d)));
        }
        i = i + 1;
    }
    assert(tv.take(tables.len() as int) =~= tv);
    r
}

} // verus!

verus! {

/// The names of the table and of its listed fields are accepted by natural
/// ordering.
pub open spec fn lists_safe(d: TableDiff) -> bool {
    names_safe(d.additions@) && names_safe(d.changes@) && names_safe(d.deletions@)
}

/// Every name of the diffs is accepted by natural ordering.
pub open spec fn diffs_safe(diffs: Seq<TableDiff>) -> bool {
    names_safe(diffs) && forall|i: int| 0 <= i < diffs.len() ==> lists_safe(#[trigger] diffs[i])
}

/// Every diff lists each field once per list.
pub open spec fn diffs_well_formed(diffs: Seq<TableDiff>) -> bool {
    forall|i: int| 0 <= i < diffs.len() ==> (#[trigger] diffs[i]).well_formed()
}

/// The texts of the diffs, each followed by a line break.
pub open spec fn diffs_text(diffs: Seq<TableDiff>, colored: bool) -> Seq<char>
    decreases diffs.len(),
{
    if diffs.len() == 0 {
        Seq::empty()
    } else {
        diffs_text(diffs.drop_last(), colored) + table_diff_text(diffs.last(), colored) + "\n"@
    }
}

/// The report of the `diff` command: a notice when there is no difference,
/// else each table diff in the natural order of table names.
pub open spec fn report_text(diffs: Seq<TableDiff>, colored: bool) -> Seq<char> {
    if diffs.len() == 0 {
        "No changes detected.\n"@
    } else {
        diffs_text(sorted_by_name(diffs, NameOrdering::Natural), colored)
    }
}

/// The report of the `diff` command (see `report_text`).
pub fn diff_report(diffs: Vec<TableDiff>, colored: bool) -> (r: String)
    requires
        diffs_safe(diffs@),
        diffs_well_formed(diffs@),
    ensures
        r@ == report_text(diffs@, colored),
{
    if diffs.len() == 0 {
        return String::from_str("No changes detected.\n");
    }
    let ghost orig = diffs@;
    let sorted = sort_by_name(diffs, NameOrdering::Natural);
    let mut out = String::new();
    let mut i: usize = 0;
    while i < sorted.len()
        invariant
            i <= sorted.len(),
            diffs_safe(orig),
            diffs_well_formed(orig),
            sorted@ == sorted_by_name(orig, NameOrdering::Natural),
            out@ == diffs_text(sorted@.take(i as int), colored),
        decreases sorted.len() - i,
    {
        proof {
            crate::laws::lemma_sorted_contains(orig, NameOrdering::Natural, sorted@[i as int]);
            assert(sorted@.contains(sorted@[i as int]));
            let k = choose|k: int| 0 <= k < orig.len() && orig[k] == sorted@[i as int];
            assert(lists_safe(orig[k]));
            assert(orig[k].well_formed());
        }
        let text = sorted[i].to_text(colored);
        out.append(text.as_str());
        out.append("\n");
        proof {
            assert(sorted@.take(i + 1).drop_last() =~= sorted@.take(i as int));
            assert(sorted@.take(i + 1).last() == sorted@[i as int]);
        }
        i = i + 1;
    }
    assert(sorted@.take(sorted.len() as int) =~= sorted@);
    out
}

/// Whether natural ordering accepts every name of the list.
pub fn all_natural_order_safe(names: &Vec<String>) -> (r: bool)
    ensures
        r == names_safe(names@),
{
    let mut i: usize = 0;
    while i < names.len()
        invariant
            i <= names.len(),
            forall|k: int| 0 <= k < i ==> natural_order_safe(#[trigger] names@[k].name_view()),
        decreases names.len() - i,
    {
        let ok = is_natural_order_safe(names[i].as_str());
        assert(names@[i as int].name_view() == names@[i as int]@);
        if !ok {
            return false;
        }
        i = i + 1;
    }
    true
}

/// Whether natural ordering accepts every name of the diffs.
pub fn diffs_are_safe(diffs: &Vec<TableDiff>) -> (r: bool)
    ensures
        r == diffs_safe(diffs@),
{
    let mut i: usize = 0;
    while i < diffs.len()
        invariant
            i <= diffs.len(),
            forall|k: int| #![trigger diffs@[k]] 0 <= k < i ==> natural_order_safe(diffs@[k].name_view()) && lists_safe(diffs@[k]),
        decreases diffs.len() - i,
    {
        let d = &diffs[i];
        let ok = is_natural_order_safe(d.name.as_str()) && all_natural_order_safe(&d.additions)
            && all_natural_order_safe(&d.changes) && all_natural_order_safe(&d.deletions);
        assert(diffs@[i as int].name_view() == diffs@[i as int].name@);
        if !ok {
            assert(!(natural_order_safe(diffs@[i as int].name_view()) && lists_safe(diffs@[i as int])));
            return false;
        }
        assert(natural_order_safe(diffs@[i as int].name_view()) && lists_safe(diffs@[i as int]));
        i = i + 1;
    }
    true
}

/// The report of the `diff` command for the local and the remote
/// definitions; nothing when some name is beyond natural ordering.
pub fn render_diff(local: &Vec<Statement>, remote: &Vec<Statement>, colored: bool) -> (r: Option<String>)
    ensures
        exists|diffs: Seq<TableDiff>| {
            &&& #[trigger] diff_views(diffs) == spec_table_diffs(local@, remote@)
            &&& if diffs_safe(diffs) {
                r matches Some(text) && text@ == report_text(diffs, colored)
            } else {
                r is None
            }
        },
{
    let diffs = compute_table_diffs(local, remote);
    let ghost d = diffs@;
    if diffs_are_safe(&diffs) {
        Some(diff_report(diffs, colored))
    } else {
        None
    }
}

} // verus!
