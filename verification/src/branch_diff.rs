use vstd::prelude::*;

use crate::definitions::{create_patch_text, patch_text};
use crate::diff::{decimal, decimal_text};
use crate::io::join_lines;
use crate::sorting::{sort_by_name, sorted_by_name, NameOrdering};
use crate::statements::views;
use crate::strings::str_eq;

verus! {

/// The statements that ask for the definition of each table, one per line.
pub open spec fn table_info_queries_text(tables: Seq<String>) -> Seq<char> {
    join_lines(tables.map_values(|t: String| "INFO FOR TABLE "@ + t@ + ";"@))
}

/// Builds the statements that ask for the definition of each table.
pub fn table_info_queries(tables: &Vec<String>) -> (r: String)
    ensures
        r@ == table_info_queries_text(tables@),
{
    let mut r = String::new();
    let mut i: usize = 0;
    while i < tables.len()
        invariant
            i <= tables.len(),
            r@ == table_info_queries_text(tables@.take(i as int)),
        decreases tables.len() - i,
    {
        let ghost before = tables@.take(i as int).map_values(|t: String| "INFO FOR TABLE "@ + t@ + ";"@);
        let ghost after = tables@.take(i + 1).map_values(|t: String| "INFO FOR TABLE "@ + t@ + ";"@);
        assert(after.drop_last() =~= before);
        assert(after.last() == "INFO FOR TABLE "@ + tables@[i as int]@ + ";"@);
        if i > 0 {
            r.append("\n");
        }
        r.append("INFO FOR TABLE ");
        r.append(tables[i].as_str());
        r.append(";");
        proof {
            reveal_strlit("\n");
            if i == 0 {
                assert(after.len() == 1);
                assert(r@ =~= after[0]);
            } else {
                assert(r@ =~= join_lines(before) + seq!['\n'] + after.last());
            }
        }
        i = i + 1;
    }
    assert(tables@.take(tables.len() as int) =~= tables@);
    r
}

/// The full definition of a table: its own definition, then its events,
/// fields, foreign tables and indexes, each group in the order of
/// characters, one definition per line.
pub open spec fn full_table_definition_text(
    table_definition: Seq<char>,
    events: Seq<String>,
    fields: Seq<String>,
    tables: Seq<String>,
    indexes: Seq<String>,
) -> Seq<char> {
    join_lines(
        seq![table_definition]
            + views(sorted_by_name(events, NameOrdering::Plain))
            + views(sorted_by_name(fields, NameOrdering::Plain))
            + views(sorted_by_name(tables, NameOrdering::Plain))
            + views(sorted_by_name(indexes, NameOrdering::Plain)),
    )
}

/// Appends each text on a line of its own.
fn append_lines(out: &mut String, lines: &Vec<String>)
    ensures
        join_lines(seq![old(out)@] + views(lines@)) == final(out)@,
{
    let ghost start = out@;
    let mut i: usize = 0;
    assert(seq![start] + views(lines@.take(0)) =~= seq![start]);
    while i < lines.len()
        invariant
            i <= lines.len(),
            out@ == join_lines(seq![start] + views(lines@.take(i as int))),
        decreases lines.len() - i,
    {
        let ghost before = seq![start] + views(lines@.take(i as int));
        let ghost after = seq![start] + views(lines@.take(i + 1));
        assert(after.drop_last() =~= before);
        assert(after.last() == lines@[i as int]@);
        out.append("\n");
        out.append(lines[i].as_str());
        proof {
            reveal_strlit("\n");
            assert(out@ =~= join_lines(before) + seq!['\n'] + after.last());
        }
        i = i + 1;
    }
    assert(lines@.take(lines.len() as int) =~= lines@);
}

proof fn lemma_join_lines_concat(a: Seq<Seq<char>>, b: Seq<Seq<char>>)
    requires
        a.len() > 0,
    ensures
        join_lines(seq![join_lines(a)] + b) == join_lines(a + b),
    decreases b.len(),
{
    if b.len() == 0 {
        assert(seq![join_lines(a)] + b =~= seq![join_lines(a)]);
        assert(a + b =~= a);
    } else {
        lemma_join_lines_concat(a, b.drop_last());
        assert((seq![join_lines(a)] + b).drop_last() =~= seq![join_lines(a)] + b.drop_last());
        assert((a + b).drop_last() =~= a + b.drop_last());
    }
}

/// Builds the full definition of a table (see `full_table_definition_text`).
pub fn full_table_definition(
    table_definition: &str,
    events: Vec<String>,
    fields: Vec<String>,
    tables: Vec<String>,
    indexes: Vec<String>,
) -> (r: String)
    ensures
        r@ == full_table_definition_text(table_definition@, events@, fields@, tables@, indexes@),
{
    let e = sort_by_name(events, NameOrdering::Plain);
    let f = sort_by_name(fields, NameOrdering::Plain);
    let t = sort_by_name(tables, NameOrdering::Plain);
    let x = sort_by_name(indexes, NameOrdering::Plain);
    let mut r = String::from_str(table_definition);
    let ghost s0 = seq![table_definition@];
    append_lines(&mut r, &e);
    proof {
        lemma_join_lines_concat(s0, views(e@));
    }
    let ghost s1 = s0 + views(e@);
    append_lines(&mut r, &f);
    proof {
        lemma_join_lines_concat(s1, views(f@));
    }
    let ghost s2 = s1 + views(f@);
    append_lines(&mut r, &t);
    proof {
        lemma_join_lines_concat(s2, views(t@));
    }
    let ghost s3 = s2 + views(t@);
    append_lines(&mut r, &x);
    proof {
        lemma_join_lines_concat(s3, views(x@));
    }
    r
}

/// The definition of `table` in a list of table definitions: the first one.
pub open spec fn definition_of(definitions: Seq<(String, String)>, table: Seq<char>) -> Option<Seq<char>>
    decreases definitions.len(),
{
    if definitions.len() == 0 {
        None
    } else if definitions[0].0@ == table {
        Some(definitions[0].1@)
    } else {
        definition_of(definitions.drop_first(), table)
    }
}

/// Looks up the definition of `table`.
fn find_definition(definitions: &Vec<(String, String)>, table: &str) -> (r: Option<usize>)
    ensures
        match r {
            Some(i) => i < definitions@.len() && definition_of(definitions@, table@) == Some(definitions@[i as int].1@),
            None => definition_of(definitions@, table@) is None,
        },
{
    let mut i: usize = 0;
    assert(definitions@.skip(0) =~= definitions@);
    while i < definitions.len()
        invariant
            i <= definitions.len(),
            definition_of(definitions@, table@) == definition_of(definitions@.skip(i as int), table@),
        decreases definitions.len() - i,
    {
        assert(definitions@.skip(i as int)[0] == definitions@[i as int]);
        if str_eq(definitions[i].0.as_str(), table) {
            return Some(i);
        }
        assert(definitions@.skip(i as int).drop_first() =~= definitions@.skip(i + 1));
        i = i + 1;
    }
    None
}

/// The tables of `a` (in order) that `b` does not define.
pub open spec fn tables_missing_from(a: Seq<(String, String)>, b: Seq<(String, String)>) -> Seq<Seq<char>>
    decreases a.len(),
{
    if a.len() == 0 {
        Seq::empty()
    } else {
        let rest = tables_missing_from(a.drop_last(), b);
        if definition_of(b, a.last().0@) is None { rest.push(a.last().0@) } else { rest }
    }
}

/// The tables of `origin` (in order) whose definition in `branch` differs.
pub open spec fn tables_altered(origin: Seq<(String, String)>, branch: Seq<(String, String)>) -> Seq<Seq<char>>
    decreases origin.len(),
{
    if origin.len() == 0 {
        Seq::empty()
    } else {
        let rest = tables_altered(origin.drop_last(), branch);
        let t = origin.last().0@;
        match (definition_of(origin, t), definition_of(branch, t)) {
            (Some(a), Some(b)) => if a != b { rest.push(t) } else { rest },
            _ => rest,
        }
    }
}

/// The tables created, altered and removed in a branch.
pub struct BranchSchemaChanges {
    pub created: Vec<String>,
    pub altered: Vec<String>,
    pub removed: Vec<String>,
}

/// Compares the table definitions of a branch with those of its origin:
/// tables only the branch defines, tables whose definitions differ, and
/// tables only the origin defines.
pub fn compare_branch_tables(origin: &Vec<(String, String)>, branch: &Vec<(String, String)>) -> (r: BranchSchemaChanges)
    ensures
        views(r.created@) == tables_missing_from(branch@, origin@),
        views(r.altered@) == tables_altered(origin@, branch@),
        views(r.removed@) == tables_missing_from(origin@, branch@),
{
    let created = select_missing(branch, origin);
    let removed = select_missing(origin, branch);
    let mut altered: Vec<String> = Vec::new();
    let mut i: usize = 0;
    while i < origin.len()
        invariant
            i <= origin.len(),
            views(altered@) == tables_altered(origin@.take(i as int), branch@),
        decreases origin.len() - i,
    {
        let ghost before = altered@;
        let ghost prefix = origin@.take(i + 1);
        assert(prefix.drop_last() =~= origin@.take(i as int));
        assert(prefix.last() == origin@[i as int]);
        let t = &origin[i].0;
        proof {
            lemma_definition_of_prefix(origin@, i as int);
        }
        let a = find_definition(origin, t.as_str());
        let b = find_definition(branch, t.as_str());
        if let (Some(ia), Some(ib)) = (a, b) {
            if !str_eq(origin[ia].1.as_str(), branch[ib].1.as_str()) {
                altered.push(t.clone());
                assert(views(altered@) =~= views(before).push(t@));
            }
        }
        i = i + 1;
    }
    assert(origin@.take(origin.len() as int) =~= origin@);
    BranchSchemaChanges { created, altered, removed }
}

/// The definition of the last table of a prefix is its definition in the
/// whole list.
pub(crate) proof fn lemma_definition_of_prefix(s: Seq<(String, String)>, i: int)
    requires
        0 <= i < s.len(),
    ensures
        definition_of(s.take(i + 1), s[i].0@) == definition_of(s, s[i].0@),
    decreases i,
{
    if s[0].0@ != s[i].0@ {
        assert(s.take(i + 1).drop_first() =~= s.drop_first().take(i));
        lemma_definition_of_prefix(s.drop_first(), i - 1);
    }
}

/// The tables of `a` that `b` does not define.
fn select_missing(a: &Vec<(String, String)>, b: &Vec<(String, String)>) -> (r: Vec<String>)
    ensures
        views(r@) == tables_missing_from(a@, b@),
{
    let mut r: Vec<String> = Vec::new();
    let mut i: usize = 0;
    while i < a.len()
        invariant
            i <= a.len(),
            views(r@) == tables_missing_from(a@.take(i as int), b@),
        decreases a.len() - i,
    {
        let ghost before = r@;
        assert(a@.take(i + 1).drop_last() =~= a@.take(i as int));
        assert(a@.take(i + 1).last() == a@[i as int]);
        if find_definition(b, a[i].0.as_str()).is_none() {
            r.push(a[i].0.clone());
            assert(views(r@) =~= views(before).push(a@[i as int].0@));
        }
        i = i + 1;
    }
    assert(a@.take(a.len() as int) =~= a@);
    r
}

/// One section per table: a blank line, its name between `##`, a blank
/// line, then its text.
pub open spec fn table_sections(tables: Seq<Seq<char>>, texts: Seq<Seq<char>>) -> Seq<char>
    decreases tables.len(),
{
    if tables.len() == 0 || texts.len() != tables.len() {
        Seq::empty()
    } else {
        table_sections(tables.drop_last(), texts.drop_last()) + "\n## "@ + tables.last() + " ##\n\n"@ + texts.last() + "\n"@
    }
}

/// The definitions of the tables in a list of table definitions (empty for
/// a table it lacks).
pub open spec fn definitions_of(definitions: Seq<(String, String)>, tables: Seq<Seq<char>>) -> Seq<Seq<char>> {
    tables.map_values(|t: Seq<char>| match definition_of(definitions, t) { Some(d) => d, None => Seq::empty() })
}

/// The patches from the origin's to the branch's definition of each table.
pub open spec fn patches_of(origin: Seq<(String, String)>, branch: Seq<(String, String)>, tables: Seq<Seq<char>>) -> Seq<Seq<char>> {
    tables.map_values(|t: Seq<char>| patch_text(
        match definition_of(origin, t) { Some(d) => d, None => Seq::empty() },
        match definition_of(branch, t) { Some(d) => d, None => Seq::empty() },
    ))
}

/// A section of the report: its title with the number of tables, then one
/// section per table; nothing without tables.
pub open spec fn report_section(label: Seq<char>, tables: Seq<Seq<char>>, texts: Seq<Seq<char>>) -> Seq<char> {
    if tables.len() == 0 {
        Seq::empty()
    } else {
        "\n### "@ + decimal_text(tables.len()) + " tables "@ + label + " ###\n"@ + table_sections(tables, texts)
    }
}

/// The report of `branch diff`: the created tables with their definition,
/// the altered tables with the patch of their definition, the removed tables
/// with their former definition; or a notice that nothing changed.
pub open spec fn branch_diff_report_text(origin: Seq<(String, String)>, branch: Seq<(String, String)>) -> Seq<char> {
    let created = tables_missing_from(branch, origin);
    let altered = tables_altered(origin, branch);
    let removed = tables_missing_from(origin, branch);
    if created.len() == 0 && altered.len() == 0 && removed.len() == 0 {
        "No schema changes detected\n"@
    } else {
        "Schema changes detected:\n"@
            + report_section("created"@, created, definitions_of(branch, created))
            + report_section("altered"@, altered, patches_of(origin, branch, altered))
            + report_section("removed"@, removed, definitions_of(origin, removed))
    }
}

/// Appends a section of the report (see `report_section`).
fn append_section(out: &mut String, label: &str, tables: &Vec<String>, texts: &Vec<String>)
    requires
        tables@.len() == texts@.len(),
    ensures
        final(out)@ == old(out)@ + report_section(label@, views(tables@), views(texts@)),
{
    if tables.len() == 0 {
        return;
    }
    let ghost start = out@;
    out.append("\n### ");
    out.append(decimal(tables.len()).as_str());
    out.append(" tables ");
    out.append(label);
    out.append(" ###\n");
    let ghost head = out@;
    let mut i: usize = 0;
    while i < tables.len()
        invariant
            i <= tables.len(),
            tables@.len() == texts@.len(),
            out@ == head + table_sections(views(tables@.take(i as int)), views(texts@.take(i as int))),
        decreases tables.len() - i,
    {
        assert(views(tables@.take(i + 1)).drop_last() =~= views(tables@.take(i as int)));
        assert(views(texts@.take(i + 1)).drop_last() =~= views(texts@.take(i as int)));
        assert(views(tables@.take(i + 1)).last() == tables@[i as int]@);
        assert(views(texts@.take(i + 1)).last() == texts@[i as int]@);
        out.append("\n## ");
        out.append(tables[i].as_str());
        out.append(" ##\n\n");
        out.append(texts[i].as_str());
        out.append("\n");
        i = i + 1;
    }
    assert(tables@.take(tables.len() as int) =~= tables@);
    assert(texts@.take(texts.len() as int) =~= texts@);
}

/// The definitions of the tables (empty for a table the list lacks).
fn collect_definitions(definitions: &Vec<(String, String)>, tables: &Vec<String>) -> (r: Vec<String>)
    ensures
        views(r@) == definitions_of(definitions@, views(tables@)),
        r@.len() == tables@.len(),
{
    let mut r: Vec<String> = Vec::new();
    let mut i: usize = 0;
    while i < tables.len()
        invariant
            i <= tables.len(),
            views(r@) == definitions_of(definitions@, views(tables@.take(i as int))),
        decreases tables.len() - i,
    {
        let ghost before = r@;
        let d = match find_definition(definitions, tables[i].as_str()) {
            Some(k) => definitions[k].1.clone(),
            None => String::new(),
        };
        r.push(d);
        assert(views(tables@.take(i + 1)) =~= views(tables@.take(i as int)).push(tables@[i as int]@));
        assert(views(r@) =~= views(before).push(r@.last()@));
        assert(views(r@) =~= definitions_of(definitions@, views(tables@.take(i + 1))));
        i = i + 1;
    }
    assert(tables@.take(tables.len() as int) =~= tables@);
    r
}

/// The patches of the definitions of the tables.
fn collect_patches(origin: &Vec<(String, String)>, branch: &Vec<(String, String)>, tables: &Vec<String>) -> (r: Vec<String>)
    ensures
        views(r@) == patches_of(origin@, branch@, views(tables@)),
        r@.len() == tables@.len(),
{
    let before_texts = collect_definitions(origin, tables);
    let after_texts = collect_definitions(branch, tables);
    let mut r: Vec<String> = Vec::new();
    let mut i: usize = 0;
    while i < tables.len()
        invariant
            i <= tables.len(),
            views(before_texts@) == definitions_of(origin@, views(tables@)),
            views(after_texts@) == definitions_of(branch@, views(tables@)),
            before_texts@.len() == tables@.len(),
            after_texts@.len() == tables@.len(),
            views(r@) == patches_of(origin@, branch@, views(tables@.take(i as int))),
        decreases tables.len() - i,
    {
        let ghost before = r@;
        assert(views(before_texts@)[i as int] == before_texts@[i as int]@);
        assert(views(after_texts@)[i as int] == after_texts@[i as int]@);
        r.push(create_patch_text(before_texts[i].as_str(), after_texts[i].as_str()));
        assert(views(tables@.take(i + 1)) =~= views(tables@.take(i as int)).push(tables@[i as int]@));
        assert(views(r@) =~= views(before).push(r@.last()@));
        assert(views(r@) =~= patches_of(origin@, branch@, views(tables@.take(i + 1))));
        i = i + 1;
    }
    assert(tables@.take(tables.len() as int) =~= tables@);
    r
}

/// The report of `branch diff` (see `branch_diff_report_text`).
pub fn branch_diff_report(origin: &Vec<(String, String)>, branch: &Vec<(String, String)>) -> (r: String)
    ensures
        r@ == branch_diff_report_text(origin@, branch@),
{
    let changes = compare_branch_tables(origin, branch);
    if changes.created.len() == 0 && changes.altered.len() == 0 && changes.removed.len() == 0 {
        return String::from_str("No schema changes detected\n");
    }
    let mut r = String::from_str("Schema changes detected:\n");
    let created_texts = collect_definitions(branch, &changes.created);
    append_section(&mut r, "created", &changes.created, &created_texts);
    let altered_texts = collect_patches(origin, branch, &changes.altered);
    append_section(&mut r, "altered", &changes.altered, &altered_texts);
    let removed_texts = collect_definitions(origin, &changes.removed);
    append_section(&mut r, "removed", &changes.removed, &removed_texts);
    r
}

} // verus!
