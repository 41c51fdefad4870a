use vstd::prelude::*;

use crate::apply::{files_to_execute, is_applied, should_execute, spec_migration_files_to_execute};
use crate::branch_diff::{
    branch_diff_report_text, definition_of, definitions_of, patches_of, report_section, table_sections, tables_altered,
    tables_missing_from,
};
use crate::common::{first_underscore, skip_fields};
use crate::diff::decimal_text;
use crate::create::{is_date_stamp, is_time_stamp, migration_file_name};
use crate::definitions::apply_definition_diffs;
use crate::diff::{
    changed_field_names, definitions_differ, fields_on, first_named, spec_table_diff, spec_table_diffs,
    statement_tables, table_diffs_for,
};
use crate::io::{concat_order, insert_entry, sort_entries};
use crate::schema_import::{cased, schema_tables, SqlStatement};
use crate::file::{has_tag, spec_filter_by_tags, tags_disjoint, SurqlFile};
use crate::models::DefinitionDiff;
use crate::statements::{
    dedup, DefineFieldStatement, DefineStatement,
    event_keys, field_keys, keys_to_remove, names_absent_from, rollback_statements, table_names,
    RemoveStatementView, Statement,
};
use crate::models::{direction_of, ApplyOperationKind, MigrationDirection, ScriptMigration};
use crate::order::natural_lexical_rank;
use crate::sorting::{out_of_order, plain_rank, sorted_by_name, sorted_insert, Named, NameOrdering};

verus! {

broadcast use vstd::seq_lib::group_to_multiset_ensures;

/// The natural comparison of any two names of `s` is negated by swapping
/// them (as `compare_names` guarantees for each pair it compares).
pub open spec fn natural_rank_antisymmetric<T: Named>(s: Seq<T>) -> bool {
    forall|a: T, b: T|
        #![trigger s.contains(a), s.contains(b)]
        s.contains(a) && s.contains(b) ==> natural_lexical_rank(a.name_view(), b.name_view())
            == -natural_lexical_rank(b.name_view(), a.name_view())
}

/// No item of `s` is placed right before an item that must precede it.
pub open spec fn ordered_by_name<T: Named>(s: Seq<T>, order: NameOrdering) -> bool {
    forall|i: int, j: int|
        #![trigger s[i], s[j]]
        0 <= i && j == i + 1 && j < s.len() ==> !out_of_order(s[i].name_view(), s[j].name_view(), order)
}

proof fn lemma_plain_rank_antisymmetric(a: Seq<char>, b: Seq<char>)
    ensures
        plain_rank(a, b) == -plain_rank(b, a),
    decreases a.len(),
{
    if a.len() > 0 && b.len() > 0 && (a[0] as u32) == (b[0] as u32) {
        lemma_plain_rank_antisymmetric(a.drop_first(), b.drop_first());
    }
}

proof fn lemma_sorted_insert_multiset<T: Named>(l: Seq<T>, x: T, order: NameOrdering)
    ensures
        sorted_insert(l, x, order).to_multiset() =~= l.to_multiset().insert(x),
    decreases l.len(),
{
    if l.len() == 0 {
        assert(seq![x] =~= Seq::<T>::empty().push(x));
    } else if out_of_order(l.last().name_view(), x.name_view(), order) {
        lemma_sorted_insert_multiset(l.drop_last(), x, order);
        assert(l =~= l.drop_last().push(l.last()));
    }
}

proof fn lemma_sorted_by_name_multiset<T: Named>(s: Seq<T>, order: NameOrdering)
    ensures
        sorted_by_name(s, order).to_multiset() =~= s.to_multiset(),
    decreases s.len(),
{
    if s.len() > 0 {
        lemma_sorted_by_name_multiset(s.drop_last(), order);
        lemma_sorted_insert_multiset(sorted_by_name(s.drop_last(), order), s.last(), order);
        assert(s =~= s.drop_last().push(s.last()));
    }
}

/// Swapping two names that are out of order puts them in order.
proof fn lemma_swap_in_order(a: Seq<char>, b: Seq<char>, order: NameOrdering)
    requires
        out_of_order(a, b, order),
        order == NameOrdering::Plain || natural_lexical_rank(a, b) == -natural_lexical_rank(b, a),
    ensures
        !out_of_order(b, a, order),
{
    lemma_plain_rank_antisymmetric(a, b);
}

proof fn lemma_sorted_insert_ordered<T: Named>(l: Seq<T>, x: T, order: NameOrdering)
    requires
        ordered_by_name(l, order),
        order == NameOrdering::Plain || forall|k: int| 0 <= k < l.len() ==>
            natural_lexical_rank(#[trigger] l[k].name_view(), x.name_view())
                == -natural_lexical_rank(x.name_view(), l[k].name_view()),
    ensures
        ordered_by_name(sorted_insert(l, x, order), order),
        sorted_insert(l, x, order).len() == l.len() + 1,
        sorted_insert(l, x, order).last() == (if l.len() > 0 && out_of_order(l.last().name_view(), x.name_view(), order) { l.last() } else { x }),
    decreases l.len(),
{
    let r = sorted_insert(l, x, order);
    if l.len() == 0 {
    } else if out_of_order(l.last().name_view(), x.name_view(), order) {
        let d = l.drop_last();
        assert forall|i: int, j: int| #![trigger d[i], d[j]] 0 <= i && j == i + 1 && j < d.len()
            implies !out_of_order(d[i].name_view(), d[j].name_view(), order) by {
            assert(d[i] == l[i] && d[j] == l[j]);
        }
        if order != NameOrdering::Plain {
            assert forall|k: int| 0 <= k < d.len() implies natural_lexical_rank(#[trigger] d[k].name_view(), x.name_view())
                == -natural_lexical_rank(x.name_view(), d[k].name_view()) by {
                assert(d[k] == l[k]);
            }
        }
        lemma_sorted_insert_ordered(d, x, order);
        let m = sorted_insert(d, x, order);
        assert(r == m.push(l.last()));
        if d.len() > 0 && out_of_order(d.last().name_view(), x.name_view(), order) {
            assert(m.last() == l[l.len() - 2]);
            assert(!out_of_order(l[l.len() - 2].name_view(), l[l.len() - 1].name_view(), order));
        } else {
            assert(m.last() == x);
            assert(l.last() == l[l.len() - 1]);
            lemma_swap_in_order(l.last().name_view(), x.name_view(), order);
        }
        assert forall|i: int, j: int| #![trigger r[i], r[j]] 0 <= i && j == i + 1 && j < r.len()
            implies !out_of_order(r[i].name_view(), r[j].name_view(), order) by {
            if j < m.len() {
                assert(r[i] == m[i] && r[j] == m[j]);
            } else {
                assert(r[i] == m.last() && r[j] == l.last());
            }
        }
    } else {
        assert(r == l.push(x));
        assert forall|i: int, j: int| #![trigger r[i], r[j]] 0 <= i && j == i + 1 && j < r.len()
            implies !out_of_order(r[i].name_view(), r[j].name_view(), order) by {
            if j < l.len() {
                assert(r[i] == l[i] && r[j] == l[j]);
            } else {
                assert(r[i] == l.last() && r[j] == x);
            }
        }
    }
}

proof fn lemma_sorted_by_name_ordered<T: Named>(s: Seq<T>, order: NameOrdering)
    requires
        order == NameOrdering::Plain || natural_rank_antisymmetric(s),
    ensures
        ordered_by_name(sorted_by_name(s, order), order),
    decreases s.len(),
{
    if s.len() > 0 {
        let d = s.drop_last();
        let x = s.last();
        if order != NameOrdering::Plain {
            assert forall|a: T, b: T| #![trigger d.contains(a), d.contains(b)] d.contains(a) && d.contains(b)
                implies natural_lexical_rank(a.name_view(), b.name_view()) == -natural_lexical_rank(b.name_view(), a.name_view()) by {
                let ia = choose|i: int| 0 <= i < d.len() && d[i] == a;
                let ib = choose|i: int| 0 <= i < d.len() && d[i] == b;
                assert(s[ia] == a && s[ib] == b);
                assert(s.contains(a) && s.contains(b));
            }
        }
        lemma_sorted_by_name_ordered(d, order);
        let l = sorted_by_name(d, order);
        lemma_sorted_by_name_multiset(d, order);
        if order != NameOrdering::Plain {
            assert forall|k: int| 0 <= k < l.len() implies natural_lexical_rank(#[trigger] l[k].name_view(), x.name_view())
                == -natural_lexical_rank(x.name_view(), l[k].name_view()) by {
                assert(l.to_multiset().count(l[k]) > 0);
                assert(d.contains(l[k]));
                let i = choose|i: int| 0 <= i < d.len() && d[i] == l[k];
                assert(s[i] == l[k]);
                assert(s[s.len() - 1] == x);
                assert(s.contains(l[k]) && s.contains(x));
            }
        }
        lemma_sorted_insert_ordered(l, x, order);
    }
}

/// Sorting by name keeps exactly the items it was given: the result is a
/// permutation of the input.
pub proof fn law_sort_keeps_every_item<T: Named>(s: Seq<T>, order: NameOrdering)
    ensures
        sorted_by_name(s, order).to_multiset() == s.to_multiset(),
        sorted_by_name(s, order).len() == s.len(),
{
    lemma_sorted_by_name_multiset(s, order);
    assert(sorted_by_name(s, order).to_multiset().len() == s.to_multiset().len());
}

/// After sorting by name, no item stands right before one that must precede
/// it: the order of code points is total, and the natural order is, on names
/// whose comparison is negated by swapping them.
pub proof fn law_sort_orders_by_name<T: Named>(s: Seq<T>, order: NameOrdering)
    requires
        order == NameOrdering::Plain || natural_rank_antisymmetric(s),
    ensures
        ordered_by_name(sorted_by_name(s, order), order),
{
    lemma_sorted_by_name_ordered(s, order);
}

proof fn lemma_files_to_execute_members(files: Seq<SurqlFile>, op: ApplyOperationKind, applied: Seq<ScriptMigration>, is_backward: bool)
    ensures
        forall|f: SurqlFile| #[trigger] files_to_execute(files, op, applied, is_backward).contains(f)
            <==> files.contains(f) && should_execute(f.name@, op, applied, is_backward),
    decreases files.len(),
{
    if files.len() > 0 {
        let d = files.drop_last();
        lemma_files_to_execute_members(d, op, applied, is_backward);
        let rest = files_to_execute(d, op, applied, is_backward);
        assert(files =~= d.push(files.last()));
        assert forall|f: SurqlFile| #[trigger] files_to_execute(files, op, applied, is_backward).contains(f)
            <==> files.contains(f) && should_execute(f.name@, op, applied, is_backward) by {
            if files.contains(f) {
                let i = choose|i: int| 0 <= i < files.len() && files[i] == f;
                if i < d.len() {
                    assert(d[i] == f);
                }
            }
            if d.contains(f) {
                let i = choose|i: int| 0 <= i < d.len() && d[i] == f;
                assert(files[i] == f);
            }
            if should_execute(files.last().name@, op, applied, is_backward) {
                assert(files_to_execute(files, op, applied, is_backward) == rest.push(files.last()));
                if rest.push(files.last()).contains(f) {
                    let i = choose|i: int| 0 <= i < rest.len() + 1 && rest.push(files.last())[i] == f;
                    if i < rest.len() {
                        assert(rest[i] == f);
                    }
                }
                if rest.contains(f) {
                    let i = choose|i: int| 0 <= i < rest.len() && rest[i] == f;
                    assert(rest.push(files.last())[i] == f);
                }
                assert(rest.push(files.last())[rest.len() as int] == files.last());
            }
            assert(files[files.len() - 1] == files.last());
        }
    }
}

/// The items of a sorted sequence are those of the sequence.
pub(crate) proof fn lemma_sorted_contains<T: Named>(s: Seq<T>, order: NameOrdering, x: T)
    ensures
        sorted_by_name(s, order).contains(x) <==> s.contains(x),
{
    lemma_sorted_by_name_multiset(s, order);
    assert(sorted_by_name(s, order).contains(x) <==> sorted_by_name(s, order).to_multiset().count(x) > 0);
    assert(s.contains(x) <==> s.to_multiset().count(x) > 0);
}

/// The files an operation runs: for an operation other than `UpSingle`,
/// exactly the files of its direction that `should_execute` accepts.
proof fn lemma_selected_members(forward: Seq<SurqlFile>, backward: Seq<SurqlFile>, op: ApplyOperationKind, applied: Seq<ScriptMigration>, f: SurqlFile)
    ensures
        spec_migration_files_to_execute(forward, backward, op, applied).contains(f) ==> (
            if direction_of(op) == MigrationDirection::Forward {
                forward.contains(f) && should_execute(f.name@, op, applied, false)
            } else {
                backward.contains(f) && should_execute(f.name@, op, applied, true)
            }
        ),
        !(op is UpSingle) ==> (spec_migration_files_to_execute(forward, backward, op, applied).contains(f) <==> (
            if direction_of(op) == MigrationDirection::Forward {
                forward.contains(f) && should_execute(f.name@, op, applied, false)
            } else {
                backward.contains(f) && should_execute(f.name@, op, applied, true)
            }
        )),
{
    let a = files_to_execute(forward, op, applied, false);
    let b = files_to_execute(backward, op, applied, true);
    lemma_files_to_execute_members(forward, op, applied, false);
    lemma_files_to_execute_members(backward, op, applied, true);
    let order = crate::apply::direction_ordering(direction_of(op));
    let sorted = sorted_by_name(a + b, order);
    lemma_sorted_contains(a + b, order, f);
    assert((a + b).contains(f) <==> a.contains(f) || b.contains(f)) by {
        if (a + b).contains(f) {
            let i = choose|i: int| 0 <= i < (a + b).len() && (a + b)[i] == f;
            if i < a.len() {
                assert(a[i] == f);
            } else {
                assert(b[i - a.len()] == f);
            }
        }
        if a.contains(f) {
            let i = choose|i: int| 0 <= i < a.len() && a[i] == f;
            assert((a + b)[i] == f);
        }
        if b.contains(f) {
            let i = choose|i: int| 0 <= i < b.len() && b[i] == f;
            assert((a + b)[i + a.len()] == f);
        }
    }
    let r = spec_migration_files_to_execute(forward, backward, op, applied);
    if op is UpSingle && 1 < sorted.len() {
        if r.contains(f) {
            let i = choose|i: int| 0 <= i < r.len() && r[i] == f;
            assert(sorted[i] == f);
        }
    }
}

/// An operation that migrates forward only runs forward migration files,
/// and only those of migrations not applied yet.
pub proof fn law_forward_runs_only_pending_migrations(
    forward: Seq<SurqlFile>,
    backward: Seq<SurqlFile>,
    op: ApplyOperationKind,
    applied: Seq<ScriptMigration>,
)
    requires
        direction_of(op) == MigrationDirection::Forward,
    ensures
        forall|f: SurqlFile| #[trigger] spec_migration_files_to_execute(forward, backward, op, applied).contains(f)
            ==> forward.contains(f) && !is_applied(f.name@, applied),
{
    assert forall|f: SurqlFile| #[trigger] spec_migration_files_to_execute(forward, backward, op, applied).contains(f)
        implies forward.contains(f) && !is_applied(f.name@, applied) by {
        lemma_selected_members(forward, backward, op, applied, f);
    }
}

/// An operation that migrates backward only runs down files, and only those
/// of applied migrations.
pub proof fn law_backward_reverts_only_applied_migrations(
    forward: Seq<SurqlFile>,
    backward: Seq<SurqlFile>,
    op: ApplyOperationKind,
    applied: Seq<ScriptMigration>,
)
    requires
        direction_of(op) == MigrationDirection::Backward,
    ensures
        forall|f: SurqlFile| #[trigger] spec_migration_files_to_execute(forward, backward, op, applied).contains(f)
            ==> backward.contains(f) && is_applied(f.name@, applied),
{
    assert forall|f: SurqlFile| #[trigger] spec_migration_files_to_execute(forward, backward, op, applied).contains(f)
        implies backward.contains(f) && is_applied(f.name@, applied) by {
        lemma_selected_members(forward, backward, op, applied, f);
    }
}

/// `Up` runs every forward migration not applied yet, and nothing else.
pub proof fn law_up_runs_every_pending_migration(
    forward: Seq<SurqlFile>,
    backward: Seq<SurqlFile>,
    applied: Seq<ScriptMigration>,
)
    ensures
        forall|f: SurqlFile| #[trigger] spec_migration_files_to_execute(forward, backward, ApplyOperationKind::Up, applied).contains(f)
            <==> forward.contains(f) && !is_applied(f.name@, applied),
{
    assert forall|f: SurqlFile| #[trigger] spec_migration_files_to_execute(forward, backward, ApplyOperationKind::Up, applied).contains(f)
        <==> forward.contains(f) && !is_applied(f.name@, applied) by {
        lemma_selected_members(forward, backward, ApplyOperationKind::Up, applied, f);
    }
}

proof fn lemma_up_single_selects_as_up(files: Seq<SurqlFile>, applied: Seq<ScriptMigration>, is_backward: bool)
    ensures
        files_to_execute(files, ApplyOperationKind::UpSingle, applied, is_backward)
            == files_to_execute(files, ApplyOperationKind::Up, applied, is_backward),
    decreases files.len(),
{
    if files.len() > 0 {
        lemma_up_single_selects_as_up(files.drop_last(), applied, is_backward);
    }
}

/// `UpSingle` applies a single migration: the first of those that `Up`
/// applies, and none when `Up` applies none.
pub proof fn law_up_single_applies_one_migration(
    forward: Seq<SurqlFile>,
    backward: Seq<SurqlFile>,
    applied: Seq<ScriptMigration>,
)
    ensures
        ({
            let all = spec_migration_files_to_execute(forward, backward, ApplyOperationKind::Up, applied);
            spec_migration_files_to_execute(forward, backward, ApplyOperationKind::UpSingle, applied)
                == all.take(if all.len() == 0 { 0 } else { 1 })
        }),
{
    lemma_up_single_selects_as_up(forward, applied, false);
    lemma_up_single_selects_as_up(backward, applied, true);
    let all = spec_migration_files_to_execute(forward, backward, ApplyOperationKind::Up, applied);
    assert(all.take(all.len() as int) =~= all);
}

/// `UpTo(target)` runs the forward migrations not applied yet up to and
/// including the target, and nothing else.
pub proof fn law_up_to_stops_at_target(
    forward: Seq<SurqlFile>,
    backward: Seq<SurqlFile>,
    target: Seq<char>,
    applied: Seq<ScriptMigration>,
)
    ensures
        forall|f: SurqlFile| #[trigger] spec_migration_files_to_execute(forward, backward, ApplyOperationKind::UpTo(target), applied).contains(f)
            <==> forward.contains(f) && !is_applied(f.name@, applied) && natural_lexical_rank(f.name@, target) <= 0,
{
    assert forall|f: SurqlFile| #[trigger] spec_migration_files_to_execute(forward, backward, ApplyOperationKind::UpTo(target), applied).contains(f)
        <==> forward.contains(f) && !is_applied(f.name@, applied) && natural_lexical_rank(f.name@, target) <= 0 by {
        lemma_selected_members(forward, backward, ApplyOperationKind::UpTo(target), applied, f);
    }
}

/// `Reset` reverts every applied migration that has a down file, and
/// nothing else.
pub proof fn law_reset_reverts_every_applied_migration(
    forward: Seq<SurqlFile>,
    backward: Seq<SurqlFile>,
    applied: Seq<ScriptMigration>,
)
    ensures
        forall|f: SurqlFile| #[trigger] spec_migration_files_to_execute(forward, backward, ApplyOperationKind::Reset, applied).contains(f)
            <==> backward.contains(f) && is_applied(f.name@, applied),
{
    assert forall|f: SurqlFile| #[trigger] spec_migration_files_to_execute(forward, backward, ApplyOperationKind::Reset, applied).contains(f)
        <==> backward.contains(f) && is_applied(f.name@, applied) by {
        lemma_selected_members(forward, backward, ApplyOperationKind::Reset, applied, f);
    }
}

/// `DownTo(target)` reverts the applied migrations that come after the
/// target, keeping the target itself, and nothing else.
pub proof fn law_down_to_keeps_target(
    forward: Seq<SurqlFile>,
    backward: Seq<SurqlFile>,
    target: Seq<char>,
    applied: Seq<ScriptMigration>,
)
    ensures
        forall|f: SurqlFile| #[trigger] spec_migration_files_to_execute(forward, backward, ApplyOperationKind::DownTo(target), applied).contains(f)
            <==> backward.contains(f) && is_applied(f.name@, applied) && natural_lexical_rank(f.name@, target) > 0,
{
    assert forall|f: SurqlFile| #[trigger] spec_migration_files_to_execute(forward, backward, ApplyOperationKind::DownTo(target), applied).contains(f)
        <==> backward.contains(f) && is_applied(f.name@, applied) && natural_lexical_rank(f.name@, target) > 0 by {
        lemma_selected_members(forward, backward, ApplyOperationKind::DownTo(target), applied, f);
    }
}

/// The migrations an operation runs come in the order of the operation:
/// ascending natural order of names forward, descending backward.
pub proof fn law_selected_migrations_run_in_order(
    forward: Seq<SurqlFile>,
    backward: Seq<SurqlFile>,
    op: ApplyOperationKind,
    applied: Seq<ScriptMigration>,
)
    requires
        natural_rank_antisymmetric(forward + backward),
    ensures
        ordered_by_name(
            spec_migration_files_to_execute(forward, backward, op, applied),
            crate::apply::direction_ordering(direction_of(op)),
        ),
{
    let a = files_to_execute(forward, op, applied, false);
    let b = files_to_execute(backward, op, applied, true);
    let all = forward + backward;
    lemma_files_to_execute_members(forward, op, applied, false);
    lemma_files_to_execute_members(backward, op, applied, true);
    let order = crate::apply::direction_ordering(direction_of(op));
    assert forall|x: SurqlFile| (a + b).contains(x) implies all.contains(x) by {
        let i = choose|i: int| 0 <= i < (a + b).len() && (a + b)[i] == x;
        if i < a.len() {
            assert(a[i] == x);
            assert(a.contains(x));
            let k = choose|k: int| 0 <= k < forward.len() && forward[k] == x;
            assert(all[k] == x);
        } else {
            assert(b[i - a.len()] == x);
            assert(b.contains(x));
            let k = choose|k: int| 0 <= k < backward.len() && backward[k] == x;
            assert(all[k + forward.len()] == x);
        }
    }
    assert(natural_rank_antisymmetric(a + b)) by {
        assert forall|x: SurqlFile, y: SurqlFile| #![trigger (a + b).contains(x), (a + b).contains(y)]
            (a + b).contains(x) && (a + b).contains(y) implies natural_lexical_rank(x.name_view(), y.name_view())
                == -natural_lexical_rank(y.name_view(), x.name_view()) by {
            assert(all.contains(x) && all.contains(y));
        }
    }
    assert(order != NameOrdering::Plain);
    lemma_sorted_by_name_ordered(a + b, order);
    let sorted = sorted_by_name(a + b, order);
    let r = spec_migration_files_to_execute(forward, backward, op, applied);
    if op is UpSingle && 1 < sorted.len() {
        assert forall|i: int, j: int| #![trigger r[i], r[j]] 0 <= i && j == i + 1 && j < r.len()
            implies !out_of_order(r[i].name_view(), r[j].name_view(), order) by {
            assert(r[i] == sorted[i] && r[j] == sorted[j]);
        }
    }
}

/// A file that carries an excluded tag is never kept, whatever the filter.
pub proof fn law_excluded_tag_rejects_file(tags: Seq<String>, filter_tags: Seq<String>, exclude_tags: Seq<String>, tag: Seq<char>)
    requires
        has_tag(tags, tag),
        has_tag(exclude_tags, tag),
    ensures
        !spec_filter_by_tags(tags, filter_tags, exclude_tags),
{
    let i = choose|i: int| 0 <= i < tags.len() && #[trigger] tags[i]@ == tag;
    assert(!tags_disjoint(tags, exclude_tags));
}

/// With the tag `*` in the filter, every file without an excluded tag is kept.
pub proof fn law_all_tag_keeps_every_file_not_excluded(tags: Seq<String>, filter_tags: Seq<String>, exclude_tags: Seq<String>)
    requires
        has_tag(filter_tags, crate::constants::ALL_TAGS@),
        tags_disjoint(tags, exclude_tags),
    ensures
        spec_filter_by_tags(tags, filter_tags, exclude_tags),
{
}

proof fn lemma_names_absent_from_members(names: Seq<Seq<char>>, others: Seq<Seq<char>>)
    ensures
        forall|n: Seq<char>| #[trigger] names_absent_from(names, others).contains(n) <==> names.contains(n) && !others.contains(n),
    decreases names.len(),
{
    if names.len() > 0 {
        let d = names.drop_last();
        lemma_names_absent_from_members(d, others);
        let rest = names_absent_from(d, others);
        assert forall|n: Seq<char>| #[trigger] names_absent_from(names, others).contains(n)
            <==> names.contains(n) && !others.contains(n) by {
            assert(names =~= d.push(names.last()));
            if others.contains(names.last()) {
            } else {
                assert(rest.push(names.last()).contains(n) <==> rest.contains(n) || n == names.last()) by {
                    if rest.push(names.last()).contains(n) {
                        let i = choose|i: int| 0 <= i < rest.len() + 1 && rest.push(names.last())[i] == n;
                        if i < rest.len() {
                            assert(rest[i] == n);
                        }
                    }
                    if rest.contains(n) {
                        let i = choose|i: int| 0 <= i < rest.len() && rest[i] == n;
                        assert(rest.push(names.last())[i] == n);
                    }
                    assert(rest.push(names.last())[rest.len() as int] == names.last());
                }
            }
            assert(d.push(names.last()).contains(n) <==> d.contains(n) || n == names.last()) by {
                if d.push(names.last()).contains(n) {
                    let i = choose|i: int| 0 <= i < d.len() + 1 && d.push(names.last())[i] == n;
                    if i < d.len() {
                        assert(d[i] == n);
                    }
                }
                if d.contains(n) {
                    let i = choose|i: int| 0 <= i < d.len() && d[i] == n;
                    assert(d.push(names.last())[i] == n);
                }
                assert(d.push(names.last())[d.len() as int] == names.last());
            }
        }
    }
}

proof fn lemma_keys_to_remove_members(keys: Seq<(Seq<char>, Seq<char>)>, others: Seq<(Seq<char>, Seq<char>)>, removed: Seq<Seq<char>>)
    ensures
        forall|k: (Seq<char>, Seq<char>)| #[trigger] keys_to_remove(keys, others, removed).contains(k)
            <==> keys.contains(k) && !others.contains(k) && !removed.contains(k.1),
    decreases keys.len(),
{
    if keys.len() > 0 {
        let d = keys.drop_last();
        let x = keys.last();
        lemma_keys_to_remove_members(d, others, removed);
        let rest = keys_to_remove(d, others, removed);
        assert forall|k: (Seq<char>, Seq<char>)| #[trigger] keys_to_remove(keys, others, removed).contains(k)
            <==> keys.contains(k) && !others.contains(k) && !removed.contains(k.1) by {
            assert(keys =~= d.push(x));
            if !others.contains(x) && !removed.contains(x.1) {
                assert(rest.push(x).contains(k) <==> rest.contains(k) || k == x) by {
                    if rest.push(x).contains(k) {
                        let i = choose|i: int| 0 <= i < rest.len() + 1 && rest.push(x)[i] == k;
                        if i < rest.len() {
                            assert(rest[i] == k);
                        }
                    }
                    if rest.contains(k) {
                        let i = choose|i: int| 0 <= i < rest.len() && rest[i] == k;
                        assert(rest.push(x)[i] == k);
                    }
                    assert(rest.push(x)[rest.len() as int] == x);
                }
            }
            assert(d.push(x).contains(k) <==> d.contains(k) || k == x) by {
                if d.push(x).contains(k) {
                    let i = choose|i: int| 0 <= i < d.len() + 1 && d.push(x)[i] == k;
                    if i < d.len() {
                        assert(d[i] == k);
                    }
                }
                if d.contains(k) {
                    let i = choose|i: int| 0 <= i < d.len() && d[i] == k;
                    assert(d.push(x)[i] == k);
                }
                assert(d.push(x)[d.len() as int] == x);
            }
        }
    }
}

/// A table is removed exactly when the next definitions define it and the
/// previous ones do not.
pub open spec fn table_only_in_next(next: Seq<Statement>, previous: Seq<Statement>, table: Seq<char>) -> bool {
    table_names(next).contains(table) && !table_names(previous).contains(table)
}

/// Rolling back from `next` to `previous` removes exactly the tables that only
/// `next` defines, and the fields and events that only `next` defines on the
/// other tables: nothing that `previous` defines is ever removed.
pub proof fn law_rollback_removes_only_what_next_adds(next: Seq<Statement>, previous: Seq<Statement>)
    ensures
        forall|n: Seq<char>| #[trigger] rollback_statements(next, previous).contains(RemoveStatementView::Table(n))
            <==> table_only_in_next(next, previous, n),
        forall|n: Seq<char>, w: Seq<char>| #[trigger] rollback_statements(next, previous).contains(RemoveStatementView::Field(n, w))
            <==> field_keys(next).contains((n, w)) && !field_keys(previous).contains((n, w)) && !table_only_in_next(next, previous, w),
        forall|n: Seq<char>, w: Seq<char>| #[trigger] rollback_statements(next, previous).contains(RemoveStatementView::Event(n, w))
            <==> event_keys(next).contains((n, w)) && !event_keys(previous).contains((n, w)) && !table_only_in_next(next, previous, w),
        forall|r: RemoveStatementView| #[trigger] rollback_statements(next, previous).contains(r)
            ==> r is Table || r is Field || r is Event,
{
    let tables = names_absent_from(table_names(next), table_names(previous));
    let fields = keys_to_remove(field_keys(next), field_keys(previous), tables);
    let events = keys_to_remove(event_keys(next), event_keys(previous), tables);
    lemma_names_absent_from_members(table_names(next), table_names(previous));
    lemma_keys_to_remove_members(field_keys(next), field_keys(previous), tables);
    lemma_keys_to_remove_members(event_keys(next), event_keys(previous), tables);
    let ts = tables.map_values(|n: Seq<char>| RemoveStatementView::Table(n));
    let fs = fields.map_values(|k: (Seq<char>, Seq<char>)| RemoveStatementView::Field(k.0, k.1));
    let es = events.map_values(|k: (Seq<char>, Seq<char>)| RemoveStatementView::Event(k.0, k.1));
    let all = rollback_statements(next, previous);
    assert(all == ts + fs + es);
    assert forall|r: RemoveStatementView| #[trigger] all.contains(r) <==> (
        (r matches RemoveStatementView::Table(n) && tables.contains(n))
        || (r matches RemoveStatementView::Field(n, w) && fields.contains((n, w)))
        || (r matches RemoveStatementView::Event(n, w) && events.contains((n, w)))
    ) by {
        if all.contains(r) {
            let i = choose|i: int| 0 <= i < all.len() && all[i] == r;
            if i < ts.len() {
                assert(ts[i] == r);
                assert(tables[i] == tables[i]);
                assert(tables.contains(tables[i]));
            } else if i < ts.len() + fs.len() {
                assert(fs[i - ts.len()] == r);
                assert(fields.contains(fields[i - ts.len()]));
            } else {
                assert(es[i - ts.len() - fs.len()] == r);
                assert(events.contains(events[i - ts.len() - fs.len()]));
            }
        }
        match r {
            RemoveStatementView::Table(n) => {
                if tables.contains(n) {
                    let i = choose|i: int| 0 <= i < tables.len() && tables[i] == n;
                    assert(all[i] == ts[i]);
                }
            },
            RemoveStatementView::Field(n, w) => {
                if fields.contains((n, w)) {
                    let i = choose|i: int| 0 <= i < fields.len() && fields[i] == (n, w);
                    assert(all[ts.len() + i] == fs[i]);
                }
            },
            RemoveStatementView::Event(n, w) => {
                if events.contains((n, w)) {
                    let i = choose|i: int| 0 <= i < events.len() && events[i] == (n, w);
                    assert(all[ts.len() + fs.len() + i] == es[i]);
                }
            },
            _ => {},
        }
    }
    assert forall|n: Seq<char>| #[trigger] all.contains(RemoveStatementView::Table(n))
        <==> table_only_in_next(next, previous, n) by {
        assert(all.contains(RemoveStatementView::Table(n)) <==> tables.contains(n));
    }
    assert forall|n: Seq<char>, w: Seq<char>| #[trigger] all.contains(RemoveStatementView::Field(n, w))
        <==> field_keys(next).contains((n, w)) && !field_keys(previous).contains((n, w)) && !table_only_in_next(next, previous, w) by {
        assert(all.contains(RemoveStatementView::Field(n, w)) <==> fields.contains((n, w)));
        assert(tables.contains(w) <==> table_only_in_next(next, previous, w));
    }
    assert forall|n: Seq<char>, w: Seq<char>| #[trigger] all.contains(RemoveStatementView::Event(n, w))
        <==> event_keys(next).contains((n, w)) && !event_keys(previous).contains((n, w)) && !table_only_in_next(next, previous, w) by {
        assert(all.contains(RemoveStatementView::Event(n, w)) <==> events.contains((n, w)));
        assert(tables.contains(w) <==> table_only_in_next(next, previous, w));
    }
}

/// Applying diffs in two batches gives what applying them all at once gives:
/// the second batch starts from the result of the first, and a failure in
/// the first batch is final.
pub proof fn law_patches_apply_in_batches(
    definition: (Seq<char>, Seq<char>),
    first: Seq<DefinitionDiff>,
    second: Seq<DefinitionDiff>,
)
    ensures
        apply_definition_diffs(definition, first + second) == match apply_definition_diffs(definition, first) {
            Ok(d) => apply_definition_diffs(d, second),
            Err(e) => Err(e),
        },
    decreases second.len(),
{
    if second.len() == 0 {
        assert(first + second =~= first);
    } else {
        law_patches_apply_in_batches(definition, first, second.drop_last());
        assert((first + second).drop_last() =~= first + second.drop_last());
        assert((first + second).last() == second.last());
    }
}

proof fn lemma_skip_leading_field(a: Seq<char>, rest: Seq<char>, n: nat)
    requires
        forall|k: int| 0 <= k < a.len() ==> a[k] != '_',
        n > 0,
    ensures
        skip_fields(a + seq!['_'] + rest, n) == skip_fields(rest, (n - 1) as nat),
    decreases a.len(),
{
    let s = a + seq!['_'] + rest;
    if a.len() == 0 {
        assert(s[0] == '_');
        assert(first_underscore(s) == Some(0int));
        assert(s.subrange(1, s.len() as int) =~= rest);
    } else {
        let t = s.drop_first();
        assert(t =~= a.drop_first() + seq!['_'] + rest);
        assert forall|k: int| 0 <= k < a.drop_first().len() implies a.drop_first()[k] != '_' by {
            assert(a.drop_first()[k] == a[k + 1]);
        }
        lemma_first_underscore_position(a.drop_first(), rest);
        assert(s[0] == a[0]);
        assert(first_underscore(s) == Some(a.len() as int));
        assert(s.subrange((a.len() + 1) as int, s.len() as int) =~= rest);
    }
}

proof fn lemma_first_underscore_position(a: Seq<char>, rest: Seq<char>)
    requires
        forall|k: int| 0 <= k < a.len() ==> a[k] != '_',
    ensures
        first_underscore(a + seq!['_'] + rest) == Some(a.len() as int),
    decreases a.len(),
{
    let s = a + seq!['_'] + rest;
    if a.len() == 0 {
        assert(s[0] == '_');
    } else {
        assert(s.drop_first() =~= a.drop_first() + seq!['_'] + rest);
        assert forall|k: int| 0 <= k < a.drop_first().len() implies a.drop_first()[k] != '_' by {
            assert(a.drop_first()[k] == a[k + 1]);
        }
        lemma_first_underscore_position(a.drop_first(), rest);
        assert(s[0] == a[0]);
    }
}

/// The display name of a migration file that `create` names is the name it
/// was given (with its extension): the date and time fields hold no `_`.
pub proof fn law_created_migration_displays_its_name(date: Seq<char>, time: Seq<char>, name: Seq<char>)
    requires
        is_date_stamp(date),
        is_time_stamp(time),
    ensures
        skip_fields(migration_file_name(date, time, name), 2) == name + crate::constants::SURQL_FILE_EXTENSION@,
{
    reveal_strlit("_");
    let ext = crate::constants::SURQL_FILE_EXTENSION@;
    let rest = time + seq!['_'] + (name + ext);
    assert(migration_file_name(date, time, name) =~= date + seq!['_'] + rest);
    assert forall|k: int| 0 <= k < date.len() implies date[k] != '_' by {
        if k > 0 {
            assert('0' <= date[k] <= '9');
        }
    }
    lemma_skip_leading_field(date, rest, 2);
    assert forall|k: int| 0 <= k < time.len() implies time[k] != '_' by {
        assert('0' <= time[k] <= '9');
    }
    lemma_skip_leading_field(time, name + ext, 1);
}

proof fn lemma_insert_entry_multiset(files: Seq<SurqlFile>, queries: Seq<Vec<Statement>>, l: Seq<int>, x: int)
    ensures
        insert_entry(files, queries, l, x).to_multiset() =~= l.to_multiset().insert(x),
    decreases l.len(),
{
    if l.len() == 0 {
        assert(seq![x] =~= Seq::<int>::empty().push(x));
    } else if crate::io::entry_rank(files, queries, x, l.last()) < 0 {
        lemma_insert_entry_multiset(files, queries, l.drop_last(), x);
        assert(l =~= l.drop_last().push(l.last()));
    }
}

proof fn lemma_sort_entries_multiset(files: Seq<SurqlFile>, queries: Seq<Vec<Statement>>, s: Seq<int>)
    ensures
        sort_entries(files, queries, s).to_multiset() =~= s.to_multiset(),
    decreases s.len(),
{
    if s.len() > 0 {
        lemma_sort_entries_multiset(files, queries, s.drop_last());
        lemma_insert_entry_multiset(files, queries, sort_entries(files, queries, s.drop_last()), s.last());
        assert(s =~= s.drop_last().push(s.last()));
    }
}

/// Concatenating files takes each file exactly once: the order of
/// concatenation is a permutation of the files' positions.
pub proof fn law_concatenation_takes_each_file_once(files: Seq<SurqlFile>, queries: Seq<Vec<Statement>>)
    ensures
        concat_order(files, queries).to_multiset() == Seq::new(files.len(), |i: int| i).to_multiset(),
        concat_order(files, queries).len() == files.len(),
{
    let positions = Seq::new(files.len(), |i: int| i);
    lemma_sort_entries_multiset(files, queries, positions);
    assert(concat_order(files, queries).to_multiset().len() == positions.to_multiset().len());
}

proof fn lemma_dedup_members(names: Seq<Seq<char>>)
    ensures
        forall|x: Seq<char>| #[trigger] crate::statements::dedup(names).contains(x) ==> names.contains(x),
    decreases names.len(),
{
    if names.len() > 0 {
        let d = names.drop_last();
        lemma_dedup_members(d);
        let rest = crate::statements::dedup(d);
        assert forall|x: Seq<char>| #[trigger] crate::statements::dedup(names).contains(x) implies names.contains(x) by {
            if rest.contains(x) {
                assert(d.contains(x));
                let k = choose|k: int| 0 <= k < d.len() && d[k] == x;
                assert(names[k] == x);
            } else {
                let r = rest.push(names.last());
                if r.contains(x) {
                    let k = choose|k: int| 0 <= k < r.len() && r[k] == x;
                    if k < rest.len() {
                        assert(rest[k] == x);
                    } else {
                        assert(names[names.len() - 1] == x);
                    }
                }
            }
        }
    }
}

proof fn lemma_client_fields_members(names: Seq<Seq<char>>)
    ensures
        forall|x: Seq<char>| #[trigger] crate::diff::client_fields(names).contains(x) ==> names.contains(x) && !crate::diff::is_server_field(x),
    decreases names.len(),
{
    if names.len() > 0 {
        let d = names.drop_last();
        lemma_client_fields_members(d);
        let rest = crate::diff::client_fields(d);
        assert forall|x: Seq<char>| #[trigger] crate::diff::client_fields(names).contains(x)
            implies names.contains(x) && !crate::diff::is_server_field(x) by {
            if rest.contains(x) {
                let k = choose|k: int| 0 <= k < d.len() && d[k] == x;
                assert(names[k] == x);
            } else if !crate::diff::is_server_field(names.last()) {
                let r = rest.push(names.last());
                if r.contains(x) {
                    let k = choose|k: int| 0 <= k < r.len() && r[k] == x;
                    if k < rest.len() {
                        assert(rest[k] == x);
                    } else {
                        assert(names[names.len() - 1] == x);
                    }
                }
            }
        }
    }
}

/// In the differences of a table, no field is both added and deleted: an
/// added field is defined locally and not remotely, a deleted field is
/// defined remotely and not locally, and the fields that the server adds by
/// itself are never reported as deleted.
pub proof fn law_no_field_is_both_added_and_deleted(local: Seq<Statement>, remote: Seq<Statement>, table: Seq<char>)
    ensures
        ({
            let d = spec_table_diff(local, remote, table);
            let local_names = crate::diff::field_names(crate::diff::fields_on(local, table));
            let remote_names = crate::diff::field_names(crate::diff::fields_on(remote, table));
            &&& forall|f: Seq<char>| #[trigger] d.1.contains(f) ==> local_names.contains(f) && !remote_names.contains(f)
            &&& forall|f: Seq<char>| #[trigger] d.3.contains(f) ==> remote_names.contains(f) && !local_names.contains(f)
                && !crate::diff::is_server_field(f)
            &&& forall|f: Seq<char>| !(#[trigger] d.1.contains(f) && d.3.contains(f))
        }),
{
    let local_names = crate::diff::field_names(crate::diff::fields_on(local, table));
    let remote_names = crate::diff::field_names(crate::diff::fields_on(remote, table));
    let added = names_absent_from(local_names, remote_names);
    let deleted = names_absent_from(remote_names, local_names);
    lemma_dedup_members(added);
    lemma_names_absent_from_members(local_names, remote_names);
    lemma_names_absent_from_members(remote_names, local_names);
    lemma_client_fields_members(deleted);
    lemma_dedup_members(crate::diff::client_fields(deleted));
}

proof fn lemma_schema_tables_keep_keys(statements: Seq<SqlStatement>, preserve_casing: bool, i: int)
    requires
        0 <= i < statements.len(),
        statements[i] is CreateTable,
    ensures
        schema_tables(statements, preserve_casing).contains_key(cased(statements[i]->CreateTable_name@, preserve_casing)),
    decreases statements.len(),
{
    let last = statements.len() - 1;
    if i < last {
        let d = statements.drop_last();
        assert(d[i] == statements[i]);
        lemma_schema_tables_keep_keys(d, preserve_casing, i);
    }
}

/// Every table that a `CREATE TABLE` statement creates is imported: later
/// statements may redefine it or add indexes to it, never drop it.
pub proof fn law_every_created_table_is_imported(statements: Seq<SqlStatement>, preserve_casing: bool)
    ensures
        forall|i: int| 0 <= i < statements.len() && #[trigger] statements[i] is CreateTable
            ==> schema_tables(statements, preserve_casing).contains_key(cased(statements[i]->CreateTable_name@, preserve_casing)),
{
    assert forall|i: int| 0 <= i < statements.len() && #[trigger] statements[i] is CreateTable
        implies schema_tables(statements, preserve_casing).contains_key(cased(statements[i]->CreateTable_name@, preserve_casing)) by {
        lemma_schema_tables_keep_keys(statements, preserve_casing, i);
    }
}

} // verus!

verus! {

proof fn lemma_directions_partition(files: Seq<SurqlFile>)
    ensures
        crate::io::files_of_direction(files, MigrationDirection::Forward).to_multiset().add(
            crate::io::files_of_direction(files, MigrationDirection::Backward).to_multiset(),
        ) =~= files.to_multiset(),
    decreases files.len(),
{
    if files.len() > 0 {
        lemma_directions_partition(files.drop_last());
        assert(files =~= files.drop_last().push(files.last()));
    }
}

proof fn lemma_direction_members(files: Seq<SurqlFile>, direction: MigrationDirection, f: SurqlFile)
    ensures
        crate::io::files_of_direction(files, direction).contains(f) ==> files.contains(f)
            && has_tag(f.tags@, crate::constants::DOWN_TAG@) == (direction == MigrationDirection::Backward),
    decreases files.len(),
{
    if files.len() > 0 {
        let d = files.drop_last();
        lemma_direction_members(d, direction, f);
        let r = crate::io::files_of_direction(files, direction);
        if r.contains(f) {
            let rest = crate::io::files_of_direction(d, direction);
            if rest.contains(f) {
                let i = choose|i: int| 0 <= i < d.len() && d[i] == f;
                assert(files[i] == f);
            } else {
                let i = choose|i: int| 0 <= i < r.len() && r[i] == f;
                assert(i == r.len() - 1);
                assert(files[files.len() - 1] == f);
            }
        }
    }
}

/// Selecting the migration files of each direction splits the files in two:
/// the forward selection holds the files without the `down` tag, the
/// backward selection those with it, and together they hold every file
/// exactly as often as the files do.
pub proof fn law_migration_files_partition(files: Seq<SurqlFile>)
    ensures
        ({
            let fwd = sorted_by_name(crate::io::files_of_direction(files, MigrationDirection::Forward), NameOrdering::Natural);
            let bwd = sorted_by_name(crate::io::files_of_direction(files, MigrationDirection::Backward), NameOrdering::Natural);
            &&& fwd.to_multiset().add(bwd.to_multiset()) == files.to_multiset()
            &&& forall|f: SurqlFile| #[trigger] fwd.contains(f) ==> !has_tag(f.tags@, crate::constants::DOWN_TAG@)
            &&& forall|f: SurqlFile| #[trigger] bwd.contains(f) ==> has_tag(f.tags@, crate::constants::DOWN_TAG@)
        }),
{
    let a = crate::io::files_of_direction(files, MigrationDirection::Forward);
    let b = crate::io::files_of_direction(files, MigrationDirection::Backward);
    lemma_directions_partition(files);
    lemma_sorted_by_name_multiset(a, NameOrdering::Natural);
    lemma_sorted_by_name_multiset(b, NameOrdering::Natural);
    let fwd = sorted_by_name(a, NameOrdering::Natural);
    let bwd = sorted_by_name(b, NameOrdering::Natural);
    assert forall|f: SurqlFile| #[trigger] fwd.contains(f) implies !has_tag(f.tags@, crate::constants::DOWN_TAG@) by {
        lemma_sorted_contains(a, NameOrdering::Natural, f);
        lemma_direction_members(files, MigrationDirection::Forward, f);
    }
    assert forall|f: SurqlFile| #[trigger] bwd.contains(f) implies has_tag(f.tags@, crate::constants::DOWN_TAG@) by {
        lemma_sorted_contains(b, NameOrdering::Natural, f);
        lemma_direction_members(files, MigrationDirection::Backward, f);
    }
}

} // verus!

verus! {

/// The views of the file at index `i` read a table that another file defines.
pub open spec fn reads_other_tables(queries: Seq<Vec<Statement>>, i: int) -> bool {
    crate::io::spec_consumes_any_table(queries[i]@, crate::io::all_table_names(queries))
}

/// In `l`, no file that reads another file's table comes before one that
/// reads none.
pub open spec fn readers_last(queries: Seq<Vec<Statement>>, l: Seq<int>) -> bool {
    forall|i: int, j: int| #![trigger l[i], l[j]]
        0 <= i < j < l.len() && reads_other_tables(queries, l[i]) ==> reads_other_tables(queries, l[j])
}

/// No table is defined by two files.
pub open spec fn tables_defined_once(queries: Seq<Vec<Statement>>) -> bool {
    forall|a: int, b: int, n: Seq<char>|
        0 <= a < queries.len() && 0 <= b < queries.len() && a != b && #[trigger] table_names(queries[a]@).contains(n)
            ==> !#[trigger] table_names(queries[b]@).contains(n)
}

proof fn lemma_all_table_names_contains(queries: Seq<Vec<Statement>>, k: int, n: Seq<char>)
    requires
        0 <= k < queries.len(),
        table_names(queries[k]@).contains(n),
    ensures
        crate::io::all_table_names(queries).contains(n),
    decreases queries.len(),
{
    let d = queries.drop_last();
    let t = table_names(queries.last()@);
    let j = choose|j: int| 0 <= j < t.len() && t[j] == n;
    if k < queries.len() - 1 {
        assert(d[k] == queries[k]);
        lemma_all_table_names_contains(d, k, n);
        let a = crate::io::all_table_names(d);
        let m = choose|m: int| 0 <= m < a.len() && a[m] == n;
        assert((a + t)[m] == n);
    } else {
        let a = crate::io::all_table_names(d);
        if 0 <= j < t.len() && t[j] == n {
            assert((a + t)[a.len() + j] == n);
        }
    }
}

/// A file that reads no other file's table ranks before one that does.
proof fn lemma_reader_ranks(files: Seq<SurqlFile>, queries: Seq<Vec<Statement>>, a: int, b: int)
    requires
        files.len() == queries.len(),
        0 <= a < queries.len(),
        0 <= b < queries.len(),
        a != b,
        tables_defined_once(queries),
        !reads_other_tables(queries, a),
        reads_other_tables(queries, b),
    ensures
        crate::io::entry_rank(files, queries, a, b) < 0,
        crate::io::entry_rank(files, queries, b, a) > 0,
{
    if crate::io::spec_consumes_table(queries[a]@, queries[b]@) {
        let n = choose|n: Seq<char>| crate::statements::consumed_table_names(queries[a]@).contains(n)
            && table_names(queries[b]@).contains(n);
        lemma_all_table_names_contains(queries, b, n);
        assert(!table_names(queries[a]@).contains(n));
        assert(false);
    }
}

proof fn lemma_insert_keeps_readers_last(files: Seq<SurqlFile>, queries: Seq<Vec<Statement>>, l: Seq<int>, x: int)
    requires
        files.len() == queries.len(),
        tables_defined_once(queries),
        readers_last(queries, l),
        0 <= x < queries.len(),
        !l.contains(x),
        forall|k: int| 0 <= k < l.len() ==> 0 <= #[trigger] l[k] < queries.len(),
    ensures
        readers_last(queries, insert_entry(files, queries, l, x)),
    decreases l.len(),
{
    let r = insert_entry(files, queries, l, x);
    if l.len() == 0 {
        assert(r =~= seq![x]);
    } else if crate::io::entry_rank(files, queries, x, l.last()) < 0 {
        let d = l.drop_last();
        let last = l.last();
        assert forall|i: int, j: int| #![trigger d[i], d[j]]
            0 <= i < j < d.len() && reads_other_tables(queries, d[i]) implies reads_other_tables(queries, d[j]) by {
            assert(d[i] == l[i] && d[j] == l[j]);
        }
        assert(!d.contains(x)) by {
            if d.contains(x) {
                let k = choose|k: int| 0 <= k < d.len() && d[k] == x;
                assert(l[k] == x);
            }
        }
        assert forall|k: int| 0 <= k < d.len() implies 0 <= #[trigger] d[k] < queries.len() by {
            assert(d[k] == l[k]);
        }
        lemma_insert_keeps_readers_last(files, queries, d, x);
        let m = insert_entry(files, queries, d, x);
        lemma_insert_entry_multiset(files, queries, d, x);
        assert(r == m.push(last));
        assert(l[l.len() - 1] == last);
        if !reads_other_tables(queries, last) {
            // Nothing before `last` in `l` reads another table, and neither does `x`.
            if reads_other_tables(queries, x) {
                assert(last != x);
                lemma_reader_ranks(files, queries, last, x);
                assert(false);
            }
            assert forall|i: int| 0 <= i < m.len() implies !reads_other_tables(queries, #[trigger] m[i]) by {
                assert(m.to_multiset().count(m[i]) > 0);
                if m[i] != x {
                    assert(d.to_multiset().count(m[i]) > 0);
                    let k = choose|k: int| 0 <= k < d.len() && d[k] == m[i];
                    assert(l[k] == m[i]);
                    assert(l[k] == l[k] && l[l.len() - 1] == last);
                }
            }
        }
        assert forall|i: int, j: int| #![trigger r[i], r[j]]
            0 <= i < j < r.len() && reads_other_tables(queries, r[i]) implies reads_other_tables(queries, r[j]) by {
            if j < m.len() {
                assert(r[i] == m[i] && r[j] == m[j]);
            } else {
                assert(r[i] == m[i] && r[j] == last);
            }
        }
    } else {
        assert(r == l.push(x));
        if !reads_other_tables(queries, x) {
            let last = l.last();
            assert(l[l.len() - 1] == last);
            if reads_other_tables(queries, last) {
                assert(last != x);
                lemma_reader_ranks(files, queries, x, last);
                assert(false);
            }
        }
        assert forall|i: int, j: int| #![trigger r[i], r[j]]
            0 <= i < j < r.len() && reads_other_tables(queries, r[i]) implies reads_other_tables(queries, r[j]) by {
            if j < l.len() {
                assert(r[i] == l[i] && r[j] == l[j]);
            } else {
                assert(r[i] == l[i] && r[j] == x);
                if !reads_other_tables(queries, x) {
                    assert(l[i] == l[i] && l[l.len() - 1] == l.last());
                    if i < l.len() - 1 {
                        assert(reads_other_tables(queries, l[l.len() - 1]));
                    }
                }
            }
        }
    }
}

proof fn lemma_sort_keeps_readers_last(files: Seq<SurqlFile>, queries: Seq<Vec<Statement>>, s: Seq<int>)
    requires
        files.len() == queries.len(),
        tables_defined_once(queries),
        forall|a: int, b: int| 0 <= a < b < s.len() ==> #[trigger] s[a] != #[trigger] s[b],
        forall|k: int| 0 <= k < s.len() ==> 0 <= #[trigger] s[k] < queries.len(),
    ensures
        readers_last(queries, sort_entries(files, queries, s)),
        forall|k: int| 0 <= k < sort_entries(files, queries, s).len()
            ==> 0 <= #[trigger] sort_entries(files, queries, s)[k] < queries.len(),
    decreases s.len(),
{
    lemma_sort_entries_multiset(files, queries, s);
    let r = sort_entries(files, queries, s);
    assert forall|k: int| 0 <= k < r.len() implies 0 <= #[trigger] r[k] < queries.len() by {
        assert(r.to_multiset().count(r[k]) > 0);
        assert(s.to_multiset().count(r[k]) > 0);
        let m = choose|m: int| 0 <= m < s.len() && s[m] == r[k];
    }
    if s.len() > 0 {
        let d = s.drop_last();
        assert forall|a: int, b: int| 0 <= a < b < d.len() implies #[trigger] d[a] != #[trigger] d[b] by {
            assert(d[a] == s[a] && d[b] == s[b]);
        }
        assert forall|k: int| 0 <= k < d.len() implies 0 <= #[trigger] d[k] < queries.len() by {
            assert(d[k] == s[k]);
        }
        lemma_sort_keeps_readers_last(files, queries, d);
        let sd = sort_entries(files, queries, d);
        lemma_sort_entries_multiset(files, queries, d);
        assert(!sd.contains(s.last())) by {
            if sd.contains(s.last()) {
                let k = choose|k: int| 0 <= k < sd.len() && sd[k] == s.last();
                assert(sd.to_multiset().count(s.last()) > 0);
                assert(d.to_multiset().count(s.last()) > 0);
                let m = choose|m: int| 0 <= m < d.len() && d[m] == s.last();
                assert(s[m] == s[s.len() - 1]);
            }
        }
        assert(s[s.len() - 1] == s.last());
        lemma_insert_keeps_readers_last(files, queries, sd, s.last());
    }
}

/// Concatenation puts every file whose views read a table that another file
/// defines after every file whose views read none, when no table is defined
/// by two files: a file reading only tables of files that read nothing
/// comes after them.
pub proof fn law_concatenation_puts_readers_last(files: Seq<SurqlFile>, queries: Seq<Vec<Statement>>)
    requires
        files.len() == queries.len(),
        tables_defined_once(queries),
    ensures
        readers_last(queries, concat_order(files, queries)),
{
    let positions = Seq::new(files.len(), |i: int| i);
    lemma_sort_keeps_readers_last(files, queries, positions);
}

} // verus!

verus! {

/// `needle` still occurs once text is added after `a`.
proof fn lemma_contains_extend(a: Seq<char>, b: Seq<char>, needle: Seq<char>)
    requires
        crate::io::contains_text(a, needle),
    ensures
        crate::io::contains_text(a + b, needle),
{
    let i = choose|i: int| #[trigger] crate::io::occurs_at(a, needle, i);
    assert((a + b).subrange(i, i + needle.len()) =~= a.subrange(i, i + needle.len()));
    assert(crate::io::occurs_at(a + b, needle, i));
}

/// `needle` still occurs once text is added before `b`.
proof fn lemma_contains_prepend(a: Seq<char>, b: Seq<char>, needle: Seq<char>)
    requires
        crate::io::contains_text(b, needle),
    ensures
        crate::io::contains_text(a + b, needle),
{
    let i = choose|i: int| #[trigger] crate::io::occurs_at(b, needle, i);
    assert((a + b).subrange(a.len() + i, a.len() + i + needle.len()) =~= b.subrange(i, i + needle.len()));
    assert(crate::io::occurs_at(a + b, needle, a.len() + i));
}

/// `needle` occurs in `a + needle + c`.
proof fn lemma_contains_middle(a: Seq<char>, needle: Seq<char>, c: Seq<char>)
    ensures
        crate::io::contains_text(a + needle + c, needle),
{
    assert((a + needle + c).subrange(a.len() as int, (a.len() + needle.len()) as int) =~= needle);
    assert(crate::io::occurs_at(a + needle + c, needle, a.len() as int));
}

/// Every part occurs in the parts joined with line breaks.
proof fn lemma_join_lines_contains(parts: Seq<Seq<char>>, i: int)
    requires
        0 <= i < parts.len(),
    ensures
        crate::io::contains_text(crate::io::join_lines(parts), parts[i]),
    decreases parts.len(),
{
    if parts.len() == 1 {
        lemma_contains_middle(Seq::empty(), parts[0], Seq::empty());
        assert(Seq::<char>::empty() + parts[0] + Seq::<char>::empty() =~= parts[0]);
    } else if i == parts.len() - 1 {
        let a = crate::io::join_lines(parts.drop_last()) + seq!['\n'];
        lemma_contains_middle(a, parts.last(), Seq::empty());
        assert(a + parts.last() + Seq::<char>::empty() =~= crate::io::join_lines(parts));
    } else {
        let d = parts.drop_last();
        assert(d[i] == parts[i]);
        lemma_join_lines_contains(d, i);
        lemma_contains_extend(crate::io::join_lines(d), seq!['\n'] + parts.last(), parts[i]);
        assert(crate::io::join_lines(d) + (seq!['\n'] + parts.last()) =~= crate::io::join_lines(parts));
    }
}

/// SQL columns import by the family of their type: every date and time type
/// (`DATE`, `TIME`, `DATETIME`, `TIMESTAMP`) as `datetime`, every integer and
/// decimal type as `number`, every character type as `string`, `BOOLEAN`
/// (and MSSQL's custom `BIT`) as `bool`, `INTERVAL` as `duration`, `JSON` as
/// `object` and arrays as `array`; other types get no type.
pub proof fn law_sql_types_import_by_family(t: crate::schema_import::SqlDataType, custom: Seq<Seq<char>>)
    ensures
        (t is Date || t is Time || t is Datetime || t is Timestamp) ==> (
            crate::schema_import::spec_detect_field_type(t, custom) matches Some(f)
            && crate::schema_import::field_type_text(f) == "datetime"@),
        (t is TinyInt || t is UnsignedTinyInt || t is SmallInt || t is UnsignedSmallInt || t is Int || t is UnsignedInt
            || t is Integer || t is UnsignedInteger || t is MediumInt || t is UnsignedMediumInt || t is BigInt
            || t is UnsignedBigInt || t is Real || t is Double || t is DoublePrecision || t is Dec || t is Decimal
            || t is BigDecimal || t is Float || t is Numeric || t is BigNumeric) ==> (
            crate::schema_import::spec_detect_field_type(t, custom) matches Some(f)
            && crate::schema_import::field_type_text(f) == "number"@),
        (t is Char || t is CharVarying || t is Character || t is CharacterVarying || t is Varchar || t is Nvarchar
            || t is Text) ==> (
            crate::schema_import::spec_detect_field_type(t, custom) matches Some(f)
            && crate::schema_import::field_type_text(f) == "string"@),
        (t is Boolean || (t is Custom && custom.len() > 0 && custom[0] == "BIT"@)) ==> (
            crate::schema_import::spec_detect_field_type(t, custom) matches Some(f)
            && crate::schema_import::field_type_text(f) == "bool"@),
        t is Interval ==> (crate::schema_import::spec_detect_field_type(t, custom) matches Some(f)
            && crate::schema_import::field_type_text(f) == "duration"@),
        t is Json ==> (crate::schema_import::spec_detect_field_type(t, custom) matches Some(f)
            && crate::schema_import::field_type_text(f) == "object"@),
        t is Array ==> (crate::schema_import::spec_detect_field_type(t, custom) matches Some(f)
            && crate::schema_import::field_type_text(f) == "array"@),
        (t is Other || (t is Custom && !(custom.len() > 0 && custom[0] == "BIT"@)))
            ==> crate::schema_import::spec_detect_field_type(t, custom) is None,
{
}

} // verus!

verus! {

/// The line that defines `field` on the new table `name`.
pub open spec fn created_field_line(field: Seq<char>, name: Seq<char>) -> Seq<char> {
    "DEFINE FIELD OVERWRITE "@ + field + " ON "@ + name + ";"@
}

/// A new event file holds what a new schema file with the same table design
/// and fields holds (the table and one `DEFINE FIELD OVERWRITE` line per
/// given field), followed by the definition of the event; and each given
/// field has its line in both.
pub proof fn law_event_file_defines_the_given_fields(
    design: Seq<char>,
    name: Seq<char>,
    schema: crate::create::CreateSchemaArgs,
    event: crate::create::CreateEventArgs,
)
    requires
        schema.fields == event.fields,
    ensures
        crate::create::file_content_text(design, crate::create::CreateOperation::Event(event), name)
            == crate::create::file_content_text(design, crate::create::CreateOperation::Schema(schema), name)
                + "\n\nDEFINE EVENT OVERWRITE "@ + name + " ON TABLE "@ + name
                + " WHEN $event == \"CREATE\" THEN (\n    # TODO\n);"@,
        schema.fields matches Some(fs) ==> forall|i: int| 0 <= i < fs@.len() ==> {
            &&& crate::io::contains_text(
                crate::create::file_content_text(design, crate::create::CreateOperation::Schema(schema), name),
                #[trigger] created_field_line(fs@[i]@, name),
            )
            &&& crate::io::contains_text(
                crate::create::file_content_text(design, crate::create::CreateOperation::Event(event), name),
                created_field_line(fs@[i]@, name),
            )
        },
{
    let head = "DEFINE TABLE OVERWRITE "@ + name + " "@ + design + ";\n\n"@;
    let tail = "\n\nDEFINE EVENT OVERWRITE "@ + name + " ON TABLE "@ + name + " WHEN $event == \"CREATE\" THEN (\n    # TODO\n);"@;
    let opt = match schema.fields { Some(f) => Some(f@), None => None };
    let fields = crate::create::field_definitions_text(opt, name);
    assert(crate::create::file_content_text(design, crate::create::CreateOperation::Event(event), name)
        =~= head + fields + tail);
    assert(crate::create::file_content_text(design, crate::create::CreateOperation::Schema(schema), name)
        =~= head + fields);
    if schema.fields is Some {
        let fs = schema.fields->Some_0;
        let lines = fs@.map_values(|f: String| crate::create::field_definition_line(f@, name));
        assert forall|i: int| 0 <= i < fs@.len() implies {
            &&& crate::io::contains_text(
                crate::create::file_content_text(design, crate::create::CreateOperation::Schema(schema), name),
                #[trigger] created_field_line(fs@[i]@, name),
            )
            &&& crate::io::contains_text(
                crate::create::file_content_text(design, crate::create::CreateOperation::Event(event), name),
                created_field_line(fs@[i]@, name),
            )
        } by {
            lemma_join_lines_contains(lines, i);
            assert(lines[i] == created_field_line(fs@[i]@, name));
            lemma_contains_prepend(head, fields, lines[i]);
            lemma_contains_extend(head + fields, tail, lines[i]);
        }
    }
}

/// The statement is a definition of a table, field, index, event or access.
pub open spec fn is_undoable_definition(s: Statement) -> bool {
    ||| s matches Statement::Define(crate::statements::DefineStatement::Table(_))
    ||| s matches Statement::Define(crate::statements::DefineStatement::Field(_))
    ||| s matches Statement::Define(crate::statements::DefineStatement::Index(_))
    ||| s matches Statement::Define(crate::statements::DefineStatement::Event(_))
    ||| s matches Statement::Define(crate::statements::DefineStatement::Access(_))
}

/// What removes the definition `s`, and so must appear in a down migration.
pub open spec fn removal_line(s: Statement) -> Seq<char> {
    match s {
        Statement::Define(crate::statements::DefineStatement::Table(t)) => "REMOVE TABLE "@ + t.name@ + ";\n"@,
        Statement::Define(crate::statements::DefineStatement::Field(f)) =>
            "REMOVE FIELD "@ + f.name@ + " ON "@ + f.what@ + ";\n"@,
        Statement::Define(crate::statements::DefineStatement::Index(i)) =>
            "REMOVE INDEX "@ + i.name@ + " ON "@ + i.what@ + ";\n"@,
        Statement::Define(crate::statements::DefineStatement::Event(e)) =>
            "REMOVE EVENT "@ + e.name@ + " ON "@ + e.what@ + ";\n"@,
        Statement::Define(crate::statements::DefineStatement::Access(a)) =>
            "REMOVE ACCESS "@ + a.name@ + " ON "@ + a.base@ + ";\n"@,
        _ => Seq::empty(),
    }
}

/// One more undoable definition adds its `REMOVE` line at the end.
proof fn lemma_down_migration_step(s: Seq<crate::statements::ParsedStatement>, t: Seq<char>)
    requires
        s.len() > 0,
        crate::scaffold::down_migration_text(s.drop_last()) == Some(t),
        is_undoable_definition(s.last().statement),
    ensures
        crate::scaffold::down_migration_text(s) == Some(t
            + crate::scaffold::separator(crate::scaffold::last_idiom(s.drop_last()),
                crate::scaffold::statement_idiom(s.last().statement))
            + removal_line(s.last().statement)),
{
    let last = s.last().statement;
    let x = crate::scaffold::spec_remove_statement(last)->Some_0;
    let sep = crate::scaffold::separator(crate::scaffold::last_idiom(s.drop_last()), crate::scaffold::statement_idiom(last));
    assert(x + ";\n"@ =~= removal_line(last));
    assert(t + sep + x + ";\n"@ =~= t + sep + removal_line(last));
}

proof fn lemma_down_migration_removes_each(s: Seq<crate::statements::ParsedStatement>)
    requires
        forall|i: int| 0 <= i < s.len() ==> is_undoable_definition(#[trigger] s[i].statement),
    ensures
        crate::scaffold::down_migration_text(s) matches Some(text)
            && forall|i: int| 0 <= i < s.len() ==> crate::io::contains_text(text, removal_line(#[trigger] s[i].statement)),
    decreases s.len(),
{
    if s.len() > 0 {
        let d = s.drop_last();
        assert forall|i: int| 0 <= i < d.len() implies is_undoable_definition(#[trigger] d[i].statement) by {
            assert(d[i] == s[i]);
        }
        lemma_down_migration_removes_each(d);
        let t = crate::scaffold::down_migration_text(d)->Some_0;
        let last = s.last().statement;
        assert(s[s.len() - 1] == s.last());
        lemma_down_migration_step(s, t);
        let sep = crate::scaffold::separator(crate::scaffold::last_idiom(d), crate::scaffold::statement_idiom(last));
        let text = t + sep + removal_line(last);
        assert forall|i: int| 0 <= i < s.len() implies crate::io::contains_text(text, removal_line(#[trigger] s[i].statement)) by {
            if i < s.len() - 1 {
                assert(d[i] == s[i]);
                lemma_contains_extend(t, sep + removal_line(last), removal_line(s[i].statement));
                assert(t + (sep + removal_line(last)) =~= text);
            } else {
                lemma_contains_middle(t + sep, removal_line(last), Seq::empty());
                assert(t + sep + removal_line(last) + Seq::<char>::empty() =~= text);
            }
        }
    }
}

/// Every definition of a table, field, index, event or access can be
/// undone: the initial down migration of statements made only of such
/// definitions exists (it is not refused) and holds the `REMOVE` line of
/// each of them.
pub proof fn law_initial_down_migration_removes_every_definition(statements: Seq<crate::statements::ParsedStatement>)
    requires
        forall|i: int| 0 <= i < statements.len() ==> is_undoable_definition(#[trigger] statements[i].statement),
    ensures
        crate::scaffold::down_migration_text(statements.reverse()) matches Some(text)
            && forall|i: int| 0 <= i < statements.len()
                ==> crate::io::contains_text(text, removal_line(#[trigger] statements[i].statement)),
{
    let r = statements.reverse();
    assert forall|i: int| 0 <= i < r.len() implies is_undoable_definition(#[trigger] r[i].statement) by {
        assert(r[i] == statements[statements.len() - 1 - i]);
    }
    lemma_down_migration_removes_each(r);
    let text = crate::scaffold::down_migration_text(r)->Some_0;
    assert forall|i: int| 0 <= i < statements.len()
        implies crate::io::contains_text(text, removal_line(#[trigger] statements[i].statement)) by {
        let j = statements.len() - 1 - i;
        assert(r[j] == statements[i]);
    }
}

} // verus!

verus! {

/// The two optional texts are both absent, or both present and equal.
pub open spec fn same_optional_text(a: Option<String>, b: Option<String>) -> bool {
    match (a, b) {
        (Some(x), Some(y)) => x@ == y@,
        (None, None) => true,
        _ => false,
    }
}

/// The two definitions of a field disagree on whether it is read-only, on
/// its assertion, its default value, its type, its permissions or the
/// reference it makes.
pub open spec fn field_attributes_differ(a: DefineFieldStatement, b: DefineFieldStatement) -> bool {
    ||| a.readonly != b.readonly
    ||| !same_optional_text(a.assert, b.assert)
    ||| !same_optional_text(a.default, b.default)
    ||| !same_optional_text(a.kind, b.kind)
    ||| a.permissions@ != b.permissions@
    ||| !same_optional_text(a.reference, b.reference)
}

/// Statement `k` of `s` is the definition `f` of a field on table `t`.
pub open spec fn defines_field_at(s: Seq<Statement>, k: int, f: DefineFieldStatement, t: Seq<char>) -> bool {
    &&& 0 <= k < s.len()
    &&& s[k] == Statement::Define(DefineStatement::Field(f))
    &&& f.what@ == t
}

/// Statement `k` of `s` is the first definition of field `f.name` on table `t`.
pub open spec fn first_field_definition(s: Seq<Statement>, k: int, f: DefineFieldStatement, t: Seq<char>) -> bool {
    &&& defines_field_at(s, k, f, t)
    &&& forall|k2: int| 0 <= k2 < k ==> !(#[trigger] s[k2] matches Statement::Define(DefineStatement::Field(g))
        && g.what@ == t && g.name@ == f.name@)
}

proof fn lemma_first_named_push(x: Seq<DefineFieldStatement>, z: DefineFieldStatement, n: Seq<char>)
    ensures
        first_named(x.push(z), n) == match first_named(x, n) {
            Some(y) => Some(y),
            None => if z.name@ == n { Some(z) } else { None },
        },
    decreases x.len(),
{
    if x.len() == 0 {
        assert(x.push(z).drop_first() =~= Seq::<DefineFieldStatement>::empty());
    } else {
        assert(x.push(z)[0] == x[0]);
        assert(x.push(z).drop_first() =~= x.drop_first().push(z));
        lemma_first_named_push(x.drop_first(), z, n);
    }
}

proof fn lemma_fields_on_contains(s: Seq<Statement>, t: Seq<char>, k: int, f: DefineFieldStatement)
    requires
        defines_field_at(s, k, f, t),
    ensures
        fields_on(s, t).contains(f),
    decreases s.len(),
{
    let d = s.drop_last();
    if k == s.len() - 1 {
        assert(fields_on(s, t) == fields_on(d, t).push(f));
        assert(fields_on(s, t)[fields_on(d, t).len() as int] == f);
    } else {
        assert(d[k] == s[k]);
        lemma_fields_on_contains(d, t, k, f);
        let j = choose|j: int| 0 <= j < fields_on(d, t).len() && fields_on(d, t)[j] == f;
        if let Statement::Define(DefineStatement::Field(g)) = s.last() {
            if g.what@ == t {
                assert(fields_on(s, t) == fields_on(d, t).push(g));
            }
        }
        assert(fields_on(s, t)[j] == f);
    }
}

proof fn lemma_first_named_absent(s: Seq<Statement>, t: Seq<char>, n: Seq<char>)
    requires
        forall|k2: int| 0 <= k2 < s.len() ==> !(#[trigger] s[k2] matches Statement::Define(DefineStatement::Field(g))
            && g.what@ == t && g.name@ == n),
    ensures
        first_named(fields_on(s, t), n) is None,
    decreases s.len(),
{
    if s.len() > 0 {
        let d = s.drop_last();
        assert forall|k2: int| 0 <= k2 < d.len() implies !(#[trigger] d[k2] matches Statement::Define(DefineStatement::Field(g))
            && g.what@ == t && g.name@ == n) by {
            assert(d[k2] == s[k2]);
        }
        lemma_first_named_absent(d, t, n);
        assert(s[s.len() - 1] == s.last());
        if let Statement::Define(DefineStatement::Field(g)) = s.last() {
            lemma_first_named_push(fields_on(d, t), g, n);
        }
    }
}

proof fn lemma_first_named_is_first_definition(s: Seq<Statement>, t: Seq<char>, k: int, f: DefineFieldStatement)
    requires
        first_field_definition(s, k, f, t),
    ensures
        first_named(fields_on(s, t), f.name@) == Some(f),
    decreases s.len(),
{
    let d = s.drop_last();
    if k == s.len() - 1 {
        assert forall|k2: int| 0 <= k2 < d.len() implies !(#[trigger] d[k2] matches Statement::Define(DefineStatement::Field(g))
            && g.what@ == t && g.name@ == f.name@) by {
            assert(d[k2] == s[k2]);
        }
        lemma_first_named_absent(d, t, f.name@);
        lemma_first_named_push(fields_on(d, t), f, f.name@);
    } else {
        assert(d[k] == s[k]);
        assert forall|k2: int| 0 <= k2 < k implies !(#[trigger] d[k2] matches Statement::Define(DefineStatement::Field(g))
            && g.what@ == t && g.name@ == f.name@) by {
            assert(d[k2] == s[k2]);
        }
        lemma_first_named_is_first_definition(d, t, k, f);
        if let Statement::Define(DefineStatement::Field(g)) = s.last() {
            lemma_first_named_push(fields_on(d, t), g, f.name@);
        }
    }
}

proof fn lemma_changed_field_names_contains(remote: Seq<DefineFieldStatement>, local: Seq<DefineFieldStatement>, j: int, l: DefineFieldStatement)
    requires
        0 <= j < remote.len(),
        first_named(local, remote[j].name@) == Some(l),
        definitions_differ(remote[j], l),
    ensures
        changed_field_names(remote, local).contains(remote[j].name@),
    decreases remote.len(),
{
    let d = remote.drop_last();
    let rest = changed_field_names(d, local);
    if j == remote.len() - 1 {
        assert(changed_field_names(remote, local) == rest.push(remote[j].name@));
        assert(changed_field_names(remote, local)[rest.len() as int] == remote[j].name@);
    } else {
        assert(d[j] == remote[j]);
        lemma_changed_field_names_contains(d, local, j, l);
        let i = choose|i: int| 0 <= i < rest.len() && rest[i] == remote[j].name@;
        assert(changed_field_names(remote, local)[i] == rest[i]);
    }
}

proof fn lemma_dedup_keeps(names: Seq<Seq<char>>, x: Seq<char>)
    requires
        names.contains(x),
    ensures
        dedup(names).contains(x),
    decreases names.len(),
{
    let d = names.drop_last();
    let rest = dedup(d);
    if d.contains(x) {
        lemma_dedup_keeps(d, x);
        let i = choose|i: int| 0 <= i < rest.len() && rest[i] == x;
        assert(dedup(names)[i] == x);
    } else {
        let i = choose|i: int| 0 <= i < names.len() && names[i] == x;
        if i < d.len() {
            assert(d[i] == x);
        }
        assert(names.last() == x);
        assert(dedup(names) == rest.push(x));
        assert(dedup(names)[rest.len() as int] == x);
    }
}

proof fn lemma_statement_tables_contains(s: Seq<Statement>, t: Seq<char>, k: int, f: DefineFieldStatement)
    requires
        defines_field_at(s, k, f, t),
    ensures
        statement_tables(s).contains(t),
    decreases s.len(),
{
    let d = s.drop_last();
    if k == s.len() - 1 {
        assert(statement_tables(s) == statement_tables(d).push(t));
        assert(statement_tables(s)[statement_tables(d).len() as int] == t);
    } else {
        assert(d[k] == s[k]);
        lemma_statement_tables_contains(d, t, k, f);
        let i = choose|i: int| 0 <= i < statement_tables(d).len() && statement_tables(d)[i] == t;
        assert(statement_tables(s)[i] == t);
    }
}

proof fn lemma_table_diffs_for_lists(tables: Seq<Seq<char>>, local: Seq<Statement>, remote: Seq<Statement>, t: Seq<char>)
    requires
        tables.contains(t),
        spec_table_diff(local, remote, t).2.len() > 0,
    ensures
        exists|i: int| 0 <= i < table_diffs_for(tables, local, remote).len()
            && #[trigger] table_diffs_for(tables, local, remote)[i] == spec_table_diff(local, remote, t),
    decreases tables.len(),
{
    let d = tables.drop_last();
    let rest = table_diffs_for(d, local, remote);
    if tables.last() == t {
        assert(table_diffs_for(tables, local, remote) == rest.push(spec_table_diff(local, remote, t)));
        assert(table_diffs_for(tables, local, remote)[rest.len() as int] == spec_table_diff(local, remote, t));
    } else {
        let k = choose|k: int| 0 <= k < tables.len() && tables[k] == t;
        assert(k < d.len());
        assert(d[k] == t);
        lemma_table_diffs_for_lists(d, local, remote, t);
        let i = choose|i: int| 0 <= i < rest.len() && #[trigger] rest[i] == spec_table_diff(local, remote, t);
        assert(table_diffs_for(tables, local, remote)[i] == rest[i]);
    }
}

/// A field defined on a table both locally and remotely, whose remote
/// definition differs from its first local definition in whether it is
/// read-only, its assertion, its default value, its type, its permissions or
/// its reference, is listed among the changes of that table.
pub proof fn law_changed_field_definitions_are_listed(
    local: Seq<Statement>,
    remote: Seq<Statement>,
    t: Seq<char>,
    j: int,
    rf: DefineFieldStatement,
    k: int,
    lf: DefineFieldStatement,
)
    requires
        defines_field_at(remote, j, rf, t),
        first_field_definition(local, k, lf, t),
        lf.name@ == rf.name@,
        field_attributes_differ(lf, rf),
    ensures
        exists|i: int| 0 <= i < spec_table_diffs(local, remote).len()
            && (#[trigger] spec_table_diffs(local, remote)[i]).0 == t
            && spec_table_diffs(local, remote)[i].2.contains(rf.name@),
{
    let lfs = fields_on(local, t);
    let rfs = fields_on(remote, t);
    lemma_first_named_is_first_definition(local, t, k, lf);
    lemma_fields_on_contains(remote, t, j, rf);
    let jj = choose|jj: int| 0 <= jj < rfs.len() && rfs[jj] == rf;
    assert(definitions_differ(rf, lf));
    lemma_changed_field_names_contains(rfs, lfs, jj, lf);
    let changed = changed_field_names(rfs, lfs);
    lemma_dedup_keeps(changed, rf.name@);
    let d = spec_table_diff(local, remote, t);
    assert(d.2 == dedup(changed));
    lemma_statement_tables_contains(remote, t, j, rf);
    let lt = statement_tables(local);
    let rt = statement_tables(remote);
    let p = choose|p: int| 0 <= p < rt.len() && rt[p] == t;
    assert((lt + rt)[lt.len() + p] == t);
    lemma_dedup_keeps(lt + rt, t);
    lemma_table_diffs_for_lists(dedup(lt + rt), local, remote, t);
    let i = choose|i: int| 0 <= i < table_diffs_for(dedup(lt + rt), local, remote).len()
        && #[trigger] table_diffs_for(dedup(lt + rt), local, remote)[i] == d;
    assert(spec_table_diffs(local, remote)[i] == d);
}

} // verus!

verus! {

/// Table `i` of the origin is defined in the branch, otherwise than in the
/// origin.
pub open spec fn altered_at(origin: Seq<(String, String)>, branch: Seq<(String, String)>, i: int) -> bool {
    &&& definition_of(branch, origin[i].0@) is Some
    &&& definition_of(branch, origin[i].0@) != definition_of(origin, origin[i].0@)
}

/// The branch defines every table of the origin as the origin does, and
/// defines no table that the origin lacks.
pub open spec fn same_schemas(origin: Seq<(String, String)>, branch: Seq<(String, String)>) -> bool {
    &&& forall|i: int| 0 <= i < origin.len()
        ==> definition_of(branch, (#[trigger] origin[i]).0@) == definition_of(origin, origin[i].0@)
    &&& forall|j: int| 0 <= j < branch.len() ==> definition_of(origin, (#[trigger] branch[j]).0@) is Some
}

proof fn lemma_definition_of_listed(s: Seq<(String, String)>, i: int)
    requires
        0 <= i < s.len(),
    ensures
        definition_of(s, s[i].0@) is Some,
    decreases i,
{
    if s[0].0@ != s[i].0@ {
        assert(s.drop_first()[i - 1] == s[i]);
        lemma_definition_of_listed(s.drop_first(), i - 1);
    }
}

proof fn lemma_missing_empty(a: Seq<(String, String)>, b: Seq<(String, String)>)
    ensures
        tables_missing_from(a, b).len() == 0
            <==> forall|j: int| 0 <= j < a.len() ==> definition_of(b, (#[trigger] a[j]).0@) is Some,
    decreases a.len(),
{
    if a.len() > 0 {
        let d = a.drop_last();
        lemma_missing_empty(d, b);
        assert(a[a.len() - 1] == a.last());
        if tables_missing_from(d, b).len() == 0 {
            assert forall|j: int| 0 <= j < d.len() implies definition_of(b, (#[trigger] a[j]).0@) is Some by {
                assert(d[j] == a[j]);
            }
        } else {
            let j = choose|j: int| !(0 <= j < d.len() ==> definition_of(b, (#[trigger] d[j]).0@) is Some);
            assert(d[j] == a[j]);
        }
    }
}

proof fn lemma_altered_prefix(origin: Seq<(String, String)>, branch: Seq<(String, String)>, n: int)
    requires
        0 <= n <= origin.len(),
    ensures
        tables_altered(origin.take(n), branch).len() == 0
            <==> forall|i: int| 0 <= i < n ==> !#[trigger] altered_at(origin, branch, i),
        forall|i: int| 0 <= i < n && #[trigger] altered_at(origin, branch, i)
            ==> tables_altered(origin.take(n), branch).contains(origin[i].0@),
    decreases n,
{
    if n > 0 {
        let p = origin.take(n);
        let q = origin.take(n - 1);
        assert(p.drop_last() =~= q);
        assert(p.last() == origin[n - 1]);
        lemma_altered_prefix(origin, branch, n - 1);
        crate::branch_diff::lemma_definition_of_prefix(origin, n - 1);
        assert(origin.take(n) == origin.take(n - 1 + 1));
        lemma_definition_of_listed(origin, n - 1);
        let rest = tables_altered(q, branch);
        let t = origin[n - 1].0@;
        if altered_at(origin, branch, n - 1) {
            assert(tables_altered(p, branch) == rest.push(t));
            assert(tables_altered(p, branch)[rest.len() as int] == t);
        } else {
            assert(tables_altered(p, branch) == rest);
        }
        assert forall|i: int| 0 <= i < n && #[trigger] altered_at(origin, branch, i)
            implies tables_altered(p, branch).contains(origin[i].0@) by {
            if i < n - 1 {
                let k = choose|k: int| 0 <= k < rest.len() && rest[k] == origin[i].0@;
                assert(tables_altered(p, branch)[k] == rest[k]);
            }
        }
    }
}

proof fn lemma_sections_contain(tables: Seq<Seq<char>>, texts: Seq<Seq<char>>, k: int)
    requires
        tables.len() == texts.len(),
        0 <= k < tables.len(),
    ensures
        crate::io::contains_text(table_sections(tables, texts), "\n## "@ + tables[k] + " ##\n\n"@),
    decreases tables.len(),
{
    let head = table_sections(tables.drop_last(), texts.drop_last());
    let needle = "\n## "@ + tables.last() + " ##\n\n"@;
    assert(table_sections(tables, texts) == head + "\n## "@ + tables.last() + " ##\n\n"@ + texts.last() + "\n"@);
    if k == tables.len() - 1 {
        lemma_contains_middle(head, needle, texts.last() + "\n"@);
        assert(head + needle + (texts.last() + "\n"@) =~= table_sections(tables, texts));
    } else {
        assert(tables.drop_last()[k] == tables[k]);
        lemma_sections_contain(tables.drop_last(), texts.drop_last(), k);
        lemma_contains_extend(head, needle + texts.last() + "\n"@, "\n## "@ + tables[k] + " ##\n\n"@);
        assert(head + (needle + texts.last() + "\n"@) =~= table_sections(tables, texts));
    }
}

/// The report of `branch diff` says that no schema change was detected
/// exactly when the branch defines every table of the origin as the origin
/// does and defines no other table: no table was created, altered or
/// removed.
pub proof fn law_branch_diff_reports_no_change_only_without_changes(
    origin: Seq<(String, String)>,
    branch: Seq<(String, String)>,
)
    ensures
        (branch_diff_report_text(origin, branch) == "No schema changes detected\n"@) <==> same_schemas(origin, branch),
{
    let created = tables_missing_from(branch, origin);
    let altered = tables_altered(origin, branch);
    let removed = tables_missing_from(origin, branch);
    lemma_missing_empty(branch, origin);
    lemma_missing_empty(origin, branch);
    lemma_altered_prefix(origin, branch, origin.len() as int);
    assert(origin.take(origin.len() as int) =~= origin);
    reveal_strlit("No schema changes detected\n");
    reveal_strlit("Schema changes detected:\n");
    if created.len() == 0 && altered.len() == 0 && removed.len() == 0 {
        assert forall|i: int| 0 <= i < origin.len()
            implies definition_of(branch, (#[trigger] origin[i]).0@) == definition_of(origin, origin[i].0@) by {
            assert(!altered_at(origin, branch, i));
        }
    } else {
        let r = branch_diff_report_text(origin, branch);
        assert(r[0] == 'S');
        assert("No schema changes detected\n"@[0] == 'N');
        assert(r != "No schema changes detected\n"@);
        if removed.len() > 0 {
            let j = choose|j: int| !(0 <= j < origin.len() ==> definition_of(branch, (#[trigger] origin[j]).0@) is Some);
            lemma_definition_of_listed(origin, j);
            assert(definition_of(branch, origin[j].0@) != definition_of(origin, origin[j].0@));
        } else if created.len() > 0 {
            let j = choose|j: int| !(0 <= j < branch.len() ==> definition_of(origin, (#[trigger] branch[j]).0@) is Some);
            assert(!same_schemas(origin, branch));
        } else {
            let i = choose|i: int| 0 <= i < origin.len() && #[trigger] altered_at(origin, branch, i);
            assert(definition_of(branch, origin[i].0@) != definition_of(origin, origin[i].0@));
        }
    }
}

/// When the branch defines a table of the origin otherwise, the report of
/// `branch diff` has a section of altered tables, and that table has its
/// own section in the report.
pub proof fn law_branch_diff_lists_altered_table(origin: Seq<(String, String)>, branch: Seq<(String, String)>, i: int)
    requires
        0 <= i < origin.len(),
        altered_at(origin, branch, i),
    ensures
        crate::io::contains_text(branch_diff_report_text(origin, branch), " tables altered ###\n"@),
        crate::io::contains_text(branch_diff_report_text(origin, branch), "\n## "@ + origin[i].0@ + " ##\n\n"@),
{
    let created = tables_missing_from(branch, origin);
    let altered = tables_altered(origin, branch);
    let removed = tables_missing_from(origin, branch);
    lemma_altered_prefix(origin, branch, origin.len() as int);
    assert(origin.take(origin.len() as int) =~= origin);
    assert(altered.contains(origin[i].0@));
    let k = choose|k: int| 0 <= k < altered.len() && altered[k] == origin[i].0@;
    let texts = patches_of(origin, branch, altered);
    let sections = table_sections(altered, texts);
    lemma_sections_contain(altered, texts, k);
    let title = "\n### "@ + decimal_text(altered.len()) + " tables "@ + "altered"@ + " ###\n"@;
    let before = "Schema changes detected:\n"@ + report_section("created"@, created, definitions_of(branch, created));
    let after = report_section("removed"@, removed, definitions_of(origin, removed));
    let r = branch_diff_report_text(origin, branch);
    assert(r == before + (title + sections) + after);
    reveal_strlit(" tables ");
    reveal_strlit("altered");
    reveal_strlit(" ###\n");
    reveal_strlit(" tables altered ###\n");
    let label = " tables altered ###\n"@;
    assert(title =~= "\n### "@ + decimal_text(altered.len()) + label);
    lemma_contains_middle("\n### "@ + decimal_text(altered.len()), label, sections);
    lemma_contains_prepend(before, title + sections, label);
    lemma_contains_extend(before + (title + sections), after, label);
    lemma_contains_prepend(title, sections, "\n## "@ + origin[i].0@ + " ##\n\n"@);
    lemma_contains_prepend(before, title + sections, "\n## "@ + origin[i].0@ + " ##\n\n"@);
    lemma_contains_extend(before + (title + sections), after, "\n## "@ + origin[i].0@ + " ##\n\n"@);
}

} // verus!

verus! {

proof fn lemma_first_named_found(x: Seq<DefineFieldStatement>, i: int, n: Seq<char>)
    requires
        0 <= i < x.len(),
        x[i].name@ == n,
    ensures
        first_named(x, n) is Some,
    decreases i,
{
    if x[0].name@ != n {
        assert(x.drop_first()[i - 1] == x[i]);
        lemma_first_named_found(x.drop_first(), i - 1, n);
    }
}

proof fn lemma_first_named_named(x: Seq<DefineFieldStatement>, n: Seq<char>)
    ensures
        first_named(x, n) matches Some(l) ==> l.name@ == n,
    decreases x.len(),
{
    if x.len() > 0 && x[0].name@ != n {
        lemma_first_named_named(x.drop_first(), n);
    }
}

proof fn lemma_first_definition_found(s: Seq<Statement>, t: Seq<char>, n: Seq<char>)
    requires
        first_named(fields_on(s, t), n) is Some,
    ensures
        exists|k: int| #[trigger] first_field_definition(s, k, first_named(fields_on(s, t), n)->Some_0, t),
    decreases s.len(),
{
    let d = s.drop_last();
    let l = first_named(fields_on(s, t), n)->Some_0;
    lemma_first_named_named(fields_on(s, t), n);
    assert(s[s.len() - 1] == s.last());
    if first_named(fields_on(d, t), n) is Some {
        lemma_first_definition_found(d, t, n);
        if let Statement::Define(DefineStatement::Field(g)) = s.last() {
            lemma_first_named_push(fields_on(d, t), g, n);
        }
        let k = choose|k: int| #[trigger] first_field_definition(d, k, first_named(fields_on(d, t), n)->Some_0, t);
        assert(d[k] == s[k]);
        assert forall|k2: int| 0 <= k2 < k implies !(#[trigger] s[k2] matches Statement::Define(DefineStatement::Field(g))
            && g.what@ == t && g.name@ == l.name@) by {
            assert(d[k2] == s[k2]);
        }
        assert(first_field_definition(s, k, l, t));
    } else {
        if let Statement::Define(DefineStatement::Field(g)) = s.last() {
            lemma_first_named_push(fields_on(d, t), g, n);
            if g.what@ == t {
                assert(g == l);
                let k = s.len() - 1;
                assert forall|k2: int| 0 <= k2 < k implies !(#[trigger] s[k2] matches Statement::Define(DefineStatement::Field(h))
                    && h.what@ == t && h.name@ == l.name@) by {
                    assert(d[k2] == s[k2]);
                    if let Statement::Define(DefineStatement::Field(h)) = d[k2] {
                        if h.what@ == t && h.name@ == n {
                            lemma_fields_on_contains(d, t, k2, h);
                            let p = choose|p: int| 0 <= p < fields_on(d, t).len() && fields_on(d, t)[p] == h;
                            lemma_first_named_found(fields_on(d, t), p, n);
                        }
                    }
                }
                assert(first_field_definition(s, k, l, t));
            } else {
                assert(fields_on(s, t) == fields_on(d, t));
            }
        } else {
            assert(fields_on(s, t) == fields_on(d, t));
        }
    }
}

proof fn lemma_fields_on_origin(s: Seq<Statement>, t: Seq<char>, i: int)
    requires
        0 <= i < fields_on(s, t).len(),
    ensures
        exists|j: int| #[trigger] defines_field_at(s, j, fields_on(s, t)[i], t),
    decreases s.len(),
{
    let d = s.drop_last();
    assert(s[s.len() - 1] == s.last());
    if i < fields_on(d, t).len() {
        lemma_fields_on_origin(d, t, i);
        let j = choose|j: int| #[trigger] defines_field_at(d, j, fields_on(d, t)[i], t);
        assert(d[j] == s[j]);
        if let Statement::Define(DefineStatement::Field(g)) = s.last() {
            if g.what@ == t {
                assert(fields_on(s, t) == fields_on(d, t).push(g));
            }
        }
        assert(fields_on(s, t)[i] == fields_on(d, t)[i]);
        assert(defines_field_at(s, j, fields_on(s, t)[i], t));
    } else {
        if let Statement::Define(DefineStatement::Field(g)) = s.last() {
            if g.what@ == t {
                assert(fields_on(s, t) == fields_on(d, t).push(g));
                assert(defines_field_at(s, s.len() - 1, fields_on(s, t)[i], t));
            }
        }
    }
}

proof fn lemma_changed_field_names_origin(remote: Seq<DefineFieldStatement>, local: Seq<DefineFieldStatement>, n: Seq<char>)
    requires
        changed_field_names(remote, local).contains(n),
    ensures
        exists|j: int| 0 <= j < remote.len() && (#[trigger] remote[j]).name@ == n
            && first_named(local, n) is Some && definitions_differ(remote[j], first_named(local, n)->Some_0),
    decreases remote.len(),
{
    let d = remote.drop_last();
    let rest = changed_field_names(d, local);
    let j = remote.len() - 1;
    if rest.contains(n) {
        lemma_changed_field_names_origin(d, local, n);
        let i = choose|i: int| 0 <= i < d.len() && (#[trigger] d[i]).name@ == n
            && first_named(local, n) is Some && definitions_differ(d[i], first_named(local, n)->Some_0);
        assert(remote[i] == d[i]);
    } else {
        let k = choose|k: int| 0 <= k < changed_field_names(remote, local).len() && changed_field_names(remote, local)[k] == n;
        if first_named(local, remote.last().name@) is Some
            && definitions_differ(remote.last(), first_named(local, remote.last().name@)->Some_0) {
            assert(changed_field_names(remote, local) == rest.push(remote.last().name@));
            if k < rest.len() {
                assert(rest[k] == n);
            }
            assert(remote[j] == remote.last());
        } else {
            assert(changed_field_names(remote, local) == rest);
        }
    }
}

proof fn lemma_table_diffs_for_origin(tables: Seq<Seq<char>>, local: Seq<Statement>, remote: Seq<Statement>, i: int)
    requires
        0 <= i < table_diffs_for(tables, local, remote).len(),
    ensures
        table_diffs_for(tables, local, remote)[i]
            == spec_table_diff(local, remote, table_diffs_for(tables, local, remote)[i].0),
    decreases tables.len(),
{
    let d = tables.drop_last();
    let rest = table_diffs_for(d, local, remote);
    if i < rest.len() {
        lemma_table_diffs_for_origin(d, local, remote, i);
        let x = spec_table_diff(local, remote, tables.last());
        if x.1.len() > 0 || x.2.len() > 0 || x.3.len() > 0 {
            assert(table_diffs_for(tables, local, remote) == rest.push(x));
        }
        assert(table_diffs_for(tables, local, remote)[i] == rest[i]);
    }
}

/// A field is listed among the changes of a table only when it is defined
/// on that table both remotely and locally, and a remote definition of it
/// differs from its first local definition in whether it is read-only, its
/// assertion, its default value, its type, its permissions or its reference.
pub proof fn law_listed_changes_are_changed_definitions(local: Seq<Statement>, remote: Seq<Statement>, i: int, n: Seq<char>)
    requires
        0 <= i < spec_table_diffs(local, remote).len(),
        spec_table_diffs(local, remote)[i].2.contains(n),
    ensures
        exists|j: int, rf: DefineFieldStatement, k: int, lf: DefineFieldStatement|
            #[trigger] defines_field_at(remote, j, rf, spec_table_diffs(local, remote)[i].0)
            && #[trigger] first_field_definition(local, k, lf, spec_table_diffs(local, remote)[i].0)
            && rf.name@ == n && lf.name@ == n && field_attributes_differ(lf, rf),
{
    let lt = statement_tables(local);
    let rt = statement_tables(remote);
    let t = spec_table_diffs(local, remote)[i].0;
    lemma_table_diffs_for_origin(dedup(lt + rt), local, remote, i);
    let lfs = fields_on(local, t);
    let rfs = fields_on(remote, t);
    let changed = changed_field_names(rfs, lfs);
    assert(spec_table_diffs(local, remote)[i].2 == dedup(changed));
    lemma_dedup_members(changed);
    lemma_changed_field_names_origin(rfs, lfs, n);
    let jj = choose|jj: int| 0 <= jj < rfs.len() && (#[trigger] rfs[jj]).name@ == n
        && first_named(lfs, n) is Some && definitions_differ(rfs[jj], first_named(lfs, n)->Some_0);
    let rf = rfs[jj];
    let lf = first_named(lfs, n)->Some_0;
    lemma_fields_on_origin(remote, t, jj);
    let j = choose|j: int| #[trigger] defines_field_at(remote, j, rfs[jj], t);
    lemma_first_definition_found(local, t, n);
    let k = choose|k: int| #[trigger] first_field_definition(local, k, lf, t);
    lemma_first_named_named(lfs, n);
    assert(field_attributes_differ(lf, rf));
    assert(defines_field_at(remote, j, rf, t) && first_field_definition(local, k, lf, t)
        && rf.name@ == n && lf.name@ == n && field_attributes_differ(lf, rf));
}

} // verus!

verus! {

/// The removal lines of the statements, last statement first.
pub open spec fn removal_lines_last_first(s: Seq<crate::statements::ParsedStatement>) -> Seq<char>
    decreases s.len(),
{
    if s.len() == 0 {
        Seq::empty()
    } else {
        removal_lines_last_first(s.drop_first()) + removal_line(s[0].statement)
    }
}

/// The definitions of one table are undone in the reverse of the order in
/// which they were made: the initial down migration of such definitions is
/// their `REMOVE` lines, the last definition's first, with no blank line.
pub proof fn law_initial_down_migration_undoes_last_first(
    statements: Seq<crate::statements::ParsedStatement>,
    table: Seq<char>,
)
    requires
        forall|i: int| 0 <= i < statements.len() ==> is_undoable_definition(#[trigger] statements[i].statement)
            && crate::scaffold::statement_idiom(statements[i].statement) == Some(table),
    ensures
        crate::scaffold::down_migration_text(statements.reverse()) == Some(removal_lines_last_first(statements)),
    decreases statements.len(),
{
    if statements.len() > 0 {
        let rest = statements.drop_first();
        assert forall|i: int| 0 <= i < rest.len() implies is_undoable_definition(#[trigger] rest[i].statement)
            && crate::scaffold::statement_idiom(rest[i].statement) == Some(table) by {
            assert(rest[i] == statements[i + 1]);
        }
        law_initial_down_migration_undoes_last_first(rest, table);
        let r = statements.reverse();
        assert(r.drop_last() =~= rest.reverse());
        assert(r.last() == statements[0]);
        let t = removal_lines_last_first(rest);
        lemma_down_migration_step(r, t);
        let prev = crate::scaffold::last_idiom(r.drop_last());
        if rest.len() > 0 {
            assert(rest.reverse().last() == rest[0]);
            assert(prev == Some(table));
        }
        assert(crate::scaffold::separator(prev, crate::scaffold::statement_idiom(statements[0].statement)) =~= Seq::<char>::empty());
        assert(t + Seq::<char>::empty() + removal_line(statements[0].statement) =~= removal_lines_last_first(statements));
    }
}

} // verus!

verus! {

proof fn lemma_missing_contains(a: Seq<(String, String)>, b: Seq<(String, String)>, j: int)
    requires
        0 <= j < a.len(),
        definition_of(b, a[j].0@) is None,
    ensures
        tables_missing_from(a, b).contains(a[j].0@),
    decreases a.len(),
{
    let d = a.drop_last();
    let rest = tables_missing_from(d, b);
    if j == a.len() - 1 {
        assert(tables_missing_from(a, b) == rest.push(a[j].0@));
        assert(tables_missing_from(a, b)[rest.len() as int] == a[j].0@);
    } else {
        assert(d[j] == a[j]);
        lemma_missing_contains(d, b, j);
        let k = choose|k: int| 0 <= k < rest.len() && rest[k] == a[j].0@;
        assert(tables_missing_from(a, b)[k] == rest[k]);
    }
}

proof fn lemma_section_contains(label: Seq<char>, tables: Seq<Seq<char>>, texts: Seq<Seq<char>>, k: int)
    requires
        tables.len() == texts.len(),
        0 <= k < tables.len(),
    ensures
        crate::io::contains_text(report_section(label, tables, texts), " tables "@ + label + " ###\n"@),
        crate::io::contains_text(report_section(label, tables, texts), "\n## "@ + tables[k] + " ##\n\n"@),
{
    let head = "\n### "@ + decimal_text(tables.len());
    let title = " tables "@ + label + " ###\n"@;
    let sections = table_sections(tables, texts);
    assert(report_section(label, tables, texts) =~= head + title + sections);
    lemma_contains_middle(head, title, sections);
    lemma_sections_contain(tables, texts, k);
    lemma_contains_prepend(head + title, sections, "\n## "@ + tables[k] + " ##\n\n"@);
}

/// A table that only the branch defines is listed in a section of created
/// tables of the `branch diff` report, and has its own section there.
pub proof fn law_branch_diff_lists_created_table(origin: Seq<(String, String)>, branch: Seq<(String, String)>, j: int)
    requires
        0 <= j < branch.len(),
        definition_of(origin, branch[j].0@) is None,
    ensures
        crate::io::contains_text(branch_diff_report_text(origin, branch), " tables created ###\n"@),
        crate::io::contains_text(branch_diff_report_text(origin, branch), "\n## "@ + branch[j].0@ + " ##\n\n"@),
{
    let created = tables_missing_from(branch, origin);
    let altered = tables_altered(origin, branch);
    let removed = tables_missing_from(origin, branch);
    lemma_missing_contains(branch, origin, j);
    let k = choose|k: int| 0 <= k < created.len() && created[k] == branch[j].0@;
    let sec = report_section("created"@, created, definitions_of(branch, created));
    lemma_section_contains("created"@, created, definitions_of(branch, created), k);
    let head = "Schema changes detected:\n"@;
    let tail = report_section("altered"@, altered, patches_of(origin, branch, altered))
        + report_section("removed"@, removed, definitions_of(origin, removed));
    assert(branch_diff_report_text(origin, branch) =~= head + sec + tail);
    reveal_strlit(" tables ");
    reveal_strlit("created");
    reveal_strlit(" ###\n");
    reveal_strlit(" tables created ###\n");
    assert(" tables "@ + "created"@ + " ###\n"@ =~= " tables created ###\n"@);
    lemma_contains_prepend(head, sec, " tables created ###\n"@);
    lemma_contains_extend(head + sec, tail, " tables created ###\n"@);
    lemma_contains_prepend(head, sec, "\n## "@ + branch[j].0@ + " ##\n\n"@);
    lemma_contains_extend(head + sec, tail, "\n## "@ + branch[j].0@ + " ##\n\n"@);
}

/// A table that only the origin defines is listed in a section of removed
/// tables of the `branch diff` report, and has its own section there.
pub proof fn law_branch_diff_lists_removed_table(origin: Seq<(String, String)>, branch: Seq<(String, String)>, i: int)
    requires
        0 <= i < origin.len(),
        definition_of(branch, origin[i].0@) is None,
    ensures
        crate::io::contains_text(branch_diff_report_text(origin, branch), " tables removed ###\n"@),
        crate::io::contains_text(branch_diff_report_text(origin, branch), "\n## "@ + origin[i].0@ + " ##\n\n"@),
{
    let created = tables_missing_from(branch, origin);
    let altered = tables_altered(origin, branch);
    let removed = tables_missing_from(origin, branch);
    lemma_missing_contains(origin, branch, i);
    let k = choose|k: int| 0 <= k < removed.len() && removed[k] == origin[i].0@;
    let sec = report_section("removed"@, removed, definitions_of(origin, removed));
    lemma_section_contains("removed"@, removed, definitions_of(origin, removed), k);
    let head = "Schema changes detected:\n"@ + report_section("created"@, created, definitions_of(branch, created))
        + report_section("altered"@, altered, patches_of(origin, branch, altered));
    assert(branch_diff_report_text(origin, branch) =~= head + sec);
    reveal_strlit(" tables ");
    reveal_strlit("removed");
    reveal_strlit(" ###\n");
    reveal_strlit(" tables removed ###\n");
    assert(" tables "@ + "removed"@ + " ###\n"@ =~= " tables removed ###\n"@);
    lemma_contains_prepend(head, sec, " tables removed ###\n"@);
    lemma_contains_prepend(head, sec, "\n## "@ + origin[i].0@ + " ##\n\n"@);
}

} // verus!
