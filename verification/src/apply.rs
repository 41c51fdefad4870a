use vstd::prelude::*;
use vstd::string::*;

use crate::constants::{DOWN_TAG, INITIAL_TRADITIONAL_MIGRATION_FILENAME, SCRIPT_MIGRATION_TABLE_NAME};
use crate::file::{has_tag, SurqlFile};
use crate::models::{
    direction_of, ApplyOperation, ApplyOperationKind, MigrationDirection, ScriptMigration,
    TransactionAction,
};
use crate::order::{compare_names, natural_lexical_rank, NameOrder};
use crate::order_safety::natural_order_safe;
use crate::sorting::{Named, NameOrdering, names_safe, sort_by_name, sorted_by_name};
use crate::strings::str_eq;

verus! {

/// How the transaction of a migration ends: rolled back on a dry run,
/// committed otherwise.
pub fn get_transaction_action(dry_run: bool) -> (a: TransactionAction)
    ensures
        a == (if dry_run { TransactionAction::Rollback } else { TransactionAction::Commit }),
{
    match dry_run {
        true => TransactionAction::Rollback,
        false => TransactionAction::Commit,
    }
}

/// Some applied migration is named `name`.
pub open spec fn is_applied(name: Seq<char>, applied: Seq<ScriptMigration>) -> bool {
    exists|i: int| 0 <= i < applied.len() && #[trigger] applied[i].script_name@ == name
}

/// The names that natural ordering reads for an operation are accepted by it.
pub open spec fn operation_safe(op: ApplyOperationKind, applied: Seq<ScriptMigration>) -> bool {
    &&& (op matches ApplyOperationKind::UpTo(t) ==> natural_order_safe(t))
    &&& (op matches ApplyOperationKind::DownTo(t) ==> natural_order_safe(t))
    &&& (op is DownSingle && applied.len() > 0 ==> natural_order_safe(applied.last().script_name@))
}

/// Whether the migration file named `name` (a down file when `is_backward`)
/// runs for the operation `op`, given the migrations already applied.
///
/// Files of the other direction never run. `UpTo` skips files beyond its
/// target and `DownTo` skips its target and the files before it;
/// `DownSingle` skips files before the last applied migration. Forward files
/// run when not yet applied, down files when their migration was applied.
pub open spec fn should_execute(name: Seq<char>, op: ApplyOperationKind, applied: Seq<ScriptMigration>, is_backward: bool) -> bool {
    let dir = direction_of(op);
    if (dir == MigrationDirection::Forward && is_backward) || (dir == MigrationDirection::Backward && !is_backward) {
        false
    } else if op matches ApplyOperationKind::UpTo(t) && natural_lexical_rank(name, t) > 0 {
        false
    } else if op matches ApplyOperationKind::DownTo(t) && natural_lexical_rank(name, t) <= 0 {
        false
    } else if op is DownSingle && applied.len() > 0 && natural_lexical_rank(name, applied.last().script_name@) < 0 {
        false
    } else if dir == MigrationDirection::Forward {
        !is_applied(name, applied)
    } else {
        is_applied(name, applied)
    }
}

/// Whether some applied migration is named `name`.
fn has_been_applied(name: &str, migrations_applied: &Vec<ScriptMigration>) -> (r: bool)
    ensures
        r == is_applied(name@, migrations_applied@),
{
    let mut i: usize = 0;
    while i < migrations_applied.len()
        invariant
            i <= migrations_applied.len(),
            forall|k: int| 0 <= k < i ==> migrations_applied@[k].script_name@ != name@,
        decreases migrations_applied.len() - i,
    {
        if str_eq(migrations_applied[i].script_name.as_str(), name) {
            return true;
        }
        i = i + 1;
    }
    false
}

/// Whether the migration file runs for the operation, given the migrations
/// already applied (see `should_execute`).
pub fn filter_migration_file_to_execute(
    migration_file: &SurqlFile,
    operation: &ApplyOperation,
    migrations_applied: &Vec<ScriptMigration>,
    is_backward_migration: bool,
) -> (r: bool)
    requires
        natural_order_safe(migration_file.name@),
        operation_safe(operation@, migrations_applied@),
    ensures
        r == should_execute(migration_file.name@, operation@, migrations_applied@, is_backward_migration),
{
    let migration_direction = MigrationDirection::from(operation);
    match (migration_direction, is_backward_migration) {
        (MigrationDirection::Forward, true) => return false,
        (MigrationDirection::Backward, false) => return false,
        _ => {},
    }
    match operation {
        ApplyOperation::UpTo(target_migration) => {
            let is_beyond_target = compare_names(migration_file.name.as_str(), target_migration.as_str()) == NameOrder::Greater;
            if is_beyond_target {
                return false;
            }
        },
        ApplyOperation::DownTo(target_migration) => {
            let is_target_or_below = compare_names(migration_file.name.as_str(), target_migration.as_str()) != NameOrder::Greater;
            if is_target_or_below {
                return false;
            }
        },
        ApplyOperation::DownSingle => {
            if migrations_applied.len() > 0 {
                let target_migration = &migrations_applied[migrations_applied.len() - 1];
                let is_below_target = compare_names(migration_file.name.as_str(), target_migration.script_name.as_str()) == NameOrder::Less;
                if is_below_target {
                    return false;
                }
            }
        },
        _ => {},
    }
    let has_already_been_applied = has_been_applied(migration_file.name.as_str(), migrations_applied);
    match (migration_direction, has_already_been_applied) {
        (MigrationDirection::Forward, true) => false,
        (MigrationDirection::Backward, false) => false,
        _ => true,
    }
}

} // verus!

verus! {

/// The files of `files` that run for the operation, in their order.
pub open spec fn files_to_execute(files: Seq<SurqlFile>, op: ApplyOperationKind, applied: Seq<ScriptMigration>, is_backward: bool) -> Seq<SurqlFile>
    decreases files.len(),
{
    if files.len() == 0 {
        Seq::empty()
    } else {
        let rest = files_to_execute(files.drop_last(), op, applied, is_backward);
        if should_execute(files.last().name@, op, applied, is_backward) {
            rest.push(files.last())
        } else {
            rest
        }
    }
}

proof fn lemma_files_to_execute_safe(files: Seq<SurqlFile>, op: ApplyOperationKind, applied: Seq<ScriptMigration>, is_backward: bool)
    requires
        names_safe(files),
    ensures
        names_safe(files_to_execute(files, op, applied, is_backward)),
    decreases files.len(),
{
    if files.len() > 0 {
        let d = files.drop_last();
        assert forall|i: int| 0 <= i < d.len() implies crate::order_safety::natural_order_safe(#[trigger] d[i].name_view()) by {
            assert(d[i] == files[i]);
        }
        lemma_files_to_execute_safe(d, op, applied, is_backward);
        assert(files.last() == files[files.len() - 1]);
    }
}

/// Keeps the files that run for the operation, in their order.
fn keep_files_to_execute(
    files: Vec<SurqlFile>,
    operation: &ApplyOperation,
    migrations_applied: &Vec<ScriptMigration>,
    is_backward_migration: bool,
) -> (kept: Vec<SurqlFile>)
    requires
        names_safe(files@),
        operation_safe(operation@, migrations_applied@),
    ensures
        kept@ == files_to_execute(files@, operation@, migrations_applied@, is_backward_migration),
{
    let ghost orig = files@;
    let mut input = files;
    let mut kept: Vec<SurqlFile> = Vec::new();
    let ghost mut i: int = 0;
    assert(orig.take(0) =~= Seq::<SurqlFile>::empty());
    assert(orig.skip(0) =~= orig);
    while input.len() > 0
        invariant
            0 <= i <= orig.len(),
            names_safe(orig),
            operation_safe(operation@, migrations_applied@),
            input@ == orig.skip(i),
            kept@ == files_to_execute(orig.take(i), operation@, migrations_applied@, is_backward_migration),
        decreases input.len(),
    {
        let file = input.remove(0);
        proof {
            assert(file == orig[i]);
            assert(natural_order_safe(orig[i].name_view()));
            assert(orig.skip(i).remove(0) =~= orig.skip(i + 1));
            assert(orig.take(i + 1).drop_last() =~= orig.take(i));
            assert(orig.take(i + 1).last() == orig[i]);
        }
        if filter_migration_file_to_execute(&file, operation, migrations_applied, is_backward_migration) {
            kept.push(file);
        }
        proof {
            i = i + 1;
        }
    }
    assert(orig.take(i) =~= orig);
    kept
}

/// Natural order of names for a direction: ascending forward, descending backward.
pub open spec fn direction_ordering(d: MigrationDirection) -> NameOrdering {
    if d == MigrationDirection::Backward { NameOrdering::NaturalReversed } else { NameOrdering::Natural }
}

/// Sorts migration files by name in natural order: ascending for forward
/// operations, descending for backward ones.
pub fn get_sorted_migrations_files(migrations_files: Vec<SurqlFile>, operation: &ApplyOperation) -> (sorted: Vec<SurqlFile>)
    requires
        names_safe(migrations_files@),
    ensures
        sorted@ == sorted_by_name(migrations_files@, direction_ordering(direction_of(operation@))),
{
    let order = if MigrationDirection::from(operation) == MigrationDirection::Backward {
        NameOrdering::NaturalReversed
    } else {
        NameOrdering::Natural
    };
    sort_by_name(migrations_files, order)
}

/// The migration files that an operation runs, in the order they run.
pub open spec fn spec_migration_files_to_execute(
    forward: Seq<SurqlFile>,
    backward: Seq<SurqlFile>,
    op: ApplyOperationKind,
    applied: Seq<ScriptMigration>,
) -> Seq<SurqlFile> {
    let sorted = sorted_by_name(
        files_to_execute(forward, op, applied, false) + files_to_execute(backward, op, applied, true),
        direction_ordering(direction_of(op)),
    );
    if op is UpSingle && 1 < sorted.len() {
        sorted.take(1)
    } else {
        sorted
    }
}

/// Selects and orders the migration files to run for the operation: forward
/// files not yet applied (for `Up`, `UpSingle`, `UpTo`) or down files of
/// applied migrations (for `Reset`, `DownSingle`, `DownTo`), within the
/// operation's bounds, sorted in the direction of the operation. `UpSingle`
/// applies a single migration: the first of them.
pub fn get_migration_files_to_execute(
    forward_migrations_files: Vec<SurqlFile>,
    backward_migrations_files: Vec<SurqlFile>,
    operation: &ApplyOperation,
    migrations_applied: &Vec<ScriptMigration>,
) -> (files: Vec<SurqlFile>)
    requires
        names_safe(forward_migrations_files@),
        names_safe(backward_migrations_files@),
        operation_safe(operation@, migrations_applied@),
    ensures
        files@ == spec_migration_files_to_execute(
            forward_migrations_files@,
            backward_migrations_files@,
            operation@,
            migrations_applied@,
        ),
{
    let ghost fwd = forward_migrations_files@;
    let ghost bwd = backward_migrations_files@;
    let mut filtered = keep_files_to_execute(forward_migrations_files, operation, migrations_applied, false);
    let mut filtered_backward = keep_files_to_execute(backward_migrations_files, operation, migrations_applied, true);
    proof {
        lemma_files_to_execute_safe(fwd, operation@, migrations_applied@, false);
        lemma_files_to_execute_safe(bwd, operation@, migrations_applied@, true);
    }
    let ghost a = filtered@;
    let ghost b = filtered_backward@;
    filtered.append(&mut filtered_backward);
    proof {
        assert(filtered@ =~= a + b);
        assert forall|i: int| 0 <= i < filtered@.len() implies natural_order_safe(#[trigger] filtered@[i].name_view()) by {
            if i < a.len() {
                assert(filtered@[i] == a[i]);
            } else {
                assert(filtered@[i] == b[i - a.len()]);
            }
        }
    }
    let mut sorted = get_sorted_migrations_files(filtered, operation);
    match operation {
        ApplyOperation::UpSingle => {
            if 1 < sorted.len() {
                sorted.truncate(1);
            }
            sorted
        },
        _ => sorted,
    }
}

} // verus!

verus! {

/// A file that the project needs is missing.
pub struct MissingFileError {
    /// Name of the missing file.
    pub file_name: String,
}

/// Some up migration of `files` is the initial migration file.
pub open spec fn has_initial_migration(files: Seq<SurqlFile>) -> bool {
    exists|i: int| 0 <= i < files.len() && !has_tag(files[i].tags@, DOWN_TAG@)
        && #[trigger] files[i].full_name@ == INITIAL_TRADITIONAL_MIGRATION_FILENAME@
}

/// Some non-down schema file of `files` defines the migration table.
pub open spec fn has_script_migration_schema(files: Seq<SurqlFile>) -> bool {
    exists|i: int| 0 <= i < files.len() && !has_tag(files[i].tags@, DOWN_TAG@)
        && #[trigger] files[i].name@ == SCRIPT_MIGRATION_TABLE_NAME@
}

/// Checks that the files the chosen approach needs exist: the initial
/// migration `__Initial.surql` for a project without schema and event files,
/// the `script_migration` schema otherwise. The error names the missing file.
pub fn ensures_necessary_files_exists(
    use_traditional_approach: bool,
    schemas_files: &Vec<SurqlFile>,
    forward_migrations_files: &Vec<SurqlFile>,
) -> (r: Result<(), MissingFileError>)
    ensures
        use_traditional_approach ==> (r is Ok <==> has_initial_migration(forward_migrations_files@)),
        !use_traditional_approach ==> (r is Ok <==> has_script_migration_schema(schemas_files@)),
        r matches Err(e) ==> e.file_name@ == (if use_traditional_approach {
            INITIAL_TRADITIONAL_MIGRATION_FILENAME@
        } else {
            SCRIPT_MIGRATION_TABLE_NAME@
        }),
{
    if use_traditional_approach {
        let mut i: usize = 0;
        while i < forward_migrations_files.len()
            invariant
                use_traditional_approach,
                i <= forward_migrations_files.len(),
                forall|k: int| 0 <= k < i ==> !(!has_tag(forward_migrations_files@[k].tags@, DOWN_TAG@)
                    && #[trigger] forward_migrations_files@[k].full_name@ == INITIAL_TRADITIONAL_MIGRATION_FILENAME@),
            decreases forward_migrations_files.len() - i,
        {
            let f = &forward_migrations_files[i];
            if !f.is_down_file() && str_eq(f.full_name.as_str(), INITIAL_TRADITIONAL_MIGRATION_FILENAME) {
                assert(forward_migrations_files@[i as int].full_name@ == INITIAL_TRADITIONAL_MIGRATION_FILENAME@);
                return Ok(());
            }
            i = i + 1;
        }
        Err(MissingFileError { file_name: String::from_str(INITIAL_TRADITIONAL_MIGRATION_FILENAME) })
    } else {
        let mut i: usize = 0;
        while i < schemas_files.len()
            invariant
                !use_traditional_approach,
                i <= schemas_files.len(),
                forall|k: int| 0 <= k < i ==> !(!has_tag(schemas_files@[k].tags@, DOWN_TAG@)
                    && #[trigger] schemas_files@[k].name@ == SCRIPT_MIGRATION_TABLE_NAME@),
            decreases schemas_files.len() - i,
        {
            let f = &schemas_files[i];
            if !f.is_down_file() && str_eq(f.name.as_str(), SCRIPT_MIGRATION_TABLE_NAME) {
                assert(schemas_files@[i as int].name@ == SCRIPT_MIGRATION_TABLE_NAME@);
                return Ok(());
            }
            i = i + 1;
        }
        Err(MissingFileError { file_name: String::from_str(SCRIPT_MIGRATION_TABLE_NAME) })
    }
}

} // verus!

verus! {

/// Some name that natural ordering would read holds a run of twenty digits
/// or more (see `natural_order_safe`).
#[derive(PartialEq, Eq, Structural, Clone, Copy, Debug)]
pub enum NameOrderError {
    UnsortableName,
}

/// Tells whether natural ordering accepts the names that the operation
/// compares with (see `operation_safe`).
pub fn operation_is_safe(operation: &ApplyOperation, migrations_applied: &Vec<ScriptMigration>) -> (r: bool)
    ensures
        r == operation_safe(operation@, migrations_applied@),
{
    match operation {
        ApplyOperation::UpTo(t) => crate::order_safety::is_natural_order_safe(t.as_str()),
        ApplyOperation::DownTo(t) => crate::order_safety::is_natural_order_safe(t.as_str()),
        ApplyOperation::DownSingle => {
            if migrations_applied.len() > 0 {
                crate::order_safety::is_natural_order_safe(
                    migrations_applied[migrations_applied.len() - 1].script_name.as_str(),
                )
            } else {
                true
            }
        },
        _ => true,
    }
}

/// The migration files that the operation runs (see
/// `get_migration_files_to_execute`), once every name they are ordered by is
/// checked: an error when natural ordering cannot read one of them.
pub fn checked_migration_files_to_execute(
    forward_migrations_files: Vec<SurqlFile>,
    backward_migrations_files: Vec<SurqlFile>,
    operation: &ApplyOperation,
    migrations_applied: &Vec<ScriptMigration>,
) -> (r: Result<Vec<SurqlFile>, NameOrderError>)
    ensures
        if names_safe(forward_migrations_files@) && names_safe(backward_migrations_files@)
            && operation_safe(operation@, migrations_applied@) {
            r matches Ok(files) && files@ == spec_migration_files_to_execute(
                forward_migrations_files@,
                backward_migrations_files@,
                operation@,
                migrations_applied@,
            )
        } else {
            r == Err::<Vec<SurqlFile>, NameOrderError>(NameOrderError::UnsortableName)
        },
{
    if !crate::sorting::names_are_safe(&forward_migrations_files)
        || !crate::sorting::names_are_safe(&backward_migrations_files)
        || !operation_is_safe(operation, migrations_applied)
    {
        return Err(NameOrderError::UnsortableName);
    }
    Ok(get_migration_files_to_execute(forward_migrations_files, backward_migrations_files, operation, migrations_applied))
}

} // verus!
