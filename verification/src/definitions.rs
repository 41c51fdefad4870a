use vstd::prelude::*;

use crate::constants::INITIAL_DEFINITION_NAME;
use crate::models::{DefinitionDiff, SchemaMigrationDefinition, ScriptMigration};
use crate::sorting::{plain_compare, plain_rank, Named};
use crate::statements::views;
use crate::strings::{str_eq, trim, trimmed};

verus! {

/// A JSON definition file: its name without extension and its content
/// (absent when it could not be read).
pub struct JsonDefinitionFile {
    pub name: String,
    pub content: Option<String>,
}

impl JsonDefinitionFile {
    /// The content of the file, if it could be read.
    pub fn get_content(&self) -> (c: Option<String>)
        ensures
            c == self.content,
    {
        match &self.content {
            Some(content) => Some(content.clone()),
            None => None,
        }
    }
}

impl Named for JsonDefinitionFile {
    open spec fn name_view(&self) -> Seq<char> {
        self.name@
    }

    fn name_str(&self) -> (s: &str) {
        self.name.as_str()
    }
}

/// Whether the file is a migration's definition diff rather than the initial
/// definition.
pub fn filter_except_initial_definition(file: &JsonDefinitionFile) -> (r: bool)
    ensures
        r == (file.name@ != INITIAL_DEFINITION_NAME@),
{
    !str_eq(file.name.as_str(), INITIAL_DEFINITION_NAME)
}

/// Whether the definition file belongs to the last applied migration or to
/// one before it (comparing names as strings).
pub fn take_while_applied_or_before(file: &JsonDefinitionFile, last_migration_applied: &ScriptMigration) -> (r: bool)
    ensures
        r == (plain_rank(file.name@, last_migration_applied.script_name@) <= 0),
{
    plain_compare(file.name.as_str(), last_migration_applied.script_name.as_str()) <= 0
}

/// A unified-format patch could not be used.
#[derive(PartialEq, Eq, Structural, Clone, Copy, Debug)]
pub enum PatchError {
    /// The patch text is not a valid unified diff.
    InvalidPatch,
    /// A hunk header holds a line number of ten digits or more.
    RangeTooLarge,
    /// A hunk of the patch does not apply to the text.
    ApplyFailed,
}

/// Whether `diffy::Patch::from_str` accepts the patch text.
pub uninterp spec fn patch_parses(diff: Seq<char>) -> bool;

/// What `diffy::apply` gives when applying the parsed patch `diff` to `text`
/// (`None` when a hunk does not apply).
pub uninterp spec fn patched_text(text: Seq<char>, diff: Seq<char>) -> Option<Seq<char>>;

/// The unified-format text (`Display` of the `diffy::Patch`) that
/// `diffy::create_patch` gives from `original` to `modified`.
pub uninterp spec fn patch_text(original: Seq<char>, modified: Seq<char>) -> Seq<char>;

/// Scanning `s`, where `line_start` tells whether a line begins at `s[0]`,
/// `in_header` whether the current line starts with `@` (the lines that
/// diffy reads hunk headers from) and `run` how many digits of such a line
/// were just read: no run of digits in a header line reaches ten.
pub open spec fn header_digit_runs_fit(s: Seq<char>, line_start: bool, in_header: bool, run: nat) -> bool
    decreases s.len(),
{
    if s.len() == 0 {
        true
    } else if s[0] == '\n' {
        header_digit_runs_fit(s.drop_first(), true, false, 0)
    } else {
        let header = if line_start { s[0] == '@' } else { in_header };
        let next_run: nat = if header && '0' <= s[0] && s[0] <= '9' { run + 1 } else { 0 };
        next_run < 10 && header_digit_runs_fit(s.drop_first(), false, header, next_run)
    }
}

/// The line numbers and lengths in the hunk headers of the patch text have
/// at most nine digits, so that diffy's sums of a start and a length (at
/// most two billion) fit in `usize`.
pub open spec fn hunk_ranges_fit(diff: Seq<char>) -> bool {
    header_digit_runs_fit(diff, true, false, 0)
}

/// Tells whether the hunk headers of the patch text fit (see `hunk_ranges_fit`).
pub fn check_hunk_ranges(diff: &str) -> (r: bool)
    ensures
        r == hunk_ranges_fit(diff@),
{
    let v = crate::strings::chars_of(diff);
    let mut i: usize = 0;
    let mut line_start = true;
    let mut in_header = false;
    let mut run: usize = 0;
    assert(v@.skip(0) =~= v@);
    while i < v.len()
        invariant
            v@ == diff@,
            i <= v.len(),
            run < 10,
            hunk_ranges_fit(diff@) == header_digit_runs_fit(v@.skip(i as int), line_start, in_header, run as nat),
        decreases v.len() - i,
    {
        let c = v[i];
        assert(v@.skip(i as int)[0] == c);
        assert(v@.skip(i as int).drop_first() =~= v@.skip(i + 1));
        if c == '\n' {
            line_start = true;
            in_header = false;
            run = 0;
        } else {
            let header = if line_start { c == '@' } else { in_header };
            let next_run: usize = if header && '0' <= c && c <= '9' { run + 1 } else { 0 };
            if next_run >= 10 {
                return false;
            }
            line_start = false;
            in_header = header;
            run = next_run;
        }
        i = i + 1;
    }
    assert(v@.skip(i as int).len() == 0);
    true
}

/// What applying the patch text `diff` to `text` gives.
pub open spec fn spec_apply_patch(text: Seq<char>, diff: Seq<char>) -> Result<Seq<char>, PatchError> {
    if !hunk_ranges_fit(diff) {
        Err(PatchError::RangeTooLarge)
    } else if !patch_parses(diff) {
        Err(PatchError::InvalidPatch)
    } else {
        match patched_text(text, diff) {
            Some(t) => Ok(t),
            None => Err(PatchError::ApplyFailed),
        }
    }
}

/// Applies a unified-format patch to a text, with `diffy::Patch::from_str`
/// then `diffy::apply`.
///
/// Trusted: a parse failure gives `InvalidPatch`; otherwise the result is the
/// named outcome of `diffy::apply` on the text and the patch, `ApplyFailed`
/// when a hunk does not apply. Hunk headers must hold numbers of at most nine
/// digits: diffy adds each hunk's start and length, which overflows `usize`
/// (a panic in builds with overflow checks) on larger ones.
#[verifier::external_body]
fn diffy_apply_patch(text: &str, diff: &str) -> (r: Result<String, PatchError>)
    requires
        hunk_ranges_fit(diff@),
    ensures
        match r {
            Ok(t) => patch_parses(diff@) && patched_text(text@, diff@) == Some(t@),
            Err(PatchError::InvalidPatch) => !patch_parses(diff@),
            Err(PatchError::ApplyFailed) => patch_parses(diff@) && patched_text(text@, diff@) is None,
            Err(PatchError::RangeTooLarge) => false,
        },
{
    let patch = match diffy::Patch::from_str(diff) {
        Ok(patch) => patch,
        Err(_) => return Err(PatchError::InvalidPatch),
    };
    match diffy::apply(text, &patch) {
        Ok(value) => Ok(value),
        Err(_) => Err(PatchError::ApplyFailed),
    }
}

/// Applies a unified-format patch to a text (see `spec_apply_patch`): a patch
/// whose hunk headers hold numbers of ten digits or more is refused before
/// diffy reads it.
pub fn apply_patch(text: &str, diff: &str) -> (r: Result<String, PatchError>)
    ensures
        match (r, spec_apply_patch(text@, diff@)) {
            (Ok(a), Ok(b)) => a@ == b,
            (Err(a), Err(b)) => a == b,
            _ => false,
        },
{
    if !check_hunk_ranges(diff) {
        return Err(PatchError::RangeTooLarge);
    }
    diffy_apply_patch(text, diff)
}

/// The unified-format patch from `original` to `modified`, with
/// `diffy::create_patch` and the patch's `Display`.
///
/// Trusted: the text is the named patch text of the two texts; it parses
/// back with `diffy::Patch::from_str`, and applying it to `original` gives
/// `modified` (diffy documents that a patch applied to its base image
/// recovers the new text, and its tests parse the displayed patch back to
/// the same patch).
#[verifier::external_body]
pub(crate) fn create_patch_text(original: &str, modified: &str) -> (r: String)
    ensures
        r@ == patch_text(original@, modified@),
        patch_parses(r@),
        patched_text(original@, r@) == Some(modified@),
{
    diffy::create_patch(original, modified).to_string()
}

} // verus!

verus! {

/// The definition pair `(schemas, events)` of a definition.
pub open spec fn definition_view(d: SchemaMigrationDefinition) -> (Seq<char>, Seq<char>) {
    (d.schemas@, d.events@)
}

/// The patch texts `(schemas, events)` of a diff.
pub open spec fn diff_view(d: DefinitionDiff) -> (Option<Seq<char>>, Option<Seq<char>>) {
    (
        match d.schemas { Some(s) => Some(s@), None => None },
        match d.events { Some(e) => Some(e@), None => None },
    )
}

/// Applies an optional patch: nothing to do without one.
pub open spec fn apply_optional_patch(text: Seq<char>, diff: Option<Seq<char>>) -> Result<Seq<char>, PatchError> {
    match diff {
        Some(d) => spec_apply_patch(text, d),
        None => Ok(text),
    }
}

/// Applies one definition diff: the schema patch first, then the event patch.
pub open spec fn apply_definition_diff(
    d: (Seq<char>, Seq<char>),
    diff: (Option<Seq<char>>, Option<Seq<char>>),
) -> Result<(Seq<char>, Seq<char>), PatchError> {
    match apply_optional_patch(d.0, diff.0) {
        Err(e) => Err(e),
        Ok(schemas) => match apply_optional_patch(d.1, diff.1) {
            Err(e) => Err(e),
            Ok(events) => Ok((schemas, events)),
        },
    }
}

/// Applies the diffs in order, stopping at the first failure.
pub open spec fn apply_definition_diffs(
    d: (Seq<char>, Seq<char>),
    diffs: Seq<DefinitionDiff>,
) -> Result<(Seq<char>, Seq<char>), PatchError>
    decreases diffs.len(),
{
    if diffs.len() == 0 {
        Ok(d)
    } else {
        match apply_definition_diffs(d, diffs.drop_last()) {
            Err(e) => Err(e),
            Ok(x) => apply_definition_diff(x, diff_view(diffs.last())),
        }
    }
}

/// Applies an optional patch to a text.
fn apply_optional(text: String, diff: Option<String>) -> (r: Result<String, PatchError>)
    ensures
        match (r, apply_optional_patch(text@, match diff { Some(d) => Some(d@), None => None })) {
            (Ok(a), Ok(b)) => a@ == b,
            (Err(a), Err(b)) => a == b,
            _ => false,
        },
{
    match diff {
        Some(d) => apply_patch(text.as_str(), d.as_str()),
        None => Ok(text),
    }
}

/// The definition reached from `initial_definition` by applying the
/// definition diffs in order; the first patch that fails gives its error.
pub fn calculate_definition_using_patches(
    initial_definition: SchemaMigrationDefinition,
    definition_diffs: Vec<DefinitionDiff>,
) -> (r: Result<SchemaMigrationDefinition, PatchError>)
    ensures
        match (r, apply_definition_diffs(definition_view(initial_definition), definition_diffs@)) {
            (Ok(a), Ok(b)) => definition_view(a) == b,
            (Err(a), Err(b)) => a == b,
            _ => false,
        },
{
    let ghost orig = definition_diffs@;
    let ghost init = definition_view(initial_definition);
    let mut input = definition_diffs;
    let mut patched = initial_definition;
    let ghost mut i: int = 0;
    assert(orig.take(0) =~= Seq::<DefinitionDiff>::empty());
    assert(orig.skip(0) =~= orig);
    while input.len() > 0
        invariant
            orig == definition_diffs@,
            init == definition_view(initial_definition),
            0 <= i <= orig.len(),
            input@ == orig.skip(i),
            apply_definition_diffs(init, orig.take(i)) == Ok::<(Seq<char>, Seq<char>), PatchError>(definition_view(patched)),
        decreases input.len(),
    {
        let diff = input.remove(0);
        proof {
            assert(diff == orig[i]);
            assert(orig.skip(i).remove(0) =~= orig.skip(i + 1));
            assert(orig.take(i + 1).drop_last() =~= orig.take(i));
            assert(orig.take(i + 1).last() == orig[i]);
            i = i + 1;
        }
        let SchemaMigrationDefinition { schemas, events } = patched;
        let DefinitionDiff { schemas: schemas_diff, events: events_diff } = diff;
        let schemas = match apply_optional(schemas, schemas_diff) {
            Ok(s) => s,
            Err(e) => {
                proof {
                    lemma_apply_definition_diffs_error_sticks(init, orig, i);
                }
                return Err(e);
            },
        };
        let events = match apply_optional(events, events_diff) {
            Ok(e) => e,
            Err(e) => {
                proof {
                    lemma_apply_definition_diffs_error_sticks(init, orig, i);
                }
                return Err(e);
            },
        };
        patched = SchemaMigrationDefinition { schemas, events };
    }
    assert(orig.take(i) =~= orig);
    Ok(patched)
}

/// Once applying a prefix of the diffs fails, applying more fails the same way.
proof fn lemma_apply_definition_diffs_error_sticks(d: (Seq<char>, Seq<char>), diffs: Seq<DefinitionDiff>, i: int)
    requires
        0 <= i <= diffs.len(),
        apply_definition_diffs(d, diffs.take(i)) is Err,
    ensures
        apply_definition_diffs(d, diffs) == apply_definition_diffs(d, diffs.take(i)),
    decreases diffs.len() - i,
{
    if i < diffs.len() {
        assert(diffs.take(i + 1).drop_last() =~= diffs.take(i));
        lemma_apply_definition_diffs_error_sticks(d, diffs, i + 1);
    } else {
        assert(diffs.take(i) =~= diffs);
    }
}

} // verus!

verus! {

/// The hunk headers of both patches of a diff fit (see `hunk_ranges_fit`).
pub open spec fn diff_fits(d: (Option<Seq<char>>, Option<Seq<char>>)) -> bool {
    &&& (d.0 matches Some(p) ==> hunk_ranges_fit(p))
    &&& (d.1 matches Some(p) ==> hunk_ranges_fit(p))
}

/// The diff recorded for a migration: for schemas and for events, the patch
/// from the last applied definition to the current one, or nothing when the
/// two are equal once surrounding white space is ignored.
pub open spec fn spec_definition_diff(last: (Seq<char>, Seq<char>), current: (Seq<char>, Seq<char>)) -> (Option<Seq<char>>, Option<Seq<char>>) {
    (
        if trimmed(last.0) != trimmed(current.0) { Some(patch_text(last.0, current.0)) } else { None },
        if trimmed(last.1) != trimmed(current.1) { Some(patch_text(last.1, current.1)) } else { None },
    )
}

/// Computes the diff to record for a migration (see `spec_definition_diff`).
pub fn get_definition_diff(
    last_applied_definition: &SchemaMigrationDefinition,
    current_definition: &SchemaMigrationDefinition,
) -> (d: DefinitionDiff)
    ensures
        diff_view(d) == spec_definition_diff(definition_view(*last_applied_definition), definition_view(*current_definition)),
        diff_fits(diff_view(d)) ==> apply_definition_diff(definition_view(*last_applied_definition), diff_view(d)) == Ok::<(Seq<char>, Seq<char>), PatchError>((
            if d.schemas is Some { current_definition.schemas@ } else { last_applied_definition.schemas@ },
            if d.events is Some { current_definition.events@ } else { last_applied_definition.events@ },
        )),
{
    let last_schemas = trim(last_applied_definition.schemas.as_str());
    let current_schemas = trim(current_definition.schemas.as_str());
    let has_schema_diffs = !str_eq(last_schemas.as_str(), current_schemas.as_str());
    let last_events = trim(last_applied_definition.events.as_str());
    let current_events = trim(current_definition.events.as_str());
    let has_event_diffs = !str_eq(last_events.as_str(), current_events.as_str());
    let schemas = if has_schema_diffs {
        Some(create_patch_text(last_applied_definition.schemas.as_str(), current_definition.schemas.as_str()))
    } else {
        None
    };
    let events = if has_event_diffs {
        Some(create_patch_text(last_applied_definition.events.as_str(), current_definition.events.as_str()))
    } else {
        None
    };
    DefinitionDiff { schemas, events }
}

impl DefinitionDiff {
    /// The diff changes the schemas or the events.
    pub fn has_changes(&self) -> (r: bool)
        ensures
            r == (self.schemas is Some || self.events is Some),
    {
        self.schemas.is_some() || self.events.is_some()
    }
}

/// The definitions are not those that the recorded diffs give.
#[derive(PartialEq, Eq, Structural, Clone, Copy, Debug)]
pub enum DefinitionCheckError {
    /// A recorded patch could not be applied.
    Patch(PatchError),
    /// The recorded definitions differ from the current ones.
    NotUpToDate,
}

/// Checks that the current schema and event definitions are those that the
/// initial definition and the recorded diffs (in order) give.
pub fn expect_migration_definitions_to_be_up_to_date(
    schema_definitions: &str,
    event_definitions: &str,
    initial_definition: SchemaMigrationDefinition,
    definition_diffs: Vec<DefinitionDiff>,
) -> (r: Result<(), DefinitionCheckError>)
    ensures
        match apply_definition_diffs(definition_view(initial_definition), definition_diffs@) {
            Err(e) => r == Err::<(), DefinitionCheckError>(DefinitionCheckError::Patch(e)),
            Ok(d) => if d == (schema_definitions@, event_definitions@) {
                r is Ok
            } else {
                r == Err::<(), DefinitionCheckError>(DefinitionCheckError::NotUpToDate)
            },
        },
{
    let last_applied_definition = match calculate_definition_using_patches(initial_definition, definition_diffs) {
        Ok(d) => d,
        Err(e) => return Err(DefinitionCheckError::Patch(e)),
    };
    let is_up_to_date = str_eq(schema_definitions, last_applied_definition.schemas.as_str())
        && str_eq(event_definitions, last_applied_definition.events.as_str());
    if is_up_to_date {
        Ok(())
    } else {
        Err(DefinitionCheckError::NotUpToDate)
    }
}

} // verus!

verus! {

/// The files of `s` other than the initial definition, in order.
pub open spec fn without_initial(s: Seq<JsonDefinitionFile>) -> Seq<JsonDefinitionFile>
    decreases s.len(),
{
    if s.len() == 0 {
        Seq::empty()
    } else {
        let rest = without_initial(s.drop_last());
        if s.last().name@ != INITIAL_DEFINITION_NAME@ {
            rest.push(s.last())
        } else {
            rest
        }
    }
}

/// The leading files of `s` whose names are at most `last` (as strings).
pub open spec fn applied_prefix(s: Seq<JsonDefinitionFile>, last: Seq<char>) -> Seq<JsonDefinitionFile>
    decreases s.len(),
{
    if s.len() > 0 && plain_rank(s[0].name@, last) <= 0 {
        seq![s[0]] + applied_prefix(s.drop_first(), last)
    } else {
        Seq::empty()
    }
}

/// The files of `s` whose names come before `last` (as strings), in order.
pub open spec fn files_before(s: Seq<JsonDefinitionFile>, last: Seq<char>) -> Seq<JsonDefinitionFile>
    decreases s.len(),
{
    if s.len() == 0 {
        Seq::empty()
    } else {
        let rest = files_before(s.drop_last(), last);
        if plain_rank(s.last().name@, last) < 0 {
            rest.push(s.last())
        } else {
            rest
        }
    }
}

/// Drops the initial definition file, keeping the order of the others.
pub fn remove_initial_definition(files: Vec<JsonDefinitionFile>) -> (r: Vec<JsonDefinitionFile>)
    ensures
        r@ == without_initial(files@),
{
    let ghost orig = files@;
    let mut input = files;
    let mut r: Vec<JsonDefinitionFile> = Vec::new();
    let ghost mut i: int = 0;
    assert(orig.take(0) =~= Seq::<JsonDefinitionFile>::empty());
    assert(orig.skip(0) =~= orig);
    while input.len() > 0
        invariant
            0 <= i <= orig.len(),
            input@ == orig.skip(i),
            r@ == without_initial(orig.take(i)),
        decreases input.len(),
    {
        let file = input.remove(0);
        proof {
            assert(file == orig[i]);
            assert(orig.skip(i).remove(0) =~= orig.skip(i + 1));
            assert(orig.take(i + 1).drop_last() =~= orig.take(i));
            assert(orig.take(i + 1).last() == orig[i]);
            i = i + 1;
        }
        if filter_except_initial_definition(&file) {
            r.push(file);
        }
    }
    assert(orig.take(i) =~= orig);
    r
}

proof fn lemma_applied_prefix(s: Seq<JsonDefinitionFile>, last: Seq<char>, j: int)
    requires
        0 <= j <= s.len(),
        forall|k: int| 0 <= k < j ==> plain_rank(#[trigger] s[k].name@, last) <= 0,
        j == s.len() || plain_rank(s[j].name@, last) > 0,
    ensures
        applied_prefix(s, last) == s.take(j),
    decreases s.len(),
{
    if j == 0 {
        assert(s.take(0) =~= Seq::<JsonDefinitionFile>::empty());
    } else {
        let d = s.drop_first();
        assert forall|k: int| 0 <= k < j - 1 implies plain_rank(#[trigger] d[k].name@, last) <= 0 by {
            assert(d[k] == s[k + 1]);
        }
        assert(s[0] == s[0]);
        assert(plain_rank(s[0].name@, last) <= 0);
        if j < s.len() {
            assert(d[j - 1] == s[j]);
        }
        lemma_applied_prefix(d, last, j - 1);
        assert(seq![s[0]] + d.take(j - 1) =~= s.take(j));
    }
}

/// The definition diffs to apply to reach the definition of the last applied
/// migration: the files sorted by name (as strings), without the initial
/// definition, up to the last one whose name is at most that of the last
/// applied migration.
pub fn select_definition_files_up_to(files: Vec<JsonDefinitionFile>, last_migration_applied: &ScriptMigration) -> (r: Vec<JsonDefinitionFile>)
    ensures
        r@ == applied_prefix(
            without_initial(crate::sorting::sorted_by_name(files@, crate::sorting::NameOrdering::Plain)),
            last_migration_applied.script_name@,
        ),
{
    let sorted = crate::sorting::sort_by_name(files, crate::sorting::NameOrdering::Plain);
    let mut kept = remove_initial_definition(sorted);
    let mut j: usize = 0;
    while j < kept.len() && take_while_applied_or_before(&kept[j], last_migration_applied)
        invariant
            j <= kept.len(),
            forall|k: int| 0 <= k < j ==> plain_rank(#[trigger] kept@[k].name@, last_migration_applied.script_name@) <= 0,
        decreases kept.len() - j,
    {
        j = j + 1;
    }
    proof {
        lemma_applied_prefix(kept@, last_migration_applied.script_name@, j as int);
    }
    kept.truncate(j);
    kept
}

/// The definition diffs of the migrations before `last_migration_name`: the
/// files sorted by name (as strings), without the initial definition, whose
/// names come before it.
pub fn select_definition_files_before(files: Vec<JsonDefinitionFile>, last_migration_name: &str) -> (r: Vec<JsonDefinitionFile>)
    ensures
        r@ == files_before(
            without_initial(crate::sorting::sorted_by_name(files@, crate::sorting::NameOrdering::Plain)),
            last_migration_name@,
        ),
{
    let sorted = crate::sorting::sort_by_name(files, crate::sorting::NameOrdering::Plain);
    let kept = remove_initial_definition(sorted);
    let ghost orig = kept@;
    let mut input = kept;
    let mut r: Vec<JsonDefinitionFile> = Vec::new();
    let ghost mut i: int = 0;
    assert(orig.take(0) =~= Seq::<JsonDefinitionFile>::empty());
    assert(orig.skip(0) =~= orig);
    while input.len() > 0
        invariant
            0 <= i <= orig.len(),
            input@ == orig.skip(i),
            r@ == files_before(orig.take(i), last_migration_name@),
        decreases input.len(),
    {
        let file = input.remove(0);
        proof {
            assert(file == orig[i]);
            assert(orig.skip(i).remove(0) =~= orig.skip(i + 1));
            assert(orig.take(i + 1).drop_last() =~= orig.take(i));
            assert(orig.take(i + 1).last() == orig[i]);
            i = i + 1;
        }
        if plain_compare(file.name.as_str(), last_migration_name) < 0 {
            r.push(file);
        }
    }
    assert(orig.take(i) =~= orig);
    r
}

} // verus!

verus! {

/// The definition diffs in the order they apply to the initial definition:
/// sorted by name in natural order, without the initial definition.
pub fn order_definition_files(files: Vec<JsonDefinitionFile>) -> (r: Vec<JsonDefinitionFile>)
    requires
        crate::sorting::names_safe(files@),
    ensures
        r@ == without_initial(crate::sorting::sorted_by_name(files@, crate::sorting::NameOrdering::Natural)),
{
    let sorted = crate::sorting::sort_by_name(files, crate::sorting::NameOrdering::Natural);
    remove_initial_definition(sorted)
}

} // verus!

verus! {

/// What becomes of the definition file of the last migration.
pub enum DefinitionFileUpdate {
    /// It records this diff.
    Write(DefinitionDiff),
    /// It is removed: the definitions did not change.
    Remove,
}

/// Decides the definition file of the last migration: the diff from the
/// definitions that the recorded diffs give to the current definitions,
/// written when it changes something, else the file is removed.
pub fn plan_definition_file_update(
    initial_definition: SchemaMigrationDefinition,
    recorded_diffs: Vec<DefinitionDiff>,
    current_definition: &SchemaMigrationDefinition,
) -> (r: Result<DefinitionFileUpdate, PatchError>)
    ensures
        match apply_definition_diffs(definition_view(initial_definition), recorded_diffs@) {
            Err(e) => r == Err::<DefinitionFileUpdate, PatchError>(e),
            Ok(last) => {
                let d = spec_definition_diff(last, definition_view(*current_definition));
                if d.0 is Some || d.1 is Some {
                    r matches Ok(DefinitionFileUpdate::Write(x)) && diff_view(x) == d
                } else {
                    r matches Ok(DefinitionFileUpdate::Remove)
                }
            },
        },
        // The definitions that the recorded diffs give, with the one written
        // for this migration (when its hunk headers fit), are the current ones
        // up to surrounding white space.
        r matches Ok(u) ==> ((u matches DefinitionFileUpdate::Write(x) ==> diff_fits(diff_view(x))) ==> {
            let recorded = match u {
                DefinitionFileUpdate::Write(x) => recorded_diffs@.push(x),
                DefinitionFileUpdate::Remove => recorded_diffs@,
            };
            apply_definition_diffs(definition_view(initial_definition), recorded) matches Ok(d)
                && trimmed(d.0) == trimmed(current_definition.schemas@)
                && trimmed(d.1) == trimmed(current_definition.events@)
        }),
{
    let last_applied_definition = calculate_definition_using_patches(initial_definition, recorded_diffs)?;
    let definition_diff = get_definition_diff(&last_applied_definition, current_definition);
    if definition_diff.has_changes() {
        proof {
            assert(recorded_diffs@.push(definition_diff).drop_last() =~= recorded_diffs@);
        }
        Ok(DefinitionFileUpdate::Write(definition_diff))
    } else {
        Ok(DefinitionFileUpdate::Remove)
    }
}

} // verus!

verus! {

/// No file holds the initial definition.
#[derive(PartialEq, Eq, Structural, Clone, Copy, Debug)]
pub enum InitialDefinitionError {
    NotFound,
}

/// The content of a definition file: its text, or nothing when it could
/// not be read.
pub open spec fn definition_file_text(f: JsonDefinitionFile) -> Seq<char> {
    match f.content {
        Some(c) => c@,
        None => Seq::empty(),
    }
}

/// Position of the first file named after the initial definition.
pub open spec fn first_initial_definition(files: Seq<JsonDefinitionFile>) -> Option<int>
    decreases files.len(),
{
    if files.len() == 0 {
        None
    } else {
        match first_initial_definition(files.drop_last()) {
            Some(k) => Some(k),
            None => if files.last().name@ == INITIAL_DEFINITION_NAME@ { Some(files.len() - 1) } else { None },
        }
    }
}

/// The content of the initial definition file, the first file named after
/// it (its content empty when it could not be read); an error when there
/// is none.
pub fn initial_definition_content(files: &Vec<JsonDefinitionFile>) -> (r: Result<String, InitialDefinitionError>)
    ensures
        match first_initial_definition(files@) {
            Some(k) => r matches Ok(c) && c@ == definition_file_text(files@[k]),
            None => r == Err::<String, InitialDefinitionError>(InitialDefinitionError::NotFound),
        },
{
    let mut i: usize = 0;
    while i < files.len()
        invariant
            i <= files.len(),
            first_initial_definition(files@.take(i as int)) is None,
        decreases files.len() - i,
    {
        assert(files@.take(i + 1).drop_last() =~= files@.take(i as int));
        if !filter_except_initial_definition(&files[i]) {
            proof {
                lemma_first_initial_definition_prefix(files@, (i + 1) as int);
            }
            return match &files[i].content {
                Some(c) => Ok(c.clone()),
                None => Ok(String::new()),
            };
        }
        i = i + 1;
    }
    assert(files@.take(files.len() as int) =~= files@);
    Err(InitialDefinitionError::NotFound)
}

/// The first initial definition of a prefix that holds one is that of the
/// whole sequence.
proof fn lemma_first_initial_definition_prefix(files: Seq<JsonDefinitionFile>, n: int)
    requires
        0 <= n <= files.len(),
        first_initial_definition(files.take(n)) is Some,
    ensures
        first_initial_definition(files) == first_initial_definition(files.take(n)),
        first_initial_definition(files.take(n)) matches Some(k) && 0 <= k < n && files.take(n)[k] == files[k],
    decreases files.len() - n,
{
    if n < files.len() {
        assert(files.take(n + 1).drop_last() =~= files.take(n));
        lemma_first_initial_definition_prefix(files, n + 1);
    } else {
        assert(files.take(n) =~= files);
    }
    lemma_first_initial_definition_bounds(files.take(n));
}

proof fn lemma_first_initial_definition_bounds(files: Seq<JsonDefinitionFile>)
    ensures
        first_initial_definition(files) matches Some(k) ==> 0 <= k < files.len(),
    decreases files.len(),
{
    if files.len() > 0 {
        lemma_first_initial_definition_bounds(files.drop_last());
    }
}

} // verus!

verus! {

/// The texts of definition files, in order (empty for a file that could not
/// be read).
pub open spec fn definition_texts(files: Seq<JsonDefinitionFile>) -> Seq<Seq<char>> {
    files.map_values(|f: JsonDefinitionFile| definition_file_text(f))
}

/// What the definitions of the last applied migration are computed from:
/// the text of the initial definition file and the texts of the definition
/// diffs to apply to it, in order (see `select_definition_files_up_to`), the
/// files being sorted by name as strings. An error when there is no initial
/// definition file. The texts are JSON, read by the caller.
pub fn current_definition_texts(files: Vec<JsonDefinitionFile>, last_migration_applied: &ScriptMigration)
    -> (r: Result<(String, Vec<String>), InitialDefinitionError>)
    ensures
        ({
            let sorted = crate::sorting::sorted_by_name(files@, crate::sorting::NameOrdering::Plain);
            match first_initial_definition(sorted) {
                None => r == Err::<(String, Vec<String>), InitialDefinitionError>(InitialDefinitionError::NotFound),
                Some(k) => r matches Ok((initial, diffs)) && initial@ == definition_file_text(sorted[k])
                    && views(diffs@) == definition_texts(
                        applied_prefix(without_initial(sorted), last_migration_applied.script_name@),
                    ),
            }
        }),
{
    let sorted = crate::sorting::sort_by_name(files, crate::sorting::NameOrdering::Plain);
    let initial = initial_definition_content(&sorted)?;
    let kept = remove_initial_definition(sorted);
    let mut j: usize = 0;
    while j < kept.len() && take_while_applied_or_before(&kept[j], last_migration_applied)
        invariant
            j <= kept.len(),
            forall|k: int| 0 <= k < j ==> plain_rank(#[trigger] kept@[k].name@, last_migration_applied.script_name@) <= 0,
        decreases kept.len() - j,
    {
        j = j + 1;
    }
    proof {
        lemma_applied_prefix(kept@, last_migration_applied.script_name@, j as int);
    }
    let mut diffs: Vec<String> = Vec::new();
    let mut i: usize = 0;
    while i < j
        invariant
            j <= kept.len(),
            i <= j,
            views(diffs@) == definition_texts(kept@.take(i as int)),
        decreases j - i,
    {
        let text = match &kept[i].content {
            Some(c) => c.clone(),
            None => String::new(),
        };
        let ghost before = diffs@;
        diffs.push(text);
        assert(views(diffs@) =~= definition_texts(kept@.take(i + 1))) by {
            assert(kept@.take(i + 1) =~= kept@.take(i as int).push(kept@[i as int]));
            assert(views(diffs@) =~= views(before).push(text@));
        }
        i = i + 1;
    }
    Ok((initial, diffs))
}

} // verus!
