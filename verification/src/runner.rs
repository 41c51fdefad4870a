use sha2::Digest;
use vstd::prelude::*;

use crate::constants::SCRIPT_MIGRATION_TABLE_NAME;
use crate::definitions::{apply_definition_diff, definition_view, diff_view, PatchError};
use crate::models::{direction_of, ApplyOperation, DefinitionDiff, MigrationDirection, SchemaMigrationDefinition, ScriptMigration};
use crate::sorting::{plain_compare, plain_rank};
use crate::statements::{
    get_rollback_statements, remove_statement_text, remove_views, rollback_statements, DefineStatement, RemoveStatement,
    Statement,
};
use crate::strings::{push_char, str_eq};

verus! {

/// Errors of applying or reverting migrations that the library detects.
#[derive(PartialEq, Eq, Structural, Clone, Copy, Debug)]
pub enum RunnerError {
    /// A migration to revert is not among the applied migrations.
    MigrationNotApplied,
}

/// What the final messages of a run report.
pub struct ApplyProgress {
    pub has_applied_schemas: bool,
    pub has_applied_events: bool,
}

impl ApplyProgress {
    /// Nothing applied yet.
    pub fn new() -> (r: Self)
        ensures
            !r.has_applied_schemas && !r.has_applied_events,
    {
        ApplyProgress { has_applied_schemas: false, has_applied_events: false }
    }

    /// Notes that a migration was applied with these definitions: non-empty
    /// schema (event) definitions count as applied schemas (events).
    pub fn note_applied(&mut self, definition: &SchemaMigrationDefinition)
        ensures
            final(self).has_applied_schemas == (old(self).has_applied_schemas || definition.schemas@.len() > 0),
            final(self).has_applied_events == (old(self).has_applied_events || definition.events@.len() > 0),
    {
        if definition.schemas.unicode_len() > 0 {
            self.has_applied_schemas = true;
        }
        if definition.events.unicode_len() > 0 {
            self.has_applied_events = true;
        }
    }

    /// Notes that a migration was reverted from `current` to `after`:
    /// changed schema (event) definitions count as applied schemas (events).
    pub fn note_reverted(&mut self, current: &SchemaMigrationDefinition, after: &SchemaMigrationDefinition)
        ensures
            final(self).has_applied_schemas == (old(self).has_applied_schemas || after.schemas@ != current.schemas@),
            final(self).has_applied_events == (old(self).has_applied_events || after.events@ != current.events@),
    {
        if !str_eq(after.schemas.as_str(), current.schemas.as_str()) {
            self.has_applied_schemas = true;
        }
        if !str_eq(after.events.as_str(), current.events.as_str()) {
            self.has_applied_events = true;
        }
    }

    /// The final messages, shown only with logs on: schemas, events and
    /// migrations, each when something of it was applied.
    pub fn messages(&self, has_applied_migrations: bool, display_logs: bool) -> (r: Vec<&'static str>)
        ensures
            r@.map_values(|m: &'static str| m@) == if display_logs {
                (if self.has_applied_schemas { seq!["Schema files successfully executed!"@] } else { Seq::empty() })
                + (if self.has_applied_events { seq!["Event files successfully executed!"@] } else { Seq::empty() })
                + (if has_applied_migrations { seq!["Migration files successfully executed!"@] } else { Seq::empty() })
            } else {
                Seq::empty()
            },
    {
        let mut r: Vec<&'static str> = Vec::new();
        if display_logs {
            if self.has_applied_schemas {
                r.push("Schema files successfully executed!");
            }
            if self.has_applied_events {
                r.push("Event files successfully executed!");
            }
            if has_applied_migrations {
                r.push("Migration files successfully executed!");
            }
        }
        proof {
            assert(r@.map_values(|m: &'static str| m@) =~= if display_logs {
                (if self.has_applied_schemas { seq!["Schema files successfully executed!"@] } else { Seq::empty() })
                + (if self.has_applied_events { seq!["Event files successfully executed!"@] } else { Seq::empty() })
                + (if has_applied_migrations { seq!["Migration files successfully executed!"@] } else { Seq::empty() })
            } else {
                Seq::empty()
            });
        }
        r
    }
}

/// The definitions after a migration: its recorded diff applied to the
/// current ones (schemas first, then events), or the current ones when it
/// recorded none.
pub fn next_definition(current: SchemaMigrationDefinition, diff: Option<DefinitionDiff>) -> (r: Result<SchemaMigrationDefinition, PatchError>)
    ensures
        match diff {
            None => r matches Ok(d) && definition_view(d) == definition_view(current),
            Some(x) => match apply_definition_diff(definition_view(current), diff_view(x)) {
                Ok(v) => r matches Ok(d) && definition_view(d) == v,
                Err(e) => r == Err::<SchemaMigrationDefinition, PatchError>(e),
            },
        },
{
    match diff {
        None => Ok(current),
        Some(d) => {
            let mut diffs: Vec<DefinitionDiff> = Vec::new();
            diffs.push(d);
            let r = crate::definitions::calculate_definition_using_patches(current, diffs);
            proof {
                reveal_with_fuel(crate::definitions::apply_definition_diffs, 2);
            }
            r
        },
    }
}

/// The statements shown for the initial definitions when no migration runs.
pub fn initial_definitions_query(definition: &SchemaMigrationDefinition) -> (r: String)
    ensures
        r@ == definition.schemas@ + "\n        "@ + definition.events@,
{
    let mut r = definition.schemas.clone();
    r.append("\n        ");
    r.append(definition.events.as_str());
    r
}

/// The statements shown for applying a migration: the definitions, the
/// migration, and the record of the migration.
pub open spec fn apply_query_text(schemas: Seq<char>, events: Seq<char>, content: Seq<char>, script_name: Seq<char>) -> Seq<char> {
    schemas + "\n"@ + events + "\n"@ + content + "\nCREATE "@ + SCRIPT_MIGRATION_TABLE_NAME@
        + " SET script_name = '"@ + script_name + "';"@
}

/// Builds the statements shown for applying a migration (see `apply_query_text`).
pub fn apply_migration_query(schemas: &str, events: &str, content: &str, script_name: &str) -> (r: String)
    ensures
        r@ == apply_query_text(schemas@, events@, content@, script_name@),
{
    let mut r = String::from_str(schemas);
    r.append("\n");
    r.append(events);
    r.append("\n");
    r.append(content);
    r.append("\nCREATE ");
    r.append(SCRIPT_MIGRATION_TABLE_NAME);
    r.append(" SET script_name = '");
    r.append(script_name);
    r.append("';");
    r
}

/// The statements shown for reverting a migration: the down migration, the
/// removals of schema and event definitions (one per line), the definitions
/// after the revert, and the deletion of the migration's record.
pub open spec fn revert_query_text(
    content: Seq<char>,
    rollback_schemas: Seq<Seq<char>>,
    rollback_events: Seq<Seq<char>>,
    schemas_after: Seq<char>,
    events_after: Seq<char>,
    script_name: Seq<char>,
) -> Seq<char> {
    content + "\n"@ + crate::io::join_lines(rollback_schemas) + "\n"@ + crate::io::join_lines(rollback_events) + "\n"@
        + schemas_after + "\n"@ + events_after + "\nDELETE "@ + SCRIPT_MIGRATION_TABLE_NAME@
        + " WHERE script_name = '"@ + script_name + "';"@
}

/// The texts of `REMOVE` statements.
pub open spec fn removal_texts(v: Seq<RemoveStatement>) -> Seq<Seq<char>> {
    remove_views(v).map_values(|r: crate::statements::RemoveStatementView| remove_statement_text(r))
}

/// Appends the texts of the statements, one per line.
fn append_removals(out: &mut String, statements: &Vec<RemoveStatement>)
    ensures
        final(out)@ == old(out)@ + crate::io::join_lines(removal_texts(statements@)),
{
    let ghost start = out@;
    let mut i: usize = 0;
    while i < statements.len()
        invariant
            i <= statements.len(),
            out@ == start + crate::io::join_lines(removal_texts(statements@.take(i as int))),
        decreases statements.len() - i,
    {
        let ghost parts = removal_texts(statements@.take(i as int));
        let ghost next = removal_texts(statements@.take(i + 1));
        assert(next.drop_last() =~= parts);
        assert(next.last() == remove_statement_text(statements@[i as int]@));
        if i > 0 {
            push_char(out, '\n');
        }
        out.append(statements[i].to_surql().as_str());
        proof {
            if i == 0 {
                assert(next.len() == 1);
            }
        }
        i = i + 1;
    }
    assert(statements@.take(statements.len() as int) =~= statements@);
}

/// Builds the statements shown for reverting a migration (see
/// `revert_query_text`).
pub fn revert_migration_query(
    content: &str,
    rollback_schemas: &Vec<RemoveStatement>,
    rollback_events: &Vec<RemoveStatement>,
    schemas_after: &str,
    events_after: &str,
    script_name: &str,
) -> (r: String)
    ensures
        r@ == revert_query_text(
            content@,
            removal_texts(rollback_schemas@),
            removal_texts(rollback_events@),
            schemas_after@,
            events_after@,
            script_name@,
        ),
{
    let mut r = String::from_str(content);
    r.append("\n");
    append_removals(&mut r, rollback_schemas);
    r.append("\n");
    append_removals(&mut r, rollback_events);
    r.append("\n");
    r.append(schemas_after);
    r.append("\n");
    r.append(events_after);
    r.append("\nDELETE ");
    r.append(SCRIPT_MIGRATION_TABLE_NAME);
    r.append(" WHERE script_name = '");
    r.append(script_name);
    r.append("';");
    proof {
        reveal_strlit("\n");
    }
    r
}

} // verus!

verus! {

/// The statement defines the `checksum` field of the table that records
/// applied migrations.
pub open spec fn spec_is_define_checksum_statement(s: Statement) -> bool {
    s matches Statement::Define(DefineStatement::Field(f)) && f.name@ == "checksum"@ && f.what@ == SCRIPT_MIGRATION_TABLE_NAME@
}

/// Whether the statement defines the `checksum` field of the table that
/// records applied migrations.
pub fn is_define_checksum_statement(s: &Statement) -> (r: bool)
    ensures
        r == spec_is_define_checksum_statement(*s),
{
    match s {
        Statement::Define(DefineStatement::Field(f)) => str_eq(f.name.as_str(), "checksum") && str_eq(f.what.as_str(), SCRIPT_MIGRATION_TABLE_NAME),
        _ => false,
    }
}

/// Some statement defines the `checksum` field.
pub open spec fn defines_checksum(s: Seq<Statement>) -> bool {
    exists|i: int| 0 <= i < s.len() && spec_is_define_checksum_statement(#[trigger] s[i])
}

fn any_define_checksum(statements: &Vec<Statement>) -> (r: bool)
    ensures
        r == defines_checksum(statements@),
{
    let mut i: usize = 0;
    while i < statements.len()
        invariant
            i <= statements.len(),
            forall|k: int| 0 <= k < i ==> !spec_is_define_checksum_statement(#[trigger] statements@[k]),
        decreases statements.len() - i,
    {
        if is_define_checksum_statement(&statements[i]) {
            return true;
        }
        i = i + 1;
    }
    false
}

/// Whether migration records carry a checksum: once they do, they keep
/// doing so; they start when the schema or the migration defines the
/// `checksum` field.
pub fn supports_checksum(
    supported: bool,
    schemas_statements: &Vec<Statement>,
    migration_statements: &Vec<Statement>,
) -> (r: bool)
    ensures
        r == (supported || defines_checksum(schemas_statements@) || defines_checksum(migration_statements@)),
{
    supported || any_define_checksum(schemas_statements) || any_define_checksum(migration_statements)
}

/// The SHA-256 digest of the UTF-8 encoding of a text.
pub uninterp spec fn sha256_of(text: Seq<char>) -> Seq<u8>;

/// SHA-256 of the UTF-8 bytes of `text`, with `sha2::Sha256::digest`.
///
/// Trusted: the result is the named digest of the text, 32 bytes long.
#[verifier::external_body]
fn sha256_digest(text: &str) -> (r: Vec<u8>)
    ensures
        r@ == sha256_of(text@),
        r@.len() == 32,
{
    sha2::Sha256::digest(text.as_bytes()).to_vec()
}

/// The lowercase hexadecimal digit of `d`.
pub open spec fn hex_digit(d: u8) -> char {
    if d < 10 { (('0' as u8) + d) as char } else { (('a' as u8) + (d - 10)) as char }
}

/// Each byte as two lowercase hexadecimal digits.
pub open spec fn hex_text(bytes: Seq<u8>) -> Seq<char>
    decreases bytes.len(),
{
    if bytes.len() == 0 {
        Seq::empty()
    } else {
        hex_text(bytes.drop_last()) + seq![hex_digit(bytes.last() / 16), hex_digit(bytes.last() % 16)]
    }
}

/// The bytes in lowercase hexadecimal, with `hex::encode`.
///
/// Trusted: two lowercase hexadecimal digits per byte, in order, as its
/// documentation states.
#[verifier::external_body]
fn hex_encode(bytes: &Vec<u8>) -> (r: String)
    ensures
        r@ == hex_text(bytes@),
{
    hex::encode(bytes)
}

/// The checksum recorded for a migration: the SHA-256 digest of its
/// content, in lowercase hexadecimal.
pub fn migration_checksum(content: &str) -> (r: String)
    ensures
        r@ == hex_text(sha256_of(content@)),
        r@.len() == 64,
{
    let digest = sha256_digest(content);
    let r = hex_encode(&digest);
    proof {
        lemma_hex_text_len(digest@);
    }
    r
}

proof fn lemma_hex_text_len(bytes: Seq<u8>)
    ensures
        hex_text(bytes).len() == 2 * bytes.len(),
    decreases bytes.len(),
{
    if bytes.len() > 0 {
        lemma_hex_text_len(bytes.drop_last());
    }
}

/// The record of an applied migration: its name, and the checksum of its
/// content when records carry one.
pub struct ScriptMigrationRecord {
    pub script_name: String,
    pub checksum: Option<String>,
}

/// Builds the record of an applied migration.
pub fn script_migration_record(script_name: &str, content: &str, supports_checksum: bool) -> (r: ScriptMigrationRecord)
    ensures
        r.script_name@ == script_name@,
        match r.checksum {
            Some(c) => supports_checksum && c@ == hex_text(sha256_of(content@)),
            None => !supports_checksum,
        },
{
    let checksum = if supports_checksum { Some(migration_checksum(content)) } else { None };
    ScriptMigrationRecord { script_name: String::from_str(script_name), checksum }
}

} // verus!

verus! {

/// Position of the applied migration named `name`, if any.
pub open spec fn applied_position(applied: Seq<ScriptMigration>, name: Seq<char>) -> Option<int>
    decreases applied.len(),
{
    if applied.len() == 0 {
        None
    } else if applied[0].script_name@ == name {
        Some(0)
    } else {
        match applied_position(applied.drop_first(), name) {
            Some(i) => Some(i + 1),
            None => None,
        }
    }
}

/// The applied migration that a revert undoes: the first one of that name.
pub fn find_reverted_migration(applied: &Vec<ScriptMigration>, name: &str) -> (r: Result<usize, RunnerError>)
    ensures
        match applied_position(applied@, name@) {
            Some(i) => r == Ok::<usize, RunnerError>(i as usize),
            None => r == Err::<usize, RunnerError>(RunnerError::MigrationNotApplied),
        },
{
    let mut i: usize = 0;
    assert(applied@.skip(0) =~= applied@);
    while i < applied.len()
        invariant
            i <= applied.len(),
            applied_position(applied@, name@) == match applied_position(applied@.skip(i as int), name@) {
                Some(k) => Some(k + i),
                None => None::<int>,
            },
        decreases applied.len() - i,
    {
        assert(applied@.skip(i as int)[0] == applied@[i as int]);
        if str_eq(applied[i].script_name.as_str(), name) {
            return Ok(i);
        }
        assert(applied@.skip(i as int).drop_first() =~= applied@.skip(i + 1));
        i = i + 1;
    }
    Err(RunnerError::MigrationNotApplied)
}

/// Position of the last applied migration whose name comes before `name`
/// (as strings).
pub open spec fn last_applied_before(applied: Seq<ScriptMigration>, name: Seq<char>) -> Option<int>
    decreases applied.len(),
{
    if applied.len() == 0 {
        None
    } else if plain_rank(applied.last().script_name@, name) < 0 {
        Some(applied.len() - 1)
    } else {
        last_applied_before(applied.drop_last(), name)
    }
}

/// The applied migration whose definitions remain after reverting the
/// migration named `name`: the last applied one named before it.
pub fn migration_before(applied: &Vec<ScriptMigration>, name: &str) -> (r: Option<usize>)
    ensures
        match r {
            Some(i) => last_applied_before(applied@, name@) == Some(i as int),
            None => last_applied_before(applied@, name@) is None,
        },
{
    let mut j: usize = applied.len();
    assert(applied@.take(j as int) =~= applied@);
    while j > 0
        invariant
            j <= applied.len(),
            last_applied_before(applied@, name@) == last_applied_before(applied@.take(j as int), name@),
        decreases j,
    {
        assert(applied@.take(j as int).last() == applied@[j - 1]);
        if plain_compare(applied[j - 1].script_name.as_str(), name) < 0 {
            return Some(j - 1);
        }
        assert(applied@.take(j as int).drop_last() =~= applied@.take(j - 1));
        j = j - 1;
    }
    None
}

} // verus!

verus! {

/// How a run of `apply` proceeds.
pub struct ApplyPlan {
    /// No schema or event file but some migration: migrations carry the
    /// whole schema, starting with the initial migration.
    pub use_traditional_approach: bool,
    /// Schema and event definitions are tracked along the migrations.
    pub use_migration_definitions: bool,
    /// The definition files are brought up to date (forward operations).
    pub should_create_definition_files: bool,
    /// Progress is logged (never on a dry run).
    pub display_logs: bool,
}

/// Decides how a run of `apply` proceeds from the operation, the
/// concatenated schema and event definitions and the number of forward
/// migration files.
pub fn plan_apply(
    operation: &ApplyOperation,
    schema_definitions: &str,
    event_definitions: &str,
    forward_migrations_count: usize,
    display_logs: bool,
    dry_run: bool,
) -> (r: ApplyPlan)
    ensures
        r.use_traditional_approach == (schema_definitions@.len() == 0 && event_definitions@.len() == 0 && forward_migrations_count > 0),
        r.use_migration_definitions == !r.use_traditional_approach,
        r.should_create_definition_files == (direction_of(operation@) == MigrationDirection::Forward),
        r.display_logs == (display_logs && !dry_run),
{
    let use_traditional_approach = schema_definitions.unicode_len() == 0 && event_definitions.unicode_len() == 0
        && forward_migrations_count > 0;
    ApplyPlan {
        use_traditional_approach,
        use_migration_definitions: !use_traditional_approach,
        should_create_definition_files: MigrationDirection::from(operation) == MigrationDirection::Forward,
        display_logs: if dry_run { false } else { display_logs },
    }
}

} // verus!

verus! {

/// A copy of the definitions.
fn copy_definition(d: &SchemaMigrationDefinition) -> (r: SchemaMigrationDefinition)
    ensures
        r == *d,
{
    SchemaMigrationDefinition { schemas: d.schemas.clone(), events: d.events.clone() }
}

/// The definitions a run starts from: the given ones when definitions are
/// tracked, empty ones otherwise.
pub open spec fn starting_definition(use_migration_definitions: bool, definition: SchemaMigrationDefinition) -> (Seq<char>, Seq<char>) {
    if use_migration_definitions { definition_view(definition) } else { (Seq::empty(), Seq::empty()) }
}

/// Applying migrations forward, one after the other.
pub struct ApplyMigrations {
    /// Schema and event definitions are tracked along the migrations.
    pub use_migration_definitions: bool,
    /// The schema and event definitions reached so far.
    pub current_definition: SchemaMigrationDefinition,
    /// Migration records carry a checksum.
    pub supports_checksum: bool,
    pub progress: ApplyProgress,
}

/// The initial definitions, applied when no migration runs.
pub struct InitialDefinitions {
    /// The statements shown (see `initial_definitions_query`).
    pub query: String,
    pub schemas: String,
    pub events: String,
}

impl ApplyMigrations {
    /// Starts a run from the definitions of the last applied migration (the
    /// initial ones when none is applied), used when definitions are
    /// tracked, and from whether the table of records has a `checksum` field.
    pub fn start(use_migration_definitions: bool, definition: SchemaMigrationDefinition, supports_checksum: bool) -> (r: Self)
        ensures
            r.use_migration_definitions == use_migration_definitions,
            definition_view(r.current_definition) == starting_definition(use_migration_definitions, definition),
            r.supports_checksum == supports_checksum,
            !r.progress.has_applied_schemas && !r.progress.has_applied_events,
    {
        let current_definition = if use_migration_definitions { definition } else { SchemaMigrationDefinition::default() };
        ApplyMigrations { use_migration_definitions, current_definition, supports_checksum, progress: ApplyProgress::new() }
    }

    /// When definitions are tracked and no migration runs, the current
    /// definitions are applied by themselves: what to show and to run.
    /// Non-empty schema (event) definitions count as applied.
    pub fn initial_definitions(&mut self, has_applied_migrations: bool) -> (r: Option<InitialDefinitions>)
        ensures
            final(self).use_migration_definitions == old(self).use_migration_definitions,
            final(self).current_definition == old(self).current_definition,
            final(self).supports_checksum == old(self).supports_checksum,
            if old(self).use_migration_definitions && !has_applied_migrations {
                &&& r matches Some(i) && i.schemas@ == old(self).current_definition.schemas@
                    && i.events@ == old(self).current_definition.events@
                    && i.query@ == old(self).current_definition.schemas@ + "\n        "@ + old(self).current_definition.events@
                &&& final(self).progress.has_applied_schemas
                    == (old(self).progress.has_applied_schemas || old(self).current_definition.schemas@.len() > 0)
                &&& final(self).progress.has_applied_events
                    == (old(self).progress.has_applied_events || old(self).current_definition.events@.len() > 0)
            } else {
                r is None && final(self).progress == old(self).progress
            },
    {
        if self.use_migration_definitions && !has_applied_migrations {
            let query = initial_definitions_query(&self.current_definition);
            let schemas = self.current_definition.schemas.clone();
            let events = self.current_definition.events.clone();
            let current = copy_definition(&self.current_definition);
            self.progress.note_applied(&current);
            Some(InitialDefinitions { query, schemas, events })
        } else {
            None
        }
    }

    /// Moves to the definitions of the next migration: with tracked
    /// definitions, its recorded diff (if any) applies to the current ones,
    /// and the schema and event texts to run before the migration are the
    /// new definitions; without, there is nothing to run before it.
    pub fn next_migration(&mut self, diff: Option<DefinitionDiff>) -> (r: Result<(String, String), PatchError>)
        ensures
            final(self).use_migration_definitions == old(self).use_migration_definitions,
            final(self).supports_checksum == old(self).supports_checksum,
            final(self).progress == old(self).progress,
            !old(self).use_migration_definitions ==> (r matches Ok(t) && t.0@.len() == 0 && t.1@.len() == 0
                && final(self).current_definition == old(self).current_definition),
            old(self).use_migration_definitions ==> match diff {
                None => r matches Ok(t) && final(self).current_definition == old(self).current_definition
                    && t.0@ == old(self).current_definition.schemas@ && t.1@ == old(self).current_definition.events@,
                Some(x) => match apply_definition_diff(definition_view(old(self).current_definition), diff_view(x)) {
                    Ok(v) => r matches Ok(t) && definition_view(final(self).current_definition) == v && (t.0@, t.1@) == v,
                    Err(e) => r == Err::<(String, String), PatchError>(e),
                },
            },
    {
        if !self.use_migration_definitions {
            return Ok((String::new(), String::new()));
        }
        if diff.is_none() {
            return Ok((self.current_definition.schemas.clone(), self.current_definition.events.clone()));
        }
        let current = copy_definition(&self.current_definition);
        let next = next_definition(current, diff)?;
        let schemas = next.schemas.clone();
        let events = next.events.clone();
        self.current_definition = next;
        Ok((schemas, events))
    }

    /// The record of a migration, once the definitions run before it and
    /// its own statements are parsed: records carry a checksum from the
    /// first migration on whose definitions or statements define the
    /// `checksum` field; tracked non-empty definitions count as applied.
    pub fn record_migration(
        &mut self,
        script_name: &str,
        content: &str,
        schemas_statements: &Vec<Statement>,
        migration_statements: &Vec<Statement>,
    ) -> (r: ScriptMigrationRecord)
        ensures
            final(self).use_migration_definitions == old(self).use_migration_definitions,
            final(self).current_definition == old(self).current_definition,
            final(self).supports_checksum == (old(self).supports_checksum || defines_checksum(schemas_statements@)
                || defines_checksum(migration_statements@)),
            r.script_name@ == script_name@,
            match r.checksum {
                Some(c) => final(self).supports_checksum && c@ == hex_text(sha256_of(content@)),
                None => !final(self).supports_checksum,
            },
            final(self).progress.has_applied_schemas == (old(self).progress.has_applied_schemas
                || (old(self).use_migration_definitions && old(self).current_definition.schemas@.len() > 0)),
            final(self).progress.has_applied_events == (old(self).progress.has_applied_events
                || (old(self).use_migration_definitions && old(self).current_definition.events@.len() > 0)),
    {
        self.supports_checksum = supports_checksum(self.supports_checksum, schemas_statements, migration_statements);
        if self.use_migration_definitions {
            let current = copy_definition(&self.current_definition);
            self.progress.note_applied(&current);
        }
        script_migration_record(script_name, content, self.supports_checksum)
    }
}

/// Reverting migrations, one after the other.
pub struct RevertMigrations {
    /// Schema and event definitions are tracked along the migrations.
    pub use_migration_definitions: bool,
    /// The schema and event definitions reached so far.
    pub current_definition: SchemaMigrationDefinition,
    pub progress: ApplyProgress,
}

impl RevertMigrations {
    /// Starts a run from the definitions of the last applied migration (the
    /// initial ones when none is applied), used when definitions are tracked.
    pub fn start(use_migration_definitions: bool, definition: SchemaMigrationDefinition) -> (r: Self)
        ensures
            r.use_migration_definitions == use_migration_definitions,
            definition_view(r.current_definition) == starting_definition(use_migration_definitions, definition),
            !r.progress.has_applied_schemas && !r.progress.has_applied_events,
    {
        let current_definition = if use_migration_definitions { definition } else { SchemaMigrationDefinition::default() };
        RevertMigrations { use_migration_definitions, current_definition, progress: ApplyProgress::new() }
    }

    /// Whose definitions remain once the migration named `name` is reverted:
    /// the last applied migration named before it (`None`: the initial
    /// definitions). Fails when the migration is not applied.
    pub fn definitions_after_revert(applied: &Vec<ScriptMigration>, name: &str) -> (r: Result<Option<usize>, RunnerError>)
        ensures
            match applied_position(applied@, name@) {
                None => r == Err::<Option<usize>, RunnerError>(RunnerError::MigrationNotApplied),
                Some(_) => match r {
                    Ok(Some(i)) => last_applied_before(applied@, name@) == Some(i as int),
                    Ok(None) => last_applied_before(applied@, name@) is None,
                    Err(_) => false,
                },
            },
    {
        find_reverted_migration(applied, name)?;
        Ok(migration_before(applied, name))
    }

    /// Reverts a migration to the definitions `after`, once the schema and
    /// event definitions before and after are parsed: with tracked
    /// definitions, gives the `REMOVE` statements of what only the current
    /// schema (event) definitions define, counts changed definitions as
    /// applied and moves to `after`; without, nothing is removed and nothing
    /// changes.
    pub fn revert_migration(
        &mut self,
        after: SchemaMigrationDefinition,
        current_schemas: &Vec<Statement>,
        after_schemas: &Vec<Statement>,
        current_events: &Vec<Statement>,
        after_events: &Vec<Statement>,
    ) -> (r: (Vec<RemoveStatement>, Vec<RemoveStatement>))
        ensures
            final(self).use_migration_definitions == old(self).use_migration_definitions,
            old(self).use_migration_definitions ==> {
                &&& remove_views(r.0@) == rollback_statements(current_schemas@, after_schemas@)
                &&& remove_views(r.1@) == rollback_statements(current_events@, after_events@)
                &&& final(self).current_definition == after
                &&& final(self).progress.has_applied_schemas
                    == (old(self).progress.has_applied_schemas || after.schemas@ != old(self).current_definition.schemas@)
                &&& final(self).progress.has_applied_events
                    == (old(self).progress.has_applied_events || after.events@ != old(self).current_definition.events@)
            },
            !old(self).use_migration_definitions ==> {
                &&& r.0@.len() == 0 && r.1@.len() == 0
                &&& final(self).current_definition == old(self).current_definition
                &&& final(self).progress == old(self).progress
            },
    {
        if !self.use_migration_definitions {
            return (Vec::new(), Vec::new());
        }
        let current = copy_definition(&self.current_definition);
        self.progress.note_reverted(&current, &after);
        let schemas = get_rollback_statements(current_schemas, after_schemas);
        let events = get_rollback_statements(current_events, after_events);
        self.current_definition = after;
        (schemas, events)
    }
}

} // verus!
