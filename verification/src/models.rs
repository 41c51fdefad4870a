use vstd::prelude::*;

verus! {

/// A migration script recorded as applied in the database.
pub struct ScriptMigration {
    pub script_name: String,
    pub executed_at: String,
    pub checksum: Option<String>,
}

/// A database branch, as stored by the branching feature.
pub struct Branch {
    pub name: String,
    pub from_ns: String,
    pub from_db: String,
    pub created_at: String,
}

/// The full schema and event definitions at some point of the migration history.
pub struct SchemaMigrationDefinition {
    pub schemas: String,
    pub events: String,
}

impl Default for SchemaMigrationDefinition {
    fn default() -> (d: Self)
        ensures
            d.schemas@ == Seq::<char>::empty(),
            d.events@ == Seq::<char>::empty(),
    {
        SchemaMigrationDefinition { schemas: String::new(), events: String::new() }
    }
}

/// The changes brought by one migration to the schema and event definitions,
/// as unified-format patches (absent when nothing changed).
pub struct DefinitionDiff {
    pub schemas: Option<String>,
    pub events: Option<String>,
}

/// The operation requested when applying migrations.
pub enum ApplyOperation {
    /// Apply every pending migration.
    Up,
    /// Apply the next pending migration.
    UpSingle,
    /// Apply pending migrations up to and including the named one.
    UpTo(String),
    /// Revert every applied migration.
    Reset,
    /// Revert the last applied migration.
    DownSingle,
    /// Revert applied migrations down to, but excluding, the named one.
    DownTo(String),
}

/// Error of the apply arguments.
#[derive(PartialEq, Eq, Structural, Clone, Copy, Debug)]
pub enum ApplyOperationError {
    /// More than one of `up`, `down` and `reset` was given.
    ConflictingArguments,
}

/// What `ApplyOperation::try_from` gives for the arguments `up`, `down`, `reset`.
pub open spec fn spec_apply_operation(up: Option<Seq<char>>, down: Option<Seq<char>>, reset: bool) -> Option<ApplyOperationKind> {
    match (up, down, reset) {
        (Some(u), None, false) => if u.len() == 0 { Some(ApplyOperationKind::UpSingle) } else { Some(ApplyOperationKind::UpTo(u)) },
        (None, Some(d), false) => if d.len() == 0 { Some(ApplyOperationKind::DownSingle) } else { Some(ApplyOperationKind::DownTo(d)) },
        (None, None, true) => Some(ApplyOperationKind::Reset),
        (None, None, false) => Some(ApplyOperationKind::Up),
        _ => None,
    }
}

/// The mathematical view of an `ApplyOperation`.
pub enum ApplyOperationKind {
    Up,
    UpSingle,
    UpTo(Seq<char>),
    Reset,
    DownSingle,
    DownTo(Seq<char>),
}

impl View for ApplyOperation {
    type V = ApplyOperationKind;

    open spec fn view(&self) -> ApplyOperationKind {
        match self {
            ApplyOperation::Up => ApplyOperationKind::Up,
            ApplyOperation::UpSingle => ApplyOperationKind::UpSingle,
            ApplyOperation::UpTo(t) => ApplyOperationKind::UpTo(t@),
            ApplyOperation::Reset => ApplyOperationKind::Reset,
            ApplyOperation::DownSingle => ApplyOperationKind::DownSingle,
            ApplyOperation::DownTo(t) => ApplyOperationKind::DownTo(t@),
        }
    }
}

impl ApplyOperation {
    /// Builds the operation from the `--up`, `--down` and `--reset` arguments;
    /// an empty name asks for a single step. At most one may be given.
    pub fn try_from(up: Option<String>, down: Option<String>, reset: bool) -> (r: Result<Self, ApplyOperationError>)
        ensures
            match spec_apply_operation(
                match up { Some(u) => Some(u@), None => None },
                match down { Some(d) => Some(d@), None => None },
                reset,
            ) {
                Some(k) => r matches Ok(op) && op@ == k,
                None => r == Err::<Self, ApplyOperationError>(ApplyOperationError::ConflictingArguments),
            },
    {
        match (up, down, reset) {
            (Some(up), None, false) => {
                if up.unicode_len() == 0 {
                    Ok(ApplyOperation::UpSingle)
                } else {
                    Ok(ApplyOperation::UpTo(up))
                }
            },
            (None, Some(down), false) => {
                if down.unicode_len() == 0 {
                    Ok(ApplyOperation::DownSingle)
                } else {
                    Ok(ApplyOperation::DownTo(down))
                }
            },
            (None, None, true) => Ok(ApplyOperation::Reset),
            (None, None, false) => Ok(ApplyOperation::Up),
            _ => Err(ApplyOperationError::ConflictingArguments),
        }
    }
}

/// Direction in which migrations run.
#[derive(PartialEq, Eq, Structural, Clone, Copy, Debug)]
pub enum MigrationDirection {
    Forward,
    Backward,
}

/// Direction of an operation: forward for the `Up` family, backward otherwise.
pub open spec fn direction_of(op: ApplyOperationKind) -> MigrationDirection {
    match op {
        ApplyOperationKind::Up | ApplyOperationKind::UpSingle | ApplyOperationKind::UpTo(_) => MigrationDirection::Forward,
        _ => MigrationDirection::Backward,
    }
}

impl MigrationDirection {
    /// Direction of the given operation.
    pub fn from(operation: &ApplyOperation) -> (d: Self)
        ensures
            d == direction_of(operation@),
    {
        match operation {
            ApplyOperation::Up | ApplyOperation::UpSingle | ApplyOperation::UpTo(_) => MigrationDirection::Forward,
            ApplyOperation::Reset | ApplyOperation::DownSingle | ApplyOperation::DownTo(_) => MigrationDirection::Backward,
        }
    }
}

/// How a transaction ends.
#[derive(PartialEq, Eq, Structural, Clone, Copy, Debug)]
pub enum TransactionAction {
    Commit,
    Rollback,
}

} // verus!
