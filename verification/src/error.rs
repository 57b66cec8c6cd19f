//! The ways in which resolving a checkpoint or building a plan can fail.

use vstd::prelude::*;

verus! {

/// Why a checkpoint could not be resolved or a plan could not be built.
#[derive(Debug)]
pub enum Error {
    /// A request that the library's own schemas cannot serve.
    InternalError(String),
    /// A path that cannot be resolved against the log's location.
    InvalidUrl,
    /// A log version that does not fit the signed 64-bit version column.
    VersionOutOfRange,
    /// A sidecar that claims a negative size.
    NegativeFileSize,
    /// A column that the input schema does not have.
    UnknownColumn,
    /// A column that the schema already has.
    DuplicateColumn,
    /// A struct expression whose arity differs from that of its schema.
    ArityMismatch,
    /// Relations of different schemas that cannot be united.
    SchemaMismatch,
    /// A plan that would produce no rows where one was asked for.
    EmptyPlan,
    /// A scan that hands out more batches than can be counted, none of them of use.
    TooManyBatches,
    /// A failure reported by the engine that runs plans and reads files.
    Engine(String),
}

impl Error {
    /// Whether this is an internal error with the given message.
    pub open spec fn is_internal(self, message: Seq<char>) -> bool {
        self matches Error::InternalError(m) && m@ == message
    }

    /// An internal error with the given message.
    pub fn internal_error(message: &str) -> (e: Error)
        ensures
            e.is_internal(message@),
    {
        Error::InternalError(message.to_owned())
    }
}

} // verus!
