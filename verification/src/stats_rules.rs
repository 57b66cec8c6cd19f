//! Rules on file statistics that a table's reader settles.

use vstd::prelude::*;

use crate::expressions::{ColumnName, Predicate};
use crate::schema::StructType;

verus! {

/// What a reader knows of file statistics beyond their place in the log.
pub trait StatsRules {
    /// Whether a file of the given schema holds statistics, parsed into a struct below `add`,
    /// that can be read as the given schema of statistics.
    fn schema_has_compatible_stats_parsed(
        file_schema: &StructType,
        stats_schema: &StructType,
    ) -> bool;

    /// A predicate on the statistics and partition values of a file that is false only if no row
    /// of the file can satisfy the given predicate, if there is one. It names the statistics
    /// below `stats_parsed` and the partition values below `partitionValues_parsed`.
    fn as_sql_data_skipping_predicate_with_stats_columns(
        predicate: &Predicate,
        partition_columns: &Vec<String>,
        stats_columns: &Vec<ColumnName>,
    ) -> Option<Predicate>;
}

} // verus!
