//! Declarative plans that turn a table's log into the metadata of its live files.

pub mod actions;
pub mod arm_laws;
pub mod builder_laws;
pub mod checkpoint_laws;
pub mod checkpoint_shape;
pub mod error;
pub mod executor;
pub mod expressions;
pub mod files;
pub mod live_laws;
pub mod location;
pub mod log_laws;
pub mod log_segment;
pub mod outcome_laws;
pub mod output_laws;
pub mod patch_laws;
pub mod plan;
pub mod projection_laws;
pub mod reading_laws;
pub mod replay_laws;
pub mod returned_laws;
pub mod row_laws;
pub mod scan_plan;
pub mod schema;
pub mod schema_laws;
pub mod semantics;
pub mod sequences;
pub mod shape_laws;
pub mod sidecar_laws;
pub mod skipping;
pub mod skipping_laws;
pub mod stats_rules;
pub mod struct_patch;
pub mod view_laws;
