//! What the arms of a metadata scan plan read from the log, file by file.

use vstd::prelude::*;

use crate::arm_laws::{
    checkpoint_log, commit_log, lemma_commit_outcome, lemma_readable, lemma_tagged_files,
    lemma_tagged_scan, lemma_tagged_sidecars,
};
use crate::checkpoint_shape::{CheckpointType, ShapeView};
use crate::expressions::{PathView, ScalarView};
use crate::files::{FileType, ScanFileView};
use crate::log_laws::{are_sidecar_files, law_every_hint_sidecar_is_tagged};
use crate::log_segment::{tag_with_versions, LogPathView};
use crate::plan::PlanView;
use crate::scan_plan::{
    checkpoint_actions, commit_relation, json_read_view, manifest_relation, parquet_read_view,
    ScanView,
};
use crate::schema::SchemaView;
use crate::schema_laws::{is_add_column, is_version_column, law_read_schemas};
use crate::semantics::{file_rows, scalar_value, scan_rows, Engine, Row};

verus! {

/// The files of the log as a scan is given them: each at its location, with its version.
pub open spec fn at_their_versions(paths: Seq<LogPathView>) -> Seq<ScanFileView> {
    Seq::new(
        paths.len(),
        |i: int|
            ScanFileView {
                meta: paths[i].location,
                constants: seq![ScalarView::Long(paths[i].version)],
            },
    )
}

/// Whether a row is what a scan makes of a row that a file holds: the file's constants in the
/// columns named for them, and the row's own values in the others.
pub open spec fn is_row_of(
    row: Row,
    held: Row,
    file: ScanFileView,
    constants: PathView,
    schema: SchemaView,
) -> bool {
    &&& row.len() == schema.len()
    &&& forall|c: int|
        0 <= c < schema.len() && !constants.contains(schema[c].name) ==> #[trigger] row[c]
            == held[c]
    &&& forall|c: int, k: int|
        0 <= c < schema.len() && 0 <= k < constants.len() && (#[trigger] schema[c]).name == (
        #[trigger] constants[k]) ==> row[c] == scalar_value(file.constants[k])
}

/// Whether a row is what a scan makes of the row at `h` of its file at `f`.
pub open spec fn is_read_from(
    engine: Engine,
    file_type: FileType,
    files: Seq<ScanFileView>,
    constants: PathView,
    schema: SchemaView,
    f: int,
    h: int,
    row: Row,
) -> bool {
    let held = (engine.rows)(file_type, files[f].meta.location, schema);
    &&& 0 <= f < files.len()
    &&& 0 <= h < held.len()
    &&& is_row_of(row, held[h], files[f], constants, schema)
}

/// The rows of one scanned file.
proof fn lemma_file_row(
    engine: Engine,
    file_type: FileType,
    file: ScanFileView,
    constants: PathView,
    schema: SchemaView,
    h: int,
)
    requires
        constants.no_duplicates(),
        file.constants.len() == constants.len(),
        0 <= h < (engine.rows)(file_type, file.meta.location, schema).len(),
    ensures
        is_row_of(
            file_rows(engine, file_type, file, constants, schema)[h],
            (engine.rows)(file_type, file.meta.location, schema)[h],
            file,
            constants,
            schema,
        ),
{
    let row = file_rows(engine, file_type, file, constants, schema)[h];
    assert forall|c: int, k: int|
        0 <= c < schema.len() && 0 <= k < constants.len() && (#[trigger] schema[c]).name == (
        #[trigger] constants[k]) implies row[c] == scalar_value(file.constants[k]) by {
        assert(constants.contains(schema[c].name));
        assert(constants.index_of(schema[c].name) == k);
    }
}

/// A scan leaves out no row of any of its files.
pub proof fn law_scan_reads_every_row(
    engine: Engine,
    file_type: FileType,
    files: Seq<ScanFileView>,
    constants: PathView,
    schema: SchemaView,
    f: int,
    h: int,
)
    requires
        constants.no_duplicates(),
        forall|i: int|
            0 <= i < files.len() ==> (#[trigger] files[i]).constants.len() == constants.len(),
        0 <= f < files.len(),
        0 <= h < (engine.rows)(file_type, files[f].meta.location, schema).len(),
    ensures
        exists|n: int|
            {
                &&& 0 <= n < scan_rows(engine, file_type, files, constants, schema).len()
                &&& is_read_from(
                    engine,
                    file_type,
                    files,
                    constants,
                    schema,
                    f,
                    h,
                    #[trigger] scan_rows(engine, file_type, files, constants, schema)[n],
                )
            },
    decreases files.len(),
{
    let rows = scan_rows(engine, file_type, files, constants, schema);
    let rest = files.drop_last();
    let before = scan_rows(engine, file_type, rest, constants, schema);
    let n = if f < files.len() - 1 {
        law_scan_reads_every_row(engine, file_type, rest, constants, schema, f, h);
        choose|n: int|
            {
                &&& 0 <= n < before.len()
                &&& is_read_from(
                    engine,
                    file_type,
                    rest,
                    constants,
                    schema,
                    f,
                    h,
                    #[trigger] before[n],
                )
            }
    } else {
        lemma_file_row(engine, file_type, files[f], constants, schema, h);
        before.len() + h
    };
    assert(is_read_from(engine, file_type, files, constants, schema, f, h, rows[n]));
}

/// A scan makes no row up: each one comes from a file of the scan.
pub proof fn law_scan_makes_up_no_row(
    engine: Engine,
    file_type: FileType,
    files: Seq<ScanFileView>,
    constants: PathView,
    schema: SchemaView,
    n: int,
)
    requires
        constants.no_duplicates(),
        forall|i: int|
            0 <= i < files.len() ==> (#[trigger] files[i]).constants.len() == constants.len(),
        0 <= n < scan_rows(engine, file_type, files, constants, schema).len(),
    ensures
        exists|f: int, h: int| #[trigger]
            is_read_from(
                engine,
                file_type,
                files,
                constants,
                schema,
                f,
                h,
                scan_rows(engine, file_type, files, constants, schema)[n],
            ),
    decreases files.len(),
{
    let rows = scan_rows(engine, file_type, files, constants, schema);
    let rest = files.drop_last();
    let before = scan_rows(engine, file_type, rest, constants, schema);
    if n < before.len() {
        law_scan_makes_up_no_row(engine, file_type, rest, constants, schema, n);
        let (f, h) = choose|f: int, h: int| #[trigger]
            is_read_from(engine, file_type, rest, constants, schema, f, h, before[n]);
        assert(is_read_from(engine, file_type, files, constants, schema, f, h, rows[n]));
    } else {
        let f = files.len() - 1;
        let h = n - before.len();
        lemma_file_row(engine, file_type, files[f], constants, schema, h);
        assert(is_read_from(engine, file_type, files, constants, schema, f, h, rows[n]));
    }
}

/// The commits are read whole: every file of the commit cover, as JSON, each at its own version, in
/// their order, into adds, removes and versions.
pub proof fn law_every_commit_is_read(engine: Engine, scan: ScanView)
    requires
        forall|i: int|
            0 <= i < scan.segment.commit_cover.len() ==> (
            #[trigger] scan.segment.commit_cover[i]).version <= i64::MAX,
    ensures
        commit_relation(scan) is Ok,
        commit_log(engine, scan) == scan_rows(
            engine,
            FileType::Json,
            at_their_versions(scan.segment.commit_cover),
            seq!["version"@],
            json_read_view(true),
        ),
        scan.segment.commit_cover.len() > 0 ==> {
            &&& commit_relation(scan)->Ok_0.plan matches Some(PlanView::Project { input, .. })
            &&& *input matches PlanView::Filter { input: read, .. }
            &&& *read == (PlanView::Scan {
                file_type: FileType::Json,
                files: at_their_versions(scan.segment.commit_cover),
                constants: seq!["version"@],
                schema: json_read_view(true),
            })
        },
{
    lemma_tagged_files(scan.segment.commit_cover);
    assert(tag_with_versions(scan.segment.commit_cover)->Ok_0 =~= at_their_versions(
        scan.segment.commit_cover,
    ));
    lemma_commit_outcome(scan);
    lemma_readable();
    lemma_tagged_scan(
        FileType::Json,
        at_their_versions(scan.segment.commit_cover),
        json_read_view(true),
    );
}

/// A leaf checkpoint is read whole: all of its parts, in the encoding of the first, each at its own
/// version, in their order. They are read into adds and versions; the adds of a Parquet leaf have
/// the parsed statistics that were found to be there.
pub proof fn law_every_part_is_read(engine: Engine, scan: ScanView, shape: ShapeView)
    requires
        shape.checkpoint_type == CheckpointType::Leaf,
        scan.segment.checkpoint_parts.len() > 0,
        forall|i: int|
            0 <= i < scan.segment.checkpoint_parts.len() ==> (
            #[trigger] scan.segment.checkpoint_parts[i]).version <= i64::MAX,
    ensures
        checkpoint_actions(scan, shape) is Ok,
        ({
            let json = scan.segment.checkpoint_parts[0].extension == "json"@;
            let schema = checkpoint_actions(scan, shape)->Ok_0.schema;
            &&& checkpoint_log(engine, scan, shape) == scan_rows(
                engine,
                if json {
                    FileType::Json
                } else {
                    FileType::Parquet
                },
                at_their_versions(scan.segment.checkpoint_parts),
                seq!["version"@],
                schema,
            )
            &&& checkpoint_actions(scan, shape)->Ok_0.plan == Some(
                PlanView::Scan {
                    file_type: if json {
                        FileType::Json
                    } else {
                        FileType::Parquet
                    },
                    files: at_their_versions(scan.segment.checkpoint_parts),
                    constants: seq!["version"@],
                    schema,
                },
            )
            &&& schema.len() == 2
            &&& is_add_column(
                schema[0],
                if json {
                    None
                } else {
                    shape.parsed_stats_schema
                },
                None,
            )
            &&& is_version_column(schema[1])
        }),
{
    let parts = scan.segment.checkpoint_parts;
    lemma_tagged_files(parts);
    let files = tag_with_versions(parts)->Ok_0;
    assert(files =~= at_their_versions(parts));
    lemma_readable();
    law_read_schemas(shape.parsed_stats_schema, None);
    let file_type = parts[0].file_type();
    let schema = checkpoint_actions(scan, shape)->Ok_0.schema;
    lemma_tagged_scan(FileType::Json, files, json_read_view(false));
    lemma_tagged_scan(
        FileType::Parquet,
        files,
        parquet_read_view(shape.parsed_stats_schema, None),
    );
}

/// With a hint, a manifest is read whole: all sidecars that the hint lists, as Parquet, at the
/// version of the checkpoint, in their order, into adds with the parsed statistics that were found
/// to be there, and versions.
pub proof fn law_every_hint_sidecar_is_read(engine: Engine, scan: ScanView, shape: ShapeView)
    requires
        shape.checkpoint_type == CheckpointType::Manifest,
        scan.segment.checkpoint_parts.len() > 0,
        scan.segment.checkpoint_sidecars is Some,
        checkpoint_actions(scan, shape) is Ok,
    ensures
        ({
            let schema = checkpoint_actions(scan, shape)->Ok_0.schema;
            &&& exists|files: Seq<ScanFileView>|
                {
                    &&& #[trigger] are_sidecar_files(
                        files,
                        scan.segment.checkpoint_sidecars->0,
                        scan.segment.log_root,
                        scan.segment.checkpoint_parts[0].version,
                    )
                    &&& checkpoint_log(engine, scan, shape) == scan_rows(
                        engine,
                        FileType::Parquet,
                        files,
                        seq!["version"@],
                        schema,
                    )
                    &&& files.len() > 0 ==> checkpoint_actions(scan, shape)->Ok_0.plan == Some(
                        PlanView::Scan {
                            file_type: FileType::Parquet,
                            files,
                            constants: seq!["version"@],
                            schema,
                        },
                    )
                }
            &&& schema.len() == 2
            &&& is_add_column(schema[0], shape.parsed_stats_schema, None)
            &&& is_version_column(schema[1])
        }),
{
    law_every_hint_sidecar_is_tagged(scan.segment);
    let files = scan.segment.tagged_hint_sidecars()->Ok_0->0;
    lemma_tagged_sidecars(
        scan.segment.checkpoint_sidecars->0,
        scan.segment.log_root,
        scan.segment.checkpoint_parts[0].version,
    );
    lemma_readable();
    law_read_schemas(shape.parsed_stats_schema, None);
    lemma_tagged_scan(
        FileType::Parquet,
        files,
        parquet_read_view(shape.parsed_stats_schema, None),
    );
}

/// Without a hint, what a manifest names is looked for in all of its parts, in the encoding of the
/// first, each at its own version; and the sidecars are read into adds with the parsed statistics
/// that were found to be there, and versions.
pub proof fn law_every_manifest_part_is_read(scan: ScanView, shape: ShapeView)
    requires
        shape.checkpoint_type == CheckpointType::Manifest,
        scan.segment.checkpoint_parts.len() > 0,
        scan.segment.checkpoint_sidecars is None,
        forall|i: int|
            0 <= i < scan.segment.checkpoint_parts.len() ==> (
            #[trigger] scan.segment.checkpoint_parts[i]).version <= i64::MAX,
    ensures
        ({
            let schema = parquet_read_view(shape.parsed_stats_schema, None);
            &&& checkpoint_actions(scan, shape) == manifest_relation(
                if scan.segment.checkpoint_parts[0].extension == "json"@ {
                    FileType::Json
                } else {
                    FileType::Parquet
                },
                at_their_versions(scan.segment.checkpoint_parts),
                schema,
                scan.segment.log_root,
            )
            &&& schema.len() == 2
            &&& is_add_column(schema[0], shape.parsed_stats_schema, None)
            &&& is_version_column(schema[1])
        }),
{
    let parts = scan.segment.checkpoint_parts;
    let schema = parquet_read_view(shape.parsed_stats_schema, None);
    assert(tag_with_versions(parts)->Ok_0 =~= at_their_versions(parts));
    law_read_schemas(shape.parsed_stats_schema, None);
    assert(checkpoint_actions(scan, shape) == manifest_relation(
        parts[0].file_type(),
        at_their_versions(parts),
        schema,
        scan.segment.log_root,
    ));
}

/// Without a checkpoint there are no checkpoint rows.
pub proof fn law_no_checkpoint_no_rows(engine: Engine, scan: ScanView, shape: ShapeView)
    requires
        scan.segment.checkpoint_parts.len() == 0 || shape.checkpoint_type == CheckpointType::Absent,
        checkpoint_actions(scan, shape) is Ok,
    ensures
        checkpoint_log(engine, scan, shape).len() == 0,
{
    lemma_readable();
}

} // verus!
