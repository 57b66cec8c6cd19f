//! The sidecars of a manifest: listed by a hint or named by the manifest, they are read alike.

use vstd::prelude::*;

use crate::actions::{sidecar_view, SidecarView, SIDECAR_DIRECTORY, SIDECAR_NAME};
use crate::arm_laws::{
    checkpoint_error, checkpoint_log, lemma_tagged_files, lemma_tagged_scan, lemma_tagged_sidecars,
};
use crate::checkpoint_shape::{CheckpointType, ShapeView};
use crate::error::Error;
use crate::files::{FileType, ScanFileView};
use crate::location::url_join;
use crate::log_segment::{tag_sidecars, LogSegmentView};
use crate::plan::{PlanView, RelationView};
use crate::scan_plan::{
    manifest_relation, named_sidecars, parquet_read_view, sidecar_col, sidecar_file_expr,
    sidecar_file_meta_view, sidecar_load, sidecar_read_view, ScanView, VERSION,
};
use crate::schema::{
    boolean_type, distinct_names, has_field, lemma_has_field, DataTypeView, SchemaView,
};
use crate::semantics::{
    child_type, empty_engine, eval_expr, eval_exprs, file_rows, holds, is_sound, lemma_filter,
    lemma_is_not_null, lemma_load, lemma_lookup, lemma_lookup_child, lemma_project,
    loaded_file_rows, loaded_rows, lookup, member, project_row, rows_of, scalar_value, scan_rows,
    Engine, Row, Value,
};
use crate::sequences::lemma_filter_same;

verus! {

/// The rows of a manifest that name a sidecar.
pub open spec fn sidecar_rows(
    engine: Engine,
    file_type: FileType,
    parts: Seq<ScanFileView>,
) -> Seq<Row> {
    scan_rows(engine, file_type, parts, seq![VERSION@], sidecar_read_view()).filter(
        |row: Row| member(row[0], 0) != Value::Null,
    )
}

/// Whether rows of a manifest name the given sidecars in their order, at the given version.
pub open spec fn names_sidecars(
    rows: Seq<Row>,
    sidecars: Seq<SidecarView>,
    version: int,
) -> bool {
    &&& rows.len() == sidecars.len()
    &&& forall|i: int|
        0 <= i < rows.len() ==> {
            let row = #[trigger] rows[i];
            &&& row.len() == 2
            &&& member(row[0], 0) == Value::Text(sidecars[i].path)
            &&& row[1] == Value::Int(version)
        }
}

/// The file to load that a row of a manifest names.
pub open spec fn named_file(row: Row) -> Row {
    seq![member(row[0], 0), member(row[0], 1), Value::Null, Value::Null, row[1]]
}

/// The names of the columns that sidecars are read and loaded by differ.
proof fn lemma_sidecar_names()
    ensures
        distinct_names(sidecar_read_view()),
        distinct_names(sidecar_view()),
        distinct_names(sidecar_file_meta_view()),
{
    reveal_strlit("sidecar");
    reveal_strlit("version");
    reveal_strlit("path");
    reveal_strlit("sizeInBytes");
    reveal_strlit("modificationTime");
    reveal_strlit("tags");
    reveal_strlit("size");
    reveal_strlit("num_records");
    reveal_strlit("dv");
    assert(SIDECAR_NAME@[0] != VERSION@[0]);
    let a = sidecar_view();
    assert("path"@[0] != "tags"@[0] && "path"@[0] != "size"@[0]);
    assert forall|i: int, j: int| 0 <= i < j < a.len() implies (#[trigger] a[i]).name != (
    #[trigger] a[j]).name by {
        assert(a[i].name.len() != a[j].name.len() || a[i].name[0] != a[j].name[0]);
    }
    let b = sidecar_file_meta_view();
    assert forall|i: int, j: int| 0 <= i < j < b.len() implies (#[trigger] b[i]).name != (
    #[trigger] b[j]).name by {
        assert(b[i].name.len() != b[j].name.len() || b[i].name[0] != b[j].name[0]);
    }
}

/// The file to load that the plan computes from a row of a manifest.
proof fn lemma_named_file(engine: Engine, row: Row)
    ensures
        project_row(
            engine,
            sidecar_file_expr(),
            sidecar_read_view(),
            row,
            sidecar_file_meta_view(),
        ) == named_file(row),
        holds(engine, sidecar_col("path"@).is_not_null(), sidecar_read_view(), row) <==> member(
            row[0],
            0,
        ) != Value::Null,
{
    let schema = sidecar_read_view();
    let children = sidecar_view();
    let target = DataTypeView::Struct(sidecar_file_meta_view());
    lemma_sidecar_names();
    lemma_lookup(schema, row, 1);
    lemma_lookup_child(schema, row, 0, children, 0);
    lemma_lookup_child(schema, row, 0, children, 1);
    lemma_is_not_null(engine, sidecar_col("path"@), schema, row, boolean_type());
    let es = sidecar_file_expr()->Struct_0;
    let got = eval_exprs(engine, es, schema, row, target);
    assert(got.len() == 5);
    assert(got[0] == eval_expr(engine, es[0], schema, row, child_type(target, 0)));
    assert(got[1] == eval_expr(engine, es[1], schema, row, child_type(target, 1)));
    assert(got[2] == eval_expr(engine, es[2], schema, row, child_type(target, 2)));
    assert(got[3] == eval_expr(engine, es[3], schema, row, child_type(target, 3)));
    assert(got[4] == eval_expr(engine, es[4], schema, row, child_type(target, 4)));
    assert(got =~= named_file(row));
}

/// Whether a file to load is the one that a row of a manifest names: its path, its size and its
/// version are those of the row, nothing is known of its records, and none of them are deleted.
pub open spec fn is_named_by(file: Row, row: Row) -> bool {
    let meta = sidecar_file_meta_view();
    let read = sidecar_read_view();
    &&& lookup(meta, file, seq!["path"@]) == lookup(read, row, seq!["sidecar"@, "path"@])
    &&& lookup(meta, file, seq!["size"@]) == lookup(read, row, seq!["sidecar"@, "sizeInBytes"@])
    &&& lookup(meta, file, seq!["num_records"@]) == Value::Null
    &&& lookup(meta, file, seq!["dv"@]) == Value::Null
    &&& lookup(meta, file, seq!["version"@]) == lookup(read, row, seq!["version"@])
}

/// What a row of a manifest holds at the names of its columns.
proof fn lemma_manifest_columns(row: Row)
    ensures
        lookup(sidecar_read_view(), row, seq!["sidecar"@, "path"@]) == member(row[0], 0),
        lookup(sidecar_read_view(), row, seq!["sidecar"@, "sizeInBytes"@]) == member(row[0], 1),
        lookup(sidecar_read_view(), row, seq!["version"@]) == row[1],
        is_named_by(named_file(row), row),
{
    let read = sidecar_read_view();
    let meta = sidecar_file_meta_view();
    let file = named_file(row);
    lemma_sidecar_names();
    lemma_lookup_child(read, row, 0, sidecar_view(), 0);
    lemma_lookup_child(read, row, 0, sidecar_view(), 1);
    lemma_lookup(read, row, 1);
    lemma_lookup(meta, file, 0);
    lemma_lookup(meta, file, 1);
    lemma_lookup(meta, file, 2);
    lemma_lookup(meta, file, 3);
    lemma_lookup(meta, file, 4);
}

/// Each row of a manifest that has the path of a sidecar names one file to load, in the order of
/// the rows; no other row names one.
pub proof fn law_every_sidecar_is_named(
    engine: Engine,
    file_type: FileType,
    parts: Seq<ScanFileView>,
)
    requires
        forall|i: int| 0 <= i < parts.len() ==> (#[trigger] parts[i]).constants.len() == 1,
    ensures
        named_sidecars(file_type, parts) is Ok,
        ({
            let naming = scan_rows(
                engine,
                file_type,
                parts,
                seq!["version"@],
                sidecar_read_view(),
            ).filter(
                |row: Row|
                    lookup(sidecar_read_view(), row, seq!["sidecar"@, "path"@]) != Value::Null,
            );
            let files = named_sidecars(file_type, parts)->Ok_0;
            &&& files.schema == sidecar_file_meta_view()
            &&& rows_of(engine, files).len() == naming.len()
            &&& forall|i: int|
                0 <= i < naming.len() ==> is_named_by(
                    #[trigger] rows_of(engine, files)[i],
                    naming[i],
                )
        }),
{
    let read = sidecar_read_view();
    let meta = sidecar_file_meta_view();
    lemma_tagged_scan(file_type, parts, read);
    let manifest = RelationView::scan(file_type, parts, seq![VERSION@], read)->Ok_0;
    let pred = sidecar_col("path"@).is_not_null();
    let all = scan_rows(engine, file_type, parts, seq![VERSION@], read);
    let by_plan = |row: Row| holds(engine, pred, read, row);
    let by_name = |row: Row| lookup(read, row, seq!["sidecar"@, "path"@]) != Value::Null;
    lemma_filter(engine, manifest, pred);
    assert forall|i: int| 0 <= i < all.len() implies by_plan(#[trigger] all[i]) == by_name(
        all[i],
    ) by {
        lemma_named_file(engine, all[i]);
        lemma_manifest_columns(all[i]);
    }
    lemma_filter_same(all, by_plan, by_name);
    let naming = all.filter(by_name);
    lemma_project(engine, manifest.filter(pred), sidecar_file_expr(), meta);
    let files = named_sidecars(file_type, parts)->Ok_0;
    assert forall|i: int| 0 <= i < naming.len() implies is_named_by(
        #[trigger] rows_of(engine, files)[i],
        naming[i],
    ) by {
        lemma_named_file(engine, naming[i]);
        lemma_manifest_columns(naming[i]);
    }
}

/// A load of sidecars takes path, size, records and deletion vector of a file from where they are:
/// the size is the size in bytes of the sidecar, the number of records is not known, and nothing
/// is deleted. The files are Parquet files of the given schema, below the given directory, at the
/// version of the manifest's row.
pub proof fn law_load_columns(schema: SchemaView, directory: Seq<char>, row: Row)
    ensures
        ({
            let load = sidecar_load(schema, directory);
            let meta = sidecar_file_meta_view();
            let read = sidecar_read_view();
            let file = named_file(row);
            &&& load.schema == schema
            &&& load.base_url == directory
            &&& load.file_type == FileType::Parquet
            &&& load.constants == seq!["version"@]
            &&& load.path == seq!["path"@]
            &&& load.size == seq!["size"@]
            &&& load.num_records == seq!["num_records"@]
            &&& load.deletion_vector == seq!["dv"@]
            &&& lookup(meta, file, load.path) == lookup(read, row, seq!["sidecar"@, "path"@])
            &&& lookup(meta, file, load.size) == lookup(
                read,
                row,
                seq!["sidecar"@, "sizeInBytes"@],
            )
            &&& lookup(meta, file, load.num_records) == Value::Null
            &&& lookup(meta, file, load.deletion_vector) == Value::Null
            &&& lookup(meta, file, load.constants) == lookup(read, row, seq!["version"@])
        }),
{
    lemma_manifest_columns(row);
}

/// The sidecars that a manifest names are loaded from the directory `_sidecars/` of the log: what a
/// plan does for a manifest is one load, of the files that the manifest names, and nothing else.
pub proof fn law_manifest_is_loaded(
    file_type: FileType,
    parts: Seq<ScanFileView>,
    schema: SchemaView,
    log_root: Seq<char>,
)
    requires
        forall|i: int| 0 <= i < parts.len() ==> (#[trigger] parts[i]).constants.len() == 1,
        has_field(schema, "version"@),
        parts.len() > 0,
    ensures
        manifest_relation(file_type, parts, schema, log_root) matches Ok(actions) ==> {
            &&& url_join(log_root, "_sidecars/"@) is Some
            &&& actions.plan matches Some(plan)
            &&& plan == (PlanView::Load {
                input: Box::new(named_sidecars(file_type, parts)->Ok_0.plan->0),
                load: sidecar_load(schema, url_join(log_root, "_sidecars/"@)->0),
            })
        },
        manifest_relation(file_type, parts, schema, log_root) matches Err(e) ==> {
            &&& e == Error::InvalidUrl
            &&& url_join(log_root, "_sidecars/"@) is None
        },
{
    law_manifest_rows(empty_engine(), file_type, parts, schema, log_root);
}

/// The actions of a manifest are those of the files that it names. Each row with the path of a
/// sidecar names one file, to be found below the sidecar directory of the log, and its actions are
/// at the version of the row. They can be read exactly if that directory has a location.
pub proof fn law_manifest_rows(
    engine: Engine,
    file_type: FileType,
    parts: Seq<ScanFileView>,
    schema: SchemaView,
    log_root: Seq<char>,
)
    requires
        forall|i: int| 0 <= i < parts.len() ==> (#[trigger] parts[i]).constants.len() == 1,
        has_field(schema, VERSION@),
    ensures
        match (
            manifest_relation(file_type, parts, schema, log_root),
            url_join(log_root, SIDECAR_DIRECTORY@),
        ) {
            (Ok(actions), Some(directory)) => {
                &&& actions.wf()
                &&& actions.schema == schema
                &&& actions.plan is None <==> parts.len() == 0
                &&& rows_of(engine, actions) == loaded_rows(
                    engine,
                    sidecar_load(schema, directory),
                    sidecar_file_meta_view(),
                    sidecar_rows(engine, file_type, parts).map_values(
                        |row: Row| named_file(row),
                    ),
                )
            },
            (Err(e), None) => e == Error::InvalidUrl,
            _ => false,
        },
{
    let read = sidecar_read_view();
    let meta = sidecar_file_meta_view();
    lemma_tagged_scan(file_type, parts, read);
    let manifest = RelationView::scan(file_type, parts, seq![VERSION@], read)->Ok_0;
    let pred = sidecar_col("path"@).is_not_null();
    let all = scan_rows(engine, file_type, parts, seq![VERSION@], read);
    let by_plan = |row: Row| holds(engine, pred, read, row);
    let by_path = |row: Row| member(row[0], 0) != Value::Null;
    lemma_filter(engine, manifest, pred);
    assert forall|i: int| 0 <= i < all.len() implies by_plan(#[trigger] all[i]) == by_path(
        all[i],
    ) by {
        lemma_named_file(engine, all[i]);
    }
    lemma_filter_same(all, by_plan, by_path);
    let rows = all.filter(by_path);
    lemma_project(engine, manifest.filter(pred), sidecar_file_expr(), meta);
    let files = manifest.filter(pred).project(sidecar_file_expr(), meta)->Ok_0;
    let got = rows.map_values(
        |row: Row| project_row(engine, sidecar_file_expr(), read, row, meta),
    );
    let expected = rows.map_values(|row: Row| named_file(row));
    assert forall|i: int| 0 <= i < got.len() implies got[i] == expected[i] by {
        lemma_named_file(engine, rows[i]);
    }
    assert(got =~= expected);
    if let Some(directory) = url_join(log_root, SIDECAR_DIRECTORY@) {
        let load = sidecar_load(schema, directory);
        lemma_sidecar_names();
        lemma_lookup(meta, arbitrary(), 0);
        lemma_lookup(meta, arbitrary(), 1);
        lemma_lookup(meta, arbitrary(), 2);
        lemma_lookup(meta, arbitrary(), 3);
        lemma_has_field(meta, VERSION@, 4);
        assert(files.load(load) is Ok);
        lemma_load(engine, files, load);
    }
}

/// Loading the named files reads what scanning the tagged sidecars reads.
proof fn lemma_load_is_scan(
    engine: Engine,
    schema: SchemaView,
    rows: Seq<Row>,
    sidecars: Seq<SidecarView>,
    log_root: Seq<char>,
    version: int,
)
    requires
        names_sidecars(rows, sidecars, version),
        url_join(log_root, SIDECAR_DIRECTORY@) is Some,
        tag_sidecars(sidecars, log_root, version) is Ok,
    ensures
        loaded_rows(
            engine,
            sidecar_load(schema, url_join(log_root, SIDECAR_DIRECTORY@)->0),
            sidecar_file_meta_view(),
            rows.map_values(|row: Row| named_file(row)),
        ) == scan_rows(
            engine,
            FileType::Parquet,
            tag_sidecars(sidecars, log_root, version)->Ok_0,
            seq![VERSION@],
            schema,
        ),
    decreases rows.len(),
{
    let directory = url_join(log_root, SIDECAR_DIRECTORY@)->0;
    let load = sidecar_load(schema, directory);
    let meta = sidecar_file_meta_view();
    let name = |row: Row| named_file(row);
    let files = tag_sidecars(sidecars, log_root, version)->Ok_0;
    if rows.len() == 0 {
        assert(rows.map_values(name) =~= seq![]);
    } else {
        let before = rows.drop_last();
        let old_sidecars = sidecars.drop_last();
        lemma_load_is_scan(engine, schema, before, old_sidecars, log_root, version);
        let named = rows.map_values(name);
        assert(named.drop_last() =~= before.map_values(name));
        assert(files.drop_last() =~= tag_sidecars(old_sidecars, log_root, version)->Ok_0);
        let row = rows[rows.len() - 1];
        let sidecar = sidecars[rows.len() - 1];
        let file = files.last();
        let loaded = named_file(row);
        assert(named.last() == loaded);
        lemma_sidecar_names();
        lemma_lookup(meta, loaded, 0);
        lemma_lookup(meta, loaded, 3);
        lemma_lookup(meta, loaded, 4);
        let values = Seq::new(
            load.constants.len(),
            |i: int| lookup(meta, loaded, seq![load.constants[i]]),
        );
        let constants = Seq::new(file.constants.len(), |i: int| scalar_value(file.constants[i]));
        assert(values =~= constants);
        assert(loaded_file_rows(engine, load, meta, loaded) =~= file_rows(
            engine,
            FileType::Parquet,
            file,
            seq![VERSION@],
            schema,
        ));
    }
}

/// If a manifest names exactly the sidecars that the hint lists, in their order and at the version
/// of the checkpoint, the scan reads the same actions with the hint and without it.
pub proof fn law_hint_reads_what_the_manifest_names(
    engine: Engine,
    scan: ScanView,
    shape: ShapeView,
)
    requires
        is_sound(engine),
        shape.checkpoint_type == CheckpointType::Manifest,
        scan.segment.checkpoint_parts.len() > 0,
        scan.segment.checkpoint_sidecars is Some,
        checkpoint_error(scan, shape) is None,
        url_join(scan.segment.log_root, SIDECAR_DIRECTORY@) is Some,
        ({
            let (file_type, parts) = scan.segment.tagged_checkpoint()->Ok_0->0;
            names_sidecars(
                sidecar_rows(engine, file_type, parts),
                scan.segment.checkpoint_sidecars->0,
                scan.segment.checkpoint_parts[0].version,
            )
        }),
    ensures
        ({
            let without = ScanView {
                segment: LogSegmentView { checkpoint_sidecars: None, ..scan.segment },
                ..scan
            };
            checkpoint_log(engine, scan, shape) == checkpoint_log(engine, without, shape)
        }),
{
    let without = ScanView {
        segment: LogSegmentView { checkpoint_sidecars: None, ..scan.segment },
        ..scan
    };
    let (file_type, parts) = scan.segment.tagged_checkpoint()->Ok_0->0;
    let schema = parquet_read_view(shape.parsed_stats_schema, None);
    let directory = url_join(scan.segment.log_root, SIDECAR_DIRECTORY@)->0;
    let sidecars = scan.segment.checkpoint_sidecars->0;
    let version = scan.segment.checkpoint_parts[0].version;
    let files = tag_sidecars(sidecars, scan.segment.log_root, version)->Ok_0;

    // With the hint.
    lemma_tagged_sidecars(sidecars, scan.segment.log_root, version);
    lemma_tagged_scan(FileType::Parquet, files, schema);

    // Without it.
    lemma_tagged_files(scan.segment.checkpoint_parts);
    assert(has_field(schema, VERSION@)) by {
        lemma_has_field(schema, VERSION@, 1);
    }
    law_manifest_rows(engine, file_type, parts, schema, scan.segment.log_root);
    let rows = sidecar_rows(engine, file_type, parts);
    lemma_load_is_scan(engine, schema, rows, sidecars, scan.segment.log_root, version);
}

} // verus!
