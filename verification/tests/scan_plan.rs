//! The schemas, projections and arms of metadata scan plans.

use std::sync::Arc;

use metadata_scan::actions::{add_schema, remove_field, Sidecar};
use metadata_scan::checkpoint_shape::{CheckpointShape, CheckpointType};
use metadata_scan::error::Error;
use metadata_scan::expressions::{ColumnName, Expr, Predicate, Scalar};
use metadata_scan::files::{FileMeta, FileType, ScanFile};
use metadata_scan::location::join_location;
use metadata_scan::log_segment::{ListedLogFiles, LogPath, LogSegment, Snapshot};
use metadata_scan::plan::Plan;
use metadata_scan::scan_plan::{
    extracted_add_field, extracted_add_schema, file_action_key_expr, file_action_key_field,
    json_read_schema, parquet_read_schema, project_nested_struct_to_schema, sidecar_actions,
    PartitionValuesOptions, Scan, StatsOptions,
};
use metadata_scan::schema::{DataType, PrimitiveType, SchemaRef, StructField, StructType};
use metadata_scan::skipping::{PhysicalPredicate, StateInfo};
use metadata_scan::stats_rules::StatsRules;

const LOG: &str = "file:///table/_delta_log/";

struct NoRules;

impl StatsRules for NoRules {
    fn schema_has_compatible_stats_parsed(_file: &StructType, _stats: &StructType) -> bool {
        false
    }

    fn as_sql_data_skipping_predicate_with_stats_columns(
        _predicate: &Predicate,
        _partition_columns: &Vec<String>,
        _stats_columns: &Vec<ColumnName>,
    ) -> Option<Predicate> {
        None
    }
}

fn long() -> DataType {
    DataType::Primitive(PrimitiveType::Long)
}

fn text() -> DataType {
    DataType::Primitive(PrimitiveType::Text)
}

fn stats_schema() -> SchemaRef {
    Arc::new(StructType::new_unchecked(vec![
        StructField::nullable("numRecords", long()),
        StructField::nullable(
            "minValues",
            DataType::struct_of(vec![StructField::nullable("x", long())]),
        ),
    ]))
}

fn partition_schema() -> SchemaRef {
    Arc::new(StructType::new_unchecked(vec![StructField::nullable("p", text())]))
}

fn log_file(name: &str, extension: &str, version: u64) -> LogPath {
    LogPath {
        location: FileMeta { location: format!("{LOG}{name}"), last_modified: 0, size: 10 },
        extension: extension.to_string(),
        version,
    }
}

fn scan(checkpoint: Vec<LogPath>, commits: Vec<LogPath>) -> Scan {
    Scan {
        snapshot: Snapshot {
            log_segment: LogSegment {
                log_root: LOG.to_string(),
                listed: ListedLogFiles { checkpoint_parts: checkpoint, commit_cover: commits },
                checkpoint_schema: None,
                checkpoint_sidecars: None,
            },
        },
        state_info: StateInfo {
            physical_predicate: PhysicalPredicate::Absent,
            physical_stats_schema: None,
            physical_partition_schema: None,
            physical_stats_columns: Vec::new(),
        },
        stats: StatsOptions { synthesize_json: true },
        physical_stats_output_schema: None,
        partition_values: PartitionValuesOptions { parsed_struct: false },
    }
}

fn shape(checkpoint_type: CheckpointType) -> CheckpointShape {
    CheckpointShape { checkpoint_type, parsed_stats_schema: None }
}

fn names(schema: &StructType) -> Vec<String> {
    schema.fields().iter().map(|field| field.name().to_string()).collect()
}

fn children(field: &StructField) -> &StructType {
    match field.data_type() {
        DataType::Struct(schema) => schema,
        other => panic!("{other:?} is no struct"),
    }
}

fn base_names() -> Vec<String> {
    names(&add_schema())
}

#[test]
fn extracted_add_children_are_nullable() {
    assert!(
        extracted_add_schema().fields().iter().all(StructField::is_nullable),
        "children extracted from the nullable add action must be nullable"
    );
}

#[test]
fn file_action_key_children_are_nullable() {
    let field = file_action_key_field();
    let DataType::Struct(key) = field.data_type() else {
        panic!("file action key must be a struct")
    };
    assert!(key.field("path").unwrap().is_nullable());

    let DataType::Struct(deletion_vector) = key.field("deletionVector").unwrap().data_type()
    else {
        panic!("file action key deletion vector must be a struct")
    };
    assert!(deletion_vector.fields().iter().all(StructField::is_nullable));
}

#[test]
fn extracted_add_keeps_names_and_types() {
    let extracted = extracted_add_schema();
    let whole = add_schema();
    assert_eq!(names(&extracted), names(&whole));
    for (a, b) in extracted.fields().iter().zip(whole.fields()) {
        assert_eq!(a.data_type(), b.data_type());
    }
    let DataType::Struct(dv) = extracted.field("deletionVector").unwrap().data_type() else {
        panic!("deletion vectors are structs")
    };
    assert!(!dv.field("storageType").unwrap().is_nullable());
    assert!(extracted_add_field().is_nullable());
}

#[test]
fn json_is_read_with_removes_for_commits_only() {
    assert_eq!(names(&json_read_schema(true)), vec!["add", "remove", "version"]);
    assert_eq!(names(&json_read_schema(false)), vec!["add", "version"]);
    assert_eq!(json_read_schema(true).fields()[1], remove_field());
}

#[test]
fn parquet_is_read_with_the_parsed_columns_asked_for() {
    let stats = stats_schema();
    let partitions = partition_schema();
    let plain = parquet_read_schema(None, None).unwrap();
    assert_eq!(names(&plain), vec!["add", "version"]);
    assert_eq!(names(children(&plain.fields()[0])), base_names());
    let both = parquet_read_schema(Some(&stats), Some(&partitions)).unwrap();
    let mut expected = base_names();
    expected.push("stats_parsed".to_string());
    expected.push("partitionValues_parsed".to_string());
    assert_eq!(names(children(&both.fields()[0])), expected);
}

#[test]
fn file_key_is_made_of_path_and_deletion_vector() {
    let key = file_action_key_expr(Expr::Column);
    let storage = Expr::column(&["deletionVector", "storageType"]);
    let expected = Expr::Struct(
        vec![
            Expr::column(&["path"]),
            Expr::Struct(
                vec![
                    storage.copy(),
                    Expr::column(&["deletionVector", "pathOrInlineDv"]),
                    Expr::column(&["deletionVector", "offset"]),
                ],
                Some(Box::new(Expr::Predicate(Box::new(storage.is_not_null())))),
            ),
        ],
        None,
    );
    assert_eq!(key, expected);
}

#[test]
fn file_key_asks_for_four_columns() {
    let asked = std::cell::RefCell::new(Vec::new());
    let key = file_action_key_expr(|column| {
        asked.borrow_mut().push(column.path().join("."));
        Expr::Column(column)
    });
    assert!(matches!(key, Expr::Struct(parts, None) if parts.len() == 2));
    let mut columns = asked.into_inner();
    columns.sort();
    assert_eq!(
        columns,
        vec![
            "deletionVector.offset",
            "deletionVector.pathOrInlineDv",
            "deletionVector.storageType",
            "path",
        ]
    );
}

#[test]
fn narrowed_struct_holds_the_requested_fields() {
    let root = ColumnName::new(&["add", "stats_parsed"]);
    let expr = project_nested_struct_to_schema(&root, &stats_schema());
    let present = |path: &[&str]| {
        Some(Box::new(Expr::Predicate(Box::new(Expr::column(path).is_not_null()))))
    };
    let expected = Expr::Struct(
        vec![
            Expr::column(&["add", "stats_parsed", "numRecords"]),
            Expr::Struct(
                vec![Expr::column(&["add", "stats_parsed", "minValues", "x"])],
                present(&["add", "stats_parsed", "minValues"]),
            ),
        ],
        present(&["add", "stats_parsed"]),
    );
    assert_eq!(expr, expected);
}

#[test]
fn normalized_add_has_the_parsed_columns_of_the_scan() {
    let mut table = scan(Vec::new(), Vec::new());
    assert_eq!(names(children(&table.normalized_add_field().unwrap())), base_names());
    table.state_info.physical_partition_schema = Some(partition_schema());
    table.state_info.physical_stats_schema = Some(stats_schema());
    let mut expected = base_names();
    expected.push("stats_parsed".to_string());
    expected.push("partitionValues_parsed".to_string());
    assert_eq!(names(children(&table.normalized_add_field().unwrap())), expected);
}

fn output_names(table: &Scan) -> Vec<String> {
    let add = table.normalized_add_field().unwrap();
    let (_, schema) = table.metadata_output_projection(&add).unwrap();
    assert_eq!(names(&schema), vec!["add"]);
    names(children(&schema.fields()[0]))
}

#[test]
fn output_holds_what_is_requested() {
    let mut table = scan(Vec::new(), Vec::new());
    table.state_info.physical_stats_schema = Some(stats_schema());
    table.state_info.physical_partition_schema = Some(partition_schema());

    // JSON statistics only.
    assert_eq!(output_names(&table), base_names());

    // Neither.
    table.stats.synthesize_json = false;
    let without: Vec<String> = base_names().into_iter().filter(|n| n != "stats").collect();
    assert_eq!(output_names(&table), without);

    // Parsed statistics only.
    table.physical_stats_output_schema = Some(stats_schema());
    let mut parsed = without.to_vec();
    parsed.push("stats_parsed".to_string());
    assert_eq!(output_names(&table), parsed);

    // Partition values are chosen on their own.
    table.partition_values.parsed_struct = true;
    parsed.push("partitionValues_parsed".to_string());
    assert_eq!(output_names(&table), parsed);

    // Both representations of the statistics.
    table.stats.synthesize_json = true;
    let mut both = base_names();
    both.push("stats_parsed".to_string());
    both.push("partitionValues_parsed".to_string());
    assert_eq!(output_names(&table), both);

    // An unpartitioned table has no partition values to return.
    table.state_info.physical_partition_schema = None;
    both.pop();
    assert_eq!(output_names(&table), both);
}

#[test]
fn output_of_missing_columns_is_an_error() {
    let mut table = scan(Vec::new(), Vec::new());
    let bare = StructField::nullable(
        "add",
        DataType::struct_of(vec![StructField::nullable("path", text())]),
    );
    let json = table.metadata_output_projection(&bare);
    let Err(Error::InternalError(message)) = json else { panic!("add.stats is missing") };
    assert_eq!(
        message,
        "JSON stats were requested, but add.stats is missing from the metadata schema"
    );

    table.stats.synthesize_json = false;
    table.partition_values.parsed_struct = true;
    table.state_info.physical_partition_schema = Some(partition_schema());
    let partitions = table.metadata_output_projection(&bare);
    let Err(Error::InternalError(message)) = partitions else {
        panic!("add.partitionValues_parsed is missing")
    };
    assert_eq!(
        message,
        "parsed partition values were requested, but add.partitionValues_parsed is missing"
    );

    table.partition_values.parsed_struct = false;
    table.physical_stats_output_schema = Some(stats_schema());
    let stats = table.metadata_output_projection(&bare);
    assert!(matches!(stats, Err(Error::UnknownColumn)));
}

#[test]
fn output_without_the_columns_to_drop_is_what_is_there() {
    let mut table = scan(Vec::new(), Vec::new());
    table.stats.synthesize_json = false;
    let bare = StructField::nullable(
        "add",
        DataType::struct_of(vec![StructField::nullable("path", text())]),
    );
    let (expr, schema) = table.metadata_output_projection(&bare).unwrap();
    assert_eq!(names(children(&schema.fields()[0])), vec!["path"]);
    let present = Expr::Predicate(Box::new(Expr::column(&["add"]).is_not_null()));
    assert_eq!(
        *expr,
        Expr::Struct(
            vec![Expr::Struct(vec![Expr::column(&["add", "path"])], Some(Box::new(present)))],
            None,
        )
    );
}

#[test]
fn commit_arm_reads_each_commit_at_its_version() {
    let commits = vec![log_file("1.json", "json", 1), log_file("2.json", "json", 2)];
    let arm = scan(Vec::new(), commits).commit_arm().unwrap();
    assert_eq!(
        names(&arm.schema),
        vec!["add", "remove", "version", "is_add", "file_action_key"]
    );
    let plan = arm.build().unwrap();
    let Plan::Project { input, .. } = plan.as_ref() else { panic!("the arm is projected") };
    let Plan::Filter { input, .. } = input.as_ref() else { panic!("the arm is filtered") };
    let Plan::Scan { file_type, files, constants, schema } = input.as_ref() else {
        panic!("the arm scans files")
    };
    assert_eq!(*file_type, FileType::Json);
    assert_eq!(constants, &vec!["version".to_string()]);
    assert_eq!(schema, &json_read_schema(true));
    assert_eq!(files.len(), 2);
    assert_eq!(files[1].meta.location, "file:///table/_delta_log/2.json");
    assert_eq!(files[1].constants, vec![Scalar::Long(2)]);
}

#[test]
fn arms_share_the_adds_of_the_scan() {
    let checkpoint = vec![log_file("1.checkpoint.parquet", "parquet", 1)];
    let mut table = scan(checkpoint, vec![log_file("2.json", "json", 2)]);
    table.state_info.physical_stats_schema = Some(stats_schema());
    table.state_info.physical_partition_schema = Some(partition_schema());
    let normalized = table.normalized_add_field().unwrap();
    let commits = table.commit_arm().unwrap();
    let plain = table.checkpoint_arm(&shape(CheckpointType::Leaf)).unwrap();
    let parsed = table
        .checkpoint_arm(&CheckpointShape {
            checkpoint_type: CheckpointType::Leaf,
            parsed_stats_schema: Some(stats_schema()),
        })
        .unwrap();
    assert_eq!(commits.schema.fields()[0], normalized);
    assert_eq!(plain.schema.fields()[0], normalized);
    assert_eq!(parsed.schema.fields()[0], normalized);
    assert_eq!(names(&plain.schema), vec!["add", "version", "is_add", "file_action_key"]);
}

#[test]
fn parsed_stats_without_a_schema_are_left_out() {
    let own = |checkpoint_type| CheckpointShape {
        checkpoint_type,
        parsed_stats_schema: Some(stats_schema()),
    };
    let parquet = || vec![log_file("1.checkpoint.parquet", "parquet", 1)];
    let mut table = scan(parquet(), Vec::new());
    for kind in [CheckpointType::Leaf, CheckpointType::Manifest] {
        let arm = table.checkpoint_arm(&own(kind)).unwrap();
        assert_eq!(names(children(&arm.schema.fields()[0])), base_names());
        assert_eq!(arm.schema.fields()[0], table.normalized_add_field().unwrap());
    }
    // The file is read with them all the same.
    let plan = table.checkpoint_arm(&own(CheckpointType::Leaf)).unwrap().build().unwrap();
    let Plan::Project { input, .. } = plan.as_ref() else { panic!("the arm is projected") };
    let Plan::Filter { input, .. } = input.as_ref() else { panic!("the arm is filtered") };
    let Plan::Scan { schema, .. } = input.as_ref() else { panic!("the arm scans files") };
    assert_eq!(*schema, parquet_read_schema(Some(&stats_schema()), None).unwrap());

    table.state_info.physical_partition_schema = Some(partition_schema());
    let arm = table.checkpoint_arm(&own(CheckpointType::Leaf)).unwrap();
    let mut expected = base_names();
    expected.push("partitionValues_parsed".to_string());
    assert_eq!(names(children(&arm.schema.fields()[0])), expected);
}

#[test]
fn checkpoint_arm_is_empty_without_a_checkpoint() {
    let table = scan(Vec::new(), vec![log_file("2.json", "json", 2)]);
    for kind in [CheckpointType::Absent, CheckpointType::Leaf, CheckpointType::Manifest] {
        assert!(table.checkpoint_arm(&shape(kind)).unwrap().build_opt().is_none());
    }
    let listed = scan(vec![log_file("1.checkpoint.json", "json", 1)], Vec::new());
    assert!(listed.checkpoint_arm(&shape(CheckpointType::Absent)).unwrap().plan.is_none());
    assert!(listed.checkpoint_arm(&shape(CheckpointType::Leaf)).unwrap().plan.is_some());
}

#[test]
fn version_that_does_not_fit_is_an_error() {
    let huge = u64::MAX;
    let commits = scan(Vec::new(), vec![log_file("x.json", "json", huge)]);
    assert!(matches!(commits.commit_arm(), Err(Error::VersionOutOfRange)));
    let plan = commits.build_metadata_scan_plan::<NoRules>(&shape(CheckpointType::Absent));
    assert!(matches!(plan, Err(Error::VersionOutOfRange)));
    let checkpoint = scan(vec![log_file("x.parquet", "parquet", huge)], Vec::new());
    let leaf = shape(CheckpointType::Leaf);
    assert!(matches!(checkpoint.checkpoint_arm(&leaf), Err(Error::VersionOutOfRange)));
    let largest = scan(Vec::new(), vec![log_file("x.json", "json", i64::MAX as u64)]);
    assert!(largest.commit_arm().is_ok());
}

#[test]
fn sidecars_are_loaded_from_their_directory() {
    let meta = FileMeta { location: format!("{LOG}m.json"), last_modified: 0, size: 1 };
    let parts = vec![ScanFile::tagged(meta, 4)];
    let schema = parquet_read_schema(None, None).unwrap();
    let loaded = sidecar_actions(FileType::Json, parts, Arc::clone(&schema), LOG).unwrap();
    assert_eq!(loaded.schema, schema);
    let plan = loaded.build().unwrap();
    let Plan::Load { input, load } = plan.as_ref() else { panic!("sidecars are loaded") };
    assert_eq!(load.base_url, "file:///table/_delta_log/_sidecars/");
    assert_eq!(load.file_type, FileType::Parquet);
    assert_eq!(load.constants, vec!["version".to_string()]);
    let Plan::Project { schema, .. } = input.as_ref() else { panic!("files are named") };
    assert_eq!(names(schema), vec!["path", "size", "num_records", "dv", "version"]);
}

#[test]
fn manifest_is_scanned_before_its_directory_is_located() {
    let schema = || parquet_read_schema(None, None).unwrap();
    let part = || FileMeta { location: format!("{LOG}m.json"), last_modified: 0, size: 1 };
    let untagged = vec![ScanFile::plain(part())];
    let first = sidecar_actions(FileType::Json, untagged, schema(), "nowhere");
    assert!(matches!(first, Err(Error::ArityMismatch)));
    let tagged = vec![ScanFile::tagged(part(), 4)];
    let second = sidecar_actions(FileType::Parquet, tagged, schema(), "nowhere");
    assert!(matches!(second, Err(Error::InvalidUrl)));
}

#[test]
fn manifest_needs_a_location() {
    let mut table = scan(vec![log_file("1.checkpoint.json", "json", 1)], Vec::new());
    table.snapshot.log_segment.log_root = "nowhere".to_string();
    let manifest = shape(CheckpointType::Manifest);
    assert!(matches!(table.checkpoint_arm(&manifest), Err(Error::InvalidUrl)));
    let negative =
        Sidecar { path: "a.parquet".to_string(), size_in_bytes: -1, modification_time: 0 };
    table.snapshot.log_segment.log_root = LOG.to_string();
    table.snapshot.log_segment.checkpoint_sidecars = Some(vec![negative]);
    assert!(matches!(table.checkpoint_arm(&manifest), Err(Error::NegativeFileSize)));
}

#[test]
fn stats_that_are_not_parsed_cannot_be_returned() {
    let mut table = scan(Vec::new(), vec![log_file("2.json", "json", 2)]);
    table.physical_stats_output_schema = Some(stats_schema());
    let plan = table.build_metadata_scan_plan::<NoRules>(&shape(CheckpointType::Absent));
    assert!(matches!(plan, Err(Error::UnknownColumn)));
}

#[test]
fn empty_log_needs_no_plan() {
    let plan = scan(Vec::new(), Vec::new())
        .build_metadata_scan_plan::<NoRules>(&shape(CheckpointType::Absent));
    assert!(matches!(plan, Ok(None)));
}

#[test]
fn predicate_that_is_never_true_needs_no_plan() {
    let mut table = scan(Vec::new(), vec![log_file("2.json", "json", u64::MAX)]);
    table.state_info.physical_predicate = PhysicalPredicate::StaticSkipAll;
    let plan = table.build_metadata_scan_plan::<NoRules>(&shape(CheckpointType::Absent));
    assert!(matches!(plan, Ok(None)));
}

#[test]
fn references_are_resolved_against_a_base() {
    assert_eq!(join_location("https://h/a/b/", "c").unwrap(), "https://h/a/b/c");
    assert_eq!(join_location("https://h/a/b", "../c").unwrap(), "https://h/c");
    assert!(matches!(join_location("a/b", "c"), Err(Error::InvalidUrl)));
}
