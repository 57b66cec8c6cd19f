//! Resolving the shape of a checkpoint.

use std::cell::RefCell;
use std::rc::Rc;
use std::sync::Arc;

use metadata_scan::actions::Sidecar;
use metadata_scan::checkpoint_shape::{
    collect_single_sidecar, first_sidecar, CheckpointShape, CheckpointType,
};
use metadata_scan::error::Error;
use metadata_scan::executor::{
    Operation, ParquetFooter, PlanExecutor, Session, SidecarBatch, SidecarBatches,
};
use metadata_scan::expressions::{ColumnName, Predicate};
use metadata_scan::files::{FileMeta, FileType, ScanFile};
use metadata_scan::log_segment::{ListedLogFiles, LogPath, LogSegment, Snapshot};
use metadata_scan::plan::{Plan, PlanBuilder};
use metadata_scan::schema::{DataType, PrimitiveType, SchemaRef, StructField, StructType};
use metadata_scan::stats_rules::StatsRules;

const LOG: &str = "file:///table/_delta_log/";

/// Files are compatible if their first column is named like the first statistic.
struct FirstColumnRules;

impl StatsRules for FirstColumnRules {
    fn schema_has_compatible_stats_parsed(file: &StructType, stats: &StructType) -> bool {
        file.fields()[0].name() == stats.fields()[0].name()
    }

    fn as_sql_data_skipping_predicate_with_stats_columns(
        _predicate: &Predicate,
        _partition_columns: &Vec<String>,
        _stats_columns: &Vec<ColumnName>,
    ) -> Option<Predicate> {
        None
    }
}

type Batches = Vec<Result<SidecarBatch, Error>>;

/// Answers every footer request with one schema and every scan with the given batches.
struct Answers {
    footer: Option<SchemaRef>,
    batches: RefCell<Option<Batches>>,
    asked: Rc<RefCell<Vec<String>>>,
}

/// Hands out batches and notes each that is pulled.
struct Stream {
    batches: std::vec::IntoIter<Result<SidecarBatch, Error>>,
    asked: Rc<RefCell<Vec<String>>>,
}

impl SidecarBatches for Stream {
    fn next(&mut self) -> Option<Result<SidecarBatch, Error>> {
        self.asked.borrow_mut().push("batch".to_string());
        self.batches.next()
    }
}

impl Answers {
    fn new(footer: Option<SchemaRef>, batches: Option<Batches>) -> Answers {
        let asked = Rc::new(RefCell::new(Vec::new()));
        Answers { footer, batches: RefCell::new(batches), asked }
    }

    fn asked(&self) -> Vec<String> {
        self.asked.borrow().iter().map(|s| s.to_string()).collect()
    }
}

impl PlanExecutor for Answers {
    type Batches = Stream;

    fn read_parquet_footer(&self, file: FileMeta) -> Result<ParquetFooter, Error> {
        self.asked.borrow_mut().push(format!("footer {}", file.location));
        match &self.footer {
            Some(schema) => Ok(ParquetFooter { schema: Arc::clone(schema) }),
            None => Err(Error::Engine("no footer".to_string())),
        }
    }

    fn execute_op(&self, op: Operation) -> Result<Stream, Error> {
        let Operation::QueryPlan(plan) = op;
        let Plan::Scan { file_type, files, constants, schema } = plan.as_ref() else {
            panic!("only scans are expected")
        };
        assert!(constants.is_empty());
        assert_eq!(schema.fields().len(), 1);
        assert_eq!(schema.fields()[0].name(), "sidecar");
        let at = &files[0].meta.location;
        self.asked.borrow_mut().push(format!("scan {file_type:?} {at}"));
        match self.batches.borrow_mut().take() {
            Some(batches) => {
                Ok(Stream { batches: batches.into_iter(), asked: Rc::clone(&self.asked) })
            }
            None => Err(Error::Engine("no rows".to_string())),
        }
    }
}

fn schema_of(names: &[&str]) -> SchemaRef {
    let fields = names
        .iter()
        .map(|name| StructField::nullable(name, DataType::Primitive(PrimitiveType::Long)))
        .collect();
    Arc::new(StructType::new_unchecked(fields))
}

fn sidecar(path: &str) -> Sidecar {
    Sidecar { path: path.to_string(), size_in_bytes: 7, modification_time: 9 }
}

fn snapshot(
    extension: Option<&str>,
    known_schema: Option<SchemaRef>,
    hint: Option<Vec<Sidecar>>,
) -> Snapshot {
    let checkpoint_parts = extension
        .iter()
        .map(|extension| LogPath {
            location: FileMeta {
                location: format!("{LOG}1.checkpoint.{extension}"),
                last_modified: 1,
                size: 2,
            },
            extension: extension.to_string(),
            version: 1,
        })
        .collect();
    Snapshot {
        log_segment: LogSegment {
            log_root: LOG.to_string(),
            listed: ListedLogFiles { checkpoint_parts, commit_cover: Vec::new() },
            checkpoint_schema: known_schema,
            checkpoint_sidecars: hint,
        },
    }
}

fn resolve(
    engine: &Answers,
    snapshot: &Snapshot,
    stats: Option<&SchemaRef>,
) -> Result<CheckpointShape, Error> {
    let mut session = Session::new(engine);
    CheckpointShape::try_new::<Answers, FirstColumnRules>(&mut session, snapshot, stats)
}

fn shape(checkpoint_type: CheckpointType, parsed: Option<&SchemaRef>) -> CheckpointShape {
    CheckpointShape { checkpoint_type, parsed_stats_schema: parsed.map(Arc::clone) }
}

fn rows(paths: &[Option<&str>]) -> Result<SidecarBatch, Error> {
    Ok(SidecarBatch { rows: paths.iter().map(|path| path.map(sidecar)).collect() })
}

#[test]
fn no_checkpoint_asks_nothing() {
    let engine = Answers::new(None, None);
    let stats = schema_of(&["numRecords"]);
    let found = resolve(&engine, &snapshot(None, None, None), Some(&stats)).unwrap();
    assert_eq!(found, shape(CheckpointType::Absent, None));
    assert!(engine.asked().is_empty());
}

#[test]
fn hint_with_sidecars_is_a_manifest() {
    let engine = Answers::new(None, None);
    let table = snapshot(Some("parquet"), None, Some(vec![sidecar("a.parquet")]));
    let found = resolve(&engine, &table, None).unwrap();
    assert_eq!(found, shape(CheckpointType::Manifest, None));
    assert!(engine.asked().is_empty());
}

#[test]
fn hint_with_sidecars_looks_at_the_first_one_for_stats() {
    let stats = schema_of(&["numRecords"]);
    let engine = Answers::new(Some(schema_of(&["numRecords", "x"])), None);
    let hint = vec![sidecar("a.parquet"), sidecar("b.parquet")];
    let found = resolve(&engine, &snapshot(Some("json"), None, Some(hint)), Some(&stats)).unwrap();
    assert_eq!(found, shape(CheckpointType::Manifest, Some(&stats)));
    assert_eq!(engine.asked(), vec!["footer file:///table/_delta_log/_sidecars/a.parquet"]);
}

#[test]
fn incompatible_sidecar_has_no_parsed_stats() {
    let stats = schema_of(&["numRecords"]);
    let engine = Answers::new(Some(schema_of(&["x"])), None);
    let table = snapshot(Some("parquet"), None, Some(vec![sidecar("a.parquet")]));
    let found = resolve(&engine, &table, Some(&stats)).unwrap();
    assert_eq!(found, shape(CheckpointType::Manifest, None));
}

#[test]
fn empty_hint_is_a_leaf_whose_schema_is_read_for_stats_only() {
    let stats = schema_of(&["numRecords"]);
    let compatible = schema_of(&["numRecords"]);

    let engine = Answers::new(Some(Arc::clone(&compatible)), None);
    let table = snapshot(Some("parquet"), None, Some(Vec::new()));
    let found = resolve(&engine, &table, None).unwrap();
    assert_eq!(found, shape(CheckpointType::Leaf, None));
    assert!(engine.asked().is_empty());
    let found = resolve(&engine, &table, Some(&stats)).unwrap();
    assert_eq!(found, shape(CheckpointType::Leaf, Some(&stats)));
    assert_eq!(engine.asked(), vec!["footer file:///table/_delta_log/1.checkpoint.parquet"]);

    let engine = Answers::new(None, None);
    let table = snapshot(Some("parquet"), Some(compatible), Some(Vec::new()));
    let found = resolve(&engine, &table, Some(&stats)).unwrap();
    assert_eq!(found, shape(CheckpointType::Leaf, Some(&stats)));
    assert!(engine.asked().is_empty());

    let table = snapshot(Some("json"), None, Some(Vec::new()));
    let found = resolve(&engine, &table, Some(&stats)).unwrap();
    assert_eq!(found, shape(CheckpointType::Leaf, None));
    assert!(engine.asked().is_empty());
}

#[test]
fn parquet_without_a_sidecar_column_is_a_leaf() {
    let stats = schema_of(&["numRecords"]);
    let engine = Answers::new(Some(schema_of(&["numRecords"])), None);
    let found = resolve(&engine, &snapshot(Some("parquet"), None, None), Some(&stats)).unwrap();
    assert_eq!(found, shape(CheckpointType::Leaf, Some(&stats)));
    assert_eq!(engine.asked(), vec!["footer file:///table/_delta_log/1.checkpoint.parquet"]);
}

#[test]
fn parquet_with_null_sidecars_is_a_leaf() {
    let stats = schema_of(&["numRecords"]);
    let batches = vec![rows(&[None, None]), rows(&[])];
    let engine = Answers::new(Some(schema_of(&["numRecords", "sidecar"])), Some(batches));
    let found = resolve(&engine, &snapshot(Some("parquet"), None, None), Some(&stats)).unwrap();
    assert_eq!(found, shape(CheckpointType::Leaf, Some(&stats)));
    assert_eq!(
        engine.asked(),
        vec![
            "footer file:///table/_delta_log/1.checkpoint.parquet",
            "scan Parquet file:///table/_delta_log/1.checkpoint.parquet",
            "batch",
            "batch",
            "batch",
        ]
    );
}

#[test]
fn parquet_with_a_sidecar_is_a_manifest() {
    let stats = schema_of(&["numRecords"]);
    let batches = vec![
        rows(&[None]),
        rows(&[None, Some("b.parquet"), Some("c.parquet")]),
        Err(Error::EmptyPlan),
    ];
    let engine = Answers::new(Some(schema_of(&["numRecords", "sidecar"])), Some(batches));
    let found = resolve(&engine, &snapshot(Some("parquet"), None, None), Some(&stats)).unwrap();
    assert_eq!(found, shape(CheckpointType::Manifest, Some(&stats)));
    assert_eq!(
        engine.asked(),
        vec![
            "footer file:///table/_delta_log/1.checkpoint.parquet",
            "scan Parquet file:///table/_delta_log/1.checkpoint.parquet",
            "batch",
            "batch",
            "footer file:///table/_delta_log/_sidecars/b.parquet",
        ]
    );
}

#[test]
fn known_schema_is_not_read_again() {
    let engine = Answers::new(None, None);
    let table = snapshot(Some("parquet"), Some(schema_of(&["add"])), None);
    let found = resolve(&engine, &table, None).unwrap();
    assert_eq!(found, shape(CheckpointType::Leaf, None));
    assert!(engine.asked().is_empty());

    let engine = Answers::new(None, Some(vec![rows(&[Some("b.parquet")])]));
    let table = snapshot(Some("parquet"), Some(schema_of(&["add", "sidecar"])), None);
    let found = resolve(&engine, &table, None).unwrap();
    assert_eq!(found, shape(CheckpointType::Manifest, None));
    assert_eq!(
        engine.asked(),
        vec!["scan Parquet file:///table/_delta_log/1.checkpoint.parquet", "batch"]
    );
}

#[test]
fn json_checkpoint_is_scanned() {
    let stats = schema_of(&["numRecords"]);
    let engine = Answers::new(Some(schema_of(&["numRecords"])), Some(vec![rows(&[None])]));
    let found = resolve(&engine, &snapshot(Some("json"), None, None), Some(&stats)).unwrap();
    assert_eq!(found, shape(CheckpointType::Leaf, None));
    assert_eq!(
        engine.asked(),
        vec!["scan Json file:///table/_delta_log/1.checkpoint.json", "batch", "batch"]
    );

    let batches = vec![rows(&[Some("b.parquet")])];
    let engine = Answers::new(Some(schema_of(&["numRecords"])), Some(batches));
    let found = resolve(&engine, &snapshot(Some("json"), None, None), Some(&stats)).unwrap();
    assert_eq!(found, shape(CheckpointType::Manifest, Some(&stats)));
    assert_eq!(
        engine.asked(),
        vec![
            "scan Json file:///table/_delta_log/1.checkpoint.json",
            "batch",
            "footer file:///table/_delta_log/_sidecars/b.parquet",
        ]
    );
}

#[test]
fn failures_of_the_engine_are_passed_on() {
    let stats = schema_of(&["numRecords"]);
    let engine = Answers::new(None, None);
    let footer = resolve(&engine, &snapshot(Some("parquet"), None, None), None);
    assert!(matches!(footer, Err(Error::Engine(m)) if m == "no footer"));
    let scan = resolve(&engine, &snapshot(Some("json"), None, None), None);
    assert!(matches!(scan, Err(Error::Engine(m)) if m == "no rows"));
    let hinted = snapshot(Some("parquet"), None, Some(vec![sidecar("a.parquet")]));
    let sidecar_footer = resolve(&engine, &hinted, Some(&stats));
    assert!(matches!(sidecar_footer, Err(Error::Engine(m)) if m == "no footer"));
    let leaf = snapshot(Some("parquet"), None, Some(Vec::new()));
    let leaf_footer = resolve(&engine, &leaf, Some(&stats));
    assert!(matches!(leaf_footer, Err(Error::Engine(m)) if m == "no footer"));
}

#[test]
fn batches_after_the_first_sidecar_do_not_matter() {
    let first = |batches: Batches| {
        let engine = Answers::new(None, Some(batches));
        let file = FileMeta { location: format!("{LOG}c.json"), last_modified: 0, size: 0 };
        let schema = LogSegment::sidecar_read_schema();
        let relation = PlanBuilder::scan_json(vec![ScanFile::plain(file)], &[], schema).unwrap();
        let mut session = Session::new(&engine);
        let mut scan = session.query(relation.build().unwrap()).unwrap();
        let found = first_sidecar(&mut session, &mut scan);
        (found, engine.asked().iter().filter(|asked| *asked == "batch").count())
    };
    let (found, pulled) = first(vec![rows(&[None]), rows(&[Some("a")]), Err(Error::EmptyPlan)]);
    assert_eq!(found.unwrap(), Some(sidecar("a")));
    assert_eq!(pulled, 2);
    let (failed, pulled) = first(vec![rows(&[None]), Err(Error::EmptyPlan), rows(&[Some("a")])]);
    assert!(matches!(failed, Err(Error::EmptyPlan)));
    assert_eq!(pulled, 2);
    let (nothing, pulled) = first(vec![rows(&[None]), rows(&[])]);
    assert_eq!(nothing.unwrap(), None);
    assert_eq!(pulled, 3);
}

/// Hands out the same sidecar without end.
struct Endless;

impl SidecarBatches for Endless {
    fn next(&mut self) -> Option<Result<SidecarBatch, Error>> {
        Some(rows(&[Some("a.parquet")]))
    }
}

impl PlanExecutor for Endless {
    type Batches = Endless;

    fn read_parquet_footer(&self, _file: FileMeta) -> Result<ParquetFooter, Error> {
        Err(Error::Engine("no footer".to_string()))
    }

    fn execute_op(&self, _op: Operation) -> Result<Endless, Error> {
        Ok(Endless)
    }
}

#[test]
fn scan_without_end_stops_at_the_first_sidecar() {
    let mut session = Session::new(&Endless);
    let table = snapshot(Some("json"), None, None);
    let found =
        CheckpointShape::try_new::<Endless, FirstColumnRules>(&mut session, &table, None).unwrap();
    assert_eq!(found, shape(CheckpointType::Manifest, None));
}

#[test]
fn shape_can_be_cloned() {
    let stats = schema_of(&["numRecords"]);
    let found = shape(CheckpointType::Leaf, Some(&stats));
    assert_eq!(found.clone(), found);
}

#[test]
fn sidecar_that_is_no_file_is_an_error() {
    let engine = Answers::new(None, None);
    let mut negative = sidecar("a.parquet");
    negative.size_in_bytes = -1;
    let table = snapshot(Some("parquet"), None, Some(vec![negative]));
    assert!(matches!(resolve(&engine, &table, None), Err(Error::NegativeFileSize)));
    let unparsable = snapshot(Some("parquet"), None, Some(vec![sidecar("http://[")]));
    assert!(matches!(resolve(&engine, &unparsable, None), Err(Error::InvalidUrl)));
    let mut nowhere = snapshot(Some("parquet"), None, Some(vec![sidecar("a.parquet")]));
    nowhere.log_segment.log_root = "not a url".to_string();
    assert!(matches!(resolve(&engine, &nowhere, None), Err(Error::InvalidUrl)));
    assert!(engine.asked().is_empty());
}

#[test]
fn sidecar_becomes_a_file_below_the_log() {
    let found = sidecar("a b.parquet").to_filemeta(LOG).unwrap();
    assert_eq!(
        found,
        FileMeta {
            location: "file:///table/_delta_log/_sidecars/a%20b.parquet".to_string(),
            last_modified: 9,
            size: 7,
        }
    );
    let absolute = sidecar("s3://bucket/a.parquet").to_filemeta(LOG).unwrap();
    assert_eq!(absolute.location, "s3://bucket/a.parquet");
}

#[test]
fn single_sidecar_is_the_first_of_the_file() {
    let batches = vec![rows(&[None, Some("x.parquet"), Some("y.parquet")])];
    let engine = Answers::new(None, Some(batches));
    let file = FileMeta { location: format!("{LOG}c.json"), last_modified: 0, size: 0 };
    let mut session = Session::new(&engine);
    let found = collect_single_sidecar(&mut session, &file, FileType::Json, LOG).unwrap();
    assert_eq!(found.unwrap().location, "file:///table/_delta_log/_sidecars/x.parquet");
    assert_eq!(engine.asked(), vec!["scan Json file:///table/_delta_log/c.json", "batch"]);
}

#[test]
fn hint_is_asked_of_the_parts_it_needs() {
    let stats = schema_of(&["numRecords"]);
    let root = FileMeta { location: format!("{LOG}c.parquet"), last_modified: 0, size: 0 };
    let engine = Answers::new(Some(schema_of(&["numRecords"])), None);
    let mut session = Session::new(&engine);
    let absent = CheckpointShape::from_v2_checkpoint_hint::<Answers, FirstColumnRules>(
        &mut session,
        &snapshot(Some("parquet"), None, None).log_segment,
        &root,
        FileType::Parquet,
        Some(&stats),
    );
    assert!(matches!(absent, Ok(None)));
    assert!(engine.asked().is_empty());
    let manifest = CheckpointShape::try_new_manifest::<Answers, FirstColumnRules>(
        &mut session,
        root,
        Some(&stats),
    );
    assert_eq!(manifest.unwrap(), shape(CheckpointType::Manifest, Some(&stats)));
    assert_eq!(engine.asked(), vec!["footer file:///table/_delta_log/c.parquet"]);
}

#[test]
fn leaf_offers_stats_of_a_compatible_schema_only() {
    let stats = schema_of(&["numRecords"]);
    let same = CheckpointShape::try_new_leaf::<FirstColumnRules>(
        Some(schema_of(&["numRecords"])),
        Some(&stats),
    );
    assert_eq!(same, shape(CheckpointType::Leaf, Some(&stats)));
    let other =
        CheckpointShape::try_new_leaf::<FirstColumnRules>(Some(schema_of(&["x"])), Some(&stats));
    assert_eq!(other, shape(CheckpointType::Leaf, None));
    let unknown = CheckpointShape::try_new_leaf::<FirstColumnRules>(None, Some(&stats));
    assert_eq!(unknown, shape(CheckpointType::Leaf, None));
    let unwanted =
        CheckpointShape::try_new_leaf::<FirstColumnRules>(Some(schema_of(&["numRecords"])), None);
    assert_eq!(unwanted, shape(CheckpointType::Leaf, None));
}
