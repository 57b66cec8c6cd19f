//! What metadata scan plans return, run on small logs.

use std::collections::HashMap;
use std::sync::Arc;

use metadata_scan::actions::Sidecar;
use metadata_scan::checkpoint_shape::{CheckpointShape, CheckpointType};
use metadata_scan::expressions::{
    ArithmeticOp, ColumnName, ComparisonOp, Expr, JunctionOp, Predicate, Scalar,
};
use metadata_scan::files::FileMeta;
use metadata_scan::location::join_location;
use metadata_scan::log_segment::{ListedLogFiles, LogPath, LogSegment, Snapshot};
use metadata_scan::plan::{MaxNonNullBy, Plan};
use metadata_scan::scan_plan::{PartitionValuesOptions, Scan, StatsOptions};
use metadata_scan::schema::{DataType, PrimitiveType, SchemaRef, StructField, StructType};
use metadata_scan::skipping::{
    prune_by, stats_skipping_predicate, MetadataSkippingColumnPrefixer, PhysicalPredicate,
    StateInfo,
};
use metadata_scan::stats_rules::StatsRules;

const LOG: &str = "file:///table/_delta_log/";

// --- A small engine ---

#[derive(Debug, Clone, PartialEq)]
enum Val {
    Null,
    Bool(bool),
    Int(i64),
    Text(String),
    Record(Vec<Val>),
    Entries(Vec<(String, String)>),
}

/// What a file holds: objects by the names of their fields.
#[derive(Debug, Clone)]
enum Raw {
    Leaf(Val),
    Object(Vec<(&'static str, Raw)>),
}

type Row = Vec<Val>;

struct Engine {
    files: HashMap<String, Vec<Raw>>,
}

fn schema_of(plan: &Plan) -> SchemaRef {
    match plan {
        Plan::Scan { schema, .. } | Plan::Values { schema, .. } | Plan::Project { schema, .. } => {
            Arc::clone(schema)
        }
        Plan::Filter { input, .. } => schema_of(input),
        Plan::Aggregate { input, keys, aggregates } => {
            let schema = schema_of(input);
            let columns = keys.iter().chain(aggregates.iter().map(|a| &a.value));
            let fields = columns.map(|c| schema.resolve(c).unwrap().copy()).collect();
            Arc::new(StructType::new_unchecked(fields))
        }
        Plan::AntiJoin { left, .. } => schema_of(left),
        Plan::UnionAll { inputs } => schema_of(&inputs[0]),
        Plan::Load { load, .. } => Arc::clone(&load.schema),
    }
}

fn read(raw: Option<&Raw>, data_type: &DataType) -> Val {
    match (raw, data_type) {
        (Some(Raw::Object(fields)), DataType::Struct(schema)) => Val::Record(
            schema
                .fields()
                .iter()
                .map(|f| {
                    let found = fields.iter().find(|(name, _)| name == f.name());
                    read(found.map(|(_, raw)| raw), f.data_type())
                })
                .collect(),
        ),
        (Some(Raw::Leaf(value)), _) => value.clone(),
        _ => Val::Null,
    }
}

fn constant(scalar: &Scalar) -> Val {
    match scalar {
        Scalar::Null(_) => Val::Null,
        Scalar::Boolean(b) => Val::Bool(*b),
        Scalar::Integer(i) => Val::Int(i64::from(*i)),
        Scalar::Long(i) => Val::Int(*i),
        Scalar::Text(t) => Val::Text(t.to_string()),
        Scalar::Encoded(..) => panic!("not used here"),
    }
}

fn lookup(schema: &StructType, row: &[Val], path: &[String]) -> Val {
    let Some(i) = schema.fields().iter().position(|f| f.name() == &path[0]) else {
        return Val::Null;
    };
    if path.len() == 1 {
        return row[i].clone();
    }
    match (schema.fields()[i].data_type(), &row[i]) {
        (DataType::Struct(children), Val::Record(values)) => lookup(children, values, &path[1..]),
        _ => Val::Null,
    }
}

fn column(schema: &StructType, row: &[Val], name: &ColumnName) -> Val {
    lookup(schema, row, name.path())
}

/// Statistics in these logs are texts like "10,3": a record count and a least x.
fn parse_stats(text: Val) -> Val {
    let Val::Text(text) = text else { return Val::Null };
    let mut numbers = text.split(',').map(|n| n.parse().map_or(Val::Null, Val::Int));
    let count = numbers.next().unwrap_or(Val::Null);
    let least = numbers.next().unwrap_or(Val::Null);
    Val::Record(vec![count, Val::Record(vec![least])])
}

fn to_struct(map: Val, target: &DataType) -> Val {
    let (Val::Entries(entries), DataType::Struct(schema)) = (map, target) else {
        return Val::Null;
    };
    let found = |f: &StructField| match entries.iter().find(|(k, _)| k == f.name()) {
        Some((_, v)) => Val::Text(v.to_string()),
        None => Val::Null,
    };
    Val::Record(schema.fields().iter().map(found).collect())
}

fn eval(e: &Expr, schema: &StructType, row: &[Val], target: &DataType) -> Val {
    match e {
        Expr::Literal(s) => constant(s),
        Expr::Column(c) => column(schema, row, c),
        Expr::Predicate(p) => test(p, schema, row).map_or(Val::Null, Val::Bool),
        Expr::Struct(children, present) => {
            if let Some(p) = present {
                if eval(p, schema, row, target) != Val::Bool(true) {
                    return Val::Null;
                }
            }
            let DataType::Struct(fields) = target else { panic!("a struct is expected") };
            assert_eq!(fields.fields().len(), children.len());
            let pairs = children.iter().zip(fields.fields());
            Val::Record(pairs.map(|(c, f)| eval(c, schema, row, f.data_type())).collect())
        }
        Expr::Coalesce(choices) => {
            let values = choices.iter().map(|c| eval(c, schema, row, target));
            values.into_iter().find(|v| *v != Val::Null).unwrap_or(Val::Null)
        }
        Expr::ParseJson(c, _) => parse_stats(eval(c, schema, row, target)),
        Expr::MapToStruct(c) => to_struct(eval(c, schema, row, target), target),
        Expr::Arithmetic(..) => panic!("not used here"),
    }
}

fn test(p: &Predicate, schema: &StructType, row: &[Val]) -> Option<bool> {
    let value = |e: &Expr| eval(e, schema, row, &DataType::Primitive(PrimitiveType::Boolean));
    match p {
        Predicate::BooleanExpression(e) => match value(e) {
            Val::Bool(b) => Some(b),
            _ => None,
        },
        Predicate::Not(q) => test(q, schema, row).map(|b| !b),
        Predicate::IsNull(e) => Some(value(e) == Val::Null),
        Predicate::Comparison(op, l, r) => match (op, value(l), value(r)) {
            (ComparisonOp::Distinct, a, b) => Some(a != b),
            (_, Val::Null, _) | (_, _, Val::Null) => None,
            (ComparisonOp::Equal, a, b) => Some(a == b),
            (ComparisonOp::LessThan, Val::Int(a), Val::Int(b)) => Some(a < b),
            (ComparisonOp::GreaterThan, Val::Int(a), Val::Int(b)) => Some(a > b),
            other => panic!("{other:?} is not used here"),
        },
        Predicate::Junction(op, ps) => {
            let decisive = *op == JunctionOp::Or;
            let values: Vec<Option<bool>> = ps.iter().map(|q| test(q, schema, row)).collect();
            if values.contains(&Some(decisive)) {
                Some(decisive)
            } else if values.contains(&None) {
                None
            } else {
                Some(!decisive)
            }
        }
    }
}

fn tag(schema: &StructType, names: &[String], values: &[Val], row: &mut Row) {
    for (name, value) in names.iter().zip(values) {
        let i = schema.fields().iter().position(|f| f.name() == name).unwrap();
        row[i] = value.clone();
    }
}

fn newest(a: &MaxNonNullBy, schema: &StructType, rows: &[&Row]) -> Val {
    let order = |row: &&&Row| match column(schema, row, &a.order) {
        Val::Int(i) => i,
        other => panic!("{other:?} does not order rows"),
    };
    let known = rows.iter().filter(|row| column(schema, row, &a.witness) != Val::Null);
    known.max_by_key(order).map_or(Val::Null, |row| column(schema, row, &a.value))
}

impl Engine {
    fn read_file(&self, location: &str, schema: &StructType) -> Vec<Row> {
        let rows = self.files.get(location).unwrap_or_else(|| panic!("{location} is missing"));
        rows.iter()
            .map(|raw| {
                let whole = DataType::Struct(Arc::new(StructType::new_unchecked(
                    schema.fields().iter().map(StructField::copy).collect(),
                )));
                match read(Some(raw), &whole) {
                    Val::Record(row) => row,
                    other => panic!("{other:?} is no row"),
                }
            })
            .collect()
    }

    fn run(&self, plan: &Plan) -> Vec<Row> {
        match plan {
            Plan::Scan { files, constants, schema, .. } => {
                let mut out = Vec::new();
                for file in files {
                    let values: Vec<Val> = file.constants.iter().map(constant).collect();
                    for mut row in self.read_file(&file.meta.location, schema) {
                        tag(schema, constants, &values, &mut row);
                        out.push(row);
                    }
                }
                out
            }
            Plan::Values { rows, .. } => {
                rows.iter().map(|row| row.iter().map(constant).collect()).collect()
            }
            Plan::Filter { input, predicate } => {
                let schema = schema_of(input);
                let rows = self.run(input).into_iter();
                rows.filter(|row| test(predicate, &schema, row) == Some(true)).collect()
            }
            Plan::Project { input, expr, schema } => {
                let from = schema_of(input);
                let target = DataType::Struct(Arc::clone(schema));
                let project = |row: Row| match eval(expr, &from, &row, &target) {
                    Val::Record(values) => values,
                    other => panic!("{other:?} is no row"),
                };
                self.run(input).into_iter().map(project).collect()
            }
            Plan::Aggregate { input, keys, aggregates } => {
                let schema = schema_of(input);
                let rows = self.run(input);
                let key_of =
                    |row: &Row| keys.iter().map(|k| column(&schema, row, k)).collect::<Row>();
                let mut seen: Vec<Row> = Vec::new();
                for row in &rows {
                    if !seen.contains(&key_of(row)) {
                        seen.push(key_of(row));
                    }
                }
                let group = |mut key: Row| {
                    let members: Vec<&Row> = rows.iter().filter(|r| key_of(r) == key).collect();
                    key.extend(aggregates.iter().map(|a| newest(a, &schema, &members)));
                    key
                };
                seen.into_iter().map(group).collect()
            }
            Plan::AntiJoin { left, right, left_keys, right_keys } => {
                let (a, b) = (schema_of(left), schema_of(right));
                let taken: Vec<Row> = self
                    .run(right)
                    .iter()
                    .map(|row| right_keys.iter().map(|k| column(&b, row, k)).collect())
                    .collect();
                let free = |row: &Row| {
                    let key: Row = left_keys.iter().map(|k| column(&a, row, k)).collect();
                    key.contains(&Val::Null) || !taken.contains(&key)
                };
                self.run(left).into_iter().filter(free).collect()
            }
            Plan::UnionAll { inputs } => inputs.iter().flat_map(|p| self.run(p)).collect(),
            Plan::Load { input, load } => {
                let from = schema_of(input);
                let mut out = Vec::new();
                for named in self.run(input) {
                    let Val::Text(path) = column(&from, &named, &load.path) else { continue };
                    let location = join_location(&load.base_url, &path).unwrap();
                    let values: Vec<Val> = load
                        .constants
                        .iter()
                        .map(|name| lookup(&from, &named, &[name.to_string()]))
                        .collect();
                    for mut row in self.read_file(&location, &load.schema) {
                        tag(&load.schema, &load.constants, &values, &mut row);
                        out.push(row);
                    }
                }
                out
            }
        }
    }
}

// --- Small logs ---

fn text(t: &str) -> Raw {
    Raw::Leaf(Val::Text(t.to_string()))
}

fn partitioned(p: &str) -> Raw {
    Raw::Leaf(Val::Entries(vec![("p".to_string(), p.to_string())]))
}

fn add(path: &str, stats: &str) -> Raw {
    Raw::Object(vec![(
        "add",
        Raw::Object(vec![
            ("path", text(path)),
            ("partitionValues", partitioned("north")),
            ("size", Raw::Leaf(Val::Int(1))),
            ("stats", text(stats)),
        ]),
    )])
}

fn deletion_vector(inline: &str) -> Raw {
    Raw::Object(vec![("storageType", text("i")), ("pathOrInlineDv", text(inline))])
}

fn add_with_dv(path: &str, inline: &str) -> Raw {
    Raw::Object(vec![(
        "add",
        Raw::Object(vec![("path", text(path)), ("deletionVector", deletion_vector(inline))]),
    )])
}

fn remove(path: &str) -> Raw {
    Raw::Object(vec![("remove", Raw::Object(vec![("path", text(path))]))])
}

fn remove_with_dv(path: &str, inline: &str) -> Raw {
    Raw::Object(vec![(
        "remove",
        Raw::Object(vec![("path", text(path)), ("deletionVector", deletion_vector(inline))]),
    )])
}

fn other_action() -> Raw {
    Raw::Object(vec![("txn", Raw::Object(vec![("appId", text("a"))]))])
}

fn log_file(name: &str, extension: &str, version: u64) -> LogPath {
    LogPath {
        location: FileMeta { location: format!("{LOG}{name}"), last_modified: 0, size: 10 },
        extension: extension.to_string(),
        version,
    }
}

/// A log whose checkpoint, if it is there, is one file at version 1, followed by the commits 2, 3
/// and so on.
fn log(checkpoint: Option<(&str, Vec<Raw>)>, commits: Vec<Vec<Raw>>) -> (Scan, Engine) {
    let mut files = HashMap::new();
    let mut checkpoint_parts = Vec::new();
    if let Some((extension, rows)) = checkpoint {
        let name = format!("1.checkpoint.{extension}");
        files.insert(format!("{LOG}{name}"), rows);
        checkpoint_parts.push(log_file(&name, extension, 1));
    }
    let mut commit_cover = Vec::new();
    for (i, rows) in commits.into_iter().enumerate() {
        let name = format!("{}.json", i + 2);
        files.insert(format!("{LOG}{name}"), rows);
        commit_cover.push(log_file(&name, "json", i as u64 + 2));
    }
    let scan = Scan {
        snapshot: Snapshot {
            log_segment: LogSegment {
                log_root: LOG.to_string(),
                listed: ListedLogFiles { checkpoint_parts, commit_cover },
                checkpoint_schema: None,
                checkpoint_sidecars: None,
            },
        },
        state_info: StateInfo {
            physical_predicate: PhysicalPredicate::Absent,
            physical_stats_schema: None,
            physical_partition_schema: None,
            physical_stats_columns: Vec::new(),
        },
        stats: StatsOptions { synthesize_json: true },
        physical_stats_output_schema: None,
        partition_values: PartitionValuesOptions { parsed_struct: false },
    };
    (scan, Engine { files })
}

fn stats_schema() -> SchemaRef {
    let long = || DataType::Primitive(PrimitiveType::Long);
    Arc::new(StructType::new_unchecked(vec![
        StructField::nullable("numRecords", long()),
        StructField::nullable(
            "minValues",
            DataType::struct_of(vec![StructField::nullable("x", long())]),
        ),
    ]))
}

fn partition_schema() -> SchemaRef {
    let text = DataType::Primitive(PrimitiveType::Text);
    Arc::new(StructType::new_unchecked(vec![StructField::nullable("p", text)]))
}

fn leaf() -> CheckpointShape {
    CheckpointShape { checkpoint_type: CheckpointType::Leaf, parsed_stats_schema: None }
}

fn absent() -> CheckpointShape {
    CheckpointShape { checkpoint_type: CheckpointType::Absent, parsed_stats_schema: None }
}

fn manifest() -> CheckpointShape {
    CheckpointShape { checkpoint_type: CheckpointType::Manifest, parsed_stats_schema: None }
}

/// Skips the files in which x is 5 or less, by their statistics.
struct MoreThanFive;

impl StatsRules for MoreThanFive {
    fn schema_has_compatible_stats_parsed(_file: &StructType, _stats: &StructType) -> bool {
        true
    }

    fn as_sql_data_skipping_predicate_with_stats_columns(
        _predicate: &Predicate,
        partition_columns: &Vec<String>,
        _stats_columns: &Vec<ColumnName>,
    ) -> Option<Predicate> {
        assert!(partition_columns.len() <= 1);
        Some(Predicate::Comparison(
            ComparisonOp::GreaterThan,
            Expr::column(&["stats_parsed", "minValues", "x"]),
            Expr::Literal(Scalar::Long(5)),
        ))
    }
}

/// Skips the files of the partition "south".
struct NotSouth;

impl StatsRules for NotSouth {
    fn schema_has_compatible_stats_parsed(_file: &StructType, _stats: &StructType) -> bool {
        true
    }

    fn as_sql_data_skipping_predicate_with_stats_columns(
        _predicate: &Predicate,
        partition_columns: &Vec<String>,
        _stats_columns: &Vec<ColumnName>,
    ) -> Option<Predicate> {
        assert_eq!(partition_columns, &vec!["p".to_string()]);
        Some(Predicate::Not(Box::new(Predicate::Comparison(
            ComparisonOp::Equal,
            Expr::column(&["partitionValues_parsed", "p"]),
            Expr::Literal(Scalar::Text("south".to_string())),
        ))))
    }
}

fn wanted() -> PhysicalPredicate {
    let x = Expr::column(&["x"]);
    let five = Expr::Literal(Scalar::Long(5));
    PhysicalPredicate::Given(
        Predicate::Comparison(ComparisonOp::GreaterThan, x, five),
        stats_schema(),
    )
}

fn rows<R: StatsRules>(scan: &Scan, engine: &Engine, shape: &CheckpointShape) -> Vec<Row> {
    match scan.build_metadata_scan_plan::<R>(shape).unwrap() {
        Some(plan) => engine.run(&plan),
        None => Vec::new(),
    }
}

/// The paths of the live adds, in order, with the inline deletion vector if there is one.
fn live<R: StatsRules>(scan: &Scan, engine: &Engine, shape: &CheckpointShape) -> Vec<String> {
    let mut paths: Vec<String> = rows::<R>(scan, engine, shape)
        .into_iter()
        .map(|row| {
            let Val::Record(add) = &row[0] else { panic!("adds are not null") };
            let Val::Text(path) = &add[0] else { panic!("paths are texts") };
            match add.get(7) {
                Some(Val::Record(dv)) => format!("{path} {:?}", dv[1]),
                _ => path.to_string(),
            }
        })
        .collect();
    paths.sort();
    paths
}

// --- Replay ---

#[test]
fn newest_action_on_a_file_wins() {
    let (scan, engine) = log(
        None,
        vec![
            vec![add("a", "1,1"), add("b", "1,1"), add("c", "1,1")],
            vec![remove("a"), remove("b"), other_action()],
            vec![add("b", "2,2")],
        ],
    );
    assert_eq!(live::<MoreThanFive>(&scan, &engine, &absent()), vec!["b", "c"]);
    let all = rows::<MoreThanFive>(&scan, &engine, &absent());
    let stats: Vec<Val> = all
        .iter()
        .map(|row| match &row[0] {
            Val::Record(add) => add[5].clone(),
            other => panic!("{other:?} is no add"),
        })
        .collect();
    assert!(stats.contains(&Val::Text("2,2".to_string())));
    assert!(stats.contains(&Val::Text("1,1".to_string())));
    assert_eq!(stats.len(), 2);
}

#[test]
fn commits_supersede_the_checkpoint() {
    for extension in ["json", "parquet"] {
        let checkpoint = vec![add("a", "1,1"), add("b", "1,1"), add("c", "1,1"), other_action()];
        let commits = vec![vec![remove("a"), add("b", "9,9")], vec![add("d", "1,1")]];
        let (scan, engine) = log(Some((extension, checkpoint)), commits);
        assert_eq!(live::<MoreThanFive>(&scan, &engine, &leaf()), vec!["b", "c", "d"]);
        assert_eq!(rows::<MoreThanFive>(&scan, &engine, &leaf()).len(), 3);
    }
}

#[test]
fn checkpoint_alone_is_live() {
    let (scan, engine) = log(Some(("json", vec![add("a", "1,1"), other_action()])), Vec::new());
    assert_eq!(live::<MoreThanFive>(&scan, &engine, &leaf()), vec!["a"]);
}

#[test]
fn deletion_vector_is_part_of_the_identity() {
    let checkpoint = vec![add_with_dv("a", "one"), add("a", "1,1")];
    let commits = vec![vec![remove_with_dv("a", "one"), add_with_dv("a", "two")]];
    let (scan, engine) = log(Some(("json", checkpoint)), commits);
    assert_eq!(
        live::<MoreThanFive>(&scan, &engine, &leaf()),
        vec!["a", "a Text(\"two\")"]
    );
}

#[test]
fn adds_are_pruned_by_their_stats() {
    let checkpoint = vec![add("low", "1,5"), add("high", "1,6"), add("unknown", "1,?")];
    let commits = vec![vec![add("low2", "1,2"), add("high2", "1,9"), add("unknown2", "none")]];
    let (mut scan, engine) = log(Some(("json", checkpoint)), commits);
    scan.state_info.physical_predicate = wanted();
    scan.state_info.physical_stats_schema = Some(stats_schema());
    assert_eq!(
        live::<MoreThanFive>(&scan, &engine, &leaf()),
        vec!["high", "high2", "unknown", "unknown2"]
    );
}

#[test]
fn removes_are_never_pruned() {
    let checkpoint = vec![add("a", "1,9"), add("b", "1,9")];
    let (mut scan, engine) = log(Some(("json", checkpoint)), vec![vec![remove("a")]]);
    scan.state_info.physical_predicate = wanted();
    scan.state_info.physical_stats_schema = Some(stats_schema());
    assert_eq!(live::<MoreThanFive>(&scan, &engine, &leaf()), vec!["b"]);
}

#[test]
fn adds_are_pruned_by_their_partition_values() {
    let south = |path: &str| {
        Raw::Object(vec![(
            "add",
            Raw::Object(vec![("path", text(path)), ("partitionValues", partitioned("south"))]),
        )])
    };
    let checkpoint = vec![south("a"), add("b", "1,1")];
    let commits = vec![vec![south("c"), add("d", "1,1"), remove("b")]];
    let (mut scan, engine) = log(Some(("json", checkpoint)), commits);
    scan.state_info.physical_predicate = wanted();
    scan.state_info.physical_partition_schema = Some(partition_schema());
    assert_eq!(live::<NotSouth>(&scan, &engine, &leaf()), vec!["d"]);
}

#[test]
fn parsed_stats_of_the_checkpoint_are_preferred() {
    let parsed = Raw::Object(vec![
        ("numRecords", Raw::Leaf(Val::Int(70))),
        ("minValues", Raw::Object(vec![("x", Raw::Leaf(Val::Int(8)))])),
    ]);
    let row = Raw::Object(vec![(
        "add",
        Raw::Object(vec![("path", text("a")), ("stats", text("1,1")), ("stats_parsed", parsed)]),
    )]);
    let (mut scan, engine) = log(Some(("parquet", vec![row])), Vec::new());
    scan.state_info.physical_stats_schema = Some(stats_schema());
    scan.physical_stats_output_schema = Some(stats_schema());
    scan.stats.synthesize_json = false;
    let stats_of = |shape: &CheckpointShape| {
        let all = rows::<MoreThanFive>(&scan, &engine, shape);
        match &all[0][0] {
            Val::Record(add) => add.last().unwrap().clone(),
            other => panic!("{other:?} is no add"),
        }
    };
    let own = CheckpointShape {
        checkpoint_type: CheckpointType::Leaf,
        parsed_stats_schema: Some(stats_schema()),
    };
    assert_eq!(
        stats_of(&own),
        Val::Record(vec![Val::Int(70), Val::Record(vec![Val::Int(8)])])
    );
    assert_eq!(
        stats_of(&leaf()),
        Val::Record(vec![Val::Int(1), Val::Record(vec![Val::Int(1)])])
    );
}

#[test]
fn parsed_stats_that_are_not_wanted_are_not_returned() {
    let parsed = Raw::Object(vec![("numRecords", Raw::Leaf(Val::Int(70)))]);
    let row = Raw::Object(vec![(
        "add",
        Raw::Object(vec![
            ("path", text("a")),
            ("partitionValues", partitioned("south")),
            ("stats", text("1,1")),
            ("stats_parsed", parsed),
        ]),
    )]);
    let (mut scan, engine) = log(Some(("parquet", vec![row])), Vec::new());
    let own = CheckpointShape {
        checkpoint_type: CheckpointType::Leaf,
        parsed_stats_schema: Some(stats_schema()),
    };
    let arm = engine.run(&scan.checkpoint_arm(&own).unwrap().build().unwrap());
    let Val::Record(bare) = &arm[0][0] else { panic!("adds are not null") };
    assert_eq!(bare.len(), 11);
    assert_eq!(bare[5], Val::Text("1,1".to_string()));
    scan.state_info.physical_partition_schema = Some(partition_schema());
    let arm = engine.run(&scan.checkpoint_arm(&own).unwrap().build().unwrap());
    let Val::Record(partitioned) = &arm[0][0] else { panic!("adds are not null") };
    assert_eq!(partitioned.len(), 12);
    assert_eq!(partitioned[11], Val::Record(vec![Val::Text("south".to_string())]));
    assert_eq!(live::<MoreThanFive>(&scan, &engine, &own), vec!["a"]);
}

#[test]
fn pruning_keeps_the_live_adds_that_satisfy_it() {
    let checkpoint = vec![add("a", "1,9"), add("b", "1,9"), add("c", "1,1"), add("d", "1,9")];
    let commits = vec![
        vec![remove("b"), add("e", "1,9"), add("f", "1,1")],
        vec![add("d", "1,8"), remove("e")],
    ];
    let (mut scan, engine) = log(Some(("json", checkpoint)), commits);
    scan.state_info.physical_stats_schema = Some(stats_schema());
    assert_eq!(
        live::<MoreThanFive>(&scan, &engine, &leaf()),
        vec!["a", "c", "d", "f"]
    );
    scan.state_info.physical_predicate = wanted();
    assert_eq!(live::<MoreThanFive>(&scan, &engine, &leaf()), vec!["a", "d"]);
}

#[test]
fn one_of_several_newest_adds_is_returned() {
    let commits = vec![vec![add("a", "1,9"), add("a", "2,8")]];
    let (mut scan, engine) = log(None, commits);
    scan.state_info.physical_stats_schema = Some(stats_schema());
    scan.state_info.physical_predicate = wanted();
    assert_eq!(live::<MoreThanFive>(&scan, &engine, &absent()), vec!["a"]);
}

#[test]
fn returned_struct_is_narrowed() {
    let (mut scan, engine) = log(None, vec![vec![add("a", "7,3"), add("b", "junk")]]);
    let long = DataType::Primitive(PrimitiveType::Long);
    scan.state_info.physical_stats_schema = Some(stats_schema());
    scan.state_info.physical_partition_schema = Some(partition_schema());
    scan.physical_stats_output_schema = Some(Arc::new(StructType::new_unchecked(vec![
        StructField::nullable("numRecords", long),
    ])));
    scan.partition_values.parsed_struct = true;
    let all = rows::<MoreThanFive>(&scan, &engine, &absent());
    let Val::Record(a) = &all[0][0] else { panic!("adds are not null") };
    assert_eq!(a[11], Val::Record(vec![Val::Int(7)]));
    assert_eq!(a[12], Val::Record(vec![Val::Text("north".to_string())]));
    assert_eq!(a.len(), 13);
}

#[test]
fn sidecars_are_read_with_a_hint_and_without() {
    let sidecar = |path: &str| {
        Raw::Object(vec![(
            "sidecar",
            Raw::Object(vec![("path", text(path)), ("sizeInBytes", Raw::Leaf(Val::Int(1)))]),
        )])
    };
    let parts = vec![other_action(), sidecar("x.parquet"), sidecar("y.parquet")];
    let (mut scan, mut engine) = log(Some(("json", parts)), vec![vec![remove("b")]]);
    let directory = format!("{LOG}_sidecars/");
    let x = vec![add("a", "1,1"), add("b", "1,1")];
    engine.files.insert(format!("{directory}x.parquet"), x);
    engine.files.insert(format!("{directory}y.parquet"), vec![add("c", "1,1")]);
    let without = rows::<MoreThanFive>(&scan, &engine, &manifest());
    assert_eq!(live::<MoreThanFive>(&scan, &engine, &manifest()), vec!["a", "c"]);
    let listed = |path: &str| Sidecar {
        path: path.to_string(),
        size_in_bytes: 1,
        modification_time: 0,
    };
    scan.snapshot.log_segment.checkpoint_sidecars =
        Some(vec![listed("x.parquet"), listed("y.parquet")]);
    assert_eq!(rows::<MoreThanFive>(&scan, &engine, &manifest()), without);
}

#[test]
fn adds_of_the_checkpoint_are_at_its_version() {
    let (scan, engine) = log(Some(("json", vec![add("a", "1,1")])), Vec::new());
    let arm = scan.checkpoint_arm(&leaf()).unwrap();
    let all = engine.run(&arm.build().unwrap());
    assert_eq!(all[0][1], Val::Int(1));
    assert_eq!(all[0][2], Val::Bool(true));
    assert_eq!(all[0][3], Val::Record(vec![Val::Text("a".to_string()), Val::Null]));
}

#[test]
fn removes_of_the_commits_are_no_adds() {
    let commits = vec![vec![add("a", "1,1")], vec![remove_with_dv("a", "one"), other_action()]];
    let (scan, engine) = log(None, commits);
    let all = engine.run(&scan.commit_arm().unwrap().build().unwrap());
    assert_eq!(all.len(), 2);
    assert_eq!(all[1][0], Val::Null);
    assert_eq!(all[1][2], Val::Int(3));
    assert_eq!(all[1][3], Val::Bool(false));
    let dv = Val::Record(vec![
        Val::Text("i".to_string()),
        Val::Text("one".to_string()),
        Val::Null,
    ]);
    assert_eq!(all[1][4], Val::Record(vec![Val::Text("a".to_string()), dv]));
}

// --- The pruning predicate ---

fn state(predicate: PhysicalPredicate) -> StateInfo {
    StateInfo {
        physical_predicate: predicate,
        physical_stats_schema: Some(stats_schema()),
        physical_partition_schema: Some(partition_schema()),
        physical_stats_columns: vec![ColumnName::new(&["x"])],
    }
}

#[test]
fn metadata_columns_are_rooted_under_add() {
    let prefixer = MetadataSkippingColumnPrefixer;
    let moved = |path: &[&str]| prefixer.transform_expr_column(&ColumnName::new(path));
    assert_eq!(
        moved(&["stats_parsed", "minValues", "x"]),
        ColumnName::new(&["add", "stats_parsed", "minValues", "x"])
    );
    assert_eq!(
        moved(&["partitionValues_parsed"]),
        ColumnName::new(&["add", "partitionValues_parsed"])
    );
    assert_eq!(moved(&["is_add"]), ColumnName::new(&["is_add"]));
    assert_eq!(
        moved(&["add", "stats_parsed", "x"]),
        ColumnName::new(&["add", "stats_parsed", "x"])
    );
    assert_eq!(moved(&["x", "stats_parsed"]), ColumnName::new(&["x", "stats_parsed"]));
    assert_eq!(moved(&[]), ColumnName::new(&[]));
}

#[test]
fn every_column_of_an_expression_is_rooted() {
    let inner = |root: &[&str]| {
        let mut path = root.to_vec();
        path.push("a");
        Expr::column(&path)
    };
    let build = |root: &[&str]| {
        let condition = Predicate::Junction(
            JunctionOp::And,
            vec![
                Predicate::BooleanExpression(inner(root)),
                Predicate::Not(Box::new(Predicate::IsNull(inner(root)))),
                Predicate::Comparison(ComparisonOp::Equal, inner(root), Expr::column(&["is_add"])),
            ],
        );
        Expr::Struct(
            vec![
                Expr::Coalesce(vec![inner(root), Expr::Literal(Scalar::Boolean(true))]),
                Expr::ParseJson(Box::new(inner(root)), stats_schema()),
                Expr::MapToStruct(Box::new(inner(root))),
                Expr::Arithmetic(
                    ArithmeticOp::Plus,
                    Box::new(inner(root)),
                    Box::new(Expr::Literal(Scalar::Integer(1))),
                ),
                Expr::Predicate(Box::new(condition)),
            ],
            Some(Box::new(inner(root))),
        )
    };
    let prefixer = MetadataSkippingColumnPrefixer;
    assert_eq!(
        prefixer.transform_expr(&build(&["stats_parsed"])),
        build(&["add", "stats_parsed"])
    );
}

#[test]
fn pruning_keeps_what_is_not_proved_skippable() {
    let skipping = || Predicate::BooleanExpression(Expr::column(&["stats_parsed", "x"]));
    let expected = Predicate::Comparison(
        ComparisonOp::Distinct,
        Expr::Predicate(Box::new(Predicate::BooleanExpression(Expr::column(&[
            "add",
            "stats_parsed",
            "x",
        ])))),
        Expr::Literal(Scalar::Boolean(false)),
    );
    assert_eq!(prune_by(skipping()), expected);
}

#[test]
fn scan_without_a_predicate_prunes_nothing() {
    assert!(stats_skipping_predicate::<NotSouth>(&state(PhysicalPredicate::Absent)).is_none());
    let never = state(PhysicalPredicate::StaticSkipAll);
    assert!(stats_skipping_predicate::<NotSouth>(&never).is_none());
    let pruned = stats_skipping_predicate::<NotSouth>(&state(wanted())).unwrap();
    assert!(matches!(pruned, Predicate::Comparison(ComparisonOp::Distinct, _, _)));
}
