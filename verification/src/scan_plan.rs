//! Declarative metadata scan plans.
//!
//! `Scan::build_metadata_scan_plan` reconciles checkpoint and commit actions into live adds,
//! pruning on metadata before the newest action of a file wins.

use std::sync::Arc;

use vstd::prelude::*;

use crate::actions::{
    add_schema, add_view, deletion_vector_type, deletion_vector_view, remove_field,
    remove_field_view, sidecar_field, sidecar_field_view, ADD_NAME, PARTITION_VALUES_PARSED,
    REMOVE_NAME, SIDECAR_DIRECTORY, SIDECAR_NAME, STATS_PARSED,
};
use crate::arm_laws::{
    checkpoint_error, checkpoint_file_count, checkpoint_schema, commit_schema,
    lemma_checkpoint_outcome, lemma_commit_outcome,
};
use crate::checkpoint_shape::{CheckpointShape, CheckpointType, ShapeView};
use crate::error::Error;
use crate::expressions::{
    exprs_view, null_lit, opt_predicate_view, strings_view, strs_view, ColumnName, Expr, ExprView,
    PathView, Predicate, PredicateView, Scalar, ScalarView,
};
use crate::files::{scan_files_view, FileType, ScanFile, ScanFileView};
use crate::location::{join_location, url_join};
use crate::log_segment::{tag_with_versions, LogSegmentView, Snapshot};
use crate::plan::{
    aggregates_view, paths_view, relations_view, rows_view, yields, Load, LoadView, MaxNonNullBy,
    MaxNonNullByView, Plan, PlanBuilder, RelationView,
};
use crate::replay_laws::{law_plan_reconciles, lemma_plan_outcome, plan_error, reconciled};
use crate::schema::{
    boolean_type, distinct_names, field_pos, fields_view, has_field, integer_type, is_field_at,
    lemma_field_pos, lemma_has_field, long_type, nullable_field, opt_schema_view, required_field,
    resolve, share, text_type, DataType, DataTypeView, FieldView, PrimitiveType, SchemaRef,
    SchemaView, StructField, StructType,
};
use crate::semantics::{is_sound, rows_of_plan, Engine};
use crate::skipping::{prunes, stats_skipping_predicate, PhysicalPredicate, StateInfo};
use crate::stats_rules::StatsRules;
use crate::struct_patch::{
    appendable, PatchView, ProjectionStructPatchBuilder, SchemaStructPatchBuilder, SlotView,
};

verus! {

// --- Internal column names ---

/// The column that identifies the file of an action.
///
/// Adds and removes both have a path and a deletion vector. The plan brings them together in one
/// top-level column, by which it groups and joins.
pub const FILE_ACTION_KEY: &'static str = "file_action_key";

pub const STATS: &'static str = "stats";

pub const PARTITION_VALUES: &'static str = "partitionValues";

/// Generated partition pruning predicates refer to this column to keep removes.
pub const IS_ADD: &'static str = "is_add";

pub const VERSION: &'static str = "version";

// --- Scans ---

/// Which statistics a scan returns as JSON text.
#[derive(Debug)]
pub struct StatsOptions {
    pub synthesize_json: bool,
}

/// How a scan returns partition values.
#[derive(Debug)]
pub struct PartitionValuesOptions {
    pub parsed_struct: bool,
}

/// A scan of a table at one version.
#[derive(Debug)]
pub struct Scan {
    pub snapshot: Snapshot,
    pub state_info: StateInfo,
    pub stats: StatsOptions,
    /// The parsed statistics to return, if any.
    pub physical_stats_output_schema: Option<SchemaRef>,
    pub partition_values: PartitionValuesOptions,
}

/// What of a scan its metadata plan depends on, beside the pruning predicate.
pub struct ScanView {
    pub segment: LogSegmentView,
    pub stats_schema: Option<SchemaView>,
    pub partition_schema: Option<SchemaView>,
    pub synthesize_json: bool,
    pub stats_output_schema: Option<SchemaView>,
    pub parsed_partition_values: bool,
}

impl View for Scan {
    type V = ScanView;

    open spec fn view(&self) -> ScanView {
        ScanView {
            segment: self.snapshot.log_segment@,
            stats_schema: opt_schema_view(self.state_info.physical_stats_schema),
            partition_schema: opt_schema_view(self.state_info.physical_partition_schema),
            synthesize_json: self.stats.synthesize_json,
            stats_output_schema: opt_schema_view(self.physical_stats_output_schema),
            parsed_partition_values: self.partition_values.parsed_struct,
        }
    }
}

// --- Schemas ---

/// A schema in which every field may be null.
pub open spec fn all_nullable(schema: SchemaView) -> SchemaView {
    Seq::new(schema.len(), |i: int| nullable_field(schema[i].name, schema[i].data_type))
}

/// The children of add actions that were taken out of the union of actions.
///
/// A required child of a nullable struct may be null once taken out: rows of another action have a
/// null `add`, so their children are null. Nested types stay, for their own parent tells the nulls.
pub open spec fn extracted_add_view() -> SchemaView {
    all_nullable(add_view())
}

/// The column of add actions.
pub open spec fn extracted_add_field_view() -> FieldView {
    nullable_field(ADD_NAME@, DataTypeView::Struct(extracted_add_view()))
}

/// The version column.
pub open spec fn version_field_view() -> FieldView {
    nullable_field(VERSION@, long_type())
}

/// The parsed columns for which there is a schema, in the order in which they are appended.
pub open spec fn parsed_fields(
    stats: Option<SchemaView>,
    partitions: Option<SchemaView>,
) -> SchemaView {
    (match stats {
        Some(s) => seq![nullable_field(STATS_PARSED@, DataTypeView::Struct(s))],
        None => seq![],
    }) + (match partitions {
        Some(s) => seq![nullable_field(PARTITION_VALUES_PARSED@, DataTypeView::Struct(s))],
        None => seq![],
    })
}

/// The column of add actions with parsed columns at the end.
pub open spec fn add_with_parsed(
    stats: Option<SchemaView>,
    partitions: Option<SchemaView>,
) -> FieldView {
    nullable_field(
        ADD_NAME@,
        DataTypeView::Struct(extracted_add_view() + parsed_fields(stats, partitions)),
    )
}

/// The schema in which JSON actions are read. Commits have removes; JSON checkpoint leaves do not.
pub open spec fn json_read_view(include_remove: bool) -> SchemaView {
    if include_remove {
        seq![extracted_add_field_view(), remove_field_view(), version_field_view()]
    } else {
        seq![extracted_add_field_view(), version_field_view()]
    }
}

/// The schema in which Parquet adds are read.
pub open spec fn parquet_read_view(
    stats: Option<SchemaView>,
    partitions: Option<SchemaView>,
) -> SchemaView {
    seq![add_with_parsed(stats, partitions), version_field_view()]
}

/// The identity of a deletion vector.
pub open spec fn key_deletion_vector_view() -> SchemaView {
    seq![
        nullable_field("storageType"@, text_type()),
        nullable_field("pathOrInlineDv"@, text_type()),
        nullable_field("offset"@, integer_type()),
    ]
}

/// The identity of a file.
pub open spec fn key_view() -> SchemaView {
    seq![
        nullable_field("path"@, text_type()),
        nullable_field("deletionVector"@, DataTypeView::Struct(key_deletion_vector_view())),
    ]
}

/// The column that identifies the file of an action.
pub open spec fn file_action_key_field_view() -> FieldView {
    nullable_field(FILE_ACTION_KEY@, DataTypeView::Struct(key_view()))
}

/// The column that tells adds from removes.
pub open spec fn is_add_field_view() -> FieldView {
    required_field(IS_ADD@, boolean_type())
}

/// Every child of an add that was taken out of the union of actions may be null, and nothing else
/// of it changes; every part of a file's identity may be null.
pub proof fn law_extracted_children_are_nullable()
    ensures
        extracted_add_view().len() == add_view().len(),
        forall|i: int|
            0 <= i < add_view().len() ==> {
                let child = #[trigger] extracted_add_view()[i];
                &&& child.nullable
                &&& child.name == add_view()[i].name
                &&& child.data_type == add_view()[i].data_type
            },
        forall|i: int| 0 <= i < key_view().len() ==> (#[trigger] key_view()[i]).nullable,
        forall|i: int|
            0 <= i < key_deletion_vector_view().len() ==> (
            #[trigger] key_deletion_vector_view()[i]).nullable,
{
}

/// No name of an add's children or parsed columns occurs twice among them.
pub proof fn lemma_add_names_distinct(stats: Option<SchemaView>, partitions: Option<SchemaView>)
    ensures
        distinct_names(extracted_add_view() + parsed_fields(stats, partitions)),
        appendable(extracted_add_view(), parsed_fields(stats, partitions)),
{
    reveal_strlit("path");
    reveal_strlit("partitionValues");
    reveal_strlit("size");
    reveal_strlit("modificationTime");
    reveal_strlit("dataChange");
    reveal_strlit("stats");
    reveal_strlit("tags");
    reveal_strlit("deletionVector");
    reveal_strlit("baseRowId");
    reveal_strlit("defaultRowCommitVersion");
    reveal_strlit("clusteringProvider");
    reveal_strlit("stats_parsed");
    reveal_strlit("partitionValues_parsed");
    let base = extracted_add_view();
    let parsed = parsed_fields(stats, partitions);
    let all = base + parsed;
    assert("path"@[0] != "size"@[0] && "path"@[0] != "tags"@[0] && "size"@[0] != "tags"@[0]);
    assert forall|i: int, j: int| 0 <= i < j < all.len() implies (#[trigger] all[i]).name
        != (#[trigger] all[j]).name by {
        assert(all[i].name.len() != all[j].name.len() || all[i].name[0] != all[j].name[0]);
    }
    assert forall|i: int| 0 <= i < parsed.len() implies !has_field(
        base + parsed.take(i),
        (#[trigger] parsed[i]).name,
    ) by {
        let sofar = base + parsed.take(i);
        if has_field(sofar, parsed[i].name) {
            let k = field_pos(sofar, parsed[i].name);
            assert(is_field_at(sofar, parsed[i].name, k));
            assert(sofar[k] == all[k]);
            assert(all[base.len() + i] == parsed[i]);
        }
    }
}

/// The schema of adds that were taken out of the union of actions.
pub fn extracted_add_schema() -> (r: StructType)
    ensures
        r@ == extracted_add_view(),
{
    let schema = add_schema();
    let mut fields: Vec<StructField> = Vec::new();
    let mut i: usize = 0;
    while i < schema.fields.len()
        invariant
            i <= schema.fields.len(),
            fields.len() == i,
            schema@ == add_view(),
            forall|j: int| 0 <= j < i ==> (#[trigger] fields@[j])@ == extracted_add_view()[j],
        decreases schema.fields.len() - i,
    {
        let field = &schema.fields[i];
        assert(schema@[i as int] == field@);
        fields.push(StructField::nullable(field.name.as_str(), field.data_type.copy()));
        i = i + 1;
    }
    assert(fields_view(fields@) =~= extracted_add_view());
    StructType::new_unchecked(fields)
}

/// The column of add actions.
pub fn extracted_add_field() -> (r: StructField)
    ensures
        r@ == extracted_add_field_view(),
{
    let schema = extracted_add_schema();
    StructField::nullable(ADD_NAME, DataType::Struct(Arc::new(schema)))
}

fn version_field() -> (r: StructField)
    ensures
        r@ == version_field_view(),
{
    let long = DataType::Primitive(PrimitiveType::Long);
    StructField::nullable(VERSION, long)
}

/// The schema in which JSON actions are read. Commits have removes; JSON checkpoint leaves do not.
pub fn json_read_schema(include_remove: bool) -> (r: SchemaRef)
    ensures
        r@ == json_read_view(include_remove),
{
    let fields = if include_remove {
        vec![extracted_add_field(), remove_field(), version_field()]
    } else {
        vec![extracted_add_field(), version_field()]
    };
    assert(fields_view(fields@) =~= json_read_view(include_remove));
    Arc::new(StructType::new_unchecked(fields))
}

/// A struct column of the given schema that may be null.
fn struct_column(name: &str, schema: &SchemaRef) -> (r: StructField)
    ensures
        r@ == nullable_field(name@, DataTypeView::Struct(schema@)),
{
    let data_type = DataType::Struct(share(schema));
    StructField::nullable(name, data_type)
}

/// The patch that appends those parsed columns for which there is a schema.
fn parsed_columns(stats: Option<&SchemaRef>, partitions: Option<&SchemaRef>) -> (r:
    SchemaStructPatchBuilder)
    ensures
        r@ == parsed_fields(by_view(stats), by_view(partitions)),
{
    let mut patch = SchemaStructPatchBuilder::new();
    if let Some(schema) = stats {
        patch = patch.append(struct_column(STATS_PARSED, schema));
    }
    if let Some(schema) = partitions {
        patch = patch.append(struct_column(PARTITION_VALUES_PARSED, schema));
    }
    assert(patch@ =~= parsed_fields(by_view(stats), by_view(partitions)));
    patch
}

/// The view of an optional schema behind a reference.
pub open spec fn by_view(schema: Option<&SchemaRef>) -> Option<SchemaView> {
    match schema {
        Some(s) => Some(s@),
        None => None,
    }
}

/// The schema in which Parquet adds are read.
pub fn parquet_read_schema(
    physical_stats: Option<&SchemaRef>,
    physical_partitions: Option<&SchemaRef>,
) -> (r: Result<SchemaRef, Error>)
    ensures
        r matches Ok(schema) && schema@ == parquet_read_view(
            by_view(physical_stats),
            by_view(physical_partitions),
        ),
{
    let patch = parsed_columns(physical_stats, physical_partitions);
    proof {
        lemma_add_names_distinct(by_view(physical_stats), by_view(physical_partitions));
    }
    let add = patch.build(&extracted_add_schema())?;
    let add_field = StructField::nullable(ADD_NAME, DataType::Struct(Arc::new(add)));
    let fields = vec![add_field, version_field()];
    assert(fields_view(fields@) =~= parquet_read_view(
        by_view(physical_stats),
        by_view(physical_partitions),
    ));
    Ok(Arc::new(StructType::new_unchecked(fields)))
}

/// The column that identifies the file of an action.
pub fn file_action_key_field() -> (r: StructField)
    ensures
        r@ == file_action_key_field_view(),
{
    let dv_fields = vec![
        StructField::nullable("storageType", DataType::Primitive(PrimitiveType::Text)),
        StructField::nullable("pathOrInlineDv", DataType::Primitive(PrimitiveType::Text)),
        StructField::nullable("offset", DataType::Primitive(PrimitiveType::Integer)),
    ];
    assert(fields_view(dv_fields@) =~= key_deletion_vector_view());
    let fields = vec![
        StructField::nullable("path", DataType::Primitive(PrimitiveType::Text)),
        StructField::nullable("deletionVector", DataType::struct_of(dv_fields)),
    ];
    assert(fields_view(fields@) =~= key_view());
    StructField::nullable(FILE_ACTION_KEY, DataType::struct_of(fields))
}

// --- Expressions ---

/// A column inside of the add actions.
pub open spec fn add_col(name: Seq<char>) -> ExprView {
    ExprView::Column(seq![ADD_NAME@, name])
}

/// A top-level column.
pub open spec fn top_col(name: Seq<char>) -> ExprView {
    ExprView::Column(seq![name])
}

fn col1(name: &str) -> (r: Expr)
    ensures
        r@ == top_col(name@),
{
    let column = ColumnName::new(&[name]);
    assert(column@ =~= seq![name@]);
    Expr::Column(column)
}

fn col2(parent: &str, name: &str) -> (r: Expr)
    ensures
        r@ == ExprView::Column(seq![parent@, name@]),
{
    let column = ColumnName::new(&[parent, name]);
    assert(column@ =~= seq![parent@, name@]);
    Expr::Column(column)
}

fn name1(name: &str) -> (r: ColumnName)
    ensures
        r@ == seq![name@],
{
    let column = ColumnName::new(&[name]);
    assert(column@ =~= seq![name@]);
    column
}

fn name2(parent: &str, name: &str) -> (r: ColumnName)
    ensures
        r@ == seq![parent@, name@],
{
    let column = ColumnName::new(&[parent, name]);
    assert(column@ =~= seq![parent@, name@]);
    column
}

/// The path of the columns that identify a file, inside of an action.
pub open spec fn key_path() -> PathView {
    seq!["path"@]
}

/// The path of a child of the deletion vector, inside of an action.
pub open spec fn key_dv_path(name: Seq<char>) -> PathView {
    seq!["deletionVector"@, name]
}

/// Whether a path is one of those that identify a file, inside of an action.
pub open spec fn is_key_path(path: PathView) -> bool {
    ||| path == key_path()
    ||| path == key_dv_path("storageType"@)
    ||| path == key_dv_path("pathOrInlineDv"@)
    ||| path == key_dv_path("offset"@)
}

/// The identity of a file, from its path and the parts of its deletion vector. The deletion vector
/// is null where it has no storage type.
pub open spec fn key_expr(
    path: ExprView,
    storage_type: ExprView,
    path_or_inline_dv: ExprView,
    offset: ExprView,
) -> ExprView {
    ExprView::Struct(
        seq![
            path,
            ExprView::Struct(
                seq![storage_type, path_or_inline_dv, offset],
                Some(Box::new(storage_type.is_not_null().as_expr())),
            ),
        ],
        None,
    )
}

/// Whether `e` is an expression that a function gives for the column of the given path.
pub open spec fn gives<F: Fn(ColumnName) -> Expr>(f: F, path: PathView, e: ExprView) -> bool {
    exists|column: ColumnName, given: Expr|
        column@ == path && given@ == e && #[trigger] f.ensures((column,), given)
}

/// Builds a file identity from path and deletion vector. No other column is asked for.
pub fn file_action_key_expr<F: Fn(ColumnName) -> Expr>(key_col_expr: F) -> (r: Expr)
    requires
        forall|column: ColumnName|
            is_key_path(column@) ==> #[trigger] key_col_expr.requires((column,)),
    ensures
        exists|path: ExprView, storage_type: ExprView, inline: ExprView, offset: ExprView|
            {
                &&& gives(key_col_expr, key_path(), path)
                &&& gives(key_col_expr, key_dv_path("storageType"@), storage_type)
                &&& gives(key_col_expr, key_dv_path("pathOrInlineDv"@), inline)
                &&& gives(key_col_expr, key_dv_path("offset"@), offset)
                &&& r@ == #[trigger] key_expr(path, storage_type, inline, offset)
            },
{
    let storage_type = key_col_expr(name2("deletionVector", "storageType"));
    let path = key_col_expr(name1("path"));
    let inline = key_col_expr(name2("deletionVector", "pathOrInlineDv"));
    let offset = key_col_expr(name2("deletionVector", "offset"));
    let ghost (p, s, i, o) = (path@, storage_type@, inline@, offset@);
    let present = Expr::from_pred(storage_type.copy().is_not_null());
    let dv_children = vec![storage_type, inline, offset];
    assert(exprs_view(dv_children@) =~= seq![s, i, o]);
    let dv = Expr::struct_with_nullability_from(dv_children, present);
    let children = vec![path, dv];
    assert(exprs_view(children@) =~= seq![p, dv@]);
    let r = Expr::struct_from(children);
    assert(r@ == key_expr(p, s, i, o));
    r
}

/// What an add holds at the given path.
pub open spec fn in_add_view(path: PathView) -> ExprView {
    ExprView::Column(seq![ADD_NAME@] + path)
}

/// The identity of the file of an add.
pub open spec fn checkpoint_key_expr() -> ExprView {
    key_expr(
        in_add_view(key_path()),
        in_add_view(key_dv_path("storageType"@)),
        in_add_view(key_dv_path("pathOrInlineDv"@)),
        in_add_view(key_dv_path("offset"@)),
    )
}

/// What an add or else a remove holds at the given path.
pub open spec fn add_or_remove(path: PathView) -> ExprView {
    ExprView::Coalesce(
        seq![
            ExprView::Column(seq![ADD_NAME@] + path),
            ExprView::Column(seq![REMOVE_NAME@] + path),
        ],
    )
}

/// The identity of the file of an add or a remove.
pub open spec fn commit_key_expr() -> ExprView {
    key_expr(
        add_or_remove(key_path()),
        add_or_remove(key_dv_path("storageType"@)),
        add_or_remove(key_dv_path("pathOrInlineDv"@)),
        add_or_remove(key_dv_path("offset"@)),
    )
}

fn below(parent: &str, column: &ColumnName) -> (r: Expr)
    ensures
        r@ == ExprView::Column(seq![parent@] + column@),
{
    Expr::Column(name1(parent).join(column))
}

fn checkpoint_key() -> (r: Expr)
    ensures
        r@ == checkpoint_key_expr(),
{
    let in_add = |column: ColumnName| -> (e: Expr)
        ensures
            e@ == in_add_view(column@),
    {
        below(ADD_NAME, &column)
    };
    file_action_key_expr(in_add)
}

fn commit_key() -> (r: Expr)
    ensures
        r@ == commit_key_expr(),
{
    let in_either = |column: ColumnName| -> (e: Expr)
        ensures
            e@ == add_or_remove(column@),
    {
        let choices = vec![below(ADD_NAME, &column), below(REMOVE_NAME, &column)];
        assert(exprs_view(choices@) =~= seq![
            ExprView::Column(seq![ADD_NAME@] + column@),
            ExprView::Column(seq![REMOVE_NAME@] + column@),
        ]);
        Expr::coalesce(choices)
    };
    file_action_key_expr(in_either)
}

/// The struct at a path, rebuilt to hold the fields of a schema and no others. It is null where
/// the struct is.
pub open spec fn narrowed_expr(root: PathView, schema: SchemaView) -> ExprView
    decreases schema,
{
    ExprView::Struct(
        Seq::new(
            schema.len(),
            |i: int|
                if 0 <= i < schema.len() {
                    match schema[i].data_type {
                        DataTypeView::Struct(children) => narrowed_expr(
                            root.push(schema[i].name),
                            children,
                        ),
                        _ => ExprView::Column(root.push(schema[i].name)),
                    }
                } else {
                    arbitrary()
                },
        ),
        Some(Box::new(ExprView::Column(root).is_not_null().as_expr())),
    )
}

/// Rebuilds the struct at `root` to match a narrowed schema while preserving a null struct. A
/// direct column reference would retain fields that the caller did not request.
pub fn project_nested_struct_to_schema(root: &ColumnName, schema: &StructType) -> (r: Expr)
    ensures
        r@ == narrowed_expr(root@, schema@),
    decreases schema,
{
    let ghost expected = narrowed_expr(root@, schema@)->Struct_0;
    let mut fields: Vec<Expr> = Vec::new();
    let mut i: usize = 0;
    while i < schema.fields.len()
        invariant
            i <= schema.fields.len(),
            fields.len() == i,
            expected == narrowed_expr(root@, schema@)->Struct_0,
            forall|j: int| 0 <= j < i ==> (#[trigger] fields@[j])@ == expected[j],
        decreases schema.fields.len() - i,
    {
        let field = &schema.fields[i];
        assert(schema@[i as int] == field@);
        assert(decreases_to!(schema => schema.fields@[i as int]));
        let column = root.child(field.name.as_str());
        let projected = match &field.data_type {
            DataType::Struct(children) => project_nested_struct_to_schema(&column, children),
            _ => Expr::Column(column),
        };
        fields.push(projected);
        i = i + 1;
    }
    assert(exprs_view(fields@) =~= expected);
    let whole = Expr::Column(root.copy());
    Expr::struct_with_nullability_from(fields, Expr::from_pred(whole.is_not_null()))
}

// --- Parsed columns ---

/// Whether the adds of a relation have a child of the given name.
pub open spec fn add_has(schema: SchemaView, name: Seq<char>) -> bool {
    resolve(schema, seq![ADD_NAME@, name]) is Some
}

impl PatchView {
    /// The adds with parsed statistics, if they are wanted: the ones they have, or else the JSON
    /// text parsed.
    pub open spec fn with_parsed_add_stats(self, stats: Option<SchemaView>) -> PatchView {
        match stats {
            Some(schema) if !add_has(self.input_schema, STATS_PARSED@) => self.append_at(
                ADD_NAME@,
                nullable_field(STATS_PARSED@, DataTypeView::Struct(schema)),
                ExprView::ParseJson(Box::new(add_col(STATS@)), schema),
            ),
            _ => self,
        }
    }

    /// The adds without the parsed statistics that they have, if none are wanted.
    pub open spec fn without_unwanted_add_stats(self, stats: Option<SchemaView>) -> PatchView {
        if stats is None && add_has(self.input_schema, STATS_PARSED@) {
            self.without_at(ADD_NAME@, STATS_PARSED@)
        } else {
            self
        }
    }

    /// The adds with parsed partition values, if they are wanted: the ones they have where those
    /// are not null, or else the map of partition values turned into a struct.
    pub open spec fn with_parsed_add_partition_values(
        self,
        partitions: Option<SchemaView>,
    ) -> PatchView {
        match partitions {
            Some(schema) => {
                let field = nullable_field(PARTITION_VALUES_PARSED@, DataTypeView::Struct(schema));
                let from_map = ExprView::MapToStruct(Box::new(add_col(PARTITION_VALUES@)));
                if add_has(self.input_schema, PARTITION_VALUES_PARSED@) {
                    self.replace_at(
                        ADD_NAME@,
                        PARTITION_VALUES_PARSED@,
                        field,
                        ExprView::Coalesce(seq![add_col(PARTITION_VALUES_PARSED@), from_map]),
                    )
                } else {
                    self.append_at(ADD_NAME@, field, from_map)
                }
            },
            None => self,
        }
    }
}

impl ProjectionStructPatchBuilder {
    /// Parses the statistics of adds, preferring a parsed field.
    ///
    /// With a schema, the input must have either `add.stats_parsed` or the JSON text `add.stats`.
    pub fn with_parsed_add_stats(self, physical_stats: Option<&SchemaRef>) -> (r:
        ProjectionStructPatchBuilder)
        ensures
            r@ == self@.with_parsed_add_stats(by_view(physical_stats)),
    {
        let has_stats_parsed = self.input_schema.contains_col(&name2(ADD_NAME, STATS_PARSED));
        match physical_stats {
            Some(schema) => {
                let field = struct_column(STATS_PARSED, schema);
                let expr = Expr::parse_json(col2(ADD_NAME, STATS), share(schema));
                if has_stats_parsed {
                    self
                } else {
                    self.append_at(ADD_NAME, field, expr)
                }
            },
            None => self,
        }
    }

    /// Leaves out the parsed statistics of adds if there is no schema for them.
    pub fn without_unwanted_add_stats(self, physical_stats: Option<&SchemaRef>) -> (r:
        ProjectionStructPatchBuilder)
        ensures
            r@ == self@.without_unwanted_add_stats(by_view(physical_stats)),
    {
        let has_stats_parsed = self.input_schema.contains_col(&name2(ADD_NAME, STATS_PARSED));
        if physical_stats.is_none() && has_stats_parsed {
            self.without_at(ADD_NAME, STATS_PARSED)
        } else {
            self
        }
    }

    /// Parses the partition values of adds, preferring a parsed field.
    pub fn with_parsed_add_partition_values(self, physical_partitions: Option<&SchemaRef>) -> (r:
        ProjectionStructPatchBuilder)
        ensures
            r@ == self@.with_parsed_add_partition_values(by_view(physical_partitions)),
    {
        let has_partition_values_parsed = self.input_schema.contains_col(
            &name2(ADD_NAME, PARTITION_VALUES_PARSED),
        );
        match physical_partitions {
            Some(schema) => {
                let field = struct_column(PARTITION_VALUES_PARSED, schema);
                let expr = Expr::map_to_struct(col2(ADD_NAME, PARTITION_VALUES));
                if has_partition_values_parsed {
                    let parsed = col2(ADD_NAME, PARTITION_VALUES_PARSED);
                    let ghost (p, e) = (parsed@, expr@);
                    let choices = vec![parsed, expr];
                    assert(exprs_view(choices@) =~= seq![p, e]);
                    let expr = Expr::coalesce(choices);
                    self.replace_at(ADD_NAME, PARTITION_VALUES_PARSED, field, expr)
                } else {
                    self.append_at(ADD_NAME, field, expr)
                }
            },
            None => self,
        }
    }
}

// --- The output ---

/// The adds of a scan after parsing, on which all arms of its plan agree.
pub open spec fn normalized_add_view(scan: ScanView) -> FieldView {
    add_with_parsed(scan.stats_schema, scan.partition_schema)
}

/// The partition values to return, if any.
pub open spec fn output_partitions(scan: ScanView) -> Option<SchemaView> {
    if scan.parsed_partition_values {
        scan.partition_schema
    } else {
        None
    }
}

/// The projection of the adds to what the scan returns.
pub open spec fn output_patch(scan: ScanView, add_field: FieldView) -> PatchView {
    let input = seq![add_field];
    let start = PatchView::start(input, seq![ADD_NAME@]);
    let json = if !scan.synthesize_json && add_has(input, STATS@) {
        start.without(STATS@)
    } else {
        start
    };
    let stats = match scan.stats_output_schema {
        Some(schema) => json.replace(
            STATS_PARSED@,
            nullable_field(STATS_PARSED@, DataTypeView::Struct(schema)),
            narrowed_expr(seq![ADD_NAME@, STATS_PARSED@], schema),
        ),
        None => if add_has(input, STATS_PARSED@) {
            json.without(STATS_PARSED@)
        } else {
            json
        },
    };
    match output_partitions(scan) {
        Some(schema) => stats.replace(
            PARTITION_VALUES_PARSED@,
            nullable_field(PARTITION_VALUES_PARSED@, DataTypeView::Struct(schema)),
            narrowed_expr(seq![ADD_NAME@, PARTITION_VALUES_PARSED@], schema),
        ),
        None => if add_has(input, PARTITION_VALUES_PARSED@) {
            stats.without(PARTITION_VALUES_PARSED@)
        } else {
            stats
        },
    }
}

/// The expression of the output rows: nothing but the adds.
pub open spec fn output_expr(patch: PatchView) -> ExprView {
    ExprView::Struct(seq![patch.expr()], None)
}

/// The schema of the output rows: nothing but the adds.
pub open spec fn output_schema(patch: PatchView) -> SchemaView {
    seq![nullable_field(ADD_NAME@, DataTypeView::Struct(patch.schema()))]
}

/// The message for JSON statistics that are wanted and not there.
pub open spec fn json_stats_missing() -> Seq<char> {
    "JSON stats were requested, but add.stats is missing from the metadata schema"@
}

/// The message for parsed partition values that are wanted and not there.
pub open spec fn partition_values_missing() -> Seq<char> {
    "parsed partition values were requested, but add.partitionValues_parsed is missing"@
}

impl Scan {
    /// The adds of this scan after parsing: shared by the commit arm and both terminal
    /// projections, so that all arms agree on the schema of their union.
    pub fn normalized_add_field(&self) -> (r: Result<StructField, Error>)
        ensures
            r matches Ok(field) && field@ == normalized_add_view(self@),
    {
        let stats = self.state_info.physical_stats_schema.as_ref();
        let partitions = self.state_info.physical_partition_schema.as_ref();
        let patch = parsed_columns(stats, partitions);
        proof {
            lemma_add_names_distinct(by_view(stats), by_view(partitions));
        }
        let add = patch.build(&extracted_add_schema())?;
        Ok(StructField::nullable(ADD_NAME, DataType::Struct(Arc::new(add))))
    }

    /// Builds the output projection for the requested statistics and partition values, from adds
    /// of the given field.
    ///
    /// The output holds the children of an add, without the JSON statistics unless they are
    /// requested, and with the parsed statistics and the parsed partition values if those are.
    /// Fields that only pruning needs are left out.
    pub fn metadata_output_projection(&self, add_field: &StructField) -> (r: Result<
        (Arc<Expr>, SchemaRef),
        Error,
    >)
        ensures
            self@.synthesize_json && !add_has(seq![add_field@], STATS@) ==> (r matches Err(e)
                && e.is_internal(json_stats_missing())),
            !(self@.synthesize_json && !add_has(seq![add_field@], STATS@)) && output_partitions(
                self@,
            ) is Some && !add_has(seq![add_field@], PARTITION_VALUES_PARSED@) ==> (r matches Err(e)
                && e.is_internal(partition_values_missing())),
            !(self@.synthesize_json && !add_has(seq![add_field@], STATS@)) && !(output_partitions(
                self@,
            ) is Some && !add_has(seq![add_field@], PARTITION_VALUES_PARSED@)) ==> {
                let patch = output_patch(self@, add_field@);
                match r {
                    Ok((expr, schema)) => {
                        &&& patch.slots is Ok
                        &&& expr@ == output_expr(patch)
                        &&& schema@ == output_schema(patch)
                    },
                    Err(e) => patch.slots == Err::<Seq<SlotView>, Error>(e),
                }
            },
    {
        let input_fields = vec![add_field.copy()];
        assert(fields_view(input_fields@) =~= seq![add_field@]);
        let input_schema = Arc::new(StructType::new_unchecked(input_fields));
        let has_stats_parsed = input_schema.contains_col(&name2(ADD_NAME, STATS_PARSED));
        let projection = ProjectionStructPatchBuilder::new_nested(&input_schema, name1(ADD_NAME));

        // JSON statistics: as text only, parsed only, both, or neither.
        let has_json_stats = input_schema.contains_col(&name2(ADD_NAME, STATS));
        if self.stats.synthesize_json && !has_json_stats {
            return Err(
                Error::internal_error(
                    "JSON stats were requested, but add.stats is missing from the metadata schema",
                ),
            );
        }
        let projection = if !self.stats.synthesize_json && has_json_stats {
            projection.without(STATS)
        } else {
            projection
        };

        // Parsed statistics.
        let projection = match &self.physical_stats_output_schema {
            Some(physical_stats) => projection.replace(
                STATS_PARSED,
                struct_column(STATS_PARSED, physical_stats),
                project_nested_struct_to_schema(&name2(ADD_NAME, STATS_PARSED), physical_stats),
            ),
            None => {
                if has_stats_parsed {
                    projection.without(STATS_PARSED)
                } else {
                    projection
                }
            },
        };

        // Parsed partition values.
        let has_partition_values_parsed = input_schema.contains_col(
            &name2(ADD_NAME, PARTITION_VALUES_PARSED),
        );
        let physical_partitions = if self.partition_values.parsed_struct {
            self.state_info.physical_partition_schema.as_ref()
        } else {
            None
        };
        let projection = match physical_partitions {
            Some(schema) => {
                if !has_partition_values_parsed {
                    return Err(
                        Error::internal_error(
                            "parsed partition values were requested, but add.partitionValues_parsed is missing",
                        ),
                    );
                }
                projection.replace(
                    PARTITION_VALUES_PARSED,
                    struct_column(PARTITION_VALUES_PARSED, schema),
                    project_nested_struct_to_schema(
                        &name2(ADD_NAME, PARTITION_VALUES_PARSED),
                        schema,
                    ),
                )
            },
            None => {
                if has_partition_values_parsed {
                    projection.without(PARTITION_VALUES_PARSED)
                } else {
                    projection
                }
            },
        };

        let ghost patch = output_patch(self@, add_field@);
        let (add_schema, add_expr) = projection.build()?;
        let fields = vec![struct_column(ADD_NAME, &add_schema)];
        assert(fields_view(fields@) =~= output_schema(patch));
        let children = vec![add_expr];
        assert(exprs_view(children@) =~= seq![patch.expr()]);
        let schema = Arc::new(StructType::new_unchecked(fields));
        Ok((Arc::new(Expr::struct_from(children)), schema))
    }
}

// --- Sidecars ---

/// The columns that a manifest is read into: its sidecars, and its version.
pub open spec fn sidecar_read_view() -> SchemaView {
    seq![sidecar_field_view(), version_field_view()]
}

/// The columns that name the files to load.
pub open spec fn sidecar_file_meta_view() -> SchemaView {
    seq![
        required_field("path"@, text_type()),
        required_field("size"@, long_type()),
        nullable_field("num_records"@, long_type()),
        nullable_field("dv"@, DataTypeView::Struct(deletion_vector_view())),
        nullable_field(VERSION@, long_type()),
    ]
}

/// A column inside of the sidecar actions.
pub open spec fn sidecar_col(name: Seq<char>) -> ExprView {
    ExprView::Column(seq![SIDECAR_NAME@, name])
}

/// The expression that turns a sidecar action into the file to load.
pub open spec fn sidecar_file_expr() -> ExprView {
    ExprView::Struct(
        seq![
            sidecar_col("path"@),
            sidecar_col("sizeInBytes"@),
            ExprView::Literal(ScalarView::Null(long_type())),
            ExprView::Literal(ScalarView::Null(DataTypeView::Struct(deletion_vector_view()))),
            top_col(VERSION@),
        ],
        None,
    )
}

/// How sidecars are loaded from a directory.
pub open spec fn sidecar_load(action_schema: SchemaView, directory: Seq<char>) -> LoadView {
    LoadView {
        schema: action_schema,
        file_type: FileType::Parquet,
        path: seq!["path"@],
        size: seq!["size"@],
        num_records: seq!["num_records"@],
        deletion_vector: seq!["dv"@],
        base_url: directory,
        constants: seq![VERSION@],
    }
}

/// The files to load that a manifest names.
pub open spec fn named_sidecars(
    file_type: FileType,
    root_parts: Seq<ScanFileView>,
) -> Result<RelationView, Error> {
    match RelationView::scan(file_type, root_parts, seq![VERSION@], sidecar_read_view()) {
        Err(e) => Err(e),
        Ok(manifest) => manifest.filter(sidecar_col("path"@).is_not_null()).project(
            sidecar_file_expr(),
            sidecar_file_meta_view(),
        ),
    }
}

fn version_constant() -> (r: [&'static str; 1])
    ensures
        strs_view(r@) == seq![VERSION@],
{
    let r = [VERSION];
    assert(strs_view(r@) =~= seq![VERSION@]);
    r
}

/// The files to load that a manifest names.
fn name_sidecars(file_type: FileType, root_parts: Vec<ScanFile>) -> (r: Result<PlanBuilder, Error>)
    ensures
        yields(r, named_sidecars(file_type, scan_files_view(root_parts@))),
{
    let long = DataType::Primitive(PrimitiveType::Long);
    let read_fields = vec![sidecar_field(), version_field()];
    assert(fields_view(read_fields@) =~= sidecar_read_view());
    let read_schema = Arc::new(StructType::new_unchecked(read_fields));
    let meta_fields = vec![
        StructField::not_null("path", DataType::Primitive(PrimitiveType::Text)),
        StructField::not_null("size", long.copy()),
        StructField::nullable("num_records", long.copy()),
        StructField::nullable("dv", deletion_vector_type()),
        version_field(),
    ];
    assert(fields_view(meta_fields@) =~= sidecar_file_meta_view());
    let meta_schema = Arc::new(StructType::new_unchecked(meta_fields));

    let manifest = match file_type {
        FileType::Json => PlanBuilder::scan_json(root_parts, &version_constant(), read_schema),
        FileType::Parquet => PlanBuilder::scan_parquet(
            root_parts,
            &version_constant(),
            read_schema,
        ),
    };
    let children = vec![
        col2(SIDECAR_NAME, "path"),
        col2(SIDECAR_NAME, "sizeInBytes"),
        null_lit(long),
        null_lit(deletion_vector_type()),
        col1(VERSION),
    ];
    assert(exprs_view(children@) =~= sidecar_file_expr()->Struct_0);
    manifest?.filter(col2(SIDECAR_NAME, "path").is_not_null()).project(
        Arc::new(Expr::struct_from(children)),
        meta_schema,
    )
}

/// Reads the actions of sidecars in the given directory.
pub fn load_sidecars(
    sidecar_files: PlanBuilder,
    action_schema: SchemaRef,
    directory: String,
) -> (r: Result<PlanBuilder, Error>)
    ensures
        yields(r, sidecar_files@.load(sidecar_load(action_schema@, directory@))),
{
    let constants = vec![VERSION.to_owned()];
    assert(strings_view(constants@) =~= seq![VERSION@]);
    let load = Load {
        schema: action_schema,
        file_type: FileType::Parquet,
        path: name1("path"),
        size: name1("size"),
        num_records: name1("num_records"),
        deletion_vector: name1("dv"),
        base_url: directory,
        constants,
    };
    sidecar_files.load(load)
}

/// The actions of the sidecars that a manifest names, of a log at the given location.
pub open spec fn manifest_relation(
    file_type: FileType,
    root_parts: Seq<ScanFileView>,
    action_schema: SchemaView,
    log_root: Seq<char>,
) -> Result<RelationView, Error> {
    match named_sidecars(file_type, root_parts) {
        Err(e) => Err(e),
        Ok(files) => match url_join(log_root, SIDECAR_DIRECTORY@) {
            Some(directory) => files.load(sidecar_load(action_schema, directory)),
            None => Err(Error::InvalidUrl),
        },
    }
}

/// Reads the actions of the sidecars that a manifest names, of a log at the given location.
pub fn sidecar_actions(
    file_type: FileType,
    root_parts: Vec<ScanFile>,
    action_schema: SchemaRef,
    log_root: &str,
) -> (r: Result<PlanBuilder, Error>)
    ensures
        yields(
            r,
            manifest_relation(
                file_type,
                scan_files_view(root_parts@),
                action_schema@,
                log_root@,
            ),
        ),
{
    let sidecar_files = name_sidecars(file_type, root_parts)?;
    let directory = join_location(log_root, SIDECAR_DIRECTORY)?;
    load_sidecars(sidecar_files, action_schema, directory)
}

// --- The arms ---

/// The condition under which a row holds an add.
pub open spec fn has_add() -> PredicateView {
    add_col("path"@).is_not_null()
}

/// The condition under which a row holds an add or a remove.
pub open spec fn has_file_action() -> PredicateView {
    has_add().or(ExprView::Column(seq![REMOVE_NAME@, "path"@]).is_not_null())
}

/// The rows of an arm: the columns read, with the adds parsed as far as there are schemas for it,
/// and then whether the row is an add and the identity of its file.
pub open spec fn arm_patch(
    scan: ScanView,
    input_schema: SchemaView,
    key: ExprView,
) -> PatchView {
    PatchView::start(input_schema, seq![]).with_parsed_add_stats(
        scan.stats_schema,
    ).without_unwanted_add_stats(scan.stats_schema).with_parsed_add_partition_values(
        scan.partition_schema,
    ).append(is_add_field_view(), has_add().as_expr()).append(file_action_key_field_view(), key)
}

/// The actions of a checkpoint as they are read.
pub open spec fn checkpoint_actions(scan: ScanView, shape: ShapeView) -> Result<
    RelationView,
    Error,
> {
    let read_view = parquet_read_view(shape.parsed_stats_schema, None);
    match scan.segment.tagged_checkpoint() {
        Err(e) => Err(e),
        Ok(checkpoint) => match (shape.checkpoint_type, checkpoint) {
            (CheckpointType::Leaf, Some((FileType::Parquet, parts))) => RelationView::scan(
                FileType::Parquet,
                parts,
                seq![VERSION@],
                read_view,
            ),
            (CheckpointType::Leaf, Some((FileType::Json, parts))) => RelationView::scan(
                FileType::Json,
                parts,
                seq![VERSION@],
                json_read_view(false),
            ),
            (
                CheckpointType::Manifest,
                Some((file_type, parts)),
            ) => match scan.segment.tagged_hint_sidecars() {
                Err(e) => Err(e),
                Ok(Some(sidecars)) => RelationView::scan(
                    FileType::Parquet,
                    sidecars,
                    seq![VERSION@],
                    read_view,
                ),
                Ok(None) => manifest_relation(
                    file_type,
                    parts,
                    read_view,
                    scan.segment.log_root,
                ),
            },
            _ => RelationView::values(json_read_view(false), seq![]),
        },
    }
}

/// The adds of a checkpoint, parsed and identified.
pub open spec fn checkpoint_relation(scan: ScanView, shape: ShapeView) -> Result<
    RelationView,
    Error,
> {
    match checkpoint_actions(scan, shape) {
        Err(e) => Err(e),
        Ok(actions) => actions.filter(has_add()).project_patch(
            arm_patch(scan, actions.schema, checkpoint_key_expr()),
        ),
    }
}

/// The adds and removes of the commits, parsed and identified.
pub open spec fn commit_relation(scan: ScanView) -> Result<RelationView, Error> {
    match tag_with_versions(scan.segment.commit_cover) {
        Err(e) => Err(e),
        Ok(files) => match RelationView::scan(
            FileType::Json,
            files,
            seq![VERSION@],
            json_read_view(true),
        ) {
            Err(e) => Err(e),
            Ok(actions) => actions.filter(has_file_action()).project_patch(
                arm_patch(scan, actions.schema, commit_key_expr()),
            ),
        },
    }
}

/// The file identity and the kind of action appended to the rows of an arm.
fn identify(patch: ProjectionStructPatchBuilder, key: Expr) -> (r: ProjectionStructPatchBuilder)
    ensures
        r@ == patch@.append(is_add_field_view(), has_add().as_expr()).append(
            file_action_key_field_view(),
            key@,
        ),
{
    let boolean = DataType::Primitive(PrimitiveType::Boolean);
    patch.append(
        StructField::not_null(IS_ADD, boolean),
        Expr::from_pred(col2(ADD_NAME, "path").is_not_null()),
    ).append(file_action_key_field(), key)
}

impl Scan {
    /// The adds with the parsed columns for which this scan has a schema, and no others.
    fn parse_adds(&self, patch: ProjectionStructPatchBuilder) -> (r: ProjectionStructPatchBuilder)
        ensures
            r@ == patch@.with_parsed_add_stats(self@.stats_schema).without_unwanted_add_stats(
                self@.stats_schema,
            ).with_parsed_add_partition_values(self@.partition_schema),
    {
        let stats = self.state_info.physical_stats_schema.as_ref();
        let partitions = self.state_info.physical_partition_schema.as_ref();
        patch.with_parsed_add_stats(stats).without_unwanted_add_stats(
            stats,
        ).with_parsed_add_partition_values(partitions)
    }

    /// Builds the normalized checkpoint adds; an empty relation when there is no checkpoint.
    ///
    /// ## SQL equivalent:
    ///
    /// ```text
    /// SELECT STRUCT(
    ///          add.* EXCEPT (stats_parsed, partitionValues_parsed),
    ///          add.stats_parsed AS stats_parsed,
    ///          MAP_TO_STRUCT(add.partitionValues, physical_partitions) AS partitionValues_parsed
    ///        ) AS add,
    ///        version, add.path IS NOT NULL AS is_add, file_key(add) AS key
    /// FROM checkpoint_actions
    /// WHERE add.path IS NOT NULL
    /// ```
    ///
    /// When the checkpoint lacks parsed statistics, `FROM_JSON(add.stats, physical_stats)` stands
    /// in the place of `add.stats_parsed`. A parsed field is left out when its schema is absent,
    /// also if the checkpoint has it.
    pub fn checkpoint_arm(&self, shape: &CheckpointShape) -> (r: Result<PlanBuilder, Error>)
        ensures
            yields(r, checkpoint_relation(self@, shape@)),
            match (r, checkpoint_error(self@, shape@)) {
                (Ok(arm), None) => {
                    let add = arm@.schema[0].data_type->Struct_0;
                    &&& arm@.schema == checkpoint_schema(self@, shape@)
                    &&& has_field(add, STATS_PARSED@) <==> self@.stats_schema is Some
                    &&& has_field(add, PARTITION_VALUES_PARSED@)
                        <==> self@.partition_schema is Some
                },
                (Err(e), Some(f)) => e == f,
                _ => false,
            },
    {
        proof {
            lemma_checkpoint_outcome(self@, shape@);
        }
        let log_segment = self.snapshot.log_segment();
        let checkpoint = log_segment.checkpoint_version_tagged_scan_files()?;
        let source_physical_stats = shape.parsed_stats_schema.as_ref();
        let actions = match (shape.checkpoint_type, checkpoint) {
            (CheckpointType::Leaf, Some((FileType::Parquet, parts))) => {
                let schema = parquet_read_schema(source_physical_stats, None)?;
                PlanBuilder::scan_parquet(parts, &version_constant(), schema)
            },
            (CheckpointType::Leaf, Some((FileType::Json, parts))) => PlanBuilder::scan_json(
                parts,
                &version_constant(),
                json_read_schema(false),
            ),
            (CheckpointType::Manifest, Some((file_type, parts))) => {
                let schema = parquet_read_schema(source_physical_stats, None)?;
                match log_segment.checkpoint_hint_version_tagged_sidecar_scan_files()? {
                    Some(sidecars) => PlanBuilder::scan_parquet(
                        sidecars,
                        &version_constant(),
                        schema,
                    ),
                    // Without a complete hint, load the sidecars that the manifest refers to.
                    None => sidecar_actions(
                        file_type,
                        parts,
                        schema,
                        log_segment.log_root.as_str(),
                    ),
                }
            },
            _ => {
                let rows: Vec<Vec<Scalar>> = Vec::new();
                assert(rows_view(rows@) =~= seq![]);
                PlanBuilder::values(json_read_schema(false), rows)
            },
        }?;
        let patch = self.parse_adds(ProjectionStructPatchBuilder::new(&actions.schema));
        actions.filter(col2(ADD_NAME, "path").is_not_null()).project_patch(
            identify(patch, checkpoint_key()),
        )
    }

    /// Builds the normalized commit actions.
    ///
    /// ## SQL equivalent:
    ///
    /// ```text
    /// SELECT STRUCT(
    ///          add.* EXCEPT (stats_parsed, partitionValues_parsed),
    ///          FROM_JSON(add.stats, physical_stats) AS stats_parsed,
    ///          MAP_TO_STRUCT(add.partitionValues, physical_partitions) AS partitionValues_parsed
    ///        ) AS add,
    ///        remove, version, add.path IS NOT NULL AS is_add,
    ///        file_key(COALESCE(add, remove)) AS key
    /// FROM json_commits
    /// WHERE add.path IS NOT NULL OR remove.path IS NOT NULL
    /// ```
    ///
    /// A parsed field is left out when its schema is absent.
    pub fn commit_arm(&self) -> (r: Result<PlanBuilder, Error>)
        ensures
            yields(r, commit_relation(self@)),
            match (r, tag_with_versions(self@.segment.commit_cover)) {
                (Ok(arm), Ok(_)) => arm@.schema == commit_schema(self@),
                (Err(e), Err(f)) => e == f,
                _ => false,
            },
    {
        proof {
            lemma_commit_outcome(self@);
        }
        let log_segment = self.snapshot.log_segment();
        let commit_files = log_segment.commit_cover_version_tagged_scan_files()?;
        let actions = PlanBuilder::scan_json(
            commit_files,
            &version_constant(),
            json_read_schema(true),
        )?;
        // Commits never hold parsed columns, so these come from the raw encodings.
        let patch = self.parse_adds(ProjectionStructPatchBuilder::new(&actions.schema));
        actions.filter(
            Predicate::or(
                col2(ADD_NAME, "path").is_not_null(),
                col2(REMOVE_NAME, "path").is_not_null(),
            ),
        ).project_patch(identify(patch, commit_key()))
    }
}

// --- The plan ---

/// The commit actions to keep: all removes, and the adds that the pruning predicate keeps.
///
/// Adds must be pruned by their partition values here, for nothing else may do it. Removes must
/// not: a null partition value of a remove may mean that it has no partition values at all.
pub open spec fn commit_prune(prune: Option<PredicateView>) -> Option<PredicateView> {
    match prune {
        Some(p) => Some(PredicateView::IsNull(top_col(ADD_NAME@)).or(p)),
        None => None,
    }
}

/// The commit actions to keep: all removes, and the adds that the pruning predicate keeps.
fn prune_commits(actions: PlanBuilder, prune: &Option<Predicate>) -> (r: PlanBuilder)
    ensures
        r@ == actions@.filter_opt(commit_prune(opt_predicate_view(*prune))),
{
    match prune {
        Some(prune) => actions.filter(Predicate::or(col1(ADD_NAME).is_null(), prune.copy())),
        None => actions,
    }
}

/// The column by which actions on one file are brought together.
pub open spec fn file_key_columns() -> Seq<PathView> {
    seq![seq![FILE_ACTION_KEY@]]
}

/// The add of the newest action on a file; null if that is a remove.
pub open spec fn newest_add() -> Seq<MaxNonNullByView> {
    seq![
        MaxNonNullByView {
            value: seq![ADD_NAME@],
            witness: seq![FILE_ACTION_KEY@],
            order: seq![VERSION@],
        },
    ]
}

/// The newest action on each file that the commits act on.
pub open spec fn deduped_commits(commits: RelationView, prune: Option<PredicateView>) -> Result<
    RelationView,
    Error,
> {
    commits.filter_opt(commit_prune(prune)).aggregate_by(file_key_columns(), newest_add())
}

/// The newest action on each file that the commits act on.
///
/// A group holds the adds and removes of one file. A winning add passes through, a winning remove
/// leaves null.
fn dedup_commits(commits: PlanBuilder, prune: &Option<Predicate>) -> (r: Result<PlanBuilder, Error>)
    ensures
        yields(r, deduped_commits(commits@, opt_predicate_view(*prune))),
{
    let keys = vec![name1(FILE_ACTION_KEY)];
    assert(paths_view(keys@) =~= file_key_columns());
    let aggregates = vec![
        MaxNonNullBy {
            value: name1(ADD_NAME),
            witness: name1(FILE_ACTION_KEY),
            order: name1(VERSION),
        },
    ];
    assert(aggregates_view(aggregates@) =~= newest_add());
    prune_commits(commits, prune).aggregate_by(keys, aggregates)
}

/// The live adds of commits and a checkpoint, projected to what a scan returns.
pub open spec fn live_adds(
    deduped: RelationView,
    checkpoint: RelationView,
    prune: Option<PredicateView>,
    expr: ExprView,
    schema: SchemaView,
) -> Result<RelationView, Error> {
    match checkpoint.filter_opt(prune).anti_join(deduped, file_key_columns(), file_key_columns()) {
        Err(e) => Err(e),
        Ok(kept) => match kept.project(expr, schema) {
            Err(e) => Err(e),
            Ok(checkpoint_live) => match deduped.filter(
                top_col(ADD_NAME@).is_not_null(),
            ).project(expr, schema) {
                Err(e) => Err(e),
                Ok(commit_live) => RelationView::union_all(seq![commit_live, checkpoint_live]),
            },
        },
    }
}

/// The live adds of commits and a checkpoint, projected to what a scan returns.
fn unite_live_adds(
    deduped: PlanBuilder,
    checkpoint: PlanBuilder,
    prune: &Option<Predicate>,
    expr: Arc<Expr>,
    schema: SchemaRef,
) -> (r: Result<PlanBuilder, Error>)
    ensures
        yields(
            r,
            live_adds(deduped@, checkpoint@, opt_predicate_view(*prune), expr@, schema@),
        ),
{
    let checkpoint_adds = match prune {
        Some(prune) => checkpoint.filter(prune.copy()),
        None => checkpoint,
    };
    let left_keys = vec![name1(FILE_ACTION_KEY)];
    let right_keys = vec![name1(FILE_ACTION_KEY)];
    assert(paths_view(left_keys@) =~= file_key_columns());
    assert(paths_view(right_keys@) =~= file_key_columns());
    let checkpoint_live_adds = checkpoint_adds.anti_join(
        deduped.copy(),
        left_keys,
        right_keys,
    )?.project(share(&expr), share(&schema))?;
    let commit_live_adds = deduped.filter(col1(ADD_NAME).is_not_null()).project(expr, schema)?;
    let ghost (commit_view, checkpoint_view) = (commit_live_adds@, checkpoint_live_adds@);
    let arms = vec![commit_live_adds, checkpoint_live_adds];
    assert(relations_view(arms@) =~= seq![commit_view, checkpoint_view]);
    PlanBuilder::union_all(arms)
}

/// The live adds of a scan.
pub open spec fn metadata_relation(
    scan: ScanView,
    shape: ShapeView,
    prune: Option<PredicateView>,
) -> Result<RelationView, Error> {
    let output = output_patch(scan, normalized_add_view(scan));
    match output.slots {
        Err(e) => Err(e),
        Ok(_) => match commit_relation(scan) {
            Err(e) => Err(e),
            Ok(commits) => match deduped_commits(commits, prune) {
                Err(e) => Err(e),
                Ok(deduped) => match checkpoint_relation(scan, shape) {
                    Err(e) => Err(e),
                    Ok(checkpoint) => live_adds(
                        deduped,
                        checkpoint,
                        prune,
                        output_expr(output),
                        output_schema(output),
                    ),
                },
            },
        },
    }
}

/// Whether an outcome is the plan of a relation, or none if the relation is empty.
pub open spec fn plans(
    r: Result<Option<Arc<Plan>>, Error>,
    relation: Result<RelationView, Error>,
) -> bool {
    match (r, relation) {
        (Ok(Some(plan)), Ok(rel)) => rel.plan == Some(plan@),
        (Ok(None), Ok(rel)) => rel.plan is None,
        (Err(e), Err(f)) => e == f,
        _ => false,
    }
}

/// Whether a plan, or none, yields the live adds of a scan, whatever the files hold.
pub open spec fn returns_live_adds(
    plan: Option<Arc<Plan>>,
    scan: ScanView,
    shape: ShapeView,
    prune: Option<PredicateView>,
) -> bool {
    forall|engine: Engine|
        is_sound(engine) ==> #[trigger] reconciled(engine, scan, shape, prune) == (match plan {
            Some(p) => rows_of_plan(engine, p@),
            None => seq![],
        })
}

/// The plan of the live adds of a scan yields them.
proof fn lemma_returns_live_adds(
    plan: Option<Arc<Plan>>,
    scan: ScanView,
    shape: ShapeView,
    prune: Option<PredicateView>,
)
    requires
        plans(Ok(plan), metadata_relation(scan, shape, prune)),
    ensures
        returns_live_adds(plan, scan, shape, prune),
{
    assert forall|engine: Engine| is_sound(engine) implies #[trigger] reconciled(
        engine,
        scan,
        shape,
        prune,
    ) == (match plan {
        Some(p) => rows_of_plan(engine, p@),
        None => seq![],
    }) by {
        law_plan_reconciles(engine, scan, shape, prune);
    }
}

/// The first column of a schema is where its name leads.
pub proof fn lemma_resolve_first(schema: SchemaView, children: SchemaView, name: Seq<char>)
    requires
        schema.len() > 0,
        schema[0].data_type == DataTypeView::Struct(children),
    ensures
        has_field(schema, schema[0].name),
        field_pos(schema, schema[0].name) == 0,
        resolve(schema, seq![schema[0].name]) == Some(schema[0]),
        resolve(schema, seq![schema[0].name, name]) == resolve(children, seq![name]),
        resolve(children, seq![name]) is Some <==> has_field(children, name),
{
    assert(is_field_at(schema, schema[0].name, 0));
    lemma_field_pos(schema, schema[0].name, 0);
    let path = seq![schema[0].name, name];
    assert(path.drop_first() =~= seq![name]);
}

/// The normalized adds have their JSON statistics, and their parsed columns if there is a schema.
pub proof fn lemma_normalized_children(scan: ScanView)
    ensures
        add_has(seq![normalized_add_view(scan)], STATS@),
        add_has(seq![normalized_add_view(scan)], STATS_PARSED@) <==> scan.stats_schema is Some,
        add_has(seq![normalized_add_view(scan)], PARTITION_VALUES_PARSED@)
            <==> scan.partition_schema is Some,
{
    let parsed = parsed_fields(scan.stats_schema, scan.partition_schema);
    let children = extracted_add_view() + parsed;
    let schema = seq![normalized_add_view(scan)];
    lemma_resolve_first(schema, children, STATS@);
    lemma_resolve_first(schema, children, STATS_PARSED@);
    lemma_resolve_first(schema, children, PARTITION_VALUES_PARSED@);
    assert(children[5] == extracted_add_view()[5]);
    lemma_has_field(children, STATS@, 5);
    lemma_parsed_children(scan.stats_schema, scan.partition_schema);
}

/// The parsed columns of adds are those for which there is a schema.
pub proof fn lemma_parsed_children(stats: Option<SchemaView>, partitions: Option<SchemaView>)
    ensures
        has_field(extracted_add_view() + parsed_fields(stats, partitions), STATS_PARSED@)
            <==> stats is Some,
        has_field(
            extracted_add_view() + parsed_fields(stats, partitions),
            PARTITION_VALUES_PARSED@,
        ) <==> partitions is Some,
{
    let base = extracted_add_view();
    let children = base + parsed_fields(stats, partitions);
    // Were a column there without a schema, it would stand twice with one.
    let full = base + parsed_fields(
        if stats is Some {
            stats
        } else {
            Some(seq![])
        },
        if partitions is Some {
            partitions
        } else {
            Some(seq![])
        },
    );
    lemma_add_names_distinct(
        if stats is Some {
            stats
        } else {
            Some(seq![])
        },
        if partitions is Some {
            partitions
        } else {
            Some(seq![])
        },
    );
    assert(full[11].name == STATS_PARSED@);
    assert(full[12].name == PARTITION_VALUES_PARSED@);
    if stats is Some {
        assert(children[11].name == STATS_PARSED@);
        lemma_has_field(children, STATS_PARSED@, 11);
    } else if has_field(children, STATS_PARSED@) {
        let k = field_pos(children, STATS_PARSED@);
        assert(is_field_at(children, STATS_PARSED@, k));
        if k < 11 {
            assert(children[k] == full[k]);
        } else {
            assert(children[k].name == full[12].name);
        }
    }
    if partitions is Some {
        let k = children.len() - 1;
        assert(children[k].name == PARTITION_VALUES_PARSED@);
        lemma_has_field(children, PARTITION_VALUES_PARSED@, k);
    } else if has_field(children, PARTITION_VALUES_PARSED@) {
        let k = field_pos(children, PARTITION_VALUES_PARSED@);
        assert(is_field_at(children, PARTITION_VALUES_PARSED@, k));
        assert(children[k].name == full[k].name);
    }
}

impl Scan {
    /// Builds the plan of the live adds from checkpoint and commit actions.
    ///
    /// Returns no plan for an empty result or a statically false predicate.
    pub fn build_metadata_scan_plan<R: StatsRules>(&self, shape: &CheckpointShape) -> (r: Result<
        Option<Arc<Plan>>,
        Error,
    >)
        ensures
            self.state_info.physical_predicate is StaticSkipAll ==> r == Ok::<
                Option<Arc<Plan>>,
                Error,
            >(None),
            !(self.state_info.physical_predicate is StaticSkipAll) ==> exists|
                prune: Option<PredicateView>,
            |
                {
                    &&& prunes::<R>(&self.state_info, prune)
                    &&& plans(r, #[trigger] metadata_relation(self@, shape@, prune))
                    &&& r matches Ok(plan) ==> returns_live_adds(plan, self@, shape@, prune)
                },
            !(self.state_info.physical_predicate is StaticSkipAll) ==> match (
                r,
                plan_error(self@, shape@),
            ) {
                (Ok(plan), None) => plan is None <==> self@.segment.commit_cover.len() == 0
                    && checkpoint_file_count(self@, shape@) == 0,
                (Err(e), Some(f)) => e == f,
                _ => false,
            },
    {
        // A predicate that can never be satisfied skips the whole table.
        if let PhysicalPredicate::StaticSkipAll = &self.state_info.physical_predicate {
            return Ok(None);
        }
        let prune = stats_skipping_predicate::<R>(&self.state_info);
        let ghost p = opt_predicate_view(prune);
        proof {
            lemma_normalized_children(self@);
            lemma_plan_outcome(self@, shape@, p);
        }
        let add_field = self.normalized_add_field()?;
        let (output_expr, output_schema) = self.metadata_output_projection(&add_field)?;

        let deduped_commit = dedup_commits(self.commit_arm()?, &prune)?;
        let checkpoint_adds = self.checkpoint_arm(shape)?;
        let united = unite_live_adds(
            deduped_commit,
            checkpoint_adds,
            &prune,
            output_expr,
            output_schema,
        )?;
        let plan = united.build_opt();
        proof {
            lemma_returns_live_adds(plan, self@, shape@, p);
        }
        Ok(plan)
    }
}

} // verus!
