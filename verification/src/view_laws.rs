//! The mathematical values that contracts speak of hold all that the executable values hold.

use std::sync::Arc;

use vstd::prelude::*;

use crate::actions::Sidecar;
use crate::checkpoint_shape::{wanted, CheckpointShape};
use crate::error::Error;
use crate::expressions::{
    exprs_view, predicates_view, strs_view, ColumnName, Expr, ExprView, Predicate, PredicateView,
    Scalar, ScalarView,
};
use crate::files::{FileMeta, ScanFile};
use crate::log_segment::{LogPath, LogPathView, LogSegment};
use crate::plan::{
    plans_view, yields, Load, MaxNonNullBy, Plan, PlanBuilder, PlanView, RelationView,
};
use crate::scan_plan::{by_view, Scan};
use crate::schema::{DataType, DataTypeView, SchemaRef, SchemaView, StructField, StructType};
use crate::struct_patch::ProjectionStructPatchBuilder;

verus! {

// --- Schemas ---

/// Whether a schema as a mathematical value has the fields of a schema, all and in their order.
pub open spec fn shows_fields(view: SchemaView, schema: StructType) -> bool {
    &&& view.len() == schema.fields@.len()
    &&& forall|i: int|
        0 <= i < view.len() ==> {
            &&& (#[trigger] view[i]).name == schema.fields@[i].name@
            &&& view[i].nullable == schema.fields@[i].nullable
            &&& view[i].data_type == schema.fields@[i].data_type@
        }
}

/// Whether an optional schema is there in a view exactly if it is there.
pub open spec fn shows_schema(view: Option<SchemaView>, schema: Option<SchemaRef>) -> bool {
    match (view, schema) {
        (Some(view), Some(schema)) => shows_fields(view, *schema),
        (None, None) => true,
        _ => false,
    }
}

/// A schema is seen whole.
pub proof fn law_schema_view(schema: &StructType)
    ensures
        shows_fields(schema@, *schema),
{
}

/// A field is seen whole.
pub proof fn law_field_view(field: &StructField)
    ensures
        field@.name == field.name@,
        field@.nullable == field.nullable,
        field@.data_type == field.data_type@,
{
}

/// A type is seen whole.
pub proof fn law_type_view(data_type: &DataType)
    ensures
        match (*data_type, data_type@) {
            (DataType::Primitive(p), DataTypeView::Primitive(q)) => p == q,
            (DataType::Struct(s), DataTypeView::Struct(fields)) => shows_fields(fields, *s),
            (DataType::ArrayType(e, n), DataTypeView::ArrayType(f, m)) => n == m && *f == e@,
            (DataType::MapType(k, v, n), DataTypeView::MapType(l, w, m)) => n == m && *l == k@
                && *w == v@,
            _ => false,
        },
{
    if let DataType::Struct(s) = data_type {
        law_schema_view(s);
    }
}

// --- Expressions ---

/// A column is seen whole.
pub proof fn law_column_view(column: &ColumnName)
    ensures
        column@.len() == column.path@.len(),
        forall|i: int| 0 <= i < column@.len() ==> #[trigger] column@[i] == column.path@[i]@,
{
}

/// Names are seen whole, all and in their order.
pub proof fn law_names_view(names: Seq<&str>)
    ensures
        strs_view(names).len() == names.len(),
        forall|i: int| 0 <= i < names.len() ==> #[trigger] strs_view(names)[i] == names[i]@,
{
}

/// A constant is seen whole.
pub proof fn law_scalar_view(scalar: &Scalar)
    ensures
        match (*scalar, scalar@) {
            (Scalar::Null(t), ScalarView::Null(u)) => u == t@,
            (Scalar::Boolean(b), ScalarView::Boolean(c)) => b == c,
            (Scalar::Integer(i), ScalarView::Integer(j)) => i == j,
            (Scalar::Long(i), ScalarView::Long(j)) => i == j,
            (Scalar::Text(t), ScalarView::Text(u)) => u == t@,
            (Scalar::Encoded(p, b), ScalarView::Encoded(q, c)) => p == q && c == b@,
            _ => false,
        },
{
}

/// Whether expressions are seen whole, all and in their order.
pub open spec fn shows_exprs(view: Seq<ExprView>, exprs: Seq<Expr>) -> bool {
    &&& view.len() == exprs.len()
    &&& forall|i: int| 0 <= i < view.len() ==> #[trigger] view[i] == exprs[i]@
}

proof fn lemma_shows_exprs(exprs: Seq<Expr>)
    ensures
        shows_exprs(exprs_view(exprs), exprs),
{
}

proof fn lemma_shows_predicates(predicates: Seq<Predicate>)
    ensures
        predicates_view(predicates).len() == predicates.len(),
        forall|i: int|
            0 <= i < predicates.len() ==> #[trigger] predicates_view(predicates)[i]
                == predicates[i]@,
{
}

/// An expression is seen whole.
pub proof fn law_expr_view(expr: &Expr)
    ensures
        match (*expr, expr@) {
            (Expr::Literal(s), ExprView::Literal(t)) => t == s@,
            (Expr::Column(c), ExprView::Column(path)) => path == c@,
            (Expr::Predicate(p), ExprView::Predicate(q)) => *q == p@,
            (Expr::Struct(es, n), ExprView::Struct(fs, m)) => shows_exprs(fs, es@) && (match (
                n,
                m,
            ) {
                (Some(a), Some(b)) => *b == a@,
                (None, None) => true,
                _ => false,
            }),
            (Expr::Coalesce(es), ExprView::Coalesce(fs)) => shows_exprs(fs, es@),
            (Expr::ParseJson(e, s), ExprView::ParseJson(f, t)) => *f == e@ && t == s@,
            (Expr::MapToStruct(e), ExprView::MapToStruct(f)) => *f == e@,
            (Expr::Arithmetic(op, l, r), ExprView::Arithmetic(op2, l2, r2)) => op == op2 && *l2
                == l@ && *r2 == r@,
            _ => false,
        },
{
    match expr {
        Expr::Struct(es, _) => {
            lemma_shows_exprs(es@);
        },
        Expr::Coalesce(es) => {
            lemma_shows_exprs(es@);
        },
        _ => {},
    }
}

/// A predicate is seen whole.
pub proof fn law_predicate_view(predicate: &Predicate)
    ensures
        match (*predicate, predicate@) {
            (Predicate::BooleanExpression(e), PredicateView::BooleanExpression(f)) => f == e@,
            (Predicate::Not(p), PredicateView::Not(q)) => *q == p@,
            (Predicate::IsNull(e), PredicateView::IsNull(f)) => f == e@,
            (Predicate::Comparison(op, l, r), PredicateView::Comparison(op2, l2, r2)) => op == op2
                && l2 == l@ && r2 == r@,
            (Predicate::Junction(op, ps), PredicateView::Junction(op2, qs)) => op == op2
                && qs.len() == ps@.len() && forall|i: int|
                0 <= i < qs.len() ==> #[trigger] qs[i] == ps@[i]@,
            _ => false,
        },
{
    if let Predicate::Junction(_, ps) = predicate {
        lemma_shows_predicates(ps@);
    }
}

// --- Files and plans ---

/// A file is seen whole.
pub proof fn law_file_view(file: &FileMeta)
    ensures
        file@.location == file.location@,
        file@.last_modified == file.last_modified,
        file@.size == file.size,
{
}

/// A file to scan is seen whole, with all of its constants.
pub proof fn law_scan_file_view(file: &ScanFile)
    ensures
        file@.meta == file.meta@,
        file@.constants.len() == file.constants@.len(),
        forall|i: int|
            0 <= i < file@.constants.len() ==> #[trigger] file@.constants[i]
                == file.constants@[i]@,
{
}

/// A load is seen whole.
pub proof fn law_load_view(load: &Load)
    ensures
        load@.schema == load.schema@,
        load@.file_type == load.file_type,
        load@.path == load.path@,
        load@.size == load.size@,
        load@.num_records == load.num_records@,
        load@.deletion_vector == load.deletion_vector@,
        load@.base_url == load.base_url@,
        load@.constants.len() == load.constants@.len(),
        forall|i: int|
            0 <= i < load.constants@.len() ==> #[trigger] load@.constants[i]
                == load.constants@[i]@,
{
}

/// An aggregate is seen whole.
pub proof fn law_aggregate_view(aggregate: &MaxNonNullBy)
    ensures
        aggregate@.value == aggregate.value@,
        aggregate@.witness == aggregate.witness@,
        aggregate@.order == aggregate.order@,
{
}

proof fn lemma_shows_plans(plans: Seq<Arc<Plan>>)
    ensures
        plans_view(plans).len() == plans.len(),
        forall|i: int| 0 <= i < plans.len() ==> #[trigger] plans_view(plans)[i] == plans[i]@,
{
}

/// A plan is seen whole.
pub proof fn law_plan_view(plan: &Plan)
    ensures
        match (*plan, plan@) {
            (
                Plan::Scan { file_type, files, constants, schema },
                PlanView::Scan { file_type: f, files: fs, constants: cs, schema: s },
            ) => {
                &&& f == file_type
                &&& s == schema@
                &&& fs.len() == files@.len()
                &&& forall|i: int| 0 <= i < fs.len() ==> #[trigger] fs[i] == files@[i]@
                &&& cs.len() == constants@.len()
                &&& forall|i: int| 0 <= i < cs.len() ==> #[trigger] cs[i] == constants@[i]@
            },
            (Plan::Values { schema, rows }, PlanView::Values { schema: s, rows: rs }) => {
                &&& s == schema@
                &&& rs.len() == rows@.len()
                &&& forall|i: int|
                    0 <= i < rs.len() ==> {
                        &&& (#[trigger] rs[i]).len() == rows@[i]@.len()
                        &&& forall|c: int|
                            0 <= c < rs[i].len() ==> #[trigger] rs[i][c] == rows@[i]@[c]@
                    }
            },
            (
                Plan::Filter { input, predicate },
                PlanView::Filter { input: i, predicate: p },
            ) => *i == input@ && p == predicate@,
            (
                Plan::Project { input, expr, schema },
                PlanView::Project { input: i, expr: e, schema: s },
            ) => *i == input@ && e == expr@ && s == schema@,
            (
                Plan::Aggregate { input, keys, aggregates },
                PlanView::Aggregate { input: i, keys: ks, aggregates: ags },
            ) => {
                &&& *i == input@
                &&& ks.len() == keys@.len()
                &&& forall|k: int| 0 <= k < ks.len() ==> #[trigger] ks[k] == keys@[k]@
                &&& ags.len() == aggregates@.len()
                &&& forall|k: int| 0 <= k < ags.len() ==> #[trigger] ags[k] == aggregates@[k]@
            },
            (
                Plan::AntiJoin { left, right, left_keys, right_keys },
                PlanView::AntiJoin { left: l, right: r, left_keys: lk, right_keys: rk },
            ) => {
                &&& *l == left@
                &&& *r == right@
                &&& lk.len() == left_keys@.len()
                &&& forall|k: int| 0 <= k < lk.len() ==> #[trigger] lk[k] == left_keys@[k]@
                &&& rk.len() == right_keys@.len()
                &&& forall|k: int| 0 <= k < rk.len() ==> #[trigger] rk[k] == right_keys@[k]@
            },
            (Plan::UnionAll { inputs }, PlanView::UnionAll { inputs: is }) => {
                &&& is.len() == inputs@.len()
                &&& forall|k: int| 0 <= k < is.len() ==> #[trigger] is[k] == inputs@[k]@
            },
            (Plan::Load { input, load }, PlanView::Load { input: i, load: l }) => *i == input@ && l
                == load@,
            _ => false,
        },
{
    if let Plan::UnionAll { inputs } = plan {
        lemma_shows_plans(inputs@);
    }
}

/// A relation under construction is seen whole.
pub proof fn law_relation_view(relation: &PlanBuilder)
    ensures
        relation@.schema == relation.schema@,
        match (relation@.plan, relation.plan) {
            (Some(view), Some(plan)) => view == plan@,
            (None, None) => true,
            _ => false,
        },
{
}

/// A projection under construction is seen whole.
pub proof fn law_patch_view(patch: &ProjectionStructPatchBuilder)
    ensures
        patch@.input_schema == patch.input_schema@,
        patch@.root == patch.root@,
        match (patch@.slots, patch.slots) {
            (Ok(views), Ok(slots)) => {
                &&& views.len() == slots@.len()
                &&& forall|i: int|
                    0 <= i < views.len() ==> (#[trigger] views[i]).field == slots@[i].field@
                        && views[i].expr == slots@[i].expr@
            },
            (Err(e), Err(f)) => e == f,
            _ => false,
        },
{
}

// --- Logs and scans ---

/// A sidecar is seen whole.
pub proof fn law_sidecar_view(sidecar: &Sidecar)
    ensures
        sidecar@.path == sidecar.path@,
        sidecar@.size_in_bytes == sidecar.size_in_bytes,
        sidecar@.modification_time == sidecar.modification_time,
{
}

/// Whether files of the log are seen whole, all and in their order.
pub open spec fn shows_paths(view: Seq<LogPathView>, paths: Seq<LogPath>) -> bool {
    &&& view.len() == paths.len()
    &&& forall|i: int|
        0 <= i < view.len() ==> {
            &&& (#[trigger] view[i]).location == paths[i].location@
            &&& view[i].extension == paths[i].extension@
            &&& view[i].version == paths[i].version
        }
}

/// A log segment is seen whole: all parts of the checkpoint, all commits, and the hint if there is
/// one, with all of its sidecars.
pub proof fn law_segment_view(segment: &LogSegment)
    ensures
        segment@.log_root == segment.log_root@,
        shows_paths(segment@.checkpoint_parts, segment.listed.checkpoint_parts@),
        shows_paths(segment@.commit_cover, segment.listed.commit_cover@),
        shows_schema(segment@.checkpoint_schema, segment.checkpoint_schema),
        match (segment@.checkpoint_sidecars, segment.checkpoint_sidecars) {
            (Some(views), Some(sidecars)) => {
                &&& views.len() == sidecars@.len()
                &&& forall|i: int| 0 <= i < views.len() ==> #[trigger] views[i] == sidecars@[i]@
            },
            (None, None) => true,
            _ => false,
        },
{
}

/// A shape is seen whole.
pub proof fn law_shape_view(shape: &CheckpointShape)
    ensures
        shape@.checkpoint_type == shape.checkpoint_type,
        shows_schema(shape@.parsed_stats_schema, shape.parsed_stats_schema),
{
}

/// What a metadata plan depends on is seen whole.
pub proof fn law_scan_view(scan: &Scan)
    ensures
        scan@.segment == scan.snapshot.log_segment@,
        shows_schema(scan@.stats_schema, scan.state_info.physical_stats_schema),
        shows_schema(scan@.partition_schema, scan.state_info.physical_partition_schema),
        shows_schema(scan@.stats_output_schema, scan.physical_stats_output_schema),
        scan@.synthesize_json == scan.stats.synthesize_json,
        scan@.parsed_partition_values == scan.partition_values.parsed_struct,
{
}

// --- References and results ---

/// A schema that is referred to is the schema.
pub proof fn law_referred_schema(schema: Option<&SchemaRef>)
    ensures
        schema matches Some(s) ==> wanted(schema) == Some(*s) && by_view(schema) == Some(s@),
        schema is None ==> wanted(schema) is None && by_view(schema) is None,
{
}

/// What a builder yields is the relation that is expected, or the error.
pub proof fn law_yields(r: Result<PlanBuilder, Error>, expected: Result<RelationView, Error>)
    ensures
        yields(r, expected) <==> match (r, expected) {
            (Ok(built), Ok(relation)) => built@ == relation,
            (Err(e), Err(f)) => e == f,
            _ => false,
        },
{
}

} // verus!
