//! Which files are pruned on their metadata.

use vstd::prelude::*;

use crate::actions::{ADD_NAME, PARTITION_VALUES_PARSED, STATS_PARSED};
use crate::arm_laws::{
    arm_stats, checkpoint_adds, checkpoint_error, checkpoint_schema, checkpoint_source,
    commit_actions, commit_schema, law_checkpoint_arm, lemma_checkpoint_add, lemma_commit_action,
};
use crate::checkpoint_shape::ShapeView;
use crate::expressions::{
    strings_view, ComparisonOp, ExprView, PathView, Predicate, PredicateView, ScalarView,
};
use crate::log_segment::tag_with_versions;
use crate::replay_laws::{kept_checkpoint_adds, kept_commit_actions};
use crate::scan_plan::{
    add_with_parsed, extracted_add_view, lemma_add_names_distinct, lemma_parsed_children,
    parsed_fields, ScanView, FILE_ACTION_KEY, IS_ADD, VERSION,
};
use crate::schema::{
    boolean_type, field_pos, has_field, is_field_at, lemma_field_pos, lemma_has_field,
    opt_schema_view, DataTypeView, SchemaRef, SchemaView,
};
use crate::semantics::{
    child_type, eval_choices, eval_expr, eval_exprs, eval_pred, eval_preds, holds, is_sound, lookup,
    truth_value, Engine, Row, Value,
};
use crate::sequences::{lemma_filter_from, lemma_filter_keeps};
use crate::skipping::{
    partition_names, prunes, pruning_predicate, reroot_expr, reroot_exprs, reroot_path, reroot_pred,
    reroot_preds, skipping_of, PhysicalPredicate, StateInfo,
};
use crate::stats_rules::StatsRules;

verus! {

// --- The verdict ---

/// A row is kept unless the skipping predicate, re-rooted to where the metadata stands in the row,
/// is false. A null verdict keeps it.
pub proof fn law_null_verdict_keeps(
    engine: Engine,
    skipping: PredicateView,
    schema: SchemaView,
    row: Row,
)
    ensures
        holds(engine, pruning_predicate(skipping), schema, row) <==> eval_pred(
            engine,
            reroot_pred(skipping),
            schema,
            row,
        ) != Some(false),
{
    let verdict = reroot_pred(skipping).as_expr();
    let constant = ExprView::Literal(ScalarView::Boolean(false));
    assert(reroot_expr(skipping.as_expr()) == verdict);
    assert(reroot_expr(constant) == constant);
    assert(pruning_predicate(skipping) == PredicateView::Comparison(
        ComparisonOp::Distinct,
        verdict,
        constant,
    ));
    assert(eval_expr(engine, verdict, schema, row, boolean_type()) == truth_value(
        eval_pred(engine, reroot_pred(skipping), schema, row),
    ));
    assert(eval_expr(engine, constant, schema, row, boolean_type()) == Value::Bool(false));
}

// --- What the rules are asked ---

/// Whether the names are those of the partition columns: one for each field of the schema, in the
/// order of the fields, and none without a schema.
pub open spec fn are_partition_columns(names: Seq<String>, schema: Option<SchemaRef>) -> bool {
    match schema {
        Some(schema) => {
            &&& names.len() == schema.fields@.len()
            &&& forall|i: int|
                0 <= i < names.len() ==> (#[trigger] names[i])@ == schema.fields@[i].name@
        },
        None => names.len() == 0,
    }
}

/// The partition columns have the names of all fields of the partition schema, in their order.
pub proof fn law_partition_names(schema: Option<SchemaView>)
    ensures
        schema matches Some(fields) ==> {
            &&& partition_names(schema).len() == fields.len()
            &&& forall|i: int|
                0 <= i < fields.len() ==> #[trigger] partition_names(schema)[i] == fields[i].name
        },
        schema is None ==> partition_names(schema).len() == 0,
{
}

/// A scan with a predicate is pruned by what the rules answer to that predicate, to the names of
/// all partition columns and to the columns that have statistics: not at all if they answer
/// nothing. A scan without a predicate is not pruned.
pub proof fn law_rules_decide_pruning<R: StatsRules>(
    state: &StateInfo,
    prune: Option<PredicateView>,
)
    requires
        prunes::<R>(state, prune),
    ensures
        match state.physical_predicate {
            PhysicalPredicate::Given(predicate, _) => exists|
                names: Vec<String>,
                answer: Option<Predicate>,
            |
                {
                    &&& are_partition_columns(names@, state.physical_partition_schema)
                    &&& #[trigger] call_ensures(
                        R::as_sql_data_skipping_predicate_with_stats_columns,
                        (&predicate, &names, &state.physical_stats_columns),
                        answer,
                    )
                    &&& match (answer, prune) {
                        (Some(skipping), Some(p)) => p == pruning_predicate(skipping@),
                        (None, None) => true,
                        _ => false,
                    }
                },
            _ => prune is None,
        },
{
    let answer = choose|skipping: Option<Predicate>|
        {
            &&& #[trigger] skipping_of::<R>(state, skipping)
            &&& prune == match skipping {
                Some(p) => Some(pruning_predicate(p@)),
                None => None,
            }
        };
    if let PhysicalPredicate::Given(predicate, _) = state.physical_predicate {
        let schema = state.physical_partition_schema;
        let names = choose|columns: Vec<String>|
            {
                &&& strings_view(columns@) == partition_names(opt_schema_view(schema))
                &&& #[trigger] call_ensures(
                    R::as_sql_data_skipping_predicate_with_stats_columns,
                    (&predicate, &columns, &state.physical_stats_columns),
                    answer,
                )
            };
        law_partition_names(opt_schema_view(schema));
        assert(strings_view(names@).len() == names@.len());
        if let Some(fields) = schema {
            assert forall|i: int| 0 <= i < names@.len() implies (#[trigger] names@[i])@
                == fields.fields@[i].name@ by {
                assert(strings_view(names@)[i] == names@[i]@);
                assert(fields@[i] == fields.fields@[i]@);
            }
        }
        assert(are_partition_columns(names@, schema));
    }
}

// --- Re-rooted columns ---

/// Columns below the parsed statistics and the parsed partition values move below `add`, with all
/// that follows in their path. No other column moves.
pub proof fn law_which_columns_move(path: PathView)
    ensures
        path.len() > 0 && (path[0] == "stats_parsed"@ || path[0] == "partitionValues_parsed"@)
            ==> reroot_path(path) == seq!["add"@] + path,
        path.len() == 0 || (path[0] != "stats_parsed"@ && path[0] != "partitionValues_parsed"@)
            ==> reroot_path(path) == path,
{
}

/// The metadata of a row holds the parsed statistics and partition values of its add under their
/// own names, and every other column of the row as it is.
pub proof fn law_metadata_by_name(
    schema: SchemaView,
    row: Row,
    stats: Option<SchemaView>,
    partitions: Option<SchemaView>,
    path: PathView,
)
    requires
        holds_parsed(schema, stats, partitions),
        row.len() == schema.len(),
    ensures
        lookup(
            metadata_schema(schema, stats, partitions),
            metadata_row(row, stats, partitions),
            path,
        ) == lookup(
            schema,
            row,
            if path.len() > 0 && (path[0] == "stats_parsed"@ || path[0]
                == "partitionValues_parsed"@) {
                seq!["add"@] + path
            } else {
                path
            },
        ),
{
    lemma_reroot_path(schema, row, stats, partitions, path);
}

/// Whether a name is that of a column that re-rooting moves.
pub open spec fn is_parsed_name(name: Seq<char>) -> bool {
    name == STATS_PARSED@ || name == PARTITION_VALUES_PARSED@
}

/// The rows of a plan with the parsed statistics and partition values of their adds as top-level
/// columns: their schema.
pub open spec fn metadata_schema(
    schema: SchemaView,
    stats: Option<SchemaView>,
    partitions: Option<SchemaView>,
) -> SchemaView {
    parsed_fields(stats, partitions) + schema
}

/// The rows of a plan with the parsed statistics and partition values of their adds as top-level
/// columns, which are null where there is no add.
pub open spec fn metadata_row(
    row: Row,
    stats: Option<SchemaView>,
    partitions: Option<SchemaView>,
) -> Row {
    Seq::new(
        parsed_fields(stats, partitions).len(),
        |i: int|
            match row[0] {
                Value::Record(values) => values[11 + i],
                _ => Value::Null,
            },
    ) + row
}

/// Whether rows start with adds that hold the given parsed columns, and have no such columns
/// beside them.
pub open spec fn holds_parsed(
    schema: SchemaView,
    stats: Option<SchemaView>,
    partitions: Option<SchemaView>,
) -> bool {
    &&& schema.len() > 0
    &&& schema[0] == add_with_parsed(stats, partitions)
    &&& forall|i: int| 0 <= i < schema.len() ==> !is_parsed_name((#[trigger] schema[i]).name)
}

/// A re-rooted column holds what the column holds among the metadata.
proof fn lemma_reroot_path(
    schema: SchemaView,
    row: Row,
    stats: Option<SchemaView>,
    partitions: Option<SchemaView>,
    path: PathView,
)
    requires
        holds_parsed(schema, stats, partitions),
        row.len() == schema.len(),
    ensures
        lookup(schema, row, reroot_path(path)) == lookup(
            metadata_schema(schema, stats, partitions),
            metadata_row(row, stats, partitions),
            path,
        ),
{
    let parsed = parsed_fields(stats, partitions);
    let children = extracted_add_view() + parsed;
    let meta = metadata_schema(schema, stats, partitions);
    let meta_row = metadata_row(row, stats, partitions);
    let n = parsed.len() as int;
    if path.len() > 0 {
        let name = path[0];
        if is_parsed_name(name) {
            let full = seq![ADD_NAME@] + path;
            assert(is_field_at(schema, ADD_NAME@, 0));
            lemma_field_pos(schema, ADD_NAME@, 0);
            assert(full.drop_first() =~= path);
            lemma_add_names_distinct(stats, partitions);
            if exists|k: int| 0 <= k < n && (#[trigger] parsed[k]).name == name {
                let k = choose|k: int| 0 <= k < n && (#[trigger] parsed[k]).name == name;
                assert(children[11 + k] == parsed[k]);
                assert(is_field_at(children, name, 11 + k)) by {
                    assert forall|j: int| 0 <= j < 11 + k implies (#[trigger] children[j]).name
                        != name by {
                        assert(children[j].name != children[11 + k].name);
                    }
                }
                lemma_field_pos(children, name, 11 + k);
                assert(meta[k] == parsed[k]);
                assert(is_field_at(meta, name, k)) by {
                    assert forall|j: int| 0 <= j < k implies (#[trigger] meta[j]).name != name by {
                        assert(children[11 + j] == parsed[j]);
                        assert(children[11 + j].name != children[11 + k].name);
                    }
                }
                lemma_field_pos(meta, name, k);
                if let Value::Record(values) = row[0] {
                    assert(meta_row[k] == values[11 + k]);
                    assert(lookup(children, values, path) == lookup(meta, meta_row, path));
                } else {
                    assert(meta_row[k] == Value::Null);
                }
            } else {
                lemma_no_parsed(children, parsed, name, stats, partitions);
                if has_field(meta, name) {
                    let q = field_pos(meta, name);
                    assert(is_field_at(meta, name, q));
                    if q < n {
                        assert(parsed[q] == meta[q]);
                    } else {
                        assert(schema[q - n] == meta[q]);
                    }
                }
                if let Value::Record(values) = row[0] {
                    assert(lookup(children, values, path) == Value::Null);
                }
            }
        } else {
            lemma_shifted(schema, parsed, name);
            if has_field(schema, name) {
                let p = field_pos(schema, name);
                assert(is_field_at(schema, name, p));
                assert(meta_row[n + p] == row[p]);
            }
        }
    }
}

/// Without a schema for it, a parsed column is not among the children of an add.
proof fn lemma_no_parsed(
    children: SchemaView,
    parsed: SchemaView,
    name: Seq<char>,
    stats: Option<SchemaView>,
    partitions: Option<SchemaView>,
)
    requires
        parsed == parsed_fields(stats, partitions),
        children == extracted_add_view() + parsed,
        is_parsed_name(name),
        forall|k: int| 0 <= k < parsed.len() ==> (#[trigger] parsed[k]).name != name,
    ensures
        !has_field(children, name),
{
    lemma_parsed_children(stats, partitions);
    if stats is Some {
        assert(parsed[0].name == STATS_PARSED@);
    }
    if partitions is Some {
        assert(parsed[parsed.len() - 1].name == PARTITION_VALUES_PARSED@);
    }
}

/// A column that is not among fields put in front is found behind them.
proof fn lemma_shifted(schema: SchemaView, front: SchemaView, name: Seq<char>)
    requires
        forall|k: int| 0 <= k < front.len() ==> (#[trigger] front[k]).name != name,
    ensures
        has_field(front + schema, name) <==> has_field(schema, name),
        has_field(schema, name) ==> field_pos(front + schema, name) == front.len() + field_pos(
            schema,
            name,
        ),
{
    let both = front + schema;
    let n = front.len() as int;
    if has_field(schema, name) {
        let p = field_pos(schema, name);
        assert(is_field_at(schema, name, p));
        assert(is_field_at(both, name, n + p)) by {
            assert forall|j: int| 0 <= j < n + p implies (#[trigger] both[j]).name != name by {
                if j < n {
                    assert(both[j] == front[j]);
                } else {
                    assert(both[j] == schema[j - n]);
                }
            }
        }
        lemma_field_pos(both, name, n + p);
    }
    if has_field(both, name) {
        let q = field_pos(both, name);
        assert(is_field_at(both, name, q));
        if q < n {
            assert(both[q] == front[q]);
        } else {
            assert(both[q] == schema[q - n]);
            lemma_has_field(schema, name, q - n);
        }
    }
}

/// A re-rooted expression has the value that the expression has on the metadata.
pub proof fn law_rerooted_expr(
    engine: Engine,
    e: ExprView,
    schema: SchemaView,
    row: Row,
    stats: Option<SchemaView>,
    partitions: Option<SchemaView>,
    target: DataTypeView,
)
    requires
        holds_parsed(schema, stats, partitions),
        row.len() == schema.len(),
    ensures
        eval_expr(engine, reroot_expr(e), schema, row, target) == eval_expr(
            engine,
            e,
            metadata_schema(schema, stats, partitions),
            metadata_row(row, stats, partitions),
            target,
        ),
    decreases e,
{
    let meta = metadata_schema(schema, stats, partitions);
    let meta_row = metadata_row(row, stats, partitions);
    match e {
        ExprView::Literal(s) => {},
        ExprView::Column(path) => {
            lemma_reroot_path(schema, row, stats, partitions, path);
        },
        ExprView::Predicate(p) => {
            law_rerooted_predicate(engine, *p, schema, row, stats, partitions);
        },
        ExprView::Struct(es, present) => {
            if let Some(p) = present {
                law_rerooted_expr(engine, *p, schema, row, stats, partitions, boolean_type());
            }
            let a = eval_exprs(engine, reroot_exprs(es), schema, row, target);
            let b = eval_exprs(engine, es, meta, meta_row, target);
            assert(a.len() == b.len());
            assert forall|i: int| 0 <= i < a.len() implies a[i] == b[i] by {
                let t = child_type(target, i);
                assert(decreases_to!(e => es[i]));
                law_rerooted_expr(engine, es[i], schema, row, stats, partitions, t);
                assert(reroot_exprs(es)[i] == reroot_expr(es[i]));
            }
            assert(a =~= b);
        },
        ExprView::Coalesce(es) => {
            let a = eval_choices(engine, reroot_exprs(es), schema, row, target);
            let b = eval_choices(engine, es, meta, meta_row, target);
            assert(a.len() == b.len());
            assert forall|i: int| 0 <= i < a.len() implies a[i] == b[i] by {
                assert(decreases_to!(e => es[i]));
                law_rerooted_expr(engine, es[i], schema, row, stats, partitions, target);
                assert(reroot_exprs(es)[i] == reroot_expr(es[i]));
            }
            assert(a =~= b);
        },
        ExprView::ParseJson(c, s) => {
            law_rerooted_expr(engine, *c, schema, row, stats, partitions, target);
        },
        ExprView::MapToStruct(c) => {
            law_rerooted_expr(engine, *c, schema, row, stats, partitions, target);
        },
        ExprView::Arithmetic(op, l, r) => {
            law_rerooted_expr(engine, *l, schema, row, stats, partitions, target);
            law_rerooted_expr(engine, *r, schema, row, stats, partitions, target);
        },
    }
}

/// A re-rooted predicate has the truth that the predicate has on the metadata: it sees the parsed
/// statistics and partition values of the add, and every other column as it is.
pub proof fn law_rerooted_predicate(
    engine: Engine,
    p: PredicateView,
    schema: SchemaView,
    row: Row,
    stats: Option<SchemaView>,
    partitions: Option<SchemaView>,
)
    requires
        holds_parsed(schema, stats, partitions),
        row.len() == schema.len(),
    ensures
        eval_pred(engine, reroot_pred(p), schema, row) == eval_pred(
            engine,
            p,
            metadata_schema(schema, stats, partitions),
            metadata_row(row, stats, partitions),
        ),
    decreases p,
{
    let meta = metadata_schema(schema, stats, partitions);
    let meta_row = metadata_row(row, stats, partitions);
    match p {
        PredicateView::BooleanExpression(e) => {
            law_rerooted_expr(engine, e, schema, row, stats, partitions, boolean_type());
        },
        PredicateView::Not(q) => {
            law_rerooted_predicate(engine, *q, schema, row, stats, partitions);
        },
        PredicateView::IsNull(e) => {
            law_rerooted_expr(engine, e, schema, row, stats, partitions, boolean_type());
        },
        PredicateView::Comparison(op, l, r) => {
            law_rerooted_expr(engine, l, schema, row, stats, partitions, boolean_type());
            law_rerooted_expr(engine, r, schema, row, stats, partitions, boolean_type());
        },
        PredicateView::Junction(op, ps) => {
            let a = eval_preds(engine, reroot_preds(ps), schema, row);
            let b = eval_preds(engine, ps, meta, meta_row);
            assert(a.len() == b.len());
            assert forall|i: int| 0 <= i < a.len() implies a[i] == b[i] by {
                assert(decreases_to!(p => ps[i]));
                law_rerooted_predicate(engine, ps[i], schema, row, stats, partitions);
                assert(reroot_preds(ps)[i] == reroot_pred(ps[i]));
            }
            assert(a =~= b);
        },
    }
}

/// Re-rooting a column twice is re-rooting it once.
pub proof fn law_reroot_once(path: PathView)
    ensures
        reroot_path(reroot_path(path)) == reroot_path(path),
{
    reveal_strlit("add");
    reveal_strlit("stats_parsed");
    reveal_strlit("partitionValues_parsed");
    assert(ADD_NAME@.len() < STATS_PARSED@.len());
    assert(ADD_NAME@.len() < PARTITION_VALUES_PARSED@.len());
}

// --- Which actions are pruned ---

/// The top-level columns of the arms are none that re-rooting moves.
proof fn lemma_arms_hold_parsed(scan: ScanView, shape: ShapeView)
    ensures
        holds_parsed(commit_schema(scan), scan.stats_schema, scan.partition_schema),
        holds_parsed(
            checkpoint_schema(scan, shape),
            arm_stats(scan, checkpoint_source(scan, shape)),
            scan.partition_schema,
        ),
{
    reveal_strlit("add");
    reveal_strlit("remove");
    reveal_strlit("version");
    reveal_strlit("is_add");
    reveal_strlit("file_action_key");
    reveal_strlit("stats_parsed");
    reveal_strlit("partitionValues_parsed");
    assert(STATS_PARSED@.len() == 12);
    assert(PARTITION_VALUES_PARSED@.len() == 22);
    assert(ADD_NAME@.len() == 3);
    assert(VERSION@.len() == 7);
    assert(IS_ADD@.len() == 6);
    assert(FILE_ACTION_KEY@.len() == 15);
}

/// Pruning takes an add of the commits away exactly if the skipping predicate is false on its
/// statistics and partition values, and takes no other action away.
pub proof fn law_pruned_commit_actions(
    engine: Engine,
    scan: ScanView,
    skipping: PredicateView,
    i: int,
)
    requires
        is_sound(engine),
        tag_with_versions(scan.segment.commit_cover) is Ok,
        0 <= i < commit_actions(engine, scan).len(),
    ensures
        ({
            let row = commit_actions(engine, scan)[i];
            let verdict = eval_pred(
                engine,
                skipping,
                metadata_schema(commit_schema(scan), scan.stats_schema, scan.partition_schema),
                metadata_row(row, scan.stats_schema, scan.partition_schema),
            );
            kept_commit_actions(engine, scan, Some(pruning_predicate(skipping))).contains(row)
                <==> row[0] is Null || verdict != Some(false)
        }),
{
    let all = commit_actions(engine, scan);
    let row = all[i];
    let schema = commit_schema(scan);
    let p = pruning_predicate(skipping);
    let keeps = |row: Row| row[0] == Value::Null || holds(engine, p, schema, row);
    lemma_commit_action(engine, scan, i);
    lemma_arms_hold_parsed(scan, arbitrary());
    law_null_verdict_keeps(engine, skipping, schema, row);
    law_rerooted_predicate(
        engine,
        skipping,
        schema,
        row,
        scan.stats_schema,
        scan.partition_schema,
    );
    let kept = kept_commit_actions(engine, scan, Some(p));
    if keeps(row) {
        lemma_filter_keeps(all, keeps, i);
    }
    if kept.contains(row) {
        let k = choose|k: int| 0 <= k < kept.len() && kept[k] == row;
        lemma_filter_from(all, keeps, k);
    }
}

/// Pruning takes an add of the checkpoint away exactly if the skipping predicate is false on its
/// statistics and partition values.
pub proof fn law_pruned_checkpoint_adds(
    engine: Engine,
    scan: ScanView,
    shape: ShapeView,
    skipping: PredicateView,
    i: int,
)
    requires
        is_sound(engine),
        checkpoint_error(scan, shape) is None,
        0 <= i < checkpoint_adds(engine, scan, shape).len(),
    ensures
        ({
            let row = checkpoint_adds(engine, scan, shape)[i];
            let stats = arm_stats(scan, checkpoint_source(scan, shape));
            let verdict = eval_pred(
                engine,
                skipping,
                metadata_schema(checkpoint_schema(scan, shape), stats, scan.partition_schema),
                metadata_row(row, stats, scan.partition_schema),
            );
            kept_checkpoint_adds(
                engine,
                scan,
                shape,
                Some(pruning_predicate(skipping)),
            ).contains(row) <==> verdict != Some(false)
        }),
{
    let all = checkpoint_adds(engine, scan, shape);
    let row = all[i];
    let schema = checkpoint_schema(scan, shape);
    let stats = arm_stats(scan, checkpoint_source(scan, shape));
    let p = pruning_predicate(skipping);
    let keeps = |row: Row| holds(engine, p, schema, row);
    law_checkpoint_arm(engine, scan, shape);
    lemma_checkpoint_add(engine, scan, shape, i);
    lemma_arms_hold_parsed(scan, shape);
    law_null_verdict_keeps(engine, skipping, schema, row);
    law_rerooted_predicate(engine, skipping, schema, row, stats, scan.partition_schema);
    let kept = kept_checkpoint_adds(engine, scan, shape, Some(p));
    if keeps(row) {
        lemma_filter_keeps(all, keeps, i);
    }
    if kept.contains(row) {
        let k = choose|k: int| 0 <= k < kept.len() && kept[k] == row;
        lemma_filter_from(all, keeps, k);
    }
}

} // verus!
