//! The rows of a metadata scan plan: the live adds of the log, where the newest action on a file
//! wins.

use vstd::prelude::*;

use crate::actions::ADD_NAME;
use crate::arm_laws::{
    arm_stats, checkpoint_adds, checkpoint_error, checkpoint_file_count, checkpoint_schema,
    checkpoint_source, commit_actions, commit_schema, key_value, law_checkpoint_arm, law_commit_arm,
    lemma_checkpoint_add, lemma_column_names, lemma_commit_action,
};
use crate::checkpoint_shape::ShapeView;
use crate::error::Error;
use crate::expressions::PredicateView;
use crate::log_segment::tag_with_versions;
use crate::output_laws::{
    can_return, law_output_schema, lemma_returned_row, returned_add, returned_children,
};
use crate::plan::{aggregate_schema, RelationView};
use crate::scan_plan::{
    checkpoint_relation, commit_prune, commit_relation, deduped_commits, extracted_add_view,
    file_action_key_field_view, file_key_columns, metadata_relation, newest_add,
    normalized_add_view, output_expr, output_patch, output_schema, parsed_fields, top_col, ScanView,
};
use crate::schema::{boolean_type, distinct_names, nullable_field, DataTypeView, SchemaView};
use crate::semantics::{
    aggregate_value, distinct_keys, empty_engine, eval_expr, group_row, has_match, holds,
    is_candidate, is_greatest, is_sound, key_values, keys_match, lemma_aggregate, lemma_anti_join,
    lemma_filter, lemma_is_not_null, lemma_lookup, lemma_or, lemma_project, lemma_union, lookup,
    project_row, rows_of, Engine, Row, Value,
};
use crate::sequences::{
    lemma_filter_all, lemma_filter_from, lemma_filter_keeps, lemma_filter_map, lemma_filter_order,
    lemma_filter_same,
};

verus! {

// --- The rows of the arms ---

/// The identity of the file of an action.
pub open spec fn key_of(row: Row) -> Value {
    row.last()
}

/// The version of an action of the commits.
pub open spec fn version_of(row: Row) -> int {
    row[2]->Int_0
}

/// The actions of the commits after pruning. Pruning takes adds away, and no removes.
pub open spec fn kept_commit_actions(
    engine: Engine,
    scan: ScanView,
    prune: Option<PredicateView>,
) -> Seq<Row> {
    match prune {
        Some(p) => commit_actions(engine, scan).filter(
            |row: Row| row[0] == Value::Null || holds(engine, p, commit_schema(scan), row),
        ),
        None => commit_actions(engine, scan),
    }
}

/// The adds of the checkpoint after pruning.
pub open spec fn kept_checkpoint_adds(
    engine: Engine,
    scan: ScanView,
    shape: ShapeView,
    prune: Option<PredicateView>,
) -> Seq<Row> {
    match prune {
        Some(p) => checkpoint_adds(engine, scan, shape).filter(
            |row: Row| holds(engine, p, checkpoint_schema(scan, shape), row),
        ),
        None => checkpoint_adds(engine, scan, shape),
    }
}

// --- Replay ---

/// Whether some action acts on the file of the given identity.
pub open spec fn acts_on(actions: Seq<Row>, key: Value) -> bool {
    exists|j: int| 0 <= j < actions.len() && key_of(#[trigger] actions[j]) == key
}

/// The files that actions act on, each once.
pub open spec fn files_acted_on(actions: Seq<Row>) -> Seq<Value>
    decreases actions.len(),
{
    if actions.len() == 0 {
        seq![]
    } else {
        let before = files_acted_on(actions.drop_last());
        let key = key_of(actions.last());
        if before.contains(key) {
            before
        } else {
            before.push(key)
        }
    }
}

/// Whether an action acts on the given file and none on that file is newer.
pub open spec fn is_newest(actions: Seq<Row>, key: Value, i: int) -> bool {
    &&& 0 <= i < actions.len()
    &&& key_of(actions[i]) == key
    &&& forall|j: int|
        0 <= j < actions.len() && key_of(#[trigger] actions[j]) == key ==> version_of(actions[j])
            <= version_of(actions[i])
}

/// The add of a newest action on a file; null if that is a remove.
pub open spec fn newest_add_on(scan: ScanView, actions: Seq<Row>, key: Value) -> Value {
    aggregate_value(commit_schema(scan), file_key_columns(), seq![key], newest_add()[0], actions)
}

/// The children of the adds of the commits.
pub open spec fn commit_add_children(scan: ScanView) -> SchemaView {
    extracted_add_view() + parsed_fields(scan.stats_schema, scan.partition_schema)
}

/// The children of the adds of the checkpoint.
pub open spec fn checkpoint_add_children(scan: ScanView, shape: ShapeView) -> SchemaView {
    extracted_add_view() + parsed_fields(
        arm_stats(scan, checkpoint_source(scan, shape)),
        scan.partition_schema,
    )
}

/// The live adds of the commits: those that are the newest action on their file.
pub open spec fn live_commit_adds(scan: ScanView, actions: Seq<Row>) -> Seq<Value> {
    files_acted_on(actions).map_values(|key: Value| newest_add_on(scan, actions, key)).filter(
        |add: Value| add != Value::Null,
    )
}

/// The live adds of the checkpoint: those on whose file no commit acts.
pub open spec fn live_checkpoint_adds(actions: Seq<Row>, adds: Seq<Row>) -> Seq<Value> {
    adds.filter(|row: Row| !acts_on(actions, key_of(row))).map_values(|row: Row| row[0])
}

/// The rows that a scan returns: the live adds of the commits, then those of the checkpoint, each
/// with what the scan returns of an add.
pub open spec fn reconciled(
    engine: Engine,
    scan: ScanView,
    shape: ShapeView,
    prune: Option<PredicateView>,
) -> Seq<Row> {
    let actions = kept_commit_actions(engine, scan, prune);
    let adds = kept_checkpoint_adds(engine, scan, shape, prune);
    live_commit_adds(scan, actions).map_values(
        |add: Value| seq![returned_add(scan, commit_add_children(scan), add)],
    ) + live_checkpoint_adds(actions, adds).map_values(
        |add: Value| seq![returned_add(scan, checkpoint_add_children(scan, shape), add)],
    )
}

// --- Kept rows ---

pub proof fn lemma_kept_action(
    engine: Engine,
    scan: ScanView,
    prune: Option<PredicateView>,
    i: int,
)
    requires
        is_sound(engine),
        tag_with_versions(scan.segment.commit_cover) is Ok,
        0 <= i < kept_commit_actions(engine, scan, prune).len(),
    ensures
        ({
            let row = kept_commit_actions(engine, scan, prune)[i];
            &&& row.len() == 5
            &&& row[0] is Null || row[0] is Record
            &&& row[2] is Int
            &&& row[4] is Record
        }),
{
    let all = commit_actions(engine, scan);
    let row = kept_commit_actions(engine, scan, prune)[i];
    let k = match prune {
        Some(p) => {
            let keeps = |row: Row|
                row[0] == Value::Null || holds(engine, p, commit_schema(scan), row);
            lemma_filter_from(all, keeps, i);
            choose|k: int| 0 <= k < all.len() && all[k] == row
        },
        None => i,
    };
    lemma_commit_action(engine, scan, k);
}

pub proof fn lemma_kept_add(
    engine: Engine,
    scan: ScanView,
    shape: ShapeView,
    prune: Option<PredicateView>,
    i: int,
)
    requires
        is_sound(engine),
        checkpoint_error(scan, shape) is None,
        0 <= i < kept_checkpoint_adds(engine, scan, shape, prune).len(),
    ensures
        ({
            let row = kept_checkpoint_adds(engine, scan, shape, prune)[i];
            &&& row.len() == 4
            &&& row[0] is Record
            &&& row[3] is Record
        }),
{
    law_checkpoint_arm(engine, scan, shape);
    let all = checkpoint_adds(engine, scan, shape);
    let row = kept_checkpoint_adds(engine, scan, shape, prune)[i];
    let k = match prune {
        Some(p) => {
            let keeps = |row: Row| holds(engine, p, checkpoint_schema(scan, shape), row);
            lemma_filter_from(all, keeps, i);
            choose|k: int| 0 <= k < all.len() && all[k] == row
        },
        None => i,
    };
    lemma_checkpoint_add(engine, scan, shape, k);
}

/// The columns of the two arms and of the newest actions have distinct names.
pub proof fn lemma_names(scan: ScanView, shape: ShapeView)
    ensures
        distinct_names(commit_schema(scan)),
        distinct_names(checkpoint_schema(scan, shape)),
        distinct_names(newest_schema(scan)),
{
    lemma_column_names();
}

/// The schema of the newest actions.
pub open spec fn newest_schema(scan: ScanView) -> SchemaView {
    seq![file_action_key_field_view(), normalized_add_view(scan)]
}

/// The rows of the commit arm after pruning.
proof fn lemma_pruned_commits(
    engine: Engine,
    scan: ScanView,
    commits: RelationView,
    prune: Option<PredicateView>,
)
    requires
        is_sound(engine),
        tag_with_versions(scan.segment.commit_cover) is Ok,
        commits.wf(),
        commits.schema == commit_schema(scan),
        rows_of(engine, commits) == commit_actions(engine, scan),
    ensures
        ({
            let kept = commits.filter_opt(commit_prune(prune));
            &&& kept.wf()
            &&& kept.schema == commit_schema(scan)
            &&& kept.plan is None <==> commits.plan is None
            &&& rows_of(engine, kept) == kept_commit_actions(engine, scan, prune)
        }),
{
    if let Some(p) = prune {
        let schema = commit_schema(scan);
        let all = commit_actions(engine, scan);
        let is_null = PredicateView::IsNull(top_col(ADD_NAME@));
        let pred = is_null.or(p);
        lemma_filter(engine, commits, pred);
        let by_plan = |row: Row| holds(engine, pred, schema, row);
        let keeps = |row: Row| row[0] == Value::Null || holds(engine, p, schema, row);
        assert forall|i: int| 0 <= i < all.len() implies by_plan(#[trigger] all[i]) == keeps(
            all[i],
        ) by {
            lemma_names(scan, arbitrary());
            lemma_lookup(schema, all[i], 0);
            assert(eval_expr(engine, top_col(ADD_NAME@), schema, all[i], boolean_type())
                == all[i][0]);
            lemma_or(engine, is_null, p, schema, all[i]);
        }
        lemma_filter_same(all, by_plan, keeps);
    }
}

/// Grouping by the identity of files gives each file once.
proof fn lemma_file_keys(scan: ScanView, actions: Seq<Row>)
    requires
        forall|i: int| 0 <= i < actions.len() ==> (#[trigger] actions[i]).len() == 5,
    ensures
        distinct_keys(commit_schema(scan), file_key_columns(), actions) == files_acted_on(
            actions,
        ).map_values(|key: Value| seq![key]),
    decreases actions.len(),
{
    let schema = commit_schema(scan);
    let keys = file_key_columns();
    let wrap = |key: Value| seq![key];
    if actions.len() == 0 {
        assert(files_acted_on(actions).map_values(wrap) =~= seq![]);
    } else {
        let before = actions.drop_last();
        lemma_file_keys(scan, before);
        let row = actions.last();
        let key = key_of(row);
        assert(row == actions[actions.len() - 1]);
        lemma_action_key(scan, row);
        let files = files_acted_on(before);
        let grouped = distinct_keys(schema, keys, before);
        assert(grouped.contains(seq![key]) <==> files.contains(key)) by {
            if files.contains(key) {
                let k = choose|k: int| 0 <= k < files.len() && files[k] == key;
                assert(grouped[k] == seq![key]);
            }
            if grouped.contains(seq![key]) {
                let k = choose|k: int| 0 <= k < grouped.len() && grouped[k] == seq![key];
                assert(grouped[k] == seq![files[k]]);
                assert(seq![files[k]][0] == seq![key][0]);
            }
        }
        assert(files.push(key).map_values(wrap) =~= files.map_values(wrap).push(seq![key]));
    }
}

/// The key, version and add columns of an action.
proof fn lemma_action_key(scan: ScanView, row: Row)
    requires
        row.len() == 5,
    ensures
        key_values(commit_schema(scan), file_key_columns(), row) == seq![key_of(row)],
        lookup(commit_schema(scan), row, newest_add()[0].value) == row[0],
        lookup(commit_schema(scan), row, newest_add()[0].witness) == key_of(row),
        lookup(commit_schema(scan), row, newest_add()[0].order) == row[2],
{
    let schema = commit_schema(scan);
    lemma_names(scan, arbitrary());
    lemma_lookup(schema, row, 0);
    lemma_lookup(schema, row, 2);
    lemma_lookup(schema, row, 4);
    assert(key_values(schema, file_key_columns(), row) =~= seq![key_of(row)]);
}

// --- The newest action wins ---

/// Among actions on a file there is a newest one.
proof fn lemma_newest_exists(actions: Seq<Row>, key: Value)
    requires
        acts_on(actions, key),
    ensures
        exists|i: int| is_newest(actions, key, i),
    decreases actions.len(),
{
    let before = actions.drop_last();
    let last = actions.len() - 1;
    if key_of(actions[last]) == key {
        if acts_on(before, key) {
            lemma_newest_exists(before, key);
            let i = choose|i: int| is_newest(before, key, i);
            if version_of(before[i]) <= version_of(actions[last]) {
                assert forall|j: int|
                    0 <= j < actions.len() && key_of(#[trigger] actions[j])
                        == key implies version_of(actions[j]) <= version_of(actions[last]) by {
                    if j < last {
                        assert(before[j] == actions[j]);
                    }
                }
                assert(is_newest(actions, key, last));
            } else {
                assert forall|j: int|
                    0 <= j < actions.len() && key_of(#[trigger] actions[j])
                        == key implies version_of(actions[j]) <= version_of(actions[i]) by {
                    if j < last {
                        assert(before[j] == actions[j]);
                    }
                }
                assert(is_newest(actions, key, i));
            }
        } else {
            assert forall|j: int|
                0 <= j < actions.len() && key_of(#[trigger] actions[j]) == key implies version_of(
                actions[j],
            ) <= version_of(actions[last]) by {
                if j < last {
                    assert(before[j] == actions[j]);
                }
            }
            assert(is_newest(actions, key, last));
        }
    } else {
        let k = choose|k: int| 0 <= k < actions.len() && key_of(#[trigger] actions[k]) == key;
        assert(before[k] == actions[k]);
        lemma_newest_exists(before, key);
        let i = choose|i: int| is_newest(before, key, i);
        assert forall|j: int|
            0 <= j < actions.len() && key_of(#[trigger] actions[j]) == key implies version_of(
            actions[j],
        ) <= version_of(actions[i]) by {
            if j < last {
                assert(before[j] == actions[j]);
            }
        }
        assert(is_newest(actions, key, i));
    }
}

/// Whether rows are actions of the commits.
pub open spec fn are_actions(actions: Seq<Row>) -> bool {
    forall|i: int|
        0 <= i < actions.len() ==> {
            let row = #[trigger] actions[i];
            &&& row.len() == 5
            &&& row[0] is Null || row[0] is Record
            &&& row[2] is Int
            &&& row[4] is Record
        }
}

/// For each file that the commits act on, the plan takes the add of a newest action, which is null
/// if that action is a remove.
pub proof fn law_newest_action_wins(scan: ScanView, actions: Seq<Row>, key: Value)
    requires
        are_actions(actions),
        acts_on(actions, key),
    ensures
        exists|i: int|
            #[trigger] is_newest(actions, key, i) && newest_add_on(scan, actions, key)
                == actions[i][0],
{
    let schema = commit_schema(scan);
    let keys = file_key_columns();
    let aggregate = newest_add()[0];
    assert forall|i: int| is_newest(actions, key, i) <==> #[trigger] is_greatest(
        schema,
        keys,
        seq![key],
        aggregate,
        actions,
        i,
    ) by {
        lemma_newest_is_greatest(scan, actions, key, i);
    }
    lemma_newest_exists(actions, key);
    let n = choose|i: int| is_newest(actions, key, i);
    assert(is_greatest(schema, keys, seq![key], aggregate, actions, n));
    let i = choose|i: int| is_greatest(schema, keys, seq![key], aggregate, actions, i);
    lemma_action_key(scan, actions[i]);
    assert(is_newest(actions, key, i));
}

/// The rows among which an aggregate chooses are the newest actions.
proof fn lemma_newest_is_greatest(scan: ScanView, actions: Seq<Row>, key: Value, i: int)
    requires
        are_actions(actions),
    ensures
        is_newest(actions, key, i) <==> is_greatest(
            commit_schema(scan),
            file_key_columns(),
            seq![key],
            newest_add()[0],
            actions,
            i,
        ),
{
    let schema = commit_schema(scan);
    let keys = file_key_columns();
    let aggregate = newest_add()[0];
    assert forall|j: int| 0 <= j < actions.len() implies (key_of(#[trigger] actions[j]) == key
        <==> is_candidate(schema, keys, seq![key], aggregate, actions[j])) && lookup(
        schema,
        actions[j],
        aggregate.order,
    ) == actions[j][2] by {
        lemma_action_key(scan, actions[j]);
        if seq![key_of(actions[j])] == seq![key] {
            assert(seq![key_of(actions[j])][0] == seq![key][0]);
        }
    }
}

// --- The plan ---

/// The newest actions: a row for each file that the commits act on.
pub open spec fn newest_rows(scan: ScanView, actions: Seq<Row>) -> Seq<Row> {
    files_acted_on(actions).map_values(
        |key: Value| seq![key, newest_add_on(scan, actions, key)],
    )
}

/// The rows of the deduplicated commits.
proof fn lemma_deduped(
    engine: Engine,
    scan: ScanView,
    commits: RelationView,
    prune: Option<PredicateView>,
)
    requires
        is_sound(engine),
        tag_with_versions(scan.segment.commit_cover) is Ok,
        commits.wf(),
        commits.schema == commit_schema(scan),
        rows_of(engine, commits) == commit_actions(engine, scan),
    ensures
        deduped_commits(commits, prune) is Ok,
        ({
            let deduped = deduped_commits(commits, prune)->Ok_0;
            &&& deduped.wf()
            &&& deduped.schema == newest_schema(scan)
            &&& deduped.plan is None <==> commits.plan is None
            &&& rows_of(engine, deduped) == newest_rows(
                scan,
                kept_commit_actions(engine, scan, prune),
            )
        }),
{
    lemma_pruned_commits(engine, scan, commits, prune);
    let kept = commits.filter_opt(commit_prune(prune));
    let actions = kept_commit_actions(engine, scan, prune);
    let schema = commit_schema(scan);
    let keys = file_key_columns();
    lemma_names(scan, arbitrary());
    lemma_lookup(schema, arbitrary(), 0);
    lemma_lookup(schema, arbitrary(), 2);
    lemma_lookup(schema, arbitrary(), 4);
    assert(kept.aggregate_by(keys, newest_add()) is Ok);
    lemma_aggregate(engine, kept, keys, newest_add());
    assert(aggregate_schema(schema, keys, newest_add()) =~= newest_schema(scan));
    assert forall|i: int| 0 <= i < actions.len() implies (#[trigger] actions[i]).len() == 5 by {
        lemma_kept_action(engine, scan, prune, i);
    }
    lemma_file_keys(scan, actions);
    let files = files_acted_on(actions);
    let grouped = distinct_keys(schema, keys, actions).map_values(
        |key: Seq<Value>| group_row(schema, keys, key, newest_add(), actions),
    );
    let expected = newest_rows(scan, actions);
    assert forall|i: int| 0 <= i < grouped.len() implies grouped[i] == expected[i] by {
        assert(grouped[i] == group_row(schema, keys, seq![files[i]], newest_add(), actions));
        assert(grouped[i] =~= expected[i]);
    }
    assert(grouped =~= expected);
}

/// What the plan takes for the newest add on a file is null or an add.
proof fn lemma_newest_add_shape(scan: ScanView, actions: Seq<Row>, key: Value)
    requires
        are_actions(actions),
    ensures
        newest_add_on(scan, actions, key) is Null || newest_add_on(scan, actions, key) is Record,
{
    let schema = commit_schema(scan);
    let keys = file_key_columns();
    let aggregate = newest_add()[0];
    if exists|i: int| is_greatest(schema, keys, seq![key], aggregate, actions, i) {
        let i = choose|i: int| is_greatest(schema, keys, seq![key], aggregate, actions, i);
        lemma_action_key(scan, actions[i]);
    }
}

/// The rows of the commits that the plan returns.
proof fn lemma_live_commits(
    engine: Engine,
    scan: ScanView,
    deduped: RelationView,
    actions: Seq<Row>,
)
    requires
        can_return(scan),
        are_actions(actions),
        deduped.wf(),
        deduped.schema == newest_schema(scan),
        rows_of(engine, deduped) == newest_rows(scan, actions),
    ensures
        ({
            let patch = output_patch(scan, normalized_add_view(scan));
            let live = deduped.filter(top_col(ADD_NAME@).is_not_null()).project(
                output_expr(patch),
                output_schema(patch),
            );
            &&& live is Ok
            &&& live->Ok_0.wf()
            &&& live->Ok_0.schema == output_schema(patch)
            &&& live->Ok_0.plan is None <==> deduped.plan is None
            &&& rows_of(engine, live->Ok_0) == live_commit_adds(scan, actions).map_values(
                |add: Value| seq![returned_add(scan, commit_add_children(scan), add)],
            )
        }),
{
    let patch = output_patch(scan, normalized_add_view(scan));
    let schema = newest_schema(scan);
    let pred = top_col(ADD_NAME@).is_not_null();
    let children = commit_add_children(scan);
    let newest = |key: Value| newest_add_on(scan, actions, key);
    let pair = |key: Value| seq![key, newest_add_on(scan, actions, key)];
    let files = files_acted_on(actions);
    let rows = files.map_values(pair);
    lemma_names(scan, arbitrary());
    lemma_filter(engine, deduped, pred);
    lemma_project(engine, deduped.filter(pred), output_expr(patch), output_schema(patch));

    // Which files stay.
    let by_plan = |row: Row| holds(engine, pred, schema, row);
    let not_null = |add: Value| add != Value::Null;
    let stays = |key: Value| newest_add_on(scan, actions, key) != Value::Null;
    lemma_filter_map(files, pair, by_plan);
    lemma_filter_map(files, newest, not_null);
    assert forall|i: int| 0 <= i < files.len() implies (|key: Value| by_plan(pair(key)))(
        #[trigger] files[i],
    ) == stays(files[i]) by {
        let row = pair(files[i]);
        lemma_lookup(schema, row, 1);
        lemma_is_not_null(engine, top_col(ADD_NAME@), schema, row, boolean_type());
    }
    lemma_filter_same(files, |key: Value| by_plan(pair(key)), stays);
    lemma_filter_same(files, |key: Value| not_null(newest(key)), stays);
    let kept = files.filter(stays);

    // What is returned of them.
    let got = kept.map_values(pair).map_values(
        |row: Row| project_row(engine, output_expr(patch), schema, row, output_schema(patch)),
    );
    let expected = kept.map_values(newest).map_values(
        |add: Value| seq![returned_add(scan, children, add)],
    );
    assert forall|i: int| 0 <= i < got.len() implies got[i] == expected[i] by {
        let row = pair(kept[i]);
        lemma_newest_add_shape(scan, actions, kept[i]);
        lemma_returned_row(engine, scan, schema, row, 1, children);
    }
    assert(got =~= expected);
}

/// The adds of the checkpoint after pruning, as a relation.
proof fn lemma_pruned_checkpoint(
    engine: Engine,
    scan: ScanView,
    shape: ShapeView,
    checkpoint: RelationView,
    prune: Option<PredicateView>,
)
    requires
        checkpoint.wf(),
        checkpoint.schema == checkpoint_schema(scan, shape),
        rows_of(engine, checkpoint) == checkpoint_adds(engine, scan, shape),
    ensures
        ({
            let kept = checkpoint.filter_opt(prune);
            &&& kept.wf()
            &&& kept.schema == checkpoint_schema(scan, shape)
            &&& kept.plan is None <==> checkpoint.plan is None
            &&& rows_of(engine, kept) == kept_checkpoint_adds(engine, scan, shape, prune)
        }),
{
    if let Some(p) = prune {
        lemma_filter(engine, checkpoint, p);
    }
}

/// A file matches a newest action exactly if some action acts on it.
proof fn lemma_superseded(scan: ScanView, actions: Seq<Row>, key: Value)
    requires
        are_actions(actions),
        key is Record,
    ensures
        has_match(
            newest_schema(scan),
            file_key_columns(),
            newest_rows(scan, actions),
            seq![key],
        ) <==> acts_on(actions, key),
{
    let schema = newest_schema(scan);
    let keys = file_key_columns();
    let rows = newest_rows(scan, actions);
    let files = files_acted_on(actions);
    lemma_names(scan, arbitrary());
    law_each_file_once(actions);
    assert forall|j: int| 0 <= j < rows.len() implies key_values(schema, keys, #[trigger] rows[j])
        == seq![files[j]] by {
        lemma_lookup(schema, rows[j], 0);
        assert(key_values(schema, keys, rows[j]) =~= seq![files[j]]);
    }
    if acts_on(actions, key) {
        assert(files.contains(key));
        let j = choose|j: int| 0 <= j < files.len() && files[j] == key;
        assert(keys_match(seq![key], key_values(schema, keys, rows[j])));
    }
    if has_match(schema, keys, rows, seq![key]) {
        let j = choose|j: int|
            0 <= j < rows.len() && keys_match(
                seq![key],
                key_values(schema, keys, #[trigger] rows[j]),
            );
        assert(seq![key][0] == seq![files[j]][0]);
        assert(files.contains(key));
    }
}

/// The rows of the checkpoint that the plan returns.
proof fn lemma_live_checkpoint(
    engine: Engine,
    scan: ScanView,
    shape: ShapeView,
    kept: RelationView,
    deduped: RelationView,
    actions: Seq<Row>,
    adds: Seq<Row>,
)
    requires
        can_return(scan),
        are_actions(actions),
        forall|i: int|
            0 <= i < adds.len() ==> (#[trigger] adds[i]).len() == 4 && adds[i][0] is Record
                && adds[i][3] is Record,
        kept.wf(),
        kept.schema == checkpoint_schema(scan, shape),
        rows_of(engine, kept) == adds,
        deduped.wf(),
        deduped.schema == newest_schema(scan),
        rows_of(engine, deduped) == newest_rows(scan, actions),
    ensures
        ({
            let patch = output_patch(scan, normalized_add_view(scan));
            let joined = kept.anti_join(deduped, file_key_columns(), file_key_columns());
            let live = joined->Ok_0.project(output_expr(patch), output_schema(patch));
            &&& joined is Ok
            &&& live is Ok
            &&& live->Ok_0.wf()
            &&& live->Ok_0.schema == output_schema(patch)
            &&& live->Ok_0.plan is None <==> kept.plan is None
            &&& rows_of(engine, live->Ok_0) == live_checkpoint_adds(actions, adds).map_values(
                |add: Value| seq![returned_add(scan, checkpoint_add_children(scan, shape), add)],
            )
        }),
{
    let patch = output_patch(scan, normalized_add_view(scan));
    let schema = checkpoint_schema(scan, shape);
    let keys = file_key_columns();
    let children = checkpoint_add_children(scan, shape);
    lemma_names(scan, shape);
    lemma_lookup(schema, arbitrary(), 3);
    lemma_lookup(newest_schema(scan), arbitrary(), 0);
    let joined = kept.anti_join(deduped, keys, keys);
    assert(joined is Ok);
    lemma_anti_join(engine, kept, deduped, keys, keys);
    let by_plan = |row: Row|
        !has_match(
            newest_schema(scan),
            keys,
            rows_of(engine, deduped),
            key_values(schema, keys, row),
        );
    let stays = |row: Row| !acts_on(actions, key_of(row));
    assert forall|i: int| 0 <= i < adds.len() implies by_plan(#[trigger] adds[i]) == stays(
        adds[i],
    ) by {
        lemma_lookup(schema, adds[i], 3);
        assert(key_values(schema, keys, adds[i]) =~= seq![key_of(adds[i])]);
        lemma_superseded(scan, actions, key_of(adds[i]));
    }
    lemma_filter_same(adds, by_plan, stays);
    let left = adds.filter(stays);
    lemma_project(engine, joined->Ok_0, output_expr(patch), output_schema(patch));
    let got = left.map_values(
        |row: Row| project_row(engine, output_expr(patch), schema, row, output_schema(patch)),
    );
    let expected = live_checkpoint_adds(actions, adds).map_values(
        |add: Value| seq![returned_add(scan, children, add)],
    );
    assert forall|i: int| 0 <= i < got.len() implies got[i] == expected[i] by {
        lemma_filter_from(adds, stays, i);
        lemma_returned_row(engine, scan, schema, left[i], 0, children);
    }
    assert(got =~= expected);
}

/// Why a plan cannot be built, if so: parsed statistics are requested that the scan does not parse,
/// the version of a commit does not fit the version column, or the checkpoint cannot be read.
pub open spec fn plan_error(scan: ScanView, shape: ShapeView) -> Option<Error> {
    if !can_return(scan) {
        Some(Error::UnknownColumn)
    } else {
        match tag_with_versions(scan.segment.commit_cover) {
            Err(e) => Some(e),
            Ok(_) => checkpoint_error(scan, shape),
        }
    }
}

/// The plan of a scan yields the live adds of the log, whatever the files hold. Adds are pruned
/// first, and removes never are; of the actions of the commits on one file the newest one wins; and
/// an add of the checkpoint is live if no commit acts on its file. A plan can be built unless there
/// is a reason against it, and there is one exactly if there are files to read.
pub proof fn law_plan_reconciles(
    engine: Engine,
    scan: ScanView,
    shape: ShapeView,
    prune: Option<PredicateView>,
)
    requires
        is_sound(engine),
    ensures
        match (metadata_relation(scan, shape, prune), plan_error(scan, shape)) {
            (Ok(relation), None) => {
                &&& relation.wf()
                &&& relation.schema == seq![
                    nullable_field(ADD_NAME@, DataTypeView::Struct(returned_children(scan))),
                ]
                &&& relation.plan is None <==> scan.segment.commit_cover.len() == 0
                    && checkpoint_file_count(scan, shape) == 0
                &&& rows_of(engine, relation) == reconciled(engine, scan, shape, prune)
            },
            (Err(e), Some(f)) => e == f,
            _ => false,
        },
{
    law_output_schema(scan);
    law_commit_arm(engine, scan);
    law_checkpoint_arm(engine, scan, shape);
    let output = output_patch(scan, normalized_add_view(scan));
    if can_return(scan) && tag_with_versions(scan.segment.commit_cover) is Ok {
        let commits = commit_relation(scan)->Ok_0;
        lemma_deduped(engine, scan, commits, prune);
        let deduped = deduped_commits(commits, prune)->Ok_0;
        if checkpoint_error(scan, shape) is None {
            let checkpoint = checkpoint_relation(scan, shape)->Ok_0;
            let actions = kept_commit_actions(engine, scan, prune);
            let adds = kept_checkpoint_adds(engine, scan, shape, prune);
            lemma_all_kept(engine, scan, shape, prune);
            assert forall|i: int| 0 <= i < adds.len() implies (#[trigger] adds[i]).len() == 4
                && adds[i][0] is Record && adds[i][3] is Record by {
                lemma_kept_add(engine, scan, shape, prune, i);
            }
            lemma_pruned_checkpoint(engine, scan, shape, checkpoint, prune);
            let kept = checkpoint.filter_opt(prune);
            lemma_live_commits(engine, scan, deduped, actions);
            lemma_live_checkpoint(engine, scan, shape, kept, deduped, actions, adds);
            let commit_live = deduped.filter(top_col(ADD_NAME@).is_not_null()).project(
                output_expr(output),
                output_schema(output),
            )->Ok_0;
            let joined = kept.anti_join(deduped, file_key_columns(), file_key_columns())->Ok_0;
            let checkpoint_live = joined.project(
                output_expr(output),
                output_schema(output),
            )->Ok_0;
            lemma_union(engine, commit_live, checkpoint_live);
            assert(metadata_relation(scan, shape, prune) == RelationView::union_all(
                seq![commit_live, checkpoint_live],
            ));
        }
    }
}

/// When a plan can be built, and when there is nothing to read.
pub proof fn lemma_plan_outcome(scan: ScanView, shape: ShapeView, prune: Option<PredicateView>)
    ensures
        match (metadata_relation(scan, shape, prune), plan_error(scan, shape)) {
            (Ok(relation), None) => relation.plan is None <==> scan.segment.commit_cover.len() == 0
                && checkpoint_file_count(scan, shape) == 0,
            (Err(e), Some(f)) => e == f,
            _ => false,
        },
{
    // The outcome does not depend on what the files hold, so let them hold nothing.
    assert(is_sound(empty_engine()));
    law_plan_reconciles(empty_engine(), scan, shape, prune);
}

// --- What is live ---

/// The files that actions act on are each considered once, and no others are, so the commits give
/// at most one row for a file.
pub proof fn law_each_file_once(actions: Seq<Row>)
    ensures
        files_acted_on(actions).no_duplicates(),
        forall|key: Value| #[trigger]
            files_acted_on(actions).contains(key) <==> acts_on(actions, key),
    decreases actions.len(),
{
    if actions.len() > 0 {
        let before = actions.drop_last();
        law_each_file_once(before);
        let row = actions.last();
        let key = key_of(row);
        assert(row == actions[actions.len() - 1]);
        let files = files_acted_on(before);
        let all = files_acted_on(actions);
        assert forall|k: Value| #[trigger] all.contains(k) <==> acts_on(actions, k) by {
            assert(files.contains(k) <==> acts_on(before, k));
            if acts_on(before, k) {
                let j = choose|j: int| 0 <= j < before.len() && key_of(#[trigger] before[j]) == k;
                assert(actions[j] == before[j]);
            }
            if acts_on(actions, k) && k != key {
                let j = choose|j: int|
                    0 <= j < actions.len() && key_of(#[trigger] actions[j]) == k;
                assert(before[j] == actions[j]);
            }
            if all.contains(k) {
                let j = choose|j: int| 0 <= j < all.len() && all[j] == k;
                if j < files.len() {
                    assert(files[j] == k);
                } else {
                    assert(actions[actions.len() - 1] == row);
                }
            }
            if files.contains(k) {
                let j = choose|j: int| 0 <= j < files.len() && files[j] == k;
                assert(all[j] == k);
            }
            if k == key && !files.contains(key) {
                assert(all[all.len() - 1] == key);
            }
        }
    }
}

/// Every row that a scan returns is a live add: one of the commits that is a newest action on its
/// file, or one of the checkpoint on whose file no commit acts.
pub proof fn law_returned_rows_are_live(
    engine: Engine,
    scan: ScanView,
    shape: ShapeView,
    prune: Option<PredicateView>,
    n: int,
)
    requires
        is_sound(engine),
        plan_error(scan, shape) is None,
        0 <= n < reconciled(engine, scan, shape, prune).len(),
    ensures
        ({
            let row = reconciled(engine, scan, shape, prune)[n];
            let actions = kept_commit_actions(engine, scan, prune);
            let adds = kept_checkpoint_adds(engine, scan, shape, prune);
            ||| exists|i: int|
                {
                    &&& #[trigger] is_newest(actions, key_of(actions[i]), i)
                    &&& actions[i][0] is Record
                    &&& row == seq![
                        returned_add(scan, commit_add_children(scan), actions[i][0]),
                    ]
                }
            ||| exists|j: int|
                {
                    &&& 0 <= j < adds.len()
                    &&& !acts_on(actions, key_of(#[trigger] adds[j]))
                    &&& row == seq![
                        returned_add(scan, checkpoint_add_children(scan, shape), adds[j][0]),
                    ]
                }
        }),
{
    let actions = kept_commit_actions(engine, scan, prune);
    let adds = kept_checkpoint_adds(engine, scan, shape, prune);
    lemma_all_kept(engine, scan, shape, prune);
    let commit_live = live_commit_adds(scan, actions);
    if n < commit_live.len() {
        let files = files_acted_on(actions);
        let newest = files.map_values(|key: Value| newest_add_on(scan, actions, key));
        let not_null = |add: Value| add != Value::Null;
        lemma_filter_from(newest, not_null, n);
        let add = commit_live[n];
        let k = choose|k: int| 0 <= k < newest.len() && newest[k] == add;
        law_each_file_once(actions);
        assert(files.contains(files[k]));
        law_newest_action_wins(scan, actions, files[k]);
        let i = choose|i: int|
            #[trigger] is_newest(actions, files[k], i) && newest_add_on(scan, actions, files[k])
                == actions[i][0];
        assert(is_newest(actions, key_of(actions[i]), i));
    } else {
        let stays = |row: Row| !acts_on(actions, key_of(row));
        let m = n - commit_live.len();
        lemma_filter_from(adds, stays, m);
        let row = adds.filter(stays)[m];
        let j = choose|j: int| 0 <= j < adds.len() && adds[j] == row;
        assert(!acts_on(actions, key_of(adds[j])));
    }
}

/// What the rows of both arms look like after pruning.
pub proof fn lemma_all_kept(
    engine: Engine,
    scan: ScanView,
    shape: ShapeView,
    prune: Option<PredicateView>,
)
    requires
        is_sound(engine),
        plan_error(scan, shape) is None,
    ensures
        are_actions(kept_commit_actions(engine, scan, prune)),
{
    let actions = kept_commit_actions(engine, scan, prune);
    assert forall|i: int| 0 <= i < actions.len() implies {
        let row = #[trigger] actions[i];
        &&& row.len() == 5
        &&& row[0] is Null || row[0] is Record
        &&& row[2] is Int
        &&& row[4] is Record
    } by {
        lemma_kept_action(engine, scan, prune, i);
    }
}

/// An add of the commits that pruning kept, and that is newer than every other action on its file,
/// is returned.
pub proof fn law_newest_add_is_returned(
    engine: Engine,
    scan: ScanView,
    shape: ShapeView,
    prune: Option<PredicateView>,
    i: int,
)
    requires
        is_sound(engine),
        plan_error(scan, shape) is None,
        ({
            let actions = kept_commit_actions(engine, scan, prune);
            &&& 0 <= i < actions.len()
            &&& actions[i][0] is Record
            &&& forall|j: int|
                0 <= j < actions.len() && j != i && key_of(#[trigger] actions[j]) == key_of(
                    actions[i],
                ) ==> version_of(actions[j]) < version_of(actions[i])
        }),
    ensures
        reconciled(engine, scan, shape, prune).contains(
            seq![
                returned_add(
                    scan,
                    commit_add_children(scan),
                    kept_commit_actions(engine, scan, prune)[i][0],
                ),
            ],
        ),
{
    let actions = kept_commit_actions(engine, scan, prune);
    let key = key_of(actions[i]);
    lemma_all_kept(engine, scan, shape, prune);
    assert(acts_on(actions, key));
    law_newest_action_wins(scan, actions, key);
    let w = choose|w: int|
        #[trigger] is_newest(actions, key, w) && newest_add_on(scan, actions, key) == actions[w][0];
    assert(version_of(actions[i]) <= version_of(actions[w]));
    assert(w == i);
    lemma_newest_on_file_returned(engine, scan, shape, prune, key);
}

/// What the plan takes for the newest add on a file is returned, unless it is null.
proof fn lemma_newest_on_file_returned(
    engine: Engine,
    scan: ScanView,
    shape: ShapeView,
    prune: Option<PredicateView>,
    key: Value,
)
    requires
        acts_on(kept_commit_actions(engine, scan, prune), key),
        newest_add_on(scan, kept_commit_actions(engine, scan, prune), key) is Record,
    ensures
        reconciled(engine, scan, shape, prune).contains(
            seq![
                returned_add(
                    scan,
                    commit_add_children(scan),
                    newest_add_on(scan, kept_commit_actions(engine, scan, prune), key),
                ),
            ],
        ),
{
    let actions = kept_commit_actions(engine, scan, prune);
    let add = newest_add_on(scan, actions, key);
    law_each_file_once(actions);
    let files = files_acted_on(actions);
    assert(files.contains(key));
    let k = choose|k: int| 0 <= k < files.len() && files[k] == key;
    let newest = files.map_values(|key: Value| newest_add_on(scan, actions, key));
    let not_null = |add: Value| add != Value::Null;
    assert(newest[k] == add);
    lemma_filter_keeps(newest, not_null, k);
    let live = live_commit_adds(scan, actions);
    let m = choose|m: int| 0 <= m < live.len() && live[m] == add;
    assert(reconciled(engine, scan, shape, prune)[m] == seq![
        returned_add(scan, commit_add_children(scan), live[m]),
    ]);
}

/// An add of the checkpoint that pruning kept, and on whose file no commit acts, is returned.
pub proof fn law_untouched_add_is_returned(
    engine: Engine,
    scan: ScanView,
    shape: ShapeView,
    prune: Option<PredicateView>,
    j: int,
)
    requires
        0 <= j < kept_checkpoint_adds(engine, scan, shape, prune).len(),
        !acts_on(
            kept_commit_actions(engine, scan, prune),
            key_of(kept_checkpoint_adds(engine, scan, shape, prune)[j]),
        ),
    ensures
        reconciled(engine, scan, shape, prune).contains(
            seq![
                returned_add(
                    scan,
                    checkpoint_add_children(scan, shape),
                    kept_checkpoint_adds(engine, scan, shape, prune)[j][0],
                ),
            ],
        ),
{
    let actions = kept_commit_actions(engine, scan, prune);
    let adds = kept_checkpoint_adds(engine, scan, shape, prune);
    let stays = |row: Row| !acts_on(actions, key_of(row));
    lemma_filter_keeps(adds, stays, j);
    let left = adds.filter(stays);
    let m = choose|m: int| 0 <= m < left.len() && left[m] == adds[j];
    let n = live_commit_adds(scan, actions).len();
    assert(reconciled(engine, scan, shape, prune)[n + m] == seq![
        returned_add(scan, checkpoint_add_children(scan, shape), left[m][0]),
    ]);
}

/// Where the newest action on a file is a remove, the commits give no row for the file.
pub proof fn law_removed_file_has_no_add(scan: ScanView, actions: Seq<Row>, key: Value)
    requires
        are_actions(actions),
        acts_on(actions, key),
        forall|i: int| #[trigger] is_newest(actions, key, i) ==> actions[i][0] is Null,
    ensures
        newest_add_on(scan, actions, key) is Null,
{
    law_newest_action_wins(scan, actions, key);
}

/// Two actions act on the same file exactly if their paths are equal and so are their deletion
/// vectors: neither has one, or both have the same storage type, path or inline vector, and offset.
pub proof fn law_file_identity(
    path: Value,
    storage_type: Value,
    inline: Value,
    offset: Value,
    other_path: Value,
    other_storage_type: Value,
    other_inline: Value,
    other_offset: Value,
)
    ensures
        key_value(path, storage_type, inline, offset) == key_value(
            other_path,
            other_storage_type,
            other_inline,
            other_offset,
        ) <==> {
            &&& path == other_path
            &&& storage_type == other_storage_type
            &&& storage_type is Null || (inline == other_inline && offset == other_offset)
        },
{
    let a = key_value(path, storage_type, inline, offset)->Record_0;
    let b = key_value(other_path, other_storage_type, other_inline, other_offset)->Record_0;
    if a == b {
        assert(a[0] == b[0] && a[1] == b[1]);
        if !(storage_type is Null) && !(other_storage_type is Null) {
            let c = a[1]->Record_0;
            let d = b[1]->Record_0;
            assert(c[0] == d[0] && c[1] == d[1] && c[2] == d[2]);
        }
    }
}

/// The adds of the checkpoint have the same schema as those of the commits, unless the scan parses
/// statistics and the checkpoint's parsed ones are of another schema.
pub proof fn law_arms_agree(scan: ScanView, shape: ShapeView)
    requires
        shape.parsed_stats_schema is Some && scan.stats_schema is Some ==> shape.parsed_stats_schema
            == scan.stats_schema,
    ensures
        commit_schema(scan)[0] == normalized_add_view(scan),
        checkpoint_schema(scan, shape)[0] == normalized_add_view(scan),
        checkpoint_add_children(scan, shape) == commit_add_children(scan),
{
}

// --- Pruning and replay ---

/// Whether a row satisfies the pruning predicate, if there is one.
pub open spec fn satisfies(
    engine: Engine,
    prune: Option<PredicateView>,
    schema: SchemaView,
    row: Row,
) -> bool {
    prune matches Some(p) ==> holds(engine, p, schema, row)
}

/// The rows of all live adds of the log, without pruning.
pub open spec fn live_rows(engine: Engine, scan: ScanView, shape: ShapeView) -> Seq<Row> {
    let actions = commit_actions(engine, scan);
    let adds = checkpoint_adds(engine, scan, shape);
    live_commit_adds(scan, actions).map_values(
        |add: Value| seq![returned_add(scan, commit_add_children(scan), add)],
    ) + live_checkpoint_adds(actions, adds).map_values(
        |add: Value| seq![returned_add(scan, checkpoint_add_children(scan, shape), add)],
    )
}

/// Whether an action of the commits is newer than every other one on its file.
pub open spec fn is_strictly_newest(actions: Seq<Row>, i: int) -> bool {
    forall|j: int|
        0 <= j < actions.len() && j != i && key_of(#[trigger] actions[j]) == key_of(actions[i])
            ==> version_of(actions[j]) < version_of(actions[i])
}

/// Whether a returned row is an add of the commits that satisfies the predicate, with no newer
/// remove of its file.
pub open spec fn is_kept_commit_add(
    engine: Engine,
    scan: ScanView,
    prune: Option<PredicateView>,
    row: Row,
    i: int,
) -> bool {
    let actions = commit_actions(engine, scan);
    &&& 0 <= i < actions.len()
    &&& actions[i][0] is Record
    &&& satisfies(engine, prune, commit_schema(scan), actions[i])
    &&& forall|j: int|
        0 <= j < actions.len() && key_of(#[trigger] actions[j]) == key_of(actions[i])
            && actions[j][0] is Null ==> version_of(actions[j]) <= version_of(actions[i])
    &&& row == seq![returned_add(scan, commit_add_children(scan), actions[i][0])]
}

/// Whether a returned row is an add of the checkpoint that satisfies the predicate, with no remove
/// of its file in the commits.
pub open spec fn is_kept_checkpoint_add(
    engine: Engine,
    scan: ScanView,
    shape: ShapeView,
    prune: Option<PredicateView>,
    row: Row,
    i: int,
) -> bool {
    let actions = commit_actions(engine, scan);
    let adds = checkpoint_adds(engine, scan, shape);
    &&& 0 <= i < adds.len()
    &&& satisfies(engine, prune, checkpoint_schema(scan, shape), adds[i])
    &&& forall|j: int|
        0 <= j < actions.len() && key_of(#[trigger] actions[j]) == key_of(adds[i])
            ==> actions[j][0] is Record
    &&& row == seq![returned_add(scan, checkpoint_add_children(scan, shape), adds[i][0])]
}

/// Whether a returned row is an add of the log that satisfies the predicate and that no newer
/// commit removes.
pub open spec fn is_kept_add(
    engine: Engine,
    scan: ScanView,
    shape: ShapeView,
    prune: Option<PredicateView>,
    row: Row,
) -> bool {
    ||| exists|i: int| is_kept_commit_add(engine, scan, prune, row, i)
    ||| exists|i: int| is_kept_checkpoint_add(engine, scan, shape, prune, row, i)
}

/// Pruning is a filter of the commits.
proof fn lemma_kept_commits(engine: Engine, scan: ScanView, prune: Option<PredicateView>)
    ensures
        kept_commit_actions(engine, scan, prune) == commit_actions(engine, scan).filter(
            |row: Row|
                row[0] == Value::Null || satisfies(engine, prune, commit_schema(scan), row),
        ),
{
    let all = commit_actions(engine, scan);
    let keeps = |row: Row|
        row[0] == Value::Null || satisfies(engine, prune, commit_schema(scan), row);
    match prune {
        Some(p) => lemma_filter_same(
            all,
            |row: Row| row[0] == Value::Null || holds(engine, p, commit_schema(scan), row),
            keeps,
        ),
        None => lemma_filter_all(all, keeps),
    }
}

/// Pruning is a filter of the checkpoint.
proof fn lemma_kept_adds(
    engine: Engine,
    scan: ScanView,
    shape: ShapeView,
    prune: Option<PredicateView>,
)
    ensures
        kept_checkpoint_adds(engine, scan, shape, prune) == checkpoint_adds(
            engine,
            scan,
            shape,
        ).filter(|row: Row| satisfies(engine, prune, checkpoint_schema(scan, shape), row)),
{
    let all = checkpoint_adds(engine, scan, shape);
    let keeps = |row: Row| satisfies(engine, prune, checkpoint_schema(scan, shape), row);
    match prune {
        Some(p) => lemma_filter_same(
            all,
            |row: Row| holds(engine, p, checkpoint_schema(scan, shape), row),
            keeps,
        ),
        None => lemma_filter_all(all, keeps),
    }
}

/// Every returned row is an add that satisfies the predicate.
proof fn lemma_returned_satisfies(
    engine: Engine,
    scan: ScanView,
    shape: ShapeView,
    prune: Option<PredicateView>,
    n: int,
)
    requires
        is_sound(engine),
        plan_error(scan, shape) is None,
        0 <= n < reconciled(engine, scan, shape, prune).len(),
    ensures
        is_kept_add(engine, scan, shape, prune, reconciled(engine, scan, shape, prune)[n]),
{
    let row = reconciled(engine, scan, shape, prune)[n];
    let all = commit_actions(engine, scan);
    let all_adds = checkpoint_adds(engine, scan, shape);
    let actions = kept_commit_actions(engine, scan, prune);
    let adds = kept_checkpoint_adds(engine, scan, shape, prune);
    let keeps = |row: Row|
        row[0] == Value::Null || satisfies(engine, prune, commit_schema(scan), row);
    lemma_kept_commits(engine, scan, prune);
    lemma_kept_adds(engine, scan, shape, prune);
    // A remove is never pruned.
    assert forall|j: int| 0 <= j < all.len() && (#[trigger] all[j])[0] is Null implies exists|
        k: int,
    |
        0 <= k < actions.len() && #[trigger] actions[k] == all[j] by {
        lemma_filter_keeps(all, keeps, j);
        let k = choose|k: int| 0 <= k < actions.len() && actions[k] == all[j];
        assert(actions[k] == all[j]);
    }
    law_returned_rows_are_live(engine, scan, shape, prune, n);
    if exists|i: int|
        {
            &&& #[trigger] is_newest(actions, key_of(actions[i]), i)
            &&& actions[i][0] is Record
            &&& row == seq![returned_add(scan, commit_add_children(scan), actions[i][0])]
        } {
        let i = choose|i: int|
            {
                &&& #[trigger] is_newest(actions, key_of(actions[i]), i)
                &&& actions[i][0] is Record
                &&& row == seq![returned_add(scan, commit_add_children(scan), actions[i][0])]
            };
        lemma_filter_from(all, keeps, i);
        let m = choose|m: int| 0 <= m < all.len() && all[m] == actions[i];
        assert forall|j: int|
            0 <= j < all.len() && key_of(#[trigger] all[j]) == key_of(all[m])
                && all[j][0] is Null implies version_of(all[j]) <= version_of(all[m]) by {
            let k = choose|k: int| 0 <= k < actions.len() && #[trigger] actions[k] == all[j];
            assert(key_of(actions[k]) == key_of(actions[i]));
        }
        assert(is_kept_commit_add(engine, scan, prune, row, m));
    } else {
        let i = choose|i: int|
            {
                &&& 0 <= i < adds.len()
                &&& !acts_on(actions, key_of(#[trigger] adds[i]))
                &&& row == seq![
                    returned_add(scan, checkpoint_add_children(scan, shape), adds[i][0]),
                ]
            };
        let kept = |row: Row| satisfies(engine, prune, checkpoint_schema(scan, shape), row);
        lemma_filter_from(all_adds, kept, i);
        let m = choose|m: int| 0 <= m < all_adds.len() && all_adds[m] == adds[i];
        assert forall|j: int|
            0 <= j < all.len() && key_of(#[trigger] all[j]) == key_of(
                all_adds[m],
            ) implies all[j][0] is Record by {
            lemma_commit_action(engine, scan, j);
            if all[j][0] is Null {
                let k = choose|k: int| 0 <= k < actions.len() && #[trigger] actions[k] == all[j];
                assert(key_of(actions[k]) == key_of(adds[i]));
            }
        }
        assert(is_kept_checkpoint_add(engine, scan, shape, prune, row, m));
    }
}

/// An add of the commits that satisfies the predicate and is strictly newest is returned.
proof fn lemma_live_commit_add_returned(
    engine: Engine,
    scan: ScanView,
    shape: ShapeView,
    prune: Option<PredicateView>,
    i: int,
)
    requires
        is_sound(engine),
        plan_error(scan, shape) is None,
        0 <= i < commit_actions(engine, scan).len(),
        commit_actions(engine, scan)[i][0] is Record,
        satisfies(engine, prune, commit_schema(scan), commit_actions(engine, scan)[i]),
        is_strictly_newest(commit_actions(engine, scan), i),
    ensures
        reconciled(engine, scan, shape, prune).contains(
            seq![
                returned_add(scan, commit_add_children(scan), commit_actions(engine, scan)[i][0]),
            ],
        ),
{
    let all = commit_actions(engine, scan);
    let actions = kept_commit_actions(engine, scan, prune);
    let keeps = |row: Row|
        row[0] == Value::Null || satisfies(engine, prune, commit_schema(scan), row);
    lemma_kept_commits(engine, scan, prune);
    lemma_filter_keeps(all, keeps, i);
    let k = choose|k: int| 0 <= k < actions.len() && actions[k] == all[i];
    assert forall|j: int|
        0 <= j < actions.len() && j != k && key_of(#[trigger] actions[j]) == key_of(
            actions[k],
        ) implies version_of(actions[j]) < version_of(actions[k]) by {
        if j < k {
            lemma_filter_order(all, keeps, j, k);
            let (a, b) = choose|a: int, b: int|
                0 <= a < b < all.len() && #[trigger] all[a] == actions[j] && #[trigger] all[b]
                    == actions[k];
            assert(b == i);
            assert(key_of(all[a]) == key_of(all[i]));
        } else {
            lemma_filter_order(all, keeps, k, j);
            let (a, b) = choose|a: int, b: int|
                0 <= a < b < all.len() && #[trigger] all[a] == actions[k] && #[trigger] all[b]
                    == actions[j];
            assert(a == i);
            assert(key_of(all[b]) == key_of(all[i]));
        }
    }
    law_newest_add_is_returned(engine, scan, shape, prune, k);
}

/// Whether all newest actions on a file are adds that satisfy the predicate.
pub open spec fn newest_satisfy(
    engine: Engine,
    scan: ScanView,
    prune: Option<PredicateView>,
    key: Value,
) -> bool {
    let actions = commit_actions(engine, scan);
    forall|i: int| #[trigger]
        is_newest(actions, key, i) ==> actions[i][0] is Record && satisfies(
            engine,
            prune,
            commit_schema(scan),
            actions[i],
        )
}

/// Whether one of the newest actions on a file is returned.
pub open spec fn returns_newest(
    engine: Engine,
    scan: ScanView,
    shape: ShapeView,
    prune: Option<PredicateView>,
    key: Value,
) -> bool {
    let actions = commit_actions(engine, scan);
    exists|i: int|
        #[trigger] is_newest(actions, key, i) && reconciled(engine, scan, shape, prune).contains(
            seq![returned_add(scan, commit_add_children(scan), actions[i][0])],
        )
}

/// If all newest actions on a file are adds that satisfy the predicate, one of them is returned.
proof fn lemma_one_newest_returned(
    engine: Engine,
    scan: ScanView,
    shape: ShapeView,
    prune: Option<PredicateView>,
    key: Value,
)
    requires
        is_sound(engine),
        plan_error(scan, shape) is None,
        acts_on(commit_actions(engine, scan), key),
        newest_satisfy(engine, scan, prune, key),
    ensures
        returns_newest(engine, scan, shape, prune, key),
{
    let all = commit_actions(engine, scan);
    let actions = kept_commit_actions(engine, scan, prune);
    let keeps = |row: Row|
        row[0] == Value::Null || satisfies(engine, prune, commit_schema(scan), row);
    lemma_kept_commits(engine, scan, prune);
    lemma_all_kept(engine, scan, shape, prune);
    // A newest action of the log is kept, so it is no newer than the winner.
    lemma_newest_exists(all, key);
    let n = choose|n: int| is_newest(all, key, n);
    lemma_filter_keeps(all, keeps, n);
    let k = choose|k: int| 0 <= k < actions.len() && actions[k] == all[n];
    assert(key_of(actions[k]) == key);
    assert(acts_on(actions, key));
    law_newest_action_wins(scan, actions, key);
    let w = choose|w: int|
        #[trigger] is_newest(actions, key, w) && newest_add_on(scan, actions, key) == actions[w][0];
    lemma_filter_from(all, keeps, w);
    let m = choose|m: int| 0 <= m < all.len() && all[m] == actions[w];
    assert(version_of(actions[k]) <= version_of(actions[w]));
    assert forall|j: int| 0 <= j < all.len() && key_of(#[trigger] all[j]) == key implies version_of(
        all[j],
    ) <= version_of(all[m]) by {
        assert(version_of(all[j]) <= version_of(all[n]));
    }
    assert(is_newest(all, key, m));
    lemma_newest_on_file_returned(engine, scan, shape, prune, key);
}

/// An add of the checkpoint that satisfies the predicate, and on whose file no commit acts, is
/// returned.
proof fn lemma_live_checkpoint_add_returned(
    engine: Engine,
    scan: ScanView,
    shape: ShapeView,
    prune: Option<PredicateView>,
    i: int,
)
    requires
        0 <= i < checkpoint_adds(engine, scan, shape).len(),
        satisfies(
            engine,
            prune,
            checkpoint_schema(scan, shape),
            checkpoint_adds(engine, scan, shape)[i],
        ),
        !acts_on(
            commit_actions(engine, scan),
            key_of(checkpoint_adds(engine, scan, shape)[i]),
        ),
    ensures
        reconciled(engine, scan, shape, prune).contains(
            seq![
                returned_add(
                    scan,
                    checkpoint_add_children(scan, shape),
                    checkpoint_adds(engine, scan, shape)[i][0],
                ),
            ],
        ),
{
    let all = commit_actions(engine, scan);
    let all_adds = checkpoint_adds(engine, scan, shape);
    let actions = kept_commit_actions(engine, scan, prune);
    let adds = kept_checkpoint_adds(engine, scan, shape, prune);
    let keeps = |row: Row|
        row[0] == Value::Null || satisfies(engine, prune, commit_schema(scan), row);
    let kept = |row: Row| satisfies(engine, prune, checkpoint_schema(scan, shape), row);
    lemma_kept_commits(engine, scan, prune);
    lemma_kept_adds(engine, scan, shape, prune);
    lemma_filter_keeps(all_adds, kept, i);
    let k = choose|k: int| 0 <= k < adds.len() && adds[k] == all_adds[i];
    if acts_on(actions, key_of(adds[k])) {
        let j = choose|j: int|
            0 <= j < actions.len() && key_of(#[trigger] actions[j]) == key_of(adds[k]);
        lemma_filter_from(all, keeps, j);
        let m = choose|m: int| 0 <= m < all.len() && all[m] == actions[j];
        assert(key_of(all[m]) == key_of(all_adds[i]));
    }
    law_untouched_add_is_returned(engine, scan, shape, prune, k);
}

/// What pruning does to the live adds of the log. Without a predicate, the rows of a scan are the
/// live adds. With one, every returned add satisfies it, and no add is returned whose file a newer
/// commit removes; and nothing that the predicate keeps is lost: an add of the commits that
/// satisfies it and is newer than every other action on its file is returned; where several actions
/// on a file are newest and all of them are adds that satisfy it, one of them is; and so is an add
/// of the checkpoint that satisfies it and on whose file no commit acts.
pub proof fn law_pruning_keeps_live_adds(
    engine: Engine,
    scan: ScanView,
    shape: ShapeView,
    prune: Option<PredicateView>,
)
    requires
        is_sound(engine),
        plan_error(scan, shape) is None,
    ensures
        prune is None ==> reconciled(engine, scan, shape, prune) == live_rows(
            engine,
            scan,
            shape,
        ),
        forall|n: int|
            0 <= n < reconciled(engine, scan, shape, prune).len() ==> is_kept_add(
                engine,
                scan,
                shape,
                prune,
                #[trigger] reconciled(engine, scan, shape, prune)[n],
            ),
        forall|i: int|
            {
                &&& 0 <= i < commit_actions(engine, scan).len()
                &&& (#[trigger] commit_actions(engine, scan)[i])[0] is Record
                &&& satisfies(engine, prune, commit_schema(scan), commit_actions(engine, scan)[i])
                &&& is_strictly_newest(commit_actions(engine, scan), i)
            } ==> reconciled(engine, scan, shape, prune).contains(
                seq![
                    returned_add(
                        scan,
                        commit_add_children(scan),
                        commit_actions(engine, scan)[i][0],
                    ),
                ],
            ),
        forall|key: Value|
            acts_on(commit_actions(engine, scan), key) && #[trigger] newest_satisfy(
                engine,
                scan,
                prune,
                key,
            ) ==> returns_newest(engine, scan, shape, prune, key),
        forall|i: int|
            {
                let add = #[trigger] checkpoint_adds(engine, scan, shape)[i];
                &&& 0 <= i < checkpoint_adds(engine, scan, shape).len()
                &&& satisfies(engine, prune, checkpoint_schema(scan, shape), add)
                &&& !acts_on(commit_actions(engine, scan), key_of(add))
            } ==> reconciled(engine, scan, shape, prune).contains(
                seq![
                    returned_add(
                        scan,
                        checkpoint_add_children(scan, shape),
                        checkpoint_adds(engine, scan, shape)[i][0],
                    ),
                ],
            ),
{
    let actions = commit_actions(engine, scan);
    let adds = checkpoint_adds(engine, scan, shape);
    let rows = reconciled(engine, scan, shape, prune);
    assert forall|n: int| 0 <= n < rows.len() implies is_kept_add(
        engine,
        scan,
        shape,
        prune,
        #[trigger] rows[n],
    ) by {
        lemma_returned_satisfies(engine, scan, shape, prune, n);
    }
    assert forall|i: int|
        {
            &&& 0 <= i < actions.len()
            &&& (#[trigger] actions[i])[0] is Record
            &&& satisfies(engine, prune, commit_schema(scan), actions[i])
            &&& is_strictly_newest(actions, i)
        } implies rows.contains(
        seq![returned_add(scan, commit_add_children(scan), actions[i][0])],
    ) by {
        lemma_live_commit_add_returned(engine, scan, shape, prune, i);
    }
    assert forall|key: Value|
        acts_on(actions, key) && #[trigger] newest_satisfy(
            engine,
            scan,
            prune,
            key,
        ) implies returns_newest(engine, scan, shape, prune, key) by {
        lemma_one_newest_returned(engine, scan, shape, prune, key);
    }
    assert forall|i: int|
        {
            let add = #[trigger] adds[i];
            &&& 0 <= i < adds.len()
            &&& satisfies(engine, prune, checkpoint_schema(scan, shape), add)
            &&& !acts_on(actions, key_of(add))
        } implies rows.contains(
        seq![returned_add(scan, checkpoint_add_children(scan, shape), adds[i][0])],
    ) by {
        lemma_live_checkpoint_add_returned(engine, scan, shape, prune, i);
    }
}

} // verus!
