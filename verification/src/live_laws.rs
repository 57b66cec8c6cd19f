//! Which adds of the log a scan returns, and how often.

use vstd::prelude::*;

use crate::arm_laws::{
    checkpoint_adds, checkpoint_schema, commit_actions, commit_schema, law_checkpoint_arm,
    law_commit_arm, lemma_commit_action,
};
use crate::checkpoint_shape::ShapeView;
use crate::expressions::{PathView, PredicateView};
use crate::output_laws::{agree_on, law_output_schema, lemma_agree, returned_add};
use crate::replay_laws::{
    acts_on, are_actions, checkpoint_add_children, commit_add_children, files_acted_on, is_newest,
    kept_checkpoint_adds, kept_commit_actions, key_of, law_each_file_once, law_newest_action_wins,
    law_plan_reconciles, lemma_all_kept, lemma_kept_add, lemma_names, live_checkpoint_adds,
    live_commit_adds, newest_add_on, plan_error, reconciled, version_of,
};
use crate::returned_laws::{agrees_at, is_returned_for, law_returned_add, returns_struct};
use crate::scan_plan::{
    checkpoint_relation, commit_relation, extracted_add_view, metadata_relation,
    normalized_add_view, output_patch, output_schema, ScanView,
};
use crate::schema::{
    distinct_names, lemma_distinct_field_pos, nullable_field, resolve, DataTypeView, SchemaView,
};
use crate::semantics::{holds, is_sound, lemma_lookup, lookup, rows_of, Engine, Row, Value};
use crate::sequences::{
    are_kept_positions, lemma_filter_all, lemma_filter_positions, lemma_filter_same,
};

verus! {

/// The rows of one of the arms, or of the plan, by the names of their columns.
pub struct Table {
    pub schema: SchemaView,
    pub rows: Seq<Row>,
}

impl Table {
    /// What a row holds in a column.
    pub open spec fn get(self, i: int, name: Seq<char>) -> Value {
        lookup(self.schema, self.rows[i], seq![name])
    }
}

/// Whether an action of the commits counts: a remove always does, an add if the pruning predicate
/// keeps it.
pub open spec fn action_counts(
    engine: Engine,
    prune: Option<PredicateView>,
    commits: Table,
    i: int,
) -> bool {
    &&& 0 <= i < commits.rows.len()
    &&& commits.get(i, "add"@) == Value::Null || (prune matches Some(p) ==> holds(
        engine,
        p,
        commits.schema,
        commits.rows[i],
    ))
}

/// Whether an add of the checkpoint counts: if the pruning predicate keeps it.
pub open spec fn add_counts(
    engine: Engine,
    prune: Option<PredicateView>,
    checkpoint: Table,
    j: int,
) -> bool {
    &&& 0 <= j < checkpoint.rows.len()
    &&& prune matches Some(p) ==> holds(engine, p, checkpoint.schema, checkpoint.rows[j])
}

/// Whether two actions of the commits act on the same file.
pub open spec fn on_same_file(commits: Table, i: int, j: int) -> bool {
    commits.get(i, "file_action_key"@) == commits.get(j, "file_action_key"@)
}

/// Whether an action of the commits counts and none that counts acts on its file at a later
/// version.
pub open spec fn none_is_newer(
    engine: Engine,
    prune: Option<PredicateView>,
    commits: Table,
    i: int,
) -> bool {
    &&& action_counts(engine, prune, commits, i)
    &&& forall|j: int| #[trigger]
        action_counts(engine, prune, commits, j) && on_same_file(commits, i, j) ==> commits.get(
            j,
            "version"@,
        )->Int_0 <= commits.get(i, "version"@)->Int_0
}

/// Whether an add of the checkpoint counts and no action of the commits that counts acts on its
/// file.
pub open spec fn is_untouched(
    engine: Engine,
    prune: Option<PredicateView>,
    commits: Table,
    checkpoint: Table,
    j: int,
) -> bool {
    &&& add_counts(engine, prune, checkpoint, j)
    &&& forall|i: int| #[trigger]
        action_counts(engine, prune, commits, i) ==> commits.get(i, "file_action_key"@)
            != checkpoint.get(j, "file_action_key"@)
}

/// Where a returned row comes from: an action of the commits or an add of the checkpoint.
pub enum Origin {
    Commit(int),
    Checkpoint(int),
}

/// Whether a returned row has a rightful origin: a newest action on its file that is an add, or an
/// untouched add of the checkpoint; and whether it is what a scan returns of that add.
pub open spec fn is_rightful(
    engine: Engine,
    scan: ScanView,
    prune: Option<PredicateView>,
    commits: Table,
    checkpoint: Table,
    out: Table,
    n: int,
    origin: Origin,
) -> bool {
    match origin {
        Origin::Commit(i) => {
            &&& none_is_newer(engine, prune, commits, i)
            &&& commits.get(i, "add"@) != Value::Null
            &&& is_returned_for(scan, commits.schema, commits.rows[i], out.schema, out.rows[n])
        },
        Origin::Checkpoint(j) => {
            &&& is_untouched(engine, prune, commits, checkpoint, j)
            &&& is_returned_for(
                scan,
                checkpoint.schema,
                checkpoint.rows[j],
                out.schema,
                out.rows[n],
            )
        },
    }
}

/// Whether the returned rows are those of the live adds, by way of the given origins. Each row has
/// a rightful origin, no two have the same, and no two come from actions of the commits on one
/// file. Those of the commits come first, and those of the checkpoint stay in their order. A file
/// that the commits act on has a row if its newest actions are all adds, and every untouched add of
/// the checkpoint has one.
pub open spec fn are_live_rows(
    engine: Engine,
    scan: ScanView,
    prune: Option<PredicateView>,
    commits: Table,
    checkpoint: Table,
    out: Table,
    origins: Seq<Origin>,
) -> bool {
    &&& origins.len() == out.rows.len()
    &&& forall|n: int|
        0 <= n < origins.len() ==> is_rightful(
            engine,
            scan,
            prune,
            commits,
            checkpoint,
            out,
            n,
            #[trigger] origins[n],
        )
    &&& forall|n: int, m: int|
        0 <= n < m < origins.len() ==> match (#[trigger] origins[n], #[trigger] origins[m]) {
            (Origin::Commit(i), Origin::Commit(j)) => !on_same_file(commits, i, j),
            (Origin::Checkpoint(i), Origin::Checkpoint(j)) => i < j,
            (Origin::Commit(_), Origin::Checkpoint(_)) => true,
            (Origin::Checkpoint(_), Origin::Commit(_)) => false,
        }
    &&& forall|i: int|
        {
            &&& #[trigger] action_counts(engine, prune, commits, i)
            &&& forall|j: int| #[trigger]
                none_is_newer(engine, prune, commits, j) && on_same_file(commits, i, j)
                    ==> commits.get(j, "add"@) != Value::Null
        } ==> exists|n: int, w: int|
            {
                &&& 0 <= n < origins.len()
                &&& #[trigger] origins[n] == Origin::Commit(w)
                &&& #[trigger] on_same_file(commits, i, w)
            }
    &&& forall|j: int| #[trigger]
        is_untouched(engine, prune, commits, checkpoint, j) ==> exists|n: int|
            0 <= n < origins.len() && #[trigger] origins[n] == Origin::Checkpoint(j)
}

/// A row of which a scan returns the add can be read by its add alone.
proof fn lemma_returned_for_whole(
    scan: ScanView,
    schema: SchemaView,
    row: Row,
    children: SchemaView,
    out_schema: SchemaView,
    out: Row,
)
    requires
        schema.len() > 0,
        schema[0] == nullable_field("add"@, DataTypeView::Struct(children)),
        distinct_names(schema),
        is_returned_for(
            scan,
            seq![nullable_field("add"@, DataTypeView::Struct(children))],
            seq![row[0]],
            out_schema,
            out,
        ),
    ensures
        is_returned_for(scan, schema, row, out_schema, out),
{
    let one = seq![nullable_field("add"@, DataTypeView::Struct(children))];
    let one_row = seq![row[0]];
    lemma_distinct_field_pos(schema, 0);
    lemma_distinct_field_pos(one, 0);
    assert(agree_on(schema, row, one, one_row, "add"@));
    lemma_agree(schema, row, one, one_row, seq!["add"@]);
    assert forall|k: int| #![trigger extracted_add_view()[k]] 0 <= k < 11 implies lookup(
        schema,
        row,
        seq!["add"@, extracted_add_view()[k].name],
    ) == lookup(one, one_row, seq!["add"@, extracted_add_view()[k].name]) by {
        lemma_agree(schema, row, one, one_row, seq!["add"@, extracted_add_view()[k].name]);
    }
    if lookup(schema, row, seq!["add"@]) != Value::Null {
        if let Some(wanted) = scan.stats_output_schema {
            lemma_returns_whole(
                "stats_parsed"@,
                wanted,
                schema,
                row,
                one,
                one_row,
                lookup(out_schema, out, seq!["add"@, "stats_parsed"@]),
            );
        }
        if scan.parsed_partition_values && scan.partition_schema is Some {
            lemma_returns_whole(
                "partitionValues_parsed"@,
                scan.partition_schema->0,
                schema,
                row,
                one,
                one_row,
                lookup(out_schema, out, seq!["add"@, "partitionValues_parsed"@]),
            );
        }
    }
}

/// A struct of an add can be read by the add alone.
proof fn lemma_returns_whole(
    name: Seq<char>,
    wanted: SchemaView,
    schema: SchemaView,
    row: Row,
    one: SchemaView,
    one_row: Row,
    returned: Value,
)
    requires
        agree_on(schema, row, one, one_row, "add"@),
        returns_struct(name, wanted, one, one_row, returned),
    ensures
        returns_struct(name, wanted, schema, row, returned),
{
    let root = seq!["add"@, name];
    lemma_agree(schema, row, one, one_row, root);
    if let Value::Record(values) = returned {
        assert forall|path: PathView|
            #![trigger resolve(wanted, path)]
            resolve(wanted, path) is Some implies agrees_at(
            wanted,
            values,
            schema,
            row,
            root,
            path,
        ) by {
            assert(agrees_at(wanted, values, one, one_row, root, path));
            assert((root + path)[0] == "add"@);
            lemma_agree(schema, row, one, one_row, root + path);
        }
    }
}

/// What a row of the commits holds in its columns.
proof fn lemma_commit_get(scan: ScanView, shape: ShapeView, rows: Seq<Row>, i: int)
    requires
        0 <= i < rows.len(),
        rows[i].len() == 5,
    ensures
        ({
            let commits = Table { schema: commit_schema(scan), rows };
            &&& commits.get(i, "add"@) == rows[i][0]
            &&& commits.get(i, "version"@) == rows[i][2]
            &&& commits.get(i, "file_action_key"@) == key_of(rows[i])
        }),
{
    lemma_names(scan, shape);
    lemma_lookup(commit_schema(scan), rows[i], 0);
    lemma_lookup(commit_schema(scan), rows[i], 2);
    lemma_lookup(commit_schema(scan), rows[i], 4);
}

/// What a row of the checkpoint holds in its columns.
proof fn lemma_checkpoint_get(scan: ScanView, shape: ShapeView, rows: Seq<Row>, i: int)
    requires
        0 <= i < rows.len(),
        rows[i].len() == 4,
    ensures
        ({
            let checkpoint = Table { schema: checkpoint_schema(scan, shape), rows };
            &&& checkpoint.get(i, "add"@) == rows[i][0]
            &&& checkpoint.get(i, "file_action_key"@) == key_of(rows[i])
        }),
{
    lemma_names(scan, shape);
    lemma_lookup(checkpoint_schema(scan, shape), rows[i], 0);
    lemma_lookup(checkpoint_schema(scan, shape), rows[i], 3);
}

/// Whether positions are those of the actions that pruning keeps, among those of the commits.
spec fn are_action_positions(
    engine: Engine,
    scan: ScanView,
    prune: Option<PredicateView>,
    positions: Seq<int>,
) -> bool {
    let rows = commit_actions(engine, scan);
    let commits = Table { schema: commit_schema(scan), rows };
    let kept = kept_commit_actions(engine, scan, prune);
    &&& positions.len() == kept.len()
    &&& forall|k: int|
        0 <= k < kept.len() ==> {
            &&& action_counts(engine, prune, commits, #[trigger] positions[k])
            &&& kept[k] == rows[positions[k]]
        }
    &&& forall|k: int, l: int|
        0 <= k < l < kept.len() ==> #[trigger] positions[k] < #[trigger] positions[l]
    &&& forall|i: int| #[trigger]
        action_counts(engine, prune, commits, i) ==> exists|k: int|
            0 <= k < kept.len() && #[trigger] positions[k] == i
}

/// Whether positions are those of the adds that pruning keeps, among those of the checkpoint.
spec fn are_add_positions(
    engine: Engine,
    scan: ScanView,
    shape: ShapeView,
    prune: Option<PredicateView>,
    positions: Seq<int>,
) -> bool {
    let rows = checkpoint_adds(engine, scan, shape);
    let checkpoint = Table { schema: checkpoint_schema(scan, shape), rows };
    let kept = kept_checkpoint_adds(engine, scan, shape, prune);
    &&& positions.len() == kept.len()
    &&& forall|k: int|
        0 <= k < kept.len() ==> {
            &&& add_counts(engine, prune, checkpoint, #[trigger] positions[k])
            &&& kept[k] == rows[positions[k]]
        }
    &&& forall|k: int, l: int|
        0 <= k < l < kept.len() ==> #[trigger] positions[k] < #[trigger] positions[l]
    &&& forall|i: int| #[trigger]
        add_counts(engine, prune, checkpoint, i) ==> exists|k: int|
            0 <= k < kept.len() && #[trigger] positions[k] == i
}

/// Where the actions that pruning keeps stand among those of the commits.
proof fn lemma_action_positions(
    engine: Engine,
    scan: ScanView,
    shape: ShapeView,
    prune: Option<PredicateView>,
) -> (positions: Seq<int>)
    requires
        is_sound(engine),
        plan_error(scan, shape) is None,
    ensures
        are_action_positions(engine, scan, prune, positions),
{
    let rows = commit_actions(engine, scan);
    let commits = Table { schema: commit_schema(scan), rows };
    let keeps = |row: Row|
        row[0] == Value::Null || (prune matches Some(p) ==> holds(
            engine,
            p,
            commit_schema(scan),
            row,
        ));
    let kept = kept_commit_actions(engine, scan, prune);
    match prune {
        Some(p) => {
            lemma_filter_same(
                rows,
                keeps,
                |row: Row| row[0] == Value::Null || holds(engine, p, commit_schema(scan), row),
            );
        },
        None => {
            lemma_filter_all(rows, keeps);
        },
    }
    let positions = lemma_filter_positions(rows, keeps);
    assert forall|i: int| 0 <= i < rows.len() implies #[trigger] action_counts(
        engine,
        prune,
        commits,
        i,
    ) == keeps(rows[i]) by {
        lemma_commit_action(engine, scan, i);
        lemma_commit_get(scan, shape, rows, i);
    }
    assert forall|k: int| 0 <= k < kept.len() implies {
        &&& action_counts(engine, prune, commits, #[trigger] positions[k])
        &&& kept[k] == rows[positions[k]]
    } by {}
    assert forall|i: int| #[trigger] action_counts(engine, prune, commits, i) implies exists|k: int|
        0 <= k < kept.len() && #[trigger] positions[k] == i by {
        assert(keeps(rows[i]));
    }
    positions
}

/// Where the adds that pruning keeps stand among those of the checkpoint.
proof fn lemma_add_positions(
    engine: Engine,
    scan: ScanView,
    shape: ShapeView,
    prune: Option<PredicateView>,
) -> (positions: Seq<int>)
    ensures
        are_add_positions(engine, scan, shape, prune, positions),
{
    let rows = checkpoint_adds(engine, scan, shape);
    let checkpoint = Table { schema: checkpoint_schema(scan, shape), rows };
    let keeps = |row: Row|
        prune matches Some(p) ==> holds(engine, p, checkpoint_schema(scan, shape), row);
    let kept = kept_checkpoint_adds(engine, scan, shape, prune);
    match prune {
        Some(p) => {
            lemma_filter_same(
                rows,
                keeps,
                |row: Row| holds(engine, p, checkpoint_schema(scan, shape), row),
            );
        },
        None => {
            lemma_filter_all(rows, keeps);
        },
    }
    let positions = lemma_filter_positions(rows, keeps);
    assert forall|k: int| 0 <= k < kept.len() implies {
        &&& add_counts(engine, prune, checkpoint, #[trigger] positions[k])
        &&& kept[k] == rows[positions[k]]
    } by {}
    assert forall|i: int| #[trigger] add_counts(engine, prune, checkpoint, i) implies exists|
        k: int,
    |
        0 <= k < kept.len() && #[trigger] positions[k] == i by {
        assert(keeps(rows[i]));
    }
    positions
}

/// The newest of the actions that pruning keeps are those that count and that none is newer than.
proof fn lemma_newest(
    engine: Engine,
    scan: ScanView,
    shape: ShapeView,
    prune: Option<PredicateView>,
    positions: Seq<int>,
    key: Value,
    k: int,
)
    requires
        is_sound(engine),
        plan_error(scan, shape) is None,
        0 <= k < positions.len(),
        are_action_positions(engine, scan, prune, positions),
        key_of(kept_commit_actions(engine, scan, prune)[k]) == key,
    ensures
        ({
            let rows = commit_actions(engine, scan);
            let commits = Table { schema: commit_schema(scan), rows };
            let kept = kept_commit_actions(engine, scan, prune);
            is_newest(kept, key, k) <==> none_is_newer(engine, prune, commits, positions[k])
        }),
{
    let rows = commit_actions(engine, scan);
    let commits = Table { schema: commit_schema(scan), rows };
    let kept = kept_commit_actions(engine, scan, prune);
    assert forall|i: int| 0 <= i < rows.len() implies #[trigger] rows[i].len() == 5
        && commits.get(i, "version"@) == rows[i][2] && commits.get(i, "file_action_key"@)
        == key_of(rows[i]) by {
        lemma_commit_action(engine, scan, i);
        lemma_commit_get(scan, shape, rows, i);
    }
    let w = positions[k];
    assert(rows[w] == kept[k]);
    if is_newest(kept, key, k) {
        assert forall|j: int| #[trigger]
            action_counts(engine, prune, commits, j) && on_same_file(commits, w, j) implies
            commits.get(j, "version"@)->Int_0 <= commits.get(w, "version"@)->Int_0 by {
            let l = choose|l: int| 0 <= l < kept.len() && #[trigger] positions[l] == j;
            assert(kept[l] == rows[j]);
            assert(key_of(kept[l]) == key);
        }
    }
    if none_is_newer(engine, prune, commits, w) {
        assert forall|l: int| 0 <= l < kept.len() && key_of(#[trigger] kept[l]) == key implies
            version_of(kept[l]) <= version_of(kept[k]) by {
            let j = positions[l];
            assert(action_counts(engine, prune, commits, j));
            assert(kept[l] == rows[j]);
            assert(on_same_file(commits, w, j));
        }
    }
}

/// Whether a value is a live add of the commits, by way of a file and of a newest action on it.
spec fn is_live_by(scan: ScanView, kept: Seq<Row>, key: Value, k: int, add: Value) -> bool {
    &&& is_newest(kept, key, k)
    &&& kept[k][0] == add
    &&& add != Value::Null
}

/// Whether positions are those of newest actions, one for each live add of the commits, on files
/// that differ.
spec fn are_newest_positions(scan: ScanView, kept: Seq<Row>, newest: Seq<int>) -> bool {
    let live = live_commit_adds(scan, kept);
    &&& newest.len() == live.len()
    &&& forall|m: int|
        0 <= m < live.len() ==> is_live_by(
            scan,
            kept,
            key_of(kept[#[trigger] newest[m]]),
            newest[m],
            live[m],
        )
    &&& forall|m: int, l: int|
        0 <= m < l < live.len() ==> key_of(kept[#[trigger] newest[m]]) != key_of(
            kept[#[trigger] newest[l]],
        )
    &&& forall|key: Value| #[trigger]
        acts_on(kept, key) && newest_add_on(scan, kept, key) != Value::Null ==> exists|
            m: int,
        |
            0 <= m < live.len() && key_of(kept[#[trigger] newest[m]]) == key
}

/// The live adds of the commits, each by way of a newest action on another file.
proof fn lemma_live_commit_adds(scan: ScanView, kept: Seq<Row>) -> (newest: Seq<int>)
    requires
        are_actions(kept),
    ensures
        are_newest_positions(scan, kept, newest),
{
    let files = files_acted_on(kept);
    let adds = files.map_values(|key: Value| newest_add_on(scan, kept, key));
    let not_null = |add: Value| add != Value::Null;
    let live = live_commit_adds(scan, kept);
    law_each_file_once(kept);
    let positions = lemma_filter_positions(adds, not_null);
    assert(live == adds.filter(not_null));
    let newest = Seq::new(
        live.len(),
        |m: int|
            choose|k: int|
                is_live_by(scan, kept, files[positions[m]], k, live[m]),
    );
    assert forall|m: int| 0 <= m < live.len() implies is_live_by(
        scan,
        kept,
        key_of(kept[#[trigger] newest[m]]),
        newest[m],
        live[m],
    ) && key_of(kept[newest[m]]) == files[positions[m]] by {
        let key = files[positions[m]];
        assert(files.contains(key));
        assert(acts_on(kept, key));
        law_newest_action_wins(scan, kept, key);
        let k = choose|k: int|
            #[trigger] is_newest(kept, key, k) && newest_add_on(scan, kept, key) == kept[k][0];
        assert(live[m] == adds[positions[m]]);
        assert(is_live_by(scan, kept, key, k, live[m]));
        assert(is_live_by(scan, kept, key, newest[m], live[m]));
    }
    assert forall|m: int, l: int| 0 <= m < l < live.len() implies key_of(
        kept[#[trigger] newest[m]],
    ) != key_of(kept[#[trigger] newest[l]]) by {
        assert(positions[m] < positions[l]);
        assert(files[positions[m]] != files[positions[l]]);
    }
    assert forall|key: Value| #[trigger]
        acts_on(kept, key) && newest_add_on(scan, kept, key) != Value::Null implies exists|m: int|
        0 <= m < live.len() && key_of(kept[#[trigger] newest[m]]) == key by {
        assert(files.contains(key));
        let f = choose|f: int| 0 <= f < files.len() && files[f] == key;
        assert(not_null(adds[f]));
        let m = choose|m: int| 0 <= m < positions.len() && #[trigger] positions[m] == f;
        assert(key_of(kept[newest[m]]) == key);
    }
    newest
}

/// The columns of a plan's output.
spec fn out_of(
    engine: Engine,
    scan: ScanView,
    shape: ShapeView,
    prune: Option<PredicateView>,
) -> Table {
    Table {
        schema: output_schema(output_patch(scan, normalized_add_view(scan))),
        rows: reconciled(engine, scan, shape, prune),
    }
}

/// The commits of a scan.
spec fn commits_of(engine: Engine, scan: ScanView) -> Table {
    Table { schema: commit_schema(scan), rows: commit_actions(engine, scan) }
}

/// The checkpoint of a scan.
spec fn checkpoint_of(engine: Engine, scan: ScanView, shape: ShapeView) -> Table {
    Table { schema: checkpoint_schema(scan, shape), rows: checkpoint_adds(engine, scan, shape) }
}

/// A row that is returned for an action of the commits has a rightful origin.
proof fn lemma_commit_rightful(
    engine: Engine,
    scan: ScanView,
    shape: ShapeView,
    prune: Option<PredicateView>,
    positions: Seq<int>,
    newest: Seq<int>,
    m: int,
)
    requires
        is_sound(engine),
        plan_error(scan, shape) is None,
        are_action_positions(engine, scan, prune, positions),
        are_newest_positions(scan, kept_commit_actions(engine, scan, prune), newest),
        0 <= m < newest.len(),
    ensures
        0 <= newest[m] < positions.len(),
        is_rightful(
            engine,
            scan,
            prune,
            commits_of(engine, scan),
            checkpoint_of(engine, scan, shape),
            out_of(engine, scan, shape, prune),
            m,
            Origin::Commit(positions[newest[m]]),
        ),
{
    let kept = kept_commit_actions(engine, scan, prune);
    let live = live_commit_adds(scan, kept);
    let commits = commits_of(engine, scan);
    let k = newest[m];
    let key = key_of(kept[k]);
    assert(is_live_by(scan, kept, key, k, live[m]));
    let i = positions[k];
    lemma_newest(engine, scan, shape, prune, positions, key, k);
    lemma_commit_action(engine, scan, i);
    lemma_commit_get(scan, shape, commits.rows, i);
    let children = commit_add_children(scan);
    law_returned_add(scan, children, live[m]);
    lemma_names(scan, shape);
    let out = out_of(engine, scan, shape, prune);
    assert(out.rows[m] == seq![returned_add(scan, children, live[m])]);
    lemma_returned_for_whole(
        scan,
        commits.schema,
        commits.rows[i],
        children,
        out.schema,
        out.rows[m],
    );
}

/// Whether an action that pruning keeps acts on a file can be said of those that count.
proof fn lemma_acts_on(
    engine: Engine,
    scan: ScanView,
    shape: ShapeView,
    prune: Option<PredicateView>,
    positions: Seq<int>,
    key: Value,
)
    requires
        is_sound(engine),
        plan_error(scan, shape) is None,
        are_action_positions(engine, scan, prune, positions),
    ensures
        acts_on(kept_commit_actions(engine, scan, prune), key) <==> exists|i: int|
            #[trigger] action_counts(engine, prune, commits_of(engine, scan), i) && commits_of(
                engine,
                scan,
            ).get(i, "file_action_key"@) == key,
{
    let kept = kept_commit_actions(engine, scan, prune);
    let commits = commits_of(engine, scan);
    if acts_on(kept, key) {
        let k = choose|k: int| 0 <= k < kept.len() && key_of(#[trigger] kept[k]) == key;
        let i = positions[k];
        lemma_commit_action(engine, scan, i);
        lemma_commit_get(scan, shape, commits.rows, i);
        assert(action_counts(engine, prune, commits, i));
    }
    if exists|i: int| #[trigger]
        action_counts(engine, prune, commits, i) && commits.get(i, "file_action_key"@) == key {
        let i = choose|i: int| #[trigger]
            action_counts(engine, prune, commits, i) && commits.get(i, "file_action_key"@) == key;
        lemma_commit_action(engine, scan, i);
        lemma_commit_get(scan, shape, commits.rows, i);
        let k = choose|k: int| 0 <= k < kept.len() && #[trigger] positions[k] == i;
        assert(kept[k] == commits.rows[i]);
    }
}

/// An add of the checkpoint that pruning keeps is untouched exactly if no kept action acts on its
/// file.
proof fn lemma_untouched(
    engine: Engine,
    scan: ScanView,
    shape: ShapeView,
    prune: Option<PredicateView>,
    positions: Seq<int>,
    add_positions: Seq<int>,
    k: int,
)
    requires
        is_sound(engine),
        plan_error(scan, shape) is None,
        are_action_positions(engine, scan, prune, positions),
        are_add_positions(engine, scan, shape, prune, add_positions),
        0 <= k < add_positions.len(),
    ensures
        is_untouched(
            engine,
            prune,
            commits_of(engine, scan),
            checkpoint_of(engine, scan, shape),
            add_positions[k],
        ) <==> !acts_on(
            kept_commit_actions(engine, scan, prune),
            key_of(kept_checkpoint_adds(engine, scan, shape, prune)[k]),
        ),
{
    let adds = kept_checkpoint_adds(engine, scan, shape, prune);
    let checkpoint = checkpoint_of(engine, scan, shape);
    let j = add_positions[k];
    assert(add_counts(engine, prune, checkpoint, j));
    assert(adds[k] == checkpoint.rows[j]);
    lemma_kept_add(engine, scan, shape, prune, k);
    lemma_checkpoint_get(scan, shape, checkpoint.rows, j);
    lemma_acts_on(engine, scan, shape, prune, positions, key_of(adds[k]));
}

/// A row that is returned for an add of the checkpoint has a rightful origin.
proof fn lemma_checkpoint_rightful(
    engine: Engine,
    scan: ScanView,
    shape: ShapeView,
    prune: Option<PredicateView>,
    positions: Seq<int>,
    add_positions: Seq<int>,
    left: Seq<int>,
    m: int,
)
    requires
        is_sound(engine),
        plan_error(scan, shape) is None,
        are_action_positions(engine, scan, prune, positions),
        are_add_positions(engine, scan, shape, prune, add_positions),
        ({
            let kept = kept_commit_actions(engine, scan, prune);
            are_kept_positions(
                kept_checkpoint_adds(engine, scan, shape, prune),
                |row: Row| !acts_on(kept, key_of(row)),
                left,
            )
        }),
        0 <= m < left.len(),
    ensures
        0 <= left[m] < add_positions.len(),
        is_rightful(
            engine,
            scan,
            prune,
            commits_of(engine, scan),
            checkpoint_of(engine, scan, shape),
            out_of(engine, scan, shape, prune),
            live_commit_adds(scan, kept_commit_actions(engine, scan, prune)).len() + m,
            Origin::Checkpoint(add_positions[left[m]]),
        ),
{
    let kept = kept_commit_actions(engine, scan, prune);
    let adds = kept_checkpoint_adds(engine, scan, shape, prune);
    let stays = |row: Row| !acts_on(kept, key_of(row));
    let checkpoint = checkpoint_of(engine, scan, shape);
    let k = left[m];
    assert(stays(adds[k]));
    let j = add_positions[k];
    lemma_untouched(engine, scan, shape, prune, positions, add_positions, k);
    lemma_kept_add(engine, scan, shape, prune, k);
    assert(adds[k] == checkpoint.rows[j]);
    let children = checkpoint_add_children(scan, shape);
    law_returned_add(scan, children, adds[k][0]);
    lemma_names(scan, shape);
    let out = out_of(engine, scan, shape, prune);
    let n = live_commit_adds(scan, kept).len() + m;
    assert(adds.filter(stays)[m] == adds[k]);
    assert(live_checkpoint_adds(kept, adds)[m] == adds[k][0]);
    assert(out.rows[n] == seq![returned_add(scan, children, adds[k][0])]);
    lemma_returned_for_whole(
        scan,
        checkpoint.schema,
        checkpoint.rows[j],
        children,
        out.schema,
        out.rows[n],
    );
}

/// A scan returns the live adds of its log, each once. The adds are those of the arms; what is live
/// and what is returned of it are said of the rows of the arms by the names of their columns.
#[verifier::rlimit(40)]
pub proof fn law_live_rows(
    engine: Engine,
    scan: ScanView,
    shape: ShapeView,
    prune: Option<PredicateView>,
) -> (origins: Seq<Origin>)
    requires
        is_sound(engine),
        metadata_relation(scan, shape, prune) is Ok,
    ensures
        commit_relation(scan) is Ok,
        checkpoint_relation(scan, shape) is Ok,
        are_live_rows(
            engine,
            scan,
            prune,
            Table {
                schema: commit_relation(scan)->Ok_0.schema,
                rows: rows_of(engine, commit_relation(scan)->Ok_0),
            },
            Table {
                schema: checkpoint_relation(scan, shape)->Ok_0.schema,
                rows: rows_of(engine, checkpoint_relation(scan, shape)->Ok_0),
            },
            Table {
                schema: metadata_relation(scan, shape, prune)->Ok_0.schema,
                rows: rows_of(engine, metadata_relation(scan, shape, prune)->Ok_0),
            },
            origins,
        ),
{
    law_plan_reconciles(engine, scan, shape, prune);
    law_commit_arm(engine, scan);
    law_checkpoint_arm(engine, scan, shape);
    let commit_rows = commit_actions(engine, scan);
    let checkpoint_rows = checkpoint_adds(engine, scan, shape);
    let commits = Table { schema: commit_schema(scan), rows: commit_rows };
    let checkpoint = Table { schema: checkpoint_schema(scan, shape), rows: checkpoint_rows };
    let out = Table {
        schema: metadata_relation(scan, shape, prune)->Ok_0.schema,
        rows: reconciled(engine, scan, shape, prune),
    };
    let kept = kept_commit_actions(engine, scan, prune);
    let kept_adds = kept_checkpoint_adds(engine, scan, shape, prune);
    lemma_all_kept(engine, scan, shape, prune);
    let in_commits = lemma_action_positions(engine, scan, shape, prune);
    let in_checkpoint = lemma_add_positions(engine, scan, shape, prune);
    let newest = lemma_live_commit_adds(scan, kept);
    let stays = |row: Row| !acts_on(kept, key_of(row));
    let in_adds = lemma_filter_positions(kept_adds, stays);
    let live = live_commit_adds(scan, kept);
    let left = live_checkpoint_adds(kept, kept_adds);
    let from_commits = Seq::new(live.len(), |m: int| Origin::Commit(in_commits[newest[m]]));
    let from_checkpoint = Seq::new(
        left.len(),
        |m: int| Origin::Checkpoint(in_checkpoint[in_adds[m]]),
    );
    let origins = from_commits + from_checkpoint;
    assert(commits == commits_of(engine, scan));
    assert(checkpoint == checkpoint_of(engine, scan, shape));
    law_output_schema(scan);
    assert(out == out_of(engine, scan, shape, prune));
    assert(live.len() + left.len() == out.rows.len());
    assert forall|n: int| 0 <= n < origins.len() implies is_rightful(
        engine,
        scan,
        prune,
        commits,
        checkpoint,
        out,
        n,
        #[trigger] origins[n],
    ) by {
        if n < live.len() {
            lemma_commit_rightful(engine, scan, shape, prune, in_commits, newest, n);
        } else {
            lemma_checkpoint_rightful(
                engine,
                scan,
                shape,
                prune,
                in_commits,
                in_checkpoint,
                in_adds,
                n - live.len(),
            );
        }
    }
    assert forall|n: int, m: int| 0 <= n < m < origins.len() implies match (
        #[trigger] origins[n],
        #[trigger] origins[m],
    ) {
        (Origin::Commit(i), Origin::Commit(j)) => !on_same_file(commits, i, j),
        (Origin::Checkpoint(i), Origin::Checkpoint(j)) => i < j,
        (Origin::Commit(_), Origin::Checkpoint(_)) => true,
        (Origin::Checkpoint(_), Origin::Commit(_)) => false,
    } by {
        if m < live.len() {
            lemma_commit_rightful(engine, scan, shape, prune, in_commits, newest, n);
            lemma_commit_rightful(engine, scan, shape, prune, in_commits, newest, m);
            let i = in_commits[newest[n]];
            let j = in_commits[newest[m]];
            lemma_commit_action(engine, scan, i);
            lemma_commit_action(engine, scan, j);
            lemma_commit_get(scan, shape, commit_rows, i);
            lemma_commit_get(scan, shape, commit_rows, j);
            assert(key_of(kept[newest[n]]) != key_of(kept[newest[m]]));
        } else if n >= live.len() {
            let a = in_adds[n - live.len()];
            let b = in_adds[m - live.len()];
            assert(a < b);
            assert(in_checkpoint[a] < in_checkpoint[b]);
        }
    }
    assert forall|i: int|
        {
            &&& #[trigger] action_counts(engine, prune, commits, i)
            &&& forall|j: int| #[trigger]
                none_is_newer(engine, prune, commits, j) && on_same_file(commits, i, j)
                    ==> commits.get(j, "add"@) != Value::Null
        } implies exists|n: int, w: int|
        {
            &&& 0 <= n < origins.len()
            &&& #[trigger] origins[n] == Origin::Commit(w)
            &&& #[trigger] on_same_file(commits, i, w)
        } by {
        lemma_commit_action(engine, scan, i);
        lemma_commit_get(scan, shape, commit_rows, i);
        let k = choose|k: int| 0 <= k < kept.len() && #[trigger] in_commits[k] == i;
        let key = key_of(kept[k]);
        assert(acts_on(kept, key));
        law_newest_action_wins(scan, kept, key);
        let c = choose|c: int|
            #[trigger] is_newest(kept, key, c) && newest_add_on(scan, kept, key) == kept[c][0];
        lemma_newest(engine, scan, shape, prune, in_commits, key, c);
        let j = in_commits[c];
        lemma_commit_action(engine, scan, j);
        lemma_commit_get(scan, shape, commit_rows, j);
        assert(none_is_newer(engine, prune, commits, j) && on_same_file(commits, i, j));
        let m = choose|m: int| 0 <= m < live.len() && key_of(kept[#[trigger] newest[m]]) == key;
        lemma_commit_rightful(engine, scan, shape, prune, in_commits, newest, m);
        let w = in_commits[newest[m]];
        lemma_commit_action(engine, scan, w);
        lemma_commit_get(scan, shape, commit_rows, w);
        assert(origins[m] == Origin::Commit(w));
        assert(on_same_file(commits, i, w));
    }
    assert forall|j: int| #[trigger]
        is_untouched(engine, prune, commits, checkpoint, j) implies exists|n: int|
        0 <= n < origins.len() && #[trigger] origins[n] == Origin::Checkpoint(j) by {
        assert(add_counts(engine, prune, checkpoint, j));
        let k = choose|k: int| 0 <= k < kept_adds.len() && #[trigger] in_checkpoint[k] == j;
        lemma_untouched(engine, scan, shape, prune, in_commits, in_checkpoint, k);
        assert(stays(kept_adds[k]));
        let m = choose|m: int| 0 <= m < in_adds.len() && #[trigger] in_adds[m] == k;
        assert(origins[live.len() + m] == Origin::Checkpoint(j));
    }
    origins
}

} // verus!
