//! What the plan builder makes of relations, and when it refuses.

use vstd::prelude::*;

use crate::error::Error;
use crate::expressions::{ExprView, PathView, PredicateView, ScalarView};
use crate::files::{FileType, ScanFileView};
use crate::plan::{live_plans, LoadView, MaxNonNullByView, PlanView, RelationView};
use crate::schema::{has_field, resolve, SchemaView};
use crate::schema_laws::law_lookup_by_name;
use crate::semantics::{
    distinct_keys, group_row, has_match, holds, key_values, lemma_aggregate, lemma_anti_join,
    lemma_filter, lemma_load, lemma_project, loaded_rows, project_row, rows_of, rows_of_plan,
    scalar_value, scan_rows, united_rows, Engine, Row, Value,
};

verus! {

/// Whether a schema has a column of a name.
pub open spec fn has_column(schema: SchemaView, name: Seq<char>) -> bool {
    exists|c: int| 0 <= c < schema.len() && (#[trigger] schema[c]).name == name
}

/// A scan is of the files that it is given, all of them, and nothing else; without files it is
/// empty. It is refused exactly if a constant is for no column of the schema, or if a file does not
/// have a value for each constant.
pub proof fn law_scan(
    engine: Engine,
    file_type: FileType,
    files: Seq<ScanFileView>,
    constants: PathView,
    schema: SchemaView,
)
    ensures
        match RelationView::scan(file_type, files, constants, schema) {
            Ok(scanned) => {
                &&& forall|k: int|
                    0 <= k < constants.len() ==> has_column(schema, #[trigger] constants[k])
                &&& forall|i: int|
                    0 <= i < files.len() ==> (#[trigger] files[i]).constants.len()
                        == constants.len()
                &&& scanned.schema == schema
                &&& files.len() == 0 ==> scanned.plan is None
                &&& files.len() > 0 ==> scanned.plan == Some(
                    PlanView::Scan { file_type, files, constants, schema },
                )
                &&& rows_of(engine, scanned) == scan_rows(
                    engine,
                    file_type,
                    files,
                    constants,
                    schema,
                )
            },
            Err(e) => {
                ||| e == Error::UnknownColumn && exists|k: int|
                    0 <= k < constants.len() && !has_column(schema, #[trigger] constants[k])
                ||| e == Error::ArityMismatch && exists|i: int|
                    0 <= i < files.len() && (#[trigger] files[i]).constants.len()
                        != constants.len()
            },
        },
{
    assert forall|k: int| 0 <= k < constants.len() implies has_column(
        schema,
        #[trigger] constants[k],
    ) == has_field(schema, constants[k]) by {
        law_lookup_by_name(schema, constants[k]);
    }
}

/// A relation of given rows holds those rows, and is refused exactly if a row does not have a value
/// for each column.
pub proof fn law_values(engine: Engine, schema: SchemaView, rows: Seq<Seq<ScalarView>>)
    ensures
        match RelationView::values(schema, rows) {
            Ok(relation) => {
                &&& relation.schema == schema
                &&& rows_of(engine, relation).len() == rows.len()
                &&& forall|i: int, c: int|
                    #![trigger rows_of(engine, relation)[i][c]]
                    0 <= i < rows.len() && 0 <= c < schema.len() ==> rows[i].len() == schema.len()
                        && rows_of(engine, relation)[i][c] == scalar_value(rows[i][c])
                &&& relation.plan is None <==> rows.len() == 0
            },
            Err(e) => e == Error::ArityMismatch && exists|i: int|
                0 <= i < rows.len() && (#[trigger] rows[i]).len() != schema.len(),
        },
{
}

/// A filter keeps the rows for which the predicate is true, in their order, and no others.
pub proof fn law_filter(engine: Engine, relation: RelationView, predicate: PredicateView)
    requires
        relation.wf(),
    ensures
        relation.filter(predicate).schema == relation.schema,
        relation.filter(predicate).plan is None <==> relation.plan is None,
        rows_of(engine, relation.filter(predicate)) == rows_of(engine, relation).filter(
            |row: Row| holds(engine, predicate, relation.schema, row),
        ),
        relation.filter_opt(None) == relation,
        relation.filter_opt(Some(predicate)) == relation.filter(predicate),
{
    lemma_filter(engine, relation, predicate);
}

/// A projection makes one row of each, in their order. It is refused exactly if its expression is
/// no struct with one expression for each column.
pub proof fn law_project(
    engine: Engine,
    relation: RelationView,
    expr: ExprView,
    schema: SchemaView,
)
    requires
        relation.wf(),
    ensures
        match relation.project(expr, schema) {
            Ok(projected) => {
                &&& expr matches ExprView::Struct(children, _)
                &&& children.len() == schema.len()
                &&& projected.schema == schema
                &&& projected.plan is None <==> relation.plan is None
                &&& rows_of(engine, projected).len() == rows_of(engine, relation).len()
                &&& forall|i: int|
                    0 <= i < rows_of(engine, relation).len() ==> #[trigger] rows_of(
                        engine,
                        projected,
                    )[i] == project_row(
                        engine,
                        expr,
                        relation.schema,
                        rows_of(engine, relation)[i],
                        schema,
                    )
            },
            Err(e) => {
                &&& e == Error::ArityMismatch
                &&& expr matches ExprView::Struct(children, _) ==> children.len() != schema.len()
            },
        },
{
    if relation.project(expr, schema) is Ok {
        lemma_project(engine, relation, expr, schema);
    }
}

/// An aggregation makes one row of each group of rows with the same keys: the keys, then for each
/// aggregate its value for the group. It is refused exactly if a column is not there.
pub proof fn law_aggregate(
    engine: Engine,
    relation: RelationView,
    keys: Seq<PathView>,
    aggregates: Seq<MaxNonNullByView>,
)
    requires
        relation.wf(),
    ensures
        match relation.aggregate_by(keys, aggregates) {
            Ok(grouped) => {
                let rows = rows_of(engine, relation);
                &&& grouped.schema.len() == keys.len() + aggregates.len()
                &&& forall|k: int|
                    0 <= k < keys.len() ==> Some(#[trigger] grouped.schema[k]) == resolve(
                        relation.schema,
                        keys[k],
                    )
                &&& forall|a: int|
                    0 <= a < aggregates.len() ==> {
                        let field = #[trigger] grouped.schema[keys.len() + a];
                        &&& resolve(relation.schema, aggregates[a].value) is Some
                        &&& resolve(relation.schema, aggregates[a].witness) is Some
                        &&& resolve(relation.schema, aggregates[a].order) is Some
                        &&& field.name == resolve(relation.schema, aggregates[a].value)->0.name
                        &&& field.data_type == resolve(
                            relation.schema,
                            aggregates[a].value,
                        )->0.data_type
                        &&& field.nullable
                    }
                &&& grouped.plan is None <==> relation.plan is None
                &&& rows_of(engine, grouped) == distinct_keys(
                    relation.schema,
                    keys,
                    rows,
                ).map_values(
                    |key: Seq<Value>| group_row(relation.schema, keys, key, aggregates, rows),
                )
            },
            Err(e) => {
                &&& e == Error::UnknownColumn
                &&& {
                    ||| exists|k: int|
                        0 <= k < keys.len() && resolve(relation.schema, #[trigger] keys[k]) is None
                    ||| exists|a: int|
                        {
                            &&& 0 <= a < aggregates.len()
                            &&& {
                                ||| resolve(
                                    relation.schema,
                                    (#[trigger] aggregates[a]).value,
                                ) is None
                                ||| resolve(relation.schema, aggregates[a].witness) is None
                                ||| resolve(relation.schema, aggregates[a].order) is None
                            }
                        }
                }
            },
        },
{
    if relation.aggregate_by(keys, aggregates) is Ok {
        lemma_aggregate(engine, relation, keys, aggregates);
        assert forall|k: int| 0 <= k < keys.len() implies resolve(
            relation.schema,
            #[trigger] keys[k],
        ) is Some by {}
    }
}

/// An anti-join keeps the rows of the left relation that no row of the right one matches in its
/// keys, in their order. It is refused exactly if the keys do not pair up or a key is not there.
pub proof fn law_anti_join(
    engine: Engine,
    left: RelationView,
    right: RelationView,
    left_keys: Seq<PathView>,
    right_keys: Seq<PathView>,
)
    requires
        left.wf(),
        right.wf(),
    ensures
        match left.anti_join(right, left_keys, right_keys) {
            Ok(joined) => {
                &&& left_keys.len() == right_keys.len()
                &&& forall|k: int|
                    0 <= k < left_keys.len() ==> resolve(
                        left.schema,
                        #[trigger] left_keys[k],
                    ) is Some
                &&& forall|k: int|
                    0 <= k < right_keys.len() ==> resolve(
                        right.schema,
                        #[trigger] right_keys[k],
                    ) is Some
                &&& joined.schema == left.schema
                &&& joined.plan is None <==> left.plan is None
                &&& rows_of(engine, joined) == rows_of(engine, left).filter(
                    |row: Row|
                        !has_match(
                            right.schema,
                            right_keys,
                            rows_of(engine, right),
                            key_values(left.schema, left_keys, row),
                        ),
                )
            },
            Err(e) => {
                ||| e == Error::ArityMismatch && left_keys.len() != right_keys.len()
                ||| e == Error::UnknownColumn && exists|k: int|
                    0 <= k < left_keys.len() && resolve(
                        left.schema,
                        #[trigger] left_keys[k],
                    ) is None
                ||| e == Error::UnknownColumn && exists|k: int|
                    0 <= k < right_keys.len() && resolve(
                        right.schema,
                        #[trigger] right_keys[k],
                    ) is None
            },
        },
{
    if left.anti_join(right, left_keys, right_keys) is Ok {
        lemma_anti_join(engine, left, right, left_keys, right_keys);
    }
}

/// The rows of relations, one after the other.
pub open spec fn rows_of_all(engine: Engine, relations: Seq<RelationView>) -> Seq<Row>
    decreases relations.len(),
{
    if relations.len() == 0 {
        seq![]
    } else {
        rows_of_all(engine, relations.drop_last()) + rows_of(engine, relations.last())
    }
}

/// Relations without a plan add no rows.
proof fn lemma_live_rows(engine: Engine, relations: Seq<RelationView>)
    ensures
        united_rows(engine, live_plans(relations)) == rows_of_all(engine, relations),
        live_plans(relations).len() == 0 ==> forall|i: int|
            0 <= i < relations.len() ==> (#[trigger] relations[i]).plan is None,
        live_plans(relations).len() > 0 ==> exists|i: int|
            0 <= i < relations.len() && (#[trigger] relations[i]).plan is Some,
    decreases relations.len(),
{
    if relations.len() > 0 {
        let init = relations.drop_last();
        lemma_live_rows(engine, init);
        let before = live_plans(init);
        let last = relations[relations.len() - 1];
        match last.plan {
            Some(plan) => {
                assert(before.push(plan).drop_last() =~= before);
                assert(last == relations.last());
            },
            None => {
                assert(rows_of_all(engine, init) + rows_of(engine, last) =~= rows_of_all(
                    engine,
                    init,
                ));
                if before.len() == 0 {
                    assert forall|i: int| 0 <= i < relations.len() implies (
                    #[trigger] relations[i]).plan is None by {
                        if i < init.len() {
                            assert(init[i] == relations[i]);
                        }
                    }
                } else {
                    let i = choose|i: int| 0 <= i < init.len() && (#[trigger] init[i]).plan is Some;
                    assert(relations[i] == init[i]);
                }
            },
        }
    }
}

/// A union has the rows of all its relations, in their order, however many there are. It is refused
/// exactly if there are none or if their schemas differ.
pub proof fn law_union(engine: Engine, relations: Seq<RelationView>)
    ensures
        match RelationView::union_all(relations) {
            Ok(united) => {
                &&& relations.len() > 0
                &&& forall|i: int|
                    0 <= i < relations.len() ==> (#[trigger] relations[i]).schema == united.schema
                &&& united.plan is None <==> forall|i: int|
                    0 <= i < relations.len() ==> (#[trigger] relations[i]).plan is None
                &&& rows_of(engine, united) == rows_of_all(engine, relations)
            },
            Err(e) => {
                ||| e == Error::EmptyPlan && relations.len() == 0
                ||| e == Error::SchemaMismatch && exists|i: int|
                    0 <= i < relations.len() && (#[trigger] relations[i]).schema
                        != relations[0].schema
            },
        },
{
    lemma_live_rows(engine, relations);
    let live = live_plans(relations);
    if live.len() == 1 {
        assert(live.drop_last() =~= Seq::<PlanView>::empty());
        reveal_with_fuel(united_rows, 2);
        assert(Seq::<Row>::empty() + rows_of_plan(engine, live[0]) =~= rows_of_plan(
            engine,
            live[0],
        ));
    }
    if RelationView::union_all(relations) is Ok {
        let united = RelationView::union_all(relations)->Ok_0;
        if exists|i: int| 0 <= i < relations.len() && (#[trigger] relations[i]).plan is Some {
            assert(live.len() > 0);
        }
    }
}

/// A load reads the files that the rows name, in their order. It is refused exactly if a column
/// that describes the files is not there, or a constant is not there in the rows or in the files.
pub proof fn law_load(engine: Engine, relation: RelationView, load: LoadView)
    requires
        relation.wf(),
    ensures
        match relation.load(load) {
            Ok(loaded) => {
                &&& resolve(relation.schema, load.path) is Some
                &&& resolve(relation.schema, load.size) is Some
                &&& resolve(relation.schema, load.num_records) is Some
                &&& resolve(relation.schema, load.deletion_vector) is Some
                &&& forall|k: int|
                    0 <= k < load.constants.len() ==> has_column(
                        relation.schema,
                        #[trigger] load.constants[k],
                    ) && has_column(load.schema, load.constants[k])
                &&& loaded.schema == load.schema
                &&& loaded.plan is None <==> relation.plan is None
                &&& relation.plan matches Some(input) ==> loaded.plan == Some(
                    PlanView::Load { input: Box::new(input), load },
                )
                &&& rows_of(engine, loaded) == loaded_rows(
                    engine,
                    load,
                    relation.schema,
                    rows_of(engine, relation),
                )
            },
            Err(e) => {
                &&& e == Error::UnknownColumn
                &&& {
                    ||| resolve(relation.schema, load.path) is None
                    ||| resolve(relation.schema, load.size) is None
                    ||| resolve(relation.schema, load.num_records) is None
                    ||| resolve(relation.schema, load.deletion_vector) is None
                    ||| exists|k: int|
                        {
                            &&& 0 <= k < load.constants.len()
                            &&& {
                                ||| !has_column(relation.schema, #[trigger] load.constants[k])
                                ||| !has_column(load.schema, load.constants[k])
                            }
                        }
                }
            },
        },
{
    if relation.load(load) is Ok {
        lemma_load(engine, relation, load);
    }
    assert forall|k: int| 0 <= k < load.constants.len() implies (has_column(
        relation.schema,
        #[trigger] load.constants[k],
    ) == has_field(relation.schema, load.constants[k])) && (has_column(
        load.schema,
        load.constants[k],
    ) == has_field(load.schema, load.constants[k])) by {
        law_lookup_by_name(relation.schema, load.constants[k]);
        law_lookup_by_name(load.schema, load.constants[k]);
    }
}

} // verus!
