//! What a scan returns of an add, by the names of its fields.

use vstd::prelude::*;

use crate::expressions::PathView;
use crate::output_laws::{
    law_narrowing, law_output_schema, narrowed_value, returned_add, returned_base,
    returned_children,
};
use crate::scan_plan::{
    extracted_add_view, lemma_add_names_distinct, narrowed_expr, normalized_add_view,
    output_partitions, output_patch, output_schema, parsed_fields, ScanView,
};
use crate::schema::{
    distinct_names, field_pos, has_field, is_field_at, nullable_field, resolve, DataTypeView,
    SchemaView,
};
use crate::semantics::{eval_expr, lemma_lookup, lemma_lookup_child, lookup, Engine, Row, Value};

verus! {

/// What is inside of a null is null, however deep.
proof fn lemma_below_null(schema: SchemaView, row: Row, path: PathView, rest: PathView)
    requires
        path.len() > 0,
        rest.len() > 0,
        lookup(schema, row, path) == Value::Null,
    ensures
        lookup(schema, row, path + rest) == Value::Null,
    decreases path.len(),
{
    let all = path + rest;
    assert(all[0] == path[0]);
    if has_field(schema, path[0]) {
        let p = field_pos(schema, path[0]);
        if path.len() > 1 {
            if let DataTypeView::Struct(children) = schema[p].data_type {
                if let Value::Record(values) = row[p] {
                    assert(all.drop_first() =~= path.drop_first() + rest);
                    lemma_below_null(children, values, path.drop_first(), rest);
                }
            }
        }
    }
}

/// Whether a narrowed struct holds at a path what the whole struct holds there: the same value at a
/// field that is no struct, and a struct exactly where there is one.
pub open spec fn agrees_at(
    wanted: SchemaView,
    values: Row,
    schema: SchemaView,
    row: Row,
    root: PathView,
    path: PathView,
) -> bool {
    &&& lookup(wanted, values, path) == Value::Null <==> lookup(schema, row, root + path)
        == Value::Null
    &&& !(resolve(wanted, path)->0.data_type is Struct) ==> lookup(wanted, values, path) == lookup(
        schema,
        row,
        root + path,
    )
}

proof fn lemma_narrowed_at(
    schema: SchemaView,
    row: Row,
    root: PathView,
    wanted: SchemaView,
    path: PathView,
)
    requires
        root.len() > 0,
        lookup(schema, row, root) != Value::Null,
        resolve(wanted, path) is Some,
    ensures
        agrees_at(
            wanted,
            narrowed_value(schema, row, root, wanted)->Record_0,
            schema,
            row,
            root,
            path,
        ),
    decreases path.len(),
{
    let values = narrowed_value(schema, row, root, wanted)->Record_0;
    let p = field_pos(wanted, path[0]);
    let column = root.push(path[0]);
    let rest = path.drop_first();
    assert(is_field_at(wanted, path[0], p));
    assert(values[p] == match wanted[p].data_type {
        DataTypeView::Struct(children) => narrowed_value(schema, row, column, children),
        _ => lookup(schema, row, column),
    });
    if path.len() == 1 {
        assert(root + path =~= column);
        if let DataTypeView::Struct(children) = wanted[p].data_type {
            assert(narrowed_value(schema, row, column, children) == Value::Null <==> lookup(
                schema,
                row,
                column,
            ) == Value::Null);
        }
    } else {
        let children = wanted[p].data_type->Struct_0;
        assert(root + path =~= column + rest);
        if lookup(schema, row, column) == Value::Null {
            lemma_below_null(schema, row, column, rest);
        } else {
            lemma_narrowed_at(schema, row, column, children, rest);
        }
    }
}

/// A narrowed struct is null exactly where the whole one is. Otherwise it has the requested fields
/// and no others, and at each of them, at any depth, holds what the whole one holds there.
pub proof fn law_narrowed_fields(
    engine: Engine,
    schema: SchemaView,
    row: Row,
    root: PathView,
    wanted: SchemaView,
    target: DataTypeView,
)
    requires
        root.len() > 0,
    ensures
        ({
            let value = eval_expr(engine, narrowed_expr(root, wanted), schema, row, target);
            &&& value == Value::Null <==> lookup(schema, row, root) == Value::Null
            &&& value != Value::Null ==> {
                &&& value matches Value::Record(values)
                &&& values.len() == wanted.len()
                &&& forall|path: PathView|
                    #![trigger resolve(wanted, path)]
                    resolve(wanted, path) is Some ==> agrees_at(
                        wanted,
                        values,
                        schema,
                        row,
                        root,
                        path,
                    )
            }
        }),
{
    law_narrowing(engine, schema, row, root, wanted, target);
    if lookup(schema, row, root) != Value::Null {
        assert forall|path: PathView|
            #![trigger resolve(wanted, path)]
            resolve(wanted, path) is Some implies agrees_at(
            wanted,
            narrowed_value(schema, row, root, wanted)->Record_0,
            schema,
            row,
            root,
            path,
        ) by {
            lemma_narrowed_at(schema, row, root, wanted, path);
        }
    }
}

/// Whether a returned row holds, below the struct of the given name in its add, the requested
/// fields of the same struct in the add that it was made of, at any depth.
pub open spec fn returns_struct(
    name: Seq<char>,
    wanted: SchemaView,
    schema: SchemaView,
    row: Row,
    returned: Value,
) -> bool {
    let root = seq!["add"@, name];
    &&& returned == Value::Null <==> lookup(schema, row, root) == Value::Null
    &&& returned matches Value::Record(values) ==> {
        &&& values.len() == wanted.len()
        &&& forall|path: PathView|
            #![trigger resolve(wanted, path)]
            resolve(wanted, path) is Some ==> agrees_at(wanted, values, schema, row, root, path)
    }
    &&& returned is Null || returned is Record
}

/// Whether a row with one column of adds is what a scan returns of a row with an add: the fields of
/// the log as they were, but for the JSON statistics unless those are requested; the requested
/// parsed statistics; and the parsed partition values, if they are requested.
pub open spec fn is_returned_for(
    scan: ScanView,
    schema: SchemaView,
    row: Row,
    out_schema: SchemaView,
    out: Row,
) -> bool {
    &&& out.len() == 1
    &&& lookup(out_schema, out, seq!["add"@]) == Value::Null <==> lookup(schema, row, seq!["add"@])
        == Value::Null
    &&& lookup(schema, row, seq!["add"@]) != Value::Null ==> {
        &&& forall|k: int|
            #![trigger extracted_add_view()[k]]
            0 <= k < 11 && (extracted_add_view()[k].name != "stats"@ || scan.synthesize_json)
                ==> lookup(out_schema, out, seq!["add"@, extracted_add_view()[k].name]) == lookup(
                schema,
                row,
                seq!["add"@, extracted_add_view()[k].name],
            )
        &&& scan.stats_output_schema matches Some(wanted) ==> returns_struct(
            "stats_parsed"@,
            wanted,
            schema,
            row,
            lookup(out_schema, out, seq!["add"@, "stats_parsed"@]),
        )
        &&& scan.parsed_partition_values && scan.partition_schema is Some ==> returns_struct(
            "partitionValues_parsed"@,
            scan.partition_schema->0,
            schema,
            row,
            lookup(out_schema, out, seq!["add"@, "partitionValues_parsed"@]),
        )
    }
}

/// A narrowed struct returns the struct that it was made of.
proof fn lemma_returns_struct(
    name: Seq<char>,
    wanted: SchemaView,
    schema: SchemaView,
    row: Row,
)
    ensures
        returns_struct(
            name,
            wanted,
            schema,
            row,
            narrowed_value(schema, row, seq!["add"@, name], wanted),
        ),
{
    let root = seq!["add"@, name];
    let returned = narrowed_value(schema, row, root, wanted);
    if let Value::Record(values) = returned {
        assert forall|path: PathView|
            #![trigger resolve(wanted, path)]
            resolve(wanted, path) is Some implies agrees_at(
            wanted,
            values,
            schema,
            row,
            root,
            path,
        ) by {
            lemma_narrowed_at(schema, row, root, wanted, path);
        }
    }
}

/// The names of the children that a scan returns differ.
proof fn lemma_returned_names(scan: ScanView)
    ensures
        distinct_names(returned_children(scan)),
{
    let stats = scan.stats_output_schema;
    let partitions = output_partitions(scan);
    lemma_add_names_distinct(stats, partitions);
    let all = extracted_add_view() + parsed_fields(stats, partitions);
    let children = returned_children(scan);
    if !scan.synthesize_json {
        assert forall|i: int, j: int| 0 <= i < j < children.len() implies (
        #[trigger] children[i]).name != (#[trigger] children[j]).name by {
            let a = if i < 5 {
                i
            } else {
                i + 1
            };
            let b = if j < 5 {
                j
            } else {
                j + 1
            };
            assert(children[i] == all[a] && children[j] == all[b]);
        }
    } else {
        assert(children =~= all);
    }
}

/// A scan returns of an add, by their names, the fields that were requested and what they held.
pub proof fn law_returned_add(scan: ScanView, children: SchemaView, add: Value)
    requires
        scan.stats_output_schema is Some ==> scan.stats_schema is Some,
        add is Null || add is Record,
    ensures
        is_returned_for(
            scan,
            seq![nullable_field("add"@, DataTypeView::Struct(children))],
            seq![add],
            output_schema(output_patch(scan, normalized_add_view(scan))),
            seq![returned_add(scan, children, add)],
        ),
{
    let schema = seq![nullable_field("add"@, DataTypeView::Struct(children))];
    let row = seq![add];
    let out_schema = output_schema(output_patch(scan, normalized_add_view(scan)));
    let out = seq![returned_add(scan, children, add)];
    let base = returned_base(scan);
    let kids = returned_children(scan);
    law_output_schema(scan);
    lemma_returned_names(scan);
    lemma_lookup(schema, row, 0);
    lemma_lookup(out_schema, out, 0);
    if add is Record {
        reveal_strlit("stats");
        assert forall|k: int|
            #![trigger extracted_add_view()[k]]
            0 <= k < 11 && (extracted_add_view()[k].name != "stats"@
                || scan.synthesize_json) implies lookup(
            out_schema,
            out,
            seq!["add"@, extracted_add_view()[k].name],
        ) == lookup(schema, row, seq!["add"@, extracted_add_view()[k].name]) by {
            let i = if scan.synthesize_json || k < 5 {
                k
            } else {
                k - 1
            };
            assert(extracted_add_view()[5].name == "stats"@);
            assert(base[i] == extracted_add_view()[k]);
            assert(kids[i] == base[i]);
            lemma_lookup_child(out_schema, out, 0, kids, i);
        }
        let n = base.len() as int;
        if let Some(wanted) = scan.stats_output_schema {
            assert(kids[n].name == "stats_parsed"@);
            lemma_lookup_child(out_schema, out, 0, kids, n);
            lemma_returns_struct("stats_parsed"@, wanted, schema, row);
        }
        if scan.parsed_partition_values && scan.partition_schema is Some {
            let m = if scan.stats_output_schema is Some {
                n + 1
            } else {
                n
            };
            assert(kids[m].name == "partitionValues_parsed"@);
            lemma_lookup_child(out_schema, out, 0, kids, m);
            lemma_returns_struct(
                "partitionValues_parsed"@,
                scan.partition_schema->0,
                schema,
                row,
            );
        }
    }
}

} // verus!
